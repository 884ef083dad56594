use enigma_editor::engine::Engine;
use enigma_editor::project_file::{parse_project, serialize_project};
use enigma_editor::resources::{BinaryResource, ResourceType, TextResource};

fn sample() -> Engine {
    let mut engine = Engine::new();
    engine.current_project = "foo/bar".to_string();
    engine.selected_resource = "logo".to_string();
    assert!(engine.add_binary_resource(BinaryResource::new("logo", vec![0, 7, 42, 255], ResourceType::Texture)));
    assert!(engine.add_binary_resource(BinaryResource::new("cube", vec![1, 2, 3], ResourceType::Model)));
    assert!(engine.add_binary_resource(BinaryResource::new("beep", vec![], ResourceType::Audio)));
    assert!(engine.add_binary_resource(BinaryResource::new("blob", vec![100, 10, 9], ResourceType::Other)));
    assert!(engine.add_text_resource(TextResource::new(
        "basic",
        "void main() {\n\tcolor = \"x\\y\";\r\n}\u{1}\u{1f}é",
        ResourceType::Shader,
    )));
    assert!(engine.add_text_resource(TextResource::new("notes", "", ResourceType::Other)));
    engine.object_resources.push("{\"name\":\"cube\"}".to_string());
    engine
}

#[test]
fn empty_project_text_is_exact() {
    let text = serialize_project(&Engine::new());
    let expected = "{\n  \"format_version\": 1,\n  \"current_project\": \"\",\n  \"selected_resource\": \"\",\n  \"object_builder_open\": false,\n  \"model_resources\": [],\n  \"audio_resources\": [],\n  \"texture_resources\": [],\n  \"other_binary_resources\": [],\n  \"shader_resources\": [],\n  \"other_text_resources\": [],\n  \"object_resources\": []\n}\n";
    assert_eq!(text, expected);
}

#[test]
fn descriptor_text_is_exact() {
    let mut engine = Engine::new();
    engine.add_binary_resource(BinaryResource::new("a\"b", vec![0, 12, 255], ResourceType::Model));
    let text = serialize_project(&engine);
    assert!(text.contains(
        "\"model_resources\": [\n    {\"name\": \"a\\\"b\", \"data\": [0,12,255], \"resource_type\": \"Model\"}\n  ],"
    ));
}

#[test]
fn saved_project_is_read_back() {
    let engine = sample();
    let text = serialize_project(&engine);
    let back = parse_project(&text).expect("the written file is a project file");
    assert_eq!(back.current_project, "foo/bar");
    assert_eq!(back.selected_resource, "logo");
    assert_eq!(back.texture_resources.len(), 1);
    assert_eq!(back.texture_resources[0].name, "logo");
    assert_eq!(back.texture_resources[0].data, vec![0, 7, 42, 255]);
    assert_eq!(back.texture_resources[0].resource_type, ResourceType::Texture);
    assert_eq!(back.model_resources[0].data, vec![1, 2, 3]);
    assert_eq!(back.audio_resources[0].data, Vec::<u8>::new());
    assert_eq!(back.other_binary_resources[0].data, vec![100, 10, 9]);
    assert_eq!(back.shader_resources[0].data, engine.shader_resources[0].data);
    assert_eq!(back.other_text_resources[0].name, "notes");
    assert_eq!(back.object_resources, vec!["{\"name\":\"cube\"}".to_string()]);
    assert_eq!(serialize_project(&back), text);
}
