use enigma_editor::engine::Engine;
use enigma_editor::resources::{
    import_binary_batch, import_resource_binary, import_resource_text, import_text_batch,
    BinaryResource, BinarySource, ResourceType, TextResource, TextSource,
};

#[test]
fn folders_of_the_categories() {
    assert_eq!(ResourceType::Texture.folder(), "textures");
    assert_eq!(ResourceType::Model.folder(), "models");
    assert_eq!(ResourceType::Audio.folder(), "audio");
    assert_eq!(ResourceType::Shader.folder(), "shader");
    assert_eq!(ResourceType::Other.folder(), "other");
}

#[test]
fn new_binary_resource_keeps_its_parts() {
    let resource = BinaryResource::new("logo", vec![1, 2, 3], ResourceType::Texture);
    assert_eq!(resource.name, "logo");
    assert_eq!(resource.data, vec![1, 2, 3]);
    assert_eq!(resource.resource_type, ResourceType::Texture);
}

#[test]
fn new_text_resource_keeps_its_parts() {
    let resource = TextResource::new("basic", "void main() {}", ResourceType::Shader);
    assert_eq!(resource.name, "basic");
    assert_eq!(resource.data, "void main() {}");
    assert_eq!(resource.resource_type, ResourceType::Shader);
}

#[test]
fn import_keeps_what_was_read() {
    let resource = import_resource_binary("logo", Some(vec![9, 8, 7]), ResourceType::Texture);
    assert_eq!(resource.name, "logo");
    assert_eq!(resource.data, vec![9, 8, 7]);
    assert_eq!(resource.resource_type, ResourceType::Texture);
    let text = import_resource_text("notes", Some("hello".to_string()), ResourceType::Other);
    assert_eq!(text.name, "notes");
    assert_eq!(text.data, "hello");
    assert_eq!(text.resource_type, ResourceType::Other);
}

#[test]
fn import_of_an_unreadable_source_is_empty() {
    let resource = import_resource_binary("gone", None, ResourceType::Model);
    assert_eq!(resource.name, "gone");
    assert!(resource.data.is_empty());
    assert_eq!(resource.resource_type, ResourceType::Model);
    let text = import_resource_text("gone", None, ResourceType::Shader);
    assert_eq!(text.name, "gone");
    assert_eq!(text.data, "");
    assert_eq!(text.resource_type, ResourceType::Shader);
}

#[test]
fn import_tags_every_category() {
    let all = [
        ResourceType::Texture,
        ResourceType::Model,
        ResourceType::Audio,
        ResourceType::Shader,
        ResourceType::Other,
    ];
    for category in all {
        assert_eq!(import_resource_binary("x", Some(vec![1]), category).resource_type, category);
        assert_eq!(import_resource_text("x", Some("y".to_string()), category).resource_type, category);
    }
}

#[test]
fn batch_goes_on_past_a_missing_file() {
    let sources = vec![
        BinarySource { name: "a.png".to_string(), content: Some(vec![1, 2]) },
        BinarySource { name: "b.png".to_string(), content: None },
        BinarySource { name: "c.png".to_string(), content: Some(vec![3]) },
    ];
    let resources = import_binary_batch(&sources, ResourceType::Texture);
    assert_eq!(resources.len(), 3);
    assert_eq!(resources[0].name, "a.png");
    assert_eq!(resources[0].data, vec![1, 2]);
    assert_eq!(resources[1].name, "b.png");
    assert!(resources[1].data.is_empty());
    assert_eq!(resources[2].name, "c.png");
    assert_eq!(resources[2].data, vec![3]);
    assert!(resources.iter().all(|r| r.resource_type == ResourceType::Texture));
}

#[test]
fn text_batch_goes_on_past_a_missing_file() {
    let sources = vec![
        TextSource { name: "a.glsl".to_string(), content: None },
        TextSource { name: "b.glsl".to_string(), content: Some("void".to_string()) },
    ];
    let resources = import_text_batch(&sources, ResourceType::Shader);
    assert_eq!(resources.len(), 2);
    assert_eq!(resources[0].name, "a.glsl");
    assert_eq!(resources[0].data, "");
    assert_eq!(resources[1].name, "b.glsl");
    assert_eq!(resources[1].data, "void");
    assert!(resources.iter().all(|r| r.resource_type == ResourceType::Shader));
}

#[test]
fn empty_batch_gives_nothing() {
    assert!(import_binary_batch(&Vec::new(), ResourceType::Audio).is_empty());
    assert!(import_text_batch(&Vec::new(), ResourceType::Other).is_empty());
}

#[test]
fn new_engine_is_empty() {
    let engine = Engine::new();
    assert_eq!(engine.current_project, "");
    assert_eq!(engine.selected_resource, "");
    assert!(!engine.object_builder_open);
    assert!(engine.model_resources.is_empty());
    assert!(engine.audio_resources.is_empty());
    assert!(engine.texture_resources.is_empty());
    assert!(engine.other_binary_resources.is_empty());
    assert!(engine.shader_resources.is_empty());
    assert!(engine.other_text_resources.is_empty());
    assert!(engine.object_resources.is_empty());
    assert!(engine.is_consistent());
}

#[test]
fn descriptors_are_filed_by_category_in_order() {
    let mut engine = Engine::new();
    assert!(engine.add_binary_resource(BinaryResource::new("m1", vec![1], ResourceType::Model)));
    assert!(engine.add_binary_resource(BinaryResource::new("t1", vec![2], ResourceType::Texture)));
    assert!(engine.add_binary_resource(BinaryResource::new("m2", vec![3], ResourceType::Model)));
    assert!(engine.add_binary_resource(BinaryResource::new("a1", vec![4], ResourceType::Audio)));
    assert!(engine.add_binary_resource(BinaryResource::new("o1", vec![5], ResourceType::Other)));
    assert!(engine.add_text_resource(TextResource::new("s1", "a", ResourceType::Shader)));
    assert!(engine.add_text_resource(TextResource::new("x1", "b", ResourceType::Other)));
    assert!(engine.add_text_resource(TextResource::new("s2", "c", ResourceType::Shader)));
    let names = |catalog: &Vec<BinaryResource>| -> Vec<String> {
        catalog.iter().map(|r| r.name.clone()).collect()
    };
    assert_eq!(names(&engine.model_resources), vec!["m1", "m2"]);
    assert_eq!(names(&engine.texture_resources), vec!["t1"]);
    assert_eq!(names(&engine.audio_resources), vec!["a1"]);
    assert_eq!(names(&engine.other_binary_resources), vec!["o1"]);
    let shaders: Vec<String> = engine.shader_resources.iter().map(|r| r.name.clone()).collect();
    assert_eq!(shaders, vec!["s1", "s2"]);
    assert_eq!(engine.other_text_resources.len(), 1);
    assert_eq!(engine.other_text_resources[0].name, "x1");
    assert!(engine.is_consistent());
}

#[test]
fn descriptors_without_a_catalog_are_turned_down() {
    let mut engine = Engine::new();
    assert!(!engine.add_binary_resource(BinaryResource::new("s", vec![1], ResourceType::Shader)));
    assert!(!engine.add_text_resource(TextResource::new("t", "x", ResourceType::Texture)));
    assert!(!engine.add_text_resource(TextResource::new("m", "x", ResourceType::Model)));
    assert!(!engine.add_text_resource(TextResource::new("a", "x", ResourceType::Audio)));
    assert!(engine.model_resources.is_empty());
    assert!(engine.audio_resources.is_empty());
    assert!(engine.texture_resources.is_empty());
    assert!(engine.other_binary_resources.is_empty());
    assert!(engine.shader_resources.is_empty());
    assert!(engine.other_text_resources.is_empty());
}

#[test]
fn duplicate_names_are_kept() {
    let mut engine = Engine::new();
    assert!(engine.add_binary_resource(BinaryResource::new("logo", vec![1], ResourceType::Texture)));
    assert!(engine.add_binary_resource(BinaryResource::new("logo", vec![2], ResourceType::Texture)));
    assert_eq!(engine.texture_resources.len(), 2);
    assert_eq!(engine.texture_resources[0].data, vec![1]);
    assert_eq!(engine.texture_resources[1].data, vec![2]);
}

#[test]
fn misfiled_descriptor_is_found() {
    let mut engine = Engine::new();
    engine.texture_resources.push(BinaryResource::new("cube", vec![1], ResourceType::Model));
    assert!(!engine.is_consistent());
    let mut engine = Engine::new();
    engine.other_text_resources.push(TextResource::new("basic", "x", ResourceType::Shader));
    assert!(!engine.is_consistent());
}
