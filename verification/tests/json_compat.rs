use enigma_editor::engine::Engine;
use enigma_editor::json::{take_string, write_string};
use enigma_editor::lists::{take_list, write_list};
use enigma_editor::project_file::serialize_project;
use enigma_editor::resources::{BinaryResource, ResourceType, TextResource};
use enigma_editor::text::{from_chars, to_chars};

const SAMPLES: [&str; 8] = [
    "",
    "plain text",
    "quotes \" and \\ backslashes /",
    "lines\nand\ttabs\r\n",
    "control \u{0}\u{1}\u{8}\u{c}\u{1f}\u{7f}",
    "accents é ü ß",
    "wide € 𝄞 😀",
    "{\"name\":\"cube\",\"position\":[0.5,1.0,-2.25]}",
];

#[test]
fn written_strings_are_json_strings() {
    for sample in SAMPLES {
        let mut out = Vec::new();
        write_string(&mut out, sample);
        let read: String = serde_json::from_str(&from_chars(&out)).expect("a JSON string");
        assert_eq!(read, sample);
    }
}

#[test]
fn json_strings_are_read() {
    for sample in SAMPLES {
        let text = serde_json::to_string(sample).expect("a string is written");
        let input = to_chars(&text);
        assert_eq!(take_string(&input, 0), Some((sample.to_string(), input.len())));
    }
}

#[test]
fn byte_lists_are_json_arrays() {
    let bytes: Vec<u8> = (0..=255).collect();
    let mut out = Vec::new();
    write_list::<u8>(&mut out, &bytes, "", "");
    let read: Vec<u8> = serde_json::from_str(&from_chars(&out)).expect("a JSON array");
    assert_eq!(read, bytes);
    let compact = to_chars(&serde_json::to_string(&bytes).expect("bytes are written"));
    assert_eq!(take_list::<u8>(&compact, 0), Some((bytes.clone(), compact.len())));
    let pretty = to_chars(&serde_json::to_string_pretty(&bytes).expect("bytes are written"));
    assert_eq!(take_list::<u8>(&pretty, 0), Some((bytes, pretty.len())));
}

#[test]
fn project_file_is_a_json_document() {
    let mut engine = Engine::new();
    engine.current_project = "C:/work/demo".to_string();
    engine.selected_resource = "logo".to_string();
    engine.object_builder_open = true;
    engine.add_binary_resource(BinaryResource::new("logo", vec![0, 128, 255], ResourceType::Texture));
    engine.add_text_resource(TextResource::new("basic", "void main() {\n}\n", ResourceType::Shader));
    engine.object_resources.push("{\"name\":\"cube\"}".to_string());
    let document: serde_json::Value =
        serde_json::from_str(&serialize_project(&engine)).expect("a JSON document");
    assert_eq!(document["format_version"].as_u64(), Some(1));
    assert_eq!(document["current_project"].as_str(), Some("C:/work/demo"));
    assert_eq!(document["selected_resource"].as_str(), Some("logo"));
    assert_eq!(document["object_builder_open"].as_bool(), Some(true));
    assert_eq!(document["model_resources"].as_array().map(|a| a.len()), Some(0));
    assert_eq!(document["audio_resources"].as_array().map(|a| a.len()), Some(0));
    assert_eq!(document["other_binary_resources"].as_array().map(|a| a.len()), Some(0));
    assert_eq!(document["other_text_resources"].as_array().map(|a| a.len()), Some(0));
    let texture = &document["texture_resources"][0];
    assert_eq!(texture["name"].as_str(), Some("logo"));
    assert_eq!(texture["resource_type"].as_str(), Some("Texture"));
    let data: Vec<u64> = texture["data"]
        .as_array()
        .expect("an array")
        .iter()
        .map(|byte| byte.as_u64().expect("a number"))
        .collect();
    assert_eq!(data, vec![0, 128, 255]);
    let shader = &document["shader_resources"][0];
    assert_eq!(shader["name"].as_str(), Some("basic"));
    assert_eq!(shader["data"].as_str(), Some("void main() {\n}\n"));
    assert_eq!(shader["resource_type"].as_str(), Some("Shader"));
    assert_eq!(document["object_resources"][0].as_str(), Some("{\"name\":\"cube\"}"));
    assert_eq!(document.as_object().map(|object| object.len()), Some(11));
}
