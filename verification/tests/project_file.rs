use enigma_editor::engine::Engine;
use enigma_editor::fields::{take_bool, take_key, take_tag};
use enigma_editor::json::{
    skip_spaces, take_byte, take_char, take_quoted, take_string, take_word, write_byte,
    write_string,
};
use enigma_editor::lists::{take_list, write_list};
use enigma_editor::project_file::{parse_project, serialize_project};
use enigma_editor::resources::{BinaryResource, ResourceType, TextResource};
use enigma_editor::text::{from_chars, to_chars};

fn written_string(text: &str) -> String {
    let mut out = Vec::new();
    write_string(&mut out, text);
    from_chars(&out)
}

fn written_byte(b: u8) -> String {
    let mut out = Vec::new();
    write_byte(&mut out, b);
    from_chars(&out)
}

fn document(fields: &str) -> String {
    format!("{{\"format_version\": 1, {fields}}}")
}

const EMPTY_FIELDS: &str = "\"current_project\": \"p\", \"selected_resource\": \"\", \"object_builder_open\": true, \"model_resources\": [], \"audio_resources\": [], \"texture_resources\": [], \"other_binary_resources\": [], \"shader_resources\": [], \"other_text_resources\": [], \"object_resources\": []";

#[test]
fn strings_are_written_with_escapes() {
    assert_eq!(written_string(""), "\"\"");
    assert_eq!(written_string("plain"), "\"plain\"");
    assert_eq!(written_string("a\"b\\c"), "\"a\\\"b\\\\c\"");
    assert_eq!(written_string("l1\nl2\r\tx"), "\"l1\\nl2\\r\\tx\"");
    assert_eq!(written_string("\u{0}\u{8}\u{c}\u{1f}"), "\"\\u0000\\u0008\\u000c\\u001f\"");
    assert_eq!(written_string("é/ \u{7f}"), "\"é/ \u{7f}\"");
}

#[test]
fn bytes_are_written_as_decimal_numbers() {
    assert_eq!(written_byte(0), "0");
    assert_eq!(written_byte(7), "7");
    assert_eq!(written_byte(10), "10");
    assert_eq!(written_byte(99), "99");
    assert_eq!(written_byte(100), "100");
    assert_eq!(written_byte(205), "205");
    assert_eq!(written_byte(255), "255");
}

#[test]
fn every_byte_is_read_back() {
    for b in 0..=255u8 {
        let text = format!(" {},", written_byte(b));
        let input = to_chars(&text);
        assert_eq!(take_byte(&input, 0), Some((b, text.len() - 1)));
    }
}

#[test]
fn numbers_that_are_no_byte_are_refused() {
    for text in ["256", "1000", "01", "00", "-1", "", "x", "999", "2555"] {
        assert_eq!(take_byte(&to_chars(text), 0), None, "{text}");
    }
    assert_eq!(take_byte(&to_chars("12.5"), 0), Some((12, 2)));
    assert_eq!(take_byte(&to_chars("0]"), 0), Some((0, 1)));
}

#[test]
fn strings_are_read_with_escapes() {
    let input = to_chars("  \"a\\\"b\\\\c\\/\\n\\r\\t\\b\\f\\u0041\\u00e9\\u20AC\" rest");
    let (text, next) = take_string(&input, 0).expect("a string");
    assert_eq!(text, "a\"b\\c/\n\r\t\u{8}\u{c}Aé€");
    assert_eq!(input[next], ' ');
    assert_eq!(from_chars(&input[next..].to_vec()), " rest");
    assert_eq!(take_string(&to_chars("\"\""), 0), Some((String::new(), 2)));
}

#[test]
fn every_string_is_read_back() {
    let samples = [
        "",
        "plain",
        "with \"quotes\" and \\ backslashes",
        "control \u{0}\u{1}\u{1f} characters",
        "new\nline\ttab\rreturn",
        "unicode é € 𝄞",
        "ends with backslash\\",
    ];
    for sample in samples {
        let text = format!("{}]", written_string(sample));
        let input = to_chars(&text);
        let (read, next) = take_string(&input, 0).expect("a string");
        assert_eq!(read, sample);
        assert_eq!(input[next], ']');
    }
}

#[test]
fn strings_that_are_malformed_are_refused() {
    for text in [
        "\"open",
        "open\"",
        "\"bad \\x escape\"",
        "\"short \\u12\"",
        "\"not hex \\u12g4\"",
        "\"surrogate \\ud800\"",
        "\"surrogate \\udfff\"",
        "\"raw\ncontrol\"",
        "\"raw\u{1}control\"",
        "\"ends in escape\\",
        "",
    ] {
        assert_eq!(take_string(&to_chars(text), 0), None, "{text}");
    }
}

#[test]
fn words_are_read_behind_white_space() {
    let input = to_chars(" \n\t\r true, \"key\" :x");
    assert_eq!(skip_spaces(&input, 0), 5);
    assert_eq!(skip_spaces(&input, 5), 5);
    assert_eq!(take_word(&input, 0, "true"), Some(9));
    assert_eq!(take_word(&input, 0, "false"), None);
    assert_eq!(take_char(&input, 9, ','), Some(10));
    assert_eq!(take_char(&input, 9, ':'), None);
    assert_eq!(take_quoted(&input, 10, "key"), Some(16));
    assert_eq!(take_quoted(&input, 10, "ke"), None);
    assert_eq!(take_quoted(&input, 10, "keys"), None);
    assert_eq!(take_char(&input, 16, ':'), Some(18));
    assert_eq!(take_char(&input, input.len(), 'x'), None);
    assert_eq!(skip_spaces(&input, input.len()), input.len());
}

#[test]
fn lists_are_read_and_written() {
    let input = to_chars(" [ 1 ,2,\n3 ] x");
    assert_eq!(take_list::<u8>(&input, 0), Some((vec![1, 2, 3], 12)));
    assert_eq!(take_list::<u8>(&to_chars("[]"), 0), Some((vec![], 2)));
    assert_eq!(take_list::<u8>(&to_chars("[ ]"), 0), Some((vec![], 3)));
    assert_eq!(
        take_list::<String>(&to_chars("[\"a\", \"b\"]"), 0),
        Some((vec!["a".to_string(), "b".to_string()], 10))
    );
    for text in ["[1,]", "[,1]", "[1 2]", "[1", "1]", "[1,2", "[256]", "[\"a\"]", ""] {
        assert_eq!(take_list::<u8>(&to_chars(text), 0), None, "{text}");
    }
    let mut out = Vec::new();
    write_list::<u8>(&mut out, &vec![1, 20, 255], "", "");
    assert_eq!(from_chars(&out), "[1,20,255]");
    let mut out = Vec::new();
    write_list::<String>(&mut out, &vec!["a".to_string(), "b".to_string()], "\n  ", "\n");
    assert_eq!(from_chars(&out), "[\n  \"a\",\n  \"b\"\n]");
    let mut out = vec!['='];
    write_list::<u8>(&mut out, &Vec::new(), "\n  ", "\n");
    assert_eq!(from_chars(&out), "=[]");
}

#[test]
fn compact_project_file_is_read() {
    let text = "{\"format_version\":1,\"current_project\":\"p\",\"selected_resource\":\"s\",\"object_builder_open\":true,\"model_resources\":[{\"name\":\"m\",\"data\":[1,2],\"resource_type\":\"Model\"}],\"audio_resources\":[],\"texture_resources\":[],\"other_binary_resources\":[],\"shader_resources\":[{\"name\":\"sh\",\"data\":\"void\",\"resource_type\":\"Shader\"}],\"other_text_resources\":[],\"object_resources\":[\"o\"]}";
    let engine = parse_project(text).expect("a project file");
    assert_eq!(engine.current_project, "p");
    assert_eq!(engine.selected_resource, "s");
    assert!(engine.object_builder_open);
    assert_eq!(engine.model_resources.len(), 1);
    assert_eq!(engine.model_resources[0].name, "m");
    assert_eq!(engine.model_resources[0].data, vec![1, 2]);
    assert_eq!(engine.model_resources[0].resource_type, ResourceType::Model);
    assert_eq!(engine.shader_resources[0].name, "sh");
    assert_eq!(engine.shader_resources[0].data, "void");
    assert_eq!(engine.shader_resources[0].resource_type, ResourceType::Shader);
    assert_eq!(engine.object_resources, vec!["o".to_string()]);
}

#[test]
fn white_space_between_items_is_free() {
    let text = " \n{ \"format_version\" \t: 1 ,\r\n\"current_project\":\n\n\"p\" , \"selected_resource\" : \"\" ,\"object_builder_open\"  :  false , \"model_resources\" : [ ] , \"audio_resources\":[\n],\"texture_resources\":[ { \"name\" : \"t\" , \"data\" : [ 1 , 2 ] , \"resource_type\" : \"Texture\" } ],\"other_binary_resources\":[],\"shader_resources\":[],\"other_text_resources\":[],\"object_resources\":[]\n}\n\n ";
    let engine = parse_project(text).expect("a project file");
    assert_eq!(engine.current_project, "p");
    assert!(!engine.object_builder_open);
    assert_eq!(engine.texture_resources[0].data, vec![1, 2]);
}

#[test]
fn text_that_is_no_project_file_is_refused() {
    assert!(parse_project(&document(EMPTY_FIELDS)).is_some());
    assert!(parse_project("").is_none());
    assert!(parse_project("{}").is_none());
    assert!(parse_project("[]").is_none());
    assert!(parse_project("not json").is_none());
    let good = document(EMPTY_FIELDS);
    assert!(parse_project(&format!("{good} x")).is_none());
    assert!(parse_project(&format!("{good}{good}")).is_none());
    assert!(parse_project(&good[..good.len() - 1]).is_none());
    assert!(parse_project(&good.replace("\"format_version\": 1", "\"format_version\": 2")).is_none());
    assert!(parse_project(&good.replace("\"format_version\": 1", "\"format_version\": 10")).is_none());
    assert!(parse_project(&good.replace("\"format_version\": 1, ", "\"format_version\": \"1\", ")).is_none());
    assert!(parse_project(&good.replace("\"format_version\": 1, ", "\"format_version\": 1 ")).is_none());
    assert!(parse_project(&good.replace("\"selected_resource\": \"\", ", "")).is_none());
    assert!(parse_project(&good.replace("\"object_builder_open\": true", "\"object_builder_open\": 1")).is_none());
    assert!(parse_project(&good.replace("\"object_resources\": []", "\"object_resources\": [],")).is_none());
    assert!(parse_project(&good.replace("\"audio_resources\": []", "\"audio_resources\": {}")).is_none());
    assert!(parse_project(&good.replace("\"current_project\": \"p\"", "\"current_project\": p")).is_none());
    assert!(parse_project(&good.replace("\"current_project\"", "\"current_projects\"")).is_none());
}

#[test]
fn keys_out_of_order_are_refused() {
    let swapped = document(&EMPTY_FIELDS.replace(
        "\"current_project\": \"p\", \"selected_resource\": \"\"",
        "\"selected_resource\": \"\", \"current_project\": \"p\"",
    ));
    assert!(parse_project(&swapped).is_none());
}

#[test]
fn descriptor_in_the_wrong_catalog_is_refused() {
    let model = "{\"name\": \"m\", \"data\": [1], \"resource_type\": \"Model\"}";
    let good = document(&EMPTY_FIELDS.replace(
        "\"model_resources\": []",
        &format!("\"model_resources\": [{model}]"),
    ));
    assert!(parse_project(&good).is_some());
    for catalog in ["audio_resources", "texture_resources", "other_binary_resources"] {
        let bad = document(&EMPTY_FIELDS.replace(
            &format!("\"{catalog}\": []"),
            &format!("\"{catalog}\": [{model}]"),
        ));
        assert!(parse_project(&bad).is_none(), "{catalog}");
    }
    let shader = "{\"name\": \"s\", \"data\": \"x\", \"resource_type\": \"Shader\"}";
    let good = document(&EMPTY_FIELDS.replace(
        "\"shader_resources\": []",
        &format!("\"shader_resources\": [{shader}]"),
    ));
    assert!(parse_project(&good).is_some());
    let bad = document(&EMPTY_FIELDS.replace(
        "\"other_text_resources\": []",
        &format!("\"other_text_resources\": [{shader}]"),
    ));
    assert!(parse_project(&bad).is_none());
    let unknown = document(&EMPTY_FIELDS.replace(
        "\"model_resources\": []",
        "\"model_resources\": [{\"name\": \"m\", \"data\": [1], \"resource_type\": \"Mesh\"}]",
    ));
    assert!(parse_project(&unknown).is_none());
}

#[test]
fn every_category_is_written_and_read() {
    let mut engine = Engine::new();
    engine.add_binary_resource(BinaryResource::new("t", vec![1], ResourceType::Texture));
    engine.add_binary_resource(BinaryResource::new("m", vec![2], ResourceType::Model));
    engine.add_binary_resource(BinaryResource::new("a", vec![3], ResourceType::Audio));
    engine.add_binary_resource(BinaryResource::new("o", vec![4], ResourceType::Other));
    engine.add_text_resource(TextResource::new("s", "5", ResourceType::Shader));
    engine.add_text_resource(TextResource::new("x", "6", ResourceType::Other));
    let text = serialize_project(&engine);
    for tag in ["\"Texture\"", "\"Model\"", "\"Audio\"", "\"Other\"", "\"Shader\""] {
        assert!(text.contains(&format!("\"resource_type\": {tag}")), "{tag}");
    }
    let back = parse_project(&text).expect("a project file");
    assert_eq!(back.texture_resources[0].resource_type, ResourceType::Texture);
    assert_eq!(back.model_resources[0].resource_type, ResourceType::Model);
    assert_eq!(back.audio_resources[0].resource_type, ResourceType::Audio);
    assert_eq!(back.other_binary_resources[0].resource_type, ResourceType::Other);
    assert_eq!(back.shader_resources[0].resource_type, ResourceType::Shader);
    assert_eq!(back.other_text_resources[0].resource_type, ResourceType::Other);
}

#[test]
fn flag_of_the_object_builder_is_kept() {
    let mut engine = Engine::new();
    engine.object_builder_open = true;
    let text = serialize_project(&engine);
    assert!(text.contains("\"object_builder_open\": true,"));
    assert!(parse_project(&text).expect("a project file").object_builder_open);
}

#[test]
fn repeated_save_and_load_changes_nothing() {
    let mut engine = Engine::new();
    engine.current_project = "C:/work/demo".to_string();
    engine.add_binary_resource(BinaryResource::new("big", (0..=255).collect(), ResourceType::Other));
    engine.add_text_resource(TextResource::new("s", "line\n\"q\"\\", ResourceType::Shader));
    let first = serialize_project(&engine);
    let second = serialize_project(&parse_project(&first).expect("a project file"));
    let third = serialize_project(&parse_project(&second).expect("a project file"));
    assert_eq!(first, second);
    assert_eq!(second, third);
    let back = parse_project(&third).expect("a project file");
    assert_eq!(back.other_binary_resources[0].data, (0..=255).collect::<Vec<u8>>());
    assert_eq!(back.shader_resources[0].data, "line\n\"q\"\\");
}

#[test]
fn file_without_a_format_version_is_read() {
    let compact = "{\"current_project\":\"foo/bar\",\"selected_resource\":\"\",\"object_builder_open\":false,\"model_resources\":[{\"name\":\"m\",\"data\":[1,2],\"resource_type\":\"Model\"}],\"audio_resources\":[],\"texture_resources\":[],\"other_binary_resources\":[],\"shader_resources\":[],\"other_text_resources\":[],\"object_resources\":[]}\n";
    let engine = parse_project(compact).expect("a project file");
    assert_eq!(engine.current_project, "foo/bar");
    assert_eq!(engine.model_resources[0].data, vec![1, 2]);
    let pretty = "{\n  \"current_project\": \"foo/bar\",\n  \"selected_resource\": \"\",\n  \"object_builder_open\": false,\n  \"model_resources\": [\n    {\n      \"name\": \"m\",\n      \"data\": [\n        1,\n        2\n      ],\n      \"resource_type\": \"Model\"\n    }\n  ],\n  \"audio_resources\": [],\n  \"texture_resources\": [],\n  \"other_binary_resources\": [],\n  \"shader_resources\": [],\n  \"other_text_resources\": [],\n  \"object_resources\": []\n}";
    let engine = parse_project(pretty).expect("a project file");
    assert_eq!(engine.current_project, "foo/bar");
    assert_eq!(engine.model_resources[0].name, "m");
    assert_eq!(engine.model_resources[0].data, vec![1, 2]);
    assert_eq!(engine.model_resources[0].resource_type, ResourceType::Model);
    let written = serialize_project(&engine);
    assert!(written.starts_with("{\n  \"format_version\": 1,\n"));
    assert_eq!(parse_project(&written).expect("a project file").model_resources[0].data, vec![1, 2]);
}

#[test]
fn keys_categories_and_truth_values_are_read() {
    let input = to_chars(" \"name\" : \"Audio\" true false \"Mesh\"");
    assert_eq!(take_key(&input, 0, "name"), Some(9));
    assert_eq!(take_key(&input, 0, "data"), None);
    assert_eq!(take_key(&input, 9, "Audio"), None);
    assert_eq!(take_tag(&input, 9), Some((ResourceType::Audio, 17)));
    assert_eq!(take_tag(&input, 0), None);
    assert_eq!(take_bool(&input, 17), Some((true, 22)));
    assert_eq!(take_bool(&input, 22), Some((false, 28)));
    assert_eq!(take_bool(&input, 28), None);
    assert_eq!(take_tag(&input, 28), None);
    for (text, category) in [
        ("\"Texture\"", ResourceType::Texture),
        ("\"Model\"", ResourceType::Model),
        ("\"Audio\"", ResourceType::Audio),
        ("\"Shader\"", ResourceType::Shader),
        ("\"Other\"", ResourceType::Other),
    ] {
        assert_eq!(take_tag(&to_chars(text), 0), Some((category, text.len())));
    }
}

#[test]
fn descriptors_are_items_of_a_list() {
    let text = "[{\"name\": \"m\", \"data\": [1,2], \"resource_type\": \"Model\"}, {\"name\": \"t\", \"data\": [], \"resource_type\": \"Texture\"}]";
    let (items, next) = take_list::<BinaryResource>(&to_chars(text), 0).expect("a list");
    assert_eq!(next, text.len());
    assert_eq!(items.len(), 2);
    assert_eq!(items[0].name, "m");
    assert_eq!(items[0].data, vec![1, 2]);
    assert_eq!(items[0].resource_type, ResourceType::Model);
    assert_eq!(items[1].name, "t");
    assert!(items[1].data.is_empty());
    assert_eq!(items[1].resource_type, ResourceType::Texture);
    let mut out = Vec::new();
    write_list::<BinaryResource>(&mut out, &items, "", "");
    assert_eq!(from_chars(&out), text.replace("}, {", "},{"));
    let texts = vec![TextResource::new("s", "x\ny", ResourceType::Shader)];
    let mut out = Vec::new();
    write_list::<TextResource>(&mut out, &texts, " ", " ");
    let written = from_chars(&out);
    assert_eq!(written, "[ {\"name\": \"s\", \"data\": \"x\\ny\", \"resource_type\": \"Shader\"} ]");
    let (back, _) = take_list::<TextResource>(&to_chars(&written), 0).expect("a list");
    assert_eq!(back[0].data, "x\ny");
    for missing in [
        "[{\"data\": [1], \"resource_type\": \"Model\"}]",
        "[{\"name\": \"m\", \"resource_type\": \"Model\"}]",
        "[{\"name\": \"m\", \"data\": [1]}]",
        "[{\"name\": \"m\", \"data\": \"text\", \"resource_type\": \"Model\"}]",
        "[{\"name\": \"m\", \"data\": [1], \"resource_type\": \"Model\", \"more\": 1}]",
    ] {
        assert!(take_list::<BinaryResource>(&to_chars(missing), 0).is_none(), "{missing}");
    }
}
