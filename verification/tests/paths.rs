use enigma_editor::paths::{join_path, normalize_path, path_base_name, path_file_name};
use enigma_editor::template::{render_template, substitute, PROJECT_NAME_PLACEHOLDER};
use enigma_editor::text::{append_chars, append_str, from_chars, has_at, has_whole, to_chars};

#[test]
fn backslashes_become_slashes() {
    assert_eq!(normalize_path("C:\\work\\demo"), "C:/work/demo");
    assert_eq!(normalize_path("a/b\\c/"), "a/b/c/");
    assert_eq!(normalize_path(""), "");
    assert_eq!(normalize_path("plain"), "plain");
}

#[test]
fn file_name_is_the_last_segment() {
    assert_eq!(path_file_name("foo/bar/enigma_project.json"), "enigma_project.json");
    assert_eq!(path_file_name("enigma_project.json"), "enigma_project.json");
    assert_eq!(path_file_name("foo/bar/"), "");
    assert_eq!(path_file_name("/"), "");
    assert_eq!(path_file_name(""), "");
    assert_eq!(path_file_name("a\\b"), "a\\b");
    assert_eq!(path_file_name("/tmp/démo/é.png"), "é.png");
}

#[test]
fn base_name_sets_trailing_slashes_aside() {
    assert_eq!(path_base_name("foo/bar"), "bar");
    assert_eq!(path_base_name("foo/bar/"), "bar");
    assert_eq!(path_base_name("foo/bar///"), "bar");
    assert_eq!(path_base_name("bar"), "bar");
    assert_eq!(path_base_name("/tmp/demo"), "demo");
    assert_eq!(path_base_name("/"), "");
    assert_eq!(path_base_name(""), "");
}

#[test]
fn join_puts_one_slash_between() {
    assert_eq!(join_path("foo/bar", "src/main.rs"), "foo/bar/src/main.rs");
    assert_eq!(join_path("foo/bar/", "src/main.rs"), "foo/bar/src/main.rs");
    assert_eq!(join_path("", "Cargo.toml"), "Cargo.toml");
    assert_eq!(join_path("/", "Cargo.toml"), "/Cargo.toml");
    assert_eq!(join_path("foo", ""), "foo/");
}

#[test]
fn placeholder_is_replaced_everywhere() {
    assert_eq!(PROJECT_NAME_PLACEHOLDER, "ENIGMA_PROJECT_NAME");
    assert_eq!(
        render_template("name = \"ENIGMA_PROJECT_NAME\"\n# ENIGMA_PROJECT_NAME", "demo"),
        "name = \"demo\"\n# demo"
    );
    assert_eq!(render_template("no placeholder", "demo"), "no placeholder");
    assert_eq!(render_template("", "demo"), "");
    assert_eq!(render_template("ENIGMA_PROJECT_NAMEENIGMA_PROJECT_NAME", ""), "");
    assert_eq!(render_template("ENIGMA_PROJECT_NAM", "demo"), "ENIGMA_PROJECT_NAM");
}

#[test]
fn occurrences_are_taken_from_the_left() {
    assert_eq!(substitute("aaa", "aa", "b"), "ba");
    assert_eq!(substitute("aaaa", "aa", "b"), "bb");
    assert_eq!(substitute("xayaz", "a", "aa"), "xaayaaz");
    assert_eq!(substitute("abc", "", "x"), "abc");
    assert_eq!(substitute("héllo wörld", "ö", "oe"), "héllo woerld");
}

#[test]
fn text_goes_to_characters_and_back() {
    assert_eq!(to_chars("aé\n"), vec!['a', 'é', '\n']);
    assert_eq!(to_chars(""), Vec::<char>::new());
    assert_eq!(from_chars(&vec!['a', 'é', '\n']), "aé\n");
    assert_eq!(from_chars(&Vec::new()), "");
    let mut buffer = vec!['x'];
    append_str(&mut buffer, "yz");
    append_chars(&mut buffer, &vec!['!', '?']);
    assert_eq!(buffer, vec!['x', 'y', 'z', '!', '?']);
}

#[test]
fn words_are_found_where_they_stand() {
    let chars = to_chars("hello world");
    assert!(has_at(&chars, 0, "hello"));
    assert!(has_at(&chars, 6, "world"));
    assert!(has_at(&chars, 11, ""));
    assert!(!has_at(&chars, 6, "worlds"));
    assert!(!has_at(&chars, 1, "hello"));
    assert!(has_whole(&"abc".to_string(), "abc"));
    assert!(!has_whole(&"abc".to_string(), "ab"));
    assert!(!has_whole(&"ab".to_string(), "abc"));
    assert!(has_whole(&String::new(), ""));
}
