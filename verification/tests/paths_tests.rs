use file_service::paths::extension_of;
use file_service::paths::file_name;
use file_service::paths::has_hidden_component;
use file_service::paths::is_hidden;
use file_service::paths::relative_to;
use file_service::paths::str_eq;
use file_service::paths::to_lower;

#[test]
fn file_name_is_the_last_component() {
    assert_eq!(file_name("/ws/a.py"), "a.py");
    assert_eq!(file_name("a.py"), "a.py");
    assert_eq!(file_name(""), "");
    assert_eq!(file_name("/ws/.git"), ".git");
}

#[test]
fn file_name_ignores_trailing_separators_and_cur_dirs() {
    assert_eq!(file_name("/ws/sub/"), "sub");
    assert_eq!(file_name("/usr/bin/"), "bin");
    assert_eq!(file_name("foo.txt/."), "foo.txt");
    assert_eq!(file_name("foo.txt/.//"), "foo.txt");
}

#[test]
fn dot_and_dot_dot_components_have_no_file_name() {
    assert_eq!(file_name(".."), "");
    assert_eq!(file_name("a/.."), "");
    assert_eq!(file_name("a/../"), "");
    assert_eq!(file_name("."), "");
    assert_eq!(file_name("/"), "");
    assert_eq!(file_name("..."), "...");
}

#[test]
fn hidden_means_leading_dot_on_own_name() {
    assert!(is_hidden(".git"));
    assert!(is_hidden("/ws/.git"));
    assert!(is_hidden("/ws/.git/"));
    assert!(is_hidden("/ws/.env.local"));
    assert!(!is_hidden("/ws/a.py"));
    assert!(!is_hidden("/ws/.git/x"));
    assert!(!is_hidden("/ws/sub/"));
    assert!(!is_hidden(".."));
    assert!(!is_hidden("a/.."));
    assert!(!is_hidden("."));
    assert!(!is_hidden(""));
}

#[test]
fn extension_edge_cases() {
    assert_eq!(extension_of("a.py"), "py");
    assert_eq!(extension_of("/ws/archive.tar.gz"), "gz");
    assert_eq!(extension_of(".gitignore"), "");
    assert_eq!(extension_of("Makefile"), "");
    assert_eq!(extension_of("dir.with.dots/file"), "");
    assert_eq!(extension_of("trailing."), "");
    assert_eq!(extension_of("UP.PNG"), "PNG");
    assert_eq!(extension_of("x.RS/"), "RS");
    assert_eq!(extension_of("a/.."), "");
}

#[test]
fn lowercasing_is_ascii_only() {
    assert_eq!(to_lower("PnG"), "png");
    assert_eq!(to_lower("already"), "already");
    assert_eq!(to_lower("A-Z_0.9"), "a-z_0.9");
    assert_eq!(to_lower(""), "");
}

#[test]
fn relative_paths_strip_the_root_at_a_component_boundary() {
    assert_eq!(relative_to("/ws", "/ws/a.py"), "a.py");
    assert_eq!(relative_to("/ws", "/ws/sub/b.rs"), "sub/b.rs");
    assert_eq!(relative_to("/ws/", "/ws/a.py"), "a.py");
    assert_eq!(relative_to("/other", "/ws/a.py"), "/ws/a.py");
    assert_eq!(relative_to("/ws", "/wsx/a.py"), "/wsx/a.py");
    assert_eq!(relative_to("/ws", "/ws"), "/ws");
}

#[test]
fn hidden_components_anywhere_are_found() {
    assert!(has_hidden_component(".git"));
    assert!(has_hidden_component(".git/x"));
    assert!(has_hidden_component("sub/.cache/y"));
    assert!(!has_hidden_component("a.py"));
    assert!(!has_hidden_component("sub/b.rs"));
    assert!(!has_hidden_component("dotted.name/plain"));
}

#[test]
fn string_equality_is_by_characters() {
    assert!(str_eq("abc", "abc"));
    assert!(!str_eq("abc", "abd"));
    assert!(!str_eq("abc", "ab"));
    assert!(str_eq("", ""));
}
