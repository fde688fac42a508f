use file_service::classify::classify;
use file_service::classify::get_file_language;
use file_service::classify::is_binary_extension;
use file_service::classify::language_for_extension;
use file_service::Disposition;

#[test]
fn language_table_is_exact() {
    assert_eq!(language_for_extension("js"), "javascript");
    assert_eq!(language_for_extension("jsx"), "javascript");
    assert_eq!(language_for_extension("ts"), "typescript");
    assert_eq!(language_for_extension("tsx"), "typescript");
    assert_eq!(language_for_extension("rs"), "rust");
    assert_eq!(language_for_extension("py"), "python");
    assert_eq!(language_for_extension("json"), "json");
    assert_eq!(language_for_extension("md"), "markdown");
    assert_eq!(language_for_extension("css"), "css");
    assert_eq!(language_for_extension("html"), "html");
    assert_eq!(language_for_extension("xml"), "xml");
    assert_eq!(language_for_extension("yaml"), "yaml");
    assert_eq!(language_for_extension("yml"), "yaml");
}

#[test]
fn unknown_extensions_degrade_to_plaintext() {
    assert_eq!(language_for_extension("txt"), "plaintext");
    assert_eq!(language_for_extension("exe"), "plaintext");
    assert_eq!(language_for_extension(""), "plaintext");
    assert_eq!(language_for_extension("rs "), "plaintext");
}

#[test]
fn binary_allow_list_is_exact() {
    for ext in ["png", "jpg", "jpeg", "gif", "webp", "bmp", "glb", "gltf", "obj", "fbx", "stl"] {
        assert!(is_binary_extension(ext), "{ext} must be binary");
    }
    for ext in ["rs", "txt", "", "pngx", "jp", "svg"] {
        assert!(!is_binary_extension(ext), "{ext} must not be binary");
    }
}

#[test]
fn classify_splits_binary_and_text() {
    assert!(matches!(classify("png"), Disposition::Binary));
    assert!(matches!(classify("stl"), Disposition::Binary));
    match classify("rs") {
        Disposition::Text(tag) => assert_eq!(tag, "rust"),
        Disposition::Binary => panic!("rs is text"),
    }
    match classify("weird") {
        Disposition::Text(tag) => assert_eq!(tag, "plaintext"),
        Disposition::Binary => panic!("unknown extensions are text"),
    }
}

#[test]
fn get_file_language_keys_on_lowercased_extension() {
    assert_eq!(get_file_language("src/Main.PY"), "python");
    assert_eq!(get_file_language("/ws/lib.rs"), "rust");
    assert_eq!(get_file_language("notes.YAML"), "yaml");
    assert_eq!(get_file_language("archive.tar.gz"), "plaintext");
    assert_eq!(get_file_language("README"), "plaintext");
    assert_eq!(get_file_language(".gitignore"), "plaintext");
    assert_eq!(get_file_language("dir.with.dots/file"), "plaintext");
    assert_eq!(get_file_language("x.RS/"), "rust");
    assert_eq!(get_file_language("a/.."), "plaintext");
}
