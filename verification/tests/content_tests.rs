use file_service::content::content_from_bytes;

#[test]
fn binary_extension_reads_as_base64() {
    let bytes: Vec<u8> = vec![0xFF, 0xD8];
    let c = content_from_bytes("/ws/img.png", bytes.clone()).unwrap();
    assert_eq!(c.language, "binary");
    assert_eq!(c.content, "/9g=");
    assert_eq!(base64::decode(&c.content).unwrap(), bytes);
}

#[test]
fn every_binary_extension_encodes_round_trip() {
    let bytes: Vec<u8> = vec![0, 1, 2, 3, 254, 255];
    for ext in ["png", "jpg", "jpeg", "gif", "webp", "bmp", "glb", "gltf", "obj", "fbx", "stl"] {
        let path = format!("asset.{ext}");
        let c = content_from_bytes(&path, bytes.clone()).unwrap();
        assert_eq!(c.language, "binary");
        assert_eq!(base64::decode(&c.content).unwrap(), bytes);
    }
}

#[test]
fn uppercase_binary_extension_is_still_binary() {
    let c = content_from_bytes("IMG.PNG", vec![1, 2, 3]).unwrap();
    assert_eq!(c.language, "binary");
    assert_eq!(base64::decode(&c.content).unwrap(), vec![1, 2, 3]);
}

#[test]
fn text_extension_reads_exact_text_with_tag() {
    let c = content_from_bytes("/ws/a.py", b"print(1)".to_vec()).unwrap();
    assert_eq!(c.content, "print(1)");
    assert_eq!(c.language, "python");

    let c = content_from_bytes("lib.rs", b"fn main() {}\n".to_vec()).unwrap();
    assert_eq!(c.content, "fn main() {}\n");
    assert_eq!(c.language, "rust");
}

#[test]
fn unrecognized_extension_is_plaintext_text() {
    let c = content_from_bytes("data.xyz", "héllo".as_bytes().to_vec()).unwrap();
    assert_eq!(c.content, "héllo");
    assert_eq!(c.language, "plaintext");
}

#[test]
fn empty_file_reads_as_empty() {
    let c = content_from_bytes("empty.md", Vec::new()).unwrap();
    assert_eq!(c.content, "");
    assert_eq!(c.language, "markdown");

    let c = content_from_bytes("empty.png", Vec::new()).unwrap();
    assert_eq!(c.content, "");
    assert_eq!(c.language, "binary");
}

#[test]
fn invalid_utf8_in_a_text_file_is_an_error() {
    let r = content_from_bytes("broken.txt", vec![0xFF, 0xFE]);
    assert_eq!(r.unwrap_err(), "stream did not contain valid UTF-8");
}

#[test]
fn invalid_utf8_in_a_binary_file_is_fine() {
    let c = content_from_bytes("broken.png", vec![0xFF, 0xFE]).unwrap();
    assert_eq!(c.language, "binary");
    assert_eq!(base64::decode(&c.content).unwrap(), vec![0xFF, 0xFE]);
}
