use ecd::detect::{
    bom_encoding, detect_bytes, detect_sample, detection_from_guess, is_binary_content,
    normalize_encoding_name, Detection, SkipReason,
};

#[test]
fn utf8_bom() {
    let data = b"\xEF\xBB\xBFhello";
    assert_eq!(detect_bytes(data), Detection::Encoded("utf-8".to_string()));
}

#[test]
fn plain_utf8() {
    let data = b"hello world";
    match detect_bytes(data) {
        Detection::Encoded(enc) => assert!(enc == "utf-8" || enc == "ascii"),
        other => panic!("expected encoded, got {other:?}"),
    }
}

#[test]
fn empty_is_skip() {
    assert_eq!(detect_bytes(b""), Detection::Skip(SkipReason::Empty));
}

#[test]
fn binary_is_skip() {
    let data = b"hello\x00world\xff\xfe";
    assert_eq!(detect_bytes(data), Detection::Skip(SkipReason::Binary));
}

#[test]
fn normalize_names() {
    assert_eq!(normalize_encoding_name("UTF-8"), "utf-8");
    assert_eq!(normalize_encoding_name("GBK"), "gbk");
    assert_eq!(normalize_encoding_name("gb18030"), "gbk");
}

#[test]
fn normalize_utf8_aliases() {
    assert_eq!(normalize_encoding_name("utf_8"), "utf-8");
    assert_eq!(normalize_encoding_name("UTF-8-SIG"), "utf-8");
    assert_eq!(normalize_encoding_name("Windows-1252"), "windows-1252");
}

#[test]
fn utf16_boms() {
    assert_eq!(detect_bytes(b"\xFF\xFEh\x00i\x00"), Detection::Encoded("utf-16le".to_string()));
    assert_eq!(detect_bytes(b"\xFE\xFF\x00h\x00i"), Detection::Encoded("utf-16be".to_string()));
    assert_eq!(bom_encoding(b"\xEF\xBB\xBF"), Some(("UTF-8", 3)));
    assert_eq!(bom_encoding(b"\xEF\xBB"), None);
}

#[test]
fn utf16_without_bom_is_not_binary() {
    let data: Vec<u8> = "hello world".encode_utf16().flat_map(|u| u.to_le_bytes()).collect();
    assert!(!is_binary_content(&data));
    let be: Vec<u8> = "hello world".encode_utf16().flat_map(|u| u.to_be_bytes()).collect();
    assert!(!is_binary_content(&be));
    assert!(is_binary_content(b"\x00"));
    assert!(!is_binary_content(b"plain text"));
}

#[test]
fn guesses_are_normalized() {
    assert_eq!(detection_from_guess(None), Detection::Skip(SkipReason::Unknown));
    assert_eq!(detection_from_guess(Some("GB18030")), Detection::Encoded("gbk".to_string()));
}

#[test]
fn read_errors_are_reported() {
    assert_eq!(
        detect_sample(Err("denied".to_string())),
        Detection::Skip(SkipReason::ReadError("denied".to_string()))
    );
    assert_eq!(detect_sample(Ok(Vec::new())), Detection::Skip(SkipReason::Empty));
}
