use ecd::convert::{
    check_convert_paths, convert_bytes, encode_string, finish_decoding, finish_encoding, ConvertError,
    ConvertOptions, OutputTarget,
};
use ecd::encodings::{self, EncodingError, SUPPORTED};

fn default_opts() -> ConvertOptions {
    ConvertOptions::default()
}

fn strict_opts() -> ConvertOptions {
    ConvertOptions { strict: true, ..Default::default() }
}

fn bom_opts() -> ConvertOptions {
    ConvertOptions { write_bom: true, ..Default::default() }
}

#[test]
fn convert_all_supported_labels_resolve() {
    for enc in SUPPORTED {
        encodings::lookup_encoding(enc).unwrap_or_else(|err| panic!("{enc}: {err:?}"));
    }
}

#[test]
fn unsupported_encoding_rejected() {
    assert!(matches!(
        encodings::lookup_encoding("tis-620"),
        Err(EncodingError::Unsupported(_))
    ));
}

#[test]
fn utf8_to_utf16le_produces_wide_bytes() {
    let sample = "UTF-16 LE sample with CJK: 中文测试.";
    let out = convert_bytes(sample.as_bytes(), "utf-8", "utf-16le", &default_opts()).unwrap();
    assert!(out.len() > sample.len(), "expected UTF-16 output, got {} bytes", out.len());
    assert!(out.windows(2).any(|w| w[1] == 0), "expected UTF-16LE NUL pairs");
}

#[test]
fn utf8_to_each_supported() {
    let sample = "Hello, encoding conversion test. Zażółć gęślą jaźń.";
    for enc in SUPPORTED {
        convert_bytes(sample.as_bytes(), "utf-8", enc, &default_opts())
            .unwrap_or_else(|err| panic!("utf-8 -> {enc}: {}", err.message()));
    }
}

#[test]
fn strict_rejects_lossy() {
    let input = "hello 中文".as_bytes();
    let err = convert_bytes(input, "utf-8", "ascii", &strict_opts()).unwrap_err();
    assert!(matches!(err, ConvertError::EncodeError { .. }));
}

#[test]
fn bom_output() {
    let input = b"hello";
    let out = convert_bytes(input, "ascii", "utf-8", &bom_opts()).unwrap();
    assert_eq!(&out[..3], &[0xEF, 0xBB, 0xBF]);
}

#[test]
fn binary_input_rejected() {
    let data = b"hello\x00world\xff\xfe";
    let err = convert_bytes(data, "utf-8", "gbk", &default_opts()).unwrap_err();
    assert!(matches!(err, ConvertError::BinaryInput));
}

#[test]
fn empty_input_returns_empty() {
    assert!(convert_bytes(b"", "utf-8", "gbk", &default_opts()).unwrap().is_empty());
}

#[test]
fn utf16_outputs_exact_bytes() {
    let le = convert_bytes("A😀".as_bytes(), "utf-8", "UTF-16LE", &bom_opts()).unwrap();
    assert_eq!(le, vec![0xFF, 0xFE, 0x41, 0x00, 0x3D, 0xD8, 0x00, 0xDE]);
    let be = convert_bytes("A😀".as_bytes(), "utf-8", "utf-16be", &default_opts()).unwrap();
    assert_eq!(be, vec![0x00, 0x41, 0xD8, 0x3D, 0xDE, 0x00]);
}

#[test]
fn utf8_output_is_the_text() {
    let out = convert_bytes("héllo".as_bytes(), "UTF-8", "utf-8", &default_opts()).unwrap();
    assert_eq!(out, "héllo".as_bytes());
    let gbk = convert_bytes(&[0xD6, 0xD0, 0xCE, 0xC4], "gbk", "utf-8", &default_opts()).unwrap();
    assert_eq!(gbk, "中文".as_bytes());
}

#[test]
fn encodes_into_legacy_encoding() {
    let out = convert_bytes("中文".as_bytes(), "utf-8", "gbk", &default_opts()).unwrap();
    assert_eq!(out, vec![0xD6, 0xD0, 0xCE, 0xC4]);
}

#[test]
fn lossy_encoding_without_strict_succeeds() {
    let out = convert_bytes("a中".as_bytes(), "utf-8", "ascii", &default_opts()).unwrap();
    assert_eq!(out, b"a&#20013;".to_vec());
}

#[test]
fn strict_rejects_malformed_input() {
    let err = convert_bytes(b"abc\xC3(", "UTF-8", "gbk", &strict_opts()).unwrap_err();
    match err {
        ConvertError::DecodeError { from } => assert_eq!(from, "utf-8"),
        other => panic!("unexpected {other:?}"),
    }
    let lossy = convert_bytes(b"abc\xC3(", "utf-8", "utf-8", &default_opts()).unwrap();
    assert_eq!(lossy, "abc\u{FFFD}(".as_bytes());
}

#[test]
fn unsupported_names_are_reported() {
    match convert_bytes(b"x", "TIS-620", "utf-8", &default_opts()).unwrap_err() {
        ConvertError::Encoding(EncodingError::Unsupported(name)) => assert_eq!(name, "tis-620"),
        other => panic!("unexpected {other:?}"),
    }
    match convert_bytes(b"x", "utf-8", "cp437", &default_opts()).unwrap_err() {
        ConvertError::Encoding(EncodingError::Unsupported(name)) => assert_eq!(name, "cp437"),
        other => panic!("unexpected {other:?}"),
    }
}

#[test]
fn error_messages() {
    assert_eq!(ConvertError::BinaryInput.message(), "binary content");
    assert_eq!(
        ConvertError::DecodeError { from: "gbk".to_string() }.message(),
        "failed to decode as gbk"
    );
    assert_eq!(
        ConvertError::EncodeError { to: "ascii".to_string() }.message(),
        "failed to encode as ascii"
    );
    assert_eq!(ConvertError::InputNotFound("a.txt".to_string()).message(), "path not found: a.txt");
    assert_eq!(
        ConvertError::OutputExists("b.txt".to_string()).message(),
        "output file exists: b.txt (use --force)"
    );
    assert_eq!(
        ConvertError::SamePathWithoutForce.message(),
        "output path equals input path (use --force to overwrite)"
    );
    assert_eq!(ConvertError::Io("disk full".to_string()).message(), "disk full");
    assert_eq!(
        ConvertError::Encoding(EncodingError::Unsupported("x".to_string())).message(),
        "unsupported encoding: x"
    );
    assert_eq!(
        EncodingError::Unresolvable("y".to_string()).message(),
        "unresolvable encoding: y"
    );
}

#[test]
fn path_checks() {
    assert!(matches!(
        check_convert_paths("in.txt", false, None, false),
        Err(ConvertError::InputNotFound(p)) if p == "in.txt"
    ));
    assert!(check_convert_paths("in.txt", true, None, false).is_ok());
    let same = OutputTarget { path: "in.txt".to_string(), same_as_input: true, exists: true };
    assert!(matches!(
        check_convert_paths("in.txt", true, Some(&same), false),
        Err(ConvertError::SamePathWithoutForce)
    ));
    assert!(check_convert_paths("in.txt", true, Some(&same), true).is_ok());
    let existing = OutputTarget { path: "out.txt".to_string(), same_as_input: false, exists: true };
    assert!(matches!(
        check_convert_paths("in.txt", true, Some(&existing), false),
        Err(ConvertError::OutputExists(p)) if p == "out.txt"
    ));
    let fresh = OutputTarget { path: "new.txt".to_string(), same_as_input: false, exists: false };
    assert!(check_convert_paths("in.txt", true, Some(&fresh), false).is_ok());
}

#[test]
fn finishing_an_encoding() {
    let strict = strict_opts();
    match finish_encoding(vec![0x41], true, "ASCII", &strict) {
        Err(ConvertError::EncodeError { to }) => assert_eq!(to, "ascii"),
        other => panic!("unexpected {other:?}"),
    }
    assert_eq!(finish_encoding(vec![0x41], true, "ascii", &default_opts()).unwrap(), vec![0x41]);
    assert_eq!(
        finish_encoding(vec![0x41], false, "Utf-8", &bom_opts()).unwrap(),
        vec![0xEF, 0xBB, 0xBF, 0x41]
    );
    assert_eq!(finish_encoding(vec![0x41], false, "gbk", &bom_opts()).unwrap(), vec![0x41]);
}

#[test]
fn finishing_a_decoding() {
    match finish_decoding("x", true, "GBK", "utf-8", &strict_opts()) {
        Err(ConvertError::DecodeError { from }) => assert_eq!(from, "gbk"),
        other => panic!("unexpected {other:?}"),
    }
    assert_eq!(finish_decoding("x", true, "gbk", "utf-8", &default_opts()).unwrap(), b"x".to_vec());
    assert_eq!(
        finish_decoding("é", false, "gbk", "utf-16be", &bom_opts()).unwrap(),
        vec![0xFE, 0xFF, 0x00, 0xE9]
    );
}

#[test]
fn encoding_text() {
    assert_eq!(encode_string("é", "windows-1252", &default_opts()).unwrap(), vec![0xE9]);
    assert!(matches!(
        encode_string("x", "utf-7", &default_opts()),
        Err(ConvertError::Encoding(EncodingError::Unsupported(_)))
    ));
}

#[test]
fn utf16_byte_orders_are_swapped() {
    for text in ["", "abc", "héllo", "日本語", "a😀b"] {
        for opts in [default_opts(), bom_opts()] {
            let le = encode_string(text, "utf-16le", &opts).unwrap();
            let be = encode_string(text, "UTF-16BE", &opts).unwrap();
            assert_eq!(le.len(), be.len());
            assert_eq!(le.len() % 2, 0);
            for i in (0..le.len()).step_by(2) {
                assert_eq!(be[i], le[i + 1]);
                assert_eq!(be[i + 1], le[i]);
            }
        }
    }
}

#[test]
fn utf8_to_utf8_keeps_valid_text() {
    let text = "héllo wörld, 日本語 😀".as_bytes();
    assert_eq!(convert_bytes(text, "utf-8", "UTF-8", &default_opts()).unwrap(), text);
    assert_eq!(convert_bytes(text, "UTF-8", "utf-8", &strict_opts()).unwrap(), text);
}

#[test]
fn utf8_source_bom_is_dropped() {
    let input = [0xEF, 0xBB, 0xBF, b'a', b'b'];
    assert_eq!(convert_bytes(&input, "utf-8", "utf-8", &default_opts()).unwrap(), b"ab");
}

#[test]
fn supported_pairs_convert_without_strict() {
    let input = "plain ascii text".as_bytes();
    for from in SUPPORTED {
        if from.starts_with("utf-16") {
            continue;
        }
        for to in SUPPORTED {
            assert!(convert_bytes(input, from, to, &default_opts()).is_ok(), "{from} -> {to}");
        }
    }
}

#[test]
fn utf8_source_decodes_for_any_target() {
    let input = "héllo".as_bytes();
    assert_eq!(
        convert_bytes(input, "utf-8", "utf-16le", &default_opts()).unwrap(),
        vec![b'h', 0, 0xE9, 0, b'l', 0, b'l', 0, b'o', 0]
    );
    let with_bom = [0xEF, 0xBB, 0xBF, b'h', 0xC3, 0xA9];
    assert_eq!(convert_bytes(&with_bom, "UTF-8", "windows-1252", &default_opts()).unwrap(), vec![b'h', 0xE9]);
}
