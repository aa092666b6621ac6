use ecd::encodings::{self, all_names, groups, is_supported, lookup_encoding, EncodingError, PLANNED, SUPPORTED};

#[test]
fn groups_cover_all_supported() {
    let mut from_groups: Vec<&str> = groups()
        .iter()
        .flat_map(|(_, encs)| encs.iter().copied())
        .collect();
    from_groups.sort_unstable();
    from_groups.dedup();

    let mut supported = SUPPORTED.to_vec();
    supported.sort_unstable();

    assert_eq!(from_groups, supported);
}

#[test]
fn planned_does_not_overlap_supported() {
    for enc in PLANNED {
        assert!(!is_supported(enc), "planned encoding {enc} is already supported");
    }
}

#[test]
fn encodings_all_supported_labels_resolve() {
    for enc in SUPPORTED {
        lookup_encoding(enc).unwrap_or_else(|err| panic!("{enc}: {err:?}"));
    }
}

#[test]
fn lookup_rejects_planned() {
    assert!(matches!(lookup_encoding("tis-620"), Err(EncodingError::Unsupported(_))));
}

#[test]
fn all_names_includes_supported_and_planned() {
    let names = all_names();
    assert_eq!(names.len(), SUPPORTED.len() + PLANNED.len());
    for enc in SUPPORTED {
        assert!(names.contains(&enc), "missing supported encoding {enc}");
    }
    for enc in PLANNED {
        assert!(names.contains(&enc), "missing planned encoding {enc}");
    }
}

#[test]
fn all_names_are_sorted() {
    let names = all_names();
    assert!(names.windows(2).all(|w| w[0] < w[1]));
    assert_eq!(names.first(), Some(&"ascii"));
    assert_eq!(names.last(), Some(&"x-mac-cyrillic"));
}

#[test]
fn supported_ignores_case() {
    assert!(is_supported("UTF-8"));
    assert!(is_supported("Shift_JIS"));
    assert!(!is_supported("utf-32le"));
    assert!(!is_supported(""));
}

#[test]
fn lookup_resolves_canonical_names() {
    assert_eq!(lookup_encoding("GBK").unwrap().name(), "GBK");
    assert_eq!(lookup_encoding("ascii").unwrap().name(), "windows-1252");
    assert_eq!(lookup_encoding("utf-8").unwrap().name(), "UTF-8");
    match lookup_encoding("Latin9") {
        Err(EncodingError::Unsupported(name)) => assert_eq!(name, "latin9"),
        _ => panic!("latin9 is not a supported name"),
    }
}

#[test]
fn group_labels_in_order() {
    let labels: Vec<&str> = groups().iter().map(|(label, _)| *label).collect();
    assert_eq!(labels, vec!["Unicode", "East Asian", "Cyrillic", "ISO 8859", "Windows", "Other"]);
    assert_eq!(encodings::GROUP_LABELS.len(), 6);
}
