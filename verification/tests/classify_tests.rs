use notoize::classify::{
    SCRIPT_ADLAM, SCRIPT_ARABIC, SCRIPT_CJK, SCRIPT_HEBREW, SCRIPT_KHITAN, SCRIPT_LAO,
    SCRIPT_NEUTRAL, SCRIPT_NKO, SCRIPT_NUSHU, SCRIPT_SYRIAC, SCRIPT_THAI,
};
use notoize::{all_variants, classify, missing_variants, script_of, scripts, ClassificationError};

#[test]
fn every_declared_variant_classifies() {
    for v in all_variants() {
        assert!(classify(v.as_str()).is_ok(), "declared literal left unclassified: {v}");
    }
}

#[test]
fn generic_styles_share_the_neutral_script() {
    let sans = classify("Sans").unwrap();
    let serif = classify("Serif").unwrap();
    let mono = classify("Sans Mono").unwrap();
    assert_eq!(sans.0, 0);
    assert_eq!(sans, serif);
    assert_eq!(sans, mono);
}

#[test]
fn arabic_variants_share_a_script_distinct_from_hebrew() {
    let a = classify("Sans Arabic").unwrap();
    assert_eq!(a, classify("Naskh Arabic").unwrap());
    assert_eq!(a, classify("Kufi Arabic").unwrap());
    assert_eq!(a, classify("Nastaliq Urdu").unwrap());
    assert_ne!(a, classify("Sans Hebrew").unwrap());
    assert_ne!(a, classify("Sans").unwrap());
}

#[test]
fn unknown_variant_is_a_hard_error() {
    match classify("Comic Sans") {
        Err(ClassificationError::UnknownVariant(n)) => assert_eq!(n, "Comic Sans"),
        _ => panic!("an unknown literal must be reported"),
    }
}

#[test]
fn marker_suffixes_classify_by_their_base() {
    let plain = classify("Sans Arabic").unwrap();
    assert_eq!(script_of("Sans Arabic UI"), Some(plain));
    assert_eq!(script_of("Sans Display"), Some(classify("Sans").unwrap()));
    assert_eq!(script_of("No Such Font UI"), None);
    assert!(classify("Sans Arabic UI").is_err());
}

#[test]
fn family_script_codes_name_their_scripts() {
    assert_eq!(classify("Sans").unwrap().0, SCRIPT_NEUTRAL);
    assert_eq!(classify("Sans Adlam").unwrap().0, SCRIPT_ADLAM);
    assert_eq!(classify("Sans Arabic").unwrap().0, SCRIPT_ARABIC);
    assert_eq!(classify("Sans CJK JP").unwrap().0, SCRIPT_CJK);
    assert_eq!(classify("Sans Hebrew").unwrap().0, SCRIPT_HEBREW);
    assert_eq!(classify("Serif Khitan Small Script").unwrap().0, SCRIPT_KHITAN);
    assert_eq!(classify("Sans Lao").unwrap().0, SCRIPT_LAO);
    assert_eq!(classify("Sans NKo").unwrap().0, SCRIPT_NKO);
    assert_eq!(classify("Sans Nushu").unwrap().0, SCRIPT_NUSHU);
    assert_eq!(classify("Sans Syriac").unwrap().0, SCRIPT_SYRIAC);
    assert_eq!(classify("Sans Thai").unwrap().0, SCRIPT_THAI);
}

#[test]
fn scripts_are_sorted_and_deduplicated() {
    let fonts = vec![
        "Sans Hebrew".to_string(),
        "Sans Arabic".to_string(),
        "Naskh Arabic".to_string(),
        "Sans".to_string(),
    ];
    let ss = scripts(&fonts);
    assert_eq!(ss.len(), 3);
    assert!(ss[0].0 < ss[1].0 && ss[1].0 < ss[2].0);
    assert_eq!(ss[0].0, 0);
}

#[test]
fn missing_variants_lists_unselected_siblings() {
    let fonts = vec!["Sans Telugu".to_string()];
    assert_eq!(missing_variants(&fonts), vec!["Serif Telugu".to_string()]);
    let fonts = vec!["Sans".to_string()];
    assert_eq!(missing_variants(&fonts), vec!["Serif".to_string(), "Sans Mono".to_string()]);
    let both = vec!["Sans Telugu".to_string(), "Serif Telugu".to_string()];
    assert_eq!(missing_variants(&both), Vec::<String>::new());
}
