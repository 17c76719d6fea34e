use notoize::{classify, select, Adlam, Arabic, Cjk, Hebrew, Khitan, Lgc, NotoizeConfig, Nushu, ResolutionIssue, Syriac, ThaiLao};

fn names(v: &[&str]) -> Vec<String> {
    v.iter().map(|s| s.to_string()).collect()
}

fn sans_config() -> NotoizeConfig {
    NotoizeConfig::new_sans(Vec::new())
}

#[test]
fn serif_preference_beats_sans() {
    let mut cfg = sans_config();
    cfg.lgc = vec![Lgc::Serif];
    let (sel, iss) = select(&names(&["Sans", "Serif"]), &cfg, &Vec::new());
    assert_eq!(sel, names(&["Serif"]));
    assert!(iss.is_empty());
}

#[test]
fn sans_preference_beats_serif() {
    let cfg = sans_config();
    let (sel, iss) = select(&names(&["Sans", "Serif"]), &cfg, &Vec::new());
    assert_eq!(sel, names(&["Sans"]));
    assert!(iss.is_empty());
}

#[test]
fn arabic_preference_selects_exactly_the_requested_style() {
    let mut cfg = sans_config();
    cfg.arabic = vec![Arabic::Naskh];
    let cands = names(&["Sans Arabic", "Naskh Arabic", "Nastaliq Urdu"]);
    let (sel, iss) = select(&cands, &cfg, &Vec::new());
    assert_eq!(sel, names(&["Naskh Arabic"]));
    assert!(iss.is_empty());
}

#[test]
fn unsatisfiable_family_preference_is_reported() {
    let mut cfg = sans_config();
    cfg.thai = vec![ThaiLao::SansLooped];
    let (sel, iss) = select(&names(&["Serif Thai"]), &cfg, &Vec::new());
    assert!(sel.is_empty());
    let thai = classify("Serif Thai").unwrap();
    assert_eq!(iss, vec![ResolutionIssue::UnsatisfiablePreference(thai)]);
}

#[test]
fn preference_lists_fall_through_in_order() {
    let mut cfg = sans_config();
    cfg.thai = vec![ThaiLao::SansLooped, ThaiLao::Serif];
    let (sel, iss) = select(&names(&["Serif Thai", "Sans Thai"]), &cfg, &Vec::new());
    assert_eq!(sel, names(&["Serif Thai"]));
    assert!(iss.is_empty());
}

#[test]
fn every_dedicated_family_honours_its_list() {
    let mut cfg = sans_config();
    cfg.adlam = vec![Adlam::Joined];
    cfg.hebrew = vec![Hebrew::Rashi];
    cfg.khitan = vec![Khitan::Vertical];
    cfg.nushu = vec![Nushu::Traditional];
    cfg.syriac = vec![Syriac::Western];
    cfg.cjk = vec![Cjk::Jp];
    let cases: Vec<(Vec<&str>, &str)> = vec![
        (vec!["Sans Adlam", "Sans Adlam Unjoined"], "Sans Adlam"),
        (vec!["Sans NKo", "Sans NKo Unjoined"], "Sans NKo"),
        (vec!["Sans Hebrew", "Serif Hebrew", "Rashi Hebrew"], "Rashi Hebrew"),
        (
            vec!["Serif Khitan Small Script", "Fangsong KSS Rotated", "Fangsong KSS Vertical"],
            "Fangsong KSS Vertical",
        ),
        (vec!["Sans Nushu", "Traditional Nushu"], "Traditional Nushu"),
        (vec!["Sans Syriac", "Sans Syriac Eastern", "Sans Syriac Western"], "Sans Syriac Western"),
        (vec!["Sans CJK JP", "Sans CJK KR"], "Sans CJK JP"),
        (vec!["Sans Lao", "Sans Lao Looped", "Serif Lao"], "Sans Lao"),
    ];
    for (cands, want) in cases {
        let (sel, iss) = select(&names(&cands), &cfg, &Vec::new());
        assert_eq!(sel, names(&[want]));
        assert!(iss.is_empty());
    }
}

#[test]
fn empty_candidates_select_nothing_and_report_nothing() {
    let cfg = sans_config();
    let (sel, iss) = select(&Vec::new(), &cfg, &Vec::new());
    assert!(sel.is_empty());
    assert!(iss.is_empty());
}

#[test]
fn multi_script_code_points_select_one_variant_per_script() {
    let cfg = sans_config();
    let cands = names(&["Sans", "Sans Arabic", "Sans Hebrew"]);
    let (sel, iss) = select(&cands, &cfg, &Vec::new());
    assert_eq!(sel, names(&["Sans", "Sans Arabic", "Sans Hebrew"]));
    assert!(iss.is_empty());
}

#[test]
fn reuse_beats_preference_when_configured() {
    let mut cfg = sans_config();
    cfg.lgc = vec![Lgc::Serif];
    let already = names(&["Sans"]);
    let (sel, _) = select(&names(&["Sans", "Serif"]), &cfg, &already);
    assert_eq!(sel, names(&["Sans"]));
    cfg.reuse_existing = false;
    let (sel, _) = select(&names(&["Sans", "Serif"]), &cfg, &already);
    assert_eq!(sel, names(&["Serif"]));
}

#[test]
fn marker_variants_yield_to_plain_ones_by_default() {
    let cfg = sans_config();
    let cands = names(&["Sans Arabic", "Sans Arabic UI"]);
    let (sel, _) = select(&cands, &cfg, &Vec::new());
    assert_eq!(sel, names(&["Sans Arabic"]));
}

#[test]
fn marker_variants_replace_their_twin_under_ui_preference() {
    let mut cfg = sans_config();
    cfg.prefer_ui = true;
    let cands = names(&["Sans Arabic", "Sans Arabic UI"]);
    let (sel, _) = select(&cands, &cfg, &Vec::new());
    assert_eq!(sel, names(&["Sans Arabic UI"]));
    let lone = names(&["Sans Arabic"]);
    let (sel, _) = select(&lone, &cfg, &Vec::new());
    assert_eq!(sel, names(&["Sans Arabic"]));
}

#[test]
fn math_tie_break_picks_one_of_the_two_symbol_faces() {
    let mut cfg = sans_config();
    let cands = names(&["Sans Math", "Sans Symbols"]);
    let (sel, _) = select(&cands, &cfg, &Vec::new());
    assert_eq!(sel, names(&["Sans Symbols"]));
    cfg.prefer_math = true;
    let (sel, _) = select(&cands, &cfg, &Vec::new());
    assert_eq!(sel, names(&["Sans Math"]));
}

#[test]
fn cjk_tie_break_decides_between_region_and_generic_glyphs() {
    let mut cfg = sans_config();
    let cands = names(&["Sans", "Sans CJK SC"]);
    let (sel, _) = select(&cands, &cfg, &Vec::new());
    assert_eq!(sel, names(&["Sans"]));
    cfg.prefer_cjk = true;
    let (sel, _) = select(&cands, &cfg, &Vec::new());
    assert_eq!(sel, names(&["Sans CJK SC"]));
}

#[test]
fn single_style_scripts_resolve_regardless_of_the_generic_preference() {
    let mut cfg = sans_config();
    cfg.lgc = vec![Lgc::Serif];
    let (sel, iss) = select(&names(&["Music"]), &cfg, &Vec::new());
    assert_eq!(sel, names(&["Music"]));
    assert!(iss.is_empty());
}

#[test]
fn serif_versus_sans_governs_scripts_without_a_dedicated_list() {
    let mut cfg = sans_config();
    cfg.lgc = vec![Lgc::Serif];
    let cands = names(&["Sans Telugu", "Serif Telugu"]);
    let (sel, _) = select(&cands, &cfg, &Vec::new());
    assert_eq!(sel, names(&["Serif Telugu"]));
    cfg.lgc = vec![Lgc::Sans];
    let (sel, _) = select(&cands, &cfg, &Vec::new());
    assert_eq!(sel, names(&["Sans Telugu"]));
}
