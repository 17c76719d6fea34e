use notoize::stack::stringify_fonts;
use notoize::{
    cjk_fallback_path, font_fetch_path, font_filename, BlockData, BlockEndpoints,
    CodepointFontSupport, FontStack, NotoizeClient,
};

fn names(v: &[&str]) -> Vec<String> {
    v.iter().map(|s| s.to_string()).collect()
}

#[test]
fn conflicts_report_multi_script_code_points() {
    let stack = FontStack {
        names: names(&["Noto Sans", "Noto Sans Hebrew"]),
        map: vec![
            (0x41, names(&["Sans"])),
            (0x42, names(&["Sans", "Sans Hebrew"])),
            (0x43, Vec::new()),
        ],
        issues: Vec::new(),
    };
    assert_eq!(stack.conflicts(), vec![0x42]);
}

#[test]
fn conflicts_come_from_resolution_of_shared_code_points() {
    let mut client = NotoizeClient::new(vec![BlockEndpoints {
        ix: 0,
        start: 0x41,
        end: 0x41,
        name: "a".to_string(),
    }])
    .unwrap();
    let data = BlockData {
        cps: vec![(
            "65".to_string(),
            CodepointFontSupport { fonts: Some(names(&["Sans", "Sans Arabic"])) },
        )],
        fonts: None,
    };
    client.ingest_block(0, data).unwrap();
    let stack = client.notoize("A");
    assert_eq!(stack.map, vec![(0x41, names(&["Sans", "Sans Arabic"]))]);
    assert_eq!(stack.conflicts(), vec![0x41]);
}

#[test]
fn grouped_rendering_joins_scripts_and_names() {
    let fonts = names(&["Sans Hebrew", "Sans", "Serif"]);
    assert_eq!(stringify_fonts(&fonts), "Sans, Serif\n    Sans Hebrew");
}

#[test]
fn map_string_renders_the_three_reports() {
    let stack = FontStack {
        names: names(&["Noto Sans", "Noto Sans Telugu", "Noto Sans Hebrew"]),
        map: vec![
            (0x41, names(&["Sans"])),
            (0x42, names(&["Sans", "Sans Hebrew"])),
            (0xC15, names(&["Sans Telugu"])),
            (0x43, Vec::new()),
        ],
        issues: Vec::new(),
    };
    let m = stack.map_string();
    assert_eq!(
        m.all,
        "0041\n    Sans\n0042\n    Sans\n    Sans Hebrew\n0c15\n    Sans Telugu\n"
    );
    assert_eq!(m.conflicts, "0042\n    Sans\n    Sans Hebrew\n");
    assert_eq!(m.missing, "0041\n    Serif, Sans Mono\n0042\n    Serif, Sans Mono\n    Serif Hebrew, Rashi Hebrew\n0c15\n    Serif Telugu\n");
}

#[test]
fn regular_families_file_under_their_squeezed_name() {
    assert_eq!(font_filename("Noto Sans Adlam"), "NotoSansAdlam-Regular.ttf");
    assert_eq!(font_filename("Noto Sans Pau-Cin-Hau"), "NotoSansPauCinHau-Regular.ttf");
}

#[test]
fn cjk_families_file_by_style_and_region() {
    assert_eq!(font_filename("Noto Sans CJK JP"), "NotoSansCJKjp-Regular.otf");
    assert_eq!(font_filename("Noto Sans CJK TC"), "NotoSansCJKtc-Regular.otf");
}

#[test]
fn special_families_keep_their_fixed_files() {
    assert_eq!(font_filename("Noto Color Emoji"), "NotoColorEmoji.ttf");
    assert_eq!(font_filename("Noto Sans ImpAramaic"), "NotoSansImperialAramaic-Regular.ttf");
    assert_eq!(
        font_filename("Noto Sans EgyptHiero"),
        "NotoSansEgyptianHieroglyphs-Regular.ttf"
    );
}

#[test]
fn fetch_paths_lead_with_the_family_segment() {
    assert_eq!(
        font_fetch_path("NotoSansAdlam-Regular.ttf"),
        "fonts/NotoSansAdlam/hinted/ttf/NotoSansAdlam-Regular.ttf"
    );
    assert_eq!(
        cjk_fallback_path("Noto Sans CJK JP", "NotoSansCJKjp-Regular.otf"),
        Some("Sans/OTF/Japanese/NotoSansCJKjp-Regular.otf".to_string())
    );
    assert_eq!(cjk_fallback_path("Noto Sans Adlam", "x.ttf"), None);
}
