use notoize::{
    BlockData, BlockEndpoints, CodepointFontSupport, Lgc, NotoizeClient, NotoizeError,
    ResolutionIssue, ThaiLao,
};

fn block(ix: usize, start: u32, end: u32, name: &str) -> BlockEndpoints {
    BlockEndpoints { ix, start, end, name: name.to_string() }
}

fn names(v: &[&str]) -> Vec<String> {
    v.iter().map(|s| s.to_string()).collect()
}

fn entry(key: &str, fonts: Option<&[&str]>) -> (String, CodepointFontSupport) {
    (key.to_string(), CodepointFontSupport { fonts: fonts.map(|f| names(f)) })
}

#[test]
fn blocks_needed_names_each_unloaded_block_once() {
    let client = NotoizeClient::new(vec![
        block(0, 0x41, 0x5A, "upper"),
        block(1, 0x61, 0x7A, "lower"),
    ])
    .unwrap();
    assert_eq!(client.blocks_needed("ABba"), vec![0, 1]);
    assert_eq!(client.blocks_needed("\u{30}"), Vec::<usize>::new());
}

#[test]
fn ingest_applies_the_merge_rule() {
    let mut client = NotoizeClient::new(vec![block(0, 0x41, 0x43, "abc")]).unwrap().lgc(vec![
        Lgc::Sans,
        Lgc::Serif,
    ]);
    let data = BlockData {
        cps: vec![entry("65", Some(&["Sans"])), entry("66", None)],
        fonts: Some(names(&["Serif"])),
    };
    client.ingest_block(0, data).unwrap();
    // 0x41 has its own list, 0x42 and 0x43 fall back to the block default.
    let stack = client.notoize("ABC");
    assert_eq!(
        stack.map,
        vec![
            (0x41, names(&["Sans"])),
            (0x42, names(&["Serif"])),
            (0x43, names(&["Serif"])),
        ]
    );
}

#[test]
fn ingest_without_a_default_gives_unlisted_points_nothing() {
    let mut client = NotoizeClient::new(vec![block(0, 0x41, 0x42, "ab")]).unwrap();
    let data = BlockData { cps: vec![entry("65", Some(&["Sans"]))], fonts: None };
    client.ingest_block(0, data).unwrap();
    let stack = client.notoize("AB");
    assert_eq!(stack.map, vec![(0x41, names(&["Sans"])), (0x42, Vec::<String>::new())]);
    assert_eq!(stack.issues, vec![(0x42, ResolutionIssue::UnsupportedCodePoint)]);
}

#[test]
fn ingest_rejects_an_unknown_variant_whole() {
    let mut client = NotoizeClient::new(vec![block(0, 0x41, 0x42, "ab")]).unwrap();
    let data = BlockData { cps: vec![entry("65", Some(&["Comic Sans"]))], fonts: None };
    assert_eq!(
        client.ingest_block(0, data),
        Err(NotoizeError::UnknownVariant("Comic Sans".to_string()))
    );
    // nothing was merged
    let stack = client.notoize("A");
    assert_eq!(stack.map, vec![(0x41, Vec::<String>::new())]);
}

#[test]
fn ingest_rejects_a_malformed_key_whole() {
    let mut client = NotoizeClient::new(vec![block(0, 0x41, 0x42, "ab")]).unwrap();
    let data = BlockData { cps: vec![entry("41h", Some(&["Sans"]))], fonts: None };
    assert_eq!(client.ingest_block(0, data), Err(NotoizeError::MalformedKey("41h".to_string())));
}

#[test]
fn each_block_is_loaded_at_most_once() {
    let mut client = NotoizeClient::new(vec![block(0, 0x41, 0x41, "a")]).unwrap();
    let first = BlockData { cps: vec![entry("65", Some(&["Sans"]))], fonts: None };
    let second = BlockData { cps: vec![entry("65", Some(&["Serif"]))], fonts: None };
    client.ingest_block(0, first).unwrap();
    client.ingest_block(0, second).unwrap();
    let stack = client.notoize("A");
    assert_eq!(stack.map, vec![(0x41, names(&["Sans"]))]);
    assert!(client.blocks_needed("A").is_empty());
}

#[test]
fn serif_preference_resolves_to_serif_end_to_end() {
    let mut client = NotoizeClient::new(vec![block(0, 0x41, 0x41, "a")])
        .unwrap()
        .lgc(vec![Lgc::Serif]);
    let data = BlockData { cps: vec![entry("65", Some(&["Sans", "Serif"]))], fonts: None };
    client.ingest_block(0, data).unwrap();
    let stack = client.notoize("A");
    assert_eq!(stack.names, names(&["Noto Serif"]));
    assert_eq!(stack.map, vec![(0x41, names(&["Serif"]))]);
}

#[test]
fn resolution_is_idempotent() {
    let mut client = NotoizeClient::new(vec![block(0, 0x41, 0x5A, "upper")]).unwrap();
    let data = BlockData {
        cps: vec![entry("65", Some(&["Sans", "Serif"])), entry("66", Some(&["Sans Arabic"]))],
        fonts: None,
    };
    client.ingest_block(0, data).unwrap();
    let a = client.notoize("AB");
    let b = client.notoize("AB");
    assert_eq!(a.names, b.names);
    assert_eq!(a.map, b.map);
    assert_eq!(a.issues, b.issues);
}

#[test]
fn stack_minimization_reuses_an_already_selected_variant() {
    let blocks = vec![block(0, 0x61, 0x62, "ab")];
    let data = BlockData {
        cps: vec![entry("97", Some(&["Sans"])), entry("98", Some(&["Sans", "Serif"]))],
        fonts: None,
    };
    // reuse on (the default): the Sans pulled in for `a` also serves `b`
    let mut client = NotoizeClient::new(blocks.clone()).unwrap().lgc(vec![Lgc::Serif, Lgc::Sans]);
    client.ingest_block(0, data.clone()).unwrap();
    let stack = client.notoize("ab");
    assert_eq!(stack.names, names(&["Noto Sans"]));
    // reuse off: the stated serif preference wins for `b`
    let mut client = NotoizeClient::new(blocks).unwrap().lgc(vec![Lgc::Serif, Lgc::Sans]);
    client.config.reuse_existing = false;
    client.ingest_block(0, data).unwrap();
    let stack = client.notoize("ab");
    assert_eq!(stack.names, names(&["Noto Sans", "Noto Serif"]));
}

#[test]
fn unsatisfiable_preference_leaves_other_code_points_untouched() {
    let mut client = NotoizeClient::new(vec![block(0, 0x41, 0x42, "ab")]).unwrap();
    client.config.thai = vec![ThaiLao::SansLooped];
    let data = BlockData {
        cps: vec![entry("65", Some(&["Serif Thai"])), entry("66", Some(&["Sans"]))],
        fonts: None,
    };
    client.ingest_block(0, data).unwrap();
    let stack = client.notoize("AB");
    assert_eq!(stack.names, names(&["Noto Sans"]));
    assert_eq!(stack.map, vec![(0x41, Vec::<String>::new()), (0x42, names(&["Sans"]))]);
    assert_eq!(stack.issues.len(), 1);
    assert_eq!(stack.issues[0].0, 0x41);
    assert!(matches!(stack.issues[0].1, ResolutionIssue::UnsatisfiablePreference(_)));
}

#[test]
fn names_deduplicate_in_first_use_order() {
    let mut client = NotoizeClient::new(vec![block(0, 0x41, 0x43, "abc")]).unwrap();
    let data = BlockData {
        cps: vec![
            entry("65", Some(&["Sans Hebrew"])),
            entry("66", Some(&["Sans"])),
            entry("67", Some(&["Sans", "Sans Hebrew"])),
        ],
        fonts: None,
    };
    client.ingest_block(0, data).unwrap();
    let stack = client.notoize("CAB");
    assert_eq!(stack.names, names(&["Noto Sans Hebrew", "Noto Sans"]));
    assert_eq!(stack.map[2], (0x43, names(&["Sans", "Sans Hebrew"])));
}
