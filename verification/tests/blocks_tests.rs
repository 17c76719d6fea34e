use notoize::blocks::{check_index, lookup_block};
use notoize::{BlockEndpoints, NotoizeClient, NotoizeError};

fn block(ix: usize, start: u32, end: u32, name: &str) -> BlockEndpoints {
    BlockEndpoints { ix, start, end, name: name.to_string() }
}

fn sample_index() -> Vec<BlockEndpoints> {
    vec![
        block(0, 0x0000, 0x007F, "Basic Latin"),
        block(1, 0x0080, 0x00FF, "Latin-1 Supplement"),
        block(2, 0x0590, 0x05FF, "Hebrew"),
        block(3, 0x0600, 0x06FF, "Arabic"),
        block(4, 0x10000, 0x1007F, "Linear B Syllabary"),
    ]
}

#[test]
fn lookup_finds_the_owning_block_for_every_point_of_its_range() {
    let blocks = sample_index();
    for (i, b) in blocks.iter().enumerate() {
        for cp in b.start..=b.end {
            assert_eq!(lookup_block(&blocks, cp), Some(i), "{cp:04x} must fall in block {i}");
        }
    }
}

#[test]
fn lookup_reports_unassigned_gaps() {
    let blocks = sample_index();
    assert_eq!(lookup_block(&blocks, 0x0100), None);
    assert_eq!(lookup_block(&blocks, 0x0700), None);
    assert_eq!(lookup_block(&blocks, 0x2FFFF), None);
}

#[test]
fn index_check_accepts_disjoint_ascending_ranges() {
    assert!(check_index(&sample_index()));
    assert!(check_index(&Vec::new()));
}

#[test]
fn index_check_rejects_overlap_and_disorder() {
    let overlapping = vec![block(0, 0, 100, "a"), block(1, 100, 200, "b")];
    assert!(!check_index(&overlapping));
    let unordered = vec![block(0, 200, 300, "a"), block(1, 0, 100, "b")];
    assert!(!check_index(&unordered));
    let inverted = vec![block(0, 10, 5, "a")];
    assert!(!check_index(&inverted));
}

#[test]
fn client_rejects_a_malformed_index() {
    let overlapping = vec![block(0, 0, 100, "a"), block(1, 50, 200, "b")];
    assert_eq!(NotoizeClient::new(overlapping).err(), Some(NotoizeError::MalformedIndex));
    assert!(NotoizeClient::new(sample_index()).is_ok());
}
