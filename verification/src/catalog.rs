//! The font support catalog: per-block support documents, the merge rule
//! that turns one into per-code-point candidate lists, and the sorted store
//! that holds the lists for every loaded block.

use vstd::prelude::*;
use crate::sorting::views_of;
use crate::text::{all_dec_digits, parse_u32_decimal, spec_dec_value};
use crate::classify::{script_of, spec_script_of};

verus! {

/// A data-integrity failure: such data aborts the whole load, since going on
/// would produce a misleading stack.
#[derive(Debug, Clone, PartialEq, Eq)]
pub enum NotoizeError {
    /// Catalog data names a variant literal the classifier does not know.
    UnknownVariant(String),
    /// A support document key is not a decimal code point.
    MalformedKey(String),
    /// The block list is not sorted into pairwise disjoint ranges.
    MalformedIndex,
}

/// The per-code-point record of a block support document: the variant names
/// claiming to support the code point, or nothing where the document gives
/// the code point no list of its own.
#[derive(Debug, Clone)]
pub struct CodepointFontSupport {
    pub fonts: Option<Vec<String>>,
}

/// One block's support document: records keyed by decimal code-point
/// strings, and an optional block-wide default variant list.
#[derive(Debug, Clone)]
pub struct BlockData {
    pub cps: Vec<(String, CodepointFontSupport)>,
    pub fonts: Option<Vec<String>>,
}

/// Is the string a decimal code-point key?
pub open spec fn spec_key_ok(k: Seq<char>) -> bool {
    k.len() > 0 && all_dec_digits(k) && spec_dec_value(k) <= u32::MAX
}

/// Does every name of the list classify?
pub open spec fn spec_fonts_ok(l: Seq<Seq<char>>) -> bool {
    forall|i: int| 0 <= i < l.len() ==> spec_script_of(#[trigger] l[i]) is Some
}

/// Integrity of a support document: every key is a decimal code point, and
/// every variant name anywhere in it classifies.
pub open spec fn spec_data_ok(data: BlockData) -> bool {
    (match data.fonts {
        Some(d) => spec_fonts_ok(views_of(d@)),
        None => true,
    }) && (forall|i: int|
        0 <= i < data.cps@.len() ==> spec_key_ok((#[trigger] data.cps@[i]).0@) && (match data.cps@[i].1.fonts {
            Some(f) => spec_fonts_ok(views_of(f@)),
            None => true,
        }))
}

/// The first record that names this code point and carries its own list.
pub open spec fn spec_override_at(
    cps: Seq<(String, CodepointFontSupport)>,
    cp: u32,
    i: int,
) -> Option<Seq<Seq<char>>>
    decreases cps.len() - i,
{
    if i < 0 || i >= cps.len() {
        None
    } else if spec_key_ok(cps[i].0@) && spec_dec_value(cps[i].0@) == cp && cps[i].1.fonts is Some {
        Some(views_of(cps[i].1.fonts->0@))
    } else {
        spec_override_at(cps, cp, i + 1)
    }
}

/// The merge rule of ingestion: the code point's own list when the document
/// gives one, else the block-wide default, else the empty list.
pub open spec fn spec_block_support(data: BlockData, cp: u32) -> Seq<Seq<char>> {
    match spec_override_at(data.cps@, cp, 0) {
        Some(l) => l,
        None => match data.fonts {
            Some(d) => views_of(d@),
            None => Seq::empty(),
        },
    }
}

/// The support store: strictly ascending code-point keys.
pub open spec fn support_wf(s: Seq<(u32, Vec<String>)>) -> bool {
    forall|i: int, j: int| 0 <= i < j < s.len() ==> (#[trigger] s[i]).0 < (#[trigger] s[j]).0
}

/// First-match lookup of a code point's stored candidate list.
pub open spec fn spec_support_from(s: Seq<(u32, Vec<String>)>, cp: u32, i: int) -> Option<
    Seq<Seq<char>>,
>
    decreases s.len() - i,
{
    if i < 0 || i >= s.len() {
        None
    } else if s[i].0 == cp {
        Some(views_of(s[i].1@))
    } else {
        spec_support_from(s, cp, i + 1)
    }
}

pub open spec fn spec_support(s: Seq<(u32, Vec<String>)>, cp: u32) -> Option<Seq<Seq<char>>> {
    spec_support_from(s, cp, 0)
}

pub proof fn lemma_support_skip(s: Seq<(u32, Vec<String>)>, cp: u32, i: int)
    requires
        0 <= i <= s.len(),
        forall|j: int| 0 <= j < i ==> (#[trigger] s[j]).0 != cp,
    ensures
        spec_support(s, cp) == spec_support_from(s, cp, i),
    decreases i,
{
    if i > 0 {
        lemma_support_skip(s, cp, i - 1);
    }
}

/// An element-by-element copy of a string list.
pub fn clone_string_vec(v: &Vec<String>) -> (r: Vec<String>)
    ensures
        r@ == v@,
{
    let mut r: Vec<String> = Vec::new();
    let mut i: usize = 0;
    while i < v.len()
        invariant
            i <= v@.len(),
            r@.len() == i,
            forall|j: int| 0 <= j < i ==> r@[j] == v@[j],
        decreases v@.len() - i,
    {
        r.push(v[i].clone());
        i = i + 1;
    }
    proof {
        assert(r@ =~= v@);
    }
    r
}

/// Looks a code point up in the sorted support store.
pub fn get_support<'a>(s: &'a Vec<(u32, Vec<String>)>, cp: u32) -> (r: Option<&'a Vec<String>>)
    requires
        support_wf(s@),
    ensures
        match r {
            Some(v) => spec_support(s@, cp) == Some(views_of(v@)),
            None => spec_support(s@, cp) is None,
        },
{
    let mut lo: usize = 0;
    let mut hi: usize = s.len();
    while lo < hi
        invariant
            support_wf(s@),
            lo <= hi <= s@.len(),
            forall|i: int| 0 <= i < lo ==> (#[trigger] s@[i]).0 < cp,
            forall|i: int| hi <= i < s@.len() ==> (#[trigger] s@[i]).0 >= cp,
        decreases hi - lo,
    {
        let mid = lo + (hi - lo) / 2;
        if s[mid].0 < cp {
            proof {
                assert forall|i: int| 0 <= i < mid + 1 implies (#[trigger] s@[i]).0 < cp by {
                    if i < mid {
                        assert(s@[i].0 < s@[mid as int].0);
                    }
                }
            }
            lo = mid + 1;
        } else {
            proof {
                assert forall|i: int| mid <= i < s@.len() implies (#[trigger] s@[i]).0 >= cp by {
                    if i > mid {
                        assert(s@[mid as int].0 < s@[i].0);
                    }
                }
            }
            hi = mid;
        }
    }
    proof {
        lemma_support_skip(s@, cp, lo as int);
    }
    if lo < s.len() && s[lo].0 == cp {
        Some(&s[lo].1)
    } else {
        proof {
            if lo < s@.len() {
                assert forall|j: int| 0 <= j < s@.len() implies (#[trigger] s@[j]).0 != cp by {
                    if j < lo {
                    } else if j > lo {
                        assert(s@[lo as int].0 < s@[j].0);
                        assert(s@[lo as int].0 >= cp);
                    }
                }
                lemma_support_skip(s@, cp, s@.len() as int);
            }
        }
        None
    }
}

/// Finds the code point's own record in a support document and copies its
/// list, per the merge rule's first clause.
pub fn find_override(data: &BlockData, cp: u32) -> (r: Option<Vec<String>>)
    ensures
        match r {
            Some(v) => spec_override_at(data.cps@, cp, 0) == Some(views_of(v@)),
            None => spec_override_at(data.cps@, cp, 0) is None,
        },
{
    let mut i: usize = 0;
    while i < data.cps.len()
        invariant
            i <= data.cps@.len(),
            spec_override_at(data.cps@, cp, 0) == spec_override_at(data.cps@, cp, i as int),
        decreases data.cps@.len() - i,
    {
        let hit: bool = match parse_u32_decimal(data.cps[i].0.as_str()) {
            Some(v) => v == cp,
            None => false,
        };
        if hit {
            match &data.cps[i].1.fonts {
                Some(f) => {
                    let c = clone_string_vec(f);
                    proof {
                        assert(spec_key_ok(data.cps@[i as int].0@) && spec_dec_value(
                            data.cps@[i as int].0@,
                        ) == cp);
                    }
                    return Some(c);
                },
                None => {},
            }
        }
        i = i + 1;
    }
    None
}

/// One code point's candidate list under the merge rule: its own record's
/// list, else the block default, else empty.
pub fn block_support(data: &BlockData, cp: u32) -> (r: Vec<String>)
    ensures
        views_of(r@) == spec_block_support(*data, cp),
{
    match find_override(data, cp) {
        Some(v) => v,
        None => match &data.fonts {
            Some(d) => clone_string_vec(d),
            None => {
                let r: Vec<String> = Vec::new();
                proof {
                    assert(views_of(r@) =~= Seq::<Seq<char>>::empty());
                }
                r
            },
        },
    }
}

/// Checks a support document's integrity: every key a decimal code point,
/// every name classifiable. Returns the first offence, if any.
pub fn check_data(data: &BlockData) -> (r: Result<(), NotoizeError>)
    ensures
        r is Ok <==> spec_data_ok(*data),
        r is Err ==> (match r->Err_0 {
            NotoizeError::MalformedKey(k) => !spec_key_ok(k@),
            NotoizeError::UnknownVariant(n) => spec_script_of(n@) is None,
            NotoizeError::MalformedIndex => false,
        }),
{
    match &data.fonts {
        Some(d) => {
            match check_fonts(d) {
                Some(n) => {
                    return Err(NotoizeError::UnknownVariant(n));
                },
                None => {},
            }
        },
        None => {},
    }
    let mut i: usize = 0;
    while i < data.cps.len()
        invariant
            i <= data.cps@.len(),
            forall|j: int|
                0 <= j < i ==> spec_key_ok((#[trigger] data.cps@[j]).0@) && (match data.cps@[j].1.fonts {
                    Some(f) => spec_fonts_ok(views_of(f@)),
                    None => true,
                }),
            match data.fonts {
                Some(d) => spec_fonts_ok(views_of(d@)),
                None => true,
            },
        decreases data.cps@.len() - i,
    {
        match parse_u32_decimal(data.cps[i].0.as_str()) {
            Some(_) => {},
            None => {
                return Err(NotoizeError::MalformedKey(data.cps[i].0.clone()));
            },
        }
        match &data.cps[i].1.fonts {
            Some(f) => {
                match check_fonts(f) {
                    Some(n) => {
                        return Err(NotoizeError::UnknownVariant(n));
                    },
                    None => {},
                }
            },
            None => {},
        }
        i = i + 1;
    }
    Ok(())
}

/// The first name of the list that does not classify, if any.
fn check_fonts(l: &Vec<String>) -> (r: Option<String>)
    ensures
        r is None <==> spec_fonts_ok(views_of(l@)),
        r is Some ==> spec_script_of((r->0)@) is None,
{
    let mut i: usize = 0;
    while i < l.len()
        invariant
            i <= l@.len(),
            forall|j: int| 0 <= j < i ==> spec_script_of(#[trigger] views_of(l@)[j]) is Some,
        decreases l@.len() - i,
    {
        match script_of(l[i].as_str()) {
            Some(_) => {
                proof {
                    assert(views_of(l@)[i as int] == l@[i as int]@);
                }
            },
            None => {
                proof {
                    assert(views_of(l@)[i as int] == l@[i as int]@);
                }
                return Some(l[i].clone());
            },
        }
        i = i + 1;
    }
    None
}

} // verus!
