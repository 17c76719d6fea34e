//! The resolver: for one code point, intersects its supporting variants with
//! the style configuration and picks the variant(s) needed. Candidates are
//! grouped by script; each group is resolved through its family's preference
//! list, after the interface/display, math and CJK tie-breaks, preferring a
//! variant already selected for earlier text when reuse is configured.

use vstd::prelude::*;
use crate::classify::{
    base_view, script_of, spec_script_of, spec_variant_table, table_view, variant_table, Script,
    SCRIPT_ADLAM, SCRIPT_ARABIC, SCRIPT_CJK, SCRIPT_HEBREW, SCRIPT_KHITAN, SCRIPT_LAO, SCRIPT_NEUTRAL,
    SCRIPT_NKO, SCRIPT_NUSHU, SCRIPT_SYRIAC, SCRIPT_THAI,
};
use crate::config::{
    spec_adlam_literal, spec_arabic_literal, spec_cjk_literal, spec_hebrew_literal,
    spec_khitan_literal, spec_lao_literal, spec_lgc_literal, spec_nko_literal, spec_nushu_literal,
    spec_syriac_literal, spec_thai_literal, Adlam, Arabic, Cjk, Hebrew, Khitan, Lgc, NotoizeConfig,
    Nushu, Syriac, ThaiLao,
};
use crate::sorting::{spec_filter_upto, views_of};
use crate::text::{starts_with_str, str_eq};

verus! {

/// A per-code-point finding that resolution records and carries on past.
#[derive(Debug, Clone, Copy, PartialEq, Eq, Structural)]
pub enum ResolutionIssue {
    /// No block, or no candidate at all: no font available.
    UnsupportedCodePoint,
    /// The named script's preference list requests only styles absent from
    /// the code point's candidates.
    UnsatisfiablePreference(Script),
}

/// Which candidates survive the interface/display tie-break. Without
/// `prefer_ui` every marker-suffixed name goes; with it, a plain name goes
/// exactly when its marker-suffixed twin is also a candidate.
pub open spec fn spec_keep_ui(cands: Seq<Seq<char>>, prefer_ui: bool) -> spec_fn(Seq<char>) -> bool {
    if prefer_ui {
        |c: Seq<char>|
            base_view(c) != c || (!cands.contains(c + " UI"@) && !cands.contains(c + " Display"@))
    } else {
        |c: Seq<char>| base_view(c) == c
    }
}

pub open spec fn spec_effective(cands: Seq<Seq<char>>, prefer_ui: bool) -> Seq<Seq<char>> {
    spec_filter_upto(cands, spec_keep_ui(cands, prefer_ui), cands.len() as int)
}

/// Which candidates survive the math tie-break: where both "Sans Math" and
/// "Sans Symbols" are candidates, the non-preferred one goes.
pub open spec fn spec_math_filter(cands: Seq<Seq<char>>, prefer_math: bool) -> Seq<Seq<char>> {
    if cands.contains("Sans Math"@) && cands.contains("Sans Symbols"@) {
        if prefer_math {
            spec_filter_upto(cands, |c: Seq<char>| c != "Sans Symbols"@, cands.len() as int)
        } else {
            spec_filter_upto(cands, |c: Seq<char>| c != "Sans Math"@, cands.len() as int)
        }
    } else {
        cands
    }
}

/// The candidates of one script, in candidate order.
pub open spec fn spec_group(eff: Seq<Seq<char>>, code: u32) -> Seq<Seq<char>> {
    spec_filter_upto(eff, |c: Seq<char>| spec_script_of(c) == Some(code), eff.len() as int)
}

/// Does any candidate belong to the script?
pub open spec fn spec_has_script(eff: Seq<Seq<char>>, code: u32) -> bool {
    exists|q: int| 0 <= q < eff.len() && spec_script_of(#[trigger] eff[q]) == Some(code)
}

/// The first group member already selected for earlier text, from index `i`.
pub open spec fn first_reuse_from(g: Seq<Seq<char>>, already: Seq<Seq<char>>, i: int) -> Option<
    Seq<char>,
>
    decreases g.len() - i,
{
    if i < 0 || i >= g.len() {
        None
    } else if already.contains(g[i]) {
        Some(g[i])
    } else {
        first_reuse_from(g, already, i + 1)
    }
}

/// The first group member whose base is literally the requested variant.
pub open spec fn first_base_from(g: Seq<Seq<char>>, lit: Seq<char>, i: int) -> Option<Seq<char>>
    decreases g.len() - i,
{
    if i < 0 || i >= g.len() {
        None
    } else if base_view(g[i]) == lit {
        Some(g[i])
    } else {
        first_base_from(g, lit, i + 1)
    }
}

/// The first group member whose base starts with the requested style word.
pub open spec fn first_prefix_from(g: Seq<Seq<char>>, pre: Seq<char>, i: int) -> Option<Seq<char>>
    decreases g.len() - i,
{
    if i < 0 || i >= g.len() {
        None
    } else if pre.is_prefix_of(base_view(g[i])) {
        Some(g[i])
    } else {
        first_prefix_from(g, pre, i + 1)
    }
}

/// The first satisfiable preference of a literal list, tried in list order.
pub open spec fn pick_literals_from(g: Seq<Seq<char>>, lits: Seq<Seq<char>>, i: int) -> Option<
    Seq<char>,
>
    decreases lits.len() - i,
{
    if i < 0 || i >= lits.len() {
        None
    } else {
        match first_base_from(g, lits[i], 0) {
            Some(c) => Some(c),
            None => pick_literals_from(g, lits, i + 1),
        }
    }
}

/// The first satisfiable generic-style preference, matching by style word.
pub open spec fn pick_prefixes_from(g: Seq<Seq<char>>, lgc: Seq<Lgc>, i: int) -> Option<Seq<char>>
    decreases lgc.len() - i,
{
    if i < 0 || i >= lgc.len() {
        None
    } else {
        match first_prefix_from(g, spec_lgc_literal(lgc[i]), 0) {
            Some(c) => Some(c),
            None => pick_prefixes_from(g, lgc, i + 1),
        }
    }
}

/// The preference list that governs a script with a dedicated family
/// enumeration; `None` for the many scripts governed by the generic
/// serif-versus-sans choice.
pub open spec fn spec_family_prefs(code: u32, cfg: NotoizeConfig) -> Option<Seq<Seq<char>>> {
    if code == SCRIPT_NEUTRAL {
        Some(cfg.lgc@.map_values(|x: Lgc| spec_lgc_literal(x)))
    } else if code == SCRIPT_ADLAM {
        Some(cfg.adlam@.map_values(|x: Adlam| spec_adlam_literal(x)))
    } else if code == SCRIPT_NKO {
        Some(cfg.adlam@.map_values(|x: Adlam| spec_nko_literal(x)))
    } else if code == SCRIPT_ARABIC {
        Some(cfg.arabic@.map_values(|x: Arabic| spec_arabic_literal(x)))
    } else if code == SCRIPT_HEBREW {
        Some(cfg.hebrew@.map_values(|x: Hebrew| spec_hebrew_literal(x)))
    } else if code == SCRIPT_KHITAN {
        Some(cfg.khitan@.map_values(|x: Khitan| spec_khitan_literal(x)))
    } else if code == SCRIPT_NUSHU {
        Some(cfg.nushu@.map_values(|x: Nushu| spec_nushu_literal(x)))
    } else if code == SCRIPT_SYRIAC {
        Some(cfg.syriac@.map_values(|x: Syriac| spec_syriac_literal(x)))
    } else if code == SCRIPT_THAI {
        Some(cfg.thai@.map_values(|x: ThaiLao| spec_thai_literal(x)))
    } else if code == SCRIPT_LAO {
        Some(cfg.thai@.map_values(|x: ThaiLao| spec_lao_literal(x)))
    } else if code == SCRIPT_CJK {
        Some(cfg.cjk@.map_values(|x: Cjk| spec_cjk_literal(x)))
    } else {
        None
    }
}

/// The variant selected for one script group: a reused variant when reuse is
/// configured and possible; otherwise the family preference list decides,
/// with the generic serif-versus-sans choice as an advisory order for
/// scripts without a dedicated list (their first candidate is the fallback).
pub open spec fn spec_pick(
    g: Seq<Seq<char>>,
    code: u32,
    cfg: NotoizeConfig,
    already: Seq<Seq<char>>,
) -> Option<Seq<char>> {
    if g.len() == 0 {
        None
    } else if cfg.reuse_existing && first_reuse_from(g, already, 0) is Some {
        first_reuse_from(g, already, 0)
    } else {
        match spec_family_prefs(code, cfg) {
            Some(lits) => pick_literals_from(g, lits, 0),
            None => match pick_prefixes_from(g, cfg.lgc@, 0) {
                Some(c) => Some(c),
                None => Some(g[0]),
            },
        }
    }
}

/// The CJK tie-break: where both generic and CJK candidates support the code
/// point, only one of the two groups is considered.
pub open spec fn spec_skip_code(eff: Seq<Seq<char>>, code: u32, cfg: NotoizeConfig) -> bool {
    spec_has_script(eff, SCRIPT_NEUTRAL) && spec_has_script(eff, SCRIPT_CJK) && ((code
        == SCRIPT_NEUTRAL && cfg.prefer_cjk) || (code == SCRIPT_CJK && !cfg.prefer_cjk))
}

/// Resolution of the script groups with codes in `code..=maxc`, in ascending
/// script order: the selected variants and the unsatisfiable families.
pub open spec fn spec_select_from(
    eff: Seq<Seq<char>>,
    cfg: NotoizeConfig,
    already: Seq<Seq<char>>,
    code: int,
    maxc: int,
) -> (Seq<Seq<char>>, Seq<ResolutionIssue>)
    decreases maxc - code + 1,
{
    if code < 0 || code > maxc {
        (Seq::empty(), Seq::empty())
    } else {
        let rest = spec_select_from(eff, cfg, already, code + 1, maxc);
        let g = spec_group(eff, code as u32);
        if g.len() == 0 || spec_skip_code(eff, code as u32, cfg) {
            rest
        } else {
            match spec_pick(g, code as u32, cfg, already) {
                Some(c) => (seq![c] + rest.0, rest.1),
                None => (
                    rest.0,
                    seq![ResolutionIssue::UnsatisfiablePreference(Script(code as u32))] + rest.1,
                ),
            }
        }
    }
}

/// The greatest script code the table declares.
pub open spec fn spec_max_code(t: Seq<(Seq<char>, u32)>) -> int
    decreases t.len(),
{
    if t.len() == 0 {
        0
    } else {
        let m = spec_max_code(t.drop_last());
        if t.last().1 > m {
            t.last().1 as int
        } else {
            m
        }
    }
}

/// What `select` returns for one code point's candidates: zero or more
/// variants (one per surviving script group, in script order) and the
/// families whose preferences the candidates cannot satisfy.
pub open spec fn spec_select(
    cands: Seq<Seq<char>>,
    cfg: NotoizeConfig,
    already: Seq<Seq<char>>,
) -> (Seq<Seq<char>>, Seq<ResolutionIssue>) {
    let eff = spec_math_filter(spec_effective(cands, cfg.prefer_ui), cfg.prefer_math);
    spec_select_from(eff, cfg, already, 0, spec_max_code(spec_variant_table()))
}

/// Does the list hold this exact string?
pub fn contains_string(v: &Vec<String>, s: &str) -> (r: bool)
    ensures
        r == views_of(v@).contains(s@),
{
    let mut i: usize = 0;
    while i < v.len()
        invariant
            i <= v@.len(),
            forall|j: int| 0 <= j < i ==> #[trigger] views_of(v@)[j] != s@,
        decreases v@.len() - i,
    {
        if str_eq(v[i].as_str(), s) {
            proof {
                assert(views_of(v@)[i as int] == s@);
            }
            return true;
        }
        proof {
            assert(views_of(v@)[i as int] == v@[i as int]@);
        }
        i = i + 1;
    }
    proof {
        assert forall|j: int| 0 <= j < v@.len() implies #[trigger] views_of(v@)[j] != s@ by {}
    }
    false
}

/// Does the name end in an interface or display marker?
fn is_marked(s: &str) -> (r: bool)
    ensures
        r == (base_view(s@) != s@),
{
    let ui = crate::text::ends_with_str(s, " UI");
    let disp = crate::text::ends_with_str(s, " Display");
    proof {
        reveal_strlit(" UI");
        reveal_strlit(" Display");
        if ui {
            assert(base_view(s@).len() < s@.len());
        } else if disp {
            assert(base_view(s@).len() < s@.len());
        }
    }
    ui || disp
}

/// Applies the interface/display tie-break to a candidate list.
fn ui_filter(cands: &Vec<String>, prefer_ui: bool) -> (r: Vec<String>)
    ensures
        views_of(r@) == spec_effective(views_of(cands@), prefer_ui),
{
    let ghost cviews = views_of(cands@);
    let ghost keep = spec_keep_ui(cviews, prefer_ui);
    let mut r: Vec<String> = Vec::new();
    let mut i: usize = 0;
    while i < cands.len()
        invariant
            i <= cands@.len(),
            cviews == views_of(cands@),
            keep == spec_keep_ui(cviews, prefer_ui),
            views_of(r@) == spec_filter_upto(cviews, keep, i as int),
        decreases cands@.len() - i,
    {
        let c = &cands[i];
        let marked = is_marked(c.as_str());
        let keep_it: bool;
        if prefer_ui {
            if marked {
                keep_it = true;
            } else {
                let twin_ui = c.clone().concat(" UI");
                let twin_disp = c.clone().concat(" Display");
                let has_twin = contains_string(cands, twin_ui.as_str()) || contains_string(
                    cands,
                    twin_disp.as_str(),
                );
                keep_it = !has_twin;
            }
        } else {
            keep_it = !marked;
        }
        proof {
            assert(cviews[i as int] == cands@[i as int]@);
            assert(keep(cviews[i as int]) == keep_it);
        }
        if keep_it {
            r.push(c.clone());
        }
        proof {
            assert(views_of(r@) =~= spec_filter_upto(cviews, keep, i + 1));
        }
        i = i + 1;
    }
    proof {
        assert(views_of(r@) == spec_filter_upto(cviews, keep, cands@.len() as int));
    }
    r
}

/// Applies the math tie-break to a candidate list.
fn math_filter(cands: Vec<String>, prefer_math: bool) -> (r: Vec<String>)
    ensures
        views_of(r@) == spec_math_filter(views_of(cands@), prefer_math),
{
    let ghost cviews = views_of(cands@);
    let has_math = contains_string(&cands, "Sans Math");
    let has_sym = contains_string(&cands, "Sans Symbols");
    if !(has_math && has_sym) {
        return cands;
    }
    let drop: &str = if prefer_math {
        "Sans Symbols"
    } else {
        "Sans Math"
    };
    let ghost keep: spec_fn(Seq<char>) -> bool = if prefer_math {
        |c: Seq<char>| c != "Sans Symbols"@
    } else {
        |c: Seq<char>| c != "Sans Math"@
    };
    let mut r: Vec<String> = Vec::new();
    let mut i: usize = 0;
    while i < cands.len()
        invariant
            i <= cands@.len(),
            cviews == views_of(cands@),
            drop@ == (if prefer_math {
                "Sans Symbols"@
            } else {
                "Sans Math"@
            }),
            keep == (if prefer_math {
                |c: Seq<char>| c != "Sans Symbols"@
            } else {
                |c: Seq<char>| c != "Sans Math"@
            }),
            views_of(r@) == spec_filter_upto(cviews, keep, i as int),
        decreases cands@.len() - i,
    {
        let keep_it = !str_eq(cands[i].as_str(), drop);
        proof {
            assert(cviews[i as int] == cands@[i as int]@);
            assert(keep(cviews[i as int]) == keep_it);
        }
        if keep_it {
            r.push(cands[i].clone());
        }
        proof {
            assert(views_of(r@) =~= spec_filter_upto(cviews, keep, i + 1));
        }
        i = i + 1;
    }
    proof {
        assert(views_of(r@) == spec_filter_upto(cviews, keep, cands@.len() as int));
    }
    r
}

/// The candidates of one script.
pub(crate) fn group_by_script(eff: &Vec<String>, code: u32) -> (r: Vec<String>)
    ensures
        views_of(r@) == spec_group(views_of(eff@), code),
{
    let ghost eviews = views_of(eff@);
    let ghost keep: spec_fn(Seq<char>) -> bool = |c: Seq<char>| spec_script_of(c) == Some(code);
    let mut r: Vec<String> = Vec::new();
    let mut i: usize = 0;
    while i < eff.len()
        invariant
            i <= eff@.len(),
            eviews == views_of(eff@),
            keep == (|c: Seq<char>| spec_script_of(c) == Some(code)),
            views_of(r@) == spec_filter_upto(eviews, keep, i as int),
        decreases eff@.len() - i,
    {
        let keep_it = match script_of(eff[i].as_str()) {
            Some(s) => s.0 == code,
            None => false,
        };
        proof {
            assert(eviews[i as int] == eff@[i as int]@);
            assert(keep(eviews[i as int]) == keep_it);
        }
        if keep_it {
            r.push(eff[i].clone());
        }
        proof {
            assert(views_of(r@) =~= spec_filter_upto(eviews, keep, i + 1));
        }
        i = i + 1;
    }
    proof {
        assert(views_of(r@) == spec_filter_upto(eviews, keep, eff@.len() as int));
    }
    r
}

/// Does any candidate classify to the script?
fn has_script(eff: &Vec<String>, code: u32) -> (r: bool)
    ensures
        r == spec_has_script(views_of(eff@), code),
{
    let mut i: usize = 0;
    while i < eff.len()
        invariant
            i <= eff@.len(),
            forall|q: int|
                0 <= q < i ==> spec_script_of(#[trigger] views_of(eff@)[q]) != Some(code),
        decreases eff@.len() - i,
    {
        match script_of(eff[i].as_str()) {
            Some(s) => {
                if s.0 == code {
                    proof {
                        assert(spec_script_of(views_of(eff@)[i as int]) == Some(code));
                    }
                    return true;
                }
            },
            None => {},
        }
        proof {
            assert(views_of(eff@)[i as int] == eff@[i as int]@);
        }
        i = i + 1;
    }
    false
}

fn find_reuse(g: &Vec<String>, already: &Vec<String>) -> (r: Option<usize>)
    ensures
        match r {
            Some(i) => i < g@.len() && first_reuse_from(views_of(g@), views_of(already@), 0)
                == Some(views_of(g@)[i as int]),
            None => first_reuse_from(views_of(g@), views_of(already@), 0) is None,
        },
{
    let ghost gv = views_of(g@);
    let ghost av = views_of(already@);
    let mut i: usize = 0;
    while i < g.len()
        invariant
            i <= g@.len(),
            gv == views_of(g@),
            av == views_of(already@),
            first_reuse_from(gv, av, 0) == first_reuse_from(gv, av, i as int),
        decreases g@.len() - i,
    {
        if contains_string(already, g[i].as_str()) {
            proof {
                assert(gv[i as int] == g@[i as int]@);
            }
            return Some(i);
        }
        proof {
            assert(gv[i as int] == g@[i as int]@);
        }
        i = i + 1;
    }
    None
}

fn find_base(g: &Vec<String>, lit: &str) -> (r: Option<usize>)
    ensures
        match r {
            Some(i) => i < g@.len() && first_base_from(views_of(g@), lit@, 0) == Some(
                views_of(g@)[i as int],
            ),
            None => first_base_from(views_of(g@), lit@, 0) is None,
        },
{
    let ghost gv = views_of(g@);
    let mut i: usize = 0;
    while i < g.len()
        invariant
            i <= g@.len(),
            gv == views_of(g@),
            first_base_from(gv, lit@, 0) == first_base_from(gv, lit@, i as int),
        decreases g@.len() - i,
    {
        let b = crate::classify::base_name(g[i].as_str());
        if str_eq(b, lit) {
            proof {
                assert(gv[i as int] == g@[i as int]@);
            }
            return Some(i);
        }
        proof {
            assert(gv[i as int] == g@[i as int]@);
        }
        i = i + 1;
    }
    None
}

fn find_prefix(g: &Vec<String>, pre: &str) -> (r: Option<usize>)
    ensures
        match r {
            Some(i) => i < g@.len() && first_prefix_from(views_of(g@), pre@, 0) == Some(
                views_of(g@)[i as int],
            ),
            None => first_prefix_from(views_of(g@), pre@, 0) is None,
        },
{
    let ghost gv = views_of(g@);
    let mut i: usize = 0;
    while i < g.len()
        invariant
            i <= g@.len(),
            gv == views_of(g@),
            first_prefix_from(gv, pre@, 0) == first_prefix_from(gv, pre@, i as int),
        decreases g@.len() - i,
    {
        let b = crate::classify::base_name(g[i].as_str());
        if starts_with_str(b, pre) {
            proof {
                assert(gv[i as int] == g@[i as int]@);
            }
            return Some(i);
        }
        proof {
            assert(gv[i as int] == g@[i as int]@);
        }
        i = i + 1;
    }
    None
}

fn pick_literals(g: &Vec<String>, lits: &Vec<String>) -> (r: Option<usize>)
    ensures
        match r {
            Some(i) => i < g@.len() && pick_literals_from(views_of(g@), views_of(lits@), 0)
                == Some(views_of(g@)[i as int]),
            None => pick_literals_from(views_of(g@), views_of(lits@), 0) is None,
        },
{
    let ghost gv = views_of(g@);
    let ghost lv = views_of(lits@);
    let mut li: usize = 0;
    while li < lits.len()
        invariant
            li <= lits@.len(),
            gv == views_of(g@),
            lv == views_of(lits@),
            pick_literals_from(gv, lv, 0) == pick_literals_from(gv, lv, li as int),
        decreases lits@.len() - li,
    {
        proof {
            assert(lv[li as int] == lits@[li as int]@);
        }
        match find_base(g, lits[li].as_str()) {
            Some(i) => {
                return Some(i);
            },
            None => {},
        }
        li = li + 1;
    }
    None
}

fn lgc_literal(l: Lgc) -> (r: &'static str)
    ensures
        r@ == spec_lgc_literal(l),
{
    match l {
        Lgc::Sans => "Sans",
        Lgc::Serif => "Serif",
        Lgc::Mono => "Sans Mono",
    }
}

fn adlam_literal(a: Adlam) -> (r: &'static str)
    ensures
        r@ == spec_adlam_literal(a),
{
    match a {
        Adlam::Unjoined => "Sans Adlam Unjoined",
        Adlam::Joined => "Sans Adlam",
    }
}

fn nko_literal(a: Adlam) -> (r: &'static str)
    ensures
        r@ == spec_nko_literal(a),
{
    match a {
        Adlam::Unjoined => "Sans NKo Unjoined",
        Adlam::Joined => "Sans NKo",
    }
}

fn arabic_literal(a: Arabic) -> (r: &'static str)
    ensures
        r@ == spec_arabic_literal(a),
{
    match a {
        Arabic::Sans => "Sans Arabic",
        Arabic::Kufi => "Kufi Arabic",
        Arabic::Naskh => "Naskh Arabic",
        Arabic::Nastaliq => "Nastaliq Urdu",
    }
}

fn hebrew_literal(h: Hebrew) -> (r: &'static str)
    ensures
        r@ == spec_hebrew_literal(h),
{
    match h {
        Hebrew::Sans => "Sans Hebrew",
        Hebrew::Serif => "Serif Hebrew",
        Hebrew::Rashi => "Rashi Hebrew",
    }
}

fn khitan_literal(k: Khitan) -> (r: &'static str)
    ensures
        r@ == spec_khitan_literal(k),
{
    match k {
        Khitan::Serif => "Serif Khitan Small Script",
        Khitan::Rotated => "Fangsong KSS Rotated",
        Khitan::Vertical => "Fangsong KSS Vertical",
    }
}

fn nushu_literal(n: Nushu) -> (r: &'static str)
    ensures
        r@ == spec_nushu_literal(n),
{
    match n {
        Nushu::Sans => "Sans Nushu",
        Nushu::Traditional => "Traditional Nushu",
    }
}

fn syriac_literal(s: Syriac) -> (r: &'static str)
    ensures
        r@ == spec_syriac_literal(s),
{
    match s {
        Syriac::Sans => "Sans Syriac",
        Syriac::Eastern => "Sans Syriac Eastern",
        Syriac::Western => "Sans Syriac Western",
    }
}

fn thai_literal(t: ThaiLao) -> (r: &'static str)
    ensures
        r@ == spec_thai_literal(t),
{
    match t {
        ThaiLao::Sans => "Sans Thai",
        ThaiLao::SansLooped => "Sans Thai Looped",
        ThaiLao::Serif => "Serif Thai",
    }
}

fn lao_literal(t: ThaiLao) -> (r: &'static str)
    ensures
        r@ == spec_lao_literal(t),
{
    match t {
        ThaiLao::Sans => "Sans Lao",
        ThaiLao::SansLooped => "Sans Lao Looped",
        ThaiLao::Serif => "Serif Lao",
    }
}

fn cjk_literal(c: Cjk) -> (r: &'static str)
    ensures
        r@ == spec_cjk_literal(c),
{
    match c {
        Cjk::Hk => "Sans CJK HK",
        Cjk::Jp => "Sans CJK JP",
        Cjk::Kr => "Sans CJK KR",
        Cjk::Sc => "Sans CJK SC",
        Cjk::Tc => "Sans CJK TC",
    }
}

fn map_lgc(v: &Vec<Lgc>) -> (r: Vec<String>)
    ensures
        views_of(r@) == v@.map_values(|x: Lgc| spec_lgc_literal(x)),
{
    let mut r: Vec<String> = Vec::new();
    let mut i: usize = 0;
    while i < v.len()
        invariant
            i <= v@.len(),
            r@.len() == i,
            forall|j: int| 0 <= j < i ==> r@[j]@ == spec_lgc_literal(v@[j]),
        decreases v@.len() - i,
    {
        r.push(lgc_literal(v[i]).to_owned());
        i = i + 1;
    }
    proof {
        assert(views_of(r@) =~= v@.map_values(|x: Lgc| spec_lgc_literal(x)));
    }
    r
}

fn map_adlam(v: &Vec<Adlam>) -> (r: Vec<String>)
    ensures
        views_of(r@) == v@.map_values(|x: Adlam| spec_adlam_literal(x)),
{
    let mut r: Vec<String> = Vec::new();
    let mut i: usize = 0;
    while i < v.len()
        invariant
            i <= v@.len(),
            r@.len() == i,
            forall|j: int| 0 <= j < i ==> r@[j]@ == spec_adlam_literal(v@[j]),
        decreases v@.len() - i,
    {
        r.push(adlam_literal(v[i]).to_owned());
        i = i + 1;
    }
    proof {
        assert(views_of(r@) =~= v@.map_values(|x: Adlam| spec_adlam_literal(x)));
    }
    r
}

fn map_nko(v: &Vec<Adlam>) -> (r: Vec<String>)
    ensures
        views_of(r@) == v@.map_values(|x: Adlam| spec_nko_literal(x)),
{
    let mut r: Vec<String> = Vec::new();
    let mut i: usize = 0;
    while i < v.len()
        invariant
            i <= v@.len(),
            r@.len() == i,
            forall|j: int| 0 <= j < i ==> r@[j]@ == spec_nko_literal(v@[j]),
        decreases v@.len() - i,
    {
        r.push(nko_literal(v[i]).to_owned());
        i = i + 1;
    }
    proof {
        assert(views_of(r@) =~= v@.map_values(|x: Adlam| spec_nko_literal(x)));
    }
    r
}

fn map_arabic(v: &Vec<Arabic>) -> (r: Vec<String>)
    ensures
        views_of(r@) == v@.map_values(|x: Arabic| spec_arabic_literal(x)),
{
    let mut r: Vec<String> = Vec::new();
    let mut i: usize = 0;
    while i < v.len()
        invariant
            i <= v@.len(),
            r@.len() == i,
            forall|j: int| 0 <= j < i ==> r@[j]@ == spec_arabic_literal(v@[j]),
        decreases v@.len() - i,
    {
        r.push(arabic_literal(v[i]).to_owned());
        i = i + 1;
    }
    proof {
        assert(views_of(r@) =~= v@.map_values(|x: Arabic| spec_arabic_literal(x)));
    }
    r
}

fn map_hebrew(v: &Vec<Hebrew>) -> (r: Vec<String>)
    ensures
        views_of(r@) == v@.map_values(|x: Hebrew| spec_hebrew_literal(x)),
{
    let mut r: Vec<String> = Vec::new();
    let mut i: usize = 0;
    while i < v.len()
        invariant
            i <= v@.len(),
            r@.len() == i,
            forall|j: int| 0 <= j < i ==> r@[j]@ == spec_hebrew_literal(v@[j]),
        decreases v@.len() - i,
    {
        r.push(hebrew_literal(v[i]).to_owned());
        i = i + 1;
    }
    proof {
        assert(views_of(r@) =~= v@.map_values(|x: Hebrew| spec_hebrew_literal(x)));
    }
    r
}

fn map_khitan(v: &Vec<Khitan>) -> (r: Vec<String>)
    ensures
        views_of(r@) == v@.map_values(|x: Khitan| spec_khitan_literal(x)),
{
    let mut r: Vec<String> = Vec::new();
    let mut i: usize = 0;
    while i < v.len()
        invariant
            i <= v@.len(),
            r@.len() == i,
            forall|j: int| 0 <= j < i ==> r@[j]@ == spec_khitan_literal(v@[j]),
        decreases v@.len() - i,
    {
        r.push(khitan_literal(v[i]).to_owned());
        i = i + 1;
    }
    proof {
        assert(views_of(r@) =~= v@.map_values(|x: Khitan| spec_khitan_literal(x)));
    }
    r
}

fn map_nushu(v: &Vec<Nushu>) -> (r: Vec<String>)
    ensures
        views_of(r@) == v@.map_values(|x: Nushu| spec_nushu_literal(x)),
{
    let mut r: Vec<String> = Vec::new();
    let mut i: usize = 0;
    while i < v.len()
        invariant
            i <= v@.len(),
            r@.len() == i,
            forall|j: int| 0 <= j < i ==> r@[j]@ == spec_nushu_literal(v@[j]),
        decreases v@.len() - i,
    {
        r.push(nushu_literal(v[i]).to_owned());
        i = i + 1;
    }
    proof {
        assert(views_of(r@) =~= v@.map_values(|x: Nushu| spec_nushu_literal(x)));
    }
    r
}

fn map_syriac(v: &Vec<Syriac>) -> (r: Vec<String>)
    ensures
        views_of(r@) == v@.map_values(|x: Syriac| spec_syriac_literal(x)),
{
    let mut r: Vec<String> = Vec::new();
    let mut i: usize = 0;
    while i < v.len()
        invariant
            i <= v@.len(),
            r@.len() == i,
            forall|j: int| 0 <= j < i ==> r@[j]@ == spec_syriac_literal(v@[j]),
        decreases v@.len() - i,
    {
        r.push(syriac_literal(v[i]).to_owned());
        i = i + 1;
    }
    proof {
        assert(views_of(r@) =~= v@.map_values(|x: Syriac| spec_syriac_literal(x)));
    }
    r
}

fn map_thai(v: &Vec<ThaiLao>) -> (r: Vec<String>)
    ensures
        views_of(r@) == v@.map_values(|x: ThaiLao| spec_thai_literal(x)),
{
    let mut r: Vec<String> = Vec::new();
    let mut i: usize = 0;
    while i < v.len()
        invariant
            i <= v@.len(),
            r@.len() == i,
            forall|j: int| 0 <= j < i ==> r@[j]@ == spec_thai_literal(v@[j]),
        decreases v@.len() - i,
    {
        r.push(thai_literal(v[i]).to_owned());
        i = i + 1;
    }
    proof {
        assert(views_of(r@) =~= v@.map_values(|x: ThaiLao| spec_thai_literal(x)));
    }
    r
}

fn map_lao(v: &Vec<ThaiLao>) -> (r: Vec<String>)
    ensures
        views_of(r@) == v@.map_values(|x: ThaiLao| spec_lao_literal(x)),
{
    let mut r: Vec<String> = Vec::new();
    let mut i: usize = 0;
    while i < v.len()
        invariant
            i <= v@.len(),
            r@.len() == i,
            forall|j: int| 0 <= j < i ==> r@[j]@ == spec_lao_literal(v@[j]),
        decreases v@.len() - i,
    {
        r.push(lao_literal(v[i]).to_owned());
        i = i + 1;
    }
    proof {
        assert(views_of(r@) =~= v@.map_values(|x: ThaiLao| spec_lao_literal(x)));
    }
    r
}

fn map_cjk(v: &Vec<Cjk>) -> (r: Vec<String>)
    ensures
        views_of(r@) == v@.map_values(|x: Cjk| spec_cjk_literal(x)),
{
    let mut r: Vec<String> = Vec::new();
    let mut i: usize = 0;
    while i < v.len()
        invariant
            i <= v@.len(),
            r@.len() == i,
            forall|j: int| 0 <= j < i ==> r@[j]@ == spec_cjk_literal(v@[j]),
        decreases v@.len() - i,
    {
        r.push(cjk_literal(v[i]).to_owned());
        i = i + 1;
    }
    proof {
        assert(views_of(r@) =~= v@.map_values(|x: Cjk| spec_cjk_literal(x)));
    }
    r
}

/// The literal preference list of a script with a dedicated family.
fn family_prefs(code: u32, cfg: &NotoizeConfig) -> (r: Option<Vec<String>>)
    ensures
        match r {
            Some(v) => spec_family_prefs(code, *cfg) == Some(views_of(v@)),
            None => spec_family_prefs(code, *cfg) is None,
        },
{
    if code == SCRIPT_NEUTRAL {
        Some(map_lgc(&cfg.lgc))
    } else if code == SCRIPT_ADLAM {
        Some(map_adlam(&cfg.adlam))
    } else if code == SCRIPT_NKO {
        Some(map_nko(&cfg.adlam))
    } else if code == SCRIPT_ARABIC {
        Some(map_arabic(&cfg.arabic))
    } else if code == SCRIPT_HEBREW {
        Some(map_hebrew(&cfg.hebrew))
    } else if code == SCRIPT_KHITAN {
        Some(map_khitan(&cfg.khitan))
    } else if code == SCRIPT_NUSHU {
        Some(map_nushu(&cfg.nushu))
    } else if code == SCRIPT_SYRIAC {
        Some(map_syriac(&cfg.syriac))
    } else if code == SCRIPT_THAI {
        Some(map_thai(&cfg.thai))
    } else if code == SCRIPT_LAO {
        Some(map_lao(&cfg.thai))
    } else if code == SCRIPT_CJK {
        Some(map_cjk(&cfg.cjk))
    } else {
        None
    }
}

/// Resolves one script group to the variant it selects, if any.
fn pick_for_group(g: &Vec<String>, code: u32, cfg: &NotoizeConfig, already: &Vec<String>) -> (r:
    Option<usize>)
    ensures
        match r {
            Some(i) => i < g@.len() && spec_pick(views_of(g@), code, *cfg, views_of(already@))
                == Some(views_of(g@)[i as int]),
            None => spec_pick(views_of(g@), code, *cfg, views_of(already@)) is None,
        },
{
    if g.len() == 0 {
        return None;
    }
    if cfg.reuse_existing {
        match find_reuse(g, already) {
            Some(i) => {
                return Some(i);
            },
            None => {},
        }
    }
    match family_prefs(code, cfg) {
        Some(lits) => pick_literals(g, &lits),
        None => {
            match pick_prefixes(g, &cfg.lgc) {
                Some(i) => Some(i),
                None => {
                    proof {
                        assert(views_of(g@)[0] == g@[0]@);
                    }
                    Some(0)
                },
            }
        },
    }
}

/// The greatest script code the runtime table declares.
fn max_code(t: &Vec<(String, u32)>) -> (r: u32)
    ensures
        r as int == spec_max_code(table_view(t@)),
{
    let mut m: u32 = 0;
    let mut i: usize = 0;
    while i < t.len()
        invariant
            i <= t@.len(),
            m as int == spec_max_code(table_view(t@).take(i as int)),
        decreases t@.len() - i,
    {
        if t[i].1 > m {
            m = t[i].1;
        }
        proof {
            assert(table_view(t@).take(i + 1).drop_last() =~= table_view(t@).take(i as int));
            assert(table_view(t@).take(i + 1).last() == table_view(t@)[i as int]);
            assert(table_view(t@)[i as int].1 == t@[i as int].1);
        }
        i = i + 1;
    }
    proof {
        assert(table_view(t@).take(t@.len() as int) =~= table_view(t@));
    }
    m
}

/// Resolves one code point's candidate list against the configuration: the
/// selected variants, one per surviving script group in ascending script
/// order, and one finding per family whose preference list the candidates
/// cannot satisfy. An empty candidate list selects nothing and reports
/// nothing; the caller records the code point as unsupported.
pub fn select(cands: &Vec<String>, cfg: &NotoizeConfig, already: &Vec<String>) -> (r: (
    Vec<String>,
    Vec<ResolutionIssue>,
))
    ensures
        views_of(r.0@) == spec_select(views_of(cands@), *cfg, views_of(already@)).0,
        r.1@ == spec_select(views_of(cands@), *cfg, views_of(already@)).1,
{
    let ghost cviews = views_of(cands@);
    let ghost aviews = views_of(already@);
    let eff0 = ui_filter(cands, cfg.prefer_ui);
    let eff = math_filter(eff0, cfg.prefer_math);
    let ghost ev = views_of(eff@);
    let table = variant_table();
    let maxc = max_code(&table);
    let ghost maxi = spec_max_code(spec_variant_table());
    let has_neutral = has_script(&eff, SCRIPT_NEUTRAL);
    let has_cjk = has_script(&eff, SCRIPT_CJK);
    let mut sel: Vec<String> = Vec::new();
    let mut iss: Vec<ResolutionIssue> = Vec::new();
    let mut code: u64 = 0;
    while code <= maxc as u64
        invariant
            maxc as int == maxi,
            code <= maxi + 1,
            ev == spec_math_filter(spec_effective(cviews, cfg.prefer_ui), cfg.prefer_math),
            ev == views_of(eff@),
            aviews == views_of(already@),
            has_neutral == spec_has_script(ev, SCRIPT_NEUTRAL),
            has_cjk == spec_has_script(ev, SCRIPT_CJK),
            spec_select_from(ev, *cfg, aviews, 0, maxi).0 == views_of(sel@) + spec_select_from(
                ev,
                *cfg,
                aviews,
                code as int,
                maxi,
            ).0,
            spec_select_from(ev, *cfg, aviews, 0, maxi).1 == iss@ + spec_select_from(
                ev,
                *cfg,
                aviews,
                code as int,
                maxi,
            ).1,
        decreases maxi + 1 - code,
    {
        let c32 = code as u32;
        let g = group_by_script(&eff, c32);
        let skip: bool = (has_neutral && has_cjk) && ((c32 == SCRIPT_NEUTRAL && cfg.prefer_cjk)
            || (c32 == SCRIPT_CJK && !cfg.prefer_cjk));
        proof {
            assert(code <= maxc as u64);
            assert(c32 as int == code as int);
            assert(skip == spec_skip_code(ev, c32, *cfg));
            assert(views_of(g@) == spec_group(ev, c32));
        }
        let ghost rest = spec_select_from(ev, *cfg, aviews, code as int + 1, maxi);
        let ghost here = spec_select_from(ev, *cfg, aviews, code as int, maxi);
        proof {
            assert(here == if spec_group(ev, (code as int) as u32).len() == 0 || spec_skip_code(
                ev,
                (code as int) as u32,
                *cfg,
            ) {
                rest
            } else {
                match spec_pick(spec_group(ev, (code as int) as u32), (code as int) as u32, *cfg, aviews) {
                    Some(c) => (seq![c] + rest.0, rest.1),
                    None => (
                        rest.0,
                        seq![ResolutionIssue::UnsatisfiablePreference(
                            Script((code as int) as u32),
                        )] + rest.1,
                    ),
                }
            });
            assert((code as int) as u32 == c32);
        }
        if g.len() > 0 && !skip {
            match pick_for_group(&g, c32, cfg, already) {
                Some(i) => {
                    let ghost old_sel = views_of(sel@);
                    sel.push(g[i].clone());
                    proof {
                        assert(views_of(sel@) =~= old_sel + seq![views_of(g@)[i as int]]);
                        let cast = (code as int) as u32;
                        assert(cast == c32);
                        assert(spec_pick(spec_group(ev, cast), cast, *cfg, aviews) == Some(
                            views_of(g@)[i as int],
                        ));
                        assert(spec_group(ev, cast).len() > 0);
                        assert(!spec_skip_code(ev, cast, *cfg));
                        assert(here.0 == seq![views_of(g@)[i as int]] + rest.0);
                        assert(views_of(sel@) + rest.0 =~= old_sel + here.0);
                    }
                },
                None => {
                    let ghost old_iss = iss@;
                    iss.push(ResolutionIssue::UnsatisfiablePreference(Script(c32)));
                    proof {
                        assert(here.1 == seq![ResolutionIssue::UnsatisfiablePreference(
                            Script(c32),
                        )] + rest.1);
                        assert(iss@ + rest.1 =~= old_iss + here.1);
                    }
                },
            }
        } else {
            proof {
                assert(here == rest);
            }
        }
        code = code + 1;
    }
    proof {
        assert(spec_select_from(ev, *cfg, aviews, code as int, maxi).0 =~= Seq::<
            Seq<char>,
        >::empty());
        assert(spec_select_from(ev, *cfg, aviews, code as int, maxi).1 =~= Seq::<
            ResolutionIssue,
        >::empty());
        assert(views_of(sel@) + Seq::<Seq<char>>::empty() =~= views_of(sel@));
        assert(iss@ + Seq::<ResolutionIssue>::empty() =~= iss@);
    }
    (sel, iss)
}

fn pick_prefixes(g: &Vec<String>, lgc: &Vec<Lgc>) -> (r: Option<usize>)
    ensures
        match r {
            Some(i) => i < g@.len() && pick_prefixes_from(views_of(g@), lgc@, 0) == Some(
                views_of(g@)[i as int],
            ),
            None => pick_prefixes_from(views_of(g@), lgc@, 0) is None,
        },
{
    let ghost gv = views_of(g@);
    let mut li: usize = 0;
    while li < lgc.len()
        invariant
            li <= lgc@.len(),
            gv == views_of(g@),
            pick_prefixes_from(gv, lgc@, 0) == pick_prefixes_from(gv, lgc@, li as int),
        decreases lgc@.len() - li,
    {
        let pre = lgc_literal(lgc[li]);
        match find_prefix(g, pre) {
            Some(i) => {
                return Some(i);
            },
            None => {},
        }
        li = li + 1;
    }
    None
}

} // verus!
