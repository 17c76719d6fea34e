//! The client: owns the block index, the session-scoped support catalog
//! (each block ingested at most once), the active style configuration, and
//! the resolution entry point.

use vstd::prelude::*;
use vstd::relations::{sorted_by, total_ordering};
use vstd::seq_lib::lemma_sorted_unique;
use crate::blocks::{block_contains, check_index, index_wf, lookup_block, BlockEndpoints};
use crate::blocks::lemma_block_unique;
use crate::catalog::{
    block_support, check_data, get_support, spec_block_support, spec_data_ok, spec_support,
    spec_support_from, support_wf, BlockData, NotoizeError,
};
use crate::catalog::lemma_support_skip;
use crate::config::{Adlam, Arabic, Cjk, Hebrew, Khitan, Lgc, NotoizeConfig, Nushu, Syriac, ThaiLao};
use crate::resolve::{contains_string, select, spec_select, ResolutionIssue};
use crate::sorting::{dedup_u32, lemma_dedup_sorted_strict, sorted_u32, spec_dedup, u32_leq, views_of};
use crate::stack::FontStack;

verus! {

/// The first block filed under the given ordinal.
pub open spec fn block_by_ix_from(blocks: Seq<BlockEndpoints>, ix: usize, i: int) -> Option<int>
    decreases blocks.len() - i,
{
    if i < 0 || i >= blocks.len() {
        None
    } else if blocks[i].ix == ix {
        Some(i)
    } else {
        block_by_ix_from(blocks, ix, i + 1)
    }
}

pub open spec fn spec_block_by_ix(blocks: Seq<BlockEndpoints>, ix: usize) -> Option<int> {
    block_by_ix_from(blocks, ix, 0)
}

/// Does the store hold a key inside the range?
pub open spec fn spec_overlaps(s: Seq<(u32, Vec<String>)>, lo: u32, hi: u32) -> bool {
    exists|k: int| 0 <= k < s.len() && lo <= (#[trigger] s[k]).0 <= hi
}

/// Is `ix` the ordinal of an unloaded block that some code point of the
/// text falls in?
pub open spec fn needed_ix(
    blocks: Seq<BlockEndpoints>,
    loaded: Seq<usize>,
    text: Seq<char>,
    ix: usize,
) -> bool {
    !loaded.contains(ix) && exists|b: int, q: int|
        0 <= b < blocks.len() && 0 <= q < text.len() && (#[trigger] blocks[b]).ix == ix
            && block_contains(blocks[b], #[trigger] text[q] as u32)
}

#[derive(Debug, Clone)]
pub struct NotoizeClient {
    pub blocks: Vec<BlockEndpoints>,
    pub font_support: Vec<(u32, Vec<String>)>,
    pub loaded: Vec<usize>,
    pub config: NotoizeConfig,
}

/// The sans-flavored configuration that a fresh client starts from.
pub open spec fn spec_default_config(c: NotoizeConfig) -> bool {
    c.font_ext@.len() == 0 && c.lgc@ == seq![Lgc::Sans] && c.adlam@ == seq![Adlam::Unjoined]
        && c.arabic@ == seq![Arabic::Sans] && c.hebrew@ == seq![Hebrew::Sans] && c.khitan@
        == seq![Khitan::Serif] && c.nushu@ == seq![Nushu::Sans] && c.syriac@ == seq![Syriac::Sans]
        && c.thai@ == seq![ThaiLao::Sans] && c.cjk@ == seq![Cjk::Sc] && !c.prefer_ui
        && !c.prefer_math && !c.prefer_cjk && c.reuse_existing
}

impl NotoizeClient {
    /// The client invariant: a well-formed block index and a support store
    /// with strictly ascending keys.
    pub open spec fn wf(&self) -> bool {
        index_wf(self.blocks@) && support_wf(self.font_support@)
    }

    /// Builds a client over the given block index with an empty catalog and
    /// the sans-flavored default configuration; an index whose ranges are
    /// unordered or overlapping is rejected whole.
    pub fn new(blocks: Vec<BlockEndpoints>) -> (r: Result<NotoizeClient, NotoizeError>)
        ensures
            r is Ok <==> index_wf(blocks@),
            r is Err ==> r->Err_0 == NotoizeError::MalformedIndex,
            r is Ok ==> (r->Ok_0).wf() && (r->Ok_0).blocks == blocks && (
            r->Ok_0).font_support@.len() == 0 && (r->Ok_0).loaded@.len() == 0
                && spec_default_config((r->Ok_0).config),
    {
        if !check_index(&blocks) {
            return Err(NotoizeError::MalformedIndex);
        }
        Ok(
            NotoizeClient {
                blocks,
                font_support: Vec::new(),
                loaded: Vec::new(),
                config: NotoizeConfig::new_sans(Vec::new()),
            },
        )
    }

    /// The ordinals of the blocks that the text needs and the catalog has
    /// not loaded yet; each at most once, in first-need order.
    pub fn blocks_needed(&self, text: &str) -> (r: Vec<usize>)
        requires
            self.wf(),
        ensures
            forall|j: int|
                0 <= j < r@.len() ==> needed_ix(self.blocks@, self.loaded@, text@, #[trigger] r@[j]),
            forall|i: int, j: int| 0 <= i < j < r@.len() ==> r@[i] != r@[j],
            forall|b: int, q: int|
                0 <= b < self.blocks@.len() && 0 <= q < text@.len() && block_contains(
                    #[trigger] self.blocks@[b],
                    #[trigger] text@[q] as u32,
                ) && !self.loaded@.contains(self.blocks@[b].ix) ==> r@.contains(
                    self.blocks@[b].ix,
                ),
    {
        let n = text.unicode_len();
        let mut r: Vec<usize> = Vec::new();
        let mut q: usize = 0;
        while q < n
            invariant
                self.wf(),
                q <= n,
                n == text@.len(),
                forall|i: int, j: int| 0 <= i < j < r@.len() ==> r@[i] != r@[j],
                forall|j: int|
                    0 <= j < r@.len() ==> needed_ix(
                        self.blocks@,
                        self.loaded@,
                        text@,
                        #[trigger] r@[j],
                    ),
                forall|b: int, q2: int|
                    0 <= b < self.blocks@.len() && 0 <= q2 < q && block_contains(
                        #[trigger] self.blocks@[b],
                        #[trigger] text@[q2] as u32,
                    ) && !self.loaded@.contains(self.blocks@[b].ix) ==> r@.contains(
                        self.blocks@[b].ix,
                    ),
            decreases n - q,
        {
            let cp = text.get_char(q) as u32;
            match lookup_block(&self.blocks, cp) {
                Some(bi) => {
                    let ix = self.blocks[bi].ix;
                    if !contains_usize(&self.loaded, ix) && !contains_usize(&r, ix) {
                        let ghost old_r = r@;
                        r.push(ix);
                        proof {
                            assert(r@[old_r.len() as int] == ix);
                            assert(self.blocks@[bi as int].ix == ix && block_contains(
                                self.blocks@[bi as int],
                                text@[q as int] as u32,
                            ));
                            assert(needed_ix(self.blocks@, self.loaded@, text@, ix));
                            assert forall|y: usize| old_r.contains(y) implies r@.contains(y) by {
                                let w = choose|w: int| 0 <= w < old_r.len() && old_r[w] == y;
                                assert(r@[w] == y);
                            }
                        }
                    }
                    proof {
                        assert forall|b: int, q2: int|
                            0 <= b < self.blocks@.len() && 0 <= q2 < q + 1 && block_contains(
                                #[trigger] self.blocks@[b],
                                #[trigger] text@[q2] as u32,
                            ) && !self.loaded@.contains(self.blocks@[b].ix) implies r@.contains(
                            self.blocks@[b].ix,
                        ) by {
                            if q2 == q {
                                lemma_block_unique(self.blocks@, cp, b, bi as int);
                            }
                        }
                    }
                },
                None => {},
            }
            q = q + 1;
        }
        r
    }

    /// Merges one block's support document into the catalog: one entry per
    /// code point of the block's range, each holding what the merge rule
    /// gives it. Ingesting an unknown ordinal, an already-loaded block, or a
    /// block whose range the store already covers changes nothing; malformed
    /// data is rejected whole and changes nothing.
    pub fn ingest_block(&mut self, ix: usize, data: BlockData) -> (r: Result<(), NotoizeError>)
        requires
            old(self).wf(),
        ensures
            final(self).wf(),
            final(self).blocks == old(self).blocks,
            final(self).config == old(self).config,
            r is Err ==> *final(self) == *old(self) && !spec_data_ok(data),
            r is Ok ==> ({
                let bopt = spec_block_by_ix(old(self).blocks@, ix);
                if bopt is None || old(self).loaded@.contains(ix) || spec_overlaps(
                    old(self).font_support@,
                    old(self).blocks@[bopt->0].start,
                    old(self).blocks@[bopt->0].end,
                ) {
                    *final(self) == *old(self)
                } else {
                    spec_data_ok(data) && final(self).loaded@ == old(self).loaded@.push(ix) && (
                    forall|cp: u32|
                        spec_support(final(self).font_support@, cp) == (if block_contains(
                            old(self).blocks@[bopt->0],
                            cp,
                        ) {
                            Some(spec_block_support(data, cp))
                        } else {
                            spec_support(old(self).font_support@, cp)
                        }))
                }
            }),
    {
        let n = self.blocks.len();
        let mut bi: usize = 0;
        while bi < n && self.blocks[bi].ix != ix
            invariant
                bi <= n,
                n == self.blocks@.len(),
                spec_block_by_ix(self.blocks@, ix) == block_by_ix_from(self.blocks@, ix, bi as int),
            decreases n - bi,
        {
            bi = bi + 1;
        }
        if bi == n {
            return Ok(());
        }
        let start = self.blocks[bi].start;
        let end = self.blocks[bi].end;
        proof {
            assert(spec_block_by_ix(self.blocks@, ix) == Some(bi as int));
            assert(start <= end);
        }
        if contains_usize(&self.loaded, ix) {
            return Ok(());
        }
        let m = self.font_support.len();
        let mut idx: usize = 0;
        while idx < m && self.font_support[idx].0 < start
            invariant
                idx <= m,
                m == self.font_support@.len(),
                forall|j: int| 0 <= j < idx ==> (#[trigger] self.font_support@[j]).0 < start,
            decreases m - idx,
        {
            idx = idx + 1;
        }
        if idx < m && self.font_support[idx].0 <= end {
            proof {
                assert(spec_overlaps(self.font_support@, start, end));
            }
            return Ok(());
        }
        proof {
            assert forall|k: int| 0 <= k < self.font_support@.len() implies !(start <= (
            #[trigger] self.font_support@[k]).0 <= end) by {
                if k >= idx {
                    if idx < m && k > idx {
                        assert(self.font_support@[idx as int].0 < self.font_support@[k].0);
                    }
                }
            }
            assert(!spec_overlaps(self.font_support@, start, end));
        }
        match check_data(&data) {
            Err(e) => {
                return Err(e);
            },
            Ok(()) => {},
        }
        let range: u64 = (end - start) as u64;
        let mut run: Vec<(u32, Vec<String>)> = Vec::new();
        let mut k: u64 = 0;
        while k <= range
            invariant
                k <= range + 1,
                range == end - start,
                end <= u32::MAX,
                run@.len() == k,
                forall|m2: int|
                    0 <= m2 < k ==> (#[trigger] run@[m2]).0 == start + m2 && views_of(
                        run@[m2].1@,
                    ) == spec_block_support(data, (start + m2) as u32),
            decreases range + 1 - k,
        {
            let cp = start + (k as u32);
            let list = block_support(&data, cp);
            run.push((cp, list));
            k = k + 1;
        }
        let ghost old_s = self.font_support@;
        let ghost runv = run@;
        let mut tail = self.font_support.split_off(idx);
        self.font_support.append(&mut run);
        self.font_support.append(&mut tail);
        self.loaded.push(ix);
        proof {
            let merged = self.font_support@;
            assert(merged =~= old_s.subrange(0, idx as int) + runv + old_s.subrange(
                idx as int,
                old_s.len() as int,
            ));
            let nrun = runv.len() as int;
            assert forall|i: int, j: int| 0 <= i < j < merged.len() implies (
            #[trigger] merged[i]).0 < (#[trigger] merged[j]).0 by {
                lemma_merged_key(old_s, runv, idx as int, start, end, i);
                lemma_merged_key(old_s, runv, idx as int, start, end, j);
            }
            assert(support_wf(merged));
            assert forall|cp: u32|
                spec_support(merged, cp) == (if block_contains(
                    old(self).blocks@[bi as int],
                    cp,
                ) {
                    Some(spec_block_support(data, cp))
                } else {
                    spec_support(old_s, cp)
                }) by {
                lemma_merged_support(old_s, runv, idx as int, start, end, cp);
            }
        }
        Ok(())
    }
}

/// The code points a text asks to resolve: its characters' scalar values,
/// ascending, each once.
pub open spec fn spec_cps(text: Seq<char>) -> Seq<u32> {
    spec_dedup(text.map_values(|c: char| c as u32).sort_by(u32_leq()))
}

/// The selected-variant pool after folding in the first `j` selections:
/// each selection joins the pool unless already in it.
pub open spec fn spec_add_new(already: Seq<Seq<char>>, sel: Seq<Seq<char>>, j: int) -> Seq<
    Seq<char>,
>
    decreases j,
{
    if j <= 0 {
        already
    } else {
        let p = spec_add_new(already, sel, j - 1);
        if p.contains(sel[j - 1]) {
            p
        } else {
            p.push(sel[j - 1])
        }
    }
}

pub open spec fn spec_tag_issues(cp: u32, iss: Seq<ResolutionIssue>) -> Seq<(u32, ResolutionIssue)> {
    iss.map_values(|x: ResolutionIssue| (cp, x))
}

/// The resolution state after the first `i` code points: the pool of
/// selected variants in first-use order, the per-code-point selection map,
/// and the accumulated findings. A code point for which nothing was selected
/// and no family reported failure is recorded as unsupported.
pub open spec fn spec_state(
    support: Seq<(u32, Vec<String>)>,
    cfg: NotoizeConfig,
    cps: Seq<u32>,
    i: int,
) -> (Seq<Seq<char>>, Seq<(u32, Seq<Seq<char>>)>, Seq<(u32, ResolutionIssue)>)
    decreases i,
{
    if i <= 0 {
        (Seq::empty(), Seq::empty(), Seq::empty())
    } else {
        let prev = spec_state(support, cfg, cps, i - 1);
        let cp = cps[i - 1];
        let cands = match spec_support(support, cp) {
            Some(l) => l,
            None => Seq::empty(),
        };
        let si = spec_select(cands, cfg, prev.0);
        let issues1 = prev.2 + spec_tag_issues(cp, si.1) + if si.0.len() == 0 && si.1.len() == 0 {
            seq![(cp, ResolutionIssue::UnsupportedCodePoint)]
        } else {
            Seq::<(u32, ResolutionIssue)>::empty()
        };
        (spec_add_new(prev.0, si.0, si.0.len() as int), prev.1.push((cp, si.0)), issues1)
    }
}

/// The variant pool that assembling the first `i` entries of a selection map
/// leaves: each selected variant joins the pool on first sight.
pub open spec fn spec_pool(m: Seq<(u32, Seq<Seq<char>>)>, i: int) -> Seq<Seq<char>>
    decreases i,
{
    if i <= 0 {
        Seq::empty()
    } else {
        let p = spec_pool(m, i - 1);
        spec_add_new(p, m[i - 1].1, m[i - 1].1.len() as int)
    }
}

/// Assembly reads only the entries below `i`.
proof fn lemma_pool_prefix(m1: Seq<(u32, Seq<Seq<char>>)>, m2: Seq<(u32, Seq<Seq<char>>)>, i: int)
    requires
        i <= m1.len(),
        i <= m2.len(),
        forall|k: int| 0 <= k < i ==> m1[k] == m2[k],
    ensures
        spec_pool(m1, i) == spec_pool(m2, i),
    decreases i,
{
    if i > 0 {
        lemma_pool_prefix(m1, m2, i - 1);
    }
}

/// The pool that resolution accumulates is the assembly of its own map.
proof fn lemma_state_pool(support: Seq<(u32, Vec<String>)>, cfg: NotoizeConfig, cps: Seq<u32>, i: int)
    requires
        0 <= i <= cps.len(),
    ensures
        spec_state(support, cfg, cps, i).1.len() == i,
        spec_state(support, cfg, cps, i).0 == spec_pool(spec_state(support, cfg, cps, i).1, i),
    decreases i,
{
    if i > 0 {
        lemma_state_pool(support, cfg, cps, i - 1);
        let prev = spec_state(support, cfg, cps, i - 1);
        let st = spec_state(support, cfg, cps, i);
        assert(st.1 == prev.1.push(st.1[i - 1]));
        lemma_pool_prefix(st.1, prev.1, i - 1);
    }
}

/// The family list is the assembly of the selection map: each selected
/// variant, prefixed, in first-use order, each exactly once.
pub proof fn lemma_names_assemble(
    support: Seq<(u32, Vec<String>)>,
    cfg: NotoizeConfig,
    text: Seq<char>,
    r: FontStack,
)
    requires
        stack_matches(support, cfg, text, r),
    ensures
        views_of(r.names@) == spec_names(
            spec_pool(
                r.map@.map_values(|e: (u32, Vec<String>)| (e.0, views_of(e.1@))),
                r.map@.len() as int,
            ),
        ),
{
    let cps = spec_cps(text);
    lemma_state_pool(support, cfg, cps, cps.len() as int);
}

/// The family names of a variant pool, with the family prefix attached.
pub open spec fn spec_names(already: Seq<Seq<char>>) -> Seq<Seq<char>> {
    already.map_values(|s: Seq<char>| "Noto "@ + s)
}

/// Does the stack stand in the resolution relation to this catalog,
/// configuration and text? This is what `notoize` promises of its result.
pub open spec fn stack_matches(
    support: Seq<(u32, Vec<String>)>,
    cfg: NotoizeConfig,
    text: Seq<char>,
    r: FontStack,
) -> bool {
    let cps = spec_cps(text);
    let st = spec_state(support, cfg, cps, cps.len() as int);
    views_of(r.names@) == spec_names(st.0) && r.map@.map_values(
        |e: (u32, Vec<String>)| (e.0, views_of(e.1@)),
    ) == st.1 && r.issues@ == st.2
}

/// After `i` code points, the selection map holds exactly those code points,
/// in resolution order.
proof fn lemma_state_map_keys(
    support: Seq<(u32, Vec<String>)>,
    cfg: NotoizeConfig,
    cps: Seq<u32>,
    i: int,
)
    requires
        0 <= i <= cps.len(),
    ensures
        spec_state(support, cfg, cps, i).1.len() == i,
        forall|k: int| 0 <= k < i ==> (#[trigger] spec_state(support, cfg, cps, i).1[k]).0
            == cps[k],
    decreases i,
{
    if i > 0 {
        lemma_state_map_keys(support, cfg, cps, i - 1);
    }
}

/// The selection map lists the text's code points in strictly ascending
/// order, one entry per distinct code point: resolution order does not
/// depend on how the text arranges its characters.
pub proof fn lemma_map_ordered(
    support: Seq<(u32, Vec<String>)>,
    cfg: NotoizeConfig,
    text: Seq<char>,
    r: FontStack,
)
    requires
        stack_matches(support, cfg, text, r),
    ensures
        forall|i: int, j: int|
            0 <= i < j < r.map@.len() ==> (#[trigger] r.map@[i]).0 < (#[trigger] r.map@[j]).0,
{
    let cps = spec_cps(text);
    let base = text.map_values(|c: char| c as u32).sort_by(u32_leq());
    assert(total_ordering(u32_leq()));
    text.map_values(|c: char| c as u32).lemma_sort_by_ensures(u32_leq());
    assert(sorted_by(base, u32_leq()));
    lemma_dedup_sorted_strict(base);
    lemma_state_map_keys(support, cfg, cps, cps.len() as int);
    let st = spec_state(support, cfg, cps, cps.len() as int);
    let mv = r.map@.map_values(|e: (u32, Vec<String>)| (e.0, views_of(e.1@)));
    assert forall|i: int, j: int|
        0 <= i < j < r.map@.len() implies (#[trigger] r.map@[i]).0 < (#[trigger] r.map@[j]).0 by {
        assert(mv[i] == (r.map@[i].0, views_of(r.map@[i].1@)));
        assert(mv[j] == (r.map@[j].0, views_of(r.map@[j].1@)));
        assert(st.1[i].0 == cps[i] && st.1[j].0 == cps[j]);
    }
}

/// Resolution is a pure function of catalog, configuration and text: any two
/// stacks resolved from identical inputs agree in names, selection map and
/// findings, whatever order the catalog was populated in.
pub proof fn lemma_resolve_deterministic(
    support: Seq<(u32, Vec<String>)>,
    cfg: NotoizeConfig,
    text: Seq<char>,
    a: FontStack,
    b: FontStack,
)
    requires
        stack_matches(support, cfg, text, a),
        stack_matches(support, cfg, text, b),
    ensures
        views_of(a.names@) == views_of(b.names@),
        a.map@.map_values(|e: (u32, Vec<String>)| (e.0, views_of(e.1@))) == b.map@.map_values(
            |e: (u32, Vec<String>)| (e.0, views_of(e.1@)),
        ),
        a.issues@ == b.issues@,
{
}

impl NotoizeClient {
    /// Resolves a text against the loaded catalog and the active
    /// configuration: a minimal ordered family list, the per-code-point
    /// selections, and the findings for code points left unresolved. Code
    /// points of blocks not yet ingested resolve as unsupported.
    pub fn notoize(&self, text: &str) -> (r: FontStack)
        requires
            self.wf(),
        ensures
            stack_matches(self.font_support@, self.config, text@, r),
    {
        let n = text.unicode_len();
        let mut chars: Vec<u32> = Vec::new();
        let mut q: usize = 0;
        while q < n
            invariant
                q <= n,
                n == text@.len(),
                chars@ == text@.map_values(|c: char| c as u32).take(q as int),
            decreases n - q,
        {
            chars.push(text.get_char(q) as u32);
            proof {
                assert(chars@ =~= text@.map_values(|c: char| c as u32).take(q + 1));
            }
            q = q + 1;
        }
        proof {
            assert(text@.map_values(|c: char| c as u32).take(n as int) =~= text@.map_values(
                |c: char| c as u32,
            ));
        }
        let sorted = sorted_u32(chars);
        proof {
            assert(total_ordering(u32_leq()));
            text@.map_values(|c: char| c as u32).lemma_sort_by_ensures(u32_leq());
            lemma_sorted_unique(
                sorted@,
                text@.map_values(|c: char| c as u32).sort_by(u32_leq()),
                u32_leq(),
            );
        }
        let cps = dedup_u32(sorted);
        proof {
            assert(cps@ == spec_cps(text@));
        }
        let mut already: Vec<String> = Vec::new();
        let mut names: Vec<String> = Vec::new();
        let mut map: Vec<(u32, Vec<String>)> = Vec::new();
        let mut issues: Vec<(u32, ResolutionIssue)> = Vec::new();
        let empty: Vec<String> = Vec::new();
        let mut i: usize = 0;
        while i < cps.len()
            invariant
                self.wf(),
                i <= cps@.len(),
                cps@ == spec_cps(text@),
                empty@.len() == 0,
                views_of(already@) == spec_state(
                    self.font_support@,
                    self.config,
                    cps@,
                    i as int,
                ).0,
                map@.map_values(|e: (u32, Vec<String>)| (e.0, views_of(e.1@))) == spec_state(
                    self.font_support@,
                    self.config,
                    cps@,
                    i as int,
                ).1,
                issues@ == spec_state(self.font_support@, self.config, cps@, i as int).2,
                views_of(names@) == spec_names(views_of(already@)),
            decreases cps@.len() - i,
        {
            let ghost st_prev = spec_state(self.font_support@, self.config, cps@, i as int);
            let cp = cps[i];
            let cands: &Vec<String> = match get_support(&self.font_support, cp) {
                Some(v) => v,
                None => &empty,
            };
            proof {
                assert(views_of(cands@) =~= (match spec_support(self.font_support@, cp) {
                    Some(l) => l,
                    None => Seq::<Seq<char>>::empty(),
                }));
            }
            let (sel, iss) = select(cands, &self.config, &already);
            let ghost selv = views_of(sel@);
            let ghost already0 = views_of(already@);
            let sel_empty = sel.len() == 0;
            let iss_empty = iss.len() == 0;
            let mut j: usize = 0;
            while j < sel.len()
                invariant
                    j <= sel@.len(),
                    selv == views_of(sel@),
                    views_of(already@) == spec_add_new(already0, selv, j as int),
                    views_of(names@) == spec_names(views_of(already@)),
                decreases sel@.len() - j,
            {
                if !contains_string(&already, sel[j].as_str()) {
                    let ghost prev_already = views_of(already@);
                    let ghost prev_names = views_of(names@);
                    already.push(sel[j].clone());
                    let newname = "Noto ".to_owned().concat(sel[j].as_str());
                    proof {
                        assert(newname@ == "Noto "@ + sel@[j as int]@);
                    }
                    names.push(newname);
                    proof {
                        assert(views_of(already@) =~= prev_already.push(sel@[j as int]@));
                        assert(views_of(already@) =~= spec_add_new(already0, selv, j as int).push(
                            selv[j as int],
                        ));
                        assert(views_of(names@) =~= prev_names.push("Noto "@ + sel@[j as int]@));
                        assert(views_of(names@) =~= spec_names(views_of(already@)));
                    }
                } else {
                    proof {
                        assert(views_of(already@) == spec_add_new(already0, selv, j + 1));
                    }
                }
                j = j + 1;
            }
            let ghost issues0 = issues@;
            let mut t: usize = 0;
            while t < iss.len()
                invariant
                    t <= iss@.len(),
                    issues@ == issues0 + spec_tag_issues(cp, iss@).take(t as int),
                decreases iss@.len() - t,
            {
                issues.push((cp, iss[t]));
                proof {
                    assert(issues@ =~= issues0 + spec_tag_issues(cp, iss@).take(t + 1));
                }
                t = t + 1;
            }
            proof {
                assert(spec_tag_issues(cp, iss@).take(iss@.len() as int) =~= spec_tag_issues(
                    cp,
                    iss@,
                ));
            }
            if sel_empty && iss_empty {
                issues.push((cp, ResolutionIssue::UnsupportedCodePoint));
            }
            let ghost old_mapv = map@.map_values(|e: (u32, Vec<String>)| (e.0, views_of(e.1@)));
            map.push((cp, sel));
            proof {
                let st_next = spec_state(self.font_support@, self.config, cps@, i + 1);
                assert(st_next.0 == spec_add_new(st_prev.0, selv, selv.len() as int));
                assert(map@.map_values(|e: (u32, Vec<String>)| (e.0, views_of(e.1@))) =~= old_mapv.push(
                    (cp, selv),
                ));
                assert(issues@ =~= st_next.2);
            }
            i = i + 1;
        }
        proof {
            assert(spec_cps(text@).len() == cps@.len());
        }
        FontStack { names, map, issues }
    }
}

/// The key regions of a merged store: head keys stay below the block, run
/// keys lie inside it, tail keys lie above it.
proof fn lemma_merged_key(
    old_s: Seq<(u32, Vec<String>)>,
    runv: Seq<(u32, Vec<String>)>,
    idx: int,
    start: u32,
    end: u32,
    i: int,
)
    requires
        support_wf(old_s),
        0 <= idx <= old_s.len(),
        start <= end,
        forall|j: int| 0 <= j < idx ==> (#[trigger] old_s[j]).0 < start,
        forall|j: int| idx <= j < old_s.len() ==> (#[trigger] old_s[j]).0 > end,
        runv.len() == end - start + 1,
        forall|m2: int| 0 <= m2 < runv.len() ==> (#[trigger] runv[m2]).0 == start + m2,
        0 <= i < old_s.len() + runv.len(),
    ensures
        ({
            let merged = old_s.subrange(0, idx) + runv + old_s.subrange(idx, old_s.len() as int);
            (i < idx ==> merged[i] == old_s[i] && merged[i].0 < start) && (idx <= i < idx
                + runv.len() ==> merged[i] == runv[i - idx] && merged[i].0 == start + (i - idx))
                && (idx + runv.len() <= i ==> merged[i] == old_s[i - runv.len()] && merged[i].0
                > end)
        }),
{
}

/// Where a merged store sends each lookup: code points of the block find the
/// run's entry, all others find what the old store gave them.
proof fn lemma_merged_support(
    old_s: Seq<(u32, Vec<String>)>,
    runv: Seq<(u32, Vec<String>)>,
    idx: int,
    start: u32,
    end: u32,
    cp: u32,
)
    requires
        support_wf(old_s),
        0 <= idx <= old_s.len(),
        start <= end,
        forall|j: int| 0 <= j < idx ==> (#[trigger] old_s[j]).0 < start,
        forall|j: int| idx <= j < old_s.len() ==> (#[trigger] old_s[j]).0 > end,
        runv.len() == end - start + 1,
        forall|m2: int| 0 <= m2 < runv.len() ==> (#[trigger] runv[m2]).0 == start + m2,
    ensures
        ({
            let merged = old_s.subrange(0, idx) + runv + old_s.subrange(idx, old_s.len() as int);
            spec_support(merged, cp) == (if start <= cp <= end {
                Some(views_of(runv[cp - start].1@))
            } else {
                spec_support(old_s, cp)
            })
        }),
{
    let merged = old_s.subrange(0, idx) + runv + old_s.subrange(idx, old_s.len() as int);
    let nrun = runv.len() as int;
    assert forall|i: int| 0 <= i < merged.len() implies ((i < idx ==> #[trigger] merged[i]
        == old_s[i]) && (idx <= i < idx + nrun ==> merged[i] == runv[i - idx]) && (idx + nrun <= i
        ==> merged[i] == old_s[i - nrun])) by {
        lemma_merged_key(old_s, runv, idx, start, end, i);
    }
    if start <= cp <= end {
        let pos = idx + (cp - start);
        assert(merged[pos].0 == cp);
        assert forall|j: int| 0 <= j < pos implies (#[trigger] merged[j]).0 != cp by {
            lemma_merged_key(old_s, runv, idx, start, end, j);
        }
        lemma_support_skip(merged, cp, pos);
        assert(spec_support_from(merged, cp, pos) == Some(views_of(merged[pos].1@)));
    } else {
        if exists|j: int| 0 <= j < old_s.len() && (#[trigger] old_s[j]).0 == cp {
            let j = choose|j: int| 0 <= j < old_s.len() && (#[trigger] old_s[j]).0 == cp;
            assert forall|j2: int| 0 <= j2 < j implies (#[trigger] old_s[j2]).0 != cp by {
                assert(old_s[j2].0 < old_s[j].0);
            }
            lemma_support_skip(old_s, cp, j);
            assert(spec_support(old_s, cp) == Some(views_of(old_s[j].1@)));
            let pos = if j < idx {
                j
            } else {
                j + nrun
            };
            assert(merged[pos].0 == cp);
            assert forall|j2: int| 0 <= j2 < pos implies (#[trigger] merged[j2]).0 != cp by {
                lemma_merged_key(old_s, runv, idx, start, end, j2);
                if j2 < idx {
                    if j < idx {
                        assert(old_s[j2].0 < old_s[j].0);
                    } else {
                        assert(old_s[j2].0 < start);
                    }
                } else if j2 < idx + nrun {
                    assert(merged[j2].0 == start + (j2 - idx));
                } else {
                    assert(old_s[j2 - nrun].0 < old_s[j].0);
                }
            }
            lemma_support_skip(merged, cp, pos);
            assert(spec_support_from(merged, cp, pos) == Some(views_of(merged[pos].1@)));
        } else {
            assert forall|j2: int| 0 <= j2 < merged.len() implies (#[trigger] merged[j2]).0
                != cp by {
                lemma_merged_key(old_s, runv, idx, start, end, j2);
                if idx <= j2 < idx + nrun {
                    assert(merged[j2].0 == start + (j2 - idx));
                } else if j2 >= idx + nrun {
                    assert(old_s[j2 - nrun].0 == merged[j2].0);
                }
            }
            lemma_support_skip(merged, cp, merged.len() as int);
            assert forall|j2: int| 0 <= j2 < old_s.len() implies (#[trigger] old_s[j2]).0 != cp by {}
            lemma_support_skip(old_s, cp, old_s.len() as int);
        }
    }
}

/// Does the list hold this ordinal?
pub fn contains_usize(v: &Vec<usize>, x: usize) -> (r: bool)
    ensures
        r == v@.contains(x),
{
    let mut i: usize = 0;
    while i < v.len()
        invariant
            i <= v@.len(),
            forall|j: int| 0 <= j < i ==> v@[j] != x,
        decreases v@.len() - i,
    {
        if v[i] == x {
            return true;
        }
        i = i + 1;
    }
    false
}

} // verus!
