//! Ordering and deduplication of code points and font names. The sorting and
//! run-collapsing themselves are done by `itertools`; their contracts are
//! stated here and the surrounding reasoning is verified.

use vstd::prelude::*;
use vstd::relations::sorted_by;
use itertools::Itertools;

verus! {

/// The views of a sequence of strings.
pub open spec fn views_of(s: Seq<String>) -> Seq<Seq<char>> {
    s.map_values(|x: String| x@)
}

/// Nondecreasing order on `u32`, as a relation value.
pub open spec fn u32_leq() -> spec_fn(u32, u32) -> bool {
    |a: u32, b: u32| a <= b
}

/// The elements of `s` below index `i` that `keep` accepts, in order.
pub open spec fn spec_filter_upto<A>(s: Seq<A>, keep: spec_fn(A) -> bool, i: int) -> Seq<A>
    decreases i,
{
    if i <= 0 {
        Seq::empty()
    } else {
        spec_filter_upto(s, keep, i - 1) + if keep(s[i - 1]) {
            seq![s[i - 1]]
        } else {
            Seq::<A>::empty()
        }
    }
}

/// A sequence with every run of equal adjacent elements collapsed to one.
pub open spec fn spec_dedup<A>(s: Seq<A>) -> Seq<A>
    decreases s.len(),
{
    if s.len() == 0 {
        Seq::empty()
    } else if s.len() >= 2 && s[0] == s[1] {
        spec_dedup(s.drop_first())
    } else {
        seq![s[0]] + spec_dedup(s.drop_first())
    }
}

/// Collapsing runs never invents or loses values.
pub proof fn lemma_dedup_contains<A>(s: Seq<A>)
    ensures
        forall|x: A| spec_dedup(s).contains(x) <==> s.contains(x),
    decreases s.len(),
{
    if s.len() == 0 {
    } else {
        lemma_dedup_contains(s.drop_first());
        assert forall|x: A| s.contains(x) implies (s.drop_first().contains(x) || s[0] == x) by {
            let i = choose|i: int| 0 <= i < s.len() && s[i] == x;
            if i > 0 {
                assert(s.drop_first()[i - 1] == x);
            }
        }
        assert forall|x: A| s.drop_first().contains(x) implies s.contains(x) by {
            let i = choose|i: int| 0 <= i < s.drop_first().len() && s.drop_first()[i] == x;
            assert(s[i + 1] == x);
        }
        if s.len() >= 2 && s[0] == s[1] {
            assert(s.drop_first()[0] == s[1]);
            assert(s.drop_first().contains(s[0]));
        } else {
            assert forall|x: A| s.contains(x) implies spec_dedup(s).contains(x) by {
                if s[0] == x {
                    assert(spec_dedup(s)[0] == x);
                } else {
                    assert(spec_dedup(s.drop_first()).contains(x));
                    let j = choose|j: int|
                        0 <= j < spec_dedup(s.drop_first()).len() && spec_dedup(s.drop_first())[j]
                            == x;
                    assert(spec_dedup(s)[j + 1] == x);
                }
            }
            assert forall|x: A| spec_dedup(s).contains(x) implies s.contains(x) by {
                let j = choose|j: int| 0 <= j < spec_dedup(s).len() && spec_dedup(s)[j] == x;
                if j == 0 {
                    assert(s[0] == x);
                } else {
                    assert(spec_dedup(s.drop_first())[j - 1] == x);
                    assert(s.drop_first().contains(x));
                    let i = choose|i: int|
                        0 <= i < s.drop_first().len() && s.drop_first()[i] == x;
                    assert(s[i + 1] == x);
                }
            }
        }
    }
}

/// Collapsing runs of a nondecreasing sequence leaves a strictly increasing
/// one.
pub proof fn lemma_dedup_sorted_strict(s: Seq<u32>)
    requires
        sorted_by(s, u32_leq()),
    ensures
        forall|i: int, j: int|
            0 <= i < j < spec_dedup(s).len() ==> spec_dedup(s)[i] < spec_dedup(s)[j],
        spec_dedup(s).len() > 0 ==> spec_dedup(s)[0] == s[0],
    decreases s.len(),
{
    if s.len() == 0 {
    } else {
        let t = s.drop_first();
        assert forall|i: int, j: int| 0 <= i < j < t.len() implies u32_leq()(t[i], t[j]) by {
            assert(u32_leq()(s[i + 1], s[j + 1]));
        }
        lemma_dedup_sorted_strict(t);
        if s.len() >= 2 && s[0] == s[1] {
            assert(spec_dedup(s) == spec_dedup(t));
            assert(spec_dedup(t).len() > 0 ==> spec_dedup(t)[0] == t[0] == s[1]);
        } else {
            let d = spec_dedup(s);
            let dt = spec_dedup(t);
            assert(d == seq![s[0]] + dt);
            lemma_dedup_contains(t);
            assert forall|i: int, j: int| 0 <= i < j < d.len() implies d[i] < d[j] by {
                if i == 0 {
                    assert(d[j] == dt[j - 1]);
                    assert(t.contains(dt[j - 1]) || (dt.len() > 0 && j - 1 == 0));
                    if j - 1 == 0 {
                        assert(dt[0] == t[0]);
                        assert(u32_leq()(s[0], s[1]));
                        assert(s[0] != s[1] || s.len() < 2);
                        if s.len() >= 2 {
                            assert(d[0] < d[j]);
                        } else {
                            assert(t.len() == 0);
                            assert(dt.len() == 0);
                        }
                    } else {
                        assert(dt[0] < dt[j - 1]);
                        assert(dt[0] == t[0]);
                        assert(u32_leq()(s[0], s[1]));
                        assert(t[0] == s[1]);
                        assert(d[0] <= dt[0]);
                    }
                } else {
                    assert(d[i] == dt[i - 1] && d[j] == dt[j - 1]);
                }
            }
        }
    }
}

/// Relies on `itertools::Itertools::sorted`: sorts the elements into
/// ascending order (a permutation of the input, nondecreasing under `<=`).
#[verifier::external_body]
pub(crate) fn sorted_u32(v: Vec<u32>) -> (r: Vec<u32>)
    ensures
        r@.to_multiset() == v@.to_multiset(),
        sorted_by(r@, u32_leq()),
{
    v.into_iter().sorted().collect_vec()
}

/// Relies on `itertools::Itertools::dedup`: removes consecutive equal
/// elements, keeping one element of each run.
#[verifier::external_body]
pub(crate) fn dedup_u32(v: Vec<u32>) -> (r: Vec<u32>)
    ensures
        r@ == spec_dedup(v@),
{
    v.into_iter().dedup().collect_vec()
}

/// The strings of `s` laid end to end with `sep` between consecutive ones.
pub open spec fn spec_join(s: Seq<Seq<char>>, sep: Seq<char>) -> Seq<char>
    decreases s.len(),
{
    if s.len() == 0 {
        Seq::empty()
    } else if s.len() == 1 {
        s[0]
    } else {
        spec_join(s.drop_last(), sep) + sep + s.last()
    }
}

/// Relies on `itertools::Itertools::join`: combines the elements into one
/// string separated by `sep`; a `String` displays as its own characters.
#[verifier::external_body]
pub(crate) fn join_strings(v: &Vec<String>, sep: &str) -> (r: String)
    ensures
        r@ == spec_join(views_of(v@), sep@),
{
    v.iter().join(sep)
}

} // verus!
