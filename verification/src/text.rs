//! Small verified text utilities: character-level string comparison,
//! prefix/suffix tests, substring search, lowercase hexadecimal rendering and
//! decimal parsing of code-point keys.

use vstd::prelude::*;

verus! {

/// Character-by-character string equality.
pub fn str_eq(a: &str, b: &str) -> (r: bool)
    ensures
        r == (a@ == b@),
{
    let alen = a.unicode_len();
    let blen = b.unicode_len();
    if alen != blen {
        proof {
            assert(a@.len() != b@.len());
        }
        return false;
    }
    let mut i: usize = 0;
    while i < alen
        invariant
            i <= alen,
            alen == a@.len(),
            alen == b@.len(),
            forall|j: int| 0 <= j < i ==> a@[j] == b@[j],
        decreases alen - i,
    {
        if a.get_char(i) != b.get_char(i) {
            return false;
        }
        i = i + 1;
    }
    proof {
        assert(a@ =~= b@);
    }
    true
}

/// Does `p` stand at the start of `s`?
pub fn starts_with_str(s: &str, p: &str) -> (r: bool)
    ensures
        r == p@.is_prefix_of(s@),
{
    let slen = s.unicode_len();
    let plen = p.unicode_len();
    if plen > slen {
        proof {
            assert(!p@.is_prefix_of(s@));
        }
        return false;
    }
    let mut i: usize = 0;
    while i < plen
        invariant
            i <= plen,
            plen == p@.len(),
            slen == s@.len(),
            plen <= slen,
            forall|j: int| 0 <= j < i ==> s@[j] == p@[j],
        decreases plen - i,
    {
        if s.get_char(i) != p.get_char(i) {
            proof {
                assert(s@.subrange(0, p@.len() as int)[i as int] != p@[i as int]);
            }
            return false;
        }
        i = i + 1;
    }
    proof {
        assert(s@.subrange(0, p@.len() as int) =~= p@);
    }
    true
}

/// Does `p` stand at the end of `s`?
pub fn ends_with_str(s: &str, p: &str) -> (r: bool)
    ensures
        r == p@.is_suffix_of(s@),
{
    let slen = s.unicode_len();
    let plen = p.unicode_len();
    if plen > slen {
        proof {
            assert(!p@.is_suffix_of(s@));
        }
        return false;
    }
    let off = slen - plen;
    let mut i: usize = 0;
    while i < plen
        invariant
            i <= plen,
            plen == p@.len(),
            slen == s@.len(),
            plen <= slen,
            off == slen - plen,
            forall|j: int| 0 <= j < i ==> s@[off + j] == p@[j],
        decreases plen - i,
    {
        if s.get_char(off + i) != p.get_char(i) {
            proof {
                assert(s@.subrange(off as int, s@.len() as int)[i as int] != p@[i as int]);
            }
            return false;
        }
        i = i + 1;
    }
    proof {
        assert(s@.subrange(off as int, s@.len() as int) =~= p@);
    }
    true
}

/// Does `p` occur anywhere inside `s`?
pub open spec fn spec_contains_substr(s: Seq<char>, p: Seq<char>) -> bool {
    exists|i: int|
        0 <= i && i + p.len() <= s.len() && #[trigger] s.subrange(i, i + p.len() as int) == p
}

pub fn contains_substr(s: &str, p: &str) -> (r: bool)
    ensures
        r == spec_contains_substr(s@, p@),
{
    let slen = s.unicode_len();
    let plen = p.unicode_len();
    if plen > slen {
        return false;
    }
    if plen == 0 {
        proof {
            assert(s@.subrange(0, 0 + p@.len() as int) =~= p@);
        }
        return true;
    }
    let mut i: usize = 0;
    while i <= slen - plen
        invariant
            slen == s@.len(),
            plen == p@.len(),
            0 < plen <= slen,
            i <= slen - plen + 1,
            forall|j: int| 0 <= j < i ==> #[trigger] s@.subrange(j, j + p@.len() as int) != p@,
        decreases slen - i,
    {
        let piece = s.substring_char(i, i + plen);
        if str_eq(piece, p) {
            proof {
                assert(s@.subrange(i as int, i + p@.len() as int) == p@);
            }
            return true;
        }
        i = i + 1;
    }
    false
}

/// The space-separated words of a string from index `i` on, with `cur` the
/// partial word read so far; empty pieces are dropped.
pub open spec fn spec_split_from(s: Seq<char>, i: int, cur: Seq<char>) -> Seq<Seq<char>>
    decreases s.len() - i,
{
    if i < 0 || i >= s.len() {
        if cur.len() > 0 {
            seq![cur]
        } else {
            Seq::<Seq<char>>::empty()
        }
    } else if s[i] == ' ' {
        (if cur.len() > 0 {
            seq![cur]
        } else {
            Seq::<Seq<char>>::empty()
        }) + spec_split_from(s, i + 1, Seq::empty())
    } else {
        spec_split_from(s, i + 1, cur.push(s[i]))
    }
}

/// The space-separated words of a string.
pub open spec fn spec_words(s: Seq<char>) -> Seq<Seq<char>> {
    spec_split_from(s, 0, Seq::empty())
}

/// Splits a string into its space-separated words.
pub fn split_words(s: &str) -> (r: Vec<String>)
    ensures
        crate::sorting::views_of(r@) == spec_words(s@),
{
    let n = s.unicode_len();
    let mut r: Vec<String> = Vec::new();
    let mut cur = String::new();
    let mut i: usize = 0;
    while i < n
        invariant
            i <= n,
            n == s@.len(),
            spec_words(s@) == crate::sorting::views_of(r@) + spec_split_from(s@, i as int, cur@),
        decreases n - i,
    {
        let c = s.get_char(i);
        if c == ' ' {
            if cur.as_str().unicode_len() > 0 {
                let ghost old_r = crate::sorting::views_of(r@);
                let ghost old_cur = cur@;
                r.push(cur);
                cur = String::new();
                proof {
                    assert(crate::sorting::views_of(r@) =~= old_r.push(old_cur));
                    assert(spec_words(s@) =~= crate::sorting::views_of(r@) + spec_split_from(
                        s@,
                        i + 1,
                        cur@,
                    ));
                }
            } else {
                proof {
                    assert(cur@ =~= Seq::<char>::empty());
                }
            }
        } else {
            let ghost old_cur = cur@;
            let piece = s.substring_char(i, i + 1);
            cur.append(piece);
            proof {
                assert(cur@ =~= old_cur.push(s@[i as int]));
            }
        }
        i = i + 1;
    }
    if cur.as_str().unicode_len() > 0 {
        r.push(cur);
    }
    proof {
        assert(crate::sorting::views_of(r@) =~= spec_words(s@));
    }
    r
}

/// The lowercase counterpart of an ASCII capital letter; any other character
/// stands unchanged.
pub open spec fn lower_char(c: char) -> char {
    if c == 'A' {
        'a'
    } else if c == 'B' {
        'b'
    } else if c == 'C' {
        'c'
    } else if c == 'D' {
        'd'
    } else if c == 'E' {
        'e'
    } else if c == 'F' {
        'f'
    } else if c == 'G' {
        'g'
    } else if c == 'H' {
        'h'
    } else if c == 'I' {
        'i'
    } else if c == 'J' {
        'j'
    } else if c == 'K' {
        'k'
    } else if c == 'L' {
        'l'
    } else if c == 'M' {
        'm'
    } else if c == 'N' {
        'n'
    } else if c == 'O' {
        'o'
    } else if c == 'P' {
        'p'
    } else if c == 'Q' {
        'q'
    } else if c == 'R' {
        'r'
    } else if c == 'S' {
        's'
    } else if c == 'T' {
        't'
    } else if c == 'U' {
        'u'
    } else if c == 'V' {
        'v'
    } else if c == 'W' {
        'w'
    } else if c == 'X' {
        'x'
    } else if c == 'Y' {
        'y'
    } else if c == 'Z' {
        'z'
    } else {
        c
    }
}

pub open spec fn spec_ascii_lower(s: Seq<char>) -> Seq<char> {
    s.map_values(|c: char| lower_char(c))
}

fn lower_str(c: char) -> (r: Option<&'static str>)
    ensures
        match r {
            Some(p) => p@ =~= seq![lower_char(c)] && lower_char(c) != c,
            None => lower_char(c) == c,
        },
{
    let r: Option<&'static str> = if c == 'A' {
        Some("a")
    } else if c == 'B' {
        Some("b")
    } else if c == 'C' {
        Some("c")
    } else if c == 'D' {
        Some("d")
    } else if c == 'E' {
        Some("e")
    } else if c == 'F' {
        Some("f")
    } else if c == 'G' {
        Some("g")
    } else if c == 'H' {
        Some("h")
    } else if c == 'I' {
        Some("i")
    } else if c == 'J' {
        Some("j")
    } else if c == 'K' {
        Some("k")
    } else if c == 'L' {
        Some("l")
    } else if c == 'M' {
        Some("m")
    } else if c == 'N' {
        Some("n")
    } else if c == 'O' {
        Some("o")
    } else if c == 'P' {
        Some("p")
    } else if c == 'Q' {
        Some("q")
    } else if c == 'R' {
        Some("r")
    } else if c == 'S' {
        Some("s")
    } else if c == 'T' {
        Some("t")
    } else if c == 'U' {
        Some("u")
    } else if c == 'V' {
        Some("v")
    } else if c == 'W' {
        Some("w")
    } else if c == 'X' {
        Some("x")
    } else if c == 'Y' {
        Some("y")
    } else if c == 'Z' {
        Some("z")
    } else {
        None
    };
    proof {
        reveal_strlit("a");
        reveal_strlit("b");
        reveal_strlit("c");
        reveal_strlit("d");
        reveal_strlit("e");
        reveal_strlit("f");
        reveal_strlit("g");
        reveal_strlit("h");
        reveal_strlit("i");
        reveal_strlit("j");
        reveal_strlit("k");
        reveal_strlit("l");
        reveal_strlit("m");
        reveal_strlit("n");
        reveal_strlit("o");
        reveal_strlit("p");
        reveal_strlit("q");
        reveal_strlit("r");
        reveal_strlit("s");
        reveal_strlit("t");
        reveal_strlit("u");
        reveal_strlit("v");
        reveal_strlit("w");
        reveal_strlit("x");
        reveal_strlit("y");
        reveal_strlit("z");
    }
    r
}

/// Lowercases the ASCII capitals of a string.
pub fn ascii_lower(s: &str) -> (r: String)
    ensures
        r@ == spec_ascii_lower(s@),
{
    let n = s.unicode_len();
    let mut r = String::new();
    let mut i: usize = 0;
    while i < n
        invariant
            i <= n,
            n == s@.len(),
            r@ == spec_ascii_lower(s@.take(i as int)),
        decreases n - i,
    {
        let c = s.get_char(i);
        match lower_str(c) {
            Some(p) => {
                r.append(p);
            },
            None => {
                let piece = s.substring_char(i, i + 1);
                r.append(piece);
            },
        }
        proof {
            assert(r@ =~= spec_ascii_lower(s@.take(i + 1)));
        }
        i = i + 1;
    }
    proof {
        assert(s@.take(n as int) =~= s@);
    }
    r
}

/// A string without its spaces and hyphens.
pub open spec fn spec_strip_space_hyphen(s: Seq<char>) -> Seq<char> {
    crate::sorting::spec_filter_upto(s, |c: char| c != ' ' && c != '-', s.len() as int)
}

pub fn strip_space_hyphen(s: &str) -> (r: String)
    ensures
        r@ == spec_strip_space_hyphen(s@),
{
    let ghost keep: spec_fn(char) -> bool = |c: char| c != ' ' && c != '-';
    let n = s.unicode_len();
    let mut r = String::new();
    let mut i: usize = 0;
    while i < n
        invariant
            i <= n,
            n == s@.len(),
            keep == (|c: char| c != ' ' && c != '-'),
            r@ == crate::sorting::spec_filter_upto(s@, keep, i as int),
        decreases n - i,
    {
        let c = s.get_char(i);
        if c != ' ' && c != '-' {
            let piece = s.substring_char(i, i + 1);
            r.append(piece);
        }
        proof {
            assert(r@ =~= crate::sorting::spec_filter_upto(s@, keep, i + 1));
        }
        i = i + 1;
    }
    r
}

/// The hexadecimal digit character for a value below sixteen.
pub open spec fn hex_digit(d: nat) -> char {
    if d == 0 {
        '0'
    } else if d == 1 {
        '1'
    } else if d == 2 {
        '2'
    } else if d == 3 {
        '3'
    } else if d == 4 {
        '4'
    } else if d == 5 {
        '5'
    } else if d == 6 {
        '6'
    } else if d == 7 {
        '7'
    } else if d == 8 {
        '8'
    } else if d == 9 {
        '9'
    } else if d == 10 {
        'a'
    } else if d == 11 {
        'b'
    } else if d == 12 {
        'c'
    } else if d == 13 {
        'd'
    } else if d == 14 {
        'e'
    } else {
        'f'
    }
}

/// Lowercase hexadecimal rendering of `n`, left-padded with zeroes to at
/// least `width` digits.
pub open spec fn spec_hex(n: nat, width: nat) -> Seq<char>
    decreases n, width,
{
    if n < 16 && width <= 1 {
        seq![hex_digit(n)]
    } else {
        spec_hex(n / 16, if width == 0 {
            0
        } else {
            (width - 1) as nat
        }).push(hex_digit(n % 16))
    }
}

fn hex_digit_str(d: u32) -> (r: &'static str)
    requires
        d < 16,
    ensures
        r@ =~= seq![hex_digit(d as nat)],
{
    let r: &'static str = if d == 0 {
        "0"
    } else if d == 1 {
        "1"
    } else if d == 2 {
        "2"
    } else if d == 3 {
        "3"
    } else if d == 4 {
        "4"
    } else if d == 5 {
        "5"
    } else if d == 6 {
        "6"
    } else if d == 7 {
        "7"
    } else if d == 8 {
        "8"
    } else if d == 9 {
        "9"
    } else if d == 10 {
        "a"
    } else if d == 11 {
        "b"
    } else if d == 12 {
        "c"
    } else if d == 13 {
        "d"
    } else if d == 14 {
        "e"
    } else {
        "f"
    };
    proof {
        reveal_strlit("0");
        reveal_strlit("1");
        reveal_strlit("2");
        reveal_strlit("3");
        reveal_strlit("4");
        reveal_strlit("5");
        reveal_strlit("6");
        reveal_strlit("7");
        reveal_strlit("8");
        reveal_strlit("9");
        reveal_strlit("a");
        reveal_strlit("b");
        reveal_strlit("c");
        reveal_strlit("d");
        reveal_strlit("e");
        reveal_strlit("f");
    }
    r
}

fn hex_rec(n: u32, width: u32) -> (r: String)
    ensures
        r@ == spec_hex(n as nat, width as nat),
    decreases n, width,
{
    let d = n % 16;
    let ds = hex_digit_str(d);
    if n < 16 && width <= 1 {
        let r = ds.to_owned();
        proof {
            assert(r@ =~= spec_hex(n as nat, width as nat));
        }
        r
    } else {
        let rest = hex_rec(n / 16, if width == 0 {
            0
        } else {
            width - 1
        });
        let r = rest.concat(ds);
        proof {
            assert(r@ =~= spec_hex(n as nat, width as nat));
        }
        r
    }
}

/// Renders a code point the way diagnostic reports show it: lowercase
/// hexadecimal, at least four digits wide.
pub fn hex4(n: u32) -> (r: String)
    ensures
        r@ == spec_hex(n as nat, 4),
{
    hex_rec(n, 4)
}

/// A decimal digit character.
pub open spec fn is_dec_digit(c: char) -> bool {
    48 <= c as u32 && c as u32 <= 57
}

pub open spec fn dec_digit_val(c: char) -> nat {
    (c as u32 - 48) as nat
}

pub open spec fn all_dec_digits(s: Seq<char>) -> bool {
    forall|i: int| 0 <= i < s.len() ==> is_dec_digit(#[trigger] s[i])
}

/// The numeric value of a digit string, most significant digit first.
pub open spec fn spec_dec_value(s: Seq<char>) -> nat
    decreases s.len(),
{
    if s.len() == 0 {
        0
    } else {
        spec_dec_value(s.drop_last()) * 10 + dec_digit_val(s.last())
    }
}

proof fn lemma_dec_value_monotone(s: Seq<char>, i: int)
    requires
        0 <= i <= s.len(),
    ensures
        spec_dec_value(s.take(i)) <= spec_dec_value(s),
    decreases s.len() - i,
{
    if i < s.len() {
        lemma_dec_value_monotone(s, i + 1);
        assert(s.take(i + 1).drop_last() =~= s.take(i));
        assert(spec_dec_value(s.take(i + 1)) == spec_dec_value(s.take(i)) * 10 + dec_digit_val(
            s.take(i + 1).last(),
        ));
    } else {
        assert(s.take(i) =~= s);
    }
}

/// Parses a nonempty, digits-only decimal string; `None` when the string is
/// empty, holds a non-digit, or names a value beyond `u32::MAX`.
pub fn parse_u32_decimal(s: &str) -> (r: Option<u32>)
    ensures
        r is Some <==> (s@.len() > 0 && all_dec_digits(s@) && spec_dec_value(s@) <= u32::MAX),
        r is Some ==> r->0 == spec_dec_value(s@),
{
    let len = s.unicode_len();
    if len == 0 {
        return None;
    }
    let mut acc: u32 = 0;
    let mut i: usize = 0;
    while i < len
        invariant
            i <= len,
            len == s@.len(),
            forall|j: int| 0 <= j < i ==> is_dec_digit(#[trigger] s@[j]),
            acc == spec_dec_value(s@.take(i as int)),
        decreases len - i,
    {
        let c = s.get_char(i);
        let cv = c as u32;
        if cv < 48 || cv > 57 {
            proof {
                assert(!is_dec_digit(s@[i as int]));
            }
            return None;
        }
        let d = cv - 48;
        if acc > 0xFFFF_FFFF / 10 || (acc == 0xFFFF_FFFF / 10 && d > 0xFFFF_FFFF % 10) {
            proof {
                assert(s@.take(i + 1).drop_last() =~= s@.take(i as int));
                assert(spec_dec_value(s@.take(i + 1)) > u32::MAX);
                lemma_dec_value_monotone(s@, i + 1);
            }
            return None;
        }
        acc = acc * 10 + d;
        proof {
            assert(s@.take(i + 1).drop_last() =~= s@.take(i as int));
        }
        i = i + 1;
    }
    proof {
        assert(s@.take(len as int) =~= s@);
    }
    Some(acc)
}

} // verus!
