//! The resolver's product: the deduplicated, ordered font family list, the
//! per-code-point selection map, the per-code-point findings, and the
//! diagnostic views rendered from them.

use vstd::prelude::*;
use crate::classify::{missing_variants, scripts, spec_missing, spec_scripts, Script};
use crate::resolve::{group_by_script, spec_group, ResolutionIssue};
use crate::sorting::{join_strings, spec_join, views_of};
use crate::text::{
    ascii_lower, contains_substr, hex4, spec_ascii_lower, spec_contains_substr, spec_hex,
    spec_strip_space_hyphen, spec_words, split_words, str_eq, strip_space_hyphen,
};

verus! {

/// A resolved font stack: the family names needed for the text, in first-use
/// order with the family prefix attached; the map from each requested code
/// point to the variants selected for it; and the findings recorded for code
/// points that could not be fully resolved.
#[derive(Debug, Clone)]
pub struct FontStack {
    pub names: Vec<String>,
    pub map: Vec<(u32, Vec<String>)>,
    pub issues: Vec<(u32, ResolutionIssue)>,
}

/// One code point's font names, grouped by script in ascending script order:
/// names of one script joined by a comma, groups joined by a newline indent.
pub open spec fn spec_stringify(l: Seq<Seq<char>>) -> Seq<char> {
    spec_join(
        spec_scripts(l).map_values(|c: u32| spec_join(spec_group(l, c), ", "@)),
        "\n    "@,
    )
}

/// Renders a list of font names grouped by script.
pub fn stringify_fonts(fonts: &Vec<String>) -> (r: String)
    ensures
        r@ == spec_stringify(views_of(fonts@)),
{
    let ghost fviews = views_of(fonts@);
    let ghost target = spec_scripts(fviews).map_values(
        |c: u32| spec_join(spec_group(fviews, c), ", "@),
    );
    let cs = scripts(fonts);
    let mut groups: Vec<String> = Vec::new();
    let mut i: usize = 0;
    while i < cs.len()
        invariant
            i <= cs@.len(),
            fviews == views_of(fonts@),
            target == spec_scripts(fviews).map_values(
                |c: u32| spec_join(spec_group(fviews, c), ", "@),
            ),
            cs@.map_values(|s: Script| s.0) == spec_scripts(fviews),
            views_of(groups@) == target.take(i as int),
        decreases cs@.len() - i,
    {
        let g = group_by_script(fonts, cs[i].0);
        let joined = join_strings(&g, ", ");
        let ghost old_groups = views_of(groups@);
        let ghost jv = joined@;
        proof {
            assert(cs@.map_values(|s: Script| s.0)[i as int] == cs@[i as int].0);
            assert(joined@ == target[i as int]);
        }
        groups.push(joined);
        proof {
            assert(views_of(groups@) =~= old_groups.push(jv));
            assert(views_of(groups@) =~= target.take(i + 1));
        }
        i = i + 1;
    }
    proof {
        assert(target.take(cs@.len() as int) =~= target);
    }
    join_strings(&groups, "\n    ")
}

/// The code points of the first `i` map entries whose selections span more
/// than one script.
pub open spec fn spec_conflicts(map: Seq<(u32, Vec<String>)>, i: int) -> Seq<u32>
    decreases i,
{
    if i <= 0 {
        Seq::empty()
    } else {
        spec_conflicts(map, i - 1) + if spec_scripts(views_of(map[i - 1].1@)).len() > 1 {
            seq![map[i - 1].0]
        } else {
            Seq::<u32>::empty()
        }
    }
}

/// Every code point whose selections classify to more than one script stands
/// in the conflicts report.
pub proof fn lemma_conflicts_complete(map: Seq<(u32, Vec<String>)>, k: int, i: int)
    requires
        0 <= k < i <= map.len(),
        spec_scripts(views_of(map[k].1@)).len() > 1,
    ensures
        spec_conflicts(map, i).contains(map[k].0),
    decreases i,
{
    if k == i - 1 {
        let prev = spec_conflicts(map, i - 1);
        assert(spec_conflicts(map, i)[prev.len() as int] == map[k].0);
    } else {
        lemma_conflicts_complete(map, k, i - 1);
        let prev = spec_conflicts(map, i - 1);
        let j = choose|j: int| 0 <= j < prev.len() && prev[j] == map[k].0;
        assert(spec_conflicts(map, i)[j] == map[k].0);
    }
}

/// The rendered form of one report entry: the code point in hexadecimal,
/// then its names on an indented line.
pub open spec fn spec_entry_str(cp: u32, body: Seq<char>) -> Seq<char> {
    spec_hex(cp as nat, 4) + "\n    "@ + body + "\n"@
}

/// The whole-map report over the first `i` entries: one entry per code point
/// with a nonempty selection.
pub open spec fn spec_all_str(map: Seq<(u32, Vec<String>)>, i: int) -> Seq<char>
    decreases i,
{
    if i <= 0 {
        Seq::empty()
    } else {
        spec_all_str(map, i - 1) + if views_of(map[i - 1].1@).len() > 0 {
            spec_entry_str(map[i - 1].0, spec_stringify(views_of(map[i - 1].1@)))
        } else {
            Seq::<char>::empty()
        }
    }
}

/// The conflicts report over the first `i` entries: one entry per code point
/// whose selections span more than one script.
pub open spec fn spec_conflicts_str(map: Seq<(u32, Vec<String>)>, i: int) -> Seq<char>
    decreases i,
{
    if i <= 0 {
        Seq::empty()
    } else {
        spec_conflicts_str(map, i - 1) + if spec_scripts(views_of(map[i - 1].1@)).len() > 1 {
            spec_entry_str(map[i - 1].0, spec_stringify(views_of(map[i - 1].1@)))
        } else {
            Seq::<char>::empty()
        }
    }
}

/// The missing-variants report over the first `i` entries: one entry per
/// code point whose selections leave stylistic siblings out.
pub open spec fn spec_missing_str(map: Seq<(u32, Vec<String>)>, i: int) -> Seq<char>
    decreases i,
{
    if i <= 0 {
        Seq::empty()
    } else {
        spec_missing_str(map, i - 1) + if spec_missing(views_of(map[i - 1].1@)).len() > 0 {
            spec_entry_str(map[i - 1].0, spec_stringify(spec_missing(views_of(map[i - 1].1@))))
        } else {
            Seq::<char>::empty()
        }
    }
}

/// A font file: where it is filed, the family it renders, and its bytes.
#[derive(Debug, Clone)]
pub struct Font {
    pub filename: String,
    pub fontname: String,
    pub bytes: Vec<u8>,
}

/// The three rendered diagnostic reports: the whole selection map, the code
/// points whose selections span several scripts, and the stylistic siblings
/// that the selections leave out.
#[derive(Debug)]
pub struct MapString {
    pub all: String,
    pub conflicts: String,
    pub missing: String,
}

impl FontStack {
    /// The code points whose selected variants classify to more than one
    /// distinct script: each needs several separately loaded font files to
    /// render — a cost warning, not an error.
    pub fn conflicts(&self) -> (r: Vec<u32>)
        ensures
            r@ == spec_conflicts(self.map@, self.map@.len() as int),
    {
        let mut r: Vec<u32> = Vec::new();
        let mut i: usize = 0;
        while i < self.map.len()
            invariant
                i <= self.map@.len(),
                r@ == spec_conflicts(self.map@, i as int),
            decreases self.map@.len() - i,
        {
            let cs = scripts(&self.map[i].1);
            proof {
                assert(cs@.map_values(|s: Script| s.0).len() == spec_scripts(
                    views_of(self.map@[i as int].1@),
                ).len());
            }
            if cs.len() > 1 {
                r.push(self.map[i].0);
                proof {
                    assert(r@ =~= spec_conflicts(self.map@, i + 1));
                }
            } else {
                proof {
                    assert(r@ =~= spec_conflicts(self.map@, i + 1));
                }
            }
            i = i + 1;
        }
        r
    }

    /// Renders the three diagnostic reports: the whole selection map, the
    /// cross-script conflicts, and the missing stylistic siblings.
    pub fn map_string(&self) -> (r: MapString)
        ensures
            r.all@ == spec_all_str(self.map@, self.map@.len() as int),
            r.conflicts@ == spec_conflicts_str(self.map@, self.map@.len() as int),
            r.missing@ == spec_missing_str(self.map@, self.map@.len() as int),
    {
        let mut all = String::new();
        let mut conflicts = String::new();
        let mut missing = String::new();
        let mut i: usize = 0;
        while i < self.map.len()
            invariant
                i <= self.map@.len(),
                all@ == spec_all_str(self.map@, i as int),
                conflicts@ == spec_conflicts_str(self.map@, i as int),
                missing@ == spec_missing_str(self.map@, i as int),
            decreases self.map@.len() - i,
        {
            let cp = self.map[i].0;
            let fonts = &self.map[i].1;
            let cs = scripts(fonts);
            proof {
                assert(cs@.map_values(|s: Script| s.0).len() == spec_scripts(
                    views_of(self.map@[i as int].1@),
                ).len());
            }
            let entry = render_entry(cp, fonts);
            if fonts.len() > 0 {
                all.append(entry.as_str());
            }
            if cs.len() > 1 {
                conflicts.append(entry.as_str());
            }
            let bad = missing_variants(fonts);
            proof {
                assert(views_of(bad@).len() == spec_missing(
                    views_of(self.map@[i as int].1@),
                ).len());
            }
            if bad.len() > 0 {
                let entry = render_entry(cp, &bad);
                proof {
                    assert(spec_stringify(views_of(bad@)) == spec_stringify(
                        spec_missing(views_of(self.map@[i as int].1@)),
                    ));
                }
                missing.append(entry.as_str());
            }
            proof {
                assert(all@ =~= spec_all_str(self.map@, i + 1));
                assert(conflicts@ =~= spec_conflicts_str(self.map@, i + 1));
                assert(missing@ =~= spec_missing_str(self.map@, i + 1));
            }
            i = i + 1;
        }
        MapString { all, conflicts, missing }
    }
}

/// Renders one report entry for a code point and its names.
fn render_entry(cp: u32, fonts: &Vec<String>) -> (e: String)
    ensures
        e@ == spec_entry_str(cp, spec_stringify(views_of(fonts@))),
{
    let mut entry = hex4(cp);
    entry.append("\n    ");
    let body = stringify_fonts(fonts);
    entry.append(body.as_str());
    entry.append("\n");
    proof {
        assert(entry@ =~= spec_entry_str(cp, spec_stringify(views_of(fonts@))));
    }
    entry
}

/// The file that a special-cased family is filed under; these families do
/// not follow the regular naming scheme.
pub open spec fn spec_special_filename(name: Seq<char>) -> Option<Seq<char>> {
    if name == "Noto Color Emoji"@ {
        Some("NotoColorEmoji.ttf"@)
    } else if name == "Noto Sans ImpAramaic"@ {
        Some("NotoSansImperialAramaic-Regular.ttf"@)
    } else if name == "Noto Sans OldSouArab"@ {
        Some("NotoSansOldSouthArabian-Regular.ttf"@)
    } else if name == "Noto Sans OldNorArab"@ {
        Some("NotoSansOldNorthArabian-Regular.ttf"@)
    } else if name == "Noto Sans InsPahlavi"@ {
        Some("NotoSansInscriptionalPahlavi-Regular.ttf"@)
    } else if name == "Noto Sans PsaPahlavi"@ {
        Some("NotoSansPsalterPahlavi-Regular.ttf"@)
    } else if name == "Noto Sans OldHung"@ {
        Some("NotoSansOldHungarian-Regular.ttf"@)
    } else if name == "Noto Sans Zanabazar"@ {
        Some("NotoSansZanabazarSquare-Regular.ttf"@)
    } else if name == "Noto Sans EgyptHiero"@ {
        Some("NotoSansEgyptianHieroglyphs-Regular.ttf"@)
    } else if name == "Noto Sans AnatoHiero"@ {
        Some("NotoSansAnatolianHieroglyphs-Regular.ttf"@)
    } else {
        None
    }
}

/// The file that a family name is filed under: CJK families name their style
/// word and lowercased region, the special-cased families their fixed file,
/// and every other family its name with spaces and hyphens removed.
pub open spec fn spec_font_filename(name: Seq<char>) -> Seq<char> {
    if spec_contains_substr(name, "CJK"@) && spec_words(name).len() >= 4 {
        "Noto"@ + spec_words(name)[1] + "CJK"@ + spec_ascii_lower(spec_words(name)[3])
            + "-Regular.otf"@
    } else if spec_special_filename(name) is Some {
        spec_special_filename(name)->0
    } else {
        spec_strip_space_hyphen(name) + "-Regular.ttf"@
    }
}

fn special_filename(name: &str) -> (r: Option<String>)
    ensures
        match r {
            Some(f) => spec_special_filename(name@) == Some(f@),
            None => spec_special_filename(name@) is None,
        },
{
    if str_eq(name, "Noto Color Emoji") {
        Some("NotoColorEmoji.ttf".to_owned())
    } else if str_eq(name, "Noto Sans ImpAramaic") {
        Some("NotoSansImperialAramaic-Regular.ttf".to_owned())
    } else if str_eq(name, "Noto Sans OldSouArab") {
        Some("NotoSansOldSouthArabian-Regular.ttf".to_owned())
    } else if str_eq(name, "Noto Sans OldNorArab") {
        Some("NotoSansOldNorthArabian-Regular.ttf".to_owned())
    } else if str_eq(name, "Noto Sans InsPahlavi") {
        Some("NotoSansInscriptionalPahlavi-Regular.ttf".to_owned())
    } else if str_eq(name, "Noto Sans PsaPahlavi") {
        Some("NotoSansPsalterPahlavi-Regular.ttf".to_owned())
    } else if str_eq(name, "Noto Sans OldHung") {
        Some("NotoSansOldHungarian-Regular.ttf".to_owned())
    } else if str_eq(name, "Noto Sans Zanabazar") {
        Some("NotoSansZanabazarSquare-Regular.ttf".to_owned())
    } else if str_eq(name, "Noto Sans EgyptHiero") {
        Some("NotoSansEgyptianHieroglyphs-Regular.ttf".to_owned())
    } else if str_eq(name, "Noto Sans AnatoHiero") {
        Some("NotoSansAnatolianHieroglyphs-Regular.ttf".to_owned())
    } else {
        None
    }
}

/// The file under which a selected family's regular cut is filed.
pub fn font_filename(name: &str) -> (r: String)
    ensures
        r@ == spec_font_filename(name@),
{
    if contains_substr(name, "CJK") {
        let words = split_words(name);
        if words.len() >= 4 {
            let mut f = "Noto".to_owned();
            f.append(words[1].as_str());
            f.append("CJK");
            let low = ascii_lower(words[3].as_str());
            f.append(low.as_str());
            f.append("-Regular.otf");
            proof {
                assert(views_of(words@)[1] == words@[1]@);
                assert(views_of(words@)[3] == words@[3]@);
                assert(f@ =~= spec_font_filename(name@));
            }
            return f;
        }
    }
    match special_filename(name) {
        Some(f) => {
            return f;
        },
        None => {},
    }
    let mut f = strip_space_hyphen(name);
    f.append("-Regular.ttf");
    f
}

/// The index of the first hyphen, or the length where there is none.
pub open spec fn spec_first_dash(s: Seq<char>, i: int) -> int
    decreases s.len() - i,
{
    if i < 0 || i >= s.len() {
        s.len() as int
    } else if s[i] == '-' {
        i
    } else {
        spec_first_dash(s, i + 1)
    }
}

/// The path under which a font file is filed in the family archive: its
/// filename's leading segment, then the hinted TrueType directory, then the
/// filename.
pub fn font_fetch_path(filename: &str) -> (r: String)
    ensures
        r@ == "fonts/"@ + filename@.take(spec_first_dash(filename@, 0)) + "/hinted/ttf/"@
            + filename@,
{
    let n = filename.unicode_len();
    let mut i: usize = 0;
    while i < n && filename.get_char(i) != '-'
        invariant
            i <= n,
            n == filename@.len(),
            spec_first_dash(filename@, 0) == spec_first_dash(filename@, i as int),
        decreases n - i,
    {
        i = i + 1;
    }
    let prefix = filename.substring_char(0, i);
    let mut r = "fonts/".to_owned();
    r.append(prefix);
    r.append("/hinted/ttf/");
    r.append(filename);
    proof {
        assert(r@ =~= "fonts/"@ + filename@.take(spec_first_dash(filename@, 0)) + "/hinted/ttf/"@
            + filename@);
    }
    r
}

/// The spelled-out directory of a CJK region code in the CJK archive.
pub open spec fn spec_region_long(region: Seq<char>) -> Option<Seq<char>> {
    if region == "JP"@ {
        Some("Japanese"@)
    } else if region == "KR"@ {
        Some("Korean"@)
    } else if region == "SC"@ {
        Some("SimplifiedChinese"@)
    } else if region == "TC"@ {
        Some("TraditionalChinese"@)
    } else if region == "HK"@ {
        Some("TraditionalChineseHK"@)
    } else {
        None
    }
}

pub fn cjk_region_long(region: &str) -> (r: Option<&'static str>)
    ensures
        match r {
            Some(l) => spec_region_long(region@) == Some(l@),
            None => spec_region_long(region@) is None,
        },
{
    if str_eq(region, "JP") {
        Some("Japanese")
    } else if str_eq(region, "KR") {
        Some("Korean")
    } else if str_eq(region, "SC") {
        Some("SimplifiedChinese")
    } else if str_eq(region, "TC") {
        Some("TraditionalChinese")
    } else if str_eq(region, "HK") {
        Some("TraditionalChineseHK")
    } else {
        None
    }
}

/// Where a CJK family's file is filed in the CJK archive: the style word,
/// the OpenType directory, the spelled-out region, then the filename; `None`
/// for a name that is not a CJK family of a known region.
pub open spec fn spec_cjk_fallback(name: Seq<char>, filename: Seq<char>) -> Option<Seq<char>> {
    if spec_words(name).len() >= 4 && spec_region_long(spec_words(name)[3]) is Some {
        Some(
            spec_words(name)[1] + "/OTF/"@ + spec_region_long(spec_words(name)[3])->0 + "/"@
                + filename,
        )
    } else {
        None
    }
}

pub fn cjk_fallback_path(name: &str, filename: &str) -> (r: Option<String>)
    ensures
        match r {
            Some(p) => spec_cjk_fallback(name@, filename@) == Some(p@),
            None => spec_cjk_fallback(name@, filename@) is None,
        },
{
    let words = split_words(name);
    if words.len() >= 4 {
        proof {
            assert(views_of(words@)[1] == words@[1]@);
            assert(views_of(words@)[3] == words@[3]@);
        }
        match cjk_region_long(words[3].as_str()) {
            Some(long) => {
                let mut r = words[1].clone();
                r.append("/OTF/");
                r.append(long);
                r.append("/");
                r.append(filename);
                proof {
                    assert(r@ =~= spec_cjk_fallback(name@, filename@)->0);
                }
                Some(r)
            },
            None => None,
        }
    } else {
        None
    }
}

} // verus!
