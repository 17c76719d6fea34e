//! The script classifier: a data-driven table mapping every known font
//! variant literal to a canonical script code. Scripts are numbered by the
//! order in which the catalog declares them; code 0 is the neutral script of
//! the generic styles "Sans", "Serif" and "Sans Mono".

use vstd::prelude::*;
use vstd::relations::total_ordering;
use vstd::seq_lib::lemma_sorted_unique;
use crate::text::{str_eq, ends_with_str};
use crate::sorting::{views_of, spec_dedup, u32_leq, sorted_u32, dedup_u32};

verus! {

/// A canonical script identifier; the catalog's declaration order gives the
/// scripts a total order that is used only for deterministic grouping.
#[derive(Debug, Clone, Copy, PartialEq, Eq, Structural)]
pub struct Script(pub u32);

/// A variant literal that the declared catalog does not know. Catalog data
/// carrying such a literal is malformed and rejected whole.
#[derive(Debug, Clone, PartialEq, Eq)]
pub enum ClassificationError {
    UnknownVariant(String),
}

/// The neutral script of the generic styles.
pub const SCRIPT_NEUTRAL: u32 = 0;

/// Adlam, whose joining is configurable.
pub const SCRIPT_ADLAM: u32 = 1;

/// Arabic, whose style is configurable.
pub const SCRIPT_ARABIC: u32 = 4;

/// CJK, whose region variant is configurable.
pub const SCRIPT_CJK: u32 = 23;

/// Hebrew, whose style is configurable.
pub const SCRIPT_HEBREW: u32 = 48;

/// Khitan Small Script, whose orientation is configurable.
pub const SCRIPT_KHITAN: u32 = 57;

/// Lao, governed by the Thai/Lao family list.
pub const SCRIPT_LAO: u32 = 63;

/// NKo, governed by the Adlam/NKo joining list.
pub const SCRIPT_NKO: u32 = 96;

/// Nushu, whose script form is configurable.
pub const SCRIPT_NUSHU: u32 = 97;

/// Syriac, whose dialect is configurable.
pub const SCRIPT_SYRIAC: u32 = 137;

/// Thai, governed by the Thai/Lao family list.
pub const SCRIPT_THAI: u32 = 150;

/// The views of a runtime table's entries.
pub open spec fn table_view(t: Seq<(String, u32)>) -> Seq<(Seq<char>, u32)> {
    t.map_values(|p: (String, u32)| (p.0@, p.1))
}

pub open spec fn table_chunk0() -> Seq<(Seq<char>, u32)> {
    seq![
        ("Sans"@, 0u32),
        ("Serif"@, 0u32),
        ("Sans Mono"@, 0u32),
        ("Sans Adlam"@, 1u32),
        ("Sans Adlam Unjoined"@, 1u32),
        ("Serif Ahom"@, 2u32),
        ("Sans AnatoHiero"@, 3u32),
        ("Sans Arabic"@, 4u32),
        ("Kufi Arabic"@, 4u32),
        ("Naskh Arabic"@, 4u32),
        ("Nastaliq Urdu"@, 4u32),
        ("Sans Armenian"@, 5u32),
        ("Serif Armenian"@, 5u32),
        ("Sans Avestan"@, 6u32),
        ("Sans Balinese"@, 7u32),
        ("Serif Balinese"@, 7u32),
        ("Sans Bamum"@, 8u32),
        ("Sans Bassa Vah"@, 9u32),
    ]
}

pub open spec fn table_chunk1() -> Seq<(Seq<char>, u32)> {
    seq![
        ("Sans Batak"@, 10u32),
        ("Sans Bengali"@, 11u32),
        ("Serif Bengali"@, 11u32),
        ("Sans Bhaiksuki"@, 12u32),
        ("Sans Brahmi"@, 13u32),
        ("Sans Buginese"@, 14u32),
        ("Sans Buhid"@, 15u32),
        ("Sans Canadian Aboriginal"@, 16u32),
        ("Sans Carian"@, 17u32),
        ("Sans Caucasian Albanian"@, 18u32),
        ("Sans Chakma"@, 19u32),
        ("Sans Cham"@, 20u32),
        ("Sans Cherokee"@, 21u32),
        ("Sans Chorasmian"@, 22u32),
        ("Sans CJK HK"@, 23u32),
        ("Sans CJK JP"@, 23u32),
        ("Sans CJK KR"@, 23u32),
        ("Sans CJK SC"@, 23u32),
    ]
}

pub open spec fn table_chunk2() -> Seq<(Seq<char>, u32)> {
    seq![
        ("Sans CJK TC"@, 23u32),
        ("Sans Coptic"@, 24u32),
        ("Sans Cuneiform"@, 25u32),
        ("Sans Cypriot"@, 26u32),
        ("Sans Cypro Minoan"@, 27u32),
        ("Sans Deseret"@, 28u32),
        ("Sans Devanagari"@, 29u32),
        ("Serif Devanagari"@, 29u32),
        ("Serif Dives Akuru"@, 30u32),
        ("Serif Dogra"@, 31u32),
        ("Sans Duployan"@, 32u32),
        ("Sans EgyptHiero"@, 33u32),
        ("Sans Elbasan"@, 34u32),
        ("Sans Elymaic"@, 35u32),
        ("Color Emoji"@, 36u32),
        ("Sans Ethiopic"@, 37u32),
        ("Serif Ethiopic"@, 37u32),
        ("Sans Georgian"@, 38u32),
    ]
}

pub open spec fn table_chunk3() -> Seq<(Seq<char>, u32)> {
    seq![
        ("Serif Georgian"@, 38u32),
        ("Sans Glagolitic"@, 39u32),
        ("Sans Gothic"@, 40u32),
        ("Sans Grantha"@, 41u32),
        ("Serif Grantha"@, 41u32),
        ("Sans Gujarati"@, 42u32),
        ("Serif Gujarati"@, 42u32),
        ("Sans Gunjala Gondi"@, 43u32),
        ("Sans Gurmukhi"@, 44u32),
        ("Serif Gurmukhi"@, 44u32),
        ("Sans Hanifi Rohingya"@, 45u32),
        ("Sans Hanunoo"@, 46u32),
        ("Sans Hatran"@, 47u32),
        ("Sans Hebrew"@, 48u32),
        ("Serif Hebrew"@, 48u32),
        ("Rashi Hebrew"@, 48u32),
        ("Sans ImpAramaic"@, 49u32),
        ("Sans Indic Siyaq Numbers"@, 50u32),
    ]
}

pub open spec fn table_chunk4() -> Seq<(Seq<char>, u32)> {
    seq![
        ("Sans InsPahlavi"@, 51u32),
        ("Sans Inscriptional Parthian"@, 52u32),
        ("Sans Javanese"@, 53u32),
        ("Sans Kaithi"@, 54u32),
        ("Sans Kannada"@, 55u32),
        ("Serif Kannada"@, 55u32),
        ("Sans Kawi"@, 56u32),
        ("Serif Khitan Small Script"@, 57u32),
        ("Fangsong KSS Rotated"@, 57u32),
        ("Fangsong KSS Vertical"@, 57u32),
        ("Sans Kayah Li"@, 58u32),
        ("Sans Kharoshthi"@, 59u32),
        ("Sans Khmer"@, 60u32),
        ("Serif Khmer"@, 60u32),
        ("Sans Khojki"@, 61u32),
        ("Serif Khojki"@, 61u32),
        ("Sans Khudawadi"@, 62u32),
        ("Sans Lao"@, 63u32),
    ]
}

pub open spec fn table_chunk5() -> Seq<(Seq<char>, u32)> {
    seq![
        ("Sans Lao Looped"@, 63u32),
        ("Serif Lao"@, 63u32),
        ("Sans Lepcha"@, 64u32),
        ("Sans Limbu"@, 65u32),
        ("Sans Linear A"@, 66u32),
        ("Sans Linear B"@, 67u32),
        ("Sans Lisu"@, 68u32),
        ("Sans Lycian"@, 69u32),
        ("Sans Lydian"@, 70u32),
        ("Sans Mahajani"@, 71u32),
        ("Sans Malayalam"@, 72u32),
        ("Serif Malayalam"@, 72u32),
        ("Sans Mandaic"@, 73u32),
        ("Serif Makasar"@, 74u32),
        ("Sans Manichaean"@, 75u32),
        ("Sans Masaram Gondi"@, 76u32),
        ("Sans Marchen"@, 77u32),
        ("Sans Math"@, 78u32),
    ]
}

pub open spec fn table_chunk6() -> Seq<(Seq<char>, u32)> {
    seq![
        ("Sans Mayan Numerals"@, 79u32),
        ("Sans Medefaidrin"@, 80u32),
        ("Sans Meetei Mayek"@, 81u32),
        ("Sans Mende Kikakui"@, 82u32),
        ("Sans Meroitic"@, 83u32),
        ("Sans Miao"@, 84u32),
        ("Sans Modi"@, 85u32),
        ("Sans Mongolian"@, 86u32),
        ("Sans Mro"@, 87u32),
        ("Sans Multani"@, 88u32),
        ("Music"@, 89u32),
        ("Sans Myanmar"@, 90u32),
        ("Serif Myanmar"@, 90u32),
        ("Sans Nabataean"@, 91u32),
        ("Sans Nag Mundari"@, 92u32),
        ("Sans Nandinagari"@, 93u32),
        ("Sans New Tai Lue"@, 94u32),
        ("Sans Newa"@, 95u32),
    ]
}

pub open spec fn table_chunk7() -> Seq<(Seq<char>, u32)> {
    seq![
        ("Sans NKo"@, 96u32),
        ("Sans NKo Unjoined"@, 96u32),
        ("Sans Nushu"@, 97u32),
        ("Traditional Nushu"@, 97u32),
        ("Serif NP Hmong"@, 98u32),
        ("Sans Ogham"@, 99u32),
        ("Sans Ol Chiki"@, 100u32),
        ("Sans OldHung"@, 101u32),
        ("Sans Old Italic"@, 102u32),
        ("Sans OldNorArab"@, 103u32),
        ("Sans Old Permic"@, 104u32),
        ("Sans OldPersian"@, 105u32),
        ("Sans OldSogdian"@, 106u32),
        ("Sans OldSouArab"@, 107u32),
        ("Sans Old Turkic"@, 108u32),
        ("Serif Old Uyghur"@, 109u32),
        ("Sans Oriya"@, 110u32),
        ("Serif Oriya"@, 110u32),
    ]
}

pub open spec fn table_chunk8() -> Seq<(Seq<char>, u32)> {
    seq![
        ("Sans Osage"@, 111u32),
        ("Sans Osmanya"@, 112u32),
        ("Serif Ottoman Siyaq"@, 113u32),
        ("Sans Pahawh Hmong"@, 114u32),
        ("Sans Palmyrene"@, 115u32),
        ("Sans PauCinHau"@, 116u32),
        ("Sans PhagsPa"@, 117u32),
        ("Sans Phoenician"@, 118u32),
        ("Sans PsaPahlavi"@, 119u32),
        ("Sans Rejang"@, 120u32),
        ("Sans Runic"@, 121u32),
        ("Sans Samaritan"@, 122u32),
        ("Sans Saurashtra"@, 123u32),
        ("Sans Sharada"@, 124u32),
        ("Sans Shavian"@, 125u32),
        ("Sans Siddham"@, 126u32),
        ("Sans SignWriting"@, 127u32),
        ("Sans Sinhala"@, 128u32),
    ]
}

pub open spec fn table_chunk9() -> Seq<(Seq<char>, u32)> {
    seq![
        ("Serif Sinhala"@, 128u32),
        ("Sans Sogdian"@, 129u32),
        ("Sans Sora Sompeng"@, 130u32),
        ("Sans Soyombo"@, 131u32),
        ("Sans Sundanese"@, 132u32),
        ("Sans Sunuwar"@, 133u32),
        ("Sans Syloti Nagri"@, 134u32),
        ("Sans Symbols"@, 135u32),
        ("Sans Symbols 2"@, 136u32),
        ("Sans Syriac"@, 137u32),
        ("Sans Syriac Eastern"@, 137u32),
        ("Sans Syriac Western"@, 137u32),
        ("Sans Tamil"@, 138u32),
        ("Serif Tamil"@, 138u32),
        ("Sans Tamil Supplement"@, 139u32),
        ("Sans Tagalog"@, 140u32),
        ("Sans Tagbanwa"@, 141u32),
        ("Sans Tai Le"@, 142u32),
    ]
}

pub open spec fn table_chunk10() -> Seq<(Seq<char>, u32)> {
    seq![
        ("Sans Tai Tham"@, 143u32),
        ("Sans Tai Viet"@, 144u32),
        ("Sans Takri"@, 145u32),
        ("Sans Tangsa"@, 146u32),
        ("Serif Tangut"@, 147u32),
        ("Sans Telugu"@, 148u32),
        ("Serif Telugu"@, 148u32),
        ("Sans Thaana"@, 149u32),
        ("Sans Thai"@, 150u32),
        ("Sans Thai Looped"@, 150u32),
        ("Serif Thai"@, 150u32),
        ("Serif Tibetan"@, 151u32),
        ("Sans Tifinagh"@, 152u32),
        ("Sans Tifinagh APT"@, 152u32),
        ("Sans Tifinagh Adrar"@, 152u32),
        ("Sans Tifinagh Agraw Imazighen"@, 152u32),
        ("Sans Tifinagh Ahaggar"@, 152u32),
        ("Sans Tifinagh Air"@, 152u32),
    ]
}

pub open spec fn table_chunk11() -> Seq<(Seq<char>, u32)> {
    seq![
        ("Sans Tifinagh Azawagh"@, 152u32),
        ("Sans Tifinagh Ghat"@, 152u32),
        ("Sans Tifinagh Hawad"@, 152u32),
        ("Sans Tifinagh Rhissa Ixa"@, 152u32),
        ("Sans Tifinagh SIL"@, 152u32),
        ("Sans Tifinagh Tawellemmet"@, 152u32),
        ("Sans Tirhuta"@, 153u32),
        ("Serif Toto"@, 154u32),
        ("Sans Ugaritic"@, 155u32),
        ("Sans Vai"@, 156u32),
        ("Sans Vithkuqi"@, 157u32),
        ("Serif Vithkuqi"@, 157u32),
        ("Sans Wancho"@, 158u32),
        ("Sans WarangCiti"@, 159u32),
        ("Serif Yezidi"@, 160u32),
        ("Sans Yi"@, 161u32),
        ("Sans Zanabazar"@, 162u32),
        ("Znamenny Musical Notation"@, 163u32),
    ]
}

fn chunk0_vec() -> (r: Vec<(String, u32)>)
    ensures
        table_view(r@) == table_chunk0(),
{
    let mut r: Vec<(String, u32)> = Vec::new();
    r.push(("Sans".to_owned(), 0u32));
    r.push(("Serif".to_owned(), 0u32));
    r.push(("Sans Mono".to_owned(), 0u32));
    r.push(("Sans Adlam".to_owned(), 1u32));
    r.push(("Sans Adlam Unjoined".to_owned(), 1u32));
    r.push(("Serif Ahom".to_owned(), 2u32));
    r.push(("Sans AnatoHiero".to_owned(), 3u32));
    r.push(("Sans Arabic".to_owned(), 4u32));
    r.push(("Kufi Arabic".to_owned(), 4u32));
    r.push(("Naskh Arabic".to_owned(), 4u32));
    r.push(("Nastaliq Urdu".to_owned(), 4u32));
    r.push(("Sans Armenian".to_owned(), 5u32));
    r.push(("Serif Armenian".to_owned(), 5u32));
    r.push(("Sans Avestan".to_owned(), 6u32));
    r.push(("Sans Balinese".to_owned(), 7u32));
    r.push(("Serif Balinese".to_owned(), 7u32));
    r.push(("Sans Bamum".to_owned(), 8u32));
    r.push(("Sans Bassa Vah".to_owned(), 9u32));
    proof {
        assert(table_view(r@) =~= table_chunk0());
    }
    r
}

fn chunk1_vec() -> (r: Vec<(String, u32)>)
    ensures
        table_view(r@) == table_chunk1(),
{
    let mut r: Vec<(String, u32)> = Vec::new();
    r.push(("Sans Batak".to_owned(), 10u32));
    r.push(("Sans Bengali".to_owned(), 11u32));
    r.push(("Serif Bengali".to_owned(), 11u32));
    r.push(("Sans Bhaiksuki".to_owned(), 12u32));
    r.push(("Sans Brahmi".to_owned(), 13u32));
    r.push(("Sans Buginese".to_owned(), 14u32));
    r.push(("Sans Buhid".to_owned(), 15u32));
    r.push(("Sans Canadian Aboriginal".to_owned(), 16u32));
    r.push(("Sans Carian".to_owned(), 17u32));
    r.push(("Sans Caucasian Albanian".to_owned(), 18u32));
    r.push(("Sans Chakma".to_owned(), 19u32));
    r.push(("Sans Cham".to_owned(), 20u32));
    r.push(("Sans Cherokee".to_owned(), 21u32));
    r.push(("Sans Chorasmian".to_owned(), 22u32));
    r.push(("Sans CJK HK".to_owned(), 23u32));
    r.push(("Sans CJK JP".to_owned(), 23u32));
    r.push(("Sans CJK KR".to_owned(), 23u32));
    r.push(("Sans CJK SC".to_owned(), 23u32));
    proof {
        assert(table_view(r@) =~= table_chunk1());
    }
    r
}

fn chunk2_vec() -> (r: Vec<(String, u32)>)
    ensures
        table_view(r@) == table_chunk2(),
{
    let mut r: Vec<(String, u32)> = Vec::new();
    r.push(("Sans CJK TC".to_owned(), 23u32));
    r.push(("Sans Coptic".to_owned(), 24u32));
    r.push(("Sans Cuneiform".to_owned(), 25u32));
    r.push(("Sans Cypriot".to_owned(), 26u32));
    r.push(("Sans Cypro Minoan".to_owned(), 27u32));
    r.push(("Sans Deseret".to_owned(), 28u32));
    r.push(("Sans Devanagari".to_owned(), 29u32));
    r.push(("Serif Devanagari".to_owned(), 29u32));
    r.push(("Serif Dives Akuru".to_owned(), 30u32));
    r.push(("Serif Dogra".to_owned(), 31u32));
    r.push(("Sans Duployan".to_owned(), 32u32));
    r.push(("Sans EgyptHiero".to_owned(), 33u32));
    r.push(("Sans Elbasan".to_owned(), 34u32));
    r.push(("Sans Elymaic".to_owned(), 35u32));
    r.push(("Color Emoji".to_owned(), 36u32));
    r.push(("Sans Ethiopic".to_owned(), 37u32));
    r.push(("Serif Ethiopic".to_owned(), 37u32));
    r.push(("Sans Georgian".to_owned(), 38u32));
    proof {
        assert(table_view(r@) =~= table_chunk2());
    }
    r
}

fn chunk3_vec() -> (r: Vec<(String, u32)>)
    ensures
        table_view(r@) == table_chunk3(),
{
    let mut r: Vec<(String, u32)> = Vec::new();
    r.push(("Serif Georgian".to_owned(), 38u32));
    r.push(("Sans Glagolitic".to_owned(), 39u32));
    r.push(("Sans Gothic".to_owned(), 40u32));
    r.push(("Sans Grantha".to_owned(), 41u32));
    r.push(("Serif Grantha".to_owned(), 41u32));
    r.push(("Sans Gujarati".to_owned(), 42u32));
    r.push(("Serif Gujarati".to_owned(), 42u32));
    r.push(("Sans Gunjala Gondi".to_owned(), 43u32));
    r.push(("Sans Gurmukhi".to_owned(), 44u32));
    r.push(("Serif Gurmukhi".to_owned(), 44u32));
    r.push(("Sans Hanifi Rohingya".to_owned(), 45u32));
    r.push(("Sans Hanunoo".to_owned(), 46u32));
    r.push(("Sans Hatran".to_owned(), 47u32));
    r.push(("Sans Hebrew".to_owned(), 48u32));
    r.push(("Serif Hebrew".to_owned(), 48u32));
    r.push(("Rashi Hebrew".to_owned(), 48u32));
    r.push(("Sans ImpAramaic".to_owned(), 49u32));
    r.push(("Sans Indic Siyaq Numbers".to_owned(), 50u32));
    proof {
        assert(table_view(r@) =~= table_chunk3());
    }
    r
}

fn chunk4_vec() -> (r: Vec<(String, u32)>)
    ensures
        table_view(r@) == table_chunk4(),
{
    let mut r: Vec<(String, u32)> = Vec::new();
    r.push(("Sans InsPahlavi".to_owned(), 51u32));
    r.push(("Sans Inscriptional Parthian".to_owned(), 52u32));
    r.push(("Sans Javanese".to_owned(), 53u32));
    r.push(("Sans Kaithi".to_owned(), 54u32));
    r.push(("Sans Kannada".to_owned(), 55u32));
    r.push(("Serif Kannada".to_owned(), 55u32));
    r.push(("Sans Kawi".to_owned(), 56u32));
    r.push(("Serif Khitan Small Script".to_owned(), 57u32));
    r.push(("Fangsong KSS Rotated".to_owned(), 57u32));
    r.push(("Fangsong KSS Vertical".to_owned(), 57u32));
    r.push(("Sans Kayah Li".to_owned(), 58u32));
    r.push(("Sans Kharoshthi".to_owned(), 59u32));
    r.push(("Sans Khmer".to_owned(), 60u32));
    r.push(("Serif Khmer".to_owned(), 60u32));
    r.push(("Sans Khojki".to_owned(), 61u32));
    r.push(("Serif Khojki".to_owned(), 61u32));
    r.push(("Sans Khudawadi".to_owned(), 62u32));
    r.push(("Sans Lao".to_owned(), 63u32));
    proof {
        assert(table_view(r@) =~= table_chunk4());
    }
    r
}

fn chunk5_vec() -> (r: Vec<(String, u32)>)
    ensures
        table_view(r@) == table_chunk5(),
{
    let mut r: Vec<(String, u32)> = Vec::new();
    r.push(("Sans Lao Looped".to_owned(), 63u32));
    r.push(("Serif Lao".to_owned(), 63u32));
    r.push(("Sans Lepcha".to_owned(), 64u32));
    r.push(("Sans Limbu".to_owned(), 65u32));
    r.push(("Sans Linear A".to_owned(), 66u32));
    r.push(("Sans Linear B".to_owned(), 67u32));
    r.push(("Sans Lisu".to_owned(), 68u32));
    r.push(("Sans Lycian".to_owned(), 69u32));
    r.push(("Sans Lydian".to_owned(), 70u32));
    r.push(("Sans Mahajani".to_owned(), 71u32));
    r.push(("Sans Malayalam".to_owned(), 72u32));
    r.push(("Serif Malayalam".to_owned(), 72u32));
    r.push(("Sans Mandaic".to_owned(), 73u32));
    r.push(("Serif Makasar".to_owned(), 74u32));
    r.push(("Sans Manichaean".to_owned(), 75u32));
    r.push(("Sans Masaram Gondi".to_owned(), 76u32));
    r.push(("Sans Marchen".to_owned(), 77u32));
    r.push(("Sans Math".to_owned(), 78u32));
    proof {
        assert(table_view(r@) =~= table_chunk5());
    }
    r
}

fn chunk6_vec() -> (r: Vec<(String, u32)>)
    ensures
        table_view(r@) == table_chunk6(),
{
    let mut r: Vec<(String, u32)> = Vec::new();
    r.push(("Sans Mayan Numerals".to_owned(), 79u32));
    r.push(("Sans Medefaidrin".to_owned(), 80u32));
    r.push(("Sans Meetei Mayek".to_owned(), 81u32));
    r.push(("Sans Mende Kikakui".to_owned(), 82u32));
    r.push(("Sans Meroitic".to_owned(), 83u32));
    r.push(("Sans Miao".to_owned(), 84u32));
    r.push(("Sans Modi".to_owned(), 85u32));
    r.push(("Sans Mongolian".to_owned(), 86u32));
    r.push(("Sans Mro".to_owned(), 87u32));
    r.push(("Sans Multani".to_owned(), 88u32));
    r.push(("Music".to_owned(), 89u32));
    r.push(("Sans Myanmar".to_owned(), 90u32));
    r.push(("Serif Myanmar".to_owned(), 90u32));
    r.push(("Sans Nabataean".to_owned(), 91u32));
    r.push(("Sans Nag Mundari".to_owned(), 92u32));
    r.push(("Sans Nandinagari".to_owned(), 93u32));
    r.push(("Sans New Tai Lue".to_owned(), 94u32));
    r.push(("Sans Newa".to_owned(), 95u32));
    proof {
        assert(table_view(r@) =~= table_chunk6());
    }
    r
}

fn chunk7_vec() -> (r: Vec<(String, u32)>)
    ensures
        table_view(r@) == table_chunk7(),
{
    let mut r: Vec<(String, u32)> = Vec::new();
    r.push(("Sans NKo".to_owned(), 96u32));
    r.push(("Sans NKo Unjoined".to_owned(), 96u32));
    r.push(("Sans Nushu".to_owned(), 97u32));
    r.push(("Traditional Nushu".to_owned(), 97u32));
    r.push(("Serif NP Hmong".to_owned(), 98u32));
    r.push(("Sans Ogham".to_owned(), 99u32));
    r.push(("Sans Ol Chiki".to_owned(), 100u32));
    r.push(("Sans OldHung".to_owned(), 101u32));
    r.push(("Sans Old Italic".to_owned(), 102u32));
    r.push(("Sans OldNorArab".to_owned(), 103u32));
    r.push(("Sans Old Permic".to_owned(), 104u32));
    r.push(("Sans OldPersian".to_owned(), 105u32));
    r.push(("Sans OldSogdian".to_owned(), 106u32));
    r.push(("Sans OldSouArab".to_owned(), 107u32));
    r.push(("Sans Old Turkic".to_owned(), 108u32));
    r.push(("Serif Old Uyghur".to_owned(), 109u32));
    r.push(("Sans Oriya".to_owned(), 110u32));
    r.push(("Serif Oriya".to_owned(), 110u32));
    proof {
        assert(table_view(r@) =~= table_chunk7());
    }
    r
}

fn chunk8_vec() -> (r: Vec<(String, u32)>)
    ensures
        table_view(r@) == table_chunk8(),
{
    let mut r: Vec<(String, u32)> = Vec::new();
    r.push(("Sans Osage".to_owned(), 111u32));
    r.push(("Sans Osmanya".to_owned(), 112u32));
    r.push(("Serif Ottoman Siyaq".to_owned(), 113u32));
    r.push(("Sans Pahawh Hmong".to_owned(), 114u32));
    r.push(("Sans Palmyrene".to_owned(), 115u32));
    r.push(("Sans PauCinHau".to_owned(), 116u32));
    r.push(("Sans PhagsPa".to_owned(), 117u32));
    r.push(("Sans Phoenician".to_owned(), 118u32));
    r.push(("Sans PsaPahlavi".to_owned(), 119u32));
    r.push(("Sans Rejang".to_owned(), 120u32));
    r.push(("Sans Runic".to_owned(), 121u32));
    r.push(("Sans Samaritan".to_owned(), 122u32));
    r.push(("Sans Saurashtra".to_owned(), 123u32));
    r.push(("Sans Sharada".to_owned(), 124u32));
    r.push(("Sans Shavian".to_owned(), 125u32));
    r.push(("Sans Siddham".to_owned(), 126u32));
    r.push(("Sans SignWriting".to_owned(), 127u32));
    r.push(("Sans Sinhala".to_owned(), 128u32));
    proof {
        assert(table_view(r@) =~= table_chunk8());
    }
    r
}

fn chunk9_vec() -> (r: Vec<(String, u32)>)
    ensures
        table_view(r@) == table_chunk9(),
{
    let mut r: Vec<(String, u32)> = Vec::new();
    r.push(("Serif Sinhala".to_owned(), 128u32));
    r.push(("Sans Sogdian".to_owned(), 129u32));
    r.push(("Sans Sora Sompeng".to_owned(), 130u32));
    r.push(("Sans Soyombo".to_owned(), 131u32));
    r.push(("Sans Sundanese".to_owned(), 132u32));
    r.push(("Sans Sunuwar".to_owned(), 133u32));
    r.push(("Sans Syloti Nagri".to_owned(), 134u32));
    r.push(("Sans Symbols".to_owned(), 135u32));
    r.push(("Sans Symbols 2".to_owned(), 136u32));
    r.push(("Sans Syriac".to_owned(), 137u32));
    r.push(("Sans Syriac Eastern".to_owned(), 137u32));
    r.push(("Sans Syriac Western".to_owned(), 137u32));
    r.push(("Sans Tamil".to_owned(), 138u32));
    r.push(("Serif Tamil".to_owned(), 138u32));
    r.push(("Sans Tamil Supplement".to_owned(), 139u32));
    r.push(("Sans Tagalog".to_owned(), 140u32));
    r.push(("Sans Tagbanwa".to_owned(), 141u32));
    r.push(("Sans Tai Le".to_owned(), 142u32));
    proof {
        assert(table_view(r@) =~= table_chunk9());
    }
    r
}

fn chunk10_vec() -> (r: Vec<(String, u32)>)
    ensures
        table_view(r@) == table_chunk10(),
{
    let mut r: Vec<(String, u32)> = Vec::new();
    r.push(("Sans Tai Tham".to_owned(), 143u32));
    r.push(("Sans Tai Viet".to_owned(), 144u32));
    r.push(("Sans Takri".to_owned(), 145u32));
    r.push(("Sans Tangsa".to_owned(), 146u32));
    r.push(("Serif Tangut".to_owned(), 147u32));
    r.push(("Sans Telugu".to_owned(), 148u32));
    r.push(("Serif Telugu".to_owned(), 148u32));
    r.push(("Sans Thaana".to_owned(), 149u32));
    r.push(("Sans Thai".to_owned(), 150u32));
    r.push(("Sans Thai Looped".to_owned(), 150u32));
    r.push(("Serif Thai".to_owned(), 150u32));
    r.push(("Serif Tibetan".to_owned(), 151u32));
    r.push(("Sans Tifinagh".to_owned(), 152u32));
    r.push(("Sans Tifinagh APT".to_owned(), 152u32));
    r.push(("Sans Tifinagh Adrar".to_owned(), 152u32));
    r.push(("Sans Tifinagh Agraw Imazighen".to_owned(), 152u32));
    r.push(("Sans Tifinagh Ahaggar".to_owned(), 152u32));
    r.push(("Sans Tifinagh Air".to_owned(), 152u32));
    proof {
        assert(table_view(r@) =~= table_chunk10());
    }
    r
}

fn chunk11_vec() -> (r: Vec<(String, u32)>)
    ensures
        table_view(r@) == table_chunk11(),
{
    let mut r: Vec<(String, u32)> = Vec::new();
    r.push(("Sans Tifinagh Azawagh".to_owned(), 152u32));
    r.push(("Sans Tifinagh Ghat".to_owned(), 152u32));
    r.push(("Sans Tifinagh Hawad".to_owned(), 152u32));
    r.push(("Sans Tifinagh Rhissa Ixa".to_owned(), 152u32));
    r.push(("Sans Tifinagh SIL".to_owned(), 152u32));
    r.push(("Sans Tifinagh Tawellemmet".to_owned(), 152u32));
    r.push(("Sans Tirhuta".to_owned(), 153u32));
    r.push(("Serif Toto".to_owned(), 154u32));
    r.push(("Sans Ugaritic".to_owned(), 155u32));
    r.push(("Sans Vai".to_owned(), 156u32));
    r.push(("Sans Vithkuqi".to_owned(), 157u32));
    r.push(("Serif Vithkuqi".to_owned(), 157u32));
    r.push(("Sans Wancho".to_owned(), 158u32));
    r.push(("Sans WarangCiti".to_owned(), 159u32));
    r.push(("Serif Yezidi".to_owned(), 160u32));
    r.push(("Sans Yi".to_owned(), 161u32));
    r.push(("Sans Zanabazar".to_owned(), 162u32));
    r.push(("Znamenny Musical Notation".to_owned(), 163u32));
    proof {
        assert(table_view(r@) =~= table_chunk11());
    }
    r
}

pub open spec fn spec_variant_table() -> Seq<(Seq<char>, u32)> {
    table_chunk0() + table_chunk1() + table_chunk2() + table_chunk3() + table_chunk4() + table_chunk5() + table_chunk6() + table_chunk7() + table_chunk8() + table_chunk9() + table_chunk10() + table_chunk11()
}

/// The full declared variant catalog, in declaration order.
pub fn variant_table() -> (r: Vec<(String, u32)>)
    ensures
        table_view(r@) == spec_variant_table(),
{
    let mut r = chunk0_vec();
    let mut c1 = chunk1_vec();
    r.append(&mut c1);
    proof {
        assert(table_view(r@) =~= table_chunk0() + table_chunk1());
    }
    let mut c2 = chunk2_vec();
    r.append(&mut c2);
    proof {
        assert(table_view(r@) =~= table_chunk0() + table_chunk1() + table_chunk2());
    }
    let mut c3 = chunk3_vec();
    r.append(&mut c3);
    proof {
        assert(table_view(r@) =~= table_chunk0() + table_chunk1() + table_chunk2() + table_chunk3());
    }
    let mut c4 = chunk4_vec();
    r.append(&mut c4);
    proof {
        assert(table_view(r@) =~= table_chunk0() + table_chunk1() + table_chunk2() + table_chunk3() + table_chunk4());
    }
    let mut c5 = chunk5_vec();
    r.append(&mut c5);
    proof {
        assert(table_view(r@) =~= table_chunk0() + table_chunk1() + table_chunk2() + table_chunk3() + table_chunk4() + table_chunk5());
    }
    let mut c6 = chunk6_vec();
    r.append(&mut c6);
    proof {
        assert(table_view(r@) =~= table_chunk0() + table_chunk1() + table_chunk2() + table_chunk3() + table_chunk4() + table_chunk5() + table_chunk6());
    }
    let mut c7 = chunk7_vec();
    r.append(&mut c7);
    proof {
        assert(table_view(r@) =~= table_chunk0() + table_chunk1() + table_chunk2() + table_chunk3() + table_chunk4() + table_chunk5() + table_chunk6() + table_chunk7());
    }
    let mut c8 = chunk8_vec();
    r.append(&mut c8);
    proof {
        assert(table_view(r@) =~= table_chunk0() + table_chunk1() + table_chunk2() + table_chunk3() + table_chunk4() + table_chunk5() + table_chunk6() + table_chunk7() + table_chunk8());
    }
    let mut c9 = chunk9_vec();
    r.append(&mut c9);
    proof {
        assert(table_view(r@) =~= table_chunk0() + table_chunk1() + table_chunk2() + table_chunk3() + table_chunk4() + table_chunk5() + table_chunk6() + table_chunk7() + table_chunk8() + table_chunk9());
    }
    let mut c10 = chunk10_vec();
    r.append(&mut c10);
    proof {
        assert(table_view(r@) =~= table_chunk0() + table_chunk1() + table_chunk2() + table_chunk3() + table_chunk4() + table_chunk5() + table_chunk6() + table_chunk7() + table_chunk8() + table_chunk9() + table_chunk10());
    }
    let mut c11 = chunk11_vec();
    r.append(&mut c11);
    proof {
        assert(table_view(r@) =~= table_chunk0() + table_chunk1() + table_chunk2() + table_chunk3() + table_chunk4() + table_chunk5() + table_chunk6() + table_chunk7() + table_chunk8() + table_chunk9() + table_chunk10() + table_chunk11());
    }
    r
}
/// First-match lookup of a variant literal in the declared table.
pub open spec fn table_lookup(t: Seq<(Seq<char>, u32)>, key: Seq<char>) -> Option<u32>
    decreases t.len(),
{
    if t.len() == 0 {
        None
    } else if t[0].0 == key {
        Some(t[0].1)
    } else {
        table_lookup(t.drop_first(), key)
    }
}

/// What `classify` returns: the script code of the first table entry whose
/// literal is the given name, or nothing for a name outside the catalog.
pub open spec fn spec_classify(name: Seq<char>) -> Option<u32> {
    table_lookup(spec_variant_table(), name)
}

/// A variant name with a trailing interface or display marker stripped.
pub open spec fn base_view(s: Seq<char>) -> Seq<char> {
    if " UI"@.is_suffix_of(s) {
        s.take(s.len() - " UI"@.len())
    } else if " Display"@.is_suffix_of(s) {
        s.take(s.len() - " Display"@.len())
    } else {
        s
    }
}

/// Classification of a possibly marker-suffixed name: the script of its base.
pub open spec fn spec_script_of(name: Seq<char>) -> Option<u32> {
    spec_classify(base_view(name))
}

proof fn lemma_lookup_skip(t: Seq<(Seq<char>, u32)>, key: Seq<char>, i: int)
    requires
        0 <= i <= t.len(),
        forall|j: int| 0 <= j < i ==> (#[trigger] t[j]).0 != key,
    ensures
        table_lookup(t, key) == table_lookup(t.skip(i), key),
    decreases i,
{
    if i > 0 {
        assert(t[0].0 != key);
        assert forall|j: int| 0 <= j < i - 1 implies (#[trigger] t.drop_first()[j]).0 != key by {
            assert(t[j + 1].0 != key);
        }
        lemma_lookup_skip(t.drop_first(), key, i - 1);
        assert(t.drop_first().skip(i - 1) =~= t.skip(i));
    } else {
        assert(t.skip(0) =~= t);
    }
}

proof fn lemma_lookup_present(t: Seq<(Seq<char>, u32)>, key: Seq<char>)
    requires
        exists|j: int| 0 <= j < t.len() && (#[trigger] t[j]).0 == key,
    ensures
        table_lookup(t, key) is Some,
    decreases t.len(),
{
    let j = choose|j: int| 0 <= j < t.len() && (#[trigger] t[j]).0 == key;
    if t[0].0 == key {
    } else {
        assert(t.drop_first()[j - 1].0 == key);
        lemma_lookup_present(t.drop_first(), key);
    }
}

/// Exhaustiveness of the classifier over its own declared catalog: every
/// declared variant literal classifies to a script; an unknown-variant
/// outcome can only come from a name outside the catalog.
pub proof fn lemma_catalog_exhaustive(i: int)
    requires
        0 <= i < spec_variant_table().len(),
    ensures
        spec_classify(spec_variant_table()[i].0) is Some,
{
    lemma_lookup_present(spec_variant_table(), spec_variant_table()[i].0);
}

/// Strips a trailing " UI" or " Display" marker, if any.
pub fn base_name<'a>(s: &'a str) -> (r: &'a str)
    ensures
        r@ == base_view(s@),
{
    let ui = " UI";
    let disp = " Display";
    if ends_with_str(s, ui) {
        let n = ui.unicode_len();
        let r = s.substring_char(0, s.unicode_len() - n);
        proof {
            assert(r@ =~= base_view(s@));
        }
        r
    } else if ends_with_str(s, disp) {
        let n = disp.unicode_len();
        let r = s.substring_char(0, s.unicode_len() - n);
        proof {
            assert(r@ =~= base_view(s@));
        }
        r
    } else {
        s
    }
}

/// Maps a variant literal to its canonical script; a literal absent from the
/// declared catalog is a data-integrity error, not a silent fallback.
pub fn classify(name: &str) -> (r: Result<Script, ClassificationError>)
    ensures
        r is Ok <==> spec_classify(name@) is Some,
        r is Ok ==> Some((r->Ok_0).0) == spec_classify(name@),
        r is Err ==> (r->Err_0)->UnknownVariant_0@ == name@,
{
    let table = variant_table();
    let n = table.len();
    let mut i: usize = 0;
    while i < n
        invariant
            n == table@.len(),
            table_view(table@) == spec_variant_table(),
            forall|j: int| 0 <= j < i ==> (#[trigger] table_view(table@)[j]).0 != name@,
        decreases n - i,
    {
        if str_eq(table[i].0.as_str(), name) {
            proof {
                lemma_lookup_skip(spec_variant_table(), name@, i as int);
                assert(spec_variant_table().skip(i as int)[0] == table_view(table@)[i as int]);
            }
            return Ok(Script(table[i].1));
        }
        proof {
            assert(table_view(table@)[i as int].0 == table@[i as int].0@);
        }
        i = i + 1;
    }
    proof {
        lemma_lookup_skip(spec_variant_table(), name@, n as int);
        assert(spec_variant_table().skip(n as int).len() == 0);
    }
    Err(ClassificationError::UnknownVariant(name.to_owned()))
}

/// The script of a name after stripping a trailing UI/Display marker; `None`
/// for a name whose base the catalog does not know.
pub fn script_of(name: &str) -> (r: Option<Script>)
    ensures
        r is Some <==> spec_script_of(name@) is Some,
        r is Some ==> Some((r->0).0) == spec_script_of(name@),
{
    match classify(base_name(name)) {
        Ok(s) => Some(s),
        Err(_) => None,
    }
}

/// Every variant literal of the declared catalog, in declaration order.
pub open spec fn spec_all_variants() -> Seq<Seq<char>> {
    spec_variant_table().map_values(|p: (Seq<char>, u32)| p.0)
}

pub fn all_variants() -> (r: Vec<String>)
    ensures
        views_of(r@) == spec_all_variants(),
{
    let table = variant_table();
    let mut r: Vec<String> = Vec::new();
    let mut i: usize = 0;
    while i < table.len()
        invariant
            table_view(table@) == spec_variant_table(),
            i <= table@.len(),
            r@.len() == i,
            forall|j: int| 0 <= j < i ==> r@[j]@ == spec_all_variants()[j],
        decreases table@.len() - i,
    {
        let v = table[i].0.clone();
        proof {
            assert(table_view(table@)[i as int].0 == table@[i as int].0@);
        }
        r.push(v);
        i = i + 1;
    }
    proof {
        assert(views_of(r@) =~= spec_all_variants());
    }
    r
}

/// The script codes of the classifiable names, in order.
pub open spec fn spec_codes_of(names: Seq<Seq<char>>) -> Seq<u32>
    decreases names.len(),
{
    if names.len() == 0 {
        Seq::empty()
    } else {
        spec_codes_of(names.drop_last()) + match spec_script_of(names.last()) {
            Some(c) => seq![c],
            None => Seq::<u32>::empty(),
        }
    }
}

/// The distinct scripts that a list of font names spans, in ascending script
/// order; names outside the catalog contribute nothing.
pub open spec fn spec_scripts(names: Seq<Seq<char>>) -> Seq<u32> {
    spec_dedup(spec_codes_of(names).sort_by(u32_leq()))
}

pub fn scripts(fonts: &Vec<String>) -> (r: Vec<Script>)
    ensures
        r@.map_values(|s: Script| s.0) == spec_scripts(views_of(fonts@)),
{
    let mut codes: Vec<u32> = Vec::new();
    let mut i: usize = 0;
    while i < fonts.len()
        invariant
            i <= fonts@.len(),
            codes@ == spec_codes_of(views_of(fonts@).take(i as int)),
        decreases fonts@.len() - i,
    {
        match script_of(fonts[i].as_str()) {
            Some(s) => { codes.push(s.0); },
            None => {},
        }
        proof {
            assert(views_of(fonts@).take(i + 1).drop_last() =~= views_of(fonts@).take(i as int));
            assert(views_of(fonts@).take(i + 1).last() == fonts@[i as int]@);
        }
        i = i + 1;
    }
    proof {
        assert(views_of(fonts@).take(fonts@.len() as int) =~= views_of(fonts@));
    }
    let sorted = sorted_u32(codes);
    proof {
        assert(total_ordering(u32_leq()));
        spec_codes_of(views_of(fonts@)).lemma_sort_by_ensures(u32_leq());
        lemma_sorted_unique(sorted@, spec_codes_of(views_of(fonts@)).sort_by(u32_leq()), u32_leq());
    }
    let dd = dedup_u32(sorted);
    let mut r: Vec<Script> = Vec::new();
    let mut i: usize = 0;
    while i < dd.len()
        invariant
            i <= dd@.len(),
            r@.len() == i,
            forall|j: int| 0 <= j < i ==> r@[j].0 == dd@[j],
        decreases dd@.len() - i,
    {
        r.push(Script(dd[i]));
        i = i + 1;
    }
    proof {
        assert(r@.map_values(|s: Script| s.0) =~= dd@);
    }
    r
}

/// Does the name list select script `c` while leaving the literal `k` out?
pub open spec fn spec_missing_entry(k: Seq<char>, c: u32, names: Seq<Seq<char>>) -> bool {
    (exists|q: int| 0 <= q < names.len() && spec_script_of(#[trigger] names[q]) == Some(c))
        && !names.contains(k)
}

pub open spec fn spec_missing_from(t: Seq<(Seq<char>, u32)>, names: Seq<Seq<char>>) -> Seq<
    Seq<char>,
>
    decreases t.len(),
{
    if t.len() == 0 {
        Seq::empty()
    } else {
        spec_missing_from(t.drop_last(), names) + if spec_missing_entry(
            t.last().0,
            t.last().1,
            names,
        ) {
            seq![t.last().0]
        } else {
            Seq::<Seq<char>>::empty()
        }
    }
}

/// The stylistic siblings that a selection leaves out: every declared
/// variant of a script that the selection touches, minus the selection.
pub open spec fn spec_missing(names: Seq<Seq<char>>) -> Seq<Seq<char>> {
    spec_missing_from(spec_variant_table(), names)
}

pub fn missing_variants(fonts: &Vec<String>) -> (r: Vec<String>)
    ensures
        views_of(r@) == spec_missing(views_of(fonts@)),
{
    let table = variant_table();
    let mut r: Vec<String> = Vec::new();
    let mut i: usize = 0;
    while i < table.len()
        invariant
            table_view(table@) == spec_variant_table(),
            i <= table@.len(),
            views_of(r@) == spec_missing_from(
                spec_variant_table().take(i as int),
                views_of(fonts@),
            ),
        decreases table@.len() - i,
    {
        let c = table[i].1;
        let mut has = false;
        let mut j: usize = 0;
        while j < fonts.len()
            invariant
                j <= fonts@.len(),
                has <==> (exists|q: int|
                    0 <= q < j && spec_script_of(#[trigger] views_of(fonts@)[q]) == Some(c)),
            decreases fonts@.len() - j,
        {
            match script_of(fonts[j].as_str()) {
                Some(s) => {
                    if s.0 == c {
                        has = true;
                        proof {
                            assert(spec_script_of(views_of(fonts@)[j as int]) == Some(c));
                        }
                    }
                },
                None => {},
            }
            proof {
                assert(views_of(fonts@)[j as int] == fonts@[j as int]@);
            }
            j = j + 1;
        }
        let mut present = false;
        let mut j2: usize = 0;
        while j2 < fonts.len()
            invariant
                j2 <= fonts@.len(),
                i < table@.len(),
                table_view(table@) == spec_variant_table(),
                present <==> (exists|q: int|
                    0 <= q < j2 && #[trigger] views_of(fonts@)[q] == table@[i as int].0@),
            decreases fonts@.len() - j2,
        {
            if str_eq(fonts[j2].as_str(), table[i].0.as_str()) {
                present = true;
                proof {
                    assert(views_of(fonts@)[j2 as int] == table@[i as int].0@);
                }
            }
            proof {
                assert(views_of(fonts@)[j2 as int] == fonts@[j2 as int]@);
            }
            j2 = j2 + 1;
        }
        if has && !present {
            r.push(table[i].0.clone());
        }
        proof {
            let tv = spec_variant_table();
            let names = views_of(fonts@);
            assert(tv.take(i + 1).drop_last() =~= tv.take(i as int));
            assert(tv.take(i + 1).last() == table_view(table@)[i as int]);
            assert(table_view(table@)[i as int].0 == table@[i as int].0@);
            assert(table_view(table@)[i as int].1 == table@[i as int].1);
            assert(names.contains(table@[i as int].0@) <==> (exists|q: int|
                0 <= q < names.len() && #[trigger] names[q] == table@[i as int].0@));
            assert(views_of(r@) =~= spec_missing_from(tv.take(i + 1), names));
        }
        i = i + 1;
    }
    proof {
        assert(spec_variant_table().take(spec_variant_table().len() as int) =~= spec_variant_table());
    }
    r
}

} // verus!
