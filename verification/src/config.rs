//! Style configuration: one ordered preference list per script family that
//! offers a stylistic choice, and global tie-break switches. The resolver
//! tries each list in order and takes the first preference a code point's
//! candidates can satisfy.

use vstd::prelude::*;
use crate::client::NotoizeClient;

verus! {

/// Font file container format, used when font binaries are retrieved.
#[derive(Debug, Clone, Copy, PartialEq, Eq, Structural)]
pub enum FontExt {
    Ttf,
    Otf,
}

/// Preference for the generic Latin/Greek/Cyrillic styles, and the
/// serif-versus-sans choice for script families without a dedicated list.
#[derive(Debug, Clone, Copy, PartialEq, Eq, Structural)]
pub enum Lgc {
    Sans,
    Serif,
    Mono,
}

/// Adlam and NKo joining preference.
#[derive(Debug, Clone, Copy, PartialEq, Eq, Structural)]
pub enum Adlam {
    Unjoined,
    Joined,
}

/// Arabic style preference.
#[derive(Debug, Clone, Copy, PartialEq, Eq, Structural)]
pub enum Arabic {
    Sans,
    Kufi,
    Naskh,
    Nastaliq,
}

/// Hebrew style preference.
#[derive(Debug, Clone, Copy, PartialEq, Eq, Structural)]
pub enum Hebrew {
    Sans,
    Serif,
    Rashi,
}

/// Khitan Small Script orientation preference.
#[derive(Debug, Clone, Copy, PartialEq, Eq, Structural)]
pub enum Khitan {
    Serif,
    Rotated,
    Vertical,
}

/// Nushu script form preference.
#[derive(Debug, Clone, Copy, PartialEq, Eq, Structural)]
pub enum Nushu {
    Sans,
    Traditional,
}

/// Syriac dialect preference.
#[derive(Debug, Clone, Copy, PartialEq, Eq, Structural)]
pub enum Syriac {
    Sans,
    Eastern,
    Western,
}

/// Thai and Lao looped-versus-loopless-versus-serif preference; one list
/// governs both scripts of the family.
#[derive(Debug, Clone, Copy, PartialEq, Eq, Structural)]
pub enum ThaiLao {
    Sans,
    SansLooped,
    Serif,
}

/// CJK region variant preference.
#[derive(Debug, Clone, Copy, PartialEq, Eq, Structural)]
pub enum Cjk {
    Hk,
    Jp,
    Kr,
    Sc,
    Tc,
}

pub open spec fn spec_lgc_tag(l: Lgc) -> Seq<char> {
    match l {
        Lgc::Sans => "lgc_sans"@,
        Lgc::Serif => "lgc_serif"@,
        Lgc::Mono => "lgc_mono"@,
    }
}

pub open spec fn spec_adlam_tag(a: Adlam) -> Seq<char> {
    match a {
        Adlam::Unjoined => "adlam_unjoined"@,
        Adlam::Joined => "adlam_joined"@,
    }
}

impl Lgc {
    /// The configuration tag naming this preference.
    pub fn to_string(&self) -> (r: String)
        ensures
            r@ == spec_lgc_tag(*self),
    {
        match self {
            Lgc::Sans => "lgc_sans".to_owned(),
            Lgc::Serif => "lgc_serif".to_owned(),
            Lgc::Mono => "lgc_mono".to_owned(),
        }
    }
}

impl Adlam {
    /// The configuration tag naming this preference.
    pub fn to_string(&self) -> (r: String)
        ensures
            r@ == spec_adlam_tag(*self),
    {
        match self {
            Adlam::Unjoined => "adlam_unjoined".to_owned(),
            Adlam::Joined => "adlam_joined".to_owned(),
        }
    }
}

/// The variant literal that a preference asks for, per script family.
pub open spec fn spec_lgc_literal(l: Lgc) -> Seq<char> {
    match l {
        Lgc::Sans => "Sans"@,
        Lgc::Serif => "Serif"@,
        Lgc::Mono => "Sans Mono"@,
    }
}

pub open spec fn spec_adlam_literal(a: Adlam) -> Seq<char> {
    match a {
        Adlam::Unjoined => "Sans Adlam Unjoined"@,
        Adlam::Joined => "Sans Adlam"@,
    }
}

pub open spec fn spec_nko_literal(a: Adlam) -> Seq<char> {
    match a {
        Adlam::Unjoined => "Sans NKo Unjoined"@,
        Adlam::Joined => "Sans NKo"@,
    }
}

pub open spec fn spec_arabic_literal(a: Arabic) -> Seq<char> {
    match a {
        Arabic::Sans => "Sans Arabic"@,
        Arabic::Kufi => "Kufi Arabic"@,
        Arabic::Naskh => "Naskh Arabic"@,
        Arabic::Nastaliq => "Nastaliq Urdu"@,
    }
}

pub open spec fn spec_hebrew_literal(h: Hebrew) -> Seq<char> {
    match h {
        Hebrew::Sans => "Sans Hebrew"@,
        Hebrew::Serif => "Serif Hebrew"@,
        Hebrew::Rashi => "Rashi Hebrew"@,
    }
}

pub open spec fn spec_khitan_literal(k: Khitan) -> Seq<char> {
    match k {
        Khitan::Serif => "Serif Khitan Small Script"@,
        Khitan::Rotated => "Fangsong KSS Rotated"@,
        Khitan::Vertical => "Fangsong KSS Vertical"@,
    }
}

pub open spec fn spec_nushu_literal(n: Nushu) -> Seq<char> {
    match n {
        Nushu::Sans => "Sans Nushu"@,
        Nushu::Traditional => "Traditional Nushu"@,
    }
}

pub open spec fn spec_syriac_literal(s: Syriac) -> Seq<char> {
    match s {
        Syriac::Sans => "Sans Syriac"@,
        Syriac::Eastern => "Sans Syriac Eastern"@,
        Syriac::Western => "Sans Syriac Western"@,
    }
}

pub open spec fn spec_thai_literal(t: ThaiLao) -> Seq<char> {
    match t {
        ThaiLao::Sans => "Sans Thai"@,
        ThaiLao::SansLooped => "Sans Thai Looped"@,
        ThaiLao::Serif => "Serif Thai"@,
    }
}

pub open spec fn spec_lao_literal(t: ThaiLao) -> Seq<char> {
    match t {
        ThaiLao::Sans => "Sans Lao"@,
        ThaiLao::SansLooped => "Sans Lao Looped"@,
        ThaiLao::Serif => "Serif Lao"@,
    }
}

pub open spec fn spec_cjk_literal(c: Cjk) -> Seq<char> {
    match c {
        Cjk::Hk => "Sans CJK HK"@,
        Cjk::Jp => "Sans CJK JP"@,
        Cjk::Kr => "Sans CJK KR"@,
        Cjk::Sc => "Sans CJK SC"@,
        Cjk::Tc => "Sans CJK TC"@,
    }
}

/// The user-facing style policy: per-family preference lists, tried in list
/// order, and the global tie-break switches.
#[derive(Debug, Clone)]
pub struct NotoizeConfig {
    pub font_ext: Vec<FontExt>,
    pub lgc: Vec<Lgc>,
    pub adlam: Vec<Adlam>,
    pub arabic: Vec<Arabic>,
    pub hebrew: Vec<Hebrew>,
    pub khitan: Vec<Khitan>,
    pub nushu: Vec<Nushu>,
    pub syriac: Vec<Syriac>,
    pub thai: Vec<ThaiLao>,
    pub cjk: Vec<Cjk>,
    /// Prefer the interface ("UI") or display variant of a family when both
    /// it and the plain variant support a code point.
    pub prefer_ui: bool,
    /// Between "Sans Math" and "Sans Symbols", take the math face.
    pub prefer_math: bool,
    /// Where both a generic style and a CJK region variant support a code
    /// point, consider the CJK variant instead of the generic glyphs.
    pub prefer_cjk: bool,
    /// Prefer a variant already selected for earlier text over the stated
    /// style preference, keeping the stack small.
    pub reuse_existing: bool,
}

impl NotoizeConfig {
    /// A sans-flavored default policy: every family list holds its single
    /// sans-most preference, the tie-breaks are off, and reuse of
    /// already-selected variants is on.
    pub fn new_sans(ext: Vec<FontExt>) -> (r: NotoizeConfig)
        ensures
            r.font_ext == ext,
            r.lgc@ == seq![Lgc::Sans],
            r.adlam@ == seq![Adlam::Unjoined],
            r.arabic@ == seq![Arabic::Sans],
            r.hebrew@ == seq![Hebrew::Sans],
            r.khitan@ == seq![Khitan::Serif],
            r.nushu@ == seq![Nushu::Sans],
            r.syriac@ == seq![Syriac::Sans],
            r.thai@ == seq![ThaiLao::Sans],
            r.cjk@ == seq![Cjk::Sc],
            !r.prefer_ui && !r.prefer_math && !r.prefer_cjk,
            r.reuse_existing,
    {
        NotoizeConfig {
            font_ext: ext,
            lgc: vec![Lgc::Sans],
            adlam: vec![Adlam::Unjoined],
            arabic: vec![Arabic::Sans],
            hebrew: vec![Hebrew::Sans],
            khitan: vec![Khitan::Serif],
            nushu: vec![Nushu::Sans],
            syriac: vec![Syriac::Sans],
            thai: vec![ThaiLao::Sans],
            cjk: vec![Cjk::Sc],
            prefer_ui: false,
            prefer_math: false,
            prefer_cjk: false,
            reuse_existing: true,
        }
    }

    /// The configuration tags of the generic-style and Adlam lists, in list
    /// order.
    pub fn to_string_vec(&self) -> (r: Vec<String>)
        ensures
            crate::sorting::views_of(r@) == self.lgc@.map_values(|x: Lgc| spec_lgc_tag(x))
                + self.adlam@.map_values(|x: Adlam| spec_adlam_tag(x)),
    {
        let mut v: Vec<String> = Vec::new();
        let mut i: usize = 0;
        while i < self.lgc.len()
            invariant
                i <= self.lgc@.len(),
                v@.len() == i,
                forall|j: int| 0 <= j < i ==> v@[j]@ == spec_lgc_tag(self.lgc@[j]),
            decreases self.lgc@.len() - i,
        {
            v.push(self.lgc[i].to_string());
            i = i + 1;
        }
        let ghost nl = self.lgc@.len() as int;
        let mut k: usize = 0;
        while k < self.adlam.len()
            invariant
                k <= self.adlam@.len(),
                nl == self.lgc@.len(),
                v@.len() == nl + k,
                forall|j: int| 0 <= j < nl ==> v@[j]@ == spec_lgc_tag(self.lgc@[j]),
                forall|j: int| 0 <= j < k ==> v@[nl + j]@ == spec_adlam_tag(self.adlam@[j]),
            decreases self.adlam@.len() - k,
        {
            v.push(self.adlam[k].to_string());
            k = k + 1;
        }
        proof {
            assert(crate::sorting::views_of(v@) =~= self.lgc@.map_values(
                |x: Lgc| spec_lgc_tag(x),
            ) + self.adlam@.map_values(|x: Adlam| spec_adlam_tag(x)));
        }
        v
    }
}

impl NotoizeClient {
    /// Replaces the generic-style preference list, leaving everything else
    /// of the client as it stands.
    pub fn lgc(self, lgc: Vec<Lgc>) -> (r: Self)
        ensures
            r.blocks == self.blocks,
            r.font_support == self.font_support,
            r.loaded == self.loaded,
            r.config.lgc == lgc,
            r.config.font_ext == self.config.font_ext,
            r.config.adlam == self.config.adlam,
            r.config.arabic == self.config.arabic,
            r.config.hebrew == self.config.hebrew,
            r.config.khitan == self.config.khitan,
            r.config.nushu == self.config.nushu,
            r.config.syriac == self.config.syriac,
            r.config.thai == self.config.thai,
            r.config.cjk == self.config.cjk,
            r.config.prefer_ui == self.config.prefer_ui,
            r.config.prefer_math == self.config.prefer_math,
            r.config.prefer_cjk == self.config.prefer_cjk,
            r.config.reuse_existing == self.config.reuse_existing,
    {
        let NotoizeClient { blocks, font_support, loaded, config } = self;
        let NotoizeConfig {
            font_ext,
            lgc: _,
            adlam,
            arabic,
            hebrew,
            khitan,
            nushu,
            syriac,
            thai,
            cjk,
            prefer_ui,
            prefer_math,
            prefer_cjk,
            reuse_existing,
        } = config;
        NotoizeClient {
            blocks,
            font_support,
            loaded,
            config: NotoizeConfig {
                font_ext,
                lgc,
                adlam,
                arabic,
                hebrew,
                khitan,
                nushu,
                syriac,
                thai,
                cjk,
                prefer_ui,
                prefer_math,
                prefer_cjk,
                reuse_existing,
            },
        }
    }

    /// Replaces the Adlam/NKo preference list, leaving everything else of
    /// the client as it stands.
    pub fn adlam(self, adlam: Vec<Adlam>) -> (r: Self)
        ensures
            r.blocks == self.blocks,
            r.font_support == self.font_support,
            r.loaded == self.loaded,
            r.config.adlam == adlam,
            r.config.font_ext == self.config.font_ext,
            r.config.lgc == self.config.lgc,
            r.config.arabic == self.config.arabic,
            r.config.hebrew == self.config.hebrew,
            r.config.khitan == self.config.khitan,
            r.config.nushu == self.config.nushu,
            r.config.syriac == self.config.syriac,
            r.config.thai == self.config.thai,
            r.config.cjk == self.config.cjk,
            r.config.prefer_ui == self.config.prefer_ui,
            r.config.prefer_math == self.config.prefer_math,
            r.config.prefer_cjk == self.config.prefer_cjk,
            r.config.reuse_existing == self.config.reuse_existing,
    {
        let NotoizeClient { blocks, font_support, loaded, config } = self;
        let NotoizeConfig {
            font_ext,
            lgc,
            adlam: _,
            arabic,
            hebrew,
            khitan,
            nushu,
            syriac,
            thai,
            cjk,
            prefer_ui,
            prefer_math,
            prefer_cjk,
            reuse_existing,
        } = config;
        NotoizeClient {
            blocks,
            font_support,
            loaded,
            config: NotoizeConfig {
                font_ext,
                lgc,
                adlam,
                arabic,
                hebrew,
                khitan,
                nushu,
                syriac,
                thai,
                cjk,
                prefer_ui,
                prefer_math,
                prefer_cjk,
                reuse_existing,
            },
        }
    }

    /// Replaces the Arabic preference list, leaving everything else of the
    /// client as it stands.
    pub fn arabic(self, arabic: Vec<Arabic>) -> (r: Self)
        ensures
            r.blocks == self.blocks,
            r.font_support == self.font_support,
            r.loaded == self.loaded,
            r.config.arabic == arabic,
            r.config.font_ext == self.config.font_ext,
            r.config.lgc == self.config.lgc,
            r.config.adlam == self.config.adlam,
            r.config.hebrew == self.config.hebrew,
            r.config.khitan == self.config.khitan,
            r.config.nushu == self.config.nushu,
            r.config.syriac == self.config.syriac,
            r.config.thai == self.config.thai,
            r.config.cjk == self.config.cjk,
            r.config.prefer_ui == self.config.prefer_ui,
            r.config.prefer_math == self.config.prefer_math,
            r.config.prefer_cjk == self.config.prefer_cjk,
            r.config.reuse_existing == self.config.reuse_existing,
    {
        let NotoizeClient { blocks, font_support, loaded, config } = self;
        let NotoizeConfig {
            font_ext,
            lgc,
            adlam,
            arabic: _,
            hebrew,
            khitan,
            nushu,
            syriac,
            thai,
            cjk,
            prefer_ui,
            prefer_math,
            prefer_cjk,
            reuse_existing,
        } = config;
        NotoizeClient {
            blocks,
            font_support,
            loaded,
            config: NotoizeConfig {
                font_ext,
                lgc,
                adlam,
                arabic,
                hebrew,
                khitan,
                nushu,
                syriac,
                thai,
                cjk,
                prefer_ui,
                prefer_math,
                prefer_cjk,
                reuse_existing,
            },
        }
    }
}

impl Default for NotoizeClient {
    /// A client with an empty index, an empty catalog and the sans-flavored
    /// default configuration.
    fn default() -> (r: NotoizeClient)
        ensures
            r.wf(),
            r.blocks@.len() == 0,
            r.font_support@.len() == 0,
            r.loaded@.len() == 0,
            crate::client::spec_default_config(r.config),
    {
        NotoizeClient {
            blocks: Vec::new(),
            font_support: Vec::new(),
            loaded: Vec::new(),
            config: NotoizeConfig::new_sans(Vec::new()),
        }
    }
}

} // verus!
