//! Computes the minimal set of Noto font families needed to render a piece
//! of text: a block index locates each code point's Unicode block, a
//! block-granular catalog records which font variants support it, and a
//! resolver intersects the candidates with a style configuration to pick the
//! variants needed, assembling a deduplicated family list and diagnostics.

pub mod blocks;
pub mod catalog;
pub mod classify;
pub mod client;
pub mod config;
pub mod resolve;
pub mod sorting;
pub mod stack;
pub mod text;

pub use blocks::BlockEndpoints;
pub use catalog::{BlockData, CodepointFontSupport, NotoizeError};
pub use classify::{
    all_variants, classify, missing_variants, script_of, scripts, ClassificationError, Script,
};
pub use client::NotoizeClient;
pub use config::{
    Adlam, Arabic, Cjk, FontExt, Hebrew, Khitan, Lgc, NotoizeConfig, Nushu, Syriac, ThaiLao,
};
pub use resolve::{select, ResolutionIssue};
pub use stack::{cjk_fallback_path, font_fetch_path, font_filename, Font, FontStack, MapString};
