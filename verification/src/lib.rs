//! Wordsmith: a document-generation library.
//!
//! Markdown content, a theme template and a cover image are assembled into a
//! single HTML document.  The heart of the library is the template-compilation
//! pipeline: an ordered set of text-rewriting passes ("components") that turn
//! raw markdown/HTML containing custom tags (`@assets_path`, `@themes_path`,
//! `@break`, `@info ... @endinfo` and friends) into final HTML, plus the
//! document-assembly logic that stitches theme, cover, margins and content
//! together.

pub mod assets_path;
pub mod break_tag;
pub mod cli;
pub mod components;
pub mod config;
pub mod custom_block_tag;
pub mod error;
pub mod html;
pub mod init;
pub mod markdown;
pub mod paths;
pub mod text;
pub mod themes_path;

pub use assets_path::AssetsPath;
pub use break_tag::BreakTag;
pub use cli::{Cli, Commands};
pub use components::{break_page_html, Component, ComponentArg, Components};
pub use config::{
    Config, CoverConfig, Dimensions, DocumentConfig, PositionValues, RawConfig, RawCover,
    RawDocument, RawPair, RawPosition,
};
pub use custom_block_tag::CustomBlock;
pub use error::WordsmithError;
pub use html::{ContentFile, HtmlGen};
pub use init::Init;
pub use themes_path::ThemesPath;
