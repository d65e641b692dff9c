//! The build configuration: title, authors, document dimensions and margins,
//! and the cover block.
//!
//! Numeric fields are carried as already-formatted decimal numerals (the text
//! that is interpolated into the generated CSS), so the library speaks of
//! them exactly.  A [`RawConfig`] holds what a configuration source supplied,
//! each field optional; [`Config::from_raw`] applies the documented defaults
//! and validates the one mandatory block: a missing `cover` block is a hard
//! error, and so is a `cover` block without a usable `file` entry.

use vstd::prelude::*;

use crate::error::WordsmithError;

verus! {

/// A width and a height in millimetres, as decimal numerals.
#[derive(Debug, Clone)]
pub struct Dimensions(String, String);

impl View for Dimensions {
    type V = (Seq<char>, Seq<char>);

    closed spec fn view(&self) -> (Seq<char>, Seq<char>) {
        (self.0@, self.1@)
    }
}

impl Dimensions {
    /// A pair of lengths.
    pub fn new(width: String, height: String) -> (r: Self)
        ensures
            r@ == (width@, height@),
    {
        Dimensions(width, height)
    }

    /// The width and the height.
    pub fn get_values(&self) -> (r: (String, String))
        ensures
            (r.0@, r.1@) == self@,
    {
        (self.0.clone(), self.1.clone())
    }
}

impl Default for Dimensions {
    /// Zero by zero.
    fn default() -> (r: Self)
        ensures
            r@ == ("0"@, "0"@),
    {
        Dimensions(String::from_str("0"), String::from_str("0"))
    }
}

/// Four side offsets (left, top, right, bottom) in millimetres, as decimal
/// numerals.
#[derive(Debug, Clone)]
pub struct PositionValues(String, String, String, String);

impl View for PositionValues {
    type V = (Seq<char>, Seq<char>, Seq<char>, Seq<char>);

    closed spec fn view(&self) -> (Seq<char>, Seq<char>, Seq<char>, Seq<char>) {
        (self.0@, self.1@, self.2@, self.3@)
    }
}

impl PositionValues {
    /// Left, top, right and bottom offsets.
    pub fn new(left: String, top: String, right: String, bottom: String) -> (r: Self)
        ensures
            r@ == (left@, top@, right@, bottom@),
    {
        PositionValues(left, top, right, bottom)
    }

    /// The left, top, right and bottom offsets.
    pub fn get_values(&self) -> (r: (String, String, String, String))
        ensures
            (r.0@, r.1@, r.2@, r.3@) == self@,
    {
        (self.0.clone(), self.1.clone(), self.2.clone(), self.3.clone())
    }
}

impl Default for PositionValues {
    /// Zero on every side.
    fn default() -> (r: Self)
        ensures
            r@ == ("0"@, "0"@, "0"@, "0"@),
    {
        PositionValues(
            String::from_str("0"),
            String::from_str("0"),
            String::from_str("0"),
            String::from_str("0"),
        )
    }
}

/// Cover page configuration.
#[derive(Debug, Clone)]
pub struct CoverConfig {
    /// Cover image filename.
    pub filename: String,
    /// Cover dimensions.
    pub dimension: Dimensions,
    /// Position of the cover.
    pub position: PositionValues,
}

impl Default for CoverConfig {
    /// No filename, zero dimensions and offsets.
    fn default() -> (r: Self)
        ensures
            r.filename@ == Seq::<char>::empty(),
            r.dimension@ == ("0"@, "0"@),
            r.position@ == ("0"@, "0"@, "0"@, "0"@),
    {
        CoverConfig {
            filename: String::new(),
            dimension: Dimensions::default(),
            position: PositionValues::default(),
        }
    }
}

/// Document dimensions and margins.
#[derive(Debug, Clone)]
pub struct DocumentConfig {
    /// Document dimensions.
    pub dimensions: Dimensions,
    /// Document margins.
    pub margins: PositionValues,
}

impl Default for DocumentConfig {
    /// Zero dimensions and margins.
    fn default() -> (r: Self)
        ensures
            r.dimensions@ == ("0"@, "0"@),
            r.margins@ == ("0"@, "0"@, "0"@, "0"@),
    {
        DocumentConfig { dimensions: Dimensions::default(), margins: PositionValues::default() }
    }
}

/// The loaded project configuration, immutable for the whole build.
#[derive(Debug, Clone)]
pub struct Config {
    /// The exported document title.
    pub title: String,
    /// Document configurations - margins, dimensions.
    pub document: DocumentConfig,
    /// Cover page configuration.
    pub cover: CoverConfig,
    /// List of authors.
    pub authors: Option<Vec<String>>,
}

impl Default for Config {
    /// Empty title and authors, zero dimensions, no cover image.
    fn default() -> (r: Self)
        ensures
            r.title@ == Seq::<char>::empty(),
            r.document.dimensions@ == ("0"@, "0"@),
            r.document.margins@ == ("0"@, "0"@, "0"@, "0"@),
            r.cover.filename@ == Seq::<char>::empty(),
            r.cover.dimension@ == ("0"@, "0"@),
            r.cover.position@ == ("0"@, "0"@, "0"@, "0"@),
            r.authors is None,
    {
        Config {
            title: String::new(),
            document: DocumentConfig::default(),
            cover: CoverConfig::default(),
            authors: None,
        }
    }
}

/// Four optional side offsets, as a configuration source supplied them.
#[derive(Debug, Clone)]
pub struct RawPosition {
    pub left: Option<String>,
    pub top: Option<String>,
    pub right: Option<String>,
    pub bottom: Option<String>,
}

/// An optional pair of lengths, as a configuration source supplied them.
#[derive(Debug, Clone)]
pub struct RawPair {
    pub first: Option<String>,
    pub second: Option<String>,
}

/// The `document` block of a configuration source.
#[derive(Debug, Clone)]
pub struct RawDocument {
    pub dimensions: Option<RawPair>,
    pub margins: Option<RawPosition>,
}

/// The `cover` block of a configuration source.
#[derive(Debug, Clone)]
pub struct RawCover {
    pub file: Option<String>,
    pub dimensions: Option<RawPair>,
    pub position: Option<RawPosition>,
}

/// Everything a configuration source supplied, each field optional.
#[derive(Debug, Clone)]
pub struct RawConfig {
    pub title: Option<String>,
    pub authors: Option<Vec<String>>,
    pub document: Option<RawDocument>,
    pub cover: Option<RawCover>,
}

/// The supplied text, or the default.
pub open spec fn opt_text(v: Option<String>, d: Seq<char>) -> Seq<char> {
    match v {
        Some(s) => s@,
        None => d,
    }
}

/// Side offsets default to 0 each; a missing block means 0 on every side.
pub open spec fn position_view(p: Option<RawPosition>) -> (
    Seq<char>,
    Seq<char>,
    Seq<char>,
    Seq<char>,
) {
    match p {
        Some(q) => (
            opt_text(q.left, "0"@),
            opt_text(q.top, "0"@),
            opt_text(q.right, "0"@),
            opt_text(q.bottom, "0"@),
        ),
        None => ("0"@, "0"@, "0"@, "0"@),
    }
}

/// Inside a supplied pair the fallbacks are 21 and 29; a missing pair means
/// zero by zero.
pub open spec fn pair_view(p: Option<RawPair>) -> (Seq<char>, Seq<char>) {
    match p {
        Some(q) => (opt_text(q.first, "21"@), opt_text(q.second, "29"@)),
        None => ("0"@, "0"@),
    }
}

/// The supplied text, or the default.
fn opt_or(v: &Option<String>, d: &str) -> (r: String)
    ensures
        r@ == opt_text(*v, d@),
{
    match v {
        Some(s) => s.clone(),
        None => String::from_str(d),
    }
}

/// Side offsets of a configuration source, defaults applied.
fn position_from(p: &Option<RawPosition>) -> (r: PositionValues)
    ensures
        r@ == position_view(*p),
{
    match p {
        Some(q) => PositionValues::new(
            opt_or(&q.left, "0"),
            opt_or(&q.top, "0"),
            opt_or(&q.right, "0"),
            opt_or(&q.bottom, "0"),
        ),
        None => PositionValues::default(),
    }
}

/// A pair of lengths of a configuration source, defaults applied.
fn pair_from(p: &Option<RawPair>) -> (r: Dimensions)
    ensures
        r@ == pair_view(*p),
{
    match p {
        Some(q) => Dimensions::new(opt_or(&q.first, "21"), opt_or(&q.second, "29")),
        None => Dimensions::default(),
    }
}

impl Config {
    /// An empty configuration: what a build uses when no configuration file
    /// exists at all.
    pub fn new() -> (r: Self)
        ensures
            r.title@ == Seq::<char>::empty(),
            r.document.dimensions@ == ("0"@, "0"@),
            r.document.margins@ == ("0"@, "0"@, "0"@, "0"@),
            r.cover.filename@ == Seq::<char>::empty(),
            r.cover.dimension@ == ("0"@, "0"@),
            r.cover.position@ == ("0"@, "0"@, "0"@, "0"@),
            r.authors is None,
    {
        Config::default()
    }

    /// Build the configuration from what a source supplied, applying the
    /// documented defaults.  The `cover` block is mandatory, and so is its
    /// `file` entry: exactly on those inputs the build is refused, before any
    /// content is processed.
    pub fn from_raw(raw: RawConfig) -> (r: Result<Config, WordsmithError>)
        ensures
            r is Ok <==> (raw.cover matches Some(c) && c.file is Some),
            raw.cover is None ==> r == Err::<Config, WordsmithError>(
                WordsmithError::ConfigCoverNotDefined,
            ),
            (raw.cover matches Some(c) && c.file is None) ==> r == Err::<Config, WordsmithError>(
                WordsmithError::ConfigCoverFileIsInvalid,
            ),
            r matches Ok(cfg) ==> {
                &&& cfg.title@ == opt_text(raw.title, "Default title"@)
                &&& cfg.authors == raw.authors
                &&& cfg.document.dimensions@ == pair_view(
                    match raw.document {
                        Some(d) => d.dimensions,
                        None => None,
                    },
                )
                &&& cfg.document.margins@ == position_view(
                    match raw.document {
                        Some(d) => d.margins,
                        None => None,
                    },
                )
                &&& raw.cover matches Some(c) && c.file matches Some(f) && cfg.cover.filename@
                    == f@ && cfg.cover.dimension@ == pair_view(c.dimensions)
                    && cfg.cover.position@ == position_view(c.position)
            },
    {
        let cover = match &raw.cover {
            None => {
                return Err(WordsmithError::ConfigCoverNotDefined);
            },
            Some(c) => c,
        };
        let filename = match &cover.file {
            None => {
                return Err(WordsmithError::ConfigCoverFileIsInvalid);
            },
            Some(f) => f.clone(),
        };
        let cover_config = CoverConfig {
            filename,
            dimension: pair_from(&cover.dimensions),
            position: position_from(&cover.position),
        };
        let document = match &raw.document {
            Some(d) => DocumentConfig {
                dimensions: pair_from(&d.dimensions),
                margins: position_from(&d.margins),
            },
            None => DocumentConfig::default(),
        };
        Ok(
            Config {
                title: opt_or(&raw.title, "Default title"),
                document,
                cover: cover_config,
                authors: raw.authors,
            },
        )
    }
}

} // verus!
