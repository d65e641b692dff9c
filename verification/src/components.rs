//! The component pipeline: an ordered set of text-rewriting passes.
//!
//! Each [`Component`] rewrites one tag pattern in a text buffer.  The
//! pipeline's stage set is a closed, compile-time list applied strictly in
//! the order break, custom block, assets path, themes path; output of each
//! stage feeds the next.

use vstd::prelude::*;

use crate::assets_path::{assets_marker, AssetsPath};
use crate::break_tag::{break_marker, BreakTag};
use crate::custom_block_tag::{custom_block_spec, CustomBlock};
use crate::error::WordsmithError;
use crate::text::{replace_all_spec, str_eq};
use crate::themes_path::{themes_marker, ThemesPath};

verus! {

/// HTML used to create page breaks.
pub open spec fn break_page_html_spec() -> Seq<char> {
    "<div style=\"page-break-after: always;\"></div>"@
}

/// HTML used to create page breaks.
pub fn break_page_html() -> (r: &'static str)
    ensures
        r@ == break_page_html_spec(),
{
    "<div style=\"page-break-after: always;\"></div>"
}

/// One text-substitution rule operating on a marker pattern.
///
/// `spec_compile` is the rule itself; `compile` carries it out, reporting a
/// closing-tag mismatch (the only failure any rule knows) as
/// [`WordsmithError::InvalidComponentClosingTag`].
pub trait Component {
    /// What the rule rewrites `input` to, or the mismatched pair of opening
    /// kind and raw closing-tag text on which it fails.
    spec fn spec_compile(&self, input: Seq<char>) -> Result<Seq<char>, (Seq<char>, Seq<char>)>;

    /// Rewrite `input` by this rule.
    fn compile(&self, input: &str) -> (r: Result<String, WordsmithError>)
        ensures
            match self.spec_compile(input@) {
                Ok(t) => r matches Ok(s) && s@ == t,
                Err((opened, closed)) => r matches Err(
                    WordsmithError::InvalidComponentClosingTag(a, b),
                ) && a@ == opened && b@ == closed,
            },
    ;
}

/// A runtime argument of the pipeline, keyed by name.
#[derive(Debug, Clone)]
pub enum ComponentArg {
    String(String),
}

/// The text a [`ComponentArg`] holds.
pub open spec fn arg_text(a: ComponentArg) -> Seq<char> {
    match a {
        ComponentArg::String(s) => s@,
    }
}

/// The value stored under `key`, or empty text when no entry carries it.
pub open spec fn lookup_arg(args: Seq<(Seq<char>, Seq<char>)>, key: Seq<char>) -> Seq<char>
    decreases args.len(),
{
    if args.len() == 0 {
        Seq::empty()
    } else if args[0].0 == key {
        args[0].1
    } else {
        lookup_arg(args.drop_first(), key)
    }
}

/// The ordered list of tag components plus their runtime arguments (resolved
/// asset/theme directory paths).  Stateless between calls: each `compile_*`
/// invocation is independent.
#[derive(Debug, Clone)]
pub struct Components {
    args: Vec<(String, ComponentArg)>,
}

impl View for Components {
    type V = Seq<(Seq<char>, Seq<char>)>;

    closed spec fn view(&self) -> Seq<(Seq<char>, Seq<char>)> {
        self.args@.map_values(|p: (String, ComponentArg)| (p.0@, arg_text(p.1)))
    }
}

impl Components {
    /// Register the pipeline with its named arguments.
    pub fn new(args: Vec<(String, ComponentArg)>) -> (r: Self)
        ensures
            r@ == args@.map_values(|p: (String, ComponentArg)| (p.0@, arg_text(p.1))),
    {
        Self { args }
    }

    /// Return the string value stored under `key` in the list of arguments.
    /// If the argument does not exist return an empty string.
    pub fn get_string_arg(&self, key: &str) -> (r: String)
        ensures
            r@ == lookup_arg(self@, key@),
    {
        let n = self.args.len();
        let mut idx: usize = 0;
        proof {
            assert(self@.skip(0) =~= self@);
        }
        while idx < n
            invariant
                0 <= idx <= n,
                n == self.args.len(),
                self@ == self.args@.map_values(
                    |p: (String, ComponentArg)| (p.0@, arg_text(p.1)),
                ),
                lookup_arg(self@, key@) == lookup_arg(self@.skip(idx as int), key@),
            decreases n - idx,
        {
            proof {
                assert(self@.skip(idx as int)[0] == self@[idx as int]);
            }
            if str_eq(self.args[idx].0.as_str(), key) {
                let ComponentArg::String(value) = &self.args[idx].1;
                return value.clone();
            }
            proof {
                assert(self@.skip(idx as int).drop_first() =~= self@.skip(idx + 1));
            }
            idx = idx + 1;
        }
        proof {
            assert(self@.skip(idx as int).len() == 0);
        }
        String::new()
    }

    /// Replace every `@themes_path` marker by the configured themes path.
    pub fn compile_tag_themes_path(&self, input: &str) -> (r: Result<String, WordsmithError>)
        ensures
            r matches Ok(s) && s@ == replace_all_spec(
                input@,
                themes_marker(),
                lookup_arg(self@, "themes_path"@),
            ),
    {
        let path = self.get_string_arg("themes_path");
        ThemesPath::new(path).compile(input)
    }

    /// Replace every `@assets_path` marker by the configured assets path.
    pub fn compile_tag_assets_path(&self, input: &str) -> (r: Result<String, WordsmithError>)
        ensures
            r matches Ok(s) && s@ == replace_all_spec(
                input@,
                assets_marker(),
                lookup_arg(self@, "assets_path"@),
            ),
    {
        let path = self.get_string_arg("assets_path");
        AssetsPath::new(path).compile(input)
    }

    /// Replace every `@break` marker by the page-break markup.
    pub fn compile_break_tag(&self, input: &str) -> (r: Result<String, WordsmithError>)
        ensures
            r matches Ok(s) && s@ == replace_all_spec(
                input@,
                break_marker(),
                break_page_html_spec(),
            ),
    {
        BreakTag::new().compile(input)
    }

    /// Rewrite every custom block, or report the first mismatched pair of
    /// opening kind and raw closing-tag text.
    pub fn compile_custom_block(&self, input: &str) -> (r: Result<String, WordsmithError>)
        ensures
            match custom_block_spec(input@) {
                Ok(t) => r matches Ok(s) && s@ == t,
                Err((opened, closed)) => r matches Err(
                    WordsmithError::InvalidComponentClosingTag(a, b),
                ) && a@ == opened && b@ == closed,
            },
    {
        CustomBlock::new().compile(input)
    }

    /// Apply every component strictly in sequence — break, custom block,
    /// assets path, themes path — each stage's output feeding the next; the
    /// first component failure aborts the whole compilation.  The stage set
    /// is a closed, compile-time list, so no unknown stage can ever appear.
    pub fn compile_all(&self, input: &str) -> (r: Result<String, WordsmithError>)
        ensures
            match compile_all_spec(
                input@,
                lookup_arg(self@, "assets_path"@),
                lookup_arg(self@, "themes_path"@),
            ) {
                Ok(t) => r matches Ok(s) && s@ == t,
                Err((opened, closed)) => r matches Err(
                    WordsmithError::InvalidComponentClosingTag(a, b),
                ) && a@ == opened && b@ == closed,
            },
    {
        let broke = match self.compile_break_tag(input) {
            Ok(v) => v,
            Err(e) => return Err(e),
        };
        let blocked = match self.compile_custom_block(broke.as_str()) {
            Ok(v) => v,
            Err(e) => return Err(e),
        };
        let with_assets = match self.compile_tag_assets_path(blocked.as_str()) {
            Ok(v) => v,
            Err(e) => return Err(e),
        };
        match self.compile_tag_themes_path(with_assets.as_str()) {
            Ok(v) => Ok(v),
            Err(e) => Err(e),
        }
    }
}

/// What the whole pipeline rewrites `input` to: break markers first, then
/// custom blocks, then the assets-path marker, then the themes-path marker —
/// in that exact order.  Path substitution is idempotent and
/// order-insensitive, the earlier stages are not, so the order is
/// significant.
pub open spec fn compile_all_spec(input: Seq<char>, assets: Seq<char>, themes: Seq<char>) -> Result<
    Seq<char>,
    (Seq<char>, Seq<char>),
> {
    match custom_block_spec(replace_all_spec(input, break_marker(), break_page_html_spec())) {
        Ok(blocked) => Ok(
            replace_all_spec(
                replace_all_spec(blocked, assets_marker(), assets),
                themes_marker(),
                themes,
            ),
        ),
        Err(e) => Err(e),
    }
}

} // verus!
