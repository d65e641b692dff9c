//! Page-break substitution: rewrites the literal marker `@break` to a fixed
//! page-break HTML snippet.  Pure literal-string substitution, no parameters.

use vstd::prelude::*;

use crate::components::{break_page_html, break_page_html_spec, Component};
use crate::error::WordsmithError;
use crate::text::{contains_pat, lemma_replace_all_identity, replace_all, replace_all_spec};

verus! {

/// The literal marker this component rewrites.
pub open spec fn break_marker() -> Seq<char> {
    "@break"@
}

/// The page-break substitution rule.
#[derive(Debug, Clone)]
pub struct BreakTag;

impl BreakTag {
    /// The rule carries no state.
    pub fn new() -> (r: Self) {
        Self {  }
    }
}

impl Component for BreakTag {
    /// Every occurrence of `@break` becomes the fixed page-break markup; this
    /// never fails.
    open spec fn spec_compile(&self, input: Seq<char>) -> Result<Seq<char>, (Seq<char>, Seq<char>)> {
        Ok(replace_all_spec(input, break_marker(), break_page_html_spec()))
    }

    fn compile(&self, input: &str) -> (r: Result<String, WordsmithError>) {
        proof {
            reveal_strlit("@break");
        }
        Ok(replace_all(input, "@break", break_page_html()))
    }
}

/// Law: on text in which the marker does not occur, this component is the
/// identity.
pub proof fn lemma_break_tag_identity(c: BreakTag, t: Seq<char>)
    requires
        !contains_pat(t, break_marker()),
    ensures
        c.spec_compile(t) == Ok::<Seq<char>, (Seq<char>, Seq<char>)>(t),
{
    reveal_strlit("@break");
    lemma_replace_all_identity(t, break_marker(), break_page_html_spec());
}

} // verus!
