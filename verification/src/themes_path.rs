//! Theme-path substitution: rewrites the literal marker `@themes_path` to the
//! configured filesystem path string.

use vstd::prelude::*;

use crate::components::Component;
use crate::error::WordsmithError;
use crate::text::{
    contains_pat, lemma_replace_all_identity, lemma_replace_all_no_marker, replace_all,
    replace_all_spec,
};

verus! {

/// The literal marker this component rewrites.
pub open spec fn themes_marker() -> Seq<char> {
    "@themes_path"@
}

/// The theme-path substitution rule.
#[derive(Debug, Clone)]
pub struct ThemesPath {
    themes_path: String,
}

impl View for ThemesPath {
    type V = Seq<char>;

    closed spec fn view(&self) -> Seq<char> {
        self.themes_path@
    }
}

impl ThemesPath {
    /// A rule that rewrites the marker to `path`.
    pub fn new(path: String) -> (r: Self)
        ensures
            r@ == path@,
    {
        Self { themes_path: path }
    }
}

impl Component for ThemesPath {
    /// Every occurrence of the marker becomes the configured path.  The
    /// replacement value is emitted verbatim, with no escaping; this never
    /// fails.
    open spec fn spec_compile(&self, input: Seq<char>) -> Result<Seq<char>, (Seq<char>, Seq<char>)> {
        Ok(replace_all_spec(input, themes_marker(), self@))
    }

    fn compile(&self, input: &str) -> (r: Result<String, WordsmithError>) {
        proof {
            reveal_strlit("@themes_path");
        }
        Ok(replace_all(input, "@themes_path", self.themes_path.as_str()))
    }
}

/// Law: on text in which the marker does not occur, this component is the
/// identity.
pub proof fn lemma_themes_path_identity(c: ThemesPath, t: Seq<char>)
    requires
        !contains_pat(t, themes_marker()),
    ensures
        c.spec_compile(t) == Ok::<Seq<char>, (Seq<char>, Seq<char>)>(t),
{
    reveal_strlit("@themes_path");
    lemma_replace_all_identity(t, themes_marker(), c@);
}

/// Law: every occurrence of the marker is replaced — none is left in the
/// output, however many (zero or more) the input held — whenever the
/// configured path is non-empty, holds no `@`, and does not begin with a
/// character the marker continues with.
pub proof fn lemma_themes_path_replaces_every_marker(c: ThemesPath, t: Seq<char>)
    requires
        c@.len() > 0,
        forall|k: int| 0 <= k < c@.len() ==> c@[k] != '@',
        forall|k: int| 1 <= k < themes_marker().len() ==> c@[0] != themes_marker()[k],
    ensures
        c.spec_compile(t) matches Ok(out) && !contains_pat(out, themes_marker()),
{
    reveal_strlit("@themes_path");
    assert(themes_marker()[0] == '@');
    lemma_replace_all_no_marker(t, themes_marker(), c@);
}

} // verus!
