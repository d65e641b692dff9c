//! Markdown-to-HTML conversion, delegated to an external CommonMark
//! converter.  The conversion options are fixed, so the result is a function
//! of the markdown text alone; the library names that function and reasons
//! over the name.

use vstd::prelude::*;

verus! {

/// What the markdown converter returns for the given markdown text, under
/// this library's fixed conversion options.
pub uninterp spec fn html_of_markdown(markdown: Seq<char>) -> Seq<char>;

/// Transform markdown content into HTML.
///
/// Relies on `comrak::markdown_to_html`: with fixed options (the GFM-style
/// extensions below and GitHub-style pre/lang rendering) the result depends
/// on the markdown text alone.
#[verifier::external_body]
pub fn transform_md_to_html(markdown: &str) -> (r: String)
    ensures
        r@ == html_of_markdown(markdown@),
{
    let mut options = comrak::Options::default();
    options.extension.strikethrough = true;
    options.extension.table = true;
    options.extension.autolink = true;
    options.extension.tasklist = true;
    options.extension.superscript = true;
    options.extension.header_id_prefix = Some("header-id-".to_string());
    options.extension.footnotes = true;
    options.extension.description_lists = true;
    options.render.github_pre_lang = true;
    comrak::markdown_to_html(markdown, &options)
}

} // verus!
