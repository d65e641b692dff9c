//! The document assembler: owns theme selection, cover-image HTML synthesis,
//! per-file markdown conversion, margin/size CSS synthesis, and the final
//! document concatenation.  Raw markdown is first rewritten for asset paths
//! only; the fully assembled document then passes through the complete
//! component pipeline once, so remaining tags are resolved wherever they
//! occur, including inside the theme file itself.
//!
//! All filesystem work (reading the theme, listing content files, checking
//! that the cover image exists, writing the output) happens outside the
//! library; the assembler takes those observations as plain values and is
//! exact about the text it produces from them.

use vstd::prelude::*;

use crate::assets_path::assets_marker;
use crate::components::{
    break_page_html, break_page_html_spec, compile_all_spec, lookup_arg, ComponentArg, Components,
};
use crate::config::Config;
use crate::error::WordsmithError;
use crate::markdown::{html_of_markdown, transform_md_to_html};
use crate::paths::{join_path, join_path_spec};
use crate::text::{check_match_at, lex_lt, match_at, replace_all_spec, str_lt};

verus! {

/// The theme used when none is requested.
pub const DEFAULT_THEME: &'static str = "light";

/// One entry of the project's content directory: its filename, its text, and
/// whether it is a regular file (directories carry no text).
#[derive(Debug, Clone)]
pub struct ContentFile {
    /// The entry's filename, without its directory.
    pub name: String,
    /// The file's contents; empty for anything but a regular file.
    pub body: String,
    /// Whether the entry is a regular file.
    pub is_file: bool,
}

/// The suffix that marks a markdown file.
pub open spec fn md_suffix() -> Seq<char> {
    seq!['.', 'm', 'd']
}

/// The name has extension `md`: it ends with `.md` and its stem is
/// non-empty (a bare `.md` is a hidden file without an extension).
pub open spec fn has_md_extension(name: Seq<char>) -> bool {
    name.len() >= 4 && match_at(name, md_suffix(), name.len() - 3)
}

/// The entry is a markdown file: a regular file whose name has extension
/// `md`.
pub open spec fn is_markdown_file(f: ContentFile) -> bool {
    f.is_file && has_md_extension(f.name@)
}

/// Whether the name has extension `md`.
pub fn name_has_md_extension(name: &str) -> (r: bool)
    ensures
        r == has_md_extension(name@),
{
    proof {
        reveal_strlit(".md");
        assert(".md"@ =~= md_suffix());
    }
    let n = name.unicode_len();
    if n < 4 {
        return false;
    }
    check_match_at(name, ".md", n - 3)
}

/// `x` inserted into `t` after every entry whose name does not come after
/// `x`'s: insertion keeps equal names in their arrival order.
pub open spec fn insert_sorted(t: Seq<ContentFile>, x: ContentFile) -> Seq<ContentFile>
    decreases t.len(),
{
    if t.len() == 0 {
        seq![x]
    } else if lex_lt(x.name@, t[0].name@) {
        seq![x] + t
    } else {
        seq![t[0]] + insert_sorted(t.drop_first(), x)
    }
}

/// The entries in lexicographic filename order, equal names kept in arrival
/// order.
pub open spec fn sort_by_name(s: Seq<ContentFile>) -> Seq<ContentFile>
    decreases s.len(),
{
    if s.len() == 0 {
        Seq::empty()
    } else {
        insert_sorted(sort_by_name(s.drop_last()), s.last())
    }
}

/// What one markdown file contributes to the document: its text rewritten
/// for asset paths only, then converted to HTML.
pub open spec fn content_piece(f: ContentFile, assets: Seq<char>) -> Seq<char> {
    html_of_markdown(replace_all_spec(f.body@, assets_marker(), assets))
}

/// The files' contributions joined by a single space.
pub open spec fn joined_content(files: Seq<ContentFile>, assets: Seq<char>) -> Seq<char>
    decreases files.len(),
{
    if files.len() == 0 {
        Seq::empty()
    } else if files.len() == 1 {
        content_piece(files[0], assets)
    } else {
        joined_content(files.drop_last(), assets) + " "@ + content_piece(files.last(), assets)
    }
}

/// The entries that contribute to the document: markdown files.
pub open spec fn md_pred() -> spec_fn(ContentFile) -> bool {
    |f: ContentFile| is_markdown_file(f)
}

/// The whole content block: the entries in filename order, directories and
/// non-markdown names skipped, each converted, joined by single spaces.
pub open spec fn content_html_spec(entries: Seq<ContentFile>, assets: Seq<char>) -> Seq<char> {
    joined_content(sort_by_name(entries).filter(md_pred()), assets)
}

/// Inserting at the first position whose entry comes after `x` is what
/// [`insert_sorted`] does.
proof fn lemma_insert_sorted_at(t: Seq<ContentFile>, x: ContentFile, p: int)
    requires
        0 <= p <= t.len(),
        forall|k: int| 0 <= k < p ==> !lex_lt(x.name@, #[trigger] t[k].name@),
        p < t.len() ==> lex_lt(x.name@, t[p].name@),
    ensures
        insert_sorted(t, x) == t.subrange(0, p) + seq![x] + t.subrange(p, t.len() as int),
    decreases t.len(),
{
    if t.len() == 0 {
        assert(t.subrange(0, 0) + seq![x] + t.subrange(0, 0) =~= seq![x]);
    } else if p == 0 {
        assert(lex_lt(x.name@, t[0].name@));
        assert(t.subrange(0, 0) + seq![x] + t.subrange(0, t.len() as int) =~= seq![x] + t);
    } else {
        assert(!lex_lt(x.name@, t[0].name@));
        let rest = t.drop_first();
        assert forall|k: int| 0 <= k < p - 1 implies !lex_lt(x.name@, #[trigger] rest[k].name@) by {
            assert(rest[k] == t[k + 1]);
        }
        lemma_insert_sorted_at(rest, x, p - 1);
        assert(seq![t[0]] + (rest.subrange(0, p - 1) + seq![x] + rest.subrange(
            p - 1,
            rest.len() as int,
        )) =~= t.subrange(0, p) + seq![x] + t.subrange(p, t.len() as int));
    }
}

/// `t` is in lexicographic filename order: no later entry comes before an
/// earlier one.
pub open spec fn sorted_by_name(t: Seq<ContentFile>) -> bool {
    forall|i: int, j: int|
        0 <= i < j < t.len() ==> !lex_lt(#[trigger] t[j].name@, #[trigger] t[i].name@)
}

proof fn lemma_lex_lt_irrefl(a: Seq<char>)
    ensures
        !lex_lt(a, a),
    decreases a.len(),
{
    if a.len() > 0 {
        lemma_lex_lt_irrefl(a.drop_first());
    }
}

proof fn lemma_lex_lt_trans(a: Seq<char>, b: Seq<char>, c: Seq<char>)
    requires
        lex_lt(a, b),
        lex_lt(b, c),
    ensures
        lex_lt(a, c),
    decreases a.len(),
{
    if a.len() > 0 {
        if a[0] == b[0] && b[0] == c[0] {
            lemma_lex_lt_trans(a.drop_first(), b.drop_first(), c.drop_first());
        }
    }
}

proof fn lemma_insert_sorted_props(t: Seq<ContentFile>, x: ContentFile)
    requires
        sorted_by_name(t),
    ensures
        sorted_by_name(insert_sorted(t, x)),
        insert_sorted(t, x).to_multiset() == t.to_multiset().insert(x),
    decreases t.len(),
{
    broadcast use vstd::seq_lib::group_to_multiset_ensures;
    broadcast use vstd::multiset::group_multiset_axioms;

    let r = insert_sorted(t, x);
    if t.len() == 0 {
        assert(r =~= Seq::<ContentFile>::empty().push(x));
        assert forall|a: ContentFile| t.to_multiset().count(a) == 0nat by {
            assert(!t.contains(a));
        }
        assert(r.to_multiset() =~= t.to_multiset().insert(x));
    } else if lex_lt(x.name@, t[0].name@) {
        assert forall|i: int, j: int|
            0 <= i < j < r.len() implies !lex_lt(#[trigger] r[j].name@, #[trigger] r[i].name@) by {
            if i == 0 {
                assert(r[0] == x);
                assert(r[j] == t[j - 1]);
                if lex_lt(t[j - 1].name@, x.name@) {
                    lemma_lex_lt_trans(t[j - 1].name@, x.name@, t[0].name@);
                    if j == 1 {
                        lemma_lex_lt_irrefl(t[0].name@);
                    }
                }
            } else {
                assert(r[i] == t[i - 1]);
                assert(r[j] == t[j - 1]);
            }
        }
        assert(seq![x] =~= Seq::<ContentFile>::empty().push(x));
        vstd::seq_lib::lemma_multiset_commutative(seq![x], t);
        assert forall|a: ContentFile| Seq::<ContentFile>::empty().to_multiset().count(a)
            == 0nat by {
            assert(!Seq::<ContentFile>::empty().contains(a));
        }
        assert(r.to_multiset() =~= t.to_multiset().insert(x));
    } else {
        let rest = t.drop_first();
        let rr = insert_sorted(rest, x);
        assert forall|i: int, j: int|
            0 <= i < j < rest.len() implies !lex_lt(
            #[trigger] rest[j].name@,
            #[trigger] rest[i].name@,
        ) by {
            assert(rest[i] == t[i + 1]);
            assert(rest[j] == t[j + 1]);
        }
        lemma_insert_sorted_props(rest, x);
        assert(r == seq![t[0]] + rr);
        assert forall|i: int, j: int|
            0 <= i < j < r.len() implies !lex_lt(#[trigger] r[j].name@, #[trigger] r[i].name@) by {
            if i == 0 {
                assert(r[0] == t[0]);
                let y = rr[j - 1];
                assert(r[j] == y);
                assert(rr.contains(y));
                assert(rr.to_multiset().count(y) > 0);
                if y == x {
                    assert(!lex_lt(x.name@, t[0].name@));
                } else {
                    assert(rest.to_multiset().insert(x).count(y) > 0);
                    assert(rest.to_multiset().count(y) > 0);
                    assert(rest.contains(y));
                    let k = choose|k: int| 0 <= k < rest.len() && rest[k] == y;
                    assert(t[k + 1] == y);
                }
            } else {
                assert(r[i] == rr[i - 1]);
                assert(r[j] == rr[j - 1]);
            }
        }
        assert(seq![t[0]] =~= Seq::<ContentFile>::empty().push(t[0]));
        vstd::seq_lib::lemma_multiset_commutative(seq![t[0]], rr);
        assert(seq![t[0]] + rest =~= t);
        vstd::seq_lib::lemma_multiset_commutative(seq![t[0]], rest);
        assert(r.to_multiset() =~= t.to_multiset().insert(x));
    }
}

/// Law: the sorted entries are in lexicographic filename order and are a
/// permutation of the entries given.
pub proof fn lemma_sort_by_name_props(s: Seq<ContentFile>)
    ensures
        sorted_by_name(sort_by_name(s)),
        sort_by_name(s).to_multiset() == s.to_multiset(),
    decreases s.len(),
{
    broadcast use vstd::seq_lib::group_to_multiset_ensures;

    if s.len() == 0 {
        assert(sort_by_name(s) =~= Seq::<ContentFile>::empty());
    } else {
        lemma_sort_by_name_props(s.drop_last());
        lemma_insert_sorted_props(sort_by_name(s.drop_last()), s.last());
        assert(s.drop_last().push(s.last()) =~= s);
    }
}

/// The margin/size CSS block synthesized from the document configuration
/// (millimetre units).
pub open spec fn margin_style_spec(c: Config) -> Seq<char> {
    "\n      <style>\n        @page {\n          size: "@ + c.document.dimensions@.0 + "mm "@
        + c.document.dimensions@.1 + "mm;\n        }\n\n        body {\n          padding-left: "@
        + c.document.margins@.0 + "mm !important;\n          padding-right: "@
        + c.document.margins@.2 + "mm !important;\n          padding-top: "@
        + c.document.margins@.1 + "mm !important;\n          padding-bottom: "@
        + c.document.margins@.3
        + "mm !important;\n        }\n\n        h1 {\n          padding-top: "@
        + c.document.margins@.1 + "mm !important;\n        }\n      </style>\n    "@
}

/// Where the cover image sits under the project.
pub open spec fn cover_image_path_spec(c: Config, path: Seq<char>) -> Seq<char> {
    join_path_spec(join_path_spec(path, "assets/images/"@), c.cover.filename@)
}

/// The cover block: an `<img>` wrapped in a sized `<div>` when the cover
/// image exists, else a heading holding the document title.
pub open spec fn cover_html_spec(c: Config, path: Seq<char>, cover_exists: bool) -> Seq<char> {
    if !cover_exists {
        "<h1>"@ + c.title@ + "</1>"@
    } else {
        "\n      <div style=\"width:"@ + c.cover.dimension@.0 + "mm;height:"@
            + c.cover.dimension@.1 + "mm;\" class=\"cover\">\n        <img src=\""@
            + cover_image_path_spec(c, path) + "\" style=\"width:"@ + c.cover.dimension@.0
            + "mm;height:"@ + c.cover.dimension@.1 + "mm;\" alt=\""@ + c.title@
            + "\" />\n      </div>\n    "@
    }
}

/// The document assembler.
#[derive(Debug, Clone)]
pub struct HtmlGen {
    /// The requested theme, if any.
    pub theme: Option<String>,
    /// The loaded project configuration.
    pub config: Config,
    /// The project directory.
    pub path: String,
    /// The registered component pipeline with its resolved directories.
    pub components: Components,
}

impl HtmlGen {
    /// The resolved assets directory handed to the pipeline.
    pub open spec fn assets_arg(&self) -> Seq<char> {
        lookup_arg(self.components@, "assets_path"@)
    }

    /// The resolved themes directory handed to the pipeline.
    pub open spec fn themes_arg(&self) -> Seq<char> {
        lookup_arg(self.components@, "themes_path"@)
    }

    /// The theme in effect: the requested one, or the default.
    pub open spec fn spec_theme(&self) -> Seq<char> {
        match self.theme {
            Some(t) => t@,
            None => DEFAULT_THEME@,
        }
    }

    /// Where the theme file of the effective theme sits.
    pub open spec fn spec_theme_file_path(&self) -> Seq<char> {
        join_path_spec(self.path@, "themes/"@ + self.spec_theme() + ".html"@)
    }

    /// The full document before the final pipeline pass: head boilerplate,
    /// margin CSS, theme partial head include, theme body HTML, cover HTML, a
    /// forced page break, and the concatenated content.
    pub open spec fn spec_document(
        &self,
        partial_head: Seq<char>,
        theme_html: Seq<char>,
        cover_exists: bool,
        entries: Seq<ContentFile>,
    ) -> Seq<char> {
        "<!DOCTYPE html><head><meta charset=\"utf-8\">"@ + margin_style_spec(self.config)
            + partial_head + theme_html + "</head><body>"@ + cover_html_spec(
            self.config,
            self.path@,
            cover_exists,
        ) + break_page_html_spec() + content_html_spec(entries, self.assets_arg())
            + "</body></html>"@
    }

    /// Creates the assembler with the provided theme, document
    /// configuration, and the target path of the project, registering the
    /// pipeline's resolved asset and theme directories.
    pub fn new(config: Config, path: String, theme: Option<String>) -> (r: Self)
        ensures
            r.theme == theme,
            r.config == config,
            r.path@ == path@,
            r.assets_arg() == join_path_spec(path@, "assets"@),
            r.themes_arg() == join_path_spec(path@, "themes"@),
    {
        let assets = join_path(path.as_str(), "assets");
        let themes = join_path(path.as_str(), "themes");
        let args: Vec<(String, ComponentArg)> = vec![
            (String::from_str("assets_path"), ComponentArg::String(assets)),
            (String::from_str("themes_path"), ComponentArg::String(themes)),
        ];
        let components = Components::new(args);
        proof {
            reveal_strlit("assets_path");
            reveal_strlit("themes_path");
            assert("assets_path"@[0] == 'a');
            assert("themes_path"@[0] == 't');
            assert("assets_path"@ != "themes_path"@);
            let view = components@;
            assert(view.len() == 2);
            assert(view[0].0 == "assets_path"@);
            assert(view[1].0 == "themes_path"@);
            assert(view[0].0 != "themes_path"@);
            let rest = view.drop_first();
            assert(rest[0] == view[1]);
            assert(lookup_arg(rest, "themes_path"@) == view[1].1);
            assert(lookup_arg(view, "themes_path"@) == lookup_arg(rest, "themes_path"@));
            assert(lookup_arg(view, "assets_path"@) == view[0].1);
        }
        Self { theme, config, path, components }
    }

    /// Return the full path of `path` relative to the project directory.
    pub fn get_path(&self, path: &str) -> (r: String)
        ensures
            r@ == join_path_spec(self.path@, path@),
    {
        join_path(self.path.as_str(), path)
    }

    /// Return the folder that should contain all project builds/generated
    /// files.
    pub fn get_output_path(&self) -> (r: String)
        ensures
            r@ == join_path_spec(self.path@, "output"@),
    {
        self.get_path("output")
    }

    /// Where the named generated file sits under the output folder.
    pub fn get_output_file(&self, file: &str) -> (r: String)
        ensures
            r@ == join_path_spec(join_path_spec(self.path@, "output"@), file@),
    {
        let out = self.get_output_path();
        join_path(out.as_str(), file)
    }

    /// Return the defined theme or the default theme.
    pub fn get_theme(&self) -> (r: String)
        ensures
            r@ == self.spec_theme(),
    {
        match &self.theme {
            Some(theme) => theme.clone(),
            None => String::from_str(DEFAULT_THEME),
        }
    }

    /// Where the theme file of the effective theme sits.
    pub fn get_theme_file_path(&self) -> (r: String)
        ensures
            r@ == self.spec_theme_file_path(),
    {
        let mut rel = String::from_str("themes/");
        let theme = self.get_theme();
        rel.append(theme.as_str());
        rel.append(".html");
        self.get_path(rel.as_str())
    }

    /// Accept the theme source read from the theme file, or refuse the build:
    /// a theme whose file does not exist is a hard
    /// [`WordsmithError::ThemeNotFound`] error naming the missing path.
    pub fn get_theme_html(&self, theme_exists: bool, theme_source: String) -> (r: Result<
        String,
        WordsmithError,
    >)
        ensures
            theme_exists ==> (r matches Ok(c) && c@ == theme_source@),
            !theme_exists ==> (r matches Err(WordsmithError::ThemeNotFound(p)) && p@
                == self.spec_theme_file_path()),
    {
        if theme_exists {
            Ok(theme_source)
        } else {
            Err(WordsmithError::ThemeNotFound(self.get_theme_file_path()))
        }
    }

    /// Where the configured cover image sits under the project.
    pub fn get_cover_image_path(&self) -> (r: String)
        ensures
            r@ == cover_image_path_spec(self.config, self.path@),
    {
        let images = self.get_path("assets/images/");
        join_path(images.as_str(), self.config.cover.filename.as_str())
    }

    /// Build the cover-block HTML.  If there is no cover image the document
    /// title is used as a fallback.
    pub fn get_cover_html(&self, cover_exists: bool) -> (r: String)
        ensures
            r@ == cover_html_spec(self.config, self.path@, cover_exists),
    {
        if !cover_exists {
            let mut r = String::from_str("<h1>");
            r.append(self.config.title.as_str());
            r.append("</1>");
            r
        } else {
            let (width, height) = self.config.cover.dimension.get_values();
            let src = self.get_cover_image_path();
            let mut r = String::from_str("\n      <div style=\"width:");
            r.append(width.as_str());
            r.append("mm;height:");
            r.append(height.as_str());
            r.append("mm;\" class=\"cover\">\n        <img src=\"");
            r.append(src.as_str());
            r.append("\" style=\"width:");
            r.append(width.as_str());
            r.append("mm;height:");
            r.append(height.as_str());
            r.append("mm;\" alt=\"");
            r.append(self.config.title.as_str());
            r.append("\" />\n      </div>\n    ");
            r
        }
    }

    /// Build the margin/size CSS block from the document dimensions and
    /// margins (millimetre units).
    pub fn get_document_margin_style(&self) -> (r: String)
        ensures
            r@ == margin_style_spec(self.config),
    {
        let (doc_w, doc_h) = self.config.document.dimensions.get_values();
        let (ml, mt, mr, mb) = self.config.document.margins.get_values();
        let mut r = String::from_str("\n      <style>\n        @page {\n          size: ");
        r.append(doc_w.as_str());
        r.append("mm ");
        r.append(doc_h.as_str());
        r.append("mm;\n        }\n\n        body {\n          padding-left: ");
        r.append(ml.as_str());
        r.append("mm !important;\n          padding-right: ");
        r.append(mr.as_str());
        r.append("mm !important;\n          padding-top: ");
        r.append(mt.as_str());
        r.append("mm !important;\n          padding-bottom: ");
        r.append(mb.as_str());
        r.append("mm !important;\n        }\n\n        h1 {\n          padding-top: ");
        r.append(mt.as_str());
        r.append("mm !important;\n        }\n      </style>\n    ");
        r
    }

    /// Turn all the markdown files among the entries into HTML — each first
    /// rewritten for asset paths only, the other tags deliberately deferred
    /// to the final document-wide pass — and concatenate them, separated by a
    /// single space, in filename-sorted order.
    pub fn get_content_html(&self, entries: Vec<ContentFile>) -> (r: Result<String, WordsmithError>)
        ensures
            r matches Ok(s) && s@ == content_html_spec(entries@, self.assets_arg()),
    {
        let ghost entries0 = entries@;
        let mut remaining = entries;
        let mut sorted: Vec<ContentFile> = Vec::new();
        let ghost mut k: int = 0;
        proof {
            assert(entries0.take(0) =~= Seq::<ContentFile>::empty());
            assert(remaining@ =~= entries0.skip(0));
        }
        while remaining.len() > 0
            invariant
                0 <= k <= entries0.len(),
                remaining@ == entries0.skip(k),
                sorted@ == sort_by_name(entries0.take(k)),
            decreases remaining@.len(),
        {
            let ghost sorted0 = sorted@;
            let e = remaining.remove(0);
            proof {
                assert(e == entries0[k]);
                assert(entries0.skip(k).remove(0) =~= entries0.skip(k + 1));
            }
            let mut p: usize = 0;
            while p < sorted.len() && !str_lt(e.name.as_str(), sorted[p].name.as_str())
                invariant
                    0 <= p <= sorted@.len(),
                    sorted@ == sorted0,
                    forall|t: int| 0 <= t < p ==> !lex_lt(e.name@, #[trigger] sorted0[t].name@),
                decreases sorted@.len() - p,
            {
                p = p + 1;
            }
            proof {
                lemma_insert_sorted_at(sorted0, e, p as int);
            }
            sorted.insert(p, e);
            proof {
                assert(sorted@ =~= sorted0.subrange(0, p as int) + seq![entries0[k]]
                    + sorted0.subrange(p as int, sorted0.len() as int));
                assert(entries0.take(k + 1).drop_last() =~= entries0.take(k));
                assert(entries0.take(k + 1).last() == entries0[k]);
                assert(sort_by_name(entries0.take(k + 1)) == insert_sorted(
                    sort_by_name(entries0.take(k)),
                    entries0[k],
                ));
                k = k + 1;
            }
        }
        let ghost sseq = sort_by_name(entries0);
        proof {
            assert(entries0.take(k) =~= entries0);
        }
        let mut out = String::new();
        let mut first = true;
        let mut i: usize = 0;
        proof {
            assert(sseq.take(0) =~= Seq::<ContentFile>::empty());
            reveal(Seq::filter);
            assert(Seq::<ContentFile>::empty().filter(md_pred()) =~= Seq::<ContentFile>::empty());
        }
        while i < sorted.len()
            invariant
                0 <= i <= sorted@.len(),
                sorted@ == sseq,
                out@ == joined_content(sseq.take(i as int).filter(md_pred()), self.assets_arg()),
                first == (sseq.take(i as int).filter(md_pred()).len() == 0),
            decreases sorted@.len() - i,
        {
            let ghost flt_old = sseq.take(i as int).filter(md_pred());
            let ghost flt_new = sseq.take(i + 1).filter(md_pred());
            proof {
                reveal(Seq::filter);
                assert(sseq.take(i + 1).drop_last() =~= sseq.take(i as int));
                assert(sseq.take(i + 1).last() == sseq[i as int]);
            }
            let entry = &sorted[i];
            if entry.is_file && name_has_md_extension(entry.name.as_str()) {
                proof {
                    assert(md_pred()(sseq[i as int]));
                    assert(flt_new == flt_old.push(sseq[i as int]));
                }
                let compiled = match self.components.compile_tag_assets_path(entry.body.as_str()) {
                    Ok(c) => c,
                    Err(e) => return Err(e),
                };
                let piece = transform_md_to_html(compiled.as_str());
                if first {
                    out.append(piece.as_str());
                    proof {
                        assert(flt_new.len() == 1);
                        assert(flt_new[0] == sseq[i as int]);
                        assert(Seq::<char>::empty() + piece@ =~= piece@);
                        assert(joined_content(flt_new, self.assets_arg()) == content_piece(
                            sseq[i as int],
                            self.assets_arg(),
                        ));
                    }
                } else {
                    out.append(" ");
                    out.append(piece.as_str());
                    proof {
                        assert(flt_new.drop_last() =~= flt_old);
                        assert(flt_new.last() == sseq[i as int]);
                        assert(flt_new.len() >= 2);
                        assert(joined_content(flt_new, self.assets_arg()) == joined_content(
                            flt_old,
                            self.assets_arg(),
                        ) + " "@ + content_piece(sseq[i as int], self.assets_arg()));
                    }
                }
                first = false;
            } else {
                proof {
                    assert(!md_pred()(sseq[i as int]));
                    assert(flt_new == flt_old);
                }
            }
            i = i + 1;
        }
        proof {
            assert(sseq.take(i as int) =~= sseq);
        }
        Ok(out)
    }

    /// Assemble the full document and resolve every remaining tag: head
    /// boilerplate, margin CSS, theme partial head include, theme body HTML,
    /// cover HTML, a forced page break and the concatenated content are
    /// concatenated, and the whole buffer passes through the complete
    /// component pipeline once.  A theme whose file does not exist aborts
    /// with [`WordsmithError::ThemeNotFound`] before anything is assembled.
    pub fn generate_html_file_content(
        &self,
        partial_head: &str,
        theme_exists: bool,
        theme_source: String,
        cover_exists: bool,
        entries: Vec<ContentFile>,
    ) -> (r: Result<String, WordsmithError>)
        ensures
            !theme_exists ==> (r matches Err(WordsmithError::ThemeNotFound(p)) && p@
                == self.spec_theme_file_path()),
            theme_exists ==> match compile_all_spec(
                self.spec_document(partial_head@, theme_source@, cover_exists, entries@),
                self.assets_arg(),
                self.themes_arg(),
            ) {
                Ok(t) => r matches Ok(s) && s@ == t,
                Err((opened, closed)) => r matches Err(
                    WordsmithError::InvalidComponentClosingTag(a, b),
                ) && a@ == opened && b@ == closed,
            },
    {
        let mut html = String::from_str("<!DOCTYPE html><head><meta charset=\"utf-8\">");
        let margin = self.get_document_margin_style();
        html.append(margin.as_str());
        html.append(partial_head);
        let theme_html = match self.get_theme_html(theme_exists, theme_source) {
            Ok(t) => t,
            Err(e) => return Err(e),
        };
        html.append(theme_html.as_str());
        html.append("</head><body>");
        let cover = self.get_cover_html(cover_exists);
        html.append(cover.as_str());
        html.append(break_page_html());
        let content = match self.get_content_html(entries) {
            Ok(c) => c,
            Err(e) => return Err(e),
        };
        html.append(content.as_str());
        html.append("</body></html>");
        self.components.compile_all(html.as_str())
    }
}

/// Law: the assembled document is a function of the configuration, the
/// project path, the theme and head sources, the cover's existence, the
/// content entries and the pipeline's resolved directories alone.  Two builds
/// over an unchanged project see equal inputs, so they produce the identical
/// document text.
pub proof fn lemma_assembly_deterministic(
    g1: HtmlGen,
    g2: HtmlGen,
    partial_head1: Seq<char>,
    partial_head2: Seq<char>,
    theme_html1: Seq<char>,
    theme_html2: Seq<char>,
    cover_exists1: bool,
    cover_exists2: bool,
    entries1: Seq<ContentFile>,
    entries2: Seq<ContentFile>,
)
    requires
        g1.config == g2.config,
        g1.path@ == g2.path@,
        g1.assets_arg() == g2.assets_arg(),
        g1.themes_arg() == g2.themes_arg(),
        partial_head1 == partial_head2,
        theme_html1 == theme_html2,
        cover_exists1 == cover_exists2,
        entries1 == entries2,
    ensures
        compile_all_spec(
            g1.spec_document(partial_head1, theme_html1, cover_exists1, entries1),
            g1.assets_arg(),
            g1.themes_arg(),
        ) == compile_all_spec(
            g2.spec_document(partial_head2, theme_html2, cover_exists2, entries2),
            g2.assets_arg(),
            g2.themes_arg(),
        ),
{
}

} // verus!
