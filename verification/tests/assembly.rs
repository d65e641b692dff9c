//! Tests of configuration handling, path logic and document assembly.

use wordsmith::markdown::transform_md_to_html;
use wordsmith::{
    Config, ContentFile, HtmlGen, Init, RawConfig, RawCover, RawDocument, RawPair, RawPosition,
    WordsmithError,
};

fn raw_full() -> RawConfig {
    RawConfig {
        title: Some("Sample".to_string()),
        authors: Some(vec!["Name <name@email.com>".to_string()]),
        document: Some(RawDocument {
            dimensions: Some(RawPair {
                first: Some("8.7".to_string()),
                second: Some("11.69".to_string()),
            }),
            margins: Some(RawPosition {
                left: Some("1".to_string()),
                top: Some("2".to_string()),
                right: Some("3".to_string()),
                bottom: Some("4".to_string()),
            }),
        }),
        cover: Some(RawCover {
            file: Some("cover.jpg".to_string()),
            dimensions: None,
            position: None,
        }),
    }
}

fn sample_config() -> Config {
    Config::from_raw(raw_full()).unwrap()
}

#[test]
fn config_missing_cover_is_refused() {
    let mut raw = raw_full();
    raw.cover = None;
    let result = Config::from_raw(raw);
    assert!(result.is_err());
    assert_eq!(
        result.unwrap_err().message(),
        "Cover configuration is missing or invalid"
    );
}

#[test]
fn config_cover_without_file_is_refused() {
    let mut raw = raw_full();
    raw.cover = Some(RawCover {
        file: None,
        dimensions: None,
        position: None,
    });
    let result = Config::from_raw(raw);
    assert!(result.is_err());
    assert_eq!(
        result.unwrap_err().message(),
        "Cover configuration file is not defined or empty"
    );
}

#[test]
fn config_defaults() {
    let cfg = sample_config();
    assert_eq!(cfg.title, "Sample");
    assert_eq!(cfg.cover.filename, "cover.jpg");
    // a missing pair defaults to zero by zero
    let (w, h) = cfg.cover.dimension.get_values();
    assert_eq!((w.as_str(), h.as_str()), ("0", "0"));
    let (dw, dh) = cfg.document.dimensions.get_values();
    assert_eq!((dw.as_str(), dh.as_str()), ("8.7", "11.69"));
    let (ml, mt, mr, mb) = cfg.document.margins.get_values();
    assert_eq!((ml.as_str(), mt.as_str()), ("1", "2"));
    assert_eq!((mr.as_str(), mb.as_str()), ("3", "4"));

    let mut raw = raw_full();
    raw.title = None;
    raw.document = None;
    let cfg = Config::from_raw(raw).unwrap();
    assert_eq!(cfg.title, "Default title");
    let (dw, dh) = cfg.document.dimensions.get_values();
    assert_eq!((dw.as_str(), dh.as_str()), ("0", "0"));

    // a pair that is present but without usable numbers falls back to 21 x 29
    let mut raw = raw_full();
    raw.document = Some(RawDocument {
        dimensions: Some(RawPair { first: None, second: None }),
        margins: None,
    });
    let cfg = Config::from_raw(raw).unwrap();
    let (dw, dh) = cfg.document.dimensions.get_values();
    assert_eq!((dw.as_str(), dh.as_str()), ("21", "29"));
    let (ml, _, _, _) = cfg.document.margins.get_values();
    assert_eq!(ml.as_str(), "0");
}

#[test]
fn init_path_logic() {
    let init = Init::new("/work".to_string(), Some("book".to_string()));
    assert_eq!(init.get_project_folder(), "/work/book");
    assert_eq!(init.get_lock_file(), "/work/book/.ws-lock");

    let init = Init::new("/work".to_string(), None);
    assert_eq!(init.get_project_folder(), "/work");
    assert_eq!(init.get_lock_file(), "/work/.ws-lock");
}

#[test]
fn htmlgen_paths() {
    let gen = HtmlGen::new(sample_config(), "/proj".to_string(), None);
    assert_eq!(gen.get_path("content"), "/proj/content");
    assert_eq!(gen.get_output_path(), "/proj/output");
    assert_eq!(gen.get_output_file("html.html"), "/proj/output/html.html");
    assert_eq!(gen.get_theme(), "light");
    assert_eq!(gen.get_theme_file_path(), "/proj/themes/light.html");
    assert_eq!(gen.get_cover_image_path(), "/proj/assets/images/cover.jpg");

    let gen = HtmlGen::new(sample_config(), "/proj".to_string(), Some("dark".to_string()));
    assert_eq!(gen.get_theme(), "dark");
    assert_eq!(gen.get_theme_file_path(), "/proj/themes/dark.html");
}

#[test]
fn missing_theme_is_refused_by_name() {
    let gen = HtmlGen::new(sample_config(), "/proj".to_string(), Some("missing".to_string()));
    let result = gen.get_theme_html(false, String::new());
    assert!(matches!(result, Err(WordsmithError::ThemeNotFound(_))));
    let err = gen.get_theme_html(false, String::new()).unwrap_err();
    assert_eq!(err.message(), "Theme /proj/themes/missing.html not found");

    let ok = gen.get_theme_html(true, "<div/>".to_string());
    assert_eq!(ok.unwrap(), "<div/>");
}

#[test]
fn cover_html_falls_back_to_title() {
    let gen = HtmlGen::new(sample_config(), "/proj".to_string(), None);
    assert_eq!(gen.get_cover_html(false), "<h1>Sample</1>");
}

#[test]
fn cover_html_with_image() {
    let gen = HtmlGen::new(sample_config(), "/proj".to_string(), None);
    let expected = "\n      <div style=\"width:0mm;height:0mm;\" class=\"cover\">\n        \
                    <img src=\"/proj/assets/images/cover.jpg\" style=\"width:0mm;height:0mm;\" \
                    alt=\"Sample\" />\n      </div>\n    ";
    assert_eq!(gen.get_cover_html(true), expected);
}

#[test]
fn margin_style_text() {
    let gen = HtmlGen::new(sample_config(), "/proj".to_string(), None);
    let style = gen.get_document_margin_style();
    let expected = "\n      <style>\n        @page {\n          size: 8.7mm 11.69mm;\n        }\
                    \n\n        body {\n          padding-left: 1mm !important;\
                    \n          padding-right: 3mm !important;\
                    \n          padding-top: 2mm !important;\
                    \n          padding-bottom: 4mm !important;\n        }\
                    \n\n        h1 {\n          padding-top: 2mm !important;\n        }\
                    \n      </style>\n    ";
    assert_eq!(style, expected);
}

fn entry(name: &str, body: &str) -> ContentFile {
    ContentFile {
        name: name.to_string(),
        body: body.to_string(),
        is_file: true,
    }
}

#[test]
fn content_files_are_sorted_and_joined() {
    let gen = HtmlGen::new(sample_config(), "/proj".to_string(), None);
    let entries = vec![entry("b.md", "Bravo"), entry("a.md", "Alpha"), entry("c.md", "Charlie")];
    let result = gen.get_content_html(entries).unwrap();
    let expected = format!(
        "{} {} {}",
        transform_md_to_html("Alpha"),
        transform_md_to_html("Bravo"),
        transform_md_to_html("Charlie"),
    );
    assert_eq!(result, expected);
}

#[test]
fn content_skips_directories_and_other_extensions() {
    let gen = HtmlGen::new(sample_config(), "/proj".to_string(), None);
    let mut dir = entry("a-dir.md", "");
    dir.is_file = false;
    let entries = vec![
        entry("notes.txt", "not markdown"),
        dir,
        entry("only.md", "Only"),
        entry(".md", "hidden, no extension"),
    ];
    let result = gen.get_content_html(entries).unwrap();
    assert_eq!(result, transform_md_to_html("Only"));
}

#[test]
fn content_with_equal_names_keeps_arrival_order() {
    let gen = HtmlGen::new(sample_config(), "/proj".to_string(), None);
    let entries = vec![entry("same.md", "First"), entry("same.md", "Second")];
    let result = gen.get_content_html(entries).unwrap();
    let expected = format!(
        "{} {}",
        transform_md_to_html("First"),
        transform_md_to_html("Second"),
    );
    assert_eq!(result, expected);
}

#[test]
fn content_of_no_entries_is_empty() {
    let gen = HtmlGen::new(sample_config(), "/proj".to_string(), None);
    assert_eq!(gen.get_content_html(Vec::new()).unwrap(), "");
}

#[test]
fn config_authors_pass_through() {
    let cfg = sample_config();
    assert_eq!(cfg.authors, Some(vec!["Name <name@email.com>".to_string()]));
    let mut raw = raw_full();
    raw.authors = None;
    assert_eq!(Config::from_raw(raw).unwrap().authors, None);
}

#[test]
fn content_applies_asset_paths_before_conversion() {
    // the asset marker is resolved before markdown conversion; the converter
    // really runs (the raw markdown does not appear verbatim)
    let gen = HtmlGen::new(sample_config(), "/proj".to_string(), None);
    let entries = vec![entry("img.md", "![x](@assets_path/x.png)")];
    let result = gen.get_content_html(entries).unwrap();
    assert_eq!(result, transform_md_to_html("![x](/proj/assets/x.png)"));
    assert!(result.contains("/proj/assets/x.png"));
    assert!(!result.contains("@assets_path"));
    assert_ne!(result, "![x](/proj/assets/x.png)");
}

#[test]
fn generated_document_shape() {
    let gen = HtmlGen::new(sample_config(), "/proj".to_string(), None);
    let entries = vec![entry("a.md", "Alpha @break")];
    let html = gen
        .generate_html_file_content("<meta x>", true, "<theme>@themes_path</theme>".to_string(), false, entries)
        .unwrap();
    assert!(html.starts_with("<!DOCTYPE html><head><meta charset=\"utf-8\">"));
    assert!(html.ends_with("</body></html>"));
    // the pipeline ran over the assembled buffer: the theme's path marker is
    // resolved and the break marker inside the content became markup
    assert!(html.contains("<theme>/proj/themes</theme>"));
    assert!(!html.contains("@themes_path"));
    assert!(!html.contains("@break"));
    // the cover fallback and the forced page break are present
    assert!(html.contains("<h1>Sample</1>"));
    assert!(html.contains("<div style=\"page-break-after: always;\"></div>"));
}

#[test]
fn generated_document_missing_theme_aborts() {
    let gen = HtmlGen::new(sample_config(), "/proj".to_string(), None);
    let entries = vec![entry("a.md", "Alpha")];
    let result =
        gen.generate_html_file_content("<meta x>", false, String::new(), false, entries);
    assert!(result.is_err());
    assert_eq!(
        result.unwrap_err().message(),
        "Theme /proj/themes/light.html not found"
    );
}

#[test]
fn generated_document_is_deterministic() {
    let entries = || vec![entry("b.md", "# Two"), entry("a.md", "# One @info x @endinfo")];
    let gen1 = HtmlGen::new(sample_config(), "/proj".to_string(), None);
    let gen2 = HtmlGen::new(sample_config(), "/proj".to_string(), None);
    let one = gen1
        .generate_html_file_content("<m>", true, "<t>".to_string(), true, entries())
        .unwrap();
    let two = gen2
        .generate_html_file_content("<m>", true, "<t>".to_string(), true, entries())
        .unwrap();
    assert_eq!(one, two);
}
