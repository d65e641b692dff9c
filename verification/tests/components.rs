//! Tests of the tag components and the pipeline.

use wordsmith::{
    break_page_html, AssetsPath, BreakTag, Component, ComponentArg, Components, CustomBlock,
    ThemesPath, WordsmithError,
};

fn components_with(args: Vec<(&str, &str)>) -> Components {
    Components::new(
        args.into_iter()
            .map(|(k, v)| (k.to_string(), ComponentArg::String(v.to_string())))
            .collect(),
    )
}

#[test]
fn assets_path_test_compile() {
    let assets_path = AssetsPath::new("/path/to/assets".to_owned());

    let input = "random text @assets_path here";
    let expected_output = "random text /path/to/assets here";

    let result = assets_path.compile(input);

    assert!(result.is_ok());
    assert_eq!(result.unwrap(), expected_output);
}

#[test]
fn themes_path_test_compile() {
    let themes_path = ThemesPath::new("/path/to/themes".to_owned());

    let input = "random text @themes_path here";
    let expected_output = "random text /path/to/themes here";

    let result = themes_path.compile(input);

    assert!(result.is_ok());
    assert_eq!(result.unwrap(), expected_output);
}

#[test]
fn break_tag_test_compile() {
    let break_tag = BreakTag::new();

    let input = "random text @break here";
    let expected_output = format!("random text {} here", break_page_html());

    let result = break_tag.compile(input);

    assert!(result.is_ok());
    assert_eq!(result.unwrap(), expected_output);
}

#[test]
fn break_tag_exact_markup() {
    let break_tag = BreakTag::new();
    let result = break_tag.compile("a @break b").unwrap();
    assert_eq!(
        result,
        "a <div style=\"page-break-after: always;\"></div> b"
    );
}

fn test_valid_block(input: &str, expected_output: &str) {
    let custom_block = CustomBlock::new();

    let result = custom_block.compile(input);

    assert!(result.is_ok());
    assert_eq!(result.unwrap(), expected_output);
}

#[test]
fn test_compile_valid_info_block() {
    let input = "@info This is some text inside a info block @endinfo";
    let expected_output =
        r#"<blockquote class="info-block"> This is some text inside a info block </blockquote>"#;
    test_valid_block(input, expected_output);
}

#[test]
fn test_compile_valid_warn_block() {
    let input = "@warn This is some text inside a warn block @endwarn";
    let expected_output =
        r#"<blockquote class="warn-block"> This is some text inside a warn block </blockquote>"#;
    test_valid_block(input, expected_output);
}

#[test]
fn test_compile_valid_danger_block() {
    let input = "@danger This is some text inside a danger block @enddanger";
    let expected_output =
        r#"<blockquote class="danger-block"> This is some text inside a danger block </blockquote>"#;
    test_valid_block(input, expected_output);
}

#[test]
fn test_compile_valid_quote_block() {
    let input = "@quote This is some text inside a quote block @endquote";
    let expected_output =
        r#"<blockquote class="quote-block"> This is some text inside a quote block </blockquote>"#;
    test_valid_block(input, expected_output);
}

#[test]
fn test_compile_invalid_input() {
    let custom_block = CustomBlock::new();

    let input = "@info This is some text inside a info block @endwarn";
    let expected_error =
        WordsmithError::InvalidComponentClosingTag("info".to_owned(), "@endwarn".to_owned());

    let result = custom_block.compile(input);

    assert!(result.is_err());
    assert_eq!(result.unwrap_err().message(), expected_error.message());
}

#[test]
fn custom_block_unterminated_is_unchanged() {
    let custom_block = CustomBlock::new();
    let input = "@warn X";
    let result = custom_block.compile(input);
    assert!(result.is_ok());
    assert_eq!(result.unwrap(), input);
}

#[test]
fn custom_block_bare_end_is_a_mismatch() {
    // a bare `@end` does not end with the opening kind name
    let result = CustomBlock::new().compile("@info X @end");
    assert!(result.is_err());
    assert_eq!(
        result.unwrap_err().message(),
        "Invalid closing tag info, @end"
    );
}

#[test]
fn components_identity_without_markers() {
    let input = "plain text without any tag markers";
    assert_eq!(AssetsPath::new("/a".into()).compile(input).unwrap(), input);
    assert_eq!(ThemesPath::new("/t".into()).compile(input).unwrap(), input);
    assert_eq!(BreakTag::new().compile(input).unwrap(), input);
    assert_eq!(CustomBlock::new().compile(input).unwrap(), input);
}

#[test]
fn assets_path_replaces_every_occurrence() {
    let assets_path = AssetsPath::new("/a".to_owned());
    let input = "@assets_path x @assets_path y @assets_path";
    let output = assets_path.compile(input).unwrap();
    assert_eq!(output, "/a x /a y /a");
    assert!(!output.contains("@assets_path"));
}

#[test]
fn themes_path_replaces_every_occurrence() {
    let themes_path = ThemesPath::new("/t".to_owned());
    let input = "@themes_path@themes_path";
    let output = themes_path.compile(input).unwrap();
    assert_eq!(output, "/t/t");
    assert!(!output.contains("@themes_path"));
}

#[test]
fn components_identity_on_empty_input() {
    assert_eq!(AssetsPath::new("/a".into()).compile("").unwrap(), "");
    assert_eq!(ThemesPath::new("/t".into()).compile("").unwrap(), "");
    assert_eq!(BreakTag::new().compile("").unwrap(), "");
    assert_eq!(CustomBlock::new().compile("").unwrap(), "");
    let components = components_with(vec![("assets_path", "/a"), ("themes_path", "/t")]);
    assert_eq!(components.compile_all("").unwrap(), "");
}

#[test]
fn test_get_string_arg() {
    let components = components_with(vec![("themes_path", "test"), ("assets_path", "test")]);

    assert_eq!(components.get_string_arg("themes_path"), "test".to_string());
    assert_eq!(components.get_string_arg("assets_path"), "test".to_string());
    assert_eq!(components.get_string_arg("not_exist"), "".to_string());
}

#[test]
fn test_compile_tag_themes_path() {
    let components = components_with(vec![("themes_path", "/themes")]);
    let result = components.compile_tag_themes_path("<img src=@themes_path/images/example.png>");

    assert_eq!(result.unwrap(), "<img src=/themes/images/example.png>");
}

#[test]
fn compile_all_applies_stages_in_order() {
    let components = components_with(vec![("assets_path", "@info"), ("themes_path", "/t")]);
    let input = "a @assets_path @break Y @endinfo @themes_path";

    let result = components.compile_all(input).unwrap();
    assert_eq!(
        result,
        "a @info <div style=\"page-break-after: always;\"></div> Y @endinfo /t"
    );
}

#[test]
fn compile_all_order_is_significant() {
    // a break marker inside a (would-be) custom block plus a path marker
    // whose value introduces an opening tag: running the assets stage before
    // the custom-block stage produces different output
    let components = components_with(vec![("assets_path", "@info"), ("themes_path", "/t")]);
    let input = "a @assets_path @break Y @endinfo @themes_path";

    let in_order = components.compile_all(input).unwrap();

    let broke = components.compile_break_tag(input).unwrap();
    let with_assets = components.compile_tag_assets_path(&broke).unwrap();
    let blocked = components.compile_custom_block(&with_assets).unwrap();
    let reordered = components.compile_tag_themes_path(&blocked).unwrap();

    assert_ne!(in_order, reordered);
    assert_eq!(
        reordered,
        "a <blockquote class=\"info-block\"> <div style=\"page-break-after: always;\"></div> Y </blockquote> /t"
    );
}

#[test]
fn compile_all_propagates_custom_block_error() {
    let components = components_with(vec![("assets_path", "/a"), ("themes_path", "/t")]);
    let result = components.compile_all("@quote X @enddanger");
    assert!(result.is_err());
    assert_eq!(
        result.unwrap_err().message(),
        "Invalid closing tag quote, @enddanger"
    );
}

#[test]
fn error_messages() {
    assert_eq!(
        WordsmithError::InvalidTag("nope".into()).message(),
        "Invalid tag nope"
    );
    assert_eq!(
        WordsmithError::ProjectNotFound.message(),
        "Project not found"
    );
    assert_eq!(
        WordsmithError::ProjectConflict("here".into()).message(),
        "Project already exists in here folder"
    );
    assert_eq!(
        WordsmithError::ConfigCoverNotDefined.message(),
        "Cover configuration is missing or invalid"
    );
    assert_eq!(
        WordsmithError::ConfigCoverFileIsInvalid.message(),
        "Cover configuration file is not defined or empty"
    );
    assert_eq!(
        WordsmithError::ThemeNotFound("dark".into()).message(),
        "Theme dark not found"
    );
    assert_eq!(WordsmithError::IOError("broken".into()).message(), "broken");
}
