use moyn::frontmatter::parse_frontmatter;
use moyn::text::{truncate, u64_to_string};
use moyn::title::{extract_title, resolve_title};

#[test]
fn no_marker_keeps_input_as_body() {
    let input = "hello world\nno metadata here";
    let parsed = parse_frontmatter(input);
    assert_eq!(parsed.content, input);
    assert!(parsed.frontmatter.title.is_none());
    assert!(parsed.frontmatter.published.is_none());
    assert!(parsed.frontmatter.tags.is_none());
    assert!(parsed.frontmatter.slug.is_none());
    assert!(parsed.frontmatter.space.is_none());
}

#[test]
fn unclosed_marker_keeps_input_as_body() {
    let input = "---\ntitle: lost\nnever closed";
    let parsed = parse_frontmatter(input);
    assert_eq!(parsed.content, input);
    assert!(parsed.frontmatter.title.is_none());
    assert!(parsed.frontmatter.published.is_none());
}

#[test]
fn well_formed_block_decodes_every_field() {
    let input = "---\ntitle: \"A\"\npublished: false\ntags: [\"x\", \"y\"]\nslug: \"s\"\n---\nhello";
    let parsed = parse_frontmatter(input);
    assert_eq!(parsed.frontmatter.title.as_deref(), Some("A"));
    assert_eq!(parsed.frontmatter.published, Some(false));
    assert_eq!(
        parsed.frontmatter.tags,
        Some(vec!["x".to_string(), "y".to_string()])
    );
    assert_eq!(parsed.frontmatter.slug.as_deref(), Some("s"));
    assert!(parsed.frontmatter.space.is_none());
    assert_eq!(parsed.content, "hello");
}

#[test]
fn empty_block_yields_defaults() {
    let parsed = parse_frontmatter("---\n---\nbody text");
    assert!(parsed.frontmatter.title.is_none());
    assert!(parsed.frontmatter.published.is_none());
    assert_eq!(parsed.content, "body text");
}

#[test]
fn undecodable_block_falls_back_to_whole_input() {
    let input = "---\ntitle: [unclosed\n---\nbody";
    let parsed = parse_frontmatter(input);
    assert!(parsed.frontmatter.title.is_none());
    assert_eq!(parsed.content, input);
}

#[test]
fn wrong_field_type_falls_back_to_whole_input() {
    let input = "---\ntitle: 123\n---\nbody";
    let parsed = parse_frontmatter(input);
    assert!(parsed.frontmatter.title.is_none());
    assert_eq!(parsed.content, input);
}

#[test]
fn block_style_tags_decode() {
    let parsed = parse_frontmatter("---\nspace: dev\ntags:\n  - a\n  - b\n---\nB");
    assert_eq!(parsed.frontmatter.space.as_deref(), Some("dev"));
    assert_eq!(
        parsed.frontmatter.tags,
        Some(vec!["a".to_string(), "b".to_string()])
    );
    assert_eq!(parsed.content, "B");
}

#[test]
fn leading_whitespace_before_marker_is_tolerated() {
    let parsed = parse_frontmatter("\n  \n---\nslug: z\n---\nrest");
    assert_eq!(parsed.frontmatter.slug.as_deref(), Some("z"));
    assert_eq!(parsed.content, "rest");
}

#[test]
fn one_newline_after_closing_delimiter_is_stripped() {
    let parsed = parse_frontmatter("---\nslug: z\n---\n\nbody");
    assert_eq!(parsed.frontmatter.slug.as_deref(), Some("z"));
    assert_eq!(parsed.content, "\nbody");
    let parsed = parse_frontmatter("---\nslug: z\n---rest of line");
    assert_eq!(parsed.content, "rest of line");
}

#[test]
fn unicode_whitespace_is_trimmed() {
    let parsed = parse_frontmatter("\u{a0}\n---\nslug: z\n---\nrest");
    assert_eq!(parsed.frontmatter.slug.as_deref(), Some("z"));
    assert_eq!(extract_title("\u{a0} # Padded \u{a0}\n", "f.md"), "Padded");
}

#[test]
fn title_from_first_heading_line() {
    assert_eq!(extract_title("# Hello World\nmore text", "f.md"), "Hello World");
}

#[test]
fn title_skips_non_heading_lines() {
    assert_eq!(extract_title("intro\n  #  Spaced   \nrest", "f.md"), "Spaced");
}

#[test]
fn title_falls_back_to_filename_stem() {
    assert_eq!(extract_title("", "notes.md"), "notes");
    assert_eq!(extract_title("no heading here", "dir/sub/post.draft.md"), "post.draft");
}

#[test]
fn title_falls_back_to_untitled() {
    assert_eq!(extract_title("", ""), "Untitled");
}

#[test]
fn stem_ignores_trailing_separators() {
    assert_eq!(extract_title("", "dir/"), "dir");
    assert_eq!(extract_title("", "a/b//"), "b");
    assert_eq!(extract_title("", "///"), "Untitled");
}

#[test]
fn resolve_title_prefers_explicit_field() {
    assert_eq!(
        resolve_title(&Some("Given".to_string()), "# Heading\n", "f.md"),
        "Given"
    );
    assert_eq!(resolve_title(&None, "# Heading\n", "f.md"), "Heading");
    assert_eq!(resolve_title(&Some(String::new()), "# Heading\n", "f.md"), "Heading");
}

#[test]
fn truncate_short_string_unchanged() {
    assert_eq!(truncate("short", 10), "short");
    assert_eq!(truncate("exactly-10", 10), "exactly-10");
}

#[test]
fn truncate_long_string_keeps_width() {
    let long = "a".repeat(40);
    let cut = truncate(&long, 38);
    assert_eq!(cut.len(), 38);
    let expected = format!("{}...", "a".repeat(35));
    assert_eq!(cut, expected);
}

#[test]
fn u64_renders_decimal() {
    assert_eq!(u64_to_string(0), "0");
    assert_eq!(u64_to_string(90210), "90210");
    assert_eq!(u64_to_string(u64::MAX), "18446744073709551615");
}
