use xeniria::front_matter::{extract_front_matter, ParseError};
use xeniria::analyzer::reading_time;
use xeniria::render::render_markdown;
use xeniria::assemble::{derive_file_name, parse_page_markdown, parse_post_markdown};

#[test]
fn extract_valid_front_matter() {
    let raw = "---\ntitle: Hello\nauthor: Ann\ndate: 2024-01-01\n---\nBody text.";
    let (fm, body) = extract_front_matter(raw).unwrap();
    assert_eq!(fm.title, "Hello");
    assert_eq!(fm.author, "Ann");
    assert_eq!(fm.date, "2024-01-01");
    assert_eq!(body, "Body text.");
}

#[test]
fn extract_keeps_body_byte_for_byte() {
    let raw = "---\ntitle: T\nauthor: A\ndate: D\n---\n# Head\n\n  spaced   body\n";
    let (_, body) = extract_front_matter(raw).unwrap();
    assert_eq!(body, "# Head\n\n  spaced   body\n");
}

#[test]
fn extract_trims_keys_and_values() {
    let raw = "---\n  title :  Spaced Out \nauthor:A\ndate: 2020-02-02\n---\nx";
    let (fm, _) = extract_front_matter(raw).unwrap();
    assert_eq!(fm.title, "Spaced Out");
    assert_eq!(fm.author, "A");
}

#[test]
fn extract_first_key_wins() {
    let raw = "---\ntitle: First\nauthor: A\ndate: D\ntitle: Second\n---\nx";
    let (fm, _) = extract_front_matter(raw).unwrap();
    assert_eq!(fm.title, "First");
}

#[test]
fn extract_missing_delimiter_fails() {
    let raw = "title: Hello\nauthor: Ann\ndate: 2024-01-01\nBody";
    assert_eq!(extract_front_matter(raw).unwrap_err(), ParseError::MalformedFrontMatter);
}

#[test]
fn extract_unterminated_block_fails() {
    let raw = "---\ntitle: Hello\nauthor: Ann\ndate: 2024-01-01\nBody with no close";
    assert_eq!(extract_front_matter(raw).unwrap_err(), ParseError::MalformedFrontMatter);
}

#[test]
fn extract_missing_required_field_fails() {
    let raw = "---\ntitle: Hello\nauthor: Ann\n---\nBody";
    assert_eq!(extract_front_matter(raw).unwrap_err(), ParseError::MalformedFrontMatter);
}

#[test]
fn extract_empty_title_fails() {
    let raw = "---\ntitle:\nauthor: Ann\ndate: D\n---\nBody";
    assert_eq!(extract_front_matter(raw).unwrap_err(), ParseError::MalformedFrontMatter);
}

#[test]
fn extract_close_at_end_gives_empty_body() {
    let raw = "---\ntitle: T\nauthor: A\ndate: D\n---";
    let (_, body) = extract_front_matter(raw).unwrap();
    assert_eq!(body, "");
}

#[test]
fn extract_line_without_colon_is_skipped() {
    let raw = "---\njust a line\ntitle: T\nauthor: A\ndate: D\n---\nb";
    let (fm, body) = extract_front_matter(raw).unwrap();
    assert_eq!(fm.title, "T");
    assert_eq!(body, "b");
}

#[test]
fn error_messages_name_the_failure() {
    assert_eq!(ParseError::MalformedFrontMatter.message(), "malformed front matter");
    assert_eq!(ParseError::EncodingError.message(), "file is not valid text");
    assert_eq!(ParseError::RenderError.message(), "markdown could not be rendered");
}

#[test]
fn reading_time_has_floor_of_one() {
    assert_eq!(reading_time(""), 1);
    assert_eq!(reading_time("   \n\t "), 1);
    assert_eq!(reading_time("one"), 1);
}

#[test]
fn reading_time_rounds_up_per_two_hundred_words() {
    let mut two_hundred = String::new();
    for _ in 0..200 {
        two_hundred.push_str("word ");
    }
    assert_eq!(reading_time(&two_hundred), 1);
    let mut more = two_hundred.clone();
    more.push_str("word");
    assert_eq!(reading_time(&more), 2);
}

#[test]
fn reading_time_never_decreases_when_words_are_appended() {
    let body = "a few words here";
    let mut longer = String::from(body);
    longer.push_str(" and quite a few more words appended at the end");
    assert!(reading_time(&longer) >= reading_time(body));
}

#[test]
fn rendering_is_deterministic() {
    let md = "# Title\n\nSome *emphasis* and a [link](https://example.org).\n\n- one\n- two\n";
    let first = render_markdown(md);
    let second = render_markdown(md);
    assert_eq!(first, second);
}

#[test]
fn rendering_covers_common_markdown() {
    let html = render_markdown("# Hi\n\n*em* **strong** `code`\n\n> quote\n");
    assert!(html.contains("<h1>Hi</h1>"));
    assert!(html.contains("<em>em</em>"));
    assert!(html.contains("<strong>strong</strong>"));
    assert!(html.contains("<code>code</code>"));
    assert!(html.contains("<blockquote>"));
}

#[test]
fn derive_file_name_uses_base_name_without_extension() {
    assert_eq!(derive_file_name("content/hello.md"), "public/posts/hello.html");
    assert_eq!(derive_file_name("hello.md"), "public/posts/hello.html");
    assert_eq!(derive_file_name("a/b/c/deep.md"), "public/posts/deep.html");
    assert_eq!(derive_file_name("content/noext"), "public/posts/noext.html");
    assert_eq!(derive_file_name("content/a.tar.md"), "public/posts/a.tar.html");
}

#[test]
fn page_assembly_renders_the_body() {
    let raw = "---\ntitle: About\nauthor: Ann\ndate: 2024-01-01\n---\n# Who\n\nMe.";
    let page = parse_page_markdown(raw).unwrap();
    assert_eq!(page.front_matter.title, "About");
    assert!(page.content.contains("<h1>Who</h1>"));
    assert!(page.content.contains("<p>Me.</p>"));
}

#[test]
fn page_assembly_propagates_extraction_failure() {
    assert_eq!(
        parse_page_markdown("no front matter").unwrap_err(),
        ParseError::MalformedFrontMatter
    );
}

#[test]
fn post_round_trip() {
    let raw = "---\ntitle: Hello\nauthor: Ann\ndate: 2024-01-01\n---\n# Hi\n\nThis is a short post.";
    let post = parse_post_markdown(raw, "content/hello.md").unwrap();
    assert_eq!(post.file_name, "public/posts/hello.html");
    assert_eq!(post.reading_time, 1);
    assert_eq!(post.front_matter.title, "Hello");
    assert_eq!(post.front_matter.author, "Ann");
    assert_eq!(post.front_matter.date, "2024-01-01");
    assert!(post.content.contains("<h1>Hi</h1>"));
    assert!(post.content.contains("<p>This is a short post.</p>"));
}

#[test]
fn post_assembly_propagates_extraction_failure() {
    assert_eq!(
        parse_post_markdown("---\ntitle: x\nno close", "content/x.md").unwrap_err(),
        ParseError::MalformedFrontMatter
    );
}
