use xeniria::front_matter::{FrontMatter, ParseError};
use xeniria::assemble::Post;
use xeniria::html::{html_escape, index_html, page_html, post_html};
use xeniria::site::{build_site, route_path, InputFile, Route};
use xeniria::config::BuildConfig;

fn post_input(path: &str, title: &str) -> InputFile {
    InputFile {
        path: String::from(path),
        text: Some(format!(
            "---\ntitle: {}\nauthor: Ann\ndate: 2024-01-01\n---\nShort body.",
            title
        )),
    }
}

#[test]
fn html_escape_replaces_markup_characters() {
    assert_eq!(html_escape("<Tom & \"Jerry\">"), "&lt;Tom &amp; &quot;Jerry&quot;&gt;");
    assert_eq!(html_escape("plain"), "plain");
    assert_eq!(html_escape(""), "");
}

#[test]
fn page_html_escapes_metadata_and_embeds_body_verbatim() {
    let page = xeniria::assemble::Page {
        front_matter: FrontMatter {
            title: String::from("A & B"),
            author: String::from("C <D>"),
            date: String::from("2024-01-01"),
        },
        content: String::from("<p>body</p>"),
    };
    assert_eq!(
        page_html(&page),
        "<html><head><title>A &amp; B</title></head><body><h1>A &amp; B</h1>\
         <p>By C &lt;D&gt;</p><p>body</p></body></html>"
    );
}

#[test]
fn post_html_carries_date_and_reading_time() {
    let post = Post {
        front_matter: FrontMatter {
            title: String::from("T"),
            author: String::from("A"),
            date: String::from("2024-06-30"),
        },
        content: String::from("<p>b</p>"),
        reading_time: 12,
        file_name: String::from("public/posts/t.html"),
    };
    assert_eq!(
        post_html(&post),
        "<html><head><title>T</title></head><body><h1>T</h1><p><strong>By A</strong> \
         - 2024-06-30</p><p>Estimated Reading Time: 12 min</p><p>b</p></body></html>"
    );
}

#[test]
fn index_html_of_no_posts_is_just_the_frame() {
    let posts: Vec<Post> = Vec::new();
    assert_eq!(
        index_html(&posts),
        "<html><head><title>Xeniria Blog</title></head><body><h1>Xeniria Blog</h1>\
         <ul></ul><p><a href=\"about.html\">About</a></p></body></html>"
    );
}

#[test]
fn routing_follows_the_path_convention() {
    assert_eq!(route_path("content/about.md"), Route::AboutPage);
    assert_eq!(route_path("about.md"), Route::AboutPage);
    assert_eq!(route_path("content/hello.md"), Route::BlogPost);
    assert_eq!(route_path("content/notes.txt"), Route::Skipped);
    assert_eq!(route_path("content/readme"), Route::Skipped);
}

#[test]
fn about_page_never_joins_the_post_sequence() {
    let inputs = vec![
        InputFile {
            path: String::from("content/about.md"),
            text: Some(String::from("---\ntitle: About\nauthor: Ann\ndate: D\n---\nHi.")),
        },
        post_input("content/hello.md", "Hello"),
    ];
    let out = build_site(&inputs);
    assert_eq!(out.posts.len(), 1);
    assert_eq!(out.posts[0].front_matter.title, "Hello");
    assert!(out.files.iter().any(|f| f.path == "public/about.html"));
    assert!(out.files.iter().all(|f| f.path != "public/about.md"));
    assert_eq!(index_of_build(&out).matches("<li>").count(), 1);
}

fn index_of_build(out: &xeniria::site::BuildOutput) -> String {
    out.files.last().unwrap().html.clone()
}

#[test]
fn unterminated_front_matter_is_reported_and_skipped() {
    let inputs = vec![
        InputFile {
            path: String::from("content/bad.md"),
            text: Some(String::from("---\ntitle: Bad\nauthor: A\ndate: D\nno close")),
        },
        post_input("content/good.md", "Good"),
    ];
    let out = build_site(&inputs);
    assert_eq!(out.diagnostics.len(), 1);
    assert_eq!(out.diagnostics[0].path, "content/bad.md");
    assert_eq!(out.diagnostics[0].error, ParseError::MalformedFrontMatter);
    assert_eq!(out.posts.len(), 1);
    assert_eq!(out.posts[0].front_matter.title, "Good");
    assert!(out.files.iter().all(|f| f.path != "public/posts/bad.html"));
    assert!(out.files.iter().any(|f| f.path == "public/posts/good.html"));
    assert!(!index_of_build(&out).contains("bad.html"));
}

#[test]
fn unreadable_file_reports_an_encoding_error() {
    let inputs = vec![InputFile { path: String::from("content/odd.md"), text: None }];
    let out = build_site(&inputs);
    assert_eq!(out.diagnostics.len(), 1);
    assert_eq!(out.diagnostics[0].error, ParseError::EncodingError);
    assert_eq!(out.posts.len(), 0);
}

#[test]
fn index_lists_posts_in_assembly_order() {
    let inputs = vec![
        post_input("content/first.md", "First Post"),
        post_input("content/second.md", "Second Post"),
    ];
    let out = build_site(&inputs);
    assert_eq!(out.posts.len(), 2);
    let index = index_of_build(&out);
    assert_eq!(out.files.last().unwrap().path, "public/index.html");
    assert_eq!(index.matches("<li>").count(), 2);
    let first = index.find("<a href=\"posts/first.html\">First Post</a>").unwrap();
    let second = index.find("<a href=\"posts/second.html\">Second Post</a>").unwrap();
    assert!(first < second);
    assert!(index.contains("2024-01-01"));
    assert!(index.contains("1 min read"));
}

#[test]
fn skipped_files_leave_no_trace() {
    let inputs = vec![
        InputFile { path: String::from("content/style.css"), text: Some(String::from("x")) },
        post_input("content/p.md", "P"),
    ];
    let out = build_site(&inputs);
    assert_eq!(out.diagnostics.len(), 0);
    assert_eq!(out.posts.len(), 1);
    assert_eq!(out.files.len(), 2);
}

#[test]
fn default_configuration_matches_the_conventions() {
    let c = BuildConfig::default();
    assert_eq!(c.content_dir, "content");
    assert_eq!(c.output_dir, "public");
    assert_eq!(c.port, 8464);
}
