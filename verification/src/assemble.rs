//! Page and post assembly: combines the extractor, the renderer and the
//! analyzer into the records the build consumes, and derives each post's
//! output path from its source path.

use vstd::prelude::*;
use vstd::string::StringExecFns;
use crate::analyzer::{reading_time, spec_reading_time};
use crate::front_matter::{extract_front_matter, spec_extract, FrontMatter, FrontMatterView,
    ParseError};
use crate::render::{html_of, render_markdown};
use crate::text::{chars_vec, push_region};

verus! {

/// Index of the last occurrence of `c` in `s`, or `-1` if `c` is absent.
pub open spec fn find_last(s: Seq<char>, c: char) -> int
    decreases s.len(),
{
    if s.len() == 0 {
        -1
    } else if s.last() == c {
        s.len() - 1
    } else {
        find_last(s.drop_last(), c)
    }
}

pub proof fn lemma_find_last(s: Seq<char>, c: char)
    ensures
        -1 <= find_last(s, c) < s.len(),
        find_last(s, c) >= 0 ==> s[find_last(s, c)] == c,
        forall|j: int| find_last(s, c) < j < s.len() ==> s[j] != c,
    decreases s.len(),
{
    if s.len() == 0 {
    } else if s.last() == c {
    } else {
        lemma_find_last(s.drop_last(), c);
        let f = find_last(s, c);
        if f >= 0 {
            assert(s.drop_last()[f] == s[f]);
        }
        assert forall|j: int| f < j < s.len() implies s[j] != c by {
            if j < s.len() - 1 {
                assert(s.drop_last()[j] == s[j]);
            }
        }
    }
}

/// A position holding `c` with no later occurrence — or `-1` when `c` is
/// absent — is exactly `find_last`.
pub proof fn lemma_find_last_at(s: Seq<char>, c: char, i: int)
    requires
        -1 <= i < s.len(),
        i >= 0 ==> s[i] == c,
        forall|j: int| i < j < s.len() ==> s[j] != c,
    ensures
        find_last(s, c) == i,
{
    lemma_find_last(s, c);
    let f = find_last(s, c);
    if f < i {
        assert(s[i] != c);
    }
    if i < f {
        assert(s[f] != c);
    }
}

/// The file name part of `path`: everything after the last slash.
pub open spec fn base_name(path: Seq<char>) -> Seq<char> {
    path.skip(find_last(path, '/') + 1)
}

/// `name` without its extension: everything before the last dot, or all of it
/// when there is no dot.
pub open spec fn stem_of(name: Seq<char>) -> Seq<char> {
    if find_last(name, '.') >= 0 {
        name.take(find_last(name, '.'))
    } else {
        name
    }
}

/// The output path of the post built from the source file at `path`.
pub open spec fn spec_file_name(path: Seq<char>) -> Seq<char> {
    "public/posts/"@ + stem_of(base_name(path)) + ".html"@
}

/// Derives a post's output path: the source file's base name, without its
/// extension, rooted under the posts output directory.
pub fn derive_file_name(path: &str) -> (r: String)
    ensures
        r@ == spec_file_name(path@),
{
    let s = chars_vec(path);
    let n = s.len();
    let mut j = n;
    while j > 0 && s[j - 1] != '/'
        invariant
            j <= n,
            n == s@.len(),
            s@ == path@,
            forall|jj: int| j <= jj < n ==> s@[jj] != '/',
        decreases j,
    {
        j -= 1;
    }
    proof {
        if j == 0 {
            lemma_find_last_at(s@, '/', -1);
        } else {
            lemma_find_last_at(s@, '/', j - 1);
        }
        assert(base_name(path@) =~= s@.subrange(j as int, n as int));
    }
    let mut m = n;
    while m > j && s[m - 1] != '.'
        invariant
            j <= m <= n,
            n == s@.len(),
            s@ == path@,
            forall|jj: int| m <= jj < n ==> s@[jj] != '.',
        decreases m,
    {
        m -= 1;
    }
    let end = if m > j {
        m - 1
    } else {
        n
    };
    proof {
        let base = base_name(path@);
        if m > j {
            assert(base[m - 1 - j] == s@[m - 1]);
            assert forall|x: int| m - 1 - j < x < base.len() implies base[x] != '.' by {
                assert(base[x] == s@[j + x]);
            }
            lemma_find_last_at(base, '.', m - 1 - j);
            assert(base.take(m - 1 - j) =~= s@.subrange(j as int, end as int));
        } else {
            assert forall|x: int| -1 < x < base.len() implies base[x] != '.' by {
                assert(base[x] == s@[j + x]);
            }
            lemma_find_last_at(base, '.', -1);
            assert(base =~= s@.subrange(j as int, end as int));
        }
    }
    let mut out = String::from_str("public/posts/");
    push_region(&mut out, &s, j, end);
    let out = out.concat(".html");
    out
}

/// A standalone page: metadata and rendered body.
#[derive(Debug)]
pub struct Page {
    pub front_matter: FrontMatter,
    pub content: String,
}

/// The mathematical value of a `Page`.
pub struct PageView {
    pub front_matter: FrontMatterView,
    pub content: Seq<char>,
}

impl View for Page {
    type V = PageView;

    open spec fn view(&self) -> PageView {
        PageView { front_matter: self.front_matter@, content: self.content@ }
    }
}

/// A blog entry: metadata, rendered body, estimated reading time, and the
/// derived output path.
#[derive(Debug)]
pub struct Post {
    pub front_matter: FrontMatter,
    pub content: String,
    pub reading_time: u64,
    pub file_name: String,
}

/// The mathematical value of a `Post`.
pub struct PostView {
    pub front_matter: FrontMatterView,
    pub content: Seq<char>,
    pub reading_time: nat,
    pub file_name: Seq<char>,
}

impl View for Post {
    type V = PostView;

    open spec fn view(&self) -> PostView {
        PostView {
            front_matter: self.front_matter@,
            content: self.content@,
            reading_time: self.reading_time as nat,
            file_name: self.file_name@,
        }
    }
}

/// The page assembled from raw source text, or nothing when its front matter
/// is malformed.
pub open spec fn spec_page(raw: Seq<char>) -> Option<PageView> {
    match spec_extract(raw) {
        None => None,
        Some((fm, body)) => Some(PageView { front_matter: fm, content: html_of(body) }),
    }
}

/// The post assembled from raw source text and its source path, or nothing
/// when its front matter is malformed.
pub open spec fn spec_post(raw: Seq<char>, path: Seq<char>) -> Option<PostView> {
    match spec_extract(raw) {
        None => None,
        Some((fm, body)) => Some(
            PostView {
                front_matter: fm,
                content: html_of(body),
                reading_time: spec_reading_time(body),
                file_name: spec_file_name(path),
            },
        ),
    }
}

/// Assembles a standalone page from raw source text: extracts the front
/// matter, then renders the body. Fails exactly when extraction fails.
pub fn parse_page_markdown(raw: &str) -> (r: Result<Page, ParseError>)
    ensures
        match r {
            Ok(page) => spec_page(raw@) == Some(page@),
            Err(e) => spec_page(raw@) is None && e == ParseError::MalformedFrontMatter,
        },
{
    match extract_front_matter(raw) {
        Err(e) => Err(e),
        Ok((fm, body)) => {
            let content = render_markdown(body.as_str());
            Ok(Page { front_matter: fm, content })
        },
    }
}

/// Assembles a blog post from raw source text and the path of its source
/// file: extracts the front matter, renders the body, estimates the reading
/// time, and derives the output path. Fails exactly when extraction fails.
pub fn parse_post_markdown(raw: &str, source_path: &str) -> (r: Result<Post, ParseError>)
    ensures
        match r {
            Ok(post) => spec_post(raw@, source_path@) == Some(post@) && post.reading_time >= 1,
            Err(e) => spec_post(raw@, source_path@) is None && e
                == ParseError::MalformedFrontMatter,
        },
{
    match extract_front_matter(raw) {
        Err(e) => Err(e),
        Ok((fm, body)) => {
            let content = render_markdown(body.as_str());
            let minutes = reading_time(body.as_str());
            let file_name = derive_file_name(source_path);
            Ok(Post { front_matter: fm, content, reading_time: minutes, file_name })
        },
    }
}

} // verus!
