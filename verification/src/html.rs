//! Typed record-to-HTML projections: one function per page kind. User-provided
//! title, author and date text is HTML-escaped; the rendered Markdown body is
//! inserted verbatim, since it is already HTML.

use vstd::prelude::*;
use vstd::string::StringExecFns;
use crate::assemble::{Page, PageView, Post, PostView};
use crate::text::{chars_vec, dec_str, push_decimal, string_of_region};

verus! {

/// The replacement a character gets in escaped HTML text.
pub open spec fn escape_char(c: char) -> Seq<char> {
    if c == '&' {
        "&amp;"@
    } else if c == '<' {
        "&lt;"@
    } else if c == '>' {
        "&gt;"@
    } else if c == '"' {
        "&quot;"@
    } else {
        seq![c]
    }
}

/// `s` with every markup-significant character replaced by its entity.
pub open spec fn escape_html(s: Seq<char>) -> Seq<char>
    decreases s.len(),
{
    if s.len() == 0 {
        Seq::empty()
    } else {
        escape_char(s[0]) + escape_html(s.drop_first())
    }
}

proof fn lemma_escape_push(s: Seq<char>, c: char)
    ensures
        escape_html(s.push(c)) == escape_html(s) + escape_char(c),
    decreases s.len(),
{
    if s.len() == 0 {
        assert(s =~= Seq::<char>::empty());
        assert(s.push(c)[0] == c);
        assert(s.push(c).drop_first() =~= Seq::<char>::empty());
        assert(escape_html(Seq::<char>::empty()) == Seq::<char>::empty());
        assert(escape_char(c) + Seq::<char>::empty() =~= escape_char(c));
        assert(Seq::<char>::empty() + escape_char(c) =~= escape_char(c));
    } else {
        assert(s.push(c)[0] == s[0]);
        assert(s.push(c).drop_first() =~= s.drop_first().push(c));
        lemma_escape_push(s.drop_first(), c);
        assert(escape_char(s[0]) + (escape_html(s.drop_first()) + escape_char(c)) =~= (escape_char(
            s[0],
        ) + escape_html(s.drop_first())) + escape_char(c));
    }
}

/// Escapes text for literal inclusion in HTML.
pub fn html_escape(s: &str) -> (r: String)
    ensures
        r@ == escape_html(s@),
{
    let v = chars_vec(s);
    let mut out = String::new();
    let mut i: usize = 0;
    proof {
        assert(v@.take(0) =~= Seq::<char>::empty());
    }
    while i < v.len()
        invariant
            i <= v@.len(),
            v@ == s@,
            out@ == escape_html(v@.take(i as int)),
        decreases v@.len() - i,
    {
        let c = v[i];
        if c == '&' {
            out.append("&amp;");
        } else if c == '<' {
            out.append("&lt;");
        } else if c == '>' {
            out.append("&gt;");
        } else if c == '"' {
            out.append("&quot;");
        } else {
            out.push(c);
            proof {
                assert(escape_html(v@.take(i as int)).push(c) =~= escape_html(
                    v@.take(i as int),
                ) + escape_char(c));
            }
        }
        proof {
            lemma_escape_push(v@.take(i as int), v@[i as int]);
            assert(v@.take(i as int).push(v@[i as int]) =~= v@.take(i + 1 as int));
        }
        i += 1;
    }
    proof {
        assert(v@.take(v@.len() as int) =~= v@);
    }
    out
}

/// The HTML document of a standalone page: title, heading, author line,
/// rendered body.
pub open spec fn spec_page_html(p: PageView) -> Seq<char> {
    "<html><head><title>"@ + escape_html(p.front_matter.title) + "</title></head><body><h1>"@
        + escape_html(p.front_matter.title) + "</h1><p>By "@ + escape_html(p.front_matter.author)
        + "</p>"@ + p.content + "</body></html>"@
}

/// Renders a page record to its HTML document.
pub fn page_html(page: &Page) -> (r: String)
    ensures
        r@ == spec_page_html(page@),
{
    let mut out = String::from_str("<html><head><title>");
    let t = html_escape(page.front_matter.title.as_str());
    out.append(t.as_str());
    out.append("</title></head><body><h1>");
    out.append(t.as_str());
    out.append("</h1><p>By ");
    let a = html_escape(page.front_matter.author.as_str());
    out.append(a.as_str());
    out.append("</p>");
    out.append(page.content.as_str());
    out.append("</body></html>");
    out
}

/// The HTML document of a post: title, heading, author and date line,
/// estimated reading time line, rendered body.
pub open spec fn spec_post_html(p: PostView) -> Seq<char> {
    "<html><head><title>"@ + escape_html(p.front_matter.title) + "</title></head><body><h1>"@
        + escape_html(p.front_matter.title) + "</h1><p><strong>By "@ + escape_html(
        p.front_matter.author,
    ) + "</strong> - "@ + escape_html(p.front_matter.date) + "</p><p>Estimated Reading Time: "@
        + dec_str(p.reading_time as int) + " min</p>"@ + p.content + "</body></html>"@
}

/// Renders a post record to its HTML document.
pub fn post_html(post: &Post) -> (r: String)
    ensures
        r@ == spec_post_html(post@),
{
    let mut out = String::from_str("<html><head><title>");
    let t = html_escape(post.front_matter.title.as_str());
    out.append(t.as_str());
    out.append("</title></head><body><h1>");
    out.append(t.as_str());
    out.append("</h1><p><strong>By ");
    let a = html_escape(post.front_matter.author.as_str());
    out.append(a.as_str());
    out.append("</strong> - ");
    let d = html_escape(post.front_matter.date.as_str());
    out.append(d.as_str());
    out.append("</p><p>Estimated Reading Time: ");
    push_decimal(&mut out, post.reading_time);
    out.append(" min</p>");
    out.append(post.content.as_str());
    out.append("</body></html>");
    out
}

/// A post's link target relative to the output directory: its file name with
/// the leading `public/` removed.
pub open spec fn rel_href(file_name: Seq<char>) -> Seq<char> {
    if file_name.len() >= 7 && file_name.take(7) == "public/"@ {
        file_name.skip(7)
    } else {
        file_name
    }
}

fn public_pat() -> (v: Vec<char>)
    ensures
        v@ == "public/"@,
{
    let mut v: Vec<char> = Vec::new();
    v.push('p');
    v.push('u');
    v.push('b');
    v.push('l');
    v.push('i');
    v.push('c');
    v.push('/');
    proof {
        reveal_strlit("public/");
        assert(v@ =~= "public/"@);
    }
    v
}

/// One index entry: a link to the post, its title, its date, and its reading
/// time.
pub open spec fn spec_index_entry(p: PostView) -> Seq<char> {
    "<li><a href=\""@ + rel_href(p.file_name) + "\">"@ + escape_html(p.front_matter.title)
        + "</a> - "@ + escape_html(p.front_matter.date) + " - "@ + dec_str(p.reading_time as int)
        + " min read</li>"@
}

/// The index entries of `posts`, in order.
pub open spec fn spec_index_items(posts: Seq<PostView>) -> Seq<char>
    decreases posts.len(),
{
    if posts.len() == 0 {
        Seq::empty()
    } else {
        spec_index_entry(posts[0]) + spec_index_items(posts.drop_first())
    }
}

proof fn lemma_index_items_push(posts: Seq<PostView>, p: PostView)
    ensures
        spec_index_items(posts.push(p)) == spec_index_items(posts) + spec_index_entry(p),
    decreases posts.len(),
{
    if posts.len() == 0 {
        assert(posts =~= Seq::<PostView>::empty());
        assert(posts.push(p)[0] == p);
        assert(posts.push(p).drop_first() =~= Seq::<PostView>::empty());
        assert(spec_index_items(Seq::<PostView>::empty()) == Seq::<char>::empty());
        assert(spec_index_entry(p) + Seq::<char>::empty() =~= spec_index_entry(p));
        assert(Seq::<char>::empty() + spec_index_entry(p) =~= spec_index_entry(p));
    } else {
        assert(posts.push(p)[0] == posts[0]);
        assert(posts.push(p).drop_first() =~= posts.drop_first().push(p));
        lemma_index_items_push(posts.drop_first(), p);
        assert(spec_index_entry(posts[0]) + (spec_index_items(posts.drop_first())
            + spec_index_entry(p)) =~= (spec_index_entry(posts[0]) + spec_index_items(
            posts.drop_first(),
        )) + spec_index_entry(p));
    }
}

/// The HTML document of the index: title, heading, the entries of all posts in
/// assembly order, and a link to the about page.
pub open spec fn spec_index_html(posts: Seq<PostView>) -> Seq<char> {
    "<html><head><title>Xeniria Blog</title></head><body><h1>Xeniria Blog</h1><ul>"@
        + spec_index_items(posts)
        + "</ul><p><a href=\"about.html\">About</a></p></body></html>"@
}

fn index_entry(post: &Post) -> (r: String)
    ensures
        r@ == spec_index_entry(post@),
{
    let mut out = String::from_str("<li><a href=\"");
    let name = chars_vec(post.file_name.as_str());
    let pat = public_pat();
    let is_public = if name.len() >= 7 {
        crate::text::region_matches(&name, 0, 7, &pat)
    } else {
        false
    };
    proof {
        if name@.len() >= 7 {
            assert(name@.subrange(0, 7) =~= name@.take(7));
        }
    }
    let href: String = if is_public {
        string_of_region(&name, 7, name.len())
    } else {
        string_of_region(&name, 0, name.len())
    };
    proof {
        assert(name@.subrange(7, name@.len() as int) =~= name@.skip(7));
        assert(name@.subrange(0, name@.len() as int) =~= name@);
    }
    out.append(href.as_str());
    out.append("\">");
    let t = html_escape(post.front_matter.title.as_str());
    out.append(t.as_str());
    out.append("</a> - ");
    let d = html_escape(post.front_matter.date.as_str());
    out.append(d.as_str());
    out.append(" - ");
    push_decimal(&mut out, post.reading_time);
    out.append(" min read</li>");
    out
}

/// Renders the index document listing `posts`, in order.
pub fn index_html(posts: &Vec<Post>) -> (r: String)
    ensures
        r@ == spec_index_html(posts@.map_values(|p: Post| p@)),
{
    let ghost views = posts@.map_values(|p: Post| p@);
    let mut out = String::from_str(
        "<html><head><title>Xeniria Blog</title></head><body><h1>Xeniria Blog</h1><ul>",
    );
    let ghost header = out@;
    let mut i: usize = 0;
    proof {
        assert(views.take(0) =~= Seq::<PostView>::empty());
    }
    while i < posts.len()
        invariant
            i <= posts@.len(),
            views == posts@.map_values(|p: Post| p@),
            out@ == header + spec_index_items(views.take(i as int)),
        decreases posts@.len() - i,
    {
        let entry = index_entry(&posts[i]);
        out.append(entry.as_str());
        proof {
            lemma_index_items_push(views.take(i as int), views[i as int]);
            assert(views.take(i as int).push(views[i as int]) =~= views.take(i + 1 as int));
            assert((header + spec_index_items(views.take(i as int))) + spec_index_entry(
                views[i as int],
            ) =~= header + (spec_index_items(views.take(i as int)) + spec_index_entry(
                views[i as int],
            )));
        }
        i += 1;
    }
    proof {
        assert(views.take(posts@.len() as int) =~= views);
    }
    out.append("</ul><p><a href=\"about.html\">About</a></p></body></html>");
    out
}

} // verus!
