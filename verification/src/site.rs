//! The build as a pure computation: routes each source file, assembles pages
//! and posts, renders their documents, collects per-file diagnostics, and
//! builds the index — all from in-memory values. Walking the content
//! directory and writing the output files stay outside.

use vstd::prelude::*;
use vstd::string::StringExecFns;
use crate::assemble::{parse_page_markdown, parse_post_markdown, spec_page, spec_post, Post,
    PostView};
use crate::front_matter::{spec_extract, ParseError};
use crate::html::{index_html, page_html, post_html, spec_index_html, spec_page_html,
    spec_post_html};
use crate::text::{chars_vec, region_matches};

verus! {

/// Where a source file goes: the about page, a blog post, or nowhere.
#[derive(Clone, Copy, Debug, PartialEq, Eq, Structural)]
pub enum Route {
    AboutPage,
    BlogPost,
    Skipped,
}

pub open spec fn is_md_path(p: Seq<char>) -> bool {
    p.len() >= 3 && p.skip(p.len() - 3) == ".md"@
}

pub open spec fn is_about_path(p: Seq<char>) -> bool {
    p.len() >= 8 && p.skip(p.len() - 8) == "about.md"@
}

/// A path ending in `about.md` is the about page; every other `.md` path is a
/// blog post; anything else is skipped.
pub open spec fn spec_route(p: Seq<char>) -> Route {
    if !is_md_path(p) {
        Route::Skipped
    } else if is_about_path(p) {
        Route::AboutPage
    } else {
        Route::BlogPost
    }
}

fn md_pat() -> (v: Vec<char>)
    ensures
        v@ == ".md"@,
{
    let mut v: Vec<char> = Vec::new();
    v.push('.');
    v.push('m');
    v.push('d');
    proof {
        reveal_strlit(".md");
        assert(v@ =~= ".md"@);
    }
    v
}

fn about_pat() -> (v: Vec<char>)
    ensures
        v@ == "about.md"@,
{
    let mut v: Vec<char> = Vec::new();
    v.push('a');
    v.push('b');
    v.push('o');
    v.push('u');
    v.push('t');
    v.push('.');
    v.push('m');
    v.push('d');
    proof {
        reveal_strlit("about.md");
        assert(v@ =~= "about.md"@);
    }
    v
}

/// Decides which contract the source file at `path` is routed to.
pub fn route_path(path: &str) -> (r: Route)
    ensures
        r == spec_route(path@),
{
    let v = chars_vec(path);
    if v.len() < 3 {
        return Route::Skipped;
    }
    let md = md_pat();
    let is_md = region_matches(&v, v.len() - 3, v.len(), &md);
    proof {
        assert(v@.subrange(v@.len() - 3, v@.len() as int) =~= v@.skip(v@.len() - 3));
    }
    if !is_md {
        return Route::Skipped;
    }
    if v.len() >= 8 {
        let about = about_pat();
        let is_about = region_matches(&v, v.len() - 8, v.len(), &about);
        proof {
            assert(v@.subrange(v@.len() - 8, v@.len() as int) =~= v@.skip(v@.len() - 8));
        }
        if is_about {
            Route::AboutPage
        } else {
            Route::BlogPost
        }
    } else {
        Route::BlogPost
    }
}

/// One source file handed to the build: its path, and its text, or nothing
/// when it could not be read as text.
pub struct InputFile {
    pub path: String,
    pub text: Option<String>,
}

/// The mathematical value of an `InputFile`.
pub struct InputView {
    pub path: Seq<char>,
    pub text: Option<Seq<char>>,
}

impl View for InputFile {
    type V = InputView;

    open spec fn view(&self) -> InputView {
        InputView {
            path: self.path@,
            text: match self.text {
                Some(t) => Some(t@),
                None => None,
            },
        }
    }
}

/// One document the build produces: where to write it, and its HTML.
pub struct OutputFile {
    pub path: String,
    pub html: String,
}

/// The mathematical value of an `OutputFile`.
pub struct OutputView {
    pub path: Seq<char>,
    pub html: Seq<char>,
}

impl View for OutputFile {
    type V = OutputView;

    open spec fn view(&self) -> OutputView {
        OutputView { path: self.path@, html: self.html@ }
    }
}

/// One file-scoped failure: the offending path and the error kind.
pub struct Diagnostic {
    pub path: String,
    pub error: ParseError,
}

/// The mathematical value of a `Diagnostic`.
pub struct DiagView {
    pub path: Seq<char>,
    pub error: ParseError,
}

impl View for Diagnostic {
    type V = DiagView;

    open spec fn view(&self) -> DiagView {
        DiagView { path: self.path@, error: self.error }
    }
}

/// The documents one source file contributes.
pub open spec fn spec_outputs_of(f: InputView) -> Seq<OutputView> {
    match spec_route(f.path) {
        Route::Skipped => Seq::empty(),
        Route::AboutPage => match f.text {
            None => Seq::empty(),
            Some(t) => match spec_page(t) {
                None => Seq::empty(),
                Some(pv) => seq![
                    OutputView { path: "public/about.html"@, html: spec_page_html(pv) },
                ],
            },
        },
        Route::BlogPost => match f.text {
            None => Seq::empty(),
            Some(t) => match spec_post(t, f.path) {
                None => Seq::empty(),
                Some(pv) => seq![OutputView { path: pv.file_name, html: spec_post_html(pv) }],
            },
        },
    }
}

/// The posts one source file contributes: only a readable, well-formed file
/// routed as a blog post contributes one.
pub open spec fn spec_posts_of(f: InputView) -> Seq<PostView> {
    match spec_route(f.path) {
        Route::BlogPost => match f.text {
            None => Seq::empty(),
            Some(t) => match spec_post(t, f.path) {
                None => Seq::empty(),
                Some(pv) => seq![pv],
            },
        },
        _ => Seq::empty(),
    }
}

/// The diagnostics one source file contributes: an unreadable routed file
/// reports an encoding error, a malformed one reports its front matter.
pub open spec fn spec_diags_of(f: InputView) -> Seq<DiagView> {
    match spec_route(f.path) {
        Route::Skipped => Seq::empty(),
        _ => match f.text {
            None => seq![DiagView { path: f.path, error: ParseError::EncodingError }],
            Some(t) => if spec_extract(t) is None {
                seq![DiagView { path: f.path, error: ParseError::MalformedFrontMatter }]
            } else {
                Seq::empty()
            },
        },
    }
}

/// The documents of all inputs, in input order.
pub open spec fn spec_outputs(ins: Seq<InputView>) -> Seq<OutputView>
    decreases ins.len(),
{
    if ins.len() == 0 {
        Seq::empty()
    } else {
        spec_outputs_of(ins[0]) + spec_outputs(ins.drop_first())
    }
}

/// The collected posts of all inputs, in input order.
pub open spec fn spec_posts(ins: Seq<InputView>) -> Seq<PostView>
    decreases ins.len(),
{
    if ins.len() == 0 {
        Seq::empty()
    } else {
        spec_posts_of(ins[0]) + spec_posts(ins.drop_first())
    }
}

/// The diagnostics of all inputs, in input order.
pub open spec fn spec_diags(ins: Seq<InputView>) -> Seq<DiagView>
    decreases ins.len(),
{
    if ins.len() == 0 {
        Seq::empty()
    } else {
        spec_diags_of(ins[0]) + spec_diags(ins.drop_first())
    }
}

/// A file not routed as a blog post — the about page among them — never
/// contributes to the collected post sequence.
pub proof fn lemma_only_blog_posts_are_collected(f: InputView)
    requires
        spec_route(f.path) != Route::BlogPost,
    ensures
        spec_posts_of(f) == Seq::<PostView>::empty(),
{
}

/// A routed file whose front matter is malformed contributes exactly one
/// diagnostic naming it, and no document and no post — the rest of the build
/// is untouched.
pub proof fn lemma_malformed_file_is_reported_and_skipped(f: InputView, t: Seq<char>)
    requires
        spec_route(f.path) != Route::Skipped,
        f.text == Some(t),
        spec_extract(t) is None,
    ensures
        spec_outputs_of(f) == Seq::<OutputView>::empty(),
        spec_posts_of(f) == Seq::<PostView>::empty(),
        spec_diags_of(f) == seq![
            DiagView { path: f.path, error: ParseError::MalformedFrontMatter },
        ],
{
}

proof fn lemma_spec_outputs_push(ins: Seq<InputView>, f: InputView)
    ensures
        spec_outputs(ins.push(f)) == spec_outputs(ins) + spec_outputs_of(f),
    decreases ins.len(),
{
    if ins.len() == 0 {
        assert(ins.push(f)[0] == f);
        assert(ins.push(f).drop_first() =~= Seq::<InputView>::empty());
        assert(spec_outputs(Seq::<InputView>::empty()) == Seq::<OutputView>::empty());
        assert(spec_outputs_of(f) + Seq::<OutputView>::empty() =~= spec_outputs_of(f));
        assert(Seq::<OutputView>::empty() + spec_outputs_of(f) =~= spec_outputs_of(f));
    } else {
        assert(ins.push(f)[0] == ins[0]);
        assert(ins.push(f).drop_first() =~= ins.drop_first().push(f));
        lemma_spec_outputs_push(ins.drop_first(), f);
        assert(spec_outputs_of(ins[0]) + (spec_outputs(ins.drop_first()) + spec_outputs_of(f))
            =~= (spec_outputs_of(ins[0]) + spec_outputs(ins.drop_first())) + spec_outputs_of(f));
    }
}

proof fn lemma_spec_posts_push(ins: Seq<InputView>, f: InputView)
    ensures
        spec_posts(ins.push(f)) == spec_posts(ins) + spec_posts_of(f),
    decreases ins.len(),
{
    if ins.len() == 0 {
        assert(ins.push(f)[0] == f);
        assert(ins.push(f).drop_first() =~= Seq::<InputView>::empty());
        assert(spec_posts(Seq::<InputView>::empty()) == Seq::<PostView>::empty());
        assert(spec_posts_of(f) + Seq::<PostView>::empty() =~= spec_posts_of(f));
        assert(Seq::<PostView>::empty() + spec_posts_of(f) =~= spec_posts_of(f));
    } else {
        assert(ins.push(f)[0] == ins[0]);
        assert(ins.push(f).drop_first() =~= ins.drop_first().push(f));
        lemma_spec_posts_push(ins.drop_first(), f);
        assert(spec_posts_of(ins[0]) + (spec_posts(ins.drop_first()) + spec_posts_of(f)) =~= (
        spec_posts_of(ins[0]) + spec_posts(ins.drop_first())) + spec_posts_of(f));
    }
}

proof fn lemma_spec_diags_push(ins: Seq<InputView>, f: InputView)
    ensures
        spec_diags(ins.push(f)) == spec_diags(ins) + spec_diags_of(f),
    decreases ins.len(),
{
    if ins.len() == 0 {
        assert(ins.push(f)[0] == f);
        assert(ins.push(f).drop_first() =~= Seq::<InputView>::empty());
        assert(spec_diags(Seq::<InputView>::empty()) == Seq::<DiagView>::empty());
        assert(spec_diags_of(f) + Seq::<DiagView>::empty() =~= spec_diags_of(f));
        assert(Seq::<DiagView>::empty() + spec_diags_of(f) =~= spec_diags_of(f));
    } else {
        assert(ins.push(f)[0] == ins[0]);
        assert(ins.push(f).drop_first() =~= ins.drop_first().push(f));
        lemma_spec_diags_push(ins.drop_first(), f);
        assert(spec_diags_of(ins[0]) + (spec_diags(ins.drop_first()) + spec_diags_of(f)) =~= (
        spec_diags_of(ins[0]) + spec_diags(ins.drop_first())) + spec_diags_of(f));
    }
}

/// Everything a build produces: the documents to write (the index last), the
/// collected posts, and the per-file diagnostics.
pub struct BuildOutput {
    pub files: Vec<OutputFile>,
    pub posts: Vec<Post>,
    pub diagnostics: Vec<Diagnostic>,
}

/// Builds the whole site from in-memory sources.
///
/// Every input is routed; the about page and each well-formed post become
/// documents, in input order, with the index document — listing exactly the
/// collected posts, in order — appended last. A file that cannot be read or
/// whose front matter is malformed contributes a diagnostic instead of a
/// document, and never disturbs the other files' output.
pub fn build_site(inputs: &Vec<InputFile>) -> (out: BuildOutput)
    ensures
        out.posts@.map_values(|p: Post| p@) == spec_posts(
            inputs@.map_values(|f: InputFile| f@),
        ),
        out.diagnostics@.map_values(|d: Diagnostic| d@) == spec_diags(
            inputs@.map_values(|f: InputFile| f@),
        ),
        out.files@.map_values(|f: OutputFile| f@) == spec_outputs(
            inputs@.map_values(|f: InputFile| f@),
        ) + seq![
            OutputView {
                path: "public/index.html"@,
                html: spec_index_html(spec_posts(inputs@.map_values(|f: InputFile| f@))),
            },
        ],
{
    let ghost ivs = inputs@.map_values(|f: InputFile| f@);
    let mut files: Vec<OutputFile> = Vec::new();
    let mut posts: Vec<Post> = Vec::new();
    let mut diags: Vec<Diagnostic> = Vec::new();
    let mut i: usize = 0;
    proof {
        assert(ivs.take(0) =~= Seq::<InputView>::empty());
    }
    while i < inputs.len()
        invariant
            i <= inputs@.len(),
            ivs == inputs@.map_values(|f: InputFile| f@),
            files@.map_values(|f: OutputFile| f@) == spec_outputs(ivs.take(i as int)),
            posts@.map_values(|p: Post| p@) == spec_posts(ivs.take(i as int)),
            diags@.map_values(|d: Diagnostic| d@) == spec_diags(ivs.take(i as int)),
        decreases inputs@.len() - i,
    {
        let ghost fv = ivs[i as int];
        let ghost old_files = files@;
        let ghost old_posts = posts@;
        let ghost old_diags = diags@;
        proof {
            assert(fv == inputs@[i as int]@);
        }
        let input = &inputs[i];
        let r = route_path(input.path.as_str());
        match r {
            Route::Skipped => {
                proof {
                    assert(spec_outputs_of(fv) =~= Seq::<OutputView>::empty());
                    assert(spec_posts_of(fv) =~= Seq::<PostView>::empty());
                    assert(spec_diags_of(fv) =~= Seq::<DiagView>::empty());
                }
            },
            Route::AboutPage => {
                match &input.text {
                    None => {
                        diags.push(
                            Diagnostic { path: input.path.clone(), error: ParseError::EncodingError },
                        );
                    },
                    Some(t) => {
                        match parse_page_markdown(t.as_str()) {
                            Ok(page) => {
                                let html = page_html(&page);
                                files.push(
                                    OutputFile { path: String::from_str("public/about.html"), html },
                                );
                            },
                            Err(e) => {
                                diags.push(Diagnostic { path: input.path.clone(), error: e });
                            },
                        }
                    },
                }
            },
            Route::BlogPost => {
                match &input.text {
                    None => {
                        diags.push(
                            Diagnostic { path: input.path.clone(), error: ParseError::EncodingError },
                        );
                    },
                    Some(t) => {
                        match parse_post_markdown(t.as_str(), input.path.as_str()) {
                            Ok(post) => {
                                let html = post_html(&post);
                                files.push(OutputFile { path: post.file_name.clone(), html });
                                posts.push(post);
                            },
                            Err(e) => {
                                diags.push(Diagnostic { path: input.path.clone(), error: e });
                            },
                        }
                    },
                }
            },
        }
        proof {
            lemma_spec_outputs_push(ivs.take(i as int), fv);
            lemma_spec_posts_push(ivs.take(i as int), fv);
            lemma_spec_diags_push(ivs.take(i as int), fv);
            assert(ivs.take(i as int).push(fv) =~= ivs.take(i + 1 as int));
            assert(files@.map_values(|f: OutputFile| f@) =~= spec_outputs(ivs.take(i as int))
                + spec_outputs_of(fv));
            assert(posts@.map_values(|p: Post| p@) =~= spec_posts(ivs.take(i as int))
                + spec_posts_of(fv));
            assert(diags@.map_values(|d: Diagnostic| d@) =~= spec_diags(ivs.take(i as int))
                + spec_diags_of(fv));
        }
        i += 1;
    }
    proof {
        assert(ivs.take(inputs@.len() as int) =~= ivs);
    }
    let idx = index_html(&posts);
    files.push(OutputFile { path: String::from_str("public/index.html"), html: idx });
    proof {
        assert(files@.map_values(|f: OutputFile| f@) =~= spec_outputs(ivs) + seq![
            OutputView { path: "public/index.html"@, html: spec_index_html(spec_posts(ivs)) },
        ]);
    }
    BuildOutput { files, posts, diagnostics: diags }
}

} // verus!
