//! Front-matter extraction: splits a source file's raw text into a structured
//! metadata block (`title`, `author`, `date`) and the remaining body text.
//!
//! The recognized convention is a fenced key-value block at the very start of
//! the file: a `---` line, then `key: value` lines, then a closing `---` line.
//! Keys and values are trimmed of blanks; a line without a colon carries no
//! field; when a key repeats, the first occurrence wins. The body is the text
//! after the closing line, unchanged. A block that is absent, unterminated, or
//! missing one of the three required fields (or whose title is empty) is
//! rejected as malformed.

use vstd::prelude::*;
use crate::text::{
    find_char, trim, is_blank, lemma_find_char, lemma_find_char_at, lemma_trim_at, chars_vec,
    find_in_region, region_matches, string_of_region,
};

verus! {

/// The reasons a source file contributes nothing to the build.
#[derive(Clone, Copy, Debug, PartialEq, Eq, Structural)]
pub enum ParseError {
    /// The leading metadata block is absent, unterminated, or incomplete.
    MalformedFrontMatter,
    /// The file could not be read as text.
    EncodingError,
    /// The Markdown body could not be converted.
    RenderError,
}

impl ParseError {
    /// A short human-readable description of the error.
    pub fn message(&self) -> (s: &'static str)
        ensures
            *self is MalformedFrontMatter ==> s@ == "malformed front matter"@,
            *self is EncodingError ==> s@ == "file is not valid text"@,
            *self is RenderError ==> s@ == "markdown could not be rendered"@,
    {
        match self {
            ParseError::MalformedFrontMatter => "malformed front matter",
            ParseError::EncodingError => "file is not valid text",
            ParseError::RenderError => "markdown could not be rendered",
        }
    }
}

/// The structured metadata block at the head of a content file.
#[derive(Debug)]
pub struct FrontMatter {
    pub title: String,
    pub author: String,
    pub date: String,
}

/// The mathematical value of a `FrontMatter`.
pub struct FrontMatterView {
    pub title: Seq<char>,
    pub author: Seq<char>,
    pub date: Seq<char>,
}

impl View for FrontMatter {
    type V = FrontMatterView;

    open spec fn view(&self) -> FrontMatterView {
        FrontMatterView { title: self.title@, author: self.author@, date: self.date@ }
    }
}

impl FrontMatterView {
    /// A parsed block always carries a non-empty title.
    pub open spec fn wf(self) -> bool {
        self.title.len() > 0
    }
}

pub open spec fn title_key() -> Seq<char> {
    seq!['t', 'i', 't', 'l', 'e']
}

pub open spec fn author_key() -> Seq<char> {
    seq!['a', 'u', 't', 'h', 'o', 'r']
}

pub open spec fn date_key() -> Seq<char> {
    seq!['d', 'a', 't', 'e']
}

/// The opening fence: a `---` line at the very start.
pub open spec fn open_marker() -> Seq<char> {
    seq!['-', '-', '-', '\n']
}

/// The closing fence line.
pub open spec fn close_line() -> Seq<char> {
    seq!['-', '-', '-']
}

pub open spec fn has_open_marker(s: Seq<char>) -> bool {
    s.len() >= 4 && s.subrange(0, 4) == open_marker()
}

/// The field carried by one line of the block: the text before the first
/// colon and the text after it, both trimmed; nothing when there is no colon.
pub open spec fn line_field(line: Seq<char>) -> Option<(Seq<char>, Seq<char>)> {
    let j = find_char(line, ':');
    if j < line.len() {
        Some((trim(line.take(j)), trim(line.subrange(j + 1, line.len() as int))))
    } else {
        None
    }
}

/// Parses the text after the opening fence: the fields of the lines up to the
/// first `---` line, in order, and the body after that line. `None` when the
/// block is unterminated.
pub open spec fn parse_fields(s: Seq<char>) -> Option<(Seq<(Seq<char>, Seq<char>)>, Seq<char>)>
    decreases s.len(),
    via parse_fields_decreases
{
    if s.len() == 0 {
        None
    } else {
        let e = find_char(s, '\n');
        let line = s.take(e);
        if line == close_line() {
            Some(
                (
                    Seq::empty(),
                    if e < s.len() {
                        s.skip(e + 1)
                    } else {
                        Seq::empty()
                    },
                ),
            )
        } else if e == s.len() {
            None
        } else {
            match parse_fields(s.skip(e + 1)) {
                None => None,
                Some((fs, body)) => match line_field(line) {
                    Some(f) => Some((seq![f] + fs, body)),
                    None => Some((fs, body)),
                },
            }
        }
    }
}

#[via_fn]
proof fn parse_fields_decreases(s: Seq<char>) {
    lemma_find_char(s, '\n');
}

/// The value of the first field named `k`.
pub open spec fn lookup(fs: Seq<(Seq<char>, Seq<char>)>, k: Seq<char>) -> Option<Seq<char>>
    decreases fs.len(),
{
    if fs.len() == 0 {
        None
    } else if fs[0].0 == k {
        Some(fs[0].1)
    } else {
        lookup(fs.drop_first(), k)
    }
}

/// What extraction returns on a raw text: the three required fields and the
/// body, or nothing when the block is malformed.
pub open spec fn spec_extract(s: Seq<char>) -> Option<(FrontMatterView, Seq<char>)> {
    if !has_open_marker(s) {
        None
    } else {
        match parse_fields(s.skip(4)) {
            None => None,
            Some((fs, body)) => match (
                lookup(fs, title_key()),
                lookup(fs, author_key()),
                lookup(fs, date_key()),
            ) {
                (Some(t), Some(a), Some(d)) => if t.len() > 0 {
                    Some((FrontMatterView { title: t, author: a, date: d }, body))
                } else {
                    None
                },
                _ => None,
            },
        }
    }
}

/// Any text that does not begin with the opening `---` fence is rejected.
pub proof fn lemma_missing_marker_rejected(s: Seq<char>)
    requires
        !has_open_marker(s),
    ensures
        spec_extract(s) is None,
{
}

/// A source text whose front-matter block is well formed: the opening fence,
/// one line per required field, the closing fence, then the body.
pub open spec fn well_formed_source(
    t: Seq<char>,
    a: Seq<char>,
    d: Seq<char>,
    body: Seq<char>,
) -> Seq<char> {
    open_marker() + (title_key() + seq![':'] + t + seq!['\n'] + (author_key() + seq![':'] + a
        + seq!['\n'] + (date_key() + seq![':'] + d + seq!['\n'] + (close_line() + seq!['\n']
        + body))))
}

proof fn lemma_parse_close(body: Seq<char>)
    ensures
        parse_fields(close_line() + seq!['\n'] + body) == Some(
            (Seq::<(Seq<char>, Seq<char>)>::empty(), body),
        ),
{
    let s = close_line() + seq!['\n'] + body;
    assert forall|j: int| 0 <= j < 3 implies s[j] != '\n' by {
        assert(s[j] == close_line()[j]);
    }
    assert(s[3] == '\n');
    lemma_find_char_at(s, '\n', 3);
    assert(s.take(3) =~= close_line());
    assert(s.skip(4) =~= body);
}

proof fn lemma_parse_field_line(
    key: Seq<char>,
    v: Seq<char>,
    rest: Seq<char>,
    fs: Seq<(Seq<char>, Seq<char>)>,
    body: Seq<char>,
)
    requires
        forall|j: int| 0 <= j < key.len() ==> key[j] != '\n' && key[j] != ':',
        trim(key) == key,
        forall|j: int| 0 <= j < v.len() ==> v[j] != '\n',
        trim(v) == v,
        parse_fields(rest) == Some((fs, body)),
    ensures
        parse_fields(key + seq![':'] + v + seq!['\n'] + rest) == Some(
            (seq![(key, v)] + fs, body),
        ),
{
    let line = key + seq![':'] + v;
    let s = key + seq![':'] + v + seq!['\n'] + rest;
    let kl = key.len() as int;
    let ll = line.len() as int;
    assert forall|j: int| 0 <= j < ll implies s[j] != '\n' by {
        assert(s[j] == line[j]);
        if j < kl {
            assert(line[j] == key[j]);
        } else if j == kl {
            assert(line[j] == ':');
        } else {
            assert(line[j] == v[j - kl - 1]);
        }
    }
    assert(s[ll] == '\n');
    lemma_find_char_at(s, '\n', ll);
    assert(s.take(ll) =~= line);
    assert(s.skip(ll + 1) =~= rest);
    // the line is not the closing fence: its colon has no place there
    assert(line != close_line()) by {
        if line == close_line() {
            assert(line.len() == 3);
            assert(line[kl] == ':');
            assert(close_line()[kl] == '-');
        }
    }
    assert forall|j: int| 0 <= j < kl implies line[j] != ':' by {
        assert(line[j] == key[j]);
    }
    assert(line[kl] == ':');
    lemma_find_char_at(line, ':', kl);
    assert(line.take(kl) =~= key);
    assert(line.subrange(kl + 1, ll) =~= v);
    assert(line_field(line) == Some((key, v)));
}

/// The extractor's success contract on every well-formed block: the returned
/// fields are exactly the block's `title`, `author` and `date` values, and the
/// body is the remaining text, character for character.
pub proof fn lemma_extract_well_formed(t: Seq<char>, a: Seq<char>, d: Seq<char>, body: Seq<char>)
    requires
        t.len() > 0,
        trim(t) == t,
        trim(a) == a,
        trim(d) == d,
        forall|j: int| 0 <= j < t.len() ==> t[j] != '\n',
        forall|j: int| 0 <= j < a.len() ==> a[j] != '\n',
        forall|j: int| 0 <= j < d.len() ==> d[j] != '\n',
    ensures
        spec_extract(well_formed_source(t, a, d, body)) == Some(
            (FrontMatterView { title: t, author: a, date: d }, body),
        ),
{
    let ws = well_formed_source(t, a, d, body);
    // the three keys hold no newline or colon and are already trimmed
    assert(title_key().len() == 5 && author_key().len() == 6 && date_key().len() == 4);
    assert(forall|j: int| 0 <= j < 5 ==> title_key()[j] != '\n' && title_key()[j] != ':');
    assert(forall|j: int| 0 <= j < 6 ==> author_key()[j] != '\n' && author_key()[j] != ':');
    assert(forall|j: int| 0 <= j < 4 ==> date_key()[j] != '\n' && date_key()[j] != ':');
    lemma_trim_at(title_key(), 0, 5);
    assert(title_key().subrange(0, 5) =~= title_key());
    lemma_trim_at(author_key(), 0, 6);
    assert(author_key().subrange(0, 6) =~= author_key());
    lemma_trim_at(date_key(), 0, 4);
    assert(date_key().subrange(0, 4) =~= date_key());
    // parse the block line by line, from the closing fence upward
    let c = close_line() + seq!['\n'] + body;
    lemma_parse_close(body);
    let dl = date_key() + seq![':'] + d + seq!['\n'] + c;
    lemma_parse_field_line(date_key(), d, c, Seq::empty(), body);
    let al = author_key() + seq![':'] + a + seq!['\n'] + dl;
    lemma_parse_field_line(author_key(), a, dl, seq![(date_key(), d)] + Seq::empty(), body);
    let tl = title_key() + seq![':'] + t + seq!['\n'] + al;
    lemma_parse_field_line(
        title_key(),
        t,
        al,
        seq![(author_key(), a)] + (seq![(date_key(), d)] + Seq::empty()),
        body,
    );
    assert(ws.len() >= 4);
    assert(ws.subrange(0, 4) =~= open_marker());
    assert(ws.skip(4) =~= tl);
    // the three lookups find each field exactly once
    let l1 = seq![(title_key(), t)] + (seq![(author_key(), a)] + (seq![(date_key(), d)]
        + Seq::<(Seq<char>, Seq<char>)>::empty()));
    let l2 = seq![(author_key(), a)] + (seq![(date_key(), d)] + Seq::<(
        Seq<char>,
        Seq<char>,
    )>::empty());
    let l3 = seq![(date_key(), d)] + Seq::<(Seq<char>, Seq<char>)>::empty();
    assert(title_key() != author_key()) by {
        if title_key() == author_key() {
            assert(title_key().len() == author_key().len());
        }
    }
    assert(title_key() != date_key()) by {
        if title_key() == date_key() {
            assert(title_key().len() == date_key().len());
        }
    }
    assert(author_key() != date_key()) by {
        if author_key() == date_key() {
            assert(author_key().len() == date_key().len());
        }
    }
    assert(l1[0] == (title_key(), t));
    assert(l1.drop_first() =~= l2);
    assert(l2[0] == (author_key(), a));
    assert(l2.drop_first() =~= l3);
    assert(l3[0] == (date_key(), d));
    assert(lookup(l1, title_key()) == Some(t));
    assert(lookup(l3, date_key()) == Some(d));
    assert(lookup(l2, author_key()) == Some(a));
    assert(lookup(l2, date_key()) == lookup(l3, date_key()));
    assert(lookup(l1, author_key()) == lookup(l2, author_key()));
    assert(lookup(l1, date_key()) == lookup(l2, date_key()));
}

struct BlockOut {
    title: Option<String>,
    author: Option<String>,
    date: Option<String>,
    body_start: usize,
}

spec fn opt_view(o: Option<String>) -> Option<Seq<char>> {
    match o {
        Some(s) => Some(s@),
        None => None,
    }
}

fn close_pat() -> (v: Vec<char>)
    ensures
        v@ == close_line(),
{
    let mut v: Vec<char> = Vec::new();
    v.push('-');
    v.push('-');
    v.push('-');
    proof {
        assert(v@ =~= close_line());
    }
    v
}

fn title_pat() -> (v: Vec<char>)
    ensures
        v@ == title_key(),
{
    let mut v: Vec<char> = Vec::new();
    v.push('t');
    v.push('i');
    v.push('t');
    v.push('l');
    v.push('e');
    proof {
        assert(v@ =~= title_key());
    }
    v
}

fn author_pat() -> (v: Vec<char>)
    ensures
        v@ == author_key(),
{
    let mut v: Vec<char> = Vec::new();
    v.push('a');
    v.push('u');
    v.push('t');
    v.push('h');
    v.push('o');
    v.push('r');
    proof {
        assert(v@ =~= author_key());
    }
    v
}

fn date_pat() -> (v: Vec<char>)
    ensures
        v@ == date_key(),
{
    let mut v: Vec<char> = Vec::new();
    v.push('d');
    v.push('a');
    v.push('t');
    v.push('e');
    proof {
        assert(v@ =~= date_key());
    }
    v
}

fn blank(c: char) -> (b: bool)
    ensures
        b == is_blank(c),
{
    c == ' ' || c == '\t' || c == '\r'
}

/// The trimmed sub-region of `s[from..to]`, as absolute bounds.
fn trim_region(s: &Vec<char>, from: usize, to: usize) -> (r: (usize, usize))
    requires
        from <= to <= s.len(),
    ensures
        from <= r.0 <= r.1 <= to,
        trim(s@.subrange(from as int, to as int)) == s@.subrange(r.0 as int, r.1 as int),
{
    let mut a = from;
    while a < to && blank(s[a])
        invariant
            from <= a <= to <= s.len(),
            forall|j: int| from <= j < a ==> is_blank(s@[j]),
        decreases to - a,
    {
        a += 1;
    }
    if a == to {
        proof {
            let region = s@.subrange(from as int, to as int);
            assert forall|j: int| 0 <= j < region.len() implies is_blank(region[j]) by {
                assert(region[j] == s@[from + j]);
            }
            lemma_trim_at(region, region.len() as int, region.len() as int);
            assert(region.subrange(region.len() as int, region.len() as int) =~= s@.subrange(
                to as int,
                to as int,
            ));
        }
        return (to, to);
    }
    let mut b = to;
    while b > a + 1 && blank(s[b - 1])
        invariant
            a < b <= to <= s.len(),
            forall|j: int| b <= j < to ==> is_blank(s@[j]),
        decreases b,
    {
        b -= 1;
    }
    proof {
        let region = s@.subrange(from as int, to as int);
        let ra = a - from;
        let rb = b - from;
        assert forall|j: int| 0 <= j < ra implies is_blank(region[j]) by {
            assert(region[j] == s@[from + j]);
        }
        assert forall|j: int| rb <= j < region.len() implies is_blank(region[j]) by {
            assert(region[j] == s@[from + j]);
        }
        assert(region[ra] == s@[a as int]);
        assert(region[rb - 1] == s@[b - 1]);
        lemma_trim_at(region, ra, rb);
        assert(region.subrange(ra, rb) =~= s@.subrange(a as int, b as int));
    }
    (a, b)
}

/// Parses the block interior that starts at `p`, mirroring `parse_fields` on
/// `s@.skip(p)`: the first-named value of each required key, and where the
/// body starts.
fn parse_block(s: &Vec<char>, p: usize) -> (r: Option<BlockOut>)
    requires
        p <= s.len(),
    ensures
        match parse_fields(s@.skip(p as int)) {
            None => r is None,
            Some((fs, body)) => r matches Some(out) && {
                &&& p <= out.body_start <= s@.len()
                &&& s@.subrange(out.body_start as int, s@.len() as int) == body
                &&& opt_view(out.title) == lookup(fs, title_key())
                &&& opt_view(out.author) == lookup(fs, author_key())
                &&& opt_view(out.date) == lookup(fs, date_key())
            },
        },
    decreases s.len() - p,
{
    let ghost tail = s@.skip(p as int);
    if p == s.len() {
        return None;
    }
    let e = find_in_region(s, p, s.len(), '\n');
    proof {
        let region = s@.subrange(p as int, s@.len() as int);
        assert(region =~= tail);
        assert(tail.take(e - p) =~= s@.subrange(p as int, e as int));
    }
    let close = close_pat();
    let is_close = region_matches(s, p, e, &close);
    if is_close {
        let body_start = if e < s.len() {
            e + 1
        } else {
            e
        };
        proof {
            if e < s.len() {
                assert(tail.skip(e - p + 1) =~= s@.subrange(body_start as int, s@.len() as int));
            } else {
                assert(Seq::<char>::empty() =~= s@.subrange(body_start as int, s@.len() as int));
            }
        }
        return Some(BlockOut { title: None, author: None, date: None, body_start });
    }
    if e == s.len() {
        return None;
    }
    let rec = parse_block(s, e + 1);
    proof {
        assert(tail.skip(e - p + 1) =~= s@.skip(e + 1 as int));
    }
    match rec {
        None => None,
        Some(out) => {
            let ghost line = tail.take(e - p);
            let j = find_in_region(s, p, e, ':');
            proof {
                assert forall|jj: int| 0 <= jj < j - p implies line[jj] != ':' by {
                    assert(line[jj] == s@[p + jj]);
                }
                if j < e {
                    assert(line[j - p] == s@[j as int]);
                }
                lemma_find_char_at(line, ':', j - p);
            }
            if j == e {
                return Some(out);
            }
            let (ks, ke) = trim_region(s, p, j);
            let (vs, ve) = trim_region(s, j + 1, e);
            proof {
                assert(line.take(j - p) =~= s@.subrange(p as int, j as int));
                assert(line.subrange(j - p + 1, line.len() as int) =~= s@.subrange(
                    j + 1 as int,
                    e as int,
                ));
                let pr = parse_fields(s@.skip(e + 1 as int));
                if pr is Some {
                    let fs2 = (pr->0).0;
                    let f = (
                        trim(line.take(j - p)),
                        trim(line.subrange(j - p + 1, line.len() as int)),
                    );
                    assert((seq![f] + fs2)[0] == f);
                    assert((seq![f] + fs2).drop_first() =~= fs2);
                    assert(title_key().len() == 5);
                    assert(author_key().len() == 6);
                    assert(date_key().len() == 4);
                }
            }
            let value = string_of_region(s, vs, ve);
            let tpat = title_pat();
            let apat = author_pat();
            let dpat = date_pat();
            let mut out = out;
            if region_matches(s, ks, ke, &tpat) {
                out.title = Some(value);
            } else if region_matches(s, ks, ke, &apat) {
                out.author = Some(value);
            } else if region_matches(s, ks, ke, &dpat) {
                out.date = Some(value);
            }
            Some(out)
        },
    }
}

/// Splits raw text into its front matter and its body.
///
/// On success the three fields are exactly the first-named `title`, `author`
/// and `date` values of the leading block, and the body is the remaining text,
/// character for character. Every malformed block — missing fence,
/// unterminated block, missing required field, empty title — is rejected with
/// `MalformedFrontMatter`, and nothing else is.
pub fn extract_front_matter(raw: &str) -> (r: Result<(FrontMatter, String), ParseError>)
    ensures
        match r {
            Ok(p) => {
                &&& spec_extract(raw@) matches Some((fm, body))
                &&& p.0@ == fm
                &&& p.0@.wf()
                &&& p.1@ == body
            },
            Err(e) => spec_extract(raw@) is None && e == ParseError::MalformedFrontMatter,
        },
{
    let s = chars_vec(raw);
    if s.len() < 4 {
        return Err(ParseError::MalformedFrontMatter);
    }
    let mut open_pat: Vec<char> = Vec::new();
    open_pat.push('-');
    open_pat.push('-');
    open_pat.push('-');
    open_pat.push('\n');
    proof {
        assert(open_pat@ =~= open_marker());
    }
    if !region_matches(&s, 0, 4, &open_pat) {
        return Err(ParseError::MalformedFrontMatter);
    }
    match parse_block(&s, 4) {
        None => Err(ParseError::MalformedFrontMatter),
        Some(out) => match (out.title, out.author, out.date) {
            (Some(t), Some(a), Some(d)) => {
                if t.as_str().is_empty() {
                    return Err(ParseError::MalformedFrontMatter);
                }
                let body = string_of_region(&s, out.body_start, s.len());
                proof {
                    assert(s@.skip(4) =~= s@.subrange(4, s@.len() as int));
                }
                Ok((FrontMatter { title: t, author: a, date: d }, body))
            },
            _ => Err(ParseError::MalformedFrontMatter),
        },
    }
}

} // verus!
