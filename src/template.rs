use vstd::prelude::*;
use crate::matcher::slice_vec;
use crate::text::chars_of;

verus! {

/// A character that may appear in a placeholder name: a Unicode word
/// character, as `\w` matches it.
pub uninterp spec fn is_word_char(c: char) -> bool;

/// One piece of a compiled route template, as the contracts see it. A placeholder
/// keeps its full token text (`{name}` or `{*name}`), which is what a target
/// template refers to.
pub enum SegView {
    Lit(Seq<char>),
    Plain(Seq<char>),
    Wild(Seq<char>),
}

/// One piece of a compiled route template.
#[derive(Clone, Debug)]
pub enum Segment {
    /// Text that the path must contain verbatim.
    Literal(Vec<char>),
    /// A `{name}` token: captures one or more characters other than `/`.
    Plain(Vec<char>),
    /// A `{*name}` token: captures one or more characters of any kind.
    Wildcard(Vec<char>),
}

impl View for Segment {
    type V = SegView;

    open spec fn view(&self) -> SegView {
        match self {
            Segment::Literal(l) => SegView::Lit(l@),
            Segment::Plain(t) => SegView::Plain(t@),
            Segment::Wildcard(t) => SegView::Wild(t@),
        }
    }
}

pub open spec fn segs_view(v: Seq<Segment>) -> Seq<SegView> {
    v.map_values(|s: Segment| s@)
}

/// End of the run of word characters that starts at `j`.
pub open spec fn word_end(t: Seq<char>, j: int) -> int
    decreases t.len() - j,
{
    if 0 <= j < t.len() && is_word_char(t[j]) {
        word_end(t, j + 1)
    } else {
        j
    }
}

/// The placeholder token that starts at `i`, if one does: whether it is a
/// wildcard, and the position just past its closing brace.
pub open spec fn token_at(t: Seq<char>, i: int) -> Option<(bool, int)> {
    if 0 <= i && i + 1 < t.len() && t[i] == '{' {
        let wild = t[i + 1] == '*';
        let s = if wild { i + 2 } else { i + 1 };
        let e = word_end(t, s);
        if s < e && e < t.len() && t[e] == '}' {
            Some((wild, e + 1))
        } else {
            None
        }
    } else {
        None
    }
}

/// A pending literal run, as a list of at most one segment.
pub open spec fn flush(run: Seq<char>) -> Seq<SegView> {
    if run.len() == 0 {
        Seq::empty()
    } else {
        seq![SegView::Lit(run)]
    }
}

/// The segments of `t` from position `i` on, with `run` the literal text read
/// so far and not yet emitted.
pub open spec fn scan(t: Seq<char>, i: int, run: Seq<char>) -> Seq<SegView>
    decreases t.len() - i,
{
    if i < 0 || i >= t.len() {
        flush(run)
    } else {
        match token_at(t, i) {
            Some((wild, e)) => {
                let tok = t.subrange(i, e);
                let seg = if wild { SegView::Wild(tok) } else { SegView::Plain(tok) };
                flush(run) + seq![seg] + scan(t, e, Seq::empty())
            },
            None => scan(t, i + 1, run.push(t[i])),
        }
    }
}

/// The segments of a route template: maximal literal runs and placeholder
/// tokens, left to right.
pub open spec fn parse_template(t: Seq<char>) -> Seq<SegView> {
    scan(t, 0, Seq::empty())
}

/// Relies on `regex_syntax::is_word_character`: whether `c` is a Unicode word
/// character (Alphabetic, Join_Control, Decimal_Number, Mark or
/// Connector_Punctuation), the class that `\w` matches.
#[verifier::external_body]
fn is_word(c: char) -> (r: bool)
    ensures
        r == is_word_char(c),
{
    regex_syntax::is_word_character(c)
}

fn token_at_exec(t: &Vec<char>, i: usize) -> (r: Option<(bool, usize)>)
    requires
        i < t@.len(),
    ensures
        match token_at(t@, i as int) {
            Some((w, e)) => r == Some((w, e as usize)),
            None => r is None,
        },
{
    if t.len() - i > 1 && t[i] == '{' {
        let wild = t[i + 1] == '*';
        let s: usize = if wild { i + 2 } else { i + 1 };
        let mut e: usize = s;
        while e < t.len() && is_word(t[e])
            invariant
                s <= e <= t@.len(),
                word_end(t@, e as int) == word_end(t@, s as int),
            decreases t@.len() - e,
        {
            e = e + 1;
        }
        if s < e && e < t.len() && t[e] == '}' {
            Some((wild, e + 1))
        } else {
            None
        }
    } else {
        None
    }
}

fn flush_exec(out: &mut Vec<Segment>, run: Vec<char>)
    ensures
        segs_view(final(out)@) == segs_view(old(out)@) + flush(run@),
{
    if run.len() > 0 {
        out.push(Segment::Literal(run));
    }
    assert(segs_view(final(out)@) =~= segs_view(old(out)@) + flush(run@));
}

/// Splits a route template into literal runs and placeholder tokens.
pub fn parse_segments(t: &Vec<char>) -> (r: Vec<Segment>)
    ensures
        segs_view(r@) == parse_template(t@),
{
    let mut out: Vec<Segment> = Vec::new();
    let mut run: Vec<char> = Vec::new();
    let mut i: usize = 0;
    while i < t.len()
        invariant
            i <= t@.len(),
            segs_view(out@) + scan(t@, i as int, run@) == parse_template(t@),
        decreases t@.len() - i,
    {
        match token_at_exec(t, i) {
            Some((wild, e)) => {
                let tok = slice_vec(t, i, e);
                let ghost pre = segs_view(out@);
                let ghost r0 = run@;
                flush_exec(&mut out, run);
                run = Vec::new();
                let seg = if wild { Segment::Wildcard(tok) } else { Segment::Plain(tok) };
                out.push(seg);
                assert(segs_view(out@) =~= pre + flush(r0) + seq![seg@]);
                i = e;
            },
            None => {
                run.push(t[i]);
                i = i + 1;
            },
        }
    }
    flush_exec(&mut out, run);
    assert(segs_view(out@) =~= parse_template(t@));
    out
}

/// Compiles a route template into its matcher: the literal runs and
/// placeholder tokens that a path is matched against, in order.
pub fn compile(template: &str) -> (r: Vec<Segment>)
    ensures
        segs_view(r@) == parse_template(template@),
{
    let t = chars_of(template);
    parse_segments(&t)
}

} // verus!
