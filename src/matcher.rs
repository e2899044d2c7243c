use vstd::prelude::*;
use crate::template::{SegView, Segment, segs_view};

verus! {

/// Number of characters other than `/` that follow position `pos`.
pub open spec fn slash_free_len(p: Seq<char>, pos: int) -> nat
    decreases p.len() - pos,
{
    if 0 <= pos < p.len() && p[pos] != '/' {
        1 + slash_free_len(p, pos + 1)
    } else {
        0
    }
}

/// What may follow the matched part of a path: nothing, or a query string.
pub open spec fn tail_ok(p: Seq<char>, pos: int) -> bool {
    pos == p.len() || (0 <= pos < p.len() && p[pos] == '?')
}

/// Matches `segs[k..]` against `p` from `pos`, as a backtracking matcher does:
/// each placeholder first takes as many characters as it may, then fewer.
/// The result is the list of captured values, in order.
pub open spec fn match_from(segs: Seq<SegView>, k: int, p: Seq<char>, pos: int) -> Option<
    Seq<Seq<char>>,
>
    decreases segs.len() - k + 1, 0int,
{
    if k < 0 || pos < 0 || pos > p.len() {
        None
    } else if k >= segs.len() {
        if tail_ok(p, pos) {
            Some(Seq::empty())
        } else {
            None
        }
    } else {
        match segs[k] {
            SegView::Lit(l) => {
                if pos + l.len() <= p.len() && p.subrange(pos, pos + l.len()) == l {
                    match_from(segs, k + 1, p, pos + l.len())
                } else {
                    None
                }
            },
            SegView::Plain(_) => try_take(segs, k, p, pos, slash_free_len(p, pos) as int),
            SegView::Wild(_) => try_take(segs, k, p, pos, p.len() - pos),
        }
    }
}

/// The placeholder `segs[k]` takes `n` characters, or failing that fewer, down to one.
pub open spec fn try_take(segs: Seq<SegView>, k: int, p: Seq<char>, pos: int, n: int) -> Option<
    Seq<Seq<char>>,
>
    decreases segs.len() - k, n,
{
    if n < 1 || k < 0 || k >= segs.len() {
        None
    } else {
        match match_from(segs, k + 1, p, pos + n) {
            Some(rest) => Some(seq![p.subrange(pos, pos + n)] + rest),
            None => try_take(segs, k, p, pos, n - 1),
        }
    }
}

/// The values that the segments capture from path `p`, if they match it.
pub open spec fn captures_of(segs: Seq<SegView>, p: Seq<char>) -> Option<Seq<Seq<char>>> {
    match_from(segs, 0, p, 0)
}

pub open spec fn caps_view(v: Seq<Vec<char>>) -> Seq<Seq<char>> {
    v.map_values(|c: Vec<char>| c@)
}

fn slash_free_len_exec(p: &Vec<char>, pos: usize) -> (r: usize)
    requires
        pos <= p@.len(),
    ensures
        r as int == slash_free_len(p@, pos as int),
        pos + r <= p@.len(),
{
    let mut j: usize = pos;
    while j < p.len() && p[j] != '/'
        invariant
            pos <= j <= p@.len(),
            slash_free_len(p@, pos as int) == (j - pos) + slash_free_len(p@, j as int),
        decreases p@.len() - j,
    {
        j = j + 1;
    }
    j - pos
}

pub(crate) fn literal_at(p: &Vec<char>, pos: usize, l: &Vec<char>) -> (r: bool)
    requires
        pos <= p@.len(),
    ensures
        r == (pos + l@.len() <= p@.len() && p@.subrange(pos as int, pos + l@.len()) == l@),
{
    if l.len() > p.len() - pos {
        return false;
    }
    let mut j: usize = 0;
    while j < l.len()
        invariant
            j <= l@.len(),
            pos + l@.len() <= p@.len(),
            p@.len() <= usize::MAX,
            forall|x: int| 0 <= x < j ==> p@[pos + x] == l@[x],
        decreases l@.len() - j,
    {
        if p[pos + j] != l[j] {
            assert(p@.subrange(pos as int, pos + l@.len())[j as int] != l@[j as int]);
            return false;
        }
        j = j + 1;
    }
    assert(p@.subrange(pos as int, pos + l@.len()) =~= l@);
    true
}

pub(crate) fn slice_vec(p: &Vec<char>, from: usize, to: usize) -> (r: Vec<char>)
    requires
        from <= to <= p@.len(),
    ensures
        r@ == p@.subrange(from as int, to as int),
{
    let mut r: Vec<char> = Vec::new();
    let mut j: usize = from;
    while j < to
        invariant
            from <= j <= to <= p@.len(),
            r@ == p@.subrange(from as int, j as int),
        decreases to - j,
    {
        r.push(p[j]);
        j = j + 1;
        assert(r@ =~= p@.subrange(from as int, j as int));
    }
    r
}

/// Matches `segs[k..]` against `p` from `pos`.
pub(crate) fn match_segments(segs: &Vec<Segment>, k: usize, p: &Vec<char>, pos: usize) -> (r: Option<
    Vec<Vec<char>>,
>)
    requires
        k <= segs@.len(),
        pos <= p@.len(),
    ensures
        match match_from(segs_view(segs@), k as int, p@, pos as int) {
            Some(c) => r is Some && caps_view(r->0@) == c,
            None => r is None,
        },
    decreases segs@.len() - k,
{
    let ghost sv = segs_view(segs@);
    let plen = p.len();
    let slen = segs.len();
    if k >= slen {
        if pos == p.len() || p[pos] == '?' {
            let v: Vec<Vec<char>> = Vec::new();
            assert(caps_view(v@) =~= Seq::<Seq<char>>::empty());
            return Some(v);
        } else {
            return None;
        }
    }
    let n0: usize;
    match &segs[k] {
        Segment::Literal(l) => {
            if literal_at(p, pos, l) {
                return match_segments(segs, k + 1, p, pos + l.len());
            } else {
                return None;
            }
        },
        Segment::Plain(_) => {
            n0 = slash_free_len_exec(p, pos);
        },
        Segment::Wildcard(_) => {
            n0 = p.len() - pos;
        },
    }
    assert(match_from(sv, k as int, p@, pos as int) == try_take(sv, k as int, p@, pos as int, n0 as int));
    let mut n: usize = n0;
    while n >= 1
        invariant
            n <= n0 <= p@.len() - pos,
            k < segs@.len(),
            plen == p@.len(),
            slen == segs@.len(),
            sv == segs_view(segs@),
            match_from(sv, k as int, p@, pos as int) == try_take(sv, k as int, p@, pos as int, n as int),
        decreases n,
    {
        match match_segments(segs, k + 1, p, pos + n) {
            Some(mut rest) => {
                let cap = slice_vec(p, pos, pos + n);
                let mut out: Vec<Vec<char>> = Vec::new();
                out.push(cap);
                out.append(&mut rest);
                let ghost c = match_from(sv, k as int + 1, p@, pos + n);
                assert(caps_view(out@) =~= seq![p@.subrange(pos as int, pos + n)] + c->0);
                return Some(out);
            },
            None => {
                n = n - 1;
            },
        }
    }
    None
}


/// The path text that `segs[k..]` stand for when their placeholders take
/// `vals`, in order.
pub open spec fn render(segs: Seq<SegView>, k: int, vals: Seq<Seq<char>>) -> Seq<char>
    decreases segs.len() - k,
{
    if k < 0 || k >= segs.len() {
        Seq::empty()
    } else {
        match segs[k] {
            SegView::Lit(l) => l + render(segs, k + 1, vals),
            _ => vals[0] + render(segs, k + 1, vals.drop_first()),
        }
    }
}

pub open spec fn no_slash(s: Seq<char>) -> bool {
    forall|i: int| 0 <= i < s.len() ==> s[i] != '/'
}

/// `vals` are admissible values for the placeholders of `segs[k..]`: one for
/// each, none empty, and none with a `/` where the placeholder is plain.
pub open spec fn fits(segs: Seq<SegView>, k: int, vals: Seq<Seq<char>>) -> bool
    decreases segs.len() - k,
{
    if k < 0 || k >= segs.len() {
        vals.len() == 0
    } else {
        match segs[k] {
            SegView::Lit(_) => fits(segs, k + 1, vals),
            SegView::Plain(_) => vals.len() > 0 && vals[0].len() > 0 && no_slash(vals[0]) && fits(
                segs,
                k + 1,
                vals.drop_first(),
            ),
            SegView::Wild(_) => vals.len() > 0 && vals[0].len() > 0 && fits(
                segs,
                k + 1,
                vals.drop_first(),
            ),
        }
    }
}

/// `p` holds `r` at `pos`, followed by nothing or by a query string.
pub open spec fn holds_at(p: Seq<char>, pos: int, r: Seq<char>) -> bool {
    0 <= pos && pos + r.len() <= p.len() && p.subrange(pos, pos + r.len()) == r && tail_ok(
        p,
        pos + r.len(),
    )
}

proof fn lemma_slash_free(p: Seq<char>, pos: int, m: int)
    requires
        0 <= pos <= p.len(),
        0 <= m <= slash_free_len(p, pos),
    ensures
        pos + m <= p.len(),
        forall|i: int| pos <= i < pos + m ==> p[i] != '/',
    decreases m,
{
    if m > 0 {
        lemma_slash_free(p, pos + 1, m - 1);
    }
}

proof fn lemma_slash_free_ge(p: Seq<char>, pos: int, m: int)
    requires
        0 <= pos,
        0 <= m,
        pos + m <= p.len(),
        forall|i: int| pos <= i < pos + m ==> p[i] != '/',
    ensures
        m <= slash_free_len(p, pos),
    decreases m,
{
    if m > 0 {
        assert(p[pos] != '/');
        lemma_slash_free_ge(p, pos + 1, m - 1);
        assert(slash_free_len(p, pos) == 1 + slash_free_len(p, pos + 1));
    }
}

proof fn lemma_try_take_sound(segs: Seq<SegView>, k: int, p: Seq<char>, pos: int, n: int)
    requires
        0 <= pos,
        try_take(segs, k, p, pos, n) is Some,
    ensures
        ({
            let c = try_take(segs, k, p, pos, n)->0;
            let m = c[0].len() as int;
            &&& c.len() >= 1
            &&& 1 <= m <= n
            &&& pos + m <= p.len()
            &&& c[0] == p.subrange(pos, pos + m)
            &&& match_from(segs, k + 1, p, pos + m) == Some(c.drop_first())
        }),
    decreases n,
{
    let c = try_take(segs, k, p, pos, n)->0;
    match match_from(segs, k + 1, p, pos + n) {
        Some(rest) => {
            assert(c.drop_first() =~= rest);
        },
        None => {
            lemma_try_take_sound(segs, k, p, pos, n - 1);
        },
    }
}

proof fn lemma_try_take_reaches(segs: Seq<SegView>, k: int, p: Seq<char>, pos: int, n: int, m: int)
    requires
        0 <= k < segs.len(),
        1 <= m <= n,
        match_from(segs, k + 1, p, pos + m) is Some,
    ensures
        try_take(segs, k, p, pos, n) is Some,
    decreases n,
{
    if match_from(segs, k + 1, p, pos + n) is None {
        lemma_try_take_reaches(segs, k, p, pos, n - 1, m);
    }
}

/// Whatever the matcher captures fits the placeholders, and putting the
/// captured values back into the segments gives the matched part of the path.
pub proof fn lemma_match_sound(segs: Seq<SegView>, k: int, p: Seq<char>, pos: int)
    requires
        0 <= k,
        match_from(segs, k, p, pos) is Some,
    ensures
        fits(segs, k, match_from(segs, k, p, pos)->0),
        holds_at(p, pos, render(segs, k, match_from(segs, k, p, pos)->0)),
    decreases segs.len() - k,
{
    let c = match_from(segs, k, p, pos)->0;
    if k >= segs.len() {
        assert(render(segs, k, c) =~= Seq::<char>::empty());
        assert(p.subrange(pos, pos) =~= Seq::<char>::empty());
    } else {
        match segs[k] {
            SegView::Lit(l) => {
                lemma_match_sound(segs, k + 1, p, pos + l.len());
                let r1 = render(segs, k + 1, c);
                assert(p.subrange(pos, pos + l.len() + r1.len()) =~= l + r1) by {
                    assert(p.subrange(pos, pos + l.len() + r1.len()) =~= p.subrange(pos, pos + l.len())
                        + p.subrange(pos + l.len(), pos + l.len() + r1.len()));
                }
            },
            SegView::Plain(_) => {
                lemma_try_take_sound(segs, k, p, pos, slash_free_len(p, pos) as int);
                let m = c[0].len() as int;
                lemma_slash_free(p, pos, m);
                lemma_match_sound(segs, k + 1, p, pos + m);
                let r1 = render(segs, k + 1, c.drop_first());
                assert(p.subrange(pos, pos + m + r1.len()) =~= c[0] + r1) by {
                    assert(p.subrange(pos, pos + m + r1.len()) =~= p.subrange(pos, pos + m)
                        + p.subrange(pos + m, pos + m + r1.len()));
                }
                assert(no_slash(c[0]));
            },
            SegView::Wild(_) => {
                lemma_try_take_sound(segs, k, p, pos, p.len() - pos);
                let m = c[0].len() as int;
                lemma_match_sound(segs, k + 1, p, pos + m);
                let r1 = render(segs, k + 1, c.drop_first());
                assert(p.subrange(pos, pos + m + r1.len()) =~= c[0] + r1) by {
                    assert(p.subrange(pos, pos + m + r1.len()) =~= p.subrange(pos, pos + m)
                        + p.subrange(pos + m, pos + m + r1.len()));
                }
            },
        }
    }
}

/// Where `p` holds the segments rendered with admissible values, the matcher
/// accepts it.
pub proof fn lemma_match_complete(
    segs: Seq<SegView>,
    k: int,
    p: Seq<char>,
    pos: int,
    vals: Seq<Seq<char>>,
)
    requires
        0 <= k,
        fits(segs, k, vals),
        holds_at(p, pos, render(segs, k, vals)),
    ensures
        match_from(segs, k, p, pos) is Some,
    decreases segs.len() - k,
{
    let r = render(segs, k, vals);
    if k < segs.len() {
        match segs[k] {
            SegView::Lit(l) => {
                let r1 = render(segs, k + 1, vals);
                let w = p.subrange(pos, pos + r.len());
                assert(r.subrange(0, l.len() as int) =~= l);
                assert(r.subrange(l.len() as int, r.len() as int) =~= r1);
                assert(p.subrange(pos, pos + l.len()) =~= w.subrange(0, l.len() as int));
                assert(p.subrange(pos + l.len(), pos + l.len() + r1.len()) =~= w.subrange(
                    l.len() as int,
                    r.len() as int,
                ));
                lemma_match_complete(segs, k + 1, p, pos + l.len(), vals);
            },
            SegView::Plain(_) => {
                let v0 = vals[0];
                let m = v0.len() as int;
                let r1 = render(segs, k + 1, vals.drop_first());
                let w = p.subrange(pos, pos + r.len());
                assert(r.subrange(m, r.len() as int) =~= r1);
                assert(p.subrange(pos + m, pos + m + r1.len()) =~= w.subrange(m, r.len() as int));
                lemma_match_complete(segs, k + 1, p, pos + m, vals.drop_first());
                assert forall|i: int| pos <= i < pos + m implies p[i] != '/' by {
                    assert(p.subrange(pos, pos + r.len())[i - pos] == v0[i - pos]);
                }
                lemma_slash_free_ge(p, pos, m);
                lemma_try_take_reaches(segs, k, p, pos, slash_free_len(p, pos) as int, m);
            },
            SegView::Wild(_) => {
                let v0 = vals[0];
                let m = v0.len() as int;
                let r1 = render(segs, k + 1, vals.drop_first());
                let w = p.subrange(pos, pos + r.len());
                assert(r.subrange(m, r.len() as int) =~= r1);
                assert(p.subrange(pos + m, pos + m + r1.len()) =~= w.subrange(m, r.len() as int));
                lemma_match_complete(segs, k + 1, p, pos + m, vals.drop_first());
                lemma_try_take_reaches(segs, k, p, pos, p.len() - pos, m);
            },
        }
    }
}

} // verus!
