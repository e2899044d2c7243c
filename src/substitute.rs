use vstd::prelude::*;
use crate::matcher::{fits, literal_at};
use crate::template::{SegView, Segment, segs_view};

verus! {

/// `s` with every occurrence of `pat` replaced by `rep`, scanning left to right
/// and never reusing replaced text.
pub open spec fn replace_all(s: Seq<char>, pat: Seq<char>, rep: Seq<char>) -> Seq<char>
    decreases s.len(),
{
    if pat.len() == 0 || s.len() < pat.len() {
        s
    } else if s.subrange(0, pat.len() as int) == pat {
        rep + replace_all(s.subrange(pat.len() as int, s.len() as int), pat, rep)
    } else {
        seq![s[0]] + replace_all(s.drop_first(), pat, rep)
    }
}

/// The target template after substituting, for each placeholder of
/// `segs[k..]` in order, its value in `caps` at every occurrence of its token.
pub open spec fn fill_from(t: Seq<char>, segs: Seq<SegView>, k: int, caps: Seq<Seq<char>>) -> Seq<
    char,
>
    decreases segs.len() - k,
{
    if k < 0 || k >= segs.len() {
        t
    } else {
        match segs[k] {
            SegView::Lit(_) => fill_from(t, segs, k + 1, caps),
            SegView::Plain(tok) => fill_from(
                replace_all(t, tok, caps[0]),
                segs,
                k + 1,
                caps.drop_first(),
            ),
            SegView::Wild(tok) => fill_from(
                replace_all(t, tok, caps[0]),
                segs,
                k + 1,
                caps.drop_first(),
            ),
        }
    }
}

/// Replaces every occurrence of `pat` in `s` by `rep`.
pub fn replace_all_exec(s: &Vec<char>, pat: &Vec<char>, rep: &Vec<char>) -> (r: Vec<char>)
    ensures
        r@ == replace_all(s@, pat@, rep@),
{
    if pat.len() == 0 {
        return s.clone();
    }
    let mut out: Vec<char> = Vec::new();
    let mut i: usize = 0;
    let slen = s.len();
    assert(s@.subrange(0, s@.len() as int) =~= s@);
    assert(out@ + replace_all(s@, pat@, rep@) =~= replace_all(s@, pat@, rep@));
    while i < slen
        invariant
            i <= s@.len(),
            slen == s@.len(),
            pat@.len() > 0,
            out@ + replace_all(s@.subrange(i as int, s@.len() as int), pat@, rep@) == replace_all(
                s@,
                pat@,
                rep@,
            ),
        decreases s@.len() - i,
    {
        let ghost rest = s@.subrange(i as int, s@.len() as int);
        if literal_at(s, i, pat) {
            assert(rest.subrange(0, pat@.len() as int) =~= s@.subrange(i as int, i + pat@.len()));
            assert(rest.subrange(pat@.len() as int, rest.len() as int) =~= s@.subrange(
                i + pat@.len(),
                s@.len() as int,
            ));
            let mut j: usize = 0;
            let ghost out0 = out@;
            while j < rep.len()
                invariant
                    j <= rep@.len(),
                    out@ == out0 + rep@.subrange(0, j as int),
                decreases rep@.len() - j,
            {
                out.push(rep[j]);
                j = j + 1;
                assert(out@ =~= out0 + rep@.subrange(0, j as int));
            }
            assert(rep@.subrange(0, j as int) =~= rep@);
            assert(out@ + replace_all(s@.subrange(i + pat@.len(), s@.len() as int), pat@, rep@)
                =~= out0 + replace_all(rest, pat@, rep@));
            i = i + pat.len();
        } else {
            proof {
                if rest.len() >= pat@.len() {
                    assert(rest.subrange(0, pat@.len() as int) =~= s@.subrange(
                        i as int,
                        i + pat@.len(),
                    ));
                }
            }
            assert(rest.drop_first() =~= s@.subrange(i + 1, s@.len() as int));
            let ghost out0 = out@;
            out.push(s[i]);
            assert(out@ + replace_all(rest.drop_first(), pat@, rep@) =~= out0 + replace_all(
                rest,
                pat@,
                rep@,
            ));
            i = i + 1;
        }
    }
    assert(s@.subrange(i as int, s@.len() as int) =~= Seq::<char>::empty());
    assert(out@ =~= out@ + Seq::<char>::empty());
    out
}

/// Substitutes the captured values into a target template, placeholder by
/// placeholder in the order of the segments.
pub(crate) fn fill_target(target: &Vec<char>, segs: &Vec<Segment>, caps: &Vec<Vec<char>>) -> (r: Vec<
    char,
>)
    requires
        fits(segs_view(segs@), 0, caps@.map_values(|c: Vec<char>| c@)),
    ensures
        r@ == fill_from(target@, segs_view(segs@), 0, caps@.map_values(|c: Vec<char>| c@)),
{
    let ghost sv = segs_view(segs@);
    let ghost cv = caps@.map_values(|c: Vec<char>| c@);
    let mut cur: Vec<char> = target.clone();
    let mut k: usize = 0;
    let mut ci: usize = 0;
    let clen = caps.len();
    assert(cur@ == target@);
    assert(cv.subrange(0, cv.len() as int) =~= cv);
    while k < segs.len()
        invariant
            k <= segs@.len(),
            ci <= caps@.len(),
            clen == caps@.len(),
            sv == segs_view(segs@),
            cv == caps@.map_values(|c: Vec<char>| c@),
            fits(sv, k as int, cv.subrange(ci as int, cv.len() as int)),
            fill_from(cur@, sv, k as int, cv.subrange(ci as int, cv.len() as int)) == fill_from(
                target@,
                sv,
                0,
                cv,
            ),
        decreases segs@.len() - k,
    {
        let ghost rest = cv.subrange(ci as int, cv.len() as int);
        match &segs[k] {
            Segment::Literal(_) => {},
            Segment::Plain(tok) => {
                assert(sv[k as int] == SegView::Plain(tok@));
                assert(rest.len() > 0);
                assert(rest.drop_first() =~= cv.subrange(ci + 1, cv.len() as int));
                cur = replace_all_exec(&cur, tok, &caps[ci]);
                ci = ci + 1;
            },
            Segment::Wildcard(tok) => {
                assert(sv[k as int] == SegView::Wild(tok@));
                assert(rest.len() > 0);
                assert(rest.drop_first() =~= cv.subrange(ci + 1, cv.len() as int));
                cur = replace_all_exec(&cur, tok, &caps[ci]);
                ci = ci + 1;
            },
        }
        k = k + 1;
    }
    cur
}

} // verus!
