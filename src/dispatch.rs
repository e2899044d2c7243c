use vstd::prelude::*;
use crate::matcher::literal_at;
use crate::rules::{CompiledProxyRule, RuleView, rule_target, rules_view};
use crate::text::{chars_of, push_char, string_of};

verus! {

/// Where a request goes: the upstream URL and the timeout of the call.
#[derive(Clone, Debug)]
pub struct ResolvedTarget {
    pub url: String,
    pub timeout_secs: u64,
}

pub open spec fn starts_with(s: Seq<char>, pre: Seq<char>) -> bool {
    pre.len() <= s.len() && s.subrange(0, pre.len() as int) == pre
}

/// The upstream URL embedded in a direct-passthrough path `/{prefix}/http...`,
/// if `path` is one.
pub open spec fn direct_target(prefix: Seq<char>, path: Seq<char>) -> Option<Seq<char>> {
    let pre = seq!['/'] + prefix + seq!['/'];
    if starts_with(path, pre) {
        let rest = path.subrange(pre.len() as int, path.len() as int);
        if starts_with(rest, "http://"@) || starts_with(rest, "https://"@) {
            Some(rest)
        } else {
            None
        }
    } else {
        None
    }
}

/// `url` with the query string of the request put back, if there was one.
pub open spec fn with_query(url: Seq<char>, query: Option<Seq<char>>) -> Seq<char> {
    match query {
        Some(q) => url + seq!['?'] + q,
        None => url,
    }
}

/// The target and timeout of the first rule from index `i` on that matches `path`.
pub open spec fn first_match(rules: Seq<RuleView>, path: Seq<char>, i: int) -> Option<
    (Seq<char>, u64),
>
    decreases rules.len() - i,
{
    if i < 0 || i >= rules.len() {
        None
    } else {
        match rule_target(rules[i], path) {
            Some(u) => Some((u, rules[i].timeout_secs)),
            None => first_match(rules, path, i + 1),
        }
    }
}

/// Where a request for `path` (with `query`) goes: direct passthrough first,
/// then the first matching rule; `None` where neither applies.
pub open spec fn resolution(
    rules: Seq<RuleView>,
    prefix: Seq<char>,
    default_timeout_secs: u64,
    path: Seq<char>,
    query: Option<Seq<char>>,
) -> Option<(Seq<char>, u64)> {
    match direct_target(prefix, path) {
        Some(u) => Some((with_query(u, query), default_timeout_secs)),
        None => match first_match(rules, path, 0) {
            Some((u, t)) => Some((with_query(u, query), t)),
            None => None,
        },
    }
}

pub open spec fn opt_str_view(q: Option<&str>) -> Option<Seq<char>> {
    match q {
        Some(s) => Some(s@),
        None => None,
    }
}

fn append_chars(out: &mut String, v: &Vec<char>)
    ensures
        final(out)@ == old(out)@ + v@,
{
    let mut i: usize = 0;
    let ghost o = old(out)@;
    while i < v.len()
        invariant
            i <= v@.len(),
            out@ == o + v@.subrange(0, i as int),
        decreases v@.len() - i,
    {
        push_char(out, v[i]);
        i = i + 1;
        assert(out@ =~= o + v@.subrange(0, i as int));
    }
    assert(v@.subrange(0, i as int) =~= v@);
}

fn add_query(url: String, query: Option<&str>) -> (r: String)
    ensures
        r@ == with_query(url@, opt_str_view(query)),
{
    match query {
        Some(q) => {
            let mut u = url;
            push_char(&mut u, '?');
            let qc = chars_of(q);
            append_chars(&mut u, &qc);
            u
        },
        None => url,
    }
}

fn direct_target_exec(prefix: &str, path: &Vec<char>) -> (r: Option<Vec<char>>)
    ensures
        match direct_target(prefix@, path@) {
            Some(u) => r is Some && r->0@ == u,
            None => r is None,
        },
{
    let pc = chars_of(prefix);
    let mut pre: Vec<char> = Vec::new();
    pre.push('/');
    let mut i: usize = 0;
    while i < pc.len()
        invariant
            i <= pc@.len(),
            pre@ == seq!['/'] + pc@.subrange(0, i as int),
        decreases pc@.len() - i,
    {
        pre.push(pc[i]);
        i = i + 1;
        assert(pre@ =~= seq!['/'] + pc@.subrange(0, i as int));
    }
    pre.push('/');
    assert(pre@ =~= seq!['/'] + prefix@ + seq!['/']);
    if !literal_at(path, 0, &pre) {
        return None;
    }
    let start = pre.len();
    let mut rest: Vec<char> = Vec::new();
    let mut j: usize = start;
    while j < path.len()
        invariant
            start <= j <= path@.len(),
            rest@ == path@.subrange(start as int, j as int),
        decreases path@.len() - j,
    {
        rest.push(path[j]);
        j = j + 1;
        assert(rest@ =~= path@.subrange(start as int, j as int));
    }
    let http = chars_of("http://");
    let https = chars_of("https://");
    assert(rest@.subrange(0, rest@.len() as int) =~= rest@);
    if literal_at(&rest, 0, &http) || literal_at(&rest, 0, &https) {
        Some(rest)
    } else {
        None
    }
}

/// Decides where a request for `path` goes, against one snapshot of the rule
/// table and of the direct-passthrough prefix. A path of the form
/// `/{prefix}/http://...` or `/{prefix}/https://...` goes to the embedded URL
/// with the default timeout, whatever the rules say; otherwise the first
/// matching rule decides. The query string, if any, is carried over.
pub fn resolve(
    rules: &Vec<CompiledProxyRule>,
    direct_prefix: &str,
    default_timeout_secs: u64,
    path: &str,
    query: Option<&str>,
) -> (r: Option<ResolvedTarget>)
    ensures
        match resolution(
            rules_view(rules@),
            direct_prefix@,
            default_timeout_secs,
            path@,
            opt_str_view(query),
        ) {
            Some((u, t)) => r is Some && r->0.url@ == u && r->0.timeout_secs == t,
            None => r is None,
        },
{
    let p = chars_of(path);
    match direct_target_exec(direct_prefix, &p) {
        Some(u) => {
            let url = add_query(string_of(&u), query);
            return Some(ResolvedTarget { url, timeout_secs: default_timeout_secs });
        },
        None => {},
    }
    let ghost rv = rules_view(rules@);
    let mut i: usize = 0;
    while i < rules.len()
        invariant
            i <= rules@.len(),
            rv == rules_view(rules@),
            p@ == path@,
            direct_target(direct_prefix@, path@) is None,
            first_match(rv, path@, 0) == first_match(rv, path@, i as int),
        decreases rules@.len() - i,
    {
        assert(rv[i as int] == rules@[i as int]@);
        match rules[i].target_for(&p) {
            Some(u) => {
                let url = add_query(u, query);
                return Some(ResolvedTarget { url, timeout_secs: rules[i].timeout_secs });
            },
            None => {},
        }
        i = i + 1;
    }
    None
}

} // verus!
