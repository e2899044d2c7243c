use vstd::prelude::*;
use crate::dispatch::{direct_target, first_match, resolution};
use crate::forward::{
    chain_with, header, is_hop_by_hop, kept, outbound, same_name, values_named,
    HeaderView,
};
use crate::matcher::{
    captures_of, fits, holds_at, lemma_match_complete, lemma_match_sound, render,
};
use crate::rules::{ProxyRule, RuleView, compile_enabled, rule_target};
use crate::substitute::fill_from;
use crate::template::parse_template;

verus! {

/// A compiled template accepts a path exactly when the path is the template
/// with each `{name}` replaced by a non-empty text without `/` and each
/// `{*name}` by a non-empty text, optionally followed by a query string.
pub proof fn lemma_template_accepts_exactly(t: Seq<char>, p: Seq<char>)
    ensures
        captures_of(parse_template(t), p) is Some <==> exists|vals: Seq<Seq<char>>|
            fits(parse_template(t), 0, vals) && holds_at(p, 0, render(parse_template(t), 0, vals)),
{
    let segs = parse_template(t);
    if captures_of(segs, p) is Some {
        lemma_match_sound(segs, 0, p, 0);
        let c = captures_of(segs, p)->0;
        assert(fits(segs, 0, c) && holds_at(p, 0, render(segs, 0, c)));
    }
    if exists|vals: Seq<Seq<char>>| fits(segs, 0, vals) && holds_at(p, 0, render(segs, 0, vals)) {
        let vals = choose|vals: Seq<Seq<char>>|
            fits(segs, 0, vals) && holds_at(p, 0, render(segs, 0, vals));
        lemma_match_complete(segs, 0, p, 0, vals);
    }
}

/// A wildcard placeholder accepts values that contain `/`: rendering a
/// template with admissible values, one of which holds a `/`, gives a path
/// that the compiled template accepts.
pub proof fn lemma_wildcard_accepts_slash(t: Seq<char>, vals: Seq<Seq<char>>, p: Seq<char>, j: int, x: int)
    requires
        fits(parse_template(t), 0, vals),
        0 <= j < vals.len(),
        0 <= x < vals[j].len(),
        vals[j][x] == '/',
        p == render(parse_template(t), 0, vals),
    ensures
        captures_of(parse_template(t), p) is Some,
{
    let segs = parse_template(t);
    assert(p.subrange(0, p.len() as int) =~= p);
    lemma_match_complete(segs, 0, p, 0, vals);
}

/// What a compiled template captures from a path, put back into the template
/// placeholder for placeholder, gives the path again (up to its query string).
pub proof fn lemma_round_trip(t: Seq<char>, p: Seq<char>)
    requires
        captures_of(parse_template(t), p) is Some,
    ensures
        fits(parse_template(t), 0, captures_of(parse_template(t), p)->0),
        holds_at(p, 0, render(parse_template(t), 0, captures_of(parse_template(t), p)->0)),
{
    lemma_match_sound(parse_template(t), 0, p, 0);
}

/// Captured values are substituted placeholder for placeholder: where a path
/// is a rule's source template with its placeholders taken by `vals`, and no
/// other admissible values give the same path, the rule's target is its target
/// template with each placeholder's token replaced by that placeholder's value.
pub proof fn lemma_captures_substituted(rule: RuleView, vals: Seq<Seq<char>>, p: Seq<char>)
    requires
        fits(rule.segs, 0, vals),
        p == render(rule.segs, 0, vals),
        forall|w: Seq<Seq<char>>|
            fits(rule.segs, 0, w) && holds_at(p, 0, #[trigger] render(rule.segs, 0, w)) ==> w == vals,
    ensures
        captures_of(rule.segs, p) == Some(vals),
        rule_target(rule, p) == Some(fill_from(rule.target, rule.segs, 0, vals)),
{
    assert(p.subrange(0, p.len() as int) =~= p);
    lemma_match_complete(rule.segs, 0, p, 0, vals);
    lemma_match_sound(rule.segs, 0, p, 0);
}

proof fn lemma_first_match_prefix(rules: Seq<RuleView>, path: Seq<char>, k: int, i: int, j: int)
    requires
        0 <= k <= i < j <= rules.len(),
        rule_target(rules[i], path) is Some,
    ensures
        first_match(rules, path, k) == first_match(rules.subrange(0, j), path, k),
        first_match(rules, path, k) is Some,
    decreases i - k,
{
    assert(rules.subrange(0, j)[k] == rules[k]);
    if rule_target(rules[k], path) is None {
        lemma_first_match_prefix(rules, path, k + 1, i, j);
    }
}

/// Rule priority: where an earlier rule matches a path, no later rule plays
/// any part in where the request goes.
pub proof fn lemma_earlier_rule_wins(
    rules: Seq<RuleView>,
    prefix: Seq<char>,
    default_timeout_secs: u64,
    path: Seq<char>,
    query: Option<Seq<char>>,
    i: int,
    j: int,
)
    requires
        0 <= i < j < rules.len(),
        rule_target(rules[i], path) is Some,
        rule_target(rules[j], path) is Some,
    ensures
        resolution(rules, prefix, default_timeout_secs, path, query) is Some,
        resolution(rules, prefix, default_timeout_secs, path, query) == resolution(
            rules.subrange(0, j),
            prefix,
            default_timeout_secs,
            path,
            query,
        ),
{
    lemma_first_match_prefix(rules, path, 0, i, j);
}

proof fn lemma_compile_skips_disabled(records: Seq<ProxyRule>, j: int)
    requires
        0 <= j < records.len(),
        !records[j].enabled,
    ensures
        compile_enabled(records) == compile_enabled(records.remove(j)),
    decreases records.len(),
{
    if j == records.len() - 1 {
        assert(records.remove(j) =~= records.drop_last());
    } else {
        assert(records.remove(j).drop_last() =~= records.drop_last().remove(j));
        assert(records.remove(j).last() == records.last());
        lemma_compile_skips_disabled(records.drop_last(), j);
    }
}

/// A disabled rule record is never matched: taking it out of the records
/// changes no resolution.
pub proof fn lemma_disabled_rule_never_matched(
    records: Seq<ProxyRule>,
    j: int,
    prefix: Seq<char>,
    default_timeout_secs: u64,
    path: Seq<char>,
    query: Option<Seq<char>>,
)
    requires
        0 <= j < records.len(),
        !records[j].enabled,
    ensures
        resolution(compile_enabled(records), prefix, default_timeout_secs, path, query)
            == resolution(
            compile_enabled(records.remove(j)),
            prefix,
            default_timeout_secs,
            path,
            query,
        ),
{
    lemma_compile_skips_disabled(records, j);
}

proof fn lemma_kept_clean(hs: Seq<HeaderView>, drop_xff: bool)
    ensures
        forall|k: int|
            0 <= k < kept(hs, drop_xff).len() ==> !is_hop_by_hop(#[trigger] kept(hs, drop_xff)[k].name),
        drop_xff ==> forall|k: int|
            0 <= k < kept(hs, drop_xff).len() ==> !same_name(
                #[trigger] kept(hs, drop_xff)[k].name,
                "x-forwarded-for"@,
            ),
    decreases hs.len(),
{
    if hs.len() > 0 {
        lemma_kept_clean(hs.drop_last(), drop_xff);
        let r = kept(hs.drop_last(), drop_xff);
        let out = kept(hs, drop_xff);
        assert forall|k: int| 0 <= k < out.len() implies !is_hop_by_hop(#[trigger] out[k].name)
            && (drop_xff ==> !same_name(out[k].name, "x-forwarded-for"@)) by {
            if k < r.len() {
                assert(out[k] == r[k]);
            }
        }
    }
}

proof fn lemma_added_names_not_hop()
    ensures
        !is_hop_by_hop("x-forwarded-for"@),
        !is_hop_by_hop("x-real-ip"@),
        !is_hop_by_hop("x-forwarded-proto"@),
{
    reveal_strlit("x-forwarded-for");
    reveal_strlit("x-real-ip");
    reveal_strlit("x-forwarded-proto");
    reveal_strlit("connection");
    reveal_strlit("keep-alive");
    reveal_strlit("proxy-authenticate");
    reveal_strlit("proxy-authorization");
    reveal_strlit("te");
    reveal_strlit("trailers");
    reveal_strlit("transfer-encoding");
    reveal_strlit("upgrade");
    reveal_strlit("host");
    assert(!same_name("x-forwarded-proto"@, "transfer-encoding"@)) by {
        assert("x-forwarded-proto"@[0] == 'x');
    }
}

/// Hop-by-hop headers never reach the upstream, nor come back to the client,
/// whatever either side sent.
pub proof fn lemma_no_hop_by_hop_relayed(
    inbound: Seq<HeaderView>,
    upstream: Seq<HeaderView>,
    client_ip: Seq<u8>,
    target: Seq<char>,
)
    ensures
        forall|k: int|
            0 <= k < outbound(inbound, client_ip, target).len() ==> !is_hop_by_hop(
                #[trigger] outbound(inbound, client_ip, target)[k].name,
            ),
        forall|k: int|
            0 <= k < kept(upstream, false).len() ==> !is_hop_by_hop(
                #[trigger] kept(upstream, false)[k].name,
            ),
{
    lemma_kept_clean(inbound, true);
    lemma_kept_clean(upstream, false);
    lemma_added_names_not_hop();
    let o = outbound(inbound, client_ip, target);
    let n = kept(inbound, true).len();
    assert forall|k: int| 0 <= k < o.len() implies !is_hop_by_hop(#[trigger] o[k].name) by {
        if k < n {
            assert(o[k] == kept(inbound, true)[k]);
        }
    }
}

/// `X-Forwarded-For` accumulates: the outbound request carries exactly one
/// such header. It is the client address alone where the request brought
/// none; where it brought the chain `B`, it is `B`, a comma, a space, then the
/// client address; where it brought several lines, they are joined in order.
pub proof fn lemma_forwarded_for_accumulates(
    inbound: Seq<HeaderView>,
    client_ip: Seq<u8>,
    target: Seq<char>,
)
    ensures
        ({
            let o = outbound(inbound, client_ip, target);
            let n = kept(inbound, true).len() as int;
            &&& o[n] == header("x-forwarded-for"@, chain_with(values_named(inbound, "x-forwarded-for"@), client_ip))
            &&& forall|k: int| 0 <= k < o.len() && k != n ==> !same_name(#[trigger] o[k].name, "x-forwarded-for"@)
        }),
        values_named(inbound, "x-forwarded-for"@).len() == 0 ==> chain_with(
            values_named(inbound, "x-forwarded-for"@),
            client_ip,
        ) == client_ip,
        values_named(inbound, "x-forwarded-for"@).len() == 1 ==> chain_with(
            values_named(inbound, "x-forwarded-for"@),
            client_ip,
        ) == values_named(inbound, "x-forwarded-for"@)[0] + seq![44u8, 32u8] + client_ip,
{
    lemma_kept_clean(inbound, true);
    reveal_strlit("x-forwarded-for");
    reveal_strlit("x-real-ip");
    reveal_strlit("x-forwarded-proto");
    let vals = values_named(inbound, "x-forwarded-for"@);
    if vals.len() == 1 {
        assert(vals.drop_first() =~= Seq::<Seq<u8>>::empty());
        assert(chain_with(vals.drop_first(), client_ip) == client_ip);
    }
    let o = outbound(inbound, client_ip, target);
    let n = kept(inbound, true).len() as int;
    assert forall|k: int| 0 <= k < o.len() && k != n implies !same_name(
        #[trigger] o[k].name,
        "x-forwarded-for"@,
    ) by {
        if k < n {
            assert(o[k] == kept(inbound, true)[k]);
        }
    }
}

} // verus!
