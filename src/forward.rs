use vstd::prelude::*;
use crate::matcher::literal_at;
use crate::text::chars_of;

verus! {

/// Largest accepted inbound request body, in bytes (100 MiB).
pub const MAX_BODY_BYTES: usize = 104857600;

/// One header line: its name and its raw value.
#[derive(Clone, Debug)]
pub struct HeaderField {
    pub name: String,
    pub value: Vec<u8>,
}

pub struct HeaderView {
    pub name: Seq<char>,
    pub value: Seq<u8>,
}

impl View for HeaderField {
    type V = HeaderView;

    open spec fn view(&self) -> HeaderView {
        HeaderView { name: self.name@, value: self.value@ }
    }
}

pub open spec fn headers_view(v: Seq<HeaderField>) -> Seq<HeaderView> {
    v.map_values(|h: HeaderField| h@)
}

/// `a` equals the lower-case character `l`, ignoring ASCII case.
pub open spec fn char_eq_ci(a: char, l: char) -> bool {
    a == l || ('a' <= l && l <= 'z' && (a as u32) + 32 == (l as u32))
}

/// Header name `n` equals the lower-case name `l`, ignoring ASCII case.
pub open spec fn same_name(n: Seq<char>, l: Seq<char>) -> bool {
    n.len() == l.len() && forall|i: int| 0 <= i < n.len() ==> char_eq_ci(#[trigger] n[i], l[i])
}

/// A header that is meaningful for one connection only and is never relayed.
pub open spec fn is_hop_by_hop(n: Seq<char>) -> bool {
    same_name(n, "connection"@) || same_name(n, "keep-alive"@) || same_name(
        n,
        "proxy-authenticate"@,
    ) || same_name(n, "proxy-authorization"@) || same_name(n, "te"@) || same_name(
        n,
        "trailers"@,
    ) || same_name(n, "transfer-encoding"@) || same_name(n, "upgrade"@) || same_name(n, "host"@)
}

/// The headers of `hs` that may be relayed, in order; with `drop_xff`, the
/// `X-Forwarded-For` lines go too.
pub open spec fn kept(hs: Seq<HeaderView>, drop_xff: bool) -> Seq<HeaderView>
    decreases hs.len(),
{
    if hs.len() == 0 {
        Seq::empty()
    } else {
        let r = kept(hs.drop_last(), drop_xff);
        let h = hs.last();
        if is_hop_by_hop(h.name) || (drop_xff && same_name(h.name, "x-forwarded-for"@)) {
            r
        } else {
            r.push(h)
        }
    }
}

/// The value of the first header named `l`, if there is one.
pub open spec fn first_value(hs: Seq<HeaderView>, l: Seq<char>) -> Option<Seq<u8>>
    decreases hs.len(),
{
    if hs.len() == 0 {
        None
    } else if same_name(hs[0].name, l) {
        Some(hs[0].value)
    } else {
        first_value(hs.drop_first(), l)
    }
}

/// The values of the headers named `l`, in order.
pub open spec fn values_named(hs: Seq<HeaderView>, l: Seq<char>) -> Seq<Seq<u8>>
    decreases hs.len(),
{
    if hs.len() == 0 {
        Seq::empty()
    } else {
        let r = values_named(hs.drop_first(), l);
        if same_name(hs[0].name, l) {
            seq![hs[0].value] + r
        } else {
            r
        }
    }
}

/// The `X-Forwarded-For` value sent upstream: each incoming value of the
/// chain followed by a comma and a space, then the client address.
pub open spec fn chain_with(vals: Seq<Seq<u8>>, client_ip: Seq<u8>) -> Seq<u8>
    decreases vals.len(),
{
    if vals.len() == 0 {
        client_ip
    } else {
        vals[0] + seq![44u8, 32u8] + chain_with(vals.drop_first(), client_ip)
    }
}

pub open spec fn header(name: Seq<char>, value: Seq<u8>) -> HeaderView {
    HeaderView { name, value }
}

/// The headers of the outbound request.
pub open spec fn outbound(hs: Seq<HeaderView>, client_ip: Seq<u8>, target: Seq<char>) -> Seq<
    HeaderView,
> {
    let xff = seq![
        header(
            "x-forwarded-for"@,
            chain_with(values_named(hs, "x-forwarded-for"@), client_ip),
        ),
    ];
    let real_ip = if first_value(hs, "x-real-ip"@) is Some {
        Seq::empty()
    } else {
        seq![header("x-real-ip"@, client_ip)]
    };
    let proto = if first_value(hs, "x-forwarded-proto"@) is Some {
        Seq::empty()
    } else {
        seq![header("x-forwarded-proto"@, proto_of(target))]
    };
    kept(hs, true) + xff + real_ip + proto
}

/// `https` for an `https://` target, `http` for any other.
pub open spec fn proto_of(target: Seq<char>) -> Seq<u8> {
    if 8 <= target.len() && target.subrange(0, 8) == "https://"@ {
        seq![104u8, 116u8, 116u8, 112u8, 115u8]
    } else {
        seq![104u8, 116u8, 116u8, 112u8]
    }
}

fn same_name_exec(n: &Vec<char>, l: &Vec<char>) -> (r: bool)
    ensures
        r == same_name(n@, l@),
{
    if n.len() != l.len() {
        return false;
    }
    let mut i: usize = 0;
    while i < n.len()
        invariant
            i <= n@.len(),
            n@.len() == l@.len(),
            forall|j: int| 0 <= j < i ==> char_eq_ci(#[trigger] n@[j], l@[j]),
        decreases n@.len() - i,
    {
        let a = n[i];
        let b = l[i];
        let eq = a == b || ('a' <= b && b <= 'z' && (a as u32) == (b as u32) - 32);
        if !eq {
            assert(!char_eq_ci(n@[i as int], l@[i as int]));
            return false;
        }
        i = i + 1;
    }
    true
}

fn name_is(n: &str, l: &str) -> (r: bool)
    ensures
        r == same_name(n@, l@),
{
    let nc = chars_of(n);
    let lc = chars_of(l);
    same_name_exec(&nc, &lc)
}

/// Whether a header is hop-by-hop (ASCII case is ignored).
pub fn is_hop_by_hop_header(name: &str) -> (r: bool)
    ensures
        r == is_hop_by_hop(name@),
{
    name_is(name, "connection") || name_is(name, "keep-alive") || name_is(
        name,
        "proxy-authenticate",
    ) || name_is(name, "proxy-authorization") || name_is(name, "te") || name_is(
        name,
        "trailers",
    ) || name_is(name, "transfer-encoding") || name_is(name, "upgrade") || name_is(name, "host")
}

fn copy_bytes(v: &Vec<u8>) -> (r: Vec<u8>)
    ensures
        r@ == v@,
{
    let mut r: Vec<u8> = Vec::new();
    let mut i: usize = 0;
    while i < v.len()
        invariant
            i <= v@.len(),
            r@ == v@.subrange(0, i as int),
        decreases v@.len() - i,
    {
        r.push(v[i]);
        i = i + 1;
        assert(r@ =~= v@.subrange(0, i as int));
    }
    assert(v@.subrange(0, i as int) =~= v@);
    r
}

fn copy_header(h: &HeaderField) -> (r: HeaderField)
    ensures
        r@ == h@,
{
    HeaderField { name: h.name.clone(), value: copy_bytes(&h.value) }
}

fn keep_headers(hs: &Vec<HeaderField>, drop_xff: bool) -> (r: Vec<HeaderField>)
    ensures
        headers_view(r@) == kept(headers_view(hs@), drop_xff),
{
    let ghost hv = headers_view(hs@);
    let mut out: Vec<HeaderField> = Vec::new();
    let mut i: usize = 0;
    while i < hs.len()
        invariant
            i <= hs@.len(),
            hv == headers_view(hs@),
            headers_view(out@) == kept(hv.subrange(0, i as int), drop_xff),
        decreases hs@.len() - i,
    {
        assert(hv.subrange(0, i + 1).drop_last() =~= hv.subrange(0, i as int));
        assert(hv.subrange(0, i + 1).last() == hs@[i as int]@);
        let n = hs[i].name.as_str();
        if !(is_hop_by_hop_header(n) || (drop_xff && name_is(n, "x-forwarded-for"))) {
            out.push(copy_header(&hs[i]));
        }
        i = i + 1;
        assert(headers_view(out@) =~= kept(hv.subrange(0, i as int), drop_xff));
    }
    assert(hv.subrange(0, i as int) =~= hv);
    out
}

fn first_value_exec(hs: &Vec<HeaderField>, l: &str) -> (r: Option<Vec<u8>>)
    ensures
        match first_value(headers_view(hs@), l@) {
            Some(v) => r is Some && r->0@ == v,
            None => r is None,
        },
{
    let ghost hv = headers_view(hs@);
    let mut i: usize = 0;
    assert(hv.subrange(0, hv.len() as int) =~= hv);
    while i < hs.len()
        invariant
            i <= hs@.len(),
            hv == headers_view(hs@),
            first_value(hv, l@) == first_value(hv.subrange(i as int, hv.len() as int), l@),
        decreases hs@.len() - i,
    {
        let ghost rest = hv.subrange(i as int, hv.len() as int);
        assert(rest.drop_first() =~= hv.subrange(i + 1, hv.len() as int));
        assert(rest[0] == hs@[i as int]@);
        if name_is(hs[i].name.as_str(), l) {
            return Some(copy_bytes(&hs[i].value));
        }
        i = i + 1;
    }
    None
}

fn append_bytes(out: &mut Vec<u8>, v: &Vec<u8>)
    ensures
        final(out)@ == old(out)@ + v@,
{
    let ghost o = old(out)@;
    let mut i: usize = 0;
    while i < v.len()
        invariant
            i <= v@.len(),
            out@ == o + v@.subrange(0, i as int),
        decreases v@.len() - i,
    {
        out.push(v[i]);
        i = i + 1;
        assert(out@ =~= o + v@.subrange(0, i as int));
    }
    assert(v@.subrange(0, i as int) =~= v@);
}

/// The `X-Forwarded-For` value for a request with headers `hs` from
/// `client_ip`: the incoming chain, all its lines in order, extended by the
/// client address.
pub fn forwarded_for_value(hs: &Vec<HeaderField>, client_ip: &Vec<u8>) -> (r: Vec<u8>)
    ensures
        r@ == chain_with(values_named(headers_view(hs@), "x-forwarded-for"@), client_ip@),
{
    let ghost hv = headers_view(hs@);
    let mut out: Vec<u8> = Vec::new();
    let mut i: usize = 0;
    assert(hv.subrange(0, hv.len() as int) =~= hv);
    while i < hs.len()
        invariant
            i <= hs@.len(),
            hv == headers_view(hs@),
            out@ + chain_with(values_named(hv.subrange(i as int, hv.len() as int), "x-forwarded-for"@), client_ip@)
                == chain_with(values_named(hv, "x-forwarded-for"@), client_ip@),
        decreases hs@.len() - i,
    {
        let ghost rest = hv.subrange(i as int, hv.len() as int);
        let ghost tail = values_named(hv.subrange(i + 1, hv.len() as int), "x-forwarded-for"@);
        assert(rest.drop_first() =~= hv.subrange(i + 1, hv.len() as int));
        assert(rest[0] == hs@[i as int]@);
        if name_is(hs[i].name.as_str(), "x-forwarded-for") {
            let ghost o = out@;
            let ghost vals = seq![hs@[i as int].value@] + tail;
            assert(vals[0] == hs@[i as int].value@);
            assert(vals.drop_first() =~= tail);
            append_bytes(&mut out, &hs[i].value);
            out.push(44u8);
            out.push(32u8);
            assert(out@ + chain_with(tail, client_ip@) =~= o + chain_with(vals, client_ip@));
        }
        i = i + 1;
    }
    assert(hv.subrange(i as int, hv.len() as int) =~= Seq::<HeaderView>::empty());
    append_bytes(&mut out, client_ip);
    out
}

fn proto_value(target: &str) -> (r: Vec<u8>)
    ensures
        r@ == proto_of(target@),
{
    let t = chars_of(target);
    let https = chars_of("https://");
    proof {
        reveal_strlit("https://");
    }
    let secure = literal_at(&t, 0, &https);
    if secure {
        let v: Vec<u8> = vec![104u8, 116u8, 116u8, 112u8, 115u8];
        assert(v@ =~= seq![104u8, 116u8, 116u8, 112u8, 115u8]);
        v
    } else {
        let v: Vec<u8> = vec![104u8, 116u8, 116u8, 112u8];
        assert(v@ =~= seq![104u8, 116u8, 116u8, 112u8]);
        v
    }
}

fn named(name: &str, value: Vec<u8>) -> (r: HeaderField)
    ensures
        r@ == header(name@, value@),
{
    HeaderField { name: name.to_string(), value }
}

/// The headers sent upstream: the inbound ones minus hop-by-hop headers,
/// with `X-Forwarded-For` (all its lines) extended by the client address, and `X-Real-IP`
/// and `X-Forwarded-Proto` added where the client sent none.
pub fn outbound_headers(inbound: &Vec<HeaderField>, client_ip: &Vec<u8>, target_url: &str) -> (r:
    Vec<HeaderField>)
    ensures
        headers_view(r@) == outbound(headers_view(inbound@), client_ip@, target_url@),
{
    let ghost hv = headers_view(inbound@);
    let mut out = keep_headers(inbound, true);
    let xff = forwarded_for_value(inbound, client_ip);
    out.push(named("x-forwarded-for", xff));
    if first_value_exec(inbound, "x-real-ip").is_none() {
        out.push(named("x-real-ip", copy_bytes(client_ip)));
    }
    if first_value_exec(inbound, "x-forwarded-proto").is_none() {
        out.push(named("x-forwarded-proto", proto_value(target_url)));
    }
    assert(headers_view(out@) =~= outbound(hv, client_ip@, target_url@));
    out
}

/// The headers relayed back to the client: the upstream ones minus hop-by-hop headers.
pub fn response_headers(upstream: &Vec<HeaderField>) -> (r: Vec<HeaderField>)
    ensures
        headers_view(r@) == kept(headers_view(upstream@), false),
{
    keep_headers(upstream, false)
}

/// How forwarding a request can fail.
#[derive(Clone, Copy, Debug, PartialEq, Eq, Structural)]
pub enum ProxyError {
    /// Neither direct passthrough nor any rule applies to the path.
    NoMatch,
    /// The inbound body is over the size cap, or could not be read.
    BodyTooLarge,
    /// The upstream call ran past its deadline.
    UpstreamTimeout,
    /// The upstream could not be reached, or the exchange failed.
    UpstreamUnreachable,
}

/// The HTTP status that a failure surfaces as.
pub open spec fn status_of(e: ProxyError) -> u16 {
    match e {
        ProxyError::NoMatch => 404,
        ProxyError::BodyTooLarge => 400,
        ProxyError::UpstreamTimeout => 504,
        ProxyError::UpstreamUnreachable => 502,
    }
}

impl ProxyError {
    /// The HTTP status that the client receives for this failure.
    pub fn status_code(&self) -> (r: u16)
        ensures
            r == status_of(*self),
    {
        match self {
            ProxyError::NoMatch => 404,
            ProxyError::BodyTooLarge => 400,
            ProxyError::UpstreamTimeout => 504,
            ProxyError::UpstreamUnreachable => 502,
        }
    }
}

/// Classifies a failed upstream send: a timeout, or any other transport failure.
pub fn classify_send_failure(is_timeout: bool) -> (r: ProxyError)
    ensures
        r == (if is_timeout {
            ProxyError::UpstreamTimeout
        } else {
            ProxyError::UpstreamUnreachable
        }),
{
    if is_timeout {
        ProxyError::UpstreamTimeout
    } else {
        ProxyError::UpstreamUnreachable
    }
}

} // verus!
