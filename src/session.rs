use vstd::prelude::*;
use crate::dispatch::starts_with;
use crate::matcher::{literal_at, slice_vec};
use crate::text::{chars_of, string_of};

verus! {

pub open spec fn is_blank(c: char) -> bool {
    c == ' ' || c == '\t'
}

/// `s` without leading blanks.
pub open spec fn trim_start(s: Seq<char>) -> Seq<char>
    decreases s.len(),
{
    if s.len() > 0 && is_blank(s[0]) {
        trim_start(s.drop_first())
    } else {
        s
    }
}

/// `s` without trailing blanks.
pub open spec fn trim_end(s: Seq<char>) -> Seq<char>
    decreases s.len(),
{
    if s.len() > 0 && is_blank(s.last()) {
        trim_end(s.drop_last())
    } else {
        s
    }
}

pub open spec fn trim(s: Seq<char>) -> Seq<char> {
    trim_end(trim_start(s))
}

/// End of the cookie part that starts at `i`: the next `;`, or the end.
pub open spec fn part_end(s: Seq<char>, i: int) -> int
    decreases s.len() - i,
{
    if 0 <= i < s.len() && s[i] != ';' {
        part_end(s, i + 1)
    } else {
        i
    }
}

/// The value of the first `token=` part of a cookie header, from position `i` on.
pub open spec fn cookie_token_from(s: Seq<char>, i: int) -> Option<Seq<char>>
    decreases s.len() - i,
{
    if i < 0 || i > s.len() {
        None
    } else {
        let e = part_end(s, i);
        let part = trim(s.subrange(i, e));
        if starts_with(part, "token="@) {
            Some(part.subrange(6, part.len() as int))
        } else if e >= s.len() || e < i {
            None
        } else {
            cookie_token_from(s, e + 1)
        }
    }
}

/// The session token of a request: a `Bearer` authorization wins over a
/// `token=` cookie.
pub open spec fn token_of(authorization: Option<Seq<char>>, cookie: Option<Seq<char>>) -> Option<
    Seq<char>,
> {
    match authorization {
        Some(a) if starts_with(a, "Bearer "@) => Some(a.subrange(7, a.len() as int)),
        _ => match cookie {
            Some(c) => cookie_token_from(c, 0),
            None => None,
        },
    }
}

fn trim_exec(v: &Vec<char>, from: usize, to: usize) -> (r: Vec<char>)
    requires
        from <= to <= v@.len(),
    ensures
        r@ == trim(v@.subrange(from as int, to as int)),
{
    let mut a: usize = from;
    while a < to && (v[a] == ' ' || v[a] == '\t')
        invariant
            from <= a <= to <= v@.len(),
            trim_start(v@.subrange(from as int, to as int)) == trim_start(
                v@.subrange(a as int, to as int),
            ),
        decreases to - a,
    {
        assert(v@.subrange(a as int, to as int).drop_first() =~= v@.subrange(a + 1, to as int));
        a = a + 1;
    }
    assert(trim_start(v@.subrange(a as int, to as int)) == v@.subrange(a as int, to as int));
    let mut b: usize = to;
    while b > a && (v[b - 1] == ' ' || v[b - 1] == '\t')
        invariant
            from <= a <= b <= to <= v@.len(),
            trim(v@.subrange(from as int, to as int)) == trim_end(v@.subrange(a as int, b as int)),
        decreases b - a,
    {
        assert(v@.subrange(a as int, b as int).drop_last() =~= v@.subrange(a as int, b - 1));
        b = b - 1;
    }
    slice_vec(v, a, b)
}

fn cookie_token(s: &Vec<char>) -> (r: Option<Vec<char>>)
    ensures
        match cookie_token_from(s@, 0) {
            Some(t) => r is Some && r->0@ == t,
            None => r is None,
        },
{
    let key = chars_of("token=");
    proof {
        reveal_strlit("token=");
    }
    let mut i: usize = 0;
    let slen = s.len();
    while i <= slen
        invariant
            slen == s@.len(),
            i <= s@.len() + 1,
            cookie_token_from(s@, 0) == cookie_token_from(s@, i as int),
            key@ == "token="@,
            key@.len() == 6,
        decreases s@.len() + 1 - i,
    {
        let mut e: usize = i;
        while e < slen && s[e] != ';'
            invariant
                i <= e <= s@.len(),
                slen == s@.len(),
                part_end(s@, i as int) == part_end(s@, e as int),
            decreases s@.len() - e,
        {
            e = e + 1;
        }
        let part = trim_exec(s, i, e);
        if literal_at(&part, 0, &key) {
            let plen = part.len();
            return Some(slice_vec(&part, 6, plen));
        }
        if e >= slen {
            return None;
        }
        i = e + 1;
    }
    None
}

/// The session token that a request carries, read from its `Authorization`
/// header (`Bearer <token>`) or else from its `Cookie` header (`token=<token>`).
pub fn extract_token(authorization: Option<&str>, cookie: Option<&str>) -> (r: Option<String>)
    ensures
        match token_of(
            match authorization {
                Some(a) => Some(a@),
                None => None,
            },
            match cookie {
                Some(c) => Some(c@),
                None => None,
            },
        ) {
            Some(t) => r is Some && r->0@ == t,
            None => r is None,
        },
{
    proof {
        reveal_strlit("Bearer ");
    }
    match authorization {
        Some(a) => {
            let ac = chars_of(a);
            let bearer = chars_of("Bearer ");
            if literal_at(&ac, 0, &bearer) {
                let alen = ac.len();
                let t = slice_vec(&ac, 7, alen);
                return Some(string_of(&t));
            }
        },
        None => {},
    }
    match cookie {
        Some(c) => {
            let cc = chars_of(c);
            match cookie_token(&cc) {
                Some(t) => Some(string_of(&t)),
                None => None,
            }
        },
        None => None,
    }
}

/// What the administration interface does with a request.
#[derive(Clone, Copy, Debug, PartialEq, Eq, Structural)]
pub enum Access {
    /// Let the request through.
    Allow,
    /// Answer 401: an API call without a live session.
    Unauthorized,
    /// Send the browser to the login page.
    RedirectToLogin,
}

/// Paths reachable without a session: the login flow and static assets.
pub open spec fn is_public_path(p: Seq<char>) -> bool {
    p == "/api/login"@ || p == "/api/session"@ || p == "/login"@ || p == "/favicon.ico"@
        || starts_with(p, "/static/"@)
}

pub open spec fn access_of(path: Seq<char>, session_valid: bool) -> Access {
    if is_public_path(path) || session_valid {
        Access::Allow
    } else if starts_with(path, "/api/"@) {
        Access::Unauthorized
    } else {
        Access::RedirectToLogin
    }
}

fn equals_literal(p: &Vec<char>, lit: &str) -> (r: bool)
    ensures
        r == (p@ == lit@),
{
    let l = chars_of(lit);
    let plen = p.len();
    assert(p@.subrange(0, plen as int) =~= p@);
    l.len() == plen && literal_at(p, 0, &l)
}

/// Decides whether a request to the administration interface may go on,
/// given whether it carries a live session.
pub fn access_for(path: &str, session_valid: bool) -> (r: Access)
    ensures
        r == access_of(path@, session_valid),
{
    let p = chars_of(path);
    let public = equals_literal(&p, "/api/login") || equals_literal(&p, "/api/session")
        || equals_literal(&p, "/login") || equals_literal(&p, "/favicon.ico") || literal_at(
        &p,
        0,
        &chars_of("/static/"),
    );
    if public || session_valid {
        Access::Allow
    } else if literal_at(&p, 0, &chars_of("/api/")) {
        Access::Unauthorized
    } else {
        Access::RedirectToLogin
    }
}

/// A session is live until the second it expires at.
pub fn session_active(expires_at: i64, now: i64) -> (r: bool)
    ensures
        r == (expires_at > now),
{
    expires_at > now
}

/// Whether the given credentials are the configured ones.
pub fn credentials_match(
    username: &String,
    password: &String,
    given_username: &String,
    given_password: &String,
) -> (r: bool)
    ensures
        r == (username@ == given_username@ && password@ == given_password@),
{
    *username == *given_username && *password == *given_password
}

} // verus!
