use vstd::prelude::*;
use crate::dispatch::starts_with;
use crate::logfile::ends_with;
use crate::matcher::{literal_at, slice_vec};
use crate::text::{chars_of, string_of};

verus! {

/// `s` with every leading repetition of `pre` removed.
pub open spec fn trim_prefix_all(s: Seq<char>, pre: Seq<char>) -> Seq<char>
    decreases s.len(),
{
    if pre.len() > 0 && starts_with(s, pre) {
        trim_prefix_all(s.subrange(pre.len() as int, s.len() as int), pre)
    } else {
        s
    }
}

/// The embedded asset that a request path names: leading slashes and
/// `static/` prefixes go, and an empty name means the index page.
pub open spec fn asset_path(uri_path: Seq<char>) -> Seq<char> {
    let p = trim_prefix_all(trim_prefix_all(uri_path, "/"@), "static/"@);
    if p.len() == 0 {
        "index.html"@
    } else {
        p
    }
}

/// Pages are always revalidated; other assets may be cached for a day.
pub open spec fn cache_policy(asset: Seq<char>) -> Seq<char> {
    if ends_with(asset, ".html"@) {
        "no-cache"@
    } else {
        "public, max-age=86400"@
    }
}

fn trim_prefix_all_exec(s: &Vec<char>, pre: &Vec<char>) -> (r: Vec<char>)
    ensures
        r@ == trim_prefix_all(s@, pre@),
{
    if pre.len() == 0 {
        return slice_vec(s, 0, s.len());
    }
    let mut i: usize = 0;
    let slen = s.len();
    assert(s@.subrange(0, s@.len() as int) =~= s@);
    while literal_at(s, i, pre)
        invariant
            i <= s@.len(),
            slen == s@.len(),
            pre@.len() > 0,
            trim_prefix_all(s@, pre@) == trim_prefix_all(s@.subrange(i as int, s@.len() as int), pre@),
        decreases s@.len() - i,
    {
        let ghost rest = s@.subrange(i as int, s@.len() as int);
        assert(rest.subrange(0, pre@.len() as int) =~= s@.subrange(i as int, i + pre@.len()));
        assert(rest.subrange(pre@.len() as int, rest.len() as int) =~= s@.subrange(
            i + pre@.len(),
            s@.len() as int,
        ));
        i = i + pre.len();
    }
    let ghost rest = s@.subrange(i as int, s@.len() as int);
    proof {
        if pre@.len() <= rest.len() {
            assert(rest.subrange(0, pre@.len() as int) =~= s@.subrange(i as int, i + pre@.len()));
        }
    }
    slice_vec(s, i, slen)
}

/// The name of the embedded asset for a request path.
pub fn static_asset_path(uri_path: &str) -> (r: String)
    ensures
        r@ == asset_path(uri_path@),
{
    let u = chars_of(uri_path);
    let a = trim_prefix_all_exec(&u, &chars_of("/"));
    let p = trim_prefix_all_exec(&a, &chars_of("static/"));
    if p.len() == 0 {
        String::from_str("index.html")
    } else {
        string_of(&p)
    }
}

/// The `Cache-Control` value for an asset.
pub fn cache_control_for(asset: &str) -> (r: &'static str)
    ensures
        r@ == cache_policy(asset@),
{
    let a = chars_of(asset);
    let html = chars_of(".html");
    let is_page = html.len() <= a.len() && literal_at(&a, a.len() - html.len(), &html);
    if is_page {
        "no-cache"
    } else {
        "public, max-age=86400"
    }
}

/// A name that reaches outside the asset directory: one with `..` in it.
pub open spec fn escapes_directory(name: Seq<char>) -> bool {
    exists|i: int| 0 <= i && i + 1 < name.len() && #[trigger] name[i] == '.' && name[i + 1] == '.'
}

/// Whether an asset name stays inside the asset directory.
pub fn is_safe_asset_name(name: &str) -> (r: bool)
    ensures
        r == !escapes_directory(name@),
{
    let n = chars_of(name);
    let mut i: usize = 0;
    while i < n.len()
        invariant
            i <= n@.len(),
            n@ == name@,
            forall|j: int| 0 <= j < i && j + 1 < n@.len() ==> !(#[trigger] n@[j] == '.' && n@[j + 1] == '.'),
        decreases n@.len() - i,
    {
        if n.len() - i > 1 && n[i] == '.' && n[i + 1] == '.' {
            return false;
        }
        i = i + 1;
    }
    true
}

} // verus!
