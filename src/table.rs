use vstd::prelude::*;
use std::sync::Arc;
use crate::dispatch::{opt_str_view, resolution, resolve, ResolvedTarget};
use crate::matcher::literal_at;
use crate::text::chars_of;
use crate::rules::{CompiledProxyRule, ProxyRule, RuleView, compile_enabled, compile_rules};

verus! {

/// A shared cell holding one immutable snapshot, replaced whole and read
/// without blocking. Every handle made by `share` sees the same cell. What a
/// load returns depends on the stores that other tasks made before it, so the
/// contracts say nothing of it.
#[verifier::external_body]
#[verifier::reject_recursive_types(T)]
pub struct SnapshotCell<T> {
    cell: Arc<arc_swap::ArcSwap<T>>,
}

impl<T> SnapshotCell<T> {
    /// Relies on `ArcSwapAny::from_pointee`: a new cell holding `value`.
    #[verifier::external_body]
    pub(crate) fn new(value: T) -> SnapshotCell<T> {
        SnapshotCell { cell: Arc::new(arc_swap::ArcSwap::from_pointee(value)) }
    }

    /// Relies on `ArcSwapAny::load_full`: a handle on the snapshot stored
    /// last, which stays valid whatever is stored afterwards.
    #[verifier::external_body]
    pub(crate) fn load(&self) -> Arc<T> {
        self.cell.load_full()
    }

    /// Relies on `ArcSwapAny::store`: `value` replaces the snapshot in one
    /// atomic step.
    #[verifier::external_body]
    pub(crate) fn store(&self, value: T) {
        self.cell.store(Arc::new(value))
    }

    /// Relies on `Arc::clone`: another handle on the same cell.
    #[verifier::external_body]
    pub(crate) fn share(&self) -> SnapshotCell<T> {
        SnapshotCell { cell: Arc::clone(&self.cell) }
    }
}

/// The live rule table: the compiled rule sequence and the direct-passthrough
/// prefix, each published as a whole, plus the timeout of direct calls.
pub struct RuleTable {
    pub rules: SnapshotCell<Vec<CompiledProxyRule>>,
    pub direct_prefix: SnapshotCell<String>,
    pub default_timeout_secs: u64,
}

impl RuleTable {
    /// A table with no rules.
    pub fn new(direct_prefix: String, default_timeout_secs: u64) -> (r: RuleTable)
        ensures
            r.default_timeout_secs == default_timeout_secs,
    {
        RuleTable {
            rules: SnapshotCell::new(Vec::new()),
            direct_prefix: SnapshotCell::new(direct_prefix),
            default_timeout_secs,
        }
    }

    /// Another handle on the same table.
    pub fn share(&self) -> (r: RuleTable)
        ensures
            r.default_timeout_secs == self.default_timeout_secs,
    {
        RuleTable {
            rules: self.rules.share(),
            direct_prefix: self.direct_prefix.share(),
            default_timeout_secs: self.default_timeout_secs,
        }
    }

    /// Compiles the enabled records, in order, and publishes them as the new
    /// rule sequence in one step. Returns how many rules were published.
    pub fn reload(&self, records: &Vec<ProxyRule>) -> (r: usize)
        ensures
            r == compile_enabled(records@).len(),
    {
        let compiled = compile_rules(records);
        let n = compiled.len();
        self.rules.store(compiled);
        n
    }

    /// Publishes a new direct-passthrough prefix; the rules stay as they are.
    pub fn set_direct_prefix(&self, prefix: String) {
        self.direct_prefix.store(prefix)
    }

    /// The rule sequence and the prefix as published now. The handles stay
    /// valid, and their contents unchanged, whatever is published afterwards.
    pub fn snapshot(&self) -> (Arc<Vec<CompiledProxyRule>>, Arc<String>) {
        (self.rules.load(), self.direct_prefix.load())
    }

    /// Resolves a request against the snapshots current when it starts: both
    /// are loaded once and used throughout, so a concurrent reload is seen
    /// entirely or not at all.
    pub fn resolve(&self, path: &str, query: Option<&str>) -> (r: Option<ResolvedTarget>)
        ensures
            exists|rs: Seq<RuleView>, pf: Seq<char>|
                match #[trigger] resolution(
                    rs,
                    pf,
                    self.default_timeout_secs,
                    path@,
                    opt_str_view(query),
                ) {
                    Some((u, t)) => r is Some && r->0.url@ == u && r->0.timeout_secs == t,
                    None => r is None,
                },
    {
        let (rules, prefix) = self.snapshot();
        resolve(&*rules, (&*prefix).as_str(), self.default_timeout_secs, path, query)
    }

    /// How many rules are published now.
    pub fn rules_count(&self) -> usize {
        let rules = self.rules.load();
        rules.len()
    }

    /// The direct-passthrough prefix published now.
    pub fn current_prefix(&self) -> String {
        let prefix = self.direct_prefix.load();
        (&*prefix).clone()
    }
}

/// Whether a change to the setting `key` is a change of the
/// direct-passthrough prefix, which the table must then publish.
pub fn is_prefix_setting(key: &str) -> (r: bool)
    ensures
        r == (key@ == "direct_proxy_path"@),
{
    let k = chars_of(key);
    let name = chars_of("direct_proxy_path");
    let klen = k.len();
    assert(k@.subrange(0, klen as int) =~= k@);
    name.len() == klen && literal_at(&k, 0, &name)
}

} // verus!
