use vstd::prelude::*;
use crate::matcher::{caps_view, captures_of, lemma_match_sound, match_segments};
use crate::substitute::{fill_from, fill_target};
use crate::template::{SegView, Segment, compile, parse_template, segs_view};
use crate::text::{chars_of, string_of};

verus! {

/// A rule record as the rule store keeps it.
#[derive(Clone, Debug)]
pub struct ProxyRule {
    pub id: i64,
    pub name: String,
    pub source: String,
    pub target: String,
    pub timeout_secs: u64,
    pub enabled: bool,
    pub created_at: String,
    pub updated_at: String,
}

/// A rule ready for matching: the segments of its source template, its target
/// template, and the timeout of the upstream call.
#[derive(Clone, Debug)]
pub struct CompiledProxyRule {
    pub segments: Vec<Segment>,
    pub target_template: String,
    pub timeout_secs: u64,
}

/// What a compiled rule is, for the contracts.
pub struct RuleView {
    pub segs: Seq<SegView>,
    pub target: Seq<char>,
    pub timeout_secs: u64,
}

impl View for CompiledProxyRule {
    type V = RuleView;

    open spec fn view(&self) -> RuleView {
        RuleView {
            segs: segs_view(self.segments@),
            target: self.target_template@,
            timeout_secs: self.timeout_secs,
        }
    }
}

/// The compiled form of a rule record.
pub open spec fn compiled(r: ProxyRule) -> RuleView {
    RuleView { segs: parse_template(r.source@), target: r.target@, timeout_secs: r.timeout_secs }
}

/// The target URL that a rule builds for `path`, if it matches: the target
/// template with each placeholder token replaced by what it captured.
pub open spec fn rule_target(rule: RuleView, path: Seq<char>) -> Option<Seq<char>> {
    match captures_of(rule.segs, path) {
        Some(c) => Some(fill_from(rule.target, rule.segs, 0, c)),
        None => None,
    }
}

/// The compiled rules, in order, of the enabled records.
pub open spec fn compile_enabled(records: Seq<ProxyRule>) -> Seq<RuleView>
    decreases records.len(),
{
    if records.len() == 0 {
        Seq::empty()
    } else {
        let rest = compile_enabled(records.drop_last());
        if records.last().enabled {
            rest.push(compiled(records.last()))
        } else {
            rest
        }
    }
}

pub open spec fn rules_view(v: Seq<CompiledProxyRule>) -> Seq<RuleView> {
    v.map_values(|r: CompiledProxyRule| r@)
}

impl CompiledProxyRule {
    /// Compiles a rule record: its source template becomes segments, its
    /// target template and timeout are kept.
    pub fn from_db_rule(rule: &ProxyRule) -> (r: CompiledProxyRule)
        ensures
            r@ == compiled(*rule),
    {
        CompiledProxyRule {
            segments: compile(rule.source.as_str()),
            target_template: rule.target.clone(),
            timeout_secs: rule.timeout_secs,
        }
    }

    /// The target that this rule builds for a path given as characters.
    pub fn target_for(&self, path: &Vec<char>) -> (r: Option<String>)
        ensures
            match rule_target(self@, path@) {
                Some(u) => r is Some && r->0@ == u,
                None => r is None,
            },
    {
        match match_segments(&self.segments, 0, path, 0) {
            Some(caps) => {
                proof {
                    lemma_match_sound(self@.segs, 0, path@, 0);
                }
                let t = chars_of(self.target_template.as_str());
                let filled = fill_target(&t, &self.segments, &caps);
                Some(string_of(&filled))
            },
            None => None,
        }
    }

    /// The target URL that this rule builds for `path`, or `None` where the
    /// rule does not match it.
    pub fn match_and_build_target(&self, path: &str) -> (r: Option<String>)
        ensures
            match rule_target(self@, path@) {
                Some(u) => r is Some && r->0@ == u,
                None => r is None,
            },
    {
        let p = chars_of(path);
        self.target_for(&p)
    }
}

/// Compiles the enabled records, keeping their order; disabled records are left out.
pub fn compile_rules(records: &Vec<ProxyRule>) -> (r: Vec<CompiledProxyRule>)
    ensures
        rules_view(r@) == compile_enabled(records@),
{
    let mut out: Vec<CompiledProxyRule> = Vec::new();
    let mut i: usize = 0;
    while i < records.len()
        invariant
            i <= records@.len(),
            rules_view(out@) == compile_enabled(records@.subrange(0, i as int)),
        decreases records@.len() - i,
    {
        let ghost pre = records@.subrange(0, i as int);
        assert(records@.subrange(0, i + 1).drop_last() =~= pre);
        if records[i].enabled {
            out.push(CompiledProxyRule::from_db_rule(&records[i]));
        }
        i = i + 1;
        assert(rules_view(out@) =~= compile_enabled(records@.subrange(0, i as int)));
    }
    assert(records@.subrange(0, i as int) =~= records@);
    out
}

} // verus!
