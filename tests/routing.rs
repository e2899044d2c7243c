use route_proxy::dispatch::resolve;
use route_proxy::rules::{compile_rules, CompiledProxyRule, ProxyRule};
use route_proxy::table::{is_prefix_setting, RuleTable};
use route_proxy::template::{compile, Segment};
use std::sync::Arc;

fn record(id: i64, source: &str, target: &str, timeout_secs: u64, enabled: bool) -> ProxyRule {
    ProxyRule {
        id,
        name: format!("rule{}", id),
        source: source.to_string(),
        target: target.to_string(),
        timeout_secs,
        enabled,
        created_at: String::new(),
        updated_at: String::new(),
    }
}

fn compiled(source: &str, target: &str) -> CompiledProxyRule {
    CompiledProxyRule::from_db_rule(&record(1, source, target, 30, true))
}

#[test]
fn rule_scenario_with_query() {
    let rules = compile_rules(&vec![record(1, "/api/{id}/info", "http://backend/v2/{id}", 12, true)]);
    let r = resolve(&rules, "proxy", 30, "/api/42/info", Some("x=1")).unwrap();
    assert_eq!(r.url, "http://backend/v2/42?x=1");
    assert_eq!(r.timeout_secs, 12);
}

#[test]
fn direct_passthrough_scenario() {
    let rules = compile_rules(&vec![record(1, "/proxy/{*rest}", "http://other/{*rest}", 5, true)]);
    let r = resolve(&rules, "proxy", 30, "/proxy/https://example.com/foo", Some("y=2")).unwrap();
    assert_eq!(r.url, "https://example.com/foo?y=2");
    assert_eq!(r.timeout_secs, 30);
}

#[test]
fn direct_passthrough_needs_scheme() {
    let rules = compile_rules(&vec![]);
    assert!(resolve(&rules, "proxy", 30, "/proxy/ftp://example.com", None).is_none());
    let r = resolve(&rules, "proxy", 30, "/proxy/http://a.b/c", None).unwrap();
    assert_eq!(r.url, "http://a.b/c");
}

#[test]
fn no_match_gives_none() {
    let rules = compile_rules(&vec![record(1, "/api/{id}/info", "http://backend/{id}", 30, true)]);
    assert!(resolve(&rules, "proxy", 30, "/other/42", None).is_none());
    assert!(resolve(&rules, "proxy", 30, "/api/42/info/more", None).is_none());
}

#[test]
fn plain_placeholder_excludes_slash() {
    let rule = compiled("/api/{id}/info", "{id}");
    assert_eq!(rule.match_and_build_target("/api/abc/info"), Some("abc".to_string()));
    assert_eq!(rule.match_and_build_target("/api/a/b/info"), None);
    assert_eq!(rule.match_and_build_target("/api//info"), None);
    assert_eq!(rule.match_and_build_target("/api/abc/infos"), None);
}

#[test]
fn wildcard_takes_slashes() {
    let rule = compiled("/files/{*rest}", "http://store/{*rest}");
    assert_eq!(
        rule.match_and_build_target("/files/a/b/c.txt"),
        Some("http://store/a/b/c.txt".to_string())
    );
    assert_eq!(rule.match_and_build_target("/files/"), None);
}

#[test]
fn wildcard_embeds_url() {
    let rule = compiled("/fetch/{*url}", "{*url}");
    assert_eq!(
        rule.match_and_build_target("/fetch/https://example.com/x"),
        Some("https://example.com/x".to_string())
    );
}

#[test]
fn placeholders_take_the_longest_first() {
    let rule = compiled("/{a}-{b}", "{a}|{b}");
    assert_eq!(rule.match_and_build_target("/x-y-z"), Some("x-y|z".to_string()));
    let rule = compiled("/{*a}/{b}", "{*a}|{b}");
    assert_eq!(rule.match_and_build_target("/p/q/r"), Some("p/q|r".to_string()));
}

#[test]
fn round_trip_through_the_source_template() {
    let rule = compiled("/u/{user}/repo/{*path}", "/u/{user}/repo/{*path}");
    let path = "/u/alice/repo/src/main.rs";
    assert_eq!(rule.match_and_build_target(path), Some(path.to_string()));
}

#[test]
fn token_repeated_in_target() {
    let rule = compiled("/r/{id}", "http://h/{id}/{id}?k={id}");
    assert_eq!(rule.match_and_build_target("/r/7"), Some("http://h/7/7?k=7".to_string()));
}

#[test]
fn trailing_query_in_path_is_ignored_by_matching() {
    let rule = compiled("/api/{id}", "http://b/{id}");
    assert_eq!(rule.match_and_build_target("/api/9?z=1"), Some("http://b/9?z=1".to_string()));
    let rule = compiled("/static", "http://b/s");
    assert_eq!(rule.match_and_build_target("/static?v=2"), Some("http://b/s".to_string()));
    assert_eq!(rule.match_and_build_target("/statics"), None);
}

#[test]
fn literal_text_is_not_pattern_syntax() {
    let rule = compiled("/a.b/(x)+", "ok");
    assert_eq!(rule.match_and_build_target("/a.b/(x)+"), Some("ok".to_string()));
    assert_eq!(rule.match_and_build_target("/aXb/(x)+"), None);
    assert_eq!(rule.match_and_build_target("/a.b/xx"), None);
}

#[test]
fn malformed_braces_stay_literal() {
    let rule = compiled("/a/{}/{x-y}/{*}", "ok");
    assert_eq!(rule.match_and_build_target("/a/{}/{x-y}/{*}"), Some("ok".to_string()));
    assert_eq!(rule.match_and_build_target("/a/1/2/3"), None);
}

#[test]
fn empty_template_matches_empty_path() {
    let rule = compiled("", "t");
    assert_eq!(rule.match_and_build_target(""), Some("t".to_string()));
    assert_eq!(rule.match_and_build_target("?q"), Some("t".to_string()));
    assert_eq!(rule.match_and_build_target("/"), None);
}

#[test]
fn earlier_rule_wins() {
    let rules = compile_rules(&vec![
        record(1, "/api/{id}", "http://first/{id}", 1, true),
        record(2, "/api/{*rest}", "http://second/{*rest}", 2, true),
    ]);
    let r = resolve(&rules, "proxy", 30, "/api/5", None).unwrap();
    assert_eq!(r.url, "http://first/5");
    assert_eq!(r.timeout_secs, 1);
    let r = resolve(&rules, "proxy", 30, "/api/5/6", None).unwrap();
    assert_eq!(r.url, "http://second/5/6");
    assert_eq!(r.timeout_secs, 2);
}

#[test]
fn disabled_rule_is_never_matched() {
    let rules = compile_rules(&vec![
        record(1, "/api/{id}", "http://disabled/{id}", 1, false),
        record(2, "/api/{id}", "http://enabled/{id}", 2, true),
    ]);
    assert_eq!(rules.len(), 1);
    let r = resolve(&rules, "proxy", 30, "/api/5", None).unwrap();
    assert_eq!(r.url, "http://enabled/5");
    let only_disabled = compile_rules(&vec![record(1, "/api/{id}", "http://d/{id}", 1, false)]);
    assert!(resolve(&only_disabled, "proxy", 30, "/api/5", None).is_none());
}

#[test]
fn snapshot_held_across_reload() {
    let snapshot_a = Arc::new(compile_rules(&vec![record(1, "/s/{id}", "http://a/{id}", 3, true)]));
    let held = Arc::clone(&snapshot_a);
    let mut current = snapshot_a;
    current = Arc::new(compile_rules(&vec![record(1, "/s/{id}", "http://b/{id}", 4, true)]));
    let r = resolve(&held, "proxy", 30, "/s/1", None).unwrap();
    assert_eq!(r.url, "http://a/1");
    assert_eq!(r.timeout_secs, 3);
    let r = resolve(&current, "proxy", 30, "/s/1", None).unwrap();
    assert_eq!(r.url, "http://b/1");
}

#[test]
fn table_reload_keeps_held_snapshot() {
    let table = RuleTable::new("proxy".to_string(), 30);
    assert_eq!(table.rules_count(), 0);
    let n = table.reload(&vec![
        record(1, "/s/{id}", "http://a/{id}", 3, true),
        record(2, "/t/{id}", "http://t/{id}", 3, false),
    ]);
    assert_eq!(n, 1);
    let (held_rules, held_prefix) = table.snapshot();
    let reader = table.share();
    assert_eq!(table.reload(&vec![record(1, "/s/{id}", "http://b/{id}", 4, true)]), 1);
    table.set_direct_prefix("direct".to_string());
    let r = resolve(&held_rules, &held_prefix, 30, "/s/1", None).unwrap();
    assert_eq!(r.url, "http://a/1");
    let r = reader.resolve("/s/1", None).unwrap();
    assert_eq!(r.url, "http://b/1");
    assert_eq!(r.timeout_secs, 4);
    assert_eq!(reader.current_prefix(), "direct");
    assert!(reader.resolve("/proxy/http://x/y", None).is_none());
    assert_eq!(reader.resolve("/direct/http://x/y", Some("a=b")).unwrap().url, "http://x/y?a=b");
}

#[test]
fn compile_splits_template() {
    let segs = compile("/api/{id}/x/{*rest}");
    assert_eq!(segs.len(), 4);
    assert!(matches!(&segs[0], Segment::Literal(l) if l.iter().collect::<String>() == "/api/"));
    assert!(matches!(&segs[1], Segment::Plain(t) if t.iter().collect::<String>() == "{id}"));
    assert!(matches!(&segs[2], Segment::Literal(l) if l.iter().collect::<String>() == "/x/"));
    assert!(matches!(&segs[3], Segment::Wildcard(t) if t.iter().collect::<String>() == "{*rest}"));
    assert!(compile("").is_empty());
}

#[test]
fn prefix_setting_key() {
    assert!(is_prefix_setting("direct_proxy_path"));
    assert!(!is_prefix_setting("proxy_port"));
}

#[test]
fn unicode_placeholder_names() {
    let rule = compiled("/u/{名前}/x", "http://b/{名前}");
    assert_eq!(rule.match_and_build_target("/u/42/x"), Some("http://b/42".to_string()));
    let segs = compile("/{é_1}");
    assert_eq!(segs.len(), 2);
    assert!(matches!(&segs[1], Segment::Plain(_)));
}
