use repo_lint::cli::InspectCommand;
use repo_lint::config::{CaseStyle, ChildMap, ConfigIR, LayoutNode, RulesConfig};
use repo_lint::engine::{CompiledRules, FileMatcher, LayoutMatcher, MatchResult, PostValidator, RuleViolation, Severity, Violation};
use repo_lint::engine::matcher::quote_list;
use repo_lint::output::ConsoleReporter;

fn rules(paths: &[&str], names: &[&str]) -> CompiledRules {
    CompiledRules::compile(&RulesConfig {
        forbid_paths: paths.iter().map(|s| s.to_string()).collect(),
        forbid_names: names.iter().map(|s| s.to_string()).collect(),
        ignore_paths: vec![],
    })
    .unwrap()
}

#[test]
fn has_rules_counts_plain_path_patterns_and_names() {
    assert!(!rules(&[], &[]).has_rules());
    assert!(!rules(&["!**/keep"], &[]).has_rules());
    assert!(rules(&["**/x"], &[]).has_rules());
    assert!(rules(&[], &["tmp"]).has_rules());
}

#[test]
fn directory_names_match_forbidden_names_whole_and_ignoring_case() {
    let r = rules(&[], &["Temp", "tmp", "TEMP"]);
    let v = r.check_directory_name("temp", "src/temp");
    assert_eq!(v.len(), 2);
    assert_eq!(v[0].rule_id(), "forbidNames");
    assert_eq!(v[0].message(), "'temp' matches forbidden name 'Temp'");
    assert_eq!(v[1].message(), "'temp' matches forbidden name 'TEMP'");
    assert!(r.check_directory_name("temp.d", "temp.d").is_empty());
}

#[test]
fn name_rule_catches_the_word_and_only_the_first_hit() {
    let r = rules(&[], &["index", "INDEX"]);
    let v = r.check_path("src/Index.test.ts");
    assert_eq!(v.len(), 1);
    let v = r.check_path("src/INDEX.ts");
    assert_eq!(v.len(), 1);
    match &v[0] {
        RuleViolation::ForbiddenName { name, forbidden, .. } => {
            assert_eq!(name, "INDEX.ts");
            assert_eq!(forbidden, "index");
        }
        _ => panic!("expected a forbidden name"),
    }
    assert!(r.check_path(".index").is_empty());
    assert!(r.check_path("src/indexes.ts").is_empty());
    assert!(r.check_path("src/my-index.ts").is_empty());
}

#[test]
fn forbidden_names_catch_the_documented_examples() {
    let r = rules(&[], &["temp", "new", "copy", "final"]);
    for p in ["temp.ts", "TEMP", "Temp.js", "new.ts", "NEW", "copy.ts", "copy (2).ts", "final.ts", "final-v2.ts"] {
        let v = r.check_path(p);
        assert_eq!(v.len(), 1, "{}", p);
        assert!(matches!(&v[0], RuleViolation::ForbiddenName { .. }), "{}", p);
    }
    for p in ["template.ts", "news.ts", "copyright.ts", "finally.ts"] {
        assert!(r.check_path(p).is_empty(), "{}", p);
    }
}

#[test]
fn forbidden_path_message_lists_every_matching_pattern() {
    let r = rules(&["**/a/**", "**/*.ts", "**/*.js"], &[]);
    let v = r.check_path("x/a/b.ts");
    assert_eq!(v.len(), 1);
    assert_eq!(v[0].path(), "x/a/b.ts");
    assert_eq!(v[0].rule_id(), "forbidPaths");
    assert_eq!(v[0].message(), "path matches forbidden pattern: **/a/**, **/*.ts");
}

#[test]
fn a_negated_forbidden_pattern_cancels_only_the_path_rule() {
    let r = rules(&["**/*.mjs", "!**/keep.mjs"], &["keep"]);
    let v = r.check_path("keep.mjs");
    assert_eq!(v.len(), 1);
    assert!(matches!(&v[0], RuleViolation::ForbiddenName { forbidden, .. } if forbidden == "keep"));
    assert_eq!(r.check_path("src/keep.js").len(), 1);
    assert!(rules(&["**/*.mjs", "!**/keep.mjs"], &[]).check_path("keep.mjs").is_empty());
    let r = rules(&["**/*.mjs", "!**/temp.mjs"], &["temp"]);
    let v = r.check_path("src/temp.mjs");
    assert_eq!(v.len(), 1);
    match &v[0] {
        RuleViolation::ForbiddenName { path, name, forbidden } => {
            assert_eq!(path, "src/temp.mjs");
            assert_eq!(name, "temp.mjs");
            assert_eq!(forbidden, "temp");
        }
        _ => panic!("expected a forbidden name"),
    }
}

#[test]
fn ignored_paths_get_no_violations() {
    let mut c = ConfigIR::new(LayoutNode::dir(ChildMap::new()));
    c.rules = RulesConfig { forbid_paths: vec!["**".to_string()], forbid_names: vec![], ignore_paths: vec!["dist/**".to_string()] };
    let m = FileMatcher::new(&c).unwrap();
    assert!(m.is_ignored("dist/a.js"));
    assert!(m.check_path("dist/a.js").is_empty());
    assert_eq!(m.check_path("src/a.js").len(), 2);
}

#[test]
fn console_lines_of_one_violation() {
    let reporter = ConsoleReporter::new().no_color();
    let v = Violation {
        path: "src/a.ts".to_string(),
        rule_id: "layout".to_string(),
        message: "not allowed".to_string(),
        severity: Severity::Warning,
        fix_suggestion: Some("remove it".to_string()),
        attempts: Vec::new(),
    };
    assert_eq!(
        reporter.format_violation(&v),
        "warning[layout]: not allowed\n  --> src/a.ts\n  = fix: remove it\n"
    );
}

#[test]
fn console_report_ends_with_the_counts() {
    let reporter = ConsoleReporter::new().no_color();
    let v = Violation {
        path: "a".to_string(),
        rule_id: "layout".to_string(),
        message: "m".to_string(),
        severity: Severity::Error,
        fix_suggestion: None,
        attempts: Vec::new(),
    };
    let out = reporter.report(&vec![v.clone(), v]);
    assert!(out.ends_with("2 errors and 0 warnings found."));
}

#[test]
fn expected_children_and_explanations() {
    let mut module = ChildMap::new();
    module.insert("index.ts".to_string(), LayoutNode::file());
    module.insert("api".to_string(), LayoutNode::dir(ChildMap::new()).optional());
    let mut root = ChildMap::new();
    root.insert("$module".to_string(), LayoutNode::param("module", CaseStyle::Kebab, LayoutNode::dir(module)));
    let layout = LayoutNode::dir(root);
    let matcher = LayoutMatcher::new(layout.duplicate());
    assert!(matcher.get_expected_children("billing").is_empty());
    let expected = matcher.get_expected_children("billing/x");
    assert_eq!(expected.len(), 2);
    assert_eq!(expected[0].name, "index.ts");
    assert!(!expected[0].is_dir);
    assert_eq!(expected[1].name, "api");
    assert!(expected[1].is_dir && expected[1].optional);

    let m = FileMatcher::new(&ConfigIR::new(layout)).unwrap();
    let e = m.explain_path("billing");
    assert!(matches!(e.match_result, MatchResult::AllowedParam { .. }));
    let text = InspectCommand::path_report("billing", &e);
    assert_eq!(text, "Path: billing\n\n  Status: ALLOWED (param module=billing)\n");
    let e = m.explain_path("billing/x");
    let text = InspectCommand::path_report("billing/x", &e);
    assert!(text.contains("\n  Expected children at this path:\n    - index.ts [file]\n    - api [dir] (optional)\n"));
}

#[test]
fn record_path_keeps_one_copy_per_path() {
    let c = ConfigIR::new(LayoutNode::dir(ChildMap::new()));
    let mut v = PostValidator::new(&c);
    v.record_path("a/b");
    v.record_path("a//b");
    v.record_many_match("$x");
    assert!(v.validate("/nonexistent", Severity::Error).is_empty());
}

#[test]
fn quoted_lists_are_written_as_debug_lists() {
    let items = vec![
        "plain".to_string(),
        "with \"quote\"".to_string(),
        "back\\slash".to_string(),
        "tab\tnew\nline\r\0".to_string(),
        "esc\u{1b}del\u{7f}bell\u{7}".to_string(),
        "ünïcödé ✓".to_string(),
    ];
    assert_eq!(quote_list(&items), format!("{:?}", items));
    assert_eq!(quote_list(&vec![]), "[]");
}

#[test]
fn quoted_lists_escape_unprintable_unicode() {
    let items = vec![
        "e\u{301}".to_string(),
        "zero\u{200b}width".to_string(),
        "soft\u{ad}hyphen".to_string(),
        "line\u{2028}sep".to_string(),
        "it's".to_string(),
    ];
    assert_eq!(quote_list(&items), format!("{:?}", items));
    assert_eq!(quote_list(&vec!["e\u{301}".to_string()]), "[\"e\\u{301}\"]");
}
