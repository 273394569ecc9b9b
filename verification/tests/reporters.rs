use repo_lint::engine::{Severity, Violation};
use repo_lint::output::{ConsoleReporter, JsonReporter, SarifReporter};

fn violation(path: &str, rule: &str, message: &str, severity: Severity, fix: Option<&str>) -> Violation {
    Violation {
        path: path.to_string(),
        rule_id: rule.to_string(),
        message: message.to_string(),
        severity,
        fix_suggestion: fix.map(|f| f.to_string()),
        attempts: Vec::new(),
    }
}

#[test]
fn test_console_reporter_empty() {
    let reporter = ConsoleReporter::new().no_color();
    let output = reporter.report(&vec![]);
    assert_eq!(output, "No violations found.");
}

#[test]
fn test_console_reporter_with_violations() {
    let reporter = ConsoleReporter::new().no_color();
    let violations = vec![
        violation("src/utils/helper.ts", "forbidPaths", "path matches forbidden pattern", Severity::Error, None),
        violation("src/temp.ts", "forbidNames", "forbidden name", Severity::Warning, Some("rename to something else")),
    ];

    let output = reporter.report(&violations);
    assert!(output.contains("error"));
    assert!(output.contains("warning"));
    assert!(output.contains("forbidPaths"));
    assert!(output.contains("forbidNames"));
}

#[test]
fn test_json_reporter_empty() {
    let reporter = JsonReporter::new();
    let parsed = reporter.build(&vec![]);
    assert_eq!(parsed.violations.len(), 0);
    assert_eq!(parsed.summary.total, 0);
}

#[test]
fn test_json_reporter_with_violations() {
    let reporter = JsonReporter::new();
    let violations =
        vec![violation("src/utils/helper.ts", "forbidPaths", "path matches forbidden pattern", Severity::Error, None)];

    let parsed = reporter.build(&violations);
    assert_eq!(parsed.violations.len(), 1);
    assert_eq!(parsed.summary.errors, 1);
}

#[test]
fn test_json_reporter_compact() {
    let reporter = JsonReporter::new().compact();
    assert!(!reporter.pretty());
    let violations = vec![violation("test.ts", "test", "test", Severity::Error, None)];
    let built = reporter.build(&violations);
    assert_eq!(built.violations.len(), 1);
    assert!(!built.violations[0].path.contains('\n'));
}

#[test]
fn test_sarif_reporter_empty() {
    let reporter = SarifReporter::new();
    let content = reporter.build(&vec![]);
    assert!(content.results.is_empty());
    assert!(content.rules.is_empty());
}

#[test]
fn test_sarif_reporter_with_violations() {
    let reporter = SarifReporter::new();
    let violations =
        vec![violation("src/utils/helper.ts", "forbidPaths", "path matches forbidden pattern", Severity::Error, None)];

    let content = reporter.build(&violations);
    assert!(content.rules.iter().any(|r| r.id == "forbidPaths"));
    assert!(content.results.iter().any(|r| r.uri == "src/utils/helper.ts"));
    assert_eq!(content.results[0].level, "error");
}

#[test]
fn coloured_report_is_plain_or_painted() {
    let reporter = ConsoleReporter::new();
    let out = reporter.report(&vec![]);
    assert!(out == "No violations found." || out == "\u{1b}[32mNo violations found.\u{1b}[0m");

    let v = violation("a.ts", "layout", "m", Severity::Error, None);
    let line = reporter.format_violation(&v);
    let plain = ConsoleReporter::new().no_color().format_violation(&v);
    let painted = "\u{1b}[1;31merror\u{1b}[0m\u{1b}[36m[layout]\u{1b}[0m: m\n  --> \u{1b}[1;37ma.ts\u{1b}[0m\n";
    assert!(line.contains("error") && line.contains("[layout]") && line.contains("a.ts"));
    assert!(line == plain || line == painted, "{:?}", line);
}

#[test]
fn sarif_content_names_the_format_and_the_tool() {
    let c = repo_lint::output::SarifReporter::new().build(&vec![]);
    assert_eq!(c.version, "2.1.0");
    assert_eq!(c.schema, "https://raw.githubusercontent.com/oasis-tcs/sarif-spec/master/Schemata/sarif-schema-2.1.0.json");
    assert_eq!(c.tool_name, "repo-lint");
    assert_eq!(c.tool_version, "0.1.0");
    assert_eq!(c.information_uri, "https://github.com/rika-labs/repo-lint");
    assert!(c.rules.is_empty() && c.results.is_empty());
}
