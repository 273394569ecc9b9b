use repo_lint::config::packages::{extract_package_name, split_package_specifier};
use repo_lint::config::{CaseStyle, ConfigDiscovery};
use repo_lint::engine::{Severity, Violation, Walker};
use repo_lint::numbers::{parse_u64, u64_decimal};
use repo_lint::output::{count_of, parse_output_format, sort_violations, OutputFormat};
use repo_lint::text::lines_of;

fn violation(path: &str, rule: &str, severity: Severity) -> Violation {
    Violation {
        path: path.to_string(),
        rule_id: rule.to_string(),
        message: String::new(),
        severity,
        fix_suggestion: None,
        attempts: Vec::new(),
    }
}

#[test]
fn decimal_numbers_read_back() {
    for n in [0u64, 7, 10, 12345, u64::MAX] {
        assert_eq!(parse_u64(&u64_decimal(n)), Some(n));
        assert_eq!(u64_decimal(n), n.to_string());
    }
}

#[test]
fn parse_u64_agrees_with_std() {
    for s in ["", "+", "+5", "-5", "007", "18446744073709551615", "18446744073709551616", "1 ", " 1", "12a"] {
        assert_eq!(parse_u64(s), s.parse::<u64>().ok(), "{:?}", s);
    }
}

#[test]
fn lines_agree_with_std() {
    for s in ["", "a", "a\n", "a\r\nb", "foo\r\nbar\n\nbaz\r", "\n\n", "x\ry\n"] {
        let ours = lines_of(s);
        let std_lines: Vec<String> = s.lines().map(|l| l.to_string()).collect();
        assert_eq!(ours, std_lines, "{:?}", s);
    }
}

#[test]
fn package_name_is_read_from_package_json() {
    assert_eq!(extract_package_name("{\n  \"name\": \"@org/ui\",\n  \"version\": \"1\"\n}"), Some("@org/ui".to_string()));
    assert_eq!(extract_package_name("{\"name\":\"min\"}"), Some("min".to_string()));
    assert_eq!(extract_package_name("{\"name\": 5}"), None);
    assert_eq!(extract_package_name("{\"version\": \"1\"}"), None);
    assert_eq!(extract_package_name("{\"name\":\u{a0}\"nbsp\"}"), Some("nbsp".to_string()));
}

#[test]
fn scoped_specifiers_split_into_package_and_path() {
    assert_eq!(split_package_specifier("@org/pkg"), Some(("@org/pkg".to_string(), String::new())));
    assert_eq!(split_package_specifier("@org/pkg/a/b"), Some(("@org/pkg".to_string(), "a/b".to_string())));
    assert_eq!(split_package_specifier("@org"), None);
}

#[test]
fn root_config_follows_the_answer_of_the_disk() {
    let d = ConfigDiscovery::new("/repo");
    let c = d.root_config_if(true).unwrap();
    assert_eq!(c.config_path, "/repo/repo-lint.config.ts");
    assert_eq!(c.workspace_root, "/repo");
    assert_eq!(c.relative_path, "");
    assert!(d.root_config_if(false).is_none());
    assert_eq!(d.root_config_path(), "/repo/repo-lint.config.ts");
}

#[test]
fn sorted_violations_are_ordered_by_path_then_rule_and_stable() {
    let vs = vec![
        violation("b.ts", "layout", Severity::Error),
        violation("a.ts", "layout", Severity::Warning),
        violation("a.ts", "forbidNames", Severity::Error),
        violation("b.ts", "layout", Severity::Warning),
    ];
    let sorted = sort_violations(&vs);
    let keys: Vec<(&str, &str, Severity)> =
        sorted.iter().map(|v| (v.path.as_str(), v.rule_id.as_str(), v.severity)).collect();
    assert_eq!(
        keys,
        vec![
            ("a.ts", "forbidNames", Severity::Error),
            ("a.ts", "layout", Severity::Warning),
            ("b.ts", "layout", Severity::Error),
            ("b.ts", "layout", Severity::Warning),
        ]
    );
    assert_eq!(count_of(&sorted, Severity::Error) + count_of(&sorted, Severity::Warning), sorted.len());
}

#[test]
fn output_format_names_ignore_case() {
    assert_eq!(parse_output_format("JSON"), Ok(OutputFormat::Json));
    assert_eq!(parse_output_format("Text"), Ok(OutputFormat::Console));
    assert_eq!(parse_output_format("sArIf"), Ok(OutputFormat::Sarif));
    assert_eq!(parse_output_format("xml"), Err("Unknown output format: xml".to_string()));
    assert_eq!("console".parse::<OutputFormat>(), Ok(OutputFormat::Console));
}

#[test]
fn kebab_and_snake_differ_by_the_separator() {
    use_case_pairs(&[("my-module", "my_module", true), ("a_b", "a_b", false), ("-a", "_a", false), ("a--b", "a__b", false)]);
}

fn use_case_pairs(pairs: &[(&str, &str, bool)]) {
    for (kebab, snake, both) in pairs {
        assert_eq!(CaseStyle::Kebab.validate(kebab), *both, "{}", kebab);
        if !kebab.contains('_') {
            assert_eq!(CaseStyle::Snake.validate(snake), *both, "{}", snake);
        }
    }
}

#[test]
fn camel_and_pascal_differ_by_the_first_letter() {
    for (camel, pascal, both) in [("useAuth", "UseAuth", true), ("x1", "X1", true), ("1a", "1a", false), ("a-b", "A-b", false)] {
        assert_eq!(CaseStyle::Camel.validate(camel), both, "{}", camel);
        assert_eq!(CaseStyle::Pascal.validate(pascal), both, "{}", pascal);
    }
    assert!(!CaseStyle::Camel.validate("Ab"));
    assert!(CaseStyle::Pascal.validate("Ab"));
}

#[test]
fn the_last_gitignore_setting_wins() {
    let w = Walker::new("/repo").respect_gitignore(false).respect_gitignore(true);
    assert!(w.respects_gitignore());
    let w = Walker::new("/repo").respect_gitignore(true).respect_gitignore(false);
    assert!(!w.respects_gitignore());
    let d = ConfigDiscovery::new("/repo").respect_gitignore(false).respect_gitignore(true);
    assert!(d.respects_gitignore());
}
