use repo_lint::config::{CaseStyle, ChildMap, ConfigIR, LayoutNode, Mode, RulesConfig};
use repo_lint::engine::{CompiledRules, FileMatcher};

fn create_test_config() -> ConfigIR {
    let mut module_children = ChildMap::new();
    module_children.insert("index.ts".to_string(), LayoutNode::file());

    let mut services_children = ChildMap::new();
    services_children.insert(
        "$module".to_string(),
        LayoutNode::param("module", CaseStyle::Kebab, LayoutNode::dir(module_children)),
    );

    let mut src_children = ChildMap::new();
    src_children.insert("services".to_string(), LayoutNode::dir(services_children));

    let mut root_children = ChildMap::new();
    root_children.insert("src".to_string(), LayoutNode::dir(src_children));

    ConfigIR {
        mode: Mode::Strict,
        layout: Some(LayoutNode::dir(root_children)),
        rules: RulesConfig {
            forbid_paths: vec!["**/utils/**".to_string()],
            forbid_names: vec!["temp".to_string()],
            ignore_paths: vec![],
        },
        boundaries: None,
        deps: None,
        ignore: vec![],
        use_gitignore: true,
        workspaces: vec![],
        dependencies: vec![],
        mirror: vec![],
        when: vec![],
        extends: None,
    }
}

#[test]
fn test_check_valid_path() {
    let config = create_test_config();
    let matcher = FileMatcher::new(&config).unwrap();

    let violations = matcher.check_path("src/services/billing/index.ts");
    assert!(violations.is_empty());
}

#[test]
fn test_check_forbidden_path() {
    let config = create_test_config();
    let matcher = FileMatcher::new(&config).unwrap();

    let violations = matcher.check_path("src/utils/helper.ts");
    assert!(!violations.is_empty());
    assert!(violations.iter().any(|v| v.rule_id == "forbidPaths"));
}

#[test]
fn test_check_invalid_case() {
    let config = create_test_config();
    let matcher = FileMatcher::new(&config).unwrap();

    let violations = matcher.check_path("src/services/MyModule/index.ts");
    assert!(!violations.is_empty());
    assert!(violations.iter().any(|v| v.rule_id == "layout"));
}

#[test]
fn test_forbid_paths() {
    let config = RulesConfig {
        forbid_paths: vec!["**/utils/**".to_string(), "**/*.bak".to_string()],
        forbid_names: vec![],
        ignore_paths: vec![],
    };

    let rules = CompiledRules::compile(&config).unwrap();

    let violations = rules.check_path("src/utils/helper.ts");
    assert_eq!(violations.len(), 1);

    let violations = rules.check_path("backup.bak");
    assert_eq!(violations.len(), 1);

    let violations = rules.check_path("src/services/billing.ts");
    assert!(violations.is_empty());
}

#[test]
fn test_forbid_names() {
    let config = RulesConfig {
        forbid_paths: vec![],
        forbid_names: vec!["temp".to_string(), "test".to_string(), "new".to_string()],
        ignore_paths: vec![],
    };

    let rules = CompiledRules::compile(&config).unwrap();

    let violations = rules.check_path("src/temp.ts");
    assert_eq!(violations.len(), 1);

    let violations = rules.check_path("src/TEMP.ts");
    assert_eq!(violations.len(), 1);

    let violations = rules.check_path("src/new.ts");
    assert_eq!(violations.len(), 1);

    let violations = rules.check_path("src/billing.ts");
    assert!(violations.is_empty());
}

#[test]
fn test_combined_rules() {
    let config = RulesConfig {
        forbid_paths: vec!["**/utils/**".to_string()],
        forbid_names: vec!["temp".to_string()],
        ignore_paths: vec![],
    };

    let rules = CompiledRules::compile(&config).unwrap();

    let violations = rules.check_path("src/utils/temp.ts");
    assert_eq!(violations.len(), 2);
}

#[test]
fn test_ignore_paths() {
    let config = RulesConfig {
        forbid_paths: vec![],
        forbid_names: vec![],
        ignore_paths: vec!["**/node_modules/**".to_string(), "**/.turbo/**".to_string()],
    };

    let rules = CompiledRules::compile(&config).unwrap();

    assert!(rules.is_ignored("node_modules/lodash/index.js"));
    assert!(rules.is_ignored("packages/app/node_modules/react/index.js"));
    assert!(rules.is_ignored(".turbo/cache/file.txt"));
    assert!(!rules.is_ignored("src/index.ts"));
    assert!(!rules.is_ignored("lib/utils.ts"));
}

#[test]
fn test_forbid_paths_negation() {
    let config = RulesConfig {
        forbid_paths: vec!["**/*.mjs".to_string(), "!**/postcss.config.mjs".to_string()],
        forbid_names: vec![],
        ignore_paths: vec![],
    };

    let rules = CompiledRules::compile(&config).unwrap();

    let violations = rules.check_path("postcss.config.mjs");
    assert!(violations.is_empty());

    let violations = rules.check_path("scripts/build.mjs");
    assert_eq!(violations.len(), 1);
}

#[test]
fn test_ignore_paths_negation() {
    let config = RulesConfig {
        forbid_paths: vec![],
        forbid_names: vec![],
        ignore_paths: vec!["**/*.log".to_string(), "!**/keep.log".to_string()],
    };

    let rules = CompiledRules::compile(&config).unwrap();

    assert!(rules.is_ignored("logs/app.log"));
    assert!(!rules.is_ignored("logs/keep.log"));
}
