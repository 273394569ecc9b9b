use repo_lint::config::{ChildMap, ConfigIR, LayoutNode, Mode, RulesConfig, WhenRequirement};
use repo_lint::engine::{PostValidator, Severity};

fn create_test_config() -> ConfigIR {
    ConfigIR {
        mode: Mode::Strict,
        layout: Some(LayoutNode::dir(ChildMap::new())),
        rules: RulesConfig::default(),
        boundaries: None,
        deps: None,
        ignore: vec![],
        use_gitignore: true,
        workspaces: vec![],
        dependencies: vec![],
        mirror: vec![],
        when: vec![],
        extends: None,
    }
}

#[test]
fn test_empty_validation() {
    let config = create_test_config();
    let validator = PostValidator::new(&config);
    let violations = validator.validate(".", Severity::Error);
    assert!(violations.is_empty());
}

#[test]
fn test_required_path_collection() {
    let mut children = ChildMap::new();
    children.insert(
        "required.ts".to_string(),
        LayoutNode::File { pattern: None, optional: false, required: true, case: None },
    );
    children.insert(
        "optional.ts".to_string(),
        LayoutNode::File { pattern: None, optional: true, required: false, case: None },
    );

    let config = ConfigIR {
        mode: Mode::Strict,
        layout: Some(LayoutNode::Dir { children, optional: false, required: false, strict: false, max_depth: None }),
        rules: RulesConfig::default(),
        boundaries: None,
        deps: None,
        ignore: vec![],
        use_gitignore: true,
        workspaces: vec![],
        dependencies: vec![],
        mirror: vec![],
        when: vec![],
        extends: None,
    };

    let _validator = PostValidator::new(&config);
    let mut paths = Vec::new();
    PostValidator::collect_required_paths(config.layout.as_ref().unwrap(), String::new(), &mut paths);

    assert_eq!(paths.len(), 1);
    assert_eq!(paths[0], "required.ts");
}

#[test]
fn test_when_validation() {
    let when = vec![(
        "controller.ts".to_string(),
        WhenRequirement { requires: vec!["service.ts".to_string()] },
    )];

    let config = ConfigIR {
        mode: Mode::Strict,
        layout: Some(LayoutNode::dir(ChildMap::new())),
        rules: RulesConfig::default(),
        boundaries: None,
        deps: None,
        ignore: vec![],
        use_gitignore: true,
        workspaces: vec![],
        dependencies: vec![],
        mirror: vec![],
        when,
        extends: None,
    };

    let mut validator = PostValidator::new(&config);
    validator.record_path("/test/src/controller.ts");

    let violations = validator.validate("/test", Severity::Error);
    assert_eq!(violations.len(), 1);
    assert_eq!(violations[0].rule_id.as_str(), "when");
}
