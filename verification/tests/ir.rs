use repo_lint::config::{CaseStyle, ChildMap, ConfigIR, LayoutNode, Mode};

#[test]
fn test_kebab_case_validation() {
    assert!(CaseStyle::Kebab.validate("my-module"));
    assert!(CaseStyle::Kebab.validate("billing"));
    assert!(CaseStyle::Kebab.validate("auth-v2"));
    assert!(!CaseStyle::Kebab.validate("MyModule"));
    assert!(!CaseStyle::Kebab.validate("my_module"));
    assert!(!CaseStyle::Kebab.validate("-invalid"));
    assert!(!CaseStyle::Kebab.validate("invalid-"));
    assert!(!CaseStyle::Kebab.validate("in--valid"));
}

#[test]
fn test_snake_case_validation() {
    assert!(CaseStyle::Snake.validate("my_module"));
    assert!(CaseStyle::Snake.validate("billing"));
    assert!(CaseStyle::Snake.validate("auth_v2"));
    assert!(!CaseStyle::Snake.validate("MyModule"));
    assert!(!CaseStyle::Snake.validate("my-module"));
    assert!(!CaseStyle::Snake.validate("_invalid"));
    assert!(!CaseStyle::Snake.validate("invalid_"));
    assert!(!CaseStyle::Snake.validate("in__valid"));
}

#[test]
fn test_camel_case_validation() {
    assert!(CaseStyle::Camel.validate("myModule"));
    assert!(CaseStyle::Camel.validate("billing"));
    assert!(CaseStyle::Camel.validate("authV2"));
    assert!(!CaseStyle::Camel.validate("MyModule"));
    assert!(!CaseStyle::Camel.validate("my-module"));
    assert!(!CaseStyle::Camel.validate("my_module"));
}

#[test]
fn test_pascal_case_validation() {
    assert!(CaseStyle::Pascal.validate("MyModule"));
    assert!(CaseStyle::Pascal.validate("Billing"));
    assert!(CaseStyle::Pascal.validate("AuthV2"));
    assert!(!CaseStyle::Pascal.validate("myModule"));
    assert!(!CaseStyle::Pascal.validate("my-module"));
    assert!(!CaseStyle::Pascal.validate("my_module"));
}

#[test]
fn test_layout_node_builders() {
    let file = LayoutNode::file();
    assert!(matches!(file, LayoutNode::File { pattern: None, optional: false, .. }));

    let optional_file = LayoutNode::file().optional();
    assert!(matches!(optional_file, LayoutNode::File { pattern: None, optional: true, .. }));

    let dir = LayoutNode::dir(ChildMap::new());
    assert!(matches!(dir, LayoutNode::Dir { optional: false, .. }));
}

#[test]
fn test_any_case_validation() {
    assert!(CaseStyle::Any.validate("anything"));
    assert!(CaseStyle::Any.validate("ANYTHING"));
    assert!(CaseStyle::Any.validate("Any-Thing_123"));
}

#[test]
fn test_empty_string_validation() {
    assert!(!CaseStyle::Kebab.validate(""));
    assert!(!CaseStyle::Snake.validate(""));
    assert!(!CaseStyle::Camel.validate(""));
    assert!(!CaseStyle::Pascal.validate(""));
    assert!(CaseStyle::Any.validate(""));
}

#[test]
fn test_file_with_pattern() {
    let file = LayoutNode::file_with_pattern("*.ts");
    match file {
        LayoutNode::File { pattern, optional, .. } => {
            assert_eq!(pattern, Some("*.ts".to_string()));
            assert!(!optional);
        }
        _ => panic!("Expected File variant"),
    }
}

#[test]
fn test_param_node() {
    let child = LayoutNode::file();
    let param = LayoutNode::param("module", CaseStyle::Kebab, child);
    match param {
        LayoutNode::Param { name, case, .. } => {
            assert_eq!(name, "module");
            assert_eq!(case, CaseStyle::Kebab);
        }
        _ => panic!("Expected Param variant"),
    }
}

#[test]
fn test_many_node() {
    let child = LayoutNode::file();
    let many = LayoutNode::many(Some(CaseStyle::Snake), child);
    match many {
        LayoutNode::Many { case, .. } => {
            assert_eq!(case, Some(CaseStyle::Snake));
        }
        _ => panic!("Expected Many variant"),
    }
}

#[test]
fn test_optional_dir() {
    let dir = LayoutNode::dir(ChildMap::new()).optional();
    assert!(dir.is_optional());
}

#[test]
fn test_config_ir_new() {
    let layout = LayoutNode::dir(ChildMap::new());
    let config = ConfigIR::new(layout);
    assert_eq!(config.mode, Mode::Strict);
    assert!(config.rules.forbid_paths.is_empty());
    assert!(config.boundaries.is_none());
}

#[test]
fn test_mode_default() {
    assert_eq!(Mode::default(), Mode::Strict);
}

#[test]
fn test_kebab_with_numbers() {
    assert!(CaseStyle::Kebab.validate("v1"));
    assert!(CaseStyle::Kebab.validate("api-v2"));
    assert!(CaseStyle::Kebab.validate("module-123"));
}

#[test]
fn test_snake_with_numbers() {
    assert!(CaseStyle::Snake.validate("v1"));
    assert!(CaseStyle::Snake.validate("api_v2"));
    assert!(CaseStyle::Snake.validate("module_123"));
}
