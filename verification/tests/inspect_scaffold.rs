use repo_lint::cli::{InspectCommand, ScaffoldCommand};
use repo_lint::config::{ChildMap, LayoutNode};

#[test]
fn test_get_rule_info_known_rule() {
    let info = InspectCommand::get_rule_info("layout");
    assert_eq!(info.id, "layout");
    assert!(info.auto_fix);
}

#[test]
fn test_get_rule_info_unknown_rule() {
    let info = InspectCommand::get_rule_info("unknown");
    assert_eq!(info.description, "Unknown rule");
    assert!(!info.auto_fix);
}

#[test]
fn test_plan_module_scaffold() {
    let mut api_children = ChildMap::new();
    api_children.insert("index.ts".to_string(), LayoutNode::file());

    let mut module_children = ChildMap::new();
    module_children.insert("api".to_string(), LayoutNode::dir(api_children));

    let layout = LayoutNode::dir(module_children);

    let plan = ScaffoldCommand::plan_module_scaffold(&layout, "billing", "src/services");

    assert!(!plan.actions.is_empty());
    assert!(plan.actions.iter().any(|a| a.path.contains("billing")));
}
