use repo_lint::config::{CaseStyle, ChildMap, LayoutNode};
use repo_lint::engine::{LayoutMatcher, MatchResult};

fn create_simple_layout() -> LayoutNode {
    let mut src_children = ChildMap::new();
    src_children.insert("index.ts".to_string(), LayoutNode::file());

    let mut root_children = ChildMap::new();
    root_children.insert("src".to_string(), LayoutNode::dir(src_children));

    LayoutNode::dir(root_children)
}

#[test]
fn test_match_valid_path() {
    let layout = create_simple_layout();
    let matcher = LayoutMatcher::new(layout);

    let result = matcher.match_path("src");
    assert!(matches!(result, MatchResult::Allowed));

    let result = matcher.match_path("src/index.ts");
    assert!(matches!(result, MatchResult::Allowed));
}

#[test]
fn test_match_invalid_path() {
    let layout = create_simple_layout();
    let matcher = LayoutMatcher::new(layout);

    let result = matcher.match_path("lib");
    assert!(matches!(result, MatchResult::NotInLayout { .. }));
}

#[test]
fn test_match_param() {
    let mut module_children = ChildMap::new();
    module_children.insert("index.ts".to_string(), LayoutNode::file());

    let mut services_children = ChildMap::new();
    services_children.insert(
        "$module".to_string(),
        LayoutNode::param("module", CaseStyle::Kebab, LayoutNode::dir(module_children)),
    );

    let mut src_children = ChildMap::new();
    src_children.insert("services".to_string(), LayoutNode::dir(services_children));

    let mut root_children = ChildMap::new();
    root_children.insert("src".to_string(), LayoutNode::dir(src_children));

    let layout = LayoutNode::dir(root_children);
    let matcher = LayoutMatcher::new(layout);

    let result = matcher.match_path("src/services/my-module");
    assert!(matches!(result, MatchResult::AllowedParam { .. }));

    let result = matcher.match_path("src/services/MyModule");
    assert!(matches!(result, MatchResult::Denied { .. }));
}

#[test]
fn test_case_validation_in_match() {
    let mut module_children = ChildMap::new();
    module_children.insert("index.ts".to_string(), LayoutNode::file());

    let mut services_children = ChildMap::new();
    services_children.insert(
        "$module".to_string(),
        LayoutNode::param("module", CaseStyle::Snake, LayoutNode::dir(module_children)),
    );

    let mut src_children = ChildMap::new();
    src_children.insert("services".to_string(), LayoutNode::dir(services_children));

    let mut root_children = ChildMap::new();
    root_children.insert("src".to_string(), LayoutNode::dir(src_children));

    let layout = LayoutNode::dir(root_children);
    let matcher = LayoutMatcher::new(layout);

    let result = matcher.match_path("src/services/my_module/index.ts");
    assert!(matches!(result, MatchResult::AllowedParam { .. }));
}

#[test]
fn test_recursive_matching() {
    let mut route_children = ChildMap::new();
    route_children.insert("page.tsx".to_string(), LayoutNode::file());

    let recursive = LayoutNode::recursive(LayoutNode::param(
        "route",
        CaseStyle::Kebab,
        LayoutNode::dir(route_children),
    ));

    let mut app_children = ChildMap::new();
    app_children.insert("$routes".to_string(), recursive);

    let mut root_children = ChildMap::new();
    root_children.insert("app".to_string(), LayoutNode::dir(app_children));

    let layout = LayoutNode::dir(root_children);
    let matcher = LayoutMatcher::new(layout);

    let result = matcher.match_path("app/dashboard/page.tsx");
    assert!(matches!(result, MatchResult::Allowed | MatchResult::AllowedParam { .. }));

    let result = matcher.match_path("app/dashboard/settings/page.tsx");
    assert!(matches!(result, MatchResult::Allowed | MatchResult::AllowedParam { .. }));

    let result = matcher.match_path("app/dashboard/settings/profile/page.tsx");
    assert!(matches!(result, MatchResult::Allowed | MatchResult::AllowedParam { .. }));
}

#[test]
fn test_recursive_with_depth_limit() {
    let mut route_children = ChildMap::new();
    route_children.insert("page.tsx".to_string(), LayoutNode::file());

    let recursive = LayoutNode::recursive_with_depth(
        2,
        LayoutNode::param("route", CaseStyle::Kebab, LayoutNode::dir(route_children)),
    );

    let mut app_children = ChildMap::new();
    app_children.insert("$routes".to_string(), recursive);

    let mut root_children = ChildMap::new();
    root_children.insert("app".to_string(), LayoutNode::dir(app_children));

    let layout = LayoutNode::dir(root_children);
    let matcher = LayoutMatcher::new(layout);

    let result = matcher.match_path("app/a/page.tsx");
    assert!(matches!(result, MatchResult::Allowed | MatchResult::AllowedParam { .. }));

    let result = matcher.match_path("app/a/b/page.tsx");
    assert!(matches!(result, MatchResult::Allowed | MatchResult::AllowedParam { .. }));

    let result = matcher.match_path("app/a/b/c/page.tsx");
    assert!(matches!(result, MatchResult::NotInLayout { .. }));
}

#[test]
fn test_either_matching() {
    let file_variant = LayoutNode::file_with_pattern("page.tsx");
    let mut dir_children = ChildMap::new();
    dir_children.insert("index.ts".to_string(), LayoutNode::file());
    let dir_variant = LayoutNode::dir(dir_children);

    let either = LayoutNode::either(vec![file_variant, dir_variant]);

    let mut routes_children = ChildMap::new();
    routes_children.insert("$segment".to_string(), LayoutNode::param("segment", CaseStyle::Kebab, either));

    let mut root_children = ChildMap::new();
    root_children.insert("routes".to_string(), LayoutNode::dir(routes_children));

    let layout = LayoutNode::dir(root_children);
    let matcher = LayoutMatcher::new(layout);

    let result = matcher.match_path("routes/dashboard/index.ts");
    assert!(matches!(result, MatchResult::Allowed | MatchResult::AllowedParam { .. }));
}

#[test]
fn test_match_attempts_in_denied_result() {
    let mut module_children = ChildMap::new();
    module_children.insert("index.ts".to_string(), LayoutNode::file());

    let mut services_children = ChildMap::new();
    services_children.insert(
        "$module".to_string(),
        LayoutNode::param("module", CaseStyle::Kebab, LayoutNode::dir(module_children)),
    );

    let mut root_children = ChildMap::new();
    root_children.insert("services".to_string(), LayoutNode::dir(services_children));

    let layout = LayoutNode::dir(root_children);
    let matcher = LayoutMatcher::new(layout);

    let result = matcher.match_path("services/MyModule/index.ts");
    match result {
        MatchResult::Denied { reason, attempts } => {
            assert!(reason.contains("does not match"));
            assert!(!attempts.is_empty());
            assert!(attempts.iter().any(|a| a.pattern.starts_with('$')));
        }
        _ => panic!("Expected Denied result"),
    }
}

#[test]
fn test_match_attempts_in_not_in_layout() {
    let mut root_children = ChildMap::new();
    root_children.insert("src".to_string(), LayoutNode::dir(ChildMap::new()));
    root_children.insert("lib".to_string(), LayoutNode::dir(ChildMap::new()));

    let layout = LayoutNode::dir(root_children);
    let matcher = LayoutMatcher::new(layout);

    let result = matcher.match_path("unknown/file.ts");
    match result {
        MatchResult::NotInLayout { attempts, .. } => {
            assert!(!attempts.is_empty());
            assert!(attempts.iter().any(|a| a.pattern == "src" || a.pattern == "lib"));
        }
        _ => panic!("Expected NotInLayout result"),
    }
}

#[test]
fn test_recursive_depth_exceeded_returns_not_in_layout() {
    let mut route_children = ChildMap::new();
    route_children.insert("page.tsx".to_string(), LayoutNode::file());

    let recursive = LayoutNode::recursive_with_depth(
        2,
        LayoutNode::param("route", CaseStyle::Kebab, LayoutNode::dir(route_children)),
    );

    let mut app_children = ChildMap::new();
    app_children.insert("$routes".to_string(), recursive);

    let mut root_children = ChildMap::new();
    root_children.insert("app".to_string(), LayoutNode::dir(app_children));

    let layout = LayoutNode::dir(root_children);
    let matcher = LayoutMatcher::new(layout);

    let result = matcher.match_path("app/a/b/c/page.tsx");
    assert!(
        matches!(result, MatchResult::NotInLayout { .. }),
        "Expected NotInLayout result, got {:?}",
        result
    );
}

#[test]
fn test_either_all_variants_fail_has_attempts() {
    let file_variant = LayoutNode::file_with_pattern("*.tsx");
    let mut dir_children = ChildMap::new();
    dir_children.insert("index.ts".to_string(), LayoutNode::file());
    let dir_variant = LayoutNode::dir(dir_children);

    let either = LayoutNode::either(vec![file_variant, dir_variant]);

    let mut root_children = ChildMap::new();
    root_children.insert("routes".to_string(), either);

    let layout = LayoutNode::dir(root_children);
    let matcher = LayoutMatcher::new(layout);

    let result = matcher.match_path("routes/unknown.js");
    match result {
        MatchResult::NotInLayout { attempts, .. } | MatchResult::Denied { attempts, .. } => {
            assert!(attempts.iter().any(|a| a.pattern.starts_with("either")));
        }
        _ => panic!("Expected NotInLayout or Denied result"),
    }
}

#[test]
fn test_deeply_nested_recursive_with_multiple_files() {
    let mut route_children = ChildMap::new();
    route_children.insert("page.tsx".to_string(), LayoutNode::file());
    route_children.insert("layout.tsx".to_string(), LayoutNode::file().optional());
    route_children.insert("loading.tsx".to_string(), LayoutNode::file().optional());

    let recursive = LayoutNode::recursive(LayoutNode::param(
        "route",
        CaseStyle::Kebab,
        LayoutNode::dir(route_children),
    ));

    let mut app_children = ChildMap::new();
    app_children.insert("$routes".to_string(), recursive);

    let mut root_children = ChildMap::new();
    root_children.insert("app".to_string(), LayoutNode::dir(app_children));

    let layout = LayoutNode::dir(root_children);
    let matcher = LayoutMatcher::new(layout);

    let result = matcher.match_path("app/dashboard/settings/profile/page.tsx");
    assert!(matches!(result, MatchResult::Allowed | MatchResult::AllowedParam { .. }));

    let result = matcher.match_path("app/dashboard/settings/profile/layout.tsx");
    assert!(matches!(result, MatchResult::Allowed | MatchResult::AllowedParam { .. }));

    let result = matcher.match_path("app/a/b/c/d/e/f/g/page.tsx");
    assert!(matches!(result, MatchResult::Allowed | MatchResult::AllowedParam { .. }));
}
