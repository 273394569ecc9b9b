use repo_lint::cli::check::{check_workspace, exit_code};
use repo_lint::cli::{InspectCommand, ScaffoldCommand};
use repo_lint::config::syntax::parse_config_text;
use repo_lint::config::{CaseStyle, ChildMap, LayoutNode};
use repo_lint::engine::{LayoutMatcher, MatchResult};
use repo_lint::output::sort_violations;
use repo_lint::text::simple_pattern_match;

#[test]
fn a_file_pattern_is_read_as_a_glob() {
    assert!(simple_pattern_match("use-auth.ts", "*.ts"));
    assert!(!simple_pattern_match("unknown.js", "*.tsx"));
    assert!(!simple_pattern_match("index.ts", "page.tsx"));
    assert!(simple_pattern_match("a.tsx", "*"));
    assert!(!simple_pattern_match("a", "a*a"));
    assert!(simple_pattern_match("aa", "a*a"));
    assert!(simple_pattern_match("abca", "a*a"));
}

fn index_dir() -> LayoutNode {
    let mut c = ChildMap::new();
    c.insert("index.ts".to_string(), LayoutNode::file());
    LayoutNode::dir(c)
}

#[test]
fn a_rejecting_dollar_entry_does_not_hide_a_later_one() {
    let mut children = ChildMap::new();
    children.insert("$pascal".to_string(), LayoutNode::param("pascal", CaseStyle::Pascal, index_dir()));
    children.insert("$kebab".to_string(), LayoutNode::param("kebab", CaseStyle::Kebab, index_dir()));
    let matcher = LayoutMatcher::new(LayoutNode::dir(children));
    let r = matcher.match_path("my-module/index.ts");
    assert!(matches!(r, MatchResult::AllowedParam { ref name, ref value } if name == "kebab" && value == "my-module"));
    let r = matcher.match_path("MyModule/index.ts");
    assert!(matches!(r, MatchResult::AllowedParam { ref name, .. } if name == "pascal"));

    let mut children = ChildMap::new();
    children.insert("$hooks".to_string(), LayoutNode::many(Some(CaseStyle::Camel), LayoutNode::file()));
    children.insert("$pages".to_string(), LayoutNode::many(Some(CaseStyle::Kebab), LayoutNode::file()));
    let matcher = LayoutMatcher::new(LayoutNode::dir(children));
    assert!(matcher.match_path("about-us").is_allowed());
    assert!(matcher.match_path("useAuth").is_allowed());
    let r = matcher.match_path("Bad_Name");
    assert!(matches!(r, MatchResult::Denied { .. }));
}

#[test]
fn the_layout_tree_labels_directories_after_their_names() {
    let mut src = ChildMap::new();
    src.insert("index.ts".to_string(), LayoutNode::file());
    let mut root = ChildMap::new();
    root.insert("src".to_string(), LayoutNode::dir(src));
    root.insert("tests".to_string(), LayoutNode::dir(ChildMap::new()).optional());
    let text = InspectCommand::layout_tree_text(&LayoutNode::dir(root), "", true);
    assert_eq!(text, "├── src [dir]\n│   └── index.ts\n└── tests [dir] (opt)\n");
}

#[test]
fn scaffolding_skips_optional_nodes_and_dollar_entries() {
    let mut api = ChildMap::new();
    api.insert("index.ts".to_string(), LayoutNode::file());
    let mut module = ChildMap::new();
    module.insert("api".to_string(), LayoutNode::dir(api));
    module.insert("tests".to_string(), LayoutNode::dir(ChildMap::new()).optional());
    module.insert("README.md".to_string(), LayoutNode::file().optional());
    module.insert("$x".to_string(), LayoutNode::param("x", CaseStyle::Kebab, LayoutNode::file()));
    let plan = ScaffoldCommand::plan_module_scaffold(&LayoutNode::dir(module), "billing", "src/services");
    let steps: Vec<(String, String)> = plan.actions.iter().map(|a| (a.action.clone(), a.path.clone())).collect();
    assert_eq!(
        steps,
        vec![
            ("mkdir".to_string(), "src/services/billing".to_string()),
            ("mkdir".to_string(), "src/services/billing/api".to_string()),
            ("touch".to_string(), "src/services/billing/api/index.ts".to_string()),
        ]
    );
}

const BASIC_CONFIG: &str = r#"
import { defineConfig, dir, file, opt, param } from "repo-lint";

export default defineConfig({
    mode: "strict",
    layout: dir({
        src: dir({
            "index.ts": file(),
            services: opt(dir({
                $module: param({ case: "kebab" }, dir({
                    "index.ts": file(),
                })),
            })),
        }),
        "README.md": opt(file()),
    }),
    rules: {
        forbidPaths: ["**/utils/**", "**/*.bak"],
        forbidNames: ["temp", "new"],
    },
});
"#;

fn exit_for(paths: &[&str]) -> i32 {
    let config = parse_config_text(BASIC_CONFIG, "repo-lint.config.ts").unwrap();
    let paths: Vec<String> = paths.iter().map(|p| p.to_string()).collect();
    let violations = check_workspace(&config, &paths, "/nonexistent/repo-lint-workspace", &None).unwrap();
    exit_code(&sort_violations(&violations))
}

#[test]
fn the_configuration_file_is_not_held_to_the_layout() {
    assert_eq!(exit_for(&["repo-lint.config.ts", "src/index.ts", "src/services/billing/index.ts"]), 0);
    assert_eq!(exit_for(&["repo-lint.config.ts", "src/index.ts", "src/utils/helper.ts"]), 1);
    assert_eq!(exit_for(&["repo-lint.config.ts", "src/index.ts", "src/temp.ts"]), 1);
    assert_eq!(exit_for(&["repo-lint.config.ts", "src/index.ts", "src/services/MyModule/index.ts"]), 1);
    assert_eq!(exit_for(&["src/index.ts", "src/other.config.ts"]), 1);
}

#[test]
fn a_recursive_route_keeps_its_case_on_every_segment() {
    let mut page = ChildMap::new();
    page.insert("page.tsx".to_string(), LayoutNode::file());
    let route = LayoutNode::recursive(LayoutNode::param("route", CaseStyle::Kebab, LayoutNode::dir(page)));
    let mut app = ChildMap::new();
    app.insert("$routes".to_string(), route);
    let mut root = ChildMap::new();
    root.insert("app".to_string(), LayoutNode::dir(app));
    let matcher = LayoutMatcher::new(LayoutNode::dir(root));
    assert!(matcher.match_path("app/dashboard/page.tsx").is_allowed());
    assert!(matcher.match_path("app/dashboard/settings/page.tsx").is_allowed());
    assert!(!matcher.match_path("app/Dashboard/page.tsx").is_allowed());
    assert!(!matcher.match_path("app/dashboard/Settings/page.tsx").is_allowed());
}
