use repo_lint::cli::check::{
    check_workspace, exit_code, in_scope, prefix_paths, scope_prefix, severity_for, workspace_label,
    workspaces_exit_code, workspaces_summary, WorkspaceResult,
};
use repo_lint::config::{ChildMap, ConfigIR, LayoutNode, Mode, RulesConfig};
use repo_lint::engine::walker::changed_paths;
use repo_lint::engine::{Severity, Violation, Walker};

fn violation(path: &str, rule: &str, severity: Severity) -> Violation {
    Violation {
        path: path.to_string(),
        rule_id: rule.to_string(),
        message: "m".to_string(),
        severity,
        fix_suggestion: None,
        attempts: Vec::new(),
    }
}

fn config(mode: Mode) -> ConfigIR {
    let mut src = ChildMap::new();
    src.insert("index.ts".to_string(), LayoutNode::file());
    let mut root = ChildMap::new();
    root.insert("src".to_string(), LayoutNode::dir(src));
    let mut c = ConfigIR::new(LayoutNode::dir(root));
    c.mode = mode;
    c.rules = RulesConfig { forbid_paths: vec!["**/tmp/**".to_string()], forbid_names: vec![], ignore_paths: vec![] };
    c
}

#[test]
fn scope_prefix_adds_one_closing_slash() {
    assert_eq!(scope_prefix(&Some("apps/web".to_string())), Some("apps/web/".to_string()));
    assert_eq!(scope_prefix(&Some("apps/web/".to_string())), Some("apps/web/".to_string()));
    assert_eq!(scope_prefix(&None), None);
}

#[test]
fn in_scope_takes_paths_under_the_prefix_and_the_directory_itself() {
    let p = Some("apps/web/".to_string());
    assert!(in_scope("apps/web/src/a.ts", &p));
    assert!(in_scope("apps/web", &p));
    assert!(!in_scope("apps/webby/a.ts", &p));
    assert!(!in_scope("apps", &p));
    assert!(in_scope("anything", &None));
}

#[test]
fn severity_follows_the_mode() {
    assert_eq!(severity_for(Mode::Strict), Severity::Error);
    assert_eq!(severity_for(Mode::Warn), Severity::Warning);
}

#[test]
fn check_workspace_reports_in_scope_paths_only() {
    let c = config(Mode::Strict);
    let paths = vec!["src".to_string(), "src/index.ts".to_string(), "lib/a.ts".to_string(), "src/tmp/x.ts".to_string()];
    let all = check_workspace(&c, &paths, "/nonexistent-root", &None).unwrap();
    assert_eq!(all.len(), 3);
    assert_eq!(all[0].path, "lib/a.ts");
    assert_eq!(all[0].rule_id, "layout");
    assert_eq!(all[1].path, "src/tmp/x.ts");
    assert_eq!(all[1].rule_id, "forbidPaths");
    assert!(all.iter().all(|v| v.severity == Severity::Error));

    let scoped = check_workspace(&c, &paths, "/nonexistent-root", &Some("src".to_string())).unwrap();
    assert!(scoped.iter().all(|v| v.path.starts_with("src")));
    assert_eq!(scoped.len(), 2);

    let warn = check_workspace(&config(Mode::Warn), &paths, "/nonexistent-root", &None).unwrap();
    assert!(warn.iter().all(|v| v.severity == Severity::Warning));
    assert_eq!(exit_code(&warn), 0);
    assert_eq!(exit_code(&all), 1);
}

#[test]
fn prefix_paths_puts_violations_under_the_workspace() {
    let vs = vec![violation("src/a.ts", "layout", Severity::Error)];
    let out = prefix_paths(vs, "apps/web");
    assert_eq!(out[0].path, "apps/web/src/a.ts");
    let out = prefix_paths(out, "");
    assert_eq!(out[0].path, "apps/web/src/a.ts");
}

#[test]
fn workspace_label_names_the_root_dot() {
    assert_eq!(workspace_label(""), ".");
    assert_eq!(workspace_label("apps/web"), "apps/web");
}

#[test]
fn workspaces_summary_counts_over_all_workspaces() {
    let results = vec![
        WorkspaceResult {
            workspace: ".".to_string(),
            config_path: "repo-lint.config.ts".to_string(),
            violations: vec![violation("a", "layout", Severity::Error), violation("b", "layout", Severity::Warning)],
        },
        WorkspaceResult { workspace: "apps/x".to_string(), config_path: "c".to_string(), violations: vec![] },
        WorkspaceResult {
            workspace: "apps/y".to_string(),
            config_path: "d".to_string(),
            violations: vec![violation("c", "layout", Severity::Warning)],
        },
    ];
    assert_eq!(workspaces_summary(&results), "\nSummary: 1 error(s) and 2 warning(s) across 2 workspace(s)");
    assert_eq!(workspaces_exit_code(&results), 1);

    let clean = vec![WorkspaceResult { workspace: ".".to_string(), config_path: "c".to_string(), violations: vec![] }];
    assert_eq!(workspaces_summary(&clean), "\nNo violations found across 1 workspace(s).");
    assert_eq!(workspaces_exit_code(&clean), 0);
}

#[test]
fn walker_settings_and_entries() {
    let w = Walker::new("/repo").respect_gitignore(false).add_ignore(".lintignore").max_depth(2);
    assert_eq!(w.root(), "/repo");
    assert!(!w.respects_gitignore());
    assert_eq!(w.custom_ignores(), &vec![".lintignore".to_string()]);
    assert_eq!(w.depth_limit(), Some(2));

    let e = w.entry_for("/repo/src/a.ts", false).unwrap();
    assert_eq!(e.relative_path, "src/a.ts");
    assert!(w.entry_for("/repo", true).is_none());
    assert!(w.entry_for("/elsewhere/a.ts", false).is_none());

    let c = w.changed_entry("src/b.ts", false);
    assert_eq!(c.path, "/repo/src/b.ts");
    assert_eq!(c.relative_path, "src/b.ts");
}

#[test]
fn changed_paths_are_the_non_empty_lines() {
    assert_eq!(changed_paths("a.ts\n\nb/c.ts\r\n"), vec!["a.ts".to_string(), "b/c.ts".to_string()]);
    assert!(changed_paths("").is_empty());
}
