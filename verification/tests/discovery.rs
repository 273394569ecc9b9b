use repo_lint::config::{ConfigDiscovery, DiscoveredConfig};

const ROOT: &str = "/work/repo";

fn walked(paths: &[&str]) -> Vec<String> {
    paths.iter().map(|p| format!("{}{}", ROOT, p)).collect()
}

fn relative_paths(configs: &[DiscoveredConfig]) -> Vec<&str> {
    configs.iter().map(|c| c.relative_path.as_str()).collect()
}

#[test]
fn test_discover_single_root_config() {
    let discovery = ConfigDiscovery::new(ROOT);
    let configs = discovery.discover_in(&walked(&["", "/repo-lint.config.ts"]));

    assert_eq!(configs.len(), 1);
    assert_eq!(configs[0].relative_path, "");
}

#[test]
fn test_discover_workspace_configs() {
    let discovery = ConfigDiscovery::new(ROOT);
    let configs = discovery.discover_in(&walked(&[
        "",
        "/repo-lint.config.ts",
        "/apps",
        "/apps/web",
        "/apps/web/repo-lint.config.ts",
        "/apps/api",
        "/apps/api/repo-lint.config.ts",
        "/packages",
        "/packages/ui",
        "/packages/ui/repo-lint.config.ts",
    ]));

    assert_eq!(configs.len(), 4);
    let paths = relative_paths(&configs);
    assert!(paths.contains(&""));
    assert!(paths.contains(&"apps/api"));
    assert!(paths.contains(&"apps/web"));
    assert!(paths.contains(&"packages/ui"));
}

#[test]
fn test_discover_with_explicit_workspaces() {
    let discovery = ConfigDiscovery::new(ROOT);
    let root_config = DiscoveredConfig {
        config_path: format!("{}/repo-lint.config.ts", ROOT),
        workspace_root: ROOT.to_string(),
        relative_path: String::new(),
    };
    let matches = walked(&[
        "/apps/api/repo-lint.config.ts",
        "/apps/web/repo-lint.config.ts",
        "/packages/ui/repo-lint.config.ts",
    ]);
    let configs = discovery.collect_workspaces(Some(root_config), &matches);

    assert_eq!(configs.len(), 4);
    let paths = relative_paths(&configs);
    assert!(paths.contains(&""));
    assert!(paths.contains(&"apps/api"));
    assert!(paths.contains(&"apps/web"));
    assert!(paths.contains(&"packages/ui"));
    assert!(!paths.contains(&"tools/scripts"));
}

#[test]
fn test_find_root_config_missing() {
    let discovery = ConfigDiscovery::new("/nonexistent/repo-lint-test-root");
    let root_config = discovery.find_root_config();

    assert!(root_config.is_none());
}

#[test]
fn test_filter_by_workspace_exact() {
    let discovery = ConfigDiscovery::new(ROOT);
    let all_configs = discovery.discover_in(&walked(&[
        "/repo-lint.config.ts",
        "/apps/web/repo-lint.config.ts",
        "/apps/api/repo-lint.config.ts",
    ]));
    let filtered = discovery.filter_by_workspace(all_configs, "apps/web");

    assert_eq!(filtered.len(), 2);
    let paths = relative_paths(&filtered);
    assert!(paths.contains(&""));
    assert!(paths.contains(&"apps/web"));
}

#[test]
fn test_filter_by_workspace_glob() {
    let discovery = ConfigDiscovery::new(ROOT);
    let all_configs = discovery.discover_in(&walked(&[
        "/repo-lint.config.ts",
        "/apps/web/repo-lint.config.ts",
        "/apps/api/repo-lint.config.ts",
        "/packages/ui/repo-lint.config.ts",
    ]));
    let filtered = discovery.filter_by_workspace(all_configs, "apps/*");

    assert_eq!(filtered.len(), 3);
    let paths = relative_paths(&filtered);
    assert!(paths.contains(&""));
    assert!(paths.contains(&"apps/web"));
    assert!(paths.contains(&"apps/api"));
    assert!(!paths.contains(&"packages/ui"));
}

#[test]
fn test_discover_empty_repo() {
    let discovery = ConfigDiscovery::new(ROOT);
    let configs = discovery.discover_in(&walked(&[""]));

    assert!(configs.is_empty());
}

#[test]
fn test_discover_nested_workspace_configs() {
    let discovery = ConfigDiscovery::new(ROOT);
    let configs = discovery.discover_in(&walked(&[
        "/repo-lint.config.ts",
        "/apps/web/repo-lint.config.ts",
        "/apps/web/packages/shared/repo-lint.config.ts",
    ]));

    assert_eq!(configs.len(), 3);
}

#[test]
fn discovered_configs_are_sorted_by_workspace_name() {
    let discovery = ConfigDiscovery::new(ROOT);
    let configs = discovery.discover_in(&walked(&[
        "/packages/ui/repo-lint.config.ts",
        "/apps/web/repo-lint.config.ts",
        "/repo-lint.config.ts",
        "/apps/api/repo-lint.config.ts",
        "/apps/api/other.config.ts",
    ]));
    assert_eq!(relative_paths(&configs), vec!["", "apps/api", "apps/web", "packages/ui"]);
    assert_eq!(configs[1].workspace_root, format!("{}/apps/api", ROOT));
    assert_eq!(configs[1].config_path, format!("{}/apps/api/repo-lint.config.ts", ROOT));
}

#[test]
fn workspace_matches_are_added_once() {
    let discovery = ConfigDiscovery::new(ROOT);
    let matches = walked(&["/apps/web/repo-lint.config.ts", "/apps//web/repo-lint.config.ts"]);
    let configs = discovery.collect_workspaces(None, &matches);
    assert_eq!(configs.len(), 1);
}

#[test]
fn workspace_glob_joins_the_pattern_under_the_root() {
    let discovery = ConfigDiscovery::new(ROOT);
    assert_eq!(discovery.workspace_glob("apps/*"), "/work/repo/apps/*/repo-lint.config.ts");
}

#[test]
fn filter_keeps_nested_workspaces_under_the_name() {
    let discovery = ConfigDiscovery::new(ROOT);
    let all_configs = discovery.discover_in(&walked(&[
        "/repo-lint.config.ts",
        "/apps/web/repo-lint.config.ts",
        "/apps/web/packages/shared/repo-lint.config.ts",
        "/apps/webby/repo-lint.config.ts",
    ]));
    let filtered = discovery.filter_by_workspace(all_configs, "apps/web");
    assert_eq!(relative_paths(&filtered), vec!["", "apps/web", "apps/web/packages/shared"]);
}
