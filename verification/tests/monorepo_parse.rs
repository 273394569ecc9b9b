use repo_lint::config::syntax::parse_config_text;
use repo_lint::config::ConfigDiscovery;

#[test]
fn test_parse_workspaces_field() {
    let config = r#"
import { defineConfig, dir, file } from "@rikalabs/repo-lint";

export default defineConfig({
    workspaces: ["apps/*", "packages/*"],
    layout: dir({ "package.json": file() }),
});
"#;

    let result = parse_config_text(config, "repo-lint.config.ts");

    assert!(result.is_ok());
    let config = result.unwrap();
    assert_eq!(config.workspaces.len(), 2);
    assert!(config.workspaces.contains(&"apps/*".to_string()));
    assert!(config.workspaces.contains(&"packages/*".to_string()));
}

#[test]
fn test_parse_empty_workspaces() {
    let config = r#"
import { defineConfig, dir, file } from "@rikalabs/repo-lint";

export default defineConfig({
    workspaces: [],
    layout: dir({ "package.json": file() }),
});
"#;

    let result = parse_config_text(config, "repo-lint.config.ts");

    assert!(result.is_ok());
    let config = result.unwrap();
    assert!(config.workspaces.is_empty());
}

#[test]
fn test_config_without_workspaces_defaults_to_empty() {
    let config = r#"
import { defineConfig, dir, file } from "@rikalabs/repo-lint";
export default defineConfig({ layout: dir({ "index.ts": file() }) });
"#;

    let result = parse_config_text(config, "repo-lint.config.ts");

    assert!(result.is_ok());
    let config = result.unwrap();
    assert!(config.workspaces.is_empty());
}

#[test]
fn test_single_workspace_pattern() {
    let config = r#"
import { defineConfig, dir, file } from "@rikalabs/repo-lint";

export default defineConfig({
    workspaces: ["packages/*"],
    layout: dir({ "package.json": file() }),
});
"#;

    let result = parse_config_text(config, "repo-lint.config.ts");

    assert!(result.is_ok());
    let config = result.unwrap();
    assert_eq!(config.workspaces.len(), 1);
    assert_eq!(config.workspaces[0], "packages/*");
}

#[test]
fn test_multiple_workspace_patterns() {
    let config = r#"
import { defineConfig, dir, file } from "@rikalabs/repo-lint";

export default defineConfig({
    workspaces: ["apps/*", "packages/*", "libs/*", "tools/*"],
    layout: dir({ "package.json": file() }),
});
"#;

    let result = parse_config_text(config, "repo-lint.config.ts");

    assert!(result.is_ok());
    let config = result.unwrap();
    assert_eq!(config.workspaces.len(), 4);
}

#[test]
fn test_find_root_config_when_missing() {
    let discovery = ConfigDiscovery::new("/nonexistent/repo-lint-empty-root");
    let root_config = discovery.find_root_config();

    assert!(root_config.is_none());
}

#[test]
fn test_nextjs_preset() {
    let config_content = r#"
import { defineConfig, nextjsPreset } from "repo-lint";

export default defineConfig(nextjsPreset({
    routeCase: "kebab"
}));
"#;
    let config = parse_config_text(config_content, "repo-lint.config.ts").unwrap();

    // Verify it has the app directory structure
    if let Some(repo_lint::config::LayoutNode::Dir { children, .. }) = &config.layout {
        assert!(children.get("app").is_some());
    } else {
        panic!("Expected root to be a directory");
    }
}

#[test]
fn test_find_root_config_when_exists() {
    let discovery = ConfigDiscovery::new("/workspace/root");
    let root_config = discovery.root_config_if(true);

    assert!(root_config.is_some());
    assert_eq!(root_config.unwrap().relative_path, "");
}
