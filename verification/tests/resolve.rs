use repo_lint::config::packages::{is_workspace_root_manifest, package_search_dirs_of, package_target_path, skips_package_dir};
use repo_lint::config::resolve::{dirs_above_exec, first_present, path_candidates_exec, resolve_import, resolve_path};

#[test]
fn candidates_of_a_path_without_extension() {
    assert_eq!(
        path_candidates_exec("lib/shared"),
        vec![
            "lib/shared".to_string(),
            "lib/shared.ts".to_string(),
            "lib/shared/index.ts".to_string(),
            "lib/shared/repo-lint.config.ts".to_string(),
        ]
    );
}

#[test]
fn candidates_keep_an_extension_and_trim_a_closing_separator() {
    assert_eq!(
        path_candidates_exec("lib/shared.ts"),
        vec![
            "lib/shared.ts".to_string(),
            "lib/shared.ts/index.ts".to_string(),
            "lib/shared.ts/repo-lint.config.ts".to_string(),
        ]
    );
    assert_eq!(path_candidates_exec("lib/shared/")[1], "lib/shared.ts");
    assert_eq!(path_candidates_exec("lib/.hidden")[1], "lib/.hidden.ts");
    assert_eq!(path_candidates_exec("lib/..").len(), 3);
}

#[test]
fn candidates_match_path_set_extension() {
    for p in ["a/b", "a/b/", "a/b/.", "./a", "a.b/c", "/x/y//"] {
        let mut with_ext = std::path::PathBuf::from(p);
        with_ext.set_extension("ts");
        assert_eq!(path_candidates_exec(p)[1], with_ext.to_string_lossy(), "{}", p);
    }
}

#[test]
fn first_present_takes_the_first_true_answer() {
    let c = vec!["a".to_string(), "b".to_string(), "c".to_string()];
    assert_eq!(first_present(&c, &vec![false, true, true]), Some("b".to_string()));
    assert_eq!(first_present(&c, &vec![false, false, false]), None);
    assert_eq!(first_present(&c, &vec![true]), Some("a".to_string()));
}

#[test]
fn directories_above_a_path() {
    assert_eq!(dirs_above_exec("/a/b"), vec!["/a/b".to_string(), "/a".to_string(), "/".to_string()]);
    assert_eq!(dirs_above_exec("a/b"), vec!["a/b".to_string(), "a".to_string(), String::new()]);
}

#[test]
fn resolve_of_missing_files_gives_nothing() {
    assert_eq!(resolve_path("/nonexistent-repo-lint/x"), None);
    assert_eq!(resolve_import("/nonexistent-repo-lint/a/c.ts", "./x", None), None);
    assert_eq!(resolve_import("/", "./x", None), None);
}

#[test]
fn scoped_import_takes_the_workspace_package() {
    assert_eq!(
        resolve_import("/nonexistent-repo-lint/a/c.ts", "@org/pkg", Some("/pkgs/org/src/index.ts".to_string())),
        Some("/pkgs/org/src/index.ts".to_string())
    );
    assert_eq!(resolve_import("/nonexistent-repo-lint/a/c.ts", "@/pkg", Some("/t.ts".to_string())), None);
}

#[test]
fn package_search_skips_dependency_and_build_directories() {
    for name in ["node_modules", ".git", "dist", "build", "target", "coverage", "test-results", ".vercel"] {
        assert!(skips_package_dir(name), "{}", name);
    }
    for name in ["packages", "src", "ui", "Node_modules", "dist2", ""] {
        assert!(!skips_package_dir(name), "{}", name);
    }
}

#[test]
fn workspace_root_is_marked_by_the_workspaces_key() {
    assert!(is_workspace_root_manifest("{\"name\": \"root\", \"workspaces\": [\"packages/*\"]}"));
    assert!(is_workspace_root_manifest("{\"name\": \"workspaces\"}"));
    assert!(!is_workspace_root_manifest("{\"workspace\": [], \"workspaces_x\": 1}"));
    assert!(!is_workspace_root_manifest("{\"name\": \"app\"}"));
    assert!(!is_workspace_root_manifest(""));
}

#[test]
fn package_search_dirs_and_targets() {
    assert_eq!(package_search_dirs_of("/repo"), vec!["/repo/packages", "/repo/apps", "/repo/libs"]);
    assert_eq!(package_target_path("/repo/packages/ui", ""), "/repo/packages/ui/src");
    assert_eq!(package_target_path("/repo/packages/ui", "lib/button"), "/repo/packages/ui/lib/button");
}
