use repo_lint::config::syntax::parse_config_text;
use repo_lint::config::{CaseStyle, ChildMap, LayoutNode};
use repo_lint::engine::{LayoutMatcher, MatchResult};

#[test]
fn test_strict_mode_rejects_unknown_files() {
    let mut children = ChildMap::new();
    children.insert("allowed.ts".to_string(), LayoutNode::file());

    let layout = LayoutNode::Dir { children, optional: false, required: false, strict: true, max_depth: None };

    let matcher = LayoutMatcher::new(layout);

    let result = matcher.match_path("allowed.ts");
    assert!(matches!(result, MatchResult::Allowed));

    let result = matcher.match_path("unknown.ts");
    assert!(matches!(result, MatchResult::Denied { .. }));
}

#[test]
fn test_file_case_validation() {
    let mut children = ChildMap::new();
    children.insert(
        "$hook".to_string(),
        LayoutNode::Many {
            case: None,
            child: Box::new(LayoutNode::File {
                pattern: Some("*.ts".to_string()),
                optional: false,
                required: false,
                case: Some(CaseStyle::Kebab),
            }),
            max: None,
        },
    );

    let layout = LayoutNode::dir(children);
    let matcher = LayoutMatcher::new(layout);

    let result = matcher.match_path("use-auth.ts");
    println!("Result for use-auth.ts: {:?}", result);
    assert!(matches!(result, MatchResult::AllowedMany { .. }));

    let result = matcher.match_path("useAuth.ts");
    println!("Result for useAuth.ts: {:?}", result);
    assert!(matches!(result, MatchResult::Denied { .. }), "Expected Denied but got {:?}", result);
}

#[test]
fn test_deeply_nested_recursive_patterns() {
    let mut file_children = ChildMap::new();
    file_children.insert("page.tsx".to_string(), LayoutNode::file());
    file_children.insert("layout.tsx".to_string(), LayoutNode::file().optional());
    file_children.insert("$any".to_string(), LayoutNode::many(None, LayoutNode::file_with_pattern("*")));

    let param_child = LayoutNode::param("segment", CaseStyle::Any, LayoutNode::dir(file_children));

    let recursive_node = LayoutNode::recursive_with_depth(10, param_child);

    let mut app_children = ChildMap::new();
    app_children.insert("$routes".to_string(), recursive_node);

    let mut src_children = ChildMap::new();
    src_children.insert("app".to_string(), LayoutNode::dir(app_children));

    let mut root_children = ChildMap::new();
    root_children.insert("src".to_string(), LayoutNode::dir(src_children));

    let matcher = LayoutMatcher::new(LayoutNode::dir(root_children));

    let is_allowed = |path: &str| -> bool {
        matches!(
            matcher.match_path(path),
            MatchResult::Allowed | MatchResult::AllowedParam { .. } | MatchResult::AllowedMany { .. }
        )
    };

    assert!(is_allowed("src/app/dashboard/page.tsx"), "depth 1 should be allowed");
    assert!(is_allowed("src/app/dashboard/settings/page.tsx"), "depth 2 should be allowed");
    assert!(is_allowed("src/app/dashboard/settings/profile/page.tsx"), "depth 3 should be allowed");
    assert!(is_allowed("src/app/a/b/c/d/e/page.tsx"), "depth 5 should be allowed");
    assert!(is_allowed("src/app/a/b/c/layout.tsx"), "optional layout.tsx at depth 3 should be allowed");
    assert!(is_allowed("src/app/dashboard/some-file.ts"), "any file via many(*) should be allowed");
}

#[test]
fn test_recursive_with_nested_param_directory() {
    let mut inner_dir = ChildMap::new();
    inner_dir.insert("$any".to_string(), LayoutNode::many(None, LayoutNode::file_with_pattern("*")));

    let nested_param = LayoutNode::param("nested", CaseStyle::Any, LayoutNode::dir(inner_dir.duplicate()));

    let mut inner_children = ChildMap::new();
    inner_children.insert("$nested".to_string(), LayoutNode::recursive_with_depth(10, nested_param));
    inner_children.insert("$any".to_string(), LayoutNode::many(None, LayoutNode::file_with_pattern("*")));

    let param_child = LayoutNode::param("app", CaseStyle::Kebab, LayoutNode::dir(inner_children));

    let mut apps_children = ChildMap::new();
    apps_children.insert("$app".to_string(), param_child);

    let mut root_children = ChildMap::new();
    root_children.insert("apps".to_string(), LayoutNode::dir(apps_children));

    let matcher = LayoutMatcher::new(LayoutNode::dir(root_children));

    let is_allowed = |path: &str| -> bool {
        let result = matcher.match_path(path);
        matches!(
            result,
            MatchResult::Allowed | MatchResult::AllowedParam { .. } | MatchResult::AllowedMany { .. }
        )
    };

    assert!(is_allowed("apps/my-app/file.json"), "direct file in app dir");
    assert!(is_allowed("apps/my-app/drizzle/file.json"), "file at depth 1");
    assert!(is_allowed("apps/my-app/drizzle/meta/file.json"), "file at depth 2");
    assert!(is_allowed("apps/my-app/drizzle/meta/deep/file.json"), "file at depth 3");
}

#[test]
fn test_directory_alias() {
    let config = r#"
import { defineConfig, directory, file } from "@rikalabs/repo-lint";

export default defineConfig({
    layout: directory({
        src: directory({
            "index.ts": file(),
        }),
    }),
});
"#;
    let result = parse_config_text(config, "repo-lint.config.ts");
    assert!(result.is_ok());
}

#[test]
fn test_optional_alias() {
    let config = r#"
import { defineConfig, directory, file, optional } from "@rikalabs/repo-lint";

export default defineConfig({
    layout: directory({
        src: directory({}),
        tests: optional(directory({})),
        "README.md": optional(file()),
    }),
});
"#;
    let result = parse_config_text(config, "repo-lint.config.ts");
    assert!(result.is_ok());
    let config = result.unwrap();

    if let Some(repo_lint::config::LayoutNode::Dir { children, .. }) = &config.layout {
        if let Some(repo_lint::config::LayoutNode::Dir { optional, .. }) = children.get("tests") {
            assert!(*optional);
        } else {
            panic!("Expected tests to be a Dir");
        }
    }
}

#[test]
fn test_required_modifier() {
    let config = r#"
import { defineConfig, directory, file, required } from "@rikalabs/repo-lint";

export default defineConfig({
    layout: directory({
        "package.json": required(file()),
        src: required(directory({
            "index.ts": file(),
        })),
    }),
});
"#;
    let result = parse_config_text(config, "repo-lint.config.ts");
    assert!(result.is_ok());
    let config = result.unwrap();

    if let Some(repo_lint::config::LayoutNode::Dir { children, .. }) = &config.layout {
        if let Some(repo_lint::config::LayoutNode::File { required, .. }) =
            children.get("package.json")
        {
            assert!(*required);
        }
        if let Some(repo_lint::config::LayoutNode::Dir { required, .. }) = children.get("src") {
            assert!(*required);
        }
    }
}

#[test]
fn test_strict_directory() {
    let config = r#"
import { defineConfig, directory, file, many } from "@rikalabs/repo-lint";

export default defineConfig({
    layout: directory({
        hooks: directory({
            $hook: many(file("use-*.ts")),
        }, { strict: true }),
    }),
});
"#;
    let result = parse_config_text(config, "repo-lint.config.ts");
    assert!(result.is_ok());
    let config = result.unwrap();

    if let Some(repo_lint::config::LayoutNode::Dir { children, .. }) = &config.layout {
        if let Some(repo_lint::config::LayoutNode::Dir { strict, .. }) = children.get("hooks") {
            assert!(*strict);
        }
    }
}

#[test]
fn test_dir_max_depth() {
    let config = r#"
import { defineConfig, directory, file, many } from "@rikalabs/repo-lint";

export default defineConfig({
    layout: directory({
        components: directory({
            $component: many(file("*.tsx")),
        }, { maxDepth: 2 }),
    }),
});
"#;
    let result = parse_config_text(config, "repo-lint.config.ts");
    assert!(result.is_ok());
    let config = result.unwrap();

    if let Some(repo_lint::config::LayoutNode::Dir { children, .. }) = &config.layout {
        if let Some(repo_lint::config::LayoutNode::Dir { max_depth, .. }) =
            children.get("components")
        {
            assert_eq!(*max_depth, Some(2));
        }
    }
}

#[test]
fn test_file_with_case() {
    let config = r#"
import { defineConfig, directory, file, many } from "@rikalabs/repo-lint";

export default defineConfig({
    layout: directory({
        hooks: directory({
            $hook: many(file({ pattern: "use-*.ts", case: "kebab" })),
        }),
    }),
});
"#;
    let result = parse_config_text(config, "repo-lint.config.ts");
    assert!(result.is_ok());
    let config = result.unwrap();

    if let Some(repo_lint::config::LayoutNode::Dir { children, .. }) = &config.layout {
        if let Some(repo_lint::config::LayoutNode::Dir {
            children: hooks_children,
            ..
        }) = children.get("hooks")
        {
            if let Some(repo_lint::config::LayoutNode::Many { child, .. }) =
                hooks_children.get("$hook")
            {
                if let repo_lint::config::LayoutNode::File { case, pattern, .. } = child.as_ref() {
                    assert_eq!(*case, Some(repo_lint::config::CaseStyle::Kebab));
                    assert_eq!(*pattern, Some("use-*.ts".to_string()));
                }
            }
        }
    }
}

#[test]
fn test_many_with_max() {
    let config = r#"
import { defineConfig, directory, file, many } from "@rikalabs/repo-lint";

export default defineConfig({
    layout: directory({
        components: directory({
            $component: many({ max: 20 }, file("*.tsx")),
        }),
    }),
});
"#;
    let result = parse_config_text(config, "repo-lint.config.ts");
    assert!(result.is_ok());
    let config = result.unwrap();

    if let Some(repo_lint::config::LayoutNode::Dir { children, .. }) = &config.layout {
        if let Some(repo_lint::config::LayoutNode::Dir {
            children: comp_children,
            ..
        }) = children.get("components")
        {
            if let Some(repo_lint::config::LayoutNode::Many { max, .. }) =
                comp_children.get("$component")
            {
                assert_eq!(*max, Some(20));
            }
        }
    }
}

#[test]
fn test_dependencies_config() {
    let config = r#"
import { defineConfig, directory, file } from "@rikalabs/repo-lint";

export default defineConfig({
    layout: directory({}),
    dependencies: {
        "src/modules/*/service.ts": "tests/modules/*/service.test.ts",
    },
});
"#;
    let result = parse_config_text(config, "repo-lint.config.ts");
    assert!(result.is_ok());
    let config = result.unwrap();

    assert_eq!(config.dependencies.len(), 1);
    assert_eq!(
        config.dependencies.iter().find(|(k, _)| k == "src/modules/*/service.ts").map(|(_, v)| v),
        Some(&"tests/modules/*/service.test.ts".to_string())
    );
}

#[test]
fn test_mirror_config() {
    let config = r#"
import { defineConfig, directory, file } from "@rikalabs/repo-lint";

export default defineConfig({
    layout: directory({}),
    mirror: [
        {
            source: "src/modules/*",
            target: "tests/modules/*",
            pattern: "*.ts -> *.test.ts",
        },
    ],
});
"#;
    let result = parse_config_text(config, "repo-lint.config.ts");
    assert!(result.is_ok());
    let config = result.unwrap();

    assert_eq!(config.mirror.len(), 1);
    assert_eq!(config.mirror[0].source, "src/modules/*");
    assert_eq!(config.mirror[0].target, "tests/modules/*");
    assert_eq!(config.mirror[0].pattern, "*.ts -> *.test.ts");
}

#[test]
fn test_when_config() {
    let config = r#"
import { defineConfig, directory, file } from "@rikalabs/repo-lint";

export default defineConfig({
    layout: directory({}),
    when: {
        "controller.ts": { requires: ["model.ts", "service.ts"] },
    },
});
"#;
    let result = parse_config_text(config, "repo-lint.config.ts");
    assert!(result.is_ok());
    let config = result.unwrap();

    assert_eq!(config.when.len(), 1);
    let req = config.when.iter().find(|(k, _)| k == "controller.ts").map(|(_, r)| r).unwrap();
    assert_eq!(req.requires, vec!["model.ts", "service.ts"]);
}

#[test]
fn test_combined_features() {
    let config = r#"
import { defineConfig, directory, file, optional, required, many } from "@rikalabs/repo-lint";

export default defineConfig({
    layout: directory({
        src: required(directory({
            hooks: optional(directory({
                $hook: many(file({ pattern: "use-*.ts", case: "kebab" })),
            }, { strict: true, maxDepth: 2 })),
        })),
        "package.json": required(file()),
        "README.md": optional(file()),
    }),
    dependencies: {
        "src/**/*.ts": "tests/**/*.test.ts",
    },
    when: {
        "service.ts": { requires: ["service.test.ts"] },
    },
});
"#;
    let result = parse_config_text(config, "repo-lint.config.ts");
    assert!(result.is_ok());
}
