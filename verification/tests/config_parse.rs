use repo_lint::config::syntax::parse_config_text;
use repo_lint::config::{LayoutNode, Mode};

#[test]
fn test_parse_simple_config() {
    let config = r#"
import { defineConfig, dir, file } from "repo-lint";

export default defineConfig({
    mode: "strict",
    layout: dir({
        src: dir({
            "index.ts": file(),
        }),
    }),
});
"#;
    let result = parse_config_text(config, "test.ts");
    assert!(result.is_ok());
    let ir = result.unwrap();
    assert_eq!(ir.mode, Mode::Strict);
}

#[test]
fn test_parse_with_rules() {
    let config = r#"
import { defineConfig, dir, file } from "repo-lint";

export default defineConfig({
    layout: dir({}),
    rules: {
        forbidPaths: ["**/utils/**", "**/*.bak"],
        forbidNames: ["temp", "test"],
    },
});
"#;
    let result = parse_config_text(config, "test.ts");
    assert!(result.is_ok());
    let ir = result.unwrap();
    assert_eq!(ir.rules.forbid_paths.len(), 2);
    assert_eq!(ir.rules.forbid_names.len(), 2);
}

#[test]
fn test_parse_with_param() {
    let config = r#"
import { defineConfig, dir, file, param } from "repo-lint";

export default defineConfig({
    layout: dir({
        modules: dir({
            $module: param({ case: "kebab" }, dir({
                "index.ts": file(),
            })),
        }),
    }),
});
"#;
    let result = parse_config_text(config, "test.ts");
    assert!(result.is_ok());
}

#[test]
fn test_parse_missing_layout() {
    let config = r#"
export default defineConfig({
    mode: "strict",
});
"#;
    let result = parse_config_text(config, "test.ts");
    assert!(result.is_ok());
}

#[test]
fn test_parse_with_boundaries() {
    let config = r#"
import { defineConfig, dir } from "repo-lint";

export default defineConfig({
    layout: dir({}),
    boundaries: {
        modules: "src/services/*",
        publicApi: "src/services/*/api/index.ts",
        forbidDeepImports: true,
    },
});
"#;
    let result = parse_config_text(config, "test.ts");
    assert!(result.is_ok());
    let ir = result.unwrap();
    assert!(ir.boundaries.is_some());
    let boundaries = ir.boundaries.unwrap();
    assert_eq!(boundaries.modules, "src/services/*");
    assert!(boundaries.forbid_deep_imports);
}

#[test]
fn test_parse_with_deps() {
    let config = r#"
import { defineConfig, dir } from "repo-lint";

export default defineConfig({
    layout: dir({}),
    deps: {
        allow: [
            { from: "src/api/**", to: ["src/domain/**"] },
            { from: "src/domain/**", to: [] },
        ],
    },
});
"#;
    let result = parse_config_text(config, "test.ts");
    assert!(result.is_ok());
    let ir = result.unwrap();
    assert!(ir.deps.is_some());
    let deps = ir.deps.unwrap();
    assert_eq!(deps.allow.len(), 2);
}

#[test]
fn test_parse_with_optional() {
    let config = r#"
import { defineConfig, dir, file, opt } from "repo-lint";

export default defineConfig({
    layout: dir({
        src: dir({}),
        tests: opt(dir({})),
        "README.md": opt(file()),
    }),
});
"#;
    let result = parse_config_text(config, "test.ts");
    assert!(result.is_ok());
}

#[test]
fn test_parse_with_many() {
    let config = r#"
import { defineConfig, dir, file, many } from "repo-lint";

export default defineConfig({
    layout: dir({
        routes: dir({
            $route: many({ case: "kebab" }, dir({
                "index.ts": file(),
            })),
        }),
    }),
});
"#;
    let result = parse_config_text(config, "test.ts");
    assert!(result.is_ok());
}

#[test]
fn test_parse_warn_mode() {
    let config = r#"
import { defineConfig, dir } from "repo-lint";

export default defineConfig({
    mode: "warn",
    layout: dir({}),
});
"#;
    let result = parse_config_text(config, "test.ts");
    assert!(result.is_ok());
    let ir = result.unwrap();
    assert_eq!(ir.mode, Mode::Warn);
}

#[test]
fn test_parse_invalid_mode() {
    let config = r#"
import { defineConfig, dir } from "repo-lint";

export default defineConfig({
    mode: "invalid",
    layout: dir({}),
});
"#;
    let result = parse_config_text(config, "test.ts");
    assert!(result.is_err());
}

#[test]
fn parser_test_parse_file_with_pattern() {
    let config = r#"
import { defineConfig, dir, file } from "repo-lint";

export default defineConfig({
    layout: dir({
        $any: file("*.ts"),
    }),
});
"#;
    let result = parse_config_text(config, "test.ts");
    assert!(result.is_ok());
}

#[test]
fn test_parser_default() {
    let config = r#"
import { defineConfig, dir } from "repo-lint";
export default defineConfig({ layout: dir({}) });
"#;
    let result = parse_config_text(config, "test.ts");
    assert!(result.is_ok());
}

#[test]
fn test_parse_with_recursive() {
    let config = r#"
import { defineConfig, dir, file, param, recursive } from "repo-lint";

export default defineConfig({
    layout: dir({
        app: dir({
            $routes: recursive(param({ case: "kebab" }, dir({
                "page.tsx": file(),
            }))),
        }),
    }),
});
"#;
    let result = parse_config_text(config, "test.ts");
    assert!(result.is_ok());
    let ir = result.unwrap();
    if let Some(LayoutNode::Dir { children, .. }) = &ir.layout {
        if let Some(LayoutNode::Dir {
            children: app_children,
            ..
        }) = children.get("app")
        {
            assert!(app_children.get("$routes").is_some());
            if let Some(LayoutNode::Recursive { max_depth, .. }) = app_children.get("$routes") {
                assert_eq!(*max_depth, 10);
            }
        }
    }
}

#[test]
fn test_parse_with_recursive_custom_depth() {
    let config = r#"
import { defineConfig, dir, file, param, recursive } from "repo-lint";

export default defineConfig({
    layout: dir({
        app: dir({
            $routes: recursive({ maxDepth: 5 }, param({ case: "kebab" }, dir({
                "page.tsx": file(),
            }))),
        }),
    }),
});
"#;
    let result = parse_config_text(config, "test.ts");
    assert!(result.is_ok());
    let ir = result.unwrap();
    if let Some(LayoutNode::Dir { children, .. }) = &ir.layout {
        if let Some(LayoutNode::Dir {
            children: app_children,
            ..
        }) = children.get("app")
        {
            if let Some(LayoutNode::Recursive { max_depth, .. }) = app_children.get("$routes") {
                assert_eq!(*max_depth, 5);
            }
        }
    }
}

#[test]
fn test_parse_with_either() {
    let config = r#"
import { defineConfig, dir, file, either } from "repo-lint";

export default defineConfig({
    layout: dir({
        routes: dir({
            $segment: either(
                file("page.tsx"),
                dir({ "index.ts": file() }),
            ),
        }),
    }),
});
"#;
    let result = parse_config_text(config, "test.ts");
    assert!(result.is_ok());
    let ir = result.unwrap();
    if let Some(LayoutNode::Dir { children, .. }) = &ir.layout {
        if let Some(LayoutNode::Dir {
            children: routes_children,
            ..
        }) = children.get("routes")
        {
            if let Some(LayoutNode::Either { variants }) = routes_children.get("$segment") {
                assert_eq!(variants.len(), 2);
            }
        }
    }
}

#[test]
fn test_parse_with_ignore_config() {
    let config = r#"
import { defineConfig, dir } from "repo-lint";

export default defineConfig({
    layout: dir({}),
    ignore: [".git", "node_modules", ".next"],
    useGitignore: false,
});
"#;
    let result = parse_config_text(config, "test.ts");
    assert!(result.is_ok());
    let ir = result.unwrap();
    assert_eq!(ir.ignore, vec![".git", "node_modules", ".next"]);
    assert!(!ir.use_gitignore);
}

#[test]
fn test_parse_with_ignore_paths_rule() {
    let config = r#"
import { defineConfig, dir } from "repo-lint";

export default defineConfig({
    layout: dir({}),
    rules: {
        ignorePaths: ["**/node_modules/**", "**/.turbo/**"],
        forbidPaths: ["**/utils/**"],
    },
});
"#;
    let result = parse_config_text(config, "test.ts");
    assert!(result.is_ok());
    let ir = result.unwrap();
    assert_eq!(
        ir.rules.ignore_paths,
        vec!["**/node_modules/**", "**/.turbo/**"]
    );
    assert_eq!(ir.rules.forbid_paths, vec!["**/utils/**"]);
}

#[test]
fn test_directory_children_support_shorthand_values() {
    let config = r#"
import { defineConfig, directory, file } from "repo-lint";

const leaf = directory({
  "index.ts": file(),
});

export default defineConfig({
  layout: directory({
    src: leaf,
  }),
});
"#;

    let ir = parse_config_text(config, "test.ts").unwrap();
    let Some(LayoutNode::Dir { children, .. }) = ir.layout else {
        panic!("expected layout");
    };
    let LayoutNode::Dir { children, .. } = children.get("src").unwrap() else {
        panic!("expected src to be a dir");
    };
    assert!(children.get("index.ts").is_some());
}
