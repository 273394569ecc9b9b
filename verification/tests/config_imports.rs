use repo_lint::config::parser::{extract_config, module_exports, ModuleExports};
use repo_lint::config::syntax::{import_sources, read_module};
use repo_lint::config::{CaseStyle, ConfigIR, ConfigModule, LayoutNode, Mode, ParseError};
use repo_lint::engine::{LayoutMatcher, MatchResult};

/// What each item of `m` imports: the exports given for its source, none
/// where none is given (as for the library's own package).
fn deps_for(m: &ConfigModule, config_module: bool, mut known: Vec<(&str, ModuleExports)>) -> Vec<Option<ModuleExports>> {
    import_sources(m, config_module)
        .into_iter()
        .map(|source| {
            let source = source?;
            let i = known.iter().position(|(k, _)| *k == source)?;
            Some(known.remove(i).1)
        })
        .collect()
}

/// The exports of an imported module's text.
fn exports_of(text: &str, known: Vec<(&str, ModuleExports)>) -> ModuleExports {
    let m = read_module(text, "module.ts", false).unwrap();
    let deps = deps_for(&m, false, known);
    module_exports(&m, &deps)
}

/// The configuration a configuration file's text gives.
fn config_of(text: &str, known: Vec<(&str, ModuleExports)>) -> Result<ConfigIR, ParseError> {
    let m = read_module(text, "repo-lint.config.ts", true)?;
    let deps = deps_for(&m, true, known);
    extract_config(&m, &deps)
}

#[test]
fn test_imported_layout_can_reference_imported_nested_directory_helpers() {
    let feature = exports_of(
        r#"
import { directory, file } from "repo-lint";

export const featureModule = directory({
  asset: directory({
    components: directory({
      "index.ts": file(),
    }),
  }),
});
"#,
        vec![],
    );
    let nextjs = exports_of(
        r#"
import { directory, param } from "repo-lint";
import { featureModule } from "./feature";

export const nextjsAppLayout = directory({
  features: directory({
    $domain: param({ case: "kebab" }, featureModule),
  }),
});
"#,
        vec![("./feature", feature)],
    );
    let ir = config_of(
        r#"
import { defineConfig } from "repo-lint";
import { nextjsAppLayout } from "./packages/config/repo-lint/nextjs";

export default defineConfig({
  layout: nextjsAppLayout,
});
"#,
        vec![("./packages/config/repo-lint/nextjs", nextjs)],
    )
    .unwrap();
    let layout = ir.layout.unwrap();

    // Assert: features/$domain(param)/asset/components exists (i.e., nested directory helpers were evaluated).
    let LayoutNode::Dir { children, .. } = layout else {
        panic!("expected root dir");
    };
    let LayoutNode::Dir { children, .. } = children.get("features").unwrap() else {
        panic!("expected features dir");
    };
    let LayoutNode::Param { child, .. } = children.get("$domain").unwrap() else {
        panic!("expected $domain param");
    };
    let LayoutNode::Dir { children, .. } = child.as_ref() else {
        panic!("expected param child dir");
    };
    let LayoutNode::Dir { children, .. } = children.get("asset").unwrap() else {
        panic!("expected asset dir");
    };
    assert!(children.get("components").is_some());
}

#[test]
fn test_when_can_be_imported_from_module() {
    let conds = exports_of(
        r#"
export const elysiaWhenConditions = {
  "src/index.ts": { requires: ["src/app.ts"] },
};
"#,
        vec![],
    );
    let ir = config_of(
        r#"
import { defineConfig, dir } from "repo-lint";
import { elysiaWhenConditions } from "./conds";

export default defineConfig({
  layout: dir({}),
  when: elysiaWhenConditions,
});
"#,
        vec![("./conds", conds)],
    )
    .unwrap();
    assert_eq!(
        ir.when.iter().find(|(k, _)| k == "src/index.ts").map(|(_, r)| r).unwrap().requires.as_slice(),
        &["src/app.ts"]
    );
}

#[test]
fn test_optional_imported_nested_layout_is_traversed_in_matching() {
    let shared = exports_of(
        r#"
import { directory, file, many, optional, param } from "repo-lint";

export const nested = directory({
  $file: many(file("*.ts")),
});

export const layout = directory({
  $domain: param({ case: "kebab" }, directory({
    subdir: optional(nested),
  })),
});
"#,
        vec![],
    );
    let ir = config_of(
        r#"
import { defineConfig } from "repo-lint";
import { layout } from "./shared";

export default defineConfig({
  layout,
});
"#,
        vec![("./shared", shared)],
    )
    .unwrap();
    let layout = ir.layout.unwrap();

    let matcher = LayoutMatcher::new(layout);
    let result = matcher.match_path("domain-name/subdir/file.ts");
    assert!(matches!(
        result,
        MatchResult::AllowedMany { .. }
            | MatchResult::AllowedParam { .. }
            | MatchResult::Allowed
    ));
}

#[test]
fn test_imported_layout_references_local_const_in_same_file() {
    let nextjs = exports_of(
        r#"
import { directory, param, file } from "repo-lint";

// LOCAL const (not exported!)
const featureModule = directory({
  components: directory({
    "index.ts": file(),
  }),
});

export const nextjsAppLayout = directory({
  features: directory({
    $domain: param({ case: "kebab" }, featureModule),
  }),
});
"#,
        vec![],
    );
    let ir = config_of(
        r#"
import { defineConfig } from "repo-lint";
import { nextjsAppLayout } from "./packages/config/repo-lint/nextjs";

export default defineConfig({
  layout: nextjsAppLayout,
});
"#,
        vec![("./packages/config/repo-lint/nextjs", nextjs)],
    )
    .unwrap();
    let layout = ir.layout.unwrap();

    // Assert: features/$domain(param)/components exists
    let LayoutNode::Dir { children, .. } = layout else {
        panic!("expected root dir");
    };
    let LayoutNode::Dir { children, .. } = children.get("features").unwrap() else {
        panic!("expected features dir");
    };
    let LayoutNode::Param { child, .. } = children.get("$domain").unwrap() else {
        panic!("expected $domain param");
    };
    let LayoutNode::Dir { children, .. } = child.as_ref() else {
        panic!("expected param child dir (featureModule)");
    };
    assert!(
        children.get("components").is_some(),
        "featureModule const was not resolved - components dir missing"
    );
}

#[test]
fn test_imported_layout_with_deeply_nested_local_consts() {
    let layouts = exports_of(
        r#"
import { directory, param, file, many } from "repo-lint";

// These are all LOCAL consts (not exported)
const fileNode = file("*.ts");

const componentsDir = directory({
  "index.ts": file(),
  $component: many(fileNode),
});

const featureModule = directory({
  components: componentsDir,
  hooks: directory({
    "index.ts": file(),
  }),
});

// Only this is exported
export const appLayout = directory({
  features: directory({
    $domain: param({ case: "kebab" }, featureModule),
  }),
});
"#,
        vec![],
    );
    let ir = config_of(
        r#"
import { defineConfig } from "repo-lint";
import { appLayout } from "./packages/config/layouts";

export default defineConfig({
  layout: appLayout,
});
"#,
        vec![("./packages/config/layouts", layouts)],
    )
    .unwrap();
    let layout = ir.layout.unwrap();

    // Verify the deeply nested structure was resolved
    let LayoutNode::Dir { children, .. } = layout else {
        panic!("expected root dir");
    };
    let LayoutNode::Dir { children, .. } = children.get("features").unwrap() else {
        panic!("expected features dir");
    };
    let LayoutNode::Param { child, .. } = children.get("$domain").unwrap() else {
        panic!("expected $domain param");
    };
    let LayoutNode::Dir { children, .. } = child.as_ref() else {
        panic!("expected featureModule dir");
    };

    // Check componentsDir was resolved
    let LayoutNode::Dir {
        children: comp_children,
        ..
    } = children.get("components").unwrap()
    else {
        panic!("expected components dir (componentsDir const)");
    };
    assert!(
        comp_children.get("index.ts").is_some(),
        "components should have index.ts"
    );
    assert!(
        comp_children.get("$component").is_some(),
        "components should have $component (fileNode const)"
    );

    // Check hooks was resolved
    assert!(
        children.get("hooks").is_some(),
        "featureModule should have hooks"
    );
}

#[test]
fn test_imported_layout_from_reexporting_module() {
    let base = exports_of(
        r#"
import { directory, file, param } from "repo-lint";

const routeContent = directory({
  "page.tsx": file(),
  "layout.tsx": file(),
});

export const baseLayout = directory({
  app: directory({
    $route: param({ case: "kebab" }, routeContent),
  }),
});
"#,
        vec![],
    );
    let index = exports_of(
        r#"
export { baseLayout } from "./base";
"#,
        vec![("./base", base)],
    );
    let ir = config_of(
        r#"
import { defineConfig } from "repo-lint";
import { baseLayout } from "./packages/config";

export default defineConfig({
  layout: baseLayout,
});
"#,
        vec![("./packages/config", index)],
    )
    .unwrap();
    let layout = ir.layout.unwrap();

    // Verify structure
    let LayoutNode::Dir { children, .. } = layout else {
        panic!("expected root dir");
    };
    let LayoutNode::Dir { children, .. } = children.get("app").unwrap() else {
        panic!("expected app dir");
    };
    let LayoutNode::Param { child, .. } = children.get("$route").unwrap() else {
        panic!("expected $route param");
    };
    let LayoutNode::Dir { children, .. } = child.as_ref() else {
        panic!("expected routeContent dir");
    };
    assert!(
        children.get("page.tsx").is_some(),
        "routeContent const should be resolved"
    );
    assert!(
        children.get("layout.tsx").is_some(),
        "routeContent const should be resolved"
    );
}

#[test]
fn test_imported_layout_with_brace_expansion_in_file() {
    let nextjs = exports_of(
        r#"
import { directory, param, file, many, optional } from "repo-lint";

const featureModule = directory({
  components: optional(directory({
    $f: many(file('*.{ts,tsx}')),
  })),
});

export const layout = directory({
  features: directory({
    $domain: param({ case: 'kebab' }, featureModule),
  }),
});
"#,
        vec![],
    );
    let ir = config_of(
        r#"
import { defineConfig } from "repo-lint";
import { layout } from "./packages/config/nextjs";

export default defineConfig({ layout });
"#,
        vec![("./packages/config/nextjs", nextjs)],
    )
    .unwrap();
    let layout_node = ir.layout.unwrap();

    // Navigate to features/$domain/components/$f
    let LayoutNode::Dir { children, .. } = layout_node else {
        panic!("expected root dir");
    };
    let LayoutNode::Dir { children, .. } = children.get("features").unwrap() else {
        panic!("expected features dir");
    };
    let LayoutNode::Param { child, .. } = children.get("$domain").unwrap() else {
        panic!("expected $domain param");
    };
    let LayoutNode::Dir { children, .. } = child.as_ref() else {
        panic!("expected featureModule dir");
    };
    let LayoutNode::Dir {
        children, optional, ..
    } = children.get("components").unwrap()
    else {
        panic!("expected components dir");
    };
    assert!(*optional, "components should be optional");

    let LayoutNode::Many { child, .. } = children.get("$f").unwrap() else {
        panic!("expected $f many");
    };
    let LayoutNode::File { pattern, .. } = child.as_ref() else {
        panic!("expected file node");
    };
    assert_eq!(
        pattern.as_deref(),
        Some("*.{ts,tsx}"),
        "file pattern should be preserved"
    );
}

#[test]
fn test_imported_layout_with_file_object_syntax() {
    let nextjs = exports_of(
        r#"
import { directory, param, file, many } from "repo-lint";

const featureModule = directory({
  components: directory({
    $f: many(file({ pattern: '*.ts', case: 'kebab' })),
  }),
});

export const layout = directory({
  features: directory({
    $domain: param({ case: 'kebab' }, featureModule),
  }),
});
"#,
        vec![],
    );
    let ir = config_of(
        r#"
import { defineConfig } from "repo-lint";
import { layout } from "./packages/config/nextjs";

export default defineConfig({ layout });
"#,
        vec![("./packages/config/nextjs", nextjs)],
    )
    .unwrap();
    let layout_node = ir.layout.unwrap();

    // Navigate to features/$domain/components/$f
    let LayoutNode::Dir { children, .. } = layout_node else {
        panic!("expected root dir");
    };
    let LayoutNode::Dir { children, .. } = children.get("features").unwrap() else {
        panic!("expected features dir");
    };
    let LayoutNode::Param { child, .. } = children.get("$domain").unwrap() else {
        panic!("expected $domain param");
    };
    let LayoutNode::Dir { children, .. } = child.as_ref() else {
        panic!("expected featureModule dir");
    };
    let LayoutNode::Dir { children, .. } = children.get("components").unwrap() else {
        panic!("expected components dir");
    };

    let LayoutNode::Many { child, .. } = children.get("$f").unwrap() else {
        panic!("expected $f many");
    };
    let LayoutNode::File { pattern, case, .. } = child.as_ref() else {
        panic!("expected file node");
    };
    assert_eq!(
        pattern.as_deref(),
        Some("*.ts"),
        "file pattern should be preserved"
    );
    assert!(
        matches!(case, Some(CaseStyle::Kebab)),
        "file case should be kebab"
    );
}


#[test]
fn test_extends_relative_path() {
    let base_config = r#"
import { defineConfig, dir, file } from "repo-lint";
export const sharedLayout = dir({ "README.md": file() });
export default defineConfig({
    mode: "warn",
    layout: sharedLayout,
    rules: { forbidPaths: ["**/tmp/**"] }
});
"#;
    let child_config = r#"
import { defineConfig, dir, file } from "repo-lint";
export default defineConfig({
    extends: "./base.config.ts",
    layout: dir({ "index.ts": file() }),
    rules: { forbidPaths: ["**/dist/**"] }
});
"#;
    let mut config = config_of(child_config, vec![]).unwrap();
    assert_eq!(config.extends.as_deref(), Some("./base.config.ts"));
    config.merge(config_of(base_config, vec![]).unwrap());

    assert_eq!(config.mode, Mode::Warn);
    assert_eq!(config.rules.forbid_paths.len(), 2);
    assert!(config.rules.forbid_paths.contains(&"**/tmp/**".to_string()));
    assert!(config.rules.forbid_paths.contains(&"**/dist/**".to_string()));
}

#[test]
fn test_extends_root_alias() {
    let root_config = r#"
import { defineConfig, dir, file } from "repo-lint";
export default defineConfig({
    mode: "warn",
    layout: dir({ "root.ts": file() }),
    rules: { forbidPaths: ["**/root/**"] }
});
"#;
    let child_config = r#"
import { defineConfig, dir, file } from "repo-lint";
export default defineConfig({
    extends: "@/repo-lint.config.ts",
    layout: dir({ "app.ts": file() }),
    rules: { forbidPaths: ["**/app/**"] }
});
"#;
    let mut config = config_of(child_config, vec![]).unwrap();
    assert_eq!(config.extends.as_deref(), Some("@/repo-lint.config.ts"));
    config.merge(config_of(root_config, vec![]).unwrap());

    assert_eq!(config.mode, Mode::Warn);
    assert_eq!(config.rules.forbid_paths.len(), 2);
    assert!(config.rules.forbid_paths.contains(&"**/root/**".to_string()));
    assert!(config.rules.forbid_paths.contains(&"**/app/**".to_string()));
}

#[test]
fn test_import_scoped_package() {
    let shared_config = r#"
import { dir, file } from "repo-lint";
export const baseLayout = dir({ "package.json": file() });
"#;
    let config_content = r#"
import { defineConfig, dir } from "repo-lint";
import { baseLayout } from "@intimetec/config/repo-lint/nextjs";

export default defineConfig({
    layout: dir({
        apps: dir({
            $app: baseLayout,
        })
    })
});
"#;
    let shared = exports_of(shared_config, vec![]);
    let config = config_of(config_content, vec![("@intimetec/config/repo-lint/nextjs", shared)]).unwrap();

    if let Some(LayoutNode::Dir { children, .. }) = &config.layout {
        assert!(children.get("apps").is_some());
    } else {
        panic!("Expected root to be a directory");
    }
}
