use repo_lint::config::parser::{empty_exports, extract_config, module_exports};
use repo_lint::config::{
    CaseStyle, ConfigExpr, ConfigModule, ConfigProp, ExprList, LayoutNode, Mode, SourceItem, ParseError, PropKey,
    PropList,
};

fn s(v: &str) -> ConfigExpr {
    ConfigExpr::Str { value: v.to_string(), line: 1, col: 0 }
}

fn n(v: usize) -> ConfigExpr {
    ConfigExpr::Num { value: v, line: 1, col: 0 }
}

fn b(v: bool) -> ConfigExpr {
    ConfigExpr::Bool { value: v, line: 1, col: 0 }
}

fn ident(name: &str) -> ConfigExpr {
    ConfigExpr::Ident { name: name.to_string() }
}

fn call(name: &str, args: Vec<ConfigExpr>) -> ConfigExpr {
    ConfigExpr::Call { callee: Some(name.to_string()), args: ExprList::from_vec(args), line: 2, col: 4 }
}

fn obj(props: Vec<(&str, ConfigExpr)>) -> ConfigExpr {
    let props = props
        .into_iter()
        .map(|(k, v)| ConfigProp::KeyValue { key: PropKey::Ident(k.to_string()), value: v })
        .collect();
    ConfigExpr::Object { props: PropList::from_vec(props), line: 3, col: 2 }
}

fn arr(elems: Vec<ConfigExpr>) -> ConfigExpr {
    ConfigExpr::Array { elems: ExprList::from_vec(elems) }
}

fn config_module(before: Vec<SourceItem>, config: ConfigExpr) -> ConfigModule {
    let mut items = vec![SourceItem::Import {
        source: "repo-lint".to_string(),
        specifiers: vec![("defineConfig".to_string(), "defineConfig".to_string())],
    }];
    items.extend(before);
    items.push(SourceItem::ExportDefault { expr: call("defineConfig", vec![config]) });
    ConfigModule { items }
}

fn no_deps(m: &ConfigModule) -> Vec<Option<repo_lint::config::parser::ModuleExports>> {
    m.items.iter().map(|_| None).collect()
}

#[test]
fn simple_config_reads_mode_layout_and_rules() {
    let m = config_module(
        vec![],
        obj(vec![
            ("mode", s("strict")),
            ("layout", call("dir", vec![obj(vec![("src", call("dir", vec![obj(vec![("index.ts", call("file", vec![]))])]))])])),
            ("rules", obj(vec![("forbidPaths", arr(vec![s("**/utils/**"), s("**/*.bak")])), ("forbidNames", arr(vec![s("temp")]))])),
        ]),
    );
    let c = extract_config(&m, &no_deps(&m)).unwrap();
    assert_eq!(c.mode, Mode::Strict);
    assert_eq!(c.rules.forbid_paths, vec!["**/utils/**".to_string(), "**/*.bak".to_string()]);
    assert_eq!(c.rules.forbid_names, vec!["temp".to_string()]);
    match c.layout {
        Some(LayoutNode::Dir { children, .. }) => match children.get("src") {
            Some(LayoutNode::Dir { children, .. }) => assert!(children.get("index.ts").is_some()),
            _ => panic!("expected src directory"),
        },
        _ => panic!("expected a directory layout"),
    }
}

#[test]
fn a_configuration_may_leave_out_the_layout() {
    let m = config_module(vec![], obj(vec![("mode", s("warn"))]));
    let c = extract_config(&m, &no_deps(&m)).unwrap();
    assert_eq!(c.mode, Mode::Warn);
    assert!(c.layout.is_none());
}

#[test]
fn an_unknown_mode_is_refused() {
    let m = config_module(vec![], obj(vec![("mode", s("loud"))]));
    match extract_config(&m, &no_deps(&m)) {
        Err(ParseError::InvalidValue { field, message }) => {
            assert_eq!(field, "mode");
            assert_eq!(message, "expected 'strict' or 'warn', got 'loud'");
        }
        other => panic!("unexpected {:?}", other),
    }
}

#[test]
fn a_module_without_a_default_export_is_refused() {
    let m = ConfigModule { items: vec![SourceItem::Other] };
    match extract_config(&m, &no_deps(&m)) {
        Err(e) => assert_eq!(e.to_string(), "Missing required field: export default defineConfig(...)"),
        Ok(_) => panic!("expected an error"),
    }
}

#[test]
fn variables_stand_for_their_values() {
    let shared = call("dir", vec![obj(vec![("index.ts", call("file", vec![]))])]);
    let m = config_module(
        vec![SourceItem::VarDecl { exported: false, decls: vec![("shared".to_string(), shared)] }],
        obj(vec![("layout", call("dir", vec![obj(vec![("lib", ident("shared"))])]))]),
    );
    let c = extract_config(&m, &no_deps(&m)).unwrap();
    match c.layout {
        Some(LayoutNode::Dir { children, .. }) => match children.get("lib") {
            Some(LayoutNode::Dir { children, .. }) => assert!(children.get("index.ts").is_some()),
            _ => panic!("expected lib directory"),
        },
        _ => panic!("expected a directory layout"),
    }
}

#[test]
fn an_unknown_variable_is_refused() {
    let m = config_module(vec![], obj(vec![("layout", call("dir", vec![obj(vec![("lib", ident("missing"))])]))]));
    match extract_config(&m, &no_deps(&m)) {
        Err(e) => assert_eq!(e.to_string(), "Unsupported expression at 0:0: Unknown variable: missing"),
        Ok(_) => panic!("expected an error"),
    }
}

#[test]
fn param_many_recursive_and_either_nodes() {
    let page = call("dir", vec![obj(vec![("page.tsx", call("file", vec![]))])]);
    let m = config_module(
        vec![],
        obj(vec![(
            "layout",
            call(
                "dir",
                vec![obj(vec![
                    ("$module", call("param", vec![obj(vec![("case", s("kebab"))]), call("dir", vec![obj(vec![])])])),
                    ("$hooks", call("many", vec![obj(vec![("case", s("camel")), ("max", n(3))]), call("file", vec![s("*.ts")])])),
                    (
                        "$routes",
                        call("recursive", vec![obj(vec![("maxDepth", n(4))]), call("param", vec![obj(vec![("case", s("kebab"))]), page])]),
                    ),
                    ("$either", call("either", vec![call("file", vec![s("*.md")]), call("dir", vec![obj(vec![])])])),
                ])],
            ),
        )]),
    );
    let c = extract_config(&m, &no_deps(&m)).unwrap();
    let children = match c.layout {
        Some(LayoutNode::Dir { children, .. }) => children,
        _ => panic!("expected a directory layout"),
    };
    assert!(matches!(children.get("$module"), Some(LayoutNode::Param { case: CaseStyle::Kebab, .. })));
    assert!(matches!(children.get("$hooks"), Some(LayoutNode::Many { case: Some(CaseStyle::Camel), max: Some(3), .. })));
    assert!(matches!(children.get("$routes"), Some(LayoutNode::Recursive { max_depth: 4, .. })));
    assert!(matches!(children.get("$either"), Some(LayoutNode::Either { .. })));
}

#[test]
fn an_unknown_case_style_is_refused() {
    let m = config_module(
        vec![],
        obj(vec![("layout", call("dir", vec![obj(vec![("$m", call("param", vec![obj(vec![("case", s("shouty"))]), call("file", vec![])]))])]))]),
    );
    match extract_config(&m, &no_deps(&m)) {
        Err(ParseError::InvalidValue { field, .. }) => assert_eq!(field, "case"),
        other => panic!("unexpected {:?}", other),
    }
}

#[test]
fn other_settings_are_read() {
    let m = config_module(
        vec![],
        obj(vec![
            ("ignore", arr(vec![s("dist")])),
            ("useGitignore", b(false)),
            ("workspaces", arr(vec![s("apps/*")])),
            ("extends", s("./base")),
            ("boundaries", obj(vec![("modules", s("src/*")), ("publicApi", s("src/*/index.ts")), ("forbidDeepImports", b(true))])),
        ]),
    );
    let c = extract_config(&m, &no_deps(&m)).unwrap();
    assert_eq!(c.ignore, vec!["dist".to_string()]);
    assert!(!c.use_gitignore);
    assert_eq!(c.workspaces, vec!["apps/*".to_string()]);
    assert_eq!(c.extends, Some("./base".to_string()));
    let bd = c.boundaries.unwrap();
    assert_eq!(bd.modules, "src/*");
    assert!(bd.forbid_deep_imports);
}

#[test]
fn imported_layouts_are_found_through_the_exporting_module() {
    let shared = SourceItem::VarDecl {
        exported: true,
        decls: vec![("base".to_string(), call("dir", vec![obj(vec![("a.ts", call("file", vec![]))])]))],
    };
    let lib = ConfigModule { items: vec![shared] };
    let exports = module_exports(&lib, &vec![None]);
    assert_eq!(exports.layouts.len(), 1);
    assert_eq!(exports.layouts[0].0, "base");

    let m = config_module(
        vec![SourceItem::Import {
            source: "./shared".to_string(),
            specifiers: vec![("mine".to_string(), "base".to_string())],
        }],
        obj(vec![("layout", call("dir", vec![obj(vec![("lib", ident("mine"))])]))]),
    );
    let mut deps = no_deps(&m);
    deps[1] = Some(exports);
    let c = extract_config(&m, &deps).unwrap();
    match c.layout {
        Some(LayoutNode::Dir { children, .. }) => assert!(matches!(children.get("lib"), Some(LayoutNode::Dir { .. }))),
        _ => panic!("expected a directory layout"),
    }
    assert!(empty_exports().layouts.is_empty());
}
