use kontemplate::context::resolve_context;
use kontemplate::errors::Error;
use kontemplate::templater::is_default_file;
use kontemplate::templater::render_context;
use kontemplate::templater::render_plan;
use kontemplate::templater::resource_from_rendered;
use kontemplate::templater::template_resource_set;
use kontemplate::templater::NodeFiles;
use kontemplate::templater::PathContents;
use kontemplate::templater::TemplateFile;
use kontemplate::types::ResourceSet;
use kontemplate::values::deep_copy_scope;
use kontemplate::values::merge;
use kontemplate::values::Entry;
use kontemplate::values::ScopeValue;
use kontemplate::values::ValueScope;

fn scope(entries: Vec<(&str, ScopeValue)>) -> ValueScope {
    ValueScope {
        entries: entries
            .into_iter()
            .map(|(k, v)| Entry { key: k.to_string(), value: v })
            .collect(),
    }
}

fn empty_scope() -> ValueScope {
    ValueScope { entries: Vec::new() }
}

fn rset(name: &str, path: &str, values: ValueScope, children: Vec<ResourceSet>) -> ResourceSet {
    ResourceSet {
        name: name.to_string(),
        path: path.to_string(),
        values,
        children,
        parent: String::new(),
    }
}

fn single_file(contents: &str, children: Vec<NodeFiles>) -> NodeFiles {
    NodeFiles { files: PathContents::SingleFile(contents.to_string()), children }
}

fn dir_files(files: Vec<(&str, &str)>, children: Vec<NodeFiles>) -> NodeFiles {
    NodeFiles {
        files: PathContents::Directory(
            files
                .into_iter()
                .map(|(n, c)| TemplateFile { name: n.to_string(), contents: c.to_string() })
                .collect(),
        ),
        children,
    }
}

#[test]
fn merge_disjoint_is_commutative_as_entry_set() {
    let a = || scope(vec![("a", ScopeValue::Int(1)), ("b", ScopeValue::Bool(true))]);
    let b = || scope(vec![("c", ScopeValue::Text("x".to_string())), ("d", ScopeValue::Null)]);
    let ab = merge(a(), b());
    let ba = merge(b(), a());
    assert_eq!(ab.entries.len(), 4);
    assert_eq!(ba.entries.len(), 4);
    for e in &ab.entries {
        assert!(ba.entries.contains(e));
    }
    for e in &ba.entries {
        assert!(ab.entries.contains(e));
    }
    // The orders differ, the entries do not.
    assert_ne!(ab.entries, ba.entries);
}

#[test]
fn merge_override_takes_overlay_value() {
    let a = scope(vec![("k", ScopeValue::Int(1))]);
    let b = scope(vec![("k", ScopeValue::Int(2))]);
    let m = merge(a, b);
    assert_eq!(m.entries.len(), 1);
    assert_eq!(m.entries[0].key, "k");
    assert_eq!(m.entries[0].value, ScopeValue::Int(2));
}

#[test]
fn merge_nested_mappings_recursively() {
    let a = scope(vec![("k", ScopeValue::Mapping(scope(vec![("x", ScopeValue::Int(1))])))]);
    let b = scope(vec![("k", ScopeValue::Mapping(scope(vec![("y", ScopeValue::Int(2))])))]);
    let m = merge(a, b);
    assert_eq!(m.entries.len(), 1);
    assert_eq!(
        m.entries[0].value,
        ScopeValue::Mapping(scope(vec![("x", ScopeValue::Int(1)), ("y", ScopeValue::Int(2))]))
    );
}

#[test]
fn merge_keeps_base_order_and_appends_new_keys() {
    let a = scope(vec![("a", ScopeValue::Int(1)), ("b", ScopeValue::Int(2))]);
    let b = scope(vec![("b", ScopeValue::Int(20)), ("c", ScopeValue::Int(3))]);
    let m = merge(a, b);
    let keys: Vec<&str> = m.entries.iter().map(|e| e.key.as_str()).collect();
    assert_eq!(keys, vec!["a", "b", "c"]);
    assert_eq!(m.entries[1].value, ScopeValue::Int(20));
}

#[test]
fn deep_copy_scope_is_equal_to_original() {
    let s = scope(vec![
        ("a", ScopeValue::Sequence(vec![ScopeValue::Int(1), ScopeValue::Text("t".to_string())])),
        ("b", ScopeValue::Mapping(scope(vec![("x", ScopeValue::Bool(false))]))),
    ]);
    assert_eq!(deep_copy_scope(&s), s);
}

#[test]
fn default_file_names_are_recognised() {
    assert!(is_default_file("default.yml"));
    assert!(is_default_file("default.yaml"));
    assert!(is_default_file("default.json"));
    assert!(!is_default_file("template.yml"));
    assert!(!is_default_file("default.toml"));
}

#[test]
fn empty_rendering_is_an_error() {
    let r = resource_from_rendered("f.yml".to_string(), String::new());
    assert_eq!(r, Err(Error::EmptyTemplate("f.yml".to_string())));
}

#[test]
fn nonempty_rendering_is_a_resource() {
    let r = resource_from_rendered("f.yml".to_string(), "out".to_string()).unwrap();
    assert_eq!(r.file_name, "f.yml");
    assert_eq!(r.rendered, "out");
}

#[test]
fn empty_context_is_rejected() {
    let r = resolve_context(
        "ctx".to_string(),
        empty_scope(),
        Vec::new(),
        Vec::new(),
        Vec::new(),
    );
    assert_eq!(r, Err(Error::EmptyContext));
}

#[test]
fn resolution_defaults_path_to_name() {
    let sets = vec![rset("app", "", empty_scope(), vec![])];
    let ctx = resolve_context("ctx".to_string(), empty_scope(), Vec::new(), Vec::new(), sets)
        .unwrap();
    assert_eq!(ctx.resource_sets[0].path, "app");
}

#[test]
fn resolution_keeps_declared_path() {
    let sets = vec![rset("app", "manifests/app", empty_scope(), vec![])];
    let ctx = resolve_context("ctx".to_string(), empty_scope(), Vec::new(), Vec::new(), sets)
        .unwrap();
    assert_eq!(ctx.resource_sets[0].path, "manifests/app");
}

#[test]
fn resolution_sets_dotted_parent_paths() {
    let grand = rset("cache", "", empty_scope(), vec![]);
    let child = rset("db", "", empty_scope(), vec![grand]);
    let top = rset("app", "", empty_scope(), vec![child]);
    let ctx = resolve_context(
        "prod".to_string(),
        empty_scope(),
        Vec::new(),
        Vec::new(),
        vec![top],
    )
    .unwrap();
    let top = &ctx.resource_sets[0];
    assert_eq!(top.parent, "prod");
    assert_eq!(top.children[0].parent, "prod.app");
    assert_eq!(top.children[0].children[0].parent, "prod.app.db");
}

#[test]
fn imports_merge_onto_global_in_listed_order() {
    let global = scope(vec![("k", ScopeValue::Int(1)), ("g", ScopeValue::Int(0))]);
    let first = scope(vec![("k", ScopeValue::Int(2))]);
    let second = scope(vec![("k", ScopeValue::Int(3)), ("i", ScopeValue::Int(9))]);
    let sets = vec![rset("app", "", empty_scope(), vec![])];
    let ctx = resolve_context(
        "ctx".to_string(),
        global,
        vec!["one.yml".to_string(), "two.yml".to_string()],
        vec![first, second],
        sets,
    )
    .unwrap();
    let expect = scope(vec![
        ("k", ScopeValue::Int(3)),
        ("g", ScopeValue::Int(0)),
        ("i", ScopeValue::Int(9)),
    ]);
    assert_eq!(ctx.global, expect);
    assert_eq!(ctx.imports, vec!["one.yml".to_string(), "two.yml".to_string()]);
}

#[test]
fn single_file_set_renders_one_resource_under_its_path() {
    let rs = rset("app", "manifests/app.yml", empty_scope(), vec![]);
    let files = single_file("kind: Deployment", vec![]);
    let out = template_resource_set(&rs, &files, &empty_scope()).unwrap();
    assert_eq!(out.name, "app");
    assert_eq!(out.resources.len(), 1);
    assert_eq!(out.resources[0].file_name, "manifests/app.yml");
    assert_eq!(out.resources[0].rendered, "kind: Deployment");
}

#[test]
fn variables_reach_the_template() {
    let rs = rset(
        "app",
        "app.yml",
        scope(vec![("name", ScopeValue::Text("svc".to_string()))]),
        vec![],
    );
    let files = single_file("name: {{ name }}", vec![]);
    let out = template_resource_set(&rs, &files, &empty_scope()).unwrap();
    assert_eq!(out.resources[0].rendered, "name: svc");
}

#[test]
fn rendering_transforms_its_input() {
    // A filter whose output differs from every input it is given: this
    // fails if the engine were to hand the template text back unchanged.
    let rs = rset(
        "app",
        "app.yml",
        scope(vec![("name", ScopeValue::Text("ab".to_string()))]),
        vec![],
    );
    let files = single_file("{{ name | upcase }}", vec![]);
    let out = template_resource_set(&rs, &files, &empty_scope()).unwrap();
    assert_eq!(out.resources[0].rendered, "AB");
}

#[test]
fn numbers_booleans_and_sequences_render() {
    let values = scope(vec![
        ("n", ScopeValue::Int(42)),
        ("flag", ScopeValue::Bool(true)),
        (
            "xs",
            ScopeValue::Sequence(vec![ScopeValue::Int(1), ScopeValue::Int(2)]),
        ),
    ]);
    let rs = rset("app", "app.yml", values, vec![]);
    let files = single_file("{{ n }};{% if flag %}y{% endif %};{{ xs | join: \",\" }}", vec![]);
    let out = template_resource_set(&rs, &files, &empty_scope()).unwrap();
    assert_eq!(out.resources[0].rendered, "42;y;1,2");
}

#[test]
fn nested_mapping_values_render() {
    let values = scope(vec![(
        "outer",
        ScopeValue::Mapping(scope(vec![("inner", ScopeValue::Int(5))])),
    )]);
    let rs = rset("app", "app.yml", values, vec![]);
    let files = single_file("{{ outer.inner }}", vec![]);
    let out = template_resource_set(&rs, &files, &empty_scope()).unwrap();
    assert_eq!(out.resources[0].rendered, "5");
}

#[test]
fn three_levels_of_ancestors_reach_the_leaf() {
    let leaf = rset("leaf", "leaf.yml", empty_scope(), vec![]);
    let grand = rset("grand", "grand", scope(vec![("c", ScopeValue::Int(3))]), vec![leaf]);
    let mid = rset("mid", "mid", scope(vec![("b", ScopeValue::Int(2))]), vec![grand]);
    let root = rset("root", "root", scope(vec![("a", ScopeValue::Int(1))]), vec![mid]);
    let files = dir_files(
        vec![],
        vec![dir_files(
            vec![],
            vec![dir_files(vec![], vec![single_file("{{ a }}{{ b }}{{ c }}", vec![])])],
        )],
    );
    let out = template_resource_set(&root, &files, &empty_scope()).unwrap();
    assert_eq!(out.resources.len(), 1);
    assert_eq!(out.resources[0].rendered, "123");
}

#[test]
fn closer_declarations_override_inherited_ones() {
    let child = rset("child", "c.yml", scope(vec![("v", ScopeValue::Int(2))]), vec![]);
    let root = rset("root", "root", scope(vec![("v", ScopeValue::Int(1))]), vec![child]);
    let files = dir_files(vec![], vec![single_file("{{ v }}", vec![])]);
    let out = template_resource_set(&root, &files, &empty_scope()).unwrap();
    assert_eq!(out.resources[0].rendered, "2");
}

#[test]
fn default_value_files_are_not_rendered() {
    let rs = rset("app", "dir", empty_scope(), vec![]);
    let files = dir_files(
        vec![
            ("template.yml", "x"),
            ("default.yaml", "never"),
            ("default.json", "never"),
        ],
        vec![],
    );
    let out = template_resource_set(&rs, &files, &empty_scope()).unwrap();
    assert_eq!(out.resources.len(), 1);
    assert_eq!(out.resources[0].file_name, "dir/template.yml");
    assert_eq!(out.resources[0].rendered, "x");
}

#[test]
fn directory_entries_render_in_enumeration_order() {
    let rs = rset("app", "dir", empty_scope(), vec![]);
    let files = dir_files(vec![("b.yml", "b"), ("a.yml", "a")], vec![]);
    let out = template_resource_set(&rs, &files, &empty_scope()).unwrap();
    let names: Vec<&str> = out.resources.iter().map(|r| r.file_name.as_str()).collect();
    assert_eq!(names, vec!["dir/b.yml", "dir/a.yml"]);
}

#[test]
fn children_render_after_own_files_in_declaration_order() {
    let b = rset("b", "b.yml", empty_scope(), vec![]);
    let a = rset("a", "a.yml", empty_scope(), vec![]);
    let root = rset("root", "root", empty_scope(), vec![b, a]);
    let mk_files = || {
        dir_files(
            vec![("own.yml", "o")],
            vec![single_file("from-b", vec![]), single_file("from-a", vec![])],
        )
    };
    let out1 = template_resource_set(&root, &mk_files(), &empty_scope()).unwrap();
    let rendered: Vec<&str> = out1.resources.iter().map(|r| r.rendered.as_str()).collect();
    assert_eq!(rendered, vec!["o", "from-b", "from-a"]);
    // A second run on identical input gives the identical report.
    let out2 = template_resource_set(&root, &mk_files(), &empty_scope()).unwrap();
    assert_eq!(out1, out2);
}

#[test]
fn empty_template_output_fails_with_the_file_name() {
    let rs = rset("app", "app.yml", empty_scope(), vec![]);
    let files = single_file("{% if false %}x{% endif %}", vec![]);
    let r = template_resource_set(&rs, &files, &empty_scope());
    assert_eq!(r, Err(Error::EmptyTemplate("app.yml".to_string())));
}

#[test]
fn an_unparsable_template_is_a_templating_error() {
    let rs = rset("app", "app.yml", empty_scope(), vec![]);
    let files = single_file("{% endif %}", vec![]);
    match template_resource_set(&rs, &files, &empty_scope()) {
        Err(Error::Templating { file_name, message: _ }) => {
            assert_eq!(file_name, "app.yml");
        }
        other => panic!("expected a templating error, got {:?}", other),
    }
}

#[test]
fn a_failing_file_aborts_the_remaining_siblings() {
    let rs = rset("app", "dir", empty_scope(), vec![]);
    let files = dir_files(
        vec![("a.yml", "fine"), ("b.yml", "{% if false %}x{% endif %}"), ("c.yml", "fine")],
        vec![],
    );
    let r = template_resource_set(&rs, &files, &empty_scope());
    assert_eq!(r, Err(Error::EmptyTemplate("dir/b.yml".to_string())));
}

#[test]
fn the_context_global_scope_reaches_every_set() {
    let rs = rset("app", "app.yml", empty_scope(), vec![]);
    let files = single_file("{{ region }}", vec![]);
    let global = scope(vec![("region", ScopeValue::Text("eu".to_string()))]);
    let out = template_resource_set(&rs, &files, &global).unwrap();
    assert_eq!(out.resources[0].rendered, "eu");
}

#[test]
fn a_whole_context_renders_set_by_set_in_order() {
    let first = rset("svc", "svc.yml", scope(vec![("n", ScopeValue::Int(1))]), vec![]);
    let second = rset("db", "db.yml", scope(vec![("n", ScopeValue::Int(2))]), vec![]);
    let ctx = resolve_context(
        "prod".to_string(),
        scope(vec![("region", ScopeValue::Text("eu".to_string()))]),
        Vec::new(),
        Vec::new(),
        vec![first, second],
    )
    .unwrap();
    let forest = vec![
        single_file("{{ region }}{{ n }}", vec![]),
        single_file("{{ region }}{{ n }}", vec![]),
    ];
    let outs = render_context(&ctx, &forest).unwrap();
    assert_eq!(outs.len(), 2);
    assert_eq!(outs[0].name, "svc");
    assert_eq!(outs[0].resources[0].rendered, "eu1");
    assert_eq!(outs[1].name, "db");
    assert_eq!(outs[1].resources[0].rendered, "eu2");
}

#[test]
fn the_plan_hands_the_leaf_the_merged_scope() {
    let leaf = rset("leaf", "leaf.yml", empty_scope(), vec![]);
    let grand = rset("grand", "grand", scope(vec![("c", ScopeValue::Int(3))]), vec![leaf]);
    let mid = rset("mid", "mid", scope(vec![("b", ScopeValue::Int(2))]), vec![grand]);
    let root = rset("root", "root", scope(vec![("a", ScopeValue::Int(1))]), vec![mid]);
    let files = dir_files(
        vec![],
        vec![dir_files(vec![], vec![dir_files(vec![], vec![single_file("x", vec![])])])],
    );
    let plan = render_plan(&root, &files, &empty_scope());
    assert_eq!(plan.len(), 1);
    assert_eq!(plan[0].file_name, "leaf.yml");
    assert_eq!(plan[0].contents, "x");
    assert_eq!(
        plan[0].scope,
        scope(vec![
            ("a", ScopeValue::Int(1)),
            ("b", ScopeValue::Int(2)),
            ("c", ScopeValue::Int(3)),
        ])
    );
}

#[test]
fn the_plan_skips_default_files_and_keeps_order() {
    let rs = rset("app", "dir", empty_scope(), vec![]);
    let files = dir_files(
        vec![
            ("b.yml", "b"),
            ("default.yaml", "never"),
            ("a.yml", "a"),
            ("default.json", "never"),
        ],
        vec![],
    );
    let plan = render_plan(&rs, &files, &empty_scope());
    let names: Vec<&str> = plan.iter().map(|j| j.file_name.as_str()).collect();
    assert_eq!(names, vec!["dir/b.yml", "dir/a.yml"]);
}

#[test]
fn a_set_with_nothing_to_render_succeeds() {
    let rs = rset("app", "dir", empty_scope(), vec![]);
    let files = dir_files(vec![("default.yaml", "seed"), ("default.json", "seed")], vec![]);
    let out = template_resource_set(&rs, &files, &empty_scope()).unwrap();
    assert_eq!(out.name, "app");
    assert!(out.resources.is_empty());
}
