use esprit::graph::{build_graph, extract_dependencies, to_mermaid};

fn row(a: &str, b: &str, k: &str) -> (String, String, String) {
    (a.to_string(), b.to_string(), k.to_string())
}

#[test]
fn cargo_manifest_gives_rust_edges() {
    let toml = "[package]\nname = \"x\"\n\n[dependencies]\nserde = \"1\"\nanyhow = { version = \"1\" }\n\n[dev-dependencies]\ntempfile = \"3\"\n";
    let mut edges = extract_dependencies("Cargo.toml", "crates/x", toml);
    edges.sort();
    assert_eq!(
        edges,
        vec![
            row("crates/x", "anyhow", "rust_dependency"),
            row("crates/x", "serde", "rust_dependency"),
            row("crates/x", "tempfile", "rust_dev_dependency"),
        ]
    );
}

#[test]
fn package_json_gives_js_edges() {
    let json = r#"{"name":"web","dependencies":{"react":"^18"},"devDependencies":{"vite":"^5","jest":"^29"}}"#;
    let mut edges = extract_dependencies("package.json", "web", json);
    edges.sort();
    assert_eq!(
        edges,
        vec![
            row("web", "jest", "js_dev_dependency"),
            row("web", "react", "js_dependency"),
            row("web", "vite", "js_dev_dependency"),
        ]
    );
}

#[test]
fn other_files_and_broken_manifests_give_nothing() {
    assert!(extract_dependencies("README.md", "x", "[dependencies]\na = \"1\"").is_empty());
    assert!(extract_dependencies("Cargo.toml", "x", "this is [ not toml").is_empty());
    assert!(extract_dependencies("package.json", "x", "{ nope").is_empty());
    assert!(extract_dependencies("package.json", "x", "[1, 2]").is_empty());
}

#[test]
fn graph_has_one_node_per_name() {
    let rows = vec![row("a", "b", "rust_dependency"), row("a", "c", "rust_dependency"), row("c", "b", "js_dependency")];
    let gd = build_graph(&rows);
    assert_eq!(gd.graph.node_count(), 3);
    assert_eq!(gd.graph.edge_count(), 3);
}

#[test]
fn mermaid_lists_each_stored_edge() {
    let rows = vec![row("crates/my-lib", "serde", "rust_dependency"), row("web", "react.dom", "js_dev_dependency")];
    let out = to_mermaid(&build_graph(&rows));
    assert_eq!(
        out,
        "```mermaid\ngraph TD;\n    crates_my_lib[\"crates/my-lib\"] -->|\"rust dependency\"| serde[\"serde\"];\n    web[\"web\"] -->|\"js dev dependency\"| react_dom[\"react.dom\"];\n```\n"
    );
}

#[test]
fn empty_graph_renders_an_empty_diagram() {
    assert_eq!(to_mermaid(&build_graph(&[])), "```mermaid\ngraph TD;\n```\n");
}

#[test]
fn nodes_come_in_order_of_first_appearance() {
    let gd = build_graph(&[row("b", "a", "dep"), row("a", "c", "dev"), row("c", "b", "dep")]);
    let names: Vec<String> = gd.graph.node_weights().cloned().collect();
    assert_eq!(names, vec!["b".to_string(), "a".to_string(), "c".to_string()]);
}
