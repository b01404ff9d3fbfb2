//! The dependency graph of a project: edges read from manifests, the graph
//! built from stored edges, and its Mermaid rendering.

use vstd::prelude::*;
use crate::text::{chars_of, push_char, push_str, str_eq};

verus! {

#[verifier::external_type_specification]
#[verifier::external_body]
#[verifier::reject_recursive_types(N)]
#[verifier::reject_recursive_types(E)]
#[verifier::reject_recursive_types(Ty)]
#[verifier::reject_recursive_types(Ix)]
pub struct ExGraph<N, E, Ty, Ix>(petgraph::graph::Graph<N, E, Ty, Ix>);

#[verifier::external_type_specification]
#[verifier::external_body]
pub struct ExDirected(petgraph::Directed);

/// A directed graph with named nodes and labelled edges.
pub type DepGraph = petgraph::graph::Graph<String, String, petgraph::Directed, u32>;

/// The node weights of a graph, by node index.
pub uninterp spec fn graph_nodes(g: DepGraph) -> Seq<Seq<char>>;

/// The edges of a graph, by edge index: source index, target index, weight.
pub uninterp spec fn graph_edges(g: DepGraph) -> Seq<(nat, nat, Seq<char>)>;

/// `Graph::new`: a graph without nodes or edges.
#[verifier::external_body]
fn graph_new() -> (g: DepGraph)
    ensures
        graph_nodes(g) == Seq::<Seq<char>>::empty(),
        graph_edges(g) == Seq::<(nat, nat, Seq<char>)>::empty(),
{
    petgraph::graph::Graph::new()
}

/// `Graph::add_node`: appends a node; its index is the former node count.
/// Index `u32::MAX` is reserved, so the graph must hold fewer nodes.
#[verifier::external_body]
fn graph_add_node(g: &mut DepGraph, weight: String) -> (ix: u32)
    requires
        graph_nodes(*old(g)).len() < u32::MAX,
    ensures
        ix == graph_nodes(*old(g)).len(),
        graph_nodes(*final(g)) == graph_nodes(*old(g)).push(weight@),
        graph_edges(*final(g)) == graph_edges(*old(g)),
{
    g.add_node(weight).index() as u32
}

/// `Graph::add_edge`: appends an edge from `a` to `b`; both must exist.
#[verifier::external_body]
fn graph_add_edge(g: &mut DepGraph, a: u32, b: u32, weight: String)
    requires
        a < graph_nodes(*old(g)).len(),
        b < graph_nodes(*old(g)).len(),
        graph_edges(*old(g)).len() < u32::MAX,
    ensures
        graph_nodes(*final(g)) == graph_nodes(*old(g)),
        graph_edges(*final(g)) == graph_edges(*old(g)).push((a as nat, b as nat, weight@)),
{
    g.add_edge(petgraph::graph::NodeIndex::new(a as usize), petgraph::graph::NodeIndex::new(b as usize), weight);
}

/// `Graph::edge_count`.
#[verifier::external_body]
fn graph_edge_count(g: &DepGraph) -> (n: usize)
    ensures
        n == graph_edges(*g).len(),
{
    g.edge_count()
}

/// `Graph::node_weight`, cloned: the weight of an existing node.
#[verifier::external_body]
fn graph_node(g: &DepGraph, i: usize) -> (w: String)
    requires
        i < graph_nodes(*g).len(),
    ensures
        w@ == graph_nodes(*g)[i as int],
{
    g.node_weight(petgraph::graph::NodeIndex::new(i)).unwrap().clone()
}

/// `Graph::edge_endpoints` and `Graph::edge_weight` of an existing edge.
/// Both endpoints are nodes of the graph: `add_edge` panics on a missing
/// node, and removing a node removes its edges.
#[verifier::external_body]
fn graph_edge(g: &DepGraph, i: usize) -> (e: (usize, usize, String))
    requires
        i < graph_edges(*g).len(),
    ensures
        e.0 < graph_nodes(*g).len(),
        e.1 < graph_nodes(*g).len(),
        e.0 == graph_edges(*g)[i as int].0,
        e.1 == graph_edges(*g)[i as int].1,
        e.2@ == graph_edges(*g)[i as int].2,
{
    let ix = petgraph::graph::EdgeIndex::new(i);
    let (a, b) = g.edge_endpoints(ix).unwrap();
    (a.index(), b.index(), g.edge_weight(ix).unwrap().clone())
}

/// The keys of the table named `section` in the TOML document `content`:
/// `None` when `content` is not a TOML document, an empty sequence when it
/// has no table of that name.
pub uninterp spec fn toml_section_keys(content: Seq<char>, section: Seq<char>) -> Option<Seq<Seq<char>>>;

/// The keys of the object member named `section` of the JSON value `content`:
/// `None` when `content` is not JSON, an empty sequence when it has no object
/// member of that name.
pub uninterp spec fn json_section_keys(content: Seq<char>, section: Seq<char>) -> Option<Seq<Seq<char>>>;

/// `toml::from_str::<toml::Table>`, then `get(section)`, `as_table` and the
/// keys of that table. The result is named by [`toml_section_keys`]; the keys
/// of a table are distinct. Their order (sorted, or as written, by the
/// crate's features) is left unsaid.
#[verifier::external_body]
fn parse_toml_section_keys(content: &str, section: &str) -> (r: Option<Vec<String>>)
    ensures
        match r {
            Some(v) => toml_section_keys(content@, section@) == Some(crate::text::views(v@))
                && crate::text::views(v@).no_duplicates(),
            None => toml_section_keys(content@, section@) == None::<Seq<Seq<char>>>,
        },
{
    match toml::from_str::<toml::Table>(content) {
        Err(_) => None,
        Ok(t) => Some(match t.get(section).and_then(|d| d.as_table()) {
            Some(deps) => deps.keys().cloned().collect(),
            None => Vec::new(),
        }),
    }
}

/// `serde_json::from_str::<serde_json::Value>`, then `get(section)`,
/// `as_object` and the keys of that object. The result is named by
/// [`json_section_keys`]; the keys of an object are distinct. Their order is
/// left unsaid.
#[verifier::external_body]
fn parse_json_section_keys(content: &str, section: &str) -> (r: Option<Vec<String>>)
    ensures
        match r {
            Some(v) => json_section_keys(content@, section@) == Some(crate::text::views(v@))
                && crate::text::views(v@).no_duplicates(),
            None => json_section_keys(content@, section@) == None::<Seq<Seq<char>>>,
        },
{
    match serde_json::from_str::<serde_json::Value>(content) {
        Err(_) => None,
        Ok(v) => Some(match v.get(section).and_then(|d| d.as_object()) {
            Some(deps) => deps.keys().cloned().collect(),
            None => Vec::new(),
        }),
    }
}

/// One edge per dependency name: from `parent` to the name, of kind `kind`.
/// A manifest that did not parse gives none.
pub open spec fn dependency_rows(parent: Seq<char>, names: Option<Seq<Seq<char>>>, kind: Seq<char>) -> Seq<(Seq<char>, Seq<char>, Seq<char>)> {
    match names {
        Some(ns) => ns.map_values(|n: Seq<char>| (parent, n, kind)),
        None => Seq::empty(),
    }
}

/// The edges of the manifest named `file_name` in directory `parent` whose
/// text is `content`: a `Cargo.toml` gives its `dependencies` and
/// `dev-dependencies`, a `package.json` its `dependencies` and
/// `devDependencies`; any other file gives none.
pub open spec fn manifest_rows(file_name: Seq<char>, parent: Seq<char>, content: Seq<char>) -> Seq<(Seq<char>, Seq<char>, Seq<char>)> {
    if file_name == "Cargo.toml"@ {
        dependency_rows(parent, toml_section_keys(content, "dependencies"@), "rust_dependency"@)
            + dependency_rows(parent, toml_section_keys(content, "dev-dependencies"@), "rust_dev_dependency"@)
    } else if file_name == "package.json"@ {
        dependency_rows(parent, json_section_keys(content, "dependencies"@), "js_dependency"@)
            + dependency_rows(parent, json_section_keys(content, "devDependencies"@), "js_dev_dependency"@)
    } else {
        Seq::empty()
    }
}

/// How many names a parsed section holds; none when the manifest did not parse.
pub open spec fn section_len(names: Option<Seq<Seq<char>>>) -> nat {
    match names {
        Some(ns) => ns.len(),
        None => 0,
    }
}

/// The edges of a manifest are one per dependency and one per development
/// dependency, whatever the other section holds: for a `Cargo.toml` (a
/// `package.json`), first one edge `(parent, name, "rust_dependency")`
/// (`"js_dependency"`) for each key of its `dependencies` section, in
/// order, then one edge `(parent, name, "rust_dev_dependency")`
/// (`"js_dev_dependency"`) for each key of its `dev-dependencies`
/// (`devDependencies`) section, in order, and nothing else.
pub proof fn manifest_edges_are_its_sections(file_name: Seq<char>, parent: Seq<char>, content: Seq<char>)
    ensures
        file_name == "Cargo.toml"@ ==> section_edges(manifest_rows(file_name, parent, content), parent,
            toml_section_keys(content, "dependencies"@), "rust_dependency"@,
            toml_section_keys(content, "dev-dependencies"@), "rust_dev_dependency"@),
        file_name == "package.json"@ ==> section_edges(manifest_rows(file_name, parent, content), parent,
            json_section_keys(content, "dependencies"@), "js_dependency"@,
            json_section_keys(content, "devDependencies"@), "js_dev_dependency"@),
{
    reveal_strlit("Cargo.toml");
    reveal_strlit("package.json");
    assert("package.json"@ != "Cargo.toml"@) by { assert("package.json"@.len() != "Cargo.toml"@.len()); }
}

/// `rows` are one `(parent, name, kind)` edge per name of `deps`, in order,
/// followed by one `(parent, name, dev_kind)` edge per name of `dev`, in
/// order.
pub open spec fn section_edges(
    rows: Seq<(Seq<char>, Seq<char>, Seq<char>)>,
    parent: Seq<char>,
    deps: Option<Seq<Seq<char>>>,
    kind: Seq<char>,
    dev: Option<Seq<Seq<char>>>,
    dev_kind: Seq<char>,
) -> bool {
    &&& rows.len() == section_len(deps) + section_len(dev)
    &&& forall|k: int| 0 <= k < section_len(deps) ==> #[trigger] rows[k] == (parent, deps->0[k], kind)
    &&& forall|k: int| 0 <= k < section_len(dev) ==> #[trigger] rows[section_len(deps) + k] == (parent, dev->0[k], dev_kind)
}

/// Appends to `edges` one edge per name in `names` (see [`dependency_rows`]).
pub fn push_dependency_edges(edges: &mut Vec<(String, String, String)>, parent: &str, names: &Option<Vec<String>>, kind: &str)
    ensures
        row_views(final(edges)@) == row_views(old(edges)@) + dependency_rows(
            parent@,
            match names { Some(v) => Some(crate::text::views(v@)), None => None },
            kind@,
        ),
{
    let ghost start = row_views(edges@);
    match names {
        Some(v) => {
            let ghost want = dependency_rows(parent@, Some(crate::text::views(v@)), kind@);
            let mut i: usize = 0;
            while i < v.len()
                invariant
                    i <= v.len(),
                    want == crate::text::views(v@).map_values(|n: Seq<char>| (parent@, n, kind@)),
                    row_views(edges@) == start + want.subrange(0, i as int),
                decreases v.len() - i,
            {
                let ghost before = edges@;
                let p = parent.to_string();
                let name = v[i].clone();
                let k = kind.to_string();
                assert(p@ == parent@ && name@ == v@[i as int]@ && k@ == kind@);
                edges.push((p, name, k));
                proof {
                    assert(want.subrange(0, i + 1) =~= want.subrange(0, i as int).push(want[i as int]));
                    assert(row_views(edges@) =~= row_views(before).push((parent@, v@[i as int]@, kind@)));
                }
                i = i + 1;
            }
            assert(want.subrange(0, v.len() as int) =~= want);
        },
        None => {
            assert(start + Seq::<(Seq<char>, Seq<char>, Seq<char>)>::empty() =~= start);
        },
    }
}

/// The dependency edges of one manifest (see [`manifest_rows`]).
pub fn extract_dependencies(file_name: &str, parent: &str, content: &str) -> (edges: Vec<(String, String, String)>)
    ensures
        row_views(edges@) == manifest_rows(file_name@, parent@, content@),
{
    let mut edges: Vec<(String, String, String)> = Vec::new();
    assert(row_views(edges@) =~= Seq::<(Seq<char>, Seq<char>, Seq<char>)>::empty());
    if str_eq(file_name, "Cargo.toml") {
        let deps = parse_toml_section_keys(content, "dependencies");
        push_dependency_edges(&mut edges, parent, &deps, "rust_dependency");
        let dev = parse_toml_section_keys(content, "dev-dependencies");
        push_dependency_edges(&mut edges, parent, &dev, "rust_dev_dependency");
    } else if str_eq(file_name, "package.json") {
        let deps = parse_json_section_keys(content, "dependencies");
        push_dependency_edges(&mut edges, parent, &deps, "js_dependency");
        let dev = parse_json_section_keys(content, "devDependencies");
        push_dependency_edges(&mut edges, parent, &dev, "js_dev_dependency");
    }
    edges
}

/// A project graph.
pub struct GraphData {
    pub graph: DepGraph,
}

/// Edges are well formed: they join existing nodes.
pub open spec fn well_formed(nodes: Seq<Seq<char>>, edges: Seq<(nat, nat, Seq<char>)>) -> bool {
    forall|i: int| 0 <= i < edges.len() ==> (#[trigger] edges[i]).0 < nodes.len() && edges[i].1 < nodes.len()
}

/// The endpoint names of the stored edges.
pub open spec fn endpoint_names(rows: Seq<(Seq<char>, Seq<char>, Seq<char>)>) -> Set<Seq<char>> {
    Set::new(|x: Seq<char>| exists|j: int| 0 <= j < rows.len() && ((#[trigger] rows[j]).0 == x || rows[j].1 == x))
}

pub open spec fn row_views(v: Seq<(String, String, String)>) -> Seq<(Seq<char>, Seq<char>, Seq<char>)> {
    v.map_values(|r: (String, String, String)| (r.0@, r.1@, r.2@))
}

/// The graph of `rows` is exact: one node per distinct endpoint name, and
/// for each row, in order, an edge from its source's node to its target's
/// node labelled with its kind.
pub open spec fn graph_of_rows(nodes: Seq<Seq<char>>, edges: Seq<(nat, nat, Seq<char>)>, rows: Seq<(Seq<char>, Seq<char>, Seq<char>)>) -> bool {
    &&& nodes.no_duplicates()
    &&& forall|x: Seq<char>| nodes.contains(x) <==> endpoint_names(rows).contains(x)
    &&& edges.len() == rows.len()
    &&& well_formed(nodes, edges)
    &&& forall|i: int| 0 <= i < rows.len() ==> nodes[(#[trigger] edges[i]).0 as int] == rows[i].0
        && nodes[edges[i].1 as int] == rows[i].1 && edges[i].2 == rows[i].2
}

fn position(names: &Vec<String>, x: &str) -> (r: Option<usize>)
    ensures
        match r {
            Some(i) => i < names@.len() && names@[i as int]@ == x@,
            None => !crate::text::views(names@).contains(x@),
        },
{
    let mut i: usize = 0;
    while i < names.len()
        invariant
            i <= names.len(),
            forall|j: int| 0 <= j < i ==> names@[j]@ != x@,
        decreases names.len() - i,
    {
        if str_eq(names[i].as_str(), x) {
            return Some(i);
        }
        i = i + 1;
    }
    proof {
        if crate::text::views(names@).contains(x@) {
            let j = choose|j: int| 0 <= j < names@.len() && crate::text::views(names@)[j] == x@;
            assert(names@[j]@ == x@);
        }
    }
    None
}

/// `names` with `x` added at the end unless it is there already.
pub open spec fn with_name(names: Seq<Seq<char>>, x: Seq<char>) -> Seq<Seq<char>> {
    if names.contains(x) { names } else { names.push(x) }
}

/// The endpoint names of `rows` in the order of their first appearance:
/// each row's source, then its target.
pub open spec fn node_order(rows: Seq<(Seq<char>, Seq<char>, Seq<char>)>) -> Seq<Seq<char>>
    decreases rows.len(),
{
    if rows.len() == 0 {
        Seq::empty()
    } else {
        with_name(with_name(node_order(rows.drop_last()), rows.last().0), rows.last().1)
    }
}

fn node_for(g: &mut DepGraph, names: &mut Vec<String>, x: &String) -> (ix: u32)
    requires
        graph_nodes(*old(g)) == crate::text::views(old(names)@),
        graph_nodes(*old(g)).no_duplicates(),
        graph_nodes(*old(g)).len() < u32::MAX,
    ensures
        graph_nodes(*final(g)) == crate::text::views(final(names)@),
        graph_nodes(*final(g)).no_duplicates(),
        graph_edges(*final(g)) == graph_edges(*old(g)),
        ix < graph_nodes(*final(g)).len(),
        graph_nodes(*final(g))[ix as int] == x@,
        forall|y: Seq<char>| graph_nodes(*final(g)).contains(y) <==> (graph_nodes(*old(g)).contains(y) || y == x@),
        graph_nodes(*old(g)).is_prefix_of(graph_nodes(*final(g))),
        graph_nodes(*final(g)).len() <= graph_nodes(*old(g)).len() + 1,
        graph_nodes(*final(g)) == with_name(graph_nodes(*old(g)), x@),
{
    match position(names, x.as_str()) {
        Some(i) => {
            assert(crate::text::views(names@)[i as int] == x@);
            i as u32
        },
        None => {
            let ghost before = graph_nodes(*g);
            let ix = graph_add_node(g, x.clone());
            names.push(x.clone());
            proof {
                let now = graph_nodes(*g);
                assert(crate::text::views(names@) =~= before.push(x@));
                assert(now =~= before.push(x@));
                assert forall|a: int, b: int| 0 <= a < now.len() && 0 <= b < now.len() && a != b implies now[a] != now[b] by {
                    if a == before.len() {
                        assert(now[b] == before[b]);
                        if now[a] == now[b] { assert(before.contains(x@)); }
                    } else if b == before.len() {
                        assert(now[a] == before[a]);
                        if now[a] == now[b] { assert(before.contains(x@)); }
                    } else {
                        assert(now[a] == before[a] && now[b] == before[b]);
                    }
                }
                assert forall|y: Seq<char>| now.contains(y) <==> (before.contains(y) || y == x@) by {
                    if now.contains(y) {
                        let k = choose|k: int| 0 <= k < now.len() && now[k] == y;
                        if k < before.len() { assert(before[k] == y); }
                    }
                    if before.contains(y) {
                        let k = choose|k: int| 0 <= k < before.len() && before[k] == y;
                        assert(now[k] == y);
                    }
                    if y == x@ { assert(now[before.len() as int] == y); }
                }
            }
            ix
        },
    }
}

/// The graph of the stored edges: `rows` are (source, target, kind).
pub fn build_graph(rows: &[(String, String, String)]) -> (gd: GraphData)
    requires
        rows@.len() < u32::MAX / 2,
    ensures
        graph_of_rows(graph_nodes(gd.graph), graph_edges(gd.graph), row_views(rows@)),
        graph_nodes(gd.graph) == node_order(row_views(rows@)),
{
    let mut g = graph_new();
    let mut names: Vec<String> = Vec::new();
    let mut k: usize = 0;
    assert(crate::text::views(names@) =~= Seq::<Seq<char>>::empty());
    while k < rows.len()
        invariant
            k <= rows.len(),
            rows@.len() < u32::MAX / 2,
            graph_nodes(g) == crate::text::views(names@),
            graph_of_rows(graph_nodes(g), graph_edges(g), row_views(rows@).subrange(0, k as int)),
            graph_nodes(g).len() <= 2 * k,
            graph_nodes(g) == node_order(row_views(rows@).subrange(0, k as int)),
        decreases rows.len() - k,
    {
        let ghost rv = row_views(rows@);
        let ghost n0 = graph_nodes(g);
        let ghost e0 = graph_edges(g);
        let a = node_for(&mut g, &mut names, &rows[k].0);
        let ghost n1 = graph_nodes(g);
        let b = node_for(&mut g, &mut names, &rows[k].1);
        let ghost n2 = graph_nodes(g);
        graph_add_edge(&mut g, a, b, rows[k].2.clone());
        proof {
            let nodes = graph_nodes(g);
            let edges = graph_edges(g);
            let old_rows = rv.subrange(0, k as int);
            let new_rows = rv.subrange(0, k + 1);
            assert(new_rows.drop_last() =~= old_rows);
            assert(new_rows.last() == rv[k as int]);
            assert(nodes == n2);
            assert(n1.is_prefix_of(n2));
            assert(nodes[a as int] == n1[a as int]);
            assert(rv[k as int] == (rows@[k as int].0@, rows@[k as int].1@, rows@[k as int].2@));
            assert(edges == e0.push((a as nat, b as nat, rows@[k as int].2@)));
            assert forall|i: int| 0 <= i < new_rows.len() implies nodes[(#[trigger] edges[i]).0 as int] == new_rows[i].0
                && nodes[edges[i].1 as int] == new_rows[i].1 && edges[i].2 == new_rows[i].2 by {
                if i < k {
                    assert(new_rows[i] == old_rows[i]);
                    assert(edges[i] == e0[i]);
                    assert(n0.is_prefix_of(nodes));
                    assert(e0[i].0 < n0.len());
                    assert(nodes[e0[i].0 as int] == n0[e0[i].0 as int]);
                    assert(nodes[e0[i].1 as int] == n0[e0[i].1 as int]);
                } else {
                    assert(new_rows[i] == rv[k as int]);
                }
            }
            assert forall|i: int| 0 <= i < edges.len() implies (#[trigger] edges[i]).0 < nodes.len() && edges[i].1 < nodes.len() by {
                if i < k { assert(edges[i] == e0[i]); }
            }
            assert forall|x: Seq<char>| nodes.contains(x) <==> endpoint_names(new_rows).contains(x) by {
                if endpoint_names(new_rows).contains(x) {
                    let j = choose|j: int| 0 <= j < new_rows.len() && ((#[trigger] new_rows[j]).0 == x || new_rows[j].1 == x);
                    if j < k {
                        assert(old_rows[j] == new_rows[j]);
                        assert(endpoint_names(old_rows).contains(x));
                    }
                }
                if endpoint_names(old_rows).contains(x) {
                    let j = choose|j: int| 0 <= j < old_rows.len() && ((#[trigger] old_rows[j]).0 == x || old_rows[j].1 == x);
                    assert(new_rows[j] == old_rows[j]);
                }
                if x == rv[k as int].0 || x == rv[k as int].1 {
                    assert(new_rows[k as int] == rv[k as int]);
                }
            }
        }
        k = k + 1;
    }
    assert(row_views(rows@).subrange(0, rows.len() as int) =~= row_views(rows@));
    GraphData { graph: g }
}

/// A name usable as a Mermaid node id: `-`, `.` and `/` become `_`.
pub open spec fn node_id(s: Seq<char>) -> Seq<char> {
    s.map_values(|c: char| if c == '-' || c == '.' || c == '/' { '_' } else { c })
}

/// An edge label: `_` becomes a space.
pub open spec fn edge_label(s: Seq<char>) -> Seq<char> {
    s.map_values(|c: char| if c == '_' { ' ' } else { c })
}

/// The Mermaid line of one edge.
pub open spec fn edge_line(src: Seq<char>, tgt: Seq<char>, kind: Seq<char>) -> Seq<char> {
    "    "@ + node_id(src) + "[\""@ + src + "\"] -->|\""@ + edge_label(kind) + "\"| "@ + node_id(tgt)
        + "[\""@ + tgt + "\"];\n"@
}

/// The Mermaid lines of the edges, in edge order.
pub open spec fn edge_lines(nodes: Seq<Seq<char>>, edges: Seq<(nat, nat, Seq<char>)>) -> Seq<char>
    decreases edges.len(),
{
    if edges.len() == 0 {
        seq![]
    } else {
        let e = edges.last();
        edge_lines(nodes, edges.drop_last()) + edge_line(nodes[e.0 as int], nodes[e.1 as int], e.2)
    }
}

/// The graph as a Mermaid diagram in a Markdown code block.
pub open spec fn mermaid(nodes: Seq<Seq<char>>, edges: Seq<(nat, nat, Seq<char>)>) -> Seq<char> {
    "```mermaid\ngraph TD;\n"@ + edge_lines(nodes, edges) + "```\n"@
}

fn push_node_id(out: &mut String, s: &str)
    ensures
        final(out)@ == old(out)@ + node_id(s@),
{
    let cs = chars_of(s);
    let mut i: usize = 0;
    while i < cs.len()
        invariant
            cs@ == s@,
            i <= cs.len(),
            out@ == old(out)@ + node_id(s@).subrange(0, i as int),
        decreases cs.len() - i,
    {
        let c = cs[i];
        push_char(out, if c == '-' || c == '.' || c == '/' { '_' } else { c });
        assert(node_id(s@).subrange(0, i + 1) =~= node_id(s@).subrange(0, i as int).push(node_id(s@)[i as int]));
        i = i + 1;
    }
    assert(node_id(s@).subrange(0, cs.len() as int) =~= node_id(s@));
}

fn push_edge_label(out: &mut String, s: &str)
    ensures
        final(out)@ == old(out)@ + edge_label(s@),
{
    let cs = chars_of(s);
    let mut i: usize = 0;
    while i < cs.len()
        invariant
            cs@ == s@,
            i <= cs.len(),
            out@ == old(out)@ + edge_label(s@).subrange(0, i as int),
        decreases cs.len() - i,
    {
        let c = cs[i];
        push_char(out, if c == '_' { ' ' } else { c });
        assert(edge_label(s@).subrange(0, i + 1) =~= edge_label(s@).subrange(0, i as int).push(edge_label(s@)[i as int]));
        i = i + 1;
    }
    assert(edge_label(s@).subrange(0, cs.len() as int) =~= edge_label(s@));
}

/// Converts the graph to Mermaid markdown (see [`mermaid`]).
pub fn to_mermaid(gd: &GraphData) -> (out: String)
    ensures
        out@ == mermaid(graph_nodes(gd.graph), graph_edges(gd.graph)),
{
    let ghost nodes = graph_nodes(gd.graph);
    let ghost edges = graph_edges(gd.graph);
    let mut out = String::new();
    push_str(&mut out, "```mermaid\ngraph TD;\n");
    let ghost head = out@;
    let n = graph_edge_count(&gd.graph);
    let mut i: usize = 0;
    assert(edges.subrange(0, 0) =~= Seq::<(nat, nat, Seq<char>)>::empty());
    while i < n
        invariant
            n == edges.len(),
            nodes == graph_nodes(gd.graph),
            edges == graph_edges(gd.graph),
            i <= n,
            out@ == head + edge_lines(nodes, edges.subrange(0, i as int)),
        decreases n - i,
    {
        let e = graph_edge(&gd.graph, i);
        let src = graph_node(&gd.graph, e.0);
        let tgt = graph_node(&gd.graph, e.1);
        let ghost before = out@;
        push_str(&mut out, "    ");
        push_node_id(&mut out, src.as_str());
        push_str(&mut out, "[\"");
        push_str(&mut out, src.as_str());
        push_str(&mut out, "\"] -->|\"");
        push_edge_label(&mut out, e.2.as_str());
        push_str(&mut out, "\"| ");
        push_node_id(&mut out, tgt.as_str());
        push_str(&mut out, "[\"");
        push_str(&mut out, tgt.as_str());
        push_str(&mut out, "\"];\n");
        proof {
            let sub = edges.subrange(0, i + 1);
            assert(sub.drop_last() =~= edges.subrange(0, i as int));
            assert(sub.last() == edges[i as int]);
            assert(out@ =~= before + edge_line(src@, tgt@, e.2@));
        }
        i = i + 1;
    }
    push_str(&mut out, "```\n");
    assert(edges.subrange(0, n as int) =~= edges);
    out
}

} // verus!

verus! {

/// The Mermaid lines of stored edges given by name, in order.
pub open spec fn row_lines(rows: Seq<(Seq<char>, Seq<char>, Seq<char>)>) -> Seq<char>
    decreases rows.len(),
{
    if rows.len() == 0 {
        seq![]
    } else {
        row_lines(rows.drop_last()) + edge_line(rows.last().0, rows.last().1, rows.last().2)
    }
}

proof fn edge_lines_match_rows(nodes: Seq<Seq<char>>, edges: Seq<(nat, nat, Seq<char>)>, rows: Seq<(Seq<char>, Seq<char>, Seq<char>)>)
    requires
        edges.len() == rows.len(),
        forall|i: int| 0 <= i < rows.len() ==> nodes[(#[trigger] edges[i]).0 as int] == rows[i].0
            && nodes[edges[i].1 as int] == rows[i].1 && edges[i].2 == rows[i].2,
    ensures
        edge_lines(nodes, edges) == row_lines(rows),
    decreases rows.len(),
{
    if rows.len() > 0 {
        let (e, r) = (edges.drop_last(), rows.drop_last());
        assert forall|i: int| 0 <= i < r.len() implies nodes[(#[trigger] e[i]).0 as int] == r[i].0
            && nodes[e[i].1 as int] == r[i].1 && e[i].2 == r[i].2 by {
            assert(e[i] == edges[i] && r[i] == rows[i]);
        }
        edge_lines_match_rows(nodes, e, r);
        assert(edges.last() == edges[edges.len() - 1]);
    }
}

/// The diagram of the graph built from stored edges lists exactly those
/// edges, one line each, in the order they were stored, by the names of
/// their endpoints.
pub proof fn mermaid_lists_stored_edges(nodes: Seq<Seq<char>>, edges: Seq<(nat, nat, Seq<char>)>, rows: Seq<(Seq<char>, Seq<char>, Seq<char>)>)
    requires
        graph_of_rows(nodes, edges, rows),
    ensures
        mermaid(nodes, edges) == "```mermaid\ngraph TD;\n"@ + row_lines(rows) + "```\n"@,
{
    edge_lines_match_rows(nodes, edges, rows);
}

/// Every dependency edge of a manifest leaves the manifest's directory and
/// has one of the four dependency kinds; a file that is not a manifest
/// gives no edge.
pub proof fn manifest_edges_leave_its_directory(file_name: Seq<char>, parent: Seq<char>, content: Seq<char>)
    ensures
        forall|i: int| 0 <= i < manifest_rows(file_name, parent, content).len() ==> {
            let r = #[trigger] manifest_rows(file_name, parent, content)[i];
            &&& r.0 == parent
            &&& r.2 == "rust_dependency"@ || r.2 == "rust_dev_dependency"@ || r.2 == "js_dependency"@
                || r.2 == "js_dev_dependency"@
        },
        file_name != "Cargo.toml"@ && file_name != "package.json"@ ==> manifest_rows(file_name, parent, content).len() == 0,
{
    assert forall|i: int| 0 <= i < manifest_rows(file_name, parent, content).len() implies {
        let r = #[trigger] manifest_rows(file_name, parent, content)[i];
        &&& r.0 == parent
        &&& r.2 == "rust_dependency"@ || r.2 == "rust_dev_dependency"@ || r.2 == "js_dependency"@
            || r.2 == "js_dev_dependency"@
    } by {
        let (a, b) = if file_name == "Cargo.toml"@ {
            (dependency_rows(parent, toml_section_keys(content, "dependencies"@), "rust_dependency"@),
             dependency_rows(parent, toml_section_keys(content, "dev-dependencies"@), "rust_dev_dependency"@))
        } else {
            (dependency_rows(parent, json_section_keys(content, "dependencies"@), "js_dependency"@),
             dependency_rows(parent, json_section_keys(content, "devDependencies"@), "js_dev_dependency"@))
        };
        if i < a.len() {
            assert(manifest_rows(file_name, parent, content)[i] == a[i]);
        } else {
            assert(manifest_rows(file_name, parent, content)[i] == b[i - a.len()]);
        }
    }
}

} // verus!
