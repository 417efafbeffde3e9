//! The graph of accounts that link to one another, and its Graphviz and
//! D3 (JSON) forms.

use vstd::prelude::*;
use crate::text::{chars_of, contains_exec, contains_seq, join, occurs_at};
use crate::types::{ClaimedProfile, copy_opt, opt_view};

verus! {

/// A node of the account graph: one account.
#[derive(Clone, Debug)]
pub struct GraphNode {
    pub id: String,
    pub site_name: String,
    pub url: String,
    pub display_name: Option<String>,
}

/// An edge of the account graph: one account links to another.
#[derive(Clone, Debug)]
pub struct GraphEdge {
    pub from: String,
    pub to: String,
    pub label: String,
}

/// The accounts and the links between them.
#[derive(Clone, Debug)]
pub struct AccountGraph {
    pub nodes: Vec<GraphNode>,
    pub edges: Vec<GraphEdge>,
}

/// The view of a node: id, site name, URL and display name.
pub open spec fn node_view(n: GraphNode) -> (Seq<char>, Seq<char>, Seq<char>, Option<Seq<char>>) {
    (n.id@, n.site_name@, n.url@, opt_view(n.display_name))
}

/// The view of an edge: source, target and label.
pub open spec fn edge_view(e: GraphEdge) -> (Seq<char>, Seq<char>, Seq<char>) {
    (e.from@, e.to@, e.label@)
}

/// The views of the nodes of a graph.
pub open spec fn node_views(v: Seq<GraphNode>) -> Seq<(Seq<char>, Seq<char>, Seq<char>, Option<Seq<char>>)> {
    v.map_values(|n: GraphNode| node_view(n))
}

/// The views of the edges of a graph.
pub open spec fn edge_views(v: Seq<GraphEdge>) -> Seq<(Seq<char>, Seq<char>, Seq<char>)> {
    v.map_values(|e: GraphEdge| edge_view(e))
}

/// The node that stands for a profile.
pub open spec fn profile_node(p: ClaimedProfile) -> (Seq<char>, Seq<char>, Seq<char>, Option<Seq<char>>) {
    (p.site_name@, p.site_name@, p.site_url@, opt_view(p.details.display_name))
}

/// The first account at or after `from`, on a site other than account `k`'s,
/// whose URL occurs in `u`.
pub open spec fn first_target(ps: Seq<ClaimedProfile>, k: int, u: Seq<char>, from: int) -> Option<int>
    decreases ps.len() - from,
{
    if from < 0 || from >= ps.len() {
        None
    } else if ps[from].site_name@ != ps[k].site_name@ && contains_seq(u, ps[from].site_url@) {
        Some(from)
    } else {
        first_target(ps, k, u, from + 1)
    }
}

proof fn lemma_first_target(ps: Seq<ClaimedProfile>, k: int, u: Seq<char>, from: int)
    ensures
        first_target(ps, k, u, from) matches Some(t) ==> 0 <= from <= t < ps.len(),
    decreases ps.len() - from,
{
    if 0 <= from < ps.len() {
        lemma_first_target(ps, k, u, from + 1);
    }
}

/// The label of every edge.
pub open spec fn edge_label() -> Seq<char> {
    "link in bio"@
}

/// The edges for the first `end` URLs linked from account `k`.
pub open spec fn edge_row(ps: Seq<ClaimedProfile>, k: int, end: int) -> Seq<(Seq<char>, Seq<char>, Seq<char>)>
    decreases end,
{
    if end <= 0 {
        Seq::empty()
    } else {
        let u = ps[k].details.linked_urls@[end - 1]@;
        edge_row(ps, k, end - 1) + (match first_target(ps, k, u, 0) {
            Some(t) => seq![(ps[k].site_name@, ps[t].site_name@, edge_label())],
            None => Seq::empty(),
        })
    }
}

/// The edges for the URLs linked from the accounts before `end`.
pub open spec fn graph_edges(ps: Seq<ClaimedProfile>, end: int) -> Seq<(Seq<char>, Seq<char>, Seq<char>)>
    decreases end,
{
    if end <= 0 {
        Seq::empty()
    } else {
        graph_edges(ps, end - 1) + edge_row(ps, end - 1, ps[end - 1].details.linked_urls@.len() as int)
    }
}

/// The account (other than on account `k`'s site) whose URL occurs first in
/// the account order inside `u`.
fn find_target(profiles: &[ClaimedProfile], k: usize, u: &String) -> (r: Option<usize>)
    requires
        k < profiles@.len(),
    ensures
        match r {
            Some(t) => first_target(profiles@, k as int, u@, 0) == Some(t as int),
            None => first_target(profiles@, k as int, u@, 0) is None,
        },
{
    let uc = chars_of(u.as_str());
    let mut q: usize = 0;
    while q < profiles.len()
        invariant
            q <= profiles@.len(),
            k < profiles@.len(),
            uc@ == u@,
            first_target(profiles@, k as int, u@, 0) == first_target(profiles@, k as int, u@, q as int),
        decreases profiles@.len() - q,
    {
        if profiles[q].site_name != profiles[k].site_name {
            let sc = chars_of(profiles[q].site_url.as_str());
            if contains_exec(&uc, &sc) {
                return Some(q);
            }
        }
        q += 1;
    }
    None
}

/// The graph of the accounts: one node per account (identified by its site
/// name) and an edge from an account to the first account on another site
/// whose URL appears in one of its linked URLs, labelled "link in bio".
pub fn build_account_graph(profiles: &[ClaimedProfile]) -> (g: AccountGraph)
    ensures
        node_views(g.nodes@) == profiles@.map_values(|p: ClaimedProfile| profile_node(p)),
        edge_views(g.edges@) == graph_edges(profiles@, profiles@.len() as int),
{
    let ghost ps = profiles@;
    let n = profiles.len();
    let mut nodes: Vec<GraphNode> = Vec::new();
    let mut i: usize = 0;
    while i < n
        invariant
            n == ps.len(),
            ps == profiles@,
            i <= n,
            node_views(nodes@) == ps.map_values(|p: ClaimedProfile| profile_node(p)).take(i as int),
        decreases n - i,
    {
        let p = &profiles[i];
        let node = GraphNode {
            id: p.site_name.clone(),
            site_name: p.site_name.clone(),
            url: p.site_url.clone(),
            display_name: copy_opt(&p.details.display_name),
        };
        assert(node_views(nodes@.push(node)) =~= node_views(nodes@).push(node_view(node)));
        nodes.push(node);
        assert(ps.map_values(|p: ClaimedProfile| profile_node(p)).take(i + 1) =~= ps.map_values(
            |p: ClaimedProfile| profile_node(p),
        ).take(i as int).push(profile_node(ps[i as int])));
        i += 1;
    }
    assert(ps.map_values(|p: ClaimedProfile| profile_node(p)).take(n as int) =~= ps.map_values(
        |p: ClaimedProfile| profile_node(p),
    ));

    let mut edges: Vec<GraphEdge> = Vec::new();
    let mut k: usize = 0;
    while k < n
        invariant
            n == ps.len(),
            ps == profiles@,
            k <= n,
            edge_views(edges@) == graph_edges(ps, k as int),
        decreases n - k,
    {
        let links = &profiles[k].details.linked_urls;
        let ghost row_start = edge_views(edges@);
        let mut m: usize = 0;
        while m < links.len()
            invariant
                n == ps.len(),
                ps == profiles@,
                k < n,
                m <= links@.len(),
                links == &ps[k as int].details.linked_urls,
                edge_views(edges@) == row_start + edge_row(ps, k as int, m as int),
            decreases links@.len() - m,
        {
            let target = find_target(profiles, k, &links[m]);
            proof {
                lemma_first_target(ps, k as int, links@[m as int]@, 0);
            }
            match target {
                Some(t) => {
                    let e = GraphEdge {
                        from: profiles[k].site_name.clone(),
                        to: profiles[t].site_name.clone(),
                        label: String::from_str("link in bio"),
                    };
                    assert(edge_views(edges@.push(e)) =~= edge_views(edges@).push(edge_view(e)));
                    edges.push(e);
                },
                None => {
                    assert(edge_views(edges@) =~= edge_views(edges@) + Seq::<(Seq<char>, Seq<char>, Seq<char>)>::empty());
                },
            }
            m += 1;
        }
        k += 1;
    }
    AccountGraph { nodes, edges }
}

// ---------------------------------------------------------------------------
// Graphviz
// ---------------------------------------------------------------------------

/// The DOT line of a node.
pub open spec fn dot_node_line(n: GraphNode) -> Seq<char> {
    let label = match n.display_name {
        Some(d) => d@,
        None => n.site_name@,
    };
    "  \""@ + n.id@ + "\" [label=\""@ + n.site_name@ + "\\n"@ + label + "\", URL=\""@ + n.url@
        + "\"];\n"@
}

/// The DOT line of an edge.
pub open spec fn dot_edge_line(e: GraphEdge) -> Seq<char> {
    "  \""@ + e.from@ + "\" -> \""@ + e.to@ + "\" [label=\""@ + e.label@ + "\"];\n"@
}

/// The DOT lines of the first `end` nodes.
pub open spec fn dot_nodes(v: Seq<GraphNode>, end: int) -> Seq<char>
    decreases end,
{
    if end <= 0 {
        Seq::empty()
    } else {
        dot_nodes(v, end - 1) + dot_node_line(v[end - 1])
    }
}

/// The DOT lines of the first `end` edges.
pub open spec fn dot_edges(v: Seq<GraphEdge>, end: int) -> Seq<char>
    decreases end,
{
    if end <= 0 {
        Seq::empty()
    } else {
        dot_edges(v, end - 1) + dot_edge_line(v[end - 1])
    }
}

/// The header of the DOT text.
pub open spec fn dot_header() -> Seq<char> {
    "digraph raven {\n"@ + "  rankdir=LR;\n"@ + "  node [shape=box, style=filled, fillcolor=lightblue];\n\n"@
}

/// The DOT text of a graph.
pub open spec fn spec_dot(g: AccountGraph) -> Seq<char> {
    dot_header() + dot_nodes(g.nodes@, g.nodes@.len() as int) + "\n"@ + dot_edges(
        g.edges@,
        g.edges@.len() as int,
    ) + "}"@
}

fn node_line(n: &GraphNode) -> (s: String)
    ensures
        s@ == dot_node_line(*n),
{
    let mut s = String::from_str("  \"");
    s.append(n.id.as_str());
    s.append("\" [label=\"");
    s.append(n.site_name.as_str());
    s.append("\\n");
    match &n.display_name {
        Some(d) => s.append(d.as_str()),
        None => s.append(n.site_name.as_str()),
    }
    s.append("\", URL=\"");
    s.append(n.url.as_str());
    s.append("\"];\n");
    s
}

fn edge_line(e: &GraphEdge) -> (s: String)
    ensures
        s@ == dot_edge_line(*e),
{
    let mut s = String::from_str("  \"");
    s.append(e.from.as_str());
    s.append("\" -> \"");
    s.append(e.to.as_str());
    s.append("\" [label=\"");
    s.append(e.label.as_str());
    s.append("\"];\n");
    s
}

/// The graph in Graphviz DOT form: a left-to-right digraph named `raven`
/// with one box per account (labelled with its site and display name, linked
/// to its URL) and one labelled arrow per edge.
pub fn to_dot(graph: &AccountGraph) -> (s: String)
    ensures
        s@ == spec_dot(*graph),
{
    let mut dot = String::from_str("digraph raven {\n");
    dot.append("  rankdir=LR;\n");
    dot.append("  node [shape=box, style=filled, fillcolor=lightblue];\n\n");
    let mut i: usize = 0;
    while i < graph.nodes.len()
        invariant
            i <= graph.nodes@.len(),
            dot@ == dot_header() + dot_nodes(graph.nodes@, i as int),
        decreases graph.nodes@.len() - i,
    {
        let line = node_line(&graph.nodes[i]);
        dot.append(line.as_str());
        i += 1;
    }
    dot.append("\n");
    let ghost mid = dot@;
    let mut k: usize = 0;
    while k < graph.edges.len()
        invariant
            k <= graph.edges@.len(),
            dot@ == mid + dot_edges(graph.edges@, k as int),
        decreases graph.edges@.len() - k,
    {
        let line = edge_line(&graph.edges[k]);
        dot.append(line.as_str());
        k += 1;
    }
    dot.append("}");
    dot
}


// ---------------------------------------------------------------------------
// D3 form
// ---------------------------------------------------------------------------

/// A hexadecimal digit, in lower case.
pub open spec fn hex_digit(d: int) -> char {
    seq!['0', '1', '2', '3', '4', '5', '6', '7', '8', '9', 'a', 'b', 'c', 'd', 'e', 'f'][d]
}

/// How one character stands in a JSON string literal: `"` and `\` and the
/// control characters escaped (the usual short escapes for backspace, tab,
/// line feed, form feed and carriage return, `\u00XX` for the others), every
/// other character as it is.
pub open spec fn json_escape_char(c: char) -> Seq<char> {
    if c == '"' {
        seq!['\\', '"']
    } else if c == '\\' {
        seq!['\\', '\\']
    } else if c == '\x08' {
        seq!['\\', 'b']
    } else if c == '\t' {
        seq!['\\', 't']
    } else if c == '\n' {
        seq!['\\', 'n']
    } else if c == '\x0c' {
        seq!['\\', 'f']
    } else if c == '\r' {
        seq!['\\', 'r']
    } else if (c as u32) < 0x20 {
        seq!['\\', 'u', '0', '0', hex_digit(((c as u32) / 16) as int), hex_digit(((c as u32) % 16) as int)]
    } else {
        seq![c]
    }
}

/// The characters of a text as they stand inside a JSON string literal.
pub open spec fn json_escaped(s: Seq<char>) -> Seq<char>
    decreases s.len(),
{
    if s.len() == 0 {
        Seq::empty()
    } else {
        json_escaped(s.drop_last()) + json_escape_char(s.last())
    }
}

/// The JSON string literal of a text: the escaped text between quotes.
pub open spec fn spec_json_quote(s: Seq<char>) -> Seq<char> {
    seq!['"'] + json_escaped(s) + seq!['"']
}

/// The JSON string literal of a text.
///
/// Trusted: wraps `serde_json::to_string` on a `&str`, which cannot fail for
/// a string. As its `format_escaped_str` writes it, the literal is the text
/// between quotes, with `"` and `\\` escaped and the control characters
/// below 0x20 written as `\b`, `\t`, `\n`, `\f`, `\r` or `\u00xx` (lower-case
/// hexadecimal); every other character is copied.
#[verifier::external_body]
fn json_quote(s: &str) -> (r: String)
    ensures
        r@ == spec_json_quote(s@),
{
    serde_json::to_string(s).unwrap_or_default()
}

/// The JSON object of a node, its keys in order: id, name (`null` when the
/// account shows none), site and URL.
pub open spec fn spec_node_json(n: GraphNode) -> Seq<char> {
    "{\"id\":"@ + spec_json_quote(n.id@) + ",\"name\":"@ + match n.display_name {
        Some(d) => spec_json_quote(d@),
        None => "null"@,
    } + ",\"site\":"@ + spec_json_quote(n.site_name@) + ",\"url\":"@ + spec_json_quote(n.url@) + "}"@
}

/// The JSON object of an edge, its keys in order: label, source and target.
pub open spec fn spec_edge_json(e: GraphEdge) -> Seq<char> {
    "{\"label\":"@ + spec_json_quote(e.label@) + ",\"source\":"@ + spec_json_quote(e.from@)
        + ",\"target\":"@ + spec_json_quote(e.to@) + "}"@
}

/// The graph as the compact JSON text D3 draws: an object with the edges
/// under `links` and the nodes under `nodes`, keys in order.
pub open spec fn spec_d3_json(g: AccountGraph) -> Seq<char> {
    "{\"links\":["@ + join(g.edges@.map_values(|e: GraphEdge| spec_edge_json(e)), ","@)
        + "],\"nodes\":["@ + join(g.nodes@.map_values(|n: GraphNode| spec_node_json(n)), ","@)
        + "]}"@
}

fn node_json(n: &GraphNode) -> (s: String)
    ensures
        s@ == spec_node_json(*n),
{
    let mut s = String::from_str("{\"id\":");
    s.append(json_quote(n.id.as_str()).as_str());
    s.append(",\"name\":");
    match &n.display_name {
        Some(d) => s.append(json_quote(d.as_str()).as_str()),
        None => s.append("null"),
    }
    s.append(",\"site\":");
    s.append(json_quote(n.site_name.as_str()).as_str());
    s.append(",\"url\":");
    s.append(json_quote(n.url.as_str()).as_str());
    s.append("}");
    s
}

fn edge_json(e: &GraphEdge) -> (s: String)
    ensures
        s@ == spec_edge_json(*e),
{
    let mut s = String::from_str("{\"label\":");
    s.append(json_quote(e.label.as_str()).as_str());
    s.append(",\"source\":");
    s.append(json_quote(e.from.as_str()).as_str());
    s.append(",\"target\":");
    s.append(json_quote(e.to.as_str()).as_str());
    s.append("}");
    s
}

proof fn lemma_join_push(parts: Seq<Seq<char>>, x: Seq<char>, sep: Seq<char>)
    ensures
        join(parts.push(x), sep) == if parts.len() == 0 {
            x
        } else {
            join(parts, sep) + sep + x
        },
{
    assert(parts.push(x).drop_last() =~= parts);
    if parts.len() == 0 {
        assert(parts.push(x) =~= seq![x]);
    }
}

/// The graph as the JSON text that D3 draws.
pub fn to_d3_json(graph: &AccountGraph) -> (s: String)
    ensures
        s@ == spec_d3_json(*graph),
{
    let ghost ev = graph.edges@.map_values(|e: GraphEdge| spec_edge_json(e));
    let ghost nv = graph.nodes@.map_values(|n: GraphNode| spec_node_json(n));
    let mut s = String::from_str("{\"links\":[");
    let ghost head = s@;
    let mut k: usize = 0;
    while k < graph.edges.len()
        invariant
            ev == graph.edges@.map_values(|e: GraphEdge| spec_edge_json(e)),
            k <= graph.edges@.len(),
            s@ == head + join(ev.take(k as int), ","@),
        decreases graph.edges@.len() - k,
    {
        let ghost before = s@;
        if k > 0 {
            s.append(",");
        }
        let one = edge_json(&graph.edges[k]);
        s.append(one.as_str());
        proof {
            assert(ev.take(k + 1) =~= ev.take(k as int).push(ev[k as int]));
            lemma_join_push(ev.take(k as int), ev[k as int], ","@);
        }
        k += 1;
    }
    assert(ev.take(ev.len() as int) =~= ev);
    s.append("],\"nodes\":[");
    let ghost mid = s@;
    let mut i: usize = 0;
    while i < graph.nodes.len()
        invariant
            nv == graph.nodes@.map_values(|n: GraphNode| spec_node_json(n)),
            i <= graph.nodes@.len(),
            s@ == mid + join(nv.take(i as int), ","@),
        decreases graph.nodes@.len() - i,
    {
        if i > 0 {
            s.append(",");
        }
        let one = node_json(&graph.nodes[i]);
        s.append(one.as_str());
        proof {
            assert(nv.take(i + 1) =~= nv.take(i as int).push(nv[i as int]));
            lemma_join_push(nv.take(i as int), nv[i as int], ","@);
        }
        i += 1;
    }
    assert(nv.take(nv.len() as int) =~= nv);
    s.append("]}");
    s
}


// ---------------------------------------------------------------------------
// Laws
// ---------------------------------------------------------------------------

proof fn lemma_first_target_other_site(ps: Seq<ClaimedProfile>, k: int, u: Seq<char>, from: int)
    ensures
        first_target(ps, k, u, from) matches Some(t) ==> 0 <= t < ps.len() && ps[t].site_name@
            != ps[k].site_name@ && contains_seq(u, ps[t].site_url@),
    decreases ps.len() - from,
{
    if 0 <= from < ps.len() {
        lemma_first_target_other_site(ps, k, u, from + 1);
    }
}

/// Every edge goes from an account to an account on another site whose URL
/// the first one links to, and is labelled "link in bio".
pub open spec fn is_link_edge(ps: Seq<ClaimedProfile>, e: (Seq<char>, Seq<char>, Seq<char>)) -> bool {
    &&& e.0 != e.1
    &&& e.2 == edge_label()
    &&& exists|k: int, t: int, j: int|
        #![trigger ps[k], ps[t], ps[k].details.linked_urls@[j]]
        0 <= k < ps.len() && 0 <= t < ps.len() && 0 <= j < ps[k].details.linked_urls@.len()
            && ps[k].site_name@ == e.0 && ps[t].site_name@ == e.1 && contains_seq(
            ps[k].details.linked_urls@[j]@,
            ps[t].site_url@,
        )
}

proof fn lemma_edge_row_links(ps: Seq<ClaimedProfile>, k: int, end: int)
    requires
        0 <= k < ps.len(),
        end <= ps[k].details.linked_urls@.len(),
    ensures
        forall|i: int| 0 <= i < edge_row(ps, k, end).len() ==> is_link_edge(ps, #[trigger] edge_row(ps, k, end)[i]),
    decreases end,
{
    if end > 0 {
        lemma_edge_row_links(ps, k, end - 1);
        let u = ps[k].details.linked_urls@[end - 1]@;
        lemma_first_target_other_site(ps, k, u, 0);
        let r = edge_row(ps, k, end);
        let prev = edge_row(ps, k, end - 1);
        assert forall|i: int| 0 <= i < r.len() implies is_link_edge(ps, #[trigger] r[i]) by {
            if i < prev.len() {
                assert(r[i] == prev[i]);
            } else {
                let t = first_target(ps, k, u, 0)->0;
                assert(r[i] == (ps[k].site_name@, ps[t].site_name@, edge_label()));
                let _w = (ps[k], ps[t], ps[k].details.linked_urls@[end - 1]);
            }
        }
    }
}

proof fn lemma_graph_edges_links(ps: Seq<ClaimedProfile>, end: int)
    requires
        end <= ps.len(),
    ensures
        forall|i: int| 0 <= i < graph_edges(ps, end).len() ==> is_link_edge(ps, #[trigger] graph_edges(ps, end)[i]),
    decreases end,
{
    if end > 0 {
        lemma_graph_edges_links(ps, end - 1);
        lemma_edge_row_links(ps, end - 1, ps[end - 1].details.linked_urls@.len() as int);
        let g = graph_edges(ps, end);
        let prev = graph_edges(ps, end - 1);
        let row = edge_row(ps, end - 1, ps[end - 1].details.linked_urls@.len() as int);
        assert forall|i: int| 0 <= i < g.len() implies is_link_edge(ps, #[trigger] g[i]) by {
            if i < prev.len() {
                assert(g[i] == prev[i]);
            } else {
                assert(g[i] == row[i - prev.len()]);
            }
        }
    }
}

/// The account graph has one node per account, in order, and only edges
/// between accounts on different sites where the first links to the
/// second's URL.
pub proof fn graph_links_distinct_sites(ps: Seq<ClaimedProfile>)
    ensures
        forall|i: int|
            0 <= i < graph_edges(ps, ps.len() as int).len() ==> is_link_edge(
                ps,
                #[trigger] graph_edges(ps, ps.len() as int)[i],
            ),
        ps.map_values(|p: ClaimedProfile| profile_node(p)).len() == ps.len(),
{
    lemma_graph_edges_links(ps, ps.len() as int);
}


proof fn lemma_first_target_found(ps: Seq<ClaimedProfile>, k: int, u: Seq<char>, from: int, t: int)
    requires
        0 <= from <= t < ps.len(),
        ps[t].site_name@ != ps[k].site_name@,
        contains_seq(u, ps[t].site_url@),
    ensures
        first_target(ps, k, u, from) is Some,
    decreases t - from,
{
    if from < t {
        lemma_first_target_found(ps, k, u, from + 1, t);
    }
}

proof fn lemma_edge_row_has(ps: Seq<ClaimedProfile>, k: int, end: int, j: int, e: (Seq<char>, Seq<char>, Seq<char>))
    requires
        0 <= k < ps.len(),
        0 <= j < end <= ps[k].details.linked_urls@.len(),
        first_target(ps, k, ps[k].details.linked_urls@[j]@, 0) matches Some(t) && e == (
            ps[k].site_name@,
            ps[t].site_name@,
            edge_label(),
        ),
    ensures
        edge_row(ps, k, end).contains(e),
    decreases end,
{
    let r = edge_row(ps, k, end);
    let prev = edge_row(ps, k, end - 1);
    if j == end - 1 {
        assert(r[prev.len() as int] == e);
    } else {
        lemma_edge_row_has(ps, k, end - 1, j, e);
        let i = choose|i: int| 0 <= i < prev.len() && prev[i] == e;
        assert(r[i] == e);
    }
}

proof fn lemma_graph_edges_has(ps: Seq<ClaimedProfile>, end: int, k: int, e: (Seq<char>, Seq<char>, Seq<char>))
    requires
        0 <= k < end <= ps.len(),
        edge_row(ps, k, ps[k].details.linked_urls@.len() as int).contains(e),
    ensures
        graph_edges(ps, end).contains(e),
    decreases end,
{
    let g = graph_edges(ps, end);
    let prev = graph_edges(ps, end - 1);
    if k == end - 1 {
        let row = edge_row(ps, k, ps[k].details.linked_urls@.len() as int);
        let i = choose|i: int| 0 <= i < row.len() && row[i] == e;
        assert(g[prev.len() + i] == e);
    } else {
        lemma_graph_edges_has(ps, end - 1, k, e);
        let i = choose|i: int| 0 <= i < prev.len() && prev[i] == e;
        assert(g[i] == e);
    }
}

/// No link to another site's account is left out: wherever account `k`
/// links (by its `j`-th URL) to a URL holding the URL of account `t` on
/// another site, whatever their places in the list, the graph has an edge
/// labelled "link in bio" from `k`'s site to the site of an account on
/// another site whose URL that link holds.
pub proof fn graph_link_has_edge(ps: Seq<ClaimedProfile>, k: int, j: int, t: int)
    requires
        0 <= k < ps.len(),
        0 <= t < ps.len(),
        0 <= j < ps[k].details.linked_urls@.len(),
        ps[t].site_name@ != ps[k].site_name@,
        contains_seq(ps[k].details.linked_urls@[j]@, ps[t].site_url@),
    ensures
        exists|t2: int|
            0 <= t2 < ps.len() && ps[t2].site_name@ != ps[k].site_name@ && contains_seq(
                ps[k].details.linked_urls@[j]@,
                ps[t2].site_url@,
            ) && graph_edges(ps, ps.len() as int).contains(
                (ps[k].site_name@, ps[t2].site_name@, "link in bio"@),
            ),
{
    let u = ps[k].details.linked_urls@[j]@;
    lemma_first_target_found(ps, k, u, 0, t);
    lemma_first_target_other_site(ps, k, u, 0);
    let t2 = first_target(ps, k, u, 0)->0;
    let e = (ps[k].site_name@, ps[t2].site_name@, edge_label());
    lemma_edge_row_has(ps, k, ps[k].details.linked_urls@.len() as int, j, e);
    lemma_graph_edges_has(ps, ps.len() as int, k, e);
}

proof fn lemma_occurs_in_concat(a: Seq<char>, b: Seq<char>, n: Seq<char>, i: int)
    requires
        occurs_at(a, n, i),
    ensures
        occurs_at(a + b, n, i),
        occurs_at(b + a, n, b.len() + i),
{
    assert((a + b).subrange(i, i + n.len()) =~= a.subrange(i, i + n.len()));
    assert((b + a).subrange(b.len() + i, b.len() + i + n.len()) =~= a.subrange(i, i + n.len()));
}

proof fn lemma_dot_nodes_has(v: Seq<GraphNode>, end: int, i: int)
    requires
        0 <= i < end <= v.len(),
    ensures
        exists|off: int| occurs_at(dot_nodes(v, end), dot_node_line(v[i]), off),
    decreases end,
{
    let prev = dot_nodes(v, end - 1);
    let line = dot_node_line(v[end - 1]);
    if i == end - 1 {
        assert(occurs_at(line, line, 0)) by {
            assert(line.subrange(0, line.len() as int) =~= line);
        }
        lemma_occurs_in_concat(line, prev, line, 0);
        assert(dot_nodes(v, end) == prev + line);
        assert(occurs_at(dot_nodes(v, end), dot_node_line(v[i]), prev.len() as int));
    } else {
        lemma_dot_nodes_has(v, end - 1, i);
        let off = choose|off: int| occurs_at(prev, dot_node_line(v[i]), off);
        lemma_occurs_in_concat(prev, line, dot_node_line(v[i]), off);
        assert(dot_nodes(v, end) == prev + line);
        assert(occurs_at(dot_nodes(v, end), dot_node_line(v[i]), off));
    }
}

/// Each node's DOT label is its site name, the two characters `\n`, and
/// then its display name, the site name being repeated only for a node
/// that shows no display name.
pub proof fn dot_label_shows_name(g: AccountGraph, i: int)
    requires
        0 <= i < g.nodes@.len(),
    ensures
        contains_seq(
            spec_dot(g),
            "[label=\""@ + g.nodes@[i].site_name@ + "\\n"@ + match g.nodes@[i].display_name {
                Some(d) => d@,
                None => g.nodes@[i].site_name@,
            } + "\""@,
        ),
{
    let n = g.nodes@[i];
    let shown = match n.display_name {
        Some(d) => d@,
        None => n.site_name@,
    };
    let frag = "[label=\""@ + n.site_name@ + "\\n"@ + shown + "\""@;
    let line = dot_node_line(n);
    reveal_strlit("  \"");
    reveal_strlit("\" [label=\"");
    reveal_strlit("[label=\"");
    reveal_strlit("\\n");
    reveal_strlit("\", URL=\"");
    reveal_strlit("\"");
    reveal_strlit("\"];\n");
    let pre = "  \""@ + n.id@ + "\" "@;
    let a: int = pre.len() as int;
    let b: int = a + frag.len();
    reveal_strlit("\" ");
    assert(line.subrange(a, b) =~= frag);
    assert(occurs_at(line, frag, a));
    let nodes = dot_nodes(g.nodes@, g.nodes@.len() as int);
    lemma_dot_nodes_has(g.nodes@, g.nodes@.len() as int, i);
    let off = choose|off: int| occurs_at(nodes, line, off);
    assert(occurs_at(nodes, frag, off + a)) by {
        assert(nodes.subrange(off + a, off + b) =~= line.subrange(a, b));
    }
    let rest = "\n"@ + dot_edges(g.edges@, g.edges@.len() as int) + "}"@;
    lemma_occurs_in_concat(nodes, dot_header(), frag, off + a);
    lemma_occurs_in_concat(dot_header() + nodes, rest, frag, dot_header().len() + off + a);
    assert(spec_dot(g) =~= (dot_header() + nodes) + rest);
}


proof fn lemma_join_has(parts: Seq<Seq<char>>, sep: Seq<char>, i: int)
    requires
        0 <= i < parts.len(),
    ensures
        exists|off: int| occurs_at(join(parts, sep), parts[i], off),
    decreases parts.len(),
{
    let p = parts[i];
    assert(p.subrange(0, p.len() as int) =~= p);
    if parts.len() == 1 {
        assert(occurs_at(join(parts, sep), p, 0));
    } else {
        let front = join(parts.drop_last(), sep) + sep;
        assert(join(parts, sep) == front + parts.last());
        if i == parts.len() - 1 {
            lemma_occurs_in_concat(p, front, p, 0);
            assert(occurs_at(join(parts, sep), p, front.len() as int));
        } else {
            lemma_join_has(parts.drop_last(), sep, i);
            let off = choose|off: int| occurs_at(join(parts.drop_last(), sep), p, off);
            lemma_occurs_in_concat(join(parts.drop_last(), sep), sep, p, off);
            lemma_occurs_in_concat(front, parts.last(), p, off);
            assert(occurs_at(join(parts, sep), p, off));
        }
    }
}

/// Each node's JSON object gives, after its id, its display name under
/// `name` (`null` where it shows none) and then its site name under `site`.
pub proof fn d3_json_shows_name(g: AccountGraph, i: int)
    requires
        0 <= i < g.nodes@.len(),
    ensures
        contains_seq(
            spec_d3_json(g),
            ",\"name\":"@ + match g.nodes@[i].display_name {
                Some(d) => spec_json_quote(d@),
                None => "null"@,
            } + ",\"site\":"@ + spec_json_quote(g.nodes@[i].site_name@),
        ),
{
    let n = g.nodes@[i];
    let name = match n.display_name {
        Some(d) => spec_json_quote(d@),
        None => "null"@,
    };
    let frag = ",\"name\":"@ + name + ",\"site\":"@ + spec_json_quote(n.site_name@);
    let obj = spec_node_json(n);
    let a: int = ("{\"id\":"@ + spec_json_quote(n.id@)).len() as int;
    let b: int = a + frag.len();
    assert(obj.subrange(a, b) =~= frag);
    let parts = g.nodes@.map_values(|m: GraphNode| spec_node_json(m));
    assert(parts[i] == obj);
    lemma_join_has(parts, ","@, i);
    let jn = join(parts, ","@);
    let off = choose|off: int| occurs_at(jn, obj, off);
    assert(occurs_at(jn, frag, off + a)) by {
        assert(jn.subrange(off + a, off + b) =~= obj.subrange(a, b));
    }
    let pre = "{\"links\":["@ + join(g.edges@.map_values(|e: GraphEdge| spec_edge_json(e)), ","@)
        + "],\"nodes\":["@;
    lemma_occurs_in_concat(jn, pre, frag, off + a);
    lemma_occurs_in_concat(pre + jn, "]}"@, frag, pre.len() + off + a);
    assert(spec_d3_json(g) =~= (pre + jn) + "]}"@);
}


proof fn lemma_dot_edges_has(v: Seq<GraphEdge>, end: int, i: int)
    requires
        0 <= i < end <= v.len(),
    ensures
        exists|off: int| occurs_at(dot_edges(v, end), dot_edge_line(v[i]), off),
    decreases end,
{
    let prev = dot_edges(v, end - 1);
    let line = dot_edge_line(v[end - 1]);
    assert(dot_edges(v, end) == prev + line);
    if i == end - 1 {
        assert(line.subrange(0, line.len() as int) =~= line);
        lemma_occurs_in_concat(line, prev, line, 0);
        assert(occurs_at(dot_edges(v, end), dot_edge_line(v[i]), prev.len() as int));
    } else {
        lemma_dot_edges_has(v, end - 1, i);
        let off = choose|off: int| occurs_at(prev, dot_edge_line(v[i]), off);
        lemma_occurs_in_concat(prev, line, dot_edge_line(v[i]), off);
        assert(occurs_at(dot_edges(v, end), dot_edge_line(v[i]), off));
    }
}

/// Each edge appears in the DOT text as an arrow from its source's id to
/// its target's id, labelled with its label.
pub proof fn dot_shows_edges(g: AccountGraph, i: int)
    requires
        0 <= i < g.edges@.len(),
    ensures
        contains_seq(
            spec_dot(g),
            "\""@ + g.edges@[i].from@ + "\" -> \""@ + g.edges@[i].to@ + "\" [label=\""@ + g.edges@[i].label@
                + "\"]"@,
        ),
{
    let e = g.edges@[i];
    let frag = "\""@ + e.from@ + "\" -> \""@ + e.to@ + "\" [label=\""@ + e.label@ + "\"]"@;
    let line = dot_edge_line(e);
    reveal_strlit("  \"");
    reveal_strlit("\"");
    reveal_strlit("  ");
    reveal_strlit("\"];\n");
    reveal_strlit("\"]");
    reveal_strlit(";\n");
    let a: int = 2;
    let b: int = a + frag.len();
    assert(line.subrange(a, b) =~= frag);
    let edges = dot_edges(g.edges@, g.edges@.len() as int);
    lemma_dot_edges_has(g.edges@, g.edges@.len() as int, i);
    let off = choose|off: int| occurs_at(edges, line, off);
    assert(occurs_at(edges, frag, off + a)) by {
        assert(edges.subrange(off + a, off + b) =~= line.subrange(a, b));
    }
    let pre = dot_header() + dot_nodes(g.nodes@, g.nodes@.len() as int) + "\n"@;
    lemma_occurs_in_concat(edges, pre, frag, off + a);
    lemma_occurs_in_concat(pre + edges, "}"@, frag, pre.len() + off + a);
    assert(spec_dot(g) =~= (pre + edges) + "}"@);
}

/// The graph has one node per account, in order: named and identified by
/// the account's site, with its URL and its display name.
pub proof fn graph_nodes_are_accounts(ps: Seq<ClaimedProfile>)
    ensures
        ps.map_values(|p: ClaimedProfile| profile_node(p)).len() == ps.len(),
        forall|i: int|
            0 <= i < ps.len() ==> {
                let n = ps.map_values(|p: ClaimedProfile| profile_node(p))[i];
                &&& n.0 == (#[trigger] ps[i]).site_name@
                &&& n.1 == ps[i].site_name@
                &&& n.2 == ps[i].site_url@
                &&& n.3 == opt_view(ps[i].details.display_name)
            },
{
}

} // verus!
