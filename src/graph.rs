//! The graph of a hat collection built from its hats: one node per hat in
//! key order, stacked vertically, and one edge for each publisher and
//! subscriber of an event.
use vstd::prelude::*;

use crate::collections::{GraphEdge, HatNodeData};
use crate::ordering::{lex_le, sort_by_name_id, sorted_by_name_id, NamedById};
use crate::stream_domain::views;
use crate::text::{decimal, push_decimal, str_eq, trim, trim_str};

verus! {

/// A hat as the collection file describes it.
#[derive(Debug, Clone)]
pub struct HatSpec {
    pub key: String,
    pub name: Option<String>,
    pub description: Option<String>,
    pub triggers: Vec<String>,
    pub publishes: Vec<String>,
    pub instructions: Option<String>,
}

/// Where a node sits on the canvas.
#[derive(Debug, Clone, Copy)]
pub struct NodePosition {
    pub x: u64,
    pub y: u64,
}

/// A node of a collection graph.
#[derive(Debug, Clone)]
pub struct GraphNode {
    pub id: String,
    pub node_type: String,
    pub position: NodePosition,
    pub data: HatNodeData,
}

/// A collection graph.
#[derive(Debug, Clone)]
pub struct GraphData {
    pub nodes: Vec<GraphNode>,
    pub edges: Vec<GraphEdge>,
}

/// The x of every node.
pub const NODE_X: u64 = 250;

/// The y of the first node, and the step between nodes.
pub const NODE_Y0: u64 = 50;

pub const NODE_STEP: u64 = 200;

/// Whether `n` is the node built from hat `h` at place `k`.
pub open spec fn node_of(n: GraphNode, h: HatSpec, k: int) -> bool {
    &&& n.id@ == h.key@
    &&& n.node_type@ == "hatNode"@
    &&& n.position.x == NODE_X
    &&& n.position.y == NODE_Y0 + NODE_STEP * k
    &&& n.data.key@ == h.key@
    &&& n.data.name@ == (match h.name {
        Some(x) => x@,
        None => h.key@,
    })
    &&& n.data.description@ == (match h.description {
        Some(x) => x@,
        None => Seq::<char>::empty(),
    })
    &&& n.data.triggers_on@ == h.triggers@
    &&& n.data.publishes@ == h.publishes@
    &&& n.data.instructions == h.instructions
}

/// Whether node `n` at place `k` is built from one of `hats`.
pub open spec fn from_some_hat(n: GraphNode, hats: Seq<HatSpec>, k: int) -> bool {
    exists|j: int| 0 <= j < hats.len() && node_of(n, hats[j], k)
}

/// Whether hat `h` has a node in `nodes`.
pub open spec fn placed(nodes: Seq<GraphNode>, h: HatSpec) -> bool {
    exists|k: int| 0 <= k < nodes.len() && node_of(nodes[k], h, k)
}

/// Nodes in ascending order of key.
pub open spec fn keys_sorted(nodes: Seq<GraphNode>) -> bool {
    forall|i: int| 0 <= i < nodes.len() - 1 ==> lex_le((#[trigger] nodes[i]).data.key@, nodes[i + 1].data.key@)
}

/// An event name paired with its source, as sorted.
#[derive(Debug, Clone)]
pub struct Keyed {
    pub name: String,
    pub index: usize,
}

impl NamedById for Keyed {
    open spec fn key_name(&self) -> Seq<char> {
        self.name@
    }

    open spec fn key_id(&self) -> Seq<char> {
        self.name@
    }

    fn name_str(&self) -> (r: &str) {
        self.name.as_str()
    }

    fn id_str(&self) -> (r: &str) {
        self.name.as_str()
    }

    fn duplicate(&self) -> (r: Self) {
        Keyed { name: self.name.clone(), index: self.index }
    }
}

fn clone_opt(o: &Option<String>) -> (r: Option<String>)
    ensures
        r == *o,
{
    match o {
        Some(s) => Some(s.clone()),
        None => None,
    }
}

fn clone_strings(v: &Vec<String>) -> (r: Vec<String>)
    ensures
        r@ == v@,
{
    let mut out: Vec<String> = Vec::new();
    let mut i: usize = 0;
    while i < v.len()
        invariant
            0 <= i <= v@.len(),
            out@ == v@.subrange(0, i as int),
        decreases v@.len() - i,
    {
        out.push(v[i].clone());
        assert(out@ =~= v@.subrange(0, i + 1));
        i = i + 1;
    }
    assert(out@ =~= v@);
    out
}

fn build_node(h: &HatSpec, k: u64) -> (r: GraphNode)
    requires
        k < 92233720368547758,
    ensures
        node_of(r, *h, k as int),
{
    GraphNode {
        id: h.key.clone(),
        node_type: "hatNode".to_owned(),
        position: NodePosition { x: NODE_X, y: NODE_Y0 + NODE_STEP * k },
        data: HatNodeData {
            key: h.key.clone(),
            name: match &h.name {
                Some(x) => x.clone(),
                None => h.key.clone(),
            },
            description: match &h.description {
                Some(x) => x.clone(),
                None => String::new(),
            },
            triggers_on: clone_strings(&h.triggers),
            publishes: clone_strings(&h.publishes),
            instructions: clone_opt(&h.instructions),
        },
    }
}

/// One node per hat, in ascending order of key.
pub fn nodes_from_hats(hats: &Vec<HatSpec>) -> (r: Vec<GraphNode>)
    requires
        hats@.len() < 92233720368547758,
    ensures
        r@.len() == hats@.len(),
        keys_sorted(r@),
        forall|k: int| 0 <= k < r@.len() ==> from_some_hat(#[trigger] r@[k], hats@, k),
        forall|j: int| 0 <= j < hats@.len() ==> placed(r@, #[trigger] hats@[j]),
{
    broadcast use vstd::seq_lib::group_to_multiset_ensures;

    let mut keys: Vec<Keyed> = Vec::new();
    let mut i: usize = 0;
    while i < hats.len()
        invariant
            0 <= i <= hats@.len(),
            keys@.len() == i,
            forall|j: int| 0 <= j < i ==> (#[trigger] keys@[j]).index == j && keys@[j].name@ == hats@[j].key@,
        decreases hats@.len() - i,
    {
        keys.push(Keyed { name: hats[i].key.clone(), index: i });
        i = i + 1;
    }
    let sorted = sort_by_name_id(&keys);
    proof {
        assert(sorted@.len() == keys@.len()) by {
            assert(sorted@.to_multiset().len() == keys@.to_multiset().len());
        }
        assert forall|k: int| 0 <= k < sorted@.len() implies (#[trigger] sorted@[k]).index < hats@.len()
            && sorted@[k].name@ == hats@[sorted@[k].index as int].key@ by {
            assert(sorted@.to_multiset().contains(sorted@[k]));
            assert(keys@.to_multiset().contains(sorted@[k]));
            assert(keys@.contains(sorted@[k]));
        }
    }
    let mut nodes: Vec<GraphNode> = Vec::new();
    let mut k: usize = 0;
    while k < sorted.len()
        invariant
            sorted@.len() == hats@.len(),
            hats@.len() < 92233720368547758,
            0 <= k <= sorted@.len(),
            nodes@.len() == k,
            forall|m: int| 0 <= m < sorted@.len() ==> (#[trigger] sorted@[m]).index < hats@.len()
                && sorted@[m].name@ == hats@[sorted@[m].index as int].key@,
            forall|m: int| 0 <= m < k ==> node_of(#[trigger] nodes@[m], hats@[sorted@[m].index as int], m),
        decreases sorted@.len() - k,
    {
        let j = sorted[k].index;
        nodes.push(build_node(&hats[j], k as u64));
        k = k + 1;
    }
    proof {
        assert forall|m: int| 0 <= m < nodes@.len() - 1 implies lex_le(
            (#[trigger] nodes@[m]).data.key@,
            nodes@[m + 1].data.key@,
        ) by {
            assert(sorted_by_name_id(sorted@));
            assert(crate::ordering::name_id_le(sorted@[m], sorted@[m + 1]));
        }
        assert forall|m: int| 0 <= m < nodes@.len() implies from_some_hat(#[trigger] nodes@[m], hats@, m) by {
            let j = sorted@[m].index as int;
            assert(node_of(nodes@[m], hats@[j], m));
        }
        assert forall|j: int| 0 <= j < hats@.len() implies placed(nodes@, #[trigger] hats@[j]) by {
            assert(keys@[j].index == j);
            assert(keys@.to_multiset().contains(keys@[j]));
            assert(sorted@.to_multiset().contains(keys@[j]));
            assert(sorted@.contains(keys@[j]));
            let m = choose|m: int| 0 <= m < sorted@.len() && sorted@[m] == keys@[j];
            assert(node_of(nodes@[m], hats@[j], m));
        }
    }
    nodes
}

proof fn lemma_push_contains(s: Seq<Seq<char>>, x: Seq<char>)
    ensures
        forall|e: Seq<char>| #[trigger] s.push(x).contains(e) <==> (s.contains(e) || e == x),
{
    assert forall|e: Seq<char>| #[trigger] s.push(x).contains(e) <==> (s.contains(e) || e == x) by {
        if s.contains(e) {
            let m = choose|m: int| 0 <= m < s.len() && s[m] == e;
            assert(s.push(x)[m] == e);
        }
        if e == x {
            assert(s.push(x)[s.len() as int] == e);
        }
        if s.push(x).contains(e) {
            let m = choose|m: int| 0 <= m < s.len() + 1 && s.push(x)[m] == e;
            if m < s.len() {
                assert(s[m] == e);
            }
        }
    }
}

/// Whether node `n` publishes event `e`.
pub open spec fn publishes_event(n: GraphNode, e: Seq<char>) -> bool {
    views(n.data.publishes@).contains(e)
}

/// Whether node `n` is triggered by event `e`.
pub open spec fn triggered_by(n: GraphNode, e: Seq<char>) -> bool {
    views(n.data.triggers_on@).contains(e)
}

/// Whether some node publishes `e`.
pub open spec fn published(nodes: Seq<GraphNode>, e: Seq<char>) -> bool {
    exists|k: int| 0 <= k < nodes.len() && publishes_event(#[trigger] nodes[k], e)
}

/// Names in strictly ascending order.
pub open spec fn strictly_sorted(names: Seq<Seq<char>>) -> bool {
    forall|i: int| 0 <= i < names.len() - 1 ==> lex_le(#[trigger] names[i], names[i + 1]) && names[i] != names[i + 1]
}

pub open spec fn keyed_names(s: Seq<Keyed>) -> Seq<Seq<char>> {
    s.map_values(|x: Keyed| x.name@)
}

/// The names, ascending, each once.
fn unique_sorted(all: &Vec<Keyed>) -> (r: Vec<String>)
    ensures
        strictly_sorted(views(r@)),
        forall|e: Seq<char>| #[trigger] views(r@).contains(e) <==> keyed_names(all@).contains(e),
{
    broadcast use vstd::seq_lib::group_to_multiset_ensures;

    let sorted = sort_by_name_id(&all);
    proof {
        assert forall|e: Seq<char>| #[trigger] keyed_names(sorted@).contains(e) <==> keyed_names(all@).contains(e) by {
            if keyed_names(sorted@).contains(e) {
                let m = choose|m: int| 0 <= m < keyed_names(sorted@).len() && keyed_names(sorted@)[m] == e;
                assert(sorted@.to_multiset().contains(sorted@[m]));
                assert(all@.contains(sorted@[m]));
                let q = choose|q: int| 0 <= q < all@.len() && all@[q] == sorted@[m];
                assert(keyed_names(all@)[q] == e);
            }
            if keyed_names(all@).contains(e) {
                let m = choose|m: int| 0 <= m < keyed_names(all@).len() && keyed_names(all@)[m] == e;
                assert(all@.to_multiset().contains(all@[m]));
                assert(sorted@.contains(all@[m]));
                let q = choose|q: int| 0 <= q < sorted@.len() && sorted@[q] == all@[m];
                assert(keyed_names(sorted@)[q] == e);
            }
        }
    }
    let mut out: Vec<String> = Vec::new();
    let mut j: usize = 0;
    while j < sorted.len()
        invariant
            0 <= j <= sorted@.len(),
            sorted_by_name_id(sorted@),
            strictly_sorted(views(out@)),
            out@.len() > 0 ==> j > 0 && out@.last()@ == sorted@[j - 1].name@,
            j > 0 ==> out@.len() > 0,
            forall|e: Seq<char>|
                #[trigger] views(out@).contains(e) <==> keyed_names(sorted@.subrange(0, j as int)).contains(e),
        decreases sorted@.len() - j,
    {
        let ghost before = out@;
        let name = &sorted[j].name;
        let repeat = out.len() > 0 && str_eq(out[out.len() - 1].as_str(), name.as_str());
        if !repeat {
            out.push(name.clone());
            proof {
                if before.len() > 0 {
                    assert(crate::ordering::name_id_le(sorted@[j - 1], sorted@[j as int]));
                    assert(views(out@)[before.len() - 1] == sorted@[j - 1].name@);
                }
            }
        }
        proof {
            assert(keyed_names(sorted@.subrange(0, j + 1)) =~= keyed_names(sorted@.subrange(0, j as int)).push(
                sorted@[j as int].name@,
            ));
            lemma_push_contains(keyed_names(sorted@.subrange(0, j as int)), sorted@[j as int].name@);
            if !repeat {
                assert(views(out@) =~= views(before).push(sorted@[j as int].name@));
                lemma_push_contains(views(before), sorted@[j as int].name@);
            } else {
                assert(views(before)[before.len() - 1] == sorted@[j as int].name@);
                assert(sorted@[j - 1].name@ == sorted@[j as int].name@);
                assert(keyed_names(sorted@.subrange(0, j as int))[j - 1] == sorted@[j - 1].name@);
            }
        }
        j = j + 1;
    }
    assert(sorted@.subrange(0, j as int) =~= sorted@);
    out
}

/// The events that some node publishes, ascending, each once.
pub fn published_events(nodes: &Vec<GraphNode>) -> (r: Vec<String>)
    ensures
        strictly_sorted(views(r@)),
        forall|e: Seq<char>| #[trigger] views(r@).contains(e) <==> published(nodes@, e),
{
    broadcast use vstd::seq_lib::group_to_multiset_ensures;

    let mut all: Vec<Keyed> = Vec::new();
    let mut i: usize = 0;
    while i < nodes.len()
        invariant
            0 <= i <= nodes@.len(),
            forall|e: Seq<char>|
                #[trigger] keyed_names(all@).contains(e) <==> exists|k: int| 0 <= k < i && publishes_event(nodes@[k], e),
        decreases nodes@.len() - i,
    {
        let pubs = &nodes[i].data.publishes;
        let mut p: usize = 0;
        while p < pubs.len()
            invariant
                0 <= i < nodes@.len(),
                pubs@ == nodes@[i as int].data.publishes@,
                0 <= p <= pubs@.len(),
                forall|e: Seq<char>|
                    #[trigger] keyed_names(all@).contains(e) <==> (exists|k: int| 0 <= k < i && publishes_event(nodes@[k], e))
                        || views(pubs@.subrange(0, p as int)).contains(e),
            decreases pubs@.len() - p,
        {
            let ghost before = all@;
            all.push(Keyed { name: pubs[p].clone(), index: 0 });
            proof {
                assert(keyed_names(all@) =~= keyed_names(before).push(pubs@[p as int]@));
                assert(views(pubs@.subrange(0, p + 1)) =~= views(pubs@.subrange(0, p as int)).push(pubs@[p as int]@));
                lemma_push_contains(keyed_names(before), pubs@[p as int]@);
                lemma_push_contains(views(pubs@.subrange(0, p as int)), pubs@[p as int]@);
            }
            p = p + 1;
        }
        proof {
            assert(views(pubs@.subrange(0, p as int)) =~= views(nodes@[i as int].data.publishes@));
            assert forall|e: Seq<char>| #[trigger] keyed_names(all@).contains(e) <==> exists|k: int|
                0 <= k < i + 1 && publishes_event(nodes@[k], e) by {
                if publishes_event(nodes@[i as int], e) {
                    assert(0 <= i < i + 1);
                }
            }
        }
        i = i + 1;
    }
    let out = unique_sorted(&all);
    proof {
        assert forall|e: Seq<char>| #[trigger] views(out@).contains(e) <==> published(nodes@, e) by {
            if published(nodes@, e) {
                let k = choose|k: int| 0 <= k < nodes@.len() && publishes_event(#[trigger] nodes@[k], e);
                assert(exists|k: int| 0 <= k < nodes@.len() && publishes_event(nodes@[k], e));
            }
        }
    }
    out
}

/// The ids of the nodes that publish (or, with `publish` false, are
/// triggered by) event `e`, in node order.
pub open spec fn ids_for(nodes: Seq<GraphNode>, e: Seq<char>, publish: bool) -> Seq<Seq<char>> {
    nodes.filter(
        |n: GraphNode|
            if publish {
                publishes_event(n, e)
            } else {
                triggered_by(n, e)
            },
    ).map_values(|n: GraphNode| n.id@)
}

/// The edges from publisher `p` to each subscriber but itself.
pub open spec fn pairs_for(p: Seq<char>, subs: Seq<Seq<char>>, e: Seq<char>) -> Seq<(Seq<char>, Seq<char>, Seq<char>)>
    decreases subs.len(),
{
    if subs.len() == 0 {
        Seq::empty()
    } else {
        let r = pairs_for(p, subs.drop_last(), e);
        if subs.last() != p {
            r.push((p, subs.last(), e))
        } else {
            r
        }
    }
}

/// Publishers times subscribers of one event.
pub open spec fn event_pairs(pubs: Seq<Seq<char>>, subs: Seq<Seq<char>>, e: Seq<char>) -> Seq<(Seq<char>, Seq<char>, Seq<char>)>
    decreases pubs.len(),
{
    if pubs.len() == 0 {
        Seq::empty()
    } else {
        event_pairs(pubs.drop_last(), subs, e) + pairs_for(pubs.last(), subs, e)
    }
}

/// The candidate edges, event by event.
pub open spec fn candidate_edges(nodes: Seq<GraphNode>, events: Seq<Seq<char>>) -> Seq<(Seq<char>, Seq<char>, Seq<char>)>
    decreases events.len(),
{
    if events.len() == 0 {
        Seq::empty()
    } else {
        candidate_edges(nodes, events.drop_last()) + event_pairs(
            ids_for(nodes, events.last(), true),
            ids_for(nodes, events.last(), false),
            events.last(),
        )
    }
}

/// `s` with each triple kept at its first place only.
pub open spec fn dedup_edges(s: Seq<(Seq<char>, Seq<char>, Seq<char>)>) -> Seq<(Seq<char>, Seq<char>, Seq<char>)>
    decreases s.len(),
{
    if s.len() == 0 {
        s
    } else {
        let d = dedup_edges(s.drop_last());
        if d.contains(s.last()) {
            d
        } else {
            d.push(s.last())
        }
    }
}

/// The edges of a graph with these nodes, for the events in this order:
/// (source, target, event) triples.
pub open spec fn derived_edges(nodes: Seq<GraphNode>, events: Seq<Seq<char>>) -> Seq<(Seq<char>, Seq<char>, Seq<char>)> {
    dedup_edges(candidate_edges(nodes, events))
}

/// Whether `g` is edge number `i`, for triple `t`: id `edge-<i>`, the event
/// as both handles and as label.
pub open spec fn edge_is(g: GraphEdge, t: (Seq<char>, Seq<char>, Seq<char>), i: int) -> bool {
    &&& g.id@ == "edge-"@ + decimal(i as nat)
    &&& g.source@ == t.0
    &&& g.target@ == t.1
    &&& g.source_handle matches Some(h) && h@ == t.2
    &&& g.target_handle matches Some(h) && h@ == t.2
    &&& g.label matches Some(h) && h@ == t.2
}

pub open spec fn triple_views(s: Seq<(String, String, String)>) -> Seq<(Seq<char>, Seq<char>, Seq<char>)> {
    s.map_values(|t: (String, String, String)| (t.0@, t.1@, t.2@))
}

fn ids_where(nodes: &Vec<GraphNode>, e: &str, publish: bool) -> (r: Vec<String>)
    ensures
        views(r@) == ids_for(nodes@, e@, publish),
{
    let ghost pred = |n: GraphNode|
        if publish {
            publishes_event(n, e@)
        } else {
            triggered_by(n, e@)
        };
    let mut out: Vec<String> = Vec::new();
    let mut k: usize = 0;
    while k < nodes.len()
        invariant
            0 <= k <= nodes@.len(),
            pred == (|n: GraphNode|
                if publish {
                    publishes_event(n, e@)
                } else {
                    triggered_by(n, e@)
                }),
            views(out@) == nodes@.subrange(0, k as int).filter(pred).map_values(|n: GraphNode| n.id@),
        decreases nodes@.len() - k,
    {
        let n = &nodes[k];
        let hit = if publish {
            crate::stream_domain::strings_contain(&n.data.publishes, e)
        } else {
            crate::stream_domain::strings_contain(&n.data.triggers_on, e)
        };
        let ghost before = out@;
        if hit {
            out.push(n.id.clone());
        }
        proof {
            reveal(Seq::filter);
            let f = nodes@.subrange(0, k as int).filter(pred);
            assert(nodes@.subrange(0, k + 1).drop_last() =~= nodes@.subrange(0, k as int));
            if hit {
                assert(nodes@.subrange(0, k + 1).filter(pred) == f.push(nodes@[k as int]));
                assert(f.push(nodes@[k as int]).map_values(|n: GraphNode| n.id@) =~= f.map_values(|n: GraphNode| n.id@).push(
                    nodes@[k as int].id@,
                ));
                assert(views(out@) =~= views(before).push(nodes@[k as int].id@));
            } else {
                assert(nodes@.subrange(0, k + 1).filter(pred) == f);
            }
        }
        k = k + 1;
    }
    assert(nodes@.subrange(0, k as int) =~= nodes@);
    out
}

fn triple_in(v: &Vec<(String, String, String)>, t: &(String, String, String)) -> (r: bool)
    ensures
        r == triple_views(v@).contains((t.0@, t.1@, t.2@)),
{
    let mut i: usize = 0;
    while i < v.len()
        invariant
            0 <= i <= v@.len(),
            forall|j: int| 0 <= j < i ==> (#[trigger] triple_views(v@)[j]) != (t.0@, t.1@, t.2@),
        decreases v@.len() - i,
    {
        if str_eq(v[i].0.as_str(), t.0.as_str()) && str_eq(v[i].1.as_str(), t.1.as_str()) && str_eq(
            v[i].2.as_str(),
            t.2.as_str(),
        ) {
            assert(triple_views(v@)[i as int] == (t.0@, t.1@, t.2@));
            return true;
        }
        i = i + 1;
    }
    false
}

/// The edges for `events`, numbered in order.
pub fn derive_edges(nodes: &Vec<GraphNode>, events: &Vec<String>) -> (r: Vec<GraphEdge>)
    ensures
        r@.len() == derived_edges(nodes@, views(events@)).len(),
        forall|i: int| 0 <= i < r@.len() ==> edge_is(#[trigger] r@[i], derived_edges(nodes@, views(events@))[i], i),
{
    let ghost evs = views(events@);
    let mut cands: Vec<(String, String, String)> = Vec::new();
    let mut i: usize = 0;
    while i < events.len()
        invariant
            evs == views(events@),
            0 <= i <= events@.len(),
            triple_views(cands@) == candidate_edges(nodes@, evs.subrange(0, i as int)),
        decreases events@.len() - i,
    {
        let e = &events[i];
        let ps = ids_where(nodes, e.as_str(), true);
        let ss = ids_where(nodes, e.as_str(), false);
        let ghost base = triple_views(cands@);
        let mut a: usize = 0;
        while a < ps.len()
            invariant
                0 <= a <= ps@.len(),
                triple_views(cands@) == base + event_pairs(views(ps@).subrange(0, a as int), views(ss@), e@),
            decreases ps@.len() - a,
        {
            let ghost mid = triple_views(cands@);
            let mut b: usize = 0;
            while b < ss.len()
                invariant
                    0 <= a < ps@.len(),
                    0 <= b <= ss@.len(),
                    triple_views(cands@) == mid + pairs_for(ps@[a as int]@, views(ss@).subrange(0, b as int), e@),
                decreases ss@.len() - b,
            {
                let ghost before = triple_views(cands@);
                let ghost sub = views(ss@).subrange(0, b + 1);
                assert(sub.drop_last() =~= views(ss@).subrange(0, b as int));
                assert(sub.last() == ss@[b as int]@);
                if !str_eq(ps[a].as_str(), ss[b].as_str()) {
                    cands.push((ps[a].clone(), ss[b].clone(), e.clone()));
                    assert(triple_views(cands@) =~= before.push((ps@[a as int]@, ss@[b as int]@, e@)));
                    assert(mid + pairs_for(ps@[a as int]@, sub, e@) =~= (mid + pairs_for(
                        ps@[a as int]@,
                        views(ss@).subrange(0, b as int),
                        e@,
                    )).push((ps@[a as int]@, ss@[b as int]@, e@)));
                }
                b = b + 1;
            }
            proof {
                let pre = views(ps@).subrange(0, a + 1);
                assert(pre.drop_last() =~= views(ps@).subrange(0, a as int));
                assert(pre.last() == ps@[a as int]@);
                assert(views(ss@).subrange(0, b as int) =~= views(ss@));
                assert(base + event_pairs(pre, views(ss@), e@) =~= base + event_pairs(
                    views(ps@).subrange(0, a as int),
                    views(ss@),
                    e@,
                ) + pairs_for(ps@[a as int]@, views(ss@), e@));
            }
            a = a + 1;
        }
        proof {
            assert(views(ps@).subrange(0, a as int) =~= views(ps@));
            let pre = evs.subrange(0, i + 1);
            assert(pre.drop_last() =~= evs.subrange(0, i as int));
            assert(pre.last() == e@);
        }
        i = i + 1;
    }
    assert(evs.subrange(0, i as int) =~= evs);
    let ghost all = triple_views(cands@);
    let mut seen: Vec<(String, String, String)> = Vec::new();
    let mut edges: Vec<GraphEdge> = Vec::new();
    let mut m: usize = 0;
    while m < cands.len()
        invariant
            all == triple_views(cands@),
            0 <= m <= cands@.len(),
            triple_views(seen@) == dedup_edges(all.subrange(0, m as int)),
            edges@.len() == seen@.len(),
            seen@.len() <= m,
            forall|j: int| 0 <= j < edges@.len() ==> edge_is(#[trigger] edges@[j], triple_views(seen@)[j], j),
        decreases cands@.len() - m,
    {
        let t = &cands[m];
        let ghost pre = all.subrange(0, m + 1);
        assert(pre.drop_last() =~= all.subrange(0, m as int));
        assert(pre.last() == (t.0@, t.1@, t.2@));
        if !triple_in(&seen, t) {
            let mut id = "edge-".to_owned();
            push_decimal(&mut id, seen.len() as u64);
            let ghost before = triple_views(seen@);
            edges.push(
                GraphEdge {
                    id,
                    source: t.0.clone(),
                    target: t.1.clone(),
                    source_handle: Some(t.2.clone()),
                    target_handle: Some(t.2.clone()),
                    label: Some(t.2.clone()),
                },
            );
            seen.push((t.0.clone(), t.1.clone(), t.2.clone()));
            assert(triple_views(seen@) =~= before.push((t.0@, t.1@, t.2@)));
        }
        m = m + 1;
    }
    assert(all.subrange(0, m as int) =~= all);
    edges
}

/// The graph of a collection from its hats: nodes in key order at x 250 and
/// y 50 + 200k, and the edges derived for the published events in
/// ascending order.
pub fn graph_from_hats(hats: &Vec<HatSpec>) -> (r: GraphData)
    requires
        hats@.len() < 92233720368547758,
    ensures
        r.nodes@.len() == hats@.len(),
        keys_sorted(r.nodes@),
        forall|k: int| 0 <= k < r.nodes@.len() ==> from_some_hat(#[trigger] r.nodes@[k], hats@, k),
        forall|j: int| 0 <= j < hats@.len() ==> placed(r.nodes@, #[trigger] hats@[j]),
        exists|events: Seq<Seq<char>>|
            strictly_sorted(events) && (forall|e: Seq<char>| #[trigger] events.contains(e) <==> published(r.nodes@, e))
                && r.edges@.len() == derived_edges(r.nodes@, events).len() && forall|i: int|
                0 <= i < r.edges@.len() ==> edge_is(#[trigger] r.edges@[i], derived_edges(r.nodes@, events)[i], i),
{
    let nodes = nodes_from_hats(hats);
    let events = published_events(&nodes);
    let edges = derive_edges(&nodes, &events);
    proof {
        assert(strictly_sorted(views(events@)));
    }
    GraphData { nodes, edges }
}

/// The event an edge carries: its label when not blank, else
/// `<source>_to_<target>`.
pub open spec fn edge_event_name(g: GraphEdge) -> Seq<char> {
    match g.label {
        Some(l) => if trim(l@).len() > 0 {
            l@
        } else {
            g.source@ + "_to_"@ + g.target@
        },
        None => g.source@ + "_to_"@ + g.target@,
    }
}

pub fn edge_event(g: &GraphEdge) -> (r: String)
    ensures
        r@ == edge_event_name(*g),
{
    if let Some(l) = &g.label {
        if trim_str(l.as_str()).unicode_len() > 0 {
            return l.clone();
        }
    }
    let mut r = g.source.clone();
    r.append("_to_");
    r.append(g.target.as_str());
    r
}

/// One hat of an exported collection.
#[derive(Debug, Clone)]
pub struct ExportHat {
    pub key: String,
    pub name: String,
    pub description: String,
    pub triggers: Vec<String>,
    pub publishes: Vec<String>,
    pub instructions: Option<String>,
    pub default_publishes: Option<String>,
}

/// A collection as a hat preset: fixed loop settings, the hats in key
/// order, and the events that its edges carry.
#[derive(Debug, Clone)]
pub struct ExportModel {
    pub completion_promise: String,
    pub starting_event: String,
    pub max_iterations: u32,
    pub prompt_mode: String,
    pub hats: Vec<ExportHat>,
    pub events: Vec<String>,
}

/// Whether event `e` reaches node `n` through an edge (as target, or with
/// `outgoing` as source).
pub open spec fn edge_touches(edges: Seq<GraphEdge>, n: GraphNode, e: Seq<char>, outgoing: bool) -> bool {
    exists|j: int|
        0 <= j < edges.len() && (if outgoing {
            (#[trigger] edges[j]).source@ == n.id@
        } else {
            edges[j].target@ == n.id@
        }) && edge_event_name(edges[j]) == e
}

/// Whether `h` is the exported form of node `n` among `edges`.
pub open spec fn hat_of(h: ExportHat, n: GraphNode, edges: Seq<GraphEdge>) -> bool {
    &&& h.key == n.data.key
    &&& h.name == n.data.name
    &&& h.description == n.data.description
    &&& h.instructions == n.data.instructions
    &&& strictly_sorted(views(h.triggers@))
    &&& strictly_sorted(views(h.publishes@))
    &&& forall|e: Seq<char>| #[trigger] views(h.triggers@).contains(e) <==> triggered_by(n, e) || edge_touches(edges, n, e, false)
    &&& forall|e: Seq<char>| #[trigger] views(h.publishes@).contains(e) <==> publishes_event(n, e) || edge_touches(edges, n, e, true)
    &&& h.default_publishes == (if h.publishes@.len() > 0 {
        Some(h.publishes@[0])
    } else {
        None
    })
}

/// Whether `h` is the exported form of one of `nodes`.
pub open spec fn from_some_node(h: ExportHat, nodes: Seq<GraphNode>, edges: Seq<GraphEdge>) -> bool {
    exists|k: int| 0 <= k < nodes.len() && hat_of(h, nodes[k], edges)
}

/// Whether node `n` has an exported form among `hats`.
pub open spec fn exported(hats: Seq<ExportHat>, n: GraphNode, edges: Seq<GraphEdge>) -> bool {
    exists|i: int| 0 <= i < hats.len() && hat_of(hats[i], n, edges)
}

/// Key, then id: the order of exported hats.
#[derive(Debug, Clone)]
pub struct KeyId {
    pub key: String,
    pub id: String,
    pub index: usize,
}

impl NamedById for KeyId {
    open spec fn key_name(&self) -> Seq<char> {
        self.key@
    }

    open spec fn key_id(&self) -> Seq<char> {
        self.id@
    }

    fn name_str(&self) -> (r: &str) {
        self.key.as_str()
    }

    fn id_str(&self) -> (r: &str) {
        self.id.as_str()
    }

    fn duplicate(&self) -> (r: Self) {
        KeyId { key: self.key.clone(), id: self.id.clone(), index: self.index }
    }
}

fn push_all(all: &mut Vec<Keyed>, v: &Vec<String>)
    ensures
        forall|e: Seq<char>| #[trigger] keyed_names(final(all)@).contains(e) <==> keyed_names(old(all)@).contains(e) || views(v@).contains(e),
{
    let mut p: usize = 0;
    while p < v.len()
        invariant
            0 <= p <= v@.len(),
            forall|e: Seq<char>|
                #[trigger] keyed_names(all@).contains(e) <==> keyed_names(old(all)@).contains(e) || views(v@.subrange(0, p as int)).contains(e),
        decreases v@.len() - p,
    {
        let ghost before = all@;
        all.push(Keyed { name: v[p].clone(), index: 0 });
        proof {
            assert(keyed_names(all@) =~= keyed_names(before).push(v@[p as int]@));
            assert(views(v@.subrange(0, p + 1)) =~= views(v@.subrange(0, p as int)).push(v@[p as int]@));
            lemma_push_contains(keyed_names(before), v@[p as int]@);
            lemma_push_contains(views(v@.subrange(0, p as int)), v@[p as int]@);
        }
        p = p + 1;
    }
    assert(v@.subrange(0, p as int) =~= v@);
}

/// The events of `n`'s own list plus those that edges bring to it.
fn hat_events(n: &GraphNode, edges: &Vec<GraphEdge>, outgoing: bool) -> (r: Vec<String>)
    ensures
        strictly_sorted(views(r@)),
        forall|e: Seq<char>| #[trigger] views(r@).contains(e) <==> (if outgoing {
            publishes_event(*n, e)
        } else {
            triggered_by(*n, e)
        }) || edge_touches(edges@, *n, e, outgoing),
{
    let mut all: Vec<Keyed> = Vec::new();
    if outgoing {
        push_all(&mut all, &n.data.publishes);
    } else {
        push_all(&mut all, &n.data.triggers_on);
    }
    let mut j: usize = 0;
    while j < edges.len()
        invariant
            0 <= j <= edges@.len(),
            forall|e: Seq<char>| #[trigger] keyed_names(all@).contains(e) <==> (if outgoing {
                publishes_event(*n, e)
            } else {
                triggered_by(*n, e)
            }) || edge_touches(edges@.subrange(0, j as int), *n, e, outgoing),
        decreases edges@.len() - j,
    {
        let g = &edges[j];
        let hit = if outgoing {
            str_eq(g.source.as_str(), n.id.as_str())
        } else {
            str_eq(g.target.as_str(), n.id.as_str())
        };
        let ghost before = all@;
        if hit {
            all.push(Keyed { name: edge_event(g), index: 0 });
        }
        proof {
            let pre = edges@.subrange(0, j as int);
            let post = edges@.subrange(0, j + 1);
            if hit {
                assert(keyed_names(all@) =~= keyed_names(before).push(edge_event_name(edges@[j as int])));
                lemma_push_contains(keyed_names(before), edge_event_name(edges@[j as int]));
            } else {
                assert(all@ == before);
            }
            assert forall|e: Seq<char>| edge_touches(post, *n, e, outgoing) <==> edge_touches(pre, *n, e, outgoing) || (hit
                && edge_event_name(edges@[j as int]) == e) by {
                if edge_touches(post, *n, e, outgoing) {
                    let q = choose|q: int| 0 <= q < post.len() && (if outgoing {
                        (#[trigger] post[q]).source@ == n.id@
                    } else {
                        post[q].target@ == n.id@
                    }) && edge_event_name(post[q]) == e;
                    if q < j {
                        assert(pre[q] == post[q]);
                    }
                }
                if edge_touches(pre, *n, e, outgoing) {
                    let q = choose|q: int| 0 <= q < pre.len() && (if outgoing {
                        (#[trigger] pre[q]).source@ == n.id@
                    } else {
                        pre[q].target@ == n.id@
                    }) && edge_event_name(pre[q]) == e;
                    assert(post[q] == pre[q]);
                }
                if hit && edge_event_name(edges@[j as int]) == e {
                    assert(post[j as int] == edges@[j as int]);
                }
            }
        }
        j = j + 1;
    }
    assert(edges@.subrange(0, j as int) =~= edges@);
    unique_sorted(&all)
}

fn copy_string_opt(o: &Option<String>) -> (r: Option<String>)
    ensures
        r == *o,
{
    match o {
        Some(s) => Some(s.clone()),
        None => None,
    }
}

/// The hat preset a collection graph exports to.
pub fn export_model(graph: &GraphData) -> (r: ExportModel)
    ensures
        r.completion_promise@ == "LOOP_COMPLETE"@,
        r.starting_event@ == "task.start"@,
        r.max_iterations == 50,
        r.prompt_mode@ == "arg"@,
        r.hats@.len() == graph.nodes@.len(),
        forall|i: int|
            0 <= i < r.hats@.len() - 1 ==> lex_le((#[trigger] r.hats@[i]).key@, r.hats@[i + 1].key@),
        forall|i: int| 0 <= i < r.hats@.len() ==> from_some_node(#[trigger] r.hats@[i], graph.nodes@, graph.edges@),
        forall|k: int| 0 <= k < graph.nodes@.len() ==> exported(r.hats@, #[trigger] graph.nodes@[k], graph.edges@),
        strictly_sorted(views(r.events@)),
        forall|e: Seq<char>| #[trigger] views(r.events@).contains(e) <==> exists|j: int|
            0 <= j < graph.edges@.len() && edge_event_name(#[trigger] graph.edges@[j]) == e,
{
    broadcast use vstd::seq_lib::group_to_multiset_ensures;

    let nodes = &graph.nodes;
    let edges = &graph.edges;
    let mut order: Vec<KeyId> = Vec::new();
    let mut i: usize = 0;
    while i < nodes.len()
        invariant
            0 <= i <= nodes@.len(),
            order@.len() == i,
            forall|j: int| 0 <= j < i ==> (#[trigger] order@[j]).index == j && order@[j].key@ == nodes@[j].data.key@,
        decreases nodes@.len() - i,
    {
        order.push(KeyId { key: nodes[i].data.key.clone(), id: nodes[i].id.clone(), index: i });
        i = i + 1;
    }
    let sorted = sort_by_name_id(&order);
    proof {
        assert(sorted@.len() == order@.len()) by {
            assert(sorted@.to_multiset().len() == order@.to_multiset().len());
        }
        assert forall|k: int| 0 <= k < sorted@.len() implies (#[trigger] sorted@[k]).index < nodes@.len()
            && sorted@[k].key@ == nodes@[sorted@[k].index as int].data.key@ by {
            assert(sorted@.to_multiset().contains(sorted@[k]));
            assert(order@.contains(sorted@[k]));
        }
    }
    let mut hats: Vec<ExportHat> = Vec::new();
    let mut k: usize = 0;
    while k < sorted.len()
        invariant
            sorted@.len() == nodes@.len(),
            0 <= k <= sorted@.len(),
            hats@.len() == k,
            forall|m: int| 0 <= m < sorted@.len() ==> (#[trigger] sorted@[m]).index < nodes@.len()
                && sorted@[m].key@ == nodes@[sorted@[m].index as int].data.key@,
            forall|m: int| 0 <= m < k ==> hat_of(#[trigger] hats@[m], nodes@[sorted@[m].index as int], edges@),
        decreases sorted@.len() - k,
    {
        let n = &nodes[sorted[k].index];
        let triggers = hat_events(n, edges, false);
        let publishes = hat_events(n, edges, true);
        let default_publishes = if publishes.len() > 0 {
            Some(publishes[0].clone())
        } else {
            None
        };
        hats.push(
            ExportHat {
                key: n.data.key.clone(),
                name: n.data.name.clone(),
                description: n.data.description.clone(),
                triggers,
                publishes,
                instructions: copy_string_opt(&n.data.instructions),
                default_publishes,
            },
        );
        k = k + 1;
    }
    let mut all: Vec<Keyed> = Vec::new();
    let mut j: usize = 0;
    while j < edges.len()
        invariant
            0 <= j <= edges@.len(),
            forall|e: Seq<char>| #[trigger] keyed_names(all@).contains(e) <==> exists|q: int|
                0 <= q < j && edge_event_name(#[trigger] edges@[q]) == e,
        decreases edges@.len() - j,
    {
        let ghost before = all@;
        all.push(Keyed { name: edge_event(&edges[j]), index: 0 });
        proof {
            assert(keyed_names(all@) =~= keyed_names(before).push(edge_event_name(edges@[j as int])));
            lemma_push_contains(keyed_names(before), edge_event_name(edges@[j as int]));
        }
        j = j + 1;
    }
    let events = unique_sorted(&all);
    proof {
        assert forall|m: int| 0 <= m < hats@.len() - 1 implies lex_le((#[trigger] hats@[m]).key@, hats@[m + 1].key@) by {
            assert(crate::ordering::name_id_le(sorted@[m], sorted@[m + 1]));
            if sorted@[m].key@ == sorted@[m + 1].key@ {
                crate::ordering::lemma_lex_refl(hats@[m].key@);
            }
        }
        assert forall|m: int| 0 <= m < hats@.len() implies from_some_node(#[trigger] hats@[m], nodes@, edges@) by {
            let q = sorted@[m].index as int;
            assert(hat_of(hats@[m], nodes@[q], edges@));
        }
        assert forall|q: int| 0 <= q < nodes@.len() implies exported(hats@, #[trigger] nodes@[q], edges@) by {
            assert(order@[q].index == q);
            assert(order@.to_multiset().contains(order@[q]));
            assert(sorted@.contains(order@[q]));
            let m = choose|m: int| 0 <= m < sorted@.len() && sorted@[m] == order@[q];
            assert(hat_of(hats@[m], nodes@[q], edges@));
        }
    }
    ExportModel {
        completion_promise: "LOOP_COMPLETE".to_owned(),
        starting_event: "task.start".to_owned(),
        max_iterations: 50,
        prompt_mode: "arg".to_owned(),
        hats,
        events,
    }
}

} // verus!
