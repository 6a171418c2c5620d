//! The dependency graph of a workflow and its topological order.
//!
//! Step `i` (counting from one) gets the id `step<i>`; its parents are the step it
//! takes its input from and the steps it depends on. The order runs every parent
//! before its children, and a cycle is reported naming a step on it.
use vstd::prelude::*;
use crate::text::{
    chars_of, decimal, decimal_chars, lemma_decimal_injective, push_all, push_str, str_eq, string_of,
    views,
};
use crate::workflow_types::{clone_strings, same_step, DagNode, WorkflowStep};
use crate::plugin_info::{
    compatible, lemma_same_kind_is_compatible, output_of_kind, input_type_name, output_type_name, primary_io, primary_io_types, types_compatible,
    PluginInfo, PluginInputType, PluginOutputType,
};

verus! {

/// The id of the step at position `i` (from zero): `step<i + 1>`.
pub open spec fn step_id(i: int) -> Seq<char> {
    "step"@ + decimal((i + 1) as nat)
}

/// The parents a step declares: its input source first, then its dependencies.
pub open spec fn declared_parents(step: WorkflowStep) -> Seq<Seq<char>> {
    let first: Seq<Seq<char>> = match step.input_from {
        Some(s) => seq![s@],
        None => Seq::empty(),
    };
    let rest: Seq<Seq<char>> = match step.depends_on {
        Some(v) => views(v@),
        None => Seq::empty(),
    };
    first + rest
}

/// The ids of `nodes`, in order.
pub open spec fn node_ids(nodes: Seq<DagNode>) -> Seq<Seq<char>> {
    nodes.map_values(|n: DagNode| n.id@)
}

/// The parent ids of a node.
pub open spec fn parents_of(n: DagNode) -> Seq<Seq<char>> {
    views(n.parents@)
}

/// The node an id names: the last one carrying it.
pub open spec fn find_node(nodes: Seq<DagNode>, id: Seq<char>) -> Option<int>
    decreases nodes.len(),
{
    if nodes.len() == 0 {
        None
    } else if nodes.last().id@ == id {
        Some(nodes.len() - 1)
    } else {
        find_node(nodes.drop_last(), id)
    }
}

/// No two nodes carry the same id.
pub open spec fn distinct_ids(nodes: Seq<DagNode>) -> bool {
    node_ids(nodes).no_duplicates()
}

/// A node with id `a` names `b` as a parent, and `b` is the id of a node.
pub open spec fn id_edge(nodes: Seq<DagNode>, a: Seq<char>, b: Seq<char>) -> bool {
    &&& exists|i: int|
        0 <= i < nodes.len() && (#[trigger] nodes[i]).id@ == a && parents_of(nodes[i]).contains(b)
    &&& find_node(nodes, b) is Some
}

/// `p` follows parent links from its first id to its last, over at least one link.
pub open spec fn is_walk(nodes: Seq<DagNode>, p: Seq<Seq<char>>) -> bool {
    &&& p.len() >= 2
    &&& forall|k: int| 0 <= k < p.len() - 1 ==> #[trigger] id_edge(nodes, p[k], p[k + 1])
}

/// Following parent links from `x` can lead back to `x`.
pub open spec fn on_cycle(nodes: Seq<DagNode>, x: Seq<char>) -> bool {
    exists|p: Seq<Seq<char>>| #[trigger] is_walk(nodes, p) && p[0] == x && p.last() == x
}

/// Every node's parents that name nodes come before it in `order` (each id's node
/// being the one it names).
pub open spec fn parents_first(nodes: Seq<DagNode>, order: Seq<Seq<char>>) -> bool {
    forall|k: int, p: Seq<char>|
        0 <= k < order.len() && find_node(nodes, order[k]) is Some && parents_of(
            nodes[find_node(nodes, order[k])->0],
        ).contains(p) && find_node(nodes, p) is Some ==> exists|j: int|
            0 <= j < k && #[trigger] order[j] == p
}

/// The message for a cycle through `x`.
pub open spec fn cycle_message(x: Seq<char>) -> Seq<char> {
    "Circular dependency detected involving "@ + x
}

proof fn lemma_find_node(nodes: Seq<DagNode>, id: Seq<char>)
    ensures
        match find_node(nodes, id) {
            Some(i) => 0 <= i < nodes.len() && nodes[i].id@ == id && forall|j: int|
                i < j < nodes.len() ==> nodes[j].id@ != id,
            None => forall|j: int| 0 <= j < nodes.len() ==> nodes[j].id@ != id,
        },
    decreases nodes.len(),
{
    if nodes.len() > 0 {
        let d = nodes.drop_last();
        lemma_find_node(d, id);
        assert(forall|j: int| 0 <= j < d.len() ==> d[j] == nodes[j]);
    }
}

proof fn lemma_find_distinct(nodes: Seq<DagNode>, i: int)
    requires
        distinct_ids(nodes),
        0 <= i < nodes.len(),
    ensures
        find_node(nodes, nodes[i].id@) == Some(i),
{
    lemma_find_node(nodes, nodes[i].id@);
    let f = find_node(nodes, nodes[i].id@);
    if f != Some(i) {
        let j = f->0;
        assert(node_ids(nodes)[i] == node_ids(nodes)[j]);
    }
}

/// A repeat-free list of ids of nodes is no longer than the list of nodes.
proof fn lemma_distinct_bound(vs: Seq<Seq<char>>, nodes: Seq<DagNode>)
    requires
        vs.no_duplicates(),
        forall|k: int| 0 <= k < vs.len() ==> node_ids(nodes).contains(#[trigger] vs[k]),
    ensures
        vs.len() <= nodes.len(),
{
    vs.unique_seq_to_set();
    let ids = node_ids(nodes);
    ids.lemma_cardinality_of_set();
    assert(vs.to_set().subset_of(ids.to_set())) by {
        assert forall|x: Seq<char>| vs.to_set().contains(x) implies ids.to_set().contains(x) by {
            let k = choose|k: int| 0 <= k < vs.len() && vs[k] == x;
            assert(ids.contains(vs[k]));
        }
    }
    vstd::set_lib::lemma_len_subset(vs.to_set(), ids.to_set());
}

/// The node an id names, searching from the end as `find_node` does.
fn lookup(nodes: &[DagNode], id: &str) -> (r: Option<usize>)
    ensures
        match r {
            Some(i) => find_node(nodes@, id@) == Some(i as int),
            None => find_node(nodes@, id@) is None,
        },
{
    let mut i: usize = nodes.len();
    assert(nodes@.subrange(0, i as int) =~= nodes@);
    while i > 0
        invariant
            i <= nodes@.len(),
            find_node(nodes@, id@) == find_node(nodes@.subrange(0, i as int), id@),
        decreases i,
    {
        let ghost pre = nodes@.subrange(0, i as int);
        assert(pre.drop_last() =~= nodes@.subrange(0, i - 1));
        if str_eq(nodes[i - 1].id.as_str(), id) {
            return Some(i - 1);
        }
        i = i - 1;
    }
    None
}

fn index_of(v: &Vec<String>, s: &str) -> (r: Option<usize>)
    ensures
        match r {
            Some(k) => k < v@.len() && v@[k as int]@ == s@,
            None => !views(v@).contains(s@),
        },
{
    let mut k: usize = 0;
    while k < v.len()
        invariant
            k <= v@.len(),
            forall|j: int| 0 <= j < k ==> (#[trigger] v@[j])@ != s@,
        decreases v@.len() - k,
    {
        if str_eq(v[k].as_str(), s) {
            return Some(k);
        }
        k = k + 1;
    }
    assert(!views(v@).contains(s@)) by {
        if views(v@).contains(s@) {
            let j = choose|j: int| 0 <= j < views(v@).len() && views(v@)[j] == s@;
            assert(v@[j]@ == s@);
        }
    }
    None
}

/// The graph of `steps`: one node per step, in order, with id `step<i>` and the
/// parents the step declares. Never fails.
pub fn build_dag(steps: &[WorkflowStep]) -> (r: Result<Vec<DagNode>, String>)
    ensures
        r matches Ok(nodes) && nodes@.len() == steps@.len() && forall|i: int|
            0 <= i < steps@.len() ==> {
                &&& (#[trigger] nodes@[i]).id@ == step_id(i)
                &&& same_step(nodes@[i].step, steps@[i])
                &&& parents_of(nodes@[i]) == declared_parents(steps@[i])
            },
{
    let mut nodes: Vec<DagNode> = Vec::new();
    let mut i: usize = 0;
    while i < steps.len()
        invariant
            i <= steps@.len(),
            nodes@.len() == i,
            forall|j: int|
                0 <= j < i ==> {
                    &&& (#[trigger] nodes@[j]).id@ == step_id(j)
                    &&& same_step(nodes@[j].step, steps@[j])
                    &&& parents_of(nodes@[j]) == declared_parents(steps@[j])
                },
        decreases steps@.len() - i,
    {
        let step = &steps[i];
        let mut parents: Vec<String> = Vec::new();
        if let Some(input_from) = &step.input_from {
            parents.push(input_from.clone());
        }
        let ghost first = views(parents@);
        if let Some(depends_on) = &step.depends_on {
            let mut more = clone_strings(depends_on);
            parents.append(&mut more);
        }
        assert(views(parents@) =~= declared_parents(*step));
        let mut id: Vec<char> = Vec::new();
        push_str(&mut id, "step");
        let d = decimal_chars((i + 1) as u64);
        push_all(&mut id, &d);
        nodes.push(DagNode { id: string_of(id.as_slice()), step: step.clone(), parents });
        i = i + 1;
    }
    Ok(nodes)
}

/// The state of the depth-first walk: the ids being visited (a chain of parent
/// links) and the ids finished so far, each at most once and all ids of nodes.
pub open spec fn walk_state(nodes: Seq<DagNode>, visiting: Seq<Seq<char>>, order: Seq<Seq<char>>) -> bool {
    &&& visiting.no_duplicates()
    &&& order.no_duplicates()
    &&& forall|k: int| 0 <= k < visiting.len() ==> node_ids(nodes).contains(#[trigger] visiting[k])
    &&& forall|k: int| 0 <= k < order.len() ==> node_ids(nodes).contains(#[trigger] order[k])
    &&& forall|k: int| 0 <= k < visiting.len() ==> !order.contains(#[trigger] visiting[k])
    &&& forall|k: int|
        0 <= k < visiting.len() - 1 ==> #[trigger] id_edge(nodes, visiting[k], visiting[k + 1])
    &&& distinct_ids(nodes) ==> parents_first(nodes, order)
}

/// `order` is an order of all the ids of `nodes`, each once, parents first when the
/// ids are distinct.
pub open spec fn sorted_order(nodes: Seq<DagNode>, order: Seq<Seq<char>>) -> bool {
    &&& order.no_duplicates()
    &&& forall|k: int| 0 <= k < order.len() ==> node_ids(nodes).contains(#[trigger] order[k])
    &&& forall|i: int| 0 <= i < nodes.len() ==> order.contains((#[trigger] nodes[i]).id@)
    &&& distinct_ids(nodes) ==> parents_first(nodes, order)
}

proof fn lemma_node_id_listed(nodes: Seq<DagNode>, i: int)
    requires
        0 <= i < nodes.len(),
    ensures
        node_ids(nodes).contains(nodes[i].id@),
{
    assert(node_ids(nodes)[i] == nodes[i].id@);
}

/// Visits node `idx`: its parents first, then itself.
fn visit(
    nodes: &[DagNode],
    idx: usize,
    visiting: &mut Vec<String>,
    order: &mut Vec<String>,
) -> (r: Result<(), String>)
    requires
        idx < nodes@.len(),
        walk_state(nodes@, views(old(visiting)@), views(old(order)@)),
        old(visiting)@.len() > 0 ==> id_edge(
            nodes@,
            views(old(visiting)@).last(),
            nodes@[idx as int].id@,
        ),
    ensures
        match r {
            Ok(()) => {
                &&& views(final(visiting)@) == views(old(visiting)@)
                &&& views(old(order)@).is_prefix_of(views(final(order)@))
                &&& views(final(order)@).contains(nodes@[idx as int].id@)
                &&& walk_state(nodes@, views(final(visiting)@), views(final(order)@))
            },
            Err(e) => exists|x: Seq<char>| e@ == cycle_message(x) && on_cycle(nodes@, x),
        },
    decreases nodes@.len() - old(visiting)@.len(),
{
    let ghost vs0 = views(visiting@);
    let ghost or0 = views(order@);
    let node = &nodes[idx];
    let id = node.id.as_str();
    proof {
        lemma_node_id_listed(nodes@, idx as int);
    }
    match index_of(visiting, id) {
        Some(k) => {
            proof {
                let p = vs0.subrange(k as int, vs0.len() as int).push(id@);
                assert(vs0[k as int] == id@);
                assert forall|m: int| 0 <= m < p.len() - 1 implies #[trigger] id_edge(
                    nodes@,
                    p[m],
                    p[m + 1],
                ) by {
                    if m < vs0.len() - k - 1 {
                        assert(p[m] == vs0[k + m]);
                        assert(p[m + 1] == vs0[k + m + 1]);
                    } else {
                        assert(p[m] == vs0.last());
                        assert(p[m + 1] == id@);
                    }
                }
                assert(is_walk(nodes@, p));
                assert(p[0] == id@);
                assert(p.last() == id@);
                assert(on_cycle(nodes@, id@));
            }
            let mut m: Vec<char> = Vec::new();
            push_str(&mut m, "Circular dependency detected involving ");
            push_str(&mut m, id);
            let e = string_of(m.as_slice());
            assert(e@ == cycle_message(id@));
            return Err(e);
        },
        None => {},
    }
    match index_of(order, id) {
        Some(k) => {
            assert(views(order@)[k as int] == id@);
            return Ok(());
        },
        None => {},
    }
    let ghost n0 = visiting@.len();
    visiting.push(node.id.clone());
    let ghost vs1 = views(visiting@);
    proof {
        assert(vs1 =~= vs0.push(id@));
        assert(walk_state(nodes@, vs1, or0)) by {
            assert forall|k: int| 0 <= k < vs1.len() - 1 implies #[trigger] id_edge(
                nodes@,
                vs1[k],
                vs1[k + 1],
            ) by {
                if k < vs0.len() - 1 {
                    assert(vs1[k] == vs0[k] && vs1[k + 1] == vs0[k + 1]);
                } else {
                    assert(vs1[k] == vs0.last());
                }
            }
            assert forall|k: int| 0 <= k < vs1.len() implies !or0.contains(#[trigger] vs1[k]) by {
                if k < vs0.len() {
                    assert(vs1[k] == vs0[k]);
                }
            }
            assert forall|a: int, b: int|
                0 <= a < vs1.len() && 0 <= b < vs1.len() && a != b implies vs1[a] != vs1[b] by {
                if a < vs0.len() && b < vs0.len() {
                    assert(vs1[a] == vs0[a] && vs1[b] == vs0[b]);
                } else if a < vs0.len() {
                    assert(vs1[a] == vs0[a]);
                    assert(vs0.contains(vs0[a]));
                } else if b < vs0.len() {
                    assert(vs1[b] == vs0[b]);
                    assert(vs0.contains(vs0[b]));
                }
            }
            assert forall|k: int| 0 <= k < vs1.len() implies node_ids(nodes@).contains(
                #[trigger] vs1[k],
            ) by {
                if k < vs0.len() {
                    assert(vs1[k] == vs0[k]);
                }
            }
        }
        lemma_distinct_bound(vs1, nodes@);
    }
    let ghost pv = parents_of(*node);
    let mut j: usize = 0;
    while j < node.parents.len()
        invariant
            idx < nodes@.len(),
            node == &nodes@[idx as int],
            pv == parents_of(*node),
            id@ == node.id@,
            j <= node.parents@.len(),
            views(visiting@) == vs1,
            vs1 == vs0.push(id@),
            visiting@.len() == n0 + 1,
            n0 == old(visiting)@.len(),
            vs1.len() <= nodes@.len(),
            or0.is_prefix_of(views(order@)),
            !or0.contains(id@),
            walk_state(nodes@, vs1, views(order@)),
            forall|q: int|
                0 <= q < j && (find_node(nodes@, pv[q]) is Some) ==> views(order@).contains(
                    #[trigger] pv[q],
                ),
        decreases node.parents@.len() - j,
    {
        let parent = node.parents[j].as_str();
        assert(pv[j as int] == parent@);
        match lookup(nodes, parent) {
            Some(pi) => {
                proof {
                    lemma_find_node(nodes@, parent@);
                    assert(pv.contains(parent@));
                    assert(id_edge(nodes@, vs1.last(), nodes@[pi as int].id@));
                }
                let ghost before = views(order@);
                match visit(nodes, pi, visiting, order) {
                    Ok(()) => {},
                    Err(e) => {
                        return Err(e);
                    },
                }
                proof {
                    assert forall|q: int|
                        0 <= q < j + 1 && (find_node(nodes@, pv[q]) is Some) implies views(
                            order@,
                        ).contains(#[trigger] pv[q]) by {
                        if q < j {
                            assert(before.contains(pv[q]));
                            let w = choose|w: int| 0 <= w < before.len() && before[w] == pv[q];
                            assert(views(order@)[w] == before[w]);
                        }
                    }
                    assert(or0.is_prefix_of(views(order@))) by {
                        assert forall|w: int| 0 <= w < or0.len() implies or0[w] == views(
                            order@,
                        )[w] by {
                            assert(or0[w] == before[w]);
                        }
                    }
                }
            },
            None => {},
        }
        j = j + 1;
    }
    let ghost or1 = views(order@);
    let ghost vv = visiting@;
    let finished = visiting.pop().unwrap();
    assert(views(visiting@) =~= vs0) by {
        assert(visiting@ =~= vv.drop_last());
        assert forall|k: int| 0 <= k < visiting@.len() implies views(visiting@)[k] == vs0[k] by {
            assert(views(visiting@)[k] == visiting@[k]@);
            assert(vv[k] == visiting@[k]);
            assert(vs1[k] == vv[k]@);
            assert(vs1[k] == vs0[k]);
        }
    }
    proof {
        assert(finished@ == id@) by {
            assert(vs1.last() == id@);
        }
        assert(!or1.contains(id@)) by {
            assert(vs1[vs1.len() - 1] == id@);
        }
    }
    order.push(finished);
    proof {
        let or2 = views(order@);
        assert(or2 =~= or1.push(id@));
        assert(or2[or1.len() as int] == id@);
        assert(or0.is_prefix_of(or2));
        assert forall|a: int, b: int|
            0 <= a < or2.len() && 0 <= b < or2.len() && a != b implies or2[a] != or2[b] by {
            if a < or1.len() && b < or1.len() {
                assert(or2[a] == or1[a] && or2[b] == or1[b]);
            } else if a < or1.len() {
                assert(or2[a] == or1[a]);
                assert(or1.contains(or1[a]));
            } else if b < or1.len() {
                assert(or2[b] == or1[b]);
                assert(or1.contains(or1[b]));
            }
        }
        assert forall|k: int| 0 <= k < or2.len() implies node_ids(nodes@).contains(
            #[trigger] or2[k],
        ) by {
            if k < or1.len() {
                assert(or2[k] == or1[k]);
            }
        }
        assert forall|k: int| 0 <= k < vs0.len() implies !or2.contains(#[trigger] vs0[k]) by {
            assert(vs1[k] == vs0[k]);
            assert(!or1.contains(vs0[k]));
            if or2.contains(vs0[k]) {
                let w = choose|w: int| 0 <= w < or2.len() && or2[w] == vs0[k];
                if w < or1.len() {
                    assert(or1[w] == or2[w]);
                } else {
                    assert(vs1[vs0.len() as int] == id@);
                }
            }
        }
        if distinct_ids(nodes@) {
            lemma_find_distinct(nodes@, idx as int);
            assert forall|k: int, p: Seq<char>|
                0 <= k < or2.len() && find_node(nodes@, or2[k]) is Some && parents_of(
                    nodes@[find_node(nodes@, or2[k])->0],
                ).contains(p) && find_node(nodes@, p) is Some implies exists|w: int|
                0 <= w < k && #[trigger] or2[w] == p by {
                if k < or1.len() {
                    assert(or2[k] == or1[k]);
                    let w = choose|w: int| 0 <= w < k && #[trigger] or1[w] == p;
                    assert(or2[w] == or1[w]);
                } else {
                    assert(or2[k] == id@);
                    let q = choose|q: int| 0 <= q < pv.len() && pv[q] == p;
                    assert(or1.contains(pv[q]));
                    let w = choose|w: int| 0 <= w < or1.len() && or1[w] == pv[q];
                    assert(or2[w] == or1[w]);
                }
            }
        }
        assert(walk_state(nodes@, vs0, or2));
        assert(or2.contains(id@));
    }
    Ok(())
}

/// Orders the nodes so that every node comes after the parents it names, visiting
/// them depth first in their given order; a parent id that names no node is
/// ignored. Fails, naming a node on the cycle, when parent links loop.
pub fn topo_sort(nodes: &[DagNode]) -> (r: Result<Vec<String>, String>)
    ensures
        match r {
            Ok(order) => sorted_order(nodes@, views(order@)),
            Err(e) => exists|x: Seq<char>| e@ == cycle_message(x) && on_cycle(nodes@, x),
        },
        distinct_ids(nodes@) ==> (r is Err <==> exists|x: Seq<char>| on_cycle(nodes@, x)),
{
    let mut visiting: Vec<String> = Vec::new();
    let mut order: Vec<String> = Vec::new();
    let mut i: usize = 0;
    assert(views(visiting@) =~= Seq::<Seq<char>>::empty());
    assert(views(order@) =~= Seq::<Seq<char>>::empty());
    while i < nodes.len()
        invariant
            i <= nodes@.len(),
            visiting@.len() == 0,
            walk_state(nodes@, views(visiting@), views(order@)),
            forall|q: int| 0 <= q < i ==> views(order@).contains((#[trigger] nodes@[q]).id@),
        decreases nodes@.len() - i,
    {
        let found = index_of(&order, nodes[i].id.as_str());
        if let Some(k) = found {
            assert(views(order@)[k as int] == nodes@[i as int].id@);
        } else {
            let ghost before = views(order@);
            match visit(nodes, i, &mut visiting, &mut order) {
                Ok(()) => {},
                Err(e) => {
                    return Err(e);
                },
            }
            proof {
                assert forall|q: int| 0 <= q < i + 1 implies views(order@).contains(
                    (#[trigger] nodes@[q]).id@,
                ) by {
                    if q < i {
                        let w = choose|w: int|
                            0 <= w < before.len() && before[w] == nodes@[q].id@;
                        assert(views(order@)[w] == before[w]);
                    }
                }
            }
            assert(visiting@.len() == 0) by {
                assert(views(visiting@).len() == visiting@.len());
            }
        }
        i = i + 1;
    }
    proof {
        if distinct_ids(nodes@) && exists|x: Seq<char>| on_cycle(nodes@, x) {
            let x = choose|x: Seq<char>| on_cycle(nodes@, x);
            lemma_sorted_graph_is_acyclic(nodes@, views(order@), x);
        }
    }
    Ok(order)
}

/// Where `x` stands in `order`.
pub open spec fn place(order: Seq<Seq<char>>, x: Seq<char>) -> int {
    choose|j: int| 0 <= j < order.len() && order[j] == x
}

proof fn lemma_parent_earlier(nodes: Seq<DagNode>, order: Seq<Seq<char>>, a: Seq<char>, b: Seq<char>)
    requires
        distinct_ids(nodes),
        sorted_order(nodes, order),
        id_edge(nodes, a, b),
    ensures
        0 <= place(order, b) < place(order, a) < order.len(),
        order[place(order, a)] == a,
        order[place(order, b)] == b,
{
    let i = choose|i: int|
        0 <= i < nodes.len() && (#[trigger] nodes[i]).id@ == a && parents_of(nodes[i]).contains(b);
    lemma_find_distinct(nodes, i);
    assert(order.contains(nodes[i].id@));
    let ia = place(order, a);
    assert(0 <= ia < order.len() && order[ia] == a);
    assert(find_node(nodes, order[ia]) == Some(i));
    assert(parents_of(nodes[find_node(nodes, order[ia])->0]).contains(b));
    assert(find_node(nodes, b) is Some);
    assert(exists|j: int| 0 <= j < ia && #[trigger] order[j] == b);
    let j = choose|j: int| 0 <= j < ia && #[trigger] order[j] == b;
    let jb = place(order, b);
    assert(0 <= jb < order.len() && order[jb] == b);
    assert(jb == j);
}

proof fn lemma_walk_descends(nodes: Seq<DagNode>, order: Seq<Seq<char>>, p: Seq<Seq<char>>, m: int)
    requires
        distinct_ids(nodes),
        sorted_order(nodes, order),
        is_walk(nodes, p),
        1 <= m < p.len(),
    ensures
        place(order, p[m]) < place(order, p[0]),
    decreases m,
{
    let k = m - 1;
    assert(id_edge(nodes, p[k], p[k + 1]));
    lemma_parent_earlier(nodes, order, p[k], p[k + 1]);
    if m > 1 {
        lemma_walk_descends(nodes, order, p, m - 1);
    }
}

/// When node ids are distinct, a node order that puts parents first leaves no
/// room for a cycle: no id can reach itself by parent links. With `topo_sort`'s
/// contract this makes it fail exactly on cyclic graphs.
pub proof fn lemma_sorted_graph_is_acyclic(nodes: Seq<DagNode>, order: Seq<Seq<char>>, x: Seq<char>)
    requires
        distinct_ids(nodes),
        sorted_order(nodes, order),
    ensures
        !on_cycle(nodes, x),
{
    if on_cycle(nodes, x) {
        let p = choose|p: Seq<Seq<char>>| #[trigger] is_walk(nodes, p) && p[0] == x && p.last() == x;
        lemma_walk_descends(nodes, order, p, p.len() - 1);
    }
}

/// Different positions get different step ids, so a graph built by `build_dag`
/// never repeats an id.
pub proof fn lemma_built_ids_distinct(nodes: Seq<DagNode>)
    requires
        forall|i: int| 0 <= i < nodes.len() ==> (#[trigger] nodes[i]).id@ == step_id(i),
    ensures
        distinct_ids(nodes),
{
    reveal_strlit("step");
    assert forall|i: int, j: int|
        0 <= i < nodes.len() && 0 <= j < nodes.len() && i != j implies node_ids(nodes)[i]
        != node_ids(nodes)[j] by {
        if node_ids(nodes)[i] == node_ids(nodes)[j] {
            let a = step_id(i);
            let b = step_id(j);
            assert(a == b);
            assert(a.subrange(4, a.len() as int) =~= decimal((i + 1) as nat));
            assert(b.subrange(4, b.len() as int) =~= decimal((j + 1) as nat));
            lemma_decimal_injective((i + 1) as nat, (j + 1) as nat);
        }
    }
}

/// The first plugin registered under `name`.
pub open spec fn find_plugin(plugins: Seq<PluginInfo>, name: Seq<char>) -> Option<int>
    decreases plugins.len(),
{
    if plugins.len() == 0 {
        None
    } else if plugins[0].name@ == name {
        Some(0)
    } else {
        match find_plugin(plugins.drop_first(), name) {
            Some(k) => Some(k + 1),
            None => None,
        }
    }
}

/// The first node carrying `id`.
pub open spec fn first_node(nodes: Seq<DagNode>, id: Seq<char>) -> Option<int>
    decreases nodes.len(),
{
    if nodes.len() == 0 {
        None
    } else if nodes[0].id@ == id {
        Some(0)
    } else {
        match first_node(nodes.drop_first(), id) {
            Some(k) => Some(k + 1),
            None => None,
        }
    }
}

proof fn lemma_find_plugin(plugins: Seq<PluginInfo>, name: Seq<char>)
    ensures
        match find_plugin(plugins, name) {
            Some(k) => 0 <= k < plugins.len() && plugins[k].name@ == name && forall|j: int|
                0 <= j < k ==> plugins[j].name@ != name,
            None => forall|j: int| 0 <= j < plugins.len() ==> plugins[j].name@ != name,
        },
    decreases plugins.len(),
{
    if plugins.len() > 0 && plugins[0].name@ != name {
        let rest = plugins.drop_first();
        lemma_find_plugin(rest, name);
        assert forall|j: int| 1 <= j < plugins.len() implies plugins[j] == rest[j - 1] by {}
    }
}

proof fn lemma_first_node(nodes: Seq<DagNode>, id: Seq<char>)
    ensures
        match first_node(nodes, id) {
            Some(k) => 0 <= k < nodes.len() && nodes[k].id@ == id && forall|j: int|
                0 <= j < k ==> nodes[j].id@ != id,
            None => forall|j: int| 0 <= j < nodes.len() ==> nodes[j].id@ != id,
        },
    decreases nodes.len(),
{
    if nodes.len() > 0 && nodes[0].id@ != id {
        let rest = nodes.drop_first();
        lemma_first_node(rest, id);
        assert forall|j: int| 1 <= j < nodes.len() implies nodes[j] == rest[j - 1] by {}
    }
}

fn plugin_named(plugins: &[PluginInfo], name: &str) -> (r: Option<usize>)
    ensures
        match r {
            Some(k) => k < plugins@.len() && find_plugin(plugins@, name@) == Some(k as int),
            None => find_plugin(plugins@, name@) is None,
        },
{
    proof {
        lemma_find_plugin(plugins@, name@);
    }
    let ghost found = find_plugin(plugins@, name@);
    let mut k: usize = 0;
    while k < plugins.len()
        invariant
            k <= plugins@.len(),
            forall|j: int| 0 <= j < k ==> plugins@[j].name@ != name@,
            found == find_plugin(plugins@, name@),
            match found {
                Some(f) => 0 <= f < plugins@.len() && plugins@[f].name@ == name@ && forall|j: int|
                    0 <= j < f ==> plugins@[j].name@ != name@,
                None => forall|j: int| 0 <= j < plugins@.len() ==> plugins@[j].name@ != name@,
            },
        decreases plugins@.len() - k,
    {
        if str_eq(plugins[k].name.as_str(), name) {
            return Some(k);
        }
        k = k + 1;
    }
    None
}

fn node_with_id(nodes: &[DagNode], id: &str) -> (r: Option<usize>)
    ensures
        match r {
            Some(k) => k < nodes@.len() && first_node(nodes@, id@) == Some(k as int),
            None => first_node(nodes@, id@) is None,
        },
{
    proof {
        lemma_first_node(nodes@, id@);
    }
    let ghost found = first_node(nodes@, id@);
    let mut k: usize = 0;
    while k < nodes.len()
        invariant
            k <= nodes@.len(),
            forall|j: int| 0 <= j < k ==> nodes@[j].id@ != id@,
            found == first_node(nodes@, id@),
            match found {
                Some(f) => 0 <= f < nodes@.len() && nodes@[f].id@ == id@ && forall|j: int|
                    0 <= j < f ==> nodes@[j].id@ != id@,
                None => forall|j: int| 0 <= j < nodes@.len() ==> nodes@[j].id@ != id@,
            },
        decreases nodes@.len() - k,
    {
        if str_eq(nodes[k].id.as_str(), id) {
            return Some(k);
        }
        k = k + 1;
    }
    None
}

/// `Plugin '<run>' not found`.
pub open spec fn plugin_missing_message(run: Seq<char>) -> Seq<char> {
    "Plugin '"@ + run + "' not found"@
}

/// `Type mismatch: parent '<parent>' outputs <kind> but '<run>' expects <kind>`.
pub open spec fn mismatch_message(
    parent_run: Seq<char>,
    out: PluginOutputType,
    run: Seq<char>,
    inp: PluginInputType,
) -> Seq<char> {
    "Type mismatch: parent '"@ + parent_run + "' outputs "@ + output_type_name(out) + " but '"@
        + run + "' expects "@ + input_type_name(inp)
}

/// The error one parent link of node `i` gives: when the parent names a node whose
/// plugin is registered, and that plugin's output cannot feed node `i`'s input.
pub open spec fn link_errors(
    dag: Seq<DagNode>,
    plugins: Seq<PluginInfo>,
    i: int,
    parent: Seq<char>,
) -> Seq<(int, Seq<char>)> {
    match first_node(dag, parent) {
        None => Seq::empty(),
        Some(j) => match find_plugin(plugins, dag[j].step.run@) {
            None => Seq::empty(),
            Some(pp) => {
                let p_out = primary_io(plugins[pp]).1;
                let c_in = primary_io(plugins[find_plugin(plugins, dag[i].step.run@)->0]).0;
                if compatible(p_out, c_in) {
                    Seq::empty()
                } else {
                    seq![(i, mismatch_message(dag[j].step.run@, p_out, dag[i].step.run@, c_in))]
                }
            },
        },
    }
}

/// The errors of the first `k` parent links of node `i`, in order.
pub open spec fn parent_errors(dag: Seq<DagNode>, plugins: Seq<PluginInfo>, i: int, k: int) -> Seq<
    (int, Seq<char>),
>
    decreases k,
{
    if k <= 0 {
        Seq::empty()
    } else {
        parent_errors(dag, plugins, i, k - 1) + link_errors(
            dag,
            plugins,
            i,
            parents_of(dag[i])[k - 1],
        )
    }
}

/// The errors of node `i`: its plugin is not registered, or the errors of its parent
/// links.
pub open spec fn node_type_errors(dag: Seq<DagNode>, plugins: Seq<PluginInfo>, i: int) -> Seq<
    (int, Seq<char>),
> {
    match find_plugin(plugins, dag[i].step.run@) {
        None => seq![(i, plugin_missing_message(dag[i].step.run@))],
        Some(_) => parent_errors(dag, plugins, i, parents_of(dag[i]).len() as int),
    }
}

/// The errors of the first `n` nodes, node by node.
pub open spec fn type_errors(dag: Seq<DagNode>, plugins: Seq<PluginInfo>, n: int) -> Seq<
    (int, Seq<char>),
>
    decreases n,
{
    if n <= 0 {
        Seq::empty()
    } else {
        type_errors(dag, plugins, n - 1) + node_type_errors(dag, plugins, n - 1)
    }
}

/// Errors as positions and texts.
pub open spec fn error_views(v: Seq<(usize, String)>) -> Seq<(int, Seq<char>)> {
    v.map_values(|e: (usize, String)| (e.0 as int, e.1@))
}

fn missing_plugin_text(run: &str) -> (r: String)
    ensures
        r@ == plugin_missing_message(run@),
{
    let mut m = chars_of("Plugin '");
    push_str(&mut m, run);
    push_str(&mut m, "' not found");
    string_of(m.as_slice())
}

fn mismatch_text(parent_run: &str, out: PluginOutputType, run: &str, inp: PluginInputType) -> (r:
    String)
    ensures
        r@ == mismatch_message(parent_run@, out, run@, inp),
{
    let mut m = chars_of("Type mismatch: parent '");
    push_str(&mut m, parent_run);
    push_str(&mut m, "' outputs ");
    push_str(&mut m, out.name());
    push_str(&mut m, " but '");
    push_str(&mut m, run);
    push_str(&mut m, "' expects ");
    push_str(&mut m, inp.name());
    string_of(m.as_slice())
}

/// Checks, against the registered plugins, that every step's plugin exists and that
/// each parent's plugin output can feed the step's plugin input (each plugin judged by
/// its first capability). Returns every problem found as the step's position and a
/// message, in step order and, within a step, in parent order.
pub fn validate_workflow_types(dag: &[DagNode], plugins: &[PluginInfo]) -> (r: Vec<(usize, String)>)
    ensures
        error_views(r@) == type_errors(dag@, plugins@, dag@.len() as int),
{
    let mut errors: Vec<(usize, String)> = Vec::new();
    let mut i: usize = 0;
    while i < dag.len()
        invariant
            i <= dag@.len(),
            error_views(errors@) == type_errors(dag@, plugins@, i as int),
        decreases dag@.len() - i,
    {
        let node = &dag[i];
        match plugin_named(plugins, node.step.run.as_str()) {
            None => {
                let ghost before = errors@;
                errors.push((i, missing_plugin_text(node.step.run.as_str())));
                assert(error_views(errors@) =~= error_views(before) + node_type_errors(
                    dag@,
                    plugins@,
                    i as int,
                ));
            },
            Some(ci) => {
                let (c_in, _c_out) = primary_io_types(&plugins[ci]);
                let ghost base = errors@;
                let mut k: usize = 0;
                while k < node.parents.len()
                    invariant
                        i < dag@.len(),
                        node == &dag@[i as int],
                        find_plugin(plugins@, node.step.run@) == Some(ci as int),
                        ci < plugins@.len(),
                        c_in == primary_io(plugins@[ci as int]).0,
                        k <= node.parents@.len(),
                        error_views(base) == type_errors(dag@, plugins@, i as int),
                        error_views(errors@) == error_views(base) + parent_errors(
                            dag@,
                            plugins@,
                            i as int,
                            k as int,
                        ),
                    decreases node.parents@.len() - k,
                {
                    let ghost before = errors@;
                    let parent_id = &node.parents[k];
                    assert(parents_of(dag@[i as int])[k as int] == parent_id@);
                    match node_with_id(dag, parent_id.as_str()) {
                        None => {},
                        Some(j) => {
                            match plugin_named(plugins, dag[j].step.run.as_str()) {
                                None => {},
                                Some(pp) => {
                                    let (_p_in, p_out) = primary_io_types(&plugins[pp]);
                                    if !types_compatible(p_out, c_in) {
                                        let msg = mismatch_text(
                                            dag[j].step.run.as_str(),
                                            p_out,
                                            node.step.run.as_str(),
                                            c_in,
                                        );
                                        errors.push((i, msg));
                                    }
                                },
                            }
                        },
                    }
                    assert(error_views(errors@) =~= error_views(before) + link_errors(
                        dag@,
                        plugins@,
                        i as int,
                        parent_id@,
                    ));
                    k = k + 1;
                    assert(error_views(errors@) =~= error_views(base) + parent_errors(
                        dag@,
                        plugins@,
                        i as int,
                        k as int,
                    ));
                }
                assert(parents_of(dag@[i as int]).len() == node.parents@.len());
            },
        }
        i = i + 1;
    }
    errors
}

/// Step parameters that are not part of the production schema, in the order they are
/// checked.
pub open spec fn unsupported_fields() -> Seq<Seq<char>> {
    seq!["on_success"@, "on_failure"@, "input_modality"@, "output_modality"@]
}

/// The first unsupported field, in the order of `unsupported_fields`, that `keys` holds.
pub open spec fn first_unsupported(keys: Seq<Seq<char>>) -> Option<Seq<char>> {
    if keys.contains("on_success"@) {
        Some("on_success"@)
    } else if keys.contains("on_failure"@) {
        Some("on_failure"@)
    } else if keys.contains("input_modality"@) {
        Some("input_modality"@)
    } else if keys.contains("output_modality"@) {
        Some("output_modality"@)
    } else {
        None
    }
}

/// The message for an unsupported field in step `n` (counting from one).
pub open spec fn unsupported_field_message(field: Seq<char>, n: nat) -> Seq<char> {
    "Unsupported workflow field '"@ + field + "' in step "@ + decimal(n)
        + ". This field is not part of the production schema."@
}

/// The parameter keys of each step as text; `None` for a step whose parameters are not
/// a mapping.
pub open spec fn keys_view(steps: Seq<Option<Vec<String>>>) -> Seq<Option<Seq<Seq<char>>>> {
    steps.map_values(
        |k: Option<Vec<String>>|
            match k {
                Some(v) => Some(views(v@)),
                None => None,
            },
    )
}

/// The error for the first step, from position `i` on, whose parameters hold an
/// unsupported field.
pub open spec fn schema_error(steps: Seq<Option<Seq<Seq<char>>>>, i: int) -> Option<Seq<char>>
    decreases steps.len() - i,
{
    if i < 0 || i >= steps.len() {
        None
    } else {
        match steps[i] {
            Some(keys) => match first_unsupported(keys) {
                Some(f) => Some(unsupported_field_message(f, (i + 1) as nat)),
                None => schema_error(steps, i + 1),
            },
            None => schema_error(steps, i + 1),
        }
    }
}

fn has_key(keys: &Vec<String>, key: &str) -> (r: bool)
    ensures
        r == views(keys@).contains(key@),
{
    match index_of(keys, key) {
        Some(k) => {
            assert(views(keys@)[k as int] == key@);
            true
        },
        None => false,
    }
}

/// Rejects a workflow whose step parameters use a field that is not part of the
/// production schema (`on_success`, `on_failure`, `input_modality`,
/// `output_modality`), naming the first such step and field. Takes each step's
/// parameter keys, `None` where the parameters are not a mapping.
pub fn validate_workflow_schema(step_param_keys: &[Option<Vec<String>>]) -> (r: Result<(), String>)
    ensures
        match r {
            Ok(()) => schema_error(keys_view(step_param_keys@), 0) is None,
            Err(e) => schema_error(keys_view(step_param_keys@), 0) == Some(e@),
        },
{
    let ghost steps = keys_view(step_param_keys@);
    let mut i: usize = 0;
    while i < step_param_keys.len()
        invariant
            i <= step_param_keys@.len(),
            steps == keys_view(step_param_keys@),
            schema_error(steps, 0) == schema_error(steps, i as int),
        decreases step_param_keys@.len() - i,
    {
        match &step_param_keys[i] {
            Some(keys) => {
                assert(steps[i as int] == Some(views(keys@)));
                let field: Option<&str> = if has_key(keys, "on_success") {
                    Some("on_success")
                } else if has_key(keys, "on_failure") {
                    Some("on_failure")
                } else if has_key(keys, "input_modality") {
                    Some("input_modality")
                } else if has_key(keys, "output_modality") {
                    Some("output_modality")
                } else {
                    None
                };
                match field {
                    Some(f) => {
                        assert(first_unsupported(views(keys@)) == Some(f@));
                        let mut m = chars_of("Unsupported workflow field '");
                        push_str(&mut m, f);
                        push_str(&mut m, "' in step ");
                        let n = decimal_chars(i as u64 + 1);
                        push_all(&mut m, &n);
                        push_str(&mut m, ". This field is not part of the production schema.");
                        return Err(string_of(m.as_slice()));
                    },
                    None => {
                        assert(first_unsupported(views(keys@)) is None);
                    },
                }
            },
            None => {},
        }
        i = i + 1;
    }
    Ok(())
}

/// The parent link of node `i` to `parent` joins a registered parent plugin whose
/// output is of the very kind node `i`'s plugin takes in (or names no registered
/// plugin at all).
pub open spec fn same_kind_link(
    dag: Seq<DagNode>,
    plugins: Seq<PluginInfo>,
    i: int,
    parent: Seq<char>,
) -> bool {
    match first_node(dag, parent) {
        None => true,
        Some(j) => match find_plugin(plugins, dag[j].step.run@) {
            None => true,
            Some(pp) => primary_io(plugins[pp]).1 == output_of_kind(
                primary_io(plugins[find_plugin(plugins, dag[i].step.run@)->0]).0,
            ),
        },
    }
}

proof fn lemma_same_kind_parents_pass(dag: Seq<DagNode>, plugins: Seq<PluginInfo>, i: int, k: int)
    requires
        forall|q: int|
            0 <= q < parents_of(dag[i]).len() ==> same_kind_link(
                dag,
                plugins,
                i,
                #[trigger] parents_of(dag[i])[q],
            ),
        k <= parents_of(dag[i]).len(),
    ensures
        parent_errors(dag, plugins, i, k) == Seq::<(int, Seq<char>)>::empty(),
    decreases k,
{
    if k > 0 {
        lemma_same_kind_parents_pass(dag, plugins, i, k - 1);
        let parent = parents_of(dag[i])[k - 1];
        assert(same_kind_link(dag, plugins, i, parent));
        match first_node(dag, parent) {
            None => {},
            Some(j) => match find_plugin(plugins, dag[j].step.run@) {
                None => {},
                Some(pp) => {
                    lemma_same_kind_is_compatible(
                        primary_io(plugins[find_plugin(plugins, dag[i].step.run@)->0]).0,
                        primary_io(plugins[pp]).1,
                    );
                },
            },
        }
        assert(link_errors(dag, plugins, i, parent) =~= Seq::<(int, Seq<char>)>::empty());
        assert(Seq::<(int, Seq<char>)>::empty() + Seq::<(int, Seq<char>)>::empty() =~= Seq::<
            (int, Seq<char>),
        >::empty());
    }
}

/// Type checking never rejects a link between plugins of the same kind: a node whose
/// plugin is registered, and each of whose parents outputs exactly the kind the node's
/// plugin takes in (or names no registered plugin), gets no type error.
pub proof fn lemma_same_kind_links_type_check(dag: Seq<DagNode>, plugins: Seq<PluginInfo>, i: int)
    requires
        find_plugin(plugins, dag[i].step.run@) is Some,
        forall|q: int|
            0 <= q < parents_of(dag[i]).len() ==> same_kind_link(
                dag,
                plugins,
                i,
                #[trigger] parents_of(dag[i])[q],
            ),
    ensures
        node_type_errors(dag, plugins, i) == Seq::<(int, Seq<char>)>::empty(),
{
    lemma_same_kind_parents_pass(dag, plugins, i, parents_of(dag[i]).len() as int);
}

} // verus!
