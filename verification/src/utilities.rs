//! The graph engine: topological traversal, inference of properties
//! from public values, and the expansion / propagation fixed point.

use vstd::prelude::*;
use crate::base::{DataType, Value, ValueV};
use crate::component::{Analysis, Component, ComponentV, Release, ReleaseNode, ReleaseNodeV, VariantV};
use crate::errors::{Error, ErrorKind};
use crate::maps::{id_map_of, lemma_id_map_contains, lemma_id_map_get, IdMap};
use crate::props::{ArrayPropertiesV, ValueProperties};

verus! {

/// Whether one node names another as an argument.
pub open spec fn names_argument(c: ComponentV, id: u32) -> bool {
    exists|i: int| 0 <= i < c.arguments.len() && (#[trigger] c.arguments[i]).1 == id
}

/// A graph has a cycle when some non-empty set of nodes is closed
/// under "has an argument in the set": no node of the set can ever
/// become ready in a topological traversal.
pub open spec fn has_cycle(m: Map<u32, ComponentV>) -> bool {
    exists|s: Set<u32>|
        {
            &&& #[trigger] s.subset_of(m.dom())
            &&& exists|n: u32| s.contains(n)
            &&& forall|n: u32| s.contains(n) ==> exists|a: u32| #[trigger] s.contains(a)
                && names_argument(m[n], a)
        }
}

/// What makes a sequence of node ids a topological order of a graph:
/// each node once, and every in-graph argument of a node listed before
/// the node itself.
pub open spec fn is_topological_order(m: Map<u32, ComponentV>, order: Seq<u32>) -> bool {
    &&& m.dom().finite()
    &&& order.len() == m.dom().len()
    &&& (forall|p: int| 0 <= p < order.len() ==> m.dom().contains(#[trigger] order[p]))
    &&& (forall|p: int, q: int| 0 <= p < q < order.len() ==> order[p] != order[q])
    &&& (forall|p: int, a: u32|
        0 <= p < order.len() && m.dom().contains(a) && #[trigger] names_argument(
            m[#[trigger] order[p]],
            a,
        ) ==> exists|q: int| 0 <= q < p && order[q] == a)
}

/// A graph with a topological order has no cycle: the set's earliest
/// node in the order would need an argument still earlier in the set.
pub proof fn lemma_topological_order_acyclic(m: Map<u32, ComponentV>, order: Seq<u32>)
    requires
        is_topological_order(m, order),
    ensures
        !has_cycle(m),
{
    if has_cycle(m) {
        let s = choose|s: Set<u32>|
            {
                &&& #[trigger] s.subset_of(m.dom())
                &&& exists|n: u32| s.contains(n)
                &&& forall|n: u32| s.contains(n) ==> exists|a: u32| #[trigger] s.contains(a)
                    && names_argument(m[n], a)
            };
        lemma_no_cycle_member_before(m, order, s, order.len() as int);
        let n = choose|n: u32| s.contains(n);
        assert(m.dom().contains(n));
        lemma_order_covers(m, order, n);
        let p = choose|p: int| 0 <= p < order.len() && order[p] == n;
        assert(s.contains(order[p]));
    }
}

/// No member of a closed set can appear anywhere in a topological
/// order, shown by induction over positions.
proof fn lemma_no_cycle_member_before(
    m: Map<u32, ComponentV>,
    order: Seq<u32>,
    s: Set<u32>,
    p: int,
)
    requires
        is_topological_order(m, order),
        s.subset_of(m.dom()),
        forall|n: u32| s.contains(n) ==> exists|a: u32| #[trigger] s.contains(a) && names_argument(
            m[n],
            a,
        ),
        0 <= p <= order.len(),
    ensures
        !exists|q: int| 0 <= q < p && s.contains(#[trigger] order[q]),
    decreases p,
{
    if p > 0 {
        lemma_no_cycle_member_before(m, order, s, p - 1);
        if s.contains(order[p - 1]) {
            let n = order[p - 1];
            let a = choose|a: u32| #[trigger] s.contains(a) && names_argument(m[n], a);
            assert(m.dom().contains(a));
            let q = choose|q: int| 0 <= q < p - 1 && order[q] == a;
            assert(s.contains(order[q]));
        }
    }
}

/// Every node of the graph appears in a topological order of it.
pub proof fn lemma_order_covers(m: Map<u32, ComponentV>, order: Seq<u32>, n: u32)
    requires
        is_topological_order(m, order),
        m.dom().contains(n),
    ensures
        exists|p: int| 0 <= p < order.len() && order[p] == n,
{
    let os = order.to_set();
    assert(os.subset_of(m.dom())) by {
        assert forall|x: u32| os.contains(x) implies m.dom().contains(x) by {
            let p = choose|p: int| 0 <= p < order.len() && order[p] == x;
        }
    }
    if !os.contains(n) {
        assert(os.subset_of(m.dom().remove(n)));
        assert(order.no_duplicates());
        order.unique_seq_to_set();
        assert(m.dom().remove(n).finite());
        vstd::set_lib::lemma_len_subset(os, m.dom().remove(n));
        assert(m.dom().remove(n).len() == m.dom().len() - 1) by {
            assert(m.dom().contains(n));
        }
    }
}


/// Whether a node id occurs in an order built so far.
fn contains_id(order: &Vec<u32>, id: u32) -> (r: bool)
    ensures
        r == order@.contains(id),
{
    let mut i: usize = 0;
    while i < order.len()
        invariant
            i <= order@.len(),
            forall|j: int| 0 <= j < i ==> order@[j] != id,
        decreases order@.len() - i,
    {
        if order[i] == id {
            return true;
        }
        i = i + 1;
    }
    false
}

/// Whether every in-graph argument of a component has been ordered.
fn is_ready(component: &Component, graph: &IdMap<Component>, order: &Vec<u32>) -> (r: bool)
    requires
        graph.wf(),
    ensures
        r == forall|i: int|
            0 <= i < component.deep_view().arguments.len() ==> (graph.as_map().dom().contains(
                (#[trigger] component.deep_view().arguments[i]).1,
            ) ==> order@.contains(component.deep_view().arguments[i].1)),
{
    let ghost argsv = component.deep_view().arguments;
    let mut i: usize = 0;
    while i < component.arguments.len()
        invariant
            i <= argsv.len(),
            argsv == component.deep_view().arguments,
            component.arguments@.len() == argsv.len(),
            graph.wf(),
            forall|j: int| 0 <= j < i ==> (graph.as_map().dom().contains(
                (#[trigger] argsv[j]).1,
            ) ==> order@.contains(argsv[j].1)),
        decreases argsv.len() - i,
    {
        proof {
            assert(argsv[i as int] == component.arguments@[i as int].deep_view());
        }
        let arg_id = component.arguments[i].1;
        if graph.contains(arg_id) && !contains_id(order, arg_id) {
            return false;
        }
        i = i + 1;
    }
    true
}

/// Computes a topological order of the graph, preferring lower node
/// ids among the ready nodes, so traversals are deterministic.  Fails
/// with `CycleDetected` exactly when the graph has a cycle.
pub fn get_traversal(graph: &IdMap<Component>) -> (r: Result<Vec<u32>, Error>)
    requires
        graph.wf(),
    ensures
        match r {
            Ok(order) => is_topological_order(graph.as_map(), order@) && !has_cycle(
                graph.as_map(),
            ),
            Err(e) => e.kind is CycleDetected && has_cycle(graph.as_map()),
        },
{
    let ghost dv = graph.deep_view();
    let ghost m = graph.as_map();
    let n = graph.entries.len();
    proof {
        crate::maps::lemma_id_map_finite(dv);
    }
    let mut order: Vec<u32> = Vec::new();
    while order.len() < n
        invariant
            graph.wf(),
            dv == graph.deep_view(),
            m == graph.as_map(),
            graph.entries@.len() == n == dv.len(),
            m.dom().finite(),
            m.dom().len() == n,
            order@.len() <= n,
            forall|p: int| 0 <= p < order@.len() ==> m.dom().contains(#[trigger] order@[p]),
            forall|p: int, q: int| 0 <= p < q < order@.len() ==> order@[p] != order@[q],
            forall|p: int, a: u32|
                0 <= p < order@.len() && m.dom().contains(a) && #[trigger] names_argument(
                    m[#[trigger] order@[p]],
                    a,
                ) ==> exists|q: int| 0 <= q < p && order@[q] == a,
        decreases n - order@.len(),
    {
        // scan for the ready unvisited node with the lowest id, and for
        // the first unvisited node at all
        let mut best: usize = n;
        let mut best_id: u32 = 0;
        let mut first_unvisited: usize = n;
        let mut idx: usize = 0;
        while idx < n
            invariant
                graph.wf(),
                dv == graph.deep_view(),
                m == graph.as_map(),
                graph.entries@.len() == n == dv.len(),
                idx <= n,
                best <= n,
                first_unvisited <= n,
                best < n ==> {
                    &&& !order@.contains(dv[best as int].0)
                    &&& best_id == dv[best as int].0
                    &&& forall|i: int|
                        0 <= i < dv[best as int].1.arguments.len() ==> (m.dom().contains(
                            (#[trigger] dv[best as int].1.arguments[i]).1,
                        ) ==> order@.contains(dv[best as int].1.arguments[i].1))
                },
                first_unvisited < n ==> !order@.contains(dv[first_unvisited as int].0),
                first_unvisited == n ==> forall|j: int|
                    0 <= j < idx ==> order@.contains((#[trigger] dv[j]).0),
                best == n ==> forall|j: int|
                    0 <= j < idx ==> (!order@.contains((#[trigger] dv[j]).0) ==> exists|i: int|
                        0 <= i < dv[j].1.arguments.len() && m.dom().contains(
                            (#[trigger] dv[j].1.arguments[i]).1,
                        ) && !order@.contains(dv[j].1.arguments[i].1)),
            decreases n - idx,
        {
            proof {
                assert(dv[idx as int] == graph.entries@[idx as int].deep_view());
            }
            let id = graph.entries[idx].0;
            if !contains_id(&order, id) {
                if first_unvisited == n {
                    first_unvisited = idx;
                }
                if is_ready(&graph.entries[idx].1, graph, &order) {
                    if best == n || id < best_id {
                        best = idx;
                        best_id = id;
                    }
                }
            }
            idx = idx + 1;
        }
        if best == n {
            // every unvisited node waits on an unvisited argument: the
            // unvisited nodes form a cycle
            proof {
                let os = order@.to_set();
                assert forall|x: u32| os.contains(x) implies m.dom().contains(x) by {
                    let p = choose|p: int| 0 <= p < order@.len() && order@[p] == x;
                }
                if first_unvisited == n {
                    assert(m.dom().subset_of(os)) by {
                        assert forall|x: u32| m.dom().contains(x) implies os.contains(x) by {
                            lemma_id_map_contains(dv, x);
                            let j = choose|j: int| 0 <= j < dv.len() && (#[trigger] dv[j]).0 == x;
                            assert(order@.contains(dv[j].0));
                            let p = choose|p: int| 0 <= p < order@.len() && order@[p] == x;
                        }
                    }
                    assert(order@.no_duplicates());
                    order@.unique_seq_to_set();
                    vstd::set_lib::lemma_len_subset(m.dom(), os);
                    assert(false);
                }
                let s = Set::new(|x: u32| m.dom().contains(x) && !os.contains(x));
                assert(s.subset_of(m.dom()));
                assert(s.contains(dv[first_unvisited as int].0)) by {
                    lemma_id_map_get(dv, dv[first_unvisited as int].0, first_unvisited as int);
                }
                assert forall|x: u32| s.contains(x) implies exists|a: u32| #[trigger] s.contains(a)
                    && names_argument(m[x], a) by {
                    lemma_id_map_contains(dv, x);
                    let j = choose|j: int| 0 <= j < dv.len() && (#[trigger] dv[j]).0 == x;
                    lemma_id_map_get(dv, x, j);
                    assert(!order@.contains(dv[j].0));
                    let i = choose|i: int|
                        0 <= i < dv[j].1.arguments.len() && m.dom().contains(
                            (#[trigger] dv[j].1.arguments[i]).1,
                        ) && !order@.contains(dv[j].1.arguments[i].1);
                    let a = dv[j].1.arguments[i].1;
                    assert(s.contains(a));
                    assert(names_argument(m[x], a));
                }
                assert(has_cycle(m));
            }
            let cycle_id = graph.entries[first_unvisited].0;
            return Err(Error::new(ErrorKind::CycleDetected(cycle_id)));
        }
        proof {
            lemma_id_map_get(dv, best_id, best as int);
            let old_order = order@;
            assert forall|p: int, a: u32|
                0 <= p < old_order.push(best_id).len() && m.dom().contains(a)
                    && #[trigger] names_argument(
                    m[#[trigger] old_order.push(best_id)[p]],
                    a,
                ) implies exists|q: int| 0 <= q < p && old_order.push(best_id)[q] == a by {
                if p < old_order.len() {
                    assert(old_order.push(best_id)[p] == old_order[p]);
                    let q = choose|q: int| 0 <= q < p && old_order[q] == a;
                    assert(old_order.push(best_id)[q] == a);
                } else {
                    assert(old_order.push(best_id)[p] == best_id);
                    assert(m[best_id] == dv[best as int].1);
                    let bc = dv[best as int].1;
                    let i = choose|i: int|
                        0 <= i < bc.arguments.len() && (#[trigger] bc.arguments[i]).1 == a;
                    assert(order@.contains(bc.arguments[i].1));
                    let q = choose|q: int| 0 <= q < old_order.len() && old_order[q] == a;
                    assert(old_order.push(best_id)[q] == a);
                }
            }
        }
        order.push(best_id);
    }
    proof {
        lemma_topological_order_acyclic(m, order@);
    }
    Ok(order)
}


/// All rows have the first row's length.
pub open spec fn rectangular<T>(rows: Seq<Seq<T>>) -> bool {
    forall|i: int| 0 <= i < rows.len() ==> (#[trigger] rows[i]).len() == rows[0].len()
}

/// Checks shape: the row count and column count of a rectangular list
/// of rows, or nothing if the rows are ragged.
fn dims<T: DeepView>(rows: &Vec<Vec<T>>) -> (r: Option<(usize, usize)>)
    ensures
        match r {
            Some(d) => {
                &&& rectangular(rows.deep_view())
                &&& d.0 == rows.deep_view().len()
                &&& if rows.deep_view().len() == 0 {
                    d.1 == 0
                } else {
                    d.1 == rows.deep_view()[0].len()
                }
            },
            None => !rectangular(rows.deep_view()),
        },
{
    if rows.len() == 0 {
        return Some((0, 0));
    }
    let cols = rows[0].len();
    let mut i: usize = 0;
    while i < rows.len()
        invariant
            i <= rows@.len(),
            rows@.len() > 0,
            cols == rows.deep_view()[0].len(),
            rows.deep_view().len() == rows@.len(),
            forall|j: int| 0 <= j < i ==> (#[trigger] rows.deep_view()[j]).len() == cols,
        decreases rows@.len() - i,
    {
        proof {
            assert(rows.deep_view()[i as int].len() == rows@[i as int]@.len());
        }
        if rows[i].len() != cols {
            return None;
        }
        i = i + 1;
    }
    Some((rows.len(), cols))
}

/// Whether a concrete array value has properties that inference can
/// state: a rectangular shape whose dimensions fit the wire integers.
pub open spec fn infer_array_ok(a: crate::base::ArrayValueV) -> bool {
    match a {
        crate::base::ArrayValueV::Bool(rows) => rectangular(rows) && rows.len() <= i64::MAX && (
        rows.len() > 0 ==> rows[0].len() <= i64::MAX),
        crate::base::ArrayValueV::Int(rows) => rectangular(rows) && rows.len() <= i64::MAX && (
        rows.len() > 0 ==> rows[0].len() <= i64::MAX),
        crate::base::ArrayValueV::Float(rows) => rectangular(rows) && rows.len() <= i64::MAX && (
        rows.len() > 0 ==> rows[0].len() <= i64::MAX),
        crate::base::ArrayValueV::Str(rows) => rectangular(rows) && rows.len() <= i64::MAX && (
        rows.len() > 0 ==> rows[0].len() <= i64::MAX),
    }
}

/// The shape of an array value: rows, and columns of the first row.
pub open spec fn array_shape(a: crate::base::ArrayValueV) -> (int, int) {
    match a {
        crate::base::ArrayValueV::Bool(rows) => (
            rows.len() as int,
            if rows.len() == 0 {
                0int
            } else {
                rows[0].len() as int
            },
        ),
        crate::base::ArrayValueV::Int(rows) => (
            rows.len() as int,
            if rows.len() == 0 {
                0int
            } else {
                rows[0].len() as int
            },
        ),
        crate::base::ArrayValueV::Float(rows) => (
            rows.len() as int,
            if rows.len() == 0 {
                0int
            } else {
                rows[0].len() as int
            },
        ),
        crate::base::ArrayValueV::Str(rows) => (
            rows.len() as int,
            if rows.len() == 0 {
                0int
            } else {
                rows[0].len() as int
            },
        ),
    }
}

/// The element type of an array value.
pub open spec fn array_type(a: crate::base::ArrayValueV) -> DataType {
    match a {
        crate::base::ArrayValueV::Bool(_) => DataType::Bool,
        crate::base::ArrayValueV::Int(_) => DataType::Int,
        crate::base::ArrayValueV::Float(_) => DataType::Float,
        crate::base::ArrayValueV::Str(_) => DataType::Str,
    }
}

/// The properties inference states for a public array value: the
/// observed shape and type, no nulls, and public, releasable data.
/// Bounds and categories are left unknown, which is sound: attributes
/// may be widened but never wrongly tightened.
pub open spec fn infer_array_props(a: crate::base::ArrayValueV) -> ArrayPropertiesV {
    ArrayPropertiesV {
        num_records: Some(array_shape(a).0 as i64),
        num_columns: Some(array_shape(a).1 as i64),
        nullity: false,
        releasable: true,
        lower: None,
        upper: None,
        categories: None,
        data_type: array_type(a),
        dataset_id: None,
        group_id: Seq::empty(),
        is_public: true,
    }
}

/// Whether inference can state properties for a public value.
pub open spec fn infer_ok(v: ValueV) -> bool {
    match v {
        ValueV::Array(a) => infer_array_ok(a),
        ValueV::Jagged(_) => true,
        ValueV::Indexmap(parts) => forall|i: int| 0 <= i < parts.len() ==> infer_array_ok(
            (#[trigger] parts[i]).1,
        ),
    }
}

/// The properties inference states for a public value.
pub open spec fn infer_props(v: ValueV) -> crate::props::ValuePropertiesV {
    match v {
        ValueV::Array(a) => crate::props::ValuePropertiesV::Array(infer_array_props(a)),
        ValueV::Jagged(j) => crate::props::ValuePropertiesV::Jagged(
            crate::props::JaggedProperties {
                data_type: match j {
                    crate::base::JaggedV::Bool(_) => DataType::Bool,
                    crate::base::JaggedV::Int(_) => DataType::Int,
                    crate::base::JaggedV::Float(_) => DataType::Float,
                    crate::base::JaggedV::Str(_) => DataType::Str,
                },
                releasable: true,
            },
        ),
        ValueV::Indexmap(parts) => crate::props::ValuePropertiesV::Indexmap(
            crate::props::IndexmapPropertiesV {
                num_records: None,
                disjoint: false,
                children: Seq::new(parts.len(), |i: int| (parts[i].0, infer_array_props(parts[i].1))),
                dataset_id: None,
                variant: crate::props::IndexmapVariant::Dataframe,
            },
        ),
    }
}

/// Infers the array properties of one concrete array value.
fn infer_array(a: &crate::base::ArrayValue) -> (r: Result<crate::props::ArrayProperties, Error>)
    ensures
        match r {
            Ok(p) => infer_array_ok(a.deep_view()) && p.deep_view() == infer_array_props(
                a.deep_view(),
            ),
            Err(e) => !infer_array_ok(a.deep_view()) && !(e.kind is BudgetExceeded),
        },
{
    let shape = match a {
        crate::base::ArrayValue::Bool(rows) => dims(rows),
        crate::base::ArrayValue::Int(rows) => dims(rows),
        crate::base::ArrayValue::Float(rows) => dims(rows),
        crate::base::ArrayValue::Str(rows) => dims(rows),
    };
    let (nr, nc) = match shape {
        Some(d) => d,
        None => {
            return Err(
                Error::new(
                    ErrorKind::InvariantViolation(String::from_str("arrays must be rectangular")),
                ),
            );
        },
    };
    if nr as u64 > i64::MAX as u64 || nc as u64 > i64::MAX as u64 {
        return Err(
            Error::new(ErrorKind::InvariantViolation(String::from_str("array too large"))),
        );
    }
    let data_type = match a {
        crate::base::ArrayValue::Bool(_) => DataType::Bool,
        crate::base::ArrayValue::Int(_) => DataType::Int,
        crate::base::ArrayValue::Float(_) => DataType::Float,
        crate::base::ArrayValue::Str(_) => DataType::Str,
    };
    let p = crate::props::ArrayProperties {
        num_records: Some(nr as i64),
        num_columns: Some(nc as i64),
        nullity: false,
        releasable: true,
        lower: None,
        upper: None,
        categories: None,
        data_type,
        dataset_id: None,
        group_id: Vec::new(),
        is_public: true,
    };
    proof {
        assert(p.deep_view() =~~= infer_array_props(a.deep_view()));
    }
    Ok(p)
}

/// Reconstructs the static properties of a concrete public value.
/// Inference is authoritative for public data: what it states
/// overrides any declared properties.
pub fn infer_property(value: &Value) -> (r: Result<ValueProperties, Error>)
    ensures
        match r {
            Ok(p) => infer_ok(value.deep_view()) && p.deep_view() == infer_props(
                value.deep_view(),
            ),
            Err(e) => !infer_ok(value.deep_view()) && !(e.kind is BudgetExceeded),
        },
{
    match value {
        Value::Array(a) => {
            let p = infer_array(a)?;
            Ok(ValueProperties::Array(p))
        },
        Value::Jagged(j) => {
            let data_type = match j {
                crate::base::Jagged::Bool(_) => DataType::Bool,
                crate::base::Jagged::Int(_) => DataType::Int,
                crate::base::Jagged::Float(_) => DataType::Float,
                crate::base::Jagged::Str(_) => DataType::Str,
            };
            Ok(
                ValueProperties::Jagged(
                    crate::props::JaggedProperties { data_type, releasable: true },
                ),
            )
        },
        Value::Indexmap(parts) => {
            let ghost pv = parts.deep_view();
            let mut children: Vec<(crate::base::IndexKey, crate::props::ArrayProperties)> =
                Vec::new();
            let mut i: usize = 0;
            while i < parts.len()
                invariant
                    i <= pv.len(),
                    pv == parts.deep_view(),
                    value.deep_view() == ValueV::Indexmap(pv),
                    parts@.len() == pv.len(),
                    children@.len() == i,
                    forall|j: int| 0 <= j < i ==> infer_array_ok((#[trigger] pv[j]).1),
                    forall|j: int| 0 <= j < i ==> (#[trigger] children@[j]).deep_view() == (
                    pv[j].0,
                    infer_array_props(pv[j].1),
                    ),
                decreases pv.len() - i,
            {
                proof {
                    assert(pv[i as int] == parts@[i as int].deep_view());
                }
                let (k, a) = &parts[i];
                let p = match infer_array(a) {
                    Ok(p) => p,
                    Err(e) => {
                        proof {
                            assert(a.deep_view() == pv[i as int].1);
                            assert(!infer_array_ok(pv[i as int].1));
                            assert(value.deep_view() == ValueV::Indexmap(pv));
                            assert(!infer_ok(value.deep_view()));
                        }
                        return Err(e);
                    },
                };
                children.push((k.clone(), p));
                i = i + 1;
            }
            let out = ValueProperties::Indexmap(
                crate::props::IndexmapProperties {
                    num_records: None,
                    disjoint: false,
                    children,
                    dataset_id: None,
                    variant: crate::props::IndexmapVariant::Dataframe,
                },
            );
            proof {
                assert(out.deep_view() =~~= infer_props(value.deep_view()));
            }
            Ok(out)
        },
    }
}


/// Every component of the graph is primitive.
pub open spec fn all_primitive(m: Map<u32, ComponentV>) -> bool {
    forall|id: u32| m.dom().contains(id) ==> (#[trigger] m[id]).variant.is_primitive()
}

/// The node ids whose released values are public.
pub open spec fn public_ids(rel: Map<u32, ReleaseNodeV>) -> Set<u32> {
    Set::new(|id: u32| rel.dom().contains(id) && rel[id].public)
}

/// Every public release value can have its properties inferred.
pub open spec fn releases_inferable(rel: Map<u32, ReleaseNodeV>) -> bool {
    forall|id: u32| rel.dom().contains(id) && (#[trigger] rel[id]).public ==> infer_ok(
        rel[id].value,
    )
}

/// Every node of the graph carries a public release, and the graph is
/// acyclic: the traversal then reads every node's properties off its
/// release and owes success.
pub open spec fn covered_by_release(m: Map<u32, ComponentV>, rel: Map<u32, ReleaseNodeV>) -> bool {
    &&& !has_cycle(m)
    &&& releases_inferable(rel)
    &&& forall|id: u32| #[trigger] m.dom().contains(id) ==> public_ids(rel).contains(id)
}

/// The named argument properties a component is propagated under,
/// read off a property map that holds every argument.
pub open spec fn argument_properties(
    args: Seq<(Seq<char>, u32)>,
    pm: Map<u32, <ValueProperties as DeepView>::V>,
) -> Seq<(Seq<char>, <ValueProperties as DeepView>::V)> {
    Seq::new(args.len(), |i: int| (args[i].0, pm[args[i].1]))
}

/// Every node of the graph either carries an inferable public release,
/// or is a Laplace mechanism with well-formed usages whose arguments
/// all carry public array releases, `data` among them; the graph is
/// acyclic and a privacy definition is given.  Such an analysis — a
/// bank of mechanisms over released data — owes a successful pass.
pub open spec fn mechanisms_over_public(
    m: Map<u32, ComponentV>,
    rel: Map<u32, ReleaseNodeV>,
    pd: Option<crate::base::PrivacyDefinition>,
) -> bool {
    &&& !has_cycle(m)
    &&& releases_inferable(rel)
    &&& pd is Some
    &&& forall|id: u32| #[trigger] m.dom().contains(id) ==> (public_ids(rel).contains(id) || {
        let c = m[id];
        &&& c.variant is LaplaceMechanism
        &&& crate::privacy::all_valid(c.variant->LaplaceMechanism_privacy_usage)
        &&& crate::maps::str_lookup(c.arguments, "data"@) is Some
        &&& forall|j: int| 0 <= j < c.arguments.len() ==> {
            let aid = (#[trigger] c.arguments[j]).1;
            &&& public_ids(rel).contains(aid)
            &&& rel[aid].value is Array
        }
    })
}

/// An empty graph has no cycle: a closed set would have to be empty.
pub proof fn lemma_empty_graph_acyclic(m: Map<u32, ComponentV>)
    requires
        m.dom() == Set::<u32>::empty(),
    ensures
        !has_cycle(m),
{
    if has_cycle(m) {
        let s = choose|s: Set<u32>|
            {
                &&& #[trigger] s.subset_of(m.dom())
                &&& exists|n: u32| s.contains(n)
                &&& forall|n: u32| s.contains(n) ==> exists|a: u32| #[trigger] s.contains(a)
                    && names_argument(m[n], a)
            };
        let n = choose|n: u32| s.contains(n);
        assert(m.dom().contains(n));
    }
}

/// A node the traversal is done with: its properties are known, and it
/// is either primitive or covered by a public release, so a second
/// pass would expand nothing.
pub open spec fn settled(
    m: Map<u32, ComponentV>,
    rel: Map<u32, ReleaseNodeV>,
    props_dom: Set<u32>,
    id: u32,
) -> bool {
    props_dom.contains(id) && (m[id].variant.is_primitive() || public_ids(rel).contains(id))
}


/// A backward chain over arguments: from a requested node, each step
/// moves to an argument of the previous node.
pub open spec fn ancestor_chain(
    m: Map<u32, ComponentV>,
    roots: Seq<u32>,
    chain: Seq<u32>,
) -> bool {
    &&& chain.len() > 0
    &&& roots.contains(chain[0])
    &&& forall|i: int| 0 <= i < chain.len() - 1 ==> m.dom().contains(#[trigger] chain[i])
        && names_argument(m[chain[i]], chain[i + 1])
}

/// Membership in the ancestor closure of the requested nodes: the
/// requested nodes themselves and everything their arguments reach.
pub open spec fn is_ancestor(m: Map<u32, ComponentV>, roots: Seq<u32>, id: u32) -> bool {
    exists|chain: Seq<u32>| #[trigger] ancestor_chain(m, roots, chain) && chain.last() == id
}

/// A requested node is its own ancestor.
pub proof fn lemma_ancestor_root(m: Map<u32, ComponentV>, roots: Seq<u32>, id: u32)
    requires
        roots.contains(id),
    ensures
        is_ancestor(m, roots, id),
{
    let chain = seq![id];
    assert(ancestor_chain(m, roots, chain));
    assert(chain.last() == id);
}

/// An argument of an ancestor is an ancestor.
pub proof fn lemma_ancestor_step(m: Map<u32, ComponentV>, roots: Seq<u32>, id: u32, a: u32)
    requires
        is_ancestor(m, roots, id),
        m.dom().contains(id),
        names_argument(m[id], a),
    ensures
        is_ancestor(m, roots, a),
{
    let chain = choose|chain: Seq<u32>| #[trigger] ancestor_chain(m, roots, chain) && chain.last()
        == id;
    let extended = chain.push(a);
    assert forall|i: int| 0 <= i < extended.len() - 1 implies m.dom().contains(
        #[trigger] extended[i],
    ) && names_argument(m[extended[i]], extended[i + 1]) by {
        if i < chain.len() - 1 {
            assert(extended[i] == chain[i]);
            assert(extended[i + 1] == chain[i + 1]);
        } else {
            assert(extended[i] == chain.last());
        }
    }
    assert(ancestor_chain(m, roots, extended));
    assert(extended.last() == a);
}

/// A subgraph whose nodes keep their components cannot have a cycle
/// the full graph lacks, and restricting a release keeps its values
/// inferable; when the full analysis is covered by public releases,
/// so is any restriction that keeps the releases of its nodes.
pub proof fn lemma_covered_restricts(
    m_full: Map<u32, ComponentV>,
    rel_full: Map<u32, ReleaseNodeV>,
    m_sub: Map<u32, ComponentV>,
    rel_sub: Map<u32, ReleaseNodeV>,
)
    requires
        forall|id: u32| #[trigger] m_sub.dom().contains(id) ==> m_full.dom().contains(id)
            && m_sub[id] == m_full[id],
        forall|id: u32| #[trigger] rel_sub.dom().contains(id) ==> rel_full.dom().contains(id)
            && rel_sub[id] == rel_full[id],
        forall|id: u32| #[trigger] m_sub.dom().contains(id) && public_ids(rel_full).contains(id)
            ==> rel_sub.dom().contains(id),
        covered_by_release(m_full, rel_full),
    ensures
        covered_by_release(m_sub, rel_sub),
{
    assert(!has_cycle(m_sub)) by {
        if has_cycle(m_sub) {
            let s = choose|s: Set<u32>|
                {
                    &&& #[trigger] s.subset_of(m_sub.dom())
                    &&& exists|n: u32| s.contains(n)
                    &&& forall|n: u32| s.contains(n) ==> exists|a: u32| #[trigger] s.contains(a)
                        && names_argument(m_sub[n], a)
                };
            assert(s.subset_of(m_full.dom()));
            assert forall|n: u32| s.contains(n) implies exists|a: u32| #[trigger] s.contains(a)
                && names_argument(m_full[n], a) by {
                let a = choose|a: u32| #[trigger] s.contains(a) && names_argument(m_sub[n], a);
                assert(m_sub[n] == m_full[n]);
                assert(s.contains(a) && names_argument(m_full[n], a));
            }
            assert(has_cycle(m_full));
        }
    }
    assert forall|id: u32| rel_sub.dom().contains(id) && (#[trigger] rel_sub[id]).public implies
        infer_ok(rel_sub[id].value) by {
        assert(rel_full[id].public);
    }
    assert forall|id: u32| #[trigger] m_sub.dom().contains(id) implies public_ids(
        rel_sub,
    ).contains(id) by {
        assert(public_ids(rel_full).contains(id));
        assert(rel_sub.dom().contains(id));
        assert(rel_sub[id] == rel_full[id]);
    }
}

/// The work the pruning traversal may still have to do: one unit per
/// unvisited graph node, plus one per argument it will push.
pub open spec fn prune_budget(entries: Seq<(u32, ComponentV)>, done: Set<u32>) -> int
    decreases entries.len(),
{
    if entries.len() == 0 {
        0
    } else {
        prune_budget(entries.drop_last(), done) + if done.contains(entries.last().0) {
            0int
        } else {
            entries.last().1.arguments.len() as int + 1
        }
    }
}

pub proof fn lemma_prune_budget_nonneg(entries: Seq<(u32, ComponentV)>, done: Set<u32>)
    ensures
        prune_budget(entries, done) >= 0,
    decreases entries.len(),
{
    if entries.len() > 0 {
        lemma_prune_budget_nonneg(entries.drop_last(), done);
    }
}

/// Marking an id that keys no entry leaves the budget unchanged.
pub proof fn lemma_prune_budget_absent(entries: Seq<(u32, ComponentV)>, done: Set<u32>, id: u32)
    requires
        forall|k: int| 0 <= k < entries.len() ==> (#[trigger] entries[k]).0 != id,
    ensures
        prune_budget(entries, done.insert(id)) == prune_budget(entries, done),
    decreases entries.len(),
{
    if entries.len() > 0 {
        assert forall|k: int| 0 <= k < entries.drop_last().len() implies (
        #[trigger] entries.drop_last()[k]).0 != id by {
            assert(entries[k].0 != id);
        }
        lemma_prune_budget_absent(entries.drop_last(), done, id);
        assert(entries[entries.len() - 1].0 != id);
    }
}

/// Marking an unvisited node pays for its unit and its arguments.
pub proof fn lemma_prune_budget_insert(
    entries: Seq<(u32, ComponentV)>,
    done: Set<u32>,
    id: u32,
    k: int,
)
    requires
        crate::maps::unique_ids(entries),
        0 <= k < entries.len(),
        entries[k].0 == id,
        !done.contains(id),
    ensures
        prune_budget(entries, done.insert(id)) == prune_budget(entries, done) - (
        entries[k].1.arguments.len() + 1),
    decreases entries.len(),
{
    let sd = entries.drop_last();
    if k == entries.len() - 1 {
        assert forall|j: int| 0 <= j < sd.len() implies (#[trigger] sd[j]).0 != id by {
            assert(entries[j].0 != entries[k].0);
        }
        lemma_prune_budget_absent(sd, done, id);
    } else {
        assert forall|i: int, j: int| 0 <= i < j < sd.len() implies (#[trigger] sd[i]).0 != (
        #[trigger] sd[j]).0 by {
            assert(entries[i].0 != entries[j].0);
        }
        assert(sd[k] == entries[k]);
        lemma_prune_budget_insert(sd, done, id, k);
        assert(entries.last().0 != id) by {
            assert(entries[k].0 != entries[entries.len() - 1].0);
        }
    }
}


/// Prunes an analysis and its release to the ancestors of the
/// requested nodes.  Everything kept is an ancestor of a requested id
/// and keeps its component or released value unchanged, and a kept
/// node\'s release entry is kept with it.  The traversal\'s work is paid
/// for up front — one unit per queued id and per argument a node can
/// push — so pruning never fails.
pub fn prune_to_ancestors(analysis: Analysis, release: Release, node_ids: &Vec<u32>) -> (r: (
    Analysis,
    Release,
))
    requires
        analysis.computation_graph.wf(),
        release.wf(),
    ensures
        r.0.computation_graph.wf(),
        r.1.wf(),
        r.0.privacy_definition == analysis.privacy_definition,
        forall|id: u32| #[trigger] r.0.computation_graph.as_map().dom().contains(id) ==> {
            &&& is_ancestor(analysis.computation_graph.as_map(), node_ids@, id)
            &&& analysis.computation_graph.as_map().dom().contains(id)
            &&& r.0.computation_graph.as_map()[id] == analysis.computation_graph.as_map()[id]
        },
        forall|id: u32| #[trigger] r.1.as_map().dom().contains(id) ==> {
            &&& is_ancestor(analysis.computation_graph.as_map(), node_ids@, id)
            &&& release.as_map().dom().contains(id)
            &&& r.1.as_map()[id] == release.as_map()[id]
        },
        forall|id: u32| #[trigger] r.0.computation_graph.as_map().dom().contains(id)
            && release.as_map().dom().contains(id) ==> r.1.as_map().dom().contains(id),
{
    let ghost m = analysis.computation_graph.as_map();
    let ghost gdv = analysis.computation_graph.deep_view();
    let ghost roots = node_ids@;

    let graph_len = analysis.computation_graph.entries.len();
    proof {
        assert(gdv.len() == graph_len as int);
    }
    let mut fuel: u128 = 0;
    let mut gi: usize = 0;
    while gi < analysis.computation_graph.entries.len()
        invariant
            analysis.computation_graph.wf(),
            gdv == analysis.computation_graph.deep_view(),
            analysis.computation_graph.entries@.len() == gdv.len(),
            gi <= gdv.len(),
            gdv.len() < 0x1_0000_0000_0000_0000,
            fuel == prune_budget(gdv.take(gi as int), Set::empty()),
            fuel <= (gi as int) * (usize::MAX as int + 1),
        decreases gdv.len() - gi,
    {
        proof {
            assert(gdv[gi as int] == analysis.computation_graph.entries@[gi as int].deep_view());
            assert(gdv.take(gi as int + 1).drop_last() =~= gdv.take(gi as int));
            assert(gdv.take(gi as int + 1).last() == gdv[gi as int]);
        }
        let args = analysis.computation_graph.entries[gi].1.arguments.len();
        proof {
            assert(args as int == gdv[gi as int].1.arguments.len());
            assert(args as int + 1 <= usize::MAX as int + 1);
            vstd::arithmetic::mul::lemma_mul_is_commutative(
                gi as int,
                usize::MAX as int + 1,
            );
            vstd::arithmetic::mul::lemma_mul_is_distributive_add(
                usize::MAX as int + 1,
                gi as int,
                1,
            );
            vstd::arithmetic::mul::lemma_mul_is_commutative(
                gi as int + 1,
                usize::MAX as int + 1,
            );
            assert((fuel as int) + (args as int) + 1 <= (gi as int + 1) * (
            usize::MAX as int + 1));
            vstd::arithmetic::mul::lemma_mul_inequality(
                gi as int + 1,
                gdv.len() as int,
                usize::MAX as int + 1,
            );
            vstd::arithmetic::mul::lemma_mul_inequality(
                gdv.len() as int,
                usize::MAX as int,
                usize::MAX as int + 1,
            );
        }
        fuel = fuel + args as u128 + 1;
        gi = gi + 1;
    }
    proof {
        assert(gdv.take(gdv.len() as int) =~= gdv);
    }
    let request_len = node_ids.len();
    proof {
        assert(fuel <= (gdv.len() as int) * (usize::MAX as int + 1));
        assert((gdv.len() as int) * (usize::MAX as int + 1) <= (usize::MAX as int) * (
        usize::MAX as int + 1)) by {
            vstd::arithmetic::mul::lemma_mul_inequality(
                gdv.len() as int,
                usize::MAX as int,
                usize::MAX as int + 1,
            );
        }
        assert(request_len as int == roots.len());
        assert((fuel as int) + (request_len as int) <= u128::MAX as int);
    }
    fuel = fuel + request_len as u128;

    let mut worklist: Vec<u32> = Vec::new();
    let mut ni: usize = 0;
    while ni < node_ids.len()
        invariant
            ni <= roots.len(),
            roots == node_ids@,
            worklist@ == roots.take(ni as int),
        decreases roots.len() - ni,
    {
        worklist.push(node_ids[ni]);
        proof {
            assert(worklist@ =~= roots.take(ni as int + 1));
        }
        ni = ni + 1;
    }
    proof {
        assert(roots.take(roots.len() as int) =~= roots);
    }

    proof {
        assert forall|p: int| 0 <= p < worklist@.len() implies is_ancestor(
            m,
            roots,
            #[trigger] worklist@[p],
        ) by {
            assert(roots.contains(roots[p]));
            lemma_ancestor_root(m, roots, worklist@[p]);
        }
    }
    let mut ancestors: IdMap<bool> = IdMap::new();
    while worklist.len() > 0
        invariant
            analysis.computation_graph.wf(),
            m == analysis.computation_graph.as_map(),
            gdv == analysis.computation_graph.deep_view(),
            ancestors.wf(),
            forall|id: u32| #[trigger] ancestors.as_map().dom().contains(id) ==> is_ancestor(
                m,
                roots,
                id,
            ),
            forall|p: int| 0 <= p < worklist@.len() ==> is_ancestor(
                m,
                roots,
                #[trigger] worklist@[p],
            ),
            fuel >= worklist@.len() + prune_budget(gdv, ancestors.as_map().dom()),
        decreases fuel,
    {
        proof {
            lemma_prune_budget_nonneg(gdv, ancestors.as_map().dom());
        }
        fuel = fuel - 1;
        let ghost wl_before = worklist@;
        let id = match worklist.pop() {
            Some(id) => id,
            None => {
                proof {
                    assert(false);
                }
                0
            },
        };
        proof {
            assert(id == wl_before.last());
            assert(is_ancestor(m, roots, id));
        }
        if !ancestors.contains(id) {
            let ghost done0 = ancestors.as_map().dom();
            ancestors.insert(id, true);
            match analysis.computation_graph.get(id) {
                Some(c) => {
                    proof {
                        lemma_id_map_contains(gdv, id);
                        let k = choose|k: int|
                            0 <= k < gdv.len() && (#[trigger] gdv[k]).0 == id;
                        lemma_id_map_get(gdv, id, k);
                        lemma_prune_budget_insert(gdv, done0, id, k);
                        assert(c.deep_view() == gdv[k].1);
                    }
                    let ghost wl0 = worklist@.len() as int;
                    let mut ai: usize = 0;
                    while ai < c.arguments.len()
                        invariant
                            m == analysis.computation_graph.as_map(),
                            m.dom().contains(id),
                            c.deep_view() == m[id],
                            c.arguments@.len() == c.deep_view().arguments.len(),
                            ai <= c.arguments@.len(),
                            worklist@.len() == wl0 + ai,
                            forall|p: int| 0 <= p < worklist@.len() ==> is_ancestor(
                                m,
                                roots,
                                #[trigger] worklist@[p],
                            ),
                            is_ancestor(m, roots, id),
                        decreases c.arguments@.len() - ai,
                    {
                        let ghost wlb = worklist@;
                        proof {
                            assert(c.deep_view().arguments[ai as int] == c.arguments@[
                                ai as int
                            ].deep_view());
                            assert(names_argument(m[id], c.arguments@[ai as int].1));
                            lemma_ancestor_step(m, roots, id, c.arguments@[ai as int].1);
                        }
                        worklist.push(c.arguments[ai].1);
                        proof {
                            assert forall|p: int| 0 <= p < worklist@.len() implies is_ancestor(
                                m,
                                roots,
                                #[trigger] worklist@[p],
                            ) by {
                                if p < wlb.len() {
                                    assert(worklist@[p] == wlb[p]);
                                }
                            }
                        }
                        ai = ai + 1;
                    }
                },
                None => {
                    proof {
                        lemma_id_map_contains(gdv, id);
                        assert forall|k: int| 0 <= k < gdv.len() implies (#[trigger] gdv[k]).0
                            != id by {
                            if gdv[k].0 == id {
                                assert(m.dom().contains(id));
                            }
                        }
                        lemma_prune_budget_absent(gdv, done0, id);
                    }
                },
            }
        }
    }

    let mut kept: IdMap<Component> = IdMap::new();
    let mut ki: usize = 0;
    while ki < analysis.computation_graph.entries.len()
        invariant
            analysis.computation_graph.wf(),
            m == analysis.computation_graph.as_map(),
            gdv == analysis.computation_graph.deep_view(),
            analysis.computation_graph.entries@.len() == gdv.len(),
            ki <= gdv.len(),
            ancestors.wf(),
            kept.wf(),
            forall|id: u32| #[trigger] ancestors.as_map().dom().contains(id) ==> is_ancestor(
                m,
                roots,
                id,
            ),
            forall|id: u32| #[trigger] kept.as_map().dom().contains(id) ==> {
                &&& ancestors.as_map().dom().contains(id)
                &&& m.dom().contains(id)
                &&& kept.as_map()[id] == m[id]
            },
        decreases gdv.len() - ki,
    {
        proof {
            assert(gdv[ki as int] == analysis.computation_graph.entries@[ki as int].deep_view());
        }
        let id = analysis.computation_graph.entries[ki].0;
        if ancestors.contains(id) {
            let ghost kept0 = kept.as_map();
            let comp = analysis.computation_graph.entries[ki].1.clone();
            proof {
                lemma_id_map_get(gdv, id, ki as int);
            }
            kept.insert(id, comp);
            proof {
                assert forall|x: u32| #[trigger] kept.as_map().dom().contains(x) implies {
                    &&& ancestors.as_map().dom().contains(x)
                    &&& m.dom().contains(x)
                    &&& kept.as_map()[x] == m[x]
                } by {
                    if x != id {
                        assert(kept0.dom().contains(x));
                    }
                }
            }
        }
        ki = ki + 1;
    }

    let ghost rdv = release.deep_view();
    let mut kept_release: IdMap<ReleaseNode> = IdMap::new();
    let mut ri: usize = 0;
    while ri < release.entries.len()
        invariant
            release.wf(),
            rdv == release.deep_view(),
            release.entries@.len() == rdv.len(),
            ri <= rdv.len(),
            ancestors.wf(),
            kept_release.wf(),
            forall|id: u32| #[trigger] ancestors.as_map().dom().contains(id) ==> is_ancestor(
                m,
                roots,
                id,
            ),
            forall|id: u32| #[trigger] kept_release.as_map().dom().contains(id) ==> {
                &&& ancestors.as_map().dom().contains(id)
                &&& release.as_map().dom().contains(id)
                &&& kept_release.as_map()[id] == release.as_map()[id]
            },
            forall|j: int| 0 <= j < ri && ancestors.as_map().dom().contains(
                (#[trigger] rdv[j]).0,
            ) ==> kept_release.as_map().dom().contains(rdv[j].0),
        decreases rdv.len() - ri,
    {
        proof {
            assert(rdv[ri as int] == release.entries@[ri as int].deep_view());
        }
        let id = release.entries[ri].0;
        if ancestors.contains(id) {
            let ghost keptr0 = kept_release.as_map();
            let rn = release.entries[ri].1.clone();
            proof {
                lemma_id_map_get(rdv, id, ri as int);
            }
            kept_release.insert(id, rn);
            proof {
                assert forall|x: u32| #[trigger] kept_release.as_map().dom().contains(x) implies {
                    &&& ancestors.as_map().dom().contains(x)
                    &&& release.as_map().dom().contains(x)
                    &&& kept_release.as_map()[x] == release.as_map()[x]
                } by {
                    if x != id {
                        assert(keptr0.dom().contains(x));
                    }
                }
            }
        }
        ri = ri + 1;
    }
    proof {
        assert forall|id: u32| #[trigger] kept.as_map().dom().contains(id)
            && release.as_map().dom().contains(id) implies kept_release.as_map().dom().contains(
            id,
        ) by {
            lemma_id_map_contains(rdv, id);
            let j = choose|j: int| 0 <= j < rdv.len() && (#[trigger] rdv[j]).0 == id;
        }
    }

    (
        Analysis { computation_graph: kept, privacy_definition: analysis.privacy_definition },
        kept_release,
    )
}

/// Every array property in the map respects the bounds invariant of
/// the property lattice.
pub open spec fn props_bounds_ordered(pm: Map<u32, <ValueProperties as DeepView>::V>) -> bool {
    forall|id: u32| #[trigger] pm.dom().contains(id) ==> match pm[id] {
        crate::props::ValuePropertiesV::Array(a) => a.bounds_ordered(),
        _ => true,
    }
}

/// Inserting a value that respects the bounds invariant keeps the
/// whole map respecting it.
pub proof fn lemma_props_ordered_preserved(
    pm: Map<u32, <ValueProperties as DeepView>::V>,
    id: u32,
    v: <ValueProperties as DeepView>::V,
)
    requires
        props_bounds_ordered(pm),
        match v {
            crate::props::ValuePropertiesV::Array(a) => a.bounds_ordered(),
            _ => true,
        },
    ensures
        props_bounds_ordered(pm.insert(id, v)),
{
    assert forall|x: u32| #[trigger] pm.insert(id, v).dom().contains(x) implies match pm.insert(
        id,
        v,
    )[x] {
        crate::props::ValuePropertiesV::Array(a) => a.bounds_ordered(),
        _ => true,
    } by {
        if x != id {
            assert(pm.dom().contains(x));
        }
    }
}

/// Inferred properties respect the bounds invariant: inference leaves
/// bounds unknown.
pub proof fn lemma_infer_props_ordered(v: ValueV)
    ensures
        match infer_props(v) {
            crate::props::ValuePropertiesV::Array(a) => a.bounds_ordered(),
            _ => true,
        },
{
}

/// When the gathered argument properties hold an array for `data`, it
/// is the array stored in the property map under some argument id.
pub proof fn lemma_data_array_from_map(
    args: Seq<(Seq<char>, u32)>,
    pm: Map<u32, <ValueProperties as DeepView>::V>,
)
    requires
        forall|i: int| 0 <= i < args.len() ==> pm.dom().contains((#[trigger] args[i]).1),
        crate::components::impute::data_array(argument_properties(args, pm)) is Some,
    ensures
        exists|aid: u32| #[trigger] pm.dom().contains(aid) && pm[aid]
            == crate::props::ValuePropertiesV::Array(
            crate::components::impute::data_array(argument_properties(args, pm))->0,
        ),
{
    let pseq = argument_properties(args, pm);
    assert(crate::maps::str_lookup(pseq, "data"@) is Some);
    crate::maps::lemma_str_lookup_first_index(pseq, "data"@);
    let k = choose|k: int|
        {
            &&& 0 <= k < pseq.len()
            &&& (#[trigger] pseq[k]).0 == "data"@
            &&& pseq[k].1 == crate::maps::str_lookup(pseq, "data"@)->0
            &&& forall|j: int| 0 <= j < k ==> (#[trigger] pseq[j]).0 != "data"@
        };
    let aid = args[k].1;
    assert(pm.dom().contains(aid));
    assert(pseq[k].1 == pm[aid]);
    assert(pm[aid] == crate::props::ValuePropertiesV::Array(
        crate::components::impute::data_array(pseq)->0,
    ));
}

/// The property map holds, for every publicly released node, exactly
/// the properties inferred from its released value.
pub open spec fn public_properties_inferred(
    rel: Map<u32, ReleaseNodeV>,
    pm: Map<u32, <ValueProperties as DeepView>::V>,
) -> bool {
    forall|id: u32| public_ids(rel).contains(id) ==> (#[trigger] pm.dom().contains(id) && pm[id]
        == infer_props(rel[id].value))
}

/// Inserting properties for a node without a public release keeps the
/// public nodes' inferred properties intact.
proof fn lemma_public_properties_preserved(
    rel: Map<u32, ReleaseNodeV>,
    pm: Map<u32, <ValueProperties as DeepView>::V>,
    node_id: u32,
    v: <ValueProperties as DeepView>::V,
)
    requires
        public_properties_inferred(rel, pm),
        !public_ids(rel).contains(node_id),
    ensures
        public_properties_inferred(rel, pm.insert(node_id, v)),
{
    assert forall|id: u32| public_ids(rel).contains(id) implies (#[trigger] pm.insert(
        node_id,
        v,
    ).dom().contains(id) && pm.insert(node_id, v)[id] == infer_props(rel[id].value)) by {
        assert(id != node_id);
        assert(pm.dom().contains(id));
    }
}

/// In a bank of mechanisms over public data, an unreleased node's
/// propagation preconditions all hold: it is a Laplace mechanism whose
/// `data` argument resolves, through the property map filled by the
/// inference pre-pass, to the array properties of a public release.
proof fn lemma_mechanism_propagates(
    m: Map<u32, ComponentV>,
    rel: Map<u32, ReleaseNodeV>,
    pd: Option<crate::base::PrivacyDefinition>,
    pm: Map<u32, <ValueProperties as DeepView>::V>,
    node_id: u32,
)
    requires
        mechanisms_over_public(m, rel, pd),
        m.dom().contains(node_id),
        !public_ids(rel).contains(node_id),
        public_properties_inferred(rel, pm),
    ensures
        m[node_id].variant is LaplaceMechanism,
        crate::components::laplace_ok(
            argument_properties(m[node_id].arguments, pm),
            pd,
            m[node_id].variant->LaplaceMechanism_privacy_usage,
        ),
{
    let c = m[node_id];
    crate::maps::lemma_str_lookup_first_index(c.arguments, "data"@);
    let k = choose|k: int|
        {
            &&& 0 <= k < c.arguments.len()
            &&& (#[trigger] c.arguments[k]).0 == "data"@
            &&& c.arguments[k].1 == crate::maps::str_lookup(c.arguments, "data"@)->0
            &&& forall|j: int| 0 <= j < k ==> (#[trigger] c.arguments[j]).0 != "data"@
        };
    let pseq = argument_properties(c.arguments, pm);
    assert(pseq[k] == (c.arguments[k].0, pm[c.arguments[k].1]));
    assert forall|j: int| 0 <= j < k implies (#[trigger] pseq[j]).0 != "data"@ by {
        assert(pseq[j].0 == c.arguments[j].0);
    }
    crate::maps::lemma_str_lookup_found(pseq, "data"@, k);
    let aid = c.arguments[k].1;
    assert(public_ids(rel).contains(aid));
    assert(pm.dom().contains(aid));
    assert(pm[aid] == infer_props(rel[aid].value));
    assert(rel[aid].value is Array);
    assert(pm[aid] is Array);
    assert(crate::components::impute::data_array(pseq) is Some);
}

/// Collects the properties of a component's arguments, by name.
pub(crate) fn gather_node_properties(
    component: &Component,
    props: &IdMap<ValueProperties>,
) -> (r: Result<Vec<(String, ValueProperties)>, Error>)
    requires
        props.wf(),
    ensures
        match r {
            Ok(v) => {
                &&& forall|i: int| 0 <= i < component.deep_view().arguments.len()
                    ==> props.as_map().dom().contains(
                    (#[trigger] component.deep_view().arguments[i]).1,
                )
                &&& v.deep_view() == argument_properties(
                    component.deep_view().arguments,
                    props.as_map(),
                )
            },
            Err(e) => e.kind is MissingArgument && exists|i: int|
                0 <= i < component.deep_view().arguments.len() && !props.as_map().dom().contains(
                    (#[trigger] component.deep_view().arguments[i]).1,
                ),
        },
{
    let ghost argsv = component.deep_view().arguments;
    let mut out: Vec<(String, ValueProperties)> = Vec::new();
    let mut i: usize = 0;
    while i < component.arguments.len()
        invariant
            props.wf(),
            i <= argsv.len(),
            argsv == component.deep_view().arguments,
            component.arguments@.len() == argsv.len(),
            out.deep_view().len() == i,
            forall|j: int| 0 <= j < i ==> props.as_map().dom().contains((#[trigger] argsv[j]).1),
            forall|j: int| 0 <= j < i ==> #[trigger] out.deep_view()[j] == (
                argsv[j].0,
                props.as_map()[argsv[j].1],
            ),
        decreases component.arguments@.len() - i,
    {
        proof {
            assert(argsv[i as int] == component.arguments@[i as int].deep_view());
        }
        let (name, aid) = &component.arguments[i];
        match props.get(*aid) {
            Some(p) => {
                let ghost before = out.deep_view();
                out.push((name.clone(), p.clone()));
                proof {
                    let entry = argsv[i as int];
                    assert(out.deep_view()[i as int] == (entry.0, props.as_map()[entry.1]));
                    assert forall|j: int| 0 <= j < i implies #[trigger] out.deep_view()[j] == (
                        argsv[j].0,
                        props.as_map()[argsv[j].1],
                    ) by {
                        assert(out.deep_view()[j] == out@[j].deep_view());
                        assert(before[j] == out@[j].deep_view());
                    }
                }
            },
            None => {
                return Err(Error::new(ErrorKind::MissingArgument(name.clone())));
            },
        }
        i = i + 1;
    }
    proof {
        assert(out.deep_view() =~= argument_properties(argsv, props.as_map()));
    }
    Ok(out)
}

/// Collects the public released values of a component's arguments, by
/// name.  Values that are absent or not public are never read.
fn gather_public_arguments(component: &Component, release: &Release) -> (r: Vec<(String, Value)>)
    requires
        release.wf(),
{
    let mut out: Vec<(String, Value)> = Vec::new();
    let mut i: usize = 0;
    while i < component.arguments.len()
        invariant
            release.wf(),
        decreases component.arguments@.len() - i,
    {
        let (name, aid) = &component.arguments[i];
        match release.get(*aid) {
            Some(rn) => {
                if rn.public {
                    out.push((name.clone(), rn.value.clone()));
                }
            },
            None => {},
        }
        i = i + 1;
    }
    out
}

/// The central routine: expands composite nodes to a fixed point and
/// propagates properties over the growing graph in topological order.
///
/// In static mode a missing upstream property is fatal; in dynamic
/// mode such nodes are skipped and reported as warnings.  On static
/// success the property map covers exactly the final graph's nodes,
/// the seeded nodes and the public release nodes, and every node left
/// in the graph is primitive or publicly released, so a second pass
/// would expand nothing.
#[verifier::rlimit(60)]
pub fn propagate_properties(
    analysis: &mut Analysis,
    release: &mut Release,
    seed_properties: Option<IdMap<ValueProperties>>,
    dynamic: bool,
) -> (r: Result<(IdMap<ValueProperties>, Vec<Error>), Error>)
    requires
        old(analysis).computation_graph.wf(),
        old(release).wf(),
        match seed_properties {
            Some(s) => s.wf(),
            None => true,
        },
    ensures
        final(analysis).computation_graph.wf(),
        final(release).wf(),
        final(release).as_map() == old(release).as_map(),
        final(analysis).privacy_definition == old(analysis).privacy_definition,
        has_cycle(old(analysis).computation_graph.as_map()) ==> r is Err
            && r->Err_0.kind is CycleDetected,
        r is Err ==> !(r->Err_0.kind is BudgetExceeded),
        dynamic ==> (r is Err ==> (r->Err_0.kind is CycleDetected || r->Err_0.kind is ExpansionLoop
            || !releases_inferable(old(release).as_map()))),
        (match seed_properties {
            Some(s) => props_bounds_ordered(s.as_map()),
            None => true,
        }) ==> (r is Ok ==> props_bounds_ordered(r->Ok_0.0.as_map())),
        all_primitive(old(analysis).computation_graph.as_map())
            ==> final(analysis).computation_graph == old(analysis).computation_graph,
        (old(analysis).computation_graph.deep_view().len() == 0 && old(
            release,
        ).deep_view().len() == 0) ==> r is Ok,
        mechanisms_over_public(
            old(analysis).computation_graph.as_map(),
            old(release).as_map(),
            old(analysis).privacy_definition,
        ) ==> (r is Ok && final(analysis).computation_graph == old(
            analysis,
        ).computation_graph),
        covered_by_release(old(analysis).computation_graph.as_map(), old(release).as_map()) ==> {
            &&& r is Ok
            &&& final(analysis).computation_graph == old(analysis).computation_graph
            &&& forall|id: u32| #[trigger] r->Ok_0.0.as_map().dom().contains(id) ==> (old(
                analysis,
            ).computation_graph.as_map().dom().contains(id) || (match seed_properties {
                Some(s) => s.as_map().dom().contains(id),
                None => false,
            }) || public_ids(old(release).as_map()).contains(id))
            &&& forall|id: u32|
                old(analysis).computation_graph.as_map().dom().contains(id)
                    ==> #[trigger] r->Ok_0.0.as_map().dom().contains(id)
        },
        match r {
            Ok(out) => {
                &&& out.0.wf()
                &&& !has_cycle(old(analysis).computation_graph.as_map())
                &&& !dynamic ==> {
                    &&& forall|id: u32|
                        final(analysis).computation_graph.as_map().dom().contains(id)
                            ==> #[trigger] settled(
                            final(analysis).computation_graph.as_map(),
                            old(release).as_map(),
                            out.0.as_map().dom(),
                            id,
                        )
                    &&& forall|id: u32| #[trigger] out.0.as_map().dom().contains(id)
                        ==> (final(analysis).computation_graph.as_map().dom().contains(id) || (
                    match seed_properties {
                        Some(s) => s.as_map().dom().contains(id),
                        None => false,
                    }) || public_ids(old(release).as_map()).contains(id))
                    &&& forall|id: u32| (match seed_properties {
                        Some(s) => s.as_map().dom().contains(id),
                        None => false,
                    }) || public_ids(old(release).as_map()).contains(id)
                        ==> #[trigger] out.0.as_map().dom().contains(id)
                }
            },
            Err(e) => true,
        },
{
    let ghost m0 = old(analysis).computation_graph.as_map();
    let ghost relmap0 = old(release).as_map();
    let ghost mech_graph = mechanisms_over_public(
        m0,
        relmap0,
        old(analysis).privacy_definition,
    );
    let ghost seeddom: Set<u32> = if seed_properties is Some {
        seed_properties->0.as_map().dom()
    } else {
        Set::empty()
    };
    let ghost seed_ordered: bool = if seed_properties is Some {
        props_bounds_ordered(seed_properties->0.as_map())
    } else {
        true
    };

    let mut props: IdMap<ValueProperties> = match seed_properties {
        Some(s) => s,
        None => IdMap::new(),
    };

    // the DAG check and the initial topological order
    let order = match get_traversal(&analysis.computation_graph) {
        Ok(order) => order,
        Err(e) => {
            proof {
                if old(analysis).computation_graph.deep_view().len() == 0 {
                    reveal_with_fuel(id_map_of, 1);
                    assert(m0.dom() =~= Set::<u32>::empty());
                    lemma_empty_graph_acyclic(m0);
                }
            }
            return Err(e);
        },
    };
    let ghost ghost_order = order@;
    proof {
        assert(analysis.computation_graph.as_map() == m0);
        assert(order@ =~= ghost_order.take(order@.len() as int));
    }
    let mut order = order;
    let mut stack: Vec<u32> = Vec::new();
    while order.len() > 0
        invariant
            forall|id: u32| ghost_order.contains(id) ==> order@.contains(id)
                || stack@.contains(id),
            order@ == ghost_order.take(order@.len() as int),
            order@.len() + stack@.len() == ghost_order.len(),
            forall|p: int| 0 <= p < stack@.len() ==> m0.dom().contains(#[trigger] stack@[p]),
            is_topological_order(m0, ghost_order),
        decreases order@.len(),
    {
        let ghost before = order@;
        let ghost sbef = stack@;
        match order.pop() {
            Some(x) => {
                stack.push(x);
                proof {
                    assert(x == ghost_order[before.len() - 1]);
                    assert(m0.dom().contains(x));
                    assert(order@ =~= ghost_order.take(order@.len() as int));
                    assert forall|id: u32| ghost_order.contains(id) implies order@.contains(id)
                        || stack@.contains(id) by {
                        if before.contains(id) {
                            let p = choose|p: int| 0 <= p < before.len() && before[p] == id;
                            if p < before.len() - 1 {
                                assert(order@[p] == id);
                            } else {
                                assert(stack@.last() == id);
                            }
                        } else {
                            assert(sbef.contains(id));
                            let p = choose|p: int| 0 <= p < sbef.len() && sbef[p] == id;
                            assert(stack@[p] == id);
                        }
                    }
                }
            },
            None => {},
        }
    }

    // inference pre-pass: public release values are authoritative
    let mut ri: usize = 0;
    while ri < release.entries.len()
        invariant
            release.wf(),
            props.wf(),
            release == old(release),
            release.as_map() == relmap0,
            relmap0 == old(release).as_map(),
            ri <= release.entries@.len(),
            release.deep_view().len() == release.entries@.len(),
            forall|id: u32| #[trigger] props.as_map().dom().contains(id) ==> seeddom.contains(id)
                || public_ids(relmap0).contains(id),
            forall|id: u32| seeddom.contains(id) ==> #[trigger] props.as_map().dom().contains(id),
            seed_ordered ==> props_bounds_ordered(props.as_map()),
            !has_cycle(m0),
            m0 == old(analysis).computation_graph.as_map(),
            analysis.computation_graph == old(analysis).computation_graph,
            analysis.computation_graph.wf(),
            analysis.privacy_definition == old(analysis).privacy_definition,
            forall|j: int|
                0 <= j < ri && (#[trigger] release.deep_view()[j]).1.public ==> {
                    let entry = release.deep_view()[j];
                    props.as_map().dom().contains(entry.0) && props.as_map()[entry.0]
                        == infer_props(entry.1.value)
                },
        decreases release.entries@.len() - ri,
    {
        let ghost rdv = release.deep_view();
        proof {
            assert(rdv[ri as int] == release.entries@[ri as int].deep_view());
        }
        let id = release.entries[ri].0;
        if release.entries[ri].1.public {
            let inferred = match infer_property(&release.entries[ri].1.value) {
                Ok(p) => p,
                Err(e) => {
                    proof {
                        // a public value that inference refuses: neither
                        // forced-success antecedent can hold
                        lemma_id_map_get(rdv, id, ri as int);
                        assert(relmap0[id].public);
                        assert(!infer_ok(relmap0[id].value));
                        assert(!releases_inferable(relmap0));
                    }
                    return Err(e.at_node(id));
                },
            };
            let ghost pm_pre = props.as_map();
            proof {
                lemma_id_map_get(rdv, id, ri as int);
                assert(public_ids(relmap0).contains(id));
            }
            props.insert(id, inferred);
            proof {
                if seed_ordered {
                    lemma_infer_props_ordered(rdv[ri as int].1.value);
                    lemma_props_ordered_preserved(pm_pre, id, inferred.deep_view());
                }
            }
        }
        ri = ri + 1;
    }

    proof {
        let rdv = release.deep_view();
        assert forall|id: u32| public_ids(relmap0).contains(id) implies
            #[trigger] props.as_map().dom().contains(id) && props.as_map()[id] == infer_props(
            relmap0[id].value,
        ) by {
            lemma_id_map_contains(rdv, id);
            let j = choose|j: int| 0 <= j < rdv.len() && (#[trigger] rdv[j]).0 == id;
            lemma_id_map_get(rdv, id, j);
            assert(rdv[j].1.public);
            assert(props.as_map().dom().contains(rdv[j].0));
        }
        assert(public_properties_inferred(relmap0, props.as_map()));
    }

    let mut maximum_id: u32 = 0;
    let mut mi: usize = 0;
    while mi < analysis.computation_graph.entries.len()
        invariant
            analysis.computation_graph.wf(),
            analysis.computation_graph == old(analysis).computation_graph,
            analysis.privacy_definition == old(analysis).privacy_definition,
            mi <= analysis.computation_graph.deep_view().len(),
            analysis.computation_graph.entries@.len()
                == analysis.computation_graph.deep_view().len(),
            forall|j: int| 0 <= j < mi ==> (#[trigger] analysis.computation_graph.deep_view()[j]).0
                <= maximum_id,
        decreases analysis.computation_graph.entries@.len() - mi,
    {
        proof {
            assert(analysis.computation_graph.deep_view()[mi as int]
                == analysis.computation_graph.entries@[mi as int].deep_view());
        }
        let id = analysis.computation_graph.entries[mi].0;
        if id > maximum_id {
            maximum_id = id;
        }
        mi = mi + 1;
    }
    proof {
        assert forall|id: u32| analysis.computation_graph.as_map().dom().contains(
            id,
        ) implies id <= maximum_id by {
            lemma_id_map_contains(analysis.computation_graph.deep_view(), id);
        }
        assert forall|id: u32| analysis.computation_graph.as_map().dom().contains(
            id,
        ) implies stack@.contains(id) by {
            lemma_order_covers(m0, ghost_order, id);
            assert(ghost_order.contains(id));
        }
    }

    let mut warnings: Vec<Error> = Vec::new();
    let n0 = analysis.computation_graph.entries.len();
    let mut fuel: u64 = match (n0 as u64).checked_mul(64) {
        Some(f) => {
            if f <= u64::MAX - 64 {
                f + 64
            } else {
                u64::MAX
            }
        },
        None => u64::MAX,
    };

    proof {
        crate::maps::lemma_id_map_finite(analysis.computation_graph.deep_view());
        assert(stack@.len() == ghost_order.len());
        assert(ghost_order.len() == m0.dom().len());
        assert(m0.dom().len() == n0);
        assert(fuel >= n0 as u64);
    }
    while stack.len() > 0
        invariant
            analysis.computation_graph.wf(),
            props.wf(),
            release.wf(),
            release.as_map() == relmap0,
            relmap0 == old(release).as_map(),
            !has_cycle(m0),
            m0 == old(analysis).computation_graph.as_map(),
            analysis.privacy_definition == old(analysis).privacy_definition,
            all_primitive(m0) ==> analysis.computation_graph == old(analysis).computation_graph,
            release == old(release),
            (old(analysis).computation_graph.deep_view().len() == 0 && old(
                release,
            ).deep_view().len() == 0) ==> stack@.len() == 0,
            (covered_by_release(m0, relmap0) || mech_graph) ==> {
                &&& analysis.computation_graph == old(analysis).computation_graph
                &&& forall|p: int| 0 <= p < stack@.len() ==> m0.dom().contains(
                    #[trigger] stack@[p],
                )
                &&& fuel >= stack@.len()
            },
            mech_graph == mechanisms_over_public(
                m0,
                relmap0,
                old(analysis).privacy_definition,
            ),
            forall|id: u32| analysis.computation_graph.as_map().dom().contains(id) ==> id
                <= maximum_id,
            forall|id: u32| #[trigger] props.as_map().dom().contains(id)
                ==> analysis.computation_graph.as_map().dom().contains(id) || seeddom.contains(id)
                || public_ids(relmap0).contains(id),
            forall|id: u32| seeddom.contains(id) ==> #[trigger] props.as_map().dom().contains(id),
            public_properties_inferred(relmap0, props.as_map()),
            seed_ordered ==> props_bounds_ordered(props.as_map()),
            !dynamic ==> forall|id: u32|
                analysis.computation_graph.as_map().dom().contains(id) ==> stack@.contains(id)
                    || #[trigger] settled(
                    analysis.computation_graph.as_map(),
                    relmap0,
                    props.as_map().dom(),
                    id,
                ),
        decreases fuel,
    {
        let node_id = stack[stack.len() - 1];
        if fuel == 0 {
            proof {
                if covered_by_release(m0, relmap0) || mech_graph {
                    // in the forced-success classes each step pops one
                    // node, so the fuel cannot run dry before the stack
                    assert(fuel >= stack@.len());
                    assert(false);
                }
            }
            return Err(Error::new(ErrorKind::ExpansionLoop(node_id)));
        }
        fuel = fuel - 1;

        // a node with a public release draws its properties from the
        // inference pre-pass; it is never expanded or propagated
        let is_public_release = match release.get(node_id) {
            Some(rn) => rn.public,
            None => false,
        };
        if is_public_release {
            let ghost old_stack = stack@;
            proof {
                assert(old_stack.last() == node_id);
                assert(public_ids(relmap0).contains(node_id));
            }
            stack.pop();
            proof {
                lemma_stack_pop_settled(
                    old_stack,
                    stack@,
                    analysis.computation_graph.as_map(),
                    relmap0,
                    props.as_map().dom(),
                    node_id,
                );
                if !dynamic {
                    let mv = analysis.computation_graph.as_map();
                    let pd = props.as_map().dom();
                    assert forall|id: u32| mv.dom().contains(id) implies stack@.contains(id)
                        || #[trigger] settled(mv, relmap0, pd, id) by {
                        if id == node_id {
                            assert(pd.contains(id));
                        } else {
                            if old_stack.contains(id) {
                                assert(stack@.contains(id));
                            }
                        }
                    }
                }
            }
        } else {
            proof {
                if covered_by_release(m0, relmap0) {
                    // the node is in the graph, so it carries a public
                    // release, and the public branch would have been taken
                    assert(stack@.last() == node_id);
                    assert(m0.dom().contains(node_id));
                    assert(public_ids(relmap0).contains(node_id));
                    assert(false);
                }
                if mech_graph {
                    // the node is an unreleased mechanism of the class
                    assert(stack@.last() == node_id);
                    assert(m0.dom().contains(node_id));
                    assert(!public_ids(relmap0).contains(node_id));
                }
            }
            let component = match analysis.computation_graph.get(node_id) {
                Some(c) => c.clone(),
                None => {
                    proof {
                        if mech_graph {
                            assert(analysis.computation_graph.as_map() == m0);
                            assert(false);
                        }
                    }
                    if dynamic {
                        stack.pop();
                        warnings.push(Error::new(ErrorKind::MissingNode(node_id)));
                        continue ;
                    }
                    return Err(Error::new(ErrorKind::MissingNode(node_id)));
                },
            };
            let ghost cv = component.deep_view();
            proof {
                assert(cv == analysis.computation_graph.as_map()[node_id]);
            }
            let node_props = match gather_node_properties(&component, &props) {
                Ok(ps) => ps,
                Err(e) => {
                    proof {
                        if mech_graph {
                            // every argument of a class mechanism is
                            // publicly released, so the pre-pass holds it
                            assert(analysis.computation_graph.as_map() == m0);
                            assert(cv == m0[node_id]);
                            let j = choose|j: int|
                                0 <= j < cv.arguments.len() && !props.as_map().dom().contains(
                                    (#[trigger] cv.arguments[j]).1,
                                );
                            assert(public_ids(relmap0).contains(cv.arguments[j].1));
                            assert(false);
                        }
                    }
                    if dynamic {
                        stack.pop();
                        warnings.push(e.at_node(node_id));
                        continue ;
                    }
                    return Err(e.at_node(node_id));
                },
            };
            let expansion = match crate::components::expand_component_node(
                &component,
                &analysis.privacy_definition,
                &node_props,
                node_id,
                maximum_id,
            ) {
                Ok(x) => x,
                Err(e) => {
                    proof {
                        if mech_graph {
                            // a mechanism is primitive, and primitive
                            // components never fail to expand
                            assert(analysis.computation_graph.as_map() == m0);
                            assert(cv == m0[node_id]);
                            assert(cv.variant.is_primitive());
                            assert(false);
                        }
                    }
                    if dynamic {
                        stack.pop();
                        warnings.push(e.at_node(node_id));
                        continue ;
                    }
                    return Err(e.at_node(node_id));
                },
            };
            if expansion.computation_graph.len() > 0 {
                // splice the replacement nodes into the graph; this
                // component set produces no properties, releases or
                // warnings of its own at expansion time, so there is
                // nothing further to merge
                let ghost max0 = maximum_id;
                let ghost old_m = analysis.computation_graph.as_map();
                let ghost stack_before = stack@;
                let ghost propsdom = props.as_map().dom();
                proof {
                    assert(stack@.contains(node_id)) by {
                        assert(stack@.last() == node_id);
                    }
                }
                proof {
                    // a mutating expansion comes from a composite node,
                    // so the graph cannot have been all-primitive, nor a
                    // bank of mechanisms over public data
                    if all_primitive(m0) {
                        assert(analysis.computation_graph.as_map() == m0);
                        assert(m0[node_id].variant.is_primitive());
                        assert(false);
                    }
                    if mech_graph {
                        assert(analysis.computation_graph.as_map() == m0);
                        assert(cv == m0[node_id]);
                        assert(cv.variant.is_primitive());
                        assert(false);
                    }
                }
                let eg = expansion.computation_graph;
                let ghost egdv = eg.deep_view();
                let mut ei: usize = 0;
                while ei < eg.entries.len()
                    invariant
                        !all_primitive(m0),
                        eg.wf(),
                        analysis.computation_graph.wf(),
                        analysis.privacy_definition == old(analysis).privacy_definition,
                        egdv == eg.deep_view(),
                        eg.entries@.len() == egdv.len(),
                        ei <= egdv.len(),
                        forall|id: u32| analysis.computation_graph.as_map().dom().contains(id)
                            ==> id <= maximum_id,
                        maximum_id >= max0,
                        forall|id: u32|
                            #[trigger] analysis.computation_graph.as_map().dom().contains(id)
                                <==> (old_m.dom().contains(id) || exists|j: int|
                                0 <= j < ei && (#[trigger] egdv[j]).0 == id),
                        forall|id: u32|
                            old_m.dom().contains(id) && (forall|j: int|
                                0 <= j < ei ==> (#[trigger] egdv[j]).0 != id)
                                ==> analysis.computation_graph.as_map()[id] == old_m[id],
                    decreases egdv.len() - ei,
                {
                    proof {
                        assert(egdv[ei as int] == eg.entries@[ei as int].deep_view());
                    }
                    let id = eg.entries[ei].0;
                    let comp = eg.entries[ei].1.clone();
                    analysis.computation_graph.insert(id, comp);
                    if id > maximum_id {
                        maximum_id = id;
                    }
                    proof {
                        assert forall|x: u32|
                            #[trigger] analysis.computation_graph.as_map().dom().contains(x)
                                <==> (old_m.dom().contains(x) || exists|j: int|
                                0 <= j < ei + 1 && (#[trigger] egdv[j]).0 == x) by {
                            if analysis.computation_graph.as_map().dom().contains(x) && x != id {
                            }
                            if x == id {
                                assert(egdv[ei as int].0 == x);
                            }
                        }
                    }
                    ei = ei + 1;
                }
                // queue the fresh nodes, to be visited before this one
                let mut trav = expansion.traversal;
                let ghost trav0 = trav@;
                while trav.len() > 0
                    invariant
                        forall|id: u32| stack_before.contains(id) ==> stack@.contains(id),
                        stack@.contains(node_id),
                        forall|id: u32| trav0.contains(id) ==> trav@.contains(id)
                            || stack@.contains(id),
                    decreases trav@.len(),
                {
                    let ghost tbefore = trav@;
                    let ghost sbefore = stack@;
                    match trav.pop() {
                        Some(t) => {
                            stack.push(t);
                            proof {
                                assert forall|id: u32| sbefore.contains(id) implies stack@.contains(
                                    id,
                                ) by {
                                    let p = choose|p: int|
                                        0 <= p < sbefore.len() && sbefore[p] == id;
                                    assert(stack@[p] == id);
                                }
                                assert forall|id: u32| trav0.contains(id) implies trav@.contains(
                                    id,
                                ) || stack@.contains(id) by {
                                    if tbefore.contains(id) {
                                        let p = choose|p: int|
                                            0 <= p < tbefore.len() && tbefore[p] == id;
                                        if p < tbefore.len() - 1 {
                                            assert(trav@[p] == id);
                                        } else {
                                            assert(stack@.last() == id);
                                        }
                                    }
                                }
                            }
                        },
                        None => {},
                    }
                }
                proof {
                    // the spliced nodes are exactly this node, which is
                    // still on the stack, and possibly one fresh node,
                    // which the traversal queued
                    let mv = analysis.computation_graph.as_map();
                    if !dynamic {
                    assert forall|id: u32| mv.dom().contains(id) implies stack@.contains(id)
                        || #[trigger] settled(mv, relmap0, props.as_map().dom(), id) by {
                        if old_m.dom().contains(id) && (forall|j: int|
                            0 <= j < egdv.len() ==> (#[trigger] egdv[j]).0 != id) {
                            if !dynamic {
                                if stack_before.contains(id) {
                                    assert(stack@.contains(id));
                                } else {
                                    assert(settled(old_m, relmap0, propsdom, id));
                                    assert(mv[id] == old_m[id]);
                                }
                            }
                        } else {
                            let j = choose|j: int|
                                0 <= j < egdv.len() && (#[trigger] egdv[j]).0 == id;
                            match cv.variant {
                                VariantV::DpMean { implementation, privacy_usage } => {
                                    assert(egdv
                                        == crate::components::dp_mean::dp_mean_expansion_graph(
                                        crate::maps::str_lookup(cv.arguments, "data"@)->0,
                                        privacy_usage,
                                        component.submission,
                                        node_id,
                                        max0,
                                    ));
                                    assert(id == node_id || id == (max0 + 1) as u32);
                                    if id == (max0 + 1) as u32 {
                                        assert(trav0.contains(id)) by {
                                            assert(trav0[0] == (max0 + 1) as u32);
                                        }
                                    }
                                },
                                VariantV::DpMedian { .. } => {
                                    assert(egdv.len() == 1 && egdv[0].0 == node_id);
                                    assert(id == node_id);
                                },
                                VariantV::DpQuantile { alpha, interpolation, privacy_usage, mechanism } => {
                                    assert(egdv
                                        == crate::components::dp_quantile::dp_quantile_expansion_graph(
                                        crate::maps::str_lookup(cv.arguments, "data"@)->0,
                                        alpha,
                                        interpolation,
                                        privacy_usage,
                                        component.omit,
                                        component.submission,
                                        node_id,
                                        max0,
                                    ));
                                    assert(id == node_id || id == (max0 + 1) as u32);
                                    if id == (max0 + 1) as u32 {
                                        assert(trav0.contains(id)) by {
                                            assert(trav0[0] == (max0 + 1) as u32);
                                        }
                                    }
                                },
                                _ => {
                                    assert(egdv.len() == 0);
                                    assert(false);
                                },
                            }
                            assert(stack@.contains(id));
                        }
                    }
                    }
                    assert forall|id: u32| #[trigger] props.as_map().dom().contains(
                        id,
                    ) implies mv.dom().contains(id) || seeddom.contains(id) || public_ids(
                        relmap0,
                    ).contains(id) by {
                        if old_m.dom().contains(id) {
                        }
                    }
                }
            } else {
                let public_args = gather_public_arguments(&component, release);
                match crate::components::propagate_property(
                    &component,
                    &analysis.privacy_definition,
                    &public_args,
                    &node_props,
                    node_id,
                ) {
                    Ok(w) => {
                        let ghost pd0 = props.as_map().dom();
                        let ghost pm_before = props.as_map();
                        proof {
                            assert(!public_ids(relmap0).contains(node_id));
                        }
                        let crate::Warnable(p, mut ws) = w;
                        props.insert(node_id, p);
                        proof {
                            lemma_public_properties_preserved(
                                relmap0,
                                pm_before,
                                node_id,
                                p.deep_view(),
                            );
                            if seed_ordered {
                                // the inserted property either carries the
                                // data's bounds through unchanged or is not
                                // an array property at all
                                let dummy = crate::base::ArrayValueV::Int(Seq::empty());
                                if cv.variant is Mean || cv.variant is Quantile
                                    || cv.variant is LaplaceMechanism || cv.variant is Impute {
                                    let d = crate::components::impute::data_array(
                                        node_props.deep_view(),
                                    )->0;
                                    lemma_data_array_from_map(cv.arguments, pm_before);
                                    let aid = choose|aid: u32|
                                        #[trigger] pm_before.dom().contains(aid) && pm_before[aid]
                                            == crate::props::ValuePropertiesV::Array(d);
                                    assert(d.bounds_ordered());
                                    crate::components::lemma_propagation_preserves_bound_order(
                                        d,
                                        crate::base::DataType::Float,
                                        d.num_records,
                                        node_id,
                                        dummy,
                                    );
                                    crate::components::lemma_propagation_preserves_bound_order(
                                        d,
                                        d.data_type,
                                        d.num_records,
                                        node_id,
                                        dummy,
                                    );
                                }
                                lemma_props_ordered_preserved(pm_before, node_id, p.deep_view());
                            }
                        }
                        while ws.len() > 0
                            decreases ws@.len(),
                        {
                            match ws.pop() {
                                Some(x) => {
                                    warnings.push(x);
                                },
                                None => {},
                            }
                        }
                        let ghost old_stack = stack@;
                        proof {
                            assert(old_stack.last() == node_id);
                        }
                        stack.pop();
                        proof {
                            lemma_stack_pop_settled(
                                old_stack,
                                stack@,
                                analysis.computation_graph.as_map(),
                                relmap0,
                                props.as_map().dom(),
                                node_id,
                            );
                            assert(cv.variant.is_primitive());
                            if !dynamic {
                                let mv = analysis.computation_graph.as_map();
                                let pd = props.as_map().dom();
                                assert forall|id: u32| mv.dom().contains(id) implies stack@.contains(
                                    id,
                                ) || #[trigger] settled(mv, relmap0, pd, id) by {
                                    if id == node_id {
                                        assert(pd.contains(id));
                                        assert(mv[id].variant.is_primitive());
                                    } else {
                                        if old_stack.contains(id) {
                                            assert(stack@.contains(id));
                                        } else {
                                            assert(settled(mv, relmap0, pd0, id));
                                            assert(pd.contains(id));
                                        }
                                    }
                                }
                            }
                        }
                    },
                    Err(e) => {
                        proof {
                            if mech_graph {
                                // the mechanism's preconditions all hold:
                                // its data argument resolves to the array
                                // properties inferred from a public release
                                assert(analysis.computation_graph.as_map() == m0);
                                assert(cv == m0[node_id]);
                                lemma_mechanism_propagates(
                                    m0,
                                    relmap0,
                                    old(analysis).privacy_definition,
                                    props.as_map(),
                                    node_id,
                                );
                                assert(node_props.deep_view() == argument_properties(
                                    cv.arguments,
                                    props.as_map(),
                                ));
                                assert(false);
                            }
                        }
                        if dynamic {
                            stack.pop();
                            warnings.push(e.at_node(node_id));
                            continue ;
                        }
                        return Err(e.at_node(node_id));
                    },
                }
            }
        }
    }
    Ok((props, warnings))
}

/// After the top of the stack is popped, every node that relied on the
/// stack for its pending status either is the popped node, now
/// settled, or still sits in the remaining stack.
proof fn lemma_stack_pop_settled(
    old_stack: Seq<u32>,
    new_stack: Seq<u32>,
    m: Map<u32, ComponentV>,
    rel: Map<u32, ReleaseNodeV>,
    props_dom: Set<u32>,
    popped: u32,
)
    requires
        old_stack.len() > 0,
        new_stack == old_stack.drop_last(),
        old_stack.last() == popped,
    ensures
        forall|id: u32| old_stack.contains(id) && id != popped ==> new_stack.contains(id),
{
    assert forall|id: u32| old_stack.contains(id) && id != popped implies new_stack.contains(
        id,
    ) by {
        let p = choose|p: int| 0 <= p < old_stack.len() && old_stack[p] == id;
        assert(new_stack[p] == id);
    }
}

} // verus!
