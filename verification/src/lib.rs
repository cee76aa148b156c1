//! Static validator and graph expander for a differentially private
//! analysis language.
//!
//! An analysis is a directed acyclic computation graph whose nodes are
//! components (`Mean`, `Impute`, `Partition`, `LaplaceMechanism`, and
//! composite operators such as `DpMean` or `DpMedian`).  The library
//! checks that the graph is acyclic, expands composite components into
//! subgraphs of primitive ones, propagates static value properties
//! (shape, bounds, nullity, record counts, categories, group
//! membership) along topological order, sums the privacy usage of the
//! mechanisms in the graph, and renders a JSON report of the releases.
//!
//! Real-valued quantities (privacy parameters, bounds, data) are held
//! in fixed point: an `i64` counts billionths, so `1_000_000_000`
//! stands for one.

pub mod base;
pub mod component;
pub mod components;
pub mod errors;
pub mod json;
pub mod maps;
pub mod privacy;
pub mod utilities;
pub mod props;

use vstd::prelude::*;
use crate::base::{Accuracies, PrivacyUsage, PrivacyUsages, Value};
use crate::component::{
    Analysis, Component, ComponentExpansion, GraphProperties, Release, ReleaseNode,
    RequestExpandComponent, Variant,
};
use crate::errors::{Error, ErrorKind};
use crate::maps::{id_map_of, IdMap};
use crate::privacy::{graph_del, graph_eps, graph_valid, within_budget};
use crate::props::ValueProperties;
use crate::utilities::{
    all_primitive, covered_by_release, has_cycle, mechanisms_over_public, propagate_properties,
    public_ids,
};

verus! {

/// A value together with the non-fatal warnings that were raised while
/// producing it.
pub struct Warnable<T>(pub T, pub Vec<crate::errors::Error>);

impl<T> Warnable<T> {
    /// Wraps a value with no warnings.
    pub fn new(value: T) -> (r: Self)
        ensures
            r.0 == value,
            r.1@.len() == 0,
    {
        Warnable(value, Vec::new())
    }
}


/// Validates an analysis: checks that the graph is a directed acyclic
/// graph, expands every composite component, and checks that every
/// component\'s static preconditions hold.  Fails with `CycleDetected`
/// exactly when the graph has a cycle.
pub fn validate_analysis(analysis: Analysis, release: Release) -> (r: Result<(), Error>)
    requires
        analysis.computation_graph.wf(),
        release.wf(),
    ensures
        has_cycle(analysis.computation_graph.as_map()) ==> r is Err
            && r->Err_0.kind is CycleDetected,
        r is Ok ==> !has_cycle(analysis.computation_graph.as_map()),
        (analysis.computation_graph.deep_view().len() == 0 && release.deep_view().len() == 0)
            ==> r is Ok,
        covered_by_release(analysis.computation_graph.as_map(), release.as_map()) ==> r is Ok,
        mechanisms_over_public(
            analysis.computation_graph.as_map(),
            release.as_map(),
            analysis.privacy_definition,
        ) ==> r is Ok,
{
    let mut analysis = analysis;
    let mut release = release;
    match propagate_properties(&mut analysis, &mut release, None, false) {
        Ok(_) => Ok(()),
        Err(e) => Err(e),
    }
}

/// Computes the overall privacy usage of an analysis: the sum of the
/// usages of every mechanism node after expansion, where a usage
/// recorded in the release takes precedence over the declared maximum.
/// The total is then held against the privacy definition\'s budget, if
/// one is given: exceeding it is an error under a strict budget and a
/// warning otherwise.  On a graph of primitive components the result
/// is exactly the sum over the submitted graph.
pub fn compute_privacy_usage(analysis: Analysis, release: Release) -> (r: Result<
    PrivacyUsage,
    Error,
>)
    requires
        analysis.computation_graph.wf(),
        release.wf(),
    ensures
        has_cycle(analysis.computation_graph.as_map()) ==> r is Err
            && r->Err_0.kind is CycleDetected,
        ({
            &&& analysis.computation_graph.deep_view().len() == 0
            &&& release.deep_view().len() == 0
            &&& analysis.privacy_definition is Some
            &&& within_budget(analysis.privacy_definition->0, 0, 0)
        }) ==> (r is Ok && r->Ok_0.distance == Some(
            crate::base::DistanceApproximate { epsilon: 0i64, delta: 0i64 },
        )),
        ({
            &&& (covered_by_release(analysis.computation_graph.as_map(), release.as_map())
                || mechanisms_over_public(
                analysis.computation_graph.as_map(),
                release.as_map(),
                analysis.privacy_definition,
            ))
            &&& analysis.privacy_definition is Some
            &&& graph_valid(analysis.computation_graph.deep_view(), id_map_of(release.deep_view()))
            &&& graph_eps(analysis.computation_graph.deep_view(), id_map_of(release.deep_view()))
                <= i64::MAX
            &&& graph_del(analysis.computation_graph.deep_view(), id_map_of(release.deep_view()))
                <= i64::MAX
            &&& within_budget(
                analysis.privacy_definition->0,
                graph_eps(analysis.computation_graph.deep_view(), id_map_of(release.deep_view())),
                graph_del(analysis.computation_graph.deep_view(), id_map_of(release.deep_view())),
            )
        }) ==> r is Ok,
        match r {
            Ok(u) => {
                &&& !has_cycle(analysis.computation_graph.as_map())
                &&& analysis.privacy_definition is Some
                &&& (all_primitive(analysis.computation_graph.as_map()) || covered_by_release(
                    analysis.computation_graph.as_map(),
                    release.as_map(),
                ) || mechanisms_over_public(
                    analysis.computation_graph.as_map(),
                    release.as_map(),
                    analysis.privacy_definition,
                )) ==> {
                    &&& graph_valid(
                        analysis.computation_graph.deep_view(),
                        id_map_of(release.deep_view()),
                    )
                    &&& 0 <= graph_eps(
                        analysis.computation_graph.deep_view(),
                        id_map_of(release.deep_view()),
                    ) <= i64::MAX
                    &&& 0 <= graph_del(
                        analysis.computation_graph.deep_view(),
                        id_map_of(release.deep_view()),
                    ) <= i64::MAX
                    &&& u.distance == Some(
                        crate::base::DistanceApproximate {
                            epsilon: graph_eps(
                                analysis.computation_graph.deep_view(),
                                id_map_of(release.deep_view()),
                            ) as i64,
                            delta: graph_del(
                                analysis.computation_graph.deep_view(),
                                id_map_of(release.deep_view()),
                            ) as i64,
                        },
                    )
                    &&& (match analysis.privacy_definition->0.budget {
                        Some(b) => analysis.privacy_definition->0.strict_budget ==> (b.defined()
                            && u.eps() <= b.eps() && u.del() <= b.del()),
                        None => true,
                    })
                }
            },
            Err(e) => ((all_primitive(analysis.computation_graph.as_map()) || covered_by_release(
                analysis.computation_graph.as_map(),
                release.as_map(),
            ) || mechanisms_over_public(
                analysis.computation_graph.as_map(),
                release.as_map(),
                analysis.privacy_definition,
            )) && e.kind is BudgetExceeded) ==> {
                &&& analysis.privacy_definition is Some
                &&& analysis.privacy_definition->0.strict_budget
                &&& analysis.privacy_definition->0.budget is Some
                &&& (graph_eps(
                    analysis.computation_graph.deep_view(),
                    id_map_of(release.deep_view()),
                ) > analysis.privacy_definition->0.budget->0.eps() || graph_del(
                    analysis.computation_graph.deep_view(),
                    id_map_of(release.deep_view()),
                ) > analysis.privacy_definition->0.budget->0.del())
            },
        },
{
    let ghost g0 = analysis.computation_graph;
    let ghost rel0 = release;
    let ghost pd0 = analysis.privacy_definition;
    let mut analysis = analysis;
    let mut release = release;
    let properties = match propagate_properties(&mut analysis, &mut release, None, false) {
        Ok(out) => out.0,
        Err(e) => {
            return Err(e);
        },
    };
    let privacy_definition = match &analysis.privacy_definition {
        Some(pd) => *pd,
        None => {
            return Err(
                Error::new(ErrorKind::Missing(String::from_str("privacy_definition"))),
            );
        },
    };
    let usage = match crate::privacy::compute_graph_privacy_usage(
        &analysis.computation_graph,
        &privacy_definition,
        &properties,
        &release,
    ) {
        Ok(u) => u,
        Err(e) => {
            proof {
                if g0.deep_view().len() == 0 {
                    reveal_with_fuel(crate::maps::id_map_of, 1);
                    assert(g0.as_map().dom() =~= Set::<u32>::empty());
                    assert(all_primitive(g0.as_map()));
                }
                if all_primitive(g0.as_map()) || covered_by_release(g0.as_map(), rel0.as_map())
                    || mechanisms_over_public(g0.as_map(), rel0.as_map(), pd0) {
                    assert(analysis.computation_graph == g0);
                    assert(id_map_of(release.deep_view()) == id_map_of(rel0.deep_view()));
                }
                if g0.deep_view().len() == 0 && rel0.deep_view().len() == 0 {
                    reveal_with_fuel(crate::privacy::graph_eps, 1);
                    reveal_with_fuel(crate::privacy::graph_del, 1);
                    assert(graph_valid(g0.deep_view(), id_map_of(rel0.deep_view())));
                    assert(false);
                }
            }
            return Err(e);
        },
    };
    proof {
        assert(analysis.privacy_definition == pd0);
        if g0.deep_view().len() == 0 {
            reveal_with_fuel(crate::maps::id_map_of, 1);
            assert(g0.as_map().dom() =~= Set::<u32>::empty());
            assert(all_primitive(g0.as_map()));
            reveal_with_fuel(crate::privacy::graph_eps, 1);
            reveal_with_fuel(crate::privacy::graph_del, 1);
        }
        if all_primitive(g0.as_map()) || covered_by_release(g0.as_map(), rel0.as_map())
            || mechanisms_over_public(g0.as_map(), rel0.as_map(), pd0) {
            assert(analysis.computation_graph == g0);
            assert(analysis.computation_graph.deep_view() == g0.deep_view());
            assert(id_map_of(release.deep_view()) == id_map_of(rel0.deep_view()));
            crate::privacy::lemma_graph_prefix_le(
                g0.deep_view(),
                id_map_of(rel0.deep_view()),
                0,
            );
            assert(g0.deep_view().take(0) =~= Seq::<
                (u32, crate::component::ComponentV),
            >::empty());
            assert(usage.eps() == graph_eps(g0.deep_view(), id_map_of(rel0.deep_view())));
            assert(usage.del() == graph_del(g0.deep_view(), id_map_of(rel0.deep_view())));
        }
    }
    match crate::privacy::privacy_usage_check(
        &usage,
        match &privacy_definition.budget {
            Some(b) => Some(b),
            None => None,
        },
        privacy_definition.strict_budget,
    ) {
        Ok(_) => Ok(usage),
        Err(e) => Err(e),
    }
}


/// Builds a one-node analysis around a component, seeds its arguments\'
/// properties, and runs a static propagation pass over it, as the
/// conversion endpoints require.
fn seed_and_propagate(
    component: &Component,
    privacy_definition: &crate::base::PrivacyDefinition,
    properties: &Vec<(String, ValueProperties)>,
) -> (r: Result<(), Error>)
{
    let mut max_arg: u32 = 0;
    let mut i: usize = 0;
    while i < component.arguments.len()
        decreases component.arguments@.len() - i,
    {
        if component.arguments[i].1 > max_arg {
            max_arg = component.arguments[i].1;
        }
        i = i + 1;
    }
    if max_arg == u32::MAX {
        return Err(
            Error::new(ErrorKind::InvariantViolation(String::from_str("node ids exhausted"))),
        );
    }
    let node_id = max_arg + 1;
    let mut graph: IdMap<Component> = IdMap::new();
    graph.insert(node_id, component.clone());

    let mut seed: IdMap<ValueProperties> = IdMap::new();
    let mut i: usize = 0;
    while i < component.arguments.len()
        invariant
            seed.wf(),
        decreases component.arguments@.len() - i,
    {
        let (name, aid) = &component.arguments[i];
        match crate::maps::str_get(properties, name) {
            Some(p) => {
                seed.insert(*aid, p.clone());
            },
            None => {},
        }
        i = i + 1;
    }

    let mut analysis = Analysis {
        computation_graph: graph,
        privacy_definition: Some(*privacy_definition),
    };
    let mut release: Release = IdMap::new();
    proof {
        assert(release.deep_view() =~= Seq::<
            (u32, crate::component::ReleaseNodeV),
        >::empty());
    }
    match propagate_properties(&mut analysis, &mut release, Some(seed), false) {
        Ok(_) => Ok(()),
        Err(e) => Err(e),
    }
}

/// Estimates the privacy usage necessary to bound accuracy to a given
/// value.  No component of this set supports an analytic conversion,
/// so after the argument properties are seeded and propagated the
/// request always reports that the usage is not defined.
pub fn accuracy_to_privacy_usage(
    component: Component,
    privacy_definition: crate::base::PrivacyDefinition,
    properties: Vec<(String, ValueProperties)>,
    accuracies: Accuracies,
) -> (r: Result<PrivacyUsages, Error>)
    ensures
        r is Err,
{
    if let Err(e) = seed_and_propagate(&component, &privacy_definition, &properties) {
        return Err(e);
    }
    let conversion = crate::components::component_accuracy_to_privacy_usage(&component);
    match conversion {
        Some(values) => Ok(PrivacyUsages { values }),
        None => Err(
            Error::new(ErrorKind::Missing(String::from_str("privacy usage is not defined"))),
        ),
    }
}

/// Estimates the accuracy of a component\'s release from a privacy
/// usage, at significance level `alpha` (fixed point).  No component
/// of this set supports an analytic conversion, so the request always
/// reports that the accuracy is not defined.
pub fn privacy_usage_to_accuracy(
    component: Component,
    privacy_definition: crate::base::PrivacyDefinition,
    properties: Vec<(String, ValueProperties)>,
    alpha: i64,
) -> (r: Result<Accuracies, Error>)
    ensures
        r is Err,
{
    if let Err(e) = seed_and_propagate(&component, &privacy_definition, &properties) {
        return Err(e);
    }
    let conversion = crate::components::component_privacy_usage_to_accuracy(&component);
    match conversion {
        Some(values) => {
            let mut out: Vec<crate::base::Accuracy> = Vec::new();
            let mut i: usize = 0;
            while i < values.len()
                decreases values@.len() - i,
            {
                out.push(crate::base::Accuracy { value: values[i], alpha });
                i = i + 1;
            }
            Ok(Accuracies { values: out })
        },
        None => Err(Error::new(ErrorKind::Missing(String::from_str("accuracy is not defined")))),
    }
}

/// Retrieves the static properties of every node reachable from the
/// requested ids, or of the whole graph when no ids are given.  Runs
/// in dynamic mode: nodes whose inputs are not ready are skipped and
/// reported as warnings rather than aborting the traversal.
pub fn get_properties(analysis: Analysis, release: Release, node_ids: Vec<u32>) -> (r: Result<
    GraphProperties,
    Error,
>)
    requires
        analysis.computation_graph.wf(),
        release.wf(),
    ensures
        (node_ids@.len() == 0 && analysis.computation_graph.deep_view().len() == 0
            && release.deep_view().len() == 0) ==> r is Ok,
        (node_ids@.len() == 0 && mechanisms_over_public(
            analysis.computation_graph.as_map(),
            release.as_map(),
            analysis.privacy_definition,
        )) ==> r is Ok,
        (node_ids@.len() > 0 && covered_by_release(
            analysis.computation_graph.as_map(),
            release.as_map(),
        )) ==> {
            &&& r is Ok
            &&& forall|id: u32| #[trigger] r->Ok_0.properties.as_map().dom().contains(id)
                ==> crate::utilities::is_ancestor(
                analysis.computation_graph.as_map(),
                node_ids@,
                id,
            )
        },
        r is Err ==> (r->Err_0.kind is CycleDetected || r->Err_0.kind is ExpansionLoop
            || !crate::utilities::releases_inferable(release.as_map())),
        (node_ids@.len() == 0 && covered_by_release(
            analysis.computation_graph.as_map(),
            release.as_map(),
        )) ==> {
            &&& r is Ok
            &&& forall|id: u32| #[trigger] r->Ok_0.properties.as_map().dom().contains(id)
                ==> analysis.computation_graph.as_map().dom().contains(id) || public_ids(
                release.as_map(),
            ).contains(id)
            &&& forall|id: u32| analysis.computation_graph.as_map().dom().contains(id)
                ==> #[trigger] r->Ok_0.properties.as_map().dom().contains(id)
        },
        match r {
            Ok(gp) => gp.properties.wf() && crate::utilities::props_bounds_ordered(
                gp.properties.as_map(),
            ),
            Err(e) => true,
        },
{
    let ghost g0 = analysis.computation_graph.as_map();
    let ghost rel0 = release.as_map();
    let ghost roots = node_ids@;
    let mut analysis = analysis;
    let mut release = release;
    let ghost mut pruned_graph_map = g0;
    let ghost mut pruned_rel_map = rel0;
    if node_ids.len() > 0 {
        let pruned = crate::utilities::prune_to_ancestors(analysis, release, &node_ids);
        proof {
            pruned_graph_map = pruned.0.computation_graph.as_map();
            pruned_rel_map = pruned.1.as_map();
            if covered_by_release(g0, rel0) {
                crate::utilities::lemma_covered_restricts(
                    g0,
                    rel0,
                    pruned_graph_map,
                    pruned_rel_map,
                );
            }
            if crate::utilities::releases_inferable(rel0) {
                assert forall|id: u32|
                    pruned_rel_map.dom().contains(id) && (#[trigger] pruned_rel_map[id]).public
                        implies crate::utilities::infer_ok(pruned_rel_map[id].value) by {
                    assert(rel0[id].public);
                }
            }
        }
        analysis = pruned.0;
        release = pruned.1;
    }
    match propagate_properties(&mut analysis, &mut release, None, true) {
        Ok(out) => {
            proof {
                if node_ids@.len() > 0 && covered_by_release(g0, rel0) {
                    assert(covered_by_release(pruned_graph_map, pruned_rel_map));
                    assert forall|id: u32| #[trigger] out.0.as_map().dom().contains(id) implies
                        crate::utilities::is_ancestor(g0, roots, id) by {
                        if pruned_graph_map.dom().contains(id) {
                        } else {
                            assert(public_ids(pruned_rel_map).contains(id));
                            assert(pruned_rel_map.dom().contains(id));
                        }
                    }
                }
            }
            Ok(GraphProperties { properties: out.0, warnings: out.1 })
        },
        Err(e) => {
            proof {
                if crate::utilities::releases_inferable(rel0) {
                    assert(crate::utilities::releases_inferable(pruned_rel_map));
                }
            }
            Err(e)
        },
    }
}


/// Whether every public argument value of a request can have its
/// properties inferred.
pub open spec fn arguments_inferable(
    args: Seq<(Seq<char>, crate::component::ReleaseNodeV)>,
) -> bool {
    forall|i: int| 0 <= i < args.len() && (#[trigger] args[i]).1.public
        ==> crate::utilities::infer_ok(args[i].1.value)
}

/// The inferred properties of a request\'s public arguments, in order.
pub open spec fn inferred_public_properties(
    args: Seq<(Seq<char>, crate::component::ReleaseNodeV)>,
) -> Seq<(Seq<char>, crate::props::ValuePropertiesV)>
    decreases args.len(),
{
    if args.len() == 0 {
        Seq::empty()
    } else {
        let rest = inferred_public_properties(args.drop_last());
        if args.last().1.public {
            rest.push((args.last().0, crate::utilities::infer_props(args.last().1.value)))
        } else {
            rest
        }
    }
}

/// The released values of a request\'s public arguments, in order.
pub open spec fn public_argument_values(
    args: Seq<(Seq<char>, crate::component::ReleaseNodeV)>,
) -> Seq<(Seq<char>, crate::base::ValueV)>
    decreases args.len(),
{
    if args.len() == 0 {
        Seq::empty()
    } else {
        let rest = public_argument_values(args.drop_last());
        if args.last().1.public {
            rest.push((args.last().0, args.last().1.value))
        } else {
            rest
        }
    }
}

/// The argument properties a request is expanded and propagated under:
/// the inferred properties of the public values come first, so that
/// inference overrides any declared properties of the same name.
pub open spec fn merged_request_properties(
    args: Seq<(Seq<char>, crate::component::ReleaseNodeV)>,
    props: Seq<(Seq<char>, crate::props::ValuePropertiesV)>,
) -> Seq<(Seq<char>, crate::props::ValuePropertiesV)> {
    inferred_public_properties(args) + props
}


/// Infers the properties of the public arguments and appends the
/// declared properties behind them, so inference overrides.
fn merge_arguments(
    arguments: &Vec<(String, ReleaseNode)>,
    properties: &Vec<(String, ValueProperties)>,
) -> (r: Result<Vec<(String, ValueProperties)>, Error>)
    ensures
        match r {
            Ok(v) => arguments_inferable(arguments.deep_view()) && v.deep_view()
                == merged_request_properties(arguments.deep_view(), properties.deep_view()),
            Err(e) => !arguments_inferable(arguments.deep_view()),
        },
{
    let ghost argsv = arguments.deep_view();
    let ghost propsv = properties.deep_view();
    let mut merged: Vec<(String, ValueProperties)> = Vec::new();
    let mut i: usize = 0;
    while i < arguments.len()
        invariant
            i <= argsv.len(),
            argsv == arguments.deep_view(),
            arguments@.len() == argsv.len(),
            merged.deep_view() == inferred_public_properties(argsv.take(i as int)),
            forall|j: int| 0 <= j < i && (#[trigger] argsv[j]).1.public
                ==> crate::utilities::infer_ok(argsv[j].1.value),
        decreases arguments@.len() - i,
    {
        proof {
            assert(argsv[i as int] == arguments@[i as int].deep_view());
            assert(argsv.take(i as int + 1).drop_last() =~= argsv.take(i as int));
            assert(argsv.take(i as int + 1).last() == argsv[i as int]);
        }
        let (name, rn) = &arguments[i];
        if rn.public {
            match crate::utilities::infer_property(&rn.value) {
                Ok(p) => {
                    merged.push((name.clone(), p));
                    proof {
                        assert(merged.deep_view() =~= inferred_public_properties(
                            argsv.take(i as int + 1),
                        ));
                    }
                },
                Err(e) => {
                    proof {
                        assert(!crate::utilities::infer_ok(argsv[i as int].1.value));
                        assert(!arguments_inferable(argsv));
                    }
                    return Err(e.at_argument(name.clone()));
                },
            }
        }
        i = i + 1;
    }
    proof {
        assert(argsv.take(argsv.len() as int) =~= argsv);
    }
    let mut pi: usize = 0;
    while pi < properties.len()
        invariant
            pi <= propsv.len(),
            argsv == arguments.deep_view(),
            propsv == properties.deep_view(),
            properties@.len() == propsv.len(),
            arguments_inferable(argsv),
            merged.deep_view() == inferred_public_properties(argsv) + propsv.take(pi as int),
        decreases properties@.len() - pi,
    {
        proof {
            assert(propsv[pi as int] == properties@[pi as int].deep_view());
        }
        let (name, vp) = &properties[pi];
        let ghost before_merged = merged.deep_view();
        merged.push((name.clone(), vp.clone()));
        proof {
            assert(propsv.take(pi as int + 1).drop_last() =~= propsv.take(pi as int));
            assert(propsv.take(pi as int + 1).last() == propsv[pi as int]);
            assert(merged.deep_view().len() == before_merged.len() + 1);
            assert forall|j: int| 0 <= j < before_merged.len() implies merged.deep_view()[j]
                == before_merged[j] by {
                assert(merged.deep_view()[j] == merged@[j].deep_view());
                assert(before_merged[j] == merged@[j].deep_view());
            }
            assert(merged.deep_view().last() == (propsv[pi as int].0, propsv[pi as int].1));
            assert((propsv[pi as int].0, propsv[pi as int].1) == propsv[pi as int]);
            assert(merged.deep_view() =~= before_merged.push(propsv[pi as int]));
            assert(inferred_public_properties(argsv) + propsv.take(pi as int + 1)
                =~= (inferred_public_properties(argsv) + propsv.take(pi as int)).push(
                propsv[pi as int],
            ));
            assert(merged.deep_view() == inferred_public_properties(argsv) + propsv.take(
                pi as int + 1,
            ));
        }
        pi = pi + 1;
    }
    proof {
        assert(propsv.take(propsv.len() as int) =~= propsv);
        assert(merged.deep_view() =~= merged_request_properties(argsv, propsv));
    }
    Ok(merged)
}

/// Collects the released values of the public arguments, by name.
fn collect_public_values(arguments: &Vec<(String, ReleaseNode)>) -> (r: Vec<(String, Value)>)
    ensures
        r.deep_view() == public_argument_values(arguments.deep_view()),
{
    let ghost argsv = arguments.deep_view();
    let mut out: Vec<(String, Value)> = Vec::new();
    let mut ai: usize = 0;
    while ai < arguments.len()
        invariant
            ai <= argsv.len(),
            argsv == arguments.deep_view(),
            arguments@.len() == argsv.len(),
            out.deep_view() == public_argument_values(argsv.take(ai as int)),
        decreases arguments@.len() - ai,
    {
        proof {
            assert(argsv[ai as int] == arguments@[ai as int].deep_view());
            assert(argsv.take(ai as int + 1).drop_last() =~= argsv.take(ai as int));
            assert(argsv.take(ai as int + 1).last() == argsv[ai as int]);
        }
        let (name, rn) = &arguments[ai];
        if rn.public {
            out.push((name.clone(), rn.value.clone()));
            proof {
                assert(out.deep_view() =~= public_argument_values(argsv.take(ai as int + 1)));
            }
        } else {
            proof {
                assert(out.deep_view() =~= public_argument_values(argsv.take(ai as int + 1)));
            }
        }
        ai = ai + 1;
    }
    proof {
        assert(argsv.take(argsv.len() as int) =~= argsv);
    }
    out
}

/// Expands a single component interactively, seeding the properties of
/// its public arguments by inference, and propagating the component\'s
/// own properties when it needed no expansion.  Fails exactly when the
/// component is absent, a public argument cannot be inferred, or the
/// component\'s own expansion or propagation preconditions do not hold.
pub fn expand_component(request: RequestExpandComponent) -> (r: Result<ComponentExpansion, Error>)
    ensures
        request.component is None ==> r is Err,
        match r {
            Ok(x) => {
                &&& request.component is Some
                &&& x.computation_graph.wf()
                &&& x.properties.wf()
                &&& x.warnings@.len() == 0
                &&& x.releases.deep_view().len() == 0
                &&& (!request.component->0.deep_view().variant.is_primitive()
                    ==> x.properties.deep_view().len() == 0)
                &&& arguments_inferable(request.arguments.deep_view())
                &&& (request.component->0.deep_view().variant.is_primitive() ==> {
                    &&& x.computation_graph.deep_view().len() == 0
                    &&& x.traversal@.len() == 0
                    &&& x.properties.spec_contains(request.component_id)
                    &&& {
                        let merged = merged_request_properties(
                            request.arguments.deep_view(),
                            request.properties.deep_view(),
                        );
                        let pubs = public_argument_values(request.arguments.deep_view());
                        match request.component->0.deep_view().variant {
                            crate::component::VariantV::Literal => false,
                            crate::component::VariantV::Mean => crate::components::aggregate_ok(
                                merged,
                            ) && x.properties.as_map()[request.component_id]
                                == crate::props::ValuePropertiesV::Array(
                                crate::components::aggregate_output(
                                    crate::components::impute::data_array(merged)->0,
                                    crate::base::DataType::Float,
                                ),
                            ),
                            crate::component::VariantV::Quantile { .. } => {
                                crate::components::aggregate_ok(merged)
                                    && x.properties.as_map()[request.component_id]
                                    == crate::props::ValuePropertiesV::Array(
                                    crate::components::aggregate_output(
                                        crate::components::impute::data_array(merged)->0,
                                        crate::components::impute::data_array(
                                            merged,
                                        )->0.data_type,
                                    ),
                                )
                            },
                            crate::component::VariantV::LaplaceMechanism { privacy_usage } => {
                                crate::components::laplace_ok(
                                    merged,
                                    request.privacy_definition,
                                    privacy_usage,
                                ) && x.properties.as_map()[request.component_id]
                                    == crate::props::ValuePropertiesV::Array(
                                    crate::components::laplace_output(
                                        crate::components::impute::data_array(merged)->0,
                                    ),
                                )
                            },
                            crate::component::VariantV::Impute => {
                                crate::components::impute::impute_ok(merged)
                                    && x.properties.as_map()[request.component_id]
                                    == crate::props::ValuePropertiesV::Array(
                                    crate::components::impute::impute_output(
                                        crate::components::impute::data_array(merged)->0,
                                    ),
                                )
                            },
                            crate::component::VariantV::Partition => {
                                crate::components::partition::partition_ok(merged, pubs)
                                    && x.properties.as_map()[request.component_id]
                                    == crate::props::ValuePropertiesV::Indexmap(
                                    crate::components::partition::partition_output(
                                        merged,
                                        pubs,
                                        request.component_id,
                                    ),
                                )
                            },
                            _ => true,
                        }
                    }
                })
                &&& (match request.component->0.deep_view().variant {
                    crate::component::VariantV::DpMean { implementation, privacy_usage } => {
                        x.computation_graph.deep_view()
                            == crate::components::dp_mean::dp_mean_expansion_graph(
                            crate::maps::str_lookup(
                                request.component->0.deep_view().arguments,
                                "data"@,
                            )->0,
                            privacy_usage,
                            request.component->0.submission,
                            request.component_id,
                            request.maximum_id,
                        ) && x.traversal@ == seq![(request.maximum_id + 1) as u32]
                    },
                    crate::component::VariantV::DpMedian { .. } => {
                        x.computation_graph.deep_view() == seq![
                            (
                                request.component_id,
                                crate::components::dp_median::dp_median_rewrite(
                                    request.component->0.deep_view(),
                                    request.component->0.deep_view().variant,
                                ),
                            ),
                        ] && x.traversal@ == seq![request.component_id]
                    },
                    crate::component::VariantV::DpQuantile {
                        alpha,
                        interpolation,
                        privacy_usage,
                        mechanism,
                    } => {
                        x.computation_graph.deep_view()
                            == crate::components::dp_quantile::dp_quantile_expansion_graph(
                            crate::maps::str_lookup(
                                request.component->0.deep_view().arguments,
                                "data"@,
                            )->0,
                            alpha,
                            interpolation,
                            privacy_usage,
                            request.component->0.omit,
                            request.component->0.submission,
                            request.component_id,
                            request.maximum_id,
                        ) && x.traversal@ == seq![(request.maximum_id + 1) as u32]
                    },
                    _ => true,
                })
            },
            Err(e) => {
                ||| request.component is None
                ||| !arguments_inferable(request.arguments.deep_view())
                ||| {
                    let merged = merged_request_properties(
                        request.arguments.deep_view(),
                        request.properties.deep_view(),
                    );
                    let pubs = public_argument_values(request.arguments.deep_view());
                    match request.component->0.deep_view().variant {
                        crate::component::VariantV::DpMean { .. } => !(crate::maps::str_lookup(
                            request.component->0.deep_view().arguments,
                            "data"@,
                        ) is Some && request.maximum_id < u32::MAX && request.component_id
                            <= request.maximum_id),
                        crate::component::VariantV::DpQuantile { mechanism, .. } => !(
                        crate::maps::str_lookup(
                            request.component->0.deep_view().arguments,
                            "data"@,
                        ) is Some && request.maximum_id < u32::MAX && request.component_id
                            <= request.maximum_id && mechanism == "Laplace"@),
                        crate::component::VariantV::DpMedian { .. } => false,
                        crate::component::VariantV::Literal => true,
                        crate::component::VariantV::Mean
                        | crate::component::VariantV::Quantile { .. } => {
                            !crate::components::aggregate_ok(merged)
                        },
                        crate::component::VariantV::LaplaceMechanism { privacy_usage } => {
                            !crate::components::laplace_ok(
                                merged,
                                request.privacy_definition,
                                privacy_usage,
                            )
                        },
                        crate::component::VariantV::Impute => !crate::components::impute::impute_ok(
                            merged,
                        ),
                        crate::component::VariantV::Partition => {
                            !crate::components::partition::partition_ok(merged, pubs)
                        },
                    }
                }
            },
        },
{
    let arguments = request.arguments;
    let properties = request.properties;
    let privacy_definition = request.privacy_definition;
    let component_id = request.component_id;
    let maximum_id = request.maximum_id;

    let component = match request.component {
        Some(c) => c,
        None => {
            return Err(Error::new(ErrorKind::Missing(String::from_str("component"))));
        },
    };

    // inferred properties of public arguments come first, so they
    // override any declared properties of the same name
    let merged = match merge_arguments(&arguments, &properties) {
        Ok(v) => v,
        Err(e) => {
            return Err(e);
        },
    };

    let mut result = match crate::components::expand_component_node(
        &component,
        &privacy_definition,
        &merged,
        component_id,
        maximum_id,
    ) {
        Ok(x) => x,
        Err(e) => {
            return Err(e.at_node(component_id));
        },
    };
    proof {
        assert(result.properties.wf());
    }

    if result.traversal.len() == 0 {
        let public_values = collect_public_values(&arguments);
        match crate::components::propagate_property(
            &component,
            &privacy_definition,
            &public_values,
            &merged,
            component_id,
        ) {
            Ok(w) => {
                let Warnable(p, mut ws) = w;
                result.properties.insert(component_id, p);
                let ghost g_r = result.computation_graph;
                let ghost p_r = result.properties;
                let ghost t_r = result.traversal@;
                let ghost w_r = result.warnings@;
                let ghost rel_r = result.releases;
                while ws.len() > 0
                    invariant
                        result.computation_graph == g_r,
                        result.properties == p_r,
                        result.traversal@ == t_r,
                        result.warnings@ == w_r,
                        result.releases == rel_r,
                        ws@.len() == 0,
                    decreases ws@.len(),
                {
                    match ws.pop() {
                        Some(x) => {
                            result.warnings.push(x.at_node(component_id));
                        },
                        None => {},
                    }
                }
            },
            Err(e) => {
                return Err(e.at_node(component_id));
            },
        }
    }
    Ok(result)
}


/// Generates the JSON report of an analysis and its release: after a
/// full propagation pass, every publicly released composite statistic
/// is summarised, and the list of summaries is rendered as a JSON
/// array.  Failures to summarise a single node are swallowed so the
/// rest of the report still renders; an empty graph yields the empty
/// report.
pub fn generate_report(analysis: Analysis, release: Release) -> (r: Result<String, Error>)
    requires
        analysis.computation_graph.wf(),
        release.wf(),
    ensures
        has_cycle(analysis.computation_graph.as_map()) ==> r is Err
            && r->Err_0.kind is CycleDetected,
        (analysis.computation_graph.deep_view().len() == 0 && release.deep_view().len() == 0)
            ==> r is Ok,
        covered_by_release(analysis.computation_graph.as_map(), release.as_map()) ==> r is Ok,
        mechanisms_over_public(
            analysis.computation_graph.as_map(),
            release.as_map(),
            analysis.privacy_definition,
        ) ==> r is Ok,
        match r {
            Ok(s) => {
                &&& exists|rs: Seq<crate::json::JSONReleaseV>|
                    s@ == crate::json::render_json(#[trigger] crate::json::json_of_report(rs)) && (
                    analysis.computation_graph.deep_view().len() == 0 ==> rs.len() == 0)
                &&& (analysis.computation_graph.deep_view().len() == 0 ==> s@ == seq!['[', ']'])
            },
            Err(e) => true,
        },
{
    let ghost g0len = analysis.computation_graph.deep_view().len();
    // summaries describe the components as submitted, before expansion
    let mut submitted: Vec<(u32, Component)> = Vec::new();
    let mut si: usize = 0;
    while si < analysis.computation_graph.entries.len()
        invariant
            analysis.computation_graph.deep_view().len() == g0len,
            analysis.computation_graph.entries@.len() == g0len,
            submitted@.len() == si,
            si <= g0len,
        decreases analysis.computation_graph.entries@.len() - si,
    {
        let id = analysis.computation_graph.entries[si].0;
        let comp = analysis.computation_graph.entries[si].1.clone();
        submitted.push((id, comp));
        si = si + 1;
    }

    let mut analysis = analysis;
    let mut release = release;
    let properties = match propagate_properties(&mut analysis, &mut release, None, false) {
        Ok(out) => out.0,
        Err(e) => {
            return Err(e);
        },
    };

    let mut summaries: Vec<crate::json::JSONRelease> = Vec::new();
    let mut i: usize = 0;
    while i < submitted.len()
        invariant
            release.wf(),
            properties.wf(),
            submitted@.len() == g0len,
            i <= g0len,
            g0len == 0 ==> summaries.deep_view().len() == 0,
        decreases submitted@.len() - i,
    {
        let node_id = submitted[i].0;
        let is_public = match release.get(node_id) {
            Some(rn) => rn.public,
            None => false,
        };
        if is_public {
            let node_props = match crate::utilities::gather_node_properties(
                &submitted[i].1,
                &properties,
            ) {
                Ok(ps) => ps,
                Err(_) => {
                    i = i + 1;
                    continue ;
                },
            };
            let released_value = match release.get(node_id) {
                Some(rn) => &rn.value,
                None => {
                    i = i + 1;
                    continue ;
                },
            };
            // best-effort variable names; a failed lookup is swallowed
            let variable_names = match crate::components::component_get_names(&submitted[i].1) {
                Ok(names) => Some(names),
                Err(_) => None,
            };
            let summary = match &submitted[i].1.variant {
                Variant::DpMean { implementation, privacy_usage } => {
                    crate::components::dp_mean::summarize_dp_mean(
                        implementation,
                        privacy_usage,
                        node_id,
                        submitted[i].1.submission,
                        &node_props,
                        released_value,
                    )
                },
                Variant::DpMedian { interpolation: _, privacy_usage, mechanism } => {
                    crate::components::dp_median::summarize_dp_median(
                        privacy_usage,
                        mechanism,
                        node_id,
                        submitted[i].1.submission,
                        &node_props,
                        released_value,
                        match &variable_names {
                            Some(names) => Some(names),
                            None => None,
                        },
                    )
                },
                _ => Ok(None),
            };
            match summary {
                Ok(Some(mut entries)) => {
                    summaries.append(&mut entries);
                },
                Ok(None) => {},
                Err(_) => {
                    // a node that cannot be summarised does not abort
                    // the rest of the report
                },
            }
        }
        i = i + 1;
    }

    let document = crate::json::report_to_json(&summaries);
    let rendered = crate::json::json_to_string(&document);
    proof {
        let rsw = summaries.deep_view();
        assert(rendered@ == crate::json::render_json(crate::json::json_of_report(rsw)));
        if g0len == 0 {
            assert(rsw.len() == 0);
            assert(crate::json::json_of_report(rsw)->Arr_0 =~= Seq::<
                crate::json::JsonValueV,
            >::empty());
            assert(crate::json::render_arr(crate::json::json_of_report(rsw)->Arr_0) =~= Seq::<
                char,
            >::empty());
            assert(rendered@ =~= seq!['[', ']']);
        }
    }
    Ok(rendered)
}

} // verus!
