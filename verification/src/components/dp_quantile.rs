//! The `DpQuantile` composite: a quantile followed by a privatising
//! mechanism.

use vstd::prelude::*;
use crate::base::PrivacyUsage;
use crate::component::{
    clone_usages, Component, ComponentExpansion, ComponentV, Variant, VariantV,
};
use crate::errors::{Error, ErrorKind};
use crate::maps::{str_lookup, IdMap};

verus! {

/// The subgraph `DpQuantile` expands to: a new `Quantile` node over
/// the data, marked as scaffolding, and the original node rebound to a
/// `LaplaceMechanism` over that quantile.
pub open spec fn dp_quantile_expansion_graph(
    data_id: u32,
    alpha: i64,
    interpolation: Seq<char>,
    usages: Seq<PrivacyUsage>,
    omit: bool,
    submission: u32,
    component_id: u32,
    maximum_id: u32,
) -> Seq<(u32, ComponentV)> {
    seq![
        (
            (maximum_id + 1) as u32,
            ComponentV {
                arguments: seq![("data"@, data_id)],
                variant: VariantV::Quantile { alpha, interpolation },
                omit: true,
                submission,
            },
        ),
        (
            component_id,
            ComponentV {
                arguments: seq![("data"@, (maximum_id + 1) as u32)],
                variant: VariantV::LaplaceMechanism { privacy_usage: usages },
                omit,
                submission,
            },
        ),
    ]
}

/// Expands a `DpQuantile` node.  Only the Laplace mechanism is known
/// to this validator, so any other mechanism name is refused.
pub fn expand_dp_quantile(
    alpha: i64,
    interpolation: &String,
    privacy_usage: &Vec<PrivacyUsage>,
    mechanism: &String,
    component: &Component,
    component_id: u32,
    maximum_id: u32,
) -> (r: Result<ComponentExpansion, Error>)
    ensures
        match r {
            Ok(x) => {
                &&& str_lookup(component.deep_view().arguments, "data"@) is Some
                &&& maximum_id < u32::MAX
                &&& component_id <= maximum_id
                &&& mechanism@ == "Laplace"@
                &&& x.computation_graph.wf()
                &&& x.computation_graph.deep_view() == dp_quantile_expansion_graph(
                    str_lookup(component.deep_view().arguments, "data"@)->0,
                    alpha,
                    interpolation@,
                    privacy_usage.deep_view(),
                    component.omit,
                    component.submission,
                    component_id,
                    maximum_id,
                )
                &&& x.properties.deep_view().len() == 0
                &&& x.releases.deep_view().len() == 0
                &&& x.traversal@ == seq![(maximum_id + 1) as u32]
                &&& x.warnings@.len() == 0
            },
            Err(e) => {
                &&& !(str_lookup(component.deep_view().arguments, "data"@) is Some && maximum_id
                    < u32::MAX && component_id <= maximum_id && mechanism@ == "Laplace"@)
                &&& (e.kind is MissingArgument <==> (mechanism@ == "Laplace"@ && str_lookup(
                    component.deep_view().arguments,
                    "data"@,
                ) is None))
                &&& (e.kind is MissingArgument || e.kind is InvariantViolation)
            },
        },
{
    if !mechanism.eq(&String::from_str("Laplace")) {
        return Err(
            Error::new(
                ErrorKind::InvariantViolation(String::from_str("unsupported mechanism")),
            ),
        );
    }
    let data_id = match crate::maps::str_get(&component.arguments, &String::from_str("data")) {
        Some(id) => *id,
        None => {
            return Err(Error::new(ErrorKind::MissingArgument(String::from_str("data"))));
        },
    };
    if maximum_id == u32::MAX {
        return Err(
            Error::new(ErrorKind::InvariantViolation(String::from_str("node ids exhausted"))),
        );
    }
    if component_id > maximum_id {
        return Err(
            Error::new(
                ErrorKind::InvariantViolation(
                    String::from_str("the expanded node must not be beyond the maximum id"),
                ),
            ),
        );
    }
    let id_quantile = maximum_id + 1;

    let mut computation_graph: IdMap<Component> = IdMap::new();
    let mut quantile_args: Vec<(String, u32)> = Vec::new();
    quantile_args.push((String::from_str("data"), data_id));
    computation_graph.insert(
        id_quantile,
        Component {
            arguments: quantile_args,
            variant: Variant::Quantile { alpha, interpolation: interpolation.clone() },
            omit: true,
            submission: component.submission,
        },
    );
    let mut noise_args: Vec<(String, u32)> = Vec::new();
    noise_args.push((String::from_str("data"), id_quantile));
    computation_graph.insert(
        component_id,
        Component {
            arguments: noise_args,
            variant: Variant::LaplaceMechanism { privacy_usage: clone_usages(privacy_usage) },
            omit: component.omit,
            submission: component.submission,
        },
    );
    let mut traversal: Vec<u32> = Vec::new();
    traversal.push(id_quantile);
    let expansion = ComponentExpansion {
        computation_graph,
        properties: IdMap::new(),
        releases: IdMap::new(),
        traversal,
        warnings: Vec::new(),
    };
    proof {
        assert(expansion.computation_graph.deep_view() =~~= dp_quantile_expansion_graph(
            data_id,
            alpha,
            interpolation@,
            privacy_usage.deep_view(),
            component.omit,
            component.submission,
            component_id,
            maximum_id,
        ));
        assert(expansion.traversal@ =~= seq![(maximum_id + 1) as u32]);
    }
    Ok(expansion)
}

} // verus!
