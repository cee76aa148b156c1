//! The component surface: per-variant property propagation, expansion,
//! column names, accuracy conversions and report summaries, dispatched
//! over the closed sum of variants.

pub mod dp_mean;
pub mod dp_median;
pub mod dp_quantile;
pub mod impute;
pub mod partition;

use vstd::prelude::*;
use crate::base::{DataType, PrivacyDefinition, PrivacyUsage, Value};
use crate::component::{Component, ComponentExpansion, VariantV, Variant};
use crate::errors::{Error, ErrorKind};
use crate::maps::IdMap;
use crate::privacy::all_valid;
use crate::props::{ArrayPropertiesV, ValueProperties, ValuePropertiesV};
use crate::Warnable;
use crate::components::impute::data_array;

verus! {

/// When `Mean` or `Quantile` can propagate: the data is an array.
pub open spec fn aggregate_ok(props: Seq<(Seq<char>, <ValueProperties as DeepView>::V)>) -> bool {
    data_array(props) is Some
}

/// The properties an aggregate propagates: one record, and every
/// per-column attribute of the data untouched — in particular the
/// column count and the bounds, since an aggregate of bounded data
/// stays within its bounds.
pub open spec fn aggregate_output(d: ArrayPropertiesV, data_type: DataType) -> ArrayPropertiesV {
    ArrayPropertiesV { num_records: Some(1i64), categories: None, data_type, ..d }
}

/// Propagates properties through a `Mean` or `Quantile` node.
pub fn propagate_aggregate(
    node_properties: &Vec<(String, ValueProperties)>,
    data_type_of_mean: bool,
) -> (r: Result<Warnable<ValueProperties>, Error>)
    ensures
        match r {
            Ok(w) => {
                &&& aggregate_ok(node_properties.deep_view())
                &&& w.0.deep_view() == ValuePropertiesV::Array(
                    aggregate_output(
                        data_array(node_properties.deep_view())->0,
                        if data_type_of_mean {
                            DataType::Float
                        } else {
                            data_array(node_properties.deep_view())->0.data_type
                        },
                    ),
                )
                &&& w.1@.len() == 0
            },
            Err(e) => !aggregate_ok(node_properties.deep_view()) && !(e.kind is BudgetExceeded),
        },
{
    let data_vp = match crate::maps::str_get(node_properties, &String::from_str("data")) {
        Some(p) => p,
        None => {
            return Err(Error::new(ErrorKind::Missing(String::from_str("data"))));
        },
    };
    let d = match data_vp.array() {
        Ok(d) => d,
        Err(e) => {
            return Err(e.at_argument(String::from_str("data")));
        },
    };
    let mut out = d.clone();
    out.num_records = Some(1);
    out.categories = None;
    if data_type_of_mean {
        out.data_type = DataType::Float;
    }
    proof {
        assert(out.deep_view() =~~= aggregate_output(
            data_array(node_properties.deep_view())->0,
            if data_type_of_mean {
                DataType::Float
            } else {
                data_array(node_properties.deep_view())->0.data_type
            },
        ));
    }
    Ok(Warnable::new(ValueProperties::Array(out)))
}

/// When a `LaplaceMechanism` can propagate: the data is an array, a
/// privacy definition is given, and every declared usage is a defined,
/// non-negative distance.
pub open spec fn laplace_ok(
    props: Seq<(Seq<char>, <ValueProperties as DeepView>::V)>,
    privacy_definition: Option<PrivacyDefinition>,
    usages: Seq<PrivacyUsage>,
) -> bool {
    data_array(props) is Some && privacy_definition is Some && all_valid(usages)
}

/// The properties a mechanism propagates: the data's, now releasable,
/// since every path through this node passes through the mechanism.
pub open spec fn laplace_output(d: ArrayPropertiesV) -> ArrayPropertiesV {
    ArrayPropertiesV { releasable: true, is_public: true, ..d }
}

/// Propagates properties through a `LaplaceMechanism` node.
pub fn propagate_laplace(
    privacy_usage: &Vec<PrivacyUsage>,
    privacy_definition: &Option<PrivacyDefinition>,
    node_properties: &Vec<(String, ValueProperties)>,
) -> (r: Result<Warnable<ValueProperties>, Error>)
    ensures
        match r {
            Ok(w) => {
                &&& laplace_ok(
                    node_properties.deep_view(),
                    *privacy_definition,
                    privacy_usage.deep_view(),
                )
                &&& w.0.deep_view() == ValuePropertiesV::Array(
                    laplace_output(data_array(node_properties.deep_view())->0),
                )
                &&& w.1@.len() == 0
            },
            Err(e) => !laplace_ok(
                node_properties.deep_view(),
                *privacy_definition,
                privacy_usage.deep_view(),
            ) && !(e.kind is BudgetExceeded),
        },
{
    if privacy_definition.is_none() {
        return Err(Error::new(ErrorKind::Missing(String::from_str("privacy_definition"))));
    }
    let mut i: usize = 0;
    while i < privacy_usage.len()
        invariant
            i <= privacy_usage@.len(),
            forall|j: int| 0 <= j < i ==> (#[trigger] privacy_usage@[j]).valid(),
        decreases privacy_usage@.len() - i,
    {
        let u = privacy_usage[i];
        proof {
            assert(privacy_usage.deep_view()[i as int] == privacy_usage@[i as int]);
        }
        match u.distance {
            Some(d) => {
                if d.epsilon < 0 || d.delta < 0 {
                    proof {
                        assert(!(privacy_usage.deep_view()[i as int]).valid());
                    }
                    return Err(
                        Error::new(
                            ErrorKind::InvariantViolation(
                                String::from_str("privacy usage components must not be negative"),
                            ),
                        ),
                    );
                }
            },
            None => {
                proof {
                    assert(!(privacy_usage.deep_view()[i as int]).valid());
                }
                return Err(Error::new(ErrorKind::UsageUndefined));
            },
        }
        i = i + 1;
    }
    proof {
        assert(privacy_usage.deep_view() =~= privacy_usage@);
    }
    let data_vp = match crate::maps::str_get(node_properties, &String::from_str("data")) {
        Some(p) => p,
        None => {
            return Err(Error::new(ErrorKind::Missing(String::from_str("data"))));
        },
    };
    let d = match data_vp.array() {
        Ok(d) => d,
        Err(e) => {
            return Err(e.at_argument(String::from_str("data")));
        },
    };
    let mut out = d.clone();
    out.releasable = true;
    out.is_public = true;
    proof {
        assert(out.deep_view() =~~= laplace_output(data_array(node_properties.deep_view())->0));
    }
    Ok(Warnable::new(ValueProperties::Array(out)))
}

/// Dispatches property propagation over the component's variant.
/// Composite variants report themselves abstract: the engine must
/// expand them first.  A literal draws its properties from its public
/// release, never from propagation.
pub fn propagate_property(
    component: &Component,
    privacy_definition: &Option<PrivacyDefinition>,
    public_arguments: &Vec<(String, Value)>,
    node_properties: &Vec<(String, ValueProperties)>,
    node_id: u32,
) -> (r: Result<Warnable<ValueProperties>, Error>)
    ensures
        r is Err ==> !(r->Err_0.kind is BudgetExceeded),
        match component.deep_view().variant {
            VariantV::DpMean { .. } | VariantV::DpMedian { .. } | VariantV::DpQuantile { .. } => {
                r is Err && r->Err_0.kind is Abstract
            },
            VariantV::Literal => r is Err && r->Err_0.kind is Missing,
            VariantV::Mean => match r {
                Ok(w) => aggregate_ok(node_properties.deep_view()) && w.0.deep_view()
                    == ValuePropertiesV::Array(
                    aggregate_output(data_array(node_properties.deep_view())->0, DataType::Float),
                ) && w.1@.len() == 0,
                Err(_) => !aggregate_ok(node_properties.deep_view()),
            },
            VariantV::Quantile { .. } => match r {
                Ok(w) => aggregate_ok(node_properties.deep_view()) && w.0.deep_view()
                    == ValuePropertiesV::Array(
                    aggregate_output(
                        data_array(node_properties.deep_view())->0,
                        data_array(node_properties.deep_view())->0.data_type,
                    ),
                ) && w.1@.len() == 0,
                Err(_) => !aggregate_ok(node_properties.deep_view()),
            },
            VariantV::LaplaceMechanism { privacy_usage: us } => match r {
                Ok(w) => laplace_ok(node_properties.deep_view(), *privacy_definition, us)
                    && w.0.deep_view() == ValuePropertiesV::Array(
                    laplace_output(data_array(node_properties.deep_view())->0),
                ) && w.1@.len() == 0,
                Err(_) => !laplace_ok(node_properties.deep_view(), *privacy_definition, us),
            },
            VariantV::Impute => match r {
                Ok(w) => crate::components::impute::impute_ok(node_properties.deep_view())
                    && w.0.deep_view() == ValuePropertiesV::Array(
                    crate::components::impute::impute_output(
                        data_array(node_properties.deep_view())->0,
                    ),
                ) && w.1@.len() == 0,
                Err(_) => !crate::components::impute::impute_ok(node_properties.deep_view()),
            },
            VariantV::Partition => match r {
                Ok(w) => crate::components::partition::partition_ok(
                    node_properties.deep_view(),
                    public_arguments.deep_view(),
                ) && w.0.deep_view() == ValuePropertiesV::Indexmap(
                    crate::components::partition::partition_output(
                        node_properties.deep_view(),
                        public_arguments.deep_view(),
                        node_id,
                    ),
                ) && w.1@.len() == 0,
                Err(_) => !crate::components::partition::partition_ok(
                    node_properties.deep_view(),
                    public_arguments.deep_view(),
                ),
            },
        },
{
    match &component.variant {
        Variant::Literal => Err(Error::new(ErrorKind::Missing(String::from_str("value")))),
        Variant::Mean => propagate_aggregate(node_properties, true),
        Variant::Quantile { .. } => propagate_aggregate(node_properties, false),
        Variant::LaplaceMechanism { privacy_usage } => propagate_laplace(
            privacy_usage,
            privacy_definition,
            node_properties,
        ),
        Variant::Impute => crate::components::impute::propagate_impute(node_properties),
        Variant::Partition => crate::components::partition::propagate_partition(
            public_arguments,
            node_properties,
            node_id,
        ),
        Variant::DpMean { .. } => Err(Error::new(ErrorKind::Abstract)),
        Variant::DpMedian { .. } => Err(Error::new(ErrorKind::Abstract)),
        Variant::DpQuantile { .. } => Err(Error::new(ErrorKind::Abstract)),
    }
}

/// The identity expansion of a primitive component.
pub fn identity_expansion() -> (r: ComponentExpansion)
    ensures
        r.computation_graph.wf(),
        r.computation_graph.deep_view().len() == 0,
        r.properties.deep_view().len() == 0,
        r.releases.deep_view().len() == 0,
        r.traversal@.len() == 0,
        r.warnings@.len() == 0,
{
    ComponentExpansion {
        computation_graph: IdMap::new(),
        properties: IdMap::new(),
        releases: IdMap::new(),
        traversal: Vec::new(),
        warnings: Vec::new(),
    }
}

/// Dispatches expansion over the component's variant.  Primitive
/// components are fixed points: they expand to nothing and queue
/// nothing, so a second propagation pass finds nothing to do.
pub fn expand_component_node(
    component: &Component,
    privacy_definition: &Option<PrivacyDefinition>,
    node_properties: &Vec<(String, ValueProperties)>,
    component_id: u32,
    maximum_id: u32,
) -> (r: Result<ComponentExpansion, Error>)
    ensures
        match r {
            Ok(x) => {
                &&& component.deep_view().variant.is_primitive() ==> {
                    &&& x.computation_graph.deep_view().len() == 0
                    &&& x.traversal@.len() == 0
                }
                &&& x.properties.deep_view().len() == 0
                &&& x.properties.wf()
                &&& x.releases.deep_view().len() == 0
                &&& x.warnings@.len() == 0
                &&& x.computation_graph.wf()
                &&& (match component.deep_view().variant {
                    VariantV::DpMean { implementation, privacy_usage } => {
                        x.computation_graph.deep_view()
                            == crate::components::dp_mean::dp_mean_expansion_graph(
                            crate::maps::str_lookup(
                                component.deep_view().arguments,
                                "data"@,
                            )->0,
                            privacy_usage,
                            component.submission,
                            component_id,
                            maximum_id,
                        ) && x.traversal@ == seq![(maximum_id + 1) as u32]
                    },
                    VariantV::DpMedian { .. } => {
                        x.computation_graph.deep_view() == seq![
                            (
                                component_id,
                                crate::components::dp_median::dp_median_rewrite(
                                    component.deep_view(),
                                    component.deep_view().variant,
                                ),
                            ),
                        ] && x.traversal@ == seq![component_id]
                    },
                    VariantV::DpQuantile { alpha, interpolation, privacy_usage, mechanism } => {
                        x.computation_graph.deep_view()
                            == crate::components::dp_quantile::dp_quantile_expansion_graph(
                            crate::maps::str_lookup(
                                component.deep_view().arguments,
                                "data"@,
                            )->0,
                            alpha,
                            interpolation,
                            privacy_usage,
                            component.omit,
                            component.submission,
                            component_id,
                            maximum_id,
                        ) && x.traversal@ == seq![(maximum_id + 1) as u32]
                    },
                    _ => true,
                })
            },
            Err(e) => !component.deep_view().variant.is_primitive() && !(
            e.kind is BudgetExceeded),
        },
        match component.deep_view().variant {
            VariantV::DpMean { .. } => {
                &&& (r is Err <==> !(crate::maps::str_lookup(
                    component.deep_view().arguments,
                    "data"@,
                ) is Some && maximum_id < u32::MAX && component_id <= maximum_id))
                &&& (r is Err ==> (r->Err_0.kind is MissingArgument <==> crate::maps::str_lookup(
                    component.deep_view().arguments,
                    "data"@,
                ) is None))
            },
            VariantV::DpQuantile { mechanism, .. } => {
                &&& (r is Err <==> !(crate::maps::str_lookup(
                    component.deep_view().arguments,
                    "data"@,
                ) is Some && maximum_id < u32::MAX && component_id <= maximum_id && mechanism
                    == "Laplace"@))
                &&& (r is Err ==> (r->Err_0.kind is MissingArgument <==> (mechanism == "Laplace"@
                    && crate::maps::str_lookup(
                    component.deep_view().arguments,
                    "data"@,
                ) is None)))
            },
            _ => r is Ok,
        },
{
    match &component.variant {
        Variant::DpMean { implementation: _, privacy_usage } => {
            crate::components::dp_mean::expand_dp_mean(
                privacy_usage,
                component,
                component_id,
                maximum_id,
            )
        },
        Variant::DpMedian { interpolation, privacy_usage, mechanism } => {
            crate::components::dp_median::expand_dp_median(
                interpolation,
                privacy_usage,
                mechanism,
                component,
                component_id,
            )
        },
        Variant::DpQuantile { alpha, interpolation, privacy_usage, mechanism } => {
            crate::components::dp_quantile::expand_dp_quantile(
                *alpha,
                interpolation,
                privacy_usage,
                mechanism,
                component,
                component_id,
                maximum_id,
            )
        },
        _ => Ok(identity_expansion()),
    }
}

/// Best-effort column names for a component\'s output.  No component
/// of this set carries column names, so the lookup always fails;
/// report generation swallows the failure and falls back to
/// placeholders.
pub fn component_get_names(component: &Component) -> (r: Result<Vec<String>, Error>)
    ensures
        r is Err && r->Err_0.kind is Missing,
{
    match &component.variant {
        _ => Err(Error::new(ErrorKind::Missing(String::from_str("names")))),
    }
}

/// Per-component analytic accuracy-to-usage conversion.  No component
/// of this set supports one; each returns `None`, exactly as declared.
pub fn component_accuracy_to_privacy_usage(component: &Component) -> (r: Option<Vec<PrivacyUsage>>)
    ensures
        r is None,
{
    match &component.variant {
        _ => None,
    }
}

/// Per-component analytic usage-to-accuracy conversion.  No component
/// of this set supports one; each returns `None`, exactly as declared.
pub fn component_privacy_usage_to_accuracy(component: &Component) -> (r: Option<Vec<i64>>)
    ensures
        r is None,
{
    match &component.variant {
        _ => None,
    }
}


/// Propagation never invents or reorders bounds: every component of
/// this set hands its data\'s bounds through unchanged, so the lattice
/// invariant that known lower bounds stay at most the known upper
/// bounds is preserved by every propagated output, by every partition
/// part, and by inference, which leaves bounds unknown.
pub proof fn lemma_propagation_preserves_bound_order(
    d: ArrayPropertiesV,
    data_type: DataType,
    num_records: Option<i64>,
    node_id: u32,
    a: crate::base::ArrayValueV,
)
    ensures
        d.bounds_ordered() ==> aggregate_output(d, data_type).bounds_ordered(),
        d.bounds_ordered() ==> laplace_output(d).bounds_ordered(),
        d.bounds_ordered() ==> crate::components::impute::impute_output(d).bounds_ordered(),
        d.bounds_ordered() ==> crate::components::partition::with_group_layer(
            ArrayPropertiesV { num_records, ..d },
            node_id,
        ).bounds_ordered(),
        crate::utilities::infer_array_props(a).bounds_ordered(),
{
}

} // verus!
