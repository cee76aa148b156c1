//! The `DpMean` composite: a mean followed by a Laplace mechanism.

use vstd::prelude::*;
use crate::base::{PrivacyUsage, Value};
use crate::component::{
    clone_usages, Component, ComponentExpansion, ComponentV, Variant, VariantV,
};
use crate::components::impute::data_array;
use crate::errors::{Error, ErrorKind};
use crate::json::{
    json_obj_dv, lemma_json_obj_dv, privacy_usage_to_json, usage_to_json_v, value_to_json,
    AlgorithmInfo, JsonValue, JsonValueV, JSONRelease,
};
use crate::maps::{str_lookup, IdMap};
use crate::privacy::usage_at;
use crate::props::ValueProperties;

verus! {

/// The subgraph `DpMean` expands to: a new `Mean` node over the data,
/// marked as scaffolding, and the original node rebound to a
/// `LaplaceMechanism` over that mean.
pub open spec fn dp_mean_expansion_graph(
    data_id: u32,
    usages: Seq<PrivacyUsage>,
    submission: u32,
    component_id: u32,
    maximum_id: u32,
) -> Seq<(u32, ComponentV)> {
    seq![
        (
            (maximum_id + 1) as u32,
            ComponentV {
                arguments: seq![("data"@, data_id)],
                variant: VariantV::Mean,
                omit: true,
                submission,
            },
        ),
        (
            component_id,
            ComponentV {
                arguments: seq![("data"@, (maximum_id + 1) as u32)],
                variant: VariantV::LaplaceMechanism { privacy_usage: usages },
                omit: false,
                submission,
            },
        ),
    ]
}

/// Expands a `DpMean` node.  The mean is computed at a fresh id and
/// the original id is rebound to the noising step, so downstream
/// consumers keep their references; only the fresh node needs to be
/// visited next.
pub fn expand_dp_mean(
    privacy_usage: &Vec<PrivacyUsage>,
    component: &Component,
    component_id: u32,
    maximum_id: u32,
) -> (r: Result<ComponentExpansion, Error>)
    ensures
        match r {
            Ok(x) => {
                &&& str_lookup(component.deep_view().arguments, "data"@) is Some
                &&& maximum_id < u32::MAX
                &&& component_id <= maximum_id
                &&& x.computation_graph.wf()
                &&& x.computation_graph.deep_view() == dp_mean_expansion_graph(
                    str_lookup(component.deep_view().arguments, "data"@)->0,
                    privacy_usage.deep_view(),
                    component.submission,
                    component_id,
                    maximum_id,
                )
                &&& x.properties.deep_view().len() == 0
                &&& x.releases.deep_view().len() == 0
                &&& x.traversal@ == seq![(maximum_id + 1) as u32]
                &&& x.warnings@.len() == 0
            },
            Err(e) => {
                &&& !(str_lookup(component.deep_view().arguments, "data"@) is Some && maximum_id
                    < u32::MAX && component_id <= maximum_id)
                &&& (e.kind is MissingArgument <==> str_lookup(
                    component.deep_view().arguments,
                    "data"@,
                ) is None)
                &&& (e.kind is MissingArgument || e.kind is InvariantViolation)
            },
        },
{
    let data_id = match crate::maps::str_get(&component.arguments, &String::from_str("data")) {
        Some(id) => *id,
        None => {
            return Err(Error::new(ErrorKind::MissingArgument(String::from_str("data"))));
        },
    };
    if maximum_id == u32::MAX {
        return Err(
            Error::new(ErrorKind::InvariantViolation(String::from_str("node ids exhausted"))),
        );
    }
    if component_id > maximum_id {
        return Err(
            Error::new(
                ErrorKind::InvariantViolation(
                    String::from_str("the expanded node must not be beyond the maximum id"),
                ),
            ),
        );
    }
    let id_mean = maximum_id + 1;

    let mut computation_graph: IdMap<Component> = IdMap::new();
    let mut mean_args: Vec<(String, u32)> = Vec::new();
    mean_args.push((String::from_str("data"), data_id));
    computation_graph.insert(
        id_mean,
        Component {
            arguments: mean_args,
            variant: Variant::Mean,
            omit: true,
            submission: component.submission,
        },
    );
    let mut noise_args: Vec<(String, u32)> = Vec::new();
    noise_args.push((String::from_str("data"), id_mean));
    computation_graph.insert(
        component_id,
        Component {
            arguments: noise_args,
            variant: Variant::LaplaceMechanism { privacy_usage: clone_usages(privacy_usage) },
            omit: false,
            submission: component.submission,
        },
    );
    let mut traversal: Vec<u32> = Vec::new();
    traversal.push(id_mean);
    let expansion = ComponentExpansion {
        computation_graph,
        properties: IdMap::new(),
        releases: IdMap::new(),
        traversal,
        warnings: Vec::new(),
    };
    proof {
        assert(expansion.computation_graph.deep_view() =~~= dp_mean_expansion_graph(
            data_id,
            privacy_usage.deep_view(),
            component.submission,
            component_id,
            maximum_id,
        ));
        assert(expansion.traversal@ =~= seq![(maximum_id + 1) as u32]);
    }
    Ok(expansion)
}


/// When a `DpMean` node can be summarised: the data argument is an
/// array of known shape and bounds, the declared usage broadcasts over
/// the columns, and the released value is not a keyed family.
pub open spec fn dp_mean_summary_ok(
    props: Seq<(Seq<char>, <ValueProperties as DeepView>::V)>,
    usages: Seq<PrivacyUsage>,
    released: Value,
) -> bool {
    match data_array(props) {
        Some(d) => {
            &&& d.num_columns is Some
            &&& d.num_columns->0 >= 0
            &&& d.num_records is Some
            &&& d.lower is Some
            &&& d.lower->0.len() >= d.num_columns->0
            &&& d.upper is Some
            &&& d.upper->0.len() >= d.num_columns->0
            &&& d.num_columns->0 <= usize::MAX
            &&& (usages.len() == 1 || usages.len() == d.num_columns->0)
            &&& !(released is Indexmap)
        },
        None => false,
    }
}

/// The per-column algorithm argument of a `DpMean` summary: the record
/// count and the column\'s clamping bounds.
pub open spec fn dp_mean_argument(nr: i64, lower: i64, upper: i64) -> JsonValueV {
    JsonValueV::Obj(
        seq![
            ("n"@, JsonValueV::Int(nr)),
            (
                "constraint"@,
                JsonValueV::Obj(
                    seq![
                        ("lowerbound"@, JsonValueV::Int(lower)),
                        ("upperbound"@, JsonValueV::Int(upper)),
                    ],
                ),
            ),
        ],
    )
}

/// Summarises a released `DpMean`: one entry per column, each carrying
/// the privacy loss of its column and the bounds the mean was computed
/// under.
pub fn summarize_dp_mean(
    implementation: &String,
    privacy_usage: &Vec<PrivacyUsage>,
    node_id: u32,
    submission: u32,
    node_properties: &Vec<(String, ValueProperties)>,
    released: &Value,
) -> (r: Result<Option<Vec<JSONRelease>>, Error>)
    ensures
        match r {
            Ok(out) => {
                &&& out is Some
                &&& dp_mean_summary_ok(
                    node_properties.deep_view(),
                    privacy_usage.deep_view(),
                    *released,
                )
                &&& {
                    let d = data_array(node_properties.deep_view())->0;
                    let rs = out->0.deep_view();
                    &&& rs.len() == d.num_columns->0
                    &&& forall|i: int| 0 <= i < rs.len() ==> {
                        let rel = #[trigger] rs[i];
                        &&& rel.statistic == "DPMean"@
                        &&& rel.description == "DP release information"@
                        &&& rel.node_id == node_id
                        &&& rel.submission == submission
                        &&& rel.postprocess == false
                        &&& rel.accuracy is None
                        &&& rel.privacy_loss == usage_to_json_v(
                            usage_at(privacy_usage.deep_view(), i),
                        )
                        &&& rel.algorithm_info.mechanism == implementation@
                        &&& rel.algorithm_info.argument == dp_mean_argument(
                            d.num_records->0,
                            d.lower->0[i],
                            d.upper->0[i],
                        )
                    }
                }
            },
            Err(e) => {
                &&& !dp_mean_summary_ok(
                    node_properties.deep_view(),
                    privacy_usage.deep_view(),
                    *released,
                )
                &&& (e.kind is Arity ==> !(privacy_usage.deep_view().len() == 1
                    || privacy_usage.deep_view().len() == data_array(
                    node_properties.deep_view(),
                )->0.num_columns->0))
            },
        },
{
    let ghost propsv = node_properties.deep_view();
    let data_vp = match crate::maps::str_get(node_properties, &String::from_str("data")) {
        Some(p) => p,
        None => {
            return Err(Error::new(ErrorKind::Missing(String::from_str("data"))));
        },
    };
    let d = match data_vp.array() {
        Ok(d) => d,
        Err(e) => {
            return Err(e.at_argument(String::from_str("data")));
        },
    };
    let num_columns = match d.num_columns_checked() {
        Ok(n) => n,
        Err(e) => {
            return Err(e.at_argument(String::from_str("data")));
        },
    };
    if num_columns < 0 {
        return Err(
            Error::new(
                ErrorKind::InvariantViolation(String::from_str("column counts must not be negative")),
            ),
        );
    }
    let num_records = match d.num_records_checked() {
        Ok(n) => n,
        Err(e) => {
            return Err(e.at_argument(String::from_str("data")));
        },
    };
    let lower = match &d.lower {
        Some(l) => l,
        None => {
            return Err(Error::new(ErrorKind::Missing(String::from_str("lower"))));
        },
    };
    let upper = match &d.upper {
        Some(u) => u,
        None => {
            return Err(Error::new(ErrorKind::Missing(String::from_str("upper"))));
        },
    };
    if num_columns as u64 > usize::MAX as u64 {
        return Err(
            Error::new(ErrorKind::InvariantViolation(String::from_str("too many columns"))),
        );
    }
    let nc = num_columns as usize;
    if lower.len() < nc || upper.len() < nc {
        return Err(Error::new(ErrorKind::Missing(String::from_str("bounds"))));
    }
    let usages = match crate::privacy::broadcast_privacy_usage(privacy_usage, nc) {
        Ok(us) => us,
        Err(e) => {
            proof {
                assert(privacy_usage.deep_view() =~= privacy_usage@);
            }
            return Err(e);
        },
    };
    let release_json = match value_to_json(released) {
        Ok(j) => j,
        Err(e) => {
            return Err(e);
        },
    };
    let ghost dv = data_vp.deep_view()->Array_0;
    let mut releases: Vec<JSONRelease> = Vec::new();
    let mut column: usize = 0;
    while column < nc
        invariant
            column <= nc,
            nc == dv.num_columns->0,
            dv == data_vp.deep_view()->Array_0,
            data_array(propsv) == Some(dv),
            propsv == node_properties.deep_view(),
            d.deep_view() == dv,
            dv.num_records == Some(num_records),
            dv.lower is Some && dv.lower->0.len() >= nc && lower.deep_view() == dv.lower->0,
            dv.upper is Some && dv.upper->0.len() >= nc && upper.deep_view() == dv.upper->0,
            lower@.len() == dv.lower->0.len(),
            upper@.len() == dv.upper->0.len(),
            usages@.len() == nc,
            forall|i: int| 0 <= i < nc ==> usages@[i] == usage_at(privacy_usage.deep_view(), i),
            !(released is Indexmap),
            releases.deep_view().len() == column,
            forall|i: int| 0 <= i < column ==> {
                let rel = #[trigger] releases.deep_view()[i];
                &&& rel.statistic == "DPMean"@
                &&& rel.description == "DP release information"@
                &&& rel.node_id == node_id
                &&& rel.submission == submission
                &&& rel.postprocess == false
                &&& rel.accuracy is None
                &&& rel.privacy_loss == usage_to_json_v(usage_at(privacy_usage.deep_view(), i))
                &&& rel.algorithm_info.mechanism == implementation@
                &&& rel.algorithm_info.argument == dp_mean_argument(
                    num_records,
                    dv.lower->0[i],
                    dv.upper->0[i],
                )
            },
        decreases nc - column,
    {
        let release_info = crate::json::clone_json(&release_json);
        let mut constraint: Vec<(String, JsonValue)> = Vec::new();
        constraint.push((String::from_str("lowerbound"), JsonValue::Int(lower[column])));
        constraint.push((String::from_str("upperbound"), JsonValue::Int(upper[column])));
        let ghost cv = constraint@;
        let mut argument: Vec<(String, JsonValue)> = Vec::new();
        argument.push((String::from_str("n"), JsonValue::Int(num_records)));
        argument.push((String::from_str("constraint"), JsonValue::Obj(constraint)));
        let ghost av = argument@;
        let argument_json = JsonValue::Obj(argument);
        proof {
            lemma_json_obj_dv(cv);
            lemma_json_obj_dv(av);
            assert(json_obj_dv(cv)[0] == (cv[0].0@, cv[0].1.deep_view()));
            assert(json_obj_dv(cv)[1] == (cv[1].0@, cv[1].1.deep_view()));
            assert(json_obj_dv(av)[0] == (av[0].0@, av[0].1.deep_view()));
            assert(json_obj_dv(av)[1] == (av[1].0@, av[1].1.deep_view()));
            assert(lower.deep_view()[column as int] == lower@[column as int]);
            assert(upper.deep_view()[column as int] == upper@[column as int]);
            assert(json_obj_dv(cv) =~~= dp_mean_argument(
                num_records,
                dv.lower->0[column as int],
                dv.upper->0[column as int],
            )->Obj_0[1].1->Obj_0);
            assert(json_obj_dv(av)[1].1 == JsonValueV::Obj(json_obj_dv(cv)));
            assert(json_obj_dv(av) =~~= dp_mean_argument(
                num_records,
                dv.lower->0[column as int],
                dv.upper->0[column as int],
            )->Obj_0);
            assert(argument_json.deep_view() =~~= dp_mean_argument(
                num_records,
                dv.lower->0[column as int],
                dv.upper->0[column as int],
            ));
        }
        let entry = JSONRelease {
            description: String::from_str("DP release information"),
            statistic: String::from_str("DPMean"),
            variables: JsonValue::Arr(Vec::new()),
            release_info,
            privacy_loss: privacy_usage_to_json(&usages[column]),
            accuracy: None,
            submission,
            node_id,
            postprocess: false,
            algorithm_info: AlgorithmInfo {
                name: String::new(),
                cite: String::new(),
                mechanism: implementation.clone(),
                argument: argument_json,
            },
        };
        let ghost old_rdv = releases.deep_view();
        releases.push(entry);
        proof {
            assert(releases@[column as int] == entry);
            assert(releases.deep_view()[column as int] == entry.deep_view());
            assert(entry.deep_view().statistic == "DPMean"@);
            assert(entry.deep_view().description == "DP release information"@);
            assert(entry.deep_view().privacy_loss == usage_to_json_v(
                usage_at(privacy_usage.deep_view(), column as int),
            ));
            assert(entry.deep_view().algorithm_info.mechanism == implementation@);
            assert(entry.deep_view().accuracy is None);
            assert(entry.deep_view().node_id == node_id);
            assert(entry.deep_view().submission == submission);
            assert(entry.deep_view().postprocess == false);
            assert(entry.deep_view().algorithm_info.argument == dp_mean_argument(
                num_records,
                dv.lower->0[column as int],
                dv.upper->0[column as int],
            ));
            assert forall|i: int| 0 <= i < column + 1 implies {
                let rel = #[trigger] releases.deep_view()[i];
                &&& rel.statistic == "DPMean"@
                &&& rel.description == "DP release information"@
                &&& rel.node_id == node_id
                &&& rel.submission == submission
                &&& rel.postprocess == false
                &&& rel.accuracy is None
                &&& rel.privacy_loss == usage_to_json_v(usage_at(privacy_usage.deep_view(), i))
                &&& rel.algorithm_info.mechanism == implementation@
                &&& rel.algorithm_info.argument == dp_mean_argument(
                    num_records,
                    dv.lower->0[i],
                    dv.upper->0[i],
                )
            } by {
                if i < column {
                    assert(releases.deep_view()[i] == releases@[i].deep_view());
                    assert(releases.deep_view()[i] == old_rdv[i]);
                } else {
                    assert(releases.deep_view()[i] == entry.deep_view());
                }
            }
        }
        column = column + 1;
    }
    Ok(Some(releases))
}

} // verus!
