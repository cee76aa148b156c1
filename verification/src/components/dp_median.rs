//! The `DpMedian` composite: a `DpQuantile` at the middle quantile.

use vstd::prelude::*;
use crate::base::{PrivacyUsage, Value};
use crate::component::{
    clone_arguments, clone_usages, Component, ComponentExpansion, ComponentV, Variant, VariantV,
};
use crate::components::impute::data_array;
use crate::errors::{Error, ErrorKind};
use crate::json::{
    get_ith_column, json_obj_dv, lemma_json_obj_dv, privacy_usage_to_json, usage_to_json_v,
    AlgorithmInfo, JsonValue, JsonValueV, JSONRelease,
};
use crate::maps::IdMap;
use crate::privacy::usage_at;
use crate::props::ValueProperties;

verus! {

/// The fixed-point value of one half: the median's quantile.
pub const ALPHA_MEDIAN: i64 = 500_000_000;

/// The node `DpMedian` rewrites itself into, in place: a `DpQuantile`
/// at one half, forwarding interpolation, privacy usage and mechanism.
pub open spec fn dp_median_rewrite(c: ComponentV, mv: VariantV) -> ComponentV
    recommends
        mv is DpMedian,
{
    ComponentV {
        arguments: c.arguments,
        variant: VariantV::DpQuantile {
            alpha: ALPHA_MEDIAN,
            interpolation: mv->DpMedian_interpolation,
            privacy_usage: mv->DpMedian_privacy_usage,
            mechanism: mv->DpMedian_mechanism,
        },
        omit: true,
        submission: c.submission,
    }
}

/// Expands a `DpMedian` node by rewriting it in place and queueing it
/// to be visited again.
pub fn expand_dp_median(
    interpolation: &String,
    privacy_usage: &Vec<PrivacyUsage>,
    mechanism: &String,
    component: &Component,
    component_id: u32,
) -> (r: Result<ComponentExpansion, Error>)
    requires
        component.deep_view().variant == (VariantV::DpMedian {
            interpolation: interpolation@,
            privacy_usage: privacy_usage.deep_view(),
            mechanism: mechanism@,
        }),
    ensures
        match r {
            Ok(x) => {
                &&& x.computation_graph.wf()
                &&& x.computation_graph.deep_view() == seq![
                    (
                        component_id,
                        dp_median_rewrite(
                            component.deep_view(),
                            component.deep_view().variant,
                        ),
                    ),
                ]
                &&& x.properties.deep_view().len() == 0
                &&& x.releases.deep_view().len() == 0
                &&& x.traversal@ == seq![component_id]
                &&& x.warnings@.len() == 0
            },
            Err(e) => false,
        },
{
    let rewritten = Component {
        arguments: clone_arguments(&component.arguments),
        variant: Variant::DpQuantile {
            alpha: ALPHA_MEDIAN,
            interpolation: interpolation.clone(),
            privacy_usage: clone_usages(privacy_usage),
            mechanism: mechanism.clone(),
        },
        omit: true,
        submission: component.submission,
    };
    let mut computation_graph: IdMap<Component> = IdMap::new();
    computation_graph.insert(component_id, rewritten);
    let mut traversal: Vec<u32> = Vec::new();
    traversal.push(component_id);
    let expansion = ComponentExpansion {
        computation_graph,
        properties: IdMap::new(),
        releases: IdMap::new(),
        traversal,
        warnings: Vec::new(),
    };
    proof {
        assert(expansion.computation_graph.deep_view() =~~= seq![
            (component_id, dp_median_rewrite(component.deep_view(), component.deep_view().variant)),
        ]);
        assert(expansion.traversal@ =~= seq![component_id]);
    }
    Ok(expansion)
}


/// When a `DpMedian` node can be summarised: the data argument is an
/// array of known shape and bounds, the declared usage broadcasts over
/// the columns, and the released value is a numeric array wide enough
/// for every column.
pub open spec fn dp_median_summary_ok(
    props: Seq<(Seq<char>, <ValueProperties as DeepView>::V)>,
    usages: Seq<PrivacyUsage>,
    released: Value,
) -> bool {
    match data_array(props) {
        Some(d) => {
            &&& d.num_columns is Some
            &&& d.num_columns->0 >= 0
            &&& d.num_columns->0 <= usize::MAX
            &&& d.lower is Some
            &&& d.lower->0.len() >= d.num_columns->0
            &&& d.upper is Some
            &&& d.upper->0.len() >= d.num_columns->0
            &&& (usages.len() == 1 || usages.len() == d.num_columns->0)
            &&& (match released.deep_view() {
                crate::base::ValueV::Array(a) => match a {
                    crate::base::ArrayValueV::Int(rows) => forall|i: int|
                        0 <= i < rows.len() ==> (#[trigger] rows[i]).len() >= d.num_columns->0,
                    crate::base::ArrayValueV::Float(rows) => forall|i: int|
                        0 <= i < rows.len() ==> (#[trigger] rows[i]).len() >= d.num_columns->0,
                    _ => false,
                },
                _ => false,
            })
        },
        None => false,
    }
}

/// The name reported for one column: the given name when there is
/// one, else the unknown-column placeholder.
pub open spec fn name_at(names: Option<Seq<Seq<char>>>, i: int) -> Seq<char> {
    match names {
        Some(ns) => if 0 <= i < ns.len() {
            ns[i]
        } else {
            "[Unknown]"@
        },
        None => "[Unknown]"@,
    }
}

/// The numeric rows of a released value, when it has them.
pub open spec fn released_rows(v: crate::base::ValueV) -> Seq<Seq<i64>> {
    match v {
        crate::base::ValueV::Array(a) => match a {
            crate::base::ArrayValueV::Int(rows) => rows,
            crate::base::ArrayValueV::Float(rows) => rows,
            _ => Seq::empty(),
        },
        _ => Seq::empty(),
    }
}

/// The JSON cells of one column of a numeric block.
pub open spec fn column_json(rows: Seq<Seq<i64>>, i: int) -> Seq<JsonValueV> {
    Seq::new(rows.len(), |r: int| JsonValueV::Int(rows[r][i]))
}

/// The per-column algorithm argument of a `DpMedian` summary: the
/// column\'s clamping bounds.
pub open spec fn dp_median_argument(lower: i64, upper: i64) -> JsonValueV {
    JsonValueV::Obj(
        seq![
            (
                "constraint"@,
                JsonValueV::Obj(
                    seq![
                        ("lowerbound"@, JsonValueV::Int(lower)),
                        ("upperbound"@, JsonValueV::Int(upper)),
                    ],
                ),
            ),
        ],
    )
}


/// Summarises a released `DpMedian`: one entry per column, carrying
/// the column\'s released values, its privacy loss and the bounds the
/// median was computed under.
pub fn summarize_dp_median(
    privacy_usage: &Vec<PrivacyUsage>,
    mechanism: &String,
    node_id: u32,
    submission: u32,
    node_properties: &Vec<(String, ValueProperties)>,
    released: &Value,
    variable_names: Option<&Vec<String>>,
) -> (r: Result<Option<Vec<JSONRelease>>, Error>)
    ensures
        match r {
            Ok(out) => {
                &&& out is Some
                &&& dp_median_summary_ok(
                    node_properties.deep_view(),
                    privacy_usage.deep_view(),
                    *released,
                )
                &&& {
                    let d = data_array(node_properties.deep_view())->0;
                    let rs = out->0.deep_view();
                    &&& rs.len() == d.num_columns->0
                    &&& forall|i: int| 0 <= i < rs.len() ==> {
                        let rel = #[trigger] rs[i];
                        &&& rel.statistic == "DPMedian"@
                        &&& rel.description == "DP release information"@
                        &&& rel.node_id == node_id
                        &&& rel.submission == submission
                        &&& rel.postprocess == false
                        &&& rel.accuracy is None
                        &&& rel.variables == JsonValueV::Str(
                            name_at(variable_names.deep_view(), i),
                        )
                        &&& rel.release_info == JsonValueV::Arr(
                            column_json(released_rows(released.deep_view()), i),
                        )
                        &&& rel.privacy_loss == usage_to_json_v(
                            usage_at(privacy_usage.deep_view(), i),
                        )
                        &&& rel.algorithm_info.mechanism == mechanism@
                        &&& rel.algorithm_info.argument == dp_median_argument(
                            d.lower->0[i],
                            d.upper->0[i],
                        )
                    }
                }
            },
            Err(e) => {
                &&& !dp_median_summary_ok(
                    node_properties.deep_view(),
                    privacy_usage.deep_view(),
                    *released,
                )
                &&& (e.kind is Arity ==> !(privacy_usage.deep_view().len() == 1
                    || privacy_usage.deep_view().len() == data_array(
                    node_properties.deep_view(),
                )->0.num_columns->0))
            },
        },
{
    let ghost propsv = node_properties.deep_view();
    let data_vp = match crate::maps::str_get(node_properties, &String::from_str("data")) {
        Some(p) => p,
        None => {
            return Err(Error::new(ErrorKind::Missing(String::from_str("data"))));
        },
    };
    let d = match data_vp.array() {
        Ok(d) => d,
        Err(e) => {
            return Err(e.at_argument(String::from_str("data")));
        },
    };
    let num_columns = match d.num_columns_checked() {
        Ok(n) => n,
        Err(e) => {
            return Err(e.at_argument(String::from_str("data")));
        },
    };
    if num_columns < 0 || num_columns as u64 > usize::MAX as u64 {
        return Err(
            Error::new(ErrorKind::InvariantViolation(String::from_str("bad column count"))),
        );
    }
    let lower = match &d.lower {
        Some(l) => l,
        None => {
            return Err(Error::new(ErrorKind::Missing(String::from_str("lower"))));
        },
    };
    let upper = match &d.upper {
        Some(u) => u,
        None => {
            return Err(Error::new(ErrorKind::Missing(String::from_str("upper"))));
        },
    };
    let nc = num_columns as usize;
    if lower.len() < nc || upper.len() < nc {
        return Err(Error::new(ErrorKind::Missing(String::from_str("bounds"))));
    }
    let usages = match crate::privacy::broadcast_privacy_usage(privacy_usage, nc) {
        Ok(us) => us,
        Err(e) => {
            proof {
                assert(privacy_usage.deep_view() =~= privacy_usage@);
                assert(data_array(propsv) is Some);
                assert(data_array(propsv)->0 == data_vp.deep_view()->Array_0);
                assert(data_array(propsv)->0.num_columns == Some(num_columns));
                assert(nc as int == num_columns as int);
            }
            return Err(e);
        },
    };
    let rows: &Vec<Vec<i64>> = match released {
        Value::Array(a) => match a {
            crate::base::ArrayValue::Int(rows) => rows,
            crate::base::ArrayValue::Float(rows) => rows,
            _ => {
                return Err(
                    Error::new(
                        ErrorKind::TypeMismatch(
                            String::from_str("numeric array"),
                            String::from_str("other"),
                        ),
                    ),
                );
            },
        },
        _ => {
            return Err(
                Error::new(
                    ErrorKind::TypeMismatch(
                        String::from_str("numeric array"),
                        String::from_str("other"),
                    ),
                ),
            );
        },
    };
    let ghost dv = data_vp.deep_view()->Array_0;
    let mut releases: Vec<JSONRelease> = Vec::new();
    let mut column: usize = 0;
    while column < nc
        invariant
            column <= nc,
            nc == dv.num_columns->0,
            dv == data_vp.deep_view()->Array_0,
            data_array(propsv) == Some(dv),
            propsv == node_properties.deep_view(),
            d.deep_view() == dv,
            dv.lower is Some && dv.lower->0.len() >= nc && lower.deep_view() == dv.lower->0,
            dv.upper is Some && dv.upper->0.len() >= nc && upper.deep_view() == dv.upper->0,
            lower@.len() == dv.lower->0.len(),
            upper@.len() == dv.upper->0.len(),
            usages@.len() == nc,
            forall|i: int| 0 <= i < nc ==> usages@[i] == usage_at(privacy_usage.deep_view(), i),
            (match released.deep_view() {
                crate::base::ValueV::Array(a) => match a {
                    crate::base::ArrayValueV::Int(rws) => rws == rows.deep_view(),
                    crate::base::ArrayValueV::Float(rws) => rws == rows.deep_view(),
                    _ => false,
                },
                _ => false,
            }),
            forall|i: int| 0 <= i < rows.deep_view().len() ==> (#[trigger] rows.deep_view()[i]).len()
                >= column,
            releases.deep_view().len() == column,
            forall|i: int| 0 <= i < column ==> {
                let rel = #[trigger] releases.deep_view()[i];
                &&& rel.statistic == "DPMedian"@
                &&& rel.description == "DP release information"@
                &&& rel.node_id == node_id
                &&& rel.submission == submission
                &&& rel.postprocess == false
                &&& rel.accuracy is None
                &&& rel.variables == JsonValueV::Str(name_at(variable_names.deep_view(), i))
                &&& rel.release_info == JsonValueV::Arr(
                    column_json(released_rows(released.deep_view()), i),
                )
                &&& rel.privacy_loss == usage_to_json_v(usage_at(privacy_usage.deep_view(), i))
                &&& rel.algorithm_info.mechanism == mechanism@
                &&& rel.algorithm_info.argument == dp_median_argument(
                    dv.lower->0[i],
                    dv.upper->0[i],
                )
            },
        decreases nc - column,
    {
        let variable_name = match variable_names {
            Some(names) => {
                if column < names.len() {
                    proof {
                        assert(names.deep_view()[column as int] == names@[column as int]@);
                    }
                    names[column].clone()
                } else {
                    String::from_str("[Unknown]")
                }
            },
            None => String::from_str("[Unknown]"),
        };
        proof {
            assert(variable_name@ == name_at(variable_names.deep_view(), column as int));
        }
        let col_values = match get_ith_column(rows, column) {
            Ok(c) => c,
            Err(e) => {
                return Err(e);
            },
        };
        let mut cells: Vec<JsonValue> = Vec::new();
        let mut j: usize = 0;
        while j < col_values.len()
            invariant
                j <= col_values@.len(),
                cells@.len() == j,
                forall|l: int| 0 <= l < j ==> #[trigger] cells@[l] == JsonValue::Int(
                    col_values@[l],
                ),
            decreases col_values@.len() - j,
        {
            cells.push(JsonValue::Int(col_values[j]));
            j = j + 1;
        }
        let ghost cellsv = cells@;
        let release_info = JsonValue::Arr(cells);
        proof {
            crate::json::lemma_json_seq_dv(cellsv);
            assert(rows.deep_view() == released_rows(released.deep_view()));
            assert forall|l: int| 0 <= l < cellsv.len() implies crate::json::json_seq_dv(cellsv)[l]
                == JsonValueV::Int(
                released_rows(released.deep_view())[l][column as int],
            ) by {
                assert(cellsv[l] == JsonValue::Int(col_values@[l]));
                assert(crate::json::json_seq_dv(cellsv)[l] == cellsv[l].deep_view());
                assert(col_values.deep_view()[l] == col_values@[l]);
                assert(col_values.deep_view()[l] == rows.deep_view()[l][column as int]);
            }
            assert(crate::json::json_seq_dv(cellsv) =~= column_json(
                released_rows(released.deep_view()),
                column as int,
            ));
            assert(release_info.deep_view() == JsonValueV::Arr(
                column_json(released_rows(released.deep_view()), column as int),
            ));
        }
        let mut constraint: Vec<(String, JsonValue)> = Vec::new();
        constraint.push((String::from_str("lowerbound"), JsonValue::Int(lower[column])));
        constraint.push((String::from_str("upperbound"), JsonValue::Int(upper[column])));
        let ghost cv = constraint@;
        let mut argument: Vec<(String, JsonValue)> = Vec::new();
        argument.push((String::from_str("constraint"), JsonValue::Obj(constraint)));
        let ghost av = argument@;
        let argument_json = JsonValue::Obj(argument);
        proof {
            lemma_json_obj_dv(cv);
            lemma_json_obj_dv(av);
            assert(json_obj_dv(cv)[0] == (cv[0].0@, cv[0].1.deep_view()));
            assert(json_obj_dv(cv)[1] == (cv[1].0@, cv[1].1.deep_view()));
            assert(json_obj_dv(av)[0] == (av[0].0@, av[0].1.deep_view()));
            assert(lower.deep_view()[column as int] == lower@[column as int]);
            assert(upper.deep_view()[column as int] == upper@[column as int]);
            assert(json_obj_dv(cv) =~~= dp_median_argument(
                dv.lower->0[column as int],
                dv.upper->0[column as int],
            )->Obj_0[0].1->Obj_0);
            assert(json_obj_dv(av)[0].1 == JsonValueV::Obj(json_obj_dv(cv)));
            assert(json_obj_dv(av) =~~= dp_median_argument(
                dv.lower->0[column as int],
                dv.upper->0[column as int],
            )->Obj_0);
            assert(argument_json.deep_view() =~~= dp_median_argument(
                dv.lower->0[column as int],
                dv.upper->0[column as int],
            ));
        }
        let entry = JSONRelease {
            description: String::from_str("DP release information"),
            statistic: String::from_str("DPMedian"),
            variables: JsonValue::Str(variable_name),
            release_info,
            privacy_loss: privacy_usage_to_json(&usages[column]),
            accuracy: None,
            submission,
            node_id,
            postprocess: false,
            algorithm_info: AlgorithmInfo {
                name: String::new(),
                cite: String::new(),
                mechanism: mechanism.clone(),
                argument: argument_json,
            },
        };
        let ghost old_rdv = releases.deep_view();
        releases.push(entry);
        proof {
            assert(releases@[column as int] == entry);
            assert(releases.deep_view()[column as int] == entry.deep_view());
            assert forall|i: int| 0 <= i < column + 1 implies {
                let rel = #[trigger] releases.deep_view()[i];
                &&& rel.statistic == "DPMedian"@
                &&& rel.description == "DP release information"@
                &&& rel.node_id == node_id
                &&& rel.submission == submission
                &&& rel.postprocess == false
                &&& rel.accuracy is None
                &&& rel.variables == JsonValueV::Str(name_at(variable_names.deep_view(), i))
                &&& rel.release_info == JsonValueV::Arr(
                    column_json(released_rows(released.deep_view()), i),
                )
                &&& rel.privacy_loss == usage_to_json_v(usage_at(privacy_usage.deep_view(), i))
                &&& rel.algorithm_info.mechanism == mechanism@
                &&& rel.algorithm_info.argument == dp_median_argument(
                    dv.lower->0[i],
                    dv.upper->0[i],
                )
            } by {
                if i < column {
                    assert(releases.deep_view()[i] == releases@[i].deep_view());
                    assert(releases.deep_view()[i] == old_rdv[i]);
                } else {
                    assert(releases.deep_view()[i] == entry.deep_view());
                    assert(entry.deep_view().statistic == "DPMedian"@);
                    assert(entry.deep_view().description == "DP release information"@);
                    assert(entry.deep_view().variables == JsonValueV::Str(
                        name_at(variable_names.deep_view(), column as int),
                    ));
                    assert(entry.deep_view().release_info == JsonValueV::Arr(
                        column_json(released_rows(released.deep_view()), column as int),
                    ));
                    assert(entry.deep_view().privacy_loss == usage_to_json_v(
                        usage_at(privacy_usage.deep_view(), column as int),
                    ));
                    assert(entry.deep_view().algorithm_info.mechanism == mechanism@);
                }
            }
        }
        column = column + 1;
    }
    proof {
        if releases.deep_view().len() != nc {
            assert(false);
        }
    }
    Ok(Some(releases))
}

} // verus!
