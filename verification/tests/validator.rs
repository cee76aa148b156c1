use dp_validator::base::{
    Accuracies, ArrayValue, DistanceApproximate, Jagged, Neighboring, PrivacyDefinition,
    PrivacyUsage, Value,
};
use dp_validator::component::{
    Analysis, Component, ReleaseNode, RequestExpandComponent, Variant,
};
use dp_validator::components::dp_mean::summarize_dp_mean;
use dp_validator::components::dp_median::summarize_dp_median;
use dp_validator::components::partition::{even_split_lengths, propagate_partition};
use dp_validator::errors::ErrorKind;
use dp_validator::json::{json_to_string, JsonValue};
use dp_validator::maps::IdMap;
use dp_validator::privacy::broadcast_privacy_usage;
use dp_validator::props::{ArrayProperties, ValueProperties};
use dp_validator::{
    accuracy_to_privacy_usage, compute_privacy_usage, expand_component, generate_report,
    get_properties, privacy_usage_to_accuracy, validate_analysis, Warnable,
};

fn vec_eq(left: &Vec<i64>, right: &Vec<i64>) -> bool {
    (left.len() == right.len()) && left.iter().zip(right).all(|(a, b)| a == b)
}

fn usage(epsilon: i64, delta: i64) -> PrivacyUsage {
    PrivacyUsage {
        distance: Some(DistanceApproximate { epsilon, delta }),
    }
}

fn definition() -> PrivacyDefinition {
    PrivacyDefinition {
        group_size: 1,
        neighboring: Neighboring::Substitute,
        budget: None,
        strict_budget: false,
    }
}

fn array_props(
    num_records: Option<i64>,
    num_columns: Option<i64>,
    lower: Option<Vec<i64>>,
    upper: Option<Vec<i64>>,
) -> ArrayProperties {
    ArrayProperties {
        num_records,
        num_columns,
        nullity: false,
        releasable: false,
        lower,
        upper,
        categories: None,
        data_type: dp_validator::base::DataType::Float,
        dataset_id: None,
        group_id: Vec::new(),
        is_public: false,
    }
}

fn literal_release(rows: Vec<Vec<i64>>) -> ReleaseNode {
    ReleaseNode {
        value: Value::Array(ArrayValue::Float(rows)),
        privacy_usages: None,
        public: true,
    }
}

fn laplace(data: u32, usages: Vec<PrivacyUsage>) -> Component {
    Component {
        arguments: vec![(String::from("data"), data)],
        variant: Variant::LaplaceMechanism {
            privacy_usage: usages,
        },
        omit: false,
        submission: 0,
    }
}

fn literal() -> Component {
    Component {
        arguments: Vec::new(),
        variant: Variant::Literal,
        omit: false,
        submission: 0,
    }
}

#[test]
fn test_units() {
    assert!(vec_eq(&even_split_lengths(4, 3), &vec![2, 1, 1]));
    assert!(vec_eq(&even_split_lengths(5, 3), &vec![2, 2, 1]));
    assert!(vec_eq(&even_split_lengths(3, 3), &vec![1, 1, 1]));
    assert!(vec_eq(&even_split_lengths(2, 3), &vec![1, 1, 0]));
    assert!(vec_eq(&even_split_lengths(2, 0), &vec![]));
}

#[test]
fn broadcast_round_trips() {
    let one = vec![usage(1_000_000_000, 0)];
    let out = broadcast_privacy_usage(&one, 4).unwrap();
    assert_eq!(out.len(), 4);
    for u in &out {
        assert_eq!(u.distance.unwrap().epsilon, 1_000_000_000);
    }

    let three = vec![usage(1, 1), usage(2, 2), usage(3, 3)];
    let out = broadcast_privacy_usage(&three, 3).unwrap();
    assert_eq!(out.len(), 3);
    assert_eq!(out[2].distance.unwrap().delta, 3);

    let err = broadcast_privacy_usage(&three, 2).unwrap_err();
    assert!(matches!(err.kind, ErrorKind::Arity));
}

#[test]
fn usage_arithmetic() {
    // epsilon 2 + 3 = 5; delta 1e-6 + 2e-6 = 3e-6, all in billionths
    let a = usage(2_000_000_000, 1_000);
    let b = usage(3_000_000_000, 2_000);
    let sum = a.add(b).unwrap();
    assert_eq!(sum.distance.unwrap().epsilon, 5_000_000_000);
    assert_eq!(sum.distance.unwrap().delta, 3_000);

    let half = sum.div(2).unwrap();
    assert_eq!(half.distance.unwrap().epsilon, 2_500_000_000);
    assert_eq!(half.distance.unwrap().delta, 1_500);

    let twice = usage(1_000, 1).mul(2).unwrap();
    assert_eq!(twice.distance.unwrap().epsilon, 2_000);

    let undefined = PrivacyUsage { distance: None };
    let err = undefined.add(usage(1, 1)).unwrap_err();
    assert!(matches!(err.kind, ErrorKind::UsageUndefined));

    let err = usage(1, 1).mul(-2).unwrap_err();
    assert!(matches!(err.kind, ErrorKind::InvariantViolation(_)));
}

#[test]
fn empty_graph_zero_usage_empty_report() {
    let analysis = Analysis {
        computation_graph: IdMap { entries: Vec::new() },
        privacy_definition: Some(definition()),
    };
    let release = IdMap { entries: Vec::new() };
    let total = compute_privacy_usage(analysis, release).unwrap();
    assert_eq!(total.distance.unwrap().epsilon, 0);
    assert_eq!(total.distance.unwrap().delta, 0);

    let analysis = Analysis {
        computation_graph: IdMap { entries: Vec::new() },
        privacy_definition: Some(definition()),
    };
    let release = IdMap { entries: Vec::new() };
    let report = generate_report(analysis, release).unwrap();
    assert_eq!(report, "[]");
}

#[test]
fn single_mechanism_declares_total() {
    let analysis = Analysis {
        computation_graph: IdMap {
            entries: vec![(0, literal()), (1, laplace(0, vec![usage(1_500_000_000, 1_000)]))],
        },
        privacy_definition: Some(definition()),
    };
    let release = IdMap {
        entries: vec![(0, literal_release(vec![vec![1_000_000_000], vec![2_000_000_000]]))],
    };
    let total = compute_privacy_usage(analysis, release).unwrap();
    assert_eq!(total.distance.unwrap().epsilon, 1_500_000_000);
    assert_eq!(total.distance.unwrap().delta, 1_000);
}

#[test]
fn two_mechanisms_sum_and_budget() {
    // Laplace usages of one and two compose to three
    let graph = vec![
        (0, literal()),
        (1, laplace(0, vec![usage(1_000_000_000, 0)])),
        (2, laplace(0, vec![usage(2_000_000_000, 0)])),
    ];
    let release = vec![(0, literal_release(vec![vec![5_000_000_000]]))];

    let analysis = Analysis {
        computation_graph: IdMap { entries: graph.clone() },
        privacy_definition: Some(definition()),
    };
    let total =
        compute_privacy_usage(analysis, IdMap { entries: release.clone() }).unwrap();
    assert_eq!(total.distance.unwrap().epsilon, 3_000_000_000);
    assert_eq!(total.distance.unwrap().delta, 0);

    // with a strict budget of two, the same graph is refused
    let strict = PrivacyDefinition {
        group_size: 1,
        neighboring: Neighboring::Substitute,
        budget: Some(usage(2_000_000_000, 0)),
        strict_budget: true,
    };
    let analysis = Analysis {
        computation_graph: IdMap { entries: graph },
        privacy_definition: Some(strict),
    };
    let err = compute_privacy_usage(analysis, IdMap { entries: release }).unwrap_err();
    assert!(matches!(err.kind, ErrorKind::BudgetExceeded));
}

#[test]
fn cycle_detected() {
    let a = Component {
        arguments: vec![(String::from("data"), 2)],
        variant: Variant::Mean,
        omit: false,
        submission: 0,
    };
    let b = Component {
        arguments: vec![(String::from("data"), 1)],
        variant: Variant::Mean,
        omit: false,
        submission: 0,
    };
    let analysis = Analysis {
        computation_graph: IdMap { entries: vec![(1, a), (2, b)] },
        privacy_definition: Some(definition()),
    };
    let err = validate_analysis(analysis, IdMap { entries: Vec::new() }).unwrap_err();
    assert!(matches!(err.kind, ErrorKind::CycleDetected(_)));
}

#[test]
fn dp_mean_expansion() {
    let component = Component {
        arguments: vec![(String::from("data"), 3)],
        variant: Variant::DpMean {
            implementation: String::from("plain"),
            privacy_usage: vec![usage(1_000_000_000, 0)],
        },
        omit: false,
        submission: 0,
    };
    let request = RequestExpandComponent {
        component: Some(component),
        properties: Vec::new(),
        arguments: Vec::new(),
        privacy_definition: Some(definition()),
        component_id: 7,
        maximum_id: 10,
    };
    let expansion = expand_component(request).unwrap();
    assert_eq!(expansion.traversal, vec![11]);
    assert_eq!(expansion.computation_graph.entries.len(), 2);

    let (mean_id, mean) = &expansion.computation_graph.entries[0];
    assert_eq!(*mean_id, 11);
    assert!(matches!(mean.variant, Variant::Mean));
    assert!(mean.omit);
    assert_eq!(mean.arguments[0], (String::from("data"), 3));

    let (noise_id, noise) = &expansion.computation_graph.entries[1];
    assert_eq!(*noise_id, 7);
    assert!(!noise.omit);
    match &noise.variant {
        Variant::LaplaceMechanism { privacy_usage } => {
            assert_eq!(privacy_usage[0].distance.unwrap().epsilon, 1_000_000_000);
            assert_eq!(privacy_usage[0].distance.unwrap().delta, 0);
        }
        _ => panic!("the rewritten node must be a Laplace mechanism"),
    }
    assert_eq!(noise.arguments[0], (String::from("data"), 11));
}

#[test]
fn dp_median_rewrites_in_place() {
    let component = Component {
        arguments: vec![(String::from("data"), 2)],
        variant: Variant::DpMedian {
            interpolation: String::from("linear"),
            privacy_usage: vec![usage(1_000_000_000, 0)],
            mechanism: String::from("Laplace"),
        },
        omit: false,
        submission: 0,
    };
    let request = RequestExpandComponent {
        component: Some(component),
        properties: Vec::new(),
        arguments: Vec::new(),
        privacy_definition: Some(definition()),
        component_id: 5,
        maximum_id: 9,
    };
    let expansion = expand_component(request).unwrap();
    assert_eq!(expansion.traversal, vec![5]);
    assert_eq!(expansion.computation_graph.entries.len(), 1);
    let (id, rewritten) = &expansion.computation_graph.entries[0];
    assert_eq!(*id, 5);
    assert!(rewritten.omit);
    match &rewritten.variant {
        Variant::DpQuantile { alpha, interpolation, privacy_usage, mechanism } => {
            assert_eq!(*alpha, 500_000_000);
            assert_eq!(interpolation, "linear");
            assert_eq!(privacy_usage[0].distance.unwrap().epsilon, 1_000_000_000);
            assert_eq!(mechanism, "Laplace");
        }
        _ => panic!("the node must be rewritten to a DpQuantile"),
    }
}

#[test]
fn partition_by_bool_categories() {
    let parent = array_props(
        Some(100),
        Some(3),
        Some(vec![0, 0, 0]),
        Some(vec![1_000_000_000, 1_000_000_000, 1_000_000_000]),
    );
    let by = ArrayProperties {
        categories: Some(Jagged::Bool(vec![vec![false, true]])),
        ..array_props(Some(100), Some(1), None, None)
    };
    let node_properties = vec![
        (String::from("data"), ValueProperties::Array(parent)),
        (String::from("by"), ValueProperties::Array(by)),
    ];
    let Warnable(out, warnings) =
        propagate_partition(&Vec::new(), &node_properties, 4).unwrap();
    assert!(warnings.is_empty());
    let map = match out {
        ValueProperties::Indexmap(m) => m,
        _ => panic!("partitioning must produce an index map"),
    };
    assert!(map.disjoint);
    assert_eq!(map.num_records, None);
    assert_eq!(map.dataset_id, Some(4));
    assert_eq!(map.children.len(), 2);
    match &map.children[0].0 {
        dp_validator::base::IndexKey::Bool(b) => assert!(!*b),
        _ => panic!("the first part must be keyed false"),
    }
    match &map.children[1].0 {
        dp_validator::base::IndexKey::Bool(b) => assert!(*b),
        _ => panic!("the second part must be keyed true"),
    }
    for (_, child) in &map.children {
        assert_eq!(child.num_columns, Some(3));
        assert_eq!(child.num_records, None);
        assert_eq!(child.lower, Some(vec![0, 0, 0]));
        assert_eq!(
            child.upper,
            Some(vec![1_000_000_000, 1_000_000_000, 1_000_000_000])
        );
        assert_eq!(child.group_id.len(), 1);
        assert_eq!(child.group_id[0].partition_id, 4);
        assert_eq!(child.group_id[0].index, None);
    }
}

#[test]
fn partition_refuses_float_categories() {
    let parent = array_props(Some(10), Some(1), None, None);
    let by = ArrayProperties {
        categories: Some(Jagged::Float(vec![vec![500_000_000]])),
        ..array_props(Some(10), Some(1), None, None)
    };
    let node_properties = vec![
        (String::from("data"), ValueProperties::Array(parent)),
        (String::from("by"), ValueProperties::Array(by)),
    ];
    let err = match propagate_partition(&Vec::new(), &node_properties, 4) {
        Ok(_) => panic!("real-valued categories must be refused"),
        Err(e) => e,
    };
    assert!(matches!(err.kind, ErrorKind::UnsupportedCategoryType));
}

#[test]
fn partition_by_count_even_split() {
    let parent = array_props(Some(5), Some(1), None, None);
    let node_properties = vec![(String::from("data"), ValueProperties::Array(parent))];
    let public_arguments = vec![(
        String::from("num_partitions"),
        Value::Array(ArrayValue::Int(vec![vec![3]])),
    )];
    let Warnable(out, _) =
        propagate_partition(&public_arguments, &node_properties, 9).unwrap();
    let map = match out {
        ValueProperties::Indexmap(m) => m,
        _ => panic!("partitioning must produce an index map"),
    };
    assert!(!map.disjoint);
    assert_eq!(map.num_records, Some(5));
    assert_eq!(map.children.len(), 3);
    let sizes: Vec<Option<i64>> = map.children.iter().map(|(_, c)| c.num_records).collect();
    assert_eq!(sizes, vec![Some(2), Some(2), Some(1)]);
}

#[test]
fn properties_cover_expanded_graph() {
    let dp_mean = Component {
        arguments: vec![(String::from("data"), 0)],
        variant: Variant::DpMean {
            implementation: String::from("plain"),
            privacy_usage: vec![usage(1_000_000_000, 0)],
        },
        omit: false,
        submission: 0,
    };
    let analysis = Analysis {
        computation_graph: IdMap { entries: vec![(0, literal()), (7, dp_mean)] },
        privacy_definition: Some(definition()),
    };
    let release = IdMap {
        entries: vec![(0, literal_release(vec![vec![1], vec![2], vec![3]]))],
    };
    let graph_properties = get_properties(analysis, release, Vec::new()).unwrap();
    let mut ids: Vec<u32> = graph_properties.properties.entries.iter().map(|e| e.0).collect();
    ids.sort();
    // the literal, the fresh mean node, and the rewritten noising node
    assert_eq!(ids, vec![0, 7, 8]);
}

#[test]
fn propagation_is_idempotent() {
    let build = || {
        let dp_mean = Component {
            arguments: vec![(String::from("data"), 0)],
            variant: Variant::DpMean {
                implementation: String::from("plain"),
                privacy_usage: vec![usage(1_000_000_000, 0)],
            },
            omit: false,
            submission: 0,
        };
        (
            Analysis {
                computation_graph: IdMap { entries: vec![(0, literal()), (7, dp_mean)] },
                privacy_definition: Some(definition()),
            },
            IdMap { entries: vec![(0, literal_release(vec![vec![1], vec![2]]))] },
        )
    };
    let (a1, r1) = build();
    let (a2, r2) = build();
    let first = get_properties(a1, r1, Vec::new()).unwrap();
    let second = get_properties(a2, r2, Vec::new()).unwrap();
    let keys = |gp: &dp_validator::component::GraphProperties| {
        let mut ids: Vec<u32> = gp.properties.entries.iter().map(|e| e.0).collect();
        ids.sort();
        ids
    };
    assert_eq!(keys(&first), keys(&second));
    assert_eq!(first.properties.entries.len(), second.properties.entries.len());
}

#[test]
fn impute_preserves_columns_and_clears_nullity() {
    let mut data = array_props(Some(10), Some(3), Some(vec![0, 0, 0]), Some(vec![1, 1, 1]));
    data.nullity = true;
    let impute = Component {
        arguments: vec![(String::from("data"), 2)],
        variant: Variant::Impute,
        omit: false,
        submission: 0,
    };
    let request = RequestExpandComponent {
        component: Some(impute),
        properties: vec![(String::from("data"), ValueProperties::Array(data))],
        arguments: Vec::new(),
        privacy_definition: Some(definition()),
        component_id: 3,
        maximum_id: 3,
    };
    let expansion = expand_component(request).unwrap();
    assert!(expansion.traversal.is_empty());
    let (id, props) = &expansion.properties.entries[0];
    assert_eq!(*id, 3);
    match props {
        ValueProperties::Array(a) => {
            assert_eq!(a.num_columns, Some(3));
            assert!(!a.nullity);
            assert_eq!(a.num_records, Some(10));
        }
        _ => panic!("imputation must keep array properties"),
    }
}

#[test]
fn accuracy_conversions_are_not_defined() {
    let component = Component {
        arguments: vec![(String::from("data"), 0)],
        variant: Variant::DpMean {
            implementation: String::from("plain"),
            privacy_usage: vec![usage(1_000_000_000, 0)],
        },
        omit: false,
        submission: 0,
    };
    assert!(accuracy_to_privacy_usage(
        component,
        definition(),
        Vec::new(),
        Accuracies { values: Vec::new() },
    )
    .is_err());

    let component = Component {
        arguments: Vec::new(),
        variant: Variant::Mean,
        omit: false,
        submission: 0,
    };
    assert!(privacy_usage_to_accuracy(component, definition(), Vec::new(), 50_000_000)
        .is_err());
}

#[test]
fn renderer_produces_exact_json() {
    let document = JsonValue::Obj(vec![
        (String::from("name"), JsonValue::Str(String::from("x\"y"))),
        (String::from("count"), JsonValue::Int(-42)),
        (
            String::from("flags"),
            JsonValue::Arr(vec![JsonValue::Bool(true), JsonValue::Null]),
        ),
    ]);
    let text = json_to_string(&document);
    assert_eq!(text, "{\"name\":\"x\\\"y\",\"count\":-42,\"flags\":[true,null]}");
}

#[test]
fn dp_mean_summary_per_column() {
    let data = array_props(
        Some(50),
        Some(2),
        Some(vec![0, 1_000_000_000]),
        Some(vec![2_000_000_000, 3_000_000_000]),
    );
    let node_properties = vec![(String::from("data"), ValueProperties::Array(data))];
    let released = Value::Array(ArrayValue::Float(vec![vec![1_000_000_000, 2_000_000_000]]));
    let entries = summarize_dp_mean(
        &String::from("resize"),
        &vec![usage(1_000_000_000, 0)],
        7,
        0,
        &node_properties,
        &released,
    )
    .unwrap()
    .unwrap();
    assert_eq!(entries.len(), 2);
    for entry in &entries {
        assert_eq!(entry.statistic, "DPMean");
        assert_eq!(entry.node_id, 7);
        assert!(!entry.postprocess);
        assert_eq!(entry.algorithm_info.mechanism, "resize");
    }
    let rendered = json_to_string(&entries[0].algorithm_info.argument);
    assert_eq!(
        rendered,
        "{\"n\":50,\"constraint\":{\"lowerbound\":0,\"upperbound\":2000000000}}"
    );
}

#[test]
fn dp_median_summary_per_column() {
    let data = array_props(Some(9), Some(1), Some(vec![0]), Some(vec![1_000_000_000]));
    let node_properties = vec![(String::from("data"), ValueProperties::Array(data))];
    let released = Value::Array(ArrayValue::Float(vec![vec![500_000_000]]));
    let entries = summarize_dp_median(
        &vec![usage(2_000_000_000, 0)],
        &String::from("Laplace"),
        3,
        1,
        &node_properties,
        &released,
        None,
    )
    .unwrap()
    .unwrap();
    assert_eq!(entries.len(), 1);
    assert_eq!(entries[0].statistic, "DPMedian");
    assert_eq!(entries[0].submission, 1);
    match &entries[0].variables {
        JsonValue::Str(s) => assert_eq!(s, "[Unknown]"),
        _ => panic!("the variables of a median summary name one column"),
    }
    let loss = json_to_string(&entries[0].privacy_loss);
    assert_eq!(
        loss,
        "{\"name\":\"approximate\",\"epsilon\":2000000000,\"delta\":0}"
    );
}

#[test]
fn dp_mean_expansion_missing_data_is_refused() {
    let component = Component {
        arguments: Vec::new(),
        variant: Variant::DpMean {
            implementation: String::from("plain"),
            privacy_usage: vec![usage(1, 0)],
        },
        omit: false,
        submission: 0,
    };
    let request = RequestExpandComponent {
        component: Some(component),
        properties: Vec::new(),
        arguments: Vec::new(),
        privacy_definition: Some(definition()),
        component_id: 1,
        maximum_id: 1,
    };
    let err = expand_component(request).unwrap_err();
    assert!(matches!(err.kind, ErrorKind::MissingArgument(_)));
}

#[test]
fn first_int_refuses_other_types() {
    let value = ArrayValue::Bool(vec![vec![true]]);
    let err = value.first_int().unwrap_err();
    assert!(matches!(err.kind, ErrorKind::TypeMismatch(_, _)));
}

#[test]
fn fully_released_graph_validates() {
    // every node of the graph carries a public release, so the pass is
    // owed to succeed and to leave the graph unchanged
    let graph = vec![(0, literal()), (1, literal())];
    let release = vec![
        (0, literal_release(vec![vec![1]])),
        (1, literal_release(vec![vec![2]])),
    ];
    let analysis = Analysis {
        computation_graph: IdMap { entries: graph.clone() },
        privacy_definition: Some(definition()),
    };
    assert!(validate_analysis(analysis, IdMap { entries: release.clone() }).is_ok());

    let analysis = Analysis {
        computation_graph: IdMap { entries: graph.clone() },
        privacy_definition: Some(definition()),
    };
    let total =
        compute_privacy_usage(analysis, IdMap { entries: release.clone() }).unwrap();
    assert_eq!(total.distance.unwrap().epsilon, 0);

    let analysis = Analysis {
        computation_graph: IdMap { entries: graph },
        privacy_definition: Some(definition()),
    };
    assert!(generate_report(analysis, IdMap { entries: release }).is_ok());
}

#[test]
fn renderer_escapes_control_characters() {
    let document = JsonValue::Str(String::from("a\u{1}b\u{1f}"));
    let text = json_to_string(&document);
    assert_eq!(text, "\"a\\u0001b\\u001f\"");
}

#[test]
fn dp_median_summary_uses_given_names() {
    let data = array_props(Some(9), Some(1), Some(vec![0]), Some(vec![1_000_000_000]));
    let node_properties = vec![(String::from("data"), ValueProperties::Array(data))];
    let released = Value::Array(ArrayValue::Float(vec![vec![7], vec![9]]));
    let names = vec![String::from("income")];
    let entries = summarize_dp_median(
        &vec![usage(1, 0)],
        &String::from("Laplace"),
        2,
        0,
        &node_properties,
        &released,
        Some(&names),
    )
    .unwrap()
    .unwrap();
    match &entries[0].variables {
        JsonValue::Str(s) => assert_eq!(s, "income"),
        _ => panic!("the summary must carry the given column name"),
    }
    // the released column values are carried through, in order
    let rendered = json_to_string(&entries[0].release_info);
    assert_eq!(rendered, "[7,9]");
}

#[test]
fn pruning_keeps_only_ancestors() {
    // node 2 depends only on node 0; requesting 2 must drop node 1 and
    // its properties from the result
    let graph = vec![
        (0, literal()),
        (1, literal()),
        (2, laplace(0, vec![usage(1_000_000_000, 0)])),
    ];
    let release = vec![
        (0, literal_release(vec![vec![1]])),
        (1, literal_release(vec![vec![2]])),
    ];
    let analysis = Analysis {
        computation_graph: IdMap { entries: graph },
        privacy_definition: Some(definition()),
    };
    let gp = get_properties(analysis, IdMap { entries: release }, vec![2]).unwrap();
    let mut ids: Vec<u32> = gp.properties.entries.iter().map(|e| e.0).collect();
    ids.sort();
    assert_eq!(ids, vec![0, 2]);
}

#[test]
fn dynamic_mode_skips_with_warnings() {
    // the literal at node 0 has no release, so the mean over it cannot
    // propagate; in dynamic mode both nodes are skipped with warnings
    // instead of aborting
    let mean = Component {
        arguments: vec![(String::from("data"), 0)],
        variant: Variant::Mean,
        omit: false,
        submission: 0,
    };
    let analysis = Analysis {
        computation_graph: IdMap { entries: vec![(0, literal()), (1, mean)] },
        privacy_definition: Some(definition()),
    };
    let gp = get_properties(analysis, IdMap { entries: Vec::new() }, Vec::new()).unwrap();
    assert!(gp.properties.entries.is_empty());
    assert!(gp.warnings.len() >= 2);
}
