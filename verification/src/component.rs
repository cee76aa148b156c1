//! Components, analyses and releases: the wire model the engine works on.

use vstd::prelude::*;
use crate::base::{
    ArrayValue, IndexKey, PrivacyDefinition, PrivacyUsage, Value,
};
use crate::errors::Error;
use crate::maps::IdMap;
use crate::props::{clone_jagged, clone_rows_bool, clone_rows_i64, clone_rows_str, ValueProperties};

verus! {

/// Clones a list of privacy usages.
pub fn clone_usages(v: &Vec<PrivacyUsage>) -> (r: Vec<PrivacyUsage>)
    ensures
        r.deep_view() == v.deep_view(),
        r@ == v@,
{
    let mut r: Vec<PrivacyUsage> = Vec::new();
    let mut i: usize = 0;
    while i < v.len()
        invariant
            i <= v@.len(),
            r@.len() == i,
            forall|j: int| 0 <= j < i ==> r@[j] == v@[j],
        decreases v@.len() - i,
    {
        r.push(v[i]);
        i = i + 1;
    }
    proof {
        assert(r@ =~= v@);
        assert(r.deep_view() =~= v.deep_view());
    }
    r
}

/// Clones an argument list.
pub fn clone_arguments(v: &Vec<(String, u32)>) -> (r: Vec<(String, u32)>)
    ensures
        r.deep_view() == v.deep_view(),
{
    let mut r: Vec<(String, u32)> = Vec::new();
    let mut i: usize = 0;
    while i < v.len()
        invariant
            i <= v@.len(),
            r@.len() == i,
            forall|j: int| 0 <= j < i ==> (#[trigger] r@[j]).deep_view() == v@[j].deep_view(),
        decreases v@.len() - i,
    {
        let (name, id) = &v[i];
        r.push((name.clone(), *id));
        i = i + 1;
    }
    proof {
        assert(r.deep_view() =~= v.deep_view());
    }
    r
}

/// Clones an array value.
pub fn clone_array_value(v: &ArrayValue) -> (r: ArrayValue)
    ensures
        r.deep_view() == v.deep_view(),
{
    match v {
        ArrayValue::Bool(rows) => ArrayValue::Bool(clone_rows_bool(rows)),
        ArrayValue::Int(rows) => ArrayValue::Int(clone_rows_i64(rows)),
        ArrayValue::Float(rows) => ArrayValue::Float(clone_rows_i64(rows)),
        ArrayValue::Str(rows) => ArrayValue::Str(clone_rows_str(rows)),
    }
}

impl Clone for Value {
    fn clone(&self) -> (r: Self)
        ensures
            r.deep_view() == self.deep_view(),
    {
        match self {
            Value::Array(a) => Value::Array(clone_array_value(a)),
            Value::Jagged(j) => Value::Jagged(clone_jagged(j)),
            Value::Indexmap(m) => {
                let mut parts: Vec<(IndexKey, ArrayValue)> = Vec::new();
                let mut i: usize = 0;
                while i < m.len()
                    invariant
                        i <= m@.len(),
                        parts@.len() == i,
                        forall|j: int| 0 <= j < i ==> (#[trigger] parts@[j]).deep_view()
                            == m@[j].deep_view(),
                    decreases m@.len() - i,
                {
                    let (k, a) = &m[i];
                    parts.push((k.clone(), clone_array_value(a)));
                    i = i + 1;
                }
                proof {
                    assert(parts.deep_view() =~= m.deep_view());
                }
                Value::Indexmap(parts)
            },
        }
    }
}

/// A released value for one node: the value itself, the privacy it
/// actually cost, and whether the value may be read by the validator.
#[derive(Debug)]
pub struct ReleaseNode {
    pub value: Value,
    /// The usage actually spent producing the value, when recorded; it
    /// takes precedence over the component's declared maximum.
    pub privacy_usages: Option<Vec<PrivacyUsage>>,
    /// Only public values are read during static analysis.
    pub public: bool,
}

#[verifier::ext_equal]
pub struct ReleaseNodeV {
    pub value: <Value as DeepView>::V,
    pub privacy_usages: Option<Seq<PrivacyUsage>>,
    pub public: bool,
}

impl DeepView for ReleaseNode {
    type V = ReleaseNodeV;

    open spec fn deep_view(&self) -> ReleaseNodeV {
        ReleaseNodeV {
            value: self.value.deep_view(),
            privacy_usages: self.privacy_usages.deep_view(),
            public: self.public,
        }
    }
}

impl Clone for ReleaseNode {
    fn clone(&self) -> (r: Self)
        ensures
            r.deep_view() == self.deep_view(),
    {
        let usages = match &self.privacy_usages {
            Some(us) => Some(clone_usages(us)),
            None => None,
        };
        let r = ReleaseNode { value: self.value.clone(), privacy_usages: usages, public: self.public };
        proof {
            assert(r.deep_view() =~~= self.deep_view());
        }
        r
    }
}

/// The release: already-computed values for some nodes.
pub type Release = IdMap<ReleaseNode>;

/// What a component computes.  Composite variants are rewritten into
/// subgraphs of primitive ones before properties are propagated.
#[derive(Debug)]
pub enum Variant {
    /// A value supplied with the analysis; its properties are inferred
    /// from the public release.
    Literal,
    Mean,
    Quantile { alpha: i64, interpolation: String },
    LaplaceMechanism { privacy_usage: Vec<PrivacyUsage> },
    Impute,
    Partition,
    DpMean { implementation: String, privacy_usage: Vec<PrivacyUsage> },
    DpMedian { interpolation: String, privacy_usage: Vec<PrivacyUsage>, mechanism: String },
    DpQuantile {
        alpha: i64,
        interpolation: String,
        privacy_usage: Vec<PrivacyUsage>,
        mechanism: String,
    },
}

#[verifier::ext_equal]
pub enum VariantV {
    Literal,
    Mean,
    Quantile { alpha: i64, interpolation: Seq<char> },
    LaplaceMechanism { privacy_usage: Seq<PrivacyUsage> },
    Impute,
    Partition,
    DpMean { implementation: Seq<char>, privacy_usage: Seq<PrivacyUsage> },
    DpMedian { interpolation: Seq<char>, privacy_usage: Seq<PrivacyUsage>, mechanism: Seq<char> },
    DpQuantile {
        alpha: i64,
        interpolation: Seq<char>,
        privacy_usage: Seq<PrivacyUsage>,
        mechanism: Seq<char>,
    },
}

impl DeepView for Variant {
    type V = VariantV;

    open spec fn deep_view(&self) -> VariantV {
        match self {
            Variant::Literal => VariantV::Literal,
            Variant::Mean => VariantV::Mean,
            Variant::Quantile { alpha, interpolation } => VariantV::Quantile {
                alpha: *alpha,
                interpolation: interpolation@,
            },
            Variant::LaplaceMechanism { privacy_usage } => VariantV::LaplaceMechanism {
                privacy_usage: privacy_usage.deep_view(),
            },
            Variant::Impute => VariantV::Impute,
            Variant::Partition => VariantV::Partition,
            Variant::DpMean { implementation, privacy_usage } => VariantV::DpMean {
                implementation: implementation@,
                privacy_usage: privacy_usage.deep_view(),
            },
            Variant::DpMedian { interpolation, privacy_usage, mechanism } => VariantV::DpMedian {
                interpolation: interpolation@,
                privacy_usage: privacy_usage.deep_view(),
                mechanism: mechanism@,
            },
            Variant::DpQuantile { alpha, interpolation, privacy_usage, mechanism } => {
                VariantV::DpQuantile {
                    alpha: *alpha,
                    interpolation: interpolation@,
                    privacy_usage: privacy_usage.deep_view(),
                    mechanism: mechanism@,
                }
            },
        }
    }
}

impl VariantV {
    /// Primitive variants are fixed points of expansion.
    pub open spec fn is_primitive(self) -> bool {
        !(self is DpMean || self is DpMedian || self is DpQuantile)
    }

    /// Mechanisms are the nodes that consume privacy budget.
    pub open spec fn is_mechanism(self) -> bool {
        self is LaplaceMechanism
    }
}

impl Clone for Variant {
    fn clone(&self) -> (r: Self)
        ensures
            r.deep_view() == self.deep_view(),
    {
        match self {
            Variant::Literal => Variant::Literal,
            Variant::Mean => Variant::Mean,
            Variant::Quantile { alpha, interpolation } => Variant::Quantile {
                alpha: *alpha,
                interpolation: interpolation.clone(),
            },
            Variant::LaplaceMechanism { privacy_usage } => Variant::LaplaceMechanism {
                privacy_usage: clone_usages(privacy_usage),
            },
            Variant::Impute => Variant::Impute,
            Variant::Partition => Variant::Partition,
            Variant::DpMean { implementation, privacy_usage } => Variant::DpMean {
                implementation: implementation.clone(),
                privacy_usage: clone_usages(privacy_usage),
            },
            Variant::DpMedian { interpolation, privacy_usage, mechanism } => Variant::DpMedian {
                interpolation: interpolation.clone(),
                privacy_usage: clone_usages(privacy_usage),
                mechanism: mechanism.clone(),
            },
            Variant::DpQuantile { alpha, interpolation, privacy_usage, mechanism } => {
                Variant::DpQuantile {
                    alpha: *alpha,
                    interpolation: interpolation.clone(),
                    privacy_usage: clone_usages(privacy_usage),
                    mechanism: mechanism.clone(),
                }
            },
        }
    }
}

/// One node of the computation graph.
#[derive(Debug)]
pub struct Component {
    /// Argument name to source node id.
    pub arguments: Vec<(String, u32)>,
    pub variant: Variant,
    /// Structural scaffolding: not a released value of interest.
    pub omit: bool,
    /// Batch tag of the submission the node arrived in.
    pub submission: u32,
}

#[verifier::ext_equal]
pub struct ComponentV {
    pub arguments: Seq<(Seq<char>, u32)>,
    pub variant: VariantV,
    pub omit: bool,
    pub submission: u32,
}

impl DeepView for Component {
    type V = ComponentV;

    open spec fn deep_view(&self) -> ComponentV {
        ComponentV {
            arguments: self.arguments.deep_view(),
            variant: self.variant.deep_view(),
            omit: self.omit,
            submission: self.submission,
        }
    }
}

impl Clone for Component {
    fn clone(&self) -> (r: Self)
        ensures
            r.deep_view() == self.deep_view(),
    {
        let r = Component {
            arguments: clone_arguments(&self.arguments),
            variant: self.variant.clone(),
            omit: self.omit,
            submission: self.submission,
        };
        proof {
            assert(r.deep_view() =~~= self.deep_view());
        }
        r
    }
}

/// An analysis: the computation graph plus the privacy definition it
/// is to be validated against.
#[derive(Debug)]
pub struct Analysis {
    pub computation_graph: IdMap<Component>,
    pub privacy_definition: Option<PrivacyDefinition>,
}

/// What expanding one node produces: replacement nodes, any properties
/// and releases that come with them, and the ids to visit next, in
/// dependency order.
#[derive(Debug)]
pub struct ComponentExpansion {
    pub computation_graph: IdMap<Component>,
    pub properties: IdMap<ValueProperties>,
    pub releases: IdMap<ReleaseNode>,
    pub traversal: Vec<u32>,
    pub warnings: Vec<Error>,
}

/// A request to expand a single node interactively.
#[derive(Debug)]
pub struct RequestExpandComponent {
    pub component: Option<Component>,
    /// Properties of the arguments, by argument name.
    pub properties: Vec<(String, ValueProperties)>,
    /// Released argument values, by argument name.
    pub arguments: Vec<(String, ReleaseNode)>,
    pub privacy_definition: Option<PrivacyDefinition>,
    pub component_id: u32,
    pub maximum_id: u32,
}

/// Properties for every reachable node, plus propagation warnings.
#[derive(Debug)]
pub struct GraphProperties {
    pub properties: IdMap<ValueProperties>,
    pub warnings: Vec<Error>,
}

} // verus!
