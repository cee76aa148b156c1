//! The data model: values, value properties, components, analyses and
//! privacy usages.
//!
//! Real-valued quantities are held in fixed point: an `i64` counts
//! billionths, so `1_000_000_000` stands for one.  Every type with heap
//! content has a deep view into a pure counterpart built from `Seq` and
//! plain values; contracts are stated over those views.

use vstd::prelude::*;
use crate::errors::{Error, ErrorKind};

verus! {

/// How many fixed-point units stand for one.
pub const FIXED_ONE: i64 = 1_000_000_000;

/// The element type of an array or of a jagged category list.
#[derive(Clone, Copy, Debug, PartialEq, Eq, Structural)]
pub enum DataType {
    Bool,
    Int,
    Float,
    Str,
}

impl DeepView for DataType {
    type V = DataType;

    open spec fn deep_view(&self) -> DataType {
        *self
    }
}

/// One layer of partition provenance: the node that partitioned the
/// data, and, once a single part has been selected, which part.
#[derive(Clone, Copy, Debug)]
pub struct GroupId {
    pub partition_id: u32,
    pub index: Option<i64>,
}

impl DeepView for GroupId {
    type V = GroupId;

    open spec fn deep_view(&self) -> GroupId {
        *self
    }
}

/// A key of an index map: partitions are keyed by category.
#[derive(Debug)]
pub enum IndexKey {
    Bool(bool),
    Int(i64),
    Str(String),
}

#[verifier::ext_equal]
pub enum IndexKeyV {
    Bool(bool),
    Int(i64),
    Str(Seq<char>),
}

impl DeepView for IndexKey {
    type V = IndexKeyV;

    open spec fn deep_view(&self) -> IndexKeyV {
        match self {
            IndexKey::Bool(b) => IndexKeyV::Bool(*b),
            IndexKey::Int(x) => IndexKeyV::Int(*x),
            IndexKey::Str(s) => IndexKeyV::Str(s@),
        }
    }
}

impl Clone for IndexKey {
    fn clone(&self) -> (r: Self)
        ensures
            r.deep_view() == self.deep_view(),
    {
        match self {
            IndexKey::Bool(b) => IndexKey::Bool(*b),
            IndexKey::Int(x) => IndexKey::Int(*x),
            IndexKey::Str(s) => IndexKey::Str(s.clone()),
        }
    }
}

impl IndexKey {
    /// Whether two keys are the same key.
    pub fn eq_key(&self, other: &IndexKey) -> (r: bool)
        ensures
            r == (self.deep_view() == other.deep_view()),
    {
        match (self, other) {
            (IndexKey::Bool(a), IndexKey::Bool(b)) => *a == *b,
            (IndexKey::Int(a), IndexKey::Int(b)) => *a == *b,
            (IndexKey::Str(a), IndexKey::Str(b)) => a.eq(b),
            _ => false,
        }
    }
}

/// Per-column lists of unequal lengths, used for category sets.
#[derive(Debug)]
pub enum Jagged {
    Bool(Vec<Vec<bool>>),
    Int(Vec<Vec<i64>>),
    /// Fixed-point real values.
    Float(Vec<Vec<i64>>),
    Str(Vec<Vec<String>>),
}

#[verifier::ext_equal]
pub enum JaggedV {
    Bool(Seq<Seq<bool>>),
    Int(Seq<Seq<i64>>),
    Float(Seq<Seq<i64>>),
    Str(Seq<Seq<Seq<char>>>),
}

impl DeepView for Jagged {
    type V = JaggedV;

    open spec fn deep_view(&self) -> JaggedV {
        match self {
            Jagged::Bool(cols) => JaggedV::Bool(cols.deep_view()),
            Jagged::Int(cols) => JaggedV::Int(cols.deep_view()),
            Jagged::Float(cols) => JaggedV::Float(cols.deep_view()),
            Jagged::Str(cols) => JaggedV::Str(cols.deep_view()),
        }
    }
}

impl Jagged {
    /// How many columns the jagged value describes.
    pub fn num_columns(&self) -> (r: usize)
        ensures
            r == self.spec_num_columns(),
    {
        match self {
            Jagged::Bool(cols) => cols.len(),
            Jagged::Int(cols) => cols.len(),
            Jagged::Float(cols) => cols.len(),
            Jagged::Str(cols) => cols.len(),
        }
    }

    pub open spec fn spec_num_columns(&self) -> int {
        match self.deep_view() {
            JaggedV::Bool(cols) => cols.len() as int,
            JaggedV::Int(cols) => cols.len() as int,
            JaggedV::Float(cols) => cols.len() as int,
            JaggedV::Str(cols) => cols.len() as int,
        }
    }

    pub open spec fn spec_data_type(&self) -> DataType {
        match self {
            Jagged::Bool(_) => DataType::Bool,
            Jagged::Int(_) => DataType::Int,
            Jagged::Float(_) => DataType::Float,
            Jagged::Str(_) => DataType::Str,
        }
    }
}

/// A rectangular array of data, stored as rows.
#[derive(Debug)]
pub enum ArrayValue {
    Bool(Vec<Vec<bool>>),
    Int(Vec<Vec<i64>>),
    /// Fixed-point real values.
    Float(Vec<Vec<i64>>),
    Str(Vec<Vec<String>>),
}

#[verifier::ext_equal]
pub enum ArrayValueV {
    Bool(Seq<Seq<bool>>),
    Int(Seq<Seq<i64>>),
    Float(Seq<Seq<i64>>),
    Str(Seq<Seq<Seq<char>>>),
}

impl DeepView for ArrayValue {
    type V = ArrayValueV;

    open spec fn deep_view(&self) -> ArrayValueV {
        match self {
            ArrayValue::Bool(rows) => ArrayValueV::Bool(rows.deep_view()),
            ArrayValue::Int(rows) => ArrayValueV::Int(rows.deep_view()),
            ArrayValue::Float(rows) => ArrayValueV::Float(rows.deep_view()),
            ArrayValue::Str(rows) => ArrayValueV::Str(rows.deep_view()),
        }
    }
}

impl ArrayValue {
    pub open spec fn spec_num_records(&self) -> int {
        match self.deep_view() {
            ArrayValueV::Bool(rows) => rows.len() as int,
            ArrayValueV::Int(rows) => rows.len() as int,
            ArrayValueV::Float(rows) => rows.len() as int,
            ArrayValueV::Str(rows) => rows.len() as int,
        }
    }

    pub open spec fn spec_data_type(&self) -> DataType {
        match self {
            ArrayValue::Bool(_) => DataType::Bool,
            ArrayValue::Int(_) => DataType::Int,
            ArrayValue::Float(_) => DataType::Float,
            ArrayValue::Str(_) => DataType::Str,
        }
    }

    /// The number of rows.
    pub fn num_records(&self) -> (r: usize)
        ensures
            r == self.spec_num_records(),
    {
        match self {
            ArrayValue::Bool(rows) => rows.len(),
            ArrayValue::Int(rows) => rows.len(),
            ArrayValue::Float(rows) => rows.len(),
            ArrayValue::Str(rows) => rows.len(),
        }
    }

    /// The first entry of an integer array, as the scalar it stands for.
    pub fn first_int(&self) -> (r: Result<i64, Error>)
        ensures
            match r {
                Ok(x) => {
                    &&& self.deep_view() is Int
                    &&& self.deep_view()->Int_0.len() > 0
                    &&& self.deep_view()->Int_0[0].len() > 0
                    &&& x == self.deep_view()->Int_0[0][0]
                },
                Err(e) => !(self.deep_view() is Int && self.deep_view()->Int_0.len() > 0
                    && self.deep_view()->Int_0[0].len() > 0) && (e.kind is Missing
                    || e.kind is TypeMismatch),
            },
    {
        match self {
            ArrayValue::Int(rows) => {
                if rows.len() > 0 && rows[0].len() > 0 {
                    Ok(rows[0][0])
                } else {
                    Err(Error::new(ErrorKind::Missing(String::from_str("value"))))
                }
            },
            _ => Err(
                Error::new(
                    ErrorKind::TypeMismatch(String::from_str("int"), String::from_str("other")),
                ),
            ),
        }
    }
}

/// A concrete value: what a release holds for a node.
#[derive(Debug)]
pub enum Value {
    Array(ArrayValue),
    Jagged(Jagged),
    /// A keyed family of arrays, such as the parts of a partition.
    Indexmap(Vec<(IndexKey, ArrayValue)>),
}

#[verifier::ext_equal]
pub enum ValueV {
    Array(ArrayValueV),
    Jagged(JaggedV),
    Indexmap(Seq<(IndexKeyV, ArrayValueV)>),
}

impl DeepView for Value {
    type V = ValueV;

    open spec fn deep_view(&self) -> ValueV {
        match self {
            Value::Array(a) => ValueV::Array(a.deep_view()),
            Value::Jagged(j) => ValueV::Jagged(j.deep_view()),
            Value::Indexmap(m) => ValueV::Indexmap(m.deep_view()),
        }
    }
}

impl Value {
    /// Projects the array variant; fails with `TypeMismatch` otherwise.
    pub fn array(&self) -> (r: Result<&ArrayValue, Error>)
        ensures
            match r {
                Ok(a) => self is Array && a.deep_view() == self.deep_view()->Array_0,
                Err(e) => !(self is Array) && e.kind is TypeMismatch,
            },
    {
        match self {
            Value::Array(a) => Ok(a),
            _ => Err(
                Error::new(
                    ErrorKind::TypeMismatch(String::from_str("array"), String::from_str("other")),
                ),
            ),
        }
    }

    /// Projects the jagged variant; fails with `TypeMismatch` otherwise.
    pub fn jagged(&self) -> (r: Result<&Jagged, Error>)
        ensures
            match r {
                Ok(j) => self is Jagged && j.deep_view() == self.deep_view()->Jagged_0,
                Err(e) => !(self is Jagged) && e.kind is TypeMismatch,
            },
    {
        match self {
            Value::Jagged(j) => Ok(j),
            _ => Err(
                Error::new(
                    ErrorKind::TypeMismatch(String::from_str("jagged"), String::from_str("other")),
                ),
            ),
        }
    }
}

/// The approximate-DP distance: fixed-point epsilon and delta.
#[derive(Clone, Copy, Debug, PartialEq, Eq, Structural)]
pub struct DistanceApproximate {
    pub epsilon: i64,
    pub delta: i64,
}

impl DeepView for DistanceApproximate {
    type V = DistanceApproximate;

    open spec fn deep_view(&self) -> DistanceApproximate {
        *self
    }
}

/// The privacy cost of one mechanism application, under some distance
/// metric.  A usage whose distance is not yet defined cannot take part
/// in arithmetic.
#[derive(Clone, Copy, Debug)]
pub struct PrivacyUsage {
    pub distance: Option<DistanceApproximate>,
}

impl DeepView for PrivacyUsage {
    type V = PrivacyUsage;

    open spec fn deep_view(&self) -> PrivacyUsage {
        *self
    }
}

/// Neighbouring-dataset relation of the privacy definition.
#[derive(Clone, Copy, Debug, PartialEq, Eq, Structural)]
pub enum Neighboring {
    Substitute,
    AddRemove,
}

/// The privacy definition an analysis is validated against.
#[derive(Clone, Copy, Debug)]
pub struct PrivacyDefinition {
    pub group_size: u32,
    pub neighboring: Neighboring,
    /// The overall budget the summed usage is checked against, if any.
    pub budget: Option<PrivacyUsage>,
    /// Whether exceeding the budget is an error rather than a warning.
    pub strict_budget: bool,
}

impl DeepView for PrivacyDefinition {
    type V = PrivacyDefinition;

    open spec fn deep_view(&self) -> PrivacyDefinition {
        *self
    }
}


/// An accuracy guarantee: an error bound that holds with probability
/// `1 - alpha`, both in fixed point.
#[derive(Clone, Copy, Debug)]
pub struct Accuracy {
    pub value: i64,
    pub alpha: i64,
}

impl DeepView for Accuracy {
    type V = Accuracy;

    open spec fn deep_view(&self) -> Accuracy {
        *self
    }
}

/// Per-column accuracy guarantees.
#[derive(Clone, Debug)]
pub struct Accuracies {
    pub values: Vec<Accuracy>,
}

/// Per-column privacy usages.
#[derive(Debug)]
pub struct PrivacyUsages {
    pub values: Vec<PrivacyUsage>,
}

} // verus!
