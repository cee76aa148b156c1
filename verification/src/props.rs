//! Static properties of node outputs: the value-properties lattice.

use vstd::prelude::*;
use crate::base::{DataType, GroupId, IndexKey, IndexKeyV, Jagged, JaggedV};
use crate::errors::{Error, ErrorKind};

verus! {

/// What kind of keyed family an index map describes.
#[derive(Clone, Copy, Debug, PartialEq, Eq, Structural)]
pub enum IndexmapVariant {
    Dataframe,
    Partition,
}

impl DeepView for IndexmapVariant {
    type V = IndexmapVariant;

    open spec fn deep_view(&self) -> IndexmapVariant {
        *self
    }
}

/// Properties of a jagged value.
#[derive(Clone, Copy, Debug)]
pub struct JaggedProperties {
    pub data_type: DataType,
    pub releasable: bool,
}

impl DeepView for JaggedProperties {
    type V = JaggedProperties;

    open spec fn deep_view(&self) -> JaggedProperties {
        *self
    }
}

/// Properties of an array value: shape, bounds, nullity, categories,
/// provenance.
#[derive(Debug)]
pub struct ArrayProperties {
    pub num_records: Option<i64>,
    pub num_columns: Option<i64>,
    /// Whether entries may be null.
    pub nullity: bool,
    /// Whether every path from raw data to this value passes through a
    /// privatising mechanism.
    pub releasable: bool,
    /// Fixed-point per-column lower bounds, if known.
    pub lower: Option<Vec<i64>>,
    /// Fixed-point per-column upper bounds, if known.
    pub upper: Option<Vec<i64>>,
    /// Per-column category sets, if known.
    pub categories: Option<Jagged>,
    pub data_type: DataType,
    /// Stable only along the provenance of a single dataset.
    pub dataset_id: Option<i64>,
    /// Partition provenance, outermost first.
    pub group_id: Vec<GroupId>,
    pub is_public: bool,
}

#[verifier::ext_equal]
pub struct ArrayPropertiesV {
    pub num_records: Option<i64>,
    pub num_columns: Option<i64>,
    pub nullity: bool,
    pub releasable: bool,
    pub lower: Option<Seq<i64>>,
    pub upper: Option<Seq<i64>>,
    pub categories: Option<JaggedV>,
    pub data_type: DataType,
    pub dataset_id: Option<i64>,
    pub group_id: Seq<GroupId>,
    pub is_public: bool,
}

impl DeepView for ArrayProperties {
    type V = ArrayPropertiesV;

    open spec fn deep_view(&self) -> ArrayPropertiesV {
        ArrayPropertiesV {
            num_records: self.num_records,
            num_columns: self.num_columns,
            nullity: self.nullity,
            releasable: self.releasable,
            lower: self.lower.deep_view(),
            upper: self.upper.deep_view(),
            categories: self.categories.deep_view(),
            data_type: self.data_type,
            dataset_id: self.dataset_id,
            group_id: self.group_id.deep_view(),
            is_public: self.is_public,
        }
    }
}

impl Clone for ArrayProperties {
    fn clone(&self) -> (r: Self)
        ensures
            r.deep_view() == self.deep_view(),
    {
        let r = ArrayProperties {
            num_records: self.num_records,
            num_columns: self.num_columns,
            nullity: self.nullity,
            releasable: self.releasable,
            lower: clone_opt_vec_i64(&self.lower),
            upper: clone_opt_vec_i64(&self.upper),
            categories: clone_opt_jagged(&self.categories),
            data_type: self.data_type,
            dataset_id: self.dataset_id,
            group_id: clone_group_ids(&self.group_id),
            is_public: self.is_public,
        };
        proof {
            assert(r.deep_view() =~~= self.deep_view());
        }
        r
    }
}

impl ArrayProperties {
    /// The number of columns; fails with `Missing` when unknown.
    pub fn num_columns_checked(&self) -> (r: Result<i64, Error>)
        ensures
            match r {
                Ok(n) => self.num_columns == Some(n),
                Err(e) => self.num_columns is None && e.kind is Missing,
            },
    {
        match self.num_columns {
            Some(n) => Ok(n),
            None => Err(Error::new(ErrorKind::Missing(String::from_str("num_columns")))),
        }
    }

    /// The number of records; fails with `Missing` when unknown.
    pub fn num_records_checked(&self) -> (r: Result<i64, Error>)
        ensures
            match r {
                Ok(n) => self.num_records == Some(n),
                Err(e) => self.num_records is None && e.kind is Missing,
            },
    {
        match self.num_records {
            Some(n) => Ok(n),
            None => Err(Error::new(ErrorKind::Missing(String::from_str("num_records")))),
        }
    }

    /// The category sets; fails with `Missing` when unknown.
    pub fn categories_checked(&self) -> (r: Result<&Jagged, Error>)
        ensures
            match r {
                Ok(c) => self.categories is Some && c.deep_view()
                    == self.deep_view().categories->0,
                Err(e) => self.categories is None && e.kind is Missing,
            },
    {
        match &self.categories {
            Some(c) => Ok(c),
            None => Err(Error::new(ErrorKind::Missing(String::from_str("categories")))),
        }
    }
}

impl ArrayPropertiesV {
    /// The bounds invariant of the property lattice: where both bounds
    /// are known, the lower bound is at most the upper one, column by
    /// column.
    pub open spec fn bounds_ordered(self) -> bool {
        self.lower is Some && self.upper is Some ==> forall|i: int|
            0 <= i < self.lower->0.len() && i < self.upper->0.len()
                ==> #[trigger] self.lower->0[i] <= self.upper->0[i]
    }
}

/// Properties of a keyed family of arrays.
#[derive(Debug)]
pub struct IndexmapProperties {
    /// Record count of the whole family, if known.
    pub num_records: Option<i64>,
    /// Whether the parts are disjoint, so that the union of the
    /// children preserves record counts.
    pub disjoint: bool,
    /// Properties of each part, in insertion order, keys unique.
    pub children: Vec<(IndexKey, ArrayProperties)>,
    pub dataset_id: Option<i64>,
    pub variant: IndexmapVariant,
}

#[verifier::ext_equal]
pub struct IndexmapPropertiesV {
    pub num_records: Option<i64>,
    pub disjoint: bool,
    pub children: Seq<(IndexKeyV, ArrayPropertiesV)>,
    pub dataset_id: Option<i64>,
    pub variant: IndexmapVariant,
}

impl DeepView for IndexmapProperties {
    type V = IndexmapPropertiesV;

    open spec fn deep_view(&self) -> IndexmapPropertiesV {
        IndexmapPropertiesV {
            num_records: self.num_records,
            disjoint: self.disjoint,
            children: self.children.deep_view(),
            dataset_id: self.dataset_id,
            variant: self.variant,
        }
    }
}

/// Properties of a node's output value, mirroring the `Value` sum.
#[derive(Debug)]
pub enum ValueProperties {
    Array(ArrayProperties),
    Indexmap(IndexmapProperties),
    Jagged(JaggedProperties),
}

#[verifier::ext_equal]
pub enum ValuePropertiesV {
    Array(ArrayPropertiesV),
    Indexmap(IndexmapPropertiesV),
    Jagged(JaggedProperties),
}

impl DeepView for ValueProperties {
    type V = ValuePropertiesV;

    open spec fn deep_view(&self) -> ValuePropertiesV {
        match self {
            ValueProperties::Array(a) => ValuePropertiesV::Array(a.deep_view()),
            ValueProperties::Indexmap(m) => ValuePropertiesV::Indexmap(m.deep_view()),
            ValueProperties::Jagged(j) => ValuePropertiesV::Jagged(*j),
        }
    }
}

impl Clone for ValueProperties {
    fn clone(&self) -> (r: Self)
        ensures
            r.deep_view() == self.deep_view(),
    {
        match self {
            ValueProperties::Array(a) => ValueProperties::Array(a.clone()),
            ValueProperties::Indexmap(m) => {
                let mut children: Vec<(IndexKey, ArrayProperties)> = Vec::new();
                let mut i: usize = 0;
                while i < m.children.len()
                    invariant
                        i <= m.children@.len(),
                        children@.len() == i,
                        forall|j: int| 0 <= j < i ==> (#[trigger] children@[j]).deep_view()
                            == m.children@[j].deep_view(),
                    decreases m.children@.len() - i,
                {
                    let (k, p) = &m.children[i];
                    children.push((k.clone(), p.clone()));
                    i = i + 1;
                }
                proof {
                    assert(children.deep_view() =~= m.children.deep_view());
                }
                ValueProperties::Indexmap(
                    IndexmapProperties {
                        num_records: m.num_records,
                        disjoint: m.disjoint,
                        children,
                        dataset_id: m.dataset_id,
                        variant: m.variant,
                    },
                )
            },
            ValueProperties::Jagged(j) => ValueProperties::Jagged(*j),
        }
    }
}

impl ValueProperties {
    /// Projects the array variant; fails with `TypeMismatch` otherwise.
    pub fn array(&self) -> (r: Result<&ArrayProperties, Error>)
        ensures
            match r {
                Ok(a) => self is Array && a.deep_view() == self.deep_view()->Array_0,
                Err(e) => !(self is Array) && e.kind is TypeMismatch,
            },
    {
        match self {
            ValueProperties::Array(a) => Ok(a),
            _ => Err(
                Error::new(
                    ErrorKind::TypeMismatch(String::from_str("array"), String::from_str("other")),
                ),
            ),
        }
    }

    /// Projects the index-map variant; fails with `TypeMismatch` otherwise.
    pub fn indexmap(&self) -> (r: Result<&IndexmapProperties, Error>)
        ensures
            match r {
                Ok(m) => self is Indexmap && m.deep_view() == self.deep_view()->Indexmap_0,
                Err(e) => !(self is Indexmap) && e.kind is TypeMismatch,
            },
    {
        match self {
            ValueProperties::Indexmap(m) => Ok(m),
            _ => Err(
                Error::new(
                    ErrorKind::TypeMismatch(
                        String::from_str("indexmap"),
                        String::from_str("other"),
                    ),
                ),
            ),
        }
    }

    /// Projects the jagged variant; fails with `TypeMismatch` otherwise.
    pub fn jagged(&self) -> (r: Result<&JaggedProperties, Error>)
        ensures
            match r {
                Ok(j) => self is Jagged && *j == self->Jagged_0,
                Err(e) => !(self is Jagged) && e.kind is TypeMismatch,
            },
    {
        match self {
            ValueProperties::Jagged(j) => Ok(j),
            _ => Err(
                Error::new(
                    ErrorKind::TypeMismatch(String::from_str("jagged"), String::from_str("other")),
                ),
            ),
        }
    }
}

/// Clones fixed-point per-column bounds.
pub fn clone_opt_vec_i64(v: &Option<Vec<i64>>) -> (r: Option<Vec<i64>>)
    ensures
        r.deep_view() == v.deep_view(),
{
    match v {
        Some(xs) => {
            let ys = xs.clone();
            proof {
                assert(ys.deep_view() =~= xs.deep_view());
            }
            Some(ys)
        },
        None => None,
    }
}

/// Clones a list of rows of integers.
pub fn clone_rows_i64(v: &Vec<Vec<i64>>) -> (r: Vec<Vec<i64>>)
    ensures
        r.deep_view() == v.deep_view(),
{
    let r = v.clone();
    proof {
        assert forall|i: int| 0 <= i < v@.len() implies r@[i].deep_view()
            == (#[trigger] v@[i]).deep_view() by {
            assert(cloned::<Vec<i64>>(v@[i], r@[i]));
            if r@[i] != v@[i] {
                assert(r@[i].deep_view() =~= v@[i].deep_view());
            }
        }
        assert(r.deep_view() =~~= v.deep_view());
    }
    r
}

/// Clones a list of rows of booleans.
pub fn clone_rows_bool(v: &Vec<Vec<bool>>) -> (r: Vec<Vec<bool>>)
    ensures
        r.deep_view() == v.deep_view(),
{
    let r = v.clone();
    proof {
        assert forall|i: int| 0 <= i < v@.len() implies r@[i].deep_view()
            == (#[trigger] v@[i]).deep_view() by {
            assert(cloned::<Vec<bool>>(v@[i], r@[i]));
            if r@[i] != v@[i] {
                assert(r@[i].deep_view() =~= v@[i].deep_view());
            }
        }
        assert(r.deep_view() =~~= v.deep_view());
    }
    r
}

/// Clones a list of rows of strings.
pub fn clone_rows_str(v: &Vec<Vec<String>>) -> (r: Vec<Vec<String>>)
    ensures
        r.deep_view() == v.deep_view(),
{
    let r = v.clone();
    proof {
        assert forall|i: int| 0 <= i < v@.len() implies r@[i].deep_view()
            == (#[trigger] v@[i]).deep_view() by {
            assert(cloned::<Vec<String>>(v@[i], r@[i]));
            if r@[i] != v@[i] {
                assert forall|j: int| 0 <= j < v@[i]@.len() implies r@[i]@[j].deep_view()
                    == #[trigger] v@[i]@[j].deep_view() by {
                    assert(cloned::<String>(v@[i]@[j], r@[i]@[j]));
                }
                assert(r@[i].deep_view() =~= v@[i].deep_view());
            }
        }
        assert(r.deep_view() =~~= v.deep_view());
    }
    r
}

/// Clones a jagged value.
pub fn clone_jagged(j: &Jagged) -> (r: Jagged)
    ensures
        r.deep_view() == j.deep_view(),
{
    match j {
        Jagged::Bool(cols) => Jagged::Bool(clone_rows_bool(cols)),
        Jagged::Int(cols) => Jagged::Int(clone_rows_i64(cols)),
        Jagged::Float(cols) => Jagged::Float(clone_rows_i64(cols)),
        Jagged::Str(cols) => Jagged::Str(clone_rows_str(cols)),
    }
}

/// Clones an optional jagged value.
pub fn clone_opt_jagged(j: &Option<Jagged>) -> (r: Option<Jagged>)
    ensures
        r.deep_view() == j.deep_view(),
{
    match j {
        Some(x) => Some(clone_jagged(x)),
        None => None,
    }
}

/// Clones partition provenance.
pub fn clone_group_ids(v: &Vec<GroupId>) -> (r: Vec<GroupId>)
    ensures
        r.deep_view() == v.deep_view(),
{
    let r = v.clone();
    proof {
        assert(r.deep_view() =~= v.deep_view());
    }
    r
}

} // verus!
