//! The `Partition` component: splits a dataset into a keyed family of
//! parts, either by the categories of a `by` column or into a given
//! number of evenly sized parts.

use vstd::prelude::*;
use crate::base::{ArrayValueV, GroupId, IndexKey, IndexKeyV, Jagged, JaggedV, Value};
use crate::errors::{Error, ErrorKind};
use crate::maps::str_lookup;
use crate::props::{
    ArrayProperties, ArrayPropertiesV, IndexmapProperties, IndexmapVariant, ValueProperties,
    ValuePropertiesV,
};
use crate::Warnable;

verus! {

/// Part sizes when `num_records` records are split into
/// `num_partitions` parts as evenly as possible: the first
/// `num_records % num_partitions` parts get one extra record.
pub open spec fn spec_split_length(num_records: i64, num_partitions: i64, index: int) -> i64
    recommends
        num_records >= 0,
        num_partitions > 0,
{
    (num_records as int / num_partitions as int + if index < num_records as int % (
    num_partitions as int) {
        1int
    } else {
        0int
    }) as i64
}

/// Splits a record count into `num_partitions` lengths that differ by
/// at most one and sum to the count.  A non-positive partition count
/// yields no lengths.
pub fn even_split_lengths(num_records: i64, num_partitions: i64) -> (r: Vec<i64>)
    requires
        num_records >= 0,
    ensures
        num_partitions >= 0 ==> r@.len() == num_partitions,
        num_partitions < 0 ==> r@.len() == 0,
        forall|i: int| 0 <= i < r@.len() ==> r@[i] == spec_split_length(
            num_records,
            num_partitions,
            i,
        ),
{
    let mut r: Vec<i64> = Vec::new();
    if num_partitions <= 0 {
        return r;
    }
    let quotient = num_records / num_partitions;
    let remainder = num_records % num_partitions;
    let mut index: i64 = 0;
    while index < num_partitions
        invariant
            0 <= index <= num_partitions,
            0 < num_partitions,
            0 <= num_records,
            quotient == num_records as int / num_partitions as int,
            remainder == num_records as int % (num_partitions as int),
            r@.len() == index,
            forall|i: int| 0 <= i < index ==> r@[i] == spec_split_length(
                num_records,
                num_partitions,
                i,
            ),
        decreases num_partitions - index,
    {
        if index < remainder {
            proof {
                vstd::arithmetic::div_mod::lemma_mod_bound(
                    num_records as int,
                    num_partitions as int,
                );
                // remainder >= 1, and remainder < num_partitions, so the
                // denominator is at least 2 and the quotient cannot be at
                // the integer's maximum.
                vstd::arithmetic::div_mod::lemma_div_is_ordered_by_denominator(
                    num_records as int,
                    2,
                    num_partitions as int,
                );
                vstd::arithmetic::div_mod::lemma_fundamental_div_mod(num_records as int, 2);
                vstd::arithmetic::div_mod::lemma_mod_bound(num_records as int, 2);
            }
            r.push(quotient + 1);
        } else {
            r.push(quotient);
        }
        index = index + 1;
    }
    r
}

/// The parent properties every part inherits, with one more
/// provenance layer naming the partitioning node.
pub open spec fn with_group_layer(d: ArrayPropertiesV, node_id: u32) -> ArrayPropertiesV {
    ArrayPropertiesV { group_id: d.group_id.push(GroupId { partition_id: node_id, index: None }), ..d }
}

/// The category keys of a single-column jagged category set.
pub open spec fn category_keys(cats: JaggedV) -> Seq<IndexKeyV> {
    match cats {
        JaggedV::Bool(cols) => Seq::new(cols[0].len(), |i: int| IndexKeyV::Bool(cols[0][i])),
        JaggedV::Int(cols) => Seq::new(cols[0].len(), |i: int| IndexKeyV::Int(cols[0][i])),
        JaggedV::Str(cols) => Seq::new(cols[0].len(), |i: int| IndexKeyV::Str(cols[0][i])),
        JaggedV::Float(cols) => Seq::empty(),
    }
}

/// Keys with later repetitions of a key removed.
pub open spec fn dedup_keys(s: Seq<IndexKeyV>) -> Seq<IndexKeyV>
    decreases s.len(),
{
    if s.len() == 0 {
        Seq::empty()
    } else if s.drop_last().contains(s.last()) {
        dedup_keys(s.drop_last())
    } else {
        dedup_keys(s.drop_last()).push(s.last())
    }
}

/// Deduplication keeps exactly the keys of the input.
pub proof fn lemma_dedup_contains(s: Seq<IndexKeyV>, x: IndexKeyV)
    ensures
        dedup_keys(s).contains(x) <==> s.contains(x),
    decreases s.len(),
{
    reveal_with_fuel(dedup_keys, 2);
    if s.len() > 0 {
        let sd = s.drop_last();
        lemma_dedup_contains(sd, x);
        if s.contains(x) {
            let i = choose|i: int| 0 <= i < s.len() && s[i] == x;
            if i < s.len() - 1 {
                assert(sd[i] == x);
                assert(sd.contains(x));
                let l = choose|l: int| 0 <= l < dedup_keys(sd).len() && dedup_keys(sd)[l] == x;
                if sd.contains(s.last()) {
                    assert(dedup_keys(s)[l] == x);
                } else {
                    assert(dedup_keys(s)[l] == x);
                }
                assert(dedup_keys(s).contains(x));
            } else {
                assert(x == s.last());
                if sd.contains(s.last()) {
                    let l = choose|l: int| 0 <= l < dedup_keys(sd).len() && dedup_keys(sd)[l] == x;
                    assert(dedup_keys(s)[l] == x);
                } else {
                    assert(dedup_keys(s)[dedup_keys(s).len() - 1] == x);
                }
                assert(dedup_keys(s).contains(x));
            }
        }
        if dedup_keys(s).contains(x) {
            let l = choose|l: int| 0 <= l < dedup_keys(s).len() && dedup_keys(s)[l] == x;
            if sd.contains(s.last()) {
                assert(dedup_keys(sd)[l] == x);
                assert(dedup_keys(sd).contains(x));
                let j = choose|j: int| 0 <= j < sd.len() && sd[j] == x;
                assert(s[j] == x);
                assert(s.contains(x));
            } else {
                if l < dedup_keys(sd).len() {
                    assert(dedup_keys(sd)[l] == x);
                    assert(dedup_keys(sd).contains(x));
                    let j = choose|j: int| 0 <= j < sd.len() && sd[j] == x;
                    assert(s[j] == x);
                } else {
                    assert(x == s.last());
                    assert(s[s.len() - 1] == x);
                }
                assert(s.contains(x));
            }
        }
    }
}

/// The children of a partition by categories: one part per distinct
/// key, all inheriting the same parent properties.
pub open spec fn partition_children(
    keys: Seq<IndexKeyV>,
    child: ArrayPropertiesV,
) -> Seq<(IndexKeyV, ArrayPropertiesV)> {
    Seq::new(dedup_keys(keys).len(), |i: int| (dedup_keys(keys)[i], child))
}

/// Broadcasts parent properties over one column of category keys,
/// giving the keyed parts of a partition by categories.  Fails when
/// the category set does not describe exactly one column, or is
/// real-valued: equality on reals cannot key a partition.
pub fn broadcast_partitions(categories: &Jagged, properties: &ArrayProperties, node_id: u32) -> (r:
    Result<Vec<(IndexKey, ArrayProperties)>, Error>)
    ensures
        match r {
            Ok(parts) => {
                &&& !(categories.deep_view() is Float)
                &&& categories.spec_num_columns() == 1
                &&& parts.deep_view() == partition_children(
                    category_keys(categories.deep_view()),
                    with_group_layer(properties.deep_view(), node_id),
                )
            },
            Err(e) => {
                &&& !(categories.spec_num_columns() == 1 && !(categories.deep_view() is Float))
                &&& (e.kind is UnsupportedCategoryType <==> (categories.deep_view() is Float
                    && categories.spec_num_columns() == 1))
                &&& (e.kind is UnsupportedCategoryType || e.kind is InvariantViolation)
            },
        },
{
    if categories.num_columns() != 1 {
        return Err(
            Error::new(
                ErrorKind::InvariantViolation(
                    String::from_str("categories must be defined for one column"),
                ),
            ),
        );
    }
    let keys: Vec<IndexKey> = match categories {
        Jagged::Bool(cols) => {
            let col = &cols[0];
            let mut keys: Vec<IndexKey> = Vec::new();
            let mut i: usize = 0;
            while i < col.len()
                invariant
                    i <= col@.len(),
                    keys@.len() == i,
                    forall|j: int| 0 <= j < i ==> (#[trigger] keys@[j]).deep_view()
                        == IndexKeyV::Bool(col@[j]),
                decreases col@.len() - i,
            {
                keys.push(IndexKey::Bool(col[i]));
                i = i + 1;
            }
            proof {
                assert(keys.deep_view() =~= category_keys(categories.deep_view()));
            }
            keys
        },
        Jagged::Int(cols) => {
            let col = &cols[0];
            let mut keys: Vec<IndexKey> = Vec::new();
            let mut i: usize = 0;
            while i < col.len()
                invariant
                    i <= col@.len(),
                    keys@.len() == i,
                    forall|j: int| 0 <= j < i ==> (#[trigger] keys@[j]).deep_view()
                        == IndexKeyV::Int(col@[j]),
                decreases col@.len() - i,
            {
                keys.push(IndexKey::Int(col[i]));
                i = i + 1;
            }
            proof {
                assert(keys.deep_view() =~= category_keys(categories.deep_view()));
            }
            keys
        },
        Jagged::Str(cols) => {
            let col = &cols[0];
            let mut keys: Vec<IndexKey> = Vec::new();
            let mut i: usize = 0;
            while i < col.len()
                invariant
                    i <= col@.len(),
                    keys@.len() == i,
                    forall|j: int| 0 <= j < i ==> (#[trigger] keys@[j]).deep_view()
                        == IndexKeyV::Str(col@[j]@),
                decreases col@.len() - i,
            {
                keys.push(IndexKey::Str(col[i].clone()));
                i = i + 1;
            }
            proof {
                assert(keys.deep_view() =~= category_keys(categories.deep_view()));
            }
            keys
        },
        Jagged::Float(_) => {
            return Err(Error::new(ErrorKind::UnsupportedCategoryType));
        },
    };
    let mut child = properties.clone();
    child.group_id.push(GroupId { partition_id: node_id, index: None });
    proof {
        assert(child.group_id.deep_view() =~= properties.group_id.deep_view().push(
            GroupId { partition_id: node_id, index: None },
        ));
        assert(child.deep_view() =~~= with_group_layer(properties.deep_view(), node_id));
    }
    let ghost kv = keys.deep_view();
    let mut parts: Vec<(IndexKey, ArrayProperties)> = Vec::new();
    let mut i: usize = 0;
    while i < keys.len()
        invariant
            i <= kv.len(),
            kv == keys.deep_view(),
            keys@.len() == kv.len(),
            child.deep_view() == with_group_layer(properties.deep_view(), node_id),
            parts@.len() == dedup_keys(kv.take(i as int)).len(),
            forall|j: int| 0 <= j < parts@.len() ==> (#[trigger] parts@[j]).deep_view() == (
            dedup_keys(kv.take(i as int))[j], child.deep_view()),
        decreases kv.len() - i,
    {
        proof {
            assert(kv[i as int] == keys@[i as int].deep_view());
            assert(kv.take(i as int + 1).drop_last() =~= kv.take(i as int));
            assert(kv.take(i as int + 1).last() == kv[i as int]);
        }
        // whether this key was seen already
        let mut seen = false;
        let mut j: usize = 0;
        while j < parts.len() && !seen
            invariant
                j <= parts@.len(),
                i < kv.len(),
                kv == keys.deep_view(),
                keys@.len() == kv.len(),
                kv[i as int] == keys@[i as int].deep_view(),
                !seen ==> forall|l: int| 0 <= l < j ==> (#[trigger] parts@[l]).deep_view().0 != kv[
                    i as int],
                seen ==> exists|l: int| 0 <= l < parts@.len() && (#[trigger] parts@[l]).deep_view().0
                    == kv[i as int],
            decreases parts@.len() - j, (if seen { 0int } else { 1int }),
        {
            if parts[j].0.eq_key(&keys[i]) {
                proof {
                    assert(parts@[j as int].deep_view().0 == kv[i as int]);
                }
                seen = true;
            } else {
                j = j + 1;
            }
        }
        proof {
            let taken = kv.take(i as int);
            lemma_dedup_contains(taken, kv[i as int]);
            if seen {
                let l = choose|l: int| 0 <= l < parts@.len() && (#[trigger] parts@[l]).deep_view().0
                    == kv[i as int];
                assert(dedup_keys(taken)[l] == kv[i as int]);
                assert(dedup_keys(taken).contains(kv[i as int]));
                assert(taken.contains(kv[i as int]));
            } else {
                if taken.contains(kv[i as int]) {
                    assert(dedup_keys(taken).contains(kv[i as int]));
                    let l = choose|l: int| 0 <= l < dedup_keys(taken).len() && dedup_keys(taken)[l]
                        == kv[i as int];
                    assert(parts@[l].deep_view().0 == kv[i as int]);
                }
            }
        }
        if !seen {
            parts.push((keys[i].clone(), child.clone()));
        }
        i = i + 1;
    }
    proof {
        assert(kv.take(i as int) =~= kv);
        assert(parts.deep_view() =~= partition_children(
            kv,
            with_group_layer(properties.deep_view(), node_id),
        ));
    }
    Ok(parts)
}


/// Columns described by a jagged category view.
pub open spec fn jagged_cols_v(c: JaggedV) -> int {
    match c {
        JaggedV::Bool(cols) => cols.len() as int,
        JaggedV::Int(cols) => cols.len() as int,
        JaggedV::Float(cols) => cols.len() as int,
        JaggedV::Str(cols) => cols.len() as int,
    }
}

/// The first entry of an integer array view, if there is one.
pub open spec fn first_int_v(a: ArrayValueV) -> Option<i64> {
    match a {
        ArrayValueV::Int(rows) => if rows.len() > 0 && rows[0].len() > 0 {
            Some(rows[0][0])
        } else {
            None
        },
        _ => None,
    }
}

/// When `Partition` can propagate: its `data` argument is an array,
/// and either `by` is an array of known single-column categories of a
/// type that can key a partition, or a public integer
/// `num_partitions` is given and the record count, when known, is not
/// negative.
pub open spec fn partition_ok(
    props: Seq<(Seq<char>, <ValueProperties as DeepView>::V)>,
    pubs: Seq<(Seq<char>, <Value as DeepView>::V)>,
) -> bool {
    match str_lookup(props, "data"@) {
        Some(ValuePropertiesV::Array(d)) => match str_lookup(props, "by"@) {
            Some(ValuePropertiesV::Array(b)) => b.num_columns == Some(1i64) && match b.categories {
                Some(c) => !(c is Float) && jagged_cols_v(c) == 1,
                None => false,
            },
            Some(_) => false,
            None => match str_lookup(pubs, "num_partitions"@) {
                Some(crate::base::ValueV::Array(a)) => first_int_v(a) is Some && (
                match d.num_records {
                    Some(nr) => nr >= 0,
                    None => true,
                }),
                _ => false,
            },
        },
        _ => false,
    }
}

/// The parts of a partition into `k` evenly sized parts: keyed by the
/// part index, each part inheriting the parent's properties with one
/// more provenance layer, and with the even split as its record count
/// when the parent's count is known.
pub open spec fn count_children(d: ArrayPropertiesV, k: i64, node_id: u32) -> Seq<
    (IndexKeyV, ArrayPropertiesV),
> {
    Seq::new(
        (if k >= 0 {
            k as int
        } else {
            0int
        }) as nat,
        |i: int| (
            IndexKeyV::Int(i as i64),
            with_group_layer(
                ArrayPropertiesV {
                    num_records: match d.num_records {
                        Some(nr) => Some(spec_split_length(nr, k, i)),
                        None => None,
                    },
                    ..d
                },
                node_id,
            ),
        ),
    )
}

/// The properties `Partition` propagates, assuming `partition_ok`.
pub open spec fn partition_output(
    props: Seq<(Seq<char>, <ValueProperties as DeepView>::V)>,
    pubs: Seq<(Seq<char>, <Value as DeepView>::V)>,
    node_id: u32,
) -> crate::props::IndexmapPropertiesV
    recommends
        partition_ok(props, pubs),
{
    let d = str_lookup(props, "data"@)->0->Array_0;
    match str_lookup(props, "by"@) {
        Some(ValuePropertiesV::Array(b)) => crate::props::IndexmapPropertiesV {
            num_records: None,
            disjoint: true,
            children: partition_children(
                category_keys(b.categories->0),
                with_group_layer(ArrayPropertiesV { num_records: None, ..d }, node_id),
            ),
            dataset_id: Some(node_id as i64),
            variant: IndexmapVariant::Partition,
        },
        _ => {
            let k = first_int_v(str_lookup(pubs, "num_partitions"@)->0->Array_0)->0;
            crate::props::IndexmapPropertiesV {
                num_records: d.num_records,
                disjoint: false,
                children: count_children(d, k, node_id),
                dataset_id: Some(node_id as i64),
                variant: IndexmapVariant::Partition,
            }
        },
    }
}

/// Propagates properties through a `Partition` node.  By categories,
/// the output is a disjoint index map keyed by the `by` column's
/// categories; by count, an index map keyed by part index whose parts
/// carry the even split of the parent's record count.
pub fn propagate_partition(
    public_arguments: &Vec<(String, Value)>,
    node_properties: &Vec<(String, ValueProperties)>,
    node_id: u32,
) -> (r: Result<Warnable<ValueProperties>, Error>)
    ensures
        match r {
            Ok(w) => {
                &&& partition_ok(node_properties.deep_view(), public_arguments.deep_view())
                &&& w.0.deep_view() == ValuePropertiesV::Indexmap(
                    partition_output(
                        node_properties.deep_view(),
                        public_arguments.deep_view(),
                        node_id,
                    ),
                )
                &&& w.1@.len() == 0
            },
            Err(e) => !partition_ok(node_properties.deep_view(), public_arguments.deep_view())
                && !(e.kind is BudgetExceeded),
        },
{
    let ghost propsv = node_properties.deep_view();
    let ghost pubsv = public_arguments.deep_view();
    let data_vp = match crate::maps::str_get(node_properties, &String::from_str("data")) {
        Some(p) => p,
        None => {
            return Err(Error::new(ErrorKind::Missing(String::from_str("data"))));
        },
    };
    let d = match data_vp.array() {
        Ok(d) => d,
        Err(e) => {
            return Err(e.at_argument(String::from_str("data")));
        },
    };
    match crate::maps::str_get(node_properties, &String::from_str("by")) {
        Some(by_vp) => {
            let b = match by_vp.array() {
                Ok(b) => b,
                Err(e) => {
                    return Err(e.at_argument(String::from_str("by")));
                },
            };
            let n = match b.num_columns_checked() {
                Ok(n) => n,
                Err(e) => {
                    return Err(e.at_argument(String::from_str("by")));
                },
            };
            if n != 1 {
                return Err(
                    Error::new(
                        ErrorKind::InvariantViolation(
                            String::from_str("the by argument must hold a single column"),
                        ),
                    ),
                );
            }
            let cats = match b.categories_checked() {
                Ok(c) => c,
                Err(e) => {
                    return Err(e.at_argument(String::from_str("by")));
                },
            };
            let mut parent = d.clone();
            parent.num_records = None;
            proof {
                assert(parent.deep_view() =~~= ArrayPropertiesV {
                    num_records: None,
                    ..data_vp.deep_view()->Array_0
                });
            }
            let parts = match broadcast_partitions(cats, &parent, node_id) {
                Ok(parts) => parts,
                Err(e) => {
                    return Err(e.at_argument(String::from_str("by")));
                },
            };
            let out = ValueProperties::Indexmap(
                IndexmapProperties {
                    num_records: None,
                    disjoint: true,
                    children: parts,
                    dataset_id: Some(node_id as i64),
                    variant: IndexmapVariant::Partition,
                },
            );
            proof {
                assert(out.deep_view() =~~= ValuePropertiesV::Indexmap(
                    partition_output(propsv, pubsv, node_id),
                ));
            }
            Ok(Warnable::new(out))
        },
        None => {
            let np_value = match crate::maps::str_get(
                public_arguments,
                &String::from_str("num_partitions"),
            ) {
                Some(v) => v,
                None => {
                    return Err(
                        Error::new(ErrorKind::Missing(String::from_str("num_partitions"))),
                    );
                },
            };
            let np_array = match np_value.array() {
                Ok(a) => a,
                Err(e) => {
                    return Err(e.at_argument(String::from_str("num_partitions")));
                },
            };
            let k = match np_array.first_int() {
                Ok(k) => k,
                Err(e) => {
                    return Err(e.at_argument(String::from_str("num_partitions")));
                },
            };
            let lengths = match d.num_records {
                Some(nr) => {
                    if nr < 0 {
                        return Err(
                            Error::new(
                                ErrorKind::InvariantViolation(
                                    String::from_str("record counts must not be negative"),
                                ),
                            ),
                        );
                    }
                    Some(even_split_lengths(nr, k))
                },
                None => None,
            };
            let ghost dv = data_vp.deep_view()->Array_0;
            let mut parts: Vec<(IndexKey, ArrayProperties)> = Vec::new();
            let mut index: i64 = 0;
            while index < k
        
        invariant
                    0 <= index,
                    k > 0 ==> index <= k,
                    k <= 0 ==> index == 0,
                    dv == data_vp.deep_view()->Array_0,
                    d.deep_view() == dv,
                    match lengths {
                        Some(ls) => dv.num_records is Some && dv.num_records->0 >= 0 && ls@.len()
                            == (if k >= 0 { k as int } else { 0int }) && forall|i: int|
                            0 <= i < ls@.len() ==> ls@[i] == spec_split_length(
                                dv.num_records->0,
                                k,
                                i,
                            ),
                        None => dv.num_records is None,
                    },
                    dv.num_records is Some ==> lengths is Some,
                    parts@.len() == index,
                    forall|j: int| 0 <= j < index ==> (#[trigger] parts@[j]).deep_view()
                        == count_children(dv, k, node_id)[j],
                decreases k - index,
            {
                let mut child = d.clone();
                child.num_records = match &lengths {
                    Some(ls) => Some(ls[index as usize]),
                    None => None,
                };
                child.group_id.push(GroupId { partition_id: node_id, index: None });
                proof {
                    assert(child.group_id.deep_view() =~= dv.group_id.push(
                        GroupId { partition_id: node_id, index: None },
                    ));
                    assert(child.deep_view() =~~= count_children(dv, k, node_id)[index as int].1);
                }
                parts.push((IndexKey::Int(index), child));
                index = index + 1;
            }
            proof {
                assert(parts.deep_view() =~= count_children(dv, k, node_id));
            }
            let out = ValueProperties::Indexmap(
                IndexmapProperties {
                    num_records: d.num_records,
                    disjoint: false,
                    children: parts,
                    dataset_id: Some(node_id as i64),
                    variant: IndexmapVariant::Partition,
                },
            );
            proof {
                assert(out.deep_view() =~~= ValuePropertiesV::Indexmap(
                    partition_output(propsv, pubsv, node_id),
                ));
            }
            Ok(Warnable::new(out))
        },
    }
}

} // verus!
