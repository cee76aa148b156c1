//! The `Impute` component: replaces nulls, so nullity clears; valid
//! only when bounds and the record count are known.

use vstd::prelude::*;
use crate::errors::{Error, ErrorKind};
use crate::maps::str_lookup;
use crate::props::{ArrayPropertiesV, ValueProperties, ValuePropertiesV};
use crate::Warnable;

verus! {

/// The array properties of the `data` argument, when it is an array.
pub open spec fn data_array(props: Seq<(Seq<char>, <ValueProperties as DeepView>::V)>) -> Option<
    ArrayPropertiesV,
> {
    match str_lookup(props, "data"@) {
        Some(ValuePropertiesV::Array(d)) => Some(d),
        _ => None,
    }
}

/// When `Impute` can propagate: lower and upper bounds and the record
/// count of the data are all known.
pub open spec fn impute_ok(props: Seq<(Seq<char>, <ValueProperties as DeepView>::V)>) -> bool {
    match data_array(props) {
        Some(d) => d.lower is Some && d.upper is Some && d.num_records is Some,
        None => false,
    }
}

/// The properties `Impute` propagates: the data's, with nullity
/// cleared and everything else untouched; in particular the column
/// count is preserved.
pub open spec fn impute_output(d: ArrayPropertiesV) -> ArrayPropertiesV {
    ArrayPropertiesV { nullity: false, ..d }
}

/// Propagates properties through an `Impute` node.
pub fn propagate_impute(node_properties: &Vec<(String, ValueProperties)>) -> (r: Result<
    Warnable<ValueProperties>,
    Error,
>)
    ensures
        match r {
            Ok(w) => {
                &&& impute_ok(node_properties.deep_view())
                &&& w.0.deep_view() == ValuePropertiesV::Array(
                    impute_output(data_array(node_properties.deep_view())->0),
                )
                &&& w.1@.len() == 0
            },
            Err(e) => !impute_ok(node_properties.deep_view()) && !(e.kind is BudgetExceeded),
        },
{
    let data_vp = match crate::maps::str_get(node_properties, &String::from_str("data")) {
        Some(p) => p,
        None => {
            return Err(Error::new(ErrorKind::Missing(String::from_str("data"))));
        },
    };
    let d = match data_vp.array() {
        Ok(d) => d,
        Err(e) => {
            return Err(e.at_argument(String::from_str("data")));
        },
    };
    if let Err(e) = d.num_records_checked() {
        return Err(e.at_argument(String::from_str("data")));
    }
    if d.lower.is_none() {
        return Err(Error::new(ErrorKind::Missing(String::from_str("lower"))));
    }
    if d.upper.is_none() {
        return Err(Error::new(ErrorKind::Missing(String::from_str("upper"))));
    }
    let mut out = d.clone();
    out.nullity = false;
    proof {
        assert(out.deep_view() =~~= impute_output(data_array(node_properties.deep_view())->0));
    }
    Ok(Warnable::new(ValueProperties::Array(out)))
}

} // verus!
