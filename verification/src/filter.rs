//! Translation of high-level query intents into the collaborator's native
//! filter expression.
//!
//! At most one intent is honored: a present, non-empty service list wins
//! over a highlighted flag, and the contains-filter uses only the first
//! service name; with neither intent there is no filter.

use vstd::prelude::*;
use vstd::string::StringExecFns;
use crate::value::{DocValue, is_text_value};

verus! {

/// Whether `f` is the equals-filter on the checkbox property `prop` with
/// value `b`.
pub open spec fn is_checkbox_filter(f: DocValue, prop: Seq<char>, b: bool) -> bool {
    match f {
        DocValue::Object(pairs) => {
            &&& pairs@.len() == 2
            &&& pairs@[0].0@ == "property"@
            &&& is_text_value(pairs@[0].1, prop)
            &&& pairs@[1].0@ == "checkbox"@
            &&& match pairs@[1].1 {
                DocValue::Object(inner) => {
                    &&& inner@.len() == 1
                    &&& inner@[0].0@ == "equals"@
                    &&& inner@[0].1 == DocValue::Bool(b)
                },
                _ => false,
            }
        },
        _ => false,
    }
}

/// Whether `f` is the contains-filter on the multi-select property `prop`
/// with value `value`.
pub open spec fn is_contains_filter(f: DocValue, prop: Seq<char>, value: Seq<char>) -> bool {
    match f {
        DocValue::Object(pairs) => {
            &&& pairs@.len() == 2
            &&& pairs@[0].0@ == "property"@
            &&& is_text_value(pairs@[0].1, prop)
            &&& pairs@[1].0@ == "multi_select"@
            &&& match pairs@[1].1 {
                DocValue::Object(inner) => {
                    &&& inner@.len() == 1
                    &&& inner@[0].0@ == "contains"@
                    &&& is_text_value(inner@[0].1, value)
                },
                _ => false,
            }
        },
        _ => false,
    }
}

/// Whether a service list is present and non-empty.
pub open spec fn has_service(services: Option<Vec<String>>) -> bool {
    match services {
        Some(v) => v@.len() > 0,
        None => false,
    }
}

/// The first service name of a present, non-empty service list.
pub open spec fn first_service(services: Option<Vec<String>>) -> Seq<char>
    recommends
        has_service(services),
{
    match services {
        Some(v) => v@[0]@,
        None => Seq::empty(),
    }
}

/// Builds the native filter for a database query from the two optional
/// intents.  A present, non-empty service list yields the contains-filter
/// on its first name, overriding the highlighted flag; otherwise a present
/// highlighted flag yields the checkbox equals-filter; otherwise there is
/// no filter.
pub fn build_database_filter(highlighted: Option<bool>, services: &Option<Vec<String>>) -> (r:
    Option<DocValue>)
    ensures
        has_service(*services) ==> (r matches Some(f) && is_contains_filter(
            f,
            "Services"@,
            first_service(*services),
        )),
        !has_service(*services) ==> match highlighted {
            Some(b) => r matches Some(f) && is_checkbox_filter(f, "00. Highlighted"@, b),
            None => r is None,
        },
{
    match services {
        Some(list) => {
            if list.len() > 0 {
                let mut inner: Vec<(String, DocValue)> = Vec::new();
                inner.push((String::from_str("contains"), DocValue::Text(list[0].clone())));
                let mut pairs: Vec<(String, DocValue)> = Vec::new();
                pairs.push(
                    (String::from_str("property"), DocValue::Text(String::from_str("Services"))),
                );
                pairs.push((String::from_str("multi_select"), DocValue::Object(inner)));
                return Some(DocValue::Object(pairs));
            }
        },
        None => {},
    }
    match highlighted {
        Some(b) => {
            let mut inner: Vec<(String, DocValue)> = Vec::new();
            inner.push((String::from_str("equals"), DocValue::Bool(b)));
            let mut pairs: Vec<(String, DocValue)> = Vec::new();
            pairs.push(
                (
                    String::from_str("property"),
                    DocValue::Text(String::from_str("00. Highlighted")),
                ),
            );
            pairs.push((String::from_str("checkbox"), DocValue::Object(inner)));
            Some(DocValue::Object(pairs))
        },
        None => None,
    }
}

} // verus!
