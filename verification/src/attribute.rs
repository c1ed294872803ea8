//! The attribute resolver's decision: how a platform attribute query's
//! status code and raw value turn into an owned query result. Every
//! platform error status maps to "not found" — most attributes are
//! legitimately absent on many elements, so absence is expected, not
//! exceptional.

use vstd::prelude::*;

verus! {

/// Outcome of one attribute query. Carries no ownership: the driver
/// releases every native handle of the query before this value is built.
#[derive(Clone, Debug)]
pub struct AttributeQueryResult {
    pub found: bool,
    pub value: Option<String>,
}

/// Builds the result of an attribute query from the platform's status code
/// (0 means success) and the converted value (`None` when the platform
/// returned a null value). The query counts as found exactly when the
/// status is zero and a value came back; it never fails.
pub fn attribute_result(status: i64, value: Option<String>) -> (r: AttributeQueryResult)
    ensures
        r.found <==> (status == 0 && value is Some),
        r.found ==> r.value == value,
        !r.found ==> r.value is None,
{
    if status == 0 {
        match value {
            Some(v) => AttributeQueryResult { found: true, value: Some(v) },
            None => AttributeQueryResult { found: false, value: None },
        }
    } else {
        AttributeQueryResult { found: false, value: None }
    }
}

} // verus!
