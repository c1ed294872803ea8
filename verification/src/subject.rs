//! The subject resolver's decisions: which process id an enrichment run
//! attributes a click to, and which process name stands in for one that
//! could not be looked up.

use vstd::prelude::*;
use crate::text::{int_str, i64_to_string};

verus! {

/// The subject of one mouse-click enrichment, built incrementally. The
/// native element handle itself stays with the driver; `element_found`
/// records whether one is held. `process_id` is always populated: it falls
/// back to the event's reported id when the element-level lookup fails.
/// The three attributes are each independently optional.
#[derive(Clone, Debug)]
pub struct ResolvedSubject {
    pub element_found: bool,
    pub process_id: i64,
    pub process_name: String,
    pub identifier: Option<String>,
    pub role: Option<String>,
    pub description: Option<String>,
}

/// The placeholder name of a process whose name lookup failed.
pub open spec fn fallback_name_seq(pid: int) -> Seq<char> {
    "PID_"@ + int_str(pid)
}

/// Renders the deterministic placeholder name for a process id.
pub fn fallback_process_name(pid: i64) -> (r: String)
    ensures
        r@ == fallback_name_seq(pid as int),
{
    proof {
        reveal_strlit("PID_");
    }
    let mut s = String::from_str("PID_");
    let digits = i64_to_string(pid);
    s.append(digits.as_str());
    s
}

/// The name an enrichment run uses for a process: the looked-up name when
/// the lookup succeeded, the deterministic placeholder otherwise. The
/// lookup itself is the driver's; this decision never fails.
pub fn resolve_process_name(pid: i64, lookup: Option<String>) -> (r: String)
    ensures
        match lookup {
            Some(name) => r@ == name@,
            None => r@ == fallback_name_seq(pid as int),
        },
{
    match lookup {
        Some(name) => name,
        None => fallback_process_name(pid),
    }
}

/// The process id a subject carries after the element's owner lookup came
/// back: the owner on success, the event's reported id on failure. A failed
/// owner lookup does not abort attribute enrichment.
pub fn owner_pid_or_fallback(status: i64, owner_pid: i64, reported_pid: i64) -> (r: i64)
    ensures
        r == if status == 0 {
            owner_pid
        } else {
            reported_pid
        },
{
    if status == 0 {
        owner_pid
    } else {
        reported_pid
    }
}

/// The subject that a failed point resolution yields: no element, no
/// attributes, and the process id taken from the event itself. No further
/// query is spent on it; the name is the deterministic placeholder.
pub fn subject_without_element(reported_pid: i64) -> (r: ResolvedSubject)
    ensures
        !r.element_found,
        r.process_id == reported_pid,
        r.process_name@ == fallback_name_seq(reported_pid as int),
        r.identifier is None,
        r.role is None,
        r.description is None,
{
    ResolvedSubject {
        element_found: false,
        process_id: reported_pid,
        process_name: fallback_process_name(reported_pid),
        identifier: None,
        role: None,
        description: None,
    }
}

} // verus!
