//! The event classifier and enrichment orchestrator, written as a state
//! machine over plain values. The driver performs each requested platform
//! query (element at point, owning process, process name, network
//! counters, attribute copy) and hands the outcome back; every decision in
//! between — classification, fallbacks, which attribute to ask for next,
//! which record to emit, when the held element handle is released — is
//! taken here and proved. The driver always returns the original event to
//! the event source unchanged, whatever the machine decided.

use vstd::prelude::*;
use crate::attribute::attribute_result;
use crate::event::{EventKind, RawInputEvent, ScreenPosition};
use crate::record::{record_level, EnrichedRecord, LogLevel};
use crate::subject::{
    fallback_name_seq, owner_pid_or_fallback, resolve_process_name, ResolvedSubject,
};
use crate::text::{int_str, i64_to_string, str_eq};

verus! {

/// The attribute names an enrichment run queries.
#[derive(Clone, Copy, PartialEq, Eq, Structural, Debug)]
pub enum AttributeName {
    Identifier,
    Role,
    Description,
}

/// What the machine asks the driver to do next. `Finish` ends the run:
/// the driver releases the element handle exactly when `release_element`
/// says so, logs the record if one is carried, and returns the event.
#[derive(Clone, Debug)]
pub enum Action {
    /// Resolve the topmost element at the click position.
    ResolveElementAtPoint { x_tenths: i64, y_tenths: i64 },
    /// Resolve the owning process id of the held element.
    ResolveOwnerPid,
    /// Look up the human-readable name of a process.
    LookupProcessName { pid: i64 },
    /// Observe the network counters filtered by this target key.
    ObserveNetwork { target_key: String },
    /// Copy one attribute of the held element.
    QueryAttribute { attribute: AttributeName },
    /// The run is over.
    Finish { release_element: bool, record: Option<EnrichedRecord> },
}

/// What the driver reports back for the action it performed.
#[derive(Clone, Debug)]
pub enum Outcome {
    /// Status of the element-at-point query (0 is success) and whether a
    /// non-null element handle came back.
    ElementAtPoint { status: i64, element_found: bool },
    /// Status of the owning-process query and the id it reported.
    OwnerPid { status: i64, pid: i64 },
    /// The process name, or `None` when the lookup failed.
    ProcessName { name: Option<String> },
    /// The network observation ran (its deltas are logged by the driver).
    NetworkObserved,
    /// Status of an attribute query and the converted value, `None` for a
    /// null value.
    Attribute { status: i64, value: Option<String> },
}

/// Where an enrichment run stands: which outcome it awaits.
#[derive(Clone, Debug)]
pub enum Phase {
    AwaitPoint { reported_pid: i64, pos: ScreenPosition },
    AwaitOwnerPid { reported_pid: i64, pos: ScreenPosition },
    AwaitName { subject: ResolvedSubject, pos: ScreenPosition },
    AwaitNetwork { subject: ResolvedSubject, pos: ScreenPosition },
    AwaitIdentifier { subject: ResolvedSubject, pos: ScreenPosition },
    AwaitRole { subject: ResolvedSubject, pos: ScreenPosition },
    AwaitDescription { subject: ResolvedSubject, pos: ScreenPosition },
    AwaitKeyName { reported_pid: i64, key_code: i64 },
    Done,
}

/// The phases in which the driver holds an element handle on the
/// machine's behalf: from a successful point resolution until the
/// finishing action releases it.
pub open spec fn holds_element(p: Phase) -> bool {
    match p {
        Phase::AwaitOwnerPid { .. } => true,
        Phase::AwaitName { .. } => true,
        Phase::AwaitNetwork { .. } => true,
        Phase::AwaitIdentifier { .. } => true,
        Phase::AwaitRole { .. } => true,
        Phase::AwaitDescription { .. } => true,
        _ => false,
    }
}

/// The actions that spend an enrichment query: element, owner, attribute
/// or network resolution. Name lookups and finishing actions are none.
pub open spec fn issues_enrichment_query(a: Action) -> bool {
    match a {
        Action::ResolveElementAtPoint { .. } => true,
        Action::ResolveOwnerPid => true,
        Action::ObserveNetwork { .. } => true,
        Action::QueryAttribute { .. } => true,
        _ => false,
    }
}

/// The name an enrichment run uses for a process, as a sequence.
pub open spec fn resolved_name_seq(pid: int, name: Option<String>) -> Seq<char> {
    match name {
        Some(n) => n@,
        None => fallback_name_seq(pid),
    }
}

/// The value an attribute query yields: the platform value on success,
/// nothing on any failure.
pub open spec fn attr_value(status: i64, value: Option<String>) -> Option<String> {
    if status == 0 && value is Some {
        value
    } else {
        None
    }
}

/// Whether a resolved role is the button role.
pub open spec fn is_button_role(v: Option<String>) -> bool {
    match v {
        Some(s) => s@ == "AXButton"@,
        None => false,
    }
}

/// A run that was fed an outcome its phase does not await ends at once,
/// releasing the element if one was held and emitting nothing.
pub open spec fn mismatch_post(phase: Phase, next: Phase, action: Action) -> bool {
    &&& next is Done
    &&& action == (Action::Finish {
        release_element: holds_element(phase),
        record: None::<EnrichedRecord>,
    })
}

/// What classifying one raw event decides.
pub open spec fn begin_post(event: RawInputEvent, phase: Phase, action: Action) -> bool {
    match event.kind {
        EventKind::TapDisabledTimeout => {
            &&& phase is Done
            &&& action == (Action::Finish {
                release_element: false,
                record: Some(EnrichedRecord::TapDisabled { timeout: true }),
            })
        },
        EventKind::TapDisabledUserInput => {
            &&& phase is Done
            &&& action == (Action::Finish {
                release_element: false,
                record: Some(EnrichedRecord::TapDisabled { timeout: false }),
            })
        },
        EventKind::Other => {
            &&& phase is Done
            &&& action == (Action::Finish { release_element: false, record: None::<EnrichedRecord> })
        },
        EventKind::KeyDown => match event.key_code {
            Some(k) => {
                &&& phase == (Phase::AwaitKeyName { reported_pid: event.reported_pid, key_code: k })
                &&& action == (Action::LookupProcessName { pid: event.reported_pid })
            },
            None => {
                &&& phase is Done
                &&& action == (Action::Finish {
                    release_element: false,
                    record: None::<EnrichedRecord>,
                })
            },
        },
        EventKind::PrimaryMouseDown => match event.position {
            Some(p) => {
                &&& phase == (Phase::AwaitPoint { reported_pid: event.reported_pid, pos: p })
                &&& action == (Action::ResolveElementAtPoint {
                    x_tenths: p.x_tenths,
                    y_tenths: p.y_tenths,
                })
            },
            None => {
                &&& phase is Done
                &&& action == (Action::Finish {
                    release_element: false,
                    record: None::<EnrichedRecord>,
                })
            },
        },
    }
}

/// What one transition of the machine decides, for every phase and every
/// outcome.
pub open spec fn step_post(phase: Phase, outcome: Outcome, next: Phase, action: Action) -> bool {
    match phase {
        Phase::AwaitPoint { reported_pid, pos } => match outcome {
            Outcome::ElementAtPoint { status, element_found } => {
                if status != 0 || !element_found {
                    &&& next is Done
                    &&& action == (Action::Finish {
                        release_element: false,
                        record: None::<EnrichedRecord>,
                    })
                } else {
                    &&& next == (Phase::AwaitOwnerPid { reported_pid, pos })
                    &&& action == Action::ResolveOwnerPid
                }
            },
            _ => mismatch_post(phase, next, action),
        },
        Phase::AwaitOwnerPid { reported_pid, pos } => match outcome {
            Outcome::OwnerPid { status, pid } => {
                let chosen = if status == 0 {
                    pid
                } else {
                    reported_pid
                };
                &&& next matches Phase::AwaitName { subject, pos: p2 } && p2 == pos
                    && subject.element_found && subject.process_id == chosen
                    && subject.process_name@ == Seq::<char>::empty() && subject.identifier is None
                    && subject.role is None && subject.description is None
                &&& action == (Action::LookupProcessName { pid: chosen })
            },
            _ => mismatch_post(phase, next, action),
        },
        Phase::AwaitName { subject, pos } => match outcome {
            Outcome::ProcessName { name } => {
                &&& next matches Phase::AwaitNetwork { subject: s2, pos: p2 } && p2 == pos
                    && s2.element_found == subject.element_found && s2.process_id
                    == subject.process_id && s2.process_name@ == resolved_name_seq(
                    subject.process_id as int,
                    name,
                ) && s2.identifier == subject.identifier && s2.role == subject.role
                    && s2.description == subject.description
                &&& action matches Action::ObserveNetwork { target_key } && target_key@ == int_str(
                    subject.process_id as int,
                )
            },
            _ => mismatch_post(phase, next, action),
        },
        Phase::AwaitNetwork { subject, pos } => match outcome {
            Outcome::NetworkObserved => {
                &&& next == (Phase::AwaitIdentifier { subject, pos })
                &&& action == (Action::QueryAttribute { attribute: AttributeName::Identifier })
            },
            _ => mismatch_post(phase, next, action),
        },
        Phase::AwaitIdentifier { subject, pos } => match outcome {
            Outcome::Attribute { status, value } => {
                &&& next matches Phase::AwaitRole { subject: s2, pos: p2 } && p2 == pos
                    && s2.element_found == subject.element_found && s2.process_id
                    == subject.process_id && s2.process_name == subject.process_name
                    && s2.identifier == attr_value(status, value) && s2.role == subject.role
                    && s2.description == subject.description
                &&& action == (Action::QueryAttribute { attribute: AttributeName::Role })
            },
            _ => mismatch_post(phase, next, action),
        },
        Phase::AwaitRole { subject, pos } => match outcome {
            Outcome::Attribute { status, value } => {
                let role_v = attr_value(status, value);
                if is_button_role(role_v) {
                    &&& next matches Phase::AwaitDescription { subject: s2, pos: p2 } && p2 == pos
                        && s2.element_found == subject.element_found && s2.process_id
                        == subject.process_id && s2.process_name == subject.process_name
                        && s2.identifier == subject.identifier && s2.role == role_v
                        && s2.description == subject.description
                    &&& action == (Action::QueryAttribute { attribute: AttributeName::Description })
                } else if subject.identifier is Some {
                    &&& next is Done
                    &&& action matches Action::Finish { release_element, record } && release_element
                        && (record matches Some(EnrichedRecord::ElementClick {
                        app_name,
                        pid,
                        identifier,
                        role,
                        pos: rp,
                    }) && app_name@ == subject.process_name@ && pid == subject.process_id
                        && identifier@ == subject.identifier->0@ && role == role_v && rp == pos)
                } else {
                    &&& next is Done
                    &&& action == (Action::Finish {
                        release_element: true,
                        record: None::<EnrichedRecord>,
                    })
                }
            },
            _ => mismatch_post(phase, next, action),
        },
        Phase::AwaitDescription { subject, pos } => match outcome {
            Outcome::Attribute { status, value } => {
                &&& next is Done
                &&& action matches Action::Finish { release_element, record } && release_element
                    && (record matches Some(EnrichedRecord::ButtonClick {
                    app_name,
                    pid,
                    identifier,
                    label,
                    pos: rp,
                }) && app_name@ == subject.process_name@ && pid == subject.process_id && identifier
                    == subject.identifier && label == attr_value(status, value) && rp == pos)
            },
            _ => mismatch_post(phase, next, action),
        },
        Phase::AwaitKeyName { reported_pid, key_code } => match outcome {
            Outcome::ProcessName { name } => {
                &&& next is Done
                &&& action matches Action::Finish { release_element, record } && !release_element
                    && (record matches Some(EnrichedRecord::KeyPress { app_name, pid, key_code: kc })
                    && app_name@ == resolved_name_seq(reported_pid as int, name) && pid
                    == reported_pid && kc == key_code)
            },
            _ => mismatch_post(phase, next, action),
        },
        Phase::Done => mismatch_post(phase, next, action),
    }
}

/// Classifies one raw event and opens its run: tap-disabled notifications
/// warn and stop, unhandled kinds stop silently, key presses ask for the
/// process name only, and a primary mouse down opens the enrichment
/// sequence at its screen position.
pub fn begin(event: &RawInputEvent) -> (r: (Phase, Action))
    ensures
        begin_post(*event, r.0, r.1),
{
    match event.kind {
        EventKind::TapDisabledTimeout => (
            Phase::Done,
            Action::Finish {
                release_element: false,
                record: Some(EnrichedRecord::TapDisabled { timeout: true }),
            },
        ),
        EventKind::TapDisabledUserInput => (
            Phase::Done,
            Action::Finish {
                release_element: false,
                record: Some(EnrichedRecord::TapDisabled { timeout: false }),
            },
        ),
        EventKind::Other => (
            Phase::Done,
            Action::Finish { release_element: false, record: None },
        ),
        EventKind::KeyDown => match event.key_code {
            Some(k) => (
                Phase::AwaitKeyName { reported_pid: event.reported_pid, key_code: k },
                Action::LookupProcessName { pid: event.reported_pid },
            ),
            None => (Phase::Done, Action::Finish { release_element: false, record: None }),
        },
        EventKind::PrimaryMouseDown => match event.position {
            Some(p) => (
                Phase::AwaitPoint { reported_pid: event.reported_pid, pos: p },
                Action::ResolveElementAtPoint { x_tenths: p.x_tenths, y_tenths: p.y_tenths },
            ),
            None => (Phase::Done, Action::Finish { release_element: false, record: None }),
        },
    }
}

/// Advances one run by the outcome the driver reports. Total: an outcome
/// the phase does not await ends the run, releasing a held element.
pub fn step(phase: Phase, outcome: Outcome) -> (r: (Phase, Action))
    ensures
        step_post(phase, outcome, r.0, r.1),
{
    match phase {
        Phase::AwaitPoint { reported_pid, pos } => match outcome {
            Outcome::ElementAtPoint { status, element_found } => {
                if status != 0 || !element_found {
                    (Phase::Done, Action::Finish { release_element: false, record: None })
                } else {
                    (Phase::AwaitOwnerPid { reported_pid, pos }, Action::ResolveOwnerPid)
                }
            },
            _ => (Phase::Done, Action::Finish { release_element: false, record: None }),
        },
        Phase::AwaitOwnerPid { reported_pid, pos } => match outcome {
            Outcome::OwnerPid { status, pid } => {
                let chosen = owner_pid_or_fallback(status, pid, reported_pid);
                let subject = ResolvedSubject {
                    element_found: true,
                    process_id: chosen,
                    process_name: String::new(),
                    identifier: None,
                    role: None,
                    description: None,
                };
                (
                    Phase::AwaitName { subject, pos },
                    Action::LookupProcessName { pid: chosen },
                )
            },
            _ => (Phase::Done, Action::Finish { release_element: true, record: None }),
        },
        Phase::AwaitName { subject, pos } => match outcome {
            Outcome::ProcessName { name } => {
                let target_key = i64_to_string(subject.process_id);
                let named = ResolvedSubject {
                    process_name: resolve_process_name(subject.process_id, name),
                    ..subject
                };
                (
                    Phase::AwaitNetwork { subject: named, pos },
                    Action::ObserveNetwork { target_key },
                )
            },
            _ => (Phase::Done, Action::Finish { release_element: true, record: None }),
        },
        Phase::AwaitNetwork { subject, pos } => match outcome {
            Outcome::NetworkObserved => (
                Phase::AwaitIdentifier { subject, pos },
                Action::QueryAttribute { attribute: AttributeName::Identifier },
            ),
            _ => (Phase::Done, Action::Finish { release_element: true, record: None }),
        },
        Phase::AwaitIdentifier { subject, pos } => match outcome {
            Outcome::Attribute { status, value } => {
                let found = attribute_result(status, value);
                let with_id = ResolvedSubject { identifier: found.value, ..subject };
                (
                    Phase::AwaitRole { subject: with_id, pos },
                    Action::QueryAttribute { attribute: AttributeName::Role },
                )
            },
            _ => (Phase::Done, Action::Finish { release_element: true, record: None }),
        },
        Phase::AwaitRole { subject, pos } => match outcome {
            Outcome::Attribute { status, value } => {
                let found = attribute_result(status, value);
                let role_v = found.value;
                let is_btn = match &role_v {
                    Some(rv) => str_eq(rv.as_str(), "AXButton"),
                    None => false,
                };
                if is_btn {
                    let with_role = ResolvedSubject { role: role_v, ..subject };
                    (
                        Phase::AwaitDescription { subject: with_role, pos },
                        Action::QueryAttribute { attribute: AttributeName::Description },
                    )
                } else {
                    match subject.identifier {
                        Some(id) => (
                            Phase::Done,
                            Action::Finish {
                                release_element: true,
                                record: Some(
                                    EnrichedRecord::ElementClick {
                                        app_name: subject.process_name,
                                        pid: subject.process_id,
                                        identifier: id,
                                        role: role_v,
                                        pos,
                                    },
                                ),
                            },
                        ),
                        None => (
                            Phase::Done,
                            Action::Finish { release_element: true, record: None },
                        ),
                    }
                }
            },
            _ => (Phase::Done, Action::Finish { release_element: true, record: None }),
        },
        Phase::AwaitDescription { subject, pos } => match outcome {
            Outcome::Attribute { status, value } => {
                let found = attribute_result(status, value);
                (
                    Phase::Done,
                    Action::Finish {
                        release_element: true,
                        record: Some(
                            EnrichedRecord::ButtonClick {
                                app_name: subject.process_name,
                                pid: subject.process_id,
                                identifier: subject.identifier,
                                label: found.value,
                                pos,
                            },
                        ),
                    },
                )
            },
            _ => (Phase::Done, Action::Finish { release_element: true, record: None }),
        },
        Phase::AwaitKeyName { reported_pid, key_code } => match outcome {
            Outcome::ProcessName { name } => (
                Phase::Done,
                Action::Finish {
                    release_element: false,
                    record: Some(
                        EnrichedRecord::KeyPress {
                            app_name: resolve_process_name(reported_pid, name),
                            pid: reported_pid,
                            key_code,
                        },
                    ),
                },
            ),
            _ => (Phase::Done, Action::Finish { release_element: false, record: None }),
        },
        Phase::Done => (Phase::Done, Action::Finish { release_element: false, record: None }),
    }
}


/// Law: every element handle is released exactly once. A run finishes
/// exactly when it reaches `Done`, and its finishing action orders a
/// release precisely when the machine held an element — on the success
/// paths, the failure paths and the protocol-mismatch paths alike.
pub proof fn lemma_element_release(phase: Phase, outcome: Outcome, next: Phase, action: Action)
    requires
        step_post(phase, outcome, next, action),
    ensures
        next is Done <==> action is Finish,
        action matches Action::Finish { release_element, .. } ==> release_element == holds_element(
            phase,
        ),
        !(action is Finish) ==> holds_element(next) || next matches Phase::AwaitKeyName { .. },
{
}

/// Law: when point resolution fails (non-zero status or a null element),
/// the run stops at once — no record is emitted, no element is held, and
/// no further query of any kind is issued.
pub proof fn lemma_point_failure_stops(
    reported_pid: i64,
    pos: ScreenPosition,
    status: i64,
    element_found: bool,
    next: Phase,
    action: Action,
)
    requires
        status != 0 || !element_found,
        step_post(
            Phase::AwaitPoint { reported_pid, pos },
            Outcome::ElementAtPoint { status, element_found },
            next,
            action,
        ),
    ensures
        next is Done,
        action == (Action::Finish { release_element: false, record: None::<EnrichedRecord> }),
        !issues_enrichment_query(action),
{
}

/// Law: a key-down event runs in exactly two transitions: one name
/// lookup, then one finishing action that carries exactly one `KeyPress`
/// record for the reported process. Neither transition issues an
/// enrichment query — no element, attribute or network resolution is ever
/// asked for.
pub proof fn lemma_key_down_run(
    event: RawInputEvent,
    p1: Phase,
    a1: Action,
    name: Option<String>,
    p2: Phase,
    a2: Action,
)
    requires
        event.kind is KeyDown,
        event.key_code is Some,
        begin_post(event, p1, a1),
        step_post(p1, Outcome::ProcessName { name }, p2, a2),
    ensures
        a1 == (Action::LookupProcessName { pid: event.reported_pid }),
        !issues_enrichment_query(a1),
        p2 is Done,
        !issues_enrichment_query(a2),
        a2 matches Action::Finish { release_element, record } ==> !release_element && (
        record matches Some(EnrichedRecord::KeyPress { app_name, pid, key_code }) && app_name@
            == resolved_name_seq(event.reported_pid as int, name) && pid == event.reported_pid
            && key_code == event.key_code->0),
        a2 is Finish,
{
}

/// Law: a tap-disabled notification ends its run immediately with exactly
/// one record, a warning, and issues no query at all.
pub proof fn lemma_tap_disabled_warns(event: RawInputEvent, phase: Phase, action: Action)
    requires
        event.kind is TapDisabledTimeout || event.kind is TapDisabledUserInput,
        begin_post(event, phase, action),
    ensures
        phase is Done,
        !issues_enrichment_query(action),
        action matches Action::Finish { release_element, record } && !release_element && (
        record matches Some(r) && r is TapDisabled && record_level(r) == LogLevel::Warn),
{
}


/// Law: the full button path. When point resolution succeeds, the machine
/// asks for the owner, the name, the network observation, the identifier
/// and the role in that order, and when the role resolves to the button
/// role it asks for the description and finishes with exactly one
/// `ButtonClick` record — the subject's name and identifier, the
/// description as its label, the click position — releasing the element.
pub proof fn lemma_button_click_run(
    event: RawInputEvent,
    pos: ScreenPosition,
    run: Seq<(Phase, Outcome, Phase, Action)>,
)
    requires
        event.kind is PrimaryMouseDown,
        event.position == Some(pos),
        run.len() == 7,
        begin_post(event, run[0].0, Action::ResolveElementAtPoint {
            x_tenths: pos.x_tenths,
            y_tenths: pos.y_tenths,
        }),
        forall|i: int| 0 <= i < 7 ==> step_post(run[i].0, run[i].1, run[i].2, #[trigger] run[i].3),
        run[1].0 == run[0].2,
        run[2].0 == run[1].2,
        run[3].0 == run[2].2,
        run[4].0 == run[3].2,
        run[5].0 == run[4].2,
        run[6].0 == run[5].2,
        run[0].1 matches Outcome::ElementAtPoint { status, element_found } && status == 0
            && element_found,
        run[1].1 is OwnerPid,
        run[2].1 is ProcessName,
        run[3].1 is NetworkObserved,
        run[4].1 is Attribute,
        run[5].1 matches Outcome::Attribute { status, value } && is_button_role(
            attr_value(status, value),
        ),
        run[6].1 is Attribute,
    ensures
        run[0].3 == Action::ResolveOwnerPid,
        run[1].3 matches Action::LookupProcessName { .. },
        run[2].3 matches Action::ObserveNetwork { .. },
        run[3].3 == (Action::QueryAttribute { attribute: AttributeName::Identifier }),
        run[4].3 == (Action::QueryAttribute { attribute: AttributeName::Role }),
        run[5].3 == (Action::QueryAttribute { attribute: AttributeName::Description }),
        run[6].2 is Done,
        run[6].3 matches Action::Finish { release_element, record } && release_element && (
        record matches Some(EnrichedRecord::ButtonClick { pid, identifier, label, pos: rp, .. })
            && rp == pos && (run[1].1 matches Outcome::OwnerPid { status, pid: owner } && pid == (
        if status == 0 {
            owner
        } else {
            event.reported_pid
        })) && (run[4].1 matches Outcome::Attribute { status, value } && identifier == attr_value(
            status,
            value,
        )) && (run[6].1 matches Outcome::Attribute { status, value } && label == attr_value(
            status,
            value,
        ))),
{
}

} // verus!
