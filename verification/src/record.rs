//! The enriched records and the record logger. A record is the terminal
//! value of one enrichment run; the logger maps each record to one log
//! line and a severity, degrading an absent field to a placeholder rather
//! than failing. The driver writes the line to its sink.

use vstd::prelude::*;
use crate::event::ScreenPosition;
use crate::network::{delta_model, NetworkUsageDelta};
use crate::text::{int_str, i64_to_string, tenths_str, tenths_to_string, dec_str, u64_to_string};

verus! {

/// Severity of one log line.
#[derive(Clone, Copy, PartialEq, Eq, Structural, Debug)]
pub enum LogLevel {
    Debug,
    Info,
    Warn,
    Error,
}

/// The terminal value of one enrichment run.
#[derive(Clone, Debug)]
pub enum EnrichedRecord {
    /// A click on an element whose role is the button role.
    ButtonClick {
        app_name: String,
        pid: i64,
        identifier: Option<String>,
        label: Option<String>,
        pos: ScreenPosition,
    },
    /// A click on a non-button element that carries an identifier.
    ElementClick {
        app_name: String,
        pid: i64,
        identifier: String,
        role: Option<String>,
        pos: ScreenPosition,
    },
    /// A key press, attributed to the event's reported process.
    KeyPress { app_name: String, pid: i64, key_code: i64 },
    /// The interception facility disabled itself.
    TapDisabled { timeout: bool },
}

/// The text an optional field renders as: the value, or the placeholder.
pub open spec fn opt_text(o: Option<String>, placeholder: Seq<char>) -> Seq<char> {
    match o {
        Some(s) => s@,
        None => placeholder,
    }
}

/// The line a button click logs.
pub open spec fn button_click_line(
    app: Seq<char>,
    pid: int,
    id: Seq<char>,
    label: Seq<char>,
    x: int,
    y: int,
) -> Seq<char> {
    "Button Clicked: App='"@ + app + "' (PID="@ + int_str(pid) + "), ID='"@ + id + "', Label='"@
        + label + "', Pos=("@ + tenths_str(x) + ", "@ + tenths_str(y) + ")"@
}

/// The line a non-button element click logs.
pub open spec fn element_click_line(
    app: Seq<char>,
    pid: int,
    id: Seq<char>,
    role: Seq<char>,
    x: int,
    y: int,
) -> Seq<char> {
    "Element Clicked: App='"@ + app + "' (PID="@ + int_str(pid) + "), ID='"@ + id + "', Role='"@
        + role + "', Pos=("@ + tenths_str(x) + ", "@ + tenths_str(y) + ")"@
}

/// The line a key press logs.
pub open spec fn key_press_line(app: Seq<char>, pid: int, key_code: int) -> Seq<char> {
    "Key Down: App='"@ + app + "' (PID="@ + int_str(pid) + "), KeyCode="@ + int_str(key_code)
}

/// The warning a tap-disabled notification logs.
pub open spec fn tap_disabled_line(timeout: bool) -> Seq<char> {
    if timeout {
        "Event tap disabled (timeout); input monitoring stopped"@
    } else {
        "Event tap disabled (user input); input monitoring stopped"@
    }
}

/// The line one record renders as.
pub open spec fn record_line(r: EnrichedRecord) -> Seq<char> {
    match r {
        EnrichedRecord::ButtonClick { app_name, pid, identifier, label, pos } => button_click_line(
            app_name@,
            pid as int,
            opt_text(identifier, "<No ID>"@),
            opt_text(label, "<No Label>"@),
            pos.x_tenths as int,
            pos.y_tenths as int,
        ),
        EnrichedRecord::ElementClick { app_name, pid, identifier, role, pos } => element_click_line(
            app_name@,
            pid as int,
            identifier@,
            opt_text(role, Seq::<char>::empty()),
            pos.x_tenths as int,
            pos.y_tenths as int,
        ),
        EnrichedRecord::KeyPress { app_name, pid, key_code } => key_press_line(
            app_name@,
            pid as int,
            key_code as int,
        ),
        EnrichedRecord::TapDisabled { timeout } => tap_disabled_line(timeout),
    }
}

/// The severity one record logs at: tap-disabled notifications are
/// warnings, every delivered record is information.
pub open spec fn record_level(r: EnrichedRecord) -> LogLevel {
    match r {
        EnrichedRecord::TapDisabled { .. } => LogLevel::Warn,
        _ => LogLevel::Info,
    }
}

fn append_opt(s: &mut String, o: &Option<String>, placeholder: &str)
    ensures
        final(s)@ == old(s)@ + opt_text(*o, placeholder@),
{
    match o {
        Some(v) => s.append(v.as_str()),
        None => s.append(placeholder),
    }
}

/// Formats one record into its log line and severity. Never fails: an
/// absent identifier or label degrades to its placeholder text.
pub fn format_record(r: &EnrichedRecord) -> (out: (LogLevel, String))
    ensures
        out.0 == record_level(*r),
        out.1@ == record_line(*r),
{
    match r {
        EnrichedRecord::ButtonClick { app_name, pid, identifier, label, pos } => {
            let mut s = String::from_str("Button Clicked: App='");
            s.append(app_name.as_str());
            s.append("' (PID=");
            let pid_text = i64_to_string(*pid);
            s.append(pid_text.as_str());
            s.append("), ID='");
            append_opt(&mut s, identifier, "<No ID>");
            s.append("', Label='");
            append_opt(&mut s, label, "<No Label>");
            s.append("', Pos=(");
            let x_text = tenths_to_string(pos.x_tenths);
            s.append(x_text.as_str());
            s.append(", ");
            let y_text = tenths_to_string(pos.y_tenths);
            s.append(y_text.as_str());
            s.append(")");
            proof {
                assert(s@ =~= record_line(*r));
            }
            (LogLevel::Info, s)
        },
        EnrichedRecord::ElementClick { app_name, pid, identifier, role, pos } => {
            let mut s = String::from_str("Element Clicked: App='");
            s.append(app_name.as_str());
            s.append("' (PID=");
            let pid_text = i64_to_string(*pid);
            s.append(pid_text.as_str());
            s.append("), ID='");
            s.append(identifier.as_str());
            s.append("', Role='");
            append_opt(&mut s, role, "");
            proof {
                reveal_strlit("");
                assert(""@ =~= Seq::<char>::empty());
            }
            s.append("', Pos=(");
            let x_text = tenths_to_string(pos.x_tenths);
            s.append(x_text.as_str());
            s.append(", ");
            let y_text = tenths_to_string(pos.y_tenths);
            s.append(y_text.as_str());
            s.append(")");
            proof {
                assert(s@ =~= record_line(*r));
            }
            (LogLevel::Info, s)
        },
        EnrichedRecord::KeyPress { app_name, pid, key_code } => {
            let mut s = String::from_str("Key Down: App='");
            s.append(app_name.as_str());
            s.append("' (PID=");
            let pid_text = i64_to_string(*pid);
            s.append(pid_text.as_str());
            s.append("), KeyCode=");
            let key_text = i64_to_string(*key_code);
            s.append(key_text.as_str());
            proof {
                assert(s@ =~= record_line(*r));
            }
            (LogLevel::Info, s)
        },
        EnrichedRecord::TapDisabled { timeout } => {
            let s = if *timeout {
                String::from_str("Event tap disabled (timeout); input monitoring stopped")
            } else {
                String::from_str("Event tap disabled (user input); input monitoring stopped")
            };
            (LogLevel::Warn, s)
        },
    }
}

/// The line one network delta logs: the cumulative counters and the
/// saturating deltas for a process key.
pub open spec fn network_delta_line(d: (Seq<char>, u64, u64, u64, u64)) -> Seq<char> {
    "Network: "@ + d.0 + " up "@ + dec_str(d.2 as nat) + " B down "@ + dec_str(d.1 as nat)
        + " B (delta up "@ + dec_str(d.4 as nat) + " down "@ + dec_str(d.3 as nat) + ")"@
}

/// Formats one network delta; logged at information severity beside the
/// click record it enriches.
pub fn format_network_delta(d: &NetworkUsageDelta) -> (line: String)
    ensures
        line@ == network_delta_line(delta_model(*d)),
{
    let mut s = String::from_str("Network: ");
    s.append(d.process_key.as_str());
    s.append(" up ");
    let out_text = u64_to_string(d.bytes_out);
    s.append(out_text.as_str());
    s.append(" B down ");
    let in_text = u64_to_string(d.bytes_in);
    s.append(in_text.as_str());
    s.append(" B (delta up ");
    let dout_text = u64_to_string(d.delta_out);
    s.append(dout_text.as_str());
    s.append(" down ");
    let din_text = u64_to_string(d.delta_in);
    s.append(din_text.as_str());
    s.append(")");
    proof {
        assert(s@ =~= network_delta_line(delta_model(*d)));
    }
    s
}

} // verus!
