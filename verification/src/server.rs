//! What the tools of the dehumidifier do: what each asks of the device and
//! what it tells its caller. Registering the tools with a server and running
//! the exchanges is left to the program around this library.

use crate::dps::{
    build_child_lock_dps, build_countdown_dps, build_mode_dps, build_power_dps,
    build_target_humidity_dps, countdown_label, countdown_name, format_status, mode_label,
    mode_name, parse_status, status_spec, summary, valid_target_humidity, Countdown, DpsError,
    DpsErrorView, Mode,
};
use crate::json::{decode, json_decoding, json_normal_form, normal_form, JsonValue, JsonView};
use crate::text::{decimal_text, push_decimal};
use crate::tuya_connection::ConnectionError;
use vstd::prelude::*;
use vstd::string::StringExecFns;

verus! {

/// Parameters of the tool that switches the device on or off.
#[derive(Debug, Clone, Copy)]
pub struct PowerParams {
    /// On (`true`) or off (`false`).
    pub on: bool,
}

/// Parameters of the tool that sets the target humidity.
#[derive(Debug, Clone, Copy)]
pub struct SetHumidityParams {
    /// Per cent, from 35 to 70 in steps of 5.
    pub humidity: u32,
}

/// Parameters of the tool that sets the operating mode.
#[derive(Debug, Clone, Copy)]
pub struct SetModeParams {
    pub mode: Mode,
}

/// Parameters of the tool that locks or unlocks the controls.
#[derive(Debug, Clone, Copy)]
pub struct SetChildLockParams {
    /// Locked (`true`) or unlocked (`false`).
    pub locked: bool,
}

/// Parameters of the tool that sets the countdown timer.
#[derive(Debug, Clone, Copy)]
pub struct SetCountdownParams {
    pub countdown: Countdown,
}

/// A call of one of the tools.
#[derive(Debug, Clone, Copy)]
pub enum ToolCall {
    GetStatus,
    Power(PowerParams),
    SetHumidity(SetHumidityParams),
    SetMode(SetModeParams),
    SetChildLock(SetChildLockParams),
    SetCountdown(SetCountdownParams),
}

/// What a tool asks of the device.
pub enum ToolRequest {
    /// Report all data points.
    Query,
    /// Set these data points.
    Command(JsonValue),
}

/// What the server tells its clients about itself.
pub const SERVER_INSTRUCTIONS: &'static str =
    "Controls a Meaco Arete Two 25L dehumidifier over the local network via Tuya protocol v3.3. Available tools: get_status, power, set_humidity, set_mode, set_child_lock, set_countdown.";

/// The data points that a call sets, if it sets any and its parameters are
/// in order.
pub open spec fn requested_dps(call: ToolCall) -> Option<JsonView> {
    match call {
        ToolCall::GetStatus => None,
        ToolCall::Power(p) => Some(JsonView::Object(seq![("1"@, JsonView::Bool(p.on))])),
        ToolCall::SetHumidity(p) => if valid_target_humidity(p.humidity) {
            Some(JsonView::Object(seq![("2"@, JsonView::Number(p.humidity as u64))]))
        } else {
            None
        },
        ToolCall::SetMode(p) => Some(
            JsonView::Object(seq![("4"@, JsonView::Text(mode_name(p.mode)))]),
        ),
        ToolCall::SetChildLock(p) => Some(
            JsonView::Object(seq![("14"@, JsonView::Bool(p.locked))]),
        ),
        ToolCall::SetCountdown(p) => Some(
            JsonView::Object(seq![("17"@, JsonView::Text(countdown_name(p.countdown)))]),
        ),
    }
}

/// What a call asks of the device. The only call that can be refused is one
/// for a target humidity that the device does not accept; nothing is sent
/// for it.
pub fn tool_request(call: &ToolCall) -> (r: Result<ToolRequest, DpsError>)
    ensures
        match r {
            Ok(ToolRequest::Query) => *call is GetStatus,
            Ok(ToolRequest::Command(dps)) => requested_dps(*call) == Some(dps@),
            Err(e) => {
                &&& *call matches ToolCall::SetHumidity(p)
                &&& !valid_target_humidity(p.humidity)
                &&& e@ == DpsErrorView::HumidityOutOfRange(p.humidity)
            },
        },
{
    match call {
        ToolCall::GetStatus => Ok(ToolRequest::Query),
        ToolCall::Power(p) => Ok(ToolRequest::Command(build_power_dps(p.on))),
        ToolCall::SetHumidity(p) => match build_target_humidity_dps(p.humidity) {
            Ok(dps) => Ok(ToolRequest::Command(dps)),
            Err(e) => Err(e),
        },
        ToolCall::SetMode(p) => Ok(ToolRequest::Command(build_mode_dps(&p.mode))),
        ToolCall::SetChildLock(p) => Ok(ToolRequest::Command(build_child_lock_dps(p.locked))),
        ToolCall::SetCountdown(p) => Ok(ToolRequest::Command(build_countdown_dps(&p.countdown))),
    }
}

/// What a report looks like to a human reader. The data points are looked for
/// under `dps`, and at the top where there is no such member. A document that
/// is no status report is shown as it came, in `raw`.
pub open spec fn status_text_spec(response: JsonView, raw: Seq<char>) -> Seq<char> {
    let dps = match response.member("dps"@) {
        Some(dps) => dps,
        None => response,
    };
    match status_spec(dps) {
        Ok(status) => summary(status),
        Err(_) => "Raw DPS: "@ + raw,
    }
}

/// Writes out what a device reported: the summary of its status, or the
/// document as it came if it is no status report.
pub fn status_text(response: &JsonValue, raw: &str) -> (text: String)
    ensures
        text@ == status_text_spec(response@, raw@),
{
    let dps = match response.get("dps") {
        Some(dps) => dps,
        None => response,
    };
    match parse_status(dps) {
        Ok(status) => format_status(&status),
        Err(_) => {
            let mut text = String::new();
            text.append("Raw DPS: ");
            text.append(raw);
            assert(text@ =~= "Raw DPS: "@ + raw@);
            text
        },
    }
}

/// What the caller is told when a command has gone through.
pub open spec fn confirmation(call: ToolCall) -> Seq<char> {
    match call {
        ToolCall::GetStatus => Seq::empty(),
        ToolCall::Power(p) => "Dehumidifier turned "@ + (if p.on {
            "ON"@
        } else {
            "OFF"@
        }),
        ToolCall::SetHumidity(p) => "Target humidity set to "@ + decimal_text(p.humidity as nat)
            + "%"@,
        ToolCall::SetMode(p) => "Mode set to "@ + mode_label(p.mode),
        ToolCall::SetChildLock(p) => "Child lock "@ + (if p.locked {
            "enabled"@
        } else {
            "disabled"@
        }),
        ToolCall::SetCountdown(p) => "Countdown set to "@ + countdown_label(p.countdown),
    }
}

/// What the caller of a tool is told once the device has answered with
/// `payload`: the status for a status call, and a confirmation for a command.
pub fn tool_reply(call: &ToolCall, payload: &[u8]) -> (text: String)
    ensures
        text@ == match *call {
            ToolCall::GetStatus => status_text_spec(
                json_decoding(payload@),
                json_normal_form(payload@),
            ),
            _ => confirmation(*call),
        },
{
    let mut text = String::new();
    match call {
        ToolCall::GetStatus => {
            let response = decode(payload);
            let raw = normal_form(payload);
            return status_text(&response, raw.as_str());
        },
        ToolCall::Power(p) => {
            text.append("Dehumidifier turned ");
            text.append(if p.on { "ON" } else { "OFF" });
        },
        ToolCall::SetHumidity(p) => {
            text.append("Target humidity set to ");
            push_decimal(&mut text, p.humidity as u64);
            text.append("%");
        },
        ToolCall::SetMode(p) => {
            text.append("Mode set to ");
            text.append(
                match p.mode {
                    Mode::Manual => "Manual",
                    Mode::Auto => "Auto",
                    Mode::Drying => "Drying",
                    Mode::Continuous => "Continuous",
                },
            );
        },
        ToolCall::SetChildLock(p) => {
            text.append("Child lock ");
            text.append(if p.locked { "enabled" } else { "disabled" });
        },
        ToolCall::SetCountdown(p) => {
            text.append("Countdown set to ");
            text.append(
                match p.countdown {
                    Countdown::Cancel => "Cancel",
                    Countdown::OneHour => "OneHour",
                    Countdown::TwoHours => "TwoHours",
                    Countdown::ThreeHours => "ThreeHours",
                },
            );
        },
    }
    assert(text@ =~= confirmation(*call));
    text
}

/// How the failure of a call begins when it is put in words.
pub open spec fn failure_prefix(call: ToolCall) -> Seq<char> {
    match call {
        ToolCall::GetStatus => "Failed to query device: "@,
        ToolCall::Power(_) => "Failed to set power: "@,
        ToolCall::SetHumidity(_) => "Failed to set humidity: "@,
        ToolCall::SetMode(_) => "Failed to set mode: "@,
        ToolCall::SetChildLock(_) => "Failed to set child lock: "@,
        ToolCall::SetCountdown(_) => "Failed to set countdown: "@,
    }
}

/// What the caller of a tool is told when the exchange with the device has
/// failed: what was attempted, and the error in words.
pub fn tool_failure(call: &ToolCall, error: &ConnectionError) -> (text: String)
    ensures
        exists|transport_text: Seq<char>|
            text@ == failure_prefix(*call) + error.message(transport_text),
{
    let detail = error.to_string();
    let mut text = String::new();
    text.append(
        match call {
            ToolCall::GetStatus => "Failed to query device: ",
            ToolCall::Power(_) => "Failed to set power: ",
            ToolCall::SetHumidity(_) => "Failed to set humidity: ",
            ToolCall::SetMode(_) => "Failed to set mode: ",
            ToolCall::SetChildLock(_) => "Failed to set child lock: ",
            ToolCall::SetCountdown(_) => "Failed to set countdown: ",
        },
    );
    text.append(detail.as_str());
    assert(text@ =~= failure_prefix(*call) + detail@);
    text
}

} // verus!
