//! The data points of the dehumidifier: what its numbered values mean, how a
//! status report is read, and how commands are put.
//!
//! | Data point | Meaning          | Value                                  |
//! |-----------:|------------------|----------------------------------------|
//! |          1 | power            | truth value                            |
//! |          2 | target humidity  | 35 to 70 per cent in steps of 5        |
//! |          4 | operating mode   | `manual`, `auto`, `drying`, `continuous` |
//! |         14 | child lock       | truth value                            |
//! |         16 | current humidity | per cent                               |
//! |         17 | countdown        | `cancel`, `1h`, `2h`, `3h`             |
//! |         18 | countdown left   | hours                                  |
//! |         19 | faults           | one bit for each of [`FAULT_LABELS`]   |

use crate::json::{JsonValue, JsonView};
use crate::text::{decimal_text, push_decimal, text_eq};
use vstd::prelude::*;
use vstd::string::StringExecFns;

verus! {

/// Operating mode (data point 4).
#[derive(Debug, Clone, Copy, PartialEq, Eq, Structural)]
pub enum Mode {
    Manual,
    Auto,
    Drying,
    Continuous,
}

/// Countdown timer setting (data point 17).
#[derive(Debug, Clone, Copy, PartialEq, Eq, Structural)]
pub enum Countdown {
    Cancel,
    OneHour,
    TwoHours,
    ThreeHours,
}

/// The faults that the bits of data point 19 stand for, lowest bit first.
pub const FAULT_LABELS: [&'static str; 8] = [
    "tankfull",
    "defrost",
    "E1",
    "E2",
    "L2",
    "L3",
    "L4",
    "wet",
];

/// Lowest target humidity that the device accepts.
pub const MIN_TARGET_HUMIDITY: u32 = 35;

/// Highest target humidity that the device accepts.
pub const MAX_TARGET_HUMIDITY: u32 = 70;

/// The target humidity is a multiple of this.
pub const TARGET_HUMIDITY_STEP: u32 = 5;

/// A snapshot of what the device reports about itself.
#[derive(Debug, Clone, Copy)]
pub struct DehumidifierStatus {
    pub power: bool,
    pub target_humidity: u32,
    pub mode: Option<Mode>,
    pub current_humidity: Option<u32>,
    pub child_lock: Option<bool>,
    pub countdown: Option<Countdown>,
    pub countdown_left: Option<u32>,
    pub fault: Option<u32>,
}

/// Why a value is no status report or no command.
#[derive(Debug)]
pub enum DpsError {
    /// A data point that every report has is missing or of the wrong kind.
    MissingField(&'static str),
    /// A data point holds a text that is none of its settings.
    InvalidValue { field: &'static str, raw: String },
    /// The target humidity is out of range or between two steps.
    HumidityOutOfRange(u32),
}

/// What a [`DpsError`] holds, as mathematics.
pub enum DpsErrorView {
    MissingField(Seq<char>),
    InvalidValue { field: Seq<char>, raw: Seq<char> },
    HumidityOutOfRange(u32),
}

impl View for DpsError {
    type V = DpsErrorView;

    open spec fn view(&self) -> DpsErrorView {
        match self {
            DpsError::MissingField(field) => DpsErrorView::MissingField(field@),
            DpsError::InvalidValue { field, raw } => DpsErrorView::InvalidValue {
                field: field@,
                raw: raw@,
            },
            DpsError::HumidityOutOfRange(value) => DpsErrorView::HumidityOutOfRange(*value),
        }
    }
}

impl DpsErrorView {
    /// The error in words.
    pub open spec fn message(self) -> Seq<char> {
        match self {
            DpsErrorView::MissingField(field) => "Missing required DPS field: "@ + field,
            DpsErrorView::InvalidValue { field, raw } => "Invalid value for DPS "@ + field + ": "@
                + raw,
            DpsErrorView::HumidityOutOfRange(value) => "Humidity "@ + decimal_text(value as nat)
                + " out of range (35-70, step 5)"@,
        }
    }
}

impl DpsError {
    /// Writes the error out in words.
    pub fn to_string(&self) -> (text: String)
        ensures
            text@ == self@.message(),
    {
        let mut text = String::new();
        match self {
            DpsError::MissingField(field) => {
                text.append("Missing required DPS field: ");
                text.append(field);
            },
            DpsError::InvalidValue { field, raw } => {
                text.append("Invalid value for DPS ");
                text.append(field);
                text.append(": ");
                text.append(raw.as_str());
            },
            DpsError::HumidityOutOfRange(value) => {
                text.append("Humidity ");
                push_decimal(&mut text, *value as u64);
                text.append(" out of range (35-70, step 5)");
            },
        }
        assert(text@ =~= self@.message());
        text
    }
}

// ---------------------------------------------------------------------------
// Reading a status report
// ---------------------------------------------------------------------------

/// The mode that goes by `name` on the wire.
pub open spec fn mode_named(name: Seq<char>) -> Option<Mode> {
    if name == "manual"@ {
        Some(Mode::Manual)
    } else if name == "auto"@ {
        Some(Mode::Auto)
    } else if name == "drying"@ {
        Some(Mode::Drying)
    } else if name == "continuous"@ {
        Some(Mode::Continuous)
    } else {
        None
    }
}

/// The countdown setting that goes by `name` on the wire.
pub open spec fn countdown_named(name: Seq<char>) -> Option<Countdown> {
    if name == "cancel"@ {
        Some(Countdown::Cancel)
    } else if name == "1h"@ {
        Some(Countdown::OneHour)
    } else if name == "2h"@ {
        Some(Countdown::TwoHours)
    } else if name == "3h"@ {
        Some(Countdown::ThreeHours)
    } else {
        None
    }
}

/// Reads the name of a mode.
pub fn parse_mode(s: &str) -> (r: Result<Mode, DpsError>)
    ensures
        match r {
            Ok(mode) => mode_named(s@) == Some(mode),
            Err(e) => mode_named(s@) is None && e@ == (DpsErrorView::InvalidValue {
                field: "4 (mode)"@,
                raw: s@,
            }),
        },
{
    if text_eq(s, "manual") {
        Ok(Mode::Manual)
    } else if text_eq(s, "auto") {
        Ok(Mode::Auto)
    } else if text_eq(s, "drying") {
        Ok(Mode::Drying)
    } else if text_eq(s, "continuous") {
        Ok(Mode::Continuous)
    } else {
        Err(DpsError::InvalidValue { field: "4 (mode)", raw: s.to_owned() })
    }
}

/// Reads the name of a countdown setting.
pub fn parse_countdown(s: &str) -> (r: Result<Countdown, DpsError>)
    ensures
        match r {
            Ok(countdown) => countdown_named(s@) == Some(countdown),
            Err(e) => countdown_named(s@) is None && e@ == (DpsErrorView::InvalidValue {
                field: "17 (countdown_set)"@,
                raw: s@,
            }),
        },
{
    if text_eq(s, "cancel") {
        Ok(Countdown::Cancel)
    } else if text_eq(s, "1h") {
        Ok(Countdown::OneHour)
    } else if text_eq(s, "2h") {
        Ok(Countdown::TwoHours)
    } else if text_eq(s, "3h") {
        Ok(Countdown::ThreeHours)
    } else {
        Err(DpsError::InvalidValue { field: "17 (countdown_set)", raw: s.to_owned() })
    }
}

/// The truth value of data point `key`, if the report has one.
pub open spec fn bool_point(dps: JsonView, key: Seq<char>) -> Option<bool> {
    match dps.member(key) {
        Some(value) => value.as_bool(),
        None => None,
    }
}

/// The number of data point `key`, if the report has one, cut to 32 bits.
pub open spec fn number_point(dps: JsonView, key: Seq<char>) -> Option<u32> {
    match dps.member(key) {
        Some(JsonView::Number(n)) => Some((n % 0x1_0000_0000) as u32),
        _ => None,
    }
}

/// The text of data point `key`, if the report has one.
pub open spec fn text_point(dps: JsonView, key: Seq<char>) -> Option<Seq<char>> {
    match dps.member(key) {
        Some(value) => value.as_str(),
        None => None,
    }
}

/// What a report says, or what is wrong with it. Power and target humidity
/// must be there. A mode or a countdown that is there as text must be one of
/// the known settings. Everything else is read if it is there and of the
/// right kind, and passed over if not.
pub open spec fn status_spec(dps: JsonView) -> Result<DehumidifierStatus, DpsErrorView> {
    let mode_text = text_point(dps, "4"@);
    let countdown_text = text_point(dps, "17"@);
    if bool_point(dps, "1"@) is None {
        Err(DpsErrorView::MissingField("1 (switch)"@))
    } else if number_point(dps, "2"@) is None {
        Err(DpsErrorView::MissingField("2 (dehumidify_set_value)"@))
    } else if mode_text is Some && mode_named(mode_text->Some_0) is None {
        Err(DpsErrorView::InvalidValue { field: "4 (mode)"@, raw: mode_text->Some_0 })
    } else if countdown_text is Some && countdown_named(countdown_text->Some_0) is None {
        Err(DpsErrorView::InvalidValue { field: "17 (countdown_set)"@, raw: countdown_text->Some_0 })
    } else {
        Ok(
            DehumidifierStatus {
                power: bool_point(dps, "1"@)->Some_0,
                target_humidity: number_point(dps, "2"@)->Some_0,
                mode: match mode_text {
                    Some(name) => mode_named(name),
                    None => None,
                },
                current_humidity: number_point(dps, "16"@),
                child_lock: bool_point(dps, "14"@),
                countdown: match countdown_text {
                    Some(name) => countdown_named(name),
                    None => None,
                },
                countdown_left: number_point(dps, "18"@),
                fault: number_point(dps, "19"@),
            },
        )
    }
}

fn read_bool(dps: &JsonValue, key: &str) -> (b: Option<bool>)
    ensures
        b == bool_point(dps@, key@),
{
    match dps.get(key) {
        Some(value) => value.as_bool(),
        None => None,
    }
}

fn read_number(dps: &JsonValue, key: &str) -> (n: Option<u32>)
    ensures
        n == number_point(dps@, key@),
{
    match dps.get(key) {
        Some(value) => match value.as_u64() {
            Some(n) => Some((n % 0x1_0000_0000) as u32),
            None => None,
        },
        None => None,
    }
}

fn read_text<'a>(dps: &'a JsonValue, key: &str) -> (t: Option<&'a str>)
    ensures
        match t {
            Some(text) => text_point(dps@, key@) == Some(text@),
            None => text_point(dps@, key@) is None,
        },
{
    match dps.get(key) {
        Some(value) => value.as_str(),
        None => None,
    }
}

/// Reads a status report: an object whose members are named by the numbers
/// of the data points.
pub fn parse_status(dps: &JsonValue) -> (r: Result<DehumidifierStatus, DpsError>)
    ensures
        match r {
            Ok(status) => status_spec(dps@) == Ok::<DehumidifierStatus, DpsErrorView>(status),
            Err(e) => status_spec(dps@) == Err::<DehumidifierStatus, DpsErrorView>(e@),
        },
{
    let power = match read_bool(dps, "1") {
        Some(power) => power,
        None => {
            return Err(DpsError::MissingField("1 (switch)"));
        },
    };
    let target_humidity = match read_number(dps, "2") {
        Some(value) => value,
        None => {
            return Err(DpsError::MissingField("2 (dehumidify_set_value)"));
        },
    };
    let mode = match read_text(dps, "4") {
        Some(name) => match parse_mode(name) {
            Ok(mode) => Some(mode),
            Err(e) => {
                return Err(e);
            },
        },
        None => None,
    };
    let current_humidity = read_number(dps, "16");
    let child_lock = read_bool(dps, "14");
    let countdown = match read_text(dps, "17") {
        Some(name) => match parse_countdown(name) {
            Ok(countdown) => Some(countdown),
            Err(e) => {
                return Err(e);
            },
        },
        None => None,
    };
    let countdown_left = read_number(dps, "18");
    let fault = read_number(dps, "19");
    Ok(
        DehumidifierStatus {
            power,
            target_humidity,
            mode,
            current_humidity,
            child_lock,
            countdown,
            countdown_left,
            fault,
        },
    )
}

// ---------------------------------------------------------------------------
// Putting commands
// ---------------------------------------------------------------------------

/// The name of a mode on the wire.
pub open spec fn mode_name(mode: Mode) -> Seq<char> {
    match mode {
        Mode::Manual => "manual"@,
        Mode::Auto => "auto"@,
        Mode::Drying => "drying"@,
        Mode::Continuous => "continuous"@,
    }
}

/// The name of a countdown setting on the wire.
pub open spec fn countdown_name(countdown: Countdown) -> Seq<char> {
    match countdown {
        Countdown::Cancel => "cancel"@,
        Countdown::OneHour => "1h"@,
        Countdown::TwoHours => "2h"@,
        Countdown::ThreeHours => "3h"@,
    }
}

/// Whether the device accepts `value` as target humidity.
pub open spec fn valid_target_humidity(value: u32) -> bool {
    MIN_TARGET_HUMIDITY <= value <= MAX_TARGET_HUMIDITY && value % TARGET_HUMIDITY_STEP == 0
}

/// The command that switches the device on or off.
pub fn build_power_dps(on: bool) -> (dps: JsonValue)
    ensures
        dps@ == JsonView::Object(seq![("1"@, JsonView::Bool(on))]),
{
    JsonValue::single("1", JsonValue::Bool(on))
}

/// The command that sets the target humidity, for a value that the device
/// accepts: from 35 to 70 in steps of 5.
pub fn build_target_humidity_dps(value: u32) -> (r: Result<JsonValue, DpsError>)
    ensures
        match r {
            Ok(dps) => valid_target_humidity(value) && dps@ == JsonView::Object(
                seq![("2"@, JsonView::Number(value as u64))],
            ),
            Err(e) => !valid_target_humidity(value) && e@ == DpsErrorView::HumidityOutOfRange(
                value,
            ),
        },
{
    if value < MIN_TARGET_HUMIDITY || value > MAX_TARGET_HUMIDITY || value % TARGET_HUMIDITY_STEP
        != 0 {
        return Err(DpsError::HumidityOutOfRange(value));
    }
    Ok(JsonValue::single("2", JsonValue::Number(value as u64)))
}

/// The command that sets the operating mode.
pub fn build_mode_dps(mode: &Mode) -> (dps: JsonValue)
    ensures
        dps@ == JsonView::Object(seq![("4"@, JsonView::Text(mode_name(*mode)))]),
{
    let name = match mode {
        Mode::Manual => "manual",
        Mode::Auto => "auto",
        Mode::Drying => "drying",
        Mode::Continuous => "continuous",
    };
    JsonValue::single("4", JsonValue::text(name))
}

/// The command that locks or unlocks the controls.
pub fn build_child_lock_dps(locked: bool) -> (dps: JsonValue)
    ensures
        dps@ == JsonView::Object(seq![("14"@, JsonView::Bool(locked))]),
{
    JsonValue::single("14", JsonValue::Bool(locked))
}

/// The command that sets the countdown timer.
pub fn build_countdown_dps(countdown: &Countdown) -> (dps: JsonValue)
    ensures
        dps@ == JsonView::Object(seq![("17"@, JsonView::Text(countdown_name(*countdown)))]),
{
    let name = match countdown {
        Countdown::Cancel => "cancel",
        Countdown::OneHour => "1h",
        Countdown::TwoHours => "2h",
        Countdown::ThreeHours => "3h",
    };
    JsonValue::single("17", JsonValue::text(name))
}

// ---------------------------------------------------------------------------
// Showing a status report
// ---------------------------------------------------------------------------

/// Whether bit `bit` of the fault bitmap is set.
pub open spec fn fault_is_set(bitmap: u32, bit: u32) -> bool {
    bitmap & (1u32 << bit) != 0
}

/// The names of the faults among the first `count` whose bit is set, lowest
/// bit first.
pub open spec fn faults_below(bitmap: u32, count: nat) -> Seq<Seq<char>>
    decreases count,
{
    if count == 0 {
        Seq::empty()
    } else if fault_is_set(bitmap, (count - 1) as u32) {
        faults_below(bitmap, (count - 1) as nat).push(FAULT_LABELS@[count - 1]@)
    } else {
        faults_below(bitmap, (count - 1) as nat)
    }
}

/// The names of all faults that a bitmap reports, lowest bit first.
pub open spec fn fault_names(bitmap: u32) -> Seq<Seq<char>> {
    faults_below(bitmap, 8)
}

/// `parts`, with `separator` between each two.
pub open spec fn joined(parts: Seq<Seq<char>>, separator: Seq<char>) -> Seq<char>
    decreases parts.len(),
{
    if parts.len() == 0 {
        Seq::empty()
    } else if parts.len() == 1 {
        parts[0]
    } else {
        joined(parts.drop_last(), separator) + separator + parts.last()
    }
}

/// The texts of `names`.
pub open spec fn texts_of(names: Seq<&'static str>) -> Seq<Seq<char>> {
    Seq::new(names.len(), |i: int| names[i]@)
}

/// Decodes the fault bitmap into the names of the faults that it reports.
pub fn decode_faults(bitmap: u32) -> (names: Vec<&'static str>)
    ensures
        texts_of(names@) == fault_names(bitmap),
{
    let mut names: Vec<&'static str> = Vec::new();
    let mut bit: u32 = 0;
    while bit < 8
        invariant
            bit <= 8,
            texts_of(names@) == faults_below(bitmap, bit as nat),
        decreases 8 - bit,
    {
        if bitmap & (1u32 << bit) != 0 {
            names.push(FAULT_LABELS[bit as usize]);
        }
        bit += 1;
        assert(texts_of(names@) =~= faults_below(bitmap, bit as nat));
    }
    names
}

/// Joins `names` with a comma and a blank.
fn join_names(names: &Vec<&'static str>) -> (text: String)
    ensures
        text@ == joined(texts_of(names@), ", "@),
{
    let mut text = String::new();
    let mut at: usize = 0;
    while at < names.len()
        invariant
            at <= names@.len(),
            text@ == joined(texts_of(names@).take(at as int), ", "@),
        decreases names@.len() - at,
    {
        if at > 0 {
            text.append(", ");
        }
        text.append(names[at]);
        at += 1;
        proof {
            let upto = texts_of(names@).take(at as int);
            assert(upto.drop_last() =~= texts_of(names@).take(at - 1));
            assert(upto.last() == names@[at - 1]@);
            assert(text@ =~= joined(upto, ", "@));
        }
    }
    assert(texts_of(names@).take(at as int) =~= texts_of(names@));
    text
}

/// `ON` or `OFF`.
pub open spec fn on_off(on: bool) -> Seq<char> {
    if on {
        "ON"@
    } else {
        "OFF"@
    }
}

/// The name under which a mode is shown.
pub open spec fn mode_label(mode: Mode) -> Seq<char> {
    match mode {
        Mode::Manual => "Manual"@,
        Mode::Auto => "Auto"@,
        Mode::Drying => "Drying"@,
        Mode::Continuous => "Continuous"@,
    }
}

/// The name under which a countdown setting is shown.
pub open spec fn countdown_label(countdown: Countdown) -> Seq<char> {
    match countdown {
        Countdown::Cancel => "Cancel"@,
        Countdown::OneHour => "OneHour"@,
        Countdown::TwoHours => "TwoHours"@,
        Countdown::ThreeHours => "ThreeHours"@,
    }
}

/// The first line of a summary: whether the device is on.
pub open spec fn power_line(power: bool) -> Seq<char> {
    "Power: "@ + on_off(power)
}

/// The line for the current humidity, if it was reported.
pub open spec fn current_humidity_line(humidity: Option<u32>) -> Seq<char> {
    match humidity {
        Some(humidity) => "\nCurrent humidity: "@ + decimal_text(humidity as nat) + "%"@,
        None => Seq::empty(),
    }
}

/// The line for the target humidity.
pub open spec fn target_humidity_line(humidity: u32) -> Seq<char> {
    "\nTarget humidity: "@ + decimal_text(humidity as nat) + "%"@
}

/// The line for the mode, if it was reported.
pub open spec fn mode_line(mode: Option<Mode>) -> Seq<char> {
    match mode {
        Some(mode) => "\nMode: "@ + mode_label(mode),
        None => Seq::empty(),
    }
}

/// The line for the countdown setting, if it was reported.
pub open spec fn timer_line(countdown: Option<Countdown>) -> Seq<char> {
    match countdown {
        Some(countdown) => "\nTimer: "@ + countdown_label(countdown),
        None => Seq::empty(),
    }
}

/// The line for the hours that the countdown has left, if there are any.
pub open spec fn time_remaining_line(left: Option<u32>) -> Seq<char> {
    match left {
        Some(left) if left > 0 => "\nTime remaining: "@ + decimal_text(left as nat) + "h"@,
        _ => Seq::empty(),
    }
}

/// The line for the child lock, if it was reported.
pub open spec fn child_lock_line(locked: Option<bool>) -> Seq<char> {
    match locked {
        Some(locked) => "\nChild lock: "@ + on_off(locked),
        None => Seq::empty(),
    }
}

/// The line for the faults, if there are any.
pub open spec fn faults_line(fault: Option<u32>) -> Seq<char> {
    match fault {
        Some(fault) if fault != 0 => "\nFAULTS: "@ + joined(fault_names(fault), ", "@),
        _ => Seq::empty(),
    }
}

/// The summary of a status, line by line: power and target humidity always,
/// everything else only if it was reported, the time remaining only if there
/// is any, and the faults only if there are any.
pub open spec fn summary(status: DehumidifierStatus) -> Seq<char> {
    power_line(status.power) + current_humidity_line(status.current_humidity)
        + target_humidity_line(status.target_humidity) + mode_line(status.mode) + timer_line(
        status.countdown,
    ) + time_remaining_line(status.countdown_left) + child_lock_line(status.child_lock)
        + faults_line(status.fault)
}

fn push_power_line(text: &mut String, power: bool)
    ensures
        final(text)@ == old(text)@ + power_line(power),
{
    text.append("Power: ");
    text.append(if power { "ON" } else { "OFF" });
    assert(text@ =~= old(text)@ + power_line(power));
}

fn push_current_humidity_line(text: &mut String, humidity: Option<u32>)
    ensures
        final(text)@ == old(text)@ + current_humidity_line(humidity),
{
    if let Some(humidity) = humidity {
        text.append("\nCurrent humidity: ");
        push_decimal(text, humidity as u64);
        text.append("%");
    }
    assert(text@ =~= old(text)@ + current_humidity_line(humidity));
}

fn push_target_humidity_line(text: &mut String, humidity: u32)
    ensures
        final(text)@ == old(text)@ + target_humidity_line(humidity),
{
    text.append("\nTarget humidity: ");
    push_decimal(text, humidity as u64);
    text.append("%");
    assert(text@ =~= old(text)@ + target_humidity_line(humidity));
}

fn push_mode_line(text: &mut String, mode: Option<Mode>)
    ensures
        final(text)@ == old(text)@ + mode_line(mode),
{
    if let Some(mode) = mode {
        text.append("\nMode: ");
        text.append(
            match mode {
                Mode::Manual => "Manual",
                Mode::Auto => "Auto",
                Mode::Drying => "Drying",
                Mode::Continuous => "Continuous",
            },
        );
    }
    assert(text@ =~= old(text)@ + mode_line(mode));
}

fn push_timer_line(text: &mut String, countdown: Option<Countdown>)
    ensures
        final(text)@ == old(text)@ + timer_line(countdown),
{
    if let Some(countdown) = countdown {
        text.append("\nTimer: ");
        text.append(
            match countdown {
                Countdown::Cancel => "Cancel",
                Countdown::OneHour => "OneHour",
                Countdown::TwoHours => "TwoHours",
                Countdown::ThreeHours => "ThreeHours",
            },
        );
    }
    assert(text@ =~= old(text)@ + timer_line(countdown));
}

fn push_time_remaining_line(text: &mut String, left: Option<u32>)
    ensures
        final(text)@ == old(text)@ + time_remaining_line(left),
{
    if let Some(left) = left {
        if left > 0 {
            text.append("\nTime remaining: ");
            push_decimal(text, left as u64);
            text.append("h");
        }
    }
    assert(text@ =~= old(text)@ + time_remaining_line(left));
}

fn push_child_lock_line(text: &mut String, locked: Option<bool>)
    ensures
        final(text)@ == old(text)@ + child_lock_line(locked),
{
    if let Some(locked) = locked {
        text.append("\nChild lock: ");
        text.append(if locked { "ON" } else { "OFF" });
    }
    assert(text@ =~= old(text)@ + child_lock_line(locked));
}

fn push_faults_line(text: &mut String, fault: Option<u32>)
    ensures
        final(text)@ == old(text)@ + faults_line(fault),
{
    if let Some(fault) = fault {
        if fault != 0 {
            let names = decode_faults(fault);
            let list = join_names(&names);
            text.append("\nFAULTS: ");
            text.append(list.as_str());
        }
    }
    assert(text@ =~= old(text)@ + faults_line(fault));
}

/// Writes a status out for a human reader, one line for each thing known.
pub fn format_status(status: &DehumidifierStatus) -> (text: String)
    ensures
        text@ == summary(*status),
{
    let mut text = String::new();
    push_power_line(&mut text, status.power);
    assert(text@ =~= power_line(status.power));
    push_current_humidity_line(&mut text, status.current_humidity);
    push_target_humidity_line(&mut text, status.target_humidity);
    push_mode_line(&mut text, status.mode);
    push_timer_line(&mut text, status.countdown);
    push_time_remaining_line(&mut text, status.countdown_left);
    push_child_lock_line(&mut text, status.child_lock);
    push_faults_line(&mut text, status.fault);
    text
}

} // verus!
