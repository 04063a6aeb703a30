//! The rule engine's decisions: when a time trigger is due, when a rule is in
//! its active window, and which reported events match which rules.
//!
//! Times are minutes of the day. A window's ends are whole minutes, so whether a
//! clock reading lies in a window depends on its hour and minute alone.

use chrono::Timelike;
use vstd::prelude::*;

use crate::error::{CasaError, ErrorKind};
use crate::casad::dispatch::Job;
use crate::casad::rules::{rule_prefix, spec_actions, ActiveWindow, Rule, RuleFile, Trigger};
use crate::casad::enl;
use crate::casad::mat;
use crate::casad::rules::{parse_node_id, spec_parse_node_id};
use crate::config::{Config, Device};
use crate::json::{json_eq, spec_json_eq, JsonNumber, JsonValue};
use crate::lookup::{first_where, has_key, lemma_first_where, lemma_first_where_at, lookup};
use crate::text::{chars_of, eq_ignore_ascii_case, parse_u64, spec_eq_ignore_ascii_case, spec_parse_u64, spec_to_uppercase, spec_trim, str_eq, to_uppercase, trim};

verus! {

/// A time of day to the minute.
#[derive(Debug, Clone, Copy, PartialEq, Eq, Structural)]
pub struct TimeOfDay {
    pub hour: u32,
    pub minute: u32,
}

/// The minutes since midnight.
pub open spec fn minutes(t: TimeOfDay) -> int {
    t.hour * 60 + t.minute
}

/// A valid time of day: hour below 24, minute below 60.
pub open spec fn valid_time(t: TimeOfDay) -> bool {
    t.hour < 24 && t.minute < 60
}

/// Names what chrono's `NaiveTime::parse_from_str(s, "%H:%M")` gives: the hour
/// and minute, or the text of its parse error.
pub uninterp spec fn chrono_hm(s: Seq<char>) -> Result<(u32, u32), Seq<char>>;

/// Calls chrono's `NaiveTime::parse_from_str` with the format `%H:%M` and reads
/// the hour and minute of the result. Trusted: the result is `chrono_hm` of
/// the text, and a parsed time has an hour below 24 and a minute below 60, as
/// chrono documents for `hour()` and `minute()`.
#[verifier::external_body]
fn chrono_parse_hm(s: &str) -> (r: Result<(u32, u32), String>)
    ensures
        match r {
            Ok(v) => chrono_hm(s@) == Ok::<(u32, u32), Seq<char>>(v) && v.0 < 24 && v.1 < 60,
            Err(m) => chrono_hm(s@) == Err::<(u32, u32), Seq<char>>(m@),
        },
{
    match chrono::NaiveTime::parse_from_str(s, "%H:%M") {
        Ok(t) => Ok((t.hour(), t.minute())),
        Err(e) => Err(e.to_string()),
    }
}

/// Reads the local wall clock (chrono's `Local::now()`) and keeps its hour
/// and minute. Only what holds of every reading is stated: the hour is below 24
/// and the minute below 60, as chrono documents for `hour()` and `minute()`.
#[verifier::external_body]
fn local_time_of_day() -> (r: TimeOfDay)
    ensures
        valid_time(r),
{
    let t = chrono::Local::now().time();
    TimeOfDay { hour: t.hour(), minute: t.minute() }
}

/// The time the engine judges by: the `--now` override when given, else the
/// local clock's hour and minute.
pub fn now_or(override_now: Option<TimeOfDay>) -> (r: TimeOfDay)
    ensures
        match override_now {
            Some(t) => r == t,
            None => valid_time(r),
        },
{
    match override_now {
        Some(t) => t,
        None => local_time_of_day(),
    }
}

/// The detail of a time that does not parse.
pub open spec fn bad_time_detail(s: Seq<char>, reason: Seq<char>) -> Seq<char> {
    "invalid time \""@ + s + "\" (expected HH:MM): "@ + reason
}

/// What `parse_hm` gives: the time, or `config_parse` with a detail.
pub open spec fn spec_parse_hm(s: Seq<char>) -> Result<TimeOfDay, (ErrorKind, Seq<char>)> {
    match chrono_hm(s) {
        Ok((h, m)) => Ok(TimeOfDay { hour: h, minute: m }),
        Err(reason) => Err((ErrorKind::ConfigParse, bad_time_detail(s, reason))),
    }
}

/// Whether a result is the given value, or an error of the given kind and detail.
pub open spec fn outcome_is<T>(r: Result<T, CasaError>, expected: Result<T, (ErrorKind, Seq<char>)>) -> bool {
    match (r, expected) {
        (Ok(a), Ok(b)) => a == b,
        (Err(e), Err((k, d))) => e.kind == k && e.detail@ == d && e.response is None,
        _ => false,
    }
}

/// Parses "HH:MM" (seconds are not kept: rules fire per minute).
pub fn parse_hm(s: &str) -> (r: Result<TimeOfDay, CasaError>)
    ensures
        outcome_is(r, spec_parse_hm(s@)),
        r matches Ok(t) ==> valid_time(t),
{
    match chrono_parse_hm(s) {
        Ok((hour, minute)) => Ok(TimeOfDay { hour, minute }),
        Err(reason) => {
            let mut d = String::from_str("invalid time \"");
            d.append(s);
            d.append("\" (expected HH:MM): ");
            d.append(reason.as_str());
            Err(CasaError::new(ErrorKind::ConfigParse, d))
        },
    }
}

/// The detail of a window whose ends are equal.
pub open spec fn empty_window_detail(from: Seq<char>) -> Seq<char> {
    "active window from and to are both \""@ + from
        + "\" (an empty window and an all-day window cannot be told apart)"@
}

/// What `parse_active_window` gives: both ends parsed (the first failure
/// otherwise), and distinct.
pub open spec fn spec_parse_window(w: ActiveWindow) -> Result<(TimeOfDay, TimeOfDay), (ErrorKind, Seq<char>)> {
    match spec_parse_hm(w.from@) {
        Err(e) => Err(e),
        Ok(from) => match spec_parse_hm(w.to@) {
            Err(e) => Err(e),
            Ok(to) => if from == to {
                Err((ErrorKind::ConfigParse, empty_window_detail(w.from@)))
            } else {
                Ok((from, to))
            },
        },
    }
}

/// Parses an active window into (from, to). Equal ends are an error: an empty
/// window and an all-day window would read the same.
fn parse_active_window(w: &ActiveWindow) -> (r: Result<(TimeOfDay, TimeOfDay), CasaError>)
    ensures
        outcome_is(r, spec_parse_window(*w)),
        r matches Ok((f, t)) ==> valid_time(f) && valid_time(t),
{
    let from = parse_hm(w.from.as_str())?;
    let to = parse_hm(w.to.as_str())?;
    if from == to {
        let mut d = String::from_str("active window from and to are both \"");
        d.append(w.from.as_str());
        d.append("\" (an empty window and an all-day window cannot be told apart)");
        return Err(CasaError::new(ErrorKind::ConfigParse, d));
    }
    Ok((from, to))
}

/// Whether `now` lies in the window `[from, to)`; `from` after `to` wraps over
/// midnight.
pub open spec fn spec_in_window(now: TimeOfDay, from: TimeOfDay, to: TimeOfDay) -> bool {
    if minutes(from) < minutes(to) {
        minutes(from) <= minutes(now) && minutes(now) < minutes(to)
    } else {
        minutes(now) >= minutes(from) || minutes(now) < minutes(to)
    }
}

/// Whether `now` lies in the half-open window `[from, to)`: `from` included,
/// `to` excluded, wrapping over midnight when `from` is later than `to`.
pub fn time_in_window(now: TimeOfDay, from: TimeOfDay, to: TimeOfDay) -> (r: bool)
    requires
        valid_time(now),
        valid_time(from),
        valid_time(to),
    ensures
        r == spec_in_window(now, from, to),
{
    let n = now.hour * 60 + now.minute;
    let f = from.hour * 60 + from.minute;
    let t = to.hour * 60 + to.minute;
    if f < t {
        n >= f && n < t
    } else {
        n >= f || n < t
    }
}

/// Law: a window and its reverse split the day. For distinct ends, every time
/// lies in exactly one of `[from, to)` and `[to, from)`.
pub proof fn law_window_and_reverse_partition_the_day(now: TimeOfDay, from: TimeOfDay, to: TimeOfDay)
    requires
        minutes(from) != minutes(to),
    ensures
        spec_in_window(now, from, to) != spec_in_window(now, to, from),
{
}

/// Whether `a` reads earlier than `b` on a clock: an earlier hour, or the same
/// hour and an earlier minute.
pub open spec fn clock_before(a: TimeOfDay, b: TimeOfDay) -> bool {
    a.hour < b.hour || (a.hour == b.hour && a.minute < b.minute)
}

/// Law: whether `now` lies in a window is decided by the minute of the day,
/// `hour * 60 + minute`: a window whose start comes before its end holds the
/// minutes from its start up to, not including, its end; any other window
/// wraps over midnight and holds the minutes from its start on and those before
/// its end.
pub proof fn law_window_by_minute_of_day(now: TimeOfDay, from: TimeOfDay, to: TimeOfDay)
    ensures
        spec_in_window(now, from, to) == (if from.hour * 60 + from.minute < to.hour * 60 + to.minute {
            from.hour * 60 + from.minute <= now.hour * 60 + now.minute && now.hour * 60 + now.minute < to.hour * 60
                + to.minute
        } else {
            now.hour * 60 + now.minute >= from.hour * 60 + from.minute || now.hour * 60 + now.minute < to.hour * 60
                + to.minute
        }),
{
}

/// Law: for valid times the window reads the clock, hour first and then
/// minute: a window whose start reads before its end holds exactly the times
/// that do not read before its start and read before its end; a window that
/// wraps holds the times that do not read before its start or read before its
/// end.
pub proof fn law_window_reads_the_clock(now: TimeOfDay, from: TimeOfDay, to: TimeOfDay)
    requires
        valid_time(now),
        valid_time(from),
        valid_time(to),
    ensures
        clock_before(from, to) ==> (spec_in_window(now, from, to) == (!clock_before(now, from) && clock_before(now, to))),
        !clock_before(from, to) ==> (spec_in_window(now, from, to) == (!clock_before(now, from) || clock_before(now, to))),
{
}

/// Whether a rule is in effect at `now`: always without a window; never when
/// its window does not parse (validation rejects such a rule beforehand, and a
/// device is better left alone than moved by a malformed rule).
pub open spec fn spec_rule_active(rule: Rule, now: TimeOfDay) -> bool {
    match rule.active {
        None => true,
        Some(w) => match spec_parse_window(w) {
            Ok((from, to)) => spec_in_window(now, from, to),
            Err(_) => false,
        },
    }
}

/// Whether a rule is in effect at `now`.
pub fn rule_is_active(rule: &Rule, now: TimeOfDay) -> (r: bool)
    requires
        valid_time(now),
    ensures
        r == spec_rule_active(*rule, now),
{
    match &rule.active {
        None => true,
        Some(w) => match parse_active_window(w) {
            Ok((from, to)) => time_in_window(now, from, to),
            Err(_) => false,
        },
    }
}


/// An error of a rule: the same kind, the detail prefixed with the rule's name.
pub open spec fn in_rule<T>(rule: Seq<char>, r: Result<T, (ErrorKind, Seq<char>)>) -> Result<T, (ErrorKind, Seq<char>)> {
    match r {
        Ok(v) => Ok(v),
        Err((k, d)) => Err((k, rule_prefix(rule) + d)),
    }
}

/// The detail of a time trigger outside its own window.
pub open spec fn never_fires_detail(rule: Seq<char>, at: Seq<char>, w: ActiveWindow) -> Seq<char> {
    "rule \""@ + rule + "\": trigger time \""@ + at + "\" falls outside its own active window [\""@
        + w.from@ + "\", \""@ + w.to@ + "\"), so this rule can never fire"@
}

/// What is wrong with a rule's schedule, if anything: its time does not parse,
/// its window does not parse, or its time lies outside its window (so it could
/// never fire).
pub open spec fn schedule_problem(rule: Rule) -> Option<(ErrorKind, Seq<char>)> {
    let at = match rule.when {
        Trigger::Time { at } => Some(in_rule(rule.name@, spec_parse_hm(at@))),
        _ => None,
    };
    let window = match rule.active {
        Some(w) => Some(in_rule(rule.name@, spec_parse_window(w))),
        None => None,
    };
    match (at, window) {
        (Some(Err(e)), _) => Some(e),
        (_, Some(Err(e))) => Some(e),
        _ => match (at, window, rule.when, rule.active) {
            (Some(Ok(t)), Some(Ok((from, to))), Trigger::Time { at: at_str }, Some(w)) => if spec_in_window(t, from, to) {
                None
            } else {
                Some((ErrorKind::ConfigParse, never_fires_detail(rule.name@, at_str@, w)))
            },
            _ => None,
        },
    }
}

/// Whether a rule's schedule has a problem.
pub open spec fn bad_schedule_pred() -> spec_fn(Rule) -> bool {
    |r: Rule| schedule_problem(r) is Some
}

fn with_rule<T>(rule_name: &str, r: Result<T, CasaError>) -> (out: Result<T, CasaError>)
    ensures
        match (r, out) {
            (Ok(a), Ok(b)) => a == b,
            (Err(e), Err(f)) => f.kind == e.kind && f.detail@ == rule_prefix(rule_name@) + e.detail@
                && f.response is None,
            _ => false,
        },
{
    match r {
        Ok(v) => Ok(v),
        Err(e) => {
            let mut d = String::from_str("rule \"");
            d.append(rule_name);
            d.append("\": ");
            d.append(e.detail.as_str());
            Err(CasaError::new(e.kind, d))
        },
    }
}

fn check_schedule(rule: &Rule) -> (r: Result<(), CasaError>)
    ensures
        match r {
            Ok(()) => schedule_problem(*rule) is None,
            Err(e) => schedule_problem(*rule) == Some((e.kind, e.detail@)) && e.response is None,
        },
{
    let name = rule.name.as_str();
    let at = match &rule.when {
        Trigger::Time { at } => Some((at.as_str(), with_rule(name, parse_hm(at.as_str()))?)),
        _ => None,
    };
    let window = match &rule.active {
        Some(w) => Some((w, with_rule(name, parse_active_window(w))?)),
        None => None,
    };
    if let (Some((at_str, t)), Some((w, (from, to)))) = (at, window) {
        proof {
            assert(valid_time(t));
        }
        if !time_in_window(t, from, to) {
            let mut d = String::from_str("rule \"");
            d.append(name);
            d.append("\": trigger time \"");
            d.append(at_str);
            d.append("\" falls outside its own active window [\"");
            d.append(w.from.as_str());
            d.append("\", \"");
            d.append(w.to.as_str());
            d.append("\"), so this rule can never fire");
            return Err(CasaError::new(ErrorKind::ConfigParse, d));
        }
    }
    Ok(())
}

/// Checks every time trigger and active window: each must be a valid HH:MM,
/// a window's ends must differ, and a time trigger must lie inside its own
/// window (otherwise the rule could never fire). The first problem, in file
/// order, is the error (`config_parse`), naming its rule.
pub fn validate_schedule(file: &RuleFile) -> (r: Result<(), CasaError>)
    ensures
        ({
            let k = first_where(file.rules@, bad_schedule_pred());
            match r {
                Ok(()) => k < 0,
                Err(e) => k >= 0 && schedule_problem(file.rules@[k]) == Some((e.kind, e.detail@)) && e.response is None,
            }
        }),
{
    let ghost p = bad_schedule_pred();
    let mut i: usize = 0;
    while i < file.rules.len()
        invariant
            p == bad_schedule_pred(),
            i <= file.rules.len(),
            forall|j: int| 0 <= j < i ==> !p(file.rules@[j]),
        decreases file.rules.len() - i,
    {
        match check_schedule(&file.rules[i]) {
            Ok(()) => {},
            Err(e) => {
                proof {
                    lemma_first_where_at(file.rules@, p, i as int);
                }
                return Err(e);
            },
        }
        i = i + 1;
    }
    proof {
        lemma_first_where(file.rules@, p);
    }
    Ok(())
}

/// The indices of the rules among the first `n` that satisfy `p`, in order.
pub open spec fn filter_indices(rules: Seq<Rule>, p: spec_fn(Rule) -> bool, n: int) -> Seq<usize>
    decreases n,
{
    if n <= 0 {
        Seq::empty()
    } else {
        filter_indices(rules, p, n - 1) + if p(rules[n - 1]) { seq![(n - 1) as usize] } else { Seq::empty() }
    }
}

/// Whether a time-triggered rule fires at `now`: its time is `now`'s hour and
/// minute, and it is in effect at `now`.
pub open spec fn time_due(rule: Rule, now: TimeOfDay) -> bool {
    &&& rule.when matches Trigger::Time { at }
    &&& spec_parse_hm(at@) matches Ok(t)
    &&& t.hour == now.hour && t.minute == now.minute
    &&& spec_rule_active(rule, now)
}

/// The predicate of rules due at `now`.
pub open spec fn time_due_pred(now: TimeOfDay) -> spec_fn(Rule) -> bool {
    |r: Rule| time_due(r, now)
}

/// The indices of the time-triggered rules that fire at `now` (to the minute),
/// in file order. A time that does not parse never fires.
pub fn due_time_rules(file: &RuleFile, now: TimeOfDay) -> (r: Vec<usize>)
    requires
        valid_time(now),
    ensures
        r@ == filter_indices(file.rules@, time_due_pred(now), file.rules@.len() as int),
{
    let mut out: Vec<usize> = Vec::new();
    let mut i: usize = 0;
    while i < file.rules.len()
        invariant
            valid_time(now),
            i <= file.rules.len(),
            out@ == filter_indices(file.rules@, time_due_pred(now), i as int),
        decreases file.rules.len() - i,
    {
        let rule = &file.rules[i];
        let due = match &rule.when {
            Trigger::Time { at } => match parse_hm(at.as_str()) {
                Ok(t) => t.hour == now.hour && t.minute == now.minute && rule_is_active(rule, now),
                Err(_) => false,
            },
            _ => false,
        };
        if due {
            out.push(i);
        }
        proof {
            assert(due == time_due(file.rules@[i as int], now));
            assert(out@ =~= filter_indices(file.rules@, time_due_pred(now), i + 1));
        }
        i = i + 1;
    }
    out
}

/// Law: a time rule that passes the schedule check fires at its own time:
/// its trigger time is never outside its window, so it is due when the clock
/// shows that time.
pub proof fn law_accepted_time_rule_fires_at_its_time(rule: Rule)
    requires
        schedule_problem(rule) is None,
        rule.when is Time,
    ensures
        spec_parse_hm(rule.when->at@) matches Ok(t) && time_due(rule, t),
{
}

/// Law: a rule without an active window is in effect at every time.
pub proof fn law_windowless_rule_always_active(rule: Rule, now: TimeOfDay)
    requires
        rule.active is None,
    ensures
        spec_rule_active(rule, now),
{
}


/// A hex string without its `0x` / `0X` prefix.
pub open spec fn strip_hex_prefix(t: Seq<char>) -> Seq<char> {
    if t.len() >= 2 && t[0] == '0' && (t[1] == 'x' || t[1] == 'X') {
        t.skip(2)
    } else {
        t
    }
}

/// A hex string in normal form: trimmed, without `0x` / `0X`, upper case, so
/// that the rule file's "0x30" and enl's "30" compare equal.
pub open spec fn spec_norm_hex(s: Seq<char>) -> Seq<char> {
    spec_to_uppercase(strip_hex_prefix(spec_trim(s)))
}

/// Normalizes a hex string.
pub fn norm_hex(s: &str) -> (r: String)
    ensures
        r@ == spec_norm_hex(s@),
{
    let t = trim(s);
    let cs = chars_of(t);
    let body = if cs.len() >= 2 && cs[0] == '0' && (cs[1] == 'x' || cs[1] == 'X') {
        let b = t.substring_char(2, cs.len());
        assert(b@ =~= t@.skip(2));
        b
    } else {
        t
    };
    to_uppercase(body)
}

/// Whether a reported property has the given EPC and value, hex compared in
/// normal form.
pub open spec fn prop_matches(p: enl::Prop, epc: Seq<char>, equals: Seq<char>) -> bool {
    spec_norm_hex(p.epc@) == spec_norm_hex(epc) && spec_norm_hex(p.edt_hex@) == spec_norm_hex(equals)
}

/// Whether an ECHONET Lite notification matches an event trigger: the
/// trigger's device is an ECHONET Lite device at the sender's IP with the
/// sender's EOJ, and some property has the trigger's EPC and value (hex compared
/// in normal form).
pub open spec fn spec_event_matches(rule: Rule, c: Config, ev: enl::Event) -> bool {
    match rule.when {
        Trigger::Event { device, epc, equals } => has_key(c.devices@, device@) && match lookup(c.devices@, device@)->0 {
            Device::Echonet { ip, eoj } => {
                &&& ev.ip@ == ip@
                &&& spec_norm_hex(ev.seoj@) == spec_norm_hex(eoj@)
                &&& exists|i: int| 0 <= i < ev.properties@.len() && prop_matches(#[trigger] ev.properties@[i], epc@, equals@)
            },
            _ => false,
        },
        _ => false,
    }
}

/// Law: a notification from the trigger's device matches as soon as any one of
/// its properties, wherever it stands, has the trigger's EPC and value (hex
/// compared in normal form); and it matches only then.
pub proof fn law_any_property_can_match(rule: Rule, c: Config, ev: enl::Event, i: int)
    requires
        rule.when matches Trigger::Event { device, epc, equals } && lookup(c.devices@, device@) matches Some(
            Device::Echonet { ip, eoj },
        ) && ev.ip@ == ip@ && spec_norm_hex(ev.seoj@) == spec_norm_hex(eoj@),
    ensures
        ({
            let epc = rule.when->Event_epc;
            let equals = rule.when->Event_equals;
            &&& (0 <= i < ev.properties@.len() && spec_norm_hex(ev.properties@[i].epc@) == spec_norm_hex(epc@)
                && spec_norm_hex(ev.properties@[i].edt_hex@) == spec_norm_hex(equals@)) ==> spec_event_matches(rule, c, ev)
            &&& spec_event_matches(rule, c, ev) ==> exists|k: int|
                0 <= k < ev.properties@.len() && spec_norm_hex((#[trigger] ev.properties@[k]).epc@) == spec_norm_hex(epc@)
                    && spec_norm_hex(ev.properties@[k].edt_hex@) == spec_norm_hex(equals@)
        }),
{
    if 0 <= i < ev.properties@.len() {
        assert(prop_matches(ev.properties@[i], rule.when->Event_epc@, rule.when->Event_equals@) ==> spec_event_matches(rule, c, ev));
    }
}

/// Law: only a notification from the trigger's own device matches: the rule is
/// an event rule whose device is an ECHONET Lite device of the config, the
/// notification comes from that device's IP, and its sending object is the
/// device's EOJ (hex compared in normal form).
pub proof fn law_match_needs_the_device(rule: Rule, c: Config, ev: enl::Event)
    requires
        spec_event_matches(rule, c, ev),
    ensures
        rule.when matches Trigger::Event { device, .. } && lookup(c.devices@, device@) matches Some(
            Device::Echonet { ip, eoj },
        ) && ev.ip@ == ip@ && spec_norm_hex(ev.seoj@) == spec_norm_hex(eoj@),
{
}

/// Law: more properties never undo a match. A notification from the same
/// sender that carries every property of a matching one (in any order, with
/// others besides) matches too.
pub proof fn law_more_properties_keep_a_match(rule: Rule, c: Config, ev: enl::Event, more: enl::Event)
    requires
        spec_event_matches(rule, c, ev),
        more.ip@ == ev.ip@,
        more.seoj@ == ev.seoj@,
        forall|i: int| 0 <= i < ev.properties@.len() ==> exists|j: int| 0 <= j < more.properties@.len()
            && #[trigger] more.properties@[j] == #[trigger] ev.properties@[i],
    ensures
        spec_event_matches(rule, c, more),
{
    let epc = rule.when->Event_epc;
    let equals = rule.when->Event_equals;
    let k = choose|k: int| 0 <= k < ev.properties@.len() && prop_matches(#[trigger] ev.properties@[k], epc@, equals@);
    let j = choose|j: int| 0 <= j < more.properties@.len() && #[trigger] more.properties@[j] == ev.properties@[k];
    assert(prop_matches(more.properties@[j], epc@, equals@));
}

/// Whether an ECHONET Lite notification matches a rule's event trigger.
pub fn event_matches(rule: &Rule, config: &Config, event: &enl::Event) -> (r: bool)
    ensures
        r == spec_event_matches(*rule, *config, *event),
{
    let Trigger::Event { device, epc, equals } = &rule.when else {
        return false;
    };
    let (ip, eoj) = match config.device(device.as_str()) {
        Ok(Device::Echonet { ip, eoj }) => (ip, eoj),
        _ => {
            return false;
        },
    };
    if !str_eq(event.ip.as_str(), ip.as_str()) {
        return false;
    }
    let seoj = norm_hex(event.seoj.as_str());
    let want_eoj = norm_hex(eoj.as_str());
    if !str_eq(seoj.as_str(), want_eoj.as_str()) {
        return false;
    }
    let want_epc = norm_hex(epc.as_str());
    let want_edt = norm_hex(equals.as_str());
    let ghost goal = spec_event_matches(*rule, *config, *event);
    assert(goal == exists|k: int| 0 <= k < event.properties@.len() && prop_matches(#[trigger] event.properties@[k], epc@, equals@));
    let mut i: usize = 0;
    while i < event.properties.len()
        invariant
            i <= event.properties.len(),
            want_epc@ == spec_norm_hex(epc@),
            want_edt@ == spec_norm_hex(equals@),
            goal == spec_event_matches(*rule, *config, *event),
            goal == exists|k: int| 0 <= k < event.properties@.len() && prop_matches(#[trigger] event.properties@[k], epc@, equals@),
            forall|j: int| 0 <= j < i ==> !prop_matches(#[trigger] event.properties@[j], epc@, equals@),
        decreases event.properties.len() - i,
    {
        let p = &event.properties[i];
        let a = norm_hex(p.epc.as_str());
        let b = norm_hex(p.edt_hex.as_str());
        if str_eq(a.as_str(), want_epc.as_str()) && str_eq(b.as_str(), want_edt.as_str()) {
            assert(prop_matches(event.properties@[i as int], epc@, equals@));
            return true;
        }
        i = i + 1;
    }
    false
}

/// Whether a rule is an event rule that some notification of a batch matches,
/// and that is in effect at `now`.
pub open spec fn event_due(rule: Rule, c: Config, events: Seq<enl::Event>, now: TimeOfDay) -> bool {
    &&& rule.when is Event
    &&& exists|i: int| 0 <= i < events.len() && spec_event_matches(rule, c, #[trigger] events[i])
    &&& spec_rule_active(rule, now)
}

/// The predicate of event rules due for a batch.
pub open spec fn event_due_pred(c: Config, events: Seq<enl::Event>, now: TimeOfDay) -> spec_fn(Rule) -> bool {
    |r: Rule| event_due(r, c, events, now)
}

fn any_event_matches(rule: &Rule, config: &Config, events: &[enl::Event]) -> (r: bool)
    ensures
        r == exists|i: int| 0 <= i < events@.len() && spec_event_matches(*rule, *config, #[trigger] events@[i]),
{
    let mut i: usize = 0;
    while i < events.len()
        invariant
            i <= events.len(),
            forall|j: int| 0 <= j < i ==> !spec_event_matches(*rule, *config, #[trigger] events@[j]),
        decreases events.len() - i,
    {
        if event_matches(rule, config, &events[i]) {
            return true;
        }
        i = i + 1;
    }
    false
}

/// The indices of the event rules that a batch of notifications fires, in file
/// order, each once however many notifications match it.
pub fn due_event_rules(file: &RuleFile, config: &Config, events: &[enl::Event], now: TimeOfDay) -> (r: Vec<usize>)
    requires
        valid_time(now),
    ensures
        r@ == filter_indices(file.rules@, event_due_pred(*config, events@, now), file.rules@.len() as int),
{
    let mut out: Vec<usize> = Vec::new();
    let mut i: usize = 0;
    while i < file.rules.len()
        invariant
            valid_time(now),
            i <= file.rules.len(),
            out@ == filter_indices(file.rules@, event_due_pred(*config, events@, now), i as int),
        decreases file.rules.len() - i,
    {
        let rule = &file.rules[i];
        let is_event = match &rule.when {
            Trigger::Event { .. } => true,
            _ => false,
        };
        let due = is_event && any_event_matches(rule, config, events) && rule_is_active(rule, now);
        if due {
            out.push(i);
        }
        proof {
            assert(due == event_due(file.rules@[i as int], *config, events@, now));
            assert(out@ =~= filter_indices(file.rules@, event_due_pred(*config, events@, now), i + 1));
        }
        i = i + 1;
    }
    out
}


/// Whether a reported attribute (a chip-tool name, or the number of an
/// attribute that matd has no name for) is the rule's attribute: a name
/// compares without regard to ASCII case, a number with the rule's decimal
/// text (trimmed).
pub open spec fn spec_attribute_matches(event_attr: JsonValue, rule_attr: Seq<char>) -> bool {
    match event_attr {
        JsonValue::String(s) => spec_eq_ignore_ascii_case(s@, rule_attr),
        JsonValue::Number(n) => spec_parse_u64(spec_trim(rule_attr)) == (match n {
            JsonNumber::PosInt(k) => Some(k),
            _ => None::<u64>,
        }),
        _ => false,
    }
}

/// Whether a reported attribute is the rule's attribute.
pub fn attribute_matches(event_attr: &JsonValue, rule_attr: &str) -> (r: bool)
    ensures
        r == spec_attribute_matches(*event_attr, rule_attr@),
{
    match event_attr {
        JsonValue::String(s) => eq_ignore_ascii_case(s.as_str(), rule_attr),
        JsonValue::Number(n) => parse_u64(trim(rule_attr)) == n.as_u64(),
        _ => false,
    }
}

/// Whether a `mat listen` event matches a Matter event trigger: it is a change
/// (not a priming redelivery), the trigger's device is a Matter device with a
/// node id that parses to the event's node, its endpoint (if configured) is the
/// event's, the attribute matches, and the value equals the trigger's.
pub open spec fn spec_matter_event_matches(rule: Rule, c: Config, ev: mat::Event) -> bool {
    match rule.when {
        Trigger::MatterEvent { device, attribute, equals } => {
            &&& !ev.priming
            &&& has_key(c.devices@, device@)
            &&& match lookup(c.devices@, device@)->0 {
                Device::Matter { node_id: Some(n), endpoint, .. } => {
                    &&& spec_parse_node_id(n@) == Some(ev.node_id)
                    &&& (endpoint matches Some(ep) ==> ep as u64 == ev.endpoint)
                    &&& spec_attribute_matches(ev.attribute, attribute@)
                    &&& spec_json_eq(ev.value, equals)
                },
                _ => false,
            }
        },
        _ => false,
    }
}

/// Whether a `mat listen` event matches a rule's Matter event trigger.
pub fn matter_event_matches(rule: &Rule, config: &Config, event: &mat::Event) -> (r: bool)
    ensures
        r == spec_matter_event_matches(*rule, *config, *event),
{
    let Trigger::MatterEvent { device, attribute, equals } = &rule.when else {
        return false;
    };
    if event.priming {
        return false;
    }
    let (node_id, endpoint) = match config.device(device.as_str()) {
        Ok(Device::Matter { node_id: Some(node_id), endpoint, .. }) => (node_id, endpoint),
        _ => {
            return false;
        },
    };
    if parse_node_id(node_id.as_str()) != Some(event.node_id) {
        return false;
    }
    match endpoint {
        Some(ep) => {
            if *ep as u64 != event.endpoint {
                return false;
            }
        },
        None => {},
    }
    attribute_matches(&event.attribute, attribute.as_str()) && json_eq(&event.value, equals)
}

/// Whether a rule is a Matter event rule that some event of a batch matches,
/// and that is in effect at `now`.
pub open spec fn matter_due(rule: Rule, c: Config, events: Seq<mat::Event>, now: TimeOfDay) -> bool {
    &&& rule.when is MatterEvent
    &&& exists|i: int| 0 <= i < events.len() && spec_matter_event_matches(rule, c, #[trigger] events[i])
    &&& spec_rule_active(rule, now)
}

/// The predicate of Matter event rules due for a batch.
pub open spec fn matter_due_pred(c: Config, events: Seq<mat::Event>, now: TimeOfDay) -> spec_fn(Rule) -> bool {
    |r: Rule| matter_due(r, c, events, now)
}

fn any_matter_event_matches(rule: &Rule, config: &Config, events: &[mat::Event]) -> (r: bool)
    ensures
        r == exists|i: int| 0 <= i < events@.len() && spec_matter_event_matches(*rule, *config, #[trigger] events@[i]),
{
    let mut i: usize = 0;
    while i < events.len()
        invariant
            i <= events.len(),
            forall|j: int| 0 <= j < i ==> !spec_matter_event_matches(*rule, *config, #[trigger] events@[j]),
        decreases events.len() - i,
    {
        if matter_event_matches(rule, config, &events[i]) {
            return true;
        }
        i = i + 1;
    }
    false
}

/// The indices of the Matter event rules that a batch of events fires, in file
/// order, each once however many events match it.
pub fn due_matter_event_rules(file: &RuleFile, config: &Config, events: &[mat::Event], now: TimeOfDay) -> (r: Vec<usize>)
    requires
        valid_time(now),
    ensures
        r@ == filter_indices(file.rules@, matter_due_pred(*config, events@, now), file.rules@.len() as int),
{
    let mut out: Vec<usize> = Vec::new();
    let mut i: usize = 0;
    while i < file.rules.len()
        invariant
            valid_time(now),
            i <= file.rules.len(),
            out@ == filter_indices(file.rules@, matter_due_pred(*config, events@, now), i as int),
        decreases file.rules.len() - i,
    {
        let rule = &file.rules[i];
        let is_matter = match &rule.when {
            Trigger::MatterEvent { .. } => true,
            _ => false,
        };
        let due = is_matter && any_matter_event_matches(rule, config, events) && rule_is_active(rule, now);
        if due {
            out.push(i);
        }
        proof {
            assert(due == matter_due(file.rules@[i as int], *config, events@, now));
            assert(out@ =~= filter_indices(file.rules@, matter_due_pred(*config, events@, now), i + 1));
        }
        i = i + 1;
    }
    out
}


/// How `casad run` runs: once (evaluating the time triggers a single time,
/// at `now` if given, else at the clock's time) or resident.
#[derive(Debug, Clone, Copy)]
pub struct RunOpts {
    pub once: bool,
    pub now: Option<TimeOfDay>,
}

/// The (rule, action) positions of the jobs that the rules at `due` give, in
/// order: each rule's actions in declaration order.
pub open spec fn job_slots(rules: Seq<Rule>, due: Seq<usize>) -> Seq<(int, int)>
    decreases due.len(),
{
    if due.len() == 0 {
        Seq::empty()
    } else {
        let r = due.last() as int;
        job_slots(rules, due.drop_last()) + Seq::new(spec_actions(rules[r].thens).len(), |k: int| (r, k))
    }
}

/// Expands the rules at the indices `due` into jobs, one per action, rule by
/// rule in the given order and each rule's actions in declaration order.
pub fn jobs<'a>(file: &'a RuleFile, due: &[usize]) -> (r: Vec<Job<'a>>)
    requires
        forall|i: int| 0 <= i < due@.len() ==> due@[i] < file.rules@.len(),
    ensures
        r@.len() == job_slots(file.rules@, due@).len(),
        forall|n: int| 0 <= n < r@.len() ==> {
            let (ri, ai) = #[trigger] job_slots(file.rules@, due@)[n];
            &&& *r@[n].rule == file.rules@[ri]
            &&& *r@[n].action == spec_actions(file.rules@[ri].thens)[ai]
        },
{
    let mut out: Vec<Job<'a>> = Vec::new();
    let mut i: usize = 0;
    while i < due.len()
        invariant
            i <= due.len(),
            forall|j: int| 0 <= j < due@.len() ==> due@[j] < file.rules@.len(),
            out@.len() == job_slots(file.rules@, due@.take(i as int)).len(),
            forall|n: int| 0 <= n < out@.len() ==> {
                let (ri, ai) = #[trigger] job_slots(file.rules@, due@.take(i as int))[n];
                &&& *out@[n].rule == file.rules@[ri]
                &&& *out@[n].action == spec_actions(file.rules@[ri].thens)[ai]
            },
        decreases due.len() - i,
    {
        let ri = due[i];
        let rule = &file.rules[ri];
        let acts = rule.thens.actions();
        let ghost before = out@;
        let ghost base = job_slots(file.rules@, due@.take(i as int));
        let mut k: usize = 0;
        while k < acts.len()
            invariant
                k <= acts.len(),
                acts@ == spec_actions(rule.thens),
                *rule == file.rules@[ri as int],
                out@.len() == before.len() + k,
                before.len() == base.len(),
                forall|n: int| 0 <= n < before.len() ==> out@[n] == before[n],
                forall|n: int| 0 <= n < k ==> *out@[before.len() + n].rule == *rule && *out@[before.len() + n].action == acts@[n],
            decreases acts.len() - k,
        {
            out.push(Job { rule, action: &acts[k] });
            k = k + 1;
        }
        proof {
            let next = due@.take(i + 1);
            assert(next.drop_last() =~= due@.take(i as int));
            assert(next.last() == ri);
            let added = Seq::new(spec_actions(file.rules@[ri as int].thens).len(), |k: int| (ri as int, k));
            assert(job_slots(file.rules@, next) == base + added);
            assert forall|n: int| 0 <= n < out@.len() implies {
                let (rj, aj) = #[trigger] job_slots(file.rules@, next)[n];
                &&& *out@[n].rule == file.rules@[rj]
                &&& *out@[n].action == spec_actions(file.rules@[rj].thens)[aj]
            } by {
                if n < before.len() {
                    assert(job_slots(file.rules@, next)[n] == base[n]);
                } else {
                    assert(job_slots(file.rules@, next)[n] == added[n - before.len()]);
                }
            }
        }
        i = i + 1;
    }
    assert(due@.take(due@.len() as int) =~= due@);
    out
}

/// Which listeners the resident engine needs: one for ECHONET Lite events if
/// some rule has an event trigger, one for Matter events if some rule has a
/// Matter event trigger.
pub fn listeners_needed(file: &RuleFile) -> (r: (bool, bool))
    ensures
        r.0 == exists|i: int| 0 <= i < file.rules@.len() && (#[trigger] file.rules@[i]).when is Event,
        r.1 == exists|i: int| 0 <= i < file.rules@.len() && (#[trigger] file.rules@[i]).when is MatterEvent,
{
    let mut enl_events = false;
    let mut matter_events = false;
    let mut i: usize = 0;
    while i < file.rules.len()
        invariant
            i <= file.rules.len(),
            enl_events == exists|j: int| 0 <= j < i && (#[trigger] file.rules@[j]).when is Event,
            matter_events == exists|j: int| 0 <= j < i && (#[trigger] file.rules@[j]).when is MatterEvent,
        decreases file.rules.len() - i,
    {
        match &file.rules[i].when {
            Trigger::Event { .. } => {
                enl_events = true;
            },
            Trigger::MatterEvent { .. } => {
                matter_events = true;
            },
            Trigger::Time { .. } => {},
        }
        i = i + 1;
    }
    (enl_events, matter_events)
}


/// Law: a priming redelivery (matd's current value on (re)subscribe) never
/// fires a rule, whatever it reports.
pub proof fn law_priming_never_fires(rule: Rule, c: Config, ev: mat::Event)
    requires
        ev.priming,
    ensures
        !spec_matter_event_matches(rule, c, ev),
{
}

/// Law: the due rules of a batch come in file order, each at most once: the
/// indices only increase and all point into the file.
pub proof fn law_due_rules_in_file_order(rules: Seq<Rule>, p: spec_fn(Rule) -> bool, n: int)
    requires
        0 <= n <= rules.len(),
        rules.len() <= usize::MAX,
    ensures
        forall|i: int| 0 <= i < filter_indices(rules, p, n).len() ==> (#[trigger] filter_indices(rules, p, n)[i]) < n,
        forall|i: int, j: int|
            0 <= i < j < filter_indices(rules, p, n).len() ==> (#[trigger] filter_indices(rules, p, n)[i]) < (#[trigger] filter_indices(rules, p, n)[j]),
    decreases n,
{
    if n > 0 {
        law_due_rules_in_file_order(rules, p, n - 1);
        let prev = filter_indices(rules, p, n - 1);
        let cur = filter_indices(rules, p, n);
        assert forall|i: int| 0 <= i < cur.len() implies (#[trigger] cur[i]) < n by {
            if i < prev.len() {
                assert(cur[i] == prev[i]);
            }
        }
        assert forall|i: int, j: int| 0 <= i < j < cur.len() implies (#[trigger] cur[i]) < (#[trigger] cur[j]) by {
            if j < prev.len() {
                assert(cur[i] == prev[i] && cur[j] == prev[j]);
            } else {
                assert(cur[i] == prev[i]);
            }
        }
    }
}

} // verus!
