//! The rule file (rules.toml): triggers, actions, active windows, and the
//! checks applied once the file is read.

use vstd::prelude::*;

use crate::adapter::views;
use crate::config::{device_not_found_detail, spec_protocol, target_not_found_detail, Config, Device};
use crate::error::{CasaError, ErrorKind};
use crate::json::JsonValue;
use crate::lookup::{first_where, has_key, lemma_first_where, lemma_first_where_at, lookup};
use crate::text::{parse_u64, spec_parse_u64, spec_trim, trim, u64_to_string};

verus! {

/// The rule file version casad understands.
pub const SUPPORTED_VERSION: u32 = 1;

/// The rule file: engine settings and the rules, in file order.
#[derive(Debug)]
pub struct RuleFile {
    pub version: u32,
    pub settings: Settings,
    pub rules: Vec<Rule>,
}

/// Engine settings (`[settings]`, optional), in whole seconds.
#[derive(Debug)]
pub struct Settings {
    /// How long an event-triggered `off` is held back; an `on` to the same
    /// device within that time cancels it. Time-triggered `off` is never held.
    pub off_grace_secs: u64,
    /// The least time between two commands to the same device.
    pub min_gap_secs: u64,
}

impl Default for Settings {
    fn default() -> (r: Settings)
        ensures
            r.off_grace_secs == 30,
            r.min_gap_secs == 2,
    {
        Settings { off_grace_secs: 30, min_gap_secs: 2 }
    }
}

/// One rule: when its trigger matches (and it is inside its active window, if
/// it has one), its actions run.
#[derive(Debug)]
pub struct Rule {
    pub name: String,
    pub when: Trigger,
    pub active: Option<ActiveWindow>,
    /// The rule's actions (`then` in the rule file).
    pub thens: Thens,
}

/// The times of day when a rule is in effect: `from` included, `to` excluded;
/// `from` later than `to` wraps over midnight.
#[derive(Debug)]
pub struct ActiveWindow {
    pub from: String,
    pub to: String,
}

/// A rule's actions: one, or several in declaration order.
#[derive(Debug)]
pub enum Thens {
    One(Then),
    Many(Vec<Then>),
}

/// What fires a rule.
#[derive(Debug)]
pub enum Trigger {
    /// An ECHONET Lite device reports that EPC `epc` has the value `equals`.
    Event { device: String, epc: String, equals: String },
    /// A Matter device reports that `attribute` has the value `equals`.
    MatterEvent { device: String, attribute: String, equals: JsonValue },
    /// The clock reaches `at` (HH:MM), every day.
    Time { at: String },
}

/// An action: a casa subcommand on a device or group.
#[derive(Debug)]
pub enum Then {
    On { device: String },
    Off { device: String },
    Invoke { device: String, command: String, args: Vec<String> },
}

/// The actions of a rule in declaration order.
pub open spec fn spec_actions(t: Thens) -> Seq<Then> {
    match t {
        Thens::One(x) => seq![x],
        Thens::Many(v) => v@,
    }
}

/// `core::slice::from_ref`: the one-element slice of a value. Trusted: std
/// documents it as converting a reference into a slice of length 1.
pub assume_specification<T>[ core::slice::from_ref::<T> ](s: &T) -> (r: &[T])
    ensures
        r@ == seq![*s],
;

impl Thens {
    /// The actions in declaration order; a single action is a slice of one.
    pub fn actions(&self) -> (r: &[Then])
        ensures
            r@ == spec_actions(*self),
    {
        match self {
            Thens::One(t) => core::slice::from_ref(t),
            Thens::Many(v) => v.as_slice(),
        }
    }
}

/// The target of an action.
pub open spec fn spec_target(t: Then) -> Seq<char> {
    match t {
        Then::On { device } => device@,
        Then::Off { device } => device@,
        Then::Invoke { device, .. } => device@,
    }
}

/// The action's name, as written in the rule file.
pub open spec fn spec_action_name(t: Then) -> Seq<char> {
    match t {
        Then::On { .. } => "on"@,
        Then::Off { .. } => "off"@,
        Then::Invoke { .. } => "invoke"@,
    }
}

/// The casa arguments of an action: `--config <path>` first (casa's global
/// flag, kept out of invoke's pass-through arguments), then the subcommand.
pub open spec fn spec_casa_args(t: Then, config: Option<Seq<char>>) -> Seq<Seq<char>> {
    let prefix = match config {
        Some(p) => seq!["--config"@, p],
        None => Seq::empty(),
    };
    prefix + match t {
        Then::On { device } => seq!["on"@, device@],
        Then::Off { device } => seq!["off"@, device@],
        Then::Invoke { device, command, args } => seq!["invoke"@, device@, command@] + views(args@),
    }
}

impl Then {
    /// The name of the device or group the action targets.
    pub fn device(&self) -> (r: &str)
        ensures
            r@ == spec_target(*self),
    {
        match self {
            Then::On { device } | Then::Off { device } | Then::Invoke { device, .. } => device.as_str(),
        }
    }

    /// The action's name, as written in the rule file.
    pub fn action_name(&self) -> (r: &'static str)
        ensures
            r@ == spec_action_name(*self),
    {
        match self {
            Then::On { .. } => "on",
            Then::Off { .. } => "off",
            Then::Invoke { .. } => "invoke",
        }
    }

    /// The casa arguments that perform this action.
    pub fn casa_args(&self, config: Option<&str>) -> (r: Vec<String>)
        ensures
            views(r@) == spec_casa_args(
                *self,
                match config {
                    Some(p) => Some(p@),
                    None => None,
                },
            ),
    {
        let mut out: Vec<String> = Vec::new();
        if let Some(path) = config {
            crate::adapter::push_str(&mut out, "--config");
            crate::adapter::push_str(&mut out, path);
        }
        let ghost prefix = views(out@);
        match self {
            Then::On { device } => {
                crate::adapter::push_str(&mut out, "on");
                crate::adapter::push_str(&mut out, device.as_str());
                assert(views(out@) =~= prefix + seq!["on"@, device@]);
            },
            Then::Off { device } => {
                crate::adapter::push_str(&mut out, "off");
                crate::adapter::push_str(&mut out, device.as_str());
                assert(views(out@) =~= prefix + seq!["off"@, device@]);
            },
            Then::Invoke { device, command, args } => {
                crate::adapter::push_str(&mut out, "invoke");
                crate::adapter::push_str(&mut out, device.as_str());
                crate::adapter::push_str(&mut out, command.as_str());
                crate::adapter::extend_strings(&mut out, args.as_slice());
                assert(views(out@) =~= prefix + (seq!["invoke"@, device@, command@] + views(args@)));
            },
        }
        out
    }
}

/// The detail of an unsupported rules version.
pub open spec fn version_detail(v: u32) -> Seq<char> {
    "unsupported rules version "@ + crate::text::decimal(v as nat) + " (expected 1)"@
}

/// The detail of a rule without actions.
pub open spec fn empty_then_detail(rule: Seq<char>) -> Seq<char> {
    "rule \""@ + rule + "\": then is empty"@
}

/// Whether a rule has no actions.
pub open spec fn empty_then_pred() -> spec_fn(Rule) -> bool {
    |r: Rule| spec_actions(r.thens).len() == 0
}

/// The checks that follow reading the file: the version must be 1 and every
/// rule needs at least one action; either failure is `config_parse`, naming the
/// first problem.
pub fn check(file: RuleFile) -> (r: Result<RuleFile, CasaError>)
    ensures
        ({
            let k = first_where(file.rules@, empty_then_pred());
            match r {
                Ok(f) => f == file && file.version == SUPPORTED_VERSION && k < 0,
                Err(e) => e.kind == ErrorKind::ConfigParse && e.response is None && if file.version
                    != SUPPORTED_VERSION {
                    e.detail@ == version_detail(file.version)
                } else {
                    k >= 0 && e.detail@ == empty_then_detail(file.rules@[k].name@)
                },
            }
        }),
{
    if file.version != SUPPORTED_VERSION {
        let mut d = String::from_str("unsupported rules version ");
        let v = u64_to_string(file.version as u64);
        d.append(v.as_str());
        d.append(" (expected 1)");
        return Err(CasaError::new(ErrorKind::ConfigParse, d));
    }
    let ghost p = empty_then_pred();
    let mut i: usize = 0;
    while i < file.rules.len()
        invariant
            p == empty_then_pred(),
            file.version == SUPPORTED_VERSION,
            i <= file.rules.len(),
            forall|j: int| 0 <= j < i ==> !p(file.rules@[j]),
        decreases file.rules.len() - i,
    {
        if file.rules[i].thens.actions().len() == 0 {
            proof {
                lemma_first_where_at(file.rules@, p, i as int);
            }
            let mut d = String::from_str("rule \"");
            d.append(file.rules[i].name.as_str());
            d.append("\": then is empty");
            return Err(CasaError::new(ErrorKind::ConfigParse, d));
        }
        i = i + 1;
    }
    proof {
        lemma_first_where(file.rules@, p);
    }
    Ok(file)
}

/// A node id as mat listen reports it: the config's string, trimmed, as a
/// decimal number (aliases are not numbers).
pub open spec fn spec_parse_node_id(s: Seq<char>) -> Option<u64> {
    spec_parse_u64(spec_trim(s))
}

/// Parses a config `node_id` as a decimal number.
pub fn parse_node_id(s: &str) -> (r: Option<u64>)
    ensures
        r == spec_parse_node_id(s@),
{
    parse_u64(trim(s))
}

/// The prefix of a rule's error details.
pub open spec fn rule_prefix(rule: Seq<char>) -> Seq<char> {
    "rule \""@ + rule + "\": "@
}

/// What is wrong with a Matter event trigger's source, if anything: it must
/// be a Matter device with a numeric node id.
pub open spec fn matter_source_problem(c: Config, rule: Seq<char>, device: Seq<char>) -> Option<(ErrorKind, Seq<char>)> {
    if !has_key(c.devices@, device) {
        Some((ErrorKind::NameNotFound, rule_prefix(rule) + device_not_found_detail(device)))
    } else {
        match lookup(c.devices@, device)->0 {
            Device::Matter { node_id: Some(n), .. } => if spec_parse_node_id(n@) is Some {
                None
            } else {
                Some(
                    (
                        ErrorKind::ConfigParse,
                        "rule \""@ + rule + "\": device \""@ + device + "\" node_id \""@ + n@
                            + "\" is not numeric"@,
                    ),
                )
            },
            Device::Matter { node_id: None, .. } => Some(
                (
                    ErrorKind::ConfigParse,
                    "rule \""@ + rule + "\": device \""@ + device
                        + "\" is a matter group (groupcast) with no node_id; a matter event trigger requires a node_id device"@,
                ),
            ),
            other => Some(
                (
                    ErrorKind::ProtocolUnsupported,
                    "rule \""@ + rule + "\": matter event trigger requires a matter device, but \""@
                        + device + "\" is "@ + spec_protocol(other),
                ),
            ),
        }
    }
}

/// What is wrong with a rule's trigger source, if anything: an event trigger
/// needs a device; a Matter event trigger needs a Matter device with a numeric
/// node id; a time trigger has no source.
pub open spec fn trigger_problem(c: Config, rule: Rule) -> Option<(ErrorKind, Seq<char>)> {
    match rule.when {
        Trigger::Event { device, .. } => if has_key(c.devices@, device@) {
            None
        } else {
            Some((ErrorKind::NameNotFound, rule_prefix(rule.name@) + device_not_found_detail(device@)))
        },
        Trigger::MatterEvent { device, .. } => matter_source_problem(c, rule.name@, device@),
        Trigger::Time { .. } => None,
    }
}

/// Whether an action's target is neither a device nor a group.
pub open spec fn unknown_target_pred(c: Config) -> spec_fn(Then) -> bool {
    |t: Then| !has_key(c.devices@, spec_target(t)) && !has_key(c.groups@, spec_target(t))
}

/// What is wrong with a rule, if anything: its trigger source first, then the
/// first action whose target is unknown.
pub open spec fn rule_problem(c: Config, rule: Rule) -> Option<(ErrorKind, Seq<char>)> {
    let k = first_where(spec_actions(rule.thens), unknown_target_pred(c));
    if trigger_problem(c, rule) is Some {
        trigger_problem(c, rule)
    } else if k >= 0 {
        Some(
            (
                ErrorKind::NameNotFound,
                rule_prefix(rule.name@) + target_not_found_detail(spec_target(spec_actions(rule.thens)[k])),
            ),
        )
    } else {
        None
    }
}

/// Whether a rule has a problem.
pub open spec fn bad_rule_pred(c: Config) -> spec_fn(Rule) -> bool {
    |r: Rule| rule_problem(c, r) is Some
}

/// The first problem of the rules against a config, in file order.
pub open spec fn rules_problem(c: Config, rules: Seq<Rule>) -> Option<(ErrorKind, Seq<char>)> {
    let k = first_where(rules, bad_rule_pred(c));
    if k < 0 {
        None
    } else {
        rule_problem(c, rules[k])
    }
}

fn prefixed(rule_name: &str, e: CasaError) -> (r: CasaError)
    ensures
        r.kind == e.kind,
        r.detail@ == rule_prefix(rule_name@) + e.detail@,
        r.response is None,
{
    let mut d = String::from_str("rule \"");
    d.append(rule_name);
    d.append("\": ");
    d.append(e.detail.as_str());
    CasaError::new(e.kind, d)
}

/// An event trigger's source must be a device.
pub fn check_device(config: &Config, rule_name: &str, device: &str) -> (r: Result<(), CasaError>)
    ensures
        match r {
            Ok(()) => has_key(config.devices@, device@),
            Err(e) => {
                &&& !has_key(config.devices@, device@)
                &&& e.kind == ErrorKind::NameNotFound
                &&& e.detail@ == rule_prefix(rule_name@) + device_not_found_detail(device@)
                &&& e.response is None
            },
        },
{
    match config.device(device) {
        Ok(_) => Ok(()),
        Err(e) => Err(prefixed(rule_name, e)),
    }
}

/// A Matter event trigger's source must be a Matter device with a numeric
/// node id, since mat listen reports events by node id.
pub fn check_matter_device(config: &Config, rule_name: &str, device: &str) -> (r: Result<(), CasaError>)
    ensures
        match r {
            Ok(()) => matter_source_problem(*config, rule_name@, device@) is None,
            Err(e) => matter_source_problem(*config, rule_name@, device@) == Some((e.kind, e.detail@))
                && e.response is None,
        },
{
    let dev = match config.device(device) {
        Ok(d) => d,
        Err(e) => {
            return Err(prefixed(rule_name, e));
        },
    };
    match dev {
        Device::Matter { node_id: Some(node_id), .. } => {
            if parse_node_id(node_id.as_str()).is_none() {
                let mut d = String::from_str("rule \"");
                d.append(rule_name);
                d.append("\": device \"");
                d.append(device);
                d.append("\" node_id \"");
                d.append(node_id.as_str());
                d.append("\" is not numeric");
                return Err(CasaError::new(ErrorKind::ConfigParse, d));
            }
            Ok(())
        },
        Device::Matter { node_id: None, .. } => {
            let mut d = String::from_str("rule \"");
            d.append(rule_name);
            d.append("\": device \"");
            d.append(device);
            d.append(
                "\" is a matter group (groupcast) with no node_id; a matter event trigger requires a node_id device",
            );
            Err(CasaError::new(ErrorKind::ConfigParse, d))
        },
        other => {
            let mut d = String::from_str("rule \"");
            d.append(rule_name);
            d.append("\": matter event trigger requires a matter device, but \"");
            d.append(device);
            d.append("\" is ");
            d.append(other.protocol());
            Err(CasaError::new(ErrorKind::ProtocolUnsupported, d))
        },
    }
}

/// An action's target must be a device or a group (casa expands groups).
pub fn check_target(config: &Config, rule_name: &str, name: &str) -> (r: Result<(), CasaError>)
    ensures
        match r {
            Ok(()) => has_key(config.devices@, name@) || has_key(config.groups@, name@),
            Err(e) => {
                &&& !has_key(config.devices@, name@)
                &&& !has_key(config.groups@, name@)
                &&& e.kind == ErrorKind::NameNotFound
                &&& e.detail@ == rule_prefix(rule_name@) + target_not_found_detail(name@)
                &&& e.response is None
            },
        },
{
    match config.ensure_target(name) {
        Ok(()) => Ok(()),
        Err(e) => Err(prefixed(rule_name, e)),
    }
}


fn check_rule(config: &Config, rule: &Rule) -> (r: Result<(), CasaError>)
    ensures
        match r {
            Ok(()) => rule_problem(*config, *rule) is None,
            Err(e) => rule_problem(*config, *rule) == Some((e.kind, e.detail@)) && e.response is None,
        },
{
    match &rule.when {
        Trigger::Event { device, .. } => {
            check_device(config, rule.name.as_str(), device.as_str())?;
        },
        Trigger::MatterEvent { device, .. } => {
            check_matter_device(config, rule.name.as_str(), device.as_str())?;
        },
        Trigger::Time { .. } => {},
    }
    let actions = rule.thens.actions();
    let ghost p = unknown_target_pred(*config);
    let mut i: usize = 0;
    while i < actions.len()
        invariant
            p == unknown_target_pred(*config),
            actions@ == spec_actions(rule.thens),
            trigger_problem(*config, *rule) is None,
            i <= actions.len(),
            forall|j: int| 0 <= j < i ==> !p(actions@[j]),
        decreases actions.len() - i,
    {
        match check_target(config, rule.name.as_str(), actions[i].device()) {
            Ok(()) => {},
            Err(e) => {
                proof {
                    lemma_first_where_at(actions@, p, i as int);
                }
                return Err(e);
            },
        }
        i = i + 1;
    }
    proof {
        lemma_first_where(actions@, p);
    }
    Ok(())
}

impl RuleFile {
    /// Checks every name the rules use against the config, before anything
    /// fires: an event trigger's source must be a device (a group has no
    /// address to match reports against), a Matter event trigger's source a
    /// Matter device with a numeric node id, and every action's target a device
    /// or a group. The first problem, in file order, is the error, naming its rule.
    pub fn validate(&self, config: &Config) -> (r: Result<(), CasaError>)
        ensures
            match r {
                Ok(()) => rules_problem(*config, self.rules@) is None,
                Err(e) => rules_problem(*config, self.rules@) == Some((e.kind, e.detail@)) && e.response is None,
            },
    {
        let ghost p = bad_rule_pred(*config);
        let mut i: usize = 0;
        while i < self.rules.len()
            invariant
                p == bad_rule_pred(*config),
                i <= self.rules.len(),
                forall|j: int| 0 <= j < i ==> !p(self.rules@[j]),
            decreases self.rules.len() - i,
        {
            match check_rule(config, &self.rules[i]) {
                Ok(()) => {},
                Err(e) => {
                    proof {
                        lemma_first_where_at(self.rules@, p, i as int);
                    }
                    return Err(e);
                },
            }
            i = i + 1;
        }
        proof {
            lemma_first_where(self.rules@, p);
        }
        Ok(())
    }
}

/// Law: once the rules pass validation, every action of every rule names a
/// device or a group, so no rule can fire at an unknown target.
pub proof fn law_validated_targets_exist(c: Config, rules: Seq<Rule>, i: int, j: int)
    requires
        rules_problem(c, rules) is None,
        0 <= i < rules.len(),
        0 <= j < spec_actions(rules[i].thens).len(),
    ensures
        has_key(c.devices@, spec_target(spec_actions(rules[i].thens)[j]))
            || has_key(c.groups@, spec_target(spec_actions(rules[i].thens)[j])),
{
    lemma_first_where(rules, bad_rule_pred(c));
    assert(!bad_rule_pred(c)(rules[i]));
    lemma_first_where(spec_actions(rules[i].thens), unknown_target_pred(c));
    assert(!unknown_target_pred(c)(spec_actions(rules[i].thens)[j]));
}

} // verus!
