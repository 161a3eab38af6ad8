//! Trigger types: how workflows get started.

use crate::text;
use std::str::FromStr;
use vstd::prelude::*;

verus! {

/// Canonical trigger type names accepted by the backend wire contract.
pub const CANONICAL_TRIGGER_TYPES: [&'static str; 4] = ["manual", "event", "schedule", "webhook"];

/// Legacy frontend/UI alias for [`TriggerType::Schedule`].
pub const LEGACY_CRON_TRIGGER_TYPE: &'static str = "cron";

/// How a workflow can be triggered.
#[derive(Debug, Clone, Copy, PartialEq, Eq, Structural)]
pub enum TriggerType {
    Manual,
    Event,
    Schedule,
    Webhook,
}

/// The canonical wire value of a trigger type.
pub open spec fn trigger_name(t: TriggerType) -> Seq<char> {
    match t {
        TriggerType::Manual => "manual"@,
        TriggerType::Event => "event"@,
        TriggerType::Schedule => "schedule"@,
        TriggerType::Webhook => "webhook"@,
    }
}

/// The trigger type that a wire value stands for: the one that it is the
/// canonical name of, or the schedule for the legacy alias.
pub open spec fn wire_trigger(value: Seq<char>) -> Option<TriggerType> {
    if value == "manual"@ {
        Some(TriggerType::Manual)
    } else if value == "event"@ {
        Some(TriggerType::Event)
    } else if value == "schedule"@ || value == LEGACY_CRON_TRIGGER_TYPE@ {
        Some(TriggerType::Schedule)
    } else if value == "webhook"@ {
        Some(TriggerType::Webhook)
    } else {
        None
    }
}

impl TriggerType {
    /// Returns the canonical backend wire value for this trigger type.
    pub fn as_str(&self) -> (r: &'static str)
        ensures
            r@ == trigger_name(*self),
    {
        match self {
            TriggerType::Manual => "manual",
            TriggerType::Event => "event",
            TriggerType::Schedule => "schedule",
            TriggerType::Webhook => "webhook",
        }
    }

    /// The canonical wire value as an owned text.
    pub fn to_string(&self) -> (r: String)
        ensures
            r@ == trigger_name(*self),
    {
        self.as_str().to_owned()
    }

    /// Parses a backend wire value, accepting the legacy UI alias `cron`.
    pub fn parse_wire(value: &str) -> (r: Option<TriggerType>)
        ensures
            r == wire_trigger(value@),
    {
        if text::same_text(value, "manual") {
            Some(TriggerType::Manual)
        } else if text::same_text(value, "event") {
            Some(TriggerType::Event)
        } else if text::same_text(value, "schedule") || text::same_text(
            value,
            LEGACY_CRON_TRIGGER_TYPE,
        ) {
            Some(TriggerType::Schedule)
        } else if text::same_text(value, "webhook") {
            Some(TriggerType::Webhook)
        } else {
            None
        }
    }

    /// Returns true when `value` is an accepted alias but not canonical output.
    pub fn is_legacy_alias(value: &str) -> (r: bool)
        ensures
            r == (value@ == LEGACY_CRON_TRIGGER_TYPE@),
    {
        text::same_text(value, LEGACY_CRON_TRIGGER_TYPE)
    }
}

/// A wire value that stands for no trigger type.
#[derive(Debug)]
pub struct TriggerTypeParseError {
    value: String,
}

impl View for TriggerTypeParseError {
    type V = Seq<char>;

    closed spec fn view(&self) -> Seq<char> {
        self.value@
    }
}

impl TriggerTypeParseError {
    /// The error as text.
    pub fn to_string(&self) -> (r: String)
        ensures
            r@ == "unknown trigger type '"@ + self@
                + "'; expected one of manual, event, schedule, webhook, cron"@,
    {
        let mut out = "unknown trigger type '".to_owned();
        out.append(self.value.as_str());
        out.append("'; expected one of manual, event, schedule, webhook, cron");
        out
    }
}

impl FromStr for TriggerType {
    type Err = TriggerTypeParseError;

    /// Parses a wire value; one that stands for no trigger type comes back in the
    /// error.
    fn from_str(value: &str) -> (r: Result<TriggerType, TriggerTypeParseError>)
        ensures
            match wire_trigger(value@) {
                Some(t) => r == Ok::<TriggerType, TriggerTypeParseError>(t),
                None => r is Err && r->Err_0@ == value@,
            },
    {
        match TriggerType::parse_wire(value) {
            Some(t) => Ok(t),
            None => Err(TriggerTypeParseError { value: value.to_owned() }),
        }
    }
}

/// A trigger definition (deprecated; use trigger-kind nodes instead).
#[derive(Debug)]
pub struct Trigger {
    pub trigger_type: TriggerType,
    pub config: TriggerConfig,
}

/// Configuration for a trigger.
#[derive(Debug)]
pub struct TriggerConfig {
    pub cron: Option<String>,
    pub event_name: Option<String>,
    pub path: Option<String>,
}

impl Default for TriggerConfig {
    /// No cron expression, no event name, no path.
    fn default() -> (r: TriggerConfig)
        ensures
            r.cron is None,
            r.event_name is None,
            r.path is None,
    {
        TriggerConfig { cron: None, event_name: None, path: None }
    }
}

/// Parsing the canonical name of a trigger type gives the type back.
pub proof fn law_trigger_name_parses_back(t: TriggerType)
    ensures
        wire_trigger(trigger_name(t)) == Some(t),
{
    reveal_strlit("manual");
    reveal_strlit("event");
    reveal_strlit("schedule");
    reveal_strlit("webhook");
    reveal_strlit("cron");
    assert("manual"@[0] == 'm' && "event"@[0] == 'e' && "schedule"@[0] == 's' && "webhook"@[0]
        == 'w' && "cron"@[0] == 'c');
}

/// The legacy alias is accepted and is the canonical name of no trigger type;
/// every other accepted value is the canonical name of what it parses to.
pub proof fn law_only_the_alias_is_not_canonical(value: Seq<char>)
    ensures
        wire_trigger(LEGACY_CRON_TRIGGER_TYPE@) == Some(TriggerType::Schedule),
        forall|t: TriggerType| trigger_name(t) != LEGACY_CRON_TRIGGER_TYPE@,
        wire_trigger(value) is Some && value != LEGACY_CRON_TRIGGER_TYPE@ ==> trigger_name(
            wire_trigger(value)->0,
        ) == value,
{
    reveal_strlit("manual");
    reveal_strlit("event");
    reveal_strlit("schedule");
    reveal_strlit("webhook");
    reveal_strlit("cron");
    assert("manual"@[0] == 'm' && "event"@[0] == 'e' && "schedule"@[0] == 's' && "webhook"@[0]
        == 'w' && "cron"@[0] == 'c');
}

/// Each trigger type goes by its own word on the wire, and a schedule by `cron` as
/// well; nothing else stands for a trigger type.
pub proof fn law_trigger_types_go_by_their_words(value: Seq<char>)
    ensures
        trigger_name(TriggerType::Manual) == "manual"@,
        trigger_name(TriggerType::Event) == "event"@,
        trigger_name(TriggerType::Schedule) == "schedule"@,
        trigger_name(TriggerType::Webhook) == "webhook"@,
        wire_trigger("manual"@) == Some(TriggerType::Manual),
        wire_trigger("event"@) == Some(TriggerType::Event),
        wire_trigger("schedule"@) == Some(TriggerType::Schedule),
        wire_trigger("cron"@) == Some(TriggerType::Schedule),
        wire_trigger("webhook"@) == Some(TriggerType::Webhook),
        wire_trigger(value) is Some ==> value == "manual"@ || value == "event"@ || value
            == "schedule"@ || value == "cron"@ || value == "webhook"@,
{
    reveal_strlit("manual");
    reveal_strlit("event");
    reveal_strlit("schedule");
    reveal_strlit("webhook");
    reveal_strlit("cron");
    assert("manual"@.len() == 6 && "event"@.len() == 5 && "schedule"@.len() == 8 && "webhook"@.len()
        == 7 && "cron"@.len() == 4);
}

} // verus!
