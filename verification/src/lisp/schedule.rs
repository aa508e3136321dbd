//! `defschedule`: a command, workflow or action run on a trigger.

use vstd::prelude::*;
use crate::text::{words, split_words, decimal, push_str, push_decimal, owned};

verus! {

/// One `(defschedule …)` form.
#[derive(Debug, Clone, PartialEq, Eq, Default)]
pub struct ScheduleSpec {
    pub name: String,
    pub description: String,
    pub cron: String,
    pub interval_seconds: u64,
    pub idle_seconds: u64,
    pub at_startup: bool,
    pub command: String,
    pub workflow: String,
    pub action: String,
    pub filetype: String,
    pub keybind: String,
}

/// What makes a schedule fire.
#[derive(Debug, Clone, Copy, PartialEq, Eq)]
pub enum Trigger {
    Cron,
    Interval,
    Idle,
    Startup,
    /// No trigger: only run by hand.
    Manual,
    /// More than one trigger.
    Invalid,
}

/// What a schedule runs.
#[derive(Debug, Clone, Copy, PartialEq, Eq)]
pub enum Dispatch {
    Command,
    Workflow,
    Action,
    /// None or more than one.
    Invalid,
}

impl ScheduleSpec {
    /// The trigger: exactly one of cron, interval, idle and startup, none
    /// (manual), or several (invalid).
    pub open spec fn spec_trigger(&self) -> Trigger {
        let c = self.cron@.len() > 0;
        let i = self.interval_seconds > 0;
        let d = self.idle_seconds > 0;
        let s = self.at_startup;
        if c && !i && !d && !s {
            Trigger::Cron
        } else if !c && i && !d && !s {
            Trigger::Interval
        } else if !c && !i && d && !s {
            Trigger::Idle
        } else if !c && !i && !d && s {
            Trigger::Startup
        } else if !c && !i && !d && !s {
            Trigger::Manual
        } else {
            Trigger::Invalid
        }
    }

    /// The trigger in force.
    pub fn trigger(&self) -> (t: Trigger)
        ensures
            t == self.spec_trigger(),
    {
        let c = !self.cron.as_str().is_empty();
        let i = self.interval_seconds > 0;
        let d = self.idle_seconds > 0;
        let s = self.at_startup;
        if c && !i && !d && !s {
            Trigger::Cron
        } else if !c && i && !d && !s {
            Trigger::Interval
        } else if !c && !i && d && !s {
            Trigger::Idle
        } else if !c && !i && !d && s {
            Trigger::Startup
        } else if !c && !i && !d && !s {
            Trigger::Manual
        } else {
            Trigger::Invalid
        }
    }

    /// What runs: exactly one of command, workflow and action, else invalid.
    pub fn dispatch(&self) -> (d: Dispatch)
        ensures
            d == (if self.command@.len() > 0 && self.workflow@.len() == 0 && self.action@.len()
                == 0 {
                Dispatch::Command
            } else if self.command@.len() == 0 && self.workflow@.len() > 0 && self.action@.len()
                == 0 {
                Dispatch::Workflow
            } else if self.command@.len() == 0 && self.workflow@.len() == 0 && self.action@.len()
                > 0 {
                Dispatch::Action
            } else {
                Dispatch::Invalid
            }),
    {
        let c = !self.command.as_str().is_empty();
        let w = !self.workflow.as_str().is_empty();
        let a = !self.action.as_str().is_empty();
        if c && !w && !a {
            Dispatch::Command
        } else if !c && w && !a {
            Dispatch::Workflow
        } else if !c && !w && a {
            Dispatch::Action
        } else {
            Dispatch::Invalid
        }
    }

    /// The cron expression has five whitespace-separated fields.
    pub fn has_well_shaped_cron(&self) -> (b: bool)
        ensures
            b == (words(self.cron@).len() == 5),
    {
        let fields = split_words(self.cron.as_str());
        fields.len() == 5
    }

    /// The schedule fires on its own (it is neither manual nor invalid).
    pub fn is_automatic(&self) -> (b: bool)
        ensures
            b == !(self.spec_trigger() is Manual || self.spec_trigger() is Invalid),
    {
        match self.trigger() {
            Trigger::Manual | Trigger::Invalid => false,
            _ => true,
        }
    }

    /// `cron:<expr>`, `interval:<n>s`, `idle:<n>s`, `startup`, `manual` or
    /// `invalid`.
    pub fn trigger_label(&self) -> (s: String)
        ensures
            s@ == (match self.spec_trigger() {
                Trigger::Cron => "cron:"@ + self.cron@,
                Trigger::Interval => "interval:"@ + decimal(self.interval_seconds as nat) + "s"@,
                Trigger::Idle => "idle:"@ + decimal(self.idle_seconds as nat) + "s"@,
                Trigger::Startup => "startup"@,
                Trigger::Manual => "manual"@,
                Trigger::Invalid => "invalid"@,
            }),
    {
        match self.trigger() {
            Trigger::Cron => {
                let mut s = owned("cron:");
                push_str(&mut s, self.cron.as_str());
                s
            },
            Trigger::Interval => {
                let mut s = owned("interval:");
                push_decimal(&mut s, self.interval_seconds);
                push_str(&mut s, "s");
                s
            },
            Trigger::Idle => {
                let mut s = owned("idle:");
                push_decimal(&mut s, self.idle_seconds);
                push_str(&mut s, "s");
                s
            },
            Trigger::Startup => owned("startup"),
            Trigger::Manual => owned("manual"),
            Trigger::Invalid => owned("invalid"),
        }
    }
}

} // verus!
