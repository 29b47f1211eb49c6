//! AutoMod rules: listing, toggling and deleting.
use vstd::prelude::*;

use crate::text::{concat3, decimal, decimal_string, join_seq, owned, parse_u64, parse_u64_seq, push_str};

verus! {

/// What makes a rule fire.
#[derive(Clone, Copy, Debug, PartialEq, Eq, Structural)]
pub enum AutoModTrigger {
    /// A user-defined keyword list.
    Keyword,
    /// Generic spam, as Discord judges it.
    Spam,
    /// One of Discord's own wordsets.
    KeywordPreset,
    /// More unique mentions than allowed.
    MentionSpam,
    /// Applied to profiles rather than messages.
    UserProfile,
    /// A trigger this build does not know: shown rather than hidden, since
    /// it is in force.
    Unknown(u64),
}

pub open spec fn trigger_of(code: u64) -> AutoModTrigger {
    match code {
        1 => AutoModTrigger::Keyword,
        3 => AutoModTrigger::Spam,
        4 => AutoModTrigger::KeywordPreset,
        5 => AutoModTrigger::MentionSpam,
        6 => AutoModTrigger::UserProfile,
        other => AutoModTrigger::Unknown(other),
    }
}

pub open spec fn trigger_label(t: AutoModTrigger) -> Seq<char> {
    match t {
        AutoModTrigger::Keyword => "Keywords"@,
        AutoModTrigger::Spam => "Spam"@,
        AutoModTrigger::KeywordPreset => "Discord's wordlists"@,
        AutoModTrigger::MentionSpam => "Mention spam"@,
        AutoModTrigger::UserProfile => "Profile content"@,
        AutoModTrigger::Unknown(code) => "Unrecognised trigger "@ + decimal(code as nat),
    }
}

impl AutoModTrigger {
    pub fn from_code(code: u64) -> (t: Self)
        ensures
            t == trigger_of(code),
    {
        match code {
            1 => AutoModTrigger::Keyword,
            3 => AutoModTrigger::Spam,
            4 => AutoModTrigger::KeywordPreset,
            5 => AutoModTrigger::MentionSpam,
            6 => AutoModTrigger::UserProfile,
            other => AutoModTrigger::Unknown(other),
        }
    }

    pub fn label(self) -> (s: String)
        ensures
            s@ == trigger_label(self),
    {
        match self {
            AutoModTrigger::Keyword => owned("Keywords"),
            AutoModTrigger::Spam => owned("Spam"),
            AutoModTrigger::KeywordPreset => owned("Discord's wordlists"),
            AutoModTrigger::MentionSpam => owned("Mention spam"),
            AutoModTrigger::UserProfile => owned("Profile content"),
            AutoModTrigger::Unknown(code) => {
                let mut s = owned("Unrecognised trigger ");
                push_str(&mut s, decimal_string(code).as_str());
                s
            },
        }
    }
}

/// What a rule does when it fires.
#[derive(Clone, Copy, Debug, PartialEq, Eq, Structural)]
pub enum AutoModAction {
    BlockMessage,
    SendAlert,
    TimeoutUser,
    QuarantineUser,
    Unknown(u64),
}

pub open spec fn action_of(code: u64) -> AutoModAction {
    match code {
        1 => AutoModAction::BlockMessage,
        2 => AutoModAction::SendAlert,
        3 => AutoModAction::TimeoutUser,
        4 => AutoModAction::QuarantineUser,
        other => AutoModAction::Unknown(other),
    }
}

pub open spec fn action_label(a: AutoModAction) -> Seq<char> {
    match a {
        AutoModAction::BlockMessage => "block the message"@,
        AutoModAction::SendAlert => "send an alert"@,
        AutoModAction::TimeoutUser => "time the member out"@,
        AutoModAction::QuarantineUser => "quarantine the member"@,
        AutoModAction::Unknown(code) => "do something (action "@ + decimal(code as nat) + ")"@,
    }
}

impl AutoModAction {
    pub fn from_code(code: u64) -> (a: Self)
        ensures
            a == action_of(code),
    {
        match code {
            1 => AutoModAction::BlockMessage,
            2 => AutoModAction::SendAlert,
            3 => AutoModAction::TimeoutUser,
            4 => AutoModAction::QuarantineUser,
            other => AutoModAction::Unknown(other),
        }
    }

    pub fn label(self) -> (s: String)
        ensures
            s@ == action_label(self),
    {
        match self {
            AutoModAction::BlockMessage => owned("block the message"),
            AutoModAction::SendAlert => owned("send an alert"),
            AutoModAction::TimeoutUser => owned("time the member out"),
            AutoModAction::QuarantineUser => owned("quarantine the member"),
            AutoModAction::Unknown(code) => concat3("do something (action ", decimal_string(code).as_str(), ")"),
        }
    }
}

/// One AutoMod rule, as the panel shows it.
#[derive(Clone, Debug, PartialEq, Eq)]
pub struct AutoModRule {
    pub id: u64,
    pub name: String,
    pub enabled: bool,
    pub trigger: AutoModTrigger,
    pub actions: Vec<AutoModAction>,
}

pub open spec fn action_labels(actions: Seq<AutoModAction>) -> Seq<Seq<char>> {
    actions.map_values(|a: AutoModAction| action_label(a))
}

/// "trigger - action, action", or "- do nothing" for a rule with none.
pub open spec fn rule_summary(r: AutoModRule) -> Seq<char> {
    trigger_label(r.trigger) + " - "@ + if r.actions@.len() == 0 {
        "do nothing"@
    } else {
        join_seq(action_labels(r.actions@), ", "@)
    }
}

impl AutoModRule {
    /// What fires the rule, and what it then does.
    pub fn summary(&self) -> (s: String)
        ensures
            s@ == rule_summary(*self),
    {
        let mut labels: Vec<String> = Vec::new();
        let n = self.actions.len();
        let mut i: usize = 0;
        while i < n
            invariant
                n == self.actions@.len(),
                i <= n,
                labels@.len() == i,
                crate::text::views(labels@) == action_labels(self.actions@).take(i as int),
            decreases n - i,
        {
            let l = self.actions[i].label();
            let ghost before = labels@;
            labels.push(l);
            assert(labels@ == before.push(l));
            assert(labels@[i as int]@ == action_label(self.actions@[i as int]));
            assert(crate::text::views(labels@) =~= action_labels(self.actions@).take(i + 1));
            i = i + 1;
        }
        assert(action_labels(self.actions@).take(n as int) =~= action_labels(self.actions@));
        let mut s = self.trigger.label();
        push_str(&mut s, " - ");
        if n == 0 {
            push_str(&mut s, "do nothing");
        } else {
            push_str(&mut s, crate::text::join(&labels, ", ").as_str());
        }
        s
    }
}

/// One rule as Discord sends it.
pub struct RuleBody {
    pub id: Option<String>,
    pub name: Option<String>,
    pub enabled: bool,
    pub trigger_type: u64,
    pub actions: Vec<u64>,
}

/// The rule a body describes; one whose id is missing or not a number
/// cannot be toggled or deleted, so it has no row.
pub open spec fn rule_of(b: RuleBody) -> Option<(u64, Seq<char>, bool, AutoModTrigger, Seq<AutoModAction>)> {
    match b.id {
        Some(id) => match parse_u64_seq(id@) {
            Some(v) => Some((
                v,
                match b.name {
                    Some(n) => n@,
                    None => Seq::empty(),
                },
                b.enabled,
                trigger_of(b.trigger_type),
                b.actions@.map_values(|c: u64| action_of(c)),
            )),
            None => None,
        },
        None => None,
    }
}

pub open spec fn rule_view(r: AutoModRule) -> (u64, Seq<char>, bool, AutoModTrigger, Seq<AutoModAction>) {
    (r.id, r.name@, r.enabled, r.trigger, r.actions@)
}

pub fn rule_from_body(body: &RuleBody) -> (r: Option<AutoModRule>)
    ensures
        match r {
            Some(rule) => rule_of(*body) == Some(rule_view(rule)),
            None => rule_of(*body) is None,
        },
{
    let id = match &body.id {
        Some(s) => match parse_u64(s.as_str()) {
            Some(v) => v,
            None => return None,
        },
        None => return None,
    };
    let mut actions: Vec<AutoModAction> = Vec::new();
    let n = body.actions.len();
    let mut i: usize = 0;
    while i < n
        invariant
            n == body.actions@.len(),
            i <= n,
            actions@ == body.actions@.take(i as int).map_values(|c: u64| action_of(c)),
        decreases n - i,
    {
        actions.push(AutoModAction::from_code(body.actions[i]));
        assert(actions@ =~= body.actions@.take(i + 1).map_values(|c: u64| action_of(c)));
        i = i + 1;
    }
    assert(body.actions@.take(n as int) =~= body.actions@);
    let name = match &body.name {
        Some(n) => owned(n.as_str()),
        None => String::new(),
    };
    Some(AutoModRule {
        id,
        name,
        enabled: body.enabled,
        trigger: AutoModTrigger::from_code(body.trigger_type),
        actions,
    })
}

} // verus!
