//! Power levels: the integer level of each subject, and the level that each
//! action needs.

use vstd::prelude::*;
use ruma::events::room::power_levels::RoomPowerLevelsEventContent;
use crate::table::{value_in, Table};

verus! {

/// The power levels of a room, as its power-levels event states them. Levels
/// that the event leaves out have their defaults here already.
#[derive(Clone, Debug, PartialEq, Eq)]
pub struct PowerLevels {
    /// The level needed to ban.
    pub ban: i64,
    /// The level needed to send an event, by event type.
    pub events: Table<i64>,
    /// The level needed to send a message event of a type not listed.
    pub events_default: i64,
    /// The level needed to invite.
    pub invite: i64,
    /// The level needed to kick.
    pub kick: i64,
    /// The level needed to redact the events of others.
    pub redact: i64,
    /// The level needed to send a state event of a type not listed.
    pub state_default: i64,
    /// The level of each subject that has one of its own.
    pub users: Table<i64>,
    /// The level of every other subject.
    pub users_default: i64,
}

/// [`PowerLevels`] as a mathematical value.
pub struct PowerLevelsView {
    pub ban: int,
    pub events: Map<Seq<char>, i64>,
    pub events_default: int,
    pub invite: int,
    pub kick: int,
    pub redact: int,
    pub state_default: int,
    pub users: Map<Seq<char>, i64>,
    pub users_default: int,
}

impl View for PowerLevels {
    type V = PowerLevelsView;

    open spec fn view(&self) -> PowerLevelsView {
        PowerLevelsView {
            ban: self.ban as int,
            events: self.events@,
            events_default: self.events_default as int,
            invite: self.invite as int,
            kick: self.kick as int,
            redact: self.redact as int,
            state_default: self.state_default as int,
            users: self.users@,
            users_default: self.users_default as int,
        }
    }
}

impl PowerLevelsView {
    /// The level of a subject: its own where it has one, else the default.
    pub open spec fn level_of(self, user: Seq<char>) -> int {
        match value_in(self.users, user) {
            Some(level) => level as int,
            None => self.users_default,
        }
    }

    /// The level needed to send a message event of the given type.
    pub open spec fn level_for_message(self, event_type: Seq<char>) -> int {
        match value_in(self.events, event_type) {
            Some(level) => level as int,
            None => self.events_default,
        }
    }

    /// Whether a subject may redact its own events: whether it may send a
    /// redaction at all.
    pub open spec fn can_redact_own(self, user: Seq<char>) -> bool {
        self.level_of(user) >= self.level_for_message("m.room.redaction"@)
    }

    /// Whether a subject may redact the events of others: it may send a
    /// redaction, and its level reaches the redact threshold.
    pub open spec fn can_redact_others(self, user: Seq<char>) -> bool {
        self.can_redact_own(user) && self.level_of(user) >= self.redact
    }
}

impl PowerLevels {
    /// The level of a subject.
    pub fn for_user(&self, user_id: &str) -> (level: i64)
        ensures
            level == self@.level_of(user_id@),
    {
        match self.users.get(user_id) {
            Some(level) => *level,
            None => self.users_default,
        }
    }

    /// The level needed to send a message event of the given type.
    pub fn for_message(&self, event_type: &str) -> (level: i64)
        ensures
            level == self@.level_for_message(event_type@),
    {
        match self.events.get(event_type) {
            Some(level) => *level,
            None => self.events_default,
        }
    }

    /// Whether a subject may redact its own events.
    pub fn user_can_redact_own_event(&self, user_id: &str) -> (can: bool)
        ensures
            can == self@.can_redact_own(user_id@),
    {
        self.for_user(user_id) >= self.for_message("m.room.redaction")
    }

    /// Whether a subject may redact the events of others.
    pub fn user_can_redact_event_of_other(&self, user_id: &str) -> (can: bool)
        ensures
            can == self@.can_redact_others(user_id@),
    {
        self.user_can_redact_own_event(user_id) && self.for_user(user_id) >= self.redact
    }
}

/// What JSON text decodes to as power-levels content, if it decodes.
pub uninterp spec fn power_levels_in(content: Seq<char>) -> Option<PowerLevelsView>;

/// Calls `serde_json::from_str` for ruma's `RoomPowerLevelsEventContent` and
/// hands out its levels as integers and its two maps entry by entry, their
/// keys as text. The result is a function of the text alone; it is `None`
/// where decoding fails.
#[verifier::external_body]
pub(crate) fn decode_power_levels(content: &str) -> (levels: Option<PowerLevels>)
    ensures
        match levels {
            Some(decoded) => power_levels_in(content@) == Some(decoded@),
            None => power_levels_in(content@) is None,
        },
{
    match serde_json::from_str::<RoomPowerLevelsEventContent>(content) {
        Ok(c) => Some(PowerLevels {
            ban: c.ban.into(),
            events: Table { entries: c.events.into_iter().map(|(k, v)| (k.to_string(), v.into())).collect() },
            events_default: c.events_default.into(),
            invite: c.invite.into(),
            kick: c.kick.into(),
            redact: c.redact.into(),
            state_default: c.state_default.into(),
            users: Table { entries: c.users.into_iter().map(|(k, v)| (k.into(), v.into())).collect() },
            users_default: c.users_default.into(),
        }),
        Err(_) => None,
    }
}

} // verus!
