//! The typed outcomes that the engine reports when it turns a request away.

use vstd::prelude::*;
use vstd::string::*;

verus! {

/// The rule that a rejected mutation or action broke.
#[derive(Clone, Copy, Debug, PartialEq, Eq, Structural)]
pub enum Violation {
    /// The room-create event can never be replaced.
    CreateIsImmutable,
    /// Encryption is switched off for the whole server.
    EncryptionDisabled,
    /// The admin room may not become publicly joinable.
    AdminRoomPublic,
    /// The admin room may not become world-readable.
    AdminRoomWorldReadable,
    /// A listed alias belongs to another server.
    AliasNotLocal,
    /// A listed alias does not already resolve to this room.
    AliasNotResolving,
    /// A join was authorised for a subject who is joined already.
    AlreadyJoined,
    /// The subject authorising a join belongs to another server.
    AuthorizerNotLocal,
    /// The subject authorising a join is not joined to the room.
    AuthorizerNotJoined,
    /// Redacting the room-create event would remove the room's identity.
    RedactCreate,
    /// Redacting the server access-control event could empty its allow-list.
    RedactServerAcl,
    /// The subject may not see the state of the room.
    StateNotVisible,
}

/// The shape that a piece of content failed to have.
#[derive(Clone, Copy, Debug, PartialEq, Eq, Structural)]
pub enum Defect {
    /// Membership content without a valid membership state.
    MembershipContent,
    /// A membership event whose state key is no subject identifier.
    MembershipStateKey,
    /// A join authorisation on a membership that is not a join.
    AuthorizerOnNonJoin,
    /// Content that is not JSON at all.
    ContentNotJson,
}

/// Why the engine refused to do what was asked.
#[derive(Clone, Copy, Debug, PartialEq, Eq, Structural)]
pub enum EngineError {
    /// A rule forbids the mutation or action.
    PolicyViolation(Violation),
    /// The requested state entry does not exist.
    NotFound,
    /// The content does not decode to what a rule needs.
    Malformed(Defect),
    /// A singleton that every room must have is missing from storage.
    StorageInconsistency,
}

impl Violation {
    /// The reason, in words for the user.
    pub open spec fn text(self) -> Seq<char> {
        match self {
            Violation::CreateIsImmutable => "the room-create event cannot be replaced"@,
            Violation::EncryptionDisabled => "encryption is disabled on this server"@,
            Violation::AdminRoomPublic => "the admin room cannot be made public"@,
            Violation::AdminRoomWorldReadable => "the admin room cannot be made world-readable"@,
            Violation::AliasNotLocal => "a canonical alias must belong to this server"@,
            Violation::AliasNotResolving => "a canonical alias must already resolve to this room"@,
            Violation::AlreadyJoined => "the subject is joined already and needs no authorisation"@,
            Violation::AuthorizerNotLocal => "the authorising subject does not belong to this server"@,
            Violation::AuthorizerNotJoined => "the authorising subject is not joined to the room"@,
            Violation::RedactCreate => "the room-create event cannot be redacted"@,
            Violation::RedactServerAcl => "the server access-control event cannot be redacted"@,
            Violation::StateNotVisible => "the room's state is not visible to the subject"@,
        }
    }

    /// The reason as a string to show.
    pub fn message(&self) -> (text: String)
        ensures
            text@ == self.text(),
    {
        let text = match self {
            Violation::CreateIsImmutable => "the room-create event cannot be replaced",
            Violation::EncryptionDisabled => "encryption is disabled on this server",
            Violation::AdminRoomPublic => "the admin room cannot be made public",
            Violation::AdminRoomWorldReadable => "the admin room cannot be made world-readable",
            Violation::AliasNotLocal => "a canonical alias must belong to this server",
            Violation::AliasNotResolving => "a canonical alias must already resolve to this room",
            Violation::AlreadyJoined => "the subject is joined already and needs no authorisation",
            Violation::AuthorizerNotLocal => "the authorising subject does not belong to this server",
            Violation::AuthorizerNotJoined => "the authorising subject is not joined to the room",
            Violation::RedactCreate => "the room-create event cannot be redacted",
            Violation::RedactServerAcl => "the server access-control event cannot be redacted",
            Violation::StateNotVisible => "the room's state is not visible to the subject",
        };
        text.to_owned()
    }
}

impl Defect {
    /// The defect, in words for the user.
    pub open spec fn text(self) -> Seq<char> {
        match self {
            Defect::MembershipContent => "membership content needs a valid membership state"@,
            Defect::MembershipStateKey => "the state key of a membership event must name a subject"@,
            Defect::AuthorizerOnNonJoin => "only a join can carry a join authorisation"@,
            Defect::ContentNotJson => "the content is not JSON"@,
        }
    }

    /// The defect as a string to show.
    pub fn message(&self) -> (text: String)
        ensures
            text@ == self.text(),
    {
        let text = match self {
            Defect::MembershipContent => "membership content needs a valid membership state",
            Defect::MembershipStateKey => "the state key of a membership event must name a subject",
            Defect::AuthorizerOnNonJoin => "only a join can carry a join authorisation",
            Defect::ContentNotJson => "the content is not JSON",
        };
        text.to_owned()
    }
}

impl EngineError {
    /// The error, in words for the user.
    pub open spec fn text(self) -> Seq<char> {
        match self {
            EngineError::PolicyViolation(v) => v.text(),
            EngineError::NotFound => "no such state entry"@,
            EngineError::Malformed(d) => d.text(),
            EngineError::StorageInconsistency => "the room has neither power levels nor a create event"@,
        }
    }

    /// The error as a string to show.
    pub fn message(&self) -> (text: String)
        ensures
            text@ == self.text(),
    {
        match self {
            EngineError::PolicyViolation(v) => v.message(),
            EngineError::NotFound => "no such state entry".to_owned(),
            EngineError::Malformed(d) => d.message(),
            EngineError::StorageInconsistency => {
                "the room has neither power levels nor a create event".to_owned()
            },
        }
    }
}

} // verus!
