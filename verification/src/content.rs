//! Event types and the typed content that the rules read.
//!
//! Content arrives as JSON text. Decoding is left to `serde_json` and to the
//! content types of `ruma`; what they return is given a name here, and the
//! rules are stated over those names.

use vstd::prelude::*;
use ruma::events::room::canonical_alias::RoomCanonicalAliasEventContent;
use ruma::events::room::history_visibility::RoomHistoryVisibilityEventContent;
use ruma::events::room::join_rules::RoomJoinRulesEventContent;
use ruma::events::room::member::RoomMemberEventContent;
use crate::text::str_eq;

verus! {

/// The event types that a rule of the engine singles out.
#[derive(Clone, Copy, Debug, PartialEq, Eq, Structural)]
pub enum EventKind {
    RoomCreate,
    RoomEncryption,
    RoomJoinRules,
    RoomHistoryVisibility,
    RoomCanonicalAlias,
    RoomMember,
    RoomPowerLevels,
    RoomServerAcl,
    /// Any other type: no rule of its own.
    Other,
}

/// The kind of an event, by its type string.
pub open spec fn kind_of(event_type: Seq<char>) -> EventKind {
    if event_type == "m.room.create"@ {
        EventKind::RoomCreate
    } else if event_type == "m.room.encryption"@ {
        EventKind::RoomEncryption
    } else if event_type == "m.room.join_rules"@ {
        EventKind::RoomJoinRules
    } else if event_type == "m.room.history_visibility"@ {
        EventKind::RoomHistoryVisibility
    } else if event_type == "m.room.canonical_alias"@ {
        EventKind::RoomCanonicalAlias
    } else if event_type == "m.room.member"@ {
        EventKind::RoomMember
    } else if event_type == "m.room.power_levels"@ {
        EventKind::RoomPowerLevels
    } else if event_type == "m.room.server_acl"@ {
        EventKind::RoomServerAcl
    } else {
        EventKind::Other
    }
}

/// Finds the kind of an event from its type string.
pub fn classify(event_type: &str) -> (kind: EventKind)
    ensures
        kind == kind_of(event_type@),
{
    if str_eq(event_type, "m.room.create") {
        EventKind::RoomCreate
    } else if str_eq(event_type, "m.room.encryption") {
        EventKind::RoomEncryption
    } else if str_eq(event_type, "m.room.join_rules") {
        EventKind::RoomJoinRules
    } else if str_eq(event_type, "m.room.history_visibility") {
        EventKind::RoomHistoryVisibility
    } else if str_eq(event_type, "m.room.canonical_alias") {
        EventKind::RoomCanonicalAlias
    } else if str_eq(event_type, "m.room.member") {
        EventKind::RoomMember
    } else if str_eq(event_type, "m.room.power_levels") {
        EventKind::RoomPowerLevels
    } else if str_eq(event_type, "m.room.server_acl") {
        EventKind::RoomServerAcl
    } else {
        EventKind::Other
    }
}

/// The type strings that the rules single out are pairwise different, so each
/// is of its own kind.
pub proof fn lemma_kinds_of_known_types()
    ensures
        kind_of("m.room.create"@) == EventKind::RoomCreate,
        kind_of("m.room.encryption"@) == EventKind::RoomEncryption,
        kind_of("m.room.join_rules"@) == EventKind::RoomJoinRules,
        kind_of("m.room.history_visibility"@) == EventKind::RoomHistoryVisibility,
        kind_of("m.room.canonical_alias"@) == EventKind::RoomCanonicalAlias,
        kind_of("m.room.member"@) == EventKind::RoomMember,
        kind_of("m.room.power_levels"@) == EventKind::RoomPowerLevels,
        kind_of("m.room.server_acl"@) == EventKind::RoomServerAcl,
{
    reveal_strlit("m.room.create");
    reveal_strlit("m.room.encryption");
    reveal_strlit("m.room.join_rules");
    reveal_strlit("m.room.history_visibility");
    reveal_strlit("m.room.canonical_alias");
    reveal_strlit("m.room.member");
    reveal_strlit("m.room.power_levels");
    reveal_strlit("m.room.server_acl");
    assert("m.room.create"@.len() == 13 && "m.room.create"@[7] == 'c');
    assert("m.room.member"@.len() == 13 && "m.room.member"@[7] == 'm');
    assert("m.room.encryption"@.len() == 17 && "m.room.encryption"@[7] == 'e');
    assert("m.room.join_rules"@.len() == 17 && "m.room.join_rules"@[7] == 'j');
    assert("m.room.server_acl"@.len() == 17 && "m.room.server_acl"@[7] == 's');
    assert("m.room.power_levels"@.len() == 19);
    assert("m.room.canonical_alias"@.len() == 22);
    assert("m.room.history_visibility"@.len() == 25);
}

/// How users may join a room.
#[derive(Clone, Copy, Debug, PartialEq, Eq, Structural)]
pub enum JoinRule {
    Invite,
    Knock,
    Private,
    Restricted,
    KnockRestricted,
    Public,
    /// A rule that this engine does not know.
    Custom,
}

/// Who may read a room's past events.
#[derive(Clone, Copy, Debug, PartialEq, Eq, Structural)]
pub enum HistoryVisibility {
    Invited,
    Joined,
    Shared,
    WorldReadable,
    /// A value that this engine does not know.
    Custom,
}

/// A subject's relationship to a room.
#[derive(Clone, Copy, Debug, PartialEq, Eq, Structural)]
pub enum MembershipState {
    Ban,
    Invite,
    Join,
    Knock,
    Leave,
    /// A state that this engine does not know.
    Custom,
}

/// What the rules read of membership content.
#[derive(Clone, Debug, PartialEq, Eq)]
pub struct MemberContent {
    pub membership: MembershipState,
    /// The local subject said to authorise a join, if one is named.
    pub join_authorized_via_users_server: Option<String>,
}

/// [`MemberContent`] as a mathematical value.
pub struct MemberContentView {
    pub membership: MembershipState,
    pub join_authorized_via_users_server: Option<Seq<char>>,
}

impl View for MemberContent {
    type V = MemberContentView;

    open spec fn view(&self) -> MemberContentView {
        MemberContentView {
            membership: self.membership,
            join_authorized_via_users_server: match self.join_authorized_via_users_server {
                Some(user) => Some(user@),
                None => None,
            },
        }
    }
}

/// What the rules read of canonical-alias content.
#[derive(Clone, Debug, PartialEq, Eq)]
pub struct AliasContent {
    /// The primary alias.
    pub alias: Option<String>,
    /// The alternates.
    pub alt_aliases: Vec<String>,
}

/// [`AliasContent`] as a mathematical value.
pub struct AliasContentView {
    pub alias: Option<Seq<char>>,
    pub alt_aliases: Seq<Seq<char>>,
}

impl View for AliasContent {
    type V = AliasContentView;

    open spec fn view(&self) -> AliasContentView {
        AliasContentView {
            alias: match self.alias {
                Some(alias) => Some(alias@),
                None => None,
            },
            alt_aliases: self.alt_aliases.deep_view(),
        }
    }
}

/// The join rule that JSON text decodes to as join-rules content, if it
/// decodes.
pub uninterp spec fn join_rule_in(content: Seq<char>) -> Option<JoinRule>;

/// The history visibility that JSON text decodes to as history-visibility
/// content, if it decodes.
pub uninterp spec fn history_visibility_in(content: Seq<char>) -> Option<HistoryVisibility>;

/// What JSON text decodes to as membership content, if it decodes.
pub uninterp spec fn member_content_in(content: Seq<char>) -> Option<MemberContentView>;

/// What JSON text decodes to as canonical-alias content, if it decodes.
pub uninterp spec fn alias_content_in(content: Seq<char>) -> Option<AliasContentView>;

/// Whether a string is a well-formed subject identifier.
pub uninterp spec fn user_id_valid(id: Seq<char>) -> bool;

/// Whether text is one JSON value.
pub uninterp spec fn is_json(content: Seq<char>) -> bool;

/// Calls `serde_json::from_str` for ruma's `RoomJoinRulesEventContent` and
/// hands out its `join_rule`, variant for variant. The result is a function
/// of the text alone; it is `None` where decoding fails.
#[verifier::external_body]
pub(crate) fn decode_join_rule(content: &str) -> (rule: Option<JoinRule>)
    ensures
        rule == join_rule_in(content@),
{
    match serde_json::from_str::<RoomJoinRulesEventContent>(content) {
        Ok(decoded) => Some(match decoded.join_rule {
            ruma::events::room::join_rules::JoinRule::Invite => JoinRule::Invite,
            ruma::events::room::join_rules::JoinRule::Knock => JoinRule::Knock,
            ruma::events::room::join_rules::JoinRule::Private => JoinRule::Private,
            ruma::events::room::join_rules::JoinRule::Restricted(_) => JoinRule::Restricted,
            ruma::events::room::join_rules::JoinRule::KnockRestricted(_) => JoinRule::KnockRestricted,
            ruma::events::room::join_rules::JoinRule::Public => JoinRule::Public,
            _ => JoinRule::Custom,
        }),
        Err(_) => None,
    }
}

/// Calls `serde_json::from_str` for ruma's `RoomHistoryVisibilityEventContent`
/// and hands out its `history_visibility`, variant for variant. The result is
/// a function of the text alone; it is `None` where decoding fails.
#[verifier::external_body]
pub(crate) fn decode_history_visibility(content: &str) -> (visibility: Option<HistoryVisibility>)
    ensures
        visibility == history_visibility_in(content@),
{
    match serde_json::from_str::<RoomHistoryVisibilityEventContent>(content) {
        Ok(decoded) => Some(match decoded.history_visibility {
            ruma::events::room::history_visibility::HistoryVisibility::Invited => HistoryVisibility::Invited,
            ruma::events::room::history_visibility::HistoryVisibility::Joined => HistoryVisibility::Joined,
            ruma::events::room::history_visibility::HistoryVisibility::Shared => HistoryVisibility::Shared,
            ruma::events::room::history_visibility::HistoryVisibility::WorldReadable => HistoryVisibility::WorldReadable,
            _ => HistoryVisibility::Custom,
        }),
        Err(_) => None,
    }
}

/// Calls `serde_json::from_str` for ruma's `RoomMemberEventContent` and hands
/// out its `membership`, variant for variant, and the identifier in its
/// `join_authorized_via_users_server` as text. The result is a function of the
/// text alone; it is `None` where decoding fails.
#[verifier::external_body]
pub(crate) fn decode_member_content(content: &str) -> (member: Option<MemberContent>)
    ensures
        match member {
            Some(m) => member_content_in(content@) == Some(m@),
            None => member_content_in(content@) is None,
        },
{
    match serde_json::from_str::<RoomMemberEventContent>(content) {
        Ok(decoded) => Some(MemberContent {
            membership: match decoded.membership {
                ruma::events::room::member::MembershipState::Ban => MembershipState::Ban,
                ruma::events::room::member::MembershipState::Invite => MembershipState::Invite,
                ruma::events::room::member::MembershipState::Join => MembershipState::Join,
                ruma::events::room::member::MembershipState::Knock => MembershipState::Knock,
                ruma::events::room::member::MembershipState::Leave => MembershipState::Leave,
                _ => MembershipState::Custom,
            },
            join_authorized_via_users_server: decoded.join_authorized_via_users_server.map(|user| user.into()),
        }),
        Err(_) => None,
    }
}

/// Calls `serde_json::from_str` for ruma's `RoomCanonicalAliasEventContent`
/// and hands out its `alias` and its `alt_aliases`, in their order, as text.
/// The result is a function of the text alone; it is `None` where decoding
/// fails.
#[verifier::external_body]
pub(crate) fn decode_alias_content(content: &str) -> (aliases: Option<AliasContent>)
    ensures
        match aliases {
            Some(a) => alias_content_in(content@) == Some(a@),
            None => alias_content_in(content@) is None,
        },
{
    match serde_json::from_str::<RoomCanonicalAliasEventContent>(content) {
        Ok(decoded) => Some(AliasContent {
            alias: decoded.alias.map(|alias| alias.into()),
            alt_aliases: decoded.alt_aliases.into_iter().map(|alias| alias.into()).collect(),
        }),
        Err(_) => None,
    }
}

/// Calls ruma's `UserId::parse` and says whether it accepted the string.
#[verifier::external_body]
pub(crate) fn is_user_id(id: &str) -> (valid: bool)
    ensures
        valid == user_id_valid(id@),
{
    ruma::UserId::parse(id).is_ok()
}

/// Calls `serde_json::from_str` for a raw JSON value and says whether the
/// text parsed.
#[verifier::external_body]
pub(crate) fn is_json_text(content: &str) -> (valid: bool)
    ensures
        valid == is_json(content@),
{
    serde_json::from_str::<Box<serde_json::value::RawValue>>(content).is_ok()
}

} // verus!
