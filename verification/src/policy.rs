//! The rules that a proposed state event must pass before it is written.

use vstd::prelude::*;
use crate::content::{
    alias_content_in, classify, decode_alias_content, decode_history_visibility,
    decode_join_rule, decode_member_content, history_visibility_in, is_user_id, join_rule_in,
    kind_of, lemma_kinds_of_known_types, member_content_in, user_id_valid, AliasContent,
    AliasContentView, EventKind, HistoryVisibility, JoinRule, MembershipState,
};
use crate::error::{Defect, EngineError, Violation};
use crate::facts::{Fact, Step};
use crate::table::{value_in, Table};
use crate::text::{belongs_to, is_on_server, str_eq};

verus! {

/// What the server as a whole is configured to be and to allow.
#[derive(Clone, Debug, PartialEq, Eq)]
pub struct ServerConfig {
    /// The name of this server, as it stands in identifiers.
    pub server_name: String,
    /// Whether rooms may switch encryption on.
    pub allow_encryption: bool,
}

/// A lookup that the rules may need.
#[derive(Clone, Debug, PartialEq, Eq)]
pub enum PolicyQuery {
    /// Which room is the admin room?
    AdminRoom,
    /// Which room does this alias resolve to on this server?
    AliasTarget(String),
    /// Is this subject joined to the room right now?
    Joined(String),
}

/// [`PolicyQuery`] as a mathematical value.
pub enum PolicyQuestion {
    AdminRoom,
    AliasTarget(Seq<char>),
    Joined(Seq<char>),
}

impl View for PolicyQuery {
    type V = PolicyQuestion;

    open spec fn view(&self) -> PolicyQuestion {
        match self {
            PolicyQuery::AdminRoom => PolicyQuestion::AdminRoom,
            PolicyQuery::AliasTarget(alias) => PolicyQuestion::AliasTarget(alias@),
            PolicyQuery::Joined(user) => PolicyQuestion::Joined(user@),
        }
    }
}

/// The answers known so far to the lookups of one policy check.
#[derive(Clone, Debug, PartialEq, Eq)]
pub struct PolicyFacts {
    /// The admin room: `Known(None)` where the server has none.
    pub admin_room: Fact<Option<String>>,
    /// For each alias asked about, the room it resolves to, if any.
    pub alias_targets: Table<Option<String>>,
    /// For each subject asked about, whether it is joined to the room.
    pub joined: Table<bool>,
}

/// [`PolicyFacts`] as a mathematical value.
pub struct PolicyFactsView {
    pub admin_room: Fact<Option<Seq<char>>>,
    pub alias_targets: Map<Seq<char>, Option<Seq<char>>>,
    pub joined: Map<Seq<char>, bool>,
}

impl View for PolicyFacts {
    type V = PolicyFactsView;

    open spec fn view(&self) -> PolicyFactsView {
        PolicyFactsView {
            admin_room: self.admin_room.deep_view(),
            alias_targets: self.alias_targets@,
            joined: self.joined@,
        }
    }
}

impl PolicyFactsView {
    /// The facts before any lookup.
    pub open spec fn none() -> PolicyFactsView {
        PolicyFactsView { admin_room: Fact::Pending, alias_targets: Map::empty(), joined: Map::empty() }
    }
}

impl PolicyFacts {
    /// Nothing looked up yet.
    pub fn new() -> (facts: Self)
        ensures
            facts@ == PolicyFactsView::none(),
    {
        PolicyFacts { admin_room: Fact::Pending, alias_targets: Table::new(), joined: Table::new() }
    }
}

/// The outcome of a policy check, or the lookup it waits for.
pub type PolicyStep = Step<Result<(), EngineError>, PolicyQuestion>;

/// The step that rejects for a broken rule.
pub open spec fn rejected(rule: Violation) -> PolicyStep {
    Step::Done(Err(EngineError::PolicyViolation(rule)))
}

/// The step that rejects for content of the wrong shape.
pub open spec fn malformed(defect: Defect) -> PolicyStep {
    Step::Done(Err(EngineError::Malformed(defect)))
}

/// The step that lets the event pass.
pub open spec fn allowed() -> PolicyStep {
    Step::Done(Ok(()))
}

/// The rule for a change that only the admin room is barred from: it passes
/// anywhere else, and needs the admin room's identity to tell.
pub open spec fn admin_room_step(admin_room: Fact<Option<Seq<char>>>, room: Seq<char>, rule: Violation) -> PolicyStep {
    match admin_room {
        Fact::Pending => Step::Ask(PolicyQuestion::AdminRoom),
        Fact::Known(admin) => if admin == Some(room) {
            rejected(rule)
        } else {
            allowed()
        },
    }
}

/// The aliases that canonical-alias content lists: the alternates in their
/// order, then the primary alias.
pub open spec fn listed_aliases(content: AliasContentView) -> Seq<Seq<char>> {
    match content.alias {
        Some(alias) => content.alt_aliases.push(alias),
        None => content.alt_aliases,
    }
}

/// The rule for a list of aliases, taken in order: each must belong to this
/// server and resolve to this room already.
pub open spec fn alias_step(
    server: Seq<char>,
    targets: Map<Seq<char>, Option<Seq<char>>>,
    room: Seq<char>,
    aliases: Seq<Seq<char>>,
) -> PolicyStep
    decreases aliases.len(),
{
    if aliases.len() == 0 {
        allowed()
    } else if !belongs_to(aliases[0], server) {
        rejected(Violation::AliasNotLocal)
    } else {
        match value_in(targets, aliases[0]) {
            None => Step::Ask(PolicyQuestion::AliasTarget(aliases[0])),
            Some(target) => if target == Some(room) {
                alias_step(server, targets, room, aliases.drop_first())
            } else {
                rejected(Violation::AliasNotResolving)
            },
        }
    }
}

/// The rule for membership content that names an authorising subject.
pub open spec fn authorized_join_step(
    server: Seq<char>,
    joined: Map<Seq<char>, bool>,
    target: Seq<char>,
    membership: MembershipState,
    authorizer: Seq<char>,
) -> PolicyStep {
    if membership != MembershipState::Join {
        malformed(Defect::AuthorizerOnNonJoin)
    } else {
        match value_in(joined, target) {
            None => Step::Ask(PolicyQuestion::Joined(target)),
            Some(true) => rejected(Violation::AlreadyJoined),
            Some(false) => if !belongs_to(authorizer, server) {
                rejected(Violation::AuthorizerNotLocal)
            } else {
                match value_in(joined, authorizer) {
                    None => Step::Ask(PolicyQuestion::Joined(authorizer)),
                    Some(true) => allowed(),
                    Some(false) => rejected(Violation::AuthorizerNotJoined),
                }
            },
        }
    }
}

/// The rule for a membership event.
pub open spec fn member_step(
    server: Seq<char>,
    joined: Map<Seq<char>, bool>,
    state_key: Seq<char>,
    content: Seq<char>,
) -> PolicyStep {
    match member_content_in(content) {
        None => malformed(Defect::MembershipContent),
        Some(member) => if !user_id_valid(state_key) {
            malformed(Defect::MembershipStateKey)
        } else {
            match member.join_authorized_via_users_server {
                None => allowed(),
                Some(authorizer) => authorized_join_step(
                    server,
                    joined,
                    state_key,
                    member.membership,
                    authorizer,
                ),
            }
        },
    }
}

/// Whether a proposed state event may be sent, by its type:
///
/// * room-create: never;
/// * encryption: only where the server allows encryption;
/// * join-rules: not "public" in the admin room;
/// * history-visibility: not "world-readable" in the admin room;
/// * canonical-alias: only aliases of this server that resolve to this room;
/// * membership: well-formed, and an asserted join authorisation must hold;
/// * anything else: always.
///
/// Content that does not decode leaves the join-rules, history-visibility and
/// canonical-alias rules without application.
pub open spec fn policy_step(
    server: Seq<char>,
    allow_encryption: bool,
    facts: PolicyFactsView,
    room: Seq<char>,
    event_type: Seq<char>,
    state_key: Seq<char>,
    content: Seq<char>,
) -> PolicyStep {
    match kind_of(event_type) {
        EventKind::RoomCreate => rejected(Violation::CreateIsImmutable),
        EventKind::RoomEncryption => if allow_encryption {
            allowed()
        } else {
            rejected(Violation::EncryptionDisabled)
        },
        EventKind::RoomJoinRules => if join_rule_in(content) == Some(JoinRule::Public) {
            admin_room_step(facts.admin_room, room, Violation::AdminRoomPublic)
        } else {
            allowed()
        },
        EventKind::RoomHistoryVisibility => if history_visibility_in(content) == Some(
            HistoryVisibility::WorldReadable,
        ) {
            admin_room_step(facts.admin_room, room, Violation::AdminRoomWorldReadable)
        } else {
            allowed()
        },
        EventKind::RoomCanonicalAlias => match alias_content_in(content) {
            Some(aliases) => alias_step(server, facts.alias_targets, room, listed_aliases(aliases)),
            None => allowed(),
        },
        EventKind::RoomMember => member_step(server, facts.joined, state_key, content),
        _ => allowed(),
    }
}

fn check_admin_room(admin_room: &Fact<Option<String>>, room_id: &str, rule: Violation) -> (step: Step<
    Result<(), EngineError>,
    PolicyQuery,
>)
    ensures
        step@ == admin_room_step(admin_room.deep_view(), room_id@, rule),
{
    match admin_room {
        Fact::Pending => Step::Ask(PolicyQuery::AdminRoom),
        Fact::Known(Some(admin)) => {
            if str_eq(admin.as_str(), room_id) {
                Step::Done(Err(EngineError::PolicyViolation(rule)))
            } else {
                Step::Done(Ok(()))
            }
        },
        Fact::Known(None) => Step::Done(Ok(())),
    }
}

fn check_aliases(config: &ServerConfig, targets: &Table<Option<String>>, room_id: &str, content: AliasContent) -> (step:
    Step<Result<(), EngineError>, PolicyQuery>)
    ensures
        step@ == alias_step(config.server_name@, targets@, room_id@, listed_aliases(content@)),
{
    let ghost listed = listed_aliases(content@);
    let mut aliases = content.alt_aliases;
    if let Some(alias) = content.alias {
        aliases.push(alias);
    }
    assert(aliases.deep_view() =~= listed);
    assert(listed.skip(0) =~= listed);
    let mut i: usize = 0;
    while i < aliases.len()
        invariant
            i <= aliases.len(),
            aliases.deep_view() == listed,
            listed == listed_aliases(content@),
            alias_step(config.server_name@, targets@, room_id@, listed) == alias_step(
                config.server_name@,
                targets@,
                room_id@,
                listed.skip(i as int),
            ),
        decreases aliases.len() - i,
    {
        let alias = &aliases[i];
        proof {
            assert(listed.skip(i as int)[0] == alias@);
            assert(listed.skip(i as int).drop_first() =~= listed.skip(i as int + 1));
        }
        if !is_on_server(alias.as_str(), config.server_name.as_str()) {
            return Step::Done(Err(EngineError::PolicyViolation(Violation::AliasNotLocal)));
        }
        match targets.get(alias.as_str()) {
            None => {
                return Step::Ask(PolicyQuery::AliasTarget(alias.clone()));
            },
            Some(target) => {
                let resolves_here = match target {
                    Some(target_room) => str_eq(target_room.as_str(), room_id),
                    None => false,
                };
                if !resolves_here {
                    return Step::Done(
                        Err(EngineError::PolicyViolation(Violation::AliasNotResolving)),
                    );
                }
            },
        }
        i += 1;
    }
    assert(listed.skip(i as int) =~= Seq::empty());
    Step::Done(Ok(()))
}

fn check_member(config: &ServerConfig, joined: &Table<bool>, state_key: &str, json: &str) -> (step: Step<
    Result<(), EngineError>,
    PolicyQuery,
>)
    ensures
        step@ == member_step(config.server_name@, joined@, state_key@, json@),
{
    let Some(member) = decode_member_content(json) else {
        return Step::Done(Err(EngineError::Malformed(Defect::MembershipContent)));
    };
    if !is_user_id(state_key) {
        return Step::Done(Err(EngineError::Malformed(Defect::MembershipStateKey)));
    }
    let Some(authorizer) = member.join_authorized_via_users_server else {
        return Step::Done(Ok(()));
    };
    if member.membership != MembershipState::Join {
        return Step::Done(Err(EngineError::Malformed(Defect::AuthorizerOnNonJoin)));
    }
    match joined.get(state_key) {
        None => {
            return Step::Ask(PolicyQuery::Joined(state_key.to_owned()));
        },
        Some(true) => {
            return Step::Done(Err(EngineError::PolicyViolation(Violation::AlreadyJoined)));
        },
        Some(false) => {},
    }
    if !is_on_server(authorizer.as_str(), config.server_name.as_str()) {
        return Step::Done(Err(EngineError::PolicyViolation(Violation::AuthorizerNotLocal)));
    }
    match joined.get(authorizer.as_str()) {
        None => Step::Ask(PolicyQuery::Joined(authorizer)),
        Some(true) => Step::Done(Ok(())),
        Some(false) => Step::Done(Err(EngineError::PolicyViolation(Violation::AuthorizerNotJoined))),
    }
}

/// Decides whether a state event of type `event_type` with state key
/// `state_key` and content `json` may be sent into `room_id`, as far as the
/// facts known so far allow: the verdict, or the next lookup.
pub fn allowed_to_send_state_event(
    config: &ServerConfig,
    facts: &PolicyFacts,
    room_id: &str,
    event_type: &str,
    state_key: &str,
    json: &str,
) -> (step: Step<Result<(), EngineError>, PolicyQuery>)
    ensures
        step@ == policy_step(
            config.server_name@,
            config.allow_encryption,
            facts@,
            room_id@,
            event_type@,
            state_key@,
            json@,
        ),
{
    match classify(event_type) {
        EventKind::RoomCreate => Step::Done(
            Err(EngineError::PolicyViolation(Violation::CreateIsImmutable)),
        ),
        EventKind::RoomEncryption => {
            if config.allow_encryption {
                Step::Done(Ok(()))
            } else {
                Step::Done(Err(EngineError::PolicyViolation(Violation::EncryptionDisabled)))
            }
        },
        EventKind::RoomJoinRules => {
            match decode_join_rule(json) {
                Some(JoinRule::Public) => check_admin_room(
                    &facts.admin_room,
                    room_id,
                    Violation::AdminRoomPublic,
                ),
                _ => Step::Done(Ok(())),
            }
        },
        EventKind::RoomHistoryVisibility => {
            match decode_history_visibility(json) {
                Some(HistoryVisibility::WorldReadable) => check_admin_room(
                    &facts.admin_room,
                    room_id,
                    Violation::AdminRoomWorldReadable,
                ),
                _ => Step::Done(Ok(())),
            }
        },
        EventKind::RoomCanonicalAlias => {
            match decode_alias_content(json) {
                Some(content) => check_aliases(config, &facts.alias_targets, room_id, content),
                None => Step::Done(Ok(())),
            }
        },
        EventKind::RoomMember => check_member(config, &facts.joined, state_key, json),
        _ => Step::Done(Ok(())),
    }
}

/// Facts `more` hold every answer that `fewer` holds.
pub open spec fn extends(more: PolicyFactsView, fewer: PolicyFactsView) -> bool {
    &&& fewer.admin_room is Pending || more.admin_room == fewer.admin_room
    &&& fewer.alias_targets.submap_of(more.alias_targets)
    &&& fewer.joined.submap_of(more.joined)
}

/// Whether the facts hold the answer to a question.
pub open spec fn answers(facts: PolicyFactsView, question: PolicyQuestion) -> bool {
    match question {
        PolicyQuestion::AdminRoom => facts.admin_room is Known,
        PolicyQuestion::AliasTarget(alias) => facts.alias_targets.contains_key(alias),
        PolicyQuestion::Joined(user) => facts.joined.contains_key(user),
    }
}

/// The alias rule asks only for targets that are not known yet.
pub proof fn lemma_alias_step_asks_the_unknown(
    server: Seq<char>,
    targets: Map<Seq<char>, Option<Seq<char>>>,
    room: Seq<char>,
    aliases: Seq<Seq<char>>,
)
    ensures
        match alias_step(server, targets, room, aliases) {
            Step::Ask(PolicyQuestion::AliasTarget(alias)) => !targets.contains_key(alias),
            Step::Ask(_) => false,
            Step::Done(_) => true,
        },
    decreases aliases.len(),
{
    if aliases.len() > 0 {
        lemma_alias_step_asks_the_unknown(server, targets, room, aliases.drop_first());
    }
}

/// A verdict of the alias rule stands when more targets become known.
pub proof fn lemma_alias_verdict_is_stable(
    server: Seq<char>,
    fewer: Map<Seq<char>, Option<Seq<char>>>,
    more: Map<Seq<char>, Option<Seq<char>>>,
    room: Seq<char>,
    aliases: Seq<Seq<char>>,
)
    requires
        fewer.submap_of(more),
        alias_step(server, fewer, room, aliases) is Done,
    ensures
        alias_step(server, more, room, aliases) == alias_step(server, fewer, room, aliases),
    decreases aliases.len(),
{
    if aliases.len() > 0 && belongs_to(aliases[0], server) {
        assert(fewer.contains_key(aliases[0]));
        assert(more.contains_key(aliases[0]) && more[aliases[0]] == fewer[aliases[0]]);
        if fewer[aliases[0]] == Some(room) {
            lemma_alias_verdict_is_stable(server, fewer, more, room, aliases.drop_first());
        }
    }
}

/// With every listed alias resolved, the alias rule passes exactly when each
/// alias belongs to this server and resolves to this room.
pub proof fn lemma_alias_rule(
    server: Seq<char>,
    targets: Map<Seq<char>, Option<Seq<char>>>,
    room: Seq<char>,
    aliases: Seq<Seq<char>>,
)
    requires
        forall|i: int| 0 <= i < aliases.len() ==> targets.contains_key(#[trigger] aliases[i]),
    ensures
        alias_step(server, targets, room, aliases) is Done,
        alias_step(server, targets, room, aliases) == allowed() <==> forall|i: int|
            0 <= i < aliases.len() ==> belongs_to(#[trigger] aliases[i], server)
                && targets[aliases[i]] == Some(room),
        alias_step(server, targets, room, aliases) != allowed() ==> alias_step(
            server,
            targets,
            room,
            aliases,
        ) is Done && (alias_step(server, targets, room, aliases) == rejected(
            Violation::AliasNotLocal,
        ) || alias_step(server, targets, room, aliases) == rejected(Violation::AliasNotResolving)),
    decreases aliases.len(),
{
    if aliases.len() > 0 {
        let rest = aliases.drop_first();
        assert(targets.contains_key(aliases[0]));
        assert forall|i: int| 0 <= i < rest.len() implies targets.contains_key(
            #[trigger] rest[i],
        ) by {
            assert(rest[i] == aliases[i + 1]);
        }
        lemma_alias_rule(server, targets, room, rest);
        if belongs_to(aliases[0], server) && targets[aliases[0]] == Some(room) {
            if alias_step(server, targets, room, rest) == allowed() {
                assert forall|i: int| 0 <= i < aliases.len() implies belongs_to(
                    #[trigger] aliases[i],
                    server,
                ) && targets[aliases[i]] == Some(room) by {
                    if i > 0 {
                        assert(aliases[i] == rest[i - 1]);
                    }
                }
            } else {
                let i = choose|i: int|
                    0 <= i < rest.len() && !(belongs_to(#[trigger] rest[i], server)
                        && targets[rest[i]] == Some(room));
                assert(rest[i] == aliases[i + 1]);
            }
        }
    }
}

/// The policy asks only for what the facts do not hold yet: a caller that
/// records each answer is never asked the same question twice.
pub proof fn lemma_policy_asks_the_unknown(
    server: Seq<char>,
    allow_encryption: bool,
    facts: PolicyFactsView,
    room: Seq<char>,
    event_type: Seq<char>,
    state_key: Seq<char>,
    content: Seq<char>,
)
    ensures
        policy_step(server, allow_encryption, facts, room, event_type, state_key, content) matches Step::Ask(
            question,
        ) ==> !answers(facts, question),
{
    if kind_of(event_type) == EventKind::RoomCanonicalAlias {
        if let Some(aliases) = alias_content_in(content) {
            lemma_alias_step_asks_the_unknown(
                server,
                facts.alias_targets,
                room,
                listed_aliases(aliases),
            );
        }
    }
}

/// A verdict of the policy stands when more facts become known.
pub proof fn lemma_policy_verdict_is_stable(
    server: Seq<char>,
    allow_encryption: bool,
    fewer: PolicyFactsView,
    more: PolicyFactsView,
    room: Seq<char>,
    event_type: Seq<char>,
    state_key: Seq<char>,
    content: Seq<char>,
)
    requires
        extends(more, fewer),
        policy_step(server, allow_encryption, fewer, room, event_type, state_key, content) is Done,
    ensures
        policy_step(server, allow_encryption, more, room, event_type, state_key, content)
            == policy_step(server, allow_encryption, fewer, room, event_type, state_key, content),
{
    match kind_of(event_type) {
        EventKind::RoomCanonicalAlias => {
            if let Some(aliases) = alias_content_in(content) {
                lemma_alias_verdict_is_stable(
                    server,
                    fewer.alias_targets,
                    more.alias_targets,
                    room,
                    listed_aliases(aliases),
                );
            }
        },
        EventKind::RoomMember => {
            if let Some(member) = member_content_in(content) {
                if let Some(authorizer) = member.join_authorized_via_users_server {
                    if user_id_valid(state_key) && member.membership == MembershipState::Join {
                        assert(fewer.joined.contains_key(state_key));
                        assert(more.joined[state_key] == fewer.joined[state_key]);
                        if !fewer.joined[state_key] && belongs_to(authorizer, server) {
                            assert(fewer.joined.contains_key(authorizer));
                            assert(more.joined[authorizer] == fewer.joined[authorizer]);
                        }
                    }
                }
            }
        },
        _ => {},
    }
}

/// A room-create event is rejected as a policy violation, whatever the
/// server's settings, the facts, the room, the state key and the content.
pub proof fn lemma_create_is_always_rejected(
    server: Seq<char>,
    allow_encryption: bool,
    facts: PolicyFactsView,
    room: Seq<char>,
    event_type: Seq<char>,
    state_key: Seq<char>,
    content: Seq<char>,
)
    requires
        event_type == "m.room.create"@,
    ensures
        policy_step(server, allow_encryption, facts, room, event_type, state_key, content)
            == rejected(Violation::CreateIsImmutable),
{
}

/// An encryption event is rejected as a policy violation where the server
/// does not allow encryption, and passes where it does.
pub proof fn lemma_encryption_follows_the_server_flag(
    server: Seq<char>,
    allow_encryption: bool,
    facts: PolicyFactsView,
    room: Seq<char>,
    event_type: Seq<char>,
    state_key: Seq<char>,
    content: Seq<char>,
)
    requires
        event_type == "m.room.encryption"@,
    ensures
        policy_step(server, allow_encryption, facts, room, event_type, state_key, content) == if allow_encryption {
            allowed()
        } else {
            rejected(Violation::EncryptionDisabled)
        },
{
    lemma_kinds_of_known_types();
}

/// Join rules that decode to "public" are rejected as a policy violation in
/// the admin room and pass in every other room.
pub proof fn lemma_admin_room_stays_private(
    server: Seq<char>,
    allow_encryption: bool,
    facts: PolicyFactsView,
    room: Seq<char>,
    event_type: Seq<char>,
    state_key: Seq<char>,
    content: Seq<char>,
)
    requires
        event_type == "m.room.join_rules"@,
        join_rule_in(content) == Some(JoinRule::Public),
        facts.admin_room is Known,
    ensures
        policy_step(server, allow_encryption, facts, room, event_type, state_key, content) == if facts.admin_room
            == Fact::Known(Some(room)) {
            rejected(Violation::AdminRoomPublic)
        } else {
            allowed()
        },
{
    lemma_kinds_of_known_types();
}

/// A history visibility that decodes to "world-readable" is rejected as a
/// policy violation in the admin room and passes in every other room.
pub proof fn lemma_admin_room_stays_unreadable(
    server: Seq<char>,
    allow_encryption: bool,
    facts: PolicyFactsView,
    room: Seq<char>,
    event_type: Seq<char>,
    state_key: Seq<char>,
    content: Seq<char>,
)
    requires
        event_type == "m.room.history_visibility"@,
        history_visibility_in(content) == Some(HistoryVisibility::WorldReadable),
        facts.admin_room is Known,
    ensures
        policy_step(server, allow_encryption, facts, room, event_type, state_key, content) == if facts.admin_room
            == Fact::Known(Some(room)) {
            rejected(Violation::AdminRoomWorldReadable)
        } else {
            allowed()
        },
{
    lemma_kinds_of_known_types();
}

/// A canonical-alias event whose listed aliases are all resolved passes
/// exactly when each of them belongs to this server and resolves to this
/// room; otherwise it is rejected as a policy violation.
pub proof fn lemma_canonical_alias_must_resolve_here(
    server: Seq<char>,
    allow_encryption: bool,
    facts: PolicyFactsView,
    room: Seq<char>,
    event_type: Seq<char>,
    state_key: Seq<char>,
    content: Seq<char>,
    listed: Seq<Seq<char>>,
)
    requires
        event_type == "m.room.canonical_alias"@,
        alias_content_in(content) matches Some(aliases) && listed == listed_aliases(aliases),
        forall|i: int| 0 <= i < listed.len() ==> facts.alias_targets.contains_key(#[trigger] listed[i]),
    ensures
        policy_step(server, allow_encryption, facts, room, event_type, state_key, content) == allowed()
            <==> forall|i: int|
            0 <= i < listed.len() ==> belongs_to(#[trigger] listed[i], server)
                && facts.alias_targets[listed[i]] == Some(room),
        policy_step(server, allow_encryption, facts, room, event_type, state_key, content) != allowed()
            ==> policy_step(server, allow_encryption, facts, room, event_type, state_key, content)
            == rejected(Violation::AliasNotLocal) || policy_step(
            server,
            allow_encryption,
            facts,
            room,
            event_type,
            state_key,
            content,
        ) == rejected(Violation::AliasNotResolving),
{
    lemma_kinds_of_known_types();
    lemma_alias_rule(server, facts.alias_targets, room, listed);
}

/// The verdict on a request is a function of the world, not of the order in
/// which it was explored: two sets of facts that a common fuller set extends
/// never come to different verdicts.
pub proof fn lemma_policy_verdict_is_determined(
    server: Seq<char>,
    allow_encryption: bool,
    one: PolicyFactsView,
    other: PolicyFactsView,
    all: PolicyFactsView,
    room: Seq<char>,
    event_type: Seq<char>,
    state_key: Seq<char>,
    content: Seq<char>,
)
    requires
        extends(all, one),
        extends(all, other),
        policy_step(server, allow_encryption, one, room, event_type, state_key, content) is Done,
        policy_step(server, allow_encryption, other, room, event_type, state_key, content) is Done,
    ensures
        policy_step(server, allow_encryption, one, room, event_type, state_key, content)
            == policy_step(server, allow_encryption, other, room, event_type, state_key, content),
{
    lemma_policy_verdict_is_stable(
        server,
        allow_encryption,
        one,
        all,
        room,
        event_type,
        state_key,
        content,
    );
    lemma_policy_verdict_is_stable(
        server,
        allow_encryption,
        other,
        all,
        room,
        event_type,
        state_key,
        content,
    );
}

/// The lookups that the rules can need for a request, whatever the answers:
/// the admin room, the target of each listed alias, and the membership of the
/// subject of a membership event and of its authoriser.
pub open spec fn lookups_of(state_key: Seq<char>, content: Seq<char>) -> Seq<PolicyQuestion> {
    let aliases = match alias_content_in(content) {
        Some(aliases) => listed_aliases(aliases),
        None => Seq::empty(),
    };
    let authorizer = match member_content_in(content) {
        Some(member) => match member.join_authorized_via_users_server {
            Some(authorizer) => seq![PolicyQuestion::Joined(authorizer)],
            None => Seq::empty(),
        },
        None => Seq::empty(),
    };
    seq![PolicyQuestion::AdminRoom, PolicyQuestion::Joined(state_key)] + authorizer + aliases.map_values(
        |alias: Seq<char>| PolicyQuestion::AliasTarget(alias),
    )
}

/// The alias rule asks only about listed aliases.
pub proof fn lemma_alias_step_asks_about_listed(
    server: Seq<char>,
    targets: Map<Seq<char>, Option<Seq<char>>>,
    room: Seq<char>,
    aliases: Seq<Seq<char>>,
)
    ensures
        alias_step(server, targets, room, aliases) matches Step::Ask(
            PolicyQuestion::AliasTarget(alias),
        ) ==> aliases.contains(alias),
    decreases aliases.len(),
{
    if aliases.len() > 0 {
        lemma_alias_step_asks_about_listed(server, targets, room, aliases.drop_first());
        if let Step::Ask(PolicyQuestion::AliasTarget(alias)) = alias_step(
            server,
            targets,
            room,
            aliases,
        ) {
            if alias != aliases[0] {
                let k = choose|k: int|
                    0 <= k < aliases.drop_first().len() && aliases.drop_first()[k] == alias;
                assert(aliases[k + 1] == alias);
            } else {
                assert(aliases[0] == alias);
            }
        }
    }
}

/// A policy check ends: whatever it asks is one of the few lookups of the
/// request and is not known yet, so with each answer recorded there is one
/// lookup less left to ask for.
pub proof fn lemma_policy_needs_few_lookups(
    server: Seq<char>,
    allow_encryption: bool,
    facts: PolicyFactsView,
    room: Seq<char>,
    event_type: Seq<char>,
    state_key: Seq<char>,
    content: Seq<char>,
)
    ensures
        policy_step(server, allow_encryption, facts, room, event_type, state_key, content) matches Step::Ask(
            question,
        ) ==> lookups_of(state_key, content).contains(question) && !answers(facts, question),
{
    let all = lookups_of(state_key, content);
    let fixed = seq![PolicyQuestion::AdminRoom, PolicyQuestion::Joined(state_key)];
    let named = match member_content_in(content) {
        Some(member) => match member.join_authorized_via_users_server {
            Some(authorizer) => seq![PolicyQuestion::Joined(authorizer)],
            None => Seq::empty(),
        },
        None => Seq::empty(),
    };
    let aliases = match alias_content_in(content) {
        Some(aliases) => listed_aliases(aliases),
        None => Seq::empty(),
    };
    let asked = aliases.map_values(|alias: Seq<char>| PolicyQuestion::AliasTarget(alias));
    assert(all == fixed + named + asked);
    lemma_policy_asks_the_unknown(server, allow_encryption, facts, room, event_type, state_key, content);
    lemma_alias_step_asks_the_unknown(server, facts.alias_targets, room, aliases);
    if let Step::Ask(question) = policy_step(
        server,
        allow_encryption,
        facts,
        room,
        event_type,
        state_key,
        content,
    ) {
        match question {
            PolicyQuestion::AdminRoom => {
                assert(all[0] == fixed[0]);
            },
            PolicyQuestion::Joined(user) => {
                if user == state_key {
                    assert(all[1] == fixed[1]);
                } else {
                    assert(named =~= seq![question]);
                    assert(all[2] == named[0]);
                }
            },
            PolicyQuestion::AliasTarget(alias) => {
                lemma_alias_step_asks_about_listed(server, facts.alias_targets, room, aliases);
                let k = choose|k: int| 0 <= k < aliases.len() && aliases[k] == alias;
                assert(asked[k] == question);
                assert(all[fixed.len() + named.len() + k] == asked[k]);
            },
        }
    }
}

} // verus!
