//! The chat commands as decisions over the registry: what to ask of the chat
//! platform, what to change in the registry, and what to answer.
//!
//! Nothing here talks to the platform. A command that needs a role created or
//! deleted says so in its result, and the caller reports back what happened.

use crate::registry::{
    has_id, law_remove_all_empties_community, law_remove_spares_other_communities,
    law_remove_zone_spares_other_zones, lemma_timezones_push, other_than, remaining, removed_ids,
    timezones_of, RegistryError, Role, RoleRegistry, RoleView, Selector, SelectorView,
};
use crate::render::{render, rendering, Instant, RenderError};
use crate::text::{decimal, decimal_text, join_lines, joined_lines, same_text};
use crate::zone::{lookup_zone_name, zone_canonical_name};
use vstd::prelude::*;
use vstd::string::*;

verus! {

/// Text that was meant to name a timezone and names none.
#[derive(Clone, Debug, PartialEq, Eq)]
pub struct ParseError {
    /// The text as it was given.
    pub text: String,
}

/// The message that tells a user about rejected timezone text.
pub open spec fn parse_error_text(text: Seq<char>) -> Seq<char> {
    seq!['\''] + text + "' is not a valid timezone"@
}

impl ParseError {
    /// The message for the user.
    pub fn message(&self) -> (message: String)
        ensures
            message@ == parse_error_text(self.text@),
    {
        let mut message = String::from_str("'");
        message.append(self.text.as_str());
        message.append("' is not a valid timezone");
        proof {
            reveal_strlit("'");
            assert("'"@ =~= seq!['\'']);
        }
        message
    }
}

/// What timezone text resolves to: the zone's canonical name, or the text
/// itself where the zone database does not know it.
pub open spec fn timezone_for(text: Seq<char>) -> Result<Seq<char>, Seq<char>> {
    match zone_canonical_name(text) {
        Some(name) => Ok(name),
        None => Err(text),
    }
}

/// Resolves timezone text to the canonical name of its zone.
pub fn parse_timezone(text: &str) -> (zone: Result<String, ParseError>)
    ensures
        match zone {
            Ok(name) => timezone_for(text@) == Ok::<Seq<char>, Seq<char>>(name@),
            Err(e) => timezone_for(text@) == Err::<Seq<char>, Seq<char>>(e.text@),
        },
{
    match lookup_zone_name(text) {
        Some(name) => Ok(name),
        None => Err(ParseError { text: String::from_str(text) }),
    }
}

/// What the argument of a purge resolves to: the literal `all` selects every
/// entry, any other text must name a zone.
pub open spec fn selector_for(text: Seq<char>) -> Result<SelectorView, Seq<char>> {
    if text == "all"@ {
        Ok(SelectorView::All)
    } else {
        match zone_canonical_name(text) {
            Some(name) => Ok(SelectorView::Specific(name)),
            None => Err(text),
        }
    }
}

/// Resolves the argument of a purge.
pub fn parse_selector(text: &str) -> (selector: Result<Selector, ParseError>)
    ensures
        match selector {
            Ok(s) => selector_for(text@) == Ok::<SelectorView, Seq<char>>(s@),
            Err(e) => selector_for(text@) == Err::<SelectorView, Seq<char>>(e.text@),
        },
{
    if same_text(text, "all") {
        Ok(Selector::All)
    } else {
        match parse_timezone(text) {
            Ok(name) => Ok(Selector::Specific(name)),
            Err(e) => Err(e),
        }
    }
}

/// The role that an add command asks the chat platform to create.
#[derive(Clone, Debug, PartialEq, Eq)]
pub struct RoleRequest {
    /// The canonical name of the zone to track.
    pub timezone: String,
    /// The name to create the role with: the zone's label at the time of
    /// the command.
    pub label: String,
}

/// First half of an add: resolves the timezone text and renders the name
/// that the new role starts with. The registry is not touched; rejected text
/// comes back as the error.
pub fn plan_add(timezone_text: &str, now: Instant) -> (plan: Result<RoleRequest, ParseError>)
    ensures
        match plan {
            Ok(request) => {
                &&& timezone_for(timezone_text@) == Ok::<Seq<char>, Seq<char>>(request.timezone@)
                &&& rendering(timezone_text@, now.spec_millis()) == Ok::<Seq<char>, RenderError>(
                    request.label@,
                )
            },
            Err(e) => timezone_for(timezone_text@) == Err::<Seq<char>, Seq<char>>(e.text@),
        },
{
    match parse_timezone(timezone_text) {
        Ok(timezone) => match render(timezone_text, now) {
            Ok(label) => Ok(RoleRequest { timezone, label }),
            Err(_) => Err(ParseError { text: String::from_str(timezone_text) }),
        },
        Err(e) => Err(e),
    }
}

/// The answer to a completed add.
pub open spec fn added_reply_text(timezone: Seq<char>) -> Seq<char> {
    "Added timezone "@ + timezone
}

/// Second half of an add, once the chat platform has created the role and
/// given it `role_id`: records the entry and gives the answer for the user.
///
/// Fails with `StorageError`, leaving the registry as it was, exactly when
/// the registry already holds an entry with that role identifier.
pub fn complete_add(
    registry: &mut RoleRegistry,
    community_id: i64,
    timezone: String,
    role_id: i64,
) -> (reply: Result<String, RegistryError>)
    requires
        old(registry).wf(),
    ensures
        final(registry).wf(),
        match reply {
            Ok(text) => {
                &&& !has_id(old(registry)@, role_id)
                &&& final(registry)@ == old(registry)@.push(
                    RoleView { id: role_id, guild_id: community_id, timezone: timezone@ },
                )
                &&& text@ == added_reply_text(timezone@)
            },
            Err(e) => {
                &&& e == RegistryError::StorageError
                &&& has_id(old(registry)@, role_id)
                &&& final(registry)@ == old(registry)@
            },
        },
{
    let mut text = String::from_str("Added timezone ");
    text.append(timezone.as_str());
    match registry.add(Role { id: role_id, guild_id: community_id, timezone }) {
        Ok(_) => Ok(text),
        Err(e) => Err(e),
    }
}

/// The answer to a list command: the community's zones, one per line.
pub fn list_reply(registry: &RoleRegistry, community_id: i64) -> (reply: String)
    ensures
        reply@ == joined_lines(timezones_of(registry@, community_id)),
{
    let zones = registry.list(community_id);
    join_lines(&zones)
}

/// The purge command up to the chat platform: resolves the selector, removes
/// the matching entries of the community and returns their role identifiers,
/// which the caller then deletes on the platform. Rejected selector text comes
/// back as the error, and the registry stays as it was.
pub fn purge(registry: &mut RoleRegistry, community_id: i64, selector_text: &str) -> (removed:
    Result<Vec<i64>, ParseError>)
    requires
        old(registry).wf(),
    ensures
        final(registry).wf(),
        match removed {
            Ok(ids) => {
                &&& selector_for(selector_text@) matches Ok(selector)
                &&& final(registry)@ == remaining(old(registry)@, community_id, selector)
                &&& ids@ == removed_ids(old(registry)@, community_id, selector)
            },
            Err(e) => {
                &&& selector_for(selector_text@) == Err::<SelectorView, Seq<char>>(e.text@)
                &&& final(registry)@ == old(registry)@
            },
        },
{
    match parse_selector(selector_text) {
        Ok(selector) => Ok(registry.remove(community_id, &selector)),
        Err(e) => Err(e),
    }
}

/// The answer to a completed purge of `count` roles.
pub open spec fn purged_reply_text(count: nat) -> Seq<char> {
    "Purged "@ + decimal_text(count) + " roles"@
}

/// The answer to a completed purge.
pub fn purge_reply(count: usize) -> (reply: String)
    ensures
        reply@ == purged_reply_text(count as nat),
{
    let mut reply = String::from_str("Purged ");
    reply.append(decimal(count).as_str());
    reply.append(" roles");
    reply
}

/// A command as a user gives it, with its argument still as text.
#[derive(Clone, Debug, PartialEq, Eq)]
pub enum Command {
    /// Track a timezone.
    Add { timezone: String },
    /// Show the tracked timezones.
    List,
    /// Stop tracking one timezone, or all of them.
    Purge { selector: String },
}

/// A command as contracts see it.
pub ghost enum CommandView {
    Add { timezone: Seq<char> },
    List,
    Purge { selector: Seq<char> },
}

impl View for Command {
    type V = CommandView;

    open spec fn view(&self) -> CommandView {
        match self {
            Command::Add { timezone } => CommandView::Add { timezone: timezone@ },
            Command::List => CommandView::List,
            Command::Purge { selector } => CommandView::Purge { selector: selector@ },
        }
    }
}

/// What the caller is to do for a command.
#[derive(Clone, Debug, PartialEq, Eq)]
pub enum Effect {
    /// Answer the user with this text.
    Reply(String),
    /// Create the requested role on the chat platform, then complete the add
    /// with the identifier that the platform gave it.
    CreateRole(RoleRequest),
    /// Delete these roles on the chat platform, then answer with `reply`.
    DeleteRoles { role_ids: Vec<i64>, reply: String },
}

/// An effect as contracts see it.
pub ghost enum EffectView {
    Reply(Seq<char>),
    CreateRole { timezone: Seq<char>, label: Seq<char> },
    DeleteRoles { role_ids: Seq<i64>, reply: Seq<char> },
}

impl View for Effect {
    type V = EffectView;

    open spec fn view(&self) -> EffectView {
        match self {
            Effect::Reply(text) => EffectView::Reply(text@),
            Effect::CreateRole(request) => EffectView::CreateRole {
                timezone: request.timezone@,
                label: request.label@,
            },
            Effect::DeleteRoles { role_ids, reply } => EffectView::DeleteRoles {
                role_ids: role_ids@,
                reply: reply@,
            },
        }
    }
}

/// The effect that a command calls for, given the registry's entries.
pub open spec fn effect_of(
    entries: Seq<RoleView>,
    community_id: i64,
    command: CommandView,
    millis: int,
) -> EffectView {
    match command {
        CommandView::Add { timezone } => match timezone_for(timezone) {
            Ok(name) => EffectView::CreateRole {
                timezone: name,
                label: rendering(timezone, millis)->Ok_0,
            },
            Err(text) => EffectView::Reply(parse_error_text(text)),
        },
        CommandView::List => EffectView::Reply(joined_lines(timezones_of(entries, community_id))),
        CommandView::Purge { selector } => match selector_for(selector) {
            Ok(resolved) => EffectView::DeleteRoles {
                role_ids: removed_ids(entries, community_id, resolved),
                reply: purged_reply_text(removed_ids(entries, community_id, resolved).len()),
            },
            Err(text) => EffectView::Reply(parse_error_text(text)),
        },
    }
}

/// The registry's entries after a command: only a purge with a selector that
/// resolves changes them.
pub open spec fn entries_after(
    entries: Seq<RoleView>,
    community_id: i64,
    command: CommandView,
) -> Seq<RoleView> {
    match command {
        CommandView::Purge { selector } => match selector_for(selector) {
            Ok(resolved) => remaining(entries, community_id, resolved),
            Err(_) => entries,
        },
        _ => entries,
    }
}

/// Decides one command of a community: what changes in the registry and what
/// the caller is to do. Text that names no timezone is answered with the
/// parse error and changes nothing.
pub fn dispatch(
    registry: &mut RoleRegistry,
    community_id: i64,
    command: &Command,
    now: Instant,
) -> (effect: Effect)
    requires
        old(registry).wf(),
    ensures
        final(registry).wf(),
        final(registry)@ == entries_after(old(registry)@, community_id, command@),
        effect@ == effect_of(old(registry)@, community_id, command@, now.spec_millis()),
{
    match command {
        Command::Add { timezone } => match plan_add(timezone.as_str(), now) {
            Ok(request) => Effect::CreateRole(request),
            Err(e) => Effect::Reply(e.message()),
        },
        Command::List => Effect::Reply(list_reply(registry, community_id)),
        Command::Purge { selector } => match purge(registry, community_id, selector.as_str()) {
            Ok(role_ids) => {
                let reply = purge_reply(role_ids.len());
                Effect::DeleteRoles { role_ids, reply }
            },
            Err(e) => Effect::Reply(e.message()),
        },
    }
}

/// Once an add of timezone text that names a zone is completed, the
/// community's list holds the zone's canonical name, after everything that
/// it held before.
pub proof fn law_added_zone_is_listed(
    before: Seq<RoleView>,
    community_id: i64,
    timezone_text: Seq<char>,
    role_id: i64,
)
    requires
        timezone_for(timezone_text) is Ok,
    ensures
        ({
            let zone = timezone_for(timezone_text)->Ok_0;
            let after = before.push(
                RoleView { id: role_id, guild_id: community_id, timezone: zone },
            );
            &&& timezones_of(after, community_id) == timezones_of(before, community_id).push(zone)
            &&& timezones_of(after, community_id).contains(zone)
        }),
{
    let zone = timezone_for(timezone_text)->Ok_0;
    let entry = RoleView { id: role_id, guild_id: community_id, timezone: zone };
    lemma_timezones_push(before, entry, community_id);
    let listed = timezones_of(before.push(entry), community_id);
    assert(listed[listed.len() - 1] == zone);
}

/// A purge of `all` removes every entry that the community had: its list is
/// empty afterwards, as many role identifiers come back as it had entries,
/// and the lists of the other communities are as before.
pub proof fn law_purge_all(before: Seq<RoleView>, community_id: i64)
    ensures
        selector_for("all"@) == Ok::<SelectorView, Seq<char>>(SelectorView::All),
        timezones_of(remaining(before, community_id, SelectorView::All), community_id).len() == 0,
        removed_ids(before, community_id, SelectorView::All).len() == timezones_of(
            before,
            community_id,
        ).len(),
        forall|other: i64|
            other != community_id ==> #[trigger] timezones_of(
                remaining(before, community_id, SelectorView::All),
                other,
            ) == timezones_of(before, other),
{
    law_remove_all_empties_community(before, community_id);
    assert forall|other: i64| other != community_id implies #[trigger] timezones_of(
        remaining(before, community_id, SelectorView::All),
        other,
    ) == timezones_of(before, other) by {
        law_remove_spares_other_communities(before, community_id, SelectorView::All, other);
    }
}

/// A purge of one zone removes only the community's entries of that zone,
/// taken by its canonical name: the community's other zones stay listed in
/// their old order, and the lists of the other communities are as before.
pub proof fn law_purge_zone(before: Seq<RoleView>, community_id: i64, selector_text: Seq<char>)
    requires
        selector_text != "all"@,
        zone_canonical_name(selector_text) is Some,
    ensures
        ({
            let zone = zone_canonical_name(selector_text)->Some_0;
            let selector = SelectorView::Specific(zone);
            let after = remaining(before, community_id, selector);
            &&& selector_for(selector_text) == Ok::<SelectorView, Seq<char>>(selector)
            &&& timezones_of(after, community_id) == timezones_of(before, community_id).filter(
                other_than(zone),
            )
            &&& !timezones_of(after, community_id).contains(zone)
            &&& forall|other: i64|
                other != community_id ==> #[trigger] timezones_of(after, other) == timezones_of(
                    before,
                    other,
                )
        }),
{
    let zone = zone_canonical_name(selector_text)->Some_0;
    let selector = SelectorView::Specific(zone);
    let after = remaining(before, community_id, selector);
    law_remove_zone_spares_other_zones(before, community_id, zone);
    assert forall|other: i64| other != community_id implies #[trigger] timezones_of(after, other)
        == timezones_of(before, other) by {
        law_remove_spares_other_communities(before, community_id, selector, other);
    }
}

} // verus!
