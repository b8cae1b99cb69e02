//! The role registry: which (community, timezone) pairs are tracked, and under
//! which role of the chat platform.

use crate::text::texts_of;
use vstd::prelude::*;
use vstd::string::*;

verus! {

/// One tracked clock role.
#[derive(Clone, Debug, PartialEq, Eq)]
pub struct Role {
    /// The identifier that the chat platform gave the role.
    pub id: i64,
    /// The community that owns the role.
    pub guild_id: i64,
    /// The zone whose time the role shows, by its canonical name.
    pub timezone: String,
}

/// A tracked role as contracts see it.
pub ghost struct RoleView {
    pub id: i64,
    pub guild_id: i64,
    pub timezone: Seq<char>,
}

impl View for Role {
    type V = RoleView;

    open spec fn view(&self) -> RoleView {
        RoleView { id: self.id, guild_id: self.guild_id, timezone: self.timezone@ }
    }
}

impl Role {
    /// A copy of this entry.
    pub fn duplicate(&self) -> (copy: Role)
        ensures
            copy@ == self@,
    {
        Role { id: self.id, guild_id: self.guild_id, timezone: self.timezone.clone() }
    }
}

/// Which entries of a community a removal is aimed at.
#[derive(Clone, Debug, PartialEq, Eq)]
pub enum Selector {
    /// Every entry of the community.
    All,
    /// The entries of the community that track this zone (a canonical name).
    Specific(String),
}

/// A selector as contracts see it.
pub ghost enum SelectorView {
    All,
    Specific(Seq<char>),
}

impl View for Selector {
    type V = SelectorView;

    open spec fn view(&self) -> SelectorView {
        match self {
            Selector::All => SelectorView::All,
            Selector::Specific(zone) => SelectorView::Specific(zone@),
        }
    }
}

/// Why the registry refused an operation.
#[derive(Clone, Copy, Debug, PartialEq, Eq)]
pub enum RegistryError {
    /// The store could not take the change: here, an entry with the same role
    /// identifier is already present.
    StorageError,
}

/// The views of a sequence of entries.
pub open spec fn role_views(roles: Seq<Role>) -> Seq<RoleView> {
    roles.map_values(|r: Role| r@)
}

/// Whether some entry carries the role identifier `id`.
pub open spec fn has_id(entries: Seq<RoleView>, id: i64) -> bool {
    exists|i: int| 0 <= i < entries.len() && (#[trigger] entries[i]).id == id
}

/// No role identifier occurs in two entries.
pub open spec fn distinct_ids(entries: Seq<RoleView>) -> bool {
    forall|i: int, j: int|
        0 <= i < j < entries.len() ==> (#[trigger] entries[i]).id != (#[trigger] entries[j]).id
}

/// The test "belongs to community `community_id`".
pub open spec fn in_community(community_id: i64) -> spec_fn(RoleView) -> bool {
    |e: RoleView| e.guild_id == community_id
}

/// The zones tracked for a community, in the order in which they were added.
pub open spec fn timezones_of(entries: Seq<RoleView>, community_id: i64) -> Seq<Seq<char>> {
    entries.filter(in_community(community_id)).map_values(|e: RoleView| e.timezone)
}

/// Whether a removal aimed at `community_id` with `selector` takes `entry`.
pub open spec fn selects(selector: SelectorView, community_id: i64, entry: RoleView) -> bool {
    &&& entry.guild_id == community_id
    &&& match selector {
        SelectorView::All => true,
        SelectorView::Specific(zone) => entry.timezone == zone,
    }
}

/// The test "is taken by the removal".
pub open spec fn taken_by(selector: SelectorView, community_id: i64) -> spec_fn(RoleView) -> bool {
    |e: RoleView| selects(selector, community_id, e)
}

/// The test "is left by the removal".
pub open spec fn spared_by(selector: SelectorView, community_id: i64) -> spec_fn(RoleView) -> bool {
    |e: RoleView| !selects(selector, community_id, e)
}

/// The entries that a removal leaves, in their old order.
pub open spec fn remaining(entries: Seq<RoleView>, community_id: i64, selector: SelectorView) -> Seq<
    RoleView,
> {
    entries.filter(spared_by(selector, community_id))
}

/// The role identifiers that a removal takes out, in the entries' order.
pub open spec fn removed_ids(
    entries: Seq<RoleView>,
    community_id: i64,
    selector: SelectorView,
) -> Seq<i64> {
    entries.filter(taken_by(selector, community_id)).map_values(|e: RoleView| e.id)
}

/// Extending the entries by one extends the zones of its community by one
/// and leaves those of every other community alone.
pub proof fn lemma_timezones_push(entries: Seq<RoleView>, entry: RoleView, community_id: i64)
    ensures
        timezones_of(entries.push(entry), community_id) == if entry.guild_id == community_id {
            timezones_of(entries, community_id).push(entry.timezone)
        } else {
            timezones_of(entries, community_id)
        },
{
    entries.lemma_filter_push(entry, in_community(community_id));
    if entry.guild_id == community_id {
        assert(timezones_of(entries.push(entry), community_id) =~= timezones_of(
            entries,
            community_id,
        ).push(entry.timezone));
    }
}

/// What a removal leaves and takes when the entries grow by one.
pub proof fn lemma_removal_push(
    entries: Seq<RoleView>,
    entry: RoleView,
    community_id: i64,
    selector: SelectorView,
)
    ensures
        remaining(entries.push(entry), community_id, selector) == if selects(
            selector,
            community_id,
            entry,
        ) {
            remaining(entries, community_id, selector)
        } else {
            remaining(entries, community_id, selector).push(entry)
        },
        removed_ids(entries.push(entry), community_id, selector) == if selects(
            selector,
            community_id,
            entry,
        ) {
            removed_ids(entries, community_id, selector).push(entry.id)
        } else {
            removed_ids(entries, community_id, selector)
        },
{
    entries.lemma_filter_push(entry, spared_by(selector, community_id));
    entries.lemma_filter_push(entry, taken_by(selector, community_id));
    if selects(selector, community_id, entry) {
        assert(removed_ids(entries.push(entry), community_id, selector) =~= removed_ids(
            entries,
            community_id,
            selector,
        ).push(entry.id));
    }
}

/// A removal keeps the registry's invariant: what it leaves was there before,
/// so no role identifier can occur twice among it.
pub proof fn lemma_remaining_distinct(
    entries: Seq<RoleView>,
    community_id: i64,
    selector: SelectorView,
)
    requires
        distinct_ids(entries),
    ensures
        distinct_ids(remaining(entries, community_id, selector)),
        forall|id: i64|
            has_id(remaining(entries, community_id, selector), id) ==> has_id(entries, id),
    decreases entries.len(),
{
    let left = remaining(entries, community_id, selector);
    if entries.len() == 0 {
        reveal(Seq::filter);
    } else {
        let front = entries.drop_last();
        let last = entries.last();
        assert(entries =~= front.push(last));
        lemma_remaining_distinct(front, community_id, selector);
        lemma_removal_push(front, last, community_id, selector);
        let front_left = remaining(front, community_id, selector);
        assert forall|id: i64| has_id(left, id) implies has_id(entries, id) by {
            let k = choose|k: int| 0 <= k < left.len() && (#[trigger] left[k]).id == id;
            if k < front_left.len() {
                assert(front_left[k].id == id);
                assert(has_id(front, id));
                let j = choose|j: int| 0 <= j < front.len() && (#[trigger] front[j]).id == id;
                assert(entries[j].id == id);
            } else {
                assert(entries[entries.len() - 1].id == id);
            }
        }
        assert forall|i: int, j: int| 0 <= i < j < left.len() implies (#[trigger] left[i]).id != (
        #[trigger] left[j]).id by {
            if j == front_left.len() {
                assert(front_left[i].id == left[i].id);
                assert(has_id(front, left[i].id));
                let m = choose|m: int|
                    0 <= m < front.len() && (#[trigger] front[m]).id == left[i].id;
                assert(entries[m].id == left[i].id);
                assert(entries[entries.len() - 1].id == left[j].id);
            } else {
                assert(front_left[i].id == left[i].id);
                assert(front_left[j].id == left[j].id);
            }
        }
    }
}

/// The persisted relation of tracked roles, held in memory.
///
/// Entries stay in the order in which they were added, and no role identifier
/// occurs twice.
pub struct RoleRegistry {
    roles: Vec<Role>,
}

impl View for RoleRegistry {
    type V = Seq<RoleView>;

    closed spec fn view(&self) -> Seq<RoleView> {
        role_views(self.roles@)
    }
}

/// Whether a removal aimed at `community_id` with `selector` takes `role`.
pub fn is_selected(role: &Role, community_id: i64, selector: &Selector) -> (taken: bool)
    ensures
        taken == selects(selector@, community_id, role@),
{
    role.guild_id == community_id && match selector {
        Selector::All => true,
        Selector::Specific(zone) => role.timezone == *zone,
    }
}

impl RoleRegistry {
    /// The registry's invariant: every role identifier occurs once.
    pub open spec fn wf(&self) -> bool {
        distinct_ids(self@)
    }

    /// An empty registry.
    pub fn new() -> (registry: RoleRegistry)
        ensures
            registry.wf(),
            registry@ == Seq::<RoleView>::empty(),
    {
        let registry = RoleRegistry { roles: Vec::new() };
        assert(registry@ =~= Seq::<RoleView>::empty());
        registry
    }

    /// The number of entries.
    pub fn len(&self) -> (n: usize)
        ensures
            n == self@.len(),
    {
        self.roles.len()
    }

    /// Whether an entry carries the role identifier `id`.
    pub fn contains_id(&self, id: i64) -> (found: bool)
        ensures
            found == has_id(self@, id),
    {
        let mut i: usize = 0;
        while i < self.roles.len()
            invariant
                i <= self.roles.len(),
                forall|k: int| 0 <= k < i ==> (#[trigger] self@[k]).id != id,
            decreases self.roles.len() - i,
        {
            if self.roles[i].id == id {
                assert(self@[i as int].id == id);
                return true;
            }
            i += 1;
        }
        false
    }

    /// Inserts a new entry at the end.
    ///
    /// Fails with `StorageError`, changing nothing, exactly when an entry
    /// with the same role identifier is present. Whether the community
    /// already tracks the zone is not looked at.
    pub fn add(&mut self, role: Role) -> (result: Result<(), RegistryError>)
        requires
            old(self).wf(),
        ensures
            final(self).wf(),
            match result {
                Ok(_) => !has_id(old(self)@, role.id) && final(self)@ == old(self)@.push(role@),
                Err(e) => e == RegistryError::StorageError && has_id(old(self)@, role.id)
                    && final(self)@ == old(self)@,
            },
    {
        if self.contains_id(role.id) {
            return Err(RegistryError::StorageError);
        }
        proof {
            assert(role_views(self.roles@.push(role)) =~= role_views(self.roles@).push(role@));
        }
        self.roles.push(role);
        Ok(())
    }

    /// The zones tracked for a community, oldest entry first; empty where
    /// the community tracks none.
    pub fn list(&self, community_id: i64) -> (zones: Vec<String>)
        ensures
            texts_of(zones@) == timezones_of(self@, community_id),
    {
        let mut zones: Vec<String> = Vec::new();
        let mut i: usize = 0;
        assert(self@.take(0) =~= Seq::<RoleView>::empty());
        assert(timezones_of(Seq::<RoleView>::empty(), community_id) =~= Seq::<
            Seq<char>,
        >::empty()) by {
            reveal(Seq::filter);
        }
        assert(texts_of(zones@) =~= Seq::<Seq<char>>::empty());
        while i < self.roles.len()
            invariant
                i <= self.roles.len(),
                texts_of(zones@) == timezones_of(self@.take(i as int), community_id),
            decreases self.roles.len() - i,
        {
            let role = &self.roles[i];
            proof {
                assert(self@.take(i + 1) =~= self@.take(i as int).push(role@));
                lemma_timezones_push(self@.take(i as int), role@, community_id);
            }
            if role.guild_id == community_id {
                let zone = role.timezone.clone();
                assert(texts_of(zones@.push(zone)) =~= texts_of(zones@).push(zone@));
                zones.push(zone);
            }
            i += 1;
        }
        assert(self@.take(i as int) =~= self@);
        zones
    }

    /// Deletes the entries of `community_id` that `selector` takes and
    /// returns their role identifiers, oldest entry first, so that the caller
    /// can delete the roles themselves. Every other entry stays, in its old
    /// place among those that stay.
    pub fn remove(&mut self, community_id: i64, selector: &Selector) -> (removed: Vec<i64>)
        requires
            old(self).wf(),
        ensures
            final(self).wf(),
            final(self)@ == remaining(old(self)@, community_id, selector@),
            removed@ == removed_ids(old(self)@, community_id, selector@),
    {
        let mut kept: Vec<Role> = Vec::new();
        let mut removed: Vec<i64> = Vec::new();
        let mut i: usize = 0;
        proof {
            reveal(Seq::filter);
            assert(self@.take(0) =~= Seq::<RoleView>::empty());
            assert(role_views(kept@) =~= remaining(self@.take(0), community_id, selector@));
            assert(removed@ =~= removed_ids(self@.take(0), community_id, selector@));
        }
        while i < self.roles.len()
            invariant
                i <= self.roles.len(),
                role_views(kept@) == remaining(self@.take(i as int), community_id, selector@),
                removed@ == removed_ids(self@.take(i as int), community_id, selector@),
            decreases self.roles.len() - i,
        {
            let role = &self.roles[i];
            proof {
                assert(self@.take(i + 1) =~= self@.take(i as int).push(role@));
                lemma_removal_push(self@.take(i as int), role@, community_id, selector@);
            }
            if is_selected(role, community_id, selector) {
                removed.push(role.id);
            } else {
                let copy = role.duplicate();
                assert(role_views(kept@.push(copy)) =~= role_views(kept@).push(copy@));
                kept.push(copy);
            }
            i += 1;
        }
        proof {
            assert(self@.take(i as int) =~= self@);
            lemma_remaining_distinct(self@, community_id, selector@);
        }
        self.roles = kept;
        removed
    }

    /// A snapshot of every entry, oldest first.
    pub fn list_all(&self) -> (snapshot: Vec<Role>)
        ensures
            role_views(snapshot@) == self@,
    {
        let mut snapshot: Vec<Role> = Vec::new();
        let mut i: usize = 0;
        while i < self.roles.len()
            invariant
                i <= self.roles.len(),
                role_views(snapshot@) == self@.take(i as int),
            decreases self.roles.len() - i,
        {
            let copy = self.roles[i].duplicate();
            proof {
                assert(self@[i as int] == copy@);
                assert(role_views(snapshot@.push(copy)) =~= role_views(snapshot@).push(copy@));
                assert(self@.take(i + 1) =~= self@.take(i as int).push(copy@));
            }
            snapshot.push(copy);
            i += 1;
        }
        assert(self@.take(i as int) =~= self@);
        snapshot
    }
}

/// The test "is another zone than `zone`".
pub open spec fn other_than(zone: Seq<char>) -> spec_fn(Seq<char>) -> bool {
    |z: Seq<char>| z != zone
}

/// A removal aimed at one community leaves the zones of every other
/// community as they were.
pub proof fn law_remove_spares_other_communities(
    entries: Seq<RoleView>,
    community_id: i64,
    selector: SelectorView,
    other: i64,
)
    requires
        other != community_id,
    ensures
        timezones_of(remaining(entries, community_id, selector), other) == timezones_of(
            entries,
            other,
        ),
    decreases entries.len(),
{
    if entries.len() == 0 {
        reveal(Seq::filter);
    } else {
        let front = entries.drop_last();
        let last = entries.last();
        assert(entries =~= front.push(last));
        law_remove_spares_other_communities(front, community_id, selector, other);
        lemma_removal_push(front, last, community_id, selector);
        lemma_timezones_push(front, last, other);
        lemma_timezones_push(remaining(front, community_id, selector), last, other);
    }
}

/// Removing every entry of a community leaves it no zone, and takes out as
/// many role identifiers as the community had entries.
pub proof fn law_remove_all_empties_community(entries: Seq<RoleView>, community_id: i64)
    ensures
        timezones_of(remaining(entries, community_id, SelectorView::All), community_id).len() == 0,
        removed_ids(entries, community_id, SelectorView::All).len() == timezones_of(
            entries,
            community_id,
        ).len(),
        remaining(entries, community_id, SelectorView::All).len() + removed_ids(
            entries,
            community_id,
            SelectorView::All,
        ).len() == entries.len(),
    decreases entries.len(),
{
    if entries.len() == 0 {
        reveal(Seq::filter);
    } else {
        let front = entries.drop_last();
        let last = entries.last();
        assert(entries =~= front.push(last));
        law_remove_all_empties_community(front, community_id);
        lemma_removal_push(front, last, community_id, SelectorView::All);
        lemma_timezones_push(front, last, community_id);
        lemma_timezones_push(
            remaining(front, community_id, SelectorView::All),
            last,
            community_id,
        );
    }
}

/// Removing one zone from a community takes exactly the entries of that zone
/// out of the community's list: the other zones stay, in their old order.
pub proof fn law_remove_zone_spares_other_zones(
    entries: Seq<RoleView>,
    community_id: i64,
    zone: Seq<char>,
)
    ensures
        timezones_of(
            remaining(entries, community_id, SelectorView::Specific(zone)),
            community_id,
        ) == timezones_of(entries, community_id).filter(other_than(zone)),
        !timezones_of(
            remaining(entries, community_id, SelectorView::Specific(zone)),
            community_id,
        ).contains(zone),
    decreases entries.len(),
{
    let selector = SelectorView::Specific(zone);
    if entries.len() == 0 {
        reveal(Seq::filter);
    } else {
        let front = entries.drop_last();
        let last = entries.last();
        assert(entries =~= front.push(last));
        law_remove_zone_spares_other_zones(front, community_id, zone);
        lemma_removal_push(front, last, community_id, selector);
        lemma_timezones_push(front, last, community_id);
        lemma_timezones_push(remaining(front, community_id, selector), last, community_id);
        timezones_of(front, community_id).lemma_filter_push(last.timezone, other_than(zone));
        let before = timezones_of(remaining(front, community_id, selector), community_id);
        let after = timezones_of(remaining(entries, community_id, selector), community_id);
        if after.contains(zone) {
            let k = choose|k: int| 0 <= k < after.len() && after[k] == zone;
            if k < before.len() {
                assert(before[k] == zone);
                assert(before.contains(zone));
            }
        }
    }
}

/// What a removal takes out and what it leaves make up the old entries: each
/// entry that stays was not selected, each role identifier that comes back
/// belonged to a selected entry, and none is lost.
pub proof fn law_remove_partitions(
    entries: Seq<RoleView>,
    community_id: i64,
    selector: SelectorView,
)
    ensures
        forall|e: RoleView|
            #![trigger remaining(entries, community_id, selector).contains(e)]
            #![trigger entries.contains(e)]
            remaining(entries, community_id, selector).contains(e) <==> entries.contains(e)
                && !selects(selector, community_id, e),
        forall|id: i64|
            #![trigger removed_ids(entries, community_id, selector).contains(id)]
            removed_ids(entries, community_id, selector).contains(id) <==> exists|e: RoleView|
                #[trigger] entries.contains(e) && selects(selector, community_id, e) && e.id
                    == id,
        remaining(entries, community_id, selector).len() + removed_ids(
            entries,
            community_id,
            selector,
        ).len() == entries.len(),
    decreases entries.len(),
{
    let left = remaining(entries, community_id, selector);
    let ids = removed_ids(entries, community_id, selector);
    if entries.len() == 0 {
        reveal(Seq::filter);
        assert(left =~= Seq::<RoleView>::empty());
        assert(ids =~= Seq::<i64>::empty());
    } else {
        let front = entries.drop_last();
        let last = entries.last();
        assert(entries =~= front.push(last));
        law_remove_partitions(front, community_id, selector);
        lemma_removal_push(front, last, community_id, selector);
        let front_left = remaining(front, community_id, selector);
        let front_ids = removed_ids(front, community_id, selector);
        assert forall|e: RoleView|
            #![trigger left.contains(e)]
            #![trigger entries.contains(e)]
            left.contains(e) <==> entries.contains(e) && !selects(selector, community_id, e) by {
            if left.contains(e) {
                let k = choose|k: int| 0 <= k < left.len() && left[k] == e;
                if k < front_left.len() {
                    assert(front_left[k] == e);
                    assert(front_left.contains(e));
                    let j = choose|j: int| 0 <= j < front.len() && front[j] == e;
                    assert(entries[j] == e);
                } else {
                    assert(entries[entries.len() - 1] == e);
                }
            }
            if entries.contains(e) && !selects(selector, community_id, e) {
                let j = choose|j: int| 0 <= j < entries.len() && entries[j] == e;
                if j < front.len() {
                    assert(front[j] == e);
                    assert(front.contains(e));
                    let k = choose|k: int| 0 <= k < front_left.len() && front_left[k] == e;
                    assert(left[k] == e);
                } else {
                    assert(left[left.len() - 1] == e);
                }
            }
        }
        assert forall|id: i64| #![trigger ids.contains(id)] ids.contains(id) <==> exists|e: RoleView| #[trigger]
            entries.contains(e) && selects(selector, community_id, e) && e.id == id by {
            if ids.contains(id) {
                let k = choose|k: int| 0 <= k < ids.len() && ids[k] == id;
                if k < front_ids.len() {
                    assert(front_ids[k] == id);
                    assert(front_ids.contains(id));
                    let e = choose|e: RoleView| #[trigger]
                        front.contains(e) && selects(selector, community_id, e) && e.id == id;
                    let j = choose|j: int| 0 <= j < front.len() && front[j] == e;
                    assert(entries[j] == e);
                    assert(entries.contains(e));
                } else {
                    assert(entries[entries.len() - 1] == last);
                    assert(entries.contains(last));
                }
            }
            if exists|e: RoleView| #[trigger]
                entries.contains(e) && selects(selector, community_id, e) && e.id == id {
                let e = choose|e: RoleView| #[trigger]
                    entries.contains(e) && selects(selector, community_id, e) && e.id == id;
                let j = choose|j: int| 0 <= j < entries.len() && entries[j] == e;
                if j < front.len() {
                    assert(front[j] == e);
                    assert(front.contains(e));
                    assert(front_ids.contains(id));
                    let k = choose|k: int| 0 <= k < front_ids.len() && front_ids[k] == id;
                    assert(ids[k] == id);
                } else {
                    assert(ids[ids.len() - 1] == id);
                }
            }
        }
    }
}

} // verus!
