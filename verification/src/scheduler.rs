//! The resynchronisation scheduler: on every tick it plans one pass over a
//! snapshot of the registry, then hands out the renames of that pass one by
//! one and records how each went.
//!
//! The scheduler never talks to the chat platform. The caller performs each
//! rename, without holding the registry, and reports the result; a failed
//! rename is recorded and the pass goes on with the next one.

use crate::gateway::GatewayError;
use crate::registry::{role_views, Role, RoleView};
use crate::render::{render, rendering, Instant};
use vstd::prelude::*;
use vstd::string::*;

verus! {

/// The time between two ticks, in milliseconds.
pub const TICK_INTERVAL_MILLIS: u64 = 10_000;

/// The time that one rename may take in a pass of `jobs` renames, in
/// milliseconds: an equal share of the tick interval, rounded down.
pub open spec fn rename_time_limit(jobs: nat) -> nat {
    if jobs == 0 {
        TICK_INTERVAL_MILLIS as nat
    } else {
        TICK_INTERVAL_MILLIS as nat / jobs
    }
}

/// One rename to perform on the chat platform.
#[derive(Clone, Debug, PartialEq, Eq)]
pub struct RenameJob {
    /// The community that owns the role.
    pub guild_id: i64,
    /// The role to rename.
    pub role_id: i64,
    /// The name to give it.
    pub label: String,
}

/// A rename as contracts see it.
pub ghost struct JobView {
    pub guild_id: i64,
    pub role_id: i64,
    pub label: Seq<char>,
}

impl View for RenameJob {
    type V = JobView;

    open spec fn view(&self) -> JobView {
        JobView { guild_id: self.guild_id, role_id: self.role_id, label: self.label@ }
    }
}

impl RenameJob {
    /// A copy of this job.
    pub fn duplicate(&self) -> (copy: RenameJob)
        ensures
            copy@ == self@,
    {
        RenameJob { guild_id: self.guild_id, role_id: self.role_id, label: self.label.clone() }
    }
}

/// How the rename of one role went.
#[derive(Clone, Copy, Debug, PartialEq, Eq)]
pub enum ItemOutcome {
    /// The role carries its new label.
    Renamed,
    /// The chat platform could not be reached in time; the next pass tries
    /// again.
    TransientFailure,
    /// The role no longer exists on the chat platform: its entry is orphaned.
    NotFound,
    /// The entry's zone did not resolve, so no rename was attempted.
    InvalidTimezone,
}

/// What the caller is to do next.
#[derive(Clone, Debug, PartialEq, Eq)]
pub enum Action {
    /// Nothing until the next tick.
    Wait,
    /// Perform this rename and report its result.
    Rename(RenameJob),
}

/// An action as contracts see it.
pub ghost enum ActionView {
    Wait,
    Rename(JobView),
}

impl View for Action {
    type V = ActionView;

    open spec fn view(&self) -> ActionView {
        match self {
            Action::Wait => ActionView::Wait,
            Action::Rename(job) => ActionView::Rename(job@),
        }
    }
}

/// The two states of the scheduler.
#[derive(Clone, Copy, Debug, PartialEq, Eq)]
pub enum SchedulerState {
    /// Between passes.
    Idle,
    /// A pass is under way: a rename is out and its result awaited.
    Syncing,
}

/// The views of a sequence of jobs.
pub open spec fn job_views(jobs: Seq<RenameJob>) -> Seq<JobView> {
    jobs.map_values(|j: RenameJob| j@)
}

/// The test "has a zone that renders".
pub open spec fn renders(millis: int) -> spec_fn(RoleView) -> bool {
    |e: RoleView| rendering(e.timezone, millis) is Ok
}

/// The test "has a zone that does not render".
pub open spec fn fails_to_render(millis: int) -> spec_fn(RoleView) -> bool {
    |e: RoleView| rendering(e.timezone, millis) is Err
}

/// The rename that an entry calls for at `millis`: its own community and
/// role, with the label of its own zone.
pub open spec fn job_for(entry: RoleView, millis: int) -> JobView {
    JobView {
        guild_id: entry.guild_id,
        role_id: entry.id,
        label: rendering(entry.timezone, millis)->Ok_0,
    }
}

/// The renames of a pass over `snapshot` at `millis`: one for each entry
/// whose zone renders, in the snapshot's order.
pub open spec fn planned_jobs(snapshot: Seq<RoleView>, millis: int) -> Seq<JobView> {
    snapshot.filter(renders(millis)).map_values(|e: RoleView| job_for(e, millis))
}

/// The entries of `snapshot` that a pass at `millis` must leave out because
/// their zone does not render.
pub open spec fn unrenderable(snapshot: Seq<RoleView>, millis: int) -> Seq<RoleView> {
    snapshot.filter(fails_to_render(millis))
}

/// How the plan grows with the snapshot.
pub proof fn lemma_plan_push(snapshot: Seq<RoleView>, entry: RoleView, millis: int)
    ensures
        planned_jobs(snapshot.push(entry), millis) == if rendering(entry.timezone, millis) is Ok {
            planned_jobs(snapshot, millis).push(job_for(entry, millis))
        } else {
            planned_jobs(snapshot, millis)
        },
        unrenderable(snapshot.push(entry), millis) == if rendering(entry.timezone, millis) is Ok {
            unrenderable(snapshot, millis)
        } else {
            unrenderable(snapshot, millis).push(entry)
        },
{
    snapshot.lemma_filter_push(entry, renders(millis));
    snapshot.lemma_filter_push(entry, fails_to_render(millis));
    if rendering(entry.timezone, millis) is Ok {
        assert(planned_jobs(snapshot.push(entry), millis) =~= planned_jobs(snapshot, millis).push(
            job_for(entry, millis),
        ));
    }
}

/// A planned pass: the renames to perform and the entries left out.
pub struct PassPlan {
    /// The renames, in the snapshot's order.
    pub jobs: Vec<RenameJob>,
    /// The entries whose zone did not render.
    pub skipped: Vec<Role>,
}

/// Plans a pass: renders the label of every entry of the snapshot for `now`.
/// Each rename carries the community and role of the entry it was rendered
/// from. An entry whose zone does not render is set aside, and the rest of
/// the snapshot is planned all the same.
pub fn plan_pass(snapshot: &Vec<Role>, now: Instant) -> (plan: PassPlan)
    ensures
        job_views(plan.jobs@) == planned_jobs(role_views(snapshot@), now.spec_millis()),
        role_views(plan.skipped@) == unrenderable(role_views(snapshot@), now.spec_millis()),
{
    let mut jobs: Vec<RenameJob> = Vec::new();
    let mut skipped: Vec<Role> = Vec::new();
    let ghost entries = role_views(snapshot@);
    let ghost millis = now.spec_millis();
    let mut i: usize = 0;
    proof {
        reveal(Seq::filter);
        assert(entries.take(0) =~= Seq::<RoleView>::empty());
        assert(job_views(jobs@) =~= planned_jobs(entries.take(0), millis));
        assert(role_views(skipped@) =~= unrenderable(entries.take(0), millis));
    }
    while i < snapshot.len()
        invariant
            i <= snapshot.len(),
            entries == role_views(snapshot@),
            millis == now.spec_millis(),
            job_views(jobs@) == planned_jobs(entries.take(i as int), millis),
            role_views(skipped@) == unrenderable(entries.take(i as int), millis),
        decreases snapshot.len() - i,
    {
        let role = &snapshot[i];
        proof {
            assert(entries.take(i + 1) =~= entries.take(i as int).push(role@));
            lemma_plan_push(entries.take(i as int), role@, millis);
        }
        match render(role.timezone.as_str(), now) {
            Ok(label) => {
                let job = RenameJob { guild_id: role.guild_id, role_id: role.id, label };
                assert(job@ == job_for(role@, millis));
                assert(job_views(jobs@.push(job)) =~= job_views(jobs@).push(job@));
                jobs.push(job);
            },
            Err(_) => {
                let copy = role.duplicate();
                assert(role_views(skipped@.push(copy)) =~= role_views(skipped@).push(copy@));
                skipped.push(copy);
            },
        }
        i += 1;
    }
    assert(entries.take(i as int) =~= entries);
    PassPlan { jobs, skipped }
}

/// The outcome that the result of a rename stands for.
pub open spec fn outcome_of(result: Result<(), GatewayError>) -> ItemOutcome {
    match result {
        Ok(_) => ItemOutcome::Renamed,
        Err(GatewayError::Transient) => ItemOutcome::TransientFailure,
        Err(GatewayError::NotFound) => ItemOutcome::NotFound,
    }
}

/// Classifies the result of a rename.
pub fn classify(result: Result<(), GatewayError>) -> (outcome: ItemOutcome)
    ensures
        outcome == outcome_of(result),
{
    match result {
        Ok(_) => ItemOutcome::Renamed,
        Err(GatewayError::Transient) => ItemOutcome::TransientFailure,
        Err(GatewayError::NotFound) => ItemOutcome::NotFound,
    }
}

/// The scheduler as contracts see it: the renames of the current pass (or of
/// the last one, between passes), the outcomes of those already performed,
/// and the entries that the pass left out.
pub ghost struct SchedulerView {
    pub jobs: Seq<JobView>,
    pub outcomes: Seq<ItemOutcome>,
    pub skipped: Seq<RoleView>,
}

impl SchedulerView {
    /// A pass is under way while renames are left to perform.
    pub open spec fn syncing(self) -> bool {
        self.outcomes.len() < self.jobs.len()
    }

    /// The action that this state calls for: the next rename of the pass, or
    /// waiting for the next tick.
    pub open spec fn pending_action(self) -> ActionView {
        if self.syncing() {
            ActionView::Rename(self.jobs[self.outcomes.len() as int])
        } else {
            ActionView::Wait
        }
    }

    /// The state after a tick: a new pass over `snapshot`, unless a pass is
    /// under way, which the tick then leaves alone.
    pub open spec fn after_tick(self, snapshot: Seq<RoleView>, millis: int) -> SchedulerView {
        if self.syncing() {
            self
        } else {
            SchedulerView {
                jobs: planned_jobs(snapshot, millis),
                outcomes: Seq::empty(),
                skipped: unrenderable(snapshot, millis),
            }
        }
    }

    /// The state after the rename that was out has come back with `result`:
    /// its outcome is recorded, whatever it is, and the pass moves on.
    pub open spec fn after_rename(self, result: Result<(), GatewayError>) -> SchedulerView {
        if self.syncing() {
            SchedulerView { outcomes: self.outcomes.push(outcome_of(result)), ..self }
        } else {
            self
        }
    }

    /// The state after the renames that were handed out one after the other
    /// have come back with `results`.
    pub open spec fn after_renames(self, results: Seq<Result<(), GatewayError>>) -> SchedulerView
        decreases results.len(),
    {
        if results.len() == 0 {
            self
        } else {
            self.after_renames(results.drop_last()).after_rename(results.last())
        }
    }
}

/// The scheduler's state machine.
pub struct Scheduler {
    jobs: Vec<RenameJob>,
    outcomes: Vec<ItemOutcome>,
    skipped: Vec<Role>,
}

impl View for Scheduler {
    type V = SchedulerView;

    closed spec fn view(&self) -> SchedulerView {
        SchedulerView {
            jobs: job_views(self.jobs@),
            outcomes: self.outcomes@,
            skipped: role_views(self.skipped@),
        }
    }
}

impl Scheduler {
    /// The scheduler's invariant: no more outcomes than renames.
    pub open spec fn wf(&self) -> bool {
        self@.outcomes.len() <= self@.jobs.len()
    }

    /// A scheduler that has not run a pass yet.
    pub fn new() -> (scheduler: Scheduler)
        ensures
            scheduler.wf(),
            !scheduler@.syncing(),
            scheduler@.jobs == Seq::<JobView>::empty(),
            scheduler@.outcomes == Seq::<ItemOutcome>::empty(),
            scheduler@.skipped == Seq::<RoleView>::empty(),
    {
        let scheduler = Scheduler { jobs: Vec::new(), outcomes: Vec::new(), skipped: Vec::new() };
        assert(scheduler@.jobs =~= Seq::<JobView>::empty());
        assert(scheduler@.skipped =~= Seq::<RoleView>::empty());
        scheduler
    }

    /// The state of the scheduler.
    pub fn state(&self) -> (state: SchedulerState)
        ensures
            state == if self@.syncing() {
                SchedulerState::Syncing
            } else {
                SchedulerState::Idle
            },
    {
        if self.outcomes.len() < self.jobs.len() {
            SchedulerState::Syncing
        } else {
            SchedulerState::Idle
        }
    }

    fn pending(&self) -> (action: Action)
        ensures
            action@ == self@.pending_action(),
    {
        let done = self.outcomes.len();
        if done < self.jobs.len() {
            Action::Rename(self.jobs[done].duplicate())
        } else {
            Action::Wait
        }
    }

    /// A tick of the timer. Between passes it starts a pass over `snapshot`,
    /// rendered for `now`, and hands out its first rename; a pass with no
    /// rename is over at once. While a pass is under way the tick changes
    /// nothing and asks for nothing.
    pub fn tick(&mut self, snapshot: &Vec<Role>, now: Instant) -> (action: Action)
        requires
            old(self).wf(),
        ensures
            final(self).wf(),
            final(self)@ == old(self)@.after_tick(role_views(snapshot@), now.spec_millis()),
            action@ == if old(self)@.syncing() {
                ActionView::Wait
            } else {
                final(self)@.pending_action()
            },
    {
        if self.outcomes.len() < self.jobs.len() {
            return Action::Wait;
        }
        let plan = plan_pass(snapshot, now);
        self.jobs = plan.jobs;
        self.outcomes = Vec::new();
        self.skipped = plan.skipped;
        self.pending()
    }

    /// The result of the rename that was handed out last. Its outcome is
    /// recorded and the next rename of the pass is handed out, whether this
    /// one succeeded or not; after the last one the scheduler is idle again.
    /// Between passes a result changes nothing.
    pub fn rename_finished(&mut self, result: Result<(), GatewayError>) -> (action: Action)
        requires
            old(self).wf(),
        ensures
            final(self).wf(),
            final(self)@ == old(self)@.after_rename(result),
            action@ == final(self)@.pending_action(),
    {
        if self.outcomes.len() < self.jobs.len() {
            self.outcomes.push(classify(result));
        }
        self.pending()
    }

    /// The time, in milliseconds, after which the caller is to give up on a
    /// rename of the current pass and report it as a transient failure.
    pub fn rename_time_limit_millis(&self) -> (limit: u64)
        ensures
            limit == rename_time_limit(self@.jobs.len()),
    {
        let jobs = self.jobs.len() as u64;
        if jobs == 0 {
            TICK_INTERVAL_MILLIS
        } else {
            TICK_INTERVAL_MILLIS / jobs
        }
    }

    /// The renames of the current pass, or of the last one between passes.
    pub fn jobs(&self) -> (jobs: &Vec<RenameJob>)
        ensures
            job_views(jobs@) == self@.jobs,
    {
        &self.jobs
    }

    /// The outcomes of the renames performed so far in this pass: the first
    /// for the first rename, and so on.
    pub fn outcomes(&self) -> (outcomes: &Vec<ItemOutcome>)
        ensures
            outcomes@ == self@.outcomes,
    {
        &self.outcomes
    }

    /// The entries that this pass left out because their zone did not
    /// render.
    pub fn skipped(&self) -> (skipped: &Vec<Role>)
        ensures
            role_views(skipped@) == self@.skipped,
    {
        &self.skipped
    }
}

/// The outcomes that a sequence of results stands for.
pub open spec fn outcomes_of(results: Seq<Result<(), GatewayError>>) -> Seq<ItemOutcome> {
    results.map_values(|r: Result<(), GatewayError>| outcome_of(r))
}

/// Whether `job` is the rename of some entry of `snapshot` whose zone
/// renders at `millis`.
pub open spec fn planned_from(snapshot: Seq<RoleView>, millis: int, job: JobView) -> bool {
    exists|i: int|
        0 <= i < snapshot.len() && rendering((#[trigger] snapshot[i]).timezone, millis) is Ok
            && job == job_for(snapshot[i], millis)
}

/// No rename is assigned across entries: every rename of a plan carries the
/// community, the role and the label of one entry of the snapshot whose zone
/// renders, every such entry has its rename, and each entry is either
/// planned or left out.
pub proof fn law_jobs_keep_their_roles(snapshot: Seq<RoleView>, millis: int)
    ensures
        forall|k: int|
            0 <= k < planned_jobs(snapshot, millis).len() ==> planned_from(
                snapshot,
                millis,
                #[trigger] planned_jobs(snapshot, millis)[k],
            ),
        forall|i: int|
            0 <= i < snapshot.len() && rendering((#[trigger] snapshot[i]).timezone, millis) is Ok
                ==> planned_jobs(snapshot, millis).contains(job_for(snapshot[i], millis)),
        planned_jobs(snapshot, millis).len() + unrenderable(snapshot, millis).len()
            == snapshot.len(),
    decreases snapshot.len(),
{
    let jobs = planned_jobs(snapshot, millis);
    if snapshot.len() == 0 {
        reveal(Seq::filter);
    } else {
        let front = snapshot.drop_last();
        let last = snapshot.last();
        assert(snapshot =~= front.push(last));
        law_jobs_keep_their_roles(front, millis);
        lemma_plan_push(front, last, millis);
        let front_jobs = planned_jobs(front, millis);
        assert forall|k: int| 0 <= k < jobs.len() implies planned_from(
            snapshot,
            millis,
            #[trigger] jobs[k],
        ) by {
            if k < front_jobs.len() {
                assert(front_jobs[k] == jobs[k]);
                assert(planned_from(front, millis, front_jobs[k]));
                let i = choose|i: int|
                    0 <= i < front.len() && rendering((#[trigger] front[i]).timezone, millis)
                        is Ok && front_jobs[k] == job_for(front[i], millis);
                assert(snapshot[i] == front[i]);
            } else {
                assert(snapshot[snapshot.len() - 1] == last);
            }
        }
        assert forall|i: int|
            0 <= i < snapshot.len() && rendering((#[trigger] snapshot[i]).timezone, millis)
                is Ok implies jobs.contains(job_for(snapshot[i], millis)) by {
            if i < front.len() {
                assert(front[i] == snapshot[i]);
                assert(front_jobs.contains(job_for(front[i], millis)));
                let k = choose|k: int|
                    0 <= k < front_jobs.len() && front_jobs[k] == job_for(front[i], millis);
                assert(jobs[k] == job_for(snapshot[i], millis));
            } else {
                assert(jobs[jobs.len() - 1] == job_for(snapshot[i], millis));
            }
        }
    }
}

/// The pass moves on alike after a failed and after a successful rename:
/// which rename comes next, and whether the pass is over, does not depend on
/// the result that came back.
pub proof fn law_failure_does_not_stop_the_pass(
    state: SchedulerView,
    result: Result<(), GatewayError>,
    other: Result<(), GatewayError>,
)
    ensures
        state.after_rename(result).pending_action() == state.after_rename(other).pending_action(),
        state.after_rename(result).syncing() == state.after_rename(other).syncing(),
        state.after_rename(result).jobs == state.jobs,
        state.syncing() ==> state.after_rename(result).outcomes.len() == state.outcomes.len() + 1,
{
}

/// A pass attempts every one of its renames, in order, whatever the results
/// are: once the first `results.len()` renames of a fresh pass have come
/// back, their outcomes are on record one for one, the next rename of the
/// plan is out, and after the last one the scheduler is idle.
pub proof fn law_pass_attempts_every_rename(
    start: SchedulerView,
    results: Seq<Result<(), GatewayError>>,
)
    requires
        start.outcomes.len() == 0,
        results.len() <= start.jobs.len(),
    ensures
        ({
            let state = start.after_renames(results);
            &&& state.jobs == start.jobs
            &&& state.skipped == start.skipped
            &&& state.outcomes == outcomes_of(results)
            &&& state.syncing() <==> results.len() < start.jobs.len()
            &&& state.pending_action() == if results.len() < start.jobs.len() {
                ActionView::Rename(start.jobs[results.len() as int])
            } else {
                ActionView::Wait
            }
        }),
    decreases results.len(),
{
    if results.len() == 0 {
        assert(start.outcomes =~= outcomes_of(results));
    } else {
        law_pass_attempts_every_rename(start, results.drop_last());
        let before = start.after_renames(results.drop_last());
        assert(before.syncing());
        assert(outcomes_of(results.drop_last()).push(outcome_of(results.last())) =~= outcomes_of(
            results,
        ));
    }
}

/// A pass in which no rename outlasts its time limit is over before the
/// next tick, however many renames it has and however many of them fail.
pub proof fn law_pass_fits_between_ticks(jobs: nat)
    ensures
        jobs * rename_time_limit(jobs) <= TICK_INTERVAL_MILLIS,
{
    if jobs > 0 {
        let total = TICK_INTERVAL_MILLIS as int;
        let count = jobs as int;
        assert(count * (total / count) <= total) by (nonlinear_arith)
            requires
                count > 0,
                total >= 0,
        ;
    }
}

} // verus!
