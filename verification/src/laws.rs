//! What holds of every run of a locking attempt and of a release.

use crate::engine::{
    Action, AttemptView, Event, LockStepView, Phase, UnlockStepView, UnlockingView, release_result,
};
use crate::quorum::{lemma_all_set, lemma_quorums_intersect};
use crate::redlock::{LockView, RedlockView};
use crate::types::{AcquireOutcome, Error, ReleaseOutcome};
use crate::window::{drift_of, lemma_window_ends_early, window_of};
use vstd::prelude::*;

verus! {

/// An event, and the clock reading in milliseconds at which it is handed in.
pub struct Report {
    pub event: Event,
    pub now: int,
}

/// Where a locking attempt stands once `reports` were handed in, in their
/// order. What is handed in after the attempt is over changes nothing.
pub open spec fn lock_run(start: LockStepView, reports: Seq<Report>) -> LockStepView
    decreases reports.len(),
{
    if reports.len() == 0 {
        start
    } else {
        match lock_run(start, reports.drop_last()) {
            LockStepView::Pending(attempt) => attempt.step_at(
                reports.last().event,
                reports.last().now,
            ),
            LockStepView::Done(result) => LockStepView::Done(result),
        }
    }
}

/// Where a release stands once the nodes gave `outcomes`, in their order.
/// What is handed in after the release is over changes nothing.
pub open spec fn unlock_run(start: UnlockStepView, outcomes: Seq<ReleaseOutcome>) -> UnlockStepView
    decreases outcomes.len(),
{
    if outcomes.len() == 0 {
        start
    } else {
        match unlock_run(start, outcomes.drop_last()) {
            UnlockStepView::Pending(unlocking) => unlocking.step(Event::Release(outcomes.last())),
            UnlockStepView::Done(result) => UnlockStepView::Done(result),
        }
    }
}

/// The flags of a round: one for each report, set where the report is the
/// grant of a node.
pub open spec fn grants_of(reports: Seq<Report>) -> Seq<bool> {
    Seq::new(
        reports.len(),
        |i: int| reports[i].event == Event::Acquire(AcquireOutcome::Acquired),
    )
}

/// Whether `attempt` stands at the beginning of a round.
pub open spec fn is_fresh_round(attempt: AttemptView) -> bool {
    attempt.wf() && attempt.phase == Phase::Acquiring && attempt.granted.len() == 0
}

/// A step of a well-formed attempt leaves a well-formed attempt.
pub proof fn lemma_step_keeps_wf(attempt: AttemptView, event: Event, now: int)
    requires
        attempt.wf(),
    ensures
        attempt.step_at(event, now) matches LockStepView::Pending(next) ==> next.wf(),
{
}

/// A step of a well-formed release leaves a well-formed release.
pub proof fn lemma_unlock_step_keeps_wf(unlocking: UnlockingView, event: Event)
    requires
        unlocking.wf(),
    ensures
        unlocking.step(event) matches UnlockStepView::Pending(next) ==> next.wf(),
{
}

/// Handing in one row of reports and then another is handing in the two in
/// a row.
pub proof fn lemma_lock_run_concat(start: LockStepView, first: Seq<Report>, second: Seq<Report>)
    ensures
        lock_run(start, first + second) == lock_run(lock_run(start, first), second),
    decreases second.len(),
{
    if second.len() == 0 {
        assert(first + second =~= first);
    } else {
        lemma_lock_run_concat(start, first, second.drop_last());
        assert((first + second).drop_last() =~= first + second.drop_last());
        assert((first + second).last() == second.last());
    }
}

/// However the nodes answer and whatever the clock reads, an attempt to
/// lock `res` for `ttl` milliseconds under `key` ends, if it ends, in one of
/// three ways. In a lock for `res` under `key` whose validity is positive and
/// at most `ttl` less the allowance for clock drift. Or with
/// `CannotObtain`: what single nodes answered is never handed on. Or with
/// `InvalidArgument`, and then `ttl` is not positive or `res` is empty.
pub proof fn lemma_lock_ends(
    config: RedlockView,
    res: Seq<char>,
    ttl: int,
    key: Seq<char>,
    now: int,
    reports: Seq<Report>,
)
    ensures
        match lock_run(AttemptView::begin(config, res, ttl, key, now), reports) {
            LockStepView::Pending(attempt) => attempt.config == config && attempt.resource == res
                && attempt.ttl == ttl && attempt.key == key,
            LockStepView::Done(Ok(lock)) => lock.resource == res && lock.key == key && 0
                < lock.validity <= ttl - ttl * config.clock_drift_ppm / 1_000_000 - 2,
            LockStepView::Done(Err(error)) => error == Error::CannotObtain || (error
                == Error::InvalidArgument && (ttl <= 0 || res.len() == 0)),
        },
    decreases reports.len(),
{
    if reports.len() > 0 {
        lemma_lock_ends(config, res, ttl, key, now, reports.drop_last());
    }
}

/// The nodes are asked to bind in their order: while fewer reports than
/// nodes were handed in to a fresh round, the round has the flags of those
/// reports and waits for the next node.
pub proof fn lemma_round_proceeds(attempt: AttemptView, reports: Seq<Report>, k: int)
    requires
        is_fresh_round(attempt),
        0 <= k <= reports.len(),
        k < attempt.config.servers,
        forall|i: int| 0 <= i < reports.len() ==> (#[trigger] reports[i]).event is Acquire,
    ensures
        lock_run(LockStepView::Pending(attempt), reports.take(k)) == LockStepView::Pending(
            AttemptView { granted: grants_of(reports.take(k)), ..attempt },
        ),
    decreases k,
{
    if k == 0 {
        assert(grants_of(reports.take(0)) =~= attempt.granted);
    } else {
        lemma_round_proceeds(attempt, reports, k - 1);
        let earlier = reports.take(k - 1);
        assert(reports.take(k).drop_last() =~= earlier);
        assert(reports.take(k).last() == reports[k - 1]);
        assert(grants_of(earlier).push(
            reports[k - 1].event == Event::Acquire(AcquireOutcome::Acquired),
        ) =~= grants_of(reports.take(k)));
    }
}

/// A round ends with the answer of the last node. Where a quorum of the
/// nodes granted and the time that the round took leaves a positive
/// validity, the lock is held from that moment on, with that validity. In
/// every other case the round has failed and the nodes are asked to delete,
/// beginning with the first.
pub proof fn lemma_round_ends(attempt: AttemptView, reports: Seq<Report>)
    requires
        is_fresh_round(attempt),
        reports.len() == attempt.config.servers,
        forall|i: int| 0 <= i < reports.len() ==> (#[trigger] reports[i]).event is Acquire,
    ensures
        lock_run(LockStepView::Pending(attempt), reports) == match attempt.verdict(
            grants_of(reports),
            reports.last().now,
        ) {
            Some(validity) => LockStepView::Done(
                Ok(
                    LockView {
                        validity: validity,
                        resource: attempt.resource,
                        key: attempt.key,
                        start_time: reports.last().now,
                    },
                ),
            ),
            None => LockStepView::Pending(
                AttemptView { phase: Phase::Cleaning, granted: grants_of(reports), ..attempt },
            ),
        },
{
    let n = reports.len() as int;
    lemma_round_proceeds(attempt, reports, n - 1);
    let earlier = reports.take(n - 1);
    assert(reports.drop_last() =~= earlier);
    assert(grants_of(earlier).push(
        reports[n - 1].event == Event::Acquire(AcquireOutcome::Acquired),
    ) =~= grants_of(reports));
}

/// Where nobody else is after the resource, so that every node grants, and
/// the time that the round took leaves a positive validity, the first
/// round locks.
pub proof fn lemma_uncontended_lock(
    config: RedlockView,
    res: Seq<char>,
    ttl: int,
    key: Seq<char>,
    now: int,
    reports: Seq<Report>,
)
    requires
        config.wf(),
        ttl > 0,
        res.len() > 0,
        config.retry_count > 0,
        reports.len() == config.servers,
        forall|i: int|
            0 <= i < reports.len() ==> (#[trigger] reports[i]).event == Event::Acquire(
                AcquireOutcome::Acquired,
            ),
        window_of(ttl, config.clock_drift_ppm as int, now, reports.last().now) is Some,
    ensures
        lock_run(AttemptView::begin(config, res, ttl, key, now), reports) == LockStepView::Done(
            Ok(
                LockView {
                    validity: window_of(
                        ttl,
                        config.clock_drift_ppm as int,
                        now,
                        reports.last().now,
                    )->0,
                    resource: res,
                    key: key,
                    start_time: reports.last().now,
                },
            ),
        ),
{
    let attempt = AttemptView::begin(config, res, ttl, key, now)->Pending_0;
    lemma_round_ends(attempt, reports);
    lemma_all_set(grants_of(reports));
}

/// After a failed round every node is asked to delete, in the order of the
/// nodes and whatever the nodes before it answered; then the wait is asked
/// for.
pub proof fn lemma_cleanup_asks_every_node(attempt: AttemptView, reports: Seq<Report>, k: int)
    requires
        attempt.wf(),
        attempt.phase == Phase::Cleaning,
        attempt.cursor == 0,
        reports.len() == attempt.config.servers,
        0 <= k <= reports.len(),
        forall|i: int| 0 <= i < reports.len() ==> (#[trigger] reports[i]).event is Release,
    ensures
        k < reports.len() ==> lock_run(LockStepView::Pending(attempt), reports.take(k))
            == LockStepView::Pending(AttemptView { cursor: k as nat, ..attempt }),
        k == reports.len() ==> lock_run(LockStepView::Pending(attempt), reports.take(k))
            == LockStepView::Pending(AttemptView { phase: Phase::Sleeping, ..attempt }),
    decreases k,
{
    if k > 0 {
        lemma_cleanup_asks_every_node(attempt, reports, k - 1);
        assert(reports.take(k).drop_last() =~= reports.take(k - 1));
        assert(reports.take(k).last() == reports[k - 1]);
    }
}

/// A failed round, from the first node asked to bind to the end of the
/// wait, is followed by a fresh round that begins at the end of the wait,
/// or, where it was the last round that the manager tries, by
/// `CannotObtain`. What the nodes answer when asked to delete has no part in
/// this.
pub proof fn lemma_failed_round(
    attempt: AttemptView,
    acquires: Seq<Report>,
    releases: Seq<Report>,
    woken: int,
)
    requires
        is_fresh_round(attempt),
        acquires.len() == attempt.config.servers,
        forall|i: int| 0 <= i < acquires.len() ==> (#[trigger] acquires[i]).event is Acquire,
        attempt.verdict(grants_of(acquires), acquires.last().now) is None,
        releases.len() == attempt.config.servers,
        forall|i: int| 0 <= i < releases.len() ==> (#[trigger] releases[i]).event is Release,
    ensures
        lock_run(
            LockStepView::Pending(attempt),
            acquires + releases + seq![Report { event: Event::Slept, now: woken }],
        ) == if attempt.pass + 1 < attempt.config.retry_count {
            LockStepView::Pending(
                AttemptView {
                    pass: attempt.pass + 1,
                    granted: Seq::empty(),
                    started_at: woken,
                    ..attempt
                },
            )
        } else {
            LockStepView::Done(Err(Error::CannotObtain))
        },
{
    let start = LockStepView::Pending(attempt);
    let wait = seq![Report { event: Event::Slept, now: woken }];
    let cleaning = AttemptView { phase: Phase::Cleaning, granted: grants_of(acquires), ..attempt };
    let sleeping = AttemptView { phase: Phase::Sleeping, ..cleaning };
    lemma_round_ends(attempt, acquires);
    lemma_cleanup_asks_every_node(cleaning, releases, releases.len() as int);
    assert(releases.take(releases.len() as int) =~= releases);
    lemma_lock_run_concat(start, acquires, releases);
    lemma_lock_run_concat(start, acquires + releases, wait);
    assert(lock_run(LockStepView::Pending(sleeping), wait) == sleeping.step_at(
        Event::Slept,
        woken,
    )) by {
        reveal_with_fuel(lock_run, 2);
    }
}

/// What is handed in to an attempt in the course of one failed round: the
/// answers of the nodes asked to bind, the answers of the nodes asked to
/// delete, and the clock reading at the end of the wait.
pub struct FailedRound {
    pub acquires: Seq<Report>,
    pub releases: Seq<Report>,
    pub woken: int,
}

impl FailedRound {
    /// The reports of the round in their order.
    pub open spec fn reports(self) -> Seq<Report> {
        self.acquires + self.releases + seq![Report { event: Event::Slept, now: self.woken }]
    }

    /// Whether the round is one of `attempt`, standing at the beginning of a
    /// round, and fails: every node answers, and no quorum grants or no
    /// validity is left.
    pub open spec fn fails(self, attempt: AttemptView) -> bool {
        &&& self.acquires.len() == attempt.config.servers
        &&& forall|i: int|
            0 <= i < self.acquires.len() ==> (#[trigger] self.acquires[i]).event is Acquire
        &&& attempt.verdict(grants_of(self.acquires), self.acquires.last().now) is None
        &&& self.releases.len() == attempt.config.servers
        &&& forall|i: int|
            0 <= i < self.releases.len() ==> (#[trigger] self.releases[i]).event is Release
    }
}

/// The attempt at the beginning of the round that follows a failed one.
pub open spec fn next_round(attempt: AttemptView, woken: int) -> AttemptView {
    AttemptView { pass: attempt.pass + 1, granted: Seq::empty(), started_at: woken, ..attempt }
}

/// Whether `rounds` are rounds of `attempt` that fail one after the other.
pub open spec fn all_fail(attempt: AttemptView, rounds: Seq<FailedRound>) -> bool
    decreases rounds.len(),
{
    rounds.len() == 0 || (rounds.first().fails(attempt) && all_fail(
        next_round(attempt, rounds.first().woken),
        rounds.drop_first(),
    ))
}

/// The reports of `rounds` in one row.
pub open spec fn all_reports(rounds: Seq<FailedRound>) -> Seq<Report>
    decreases rounds.len(),
{
    if rounds.len() == 0 {
        Seq::empty()
    } else {
        rounds.first().reports() + all_reports(rounds.drop_first())
    }
}

/// An attempt gives up when the last of its rounds has failed, and not
/// before: where all the rounds that the manager tries fail one after the
/// other, the attempt ends with `CannotObtain` at the end of the last wait.
pub proof fn lemma_gives_up(attempt: AttemptView, rounds: Seq<FailedRound>)
    requires
        is_fresh_round(attempt),
        all_fail(attempt, rounds),
        rounds.len() == attempt.config.retry_count - attempt.pass,
    ensures
        lock_run(LockStepView::Pending(attempt), all_reports(rounds)) == LockStepView::Done(
            Err(Error::CannotObtain),
        ),
    decreases rounds.len(),
{
    let first = rounds.first();
    let rest = rounds.drop_first();
    lemma_failed_round(attempt, first.acquires, first.releases, first.woken);
    lemma_lock_run_concat(LockStepView::Pending(attempt), first.reports(), all_reports(rest));
    if attempt.pass + 1 < attempt.config.retry_count {
        lemma_gives_up(next_round(attempt, first.woken), rest);
    } else {
        assert(all_reports(rest) =~= Seq::<Report>::empty());
    }
}

/// While rounds are left, failed rounds are followed by a fresh round:
/// where fewer rounds than the manager tries have failed one after the
/// other, the attempt stands at the beginning of the next.
pub proof fn lemma_tries_again(attempt: AttemptView, rounds: Seq<FailedRound>)
    requires
        is_fresh_round(attempt),
        all_fail(attempt, rounds),
        0 < rounds.len() < attempt.config.retry_count - attempt.pass,
    ensures
        lock_run(LockStepView::Pending(attempt), all_reports(rounds)) == LockStepView::Pending(
            AttemptView {
                pass: attempt.pass + rounds.len(),
                granted: Seq::empty(),
                started_at: rounds.last().woken,
                ..attempt
            },
        ),
    decreases rounds.len(),
{
    let first = rounds.first();
    let rest = rounds.drop_first();
    lemma_failed_round(attempt, first.acquires, first.releases, first.woken);
    lemma_lock_run_concat(LockStepView::Pending(attempt), first.reports(), all_reports(rest));
    if rest.len() > 0 {
        lemma_tries_again(next_round(attempt, first.woken), rest);
        assert(rest.last() == rounds.last());
    } else {
        assert(all_reports(rest) =~= Seq::<Report>::empty());
    }
}

/// Whether `event` is what comes of `action`.
pub open spec fn answers(event: Event, action: Action) -> bool {
    match (action, event) {
        (Action::TryAcquire { .. }, Event::Acquire(_)) => true,
        (Action::Release { .. }, Event::Release(_)) => true,
        (Action::Sleep { .. }, Event::Slept) => true,
        _ => false,
    }
}

/// The most events that an attempt can still take before it is over: what
/// is left of its round, and a whole round for each round after it.
pub open spec fn steps_left(attempt: AttemptView) -> int {
    let n = attempt.config.servers as int;
    (attempt.config.retry_count - attempt.pass - 1) * (2 * n + 1) + match attempt.phase {
        Phase::Acquiring => 2 * n + 1 - attempt.granted.len(),
        Phase::Cleaning => n + 1 - attempt.cursor,
        Phase::Sleeping => 1,
    }
}

/// An attempt comes to an end: each event that answers its action leaves
/// fewer events to take, and never fewer than none. An attempt of a manager
/// with `R` rounds and `N` nodes is thus over after `R * (2 * N + 1)` answered
/// actions at the latest.
pub proof fn lemma_attempt_advances(attempt: AttemptView, event: Event, now: int)
    requires
        attempt.wf(),
        answers(event, attempt.action()),
    ensures
        0 < steps_left(attempt) <= attempt.config.retry_count * (2 * attempt.config.servers + 1),
        attempt.step_at(event, now) matches LockStepView::Pending(next) ==> steps_left(next)
            < steps_left(attempt),
{
    let n = attempt.config.servers as int;
    let r = attempt.config.retry_count;
    let p = attempt.pass;
    assert((r - p - 1) * (2 * n + 1) >= 0) by (nonlinear_arith)
        requires
            r - p - 1 >= 0,
            n >= 1,
    ;
    assert((r - p - 1) * (2 * n + 1) + (2 * n + 1) <= r * (2 * n + 1)) by (nonlinear_arith)
        requires
            p >= 0,
            n >= 1,
    ;
    assert((r - (p + 1) - 1) * (2 * n + 1) + (2 * n + 1) == (r - p - 1) * (2 * n + 1))
        by (nonlinear_arith);
}

/// A release asks every node, in the order of the nodes and whatever the
/// nodes before it answered.
pub proof fn lemma_unlock_asks_every_node(
    unlocking: UnlockingView,
    outcomes: Seq<ReleaseOutcome>,
    k: int,
)
    requires
        unlocking.wf(),
        unlocking.seen.len() == 0,
        0 <= k <= outcomes.len(),
        k < unlocking.servers,
    ensures
        unlock_run(UnlockStepView::Pending(unlocking), outcomes.take(k)) == UnlockStepView::Pending(
            UnlockingView { seen: outcomes.take(k), ..unlocking },
        ),
    decreases k,
{
    if k == 0 {
        assert(outcomes.take(0) =~= unlocking.seen);
    } else {
        lemma_unlock_asks_every_node(unlocking, outcomes, k - 1);
        assert(outcomes.take(k).drop_last() =~= outcomes.take(k - 1));
        assert(outcomes.take(k - 1).push(outcomes[k - 1]) =~= outcomes.take(k));
    }
}

/// A release ends with the answer of the last node: complete where every
/// node deleted the binding or had none to the key, incomplete where the
/// answer of some node could not be had.
pub proof fn lemma_unlock_ends(unlocking: UnlockingView, outcomes: Seq<ReleaseOutcome>)
    requires
        unlocking.wf(),
        unlocking.seen.len() == 0,
        outcomes.len() == unlocking.servers,
    ensures
        unlock_run(UnlockStepView::Pending(unlocking), outcomes) == UnlockStepView::Done(
            release_result(outcomes),
        ),
{
    let n = outcomes.len() as int;
    lemma_unlock_asks_every_node(unlocking, outcomes, n - 1);
    assert(outcomes.drop_last() =~= outcomes.take(n - 1));
    assert(outcomes.take(n - 1).push(outcomes[n - 1]) =~= outcomes);
}

/// Releasing again is releasing: where a release was complete and is
/// repeated for the same resource and key, every node now answering that it
/// holds no such binding, the second release is complete as the first was.
pub proof fn lemma_release_twice(
    servers: nat,
    res: Seq<char>,
    key: Seq<char>,
    first: Seq<ReleaseOutcome>,
    second: Seq<ReleaseOutcome>,
)
    requires
        1 <= servers <= usize::MAX,
        first.len() == servers,
        second.len() == servers,
        unlock_run(UnlockStepView::Pending(UnlockingView::begin(servers, res, key)), first)
            == UnlockStepView::Done(Ok(())),
        forall|i: int| 0 <= i < second.len() ==> second[i] == ReleaseOutcome::NotOwned,
    ensures
        unlock_run(UnlockStepView::Pending(UnlockingView::begin(servers, res, key)), second)
            == unlock_run(UnlockStepView::Pending(UnlockingView::begin(servers, res, key)), first),
{
    lemma_unlock_ends(UnlockingView::begin(servers, res, key), second);
}

/// Whether node `i`, if it granted both rounds, granted the later of the two
/// only when the time to live of the earlier one, less its allowance for
/// clock drift, had passed since the node granted that one. `at_a` and `at_b`
/// hold, for each node, the clock reading at which it answered in the one
/// round and in the other.
pub open spec fn node_kept(
    a: AttemptView,
    grants_a: Seq<bool>,
    at_a: Seq<int>,
    b: AttemptView,
    grants_b: Seq<bool>,
    at_b: Seq<int>,
    i: int,
) -> bool {
    grants_a[i] && grants_b[i] ==> if at_a[i] <= at_b[i] {
        at_b[i] >= at_a[i] + a.ttl - drift_of(a.ttl, a.config.clock_drift_ppm as int)
    } else {
        at_a[i] >= at_b[i] + b.ttl - drift_of(b.ttl, b.config.clock_drift_ppm as int)
    }
}

/// Two locks on one resource never stand at the same time, whoever holds
/// them and however their rounds went. Taken as given: the two rounds went to
/// the same nodes; the clock readings are of one clock; each node answered
/// within the round in which it was asked; neither lock was released; and a
/// node that bound the resource to one key kept that binding, and so granted
/// no other round, for the time to live less the allowance for clock drift.
pub proof fn lemma_mutual_exclusion(
    a: AttemptView,
    reports_a: Seq<Report>,
    at_a: Seq<int>,
    lock_a: LockView,
    b: AttemptView,
    reports_b: Seq<Report>,
    at_b: Seq<int>,
    lock_b: LockView,
    now: int,
)
    requires
        is_fresh_round(a),
        is_fresh_round(b),
        a.resource == b.resource,
        a.config.servers == b.config.servers,
        reports_a.len() == a.config.servers,
        reports_b.len() == b.config.servers,
        forall|i: int| 0 <= i < reports_a.len() ==> (#[trigger] reports_a[i]).event is Acquire,
        forall|i: int| 0 <= i < reports_b.len() ==> (#[trigger] reports_b[i]).event is Acquire,
        lock_run(LockStepView::Pending(a), reports_a) == LockStepView::Done(Ok(lock_a)),
        lock_run(LockStepView::Pending(b), reports_b) == LockStepView::Done(Ok(lock_b)),
        at_a.len() == reports_a.len(),
        at_b.len() == reports_b.len(),
        forall|i: int|
            0 <= i < at_a.len() ==> a.started_at <= #[trigger] at_a[i] <= reports_a.last().now,
        forall|i: int|
            0 <= i < at_b.len() ==> b.started_at <= #[trigger] at_b[i] <= reports_b.last().now,
        forall|i: int|
            0 <= i < a.config.servers ==> #[trigger] node_kept(
                a,
                grants_of(reports_a),
                at_a,
                b,
                grants_of(reports_b),
                at_b,
                i,
            ),
    ensures
        !(lock_a.start_time <= now && lock_a.valid_at(now) && lock_b.start_time <= now
            && lock_b.valid_at(now)),
{
    let grants_a = grants_of(reports_a);
    let grants_b = grants_of(reports_b);
    lemma_round_ends(a, reports_a);
    lemma_round_ends(b, reports_b);
    lemma_quorums_intersect(grants_a, grants_b);
    let i = choose|i: int| 0 <= i < grants_a.len() && #[trigger] grants_a[i] && grants_b[i];
    assert(node_kept(a, grants_a, at_a, b, grants_b, at_b, i));
    assert(a.started_at <= at_a[i] <= reports_a.last().now);
    assert(b.started_at <= at_b[i] <= reports_b.last().now);
    if lock_a.start_time <= now && lock_a.valid_at(now) {
        lemma_window_ends_early(
            a.ttl,
            a.config.clock_drift_ppm as int,
            a.started_at,
            reports_a.last().now,
            now,
        );
    }
    if lock_b.start_time <= now && lock_b.valid_at(now) {
        lemma_window_ends_early(
            b.ttl,
            b.config.clock_drift_ppm as int,
            b.started_at,
            reports_b.last().now,
            now,
        );
    }
}

} // verus!
