//! Locking and unlocking as sequences of steps. The library names the next
//! action; whoever holds the connections performs it and reports the event.

use crate::quorum::{count_granted, count_set};
use crate::redlock::{Lock, LockView, Redlock, RedlockView};
use crate::types::{AcquireOutcome, Error, RedlockResult, ReleaseOutcome};
use crate::window::{node_timeout, node_timeout_of, window, window_of};
use vstd::prelude::*;

verus! {

/// What is to be done next for an operation.
#[derive(PartialEq, Eq, Copy, Clone, Debug, Structural)]
pub enum Action {
    /// Ask node `node` to bind the resource to the key for the time to live,
    /// if it holds no binding for the resource.
    TryAcquire { node: usize },
    /// Ask node `node` to delete the binding of the resource if it is to the key.
    Release { node: usize },
    /// Wait for `millis` milliseconds.
    Sleep { millis: u64 },
}

/// What came of an action.
#[derive(PartialEq, Eq, Copy, Clone, Debug, Structural)]
pub enum Event {
    /// The answer of the node that was asked to bind.
    Acquire(AcquireOutcome),
    /// The answer of the node that was asked to delete.
    Release(ReleaseOutcome),
    /// The wait is over.
    Slept,
}

/// Where a locking attempt stands within its round.
#[derive(PartialEq, Eq, Copy, Clone, Debug, Structural)]
pub enum Phase {
    /// The nodes are being asked to bind, one after the other.
    Acquiring,
    /// The round failed; the nodes are being asked to delete, one after the other.
    Cleaning,
    /// The round failed and the nodes were cleaned; the wait stands out.
    Sleeping,
}

/// A locking attempt under way.
#[derive(Debug)]
pub struct Attempt {
    config: Redlock,
    resource: String,
    key: String,
    ttl: i32,
    /// The number of rounds that have failed.
    pass: i32,
    phase: Phase,
    /// While cleaning: the node to be asked next.
    cursor: usize,
    /// One flag for each node that has answered in this round: whether it granted.
    granted: Vec<bool>,
    /// The clock reading, in milliseconds, at which this round began.
    started_at: u64,
}

/// An [`Attempt`] as a mathematical value.
pub struct AttemptView {
    /// The manager that began the attempt.
    pub config: RedlockView,
    /// The name of the resource to be locked.
    pub resource: Seq<char>,
    /// The key to which the nodes are asked to bind the resource.
    pub key: Seq<char>,
    /// The time to live, in milliseconds, that the nodes are asked for.
    pub ttl: int,
    /// The number of rounds that have failed.
    pub pass: int,
    /// Where the attempt stands within its round.
    pub phase: Phase,
    /// While cleaning: the node to be asked next.
    pub cursor: nat,
    /// One flag for each node that has answered in this round: whether it
    /// granted.
    pub granted: Seq<bool>,
    /// The clock reading, in milliseconds, at which this round began.
    pub started_at: int,
}

/// How a locking attempt goes on: with another action, or not at all.
#[derive(Debug)]
pub enum LockStep {
    /// The attempt waits for the event of its next action.
    Pending(Attempt),
    /// The attempt is over: the lock is held, or could not be obtained.
    Done(RedlockResult<Lock>),
}

/// A [`LockStep`] as a mathematical value.
pub enum LockStepView {
    Pending(AttemptView),
    Done(Result<LockView, Error>),
}

impl View for LockStep {
    type V = LockStepView;

    open spec fn view(&self) -> LockStepView {
        match *self {
            LockStep::Pending(attempt) => LockStepView::Pending(attempt@),
            LockStep::Done(Ok(lock)) => LockStepView::Done(Ok(lock@)),
            LockStep::Done(Err(error)) => LockStepView::Done(Err(error)),
        }
    }
}

impl AttemptView {
    /// The attempt belongs to a well-formed manager and has a round left, and
    /// within its round fewer nodes have answered than there are.
    pub open spec fn wf(self) -> bool {
        &&& self.config.wf()
        &&& 0 < self.ttl
        &&& self.resource.len() > 0
        &&& 0 <= self.pass < self.config.retry_count
        &&& match self.phase {
            Phase::Acquiring => self.granted.len() < self.config.servers && self.cursor == 0,
            Phase::Cleaning => self.granted.len() == self.config.servers && self.cursor
                < self.config.servers,
            Phase::Sleeping => self.granted.len() == self.config.servers && self.cursor == 0,
        }
    }

    /// How locking begins.
    pub open spec fn begin(
        config: RedlockView,
        resource: Seq<char>,
        ttl: int,
        key: Seq<char>,
        now: int,
    ) -> LockStepView {
        if ttl <= 0 || resource.len() == 0 {
            LockStepView::Done(Err(Error::InvalidArgument))
        } else if config.retry_count <= 0 {
            LockStepView::Done(Err(Error::CannotObtain))
        } else {
            LockStepView::Pending(
                AttemptView {
                    config: config,
                    resource: resource,
                    key: key,
                    ttl: ttl,
                    pass: 0,
                    phase: Phase::Acquiring,
                    cursor: 0,
                    granted: Seq::empty(),
                    started_at: now,
                },
            )
        }
    }

    /// The action whose event the attempt waits for.
    pub open spec fn action(self) -> Action {
        match self.phase {
            Phase::Acquiring => Action::TryAcquire { node: self.granted.len() as usize },
            Phase::Cleaning => Action::Release { node: self.cursor as usize },
            Phase::Sleeping => Action::Sleep { millis: self.config.retry_delay as u64 },
        }
    }

    /// The validity of the lock if the round ends at the clock reading `now`
    /// with the flags `granted`: there is one where a quorum granted and the
    /// window is positive.
    pub open spec fn verdict(self, granted: Seq<bool>, now: int) -> Option<int> {
        if count_set(granted) >= self.config.quorum {
            window_of(self.ttl, self.config.clock_drift_ppm as int, self.started_at, now)
        } else {
            None
        }
    }

    /// How the attempt goes on after `event`, the clock reading `now`.
    pub open spec fn step_at(self, event: Event, now: int) -> LockStepView {
        match (self.phase, event) {
            (Phase::Acquiring, Event::Acquire(outcome)) => {
                let granted = self.granted.push(outcome == AcquireOutcome::Acquired);
                if granted.len() < self.config.servers {
                    LockStepView::Pending(AttemptView { granted: granted, ..self })
                } else {
                    match self.verdict(granted, now) {
                        Some(validity) => LockStepView::Done(
                            Ok(
                                LockView {
                                    validity: validity,
                                    resource: self.resource,
                                    key: self.key,
                                    start_time: now,
                                },
                            ),
                        ),
                        None => LockStepView::Pending(
                            AttemptView { phase: Phase::Cleaning, granted: granted, ..self },
                        ),
                    }
                }
            },
            (Phase::Cleaning, Event::Release(_)) => {
                if self.cursor + 1 < self.config.servers {
                    LockStepView::Pending(AttemptView { cursor: self.cursor + 1, ..self })
                } else {
                    LockStepView::Pending(AttemptView { phase: Phase::Sleeping, cursor: 0, ..self })
                }
            },
            (Phase::Sleeping, Event::Slept) => {
                if self.pass + 1 < self.config.retry_count {
                    LockStepView::Pending(
                        AttemptView {
                            phase: Phase::Acquiring,
                            pass: self.pass + 1,
                            granted: Seq::empty(),
                            started_at: now,
                            ..self
                        },
                    )
                } else {
                    LockStepView::Done(Err(Error::CannotObtain))
                }
            },
            _ => LockStepView::Pending(self),
        }
    }
}

impl View for Attempt {
    type V = AttemptView;

    closed spec fn view(&self) -> AttemptView {
        AttemptView {
            config: self.config@,
            resource: self.resource@,
            key: self.key@,
            ttl: self.ttl as int,
            pass: self.pass as int,
            phase: self.phase,
            cursor: self.cursor as nat,
            granted: self.granted@,
            started_at: self.started_at as int,
        }
    }
}

impl Attempt {
    /// Every attempt is well-formed.
    #[verifier::type_invariant]
    pub open spec fn inv(self) -> bool {
        self@.wf()
    }

    /// Begins an attempt: see [`AttemptView::begin`].
    pub(crate) fn begin(config: Redlock, resource: String, key: String, ttl: i32, now: u64) -> (step:
        LockStep)
        ensures
            step@ == AttemptView::begin(config@, resource@, ttl as int, key@, now as int),
            step@ matches LockStepView::Pending(attempt) ==> attempt.wf(),
    {
        if ttl <= 0 || resource.as_str().is_empty() {
            return LockStep::Done(Err(Error::InvalidArgument));
        }
        if config.retry_count() <= 0 {
            return LockStep::Done(Err(Error::CannotObtain));
        }
        proof {
            use_type_invariant(&config);
        }
        LockStep::Pending(
            Attempt {
                config: config,
                resource: resource,
                key: key,
                ttl: ttl,
                pass: 0,
                phase: Phase::Acquiring,
                cursor: 0,
                granted: Vec::new(),
                started_at: now,
            },
        )
    }

    /// The action whose event the attempt waits for.
    pub fn action(&self) -> (action: Action)
        ensures
            action == self@.action(),
            self@.wf(),
    {
        proof {
            use_type_invariant(self);
        }
        match self.phase {
            Phase::Acquiring => Action::TryAcquire { node: self.granted.len() },
            Phase::Cleaning => Action::Release { node: self.cursor },
            Phase::Sleeping => Action::Sleep { millis: self.config.retry_delay() },
        }
    }

    /// The attempt after `event`, the clock reading `now` milliseconds. An
    /// event that does not answer the action of the attempt changes nothing.
    pub fn step_at(self, event: Event, now: u64) -> (next: LockStep)
        ensures
            next@ == self@.step_at(event, now as int),
            next@ matches LockStepView::Pending(attempt) ==> attempt.wf(),
    {
        proof {
            use_type_invariant(&self);
        }
        let Attempt {
            config,
            resource,
            key,
            ttl,
            mut pass,
            mut phase,
            mut cursor,
            mut granted,
            mut started_at,
        } = self;
        let servers: usize = config.servers();
        match (phase, event) {
            (Phase::Acquiring, Event::Acquire(outcome)) => {
                granted.push(
                    match outcome {
                        AcquireOutcome::Acquired => true,
                        _ => false,
                    },
                );
                if granted.len() >= servers {
                    let enough: bool = count_granted(&granted) >= config.quorum();
                    match window(ttl, config.clock_drift_ppm(), started_at, now) {
                        Some(validity) if enough => {
                            return LockStep::Done(Ok(Lock::new(validity, resource, key, now)));
                        },
                        _ => {
                            phase = Phase::Cleaning;
                        },
                    }
                }
            },
            (Phase::Cleaning, Event::Release(_)) => {
                if cursor + 1 < servers {
                    cursor = cursor + 1;
                } else {
                    phase = Phase::Sleeping;
                    cursor = 0;
                }
            },
            (Phase::Sleeping, Event::Slept) => {
                let rounds: i32 = config.retry_count();
                if pass + 1 < rounds {
                    pass = pass + 1;
                    phase = Phase::Acquiring;
                    granted = Vec::new();
                    started_at = now;
                } else {
                    return LockStep::Done(Err(Error::CannotObtain));
                }
            },
            _ => {},
        }
        LockStep::Pending(
            Attempt { config, resource, key, ttl, pass, phase, cursor, granted, started_at },
        )
    }

    /// The attempt after `event`, by the clock of this machine: what
    /// [`Attempt::step_at`] gives for the reading that the clock gave.
    pub fn step(self, event: Event) -> (next: LockStep)
        ensures
            exists|now: int| 0 <= now <= u64::MAX && next@ == #[trigger] self@.step_at(event, now),
            next@ matches LockStepView::Pending(attempt) ==> attempt.wf(),
    {
        let now: u64 = crate::sys::now_ms();
        let ghost before = self@;
        let next = self.step_at(event, now);
        assert(next@ == before.step_at(event, now as int));
        next
    }

    /// The name of the resource that is being locked.
    pub fn resource(&self) -> (name: &String)
        ensures
            name@ == self@.resource,
    {
        &self.resource
    }

    /// The key under which the resource is being locked.
    pub fn key(&self) -> (key: &String)
        ensures
            key@ == self@.key,
    {
        &self.key
    }

    /// The time to live, in milliseconds, that the nodes are asked for.
    pub fn ttl(&self) -> (ttl: i32)
        ensures
            ttl == self@.ttl,
    {
        self.ttl
    }

    /// The time, in milliseconds, that a node is to be given to answer.
    pub fn node_timeout(&self) -> (millis: u64)
        ensures
            millis == node_timeout_of(self@.ttl),
    {
        node_timeout(self.ttl)
    }

    /// Gives the attempt up. Nodes may have bound the resource to the key
    /// already, so a release of that key is begun: every node is asked to
    /// delete.
    pub fn cancel(self) -> (unlocking: Unlocking)
        ensures
            unlocking@ == UnlockingView::begin(
                self@.config.servers,
                self@.resource,
                self@.key,
            ),
            unlocking@.wf(),
    {
        proof {
            use_type_invariant(&self);
        }
        let Attempt { config, resource, key, .. } = self;
        Unlocking::begin(config.servers(), resource, key)
    }
}

/// The release of a lock under way.
#[derive(Debug)]
pub struct Unlocking {
    servers: usize,
    resource: String,
    key: String,
    /// The answers of the nodes asked so far, in their order.
    seen: Vec<ReleaseOutcome>,
}

/// An [`Unlocking`] as a mathematical value.
pub struct UnlockingView {
    /// The number of nodes.
    pub servers: nat,
    /// The name of the resource to be released.
    pub resource: Seq<char>,
    /// The key whose binding the nodes are asked to delete.
    pub key: Seq<char>,
    /// The answers of the nodes asked so far, in their order.
    pub seen: Seq<ReleaseOutcome>,
}

/// How a release goes on: with another action, or not at all.
#[derive(Debug)]
pub enum UnlockStep {
    /// The release waits for the answer of the next node.
    Pending(Unlocking),
    /// Every node was asked.
    Done(RedlockResult<()>),
}

/// An [`UnlockStep`] as a mathematical value.
pub enum UnlockStepView {
    Pending(UnlockingView),
    Done(Result<(), Error>),
}

impl View for UnlockStep {
    type V = UnlockStepView;

    open spec fn view(&self) -> UnlockStepView {
        match *self {
            UnlockStep::Pending(unlocking) => UnlockStepView::Pending(unlocking@),
            UnlockStep::Done(result) => UnlockStepView::Done(result),
        }
    }
}

/// What a release comes to, given the answers of all the nodes: it is
/// complete unless the answer of some node could not be had.
pub open spec fn release_result(outcomes: Seq<ReleaseOutcome>) -> Result<(), Error> {
    if exists|i: int| 0 <= i < outcomes.len() && #[trigger] outcomes[i]
        == ReleaseOutcome::TransportError {
        Err(Error::ReleaseIncomplete)
    } else {
        Ok(())
    }
}

impl UnlockingView {
    /// Fewer nodes have answered than there are.
    pub open spec fn wf(self) -> bool {
        self.seen.len() < self.servers <= usize::MAX
    }

    /// How a release begins.
    pub open spec fn begin(servers: nat, resource: Seq<char>, key: Seq<char>) -> UnlockingView {
        UnlockingView { servers: servers, resource: resource, key: key, seen: Seq::empty() }
    }

    /// The action whose event the release waits for.
    pub open spec fn action(self) -> Action {
        Action::Release { node: self.seen.len() as usize }
    }

    /// How the release goes on after `event`.
    pub open spec fn step(self, event: Event) -> UnlockStepView {
        match event {
            Event::Release(outcome) => {
                let seen = self.seen.push(outcome);
                if seen.len() < self.servers {
                    UnlockStepView::Pending(UnlockingView { seen: seen, ..self })
                } else {
                    UnlockStepView::Done(release_result(seen))
                }
            },
            _ => UnlockStepView::Pending(self),
        }
    }
}

impl View for Unlocking {
    type V = UnlockingView;

    closed spec fn view(&self) -> UnlockingView {
        UnlockingView {
            servers: self.servers as nat,
            resource: self.resource@,
            key: self.key@,
            seen: self.seen@,
        }
    }
}

/// Whether no answer among `outcomes` is a transport error.
pub fn all_confirmed(outcomes: &Vec<ReleaseOutcome>) -> (confirmed: bool)
    ensures
        confirmed <==> release_result(outcomes@) is Ok,
{
    let mut i: usize = 0;
    while i < outcomes.len()
        invariant
            i <= outcomes.len(),
            forall|j: int| 0 <= j < i ==> outcomes@[j] != ReleaseOutcome::TransportError,
        decreases outcomes.len() - i,
    {
        match outcomes[i] {
            ReleaseOutcome::TransportError => {
                return false;
            },
            _ => {},
        }
        i = i + 1;
    }
    true
}

impl Unlocking {
    /// Every release is well-formed.
    #[verifier::type_invariant]
    pub open spec fn inv(self) -> bool {
        self@.wf()
    }

    /// Begins a release: see [`UnlockingView::begin`].
    pub(crate) fn begin(servers: usize, resource: String, key: String) -> (unlocking: Unlocking)
        requires
            servers >= 1,
        ensures
            unlocking@ == UnlockingView::begin(servers as nat, resource@, key@),
            unlocking@.wf(),
    {
        Unlocking { servers: servers, resource: resource, key: key, seen: Vec::new() }
    }

    /// The action whose event the release waits for.
    pub fn action(&self) -> (action: Action)
        ensures
            action == self@.action(),
            self@.wf(),
    {
        proof {
            use_type_invariant(self);
        }
        Action::Release { node: self.seen.len() }
    }

    /// The release after `event`. An event that is not the answer of a node
    /// asked to delete changes nothing.
    pub fn step(self, event: Event) -> (next: UnlockStep)
        ensures
            next@ == self@.step(event),
            next@ matches UnlockStepView::Pending(unlocking) ==> unlocking.wf(),
    {
        proof {
            use_type_invariant(&self);
        }
        let Unlocking { servers, resource, key, seen } = self;
        match event {
            Event::Release(outcome) => {
                let mut seen = seen;
                seen.push(outcome);
                if seen.len() < servers {
                    UnlockStep::Pending(Unlocking { servers, resource, key, seen })
                } else if all_confirmed(&seen) {
                    UnlockStep::Done(Ok(()))
                } else {
                    UnlockStep::Done(Err(Error::ReleaseIncomplete))
                }
            },
            _ => UnlockStep::Pending(Unlocking { servers, resource, key, seen }),
        }
    }

    /// The name of the resource that is being released.
    pub fn resource(&self) -> (name: &String)
        ensures
            name@ == self@.resource,
    {
        &self.resource
    }

    /// The key whose binding is being deleted.
    pub fn key(&self) -> (key: &String)
        ensures
            key@ == self@.key,
    {
        &self.key
    }
}

} // verus!
