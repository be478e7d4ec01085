//! The lock manager and the handle of a held lock.

use crate::engine::{Attempt, AttemptView, LockStep, LockStepView, Unlocking, UnlockingView};
use crate::quorum::{count_granted, count_set, quorum, quorum_of};
use crate::sys::{is_key, now_ms, random_key};
use crate::types::{AcquireOutcome, Error, RedlockResult, ReleaseOutcome, Reply};
use vstd::prelude::*;

verus! {

/// The number of characters of a key.
pub const KEY_LEN: usize = 22;

/// The number of rounds that a manager tries unless told otherwise.
pub const DEFAULT_RETRY_COUNT: i32 = 3;

/// The milliseconds that a manager waits after a failed round unless told
/// otherwise.
pub const DEFAULT_RETRY_DELAY: u64 = 200;

/// The clock drift factor of a manager unless told otherwise, in parts per
/// million: one hundredth.
pub const DEFAULT_CLOCK_DRIFT_PPM: u32 = 10_000;

/// The script that a node runs to delete the binding of a resource only if it
/// is to the given key: the comparison and the deletion are one step there.
pub const UNLOCK_SCRIPT: &'static str =
    "if redis.call('get',KEYS[1]) == ARGV[1] then return redis.call('del',KEYS[1]) else return 0 end";

/// The lock manager: how many nodes there are and how it goes about them.
#[derive(Clone, Copy, Debug, PartialEq, Eq)]
pub struct Redlock {
    /// The number of nodes, usable or not when the manager was built.
    servers: usize,
    /// The number of rounds tried before giving up.
    retry_count: i32,
    /// Milliseconds waited after each failed round.
    retry_delay: u64,
    /// The number of nodes that must grant for a lock to be held.
    quorum: usize,
    /// The clock drift factor in parts per million.
    clock_drift_ppm: u32,
}

/// A [`Redlock`] as a mathematical value.
pub struct RedlockView {
    /// The number of nodes.
    pub servers: nat,
    /// The number of rounds tried before giving up.
    pub retry_count: int,
    /// Milliseconds waited after each failed round.
    pub retry_delay: nat,
    /// The number of nodes that must grant for a lock to be held.
    pub quorum: nat,
    /// The clock drift factor in parts per million.
    pub clock_drift_ppm: nat,
}

impl RedlockView {
    /// There is at least one node, and the quorum is the majority of the
    /// nodes. The number of nodes and the delay fit the machine.
    pub open spec fn wf(self) -> bool {
        &&& 1 <= self.servers <= usize::MAX
        &&& self.quorum == quorum_of(self.servers)
        &&& self.retry_delay <= u64::MAX
    }

    /// The manager for `servers` nodes with the given number of rounds and
    /// delay, or the defaults for them, and the default clock drift factor.
    pub open spec fn made_of(
        servers: nat,
        retry_count: Option<i32>,
        retry_delay: Option<u64>,
    ) -> RedlockView {
        RedlockView {
            servers: servers,
            retry_count: match retry_count {
                Some(count) => count as int,
                None => DEFAULT_RETRY_COUNT as int,
            },
            retry_delay: match retry_delay {
                Some(delay) => delay as nat,
                None => DEFAULT_RETRY_DELAY as nat,
            },
            quorum: quorum_of(servers),
            clock_drift_ppm: DEFAULT_CLOCK_DRIFT_PPM as nat,
        }
    }
}

impl View for Redlock {
    type V = RedlockView;

    closed spec fn view(&self) -> RedlockView {
        RedlockView {
            servers: self.servers as nat,
            retry_count: self.retry_count as int,
            retry_delay: self.retry_delay as nat,
            quorum: self.quorum as nat,
            clock_drift_ppm: self.clock_drift_ppm as nat,
        }
    }
}

impl Redlock {
    /// Every manager is well-formed.
    #[verifier::type_invariant]
    pub open spec fn inv(self) -> bool {
        self@.wf()
    }

    /// The manager for the nodes of which `usable` says, one flag per node,
    /// whether a connection to it could be made. It is made where a quorum of
    /// the nodes is usable. `retry_count` is the number of rounds tried,
    /// `retry_delay` the milliseconds waited after a failed round.
    pub fn dlm(usable: Vec<bool>, retry_count: Option<i32>, retry_delay: Option<u64>) -> (made:
        RedlockResult<Redlock>)
        ensures
            made is Ok <==> count_set(usable@) >= quorum_of(usable@.len()),
            made matches Ok(manager) ==> manager@ == RedlockView::made_of(
                usable@.len(),
                retry_count,
                retry_delay,
            ) && manager@.wf(),
            made matches Err(error) ==> error == Error::NotEnoughMasters,
    {
        let servers: usize = usable.len();
        let needed: usize = quorum(servers);
        if count_granted(&usable) < needed {
            return Err(Error::NotEnoughMasters);
        }
        proof {
            crate::quorum::lemma_count_set_bound(usable@);
        }
        let rc: i32 = match retry_count {
            Some(x) => x,
            None => DEFAULT_RETRY_COUNT,
        };
        let rd: u64 = match retry_delay {
            Some(x) => x,
            None => DEFAULT_RETRY_DELAY,
        };
        Ok(
            Redlock {
                servers: servers,
                retry_count: rc,
                retry_delay: rd,
                quorum: needed,
                clock_drift_ppm: DEFAULT_CLOCK_DRIFT_PPM,
            },
        )
    }

    /// The same manager with the clock drift factor `ppm`, in parts per million.
    pub fn with_clock_drift_ppm(self, ppm: u32) -> (manager: Redlock)
        ensures
            manager@ == (RedlockView { clock_drift_ppm: ppm as nat, ..self@ }),
    {
        proof {
            use_type_invariant(&self);
        }
        Redlock {
            servers: self.servers,
            retry_count: self.retry_count,
            retry_delay: self.retry_delay,
            quorum: self.quorum,
            clock_drift_ppm: ppm,
        }
    }

    /// A fresh key: `KEY_LEN` random characters from `A-Z`, `a-z`, `0-9`.
    pub fn get_unique_id(&self) -> (id: String)
        ensures
            is_key(id@, KEY_LEN as nat),
    {
        random_key(KEY_LEN)
    }

    /// Begins to lock `res_name` for `ttl` milliseconds under the key `key`,
    /// the clock reading `now` milliseconds. Nothing is begun where `ttl` is
    /// not positive or the name is empty, or where the manager tries no round
    /// at all; else the first round begins at the first node.
    pub fn lock_at(&self, res_name: String, ttl: i32, key: String, now: u64) -> (step: LockStep)
        ensures
            step@ == AttemptView::begin(self@, res_name@, ttl as int, key@, now as int),
            step@ matches LockStepView::Pending(attempt) ==> attempt.wf(),
    {
        Attempt::begin(*self, res_name, key, ttl, now)
    }

    /// Begins to lock `res_name` for `ttl` milliseconds, under a fresh key
    /// and by the clock of this machine: what [`Redlock::lock_at`] gives for
    /// that key and that reading.
    pub fn lock(&self, res_name: String, ttl: i32) -> (step: LockStep)
        ensures
            exists|key: Seq<char>, now: int|
                is_key(key, KEY_LEN as nat) && 0 <= now <= u64::MAX && step@
                    == #[trigger] AttemptView::begin(self@, res_name@, ttl as int, key, now),
            step@ matches LockStepView::Pending(attempt) ==> attempt.wf(),
    {
        let key = self.get_unique_id();
        let now: u64 = now_ms();
        let step = self.lock_at(res_name, ttl, key, now);
        assert(step@ == AttemptView::begin(self@, res_name@, ttl as int, key@, now as int));
        step
    }

    /// Begins to release `lock`: every node is asked in turn to delete the
    /// binding of the resource to the key, beginning with the first.
    pub fn unlock(&self, lock: Lock) -> (unlocking: Unlocking)
        ensures
            unlocking@ == UnlockingView::begin(self@.servers, lock@.resource, lock@.key),
            unlocking@.wf(),
    {
        proof {
            use_type_invariant(self);
        }
        Unlocking::begin(self.servers, lock.resource, lock.key)
    }

    /// The number of nodes.
    pub fn servers(&self) -> (n: usize)
        ensures
            n == self@.servers,
    {
        self.servers
    }

    /// The number of nodes that must grant for a lock to be held.
    pub fn quorum(&self) -> (n: usize)
        ensures
            n == self@.quorum,
    {
        self.quorum
    }

    /// The number of rounds tried before giving up.
    pub fn retry_count(&self) -> (n: i32)
        ensures
            n == self@.retry_count,
    {
        self.retry_count
    }

    /// Milliseconds waited after each failed round.
    pub fn retry_delay(&self) -> (n: u64)
        ensures
            n == self@.retry_delay,
    {
        self.retry_delay
    }

    /// The clock drift factor in parts per million.
    pub fn clock_drift_ppm(&self) -> (n: u32)
        ensures
            n == self@.clock_drift_ppm,
    {
        self.clock_drift_ppm
    }
}

/// The handle of a lock that was acquired.
#[derive(Debug, PartialEq, Eq)]
pub struct Lock {
    /// Milliseconds for which the lock may be taken as held, from `start_time` on.
    validity: i32,
    /// The name of the locked resource.
    resource: String,
    /// The random value that the nodes store for the resource.
    key: String,
    /// The reading of the clock, in milliseconds, at which `validity` begins.
    start_time: u64,
}

/// A [`Lock`] as a mathematical value.
pub struct LockView {
    /// Milliseconds for which the lock may be taken as held, from
    /// `start_time` on.
    pub validity: int,
    /// The name of the locked resource.
    pub resource: Seq<char>,
    /// The key that the nodes store for the resource.
    pub key: Seq<char>,
    /// The clock reading, in milliseconds, at which `validity` begins.
    pub start_time: int,
}

impl LockView {
    /// Whether the handle still stands at the clock reading `now`.
    pub open spec fn valid_at(self, now: int) -> bool {
        now - self.start_time < self.validity
    }
}

impl View for Lock {
    type V = LockView;

    closed spec fn view(&self) -> LockView {
        LockView {
            validity: self.validity as int,
            resource: self.resource@,
            key: self.key@,
            start_time: self.start_time as int,
        }
    }
}

impl Lock {
    /// A handle with the given validity, resource name, key and start.
    pub fn new(validity: i32, res: String, key: String, start_time: u64) -> (lock: Lock)
        ensures
            lock@ == (LockView {
                validity: validity as int,
                resource: res@,
                key: key@,
                start_time: start_time as int,
            }),
    {
        Lock { validity: validity, resource: res, key: key, start_time: start_time }
    }

    /// Milliseconds for which the lock may be taken as held, from the start on.
    pub fn validity(&self) -> (validity: i32)
        ensures
            validity == self@.validity,
    {
        self.validity
    }

    /// The name of the locked resource.
    pub fn resource(&self) -> (name: &String)
        ensures
            name@ == self@.resource,
    {
        &self.resource
    }

    /// The key that the nodes store for the resource.
    pub fn key(&self) -> (key: &String)
        ensures
            key@ == self@.key,
    {
        &self.key
    }

    /// The clock reading, in milliseconds, at which the validity begins.
    pub fn start_time(&self) -> (start: u64)
        ensures
            start == self@.start_time,
    {
        self.start_time
    }

    /// Whether the handle still stands when the clock reads `now`
    /// milliseconds: less than `validity` has passed since `start_time`.
    pub fn still_valid_at(&self, now: u64) -> (valid: bool)
        ensures
            valid == self@.valid_at(now as int),
    {
        (now as i128) - (self.start_time as i128) < (self.validity as i128)
    }

    /// Whether the handle still stands by the clock of this machine: the
    /// answer of [`Lock::still_valid_at`] for the reading that the clock gave.
    pub fn still_valid(&self) -> (valid: bool)
        ensures
            exists|now: u64| valid == #[trigger] self@.valid_at(now as int),
    {
        let now: u64 = now_ms();
        self.still_valid_at(now)
    }
}

/// Reads the reply of one node to the conditional set with expiry: `OK` says
/// that the node made the binding, nil that it holds one already, and
/// anything else counts as a transport error.
pub fn lock_instance(reply: Reply) -> (outcome: AcquireOutcome)
    ensures
        outcome == AcquireOutcome::Acquired <==> reply == Reply::Okay,
        outcome == AcquireOutcome::AlreadyHeld <==> reply == Reply::Nil,
{
    match reply {
        Reply::Okay => AcquireOutcome::Acquired,
        Reply::Nil => AcquireOutcome::AlreadyHeld,
        _ => AcquireOutcome::TransportError,
    }
}

/// Reads the reply of one node to the compare-and-delete: the number of
/// bindings that the node deleted. One says that it held the binding to the
/// key, none that it did not, and anything else counts as a transport error.
pub fn unlock_instance(reply: Reply) -> (outcome: ReleaseOutcome)
    ensures
        outcome == ReleaseOutcome::Released <==> reply == Reply::Int(1),
        outcome == ReleaseOutcome::NotOwned <==> reply == Reply::Int(0),
{
    match reply {
        Reply::Int(1) => ReleaseOutcome::Released,
        Reply::Int(0) => ReleaseOutcome::NotOwned,
        _ => ReleaseOutcome::TransportError,
    }
}

} // verus!
