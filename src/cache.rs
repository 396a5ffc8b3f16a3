//! The runtime cache: where a runtime for a version and target lives, and the
//! protocol one process follows to fill it under an exclusive file lock.
use vstd::prelude::*;
use crate::config::{join_path, join_path_str, target_key, Target};
use crate::error::PackError;
use crate::text::{dec_str, push_decimal, push_str};

verus! {

/// How long a process waits for the cache lock, in milliseconds.
pub const LOCK_TIMEOUT_MS: u64 = 600000;

/// Pause between two tries of the cache lock, in milliseconds.
pub const LOCK_POLL_INTERVAL_MS: u64 = 500;

/// Name of the cache entry for a version and target: `{version}-{os}-{arch}`.
pub open spec fn runtime_entry_name(version: u8, target: Target) -> Seq<char> {
    dec_str(version as nat) + "-"@ + target_key(target)
}

/// Directory of the runtime for a version and target inside the cache.
pub fn runtime_cache_path(cache_dir: &str, version: u8, target: &Target) -> (r: String)
    ensures
        r@ == join_path(cache_dir@, runtime_entry_name(version, *target)),
{
    let mut name = String::new();
    push_decimal(&mut name, version as u64);
    push_str(&mut name, "-");
    let key = target.key();
    push_str(&mut name, key.as_str());
    join_path_str(cache_dir, name.as_str())
}

/// The lock file beside a cache entry.
pub fn lock_path(cache_path: &str) -> (r: String)
    ensures
        r@ == cache_path@ + ".lock"@,
{
    let mut r = crate::text::owned(cache_path);
    push_str(&mut r, ".lock");
    r
}

/// A cache entry counts only when its directory exists and holds `bin/java`.
pub fn is_valid_entry(dir_exists: bool, java_exists: bool) -> (r: bool)
    ensures
        r == (dir_exists && java_exists),
{
    dir_exists && java_exists
}

/// The error after waiting for the lock too long.
pub fn lock_timeout_error(version: u8, target: &Target) -> (r: PackError)
    ensures
        r matches PackError::CacheLockTimeout { version: v, target: t } && v == version && t@
            == target_key(*target),
{
    PackError::CacheLockTimeout { version, target: target.key() }
}

/// Where one process stands in filling the cache.
#[derive(Debug, Clone, Copy, PartialEq, Eq, Structural)]
pub enum CacheState {
    Start,
    Waiting { warned: bool },
    Locked,
    Populating,
    Done,
    Failed,
}

/// What the process observed.
#[derive(Debug, Clone, Copy, PartialEq, Eq, Structural)]
pub enum CacheEvent {
    /// The cache entry was checked (without the lock at first, then under it).
    Checked { valid: bool },
    /// The lock was tried.
    LockTried { acquired: bool, elapsed_ms: u64 },
    /// Fetching, verifying and moving the runtime into place finished.
    Populated { ok: bool },
}

/// What the process does next.
#[derive(Debug, Clone, Copy, PartialEq, Eq, Structural)]
pub enum CacheAction {
    /// Use the cache entry as it is.
    UseEntry,
    /// Try the lock.
    TryLock,
    /// Wait a poll interval, warning first when asked, then try the lock again.
    Wait { warn: bool },
    /// Check the entry again, now under the lock.
    Recheck,
    /// Fetch, download, extract into a temporary directory and rename into place.
    Populate,
    /// Release the lock and use the entry.
    ReleaseAndUse,
    /// Release the lock and report the failure.
    ReleaseAndFail,
    /// Report that the lock could not be had in time.
    TimedOut,
    /// An event that cannot happen here; stop.
    Abort,
}

pub open spec fn holds_lock(s: CacheState) -> bool {
    s == CacheState::Locked || s == CacheState::Populating
}

pub open spec fn cache_step(s: CacheState, e: CacheEvent) -> (CacheState, CacheAction) {
    match (s, e) {
        (CacheState::Start, CacheEvent::Checked { valid }) => if valid {
            (CacheState::Done, CacheAction::UseEntry)
        } else {
            (CacheState::Waiting { warned: false }, CacheAction::TryLock)
        },
        (CacheState::Waiting { warned }, CacheEvent::LockTried { acquired, elapsed_ms }) => if acquired {
            (CacheState::Locked, CacheAction::Recheck)
        } else if elapsed_ms >= LOCK_TIMEOUT_MS {
            (CacheState::Failed, CacheAction::TimedOut)
        } else {
            (CacheState::Waiting { warned: true }, CacheAction::Wait { warn: !warned })
        },
        (CacheState::Locked, CacheEvent::Checked { valid }) => if valid {
            (CacheState::Done, CacheAction::ReleaseAndUse)
        } else {
            (CacheState::Populating, CacheAction::Populate)
        },
        (CacheState::Populating, CacheEvent::Populated { ok }) => if ok {
            (CacheState::Done, CacheAction::ReleaseAndUse)
        } else {
            (CacheState::Failed, CacheAction::ReleaseAndFail)
        },
        (CacheState::Done, _) => (CacheState::Done, CacheAction::Abort),
        (CacheState::Failed, _) => (CacheState::Failed, CacheAction::Abort),
        _ => if holds_lock(s) {
            (CacheState::Failed, CacheAction::ReleaseAndFail)
        } else {
            (CacheState::Failed, CacheAction::Abort)
        },
    }
}

/// One step of the cache protocol.
pub fn next_cache_step(s: CacheState, e: CacheEvent) -> (r: (CacheState, CacheAction))
    ensures
        r == cache_step(s, e),
{
    match (s, e) {
        (CacheState::Start, CacheEvent::Checked { valid }) => if valid {
            (CacheState::Done, CacheAction::UseEntry)
        } else {
            (CacheState::Waiting { warned: false }, CacheAction::TryLock)
        },
        (CacheState::Waiting { warned }, CacheEvent::LockTried { acquired, elapsed_ms }) => if acquired {
            (CacheState::Locked, CacheAction::Recheck)
        } else if elapsed_ms >= LOCK_TIMEOUT_MS {
            (CacheState::Failed, CacheAction::TimedOut)
        } else {
            (CacheState::Waiting { warned: true }, CacheAction::Wait { warn: !warned })
        },
        (CacheState::Locked, CacheEvent::Checked { valid }) => if valid {
            (CacheState::Done, CacheAction::ReleaseAndUse)
        } else {
            (CacheState::Populating, CacheAction::Populate)
        },
        (CacheState::Populating, CacheEvent::Populated { ok }) => if ok {
            (CacheState::Done, CacheAction::ReleaseAndUse)
        } else {
            (CacheState::Failed, CacheAction::ReleaseAndFail)
        },
        (CacheState::Done, _) => (CacheState::Done, CacheAction::Abort),
        (CacheState::Failed, _) => (CacheState::Failed, CacheAction::Abort),
        _ => if s == CacheState::Locked || s == CacheState::Populating {
            (CacheState::Failed, CacheAction::ReleaseAndFail)
        } else {
            (CacheState::Failed, CacheAction::Abort)
        },
    }
}

/// Final state and number of `Populate` actions of a run over some events.
pub open spec fn run_from(s: CacheState, events: Seq<CacheEvent>) -> (CacheState, nat)
    decreases events.len(),
{
    if events.len() == 0 {
        (s, 0)
    } else {
        let (s1, a) = cache_step(s, events[0]);
        let (sf, n) = run_from(s1, events.drop_first());
        (sf, n + if a == CacheAction::Populate {
            1nat
        } else {
            0nat
        })
    }
}

/// A process fills the cache only while it holds the lock and only after
/// finding the entry missing under it; once it has started filling, it never
/// takes the lock again.
pub proof fn lemma_populate_under_lock(s: CacheState, e: CacheEvent)
    ensures
        cache_step(s, e).1 == CacheAction::Populate ==> s == CacheState::Locked && e
            == (CacheEvent::Checked { valid: false }) && holds_lock(cache_step(s, e).0),
        (s == CacheState::Populating || s == CacheState::Done || s == CacheState::Failed) ==> (
        cache_step(s, e).0 == CacheState::Populating || cache_step(s, e).0 == CacheState::Done
            || cache_step(s, e).0 == CacheState::Failed),
        cache_step(s, e).0 == CacheState::Locked ==> e matches CacheEvent::LockTried {
            acquired: true,
            ..
        },
{
}

/// In any run, a process fills the cache at most once, and not at all once it
/// has started, finished or failed.
pub proof fn lemma_single_population(s: CacheState, events: Seq<CacheEvent>)
    ensures
        run_from(s, events).1 <= 1,
        (s == CacheState::Populating || s == CacheState::Done || s == CacheState::Failed) ==> run_from(
            s,
            events,
        ).1 == 0,
    decreases events.len(),
{
    if events.len() > 0 {
        let (s1, a) = cache_step(s, events[0]);
        lemma_single_population(s1, events.drop_first());
    }
}

/// Several processes sharing one cache entry and its lock: each process's
/// state, the lock's holder, whether the entry is complete, and how many
/// times it was filled.
pub type CacheSystem = (Seq<CacheState>, Option<int>, bool, nat);

/// What process `p` observes in the shared state.
pub open spec fn observed(sys: CacheSystem, p: int, ok: bool, elapsed_ms: u64) -> CacheEvent {
    match sys.0[p] {
        CacheState::Waiting { .. } => CacheEvent::LockTried { acquired: sys.1 is None, elapsed_ms },
        CacheState::Populating => CacheEvent::Populated { ok },
        _ => CacheEvent::Checked { valid: sys.2 },
    }
}

/// Process `p` takes one step; filling the entry, when `ok`, completes it at
/// once (the runtime is unpacked aside and renamed into place).
pub open spec fn system_step(sys: CacheSystem, p: int, ok: bool, elapsed_ms: u64) -> CacheSystem {
    let (s2, a) = cache_step(sys.0[p], observed(sys, p, ok, elapsed_ms));
    let lock = if a == CacheAction::Recheck {
        Some(p)
    } else if a == CacheAction::ReleaseAndUse || a == CacheAction::ReleaseAndFail {
        None
    } else {
        sys.1
    };
    let filled_now = sys.0[p] == CacheState::Populating && ok;
    (sys.0.update(p, s2), lock, sys.2 || filled_now, sys.3 + if filled_now {
        1nat
    } else {
        0nat
    })
}

pub open spec fn cache_inv(sys: CacheSystem) -> bool {
    &&& forall|q: int| 0 <= q < sys.0.len() && holds_lock(#[trigger] sys.0[q]) ==> sys.1 == Some(q)
    &&& sys.1 matches Some(q) ==> 0 <= q < sys.0.len() && holds_lock(sys.0[q])
    &&& sys.3 >= 1 ==> sys.2
    &&& sys.3 <= 1
    &&& sys.2 ==> forall|q: int| 0 <= q < sys.0.len() ==> #[trigger] sys.0[q] != CacheState::Populating
}

/// Processes that start together on a cold cache.
pub open spec fn cold_start(n: nat) -> CacheSystem {
    (Seq::new(n, |i: int| CacheState::Start), None, false, 0)
}

/// A schedule: which process moves, whether its filling succeeds, and the
/// time it has waited.
pub open spec fn run_schedule(sys: CacheSystem, steps: Seq<(int, bool, u64)>) -> CacheSystem
    decreases steps.len(),
{
    if steps.len() == 0 {
        sys
    } else {
        let (p, ok, t) = steps[0];
        let next = if 0 <= p < sys.0.len() {
            system_step(sys, p, ok, t)
        } else {
            sys
        };
        run_schedule(next, steps.drop_first())
    }
}

/// One step keeps the shared state consistent: only the lock holder fills the
/// entry, it is filled at most once, a process uses the entry only once it
/// is complete, a running process never meets an event it cannot handle, and
/// with a successful fill no process fails other than by waiting too long.
pub proof fn lemma_system_step(sys: CacheSystem, p: int, ok: bool, elapsed_ms: u64)
    requires
        cache_inv(sys),
        0 <= p < sys.0.len(),
    ensures
        cache_inv(system_step(sys, p, ok, elapsed_ms)),
        cache_step(sys.0[p], observed(sys, p, ok, elapsed_ms)).1 == CacheAction::Populate ==> sys.1 == Some(p) && !sys.2,
        (cache_step(sys.0[p], observed(sys, p, ok, elapsed_ms)).1 == CacheAction::UseEntry
            || cache_step(sys.0[p], observed(sys, p, ok, elapsed_ms)).1 == CacheAction::ReleaseAndUse)
            ==> system_step(sys, p, ok, elapsed_ms).2,
        sys.0[p] != CacheState::Done && sys.0[p] != CacheState::Failed ==> cache_step(
            sys.0[p],
            observed(sys, p, ok, elapsed_ms),
        ).1 != CacheAction::Abort,
        ok && cache_step(sys.0[p], observed(sys, p, ok, elapsed_ms)).1 == CacheAction::ReleaseAndFail ==> false,
{
    let n = system_step(sys, p, ok, elapsed_ms);
    assert forall|q: int| 0 <= q < n.0.len() && holds_lock(#[trigger] n.0[q]) implies n.1 == Some(q) by {
        if q != p {
            assert(n.0[q] == sys.0[q]);
        }
    }
    assert forall|q: int| 0 <= q < n.0.len() && n.2 implies #[trigger] n.0[q] != CacheState::Populating by {
        if q != p {
            assert(n.0[q] == sys.0[q]);
            if !sys.2 && sys.0[q] == CacheState::Populating {
                assert(sys.1 == Some(q));
            }
        }
    }
}

/// However the processes interleave on a cold cache, the entry is filled at
/// most once, always by the lock holder after finding it missing, and a
/// process that uses it finds it complete.
pub proof fn lemma_single_fill(n: nat, steps: Seq<(int, bool, u64)>)
    ensures
        cache_inv(run_schedule(cold_start(n), steps)),
        run_schedule(cold_start(n), steps).3 <= 1,
{
    lemma_schedule_inv(cold_start(n), steps);
}

proof fn lemma_schedule_inv(sys: CacheSystem, steps: Seq<(int, bool, u64)>)
    requires
        cache_inv(sys) || sys == cold_start(sys.0.len()),
    ensures
        cache_inv(run_schedule(sys, steps)),
    decreases steps.len(),
{
    if sys == cold_start(sys.0.len()) {
        assert(cache_inv(sys));
    }
    if steps.len() > 0 {
        let (p, ok, t) = steps[0];
        if 0 <= p < sys.0.len() {
            lemma_system_step(sys, p, ok, t);
            lemma_schedule_inv(system_step(sys, p, ok, t), steps.drop_first());
        } else {
            lemma_schedule_inv(sys, steps.drop_first());
        }
    }
}

} // verus!
