use crate::errors::GuardError;
use vstd::pervasive::VecAdditionalExecFns;
use vstd::prelude::*;

verus! {

/// Most calls admitted per operation name inside one sliding window.
pub const MAX_CALLS_PER_SECOND: usize = 10;

/// Length of the sliding window, in milliseconds.
pub const RATE_LIMIT_WINDOW_MS: u64 = 1000;

/// True when a stamp recorded at `t` still counts against the budget at `now`:
/// strictly younger than one window. A stamp exactly one window old is purged;
/// a stamp from the future (a non-monotonic clock) is kept, as a saturating
/// age of zero would be.
pub open spec fn in_window(t: u64, now: u64) -> bool {
    t > now || now - t < RATE_LIMIT_WINDOW_MS
}

/// The stamps of `log` that still count at `now`, in their original order.
pub open spec fn live_stamps(log: Seq<u64>, now: u64) -> Seq<u64>
    decreases log.len(),
{
    if log.len() == 0 {
        Seq::empty()
    } else {
        let rest = live_stamps(log.drop_last(), now);
        if in_window(log.last(), now) {
            rest.push(log.last())
        } else {
            rest
        }
    }
}

/// Whether a call at `now` is admitted against the stamps recorded so far.
pub open spec fn admits(log: Seq<u64>, now: u64) -> bool {
    live_stamps(log, now).len() < MAX_CALLS_PER_SECOND
}

/// One check at `now`: stale stamps are purged either way, and the call's own
/// stamp is recorded iff it was admitted.
pub open spec fn step(log: Seq<u64>, now: u64) -> Seq<u64> {
    if admits(log, now) {
        live_stamps(log, now).push(now)
    } else {
        live_stamps(log, now)
    }
}

/// The log that remains after issuing the calls of `times` in order, each
/// described by [`step`], against a starting `log`.
pub open spec fn run(log: Seq<u64>, times: Seq<u64>) -> Seq<u64>
    decreases times.len(),
{
    if times.len() == 0 {
        log
    } else {
        run(step(log, times[0]), times.drop_first())
    }
}

proof fn lemma_run_snoc(log: Seq<u64>, times: Seq<u64>, t: u64)
    ensures
        run(log, times.push(t)) == step(run(log, times), t),
    decreases times.len(),
{
    if times.len() == 0 {
        assert(times.push(t)[0] == t);
        assert(times.push(t).drop_first() =~= Seq::<u64>::empty());
        assert(run(step(log, t), Seq::<u64>::empty()) == step(log, t));
    } else {
        assert(times.push(t)[0] == times[0]);
        assert(times.push(t).drop_first() =~= times.drop_first().push(t));
        lemma_run_snoc(step(log, times[0]), times.drop_first(), t);
    }
}

/// Stamps that are all inside the window survive a purge unchanged.
proof fn lemma_live_stamps_all(log: Seq<u64>, now: u64)
    requires
        forall|i: int| 0 <= i < log.len() ==> in_window(#[trigger] log[i], now),
    ensures
        live_stamps(log, now) == log,
    decreases log.len(),
{
    if log.len() > 0 {
        assert(forall|i: int|
            0 <= i < log.len() - 1 ==> in_window(#[trigger] log.drop_last()[i], now));
        lemma_live_stamps_all(log.drop_last(), now);
        assert(live_stamps(log, now) =~= log);
    }
}

/// Within one window a fresh operation name admits exactly the ceiling: of
/// `MAX_CALLS_PER_SECOND + 1` calls issued in nondecreasing order, first and
/// last less than one window apart, against an empty log, the call numbered
/// `k` (from zero) is admitted when `k` is below the ceiling and rejected when
/// `k` equals it.
pub proof fn lemma_ceiling_within_window(times: Seq<u64>, k: int)
    requires
        times.len() == MAX_CALLS_PER_SECOND + 1,
        forall|i: int, j: int| 0 <= i <= j < times.len() ==> times[i] <= times[j],
        times[MAX_CALLS_PER_SECOND as int] - times[0] < RATE_LIMIT_WINDOW_MS,
        0 <= k <= MAX_CALLS_PER_SECOND,
    ensures
        run(Seq::<u64>::empty(), times.take(k)) == times.take(k),
        k < MAX_CALLS_PER_SECOND ==> admits(times.take(k), times[k]),
        k == MAX_CALLS_PER_SECOND ==> !admits(times.take(k), times[k]),
    decreases k,
{
    assert forall|i: int| 0 <= i < k implies in_window(#[trigger] times.take(k)[i], times[k]) by {
        assert(times.take(k)[i] == times[i]);
        assert(times[i] <= times[k]);
        assert(times[k] <= times[MAX_CALLS_PER_SECOND as int]);
        assert(times[0] <= times[i]);
    }
    lemma_live_stamps_all(times.take(k), times[k]);
    if k == 0 {
        assert(times.take(0) =~= Seq::<u64>::empty());
    } else {
        lemma_ceiling_within_window(times, k - 1);
        assert(times.take(k) =~= times.take(k - 1).push(times[k - 1]));
        lemma_run_snoc(Seq::<u64>::empty(), times.take(k - 1), times[k - 1]);
        assert forall|i: int|
            0 <= i < k - 1 implies in_window(#[trigger] times.take(k - 1)[i], times[k - 1]) by {
            assert(times.take(k - 1)[i] == times[i]);
            assert(times[i] <= times[k - 1]);
            assert(times[k - 1] <= times[MAX_CALLS_PER_SECOND as int]);
            assert(times[0] <= times[i]);
        }
        lemma_live_stamps_all(times.take(k - 1), times[k - 1]);
        assert(step(times.take(k - 1), times[k - 1]) == times.take(k - 1).push(times[k - 1]));
    }
}

/// After waiting longer than the window, a previously exhausted operation name
/// admits calls again: once every recorded stamp is at least one full window
/// old, a purge clears them all and the next call is admitted.
pub proof fn lemma_window_elapsed_admits(log: Seq<u64>, now: u64)
    requires
        forall|i: int| 0 <= i < log.len() ==> (#[trigger] log[i]) + RATE_LIMIT_WINDOW_MS <= now,
    ensures
        live_stamps(log, now) == Seq::<u64>::empty(),
        admits(log, now),
    decreases log.len(),
{
    if log.len() > 0 {
        assert(forall|i: int|
            0 <= i < log.len() - 1 ==> (#[trigger] log.drop_last()[i]) + RATE_LIMIT_WINDOW_MS
                <= now);
        lemma_window_elapsed_admits(log.drop_last(), now);
    }
}

/// The recorded stamps of one operation name.
struct OpLog {
    name: String,
    stamps: Vec<u64>,
}

/// The stamps recorded for `name`: those of its first entry, none when absent.
spec fn log_in(entries: Seq<OpLog>, name: Seq<char>) -> Seq<u64>
    decreases entries.len(),
{
    if entries.len() == 0 {
        Seq::empty()
    } else if entries[0].name@ == name {
        entries[0].stamps@
    } else {
        log_in(entries.drop_first(), name)
    }
}

/// Bounds the call frequency of each named operation independently.
///
/// Rejecting a call never records a stamp for it, so at most
/// [`MAX_CALLS_PER_SECOND`] calls are admitted within any trailing window of
/// [`RATE_LIMIT_WINDOW_MS`], per operation name.
pub struct RateLimiter {
    calls: Vec<OpLog>,
}

impl RateLimiter {
    /// The stamps this limiter currently holds against `name`.
    pub closed spec fn log_of(self, name: Seq<char>) -> Seq<u64> {
        log_in(self.calls@, name)
    }

    /// A limiter with no recorded calls for any operation name.
    pub fn new() -> (r: RateLimiter)
        ensures
            forall|name: Seq<char>| r.log_of(name) == Seq::<u64>::empty(),
    {
        RateLimiter { calls: Vec::new() }
    }

    /// Admits or rejects one call of `command` at time `now_ms`, purging the
    /// stamps that have aged out of the window either way and recording the
    /// call's own stamp only when it is admitted. Budgets of other operation
    /// names are untouched.
    pub fn check_rate_limit(&mut self, command: &str, now_ms: u64) -> (r: Result<(), GuardError>)
        ensures
            final(self).log_of(command@) == step(old(self).log_of(command@), now_ms),
            forall|name: Seq<char>|
                name != command@ ==> final(self).log_of(name) == old(self).log_of(name),
            r is Ok <==> admits(old(self).log_of(command@), now_ms),
            !admits(old(self).log_of(command@), now_ms) ==> (r == Err::<(), GuardError>(
                GuardError::RateLimitExceeded,
            )),
    {
        let cmd: String = command.to_owned();
        match find_entry(&self.calls, &cmd) {
            Some(i) => {
                let ghost entries0 = self.calls@;
                proof {
                    lemma_log_in_first_match(entries0, i as int, command@);
                }
                let mut kept = purge(&self.calls[i].stamps, now_ms);
                let rejected: bool = kept.len() >= MAX_CALLS_PER_SECOND;
                if !rejected {
                    kept.push(now_ms);
                }
                let name = self.calls[i].name.clone();
                let entry = OpLog { name, stamps: kept };
                let ghost e = entry;
                self.calls.set(i, entry);
                proof {
                    lemma_log_in_update(entries0, i as int, e);
                }
                if rejected {
                    Err(GuardError::RateLimitExceeded)
                } else {
                    Ok(())
                }
            },
            None => {
                let mut stamps: Vec<u64> = Vec::new();
                stamps.push(now_ms);
                let ghost entries0 = self.calls@;
                let entry = OpLog { name: cmd, stamps };
                let ghost e = entry;
                self.calls.push(entry);
                proof {
                    lemma_log_in_absent(entries0, command@);
                    lemma_log_in_append(entries0, e);
                    assert(live_stamps(Seq::<u64>::empty(), now_ms) == Seq::<u64>::empty());
                }
                Ok(())
            },
        }
    }
}

/// The index of the first entry named `cmd`, if any.
fn find_entry(calls: &Vec<OpLog>, cmd: &String) -> (r: Option<usize>)
    ensures
        match r {
            Some(i) => 0 <= i < calls@.len() && calls@[i as int].name@ == cmd@ && (forall|j: int|
                0 <= j < i ==> calls@[j].name@ != cmd@),
            None => forall|j: int| 0 <= j < calls@.len() ==> calls@[j].name@ != cmd@,
        },
{
    let mut i: usize = 0;
    while i < calls.len()
        invariant
            i <= calls@.len(),
            forall|j: int| 0 <= j < i ==> calls@[j].name@ != cmd@,
        decreases calls@.len() - i,
    {
        if calls[i].name.eq(cmd) {
            return Some(i);
        }
        i += 1;
    }
    None
}

/// Copies the stamps that are still inside the window at `now`.
fn purge(stamps: &Vec<u64>, now: u64) -> (r: Vec<u64>)
    ensures
        r@ == live_stamps(stamps@, now),
{
    let mut kept: Vec<u64> = Vec::new();
    let mut i: usize = 0;
    while i < stamps.len()
        invariant
            i <= stamps@.len(),
            kept@ == live_stamps(stamps@.take(i as int), now),
        decreases stamps@.len() - i,
    {
        let t = stamps[i];
        let keep: bool = if t > now {
            true
        } else {
            (now - t) < RATE_LIMIT_WINDOW_MS
        };
        proof {
            assert(stamps@.take(i + 1).drop_last() =~= stamps@.take(i as int));
            assert(stamps@.take(i + 1).last() == stamps@[i as int]);
        }
        if keep {
            kept.push(t);
        }
        i += 1;
    }
    proof {
        assert(stamps@.take(stamps@.len() as int) =~= stamps@);
    }
    kept
}

/// The first entry carrying a name decides that name's stamps.
proof fn lemma_log_in_first_match(entries: Seq<OpLog>, i: int, name: Seq<char>)
    requires
        0 <= i < entries.len(),
        entries[i].name@ == name,
        forall|j: int| 0 <= j < i ==> entries[j].name@ != name,
    ensures
        log_in(entries, name) == entries[i].stamps@,
    decreases i,
{
    if i > 0 {
        lemma_log_in_first_match(entries.drop_first(), i - 1, name);
    }
}

/// A name carried by no entry has no stamps.
proof fn lemma_log_in_absent(entries: Seq<OpLog>, name: Seq<char>)
    requires
        forall|j: int| 0 <= j < entries.len() ==> entries[j].name@ != name,
    ensures
        log_in(entries, name) == Seq::<u64>::empty(),
    decreases entries.len(),
{
    if entries.len() > 0 {
        lemma_log_in_absent(entries.drop_first(), name);
    }
}

/// Replacing the first entry of a name with another entry of the same name
/// rewrites that name's stamps and leaves every other name's stamps alone.
proof fn lemma_log_in_update(entries: Seq<OpLog>, i: int, e: OpLog)
    requires
        0 <= i < entries.len(),
        entries[i].name@ == e.name@,
        forall|j: int| 0 <= j < i ==> entries[j].name@ != e.name@,
    ensures
        log_in(entries.update(i, e), e.name@) == e.stamps@,
        forall|name: Seq<char>|
            name != e.name@ ==> #[trigger] log_in(entries.update(i, e), name) == log_in(
                entries,
                name,
            ),
    decreases entries.len(),
{
    let updated = entries.update(i, e);
    if i == 0 {
        assert(updated[0] == e);
        assert(updated.drop_first() =~= entries.drop_first());
        assert forall|name: Seq<char>| name != e.name@ implies #[trigger] log_in(updated, name)
            == log_in(entries, name) by {
            assert(log_in(updated, name) == log_in(updated.drop_first(), name));
            assert(log_in(entries, name) == log_in(entries.drop_first(), name));
        }
    } else {
        assert(updated[0] == entries[0]);
        assert(updated.drop_first() =~= entries.drop_first().update(i - 1, e));
        lemma_log_in_update(entries.drop_first(), i - 1, e);
        assert forall|name: Seq<char>| name != e.name@ implies #[trigger] log_in(updated, name)
            == log_in(entries, name) by {
            if entries[0].name@ != name {
                assert(log_in(updated, name) == log_in(updated.drop_first(), name));
                assert(log_in(entries, name) == log_in(entries.drop_first(), name));
            }
        }
    }
}

/// Appending an entry whose name is new rewrites that name's stamps and leaves
/// every other name's stamps alone.
proof fn lemma_log_in_append(entries: Seq<OpLog>, e: OpLog)
    requires
        forall|j: int| 0 <= j < entries.len() ==> entries[j].name@ != e.name@,
    ensures
        log_in(entries.push(e), e.name@) == e.stamps@,
        forall|name: Seq<char>|
            name != e.name@ ==> #[trigger] log_in(entries.push(e), name) == log_in(entries, name),
    decreases entries.len(),
{
    let appended = entries.push(e);
    if entries.len() == 0 {
        assert(appended[0] == e);
        assert(appended.drop_first() =~= Seq::<OpLog>::empty());
        assert forall|name: Seq<char>| name != e.name@ implies #[trigger] log_in(appended, name)
            == log_in(entries, name) by {
            assert(log_in(appended, name) == log_in(appended.drop_first(), name));
        }
    } else {
        assert(appended[0] == entries[0]);
        assert(appended.drop_first() =~= entries.drop_first().push(e));
        lemma_log_in_append(entries.drop_first(), e);
        assert forall|name: Seq<char>| name != e.name@ implies #[trigger] log_in(appended, name)
            == log_in(entries, name) by {
            if entries[0].name@ != name {
                assert(log_in(appended, name) == log_in(appended.drop_first(), name));
                assert(log_in(entries, name) == log_in(entries.drop_first(), name));
            }
        }
    }
}

} // verus!
