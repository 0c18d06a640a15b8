//! How long a container that keeps failing waits before it is started again.
//!
//! The wait is ten seconds after the first failure and doubles from then on, up to five minutes.
//! A container that stayed up for ten minutes before it ended owes no wait.

use vstd::prelude::*;
use crate::table::Table;
use crate::text;
use crate::time::{self, Duration, Instant};

verus! {

/// The wait after the first failure, in seconds.
pub const BASE_DELAY_SECS: u64 = 10;

/// The longest wait, in seconds.
pub const MAX_DELAY_SECS: u64 = 300;

/// How long a container must have stayed up for its failures to be forgiven, in seconds.
pub const RESET_AFTER_SECS: u64 = 600;

/// The reason that is published for a container held back before its next start.
pub const CRASH_LOOP_BACK_OFF: &'static str = "CrashLoopBackOff";

/// The longest wait.
pub fn max_delay() -> (r: Duration)
    ensures
        r@ == time::secs(MAX_DELAY_SECS as nat),
{
    Duration::from_secs(MAX_DELAY_SECS)
}

/// How long a container must have stayed up for its failures to be forgiven.
pub fn reset_after() -> (r: Duration)
    ensures
        r@ == time::secs(RESET_AFTER_SECS as nat),
{
    Duration::from_secs(RESET_AFTER_SECS)
}

/// What to do with a container that could be started again.
#[derive(Clone, Copy, Debug, PartialEq, Eq, Structural)]
pub enum BackoffDecision {
    /// Start it now.
    Restart,
    /// Hold it back for `remaining`.
    Wait { remaining: Duration },
}

impl BackoffDecision {
    /// The reason to publish while the container is held back.
    pub fn waiting_reason(self) -> (r: Option<&'static str>)
        ensures
            match self {
                BackoffDecision::Restart => r is None,
                BackoffDecision::Wait { .. } => r matches Some(s) && s@ == "CrashLoopBackOff"@,
            },
    {
        match self {
            BackoffDecision::Restart => None,
            BackoffDecision::Wait { .. } => Some(CRASH_LOOP_BACK_OFF),
        }
    }
}

/// The wait owed after `n` failures, in nanoseconds.
pub open spec fn curve(n: nat) -> nat {
    if n == 0 {
        0
    } else if time::secs(10 * vstd::arithmetic::power2::pow2((n - 1) as nat)) <= time::secs(300) {
        time::secs(10 * vstd::arithmetic::power2::pow2((n - 1) as nat))
    } else {
        time::secs(300)
    }
}

/// What is decided where `owed` must pass and `since` has passed.
pub open spec fn held(owed: nat, since: nat) -> BackoffDecision {
    if since >= owed {
        BackoffDecision::Restart
    } else {
        BackoffDecision::Wait { remaining: Duration { nanos: (owed - since) as u128 } }
    }
}

/// What is decided of a container that ran, failed `n` times, ended `since` ago and had been up
/// for `uptime`.
pub open spec fn decided(n: nat, since: nat, uptime: nat) -> BackoffDecision {
    if uptime >= time::secs(600) {
        BackoffDecision::Restart
    } else {
        held(curve(n), since)
    }
}

/// The wait owed after `restart_count` failures.
pub fn delay_for(restart_count: u32) -> (r: Duration)
    ensures
        r@ == curve(restart_count as nat),
{
    proof {
        vstd::arithmetic::power2::lemma2_to64();
        if restart_count > 6 {
            vstd::arithmetic::power2::lemma_pow2_strictly_increases(5, (restart_count - 1) as nat);
        }
    }
    match restart_count {
        0 => Duration::zero(),
        1 => Duration::from_secs(10),
        2 => Duration::from_secs(20),
        3 => Duration::from_secs(40),
        4 => Duration::from_secs(80),
        5 => Duration::from_secs(160),
        _ => max_delay(),
    }
}

fn hold(owed: Duration, since: Duration) -> (r: BackoffDecision)
    ensures
        r == held(owed@, since@),
{
    if since.nanos >= owed.nanos {
        BackoffDecision::Restart
    } else {
        BackoffDecision::Wait { remaining: Duration { nanos: owed.nanos - since.nanos } }
    }
}

/// Whether a container that ran and ended is started again now.
pub fn decide(restart_count: u32, since_exit: Duration, uptime_before_exit: Duration) -> (r:
    BackoffDecision)
    ensures
        r == decided(restart_count as nat, since_exit@, uptime_before_exit@),
{
    if uptime_before_exit.nanos >= reset_after().nanos {
        return BackoffDecision::Restart;
    }
    hold(delay_for(restart_count), since_exit)
}

/// Whether a container whose last `failures` starts failed is started again now.
pub fn decide_start(failures: u32, since_last_attempt: Duration) -> (r: BackoffDecision)
    ensures
        r == held(curve(failures as nat), since_last_attempt@),
{
    hold(delay_for(failures), since_last_attempt)
}

/// The failed starts in a row of each container of each pod, and when the last one was tried.
#[derive(Debug)]
pub struct StartLedger {
    failures: Table<Table<(u32, Instant)>>,
}

/// Leave to try to start one container once. Only `StartLedger::permit` makes one.
#[derive(Debug)]
pub struct StartPermit {
    pod: String,
    container: String,
    at: Instant,
}

/// A start that must still wait.
#[derive(Clone, Copy, Debug, PartialEq, Eq, Structural)]
pub struct StartHeld {
    /// How long until the next try is allowed.
    pub remaining: Duration,
    /// The failed starts in a row that the wait is owed for.
    pub consecutive_failures: u32,
}

/// What a failed start costs.
#[derive(Clone, Copy, Debug, PartialEq, Eq, Structural)]
pub struct StartFailed {
    /// The failed starts in a row, this one among them.
    pub consecutive_failures: u32,
    /// The wait now owed before the next try.
    pub next_attempt_in: Duration,
}

impl StartPermit {
    /// The pod, the container and the moment the permit was given for.
    pub closed spec fn names(self) -> (Seq<char>, Seq<char>, Instant) {
        (self.pod@, self.container@, self.at)
    }
}

/// Whether `keep` can answer like this of the pod of this name.
pub open spec fn answers<F: Fn(&str) -> bool>(keep: F, pod: Seq<char>, answer: bool) -> bool {
    exists|s: &str| s@ == pod && #[trigger] call_ensures(keep, (s,), answer)
}

/// How long a start must still wait at `now`, and after how many failed ones, where these failed
/// before it.
pub open spec fn owed(penalty: Option<(u32, Instant)>, now: Instant) -> Option<(Duration, u32)> {
    match penalty {
        None => None,
        Some((n, last)) => match held(curve(n as nat), time::elapsed(last@, now@)) {
            BackoffDecision::Restart => None,
            BackoffDecision::Wait { remaining } => Some((remaining, n)),
        },
    }
}

/// Whether a ledger was left like this by forgetting the pods that `keep` rejects, and no other.
pub open spec fn retained<F: Fn(&str) -> bool>(
    before: StartLedger,
    after: StartLedger,
    keep: F,
) -> bool {
    &&& forall|pod: Seq<char>| #[trigger]
        after.knows(pod) ==> before.knows(pod) && answers(keep, pod, true)
    &&& forall|pod: Seq<char>|
        before.knows(pod) && !#[trigger] after.knows(pod) ==> answers(keep, pod, false)
    &&& forall|pod: Seq<char>, c: Seq<char>|
        after.knows(pod) ==> #[trigger] after.penalty(pod, c) == before.penalty(pod, c)
    &&& forall|pod: Seq<char>, c: Seq<char>|
        !after.knows(pod) ==> #[trigger] after.penalty(pod, c) is None
    &&& forall|pod: Seq<char>, c: Seq<char>|
        !before.knows(pod) ==> #[trigger] before.penalty(pod, c) is None
}

impl StartLedger {
    /// The failed starts in a row of a container and when the last was tried, where there are any.
    pub closed spec fn penalty(self, pod: Seq<char>, container: Seq<char>) -> Option<
        (u32, Instant),
    > {
        if self.failures@.dom().contains(pod) && self.failures@[pod]@.dom().contains(container) {
            Some(self.failures@[pod]@[container])
        } else {
            None
        }
    }

    /// Whether anything is kept for a pod.
    pub closed spec fn knows(self, pod: Seq<char>) -> bool {
        self.failures@.dom().contains(pod)
    }

    /// Nothing is kept for a pod without a penalty.
    pub open spec fn tidy(self) -> bool {
        forall|pod: Seq<char>| #[trigger]
            self.knows(pod) ==> exists|c: Seq<char>| self.penalty(pod, c) is Some
    }

    /// A pod that nothing is kept for owes no wait.
    pub proof fn unknown_pods_owe_nothing(self, pod: Seq<char>, container: Seq<char>)
        requires
            !self.knows(pod),
        ensures
            self.penalty(pod, container) is None,
    {
    }

    /// A ledger without penalties.
    pub fn new() -> (r: StartLedger)
        ensures
            r.tidy(),
            forall|pod: Seq<char>, c: Seq<char>| r.penalty(pod, c) is None,
    {
        StartLedger { failures: Table::new() }
    }

    /// Leave to start `container` of `pod` at `now`, or how long it must still wait.
    pub fn permit(&self, pod: &str, container: &str, now: Instant) -> (r: Result<
        StartPermit,
        StartHeld,
    >)
        ensures
            match owed(self.penalty(pod@, container@), now) {
                None => r is Ok,
                Some((remaining, n)) => r matches Err(h) && h.remaining == remaining
                    && h.consecutive_failures == n,
            },
            r matches Ok(p) ==> p.names() == (pod@, container@, now),
    {
        if let Some(containers) = self.failures.get(pod) {
            if let Some(entry) = containers.get(container) {
                let (failures, last): (u32, Instant) = *entry;
                if let BackoffDecision::Wait { remaining } = decide_start(
                    failures,
                    now.saturating_duration_since(last),
                ) {
                    return Err(StartHeld { remaining, consecutive_failures: failures });
                }
            }
        }
        Ok(StartPermit { pod: pod.to_owned(), container: container.to_owned(), at: now })
    }

    /// The try started the container: its penalty is gone, and no other changes.
    pub fn succeeded(&mut self, permit: StartPermit)
        ensures
            final(self).penalty(permit.names().0, permit.names().1) is None,
            forall|pod: Seq<char>, c: Seq<char>|
                (pod, c) != (permit.names().0, permit.names().1) ==> #[trigger] final(self).penalty(
                    pod,
                    c,
                ) == old(self).penalty(pod, c),
            old(self).tidy() ==> final(self).tidy(),
    {
        let ghost before = *self;
        let ghost p = permit.pod@;
        if let Some(mut containers) = self.failures.take(permit.pod.as_str()) {
            let ghost inner = containers@;
            containers.remove(permit.container.as_str());
            let none_left = containers.is_empty();
            proof {
                assert(containers@ == inner.remove(permit.container@));
                if none_left {
                    assert forall|c: Seq<char>| c != permit.container@ implies !inner.dom().contains(
                        c,
                    ) by {
                        assert(!containers@.dom().contains(c));
                    }
                }
            }
            if !none_left {
                self.failures.insert(permit.pod.as_str(), containers);
            }
            proof {
                assert forall|pod: Seq<char>, c: Seq<char>|
                    (pod, c) != (p, permit.container@) implies #[trigger] self.penalty(pod, c)
                    == before.penalty(pod, c) by {
                    if pod == p {
                        assert(c != permit.container@);
                    }
                }
                if before.tidy() {
                    assert forall|q: Seq<char>| #[trigger] self.knows(q) implies exists|
                        c: Seq<char>,
                    | self.penalty(q, c) is Some by {
                        if q == p {
                            let c = choose|c: Seq<char>| containers@.dom().contains(c);
                            assert(self.penalty(q, c) is Some);
                        } else {
                            assert(before.knows(q));
                            let c = choose|c: Seq<char>| before.penalty(q, c) is Some;
                            assert(self.penalty(q, c) is Some);
                        }
                    }
                }
            }
        } else {
            assert(self.failures@ =~= before.failures@);
            proof {
                if before.tidy() {
                    assert forall|q: Seq<char>| #[trigger] self.knows(q) implies exists|
                        c: Seq<char>,
                    | self.penalty(q, c) is Some by {
                        assert(before.knows(q));
                        let c = choose|c: Seq<char>| before.penalty(q, c) is Some;
                        assert(self.penalty(q, c) is Some);
                    }
                }
            }
        }
    }

    /// The try failed: one more failure in a row, as of the moment the permit was given.
    pub fn failed(&mut self, permit: StartPermit) -> (r: StartFailed)
        ensures
            ({
                let (pod, container, at) = permit.names();
                let n: int = match old(self).penalty(pod, container) {
                    Some((n, _)) => if n == u32::MAX {
                        u32::MAX as int
                    } else {
                        n + 1
                    },
                    None => 1,
                };
                &&& r.consecutive_failures == n
                &&& r.next_attempt_in@ == curve(n as nat)
                &&& final(self).penalty(pod, container) == Some((n as u32, at))
                &&& forall|q: Seq<char>, c: Seq<char>|
                    (q, c) != (pod, container) ==> #[trigger] final(self).penalty(q, c) == old(
                        self,
                    ).penalty(q, c)
            }),
            old(self).tidy() ==> final(self).tidy(),
    {
        let ghost before = *self;
        let ghost p = permit.pod@;
        let ghost k = permit.container@;
        let mut containers: Table<(u32, Instant)> = match self.failures.take(permit.pod.as_str()) {
            Some(t) => t,
            None => Table::new(),
        };
        let n: u32 = match containers.get(permit.container.as_str()) {
            Some(entry) => entry.0.saturating_add(1),
            None => 1,
        };
        containers.insert(permit.container.as_str(), (n, permit.at));
        self.failures.insert(permit.pod.as_str(), containers);
        proof {
            assert(self.penalty(p, k) == Some((n, permit.at)));
            if before.tidy() {
                assert forall|q: Seq<char>| #[trigger] self.knows(q) implies exists|c: Seq<char>|
                    self.penalty(q, c) is Some by {
                    if q == p {
                        assert(self.penalty(q, k) is Some);
                    } else {
                        assert(before.knows(q));
                        let c = choose|c: Seq<char>| before.penalty(q, c) is Some;
                        assert(self.penalty(q, c) is Some);
                    }
                }
            }
        }
        StartFailed { consecutive_failures: n, next_attempt_in: delay_for(n) }
    }

    /// Forgets every pod that `keep` rejects, and no other: what is rejected owes no wait any more,
    /// and what is kept owes what it owed. `keep` is asked about pods that something is kept for.
    pub fn retain_pods<F: Fn(&str) -> bool>(&mut self, keep: F)
        requires
            forall|s: &str| old(self).knows(s@) ==> #[trigger] call_requires(keep, (s,)),
        ensures
            retained(*old(self), *final(self), keep),
            old(self).tidy() ==> final(self).tidy(),
    {
        let ghost before = *self;
        let pods = self.failures.keys();
        let ghost all = text::texts(pods@);
        let mut i: usize = 0;
        assert(forall|pod: Seq<char>| before.knows(pod) ==> all.to_set().contains(pod));
        while i < pods.len()
            invariant
                i <= pods@.len(),
                all == text::texts(pods@),
                all.to_set() == before.failures@.dom(),
                forall|s: &str| before.knows(s@) ==> #[trigger] call_requires(keep, (s,)),
                forall|pod: Seq<char>| #[trigger]
                    self.knows(pod) ==> before.knows(pod) && self.failures@[pod]
                        == before.failures@[pod],
                forall|pod: Seq<char>|
                    before.knows(pod) && !#[trigger] self.knows(pod) ==> answers(
                        keep,
                        pod,
                        false,
                    ),
                forall|k: int|
                    0 <= k < i ==> self.knows(#[trigger] all[k]) ==> answers(keep, all[k], true),
            decreases pods@.len() - i,
        {
            let name = pods[i].as_str();
            assert(all[i as int] == name@);
            assert(all.to_set().contains(name@));
            assert(before.knows(name@));
            let kept = keep(name);
            assert(answers(keep, name@, kept));
            let ghost mid = *self;
            if !kept {
                self.failures.remove(name);
            }
            proof {
                assert(all[i as int] == name@);
                assert forall|pod: Seq<char>| #[trigger] self.knows(pod) implies before.knows(pod)
                    && self.failures@[pod] == before.failures@[pod] by {
                    assert(mid.knows(pod));
                }
                assert forall|pod: Seq<char>|
                    before.knows(pod) && !#[trigger] self.knows(pod) implies answers(
                    keep,
                    pod,
                    false,
                ) by {
                    if mid.knows(pod) {
                        assert(pod == name@);
                    }
                }
                assert forall|k: int|
                    0 <= k < i + 1 && self.knows(#[trigger] all[k]) implies answers(
                    keep,
                    all[k],
                    true,
                ) by {
                    assert(mid.knows(all[k]));
                }
            }
            i += 1;
        }
        proof {
            assert forall|pod: Seq<char>| #[trigger] self.knows(pod) implies answers(
                keep,
                pod,
                true,
            ) by {
                assert(all.to_set().contains(pod));
                let k = choose|k: int| 0 <= k < all.len() && all[k] == pod;
                assert(self.knows(all[k]));
            }
            if before.tidy() {
                assert forall|q: Seq<char>| #[trigger] self.knows(q) implies exists|c: Seq<char>|
                    self.penalty(q, c) is Some by {
                    assert(before.knows(q));
                    let c = choose|c: Seq<char>| before.penalty(q, c) is Some;
                    assert(self.penalty(q, c) is Some);
                }
            }
        }
    }
}

impl Default for StartLedger {
    fn default() -> (r: StartLedger)
        ensures
            r.tidy(),
            forall|pod: Seq<char>, c: Seq<char>| r.penalty(pod, c) is None,
    {
        StartLedger::new()
    }
}

// ---- laws ----------------------------------------------------------------------------------

/// A pod that is forgotten owes no wait: each of its containers may be started at once. A pod that
/// is kept owes what it owed. `accepts` is what `keep` says of a pod.
pub proof fn what_is_forgotten_starts_at_once<F: Fn(&str) -> bool>(
    before: StartLedger,
    after: StartLedger,
    keep: F,
    accepts: spec_fn(Seq<char>) -> bool,
    pod: Seq<char>,
    container: Seq<char>,
    now: Instant,
)
    requires
        retained(before, after, keep),
        forall|s: &str, answer: bool| #[trigger]
            call_ensures(keep, (s,), answer) ==> answer == accepts(s@),
    ensures
        !accepts(pod) ==> owed(after.penalty(pod, container), now) is None,
        accepts(pod) ==> owed(after.penalty(pod, container), now) == owed(
            before.penalty(pod, container),
            now,
        ),
{
    if accepts(pod) && before.knows(pod) && !after.knows(pod) {
        assert(answers(keep, pod, false));
    }
    if !accepts(pod) && after.knows(pod) {
        assert(answers(keep, pod, true));
    }
}

/// The first start, and the first restart, owe no wait.
pub proof fn first_is_immediate(since: nat, uptime: nat)
    ensures
        curve(0) == 0,
        held(curve(0), since) == BackoffDecision::Restart,
        decided(0, since, uptime) == BackoffDecision::Restart,
{
}

/// The wait is ten seconds after one failure, and each further failure doubles it until the cap.
pub proof fn curve_doubles(n: nat)
    requires
        n >= 1,
    ensures
        curve(1) == time::secs(10),
        curve(n + 1) == if 2 * curve(n) <= time::secs(300) {
            2 * curve(n)
        } else {
            time::secs(300)
        },
{
    vstd::arithmetic::power2::lemma2_to64();
    vstd::arithmetic::power2::lemma_pow2_unfold(n);
}

/// A further failure never shortens the wait.
pub proof fn curve_grows(m: nat, n: nat)
    requires
        m <= n,
    ensures
        curve(m) <= curve(n),
{
    if 0 < m < n {
        vstd::arithmetic::power2::lemma_pow2_strictly_increases((m - 1) as nat, (n - 1) as nat);
    }
}

/// No wait is longer than five minutes, so every container held back is started again.
pub proof fn waits_end(n: nat, since: nat, uptime: nat)
    ensures
        curve(n) <= time::secs(300),
        since >= time::secs(300) ==> held(curve(n), since) == BackoffDecision::Restart,
        since >= time::secs(300) ==> decided(n, since, uptime) == BackoffDecision::Restart,
{
}

/// A container that stayed up long enough owes nothing for its earlier failures.
pub proof fn uptime_forgives(n: nat, since: nat, uptime: nat)
    requires
        uptime >= time::secs(600),
    ensures
        decided(n, since, uptime) == BackoffDecision::Restart,
{
}

/// The waits owed after the first, second, up to the `n`-th failure, together.
pub open spec fn waits(n: nat) -> nat
    decreases n,
{
    if n == 0 {
        0
    } else {
        waits((n - 1) as nat) + curve(n)
    }
}

proof fn attempts_are_apart(times: Seq<nat>, n: nat)
    requires
        n < times.len(),
        forall|k: int|
            1 <= k < times.len() ==> times[k - 1] <= #[trigger] times[k] && held(
                curve(k as nat),
                (times[k] - times[k - 1]) as nat,
            ) == BackoffDecision::Restart,
    ensures
        times[n as int] >= times[0] + waits(n),
    decreases n,
{
    if n > 0 {
        attempts_are_apart(times, (n - 1) as nat);
        let k = n as int;
        assert(times[k - 1] <= times[k] && held(curve(k as nat), (times[k] - times[k - 1]) as nat)
            == BackoffDecision::Restart);
    }
}

/// A start that always fails is tried at most sixteen times in an hour: where `times` are the
/// moments at which tries were allowed, the seventeenth lies more than an hour behind the first.
pub proof fn sixteen_attempts_an_hour(times: Seq<nat>)
    requires
        times.len() > 16,
        forall|k: int|
            1 <= k < times.len() ==> times[k - 1] <= #[trigger] times[k] && held(
                curve(k as nat),
                (times[k] - times[k - 1]) as nat,
            ) == BackoffDecision::Restart,
    ensures
        times[16] > times[0] + time::secs(3600),
{
    attempts_are_apart(times, 16);
    vstd::arithmetic::power2::lemma2_to64();
    reveal_with_fuel(waits, 17);
    assert forall|n: nat| n >= 6 implies #[trigger] curve(n) == time::secs(300) by {
        if n > 6 {
            vstd::arithmetic::power2::lemma_pow2_strictly_increases(5, (n - 1) as nat);
        }
    }
    assert(waits(16) == time::secs(3610));
}

/// A container that was up for ten minutes is started at once, and so is one that never failed. Any
/// other waits ten seconds after its first failure, twice as long after each further one, and five
/// minutes at most: what is left of that is what it still waits.
pub proof fn how_long_a_container_is_held(n: nat, since: nat, uptime: nat)
    ensures
        ({
            let owed: nat = if n == 0 {
                0
            } else if n == 1 {
                10_000_000_000
            } else if n == 2 {
                20_000_000_000
            } else if n == 3 {
                40_000_000_000
            } else if n == 4 {
                80_000_000_000
            } else if n == 5 {
                160_000_000_000
            } else {
                300_000_000_000
            };
            &&& decided(n, since, uptime) is Restart <==> uptime >= 600_000_000_000 || since
                >= owed
            &&& decided(n, since, uptime) matches BackoffDecision::Wait { remaining } ==> since
                + remaining@ == owed
            &&& held(curve(n), since) is Restart <==> since >= owed
            &&& held(curve(n), since) matches BackoffDecision::Wait { remaining } ==> since
                + remaining@ == owed
        }),
{
    vstd::arithmetic::power2::lemma2_to64();
    if n > 6 {
        vstd::arithmetic::power2::lemma_pow2_strictly_increases(5, (n - 1) as nat);
    }
}

/// A start that failed is owed a wait from when it was tried; one that did not is owed none.
pub proof fn what_a_failed_start_owes(n: u32, last: Instant, now: Instant)
    requires
        now@ >= last@,
    ensures
        owed(None, now) is None,
        match owed(Some((n, last)), now) {
            Some((left, failures)) => failures == n && left@ > 0 && now@ + left@ == last@ + curve(
                n as nat,
            ),
            None => now@ >= last@ + curve(n as nat),
        },
{
}

/// A pod is forgotten only where it was rejected, and kept only where it was not; what is kept of a pod
/// is kept as it was, and nothing comes to be known.
pub proof fn who_is_forgotten<F: Fn(&str) -> bool>(
    before: StartLedger,
    after: StartLedger,
    keep: F,
    pod: Seq<char>,
    c: Seq<char>,
)
    requires
        retained(before, after, keep),
    ensures
        after.knows(pod) ==> before.knows(pod) && after.penalty(pod, c) == before.penalty(pod, c)
            && exists|s: &str| s@ == pod && call_ensures(keep, (s,), true),
        !after.knows(pod) ==> after.penalty(pod, c) is None,
        before.knows(pod) && !after.knows(pod) ==> exists|s: &str|
            s@ == pod && call_ensures(keep, (s,), false),
        !before.knows(pod) ==> !after.knows(pod),
{
}

} // verus!
