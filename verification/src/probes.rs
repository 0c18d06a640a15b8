//! The probes of a container: which it has, and what their results mean for it.

use vstd::prelude::*;
use crate::error::{self, KubeletError};
use crate::json::{self, Doc, Json};
use crate::text::cat3;
use crate::time::{Duration, Instant};

verus! {

/// A probe of a container.
#[derive(Debug)]
pub struct ProbeSlot {
    /// What the manifest says of it.
    pub probe: Json,
    /// Since when its results count.
    pub since: Instant,
    /// Whether what it waits for has come.
    pub gate_satisfied: bool,
}

/// The probes of a container.
#[derive(Debug)]
pub struct ContainerProbeState {
    pub liveness: Option<ProbeSlot>,
    pub readiness: Option<ProbeSlot>,
    pub startup: Option<ProbeSlot>,
}

impl Default for ContainerProbeState {
    fn default() -> (r: ContainerProbeState)
        ensures
            r.liveness is None,
            r.readiness is None,
            r.startup is None,
    {
        ContainerProbeState { liveness: None, readiness: None, startup: None }
    }
}

/// Whether a container has no probe.
pub open spec fn probeless(p: ContainerProbeState) -> bool {
    p.liveness is None && p.readiness is None && p.startup is None
}

/// Which probes a container has.
#[derive(Clone, Copy, Debug, PartialEq, Eq, Structural)]
pub struct ProbeKinds {
    pub startup: bool,
    pub readiness: bool,
    pub liveness: bool,
}

/// The kinds of the probes of a container.
pub open spec fn kinds_of(p: ContainerProbeState) -> ProbeKinds {
    ProbeKinds {
        startup: p.startup is Some,
        readiness: p.readiness is Some,
        liveness: p.liveness is Some,
    }
}

/// Whether a container with probes of these kinds has any.
pub open spec fn any_of(k: ProbeKinds) -> bool {
    k.startup || k.readiness || k.liveness
}

/// A probe whose results count from now on.
pub open spec fn restarted(s: Option<ProbeSlot>, now: Instant) -> Option<ProbeSlot> {
    match s {
        Some(slot) => Some(ProbeSlot { since: now, gate_satisfied: false, ..slot }),
        None => None,
    }
}

fn restart_slot(s: Option<ProbeSlot>, now: Instant) -> (r: Option<ProbeSlot>)
    ensures
        r == restarted(s, now),
{
    match s {
        Some(slot) => Some(ProbeSlot { probe: slot.probe, since: now, gate_satisfied: false }),
        None => None,
    }
}

impl ContainerProbeState {
    /// Whether the container has no probe.
    pub fn is_empty(&self) -> (r: bool)
        ensures
            r == probeless(*self),
    {
        self.liveness.is_none() && self.readiness.is_none() && self.startup.is_none()
    }

    /// The kinds of the probes.
    pub fn kinds(&self) -> (r: ProbeKinds)
        ensures
            r == kinds_of(*self),
    {
        ProbeKinds {
            startup: self.startup.is_some(),
            readiness: self.readiness.is_some(),
            liveness: self.liveness.is_some(),
        }
    }

    /// The same probes, whose results count from now on.
    pub fn reset(self, now: Instant) -> (r: ContainerProbeState)
        ensures
            r == reset_at(self, now),
    {
        ContainerProbeState {
            liveness: restart_slot(self.liveness, now),
            readiness: restart_slot(self.readiness, now),
            startup: restart_slot(self.startup, now),
        }
    }
}

/// The same probes, whose results count from now on.
pub open spec fn reset_at(p: ContainerProbeState, now: Instant) -> ContainerProbeState {
    ContainerProbeState {
        liveness: restarted(p.liveness, now),
        readiness: restarted(p.readiness, now),
        startup: restarted(p.startup, now),
    }
}

// ---- reading the manifest ------------------------------------------------------------------

/// The named port of a container, where an item names one.
pub open spec fn named_port(p: Doc) -> Option<(Seq<char>, int)> {
    match (p.str_at("name"@), p.int_at("containerPort"@)) {
        (Some(name), Some(n)) => if 0 <= n <= u16::MAX {
            Some((name, n))
        } else {
            None
        },
        _ => None,
    }
}

/// The named ports in a list.
pub open spec fn named_ports(list: Seq<Doc>) -> Seq<(Seq<char>, int)>
    decreases list.len(),
{
    if list.len() == 0 {
        Seq::empty()
    } else {
        let rest = named_ports(list.drop_last());
        match named_port(list.last()) {
            Some(p) => rest.push(p),
            None => rest,
        }
    }
}

/// What a list of named ports stands for.
pub open spec fn port_views(v: Seq<(String, u16)>) -> Seq<(Seq<char>, int)> {
    v.map_values(|p: (String, u16)| (p.0@, p.1 as int))
}

/// The named ports of a container, in order.
pub fn container_ports(container: &Json) -> (r: Vec<(String, u16)>)
    ensures
        port_views(r@) == match container@.arr_at("ports"@) {
            Some(list) => named_ports(list),
            None => Seq::empty(),
        },
{
    let mut out: Vec<(String, u16)> = Vec::new();
    assert(port_views(out@) =~= Seq::<(Seq<char>, int)>::empty());
    if let Some(list) = container.arr_at("ports") {
        let ghost all = json::docs(list@);
        let mut i: usize = 0;
        assert(all.take(0) =~= Seq::<Doc>::empty());
        while i < list.len()
            invariant
                i <= list@.len(),
                all == json::docs(list@),
                port_views(out@) == named_ports(all.take(i as int)),
            decreases list@.len() - i,
        {
            proof {
                json::docs_index(list@);
            }
            assert(all.take(i + 1).drop_last() =~= all.take(i as int));
            assert(all.take(i + 1).last() == list@[i as int]@);
            if let Some(name) = list[i].str_at("name") {
                if let Some(v) = list[i].get("containerPort") {
                    if let Some(n) = v.as_i64() {
                        if 0 <= n && n <= 65535 {
                            let ghost was = out@;
                            out.push((name.to_owned(), n as u16));
                            assert(port_views(out@) =~= port_views(was).push((name@, n as int)));
                        }
                    }
                }
            }
            i += 1;
        }
        proof {
            json::docs_index(list@);
        }
        assert(all.take(i as int) =~= all);
    }
    out
}

/// What was found wrong with each probe of a container, where anything was.
#[derive(Debug)]
pub struct ProbeFaults {
    pub liveness: Option<String>,
    pub readiness: Option<String>,
    pub startup: Option<String>,
}

/// Whether this is a probe of a container whose results count from now on.
pub open spec fn slot_is(s: Option<ProbeSlot>, d: Option<Doc>, now: Instant) -> bool {
    match d {
        Some(p) => s matches Some(slot) && slot.probe@ == p && slot.since == now
            && !slot.gate_satisfied,
        None => s is None,
    }
}

/// Whether a probe that a container has is at fault.
pub open spec fn at_fault(d: Option<Doc>, fault: Option<String>) -> bool {
    d is Some && fault is Some
}

fn read_slot(probe: Option<&Json>, field: &str, fault: Option<String>, label: &str, now: Instant) -> (r:
    Result<Option<ProbeSlot>, KubeletError>)
    ensures
        r is Err == (probe is Some && fault is Some),
        match r {
            Ok(s) => slot_is(s, crate::node_lease::doc_opt(probe), now),
            Err(e) => fault matches Some(words) && error::invalid_pod(
                e,
                label@,
                field@ + ": "@ + words@,
            ),
        },
{
    match probe {
        None => Ok(None),
        Some(p) => match fault {
            Some(words) => Err(
                KubeletError::InvalidPod {
                    pod: label.to_owned(),
                    reason: cat3(field, ": ", words.as_str()),
                },
            ),
            None => Ok(Some(ProbeSlot { probe: p.copy(), since: now, gate_satisfied: false })),
        },
    }
}

/// The probes of a container, whose results count from now on. A pod with a probe that is at fault
/// is refused, and the probe never passes.
pub fn parse_container_probes(container: &Json, pod_label: &str, now: Instant, faults: ProbeFaults) -> (r:
    Result<ContainerProbeState, KubeletError>)
    ensures
        ({
            let l = container@.get("livenessProbe"@);
            let d = container@.get("readinessProbe"@);
            let s = container@.get("startupProbe"@);
            if at_fault(l, faults.liveness) {
                r matches Err(e) && error::invalid_pod(
                    e,
                    pod_label@,
                    "livenessProbe"@ + ": "@ + faults.liveness.unwrap()@,
                )
            } else if at_fault(d, faults.readiness) {
                r matches Err(e) && error::invalid_pod(
                    e,
                    pod_label@,
                    "readinessProbe"@ + ": "@ + faults.readiness.unwrap()@,
                )
            } else if at_fault(s, faults.startup) {
                r matches Err(e) && error::invalid_pod(
                    e,
                    pod_label@,
                    "startupProbe"@ + ": "@ + faults.startup.unwrap()@,
                )
            } else {
                r matches Ok(p) && slot_is(p.liveness, l, now) && slot_is(p.readiness, d, now)
                    && slot_is(p.startup, s, now)
            }
        }),
{
    let liveness = match read_slot(
        container.get("livenessProbe"),
        "livenessProbe",
        faults.liveness,
        pod_label,
        now,
    ) {
        Ok(s) => s,
        Err(e) => {
            return Err(e);
        },
    };
    let readiness = match read_slot(
        container.get("readinessProbe"),
        "readinessProbe",
        faults.readiness,
        pod_label,
        now,
    ) {
        Ok(s) => s,
        Err(e) => {
            return Err(e);
        },
    };
    let startup = match read_slot(
        container.get("startupProbe"),
        "startupProbe",
        faults.startup,
        pod_label,
        now,
    ) {
        Ok(s) => s,
        Err(e) => {
            return Err(e);
        },
    };
    Ok(ContainerProbeState { liveness, readiness, startup })
}

// ---- what results mean ---------------------------------------------------------------------

/// What came of a probe.
#[derive(Clone, Copy, Debug, PartialEq, Eq, Structural)]
pub struct ProbeReading {
    /// Whether it was run, and failed often enough to restart the container.
    pub needs_restart: bool,
    /// Whether what it waits for has come.
    pub gate_satisfied: bool,
    /// When it is run next.
    pub next_due_in: Duration,
}

/// What came of the probes of a container.
#[derive(Clone, Copy, Debug, PartialEq, Eq, Structural)]
pub struct ProbeReadings {
    pub startup: Option<ProbeReading>,
    pub readiness: Option<ProbeReading>,
    pub liveness: Option<ProbeReading>,
}

/// Whether these came of probes of these kinds: one of each, and of no other.
pub open spec fn read_from(k: ProbeKinds, r: ProbeReadings) -> bool {
    &&& r.startup is Some == k.startup
    &&& r.readiness is Some == k.readiness
    &&& r.liveness is Some == k.liveness
}

impl ProbeKinds {
    /// Whether a container with probes of these kinds has any.
    pub fn any(&self) -> (r: bool)
        ensures
            r == any_of(*self),
    {
        self.startup || self.readiness || self.liveness
    }

    /// Whether these came of probes of these kinds.
    pub fn gave(&self, readings: &ProbeReadings) -> (r: bool)
        ensures
            r == read_from(*self, *readings),
    {
        readings.startup.is_some() == self.startup && readings.readiness.is_some()
            == self.readiness && readings.liveness.is_some() == self.liveness
    }
}

/// What the probes of a container say of it.
#[derive(Clone, Copy, Debug, PartialEq, Eq, Structural)]
pub struct ProbeOutcome {
    pub ready: bool,
    pub needs_restart: bool,
}

/// Whether a container is ready, and whether its liveness counts yet. A container that still
/// starts is not ready, and is not restarted for not being alive.
pub open spec fn readiness_of(
    startup_done: bool,
    readiness_ready: bool,
    has_startup: bool,
    has_readiness: bool,
    is_running: bool,
) -> (bool, bool) {
    let started = !has_startup || startup_done;
    (is_running && started && (!has_readiness || readiness_ready), started)
}

/// Whether a container is ready, and whether its liveness counts yet.
pub fn aggregate_container_readiness(
    startup_done: bool,
    readiness_ready: bool,
    has_startup: bool,
    has_readiness: bool,
    is_running: bool,
) -> (r: (bool, bool))
    ensures
        r == readiness_of(startup_done, readiness_ready, has_startup, has_readiness, is_running),
{
    let started = !has_startup || startup_done;
    (is_running && started && (!has_readiness || readiness_ready), started)
}

/// What the probes of a container that is up say of it.
pub open spec fn outcome_of(r: ProbeReadings) -> ProbeOutcome {
    let (ready, alive_counts) = readiness_of(
        r.startup matches Some(s) ==> s.gate_satisfied,
        r.readiness matches Some(s) && s.gate_satisfied,
        r.startup is Some,
        r.readiness is Some,
        true,
    );
    ProbeOutcome {
        ready,
        needs_restart: (r.startup matches Some(s) && s.needs_restart) || (alive_counts && (
        r.liveness matches Some(s) && s.needs_restart)),
    }
}

/// The smaller of two spans, where there are two.
pub open spec fn sooner(soonest: Option<nat>, delay: Option<nat>) -> Option<nat> {
    match (soonest, delay) {
        (Some(a), Some(b)) => Some(
            if b < a {
                b
            } else {
                a
            },
        ),
        (None, Some(b)) => Some(b),
        (_, None) => soonest,
    }
}

/// The length of an optional span.
pub open spec fn span(d: Option<Duration>) -> Option<nat> {
    match d {
        Some(x) => Some(x@),
        None => None,
    }
}

/// When a probe is run next.
pub open spec fn due_in(r: Option<ProbeReading>) -> Option<nat> {
    match r {
        Some(s) => Some(s.next_due_in@),
        None => None,
    }
}

/// The soonest of a span and of when the probes are run next.
pub open spec fn soonest_with(soonest: Option<nat>, r: ProbeReadings) -> Option<nat> {
    sooner(sooner(sooner(soonest, due_in(r.startup)), due_in(r.readiness)), due_in(r.liveness))
}

/// Takes a span in, where it is sooner.
pub fn accumulate_requeue(soonest: &mut Option<Duration>, delay: Duration)
    ensures
        span(*final(soonest)) == sooner(span(*old(soonest)), Some(delay@)),
        *final(soonest) is Some,
{
    let next = match *soonest {
        Some(cur) => cur.min(delay),
        None => delay,
    };
    *soonest = Some(next);
}

/// What the probes that a container has say of it.
pub fn judge(readings: &ProbeReadings, soonest: &mut Option<Duration>) -> (r: ProbeOutcome)
    ensures
        r == outcome_of(*readings),
        span(*final(soonest)) == soonest_with(span(*old(soonest)), *readings),
{
    let mut startup_done = true;
    let mut has_startup = false;
    let mut startup_needs_restart = false;
    if let Some(s) = readings.startup {
        has_startup = true;
        startup_needs_restart = s.needs_restart;
        startup_done = s.gate_satisfied;
        accumulate_requeue(soonest, s.next_due_in);
    }
    let mut readiness_ready = false;
    let mut has_readiness = false;
    if let Some(s) = readings.readiness {
        has_readiness = true;
        readiness_ready = s.gate_satisfied;
        accumulate_requeue(soonest, s.next_due_in);
    }
    let mut liveness_needs_restart = false;
    if let Some(s) = readings.liveness {
        liveness_needs_restart = s.needs_restart;
        accumulate_requeue(soonest, s.next_due_in);
    }
    let (ready, may_run_liveness) = aggregate_container_readiness(
        startup_done,
        readiness_ready,
        has_startup,
        has_readiness,
        true,
    );
    ProbeOutcome {
        ready,
        needs_restart: startup_needs_restart || (may_run_liveness && liveness_needs_restart),
    }
}

/// What the probes of a container that is up say of it. One without probes is ready.
pub fn run_container_probes(
    probes: &ContainerProbeState,
    readings: &ProbeReadings,
    soonest: &mut Option<Duration>,
) -> (r: ProbeOutcome)
    requires
        read_from(kinds_of(*probes), *readings),
    ensures
        if probeless(*probes) {
            r == (ProbeOutcome { ready: true, needs_restart: false }) && *final(soonest) == *old(
                soonest,
            )
        } else {
            r == outcome_of(*readings) && span(*final(soonest)) == soonest_with(
                span(*old(soonest)),
                *readings,
            )
        },
{
    if probes.is_empty() {
        return ProbeOutcome { ready: true, needs_restart: false };
    }
    judge(readings, soonest)
}

/// A probe with what its last result says.
pub open spec fn gated(s: Option<ProbeSlot>, r: Option<ProbeReading>) -> Option<ProbeSlot> {
    match (s, r) {
        (Some(slot), Some(x)) => Some(ProbeSlot { gate_satisfied: x.gate_satisfied, ..slot }),
        _ => s,
    }
}

/// The probes with what their last results say.
pub open spec fn all_gated(p: ContainerProbeState, r: ProbeReadings) -> ContainerProbeState {
    ContainerProbeState {
        liveness: gated(p.liveness, r.liveness),
        readiness: gated(p.readiness, r.readiness),
        startup: gated(p.startup, r.startup),
    }
}

fn gate(s: Option<ProbeSlot>, r: Option<ProbeReading>) -> (out: Option<ProbeSlot>)
    ensures
        out == gated(s, r),
{
    match s {
        None => None,
        Some(slot) => match r {
            Some(x) => Some(
                ProbeSlot {
                    probe: slot.probe,
                    since: slot.since,
                    gate_satisfied: x.gate_satisfied,
                },
            ),
            None => Some(slot),
        },
    }
}

/// The probes with what their last results say.
pub fn with_gates(p: ContainerProbeState, r: &ProbeReadings) -> (out: ContainerProbeState)
    ensures
        out == all_gated(p, *r),
{
    ContainerProbeState {
        liveness: gate(p.liveness, r.liveness),
        readiness: gate(p.readiness, r.readiness),
        startup: gate(p.startup, r.startup),
    }
}

// ---- laws ----------------------------------------------------------------------------------

/// While a container that has a startup probe starts it is not ready, and only that probe restarts
/// it: it has started once the probe said so, and not before.
pub proof fn starting_is_not_judged(p: ContainerProbeState, r: ProbeReadings)
    requires
        p.startup is Some,
        read_from(kinds_of(p), r),
        !r.startup.unwrap().gate_satisfied,
    ensures
        !outcome_of(r).ready,
        outcome_of(r).needs_restart == r.startup.unwrap().needs_restart,
{
}

/// A container is ready exactly where each probe that it must pass for that was read and has
/// passed: one without a readiness probe is ready once it has started, and one without a startup
/// probe has started.
pub proof fn ready_is_earned(p: ContainerProbeState, r: ProbeReadings)
    requires
        read_from(kinds_of(p), r),
    ensures
        outcome_of(r).ready <==> {
            &&& p.startup is Some ==> r.startup.unwrap().gate_satisfied
            &&& p.readiness is Some ==> r.readiness.unwrap().gate_satisfied
        },
{
}

/// After a restart no probe has passed: what a container must prove it proves again.
pub proof fn a_restart_proves_nothing(p: ContainerProbeState, now: Instant)
    ensures
        reset_at(p, now).startup matches Some(s) ==> !s.gate_satisfied && s.since == now,
        reset_at(p, now).readiness matches Some(s) ==> !s.gate_satisfied && s.since == now,
        reset_at(p, now).liveness matches Some(s) ==> !s.gate_satisfied && s.since == now,
        probeless(reset_at(p, now)) == probeless(p),
{
}

/// A container that has started is restarted exactly where its startup or its liveness probe asks
/// for it, whatever its readiness probe says.
pub proof fn alive_or_restarted(r: ProbeReadings)
    requires
        r.startup matches Some(s) ==> s.gate_satisfied,
    ensures
        outcome_of(r).needs_restart <==> (r.startup is Some && r.startup.unwrap().needs_restart)
            || (r.liveness is Some && r.liveness.unwrap().needs_restart),
{
}

/// Whether a container is restarted does not depend on its readiness probe, and whether it is ready
/// does not depend on its liveness probe.
pub proof fn each_probe_has_its_own_say(
    r: ProbeReadings,
    readiness: Option<ProbeReading>,
    liveness: Option<ProbeReading>,
)
    ensures
        outcome_of(ProbeReadings { readiness, ..r }).needs_restart == outcome_of(r).needs_restart,
        outcome_of(ProbeReadings { liveness, ..r }).ready == outcome_of(r).ready,
{
}

/// What is up is ready where it has started and its readiness probe, if it has one, has passed; what
/// is down is never ready. Liveness counts once it has started.
pub proof fn what_readiness_takes(
    startup_done: bool,
    readiness_ready: bool,
    has_startup: bool,
    has_readiness: bool,
)
    ensures
        !readiness_of(startup_done, readiness_ready, has_startup, has_readiness, false).0,
        readiness_of(startup_done, readiness_ready, has_startup, has_readiness, true).0 <==> (
        has_startup ==> startup_done) && (has_readiness ==> readiness_ready),
        forall|up: bool|
            (#[trigger] readiness_of(startup_done, readiness_ready, has_startup, has_readiness, up)).1
                <==> (has_startup ==> startup_done),
{
}

/// Another pass is asked for no later than any probe is due, nor later than was asked before, and
/// exactly as soon as one of these.
pub proof fn the_soonest_probe_is_waited_for(soonest: Option<nat>, r: ProbeReadings)
    ensures
        ({
            let got = soonest_with(soonest, r);
            &&& soonest matches Some(d) ==> got matches Some(g) && g <= d
            &&& r.startup matches Some(s) ==> got matches Some(g) && g <= s.next_due_in@
            &&& r.readiness matches Some(s) ==> got matches Some(g) && g <= s.next_due_in@
            &&& r.liveness matches Some(s) ==> got matches Some(g) && g <= s.next_due_in@
            &&& got matches Some(g) ==> {
                ||| soonest == Some(g)
                ||| r.startup is Some && r.startup.unwrap().next_due_in@ == g
                ||| r.readiness is Some && r.readiness.unwrap().next_due_in@ == g
                ||| r.liveness is Some && r.liveness.unwrap().next_due_in@ == g
            }
        }),
{
}

/// What a probe said last is what is kept of it, and nothing else of it changes; one that was not
/// read stays as it was.
pub proof fn the_last_reading_is_kept(p: ContainerProbeState, r: ProbeReadings)
    ensures
        ({
            let q = all_gated(p, r);
            &&& r.startup is None ==> q.startup == p.startup
            &&& r.readiness is None ==> q.readiness == p.readiness
            &&& r.liveness is None ==> q.liveness == p.liveness
            &&& p.startup matches Some(s) ==> q.startup matches Some(t) && t.probe == s.probe
                && t.since == s.since && (r.startup matches Some(x) ==> t.gate_satisfied
                == x.gate_satisfied)
            &&& p.readiness matches Some(s) ==> q.readiness matches Some(t) && t.probe == s.probe
                && t.since == s.since && (r.readiness matches Some(x) ==> t.gate_satisfied
                == x.gate_satisfied)
            &&& p.liveness matches Some(s) ==> q.liveness matches Some(t) && t.probe == s.probe
                && t.since == s.since && (r.liveness matches Some(x) ==> t.gate_satisfied
                == x.gate_satisfied)
            &&& p.startup is None ==> q.startup is None
            &&& p.readiness is None ==> q.readiness is None
            &&& p.liveness is None ==> q.liveness is None
        }),
{
}

/// A restart keeps the probes of a container: each is the same, and there is no other.
pub proof fn a_restart_keeps_the_probes(p: ContainerProbeState, now: Instant)
    ensures
        ({
            let q = reset_at(p, now);
            &&& q.startup is Some == p.startup is Some
            &&& q.readiness is Some == p.readiness is Some
            &&& q.liveness is Some == p.liveness is Some
            &&& p.startup matches Some(s) ==> q.startup.unwrap().probe == s.probe
            &&& p.readiness matches Some(s) ==> q.readiness.unwrap().probe == s.probe
            &&& p.liveness matches Some(s) ==> q.liveness.unwrap().probe == s.probe
        }),
{
}

/// A container is probed exactly where it has a probe, and read for those that it has.
pub proof fn what_is_probed(p: ContainerProbeState, r: ProbeReadings)
    ensures
        any_of(kinds_of(p)) <==> p.startup is Some || p.readiness is Some || p.liveness is Some,
        probeless(p) <==> !any_of(kinds_of(p)),
        read_from(kinds_of(p), r) <==> r.startup is Some == p.startup is Some
            && r.readiness is Some == p.readiness is Some && r.liveness is Some
            == p.liveness is Some,
{
}

proof fn named_ports_holds(list: Seq<Doc>, p: (Seq<char>, int))
    ensures
        named_ports(list).contains(p) <==> exists|i: int|
            0 <= i < list.len() && named_port(#[trigger] list[i]) == Some(p),
    decreases list.len(),
{
    if list.len() > 0 {
        let front = list.drop_last();
        named_ports_holds(front, p);
        let rest = named_ports(front);
        if exists|i: int| 0 <= i < list.len() && named_port(#[trigger] list[i]) == Some(p) {
            let i = choose|i: int| 0 <= i < list.len() && named_port(#[trigger] list[i]) == Some(p);
            if i < front.len() {
                assert(named_port(front[i]) == Some(p));
                let k = choose|k: int| 0 <= k < rest.len() && rest[k] == p;
                assert(named_ports(list)[k] == p);
            } else {
                assert(named_ports(list)[rest.len() as int] == p);
            }
        }
        if named_ports(list).contains(p) {
            let k = choose|k: int| 0 <= k < named_ports(list).len() && named_ports(list)[k] == p;
            if k < rest.len() {
                assert(rest[k] == p);
                let i = choose|i: int|
                    0 <= i < front.len() && named_port(#[trigger] front[i]) == Some(p);
                assert(named_port(list[i]) == Some(p));
            } else {
                assert(named_port(list[front.len() as int]) == Some(p));
            }
        }
    }
}

/// A port that a probe can be sent to by name is one of the list that has this name and number, and
/// every such one is.
pub proof fn ports_are_known_by_name(list: Seq<Doc>, name: Seq<char>, n: int)
    requires
        0 <= n <= 65535,
    ensures
        named_ports(list).contains((name, n)) <==> exists|i: int|
            0 <= i < list.len() && (#[trigger] list[i]).str_at("name"@) == Some(name)
                && list[i].int_at("containerPort"@) == Some(n),
{
    named_ports_holds(list, (name, n));
    if exists|i: int|
        0 <= i < list.len() && (#[trigger] list[i]).str_at("name"@) == Some(name)
            && list[i].int_at("containerPort"@) == Some(n) {
        let i = choose|i: int|
            0 <= i < list.len() && (#[trigger] list[i]).str_at("name"@) == Some(name)
                && list[i].int_at("containerPort"@) == Some(n);
        assert(named_port(list[i]) == Some((name, n)));
    }
}

} // verus!
