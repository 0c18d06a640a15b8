//! What a pass over objects came to.

use vstd::prelude::*;
use crate::probes::{self, accumulate_requeue};
use crate::time::{self, Duration};

verus! {

/// What a pass over objects came to.
#[derive(Clone, Copy, Debug, PartialEq, Eq, Structural)]
pub struct ReconcileReport {
    pub objects_examined: usize,
    pub objects_changed: usize,
    pub objects_skipped: usize,
}

impl Default for ReconcileReport {
    fn default() -> (r: ReconcileReport)
        ensures
            r == (ReconcileReport { objects_examined: 0, objects_changed: 0, objects_skipped: 0 }),
    {
        ReconcileReport { objects_examined: 0, objects_changed: 0, objects_skipped: 0 }
    }
}

/// One more, as long as there is room.
pub open spec fn more(n: usize) -> usize {
    if n < usize::MAX {
        (n + 1) as usize
    } else {
        n
    }
}

/// One more, as long as there is room.
pub open spec fn more_of(n: u32) -> u32 {
    if n < u32::MAX {
        (n + 1) as u32
    } else {
        n
    }
}

/// One more, as long as there is room.
pub fn one_more(n: u32) -> (r: u32)
    ensures
        r == more_of(n),
{
    if n < 0xffff_ffff {
        n + 1
    } else {
        n
    }
}

impl ReconcileReport {
    /// Counts an object that changed.
    pub fn changed(&mut self)
        ensures
            *final(self) == (ReconcileReport {
                objects_changed: more(old(self).objects_changed),
                ..*old(self)
            }),
    {
        if self.objects_changed < usize::MAX {
            self.objects_changed = self.objects_changed + 1;
        }
    }

    /// Counts an object that was passed over.
    pub fn skipped(&mut self)
        ensures
            *final(self) == (ReconcileReport {
                objects_skipped: more(old(self).objects_skipped),
                ..*old(self)
            }),
    {
        if self.objects_skipped < usize::MAX {
            self.objects_skipped = self.objects_skipped + 1;
        }
    }
}

/// Why something is told of a pod.
#[derive(Clone, Copy, Debug, PartialEq, Eq, Structural)]
pub enum EventReason {
    Started,
    Failed,
    BackOff,
    Unhealthy,
}

/// Something that is told of a pod.
#[derive(Debug)]
pub struct PodEvent {
    pub reason: EventReason,
    pub message: String,
}

/// What a `PodEvent` stands for.
pub struct EventView {
    pub reason: EventReason,
    pub message: Seq<char>,
}

impl View for PodEvent {
    type V = EventView;

    open spec fn view(&self) -> EventView {
        EventView { reason: self.reason, message: self.message@ }
    }
}

/// What a list of events stands for.
pub open spec fn event_views(v: Seq<PodEvent>) -> Seq<EventView> {
    v.map_values(|e: PodEvent| e@)
}

/// What has come of a pass over pods so far.
#[derive(Debug)]
pub struct Tally {
    pub report: ReconcileReport,
    /// The soonest span after which another pass was asked for.
    pub soonest: Option<Duration>,
    /// What is told of the pods, in order.
    pub events: Vec<PodEvent>,
}

/// What a `Tally` stands for.
#[verifier::ext_equal]
pub struct TallyView {
    pub report: ReconcileReport,
    pub soonest: Option<nat>,
    pub events: Seq<EventView>,
}

impl View for Tally {
    type V = TallyView;

    open spec fn view(&self) -> TallyView {
        TallyView {
            report: self.report,
            soonest: probes::span(self.soonest),
            events: event_views(self.events@),
        }
    }
}

impl TallyView {
    /// With one more object that changed.
    pub open spec fn changed(self) -> TallyView {
        TallyView {
            report: ReconcileReport {
                objects_changed: more(self.report.objects_changed),
                ..self.report
            },
            ..self
        }
    }

    /// With one more object that was passed over.
    pub open spec fn skipped(self) -> TallyView {
        TallyView {
            report: ReconcileReport {
                objects_skipped: more(self.report.objects_skipped),
                ..self.report
            },
            ..self
        }
    }

    /// Where another pass is asked for after this span.
    pub open spec fn within(self, delay: nat) -> TallyView {
        TallyView { soonest: probes::sooner(self.soonest, Some(delay)), ..self }
    }

    /// Where this is told too.
    pub open spec fn told(self, reason: EventReason, message: Seq<char>) -> TallyView {
        TallyView { events: self.events.push(EventView { reason, message }), ..self }
    }
}

impl Tally {
    /// Nothing yet.
    pub fn new() -> (r: Tally)
        ensures
            r@ == (TallyView {
                report: ReconcileReport {
                    objects_examined: 0,
                    objects_changed: 0,
                    objects_skipped: 0,
                },
                soonest: None,
                events: Seq::empty(),
            }),
    {
        let r = Tally { report: ReconcileReport::default(), soonest: None, events: Vec::new() };
        assert(event_views(r.events@) =~= Seq::<EventView>::empty());
        r
    }

    /// Counts an object that changed.
    pub fn changed(&mut self)
        ensures
            final(self)@ == old(self)@.changed(),
    {
        self.report.changed();
    }

    /// Counts an object that was passed over.
    pub fn skipped(&mut self)
        ensures
            final(self)@ == old(self)@.skipped(),
    {
        self.report.skipped();
    }

    /// Asks for another pass after this span.
    pub fn within(&mut self, delay: Duration)
        ensures
            final(self)@ == old(self)@.within(delay@),
    {
        accumulate_requeue(&mut self.soonest, delay);
    }

    /// Tells something.
    pub fn tell(&mut self, reason: EventReason, message: String)
        ensures
            final(self)@ == old(self)@.told(reason, message@),
    {
        let ghost was = self.events@;
        let e = PodEvent { reason, message };
        self.events.push(e);
        assert(event_views(self.events@) =~= event_views(was).push(e@));
    }
}

/// When the next pass is due.
#[derive(Clone, Copy, Debug, PartialEq, Eq, Structural)]
pub enum ReconcileResult {
    /// When something changes.
    Done,
    /// After this span at the latest.
    Requeue(Duration),
}

/// The shortest span after which a pass is asked for, in seconds.
pub const MIN_REQUEUE_SECS: u64 = 1;

/// The shortest span after which a pass is asked for.
pub fn min_requeue() -> (r: Duration)
    ensures
        r@ == time::secs(MIN_REQUEUE_SECS as nat),
{
    Duration::from_secs(MIN_REQUEUE_SECS)
}

/// When the next pass is due, where this is the soonest span that was asked for.
pub fn next_pass(soonest: Option<Duration>) -> (r: ReconcileResult)
    ensures
        match soonest {
            None => r is Done,
            Some(d) => r matches ReconcileResult::Requeue(after) && after@ == if d@ < time::secs(
                1,
            ) {
                time::secs(1)
            } else {
                d@
            },
        },
{
    match soonest {
        Some(after) => ReconcileResult::Requeue(after.max(min_requeue())),
        None => ReconcileResult::Done,
    }
}

// ---- laws ----------------------------------------------------------------------------------

/// What is counted is counted by one, in its own place, and what is told comes last; nothing else of
/// a tally changes.
pub proof fn a_tally_grows_by_one(t: TallyView, reason: EventReason, message: Seq<char>)
    requires
        t.report.objects_changed < usize::MAX,
        t.report.objects_skipped < usize::MAX,
    ensures
        t.changed().report.objects_changed == t.report.objects_changed + 1,
        t.changed().report.objects_skipped == t.report.objects_skipped,
        t.changed().report.objects_examined == t.report.objects_examined,
        t.changed().events == t.events,
        t.changed().soonest == t.soonest,
        t.skipped().report.objects_skipped == t.report.objects_skipped + 1,
        t.skipped().report.objects_changed == t.report.objects_changed,
        t.skipped().report.objects_examined == t.report.objects_examined,
        t.skipped().events == t.events,
        t.skipped().soonest == t.soonest,
        t.told(reason, message).events.drop_last() == t.events,
        t.told(reason, message).events.last().reason == reason,
        t.told(reason, message).events.last().message == message,
        t.told(reason, message).report == t.report,
        t.told(reason, message).soonest == t.soonest,
{
    assert(t.told(reason, message).events.drop_last() =~= t.events);
}

/// Another pass is asked for after the shorter of two spans.
pub proof fn the_shorter_span_counts(t: TallyView, delay: nat)
    ensures
        t.within(delay).soonest matches Some(d) && d <= delay && (d == delay || t.soonest == Some(
            d,
        )) && (t.soonest matches Some(before) ==> d <= before),
        t.within(delay).report == t.report,
        t.within(delay).events == t.events,
{
}

/// A count of restarts goes up by one, and stays at the largest there is.
pub proof fn a_count_goes_up_by_one(n: u32, m: usize)
    ensures
        n < u32::MAX ==> more_of(n) == n + 1,
        n == u32::MAX ==> more_of(n) == n,
        m < usize::MAX ==> more(m) == m + 1,
        m == usize::MAX ==> more(m) == m,
{
}

/// A tally is told whole: what was counted, the soonest span, and each event in its order.
pub proof fn a_tally_is_told_whole(t: Tally, i: int)
    ensures
        t@.report == t.report,
        t.soonest matches Some(d) ==> t@.soonest == Some(d@),
        t.soonest is None ==> t@.soonest is None,
        t@.events.len() == t.events@.len(),
        0 <= i < t.events@.len() ==> t@.events[i].reason == t.events@[i].reason
            && t@.events[i].message == t.events@[i].message@,
{
}

} // verus!
