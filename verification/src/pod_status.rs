//! The status of a pod, as it is published.

use vstd::prelude::*;
use crate::conditions::{self, other_conditions};
use crate::json::{self, Doc, Json};
use crate::lifecycle::{self, ContainerState, ContainerStatusOut, PodPhase, StateView, StatusView};

verus! {

/// What is published of what a container is doing.
pub open spec fn state_doc(s: StateView) -> Doc {
    match s {
        StateView::Waiting { reason } => Doc::Obj(
            map!["waiting"@ => Doc::Obj(map!["reason"@ => Doc::Str(reason)])],
        ),
        StateView::Running => Doc::Obj(map!["running"@ => Doc::Obj(Map::empty())]),
        StateView::Terminated(t) => Doc::Obj(
            map![
                "terminated"@ => Doc::Obj(
                    map![
                        "exitCode"@ => Doc::Int(lifecycle::published_code(t)),
                        "reason"@ => Doc::Str(lifecycle::published_reason(t))
                    ],
                )
            ],
        ),
    }
}

/// What is published of a container.
pub open spec fn status_doc(s: StatusView) -> Doc {
    let m = map![
        "name"@ => Doc::Str(s.name),
        "ready"@ => Doc::Bool(s.ready),
        "state"@ => state_doc(s.state),
        "restartCount"@ => Doc::Int(s.restart_count as int)
    ];
    Doc::Obj(
        match s.container_id {
            Some(id) => m.insert("containerID"@, Doc::Str(id)),
            None => m,
        },
    )
}

/// What is published of a container.
pub fn render_container_status(cs: &ContainerStatusOut) -> (r: Json)
    ensures
        r@ == status_doc(cs@),
{
    let state = match &cs.state {
        ContainerState::Waiting { reason } => Json::object().with(
            "waiting",
            Json::object().with("reason", Json::string(reason.as_str())),
        ),
        ContainerState::Running => Json::object().with("running", Json::object()),
        ContainerState::Terminated(t) => Json::object().with(
            "terminated",
            Json::object().with("exitCode", Json::Int(t.exit_code() as i128)).with(
                "reason",
                Json::string(t.reason()),
            ),
        ),
    };
    let entry = Json::object().with("name", Json::string(cs.name.as_str())).with(
        "ready",
        Json::Bool(cs.ready),
    ).with("state", state).with("restartCount", Json::Int(cs.restart_count as i128));
    match &cs.container_id {
        Some(id) => entry.with("containerID", Json::string(id.as_str())),
        None => entry,
    }
}

/// What is published of containers.
pub open spec fn status_docs(v: Seq<StatusView>) -> Seq<Doc> {
    v.map_values(|s: StatusView| status_doc(s))
}

fn render_all(v: &[ContainerStatusOut]) -> (r: Vec<Json>)
    ensures
        json::docs(r@) == status_docs(lifecycle::status_views(v@)),
{
    let mut out: Vec<Json> = Vec::new();
    let mut i: usize = 0;
    assert(json::docs(out@) =~= status_docs(lifecycle::status_views(v@)).take(0));
    while i < v.len()
        invariant
            i <= v@.len(),
            json::docs(out@) =~= status_docs(lifecycle::status_views(v@)).take(i as int),
        decreases v@.len() - i,
    {
        let ghost before = out@;
        out.push(render_container_status(&v[i]));
        assert(out@.drop_last() =~= before);
        i += 1;
    }
    assert(status_docs(lifecycle::status_views(v@)).take(i as int) =~= status_docs(lifecycle::status_views(v@)));
    out
}

/// The name of a phase.
pub open spec fn phase_text(p: PodPhase) -> Seq<char> {
    match p {
        PodPhase::Pending => "Pending"@,
        PodPhase::Running => "Running"@,
        PodPhase::Succeeded => "Succeeded"@,
        PodPhase::Failed => "Failed"@,
        PodPhase::Unknown => "Unknown"@,
    }
}

/// The name of a phase.
pub fn phase_name(p: PodPhase) -> (r: &'static str)
    ensures
        r@ == phase_text(p),
{
    match p {
        PodPhase::Pending => "Pending",
        PodPhase::Running => "Running",
        PodPhase::Succeeded => "Succeeded",
        PodPhase::Failed => "Failed",
        PodPhase::Unknown => "Unknown",
    }
}

/// A condition that holds or does not.
pub open spec fn condition(kind: Seq<char>, holds: bool) -> Doc {
    Doc::Obj(
        map![
            "type"@ => Doc::Str(kind),
            "status"@ => Doc::Str(
                if holds {
                    "True"@
                } else {
                    "False"@
                },
            )
        ],
    )
}

fn condition_value(kind: &str, holds: bool) -> (r: Json)
    ensures
        r@ == condition(kind@, holds),
{
    let status = if holds {
        "True"
    } else {
        "False"
    };
    Json::object().with("type", Json::string(kind)).with("status", Json::string(status))
}

/// The types of the conditions that are told here. All others belong to someone else.
pub open spec fn owned() -> Seq<Seq<char>> {
    seq!["PodScheduled"@, "Initialized"@, "Ready"@, "ContainersReady"@]
}

/// Whether every container of a pod is up and ready.
pub open spec fn all_ready(phase: PodPhase, statuses: Seq<StatusView>) -> bool {
    phase is Running && forall|i: int|
        0 <= i < statuses.len() ==> (#[trigger] statuses[i]).ready
}

/// The conditions that are told here, in their order.
pub open spec fn own_conditions(ready: bool, initialized: bool, has_init: bool) -> Seq<Doc> {
    let a = seq![condition("ContainersReady"@, ready), condition("Ready"@, ready)];
    let b = if has_init {
        a.push(condition("Initialized"@, initialized))
    } else {
        a
    };
    b.push(condition("PodScheduled"@, true))
}

/// The conditions of others, as they stand.
pub open spec fn foreign_conditions(live: Doc) -> Seq<Doc> {
    match live.arr_at2("status"@, "conditions"@) {
        Some(list) => conditions::others(list, owned()),
        None => Seq::empty(),
    }
}

/// The conditions of a pod: those that are told here, then those of others as they stand.
pub open spec fn merged_conditions(
    live: Doc,
    ready: bool,
    initialized: bool,
    has_init: bool,
) -> Seq<Doc> {
    own_conditions(ready, initialized, has_init) + foreign_conditions(live)
}

/// When a pod was started: as it was told first.
pub open spec fn start_time(live: Doc, now: Seq<char>) -> Seq<char> {
    match live.str_at2("status"@, "startTime"@) {
        Some(t) => t,
        None => now,
    }
}

/// The status of a pod.
pub open spec fn pod_status(
    live: Doc,
    phase: PodPhase,
    init_statuses: Seq<StatusView>,
    statuses: Seq<StatusView>,
    pod_ip: Option<Seq<char>>,
    initialized: bool,
    has_init: bool,
    now: Seq<char>,
) -> Doc {
    let ready = all_ready(phase, statuses);
    let a = map![
        "phase"@ => Doc::Str(phase_text(phase)),
        "conditions"@ => Doc::Arr(merged_conditions(live, ready, initialized, has_init)),
        "containerStatuses"@ => Doc::Arr(status_docs(statuses))
    ];
    let b = if has_init {
        a.insert("initContainerStatuses"@, Doc::Arr(status_docs(init_statuses)))
    } else {
        a
    };
    let c = match pod_ip {
        Some(ip) => b.insert("podIP"@, Doc::Str(ip)).insert(
            "podIPs"@,
            Doc::Arr(seq![Doc::Obj(map!["ip"@ => Doc::Str(ip)])]),
        ),
        None => b,
    };
    Doc::Obj(c.insert("startTime"@, Doc::Str(start_time(live, now))))
}

/// The conditions that are told here, in their order.
fn tell_own(ready: bool, initialized: bool, has_init: bool) -> (r: Vec<Json>)
    ensures
        json::docs(r@) == own_conditions(ready, initialized, has_init),
{
    let mut list: Vec<Json> = Vec::new();
    assert(json::docs(list@) =~= Seq::<Doc>::empty());
    let ghost l0 = list@;
    list.push(condition_value("ContainersReady", ready));
    assert(list@.drop_last() =~= l0);
    assert(json::docs(list@) == json::docs(l0).push(condition("ContainersReady"@, ready)));
    let ghost l1 = list@;
    list.push(condition_value("Ready", ready));
    assert(list@.drop_last() =~= l1);
    assert(json::docs(list@) == json::docs(l1).push(condition("Ready"@, ready)));
    let ghost l2 = list@;
    if has_init {
        list.push(condition_value("Initialized", initialized));
        assert(list@.drop_last() =~= l2);
        assert(json::docs(list@) == json::docs(l2).push(condition("Initialized"@, initialized)));
    }
    let ghost l3 = list@;
    list.push(condition_value("PodScheduled", true));
    assert(list@.drop_last() =~= l3);
    assert(json::docs(list@) == json::docs(l3).push(condition("PodScheduled"@, true)));
    assert(json::docs(list@) =~= own_conditions(ready, initialized, has_init));
    list
}

proof fn joined_docs(a: Seq<Json>, b: Seq<Json>)
    ensures
        json::docs(a + b) == json::docs(a) + json::docs(b),
{
    json::docs_index(a);
    json::docs_index(b);
    json::docs_index(a + b);
    assert(json::docs(a + b) =~= json::docs(a) + json::docs(b));
}

/// The status of a pod without init containers.
pub fn build_pod_status(
    live: &Json,
    phase: PodPhase,
    statuses: &[ContainerStatusOut],
    pod_ip: Option<&str>,
    now: &str,
) -> (r: Json)
    ensures
        r@ == pod_status(
            live@,
            phase,
            Seq::empty(),
            lifecycle::status_views(statuses@),
            lifecycle::opt_text(pod_ip),
            true,
            false,
            now@,
        ),
{
    let none: Vec<ContainerStatusOut> = Vec::new();
    assert(lifecycle::status_views(none@) =~= Seq::<StatusView>::empty());
    build_pod_status_with_init(live, phase, none.as_slice(), statuses, pod_ip, true, false, now)
}

/// The status of a pod. `now` is when it was started, where it was not told yet.
pub fn build_pod_status_with_init(
    live: &Json,
    phase: PodPhase,
    init_statuses: &[ContainerStatusOut],
    statuses: &[ContainerStatusOut],
    pod_ip: Option<&str>,
    initialized: bool,
    has_init: bool,
    now: &str,
) -> (r: Json)
    ensures
        r@ == pod_status(
            live@,
            phase,
            lifecycle::status_views(init_statuses@),
            lifecycle::status_views(statuses@),
            lifecycle::opt_text(pod_ip),
            initialized,
            has_init,
            now@,
        ),
{
    let running = match phase {
        PodPhase::Running => true,
        _ => false,
    };
    let mut every = true;
    let mut i: usize = 0;
    while i < statuses.len()
        invariant
            i <= statuses@.len(),
            every == forall|k: int| 0 <= k < i ==> (#[trigger] statuses@[k]).ready,
        decreases statuses@.len() - i,
    {
        if !statuses[i].ready {
            every = false;
        }
        i += 1;
    }
    let ready = running && every;
    let ghost views = lifecycle::status_views(statuses@);
    assert(every == forall|k: int| 0 <= k < views.len() ==> (#[trigger] views[k]).ready) by {
        assert forall|k: int| 0 <= k < views.len() implies #[trigger] views[k].ready
            == statuses@[k].ready by {}
        if every {
            assert(forall|k: int| 0 <= k < views.len() ==> (#[trigger] views[k]).ready);
        } else {
            let k = choose|k: int| 0 <= k < statuses@.len() && !(#[trigger] statuses@[k]).ready;
            assert(!views[k].ready);
        }
    }
    let types: [&str; 4] = ["PodScheduled", "Initialized", "Ready", "ContainersReady"];
    assert(conditions::slices(types@) =~= owned());
    let mut foreign = other_conditions(live.arr_at2("status", "conditions"), &types);
    let mut list = tell_own(ready, initialized, has_init);
    proof {
        joined_docs(list@, foreign@);
    }
    list.append(&mut foreign);
    let mut status = Json::object().with("phase", Json::string(phase_name(phase))).with(
        "conditions",
        Json::array(list),
    ).with("containerStatuses", Json::array(render_all(statuses)));
    if has_init {
        status.set("initContainerStatuses", Json::array(render_all(init_statuses)));
    }
    if let Some(ip) = pod_ip {
        status.set("podIP", Json::string(ip));
        let mut ips: Vec<Json> = Vec::new();
        assert(json::docs(ips@) =~= Seq::<Doc>::empty());
        let ghost none = ips@;
        ips.push(Json::object().with("ip", Json::string(ip)));
        assert(ips@.drop_last() =~= none);
        assert(json::docs(ips@) =~= seq![Doc::Obj(map!["ip"@ => Doc::Str(ip@)])]);
        status.set("podIPs", Json::array(ips));
    }
    let started = match live.str_at2("status", "startTime") {
        Some(t) => t,
        None => now,
    };
    status.set("startTime", Json::string(started));
    status
}

// ---- laws ----------------------------------------------------------------------------------

proof fn others_of_others(list: Seq<Doc>, types: Seq<Seq<char>>)
    ensures
        conditions::others(conditions::others(list, types), types) == conditions::others(
            list,
            types,
        ),
    decreases list.len(),
{
    if list.len() > 0 {
        others_of_others(list.drop_last(), types);
        let rest = conditions::others(list.drop_last(), types);
        if !conditions::has_type(list.last(), types) {
            assert(rest.push(list.last()).drop_last() =~= rest);
        }
    }
}

proof fn others_drops_owned(ours: Seq<Doc>, kept: Seq<Doc>, types: Seq<Seq<char>>)
    requires
        forall|i: int| 0 <= i < ours.len() ==> conditions::has_type(#[trigger] ours[i], types),
    ensures
        conditions::others(ours + kept, types) == conditions::others(kept, types),
    decreases ours.len() + kept.len(),
{
    if kept.len() > 0 {
        assert((ours + kept).drop_last() =~= ours + kept.drop_last());
        others_drops_owned(ours, kept.drop_last(), types);
    } else if ours.len() > 0 {
        assert((ours + kept).drop_last() =~= ours.drop_last() + kept);
        assert((ours + kept).last() == ours[ours.len() - 1]);
        others_drops_owned(ours.drop_last(), kept, types);
    } else {
        assert(ours + kept =~= kept);
    }
}

proof fn own_conditions_are_owned(ready: bool, initialized: bool, has_init: bool)
    ensures
        forall|i: int|
            0 <= i < own_conditions(ready, initialized, has_init).len() ==> conditions::has_type(
                #[trigger] own_conditions(ready, initialized, has_init)[i],
                owned(),
            ),
{
    reveal_strlit("type");
    reveal_strlit("status");
    assert("type"@ != "status"@) by {
        assert("type"@.len() != "status"@.len());
    }
    assert(owned()[0] == "PodScheduled"@);
    assert(owned()[1] == "Initialized"@);
    assert(owned()[2] == "Ready"@);
    assert(owned()[3] == "ContainersReady"@);
    assert(condition("ContainersReady"@, ready).str_at("type"@) == Some("ContainersReady"@));
    assert(condition("Ready"@, ready).str_at("type"@) == Some("Ready"@));
    assert(condition("Initialized"@, initialized).str_at("type"@) == Some("Initialized"@));
    assert(condition("PodScheduled"@, true).str_at("type"@) == Some("PodScheduled"@));
}

/// The status settles: one that is built for a pod that already has it is the same, at whatever
/// time it is built. So a pod that does not change is not written again.
pub proof fn the_status_settles(
    live: Doc,
    again: Doc,
    phase: PodPhase,
    init_statuses: Seq<StatusView>,
    statuses: Seq<StatusView>,
    pod_ip: Option<Seq<char>>,
    initialized: bool,
    has_init: bool,
    now: Seq<char>,
    later: Seq<char>,
)
    requires
        again.get("status"@) == Some(
            pod_status(live, phase, init_statuses, statuses, pod_ip, initialized, has_init, now),
        ),
    ensures
        pod_status(
            again,
            phase,
            init_statuses,
            statuses,
            pod_ip,
            initialized,
            has_init,
            later,
        ) == pod_status(
            live,
            phase,
            init_statuses,
            statuses,
            pod_ip,
            initialized,
            has_init,
            now,
        ),
{
    let ready = all_ready(phase, statuses);
    let ours = own_conditions(ready, initialized, has_init);
    let kept = foreign_conditions(live);
    names_differ();
    let d = pod_status(
        live,
        phase,
        init_statuses,
        statuses,
        pod_ip,
        initialized,
        has_init,
        now,
    );
    assert(d.get("conditions"@) == Some(Doc::Arr(ours + kept)));
    assert(d.get("startTime"@) == Some(Doc::Str(start_time(live, now))));
    own_conditions_are_owned(ready, initialized, has_init);
    others_drops_owned(ours, kept, owned());
    if let Some(list) = live.arr_at2("status"@, "conditions"@) {
        others_of_others(list, owned());
    }
    assert(conditions::others(kept, owned()) == kept);
}

proof fn names_differ()
    ensures
        "conditions"@ != "containerStatuses"@,
        "conditions"@ != "initContainerStatuses"@,
        "conditions"@ != "podIP"@,
        "conditions"@ != "podIPs"@,
        "conditions"@ != "startTime"@,
        "conditions"@ != "phase"@,
{
    reveal_strlit("conditions");
    reveal_strlit("containerStatuses");
    reveal_strlit("initContainerStatuses");
    reveal_strlit("podIP");
    reveal_strlit("podIPs");
    reveal_strlit("startTime");
    reveal_strlit("phase");
    assert("conditions"@.len() == 10);
    assert("containerStatuses"@.len() == 17);
    assert("initContainerStatuses"@.len() == 21);
    assert("podIP"@.len() == 5);
    assert("podIPs"@.len() == 6);
    assert("startTime"@.len() == 9);
    assert("phase"@.len() == 5);
}

/// A condition of someone else survives, as it stands, behind those that are told here.
pub proof fn foreign_conditions_survive(
    live: Doc,
    list: Seq<Doc>,
    c: Doc,
    ready: bool,
    initialized: bool,
    has_init: bool,
)
    requires
        live.arr_at2("status"@, "conditions"@) == Some(list),
        list.contains(c),
        !conditions::has_type(c, owned()),
    ensures
        merged_conditions(live, ready, initialized, has_init).skip(
            own_conditions(ready, initialized, has_init).len() as int,
        ).contains(c),
{
    conditions::others_survive(list, owned(), c);
    let kept = conditions::others(list, owned());
    let all = merged_conditions(live, ready, initialized, has_init);
    assert(all.skip(own_conditions(ready, initialized, has_init).len() as int) =~= kept);
}

/// The conditions that are told here stand at fixed places, whatever others have told: whether the
/// containers are ready, whether the pod is, whether it is initialised where it has init
/// containers, and that it is scheduled.
pub proof fn own_conditions_come_first(live: Doc, ready: bool, initialized: bool, has_init: bool)
    ensures
        ({
            let all = merged_conditions(live, ready, initialized, has_init);
            let told: int = if has_init {
                4
            } else {
                3
            };
            &&& all.len() == told + foreign_conditions(live).len()
            &&& all[0] == condition("ContainersReady"@, ready)
            &&& all[1] == condition("Ready"@, ready)
            &&& has_init ==> all[2] == condition("Initialized"@, initialized)
            &&& all[told - 1] == condition("PodScheduled"@, true)
            &&& all.skip(told) == foreign_conditions(live)
        }),
{
    let all = merged_conditions(live, ready, initialized, has_init);
    let ours = own_conditions(ready, initialized, has_init);
    assert(all.skip(ours.len() as int) =~= foreign_conditions(live));
}

/// A pod is ready exactly where it is running and each of its containers is ready.
pub proof fn ready_means_every_container(
    live: Doc,
    phase: PodPhase,
    statuses: Seq<StatusView>,
    initialized: bool,
    has_init: bool,
)
    ensures
        merged_conditions(live, all_ready(phase, statuses), initialized, has_init)[1] == condition(
            "Ready"@,
            all_ready(phase, statuses),
        ),
        phase != PodPhase::Running ==> !all_ready(phase, statuses),
{
    own_conditions_come_first(live, all_ready(phase, statuses), initialized, has_init);
}

proof fn fields_differ()
    ensures
        "phase"@ != "podIP"@,
        "phase"@ != "podIPs"@,
        "phase"@ != "containerStatuses"@,
        "phase"@ != "initContainerStatuses"@,
        "phase"@ != "startTime"@,
        "podIP"@ != "podIPs"@,
        "podIP"@ != "containerStatuses"@,
        "podIP"@ != "initContainerStatuses"@,
        "podIP"@ != "startTime"@,
        "podIPs"@ != "containerStatuses"@,
        "podIPs"@ != "initContainerStatuses"@,
        "podIPs"@ != "startTime"@,
        "containerStatuses"@ != "initContainerStatuses"@,
        "containerStatuses"@ != "startTime"@,
        "initContainerStatuses"@ != "startTime"@,
{
    reveal_strlit("containerStatuses");
    reveal_strlit("initContainerStatuses");
    reveal_strlit("podIP");
    reveal_strlit("podIPs");
    reveal_strlit("startTime");
    reveal_strlit("phase");
    assert("containerStatuses"@.len() == 17);
    assert("initContainerStatuses"@.len() == 21);
    assert("podIP"@.len() == 5);
    assert("podIPs"@.len() == 6);
    assert("startTime"@.len() == 9);
    assert("phase"@.len() == 5);
    assert("podIP"@[1] == 'o');
    assert("phase"@[1] == 'h');
}

/// The status of a pod says its phase by name, the address that was seen, if any was, both alone and
/// in a list, each container in its place, the init containers exactly where there are any, and since
/// when it runs: as it was said first, or from now.
pub proof fn what_the_status_says(
    live: Doc,
    phase: PodPhase,
    init_statuses: Seq<StatusView>,
    statuses: Seq<StatusView>,
    pod_ip: Option<Seq<char>>,
    initialized: bool,
    has_init: bool,
    now: Seq<char>,
)
    ensures
        ({
            let d = pod_status(
                live,
                phase,
                init_statuses,
                statuses,
                pod_ip,
                initialized,
                has_init,
                now,
            );
            &&& phase is Pending ==> d.str_at("phase"@) == Some("Pending"@)
            &&& phase is Running ==> d.str_at("phase"@) == Some("Running"@)
            &&& phase is Succeeded ==> d.str_at("phase"@) == Some("Succeeded"@)
            &&& phase is Failed ==> d.str_at("phase"@) == Some("Failed"@)
            &&& d.str_at("podIP"@) == pod_ip
            &&& match pod_ip {
                Some(ip) => d.arr_at("podIPs"@) matches Some(list) && list.len() == 1
                    && list[0].str_at("ip"@) == Some(ip),
                None => d.get("podIPs"@) is None,
            }
            &&& d.arr_at("containerStatuses"@) matches Some(list) && list.len() == statuses.len()
                && forall|i: int|
                0 <= i < list.len() ==> (#[trigger] list[i]) == status_doc(statuses[i])
            &&& if has_init {
                d.arr_at("initContainerStatuses"@) matches Some(list) && list.len()
                    == init_statuses.len() && forall|i: int|
                    0 <= i < list.len() ==> (#[trigger] list[i]) == status_doc(init_statuses[i])
            } else {
                d.get("initContainerStatuses"@) is None
            }
            &&& match live.str_at2("status"@, "startTime"@) {
                Some(t) => d.str_at("startTime"@) == Some(t),
                None => d.str_at("startTime"@) == Some(now),
            }
        }),
{
    names_differ();
    fields_differ();
}

/// What is published of a container: its name, whether it is ready, how often it was started over,
/// its id exactly where it has one, and what it does, as one thing of three.
pub proof fn what_a_container_status_says(s: StatusView)
    ensures
        ({
            let d = status_doc(s);
            &&& d.str_at("name"@) == Some(s.name)
            &&& d.bool_at("ready"@) == Some(s.ready)
            &&& d.int_at("restartCount"@) == Some(s.restart_count as int)
            &&& d.str_at("containerID"@) == s.container_id
            &&& d.get2("state"@, "waiting"@) is Some <==> s.state is Waiting
            &&& d.get2("state"@, "running"@) is Some <==> s.state is Running
            &&& d.get2("state"@, "terminated"@) is Some <==> s.state is Terminated
            &&& s.state matches StateView::Waiting { reason } ==> d.get2(
                "state"@,
                "waiting"@,
            ).unwrap().str_at("reason"@) == Some(reason)
            &&& s.state matches StateView::Terminated(t) ==> {
                let e = d.get2("state"@, "terminated"@).unwrap();
                &&& e.get("exitCode"@) == Some(Doc::Int(lifecycle::published_code(t)))
                &&& e.str_at("reason"@) == Some(lifecycle::published_reason(t))
            }
        }),
{
    reveal_strlit("name");
    reveal_strlit("ready");
    reveal_strlit("state");
    reveal_strlit("restartCount");
    reveal_strlit("containerID");
    reveal_strlit("waiting");
    reveal_strlit("running");
    reveal_strlit("terminated");
    reveal_strlit("reason");
    reveal_strlit("exitCode");
    assert("name"@.len() == 4);
    assert("ready"@.len() == 5);
    assert("state"@.len() == 5);
    assert("ready"@[0] == 'r');
    assert("state"@[0] == 's');
    assert("restartCount"@.len() == 12);
    assert("containerID"@.len() == 11);
    assert("waiting"@.len() == 7);
    assert("running"@.len() == 7);
    assert("waiting"@[0] == 'w');
    assert("running"@[0] == 'r');
    assert("terminated"@.len() == 10);
    assert("reason"@.len() == 6);
    assert("exitCode"@.len() == 8);
    let d = status_doc(s);
    assert(d.get("state"@) == Some(state_doc(s.state)));
}

proof fn told_conditions(
    live: Doc,
    ready: bool,
    initialized: bool,
    has_init: bool,
    kind: Seq<char>,
    holds: bool,
    at: int,
)
    requires
        0 <= at < own_conditions(ready, initialized, has_init).len(),
        own_conditions(ready, initialized, has_init)[at] == condition(kind, holds),
        owned().contains(kind),
        forall|i: int|
            0 <= i < own_conditions(ready, initialized, has_init).len() && i != at ==> (
            #[trigger] own_conditions(ready, initialized, has_init)[i]).str_at("type"@) != Some(
                kind,
            ),
    ensures
        ({
            let list = merged_conditions(live, ready, initialized, has_init);
            &&& at < list.len()
            &&& list[at].str_at("type"@) == Some(kind)
            &&& list[at].str_at("status"@) == Some(
                if holds {
                    "True"@
                } else {
                    "False"@
                },
            )
            &&& forall|i: int|
                0 <= i < list.len() && i != at ==> (#[trigger] list[i]).str_at("type"@) != Some(
                    kind,
                )
        }),
{
    reveal_strlit("type");
    reveal_strlit("status");
    assert("type"@.len() == 4);
    assert("status"@.len() == 6);
    let own = own_conditions(ready, initialized, has_init);
    let kept = foreign_conditions(live);
    let list = merged_conditions(live, ready, initialized, has_init);
    assert forall|i: int| 0 <= i < list.len() && i != at implies (#[trigger] list[i]).str_at(
        "type"@,
    ) != Some(kind) by {
        if i < own.len() {
            assert(list[i] == own[i]);
        } else {
            let c = kept[i - own.len()];
            assert(list[i] == c);
            assert(kept.contains(c));
            let all = live.arr_at2("status"@, "conditions"@).unwrap();
            conditions::others_survive(all, owned(), c);
            assert(!conditions::has_type(c, owned()));
        }
    }
}

proof fn kinds_differ()
    ensures
        "ContainersReady"@ != "Ready"@,
        "ContainersReady"@ != "Initialized"@,
        "ContainersReady"@ != "PodScheduled"@,
        "Ready"@ != "Initialized"@,
        "Ready"@ != "PodScheduled"@,
        "Initialized"@ != "PodScheduled"@,
        "True"@ != "False"@,
        owned().contains("ContainersReady"@),
        owned().contains("Ready"@),
        owned().contains("Initialized"@),
        owned().contains("PodScheduled"@),
        forall|kind: Seq<char>, holds: bool|
            (#[trigger] condition(kind, holds)).str_at("type"@) == Some(kind),
{
    reveal_strlit("ContainersReady");
    reveal_strlit("Ready");
    reveal_strlit("Initialized");
    reveal_strlit("PodScheduled");
    reveal_strlit("True");
    reveal_strlit("False");
    reveal_strlit("type");
    reveal_strlit("status");
    assert("type"@.len() == 4);
    assert("status"@.len() == 6);
    assert("ContainersReady"@.len() == 15);
    assert("Ready"@.len() == 5);
    assert("Initialized"@.len() == 11);
    assert("PodScheduled"@.len() == 12);
    assert("True"@.len() == 4);
    assert("False"@.len() == 5);
    assert(owned()[0] == "PodScheduled"@);
    assert(owned()[1] == "Initialized"@);
    assert(owned()[2] == "Ready"@);
    assert(owned()[3] == "ContainersReady"@);
}

/// A pod is told to be ready, in both of the conditions that tell it, exactly where it runs and every
/// one of its containers is ready: a single one that is not makes both false. Each of the conditions
/// is told once.
pub proof fn one_unready_container_makes_the_pod_unready(
    live: Doc,
    phase: PodPhase,
    init_statuses: Seq<StatusView>,
    statuses: Seq<StatusView>,
    pod_ip: Option<Seq<char>>,
    initialized: bool,
    has_init: bool,
    now: Seq<char>,
    kind: Seq<char>,
)
    requires
        kind == "Ready"@ || kind == "ContainersReady"@,
    ensures
        ({
            let told = pod_status(
                live,
                phase,
                init_statuses,
                statuses,
                pod_ip,
                initialized,
                has_init,
                now,
            ).arr_at("conditions"@);
            &&& told is Some
            &&& exists|i: int|
                0 <= i < told.unwrap().len() && (#[trigger] told.unwrap()[i]).str_at("type"@)
                    == Some(kind)
            &&& forall|i: int, k: int|
                0 <= i < told.unwrap().len() && (#[trigger] told.unwrap()[i]).str_at("type"@)
                    == Some(kind) && 0 <= k < statuses.len() && !(#[trigger] statuses[k]).ready
                    ==> told.unwrap()[i].str_at("status"@) == Some("False"@)
            &&& forall|i: int|
                0 <= i < told.unwrap().len() && (#[trigger] told.unwrap()[i]).str_at("type"@)
                    == Some(kind) ==> told.unwrap()[i].str_at("status"@) == Some(
                    if phase is Running && forall|k: int|
                        0 <= k < statuses.len() ==> (#[trigger] statuses[k]).ready {
                        "True"@
                    } else {
                        "False"@
                    },
                )
        }),
{
    names_differ();
    kinds_differ();
    let ready = all_ready(phase, statuses);
    let list = merged_conditions(live, ready, initialized, has_init);
    assert(pod_status(
        live,
        phase,
        init_statuses,
        statuses,
        pod_ip,
        initialized,
        has_init,
        now,
    ).arr_at("conditions"@) == Some(list));
    let own = own_conditions(ready, initialized, has_init);
    assert(own[0] == condition("ContainersReady"@, ready));
    assert(own[1] == condition("Ready"@, ready));
    assert(own[own.len() - 1] == condition("PodScheduled"@, true));
    if has_init {
        assert(own.len() == 4);
        assert(own[2] == condition("Initialized"@, initialized));
    } else {
        assert(own.len() == 3);
    }
    if kind == "Ready"@ {
        told_conditions(live, ready, initialized, has_init, kind, ready, 1);
        assert(list[1].str_at("type"@) == Some(kind));
    } else {
        told_conditions(live, ready, initialized, has_init, kind, ready, 0);
        assert(list[0].str_at("type"@) == Some(kind));
    }
}

/// Every pod whose status is told is told to be scheduled, and one with init containers is told to be
/// initialized exactly where it is. One without is told nothing of that.
pub proof fn scheduled_and_initialized_are_told(
    live: Doc,
    phase: PodPhase,
    init_statuses: Seq<StatusView>,
    statuses: Seq<StatusView>,
    pod_ip: Option<Seq<char>>,
    initialized: bool,
    has_init: bool,
    now: Seq<char>,
)
    ensures
        ({
            let told = pod_status(
                live,
                phase,
                init_statuses,
                statuses,
                pod_ip,
                initialized,
                has_init,
                now,
            ).arr_at("conditions"@);
            &&& told is Some
            &&& exists|i: int|
                0 <= i < told.unwrap().len() && (#[trigger] told.unwrap()[i]).str_at("type"@)
                    == Some("PodScheduled"@)
            &&& forall|i: int|
                0 <= i < told.unwrap().len() && (#[trigger] told.unwrap()[i]).str_at("type"@)
                    == Some("PodScheduled"@) ==> told.unwrap()[i].str_at("status"@) == Some(
                    "True"@,
                )
            &&& has_init ==> exists|i: int|
                0 <= i < told.unwrap().len() && (#[trigger] told.unwrap()[i]).str_at("type"@)
                    == Some("Initialized"@)
            &&& forall|i: int|
                0 <= i < told.unwrap().len() && (#[trigger] told.unwrap()[i]).str_at("type"@)
                    == Some("Initialized"@) ==> has_init && told.unwrap()[i].str_at("status"@)
                    == Some(
                    if initialized {
                        "True"@
                    } else {
                        "False"@
                    },
                )
        }),
{
    names_differ();
    kinds_differ();
    let ready = all_ready(phase, statuses);
    let list = merged_conditions(live, ready, initialized, has_init);
    assert(pod_status(
        live,
        phase,
        init_statuses,
        statuses,
        pod_ip,
        initialized,
        has_init,
        now,
    ).arr_at("conditions"@) == Some(list));
    let own = own_conditions(ready, initialized, has_init);
    assert(own[0] == condition("ContainersReady"@, ready));
    assert(own[1] == condition("Ready"@, ready));
    let last = own.len() - 1;
    assert(own[last] == condition("PodScheduled"@, true));
    if has_init {
        assert(own.len() == 4);
        assert(own[2] == condition("Initialized"@, initialized));
        told_conditions(live, ready, initialized, has_init, "Initialized"@, initialized, 2);
        assert(list[2].str_at("type"@) == Some("Initialized"@));
    } else {
        assert(own.len() == 3);
        let kept = foreign_conditions(live);
        assert forall|i: int| 0 <= i < list.len() implies (#[trigger] list[i]).str_at("type"@)
            != Some("Initialized"@) by {
            if i < own.len() {
                assert(list[i] == own[i]);
            } else {
                let c = kept[i - own.len()];
                assert(list[i] == c);
                assert(kept.contains(c));
                let all = live.arr_at2("status"@, "conditions"@).unwrap();
                conditions::others_survive(all, owned(), c);
            }
        }
    }
    told_conditions(live, ready, initialized, has_init, "PodScheduled"@, true, last);
    assert(list[last].str_at("type"@) == Some("PodScheduled"@));
}

/// A condition that someone else told, of a type that is not told here, is published as it stands;
/// no other is made up.
pub proof fn what_others_told_is_published(
    live: Doc,
    phase: PodPhase,
    init_statuses: Seq<StatusView>,
    statuses: Seq<StatusView>,
    pod_ip: Option<Seq<char>>,
    initialized: bool,
    has_init: bool,
    now: Seq<char>,
    c: Doc,
)
    requires
        c.str_at("type"@) != Some("PodScheduled"@),
        c.str_at("type"@) != Some("Initialized"@),
        c.str_at("type"@) != Some("Ready"@),
        c.str_at("type"@) != Some("ContainersReady"@),
    ensures
        ({
            let told = pod_status(
                live,
                phase,
                init_statuses,
                statuses,
                pod_ip,
                initialized,
                has_init,
                now,
            ).arr_at("conditions"@);
            &&& told is Some
            &&& told.unwrap().contains(c) <==> live.arr_at2("status"@, "conditions"@) is Some
                && live.arr_at2("status"@, "conditions"@).unwrap().contains(c)
        }),
{
    names_differ();
    kinds_differ();
    let ready = all_ready(phase, statuses);
    let list = merged_conditions(live, ready, initialized, has_init);
    assert(pod_status(
        live,
        phase,
        init_statuses,
        statuses,
        pod_ip,
        initialized,
        has_init,
        now,
    ).arr_at("conditions"@) == Some(list));
    let own = own_conditions(ready, initialized, has_init);
    let kept = foreign_conditions(live);
    assert(!conditions::has_type(c, owned())) by {
        if conditions::has_type(c, owned()) {
            let t = c.str_at("type"@).unwrap();
            let i = choose|i: int| 0 <= i < owned().len() && owned()[i] == t;
            assert(i == 0 || i == 1 || i == 2 || i == 3);
        }
    }
    if let Some(all) = live.arr_at2("status"@, "conditions"@) {
        conditions::others_survive(all, owned(), c);
    }
    own_conditions_are_owned(ready, initialized, has_init);
    if list.contains(c) {
        let i = choose|i: int| 0 <= i < list.len() && list[i] == c;
        if i < own.len() {
            assert(conditions::has_type(own[i], owned()));
        } else {
            assert(kept[i - own.len()] == c);
        }
    }
    if kept.contains(c) {
        let i = choose|i: int| 0 <= i < kept.len() && kept[i] == c;
        assert(list[own.len() + i] == c);
    }
}

} // verus!
