use engenho_kubelet::backend::{
    ContainerSpec, ContainerStatus, FakeBackend, FakeEvent, MountSource, ResolvedMount,
};
use engenho_kubelet::init_pass::{InitCall, InitOutcome, InitPass};
use engenho_kubelet::json::Json;
use engenho_kubelet::kubelet::{
    cleanup_plan, empty_dir_error, key_of_pod, no_such_container, pod_list, sa_refresh_interval,
    CleanupStep, Kubelet, RefreshGate, SaOutcome, SaRefreshReport, Turn,
};
use engenho_kubelet::lifecycle::RestartPolicy;
use engenho_kubelet::pod_env::EnvSources;
use engenho_kubelet::pod_spec::pod_restart_policy;
use engenho_kubelet::pod_volumes::{VolumeFetch, VolumeNeed};
use engenho_kubelet::probes::{
    aggregate_container_readiness, container_ports, parse_container_probes, run_container_probes,
    ContainerProbeState, ProbeFaults, ProbeKinds, ProbeReading, ProbeReadings,
};
use engenho_kubelet::report::{next_pass, EventReason, ReconcileResult, Tally};
use engenho_kubelet::resource::ResourceKey;
use engenho_kubelet::running::{Poll, RunningCall, RunningPass};
use engenho_kubelet::startup::{
    empty_dir_names, pod_probes, projection_error, route, service_account, service_account_mount,
    volumes_pending, Route, StartPass, StartStage, Surroundings, SA_MOUNT_PATH,
};
use engenho_kubelet::table::Table;
use engenho_kubelet::time::{Duration, Instant};
use serde_json::Value;

fn from_value(v: &Value) -> Json {
    match v {
        Value::Null => Json::Null,
        Value::Bool(b) => Json::Bool(*b),
        Value::Number(n) => match n.as_i64() {
            Some(i) => Json::Int(i as i128),
            None => Json::Decimal(n.to_string()),
        },
        Value::String(s) => Json::string(s),
        Value::Array(items) => Json::array(items.iter().map(from_value).collect()),
        Value::Object(fields) => {
            let mut out = Json::object();
            for (k, x) in fields {
                out.set(k, from_value(x));
            }
            out
        }
    }
}

fn j(text: &str) -> Json {
    from_value(&serde_json::from_str(text).expect("JSON"))
}

fn secs(n: u64) -> Duration {
    Duration::from_secs(n)
}

fn at(n: u64) -> Instant {
    Instant::after_start(secs(1_000 + n))
}

const NOW: &str = "2026-01-02T03:04:05Z";

fn key() -> ResourceKey {
    key_of_pod("default", "p")
}

fn around() -> Surroundings {
    Surroundings {
        aliases: vec!["web".into()],
        hosts: vec!["db:10.0.0.9".into()],
        sa_mount: Some(service_account_mount(MountSource::HostDir("/k/sa".into()))),
        empty_dirs: vec!["scratch".into()],
    }
}

fn faults(n: usize) -> Vec<ProbeFaults> {
    (0..n).map(|_| ProbeFaults { liveness: None, readiness: None, startup: None }).collect()
}

struct Host {
    kubelet: Kubelet,
    backend: FakeBackend,
    clock: Instant,
    readings: Option<ProbeReadings>,
    fail_start: bool,
    services: Vec<(ResourceKey, Json)>,
    restarted_as: Vec<ContainerSpec>,
}

impl Host {
    fn new() -> Host {
        Host {
            kubelet: Kubelet::new("node-1"),
            backend: FakeBackend::new(),
            clock: at(0),
            readings: None,
            fail_start: false,
            services: vec![],
            restarted_as: vec![],
        }
    }

    fn poll(&self, id: &str) -> Poll {
        match self.backend.status(id) {
            Ok(Some(s)) => Poll::Seen(s),
            Ok(None) => Poll::Gone,
            Err(_) => Poll::Failed,
        }
    }

    fn run(&mut self, spec: &ContainerSpec) -> Result<ContainerStatus, String> {
        if self.fail_start {
            return Err("image not known".into());
        }
        self.backend.start(spec).map_err(|e| e.to_text())
    }

    /// Starts what is missing of a pod without init containers, then looks after it.
    fn start(&mut self, pod: &Json) -> (Option<Json>, Tally) {
        let sources = EnvSources::new();
        let (specs, _) = match route(&self.kubelet, &key(), pod, &sources) {
            Route::App { specs, init_specs } => (specs, init_specs),
            other => panic!("{other:?}"),
        };
        let n = specs.len();
        let probes = pod_probes(pod, &specs, faults(n), "default/p", self.clock).unwrap();
        let mounts = (0..n).map(|_| Some(vec![])).collect();
        let mut pass = StartPass::begin(
            &self.kubelet,
            &key(),
            specs,
            mounts,
            around(),
            probes,
            self.clock,
            Tally::new(),
        );
        while let Some(spec) = pass.call() {
            let r = self.run(&spec);
            pass.started(&mut self.kubelet, r);
        }
        assert!(matches!(pass.stage, StartStage::Over));
        self.look_after(pod, pass.tally)
    }

    fn look_after(&mut self, pod: &Json, tally: Tally) -> (Option<Json>, Tally) {
        let sources = EnvSources::new();
        let (specs, init_specs) = match route(&self.kubelet, &key(), pod, &sources) {
            Route::App { specs, init_specs } => (specs, init_specs),
            other => panic!("{other:?}"),
        };
        let policy = pod_restart_policy(pod);
        let mut pass = RunningPass::begin(&self.kubelet, &key(), specs, policy, tally);
        loop {
            match pass.call() {
                RunningCall::Poll { id } => {
                    let p = self.poll(&id);
                    pass.polled(&mut self.kubelet, p, self.clock);
                }
                RunningCall::Probe { kinds, .. } => {
                    let r = self.readings.expect("probed");
                    assert!(kinds.gave(&r));
                    pass.probed(&mut self.kubelet, &r);
                }
                RunningCall::Restart { old_id } => {
                    let spec = pass.restart_spec(&self.kubelet, pod, &self.services, &self.services);
                    self.backend.stop(&old_id).unwrap();
                    self.backend.remove(&old_id).unwrap();
                    let r = self.run(&spec).ok();
                    self.restarted_as.push(spec);
                    pass.restarted(&mut self.kubelet, r, self.clock);
                }
                RunningCall::Finish => break,
            }
        }
        pass.finish(&mut self.kubelet, pod, &init_specs, NOW)
    }

    fn init(&mut self, pod: &Json) -> (InitOutcome, Tally) {
        let sources = EnvSources::new();
        let specs = match route(&self.kubelet, &key(), pod, &sources) {
            Route::Init { init_specs } => init_specs,
            other => panic!("{other:?}"),
        };
        let mounts = (0..specs.len()).map(|_| Ok(vec![])).collect();
        let mut pass = InitPass::begin(
            &self.kubelet,
            &key(),
            specs,
            mounts,
            vec![],
            vec![],
            pod_restart_policy(pod),
            Tally::new(),
        );
        loop {
            match pass.call() {
                InitCall::Poll { id } => {
                    let p = self.poll(&id);
                    pass.polled(&self.kubelet, p);
                }
                InitCall::Start { old_id, spec } => {
                    if let Some(id) = old_id {
                        self.backend.stop(&id).unwrap();
                        self.backend.remove(&id).unwrap();
                    }
                    let r = self.run(&spec).ok();
                    pass.started(&mut self.kubelet, r);
                }
                InitCall::Finish => break,
            }
        }
        pass.finish(&mut self.kubelet, pod, NOW)
    }

    fn id(&self, container: &str) -> String {
        self.kubelet.container_id_of("default", "p", container).expect("recorded")
    }
}

fn phase(status: &Json) -> &str {
    status.str_at("phase").unwrap()
}

fn state<'a>(status: &'a Json, i: usize, kind: &str) -> Option<&'a Json> {
    status.arr_at("containerStatuses").unwrap()[i].get2("state", kind)
}

const TWO: &str = r#"{"metadata": {"uid": "u"}, "spec": {"nodeName": "node-1", "containers": [
    {"name": "web", "image": "nginx"}, {"name": "side", "image": "busybox"}]}}"#;

#[test]
fn a_pod_is_started_and_runs() {
    let mut h = Host::new();
    let (status, tally) = h.start(&j(TWO));
    let status = status.unwrap();
    assert_eq!(phase(&status), "Running");
    assert_eq!(status.arr_at("containerStatuses").unwrap().len(), 2);
    assert_eq!(tally.events.len(), 2);
    assert_eq!(tally.events[0].reason, EventReason::Started);
    assert_eq!(tally.events[0].message, "Started container web");
    assert_eq!(tally.soonest, None);
    let (status, tally) = h.look_after(&j(TWO), Tally::new());
    assert_eq!(phase(&status.unwrap()), "Running");
    assert!(tally.events.is_empty());
    assert_eq!(h.backend.events().len(), 2, "nothing is started a second time");
}

#[test]
fn a_pod_of_which_nothing_starts_is_pending_and_told() {
    let mut h = Host::new();
    h.fail_start = true;
    let (status, tally) = h.start(&j(TWO));
    let status = status.unwrap();
    assert_eq!(phase(&status), "Pending");
    assert_eq!(
        state(&status, 0, "waiting").unwrap().str_at("reason"),
        Some("ContainerCreating")
    );
    assert_eq!(tally.report.objects_skipped, 2);
    assert_eq!(
        tally.events[0].message,
        "Failed to start container web: image not known"
    );
    assert!(!h.kubelet.is_started(&key()), "it is tried again");
    h.fail_start = false;
    let (status, _) = h.start(&j(TWO));
    assert_eq!(phase(&status.unwrap()), "Running");
}

#[test]
fn an_exited_container_is_restarted_with_its_mounts() {
    let mut h = Host::new();
    h.start(&j(TWO));
    let old = h.id("web");
    h.backend.set_exit(&old, 1);
    h.clock = at(5);
    let (status, tally) = h.look_after(&j(TWO), Tally::new());
    assert_eq!(phase(&status.unwrap()), "Running");
    assert_eq!(tally.report.objects_changed, 1);
    assert_eq!(tally.events[0].message, "Restarted container web (exit 1, restart #1)");
    assert_ne!(h.id("web"), old);
    let rec = h.kubelet.local_pod(&key()).unwrap().containers.get("web").unwrap();
    assert_eq!(rec.restart_count, 1);
    assert_eq!(rec.mounts.len(), 1, "the token is mounted again");
    assert_eq!(rec.mounts[0].mount_path, SA_MOUNT_PATH);
    assert!(rec.mounts[0].read_only);
    assert_eq!(rec.terminated_at, None);
    assert_eq!(h.restarted_as[0].mounts, rec.mounts);
    assert!(h.restarted_as[0].network_aliases.is_empty());
}

#[test]
fn a_restarted_container_gets_its_service_names_again() {
    let pod = j(
        r#"{"metadata": {"name": "p", "namespace": "default", "labels": {"app": "web"}},
            "spec": {"nodeName": "node-1", "containers": [{"name": "web", "image": "nginx"}]}}"#,
    );
    let mut h = Host::new();
    h.start(&pod);
    h.services = vec![(
        ResourceKey::namespaced("", "v1", "Service", "default", "front"),
        j(
            r#"{"metadata": {"name": "front", "namespace": "default"},
                "spec": {"selector": {"app": "web"}, "clusterIP": "10.43.0.7"}}"#,
        ),
    )];
    h.backend.set_exit(&h.id("web"), 1);
    h.look_after(&pod, Tally::new());
    let spec = &h.restarted_as[0];
    assert!(spec.network_aliases.iter().any(|a| a == "front"), "{:?}", spec.network_aliases);
    assert!(spec.host_add.iter().any(|a| a == "front:10.43.0.7"), "{:?}", spec.host_add);
    assert_eq!(spec.image, "nginx");
}

#[test]
fn a_container_that_keeps_failing_is_held_back() {
    let mut h = Host::new();
    h.start(&j(TWO));
    h.backend.set_exit(&h.id("web"), 1);
    h.look_after(&j(TWO), Tally::new());
    h.backend.set_exit(&h.id("web"), 1);
    let id = h.id("web");
    let (status, tally) = h.look_after(&j(TWO), Tally::new());
    let status = status.unwrap();
    assert_eq!(phase(&status), "Running");
    assert_eq!(
        state(&status, 0, "waiting").unwrap().str_at("reason"),
        Some("CrashLoopBackOff")
    );
    assert_eq!(tally.soonest, Some(secs(10)));
    assert_eq!(tally.events[0].reason, EventReason::BackOff);
    assert_eq!(
        tally.events[0].message,
        "Back-off restarting failed container web (10s remaining, 1 prior restarts)"
    );
    assert_eq!(h.id("web"), id, "it was not started");
    h.clock = at(4);
    let (_, tally) = h.look_after(&j(TWO), Tally::new());
    assert_eq!(tally.soonest, Some(secs(6)), "the wait counts from the exit");
    h.clock = at(10);
    let (_, tally) = h.look_after(&j(TWO), Tally::new());
    assert_eq!(tally.events[0].reason, EventReason::Started);
    assert_ne!(h.id("web"), id);
}

#[test]
fn under_never_an_exit_is_final() {
    let pod = j(r#"{"spec": {"restartPolicy": "Never", "containers": [{"name": "c", "image": "i"}]}}"#);
    let mut h = Host::new();
    h.start(&pod);
    h.backend.set_exit(&h.id("c"), 3);
    let (status, tally) = h.look_after(&pod, Tally::new());
    let status = status.unwrap();
    assert_eq!(phase(&status), "Failed");
    let t = state(&status, 0, "terminated").unwrap();
    assert_eq!(t.get("exitCode").unwrap().as_i64(), Some(3));
    assert!(tally.events.is_empty());
}

#[test]
fn a_lost_container_makes_the_pod_start_anew() {
    let mut h = Host::new();
    h.start(&j(TWO));
    h.backend.remove(&h.id("side")).unwrap();
    let (status, tally) = h.look_after(&j(TWO), Tally::new());
    assert!(status.is_none());
    assert_eq!(tally.report.objects_changed, 1);
    assert!(!h.kubelet.is_started(&key()));
}

/// A pass over `TWO` in which the runtime answers for the second container only.
fn half_answered(h: &mut Host, policy: RestartPolicy) -> (Json, Tally) {
    let sources = EnvSources::new();
    let specs = match route(&h.kubelet, &key(), &j(TWO), &sources) {
        Route::App { specs, .. } => specs,
        other => panic!("{other:?}"),
    };
    let mut pass = RunningPass::begin(&h.kubelet, &key(), specs, policy, Tally::new());
    pass.polled(&mut h.kubelet, Poll::Failed, at(1));
    let side = h.poll(&h.id("side"));
    pass.polled(&mut h.kubelet, side, at(1));
    let (status, tally) = pass.finish(&mut h.kubelet, &j(TWO), &[], NOW);
    (status.unwrap(), tally)
}

#[test]
fn a_poll_that_fails_ends_nothing() {
    for policy in [RestartPolicy::Always, RestartPolicy::OnFailure, RestartPolicy::Never] {
        let mut h = Host::new();
        h.start(&j(TWO));
        let (status, tally) = half_answered(&mut h, policy);
        assert_eq!(phase(&status), "Running");
        let web = &status.arr_at("containerStatuses").unwrap()[0];
        assert_eq!(web.str_at("name"), Some("web"));
        assert_eq!(web.str_at("containerID").map(|id| id.contains(&h.id("web"))), Some(true));
        assert_eq!(web.get("restartCount").unwrap().as_i64(), Some(0));
        assert_eq!(web.get("ready").unwrap().as_bool(), Some(false));
        assert!(state(&status, 0, "terminated").is_none());
        assert_eq!(tally.report.objects_skipped, 1);
        assert!(tally.events.is_empty());
        assert!(h.kubelet.is_started(&key()));
        assert_eq!(h.backend.events().len(), 2, "nothing is started again");
    }
}

#[test]
fn a_pod_that_the_runtime_answers_nothing_for_stays_running() {
    for policy in [RestartPolicy::Always, RestartPolicy::OnFailure, RestartPolicy::Never] {
        let mut h = Host::new();
        h.start(&j(TWO));
        let sources = EnvSources::new();
        let specs = match route(&h.kubelet, &key(), &j(TWO), &sources) {
            Route::App { specs, .. } => specs,
            other => panic!("{other:?}"),
        };
        let mut pass = RunningPass::begin(&h.kubelet, &key(), specs, policy, Tally::new());
        pass.polled(&mut h.kubelet, Poll::Failed, at(1));
        pass.polled(&mut h.kubelet, Poll::Failed, at(1));
        let (status, tally) = pass.finish(&mut h.kubelet, &j(TWO), &[], NOW);
        assert_eq!(phase(&status.unwrap()), "Running");
        assert_eq!(tally.report.objects_skipped, 2);
        assert!(h.kubelet.is_started(&key()));
    }
}

#[test]
fn a_poll_that_fails_keeps_the_restart_count() {
    let mut h = Host::new();
    h.start(&j(TWO));
    h.backend.set_exit(&h.id("web"), 1);
    h.look_after(&j(TWO), Tally::new());
    let (status, _) = half_answered(&mut h, RestartPolicy::Always);
    let web = &status.arr_at("containerStatuses").unwrap()[0];
    assert_eq!(web.get("restartCount").unwrap().as_i64(), Some(1));
    assert_eq!(phase(&status), "Running");
}

const PROBED: &str = r#"{"spec": {"containers": [{"name": "c", "image": "i",
    "livenessProbe": {"httpGet": {"port": 80}}}]}}"#;

fn reading(needs_restart: bool, gate_satisfied: bool, due: u64) -> ProbeReading {
    ProbeReading { needs_restart, gate_satisfied, next_due_in: secs(due) }
}

#[test]
fn a_failing_liveness_probe_restarts_unless_never() {
    let mut h = Host::new();
    h.readings = Some(ProbeReadings {
        startup: None,
        readiness: None,
        liveness: Some(reading(true, false, 7)),
    });
    let (status, tally) = h.start(&j(PROBED));
    assert_eq!(tally.soonest, Some(secs(7)));
    let last = tally.events.last().unwrap();
    assert_eq!(last.reason, EventReason::Unhealthy);
    assert_eq!(
        last.message,
        "Container c failed its liveness/startup probe and was restarted (restart #1)"
    );
    let status = status.unwrap();
    let c = &status.arr_at("containerStatuses").unwrap()[0];
    assert_eq!(c.get("ready").unwrap().as_bool(), Some(false));
    assert_eq!(c.get("restartCount").unwrap().as_i64(), Some(1));

    let never = j(r#"{"spec": {"restartPolicy": "Never", "containers": [{"name": "c", "image": "i",
        "livenessProbe": {"httpGet": {"port": 80}}}]}}"#);
    let mut h = Host::new();
    h.readings = Some(ProbeReadings {
        startup: None,
        readiness: None,
        liveness: Some(reading(true, false, 7)),
    });
    let (_, tally) = h.start(&never);
    assert_eq!(tally.events.len(), 1, "only the start is told");
}

#[test]
fn a_container_that_had_ended_and_was_started_again_is_ready() {
    for probe in ["readinessProbe", "startupProbe", "livenessProbe"] {
        let pod = j(&format!(
            r#"{{"spec": {{"containers": [{{"name": "c", "image": "i", "{probe}": {{}}}}]}}}}"#
        ));
        let passed = Some(reading(false, true, 7));
        let only = |kind: &str| if kind == probe { passed } else { None };
        let mut h = Host::new();
        h.readings = Some(ProbeReadings {
            startup: only("startupProbe"),
            readiness: only("readinessProbe"),
            liveness: only("livenessProbe"),
        });
        let (status, _) = h.start(&pod);
        let status = status.unwrap();
        let c = &status.arr_at("containerStatuses").unwrap()[0];
        assert_eq!(c.get("ready").unwrap().as_bool(), Some(true), "{probe}");
        h.backend.set_exit(&h.id("c"), 1);
        let (status, _) = h.look_after(&pod, Tally::new());
        let status = status.unwrap();
        let c = &status.arr_at("containerStatuses").unwrap()[0];
        assert_eq!(c.get("restartCount").unwrap().as_i64(), Some(1));
        assert_eq!(c.get("ready").unwrap().as_bool(), Some(true), "{probe}");
    }
}

#[test]
fn probes_say_whether_a_container_is_ready() {
    assert_eq!(aggregate_container_readiness(true, false, false, false, true), (true, true));
    assert_eq!(aggregate_container_readiness(false, true, true, true, true), (false, false));
    assert_eq!(aggregate_container_readiness(true, false, true, true, true), (false, true));
    let mut soonest = Some(secs(5));
    let none = ContainerProbeState::default();
    let r = ProbeReadings { startup: None, readiness: None, liveness: None };
    let out = run_container_probes(&none, &r, &mut soonest);
    assert!(out.ready && !out.needs_restart);
    assert_eq!(soonest, Some(secs(5)));
    let slow = ProbeReadings {
        startup: Some(reading(false, false, 2)),
        readiness: None,
        liveness: Some(reading(true, false, 9)),
    };
    let c = j(r#"{"startupProbe": {}, "livenessProbe": {}}"#);
    let state = parse_container_probes(&c, "n/p", at(0), faults(1).pop().unwrap()).unwrap();
    let out = run_container_probes(&state, &slow, &mut soonest);
    assert!(!out.ready && !out.needs_restart, "it still starts");
    assert_eq!(soonest, Some(secs(2)));
}

#[test]
fn a_reading_is_of_a_probe_that_the_container_has() {
    let c = j(r#"{"startupProbe": {}, "readinessProbe": {}}"#);
    let state = parse_container_probes(&c, "n/p", at(0), faults(1).pop().unwrap()).unwrap();
    let kinds = state.kinds();
    assert_eq!(kinds, ProbeKinds { startup: true, readiness: true, liveness: false });
    assert!(kinds.any());
    let mut r = ProbeReadings {
        startup: Some(reading(false, true, 2)),
        readiness: Some(reading(false, true, 3)),
        liveness: None,
    };
    assert!(kinds.gave(&r));
    let mut soonest = None;
    assert!(run_container_probes(&state, &r, &mut soonest).ready);
    r.startup = Some(reading(false, false, 2));
    assert!(!run_container_probes(&state, &r, &mut soonest).ready, "it has not started");
    r.startup = None;
    assert!(!kinds.gave(&r), "a startup probe that was not read has not passed");
    r.startup = Some(reading(false, true, 2));
    r.liveness = Some(reading(true, false, 1));
    assert!(!kinds.gave(&r), "there is no liveness probe");
    assert!(!ContainerProbeState::default().kinds().any());
}

#[test]
fn a_probe_that_is_at_fault_is_refused() {
    let f = ProbeFaults { liveness: Some("no handler".into()), readiness: None, startup: None };
    let c = j(r#"{"livenessProbe": {}}"#);
    let e = parse_container_probes(&c, "n/p", at(0), f).unwrap_err();
    assert_eq!(e.to_text(), "invalid pod n/p: livenessProbe: no handler");
    let ports = container_ports(&j(
        r#"{"ports": [{"name": "http", "containerPort": 8080}, {"containerPort": 1}]}"#,
    ));
    assert_eq!(ports, vec![("http".to_string(), 8080)]);
    let specs = match route(&Kubelet::new("n"), &key(), &j(PROBED), &EnvSources::new()) {
        Route::App { specs, .. } => specs,
        other => panic!("{other:?}"),
    };
    let f = ProbeFaults { liveness: Some("bad".into()), readiness: None, startup: None };
    let e = pod_probes(&j(PROBED), &specs, vec![f], "default/p", at(0)).unwrap_err();
    assert!(e.to_text().contains("bad"));
}

#[test]
fn a_volume_that_the_pod_does_not_have_stops_the_start() {
    let h = Host::new();
    let specs = match route(&h.kubelet, &key(), &j(TWO), &EnvSources::new()) {
        Route::App { specs, .. } => specs,
        other => panic!("{other:?}"),
    };
    let pass = StartPass::begin(
        &h.kubelet,
        &key(),
        specs,
        vec![Some(vec![]), None],
        around(),
        Table::new(),
        at(0),
        Tally::new(),
    );
    assert!(pass.call().is_none(), "no part of the pod is started");
    assert!(matches!(pass.stage, StartStage::Refused));
    assert_eq!(pass.tally.report.objects_skipped, 1);
}

#[test]
fn containers_are_started_with_the_names_of_the_pod() {
    let mut h = Host::new();
    let specs = match route(&h.kubelet, &key(), &j(TWO), &EnvSources::new()) {
        Route::App { specs, .. } => specs,
        other => panic!("{other:?}"),
    };
    let mut pass = StartPass::begin(
        &h.kubelet,
        &key(),
        specs,
        vec![Some(vec![]), Some(vec![])],
        around(),
        Table::new(),
        at(0),
        Tally::new(),
    );
    let spec = pass.call().unwrap();
    assert_eq!(spec.network_aliases, vec!["web"]);
    assert_eq!(spec.host_add, vec!["db:10.0.0.9"]);
    let s = h.backend.start(&spec).unwrap();
    pass.started(&mut h.kubelet, Ok(s));
    assert!(pass.call().is_some());
    pass.started(&mut h.kubelet, Err("image not known".into()));
    assert!(matches!(pass.stage, StartStage::Over));
    assert_eq!(pass.tally.report.objects_skipped, 1);
    assert_eq!(
        h.kubelet.turn(&key(), &j(TWO)),
        Turn::Start,
        "the container that is missing is tried again"
    );
    let (status, _) = h.look_after(&j(TWO), Tally::new());
    assert_eq!(phase(&status.unwrap()), "Pending");
    let (status, _) = h.start(&j(TWO));
    assert_eq!(phase(&status.unwrap()), "Running");
    assert_eq!(h.backend.events().len(), 2, "each is started once");
    assert_eq!(h.kubelet.turn(&key(), &j(TWO)), Turn::Reconcile);
}

#[test]
fn a_pod_whose_manifest_is_wrong_is_passed_over() {
    let k = Kubelet::new("n");
    let bad = j(r#"{"spec": {"containers": [{"name": "c"}]}}"#);
    match route(&k, &key(), &bad, &EnvSources::new()) {
        Route::Skip(e) => assert_eq!(e.kind(), "invalid_pod"),
        other => panic!("{other:?}"),
    }
}

#[test]
fn volumes_that_are_missing_keep_a_pod_pending() {
    let specs = match route(&Kubelet::new("n"), &key(), &j(TWO), &EnvSources::new()) {
        Route::App { specs, .. } => specs,
        other => panic!("{other:?}"),
    };
    let mut tally = Tally::new();
    let status = volumes_pending(&j(TWO), &specs, "ConfigMapNotFound", NOW, &mut tally);
    assert_eq!(phase(&status), "Pending");
    for i in 0..2 {
        assert_eq!(
            state(&status, i, "waiting").unwrap().str_at("reason"),
            Some("ConfigMapNotFound")
        );
    }
    assert_eq!(tally.soonest, Some(secs(1)));
    assert_eq!(tally.report.objects_skipped, 1);
}

// ---- init containers ----

const INIT: &str = r#"{"spec": {"initContainers": [{"name": "a", "image": "i"}, {"name": "b", "image": "i"}],
    "containers": [{"name": "app", "image": "i"}]}}"#;

#[test]
fn init_containers_run_one_after_the_other() {
    let mut h = Host::new();
    let (out, tally) = h.init(&j(INIT));
    let status = match out {
        InitOutcome::Publish(s) => s,
        other => panic!("{other:?}"),
    };
    assert_eq!(phase(&status), "Pending");
    assert_eq!(tally.soonest, Some(secs(1)));
    let init = status.arr_at("initContainerStatuses").unwrap();
    assert!(init[0].get2("state", "running").is_some());
    assert!(init[1].get2("state", "waiting").is_some());
    let names: Vec<_> = init.iter().map(|s| s.str_at("name").unwrap()).collect();
    assert_eq!(names, ["a", "b"], "in the order of the manifest");
    assert_eq!(h.backend.events().len(), 1);

    let (out, _) = h.init(&j(INIT));
    assert!(matches!(out, InitOutcome::Publish(_)));
    assert_eq!(h.backend.events().len(), 1, "it is waited for");

    h.backend.set_exit(&h.id("a"), 0);
    h.init(&j(INIT));
    assert_eq!(h.backend.events().last(), Some(&FakeEvent::Start("default_p_init-b".into())));
    h.backend.set_exit(&h.id("b"), 0);
    let (out, tally) = h.init(&j(INIT));
    assert!(matches!(out, InitOutcome::StartApp));
    assert_eq!(tally.report.objects_changed, 1);
    assert!(h.kubelet.init_complete(&key()));
    let (status, _) = h.start(&j(INIT));
    let status = status.unwrap();
    assert_eq!(phase(&status), "Running");
    assert_eq!(status.arr_at("initContainerStatuses").unwrap().len(), 2);
}

#[test]
fn an_init_container_that_fails_is_started_again_or_fails_the_pod() {
    let mut h = Host::new();
    h.init(&j(INIT));
    let old = h.id("a");
    h.backend.set_exit(&old, 2);
    h.init(&j(INIT));
    assert_ne!(h.id("a"), old);
    let rec = h.kubelet.local_pod(&key()).unwrap().init_containers.get("a").unwrap();
    assert_eq!(rec.restart_count, 1);

    let never = j(r#"{"spec": {"restartPolicy": "Never", "initContainers": [{"name": "a", "image": "i"}],
        "containers": [{"name": "app", "image": "i"}]}}"#);
    let mut h = Host::new();
    h.init(&never);
    h.backend.set_exit(&h.id("a"), 2);
    match h.init(&never).0 {
        InitOutcome::Publish(s) => {
            assert_eq!(phase(&s), "Failed");
            assert_eq!(s.arr_at("initContainerStatuses").unwrap()[0].str_at("name"), Some("a"));
        }
        other => panic!("{other:?}"),
    }
    assert!(!h.kubelet.init_complete(&key()));
}

#[test]
fn a_sidecar_is_started_and_not_waited_for() {
    let pod = j(r#"{"spec": {"initContainers": [{"name": "proxy", "image": "i", "restartPolicy": "Always"}],
        "containers": [{"name": "app", "image": "i"}]}}"#);
    let mut h = Host::new();
    assert!(matches!(h.init(&pod).0, InitOutcome::StartApp));
    assert!(h.kubelet.init_complete(&key()));
    let (status, _) = h.start(&pod);
    assert_eq!(phase(&status.unwrap()), "Running");
}

#[test]
fn an_init_container_without_its_volume_is_passed_over() {
    let h = Host::new();
    let specs = match route(&h.kubelet, &key(), &j(INIT), &EnvSources::new()) {
        Route::Init { init_specs } => init_specs,
        other => panic!("{other:?}"),
    };
    let e = engenho_kubelet::init_pass::build_init_spec(
        "a",
        &specs[0].1,
        &[],
        &[],
        &Err("no such volume".into()),
    )
    .unwrap_err();
    assert_eq!(e.to_text(), "invalid pod a: init container volume: no such volume");
    let pass = InitPass::begin(
        &h.kubelet,
        &key(),
        specs,
        vec![Err("no such volume".into()), Ok(vec![])],
        vec![],
        vec![],
        RestartPolicy::Always,
        Tally::new(),
    );
    assert!(matches!(pass.call(), InitCall::Finish));
    assert_eq!(pass.tally.report.objects_skipped, 1);
}

// ---- the node ----

#[test]
fn a_pass_takes_down_what_left_and_keeps_what_is_bound() {
    let mut h = Host::new();
    h.start(&j(TWO));
    let other = key_of_pod("default", "q");
    let pods = vec![
        (key_of_pod("default", "q"), j(TWO)),
        (key_of_pod("default", "elsewhere"), j(r#"{"spec": {"nodeName": "node-2"}}"#)),
    ];
    let tick = h.kubelet.tick(pods);
    assert_eq!(tick.keys, vec![other.copy()]);
    assert_eq!(tick.orphans, vec![key()]);
    assert_eq!(tick.tally.report.objects_examined, 1);
    assert_eq!(h.kubelet.turn(&other, tick.bound.get(&other).unwrap()), Turn::Start);
    let (report, result) = tick.outcome();
    assert_eq!(report.objects_examined, 1);
    assert_eq!(result, ReconcileResult::Done);
}

#[test]
fn an_ended_pod_that_is_not_remembered_is_left_alone() {
    let k = Kubelet::new("node-1");
    assert_eq!(k.node_name(), "node-1");
    let done = j(r#"{"status": {"phase": "Succeeded"}}"#);
    assert_eq!(k.turn(&key(), &done), Turn::Leave);
    let mut h = Host::new();
    h.start(&j(TWO));
    assert_eq!(h.kubelet.turn(&key(), &done), Turn::Reconcile);
}

#[test]
fn containers_go_before_init_containers_and_volumes_last() {
    let mut h = Host::new();
    h.init(&j(INIT));
    h.backend.set_exit(&h.id("a"), 0);
    h.init(&j(INIT));
    h.backend.set_exit(&h.id("b"), 0);
    h.init(&j(INIT));
    h.start(&j(INIT));
    let (app, a) = (h.id("app"), h.id("a"));
    let plan = cleanup_plan(h.kubelet.local_pod(&key()).unwrap());
    assert_eq!(plan.len(), 7);
    assert!(matches!(&plan[0], CleanupStep::Stop(id) if *id == app));
    assert!(matches!(&plan[1], CleanupStep::Remove(id) if *id == app));
    assert!(matches!(&plan[2], CleanupStep::Stop(id) if *id == a));
    assert!(matches!(&plan[6], CleanupStep::RemoveEmptyDir(v) if v == "scratch"));
    let mut tally = Tally::new();
    h.kubelet.cleaned_up(&key(), false, &mut tally);
    assert!(h.kubelet.is_started(&key()));
    assert_eq!(tally.report.objects_skipped, 1);
    h.kubelet.cleaned_up(&key(), true, &mut tally);
    assert!(!h.kubelet.is_started(&key()));
    assert_eq!(tally.report.objects_changed, 1);
    assert_eq!(empty_dir_error("v", "busy").to_text(), "backend: remove emptyDir v: busy");
}

#[test]
fn tokens_are_made_anew_three_times_in_their_life() {
    assert_eq!(sa_refresh_interval(secs(3600)), secs(1200));
    assert_eq!(sa_refresh_interval(secs(9)), secs(10));
    let mut h = Host::new();
    assert_eq!(h.kubelet.refresh_due(None, at(0)), RefreshGate::NoTokens);
    assert_eq!(h.kubelet.refresh_due(Some(secs(60)), at(0)), RefreshGate::Due);
    assert_eq!(h.kubelet.refresh_due(Some(secs(60)), at(19)), RefreshGate::NotDue);
    assert_eq!(h.kubelet.refresh_due(Some(secs(60)), at(20)), RefreshGate::Due);
    h.start(&j(TWO));
    let tick = h.kubelet.tick(vec![(key(), j(TWO)), (key_of_pod("default", "q"), j(TWO))]);
    let asked = h.kubelet.refresh_service_account_projections(&tick.bound);
    assert_eq!(asked.len(), 1, "a pod that was not started gets its token when it is");
    assert_eq!(asked[0].pod, "p");
    assert_eq!(asked[0].service_account, "default");
    assert_eq!(asked[0].uid, "u");
    let mut r = SaRefreshReport::default();
    r.count(SaOutcome::Refreshed);
    r.count(SaOutcome::Failed);
    r.count(SaOutcome::Nothing);
    assert_eq!((r.examined, r.refreshed, r.failed), (3, 1, 1));
}

#[test]
fn a_pass_over_the_tokens_counts_every_pod() {
    let mut h = Host::new();
    h.start(&j(TWO));
    let tick = h.kubelet.tick(vec![(key(), j(TWO)), (key_of_pod("default", "q"), j(TWO))]);
    let none = h.kubelet.begin_refresh(None, at(0), &tick.bound);
    assert!(none.next().is_none());
    assert_eq!(none.finish(), SaRefreshReport::default());

    let mut pass = h.kubelet.begin_refresh(Some(secs(60)), at(0), &tick.bound);
    assert_eq!(pass.next().unwrap().pod, "p");
    pass.counted(SaOutcome::Failed);
    assert!(pass.next().is_none());
    let r = pass.finish();
    assert_eq!((r.examined, r.refreshed, r.failed, r.skipped_not_due), (1, 0, 1, false));

    let early = h.kubelet.begin_refresh(Some(secs(60)), at(19), &tick.bound);
    assert!(early.next().is_none());
    let r = early.finish();
    assert_eq!((r.examined, r.refreshed, r.failed, r.skipped_not_due), (0, 0, 0, true));

    let mut pass = h.kubelet.begin_refresh(Some(secs(60)), at(20), &tick.bound);
    pass.counted(SaOutcome::Refreshed);
    let r = pass.finish();
    assert_eq!((r.examined, r.refreshed, r.failed, r.skipped_not_due), (1, 1, 0, false));
}

#[test]
fn a_pod_that_declines_a_token_gets_none() {
    let no = j(r#"{"spec": {"automountServiceAccountToken": false}}"#);
    assert!(service_account("ns", "p", &no).is_none());
    let yes = j(r#"{"metadata": {"uid": "u1"}, "spec": {"serviceAccountName": "sa"}}"#);
    let q = service_account("ns", "p", &yes).unwrap();
    assert_eq!((q.service_account.as_str(), q.uid.as_str()), ("sa", "u1"));
    assert_eq!(projection_error("full"), "materialize ServiceAccount projection: full");
}

#[test]
fn the_lease_is_renewed_on_its_own_cadence() {
    let mut k = Kubelet::new("n");
    assert!(k.renew_lease(at(0)));
    assert!(!k.renew_lease(at(5)));
    assert!(k.renew_lease(at(10)));
}

#[test]
fn logs_are_read_of_the_container_that_is_named() {
    let mut h = Host::new();
    let e = h.kubelet.log_target("default", "p", None).unwrap_err();
    assert!(e.to_text().contains("pod is not running on this node"));
    h.start(&j(TWO));
    assert_eq!(h.kubelet.log_target("default", "p", Some("web")).unwrap(), h.id("web"));
    assert_eq!(
        h.kubelet.log_target("default", "p", None).unwrap(),
        h.id("side"),
        "the first by name"
    );
    let e = h.kubelet.log_target("default", "p", Some("zz")).unwrap_err();
    assert!(e.to_text().contains("container \"zz\" not found in pod"), "{e:?}");
    assert_eq!(
        no_such_container("ns", "p", "c"),
        "no container \"c\" of pod ns/p is running on this node"
    );
}

#[test]
fn the_pods_of_a_node_are_listed() {
    let mut h = Host::new();
    h.start(&j(TWO));
    assert_eq!(h.kubelet.listed_keys(true), vec![key()]);
    let up = j(r#"{"status": {"containerStatuses": [{"state": {"running": {}}}]}}"#);
    let down = j(r#"{"status": {"containerStatuses": [{"state": {"waiting": {}}}]}}"#);
    let all = pod_list(&[up.copy(), down.copy()], false);
    assert_eq!(all.str_at("kind"), Some("PodList"));
    assert_eq!(all.arr_at("items").unwrap().len(), 2);
    assert_eq!(pod_list(&[up, down], true).arr_at("items").unwrap().len(), 1);
}

#[test]
fn the_next_pass_is_never_sooner_than_a_second() {
    assert_eq!(next_pass(None), ReconcileResult::Done);
    assert_eq!(next_pass(Some(Duration::from_millis(5))), ReconcileResult::Requeue(secs(1)));
    assert_eq!(next_pass(Some(secs(8))), ReconcileResult::Requeue(secs(8)));
}

// ---- volumes ----

#[test]
fn a_bound_claim_is_fetched_with_its_volume() {
    let mut f = VolumeFetch::begin(
        "ns",
        vec![
            VolumeNeed::Other,
            VolumeNeed::ConfigMap { name: String::new() },
            VolumeNeed::Pvc { claim_name: "data".into() },
            VolumeNeed::Secret { name: "s".into() },
        ],
    );
    let k = f.call().unwrap();
    assert_eq!((k.kind.as_str(), k.name.as_str()), ("PersistentVolumeClaim", "data"));
    f.got(Some(j(r#"{"spec": {"volumeName": "pv-1"}}"#)));
    let k = f.call().unwrap();
    assert_eq!((k.kind.as_str(), k.name.as_str(), k.namespace), ("PersistentVolume", "pv-1", None));
    f.got(Some(j(r#"{"spec": {}}"#)));
    let k = f.call().unwrap();
    assert_eq!((k.kind.as_str(), k.name.as_str()), ("Secret", "s"));
    f.got(None);
    assert!(f.call().is_none());
    assert_eq!(f.fetched.keys().len(), 2);
    assert!(VolumeFetch::begin("ns", vec![]).call().is_none());
}

#[test]
fn volumes_that_live_with_the_pod_are_remembered() {
    let mut t: Table<MountSource> = Table::new();
    t.insert("cfg", MountSource::HostDir("/x".into()));
    t.insert("z", MountSource::NamedVolume("v".into()));
    t.insert("a", MountSource::EmptyDirHostDir("/y".into()));
    assert_eq!(empty_dir_names(&t), vec!["a", "z"]);
    let m: ResolvedMount = service_account_mount(MountSource::HostDir("/x".into()));
    assert_eq!(m.sub_path, None);
}
