use engenho_kubelet::backend::{MountSource, ResolvedMount};
use engenho_kubelet::init_pass::InitCall;
use engenho_kubelet::json::Json;
use engenho_kubelet::kubelet::{key_of_pod, Kubelet, SaOutcome};
use engenho_kubelet::pod_env::EnvSources;
use engenho_kubelet::prepare::{
    begin_init, begin_running, begin_start, Bare, Begin, BeginRunning, InitReady, Ready,
    TokenReply, TokenStop, Volumes,
};
use engenho_kubelet::probes::ProbeFaults;
use engenho_kubelet::report::Tally;
use engenho_kubelet::resource::ResourceKey;
use engenho_kubelet::running::RunningCall;
use engenho_kubelet::startup::SA_MOUNT_PATH;
use engenho_kubelet::table::Table;
use engenho_kubelet::time::{Duration, Instant};

const STAMP: &str = "2026-01-02T03:04:05Z";

fn now() -> Instant {
    Instant::after_start(Duration::from_secs(60))
}

fn key() -> ResourceKey {
    key_of_pod("default", "p")
}

fn container(name: &str) -> Json {
    Json::object().with("name", Json::string(name)).with("image", Json::string("nginx"))
}

fn pod(spec: Json) -> Json {
    Json::object()
        .with(
            "metadata",
            Json::object()
                .with("uid", Json::string("u-1"))
                .with("labels", Json::object().with("app", Json::string("web"))),
        )
        .with("spec", spec)
}

fn plain() -> Json {
    pod(Json::object().with("containers", Json::array(vec![container("web"), container("side")])))
}

fn services() -> Vec<(ResourceKey, Json)> {
    let spec = Json::object()
        .with("selector", Json::object().with("app", Json::string("web")))
        .with("clusterIP", Json::string("10.43.0.7"));
    vec![(
        ResourceKey::namespaced("", "v1", "Service", "default", "front"),
        Json::object()
            .with("metadata", Json::object().with("name", Json::string("front")))
            .with("spec", spec),
    )]
}

fn no_faults(n: usize) -> Vec<ProbeFaults> {
    (0..n).map(|_| ProbeFaults { liveness: None, readiness: None, startup: None }).collect()
}

fn bare(pod: &Json) -> Bare {
    match begin_start(&Kubelet::new("n"), &key(), pod, &EnvSources::new(), Tally::new()) {
        Begin::App(bare) => bare,
        other => panic!("{other:?}"),
    }
}

#[test]
fn a_pod_that_cannot_be_run_is_skipped_before_anything_else() {
    let k = Kubelet::new("n");
    let empty = pod(Json::object());
    match begin_start(&k, &key(), &empty, &EnvSources::new(), Tally::new()) {
        Begin::Skip { error, tally } => {
            assert_eq!(error.kind(), "invalid_pod");
            assert_eq!(tally.report.objects_skipped, 1);
        }
        other => panic!("{other:?}"),
    }
    match begin_running(&k, &key(), &empty, &EnvSources::new(), Tally::new()) {
        BeginRunning::Skip { tally, .. } => assert_eq!(tally.report.objects_skipped, 1),
        other => panic!("{other:?}"),
    }
}

#[test]
fn a_pod_that_was_not_started_is_looked_after_without_asking_the_runtime() {
    let k = Kubelet::new("n");
    match begin_running(&k, &key(), &plain(), &EnvSources::new(), Tally::new()) {
        BeginRunning::Pass { pass, init_specs } => {
            assert!(matches!(pass.call(), RunningCall::Finish));
            assert_eq!(pass.observations.len(), 2);
            assert!(init_specs.is_empty());
        }
        other => panic!("{other:?}"),
    }
}

#[test]
fn a_probe_that_cannot_be_run_skips_the_pod() {
    let probed = container("web").with("livenessProbe", Json::object());
    let p = pod(Json::object().with("containers", Json::array(vec![probed])));
    let fault = ProbeFaults {
        liveness: Some("no handler".into()),
        readiness: None,
        startup: None,
    };
    let (error, tally) = bare(&p).probed(&key(), &p, vec![fault], now()).unwrap_err();
    assert_eq!(error.to_text(), "invalid pod default/p: livenessProbe: no handler");
    assert_eq!(tally.report.objects_skipped, 1);
    assert!(bare(&p).probed(&key(), &p, no_faults(1), now()).is_ok());
}

#[test]
fn a_pod_that_is_ready_is_started_with_all_of_it() {
    let p = plain();
    let checked = bare(&p).probed(&key(), &p, no_faults(2), now()).unwrap();
    let named = checked.named(&key(), &p, &services(), &services());
    let token = named.token.as_ref().expect("a token by default");
    assert_eq!(token.service_account, "default");
    assert_eq!(token.uid, "u-1");
    let source = MountSource::HostDir("/k/sa".into());
    let identified = named.with_token(TokenReply::Written(source.copy())).unwrap();

    let mut sources = Table::new();
    sources.insert("scratch", MountSource::EmptyDirHostDir("/k/scratch".into()));
    sources.insert("config", MountSource::HostDir("/k/config".into()));
    let own = ResolvedMount {
        source: MountSource::HostDir("/k/config".into()),
        mount_path: "/etc/app".into(),
        read_only: true,
        sub_path: None,
    };
    let volumes = Volumes { sources, mounts: vec![Some(vec![own]), Some(vec![])] };
    let k = Kubelet::new("n");
    match identified.with_volumes(&k, &key(), &p, Ok(volumes), STAMP) {
        Ready::Start(pass) => {
            let spec = pass.call().expect("something is missing");
            assert_eq!(spec.image, "nginx");
            assert!(spec.network_aliases.iter().any(|a| a == "front"));
            assert!(spec.host_add.iter().any(|h| h == "front:10.43.0.7"));
            assert_eq!(spec.mounts.len(), 2);
            assert_eq!(spec.mounts[0].mount_path, "/etc/app");
            assert_eq!(spec.mounts[1].mount_path, SA_MOUNT_PATH);
            assert_eq!(spec.mounts[1].source, source);
            assert!(spec.mounts[1].read_only);
            assert_eq!(pass.around.empty_dirs, vec!["scratch"]);
        }
        other => panic!("{other:?}"),
    }
}

#[test]
fn a_token_that_is_declined_is_not_asked_for() {
    let p = pod(Json::object()
        .with("automountServiceAccountToken", Json::Bool(false))
        .with("containers", Json::array(vec![container("web")])));
    let checked = bare(&p).probed(&key(), &p, no_faults(1), now()).unwrap();
    let named = checked.named(&key(), &p, &[], &[]);
    assert!(named.token.is_none());
    assert!(named.aliases.is_empty() && named.hosts.is_empty());
    let identified = named.with_token(TokenReply::Nothing).unwrap();
    assert!(identified.sa_mount.is_none());
}

#[test]
fn a_pod_without_its_token_is_not_started() {
    let p = plain();
    let named = |p: &Json| {
        bare(p).probed(&key(), p, no_faults(2), now()).unwrap().named(&key(), p, &[], &[])
    };
    match named(&p).with_token(TokenReply::NotMade) {
        Err(TokenStop::Skipped(tally)) => assert_eq!(tally.report.objects_skipped, 1),
        other => panic!("{other:?}"),
    }
    match named(&p).with_token(TokenReply::NotWritten("disk full".into())) {
        Err(TokenStop::Broken(words)) => {
            assert_eq!(words, "materialize ServiceAccount projection: disk full");
        }
        other => panic!("{other:?}"),
    }
    assert_eq!(TokenReply::Nothing.outcome(), SaOutcome::Nothing);
    assert_eq!(TokenReply::NotMade.outcome(), SaOutcome::Failed);
    assert_eq!(TokenReply::NotWritten("x".into()).outcome(), SaOutcome::Failed);
    let written = TokenReply::Written(MountSource::HostDir("/x".into()));
    assert_eq!(written.outcome(), SaOutcome::Refreshed);
}

#[test]
fn a_pod_without_its_volumes_waits_and_says_what_for() {
    let p = plain();
    let checked = bare(&p).probed(&key(), &p, no_faults(2), now()).unwrap();
    let identified =
        checked.named(&key(), &p, &[], &[]).with_token(TokenReply::Nothing).unwrap();
    let k = Kubelet::new("n");
    let missing = Err("ConfigMapNotFound".to_string());
    match identified.with_volumes(&k, &key(), &p, missing, STAMP) {
        Ready::Pending { status, tally } => {
            assert_eq!(status.str_at("phase"), Some("Pending"));
            let all = status.arr_at("containerStatuses").unwrap();
            assert_eq!(all.len(), 2);
            for c in all {
                let waiting = c.get2("state", "waiting").unwrap();
                assert_eq!(waiting.str_at("reason"), Some("ConfigMapNotFound"));
            }
            assert_eq!(tally.soonest, Some(Duration::from_secs(1)));
            assert_eq!(tally.report.objects_skipped, 1);
        }
        other => panic!("{other:?}"),
    }
}

#[test]
fn init_containers_come_first_and_wait_for_volumes_too() {
    let p = pod(Json::object()
        .with("initContainers", Json::array(vec![container("setup")]))
        .with("containers", Json::array(vec![container("web")])));
    let k = Kubelet::new("n");
    let begin = || match begin_start(&k, &key(), &p, &EnvSources::new(), Tally::new()) {
        Begin::Init { init_specs, tally } => (init_specs, tally),
        other => panic!("{other:?}"),
    };
    let (specs, tally) = begin();
    let missing = Err("SecretNotFound".to_string());
    match begin_init(&k, &key(), &p, specs, &[], &[], missing, STAMP, tally) {
        InitReady::Pending { status, tally } => {
            assert_eq!(status.str_at("phase"), Some("Pending"));
            assert_eq!(tally.report.objects_skipped, 1);
        }
        other => panic!("{other:?}"),
    }
    let (specs, tally) = begin();
    let mounts = Ok(vec![Ok(vec![])]);
    match begin_init(&k, &key(), &p, specs, &services(), &services(), mounts, STAMP, tally) {
        InitReady::Pass(pass) => match pass.call() {
            InitCall::Start { old_id, spec } => {
                assert_eq!(old_id, None);
                assert!(spec.network_aliases.iter().any(|a| a == "front"));
                assert!(spec.host_add.iter().any(|h| h == "front:10.43.0.7"));
            }
            other => panic!("{other:?}"),
        },
        other => panic!("{other:?}"),
    }
}
