use engenho_kubelet::backend::Readoption;
use engenho_kubelet::cri::{ExitDisposition, RunState};
use engenho_kubelet::lifecycle::{
    next_init_action, reconcile_lost_pod, reconcile_pod_phase, reconcile_pod_phase_with_init,
    ContainerObservation, ContainerState, InitAction, InitKind, LostPod, PodPhase, RestartPolicy,
    StartedAs, StoredContainer, StoredRun, Termination,
};

fn running(name: &str, id: &str) -> ContainerObservation {
    ContainerObservation::running(name, id, 0)
}

fn terminated(name: &str, id: &str, code: i32) -> ContainerObservation {
    ContainerObservation::terminated(name, id, ExitDisposition::Code(code).into(), 0)
}

fn killed(name: &str, id: &str, signal: i32) -> ContainerObservation {
    ContainerObservation::terminated(name, id, ExitDisposition::Signal(signal).into(), 0)
}

fn unobserved(name: &str, id: &str) -> ContainerObservation {
    ContainerObservation::terminated(name, id, Termination::Unknown, 0)
}

fn waiting(name: &str) -> ContainerObservation {
    ContainerObservation::waiting(name)
}

#[test]
fn restart_policy_default_is_always() {
    assert_eq!(RestartPolicy::default(), RestartPolicy::Always);
    assert_eq!(RestartPolicy::from_spec_str(None), RestartPolicy::Always);
    assert_eq!(
        RestartPolicy::from_spec_str(Some("Always")),
        RestartPolicy::Always
    );
    assert_eq!(
        RestartPolicy::from_spec_str(Some("Bogus")),
        RestartPolicy::Always
    );
}

#[test]
fn restart_policy_parses_never_and_onfailure() {
    assert_eq!(
        RestartPolicy::from_spec_str(Some("Never")),
        RestartPolicy::Never
    );
    assert_eq!(
        RestartPolicy::from_spec_str(Some("OnFailure")),
        RestartPolicy::OnFailure
    );
}

#[test]
fn should_restart_matrix() {
    let clean: Termination = ExitDisposition::Code(0).into();
    let failed: Termination = ExitDisposition::Code(1).into();
    let sigkill: Termination = ExitDisposition::Signal(9).into();
    let unknown = Termination::Unknown;
    for exit in [clean, failed, sigkill, unknown] {
        assert!(RestartPolicy::Always.should_restart(exit), "{exit:?}");
    }
    for exit in [clean, failed, sigkill, unknown] {
        assert!(!RestartPolicy::Never.should_restart(exit), "{exit:?}");
    }
    assert!(!RestartPolicy::OnFailure.should_restart(clean));
    assert!(RestartPolicy::OnFailure.should_restart(failed));
    assert!(RestartPolicy::OnFailure.should_restart(sigkill));
    assert!(RestartPolicy::OnFailure.should_restart(unknown));
}


#[test]
fn a_sigkilled_never_pod_is_failed_not_succeeded() {
    let (phase, st) = reconcile_pod_phase(RestartPolicy::Never, &[killed("a", "id-a", 9)]);
    assert_eq!(phase, PodPhase::Failed);
    assert_eq!(
        st[0].state,
        ContainerState::Terminated(Termination::Observed(ExitDisposition::Signal(9)))
    );
    let (phase, _) = reconcile_pod_phase(
        RestartPolicy::Never,
        &[terminated("a", "id-a", 0), killed("b", "id-b", 9)],
    );
    assert_eq!(phase, PodPhase::Failed);
}

#[test]
fn an_unobserved_exit_restarts_under_always_and_onfailure_and_fails_under_never() {
    let obs = [unobserved("a", "id-a")];
    assert_eq!(
        reconcile_pod_phase(RestartPolicy::Always, &obs).0,
        PodPhase::Running,
        "Always: restarted, so the pod stays Running"
    );
    assert_eq!(
        reconcile_pod_phase(RestartPolicy::OnFailure, &obs).0,
        PodPhase::Running,
        "OnFailure: an unobserved exit is a failure, so it is restarted"
    );
    assert_eq!(
        reconcile_pod_phase(RestartPolicy::Never, &obs).0,
        PodPhase::Failed,
        "Never: latched Failed — never the Succeeded a default 0 produced"
    );
}

#[test]
fn an_unobserved_exit_renders_as_upstreams_137_container_status_unknown() {
    assert_eq!(Termination::Unknown.exit_code(), 137);
    assert_eq!(Termination::Unknown.reason(), "ContainerStatusUnknown");
    assert!(!Termination::Unknown.is_success());
    let real_137: Termination = ExitDisposition::Code(137).into();
    assert_ne!(real_137, Termination::Unknown);
    assert_eq!(real_137.reason(), "Error");
    let sigkill: Termination = ExitDisposition::Signal(9).into();
    assert_eq!(sigkill.exit_code(), 137);
    assert_eq!(sigkill.reason(), "Error");
    let clean: Termination = ExitDisposition::Code(0).into();
    assert_eq!((clean.exit_code(), clean.reason()), (0, "Completed"));
    assert!(clean.is_success());
}

#[test]
fn a_run_state_maps_to_a_termination_only_when_not_running() {
    assert_eq!(Termination::from_run_state(RunState::Running), None);
    assert_eq!(
        Termination::from_run_state(RunState::Exited(ExitDisposition::Signal(9))),
        Some(Termination::Observed(ExitDisposition::Signal(9)))
    );
    assert_eq!(
        Termination::from_run_state(RunState::Unknown),
        Some(Termination::Unknown)
    );
    assert_eq!(
        Termination::from_run_state(RunState::Created),
        Some(Termination::Unknown)
    );
}


#[test]
fn a_started_waiting_container_is_not_pending() {
    let held = [ContainerObservation::waiting("a").with_ever_started(true)];
    for policy in [RestartPolicy::Always, RestartPolicy::OnFailure] {
        let (phase, _) = reconcile_pod_phase(policy, &held);
        assert_eq!(phase, PodPhase::Running, "{policy:?}");
    }
    let (phase, _) = reconcile_pod_phase(RestartPolicy::Always, &[waiting("a")]);
    assert_eq!(phase, PodPhase::Pending);
}

fn up(name: &str, id: &str, restarts: u32) -> StoredContainer {
    StoredContainer::Up {
        name: name.into(),
        run: StoredRun {
            container_id: Some(id.into()),
            restart_count: restarts,
        },
    }
}

#[test]
fn a_lost_pod_with_nothing_up_lost_nothing() {
    let stored = vec![
        StoredContainer::NotStarted { name: "a".into() },
        StoredContainer::Ended {
            name: "b".into(),
            run: StoredRun {
                container_id: Some("id-b".into()),
                restart_count: 2,
            },
            exit: ExitDisposition::Code(1).into(),
        },
    ];
    for policy in [
        RestartPolicy::Always,
        RestartPolicy::OnFailure,
        RestartPolicy::Never,
    ] {
        assert_eq!(
            reconcile_lost_pod(policy, &stored),
            LostPod::NothingLost,
            "{policy:?}"
        );
    }
    assert_eq!(
        reconcile_lost_pod(RestartPolicy::Never, &[]),
        LostPod::NothingLost
    );
}

#[test]
fn a_lost_run_restarts_under_a_restarting_policy() {
    let stored = vec![up("a", "id-a", 0)];
    assert_eq!(
        reconcile_lost_pod(RestartPolicy::Always, &stored),
        LostPod::Restart
    );
    assert_eq!(
        reconcile_lost_pod(RestartPolicy::OnFailure, &stored),
        LostPod::Restart,
        "an unobserved exit is not a success, so OnFailure restarts it"
    );
}

#[test]
fn a_lost_run_under_never_fails_the_pod_and_invents_nothing() {
    let stored = vec![
        up("a", "id-a", 3),
        StoredContainer::Ended {
            name: "b".into(),
            run: StoredRun {
                container_id: Some("id-b".into()),
                restart_count: 0,
            },
            exit: ExitDisposition::Code(0).into(),
        },
        StoredContainer::NotStarted { name: "c".into() },
    ];
    let LostPod::Failed(statuses) = reconcile_lost_pod(RestartPolicy::Never, &stored) else {
        panic!("Never + a lost run must fail the pod");
    };
    assert_eq!(
        statuses[0].state,
        ContainerState::terminated(Termination::Unknown)
    );
    assert_eq!(statuses[0].container_id.as_deref(), Some("id-a"));
    assert_eq!(statuses[0].restart_count, 3);
    assert_eq!(
        statuses[1].state,
        ContainerState::terminated(ExitDisposition::Code(0).into())
    );
    assert!(matches!(statuses[2].state, ContainerState::Waiting { .. }));
    assert_eq!(statuses[2].container_id, None);
    assert!(statuses.iter().all(|s| !s.ready));
}

#[test]
fn a_container_started_over_a_published_run_is_adopted_or_counted() {
    let prior = StoredRun {
        container_id: Some("id-1".into()),
        restart_count: 4,
    };
    let adopts = Readoption::AdoptsRunning;
    assert_eq!(StartedAs::of(None, "id-9", adopts), StartedAs::Fresh);
    assert_eq!(
        StartedAs::of(None, "id-9", Readoption::Cannot).restart_count(),
        0
    );
    assert_eq!(
        StartedAs::of(Some(&prior), "id-1", adopts),
        StartedAs::Adopted { restart_count: 4 },
        "the same container continues its run"
    );
    assert_eq!(
        StartedAs::of(Some(&prior), "id-2", adopts),
        StartedAs::Restarted { restart_count: 5 },
        "a new container over a lost run is a counted restart"
    );
    let unnamed = StoredRun {
        container_id: None,
        restart_count: 0,
    };
    assert_eq!(
        StartedAs::of(Some(&unnamed), "id-2", adopts).restart_count(),
        1,
        "a run with no published id cannot be the one just started"
    );
}

#[test]
fn an_id_match_is_not_an_adoption_on_a_runtime_that_cannot_adopt() {
    let prior = StoredRun {
        container_id: Some("default/job/main".into()),
        restart_count: 0,
    };
    assert_eq!(
        StartedAs::of(Some(&prior), "default/job/main", Readoption::Cannot),
        StartedAs::Restarted { restart_count: 1 }
    );
}

#[test]
fn a_wire_termination_reads_back_without_inventing_success() {
    assert_eq!(
        Termination::from_wire(Some(0), Some("Completed")),
        Termination::Observed(ExitDisposition::Code(0))
    );
    assert_eq!(
        Termination::from_wire(Some(137), Some("ContainerStatusUnknown")),
        Termination::Unknown
    );
    assert_eq!(
        Termination::from_wire(None, Some("Completed")),
        Termination::Unknown,
        "no code is not a zero code"
    );
    assert_eq!(
        Termination::from_wire(Some(i64::MAX), Some("Error")),
        Termination::Unknown,
        "an unrepresentable code is not a code"
    );
}

#[test]
fn a_killed_init_container_fails_the_pod_under_never() {
    let obs = vec![killed("init-0", "id0", 9)];
    assert_eq!(
        next_init_action(RestartPolicy::Never, &obs),
        InitAction::InitFailed {
            index: 0,
            exit: ExitDisposition::Signal(9).into()
        }
    );
    assert!(!next_init_action(RestartPolicy::OnFailure, &obs).is_complete());
}


#[test]
fn empty_observations_is_pending() {
    let (phase, statuses) = reconcile_pod_phase(RestartPolicy::Always, &[]);
    assert_eq!(phase, PodPhase::Pending);
    assert!(statuses.is_empty());
}

#[test]
fn single_running_is_running() {
    let (phase, st) = reconcile_pod_phase(RestartPolicy::Never, &[running("a", "id-a")]);
    assert_eq!(phase, PodPhase::Running);
    assert_eq!(st.len(), 1);
    assert!(st[0].state.is_running());
    assert!(st[0].ready);
}

#[test]
fn single_waiting_is_pending() {
    let (phase, st) = reconcile_pod_phase(RestartPolicy::Always, &[waiting("a")]);
    assert_eq!(phase, PodPhase::Pending);
    assert!(matches!(st[0].state, ContainerState::Waiting { .. }));
    assert!(!st[0].ready);
    assert!(st[0].container_id.is_none());
}

#[test]
fn single_terminated_zero_never_is_succeeded() {
    let (phase, st) = reconcile_pod_phase(RestartPolicy::Never, &[terminated("a", "id-a", 0)]);
    assert_eq!(phase, PodPhase::Succeeded);
    assert_eq!(
        st[0].state.termination(),
        Some(Termination::Observed(ExitDisposition::Code(0)))
    );
}

#[test]
fn single_terminated_nonzero_never_is_failed() {
    let (phase, _) = reconcile_pod_phase(RestartPolicy::Never, &[terminated("a", "id-a", 137)]);
    assert_eq!(phase, PodPhase::Failed);
}

#[test]
fn single_terminated_under_always_stays_running() {
    let (phase, _) = reconcile_pod_phase(RestartPolicy::Always, &[terminated("a", "id-a", 0)]);
    assert_eq!(phase, PodPhase::Running);
    let (phase, _) = reconcile_pod_phase(RestartPolicy::Always, &[terminated("a", "id-a", 1)]);
    assert_eq!(phase, PodPhase::Running);
}

#[test]
fn single_terminated_onfailure_zero_succeeds_nonzero_restarts() {
    let (phase, _) =
        reconcile_pod_phase(RestartPolicy::OnFailure, &[terminated("a", "id-a", 0)]);
    assert_eq!(phase, PodPhase::Succeeded);
    let (phase, _) =
        reconcile_pod_phase(RestartPolicy::OnFailure, &[terminated("a", "id-a", 1)]);
    assert_eq!(phase, PodPhase::Running);
}


#[test]
fn two_running_is_running() {
    let (phase, st) = reconcile_pod_phase(
        RestartPolicy::Never,
        &[running("a", "id-a"), running("b", "id-b")],
    );
    assert_eq!(phase, PodPhase::Running);
    assert_eq!(st.len(), 2);
    assert!(st.iter().all(|s| s.state.is_running()));
}

#[test]
fn one_running_one_waiting_is_pending() {
    let (phase, _) =
        reconcile_pod_phase(RestartPolicy::Always, &[running("a", "id-a"), waiting("b")]);
    assert_eq!(phase, PodPhase::Pending);
}

#[test]
fn two_terminated_zero_never_is_succeeded() {
    let (phase, _) = reconcile_pod_phase(
        RestartPolicy::Never,
        &[terminated("a", "id-a", 0), terminated("b", "id-b", 0)],
    );
    assert_eq!(phase, PodPhase::Succeeded);
}

#[test]
fn two_terminated_one_nonzero_never_is_failed() {
    let (phase, _) = reconcile_pod_phase(
        RestartPolicy::Never,
        &[terminated("a", "id-a", 0), terminated("b", "id-b", 5)],
    );
    assert_eq!(phase, PodPhase::Failed);
}

#[test]
fn running_plus_terminated_always_stays_running() {
    let (phase, _) = reconcile_pod_phase(
        RestartPolicy::Always,
        &[running("a", "id-a"), terminated("b", "id-b", 1)],
    );
    assert_eq!(phase, PodPhase::Running);
}

#[test]
fn running_plus_terminated_never_stays_running_while_one_runs() {
    let (phase, _) = reconcile_pod_phase(
        RestartPolicy::Never,
        &[running("a", "id-a"), terminated("b", "id-b", 0)],
    );
    assert_eq!(phase, PodPhase::Running);
}

#[test]
fn container_statuses_preserve_restart_count_and_id() {
    let obs = ContainerObservation::running("web", "cid-9", 3);
    let (_, st) = reconcile_pod_phase(RestartPolicy::Always, &[obs]);
    assert_eq!(st[0].restart_count, 3);
    assert_eq!(st[0].container_id.as_deref(), Some("cid-9"));
    assert_eq!(st[0].name, "web");
}


#[test]
fn no_init_containers_completes_immediately() {
    assert_eq!(
        next_init_action(RestartPolicy::Always, &[]),
        InitAction::Complete
    );
    assert!(next_init_action(RestartPolicy::Never, &[]).is_complete());
}


#[test]
fn a_sidecar_does_not_block_the_init_sequence() {
    let obs = vec![
        running("proxy", "id0").as_sidecar(),
        terminated("setup", "id1", 0),
    ];
    assert_eq!(
        next_init_action(RestartPolicy::Always, &obs),
        InitAction::Complete
    );

    let obs_regular = vec![running("proxy", "id0"), terminated("setup", "id1", 0)];
    assert_eq!(
        next_init_action(RestartPolicy::Always, &obs_regular),
        InitAction::AwaitInit {
            start: vec![],
            blocked_on: Some(0)
        }
    );
}

#[test]
fn a_sidecar_exit_never_fails_the_pod_even_under_restart_policy_never() {
    let obs = vec![
        terminated("proxy", "id0", 7).as_sidecar(),
        terminated("setup", "id1", 0),
    ];
    assert_eq!(
        next_init_action(RestartPolicy::Never, &obs),
        InitAction::AwaitInit {
            start: vec![0],
            blocked_on: None
        },
        "restart it, do not fail the pod, and do not block"
    );

    let obs_regular = vec![terminated("setup", "id0", 7)];
    assert_eq!(
        next_init_action(RestartPolicy::Never, &obs_regular),
        InitAction::InitFailed {
            index: 0,
            exit: ExitDisposition::Code(7).into()
        }
    );
}

#[test]
fn an_unstarted_sidecar_is_started_without_blocking_what_follows() {
    let obs = vec![waiting("proxy").as_sidecar(), waiting("setup")];
    assert_eq!(
        next_init_action(RestartPolicy::Always, &obs),
        InitAction::AwaitInit {
            start: vec![0, 1],
            blocked_on: Some(1)
        },
        "start the sidecar AND the regular one; block only on the regular"
    );
}

#[test]
fn ever_started_is_latched_not_derived_from_the_current_state() {
    let restarting = ContainerObservation::waiting("proxy")
        .as_sidecar()
        .with_ever_started(true);
    let obs = vec![restarting, terminated("setup", "id1", 0)];
    assert_eq!(
        next_init_action(RestartPolicy::Always, &obs),
        InitAction::Complete,
        "a restarting sidecar must not re-block init"
    );
}

#[test]
fn an_unrecognised_restart_policy_is_an_error_not_a_default() {
    assert_eq!(InitKind::from_spec_str(None), Ok(InitKind::Regular));
    assert_eq!(
        InitKind::from_spec_str(Some("Always")),
        Ok(InitKind::Sidecar)
    );
    assert!(InitKind::from_spec_str(Some("always")).is_err());
    assert!(InitKind::from_spec_str(Some("OnFailure")).is_err());
    let e = InitKind::from_spec_str(Some("always")).unwrap_err();
    assert!(e.to_text().contains("always"), "{e:?}");
}

#[test]
fn first_waiting_init_is_the_active_one() {
    let obs = vec![waiting("init-0"), waiting("init-1")];
    assert_eq!(
        next_init_action(RestartPolicy::Always, &obs),
        InitAction::AwaitInit {
            start: vec![0],
            blocked_on: Some(0)
        }
    );
}

#[test]
fn running_init_is_awaited_not_skipped() {
    let obs = vec![running("init-0", "id0"), waiting("init-1")];
    assert_eq!(
        next_init_action(RestartPolicy::Always, &obs),
        InitAction::AwaitInit {
            start: vec![],
            blocked_on: Some(0)
        }
    );
}

#[test]
fn sequential_advance_after_success() {
    let obs = vec![terminated("init-0", "id0", 0), waiting("init-1")];
    assert_eq!(
        next_init_action(RestartPolicy::Always, &obs),
        InitAction::AwaitInit {
            start: vec![1],
            blocked_on: Some(1)
        }
    );
}

#[test]
fn all_init_succeeded_completes() {
    let obs = vec![
        terminated("init-0", "id0", 0),
        terminated("init-1", "id1", 0),
    ];
    assert_eq!(
        next_init_action(RestartPolicy::Never, &obs),
        InitAction::Complete
    );
}

#[test]
fn failed_init_under_never_is_terminal() {
    let obs = vec![terminated("init-0", "id0", 7)];
    assert_eq!(
        next_init_action(RestartPolicy::Never, &obs),
        InitAction::InitFailed {
            index: 0,
            exit: ExitDisposition::Code(7).into()
        }
    );
}

#[test]
fn failed_init_under_always_restarts() {
    let obs = vec![terminated("init-0", "id0", 7)];
    assert_eq!(
        next_init_action(RestartPolicy::Always, &obs),
        InitAction::AwaitInit {
            start: vec![0],
            blocked_on: Some(0)
        }
    );
}

#[test]
fn failed_init_under_onfailure_restarts_nonzero_but_advances_on_zero() {
    let nonzero = vec![terminated("init-0", "id0", 3)];
    assert_eq!(
        next_init_action(RestartPolicy::OnFailure, &nonzero),
        InitAction::AwaitInit {
            start: vec![0],
            blocked_on: Some(0)
        }
    );
    let zero = vec![terminated("init-0", "id0", 0), waiting("init-1")];
    assert_eq!(
        next_init_action(RestartPolicy::OnFailure, &zero),
        InitAction::AwaitInit {
            start: vec![1],
            blocked_on: Some(1)
        }
    );
}


#[test]
fn pod_is_pending_while_init_runs_and_app_untouched() {
    let init = vec![running("init-0", "id0")];
    let app = vec![waiting("app")];
    let (phase, init_st, app_st, initialized) =
        reconcile_pod_phase_with_init(RestartPolicy::Always, &init, &app);
    assert_eq!(phase, PodPhase::Pending);
    assert!(!initialized);
    assert_eq!(init_st.len(), 1);
    assert_eq!(app_st.len(), 1);
}

#[test]
fn pod_failed_when_init_fails_terminally() {
    let init = vec![terminated("init-0", "id0", 9)];
    let app = vec![waiting("app")];
    let (phase, _, _, initialized) =
        reconcile_pod_phase_with_init(RestartPolicy::Never, &init, &app);
    assert_eq!(phase, PodPhase::Failed);
    assert!(!initialized);
}

#[test]
fn app_phase_governs_once_init_complete() {
    let init = vec![terminated("init-0", "id0", 0)];
    let app_running = vec![running("app", "appid")];
    let (phase, _, _, initialized) =
        reconcile_pod_phase_with_init(RestartPolicy::Always, &init, &app_running);
    assert_eq!(phase, PodPhase::Running);
    assert!(initialized);
}

#[test]
fn no_init_pod_phase_matches_bare_app_fold() {
    let app = vec![running("app", "appid")];
    let (p_with, _, app_st, initialized) =
        reconcile_pod_phase_with_init(RestartPolicy::Always, &[], &app);
    let (p_bare, bare_st) = reconcile_pod_phase(RestartPolicy::Always, &app);
    assert_eq!(p_with, p_bare);
    assert!(initialized);
    assert_eq!(app_st, bare_st);
}

#[test]
fn a_held_container_keeps_its_pod_running() {
    let held = ContainerObservation::backing_off("a", "id-a", "CrashLoopBackOff", 3);
    let (phase, st) = reconcile_pod_phase(RestartPolicy::Always, &[held]);
    assert_eq!(phase, PodPhase::Running);
    assert!(matches!(&st[0].state, ContainerState::Waiting { reason } if reason == "CrashLoopBackOff"));
    assert_eq!(st[0].restart_count, 3);
}

#[test]
fn what_is_published_of_an_end_reads_back() {
    for t in [
        Termination::Observed(ExitDisposition::Code(0)),
        Termination::Observed(ExitDisposition::Code(3)),
        Termination::Observed(ExitDisposition::Signal(9)),
        Termination::Unknown,
    ] {
        let back = Termination::from_wire(Some(i64::from(t.exit_code())), Some(t.reason()));
        assert_eq!(back.is_success(), t.is_success());
        assert_eq!(back.exit_code(), t.exit_code());
        assert_eq!(back.reason(), t.reason());
    }
}

#[test]
fn ends_are_told_in_words() {
    assert_eq!(Termination::Unknown.to_text(), "unobserved");
    assert_eq!(Termination::from_exit_code(Some(3)).to_text(), "code 3");
    assert_eq!(Termination::from_exit_code(None), Termination::Unknown);
}
