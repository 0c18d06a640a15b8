use engenho_kubelet::backend::MountSource;
use engenho_kubelet::csi_materializer::{
    can_provision, create_volume, created_volume, delete_volume, staging_path, sync_drivers,
    target_path, unknown_drivers, AccessMode, CsiCreateRequest, CsiPublishRequest,
    CsiVolumeMaterializer, DriverTable, PublishCall, PublishReply, RegisteredDriver, Unpublish,
    VolumeKey,
};
use engenho_kubelet::table::Table;

fn driver(stage: bool) -> RegisteredDriver {
    RegisteredDriver {
        endpoint: "/run/d.sock".into(),
        stage_unstage: stage,
        node_id: "n1".into(),
    }
}

fn key() -> VolumeKey {
    VolumeKey { namespace: "ns".into(), pod: "pod1".into(), volume: "data".into() }
}

fn request(name: &str) -> CsiPublishRequest {
    CsiPublishRequest {
        driver: name.into(),
        volume_handle: "vol-1".into(),
        fs_type: None,
        volume_attributes: Table::new(),
        read_only: false,
    }
}

#[test]
fn the_target_path_is_upstreams_layout_exactly() {
    assert_eq!(
        target_path("/var/lib/kubelet", "ns", "pod1", "data"),
        "/var/lib/kubelet/pods/ns_pod1/volumes/kubernetes.io~csi/data/mount"
    );
}

#[test]
fn the_staging_path_is_per_volume_not_per_pod() {
    let a = staging_path("/root", "d.csi", "vol-1");
    let b = staging_path("/root", "d.csi", "vol-1");
    assert_eq!(a, b);
    assert!(!a.contains("pods"), "{a}");
}

#[test]
fn an_unregistered_driver_is_a_typed_pending_not_a_wrong_mount() {
    let m = CsiVolumeMaterializer::new("/tmp/engenho-csi-test");
    let (_, call) = m.publish_csi(&DriverTable::new(), &key(), &request("absent.csi.io"));
    let err = match call {
        PublishCall::Finish(Err(e)) => e,
        other => panic!("{other:?}"),
    };
    assert_eq!(err.pending_reason(), "CsiUnavailable");
    assert!(err.to_text().contains("absent.csi.io"), "{err:?}");
}

#[test]
fn unpublishing_something_never_published_succeeds() {
    let mut m = CsiVolumeMaterializer::new("/tmp/engenho-csi-test");
    assert_eq!(m.unpublish_csi(&DriverTable::new(), &key()), Unpublish::Nothing);
}

#[test]
fn a_volume_is_staged_published_and_taken_down() {
    let mut drivers = DriverTable::new();
    drivers.insert("d.csi", driver(true));
    let mut m = CsiVolumeMaterializer::new("/k");
    let req = request("d.csi");
    let (at, call) = m.publish_csi(&drivers, &key(), &req);
    assert!(matches!(call, PublishCall::MakeDir(_)));
    let (at, call) = m.continue_publish(&key(), &req, at, PublishReply::Done);
    assert!(matches!(call, PublishCall::MakeDir(_)));
    let (at, call) = m.continue_publish(&key(), &req, at, PublishReply::Done);
    assert!(matches!(call, PublishCall::Stage(_)));
    let (at, call) = m.continue_publish(&key(), &req, at, PublishReply::Done);
    assert!(matches!(call, PublishCall::Publish(_)));
    let (_, call) = m.continue_publish(&key(), &req, at, PublishReply::Done);
    match call {
        PublishCall::Finish(Ok(MountSource::PvcHostDir { path, read_only })) => {
            assert_eq!(path, target_path("/k", "ns", "pod1", "data"));
            assert!(!read_only);
        }
        other => panic!("{other:?}"),
    }
    let down = m.unpublish_csi(&drivers, &key());
    assert!(matches!(down, Unpublish::Call(_)));
    assert!(format!("{down:?}").contains("vol-1"));
    assert_eq!(m.unpublish_csi(&drivers, &key()), Unpublish::Nothing);
}

#[test]
fn a_volume_of_a_driver_that_is_gone_is_forgotten_and_told_of() {
    let mut drivers = DriverTable::new();
    drivers.insert("d.csi", driver(false));
    let mut m = CsiVolumeMaterializer::new("/k");
    let req = request("d.csi");
    let (at, _) = m.publish_csi(&drivers, &key(), &req);
    let (at, call) = m.continue_publish(&key(), &req, at, PublishReply::Done);
    assert!(matches!(call, PublishCall::Publish(_)));
    let (_, call) = m.continue_publish(&key(), &req, at, PublishReply::Done);
    assert!(matches!(call, PublishCall::Finish(Ok(_))));
    let none = DriverTable::new();
    assert_eq!(m.unpublish_csi(&none, &key()), Unpublish::DriverGone("d.csi".into()));
    assert_eq!(m.unpublish_csi(&none, &key()), Unpublish::Nothing);
    assert_eq!(m.unpublish_csi(&drivers, &key()), Unpublish::Nothing);
}

#[test]
fn a_step_that_fails_ends_the_publishing() {
    let mut drivers = DriverTable::new();
    drivers.insert("d.csi", driver(false));
    let mut m = CsiVolumeMaterializer::new("/k");
    let req = request("d.csi");
    let (at, _) = m.publish_csi(&drivers, &key(), &req);
    let (_, call) = m.continue_publish(&key(), &req, at, PublishReply::Failed("full".into()));
    match call {
        PublishCall::Finish(Err(e)) => assert!(e.to_text().contains("full")),
        other => panic!("{other:?}"),
    }
}

fn create(multi_node: bool, capacity_bytes: i64) -> CsiCreateRequest {
    CsiCreateRequest {
        driver: "d.csi".into(),
        name: "pvc-1".into(),
        capacity_bytes,
        multi_node,
        parameters: Table::new(),
    }
}

#[test]
fn a_claim_keeps_its_access_mode_and_asks_for_no_empty_volume() {
    let mut drivers = DriverTable::new();
    drivers.insert("d.csi", driver(false));
    assert!(can_provision(&drivers, "d.csi"));
    let q = create_volume(&drivers, &create(true, 0)).unwrap();
    assert_eq!(q.access_mode, AccessMode::MultiNodeMultiWriter);
    assert_eq!(q.required_bytes, None);
    let q = create_volume(&drivers, &create(false, 10)).unwrap();
    assert_eq!(q.access_mode, AccessMode::SingleNodeWriter);
    assert_eq!(q.required_bytes, Some(10));
    let v = created_volume(&create(false, 10), "h".into(), 0, Table::new());
    assert_eq!(v.capacity_bytes, 10);
    let v = created_volume(&create(false, 10), "h".into(), 16, Table::new());
    assert_eq!(v.capacity_bytes, 16);
}

#[test]
fn a_driver_that_is_not_there_is_named() {
    let drivers = DriverTable::new();
    assert_eq!(
        create_volume(&drivers, &create(false, 1)).unwrap_err(),
        "CSI driver d.csi is not registered"
    );
    assert_eq!(
        delete_volume(&drivers, "x.csi", "h").unwrap_err(),
        "CSI driver x.csi is not registered"
    );
}

#[test]
fn drivers_come_and_go_with_their_sockets() {
    let mut drivers = DriverTable::new();
    drivers.insert("gone.csi", driver(false));
    let mut found: Table<RegisteredDriver> = Table::new();
    found.insert("new.csi", driver(true));
    found.insert("mute.csi", driver(true));
    assert_eq!(unknown_drivers(&drivers, &found), vec!["mute.csi", "new.csi"]);
    let r = sync_drivers(&mut drivers, &found, 1, &["new.csi".to_string()]);
    assert_eq!(r.objects_examined, 3);
    assert_eq!(r.objects_changed, 2);
    assert_eq!(r.objects_skipped, 2);
    assert_eq!(drivers.names(), vec!["new.csi"]);
    let again = sync_drivers(&mut drivers, &found, 0, &[]);
    assert_eq!(again.objects_changed, 0);
}
