use engenho_kubelet::error::KubeletError;
use engenho_kubelet::image_source::{ImageSource, ImageSourceError};

const PG: &str = "nix:/nix/store/00pjg4wzlg32ihqpcfw7jcm5q99r55vk-postgresql-16.15";

#[test]
fn a_store_path_is_a_natively_runnable_closure() {
    let src = ImageSource::parse(PG).expect("a realised store path must parse");
    assert!(src.is_natively_runnable());
    assert_eq!(
        src.closure().expect("closure"),
        "/nix/store/00pjg4wzlg32ihqpcfw7jcm5q99r55vk-postgresql-16.15"
    );
}

#[test]
fn the_oci_image_ryn_runs_today_is_not_natively_runnable() {
    let src = ImageSource::parse("docker.io/library/postgres:16-alpine")
        .expect("an OCI reference is classified, not rejected");
    assert_eq!(src, ImageSource::Oci("docker.io/library/postgres:16-alpine".to_string()));
    assert!(!src.is_natively_runnable());
    assert!(src.closure().is_none());
}

#[test]
fn a_nix_reference_outside_the_store_is_refused() {
    assert_eq!(
        ImageSource::parse("nix:/tmp/postgres").expect_err("must refuse"),
        ImageSourceError::NotAStorePath { path: "/tmp/postgres".to_string() }
    );
}

#[test]
fn a_nix_reference_that_climbs_out_of_the_store_is_refused() {
    assert_eq!(
        ImageSource::parse("nix:/nix/store/../../etc/shadow").expect_err("must refuse"),
        ImageSourceError::TraversesUpward { path: "/nix/store/../../etc/shadow".to_string() }
    );
}

#[test]
fn the_bare_store_root_names_no_package() {
    assert_eq!(
        ImageSource::parse("nix:/nix/store/").expect_err("must refuse"),
        ImageSourceError::NoPackage
    );
}

#[test]
fn nothing_but_slashes_names_no_package() {
    for image in [
        "nix:/nix/store//",
        "nix:/nix/store///",
        "nix:/nix/store/.",
        "nix:/nix/store/./",
    ] {
        assert_eq!(
            ImageSource::parse(image).expect_err("must refuse"),
            ImageSourceError::NoPackage,
            "{image}"
        );
    }
    assert!(ImageSource::parse("nix:/nix/store//aaa-pkg").is_ok());
}

#[test]
fn an_empty_reference_is_refused_rather_than_treated_as_oci() {
    assert_eq!(ImageSource::parse("").expect_err("must refuse"), ImageSourceError::Empty);
}

#[test]
fn existing_oci_shapes_still_classify_cleanly() {
    for image in [
        "docker.io/library/postgres:16-alpine",
        "postgres:16-alpine",
        "ghcr.io/pleme-io/pangea-operator@sha256:abc123",
        "localhost:5000/thing:latest",
    ] {
        let src = ImageSource::parse(image).expect("must classify");
        assert!(!src.is_natively_runnable(), "{image}");
    }
}

#[test]
fn refused_references_say_why() {
    for e in [
        ImageSourceError::Empty,
        ImageSourceError::NoPackage,
        ImageSourceError::NotAStorePath { path: "/x".into() },
        ImageSourceError::TraversesUpward { path: "/x".into() },
    ] {
        assert!(!e.to_text().is_empty());
    }
}

#[test]
fn error_kinds_are_stable() {
    assert_eq!(KubeletError::Store("x".into()).kind(), "store");
    assert_eq!(KubeletError::Backend("x".into()).kind(), "backend");
    assert_eq!(
        KubeletError::InvalidPod { pod: "x/y".into(), reason: "z".into() }.kind(),
        "invalid_pod"
    );
    assert_eq!(KubeletError::NotReaped { container_id: "c".into() }.kind(), "not_reaped");
}

#[test]
fn errors_say_what_they_are() {
    assert_eq!(KubeletError::Store("x".into()).to_text(), "store: x");
    assert_eq!(KubeletError::VolumeTeardown("v".into()).to_text(), "volume teardown: v");
    assert_eq!(KubeletError::VolumeTeardown("v".into()).kind(), "volume_teardown");
    assert_eq!(
        KubeletError::InvalidPod { pod: "a/b".into(), reason: "no".into() }.to_text(),
        "invalid pod a/b: no"
    );
    assert!(KubeletError::NotReaped { container_id: "c7".into() }.to_text().contains("c7"));
}
