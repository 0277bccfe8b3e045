use avm::promotion::{
    check_backing_chain, check_confirmation, check_location, check_promoted_image, check_target, checksum_line,
    sidecar_paths, source_virtual_size, staging_name, ChainImage, OverlayKind, PromotedImage, PromotionError,
};

fn image(format: &str, encrypted: Option<bool>, base: bool) -> ChainImage {
    ChainImage { format: Some(format.into()), encrypted, is_configured_base: base }
}

fn promoted(size: u64) -> PromotedImage {
    PromotedImage {
        format: Some("qcow2".into()),
        virtual_size: Some(size),
        has_backing_filename: false,
        snapshot_count: None,
    }
}

#[test]
fn promotion_must_be_confirmed() {
    assert_eq!(check_confirmation(true), Ok(()));
    assert_eq!(check_confirmation(false), Err(PromotionError::NotConfirmed));
    assert_eq!(PromotionError::NotConfirmed.message(), "promotion requires --confirm-sanitized");
}

#[test]
fn target_needs_a_stopped_vm_a_regular_overlay_and_a_new_qcow2_name() {
    assert_eq!(check_target(false, OverlayKind::RegularFile, "/images/base.qcow2", false), Ok(()));
    assert_eq!(check_target(false, OverlayKind::RegularFile, "images/a.b.qcow2/", false), Ok(()));
    assert_eq!(
        check_target(true, OverlayKind::RegularFile, "/images/base.qcow2", false),
        Err(PromotionError::VmRunning)
    );
    assert_eq!(
        check_target(false, OverlayKind::Missing, "/images/base.qcow2", false),
        Err(PromotionError::OverlayMissing)
    );
    assert_eq!(
        check_target(false, OverlayKind::Other, "/images/base.qcow2", false),
        Err(PromotionError::OverlayNotRegular)
    );
    for name in ["/images/base.img", "/images/.qcow2", "/images/qcow2", "/images/base.qcow2/..", "/"] {
        assert_eq!(
            check_target(false, OverlayKind::RegularFile, name, false),
            Err(PromotionError::NotQcow2Name),
            "{name}"
        );
    }
    assert_eq!(
        check_target(false, OverlayKind::RegularFile, "/images/base.qcow2", true),
        Err(PromotionError::OutputExists)
    );
}

#[test]
fn sidecars_sit_beside_the_output() {
    let (manifest, checksum) = sidecar_paths("/images/base.qcow2");
    assert_eq!(manifest, "/images/base.qcow2.avm.json");
    assert_eq!(checksum, "/images/base.qcow2.sha256");
}

#[test]
fn location_stays_outside_run_state_and_candidate() {
    assert_eq!(check_location("/images/base.qcow2", "/var/lib/avm/run", "/work/candidate", false), Ok(()));
    assert_eq!(
        check_location("/var/lib/avm/run/base.qcow2", "/var/lib/avm/run", "/work/candidate", false),
        Err(PromotionError::InsideRunState)
    );
    assert_eq!(
        check_location("/var/lib/avm/run-2/base.qcow2", "/var/lib/avm/run", "/work/candidate", false),
        Ok(())
    );
    assert_eq!(
        check_location("/images/base.qcow2", "/var/lib/avm/run", "/work/candidate", true),
        Err(PromotionError::SidecarExists)
    );
    assert_eq!(
        check_location("/work/candidate/out/base.qcow2", "/var/lib/avm/run", "/work/candidate", false),
        Err(PromotionError::InsideCandidate)
    );
}

#[test]
fn backing_chain_must_be_plain_qcow2_over_the_configured_base() {
    let good = [image("qcow2", None, false), image("qcow2", Some(false), true)];
    assert_eq!(check_backing_chain(&good), Ok(()));
    assert_eq!(check_backing_chain(&good[..1]), Err(PromotionError::NoBackingImage));
    let raw = [image("qcow2", None, false), image("raw", None, true)];
    assert_eq!(check_backing_chain(&raw), Err(PromotionError::NonQcow2Chain));
    let missing = [image("qcow2", None, false), ChainImage { format: None, encrypted: None, is_configured_base: true }];
    assert_eq!(check_backing_chain(&missing), Err(PromotionError::NonQcow2Chain));
    let encrypted = [image("qcow2", Some(true), false), image("qcow2", None, true)];
    assert_eq!(check_backing_chain(&encrypted), Err(PromotionError::EncryptedChain));
    let foreign = [image("qcow2", None, false), image("qcow2", None, false)];
    assert_eq!(check_backing_chain(&foreign), Err(PromotionError::BaseNotInChain));
}

#[test]
fn overlay_info_gives_the_virtual_size() {
    assert_eq!(source_virtual_size(&Some("qcow2".into()), Some(1 << 30)), Ok(1 << 30));
    assert_eq!(source_virtual_size(&Some("raw".into()), Some(1)), Err(PromotionError::OverlayNotQcow2));
    assert_eq!(source_virtual_size(&Some("qcow2".into()), None), Err(PromotionError::NoVirtualSize));
}

#[test]
fn promoted_image_is_a_standalone_copy() {
    assert_eq!(check_promoted_image(10, &promoted(10)), Ok(()));
    let mut empty_snapshots = promoted(10);
    empty_snapshots.snapshot_count = Some(0);
    assert_eq!(check_promoted_image(10, &empty_snapshots), Ok(()));
    let mut raw = promoted(10);
    raw.format = Some("raw".into());
    assert_eq!(check_promoted_image(10, &raw), Err(PromotionError::PromotedNotQcow2));
    assert_eq!(check_promoted_image(11, &promoted(10)), Err(PromotionError::VirtualSizeChanged));
    let mut backed = promoted(10);
    backed.has_backing_filename = true;
    assert_eq!(check_promoted_image(10, &backed), Err(PromotionError::BackingRetained));
    let mut snapshots = promoted(10);
    snapshots.snapshot_count = Some(2);
    assert_eq!(check_promoted_image(10, &snapshots), Err(PromotionError::SnapshotsRetained));
    assert_eq!(
        PromotionError::SnapshotsRetained.message(),
        "promoted image retained internal snapshots"
    );
}

#[test]
fn staging_and_checksum_text() {
    assert_eq!(staging_name("1234"), ".avm-promote-1234.qcow2");
    assert_eq!(checksum_line("abcd", "base.qcow2"), "abcd  base.qcow2\n");
}
