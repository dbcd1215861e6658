use spur::mounts::parse_mounts;

#[test]
fn test_parse_mounts_hostpath() {
    let mounts = vec!["/data:/mnt/data:ro".to_string(), "/tmp:/tmp".to_string()];
    let (vols, vmounts) = parse_mounts(&mounts);
    assert_eq!(vols.len(), 2);
    assert_eq!(vmounts.len(), 2);
    assert_eq!(vmounts[0].mount_path, "/mnt/data");
    assert_eq!(vmounts[0].read_only, Some(true));
    assert_eq!(vmounts[1].mount_path, "/tmp");
    assert_eq!(vmounts[1].read_only, Some(false));
}

#[test]
fn test_parse_mounts_hostpath_source_path() {
    let mounts = vec!["/host/data:/container/data".to_string()];
    let (vols, _) = parse_mounts(&mounts);
    assert_eq!(vols.len(), 1);
    let hp = vols[0].host_path.as_ref().unwrap();
    assert_eq!(hp.path, "/host/data");
    assert_eq!(hp.type_.as_deref(), Some("DirectoryOrCreate"));
}

#[test]
fn test_parse_mounts_hostpath_volume_naming() {
    let mounts = vec![
        "/a:/b".to_string(),
        "/c:/d".to_string(),
        "/e:/f".to_string(),
    ];
    let (vols, vmounts) = parse_mounts(&mounts);
    assert_eq!(vols[0].name, "hostpath-0");
    assert_eq!(vols[1].name, "hostpath-1");
    assert_eq!(vols[2].name, "hostpath-2");
    // Volume mount names must match volume names
    assert_eq!(vmounts[0].name, "hostpath-0");
    assert_eq!(vmounts[1].name, "hostpath-1");
    assert_eq!(vmounts[2].name, "hostpath-2");
}

// --- parse_mounts: PVC ---

#[test]
fn test_parse_mounts_pvc() {
    let mounts = vec!["pvc:my-claim:/data".to_string()];
    let (vols, vmounts) = parse_mounts(&mounts);
    assert_eq!(vols.len(), 1);
    assert_eq!(vmounts.len(), 1);
    assert_eq!(vmounts[0].mount_path, "/data");
    assert!(vols[0].persistent_volume_claim.is_some());
}

#[test]
fn test_parse_mounts_pvc_claim_name() {
    let mounts = vec!["pvc:training-data:/mnt/data".to_string()];
    let (vols, _) = parse_mounts(&mounts);
    let pvc = vols[0].persistent_volume_claim.as_ref().unwrap();
    assert_eq!(pvc.claim_name, "training-data");
}

#[test]
fn test_parse_mounts_pvc_readonly() {
    let mounts = vec!["pvc:datasets:/data:ro".to_string()];
    let (vols, vmounts) = parse_mounts(&mounts);
    let pvc = vols[0].persistent_volume_claim.as_ref().unwrap();
    assert_eq!(pvc.read_only, Some(true));
    assert_eq!(vmounts[0].read_only, Some(true));
}

#[test]
fn test_parse_mounts_pvc_readwrite() {
    let mounts = vec!["pvc:output:/results".to_string()];
    let (vols, vmounts) = parse_mounts(&mounts);
    let pvc = vols[0].persistent_volume_claim.as_ref().unwrap();
    assert_eq!(pvc.read_only, Some(false));
    assert_eq!(vmounts[0].read_only, Some(false));
}

#[test]
fn test_parse_mounts_pvc_naming() {
    let mounts = vec!["pvc:a:/x".to_string(), "pvc:b:/y".to_string()];
    let (vols, _) = parse_mounts(&mounts);
    assert_eq!(vols[0].name, "pvc-0");
    assert_eq!(vols[1].name, "pvc-1");
}

// --- parse_mounts: mixed and edge cases ---

#[test]
fn test_parse_mounts_mixed_hostpath_and_pvc() {
    let mounts = vec![
        "/data:/mnt/data:ro".to_string(),
        "pvc:checkpoints:/checkpoints".to_string(),
        "/logs:/var/log".to_string(),
    ];
    let (vols, vmounts) = parse_mounts(&mounts);
    assert_eq!(vols.len(), 3);
    assert_eq!(vmounts.len(), 3);
    // First is hostPath
    assert!(vols[0].host_path.is_some());
    assert!(vols[0].persistent_volume_claim.is_none());
    // Second is PVC
    assert!(vols[1].persistent_volume_claim.is_some());
    assert!(vols[1].host_path.is_none());
    // Third is hostPath
    assert!(vols[2].host_path.is_some());
}

#[test]
fn test_parse_mounts_empty() {
    let mounts: Vec<String> = vec![];
    let (vols, vmounts) = parse_mounts(&mounts);
    assert!(vols.is_empty());
    assert!(vmounts.is_empty());
}

#[test]
fn test_parse_mounts_single_component_ignored() {
    // A single component (no colon) should be skipped
    let mounts = vec!["just-a-path".to_string()];
    let (vols, vmounts) = parse_mounts(&mounts);
    assert!(vols.is_empty());
    assert!(vmounts.is_empty());
}

#[test]
fn test_parse_mounts_pvc_missing_mount_path_ignored() {
    // "pvc:name" without mount path should be skipped (parts.len() < 3)
    let mounts = vec!["pvc:my-claim".to_string()];
    let (vols, vmounts) = parse_mounts(&mounts);
    assert!(vols.is_empty());
    assert!(vmounts.is_empty());
}

#[test]
fn mounts_are_numbered_by_their_place_in_the_list() {
    let mounts = vec![
        "ignored".to_string(),
        "pvc:scratch:/scratch".to_string(),
        "/a:/b:rw".to_string(),
    ];
    let (vols, vmounts) = parse_mounts(&mounts);
    assert_eq!(vols.len(), 2);
    assert_eq!(vols[0].name, "pvc-1");
    assert_eq!(vols[1].name, "hostpath-2");
    assert_eq!(vmounts[1].name, "hostpath-2");
    assert_eq!(vmounts[1].read_only, Some(false));
}
