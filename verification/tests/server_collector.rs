//! Collectors and what is asked of their readings.

use clustat::common::error::ErrorCode;
use clustat::server::collector::{
    assert_gres_collector_contract, validate_gres_node_snapshot_contract, DegradedCollector,
    GresCollector, GresNodeSnapshot,
};
use clustat::server::nvml::{
    collect_processes, command_from_comm, device_limit, env_truthy, library_path,
    snapshot_from_devices, uid_from_status, NvmlDevice, NvmlProcess,
};
use clustat::server::test_collector::{
    deterministic_inventory, read_runtime_file, reading_from_files, runtime_for_tick,
    validate_inventory, write_runtime_file, RuntimeFileError, TestGresCollector,
};

#[test]
fn test_gres_collector_returns_expected_snapshot() {
    let snapshot = TestGresCollector::new("node-test")
        .collect_gres_snapshot()
        .expect("test collect");
    assert_eq!(snapshot.hostname, "node-test");
    assert_eq!(snapshot.gres.len(), 1);
    assert_eq!(snapshot.gres[0].utilization.gres_percent, 87);
    assert_eq!(snapshot.gres[0].name, "NVIDIA Test GPU 0");
    assert_eq!(snapshot.gres[0].utilization.gres_percent, 87);
    assert_eq!(snapshot.gres[0].memory.used_mb, 1_234);
    assert_eq!(snapshot.gres[0].memory.total_mb, 16_384);
    assert_eq!(snapshot.gres[0].processes.len(), 2);
    assert_eq!(snapshot.gres[0].processes[0].uid, 1000);
}

#[test]
fn test_gres_collector_generates_multi_gres_multi_process_snapshot() {
    let snapshot = TestGresCollector::with_gres_count("node-a", 2)
        .collect_gres_snapshot()
        .expect("test collect");

    assert_eq!(snapshot.hostname, "node-a");
    assert_eq!(snapshot.gres.len(), 2);
    assert_eq!(snapshot.gres[0].index, 0);
    assert_eq!(snapshot.gres[1].index, 1);
    assert_eq!(
        snapshot.gres[0].uuid.as_deref(),
        Some("GRES-TEST-node-a-0000")
    );
    assert_eq!(
        snapshot.gres[1].uuid.as_deref(),
        Some("GRES-TEST-node-a-0001")
    );
    assert_eq!(snapshot.gres[0].processes.len(), 2);
    assert_eq!(snapshot.gres[1].processes.len(), 2);
    assert_eq!(snapshot.gres[1].processes[0].command, None);
}

#[test]
fn deterministic_inventory_covers_expected_memory_sizes_and_counts() {
    let allowed = [8, 16, 24, 36, 48, 80, 96]
        .into_iter()
        .map(|gib| gib * 1024)
        .collect::<std::collections::HashSet<u64>>();
    for seed in 0..64 {
        let inventory = deterministic_inventory(seed, format!("node-{seed}"));
        assert!((1..=8).contains(&inventory.gres.len()));
        for resource in &inventory.gres {
            assert!(allowed.contains(&resource.memory_total_mb));
        }
        let collector = TestGresCollector::from_inventory(inventory);
        assert_eq!(assert_gres_collector_contract(&collector), Ok(()));
    }
}

#[test]
fn gres_collector_contract_accepts_normalized_test_collector() {
    let collector = TestGresCollector::with_gres_count("node-a", 2);
    assert_eq!(assert_gres_collector_contract(&collector), Ok(()));
}

#[test]
fn gres_snapshot_contract_accepts_empty_resource_inventory() {
    let snapshot = GresNodeSnapshot {
        hostname: "node-empty".to_string(),
        driver_version: None,
        resources: Vec::new(),
    };
    validate_gres_node_snapshot_contract(&snapshot).expect("empty inventory is valid");
}

#[test]
fn gres_snapshot_contract_rejects_non_dense_indices() {
    let mut snapshot = TestGresCollector::with_gres_count("node-a", 2)
        .collect_gres()
        .expect("test collect");
    snapshot.resources[1].index = 3;

    let error = validate_gres_node_snapshot_contract(&snapshot).unwrap_err();
    assert!(error.contains("dense and zero-based"), "{error}");
}

#[test]
fn gres_snapshot_contract_rejects_invalid_resource_fields() {
    let mut snapshot = TestGresCollector::new("node-a")
        .collect_gres()
        .expect("test collect");
    snapshot.resources[0].name.clear();
    snapshot.resources[0].memory_used_mb = 2;
    snapshot.resources[0].memory_total_mb = 1;
    snapshot.resources[0].utilization_gres_percent = 101;

    let error = validate_gres_node_snapshot_contract(&snapshot).unwrap_err();
    assert!(error.contains("name must not be empty"), "{error}");
}

#[test]
fn gres_snapshot_contract_rejects_duplicate_uuid() {
    let mut snapshot = TestGresCollector::with_gres_count("node-a", 2)
        .collect_gres()
        .expect("test collect");
    snapshot.resources[1].uuid = snapshot.resources[0].uuid.clone();

    let error = validate_gres_node_snapshot_contract(&snapshot).unwrap_err();
    assert!(error.contains("duplicated"), "{error}");
}

#[test]
fn gres_snapshot_contract_rejects_invalid_process_fields() {
    let mut snapshot = TestGresCollector::new("node-a")
        .collect_gres()
        .expect("test collect");
    snapshot.resources[0].processes[0].pid = 0;

    let error = validate_gres_node_snapshot_contract(&snapshot).unwrap_err();
    assert!(error.contains("process pid must not be zero"), "{error}");
}

#[test]
fn degraded_collector_returns_error() {
    let collector = DegradedCollector::new(ErrorCode::NvmlUnavailable);
    assert_eq!(
        collector.collect_gres().unwrap_err(),
        ErrorCode::NvmlUnavailable
    );
}

#[test]
fn readings_and_snapshots_turn_into_each_other() {
    let reading = TestGresCollector::with_gres_count("node-a", 2).collect_gres().expect("reading");
    let again = TestGresCollector::with_gres_count("node-a", 2)
        .collect_gres_snapshot()
        .map(GresNodeSnapshot::from_gres_snapshot)
        .expect("snapshot");
    assert_eq!(again, reading);
    assert_eq!(
        assert_gres_collector_contract(&DegradedCollector::new(ErrorCode::NvmlUnavailable))
            .is_err(),
        true
    );
}

#[test]
fn counters_follow_the_tick() {
    let inventory = deterministic_inventory(42, "node-json".to_string());
    assert_eq!(validate_inventory(&inventory), Ok(()));
    let first = runtime_for_tick(&inventory, 7);
    let second = runtime_for_tick(&inventory, 8);
    assert_ne!(first.gres[0].memory_used_mb, second.gres[0].memory_used_mb);
    let snapshot = reading_from_files(Some(&inventory), Some(&first)).expect("reading");
    assert_eq!(validate_gres_node_snapshot_contract(&snapshot), Ok(()));
    assert_eq!(snapshot.hostname, "node-json");
    assert_eq!(snapshot.resources.len(), inventory.gres.len());
    assert_eq!(snapshot.resources[0].memory_total_mb, inventory.gres[0].memory_total_mb);
    assert_eq!(snapshot.resources[0].memory_used_mb, first.gres[0].memory_used_mb);
    assert_eq!(
        reading_from_files(Some(&inventory), None),
        reading_from_files(Some(&inventory), Some(&runtime_for_tick(&inventory, 0)))
    );
    assert_eq!(reading_from_files(None, None), Err(ErrorCode::ConfigInvalid));
}

#[test]
fn runtime_file_reads_back() {
    let mut file = vec![0u8; 64];
    assert_eq!(read_runtime_file(&file), Err(RuntimeFileError::InvalidLength));
    assert_eq!(read_runtime_file(&file[..7]), Err(RuntimeFileError::TooSmall));
    let front = write_runtime_file(file.len(), b"state").expect("front");
    assert_eq!(&front[..8], &[5, 0, 0, 0, 0, 0, 0, 0]);
    file[..front.len()].copy_from_slice(&front);
    assert_eq!(read_runtime_file(&file), Ok(&b"state"[..]));
    assert_eq!(write_runtime_file(12, b"state"), None);
    file[0] = 57;
    assert_eq!(read_runtime_file(&file), Err(RuntimeFileError::InvalidLength));
}

#[test]
fn devices_make_up_a_snapshot() {
    let process = |pid: u32, uid: Option<u32>, used_bytes: Option<u64>| NvmlProcess {
        pid,
        uid,
        command: Some("python".to_string()),
        used_bytes,
    };
    let devices = vec![NvmlDevice {
        name: None,
        uuid: Some("GPU-1".to_string()),
        temperature_c: Some(40),
        memory_used_bytes: 3 * 1024 * 1024 + 5,
        memory_total_bytes: 8 * 1024 * 1024,
        gpu_percent: 250,
        memory_percent: 7,
        processes: vec![
            process(1, Some(1000), Some(2 * 1024 * 1024)),
            process(2, None, None),
            process(1, Some(1001), Some(9 * 1024 * 1024)),
        ],
    }];
    assert_eq!(collect_processes(&devices[0].processes).len(), 2);
    let snapshot = snapshot_from_devices("node-a", &Some("550".to_string()), &devices);
    assert_eq!(snapshot.hostname, "node-a");
    assert_eq!(snapshot.driver_version.as_deref(), Some("550"));
    assert_eq!(snapshot.gres[0].name, "unknown");
    assert_eq!(snapshot.gres[0].memory.used_mb, 3);
    assert_eq!(snapshot.gres[0].memory.total_mb, 8);
    assert_eq!(snapshot.gres[0].utilization.gres_percent, 100);
    assert_eq!(snapshot.gres[0].processes[0].used_memory_mb, 2);
    assert_eq!(snapshot.gres[0].processes[1].uid, u32::MAX);
    assert_eq!(device_limit(9), 9);
    assert_eq!(device_limit(10_000), 255);
}

#[test]
fn processes_are_looked_up_in_their_files() {
    assert_eq!(command_from_comm(" python \n"), Some("python".to_string()));
    assert_eq!(command_from_comm(" \n"), None);
    assert_eq!(uid_from_status("Name:\tx\nUid:\t1000\t1000\n"), Some(1000));
    assert_eq!(uid_from_status("Name:\tx\n"), None);
    assert_eq!(uid_from_status("Uid:\troot\n"), None);
    assert!(env_truthy(Some("Yes")));
    assert!(!env_truthy(Some("0")));
    assert!(!env_truthy(None));
    assert_eq!(library_path(Some(" /lib/x ")), Some("/lib/x".to_string()));
    assert_eq!(library_path(Some(" ")), None);
}

#[test]
fn largest_seeds_have_an_inventory() {
    let inventory = deterministic_inventory(u64::MAX - 7, "node-max".to_string());
    assert_eq!(inventory.gres.len(), 1);
    assert_eq!(inventory.gres[0].memory_total_mb, 16 * 1024);
}
