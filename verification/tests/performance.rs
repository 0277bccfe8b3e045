use avm::performance::{io_value, latency_summary, percentile, sort_samples, stat_values, ProcessSnapshot, StatError, StorageUsage};

#[test]
fn percentile_uses_nearest_rank() {
    assert_eq!(percentile(&[1, 2, 3, 4, 5], 50), 3);
    assert_eq!(percentile(&[1, 2, 3, 4, 5], 95), 5);
}

#[test]
fn latency_summary_orders_samples_first() {
    let summary = latency_summary(vec![40, 10, 30, 20]).unwrap();
    assert_eq!(summary.count, 4);
    assert_eq!(summary.minimum_ns, 10);
    assert_eq!(summary.p50_ns, 20);
    assert_eq!(summary.p95_ns, 40);
    assert_eq!(summary.maximum_ns, 40);
    assert_eq!(summary.mean_ns, 25);
    assert!(latency_summary(Vec::new()).is_none());
    assert_eq!(latency_summary(vec![20]).unwrap().p95_ns, 20);
}

#[test]
fn sorting_keeps_every_sample() {
    assert_eq!(sort_samples(&[3, 1, 2, 1]), vec![1, 1, 2, 3]);
    assert_eq!(sort_samples(&[]), Vec::<u64>::new());
}

#[test]
fn process_stat_fields_follow_the_command_name() {
    let stat = "42 (qemu (kvm) x) S 1 2 3 4 5 6 7 8 9 10 100 23 0 0 0 0 0 0 0 0 77 rest";
    assert_eq!(stat_values(stat), Ok((123, 77)));
    assert_eq!(stat_values("42 qemu S"), Err(StatError::MissingTerminator));
    assert_eq!(stat_values("42 (qemu) S 1 2"), Err(StatError::Incomplete));
    let bad = "42 (q) S 1 2 3 4 5 6 7 8 9 10 x 23 0 0 0 0 0 0 0 0 77";
    assert_eq!(stat_values(bad), Err(StatError::InvalidNumber));
}

#[test]
fn io_counters_come_from_the_first_matching_line() {
    let io = "rchar: 5\nread_bytes: 4096\r\nwrite_bytes:  12 \nread_bytes: 1\n";
    assert_eq!(io_value(io, "read_bytes:"), 4096);
    assert_eq!(io_value(io, "write_bytes:"), 12);
    assert_eq!(io_value(io, "cancelled_write_bytes:"), 0);
}

#[test]
fn snapshot_sums_vcpu_threads_and_scales_resident_pages() {
    let stat = "7 (qemu) S 1 2 3 4 5 6 7 8 9 10 3 4 0 0 0 0 0 0 0 0 2 rest";
    let cpu = "8 (CPU 0/KVM) S 1 2 3 4 5 6 7 8 9 10 5 6 0 0 0 0 0 0 0 0 0";
    let tasks = vec![
        ("qemu\n".to_string(), Some(stat.to_string())),
        ("CPU 0/KVM\n".to_string(), Some(cpu.to_string())),
        ("worker\n".to_string(), None),
    ];
    let snapshot = ProcessSnapshot::from_procfs(stat, &tasks, "read_bytes: 9\nwrite_bytes: 3\n", 4096).unwrap();
    assert_eq!(snapshot.ticks(), 7);
    assert_eq!(snapshot.vcpu_ticks(), 11);
    assert_eq!(snapshot.rss_bytes(), 8192);
    assert_eq!((snapshot.read_bytes(), snapshot.write_bytes()), (9, 3));
    let missing = vec![("CPU 1/KVM".to_string(), None)];
    assert_eq!(
        ProcessSnapshot::from_procfs(stat, &missing, "", 4096).unwrap_err(),
        StatError::UnreadableTask
    );
}

#[test]
fn storage_totals_saturate() {
    let mut usage = StorageUsage::default();
    usage.record_file(u64::MAX - 1);
    usage.record_file(5);
    assert_eq!(usage.file_count, 2);
    assert_eq!(usage.byte_count, u64::MAX);
}
