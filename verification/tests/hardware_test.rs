use glaunch::hardware::detect_vcache;

/// What the sysfs files of each CPU hold: `cache/index3/size` and
/// `cache/index3/shared_cpu_list`, in the order the CPUs are listed.
fn mock_sysfs(cpus: &[(u32, u64, &str)]) -> Vec<(String, String)> {
    cpus.iter()
        .map(|(_cpu_id, size_kb, shared_list)| (format!("{size_kb}K"), shared_list.to_string()))
        .collect()
}

#[test]
fn test_vcache_asymmetric_detected() {
    // CCD0: 96MB L3 (V-Cache), CCD1: 32MB L3
    let entries = mock_sysfs(&[
        (0, 98304, "0-7"), // 96MB
        (1, 98304, "0-7"),
        (8, 32768, "8-15"), // 32MB
        (9, 32768, "8-15"),
    ]);

    let result = detect_vcache(&entries);
    assert!(result.is_some());
    let info = result.unwrap();
    assert_eq!(info.cpus, "0-7");
    assert_eq!(info.l3_size_kb, 98304);
}

#[test]
fn test_vcache_symmetric_not_detected() {
    // Both CCDs 32MB — no X3D
    let entries = mock_sysfs(&[(0, 32768, "0-7"), (8, 32768, "8-15")]);

    let result = detect_vcache(&entries);
    assert!(result.is_none());
}

#[test]
fn test_vcache_single_ccd_not_detected() {
    // Single CCD — can't be asymmetric
    let entries = mock_sysfs(&[(0, 32768, "0-7"), (1, 32768, "0-7")]);

    let result = detect_vcache(&entries);
    assert!(result.is_none());
}
