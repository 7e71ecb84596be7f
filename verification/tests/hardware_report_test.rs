use glaunch::hardware::{
    detect_hardware, detect_vcache, detect_vcache_cached, gpu_from_drm_entry, hardware_cache_is_fresh,
    hardware_report, parse_cache_size_kb, GpuInfo, HardwareInfo, HardwareSource, VcacheInfo,
    CACHE_MAX_AGE_SECS,
};

fn entry(size: &str, cpus: &str) -> (String, String) {
    (size.to_string(), cpus.to_string())
}

#[test]
fn test_cache_size_parsing() {
    assert_eq!(parse_cache_size_kb("98304K\n"), 98304);
    assert_eq!(parse_cache_size_kb("  32768KK "), 32768);
    assert_eq!(parse_cache_size_kb("512"), 512);
    assert_eq!(parse_cache_size_kb("12M"), 0);
    assert_eq!(parse_cache_size_kb(""), 0);
}

#[test]
fn test_vcache_first_seen_size_and_trimmed_lists() {
    // the size first read for a CPU list is the one kept
    let entries = vec![
        entry("32768K", "8-15\n"),
        entry("98304K", "0-7"),
        entry("1K", "8-15"),
        entry("98304K", "0-7"),
    ];
    let info = detect_vcache(&entries).unwrap();
    assert_eq!(info.cpus, "0-7");
    assert_eq!(info.l3_size_kb, 98304);
}

#[test]
fn test_vcache_none_without_entries() {
    assert!(detect_vcache(&Vec::new()).is_none());
    assert!(detect_vcache(&vec![entry("96K", "0-3")]).is_none());
}

#[test]
fn test_vcache_three_ccds_largest_wins() {
    let entries = vec![entry("32768K", "0-7"), entry("32768K", "8-15"), entry("98304K", "16-23")];
    let info = detect_vcache(&entries).unwrap();
    assert_eq!(info.cpus, "16-23");
}

#[test]
fn test_gpu_entries() {
    let g = gpu_from_drm_entry("card0", Some("  AMD Radeon RX 7900 XTX\n"), None, Some("amdgpu"))
        .unwrap();
    assert_eq!(g, GpuInfo { name: "AMD Radeon RX 7900 XTX".to_string(), driver: "amdgpu".to_string() });
    let g = gpu_from_drm_entry("card1", None, Some("Product\n"), None).unwrap();
    assert_eq!(g, GpuInfo { name: "Product".to_string(), driver: String::new() });
    let g = gpu_from_drm_entry("card2", None, None, None).unwrap();
    assert_eq!(g.name, "card2");
    assert!(gpu_from_drm_entry("card0-DP-1", Some("x"), None, None).is_none());
    assert!(gpu_from_drm_entry("renderD128", Some("x"), None, None).is_none());
}

#[test]
fn test_cache_freshness() {
    assert!(hardware_cache_is_fresh(0));
    assert!(hardware_cache_is_fresh(CACHE_MAX_AGE_SECS));
    assert!(!hardware_cache_is_fresh(CACHE_MAX_AGE_SECS + 1));
    assert_eq!(CACHE_MAX_AGE_SECS, 30 * 24 * 60 * 60);
}

fn info() -> HardwareInfo {
    HardwareInfo {
        vcache: Some(VcacheInfo { cpus: "0-7".to_string(), l3_size_kb: 98304 }),
        gpus: vec![
            GpuInfo { name: "Radeon".to_string(), driver: "amdgpu".to_string() },
            GpuInfo { name: "card1".to_string(), driver: String::new() },
        ],
    }
}

#[test]
fn test_detect_hardware_source() {
    assert_eq!(detect_hardware(false, Some(info())), HardwareSource::Cached(info()));
    assert_eq!(detect_hardware(true, Some(info())), HardwareSource::Detect);
    assert_eq!(detect_hardware(false, None), HardwareSource::Detect);
    assert_eq!(detect_vcache_cached(&info()), info().vcache);
    assert_eq!(detect_vcache_cached(&HardwareInfo::default()), None);
}

#[test]
fn test_hardware_report() {
    let lines = hardware_report(&info());
    assert_eq!(
        lines,
        vec![
            "=== glaunch hardware info ===",
            "",
            "V-Cache: detected",
            "  CPUs: 0-7",
            "  L3 cache: 96 MB",
            "",
            "GPU 0: Radeon",
            "  Driver: amdgpu",
            "",
            "GPU 1: card1",
        ]
    );
    let lines = hardware_report(&HardwareInfo::default());
    assert_eq!(
        lines,
        vec![
            "=== glaunch hardware info ===",
            "",
            "V-Cache: not detected (symmetric L3 or single CCD)",
            "",
            "GPU: not detected",
        ]
    );
}
