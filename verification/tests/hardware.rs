use susi::hardware::{HardwareProfile, HardwareProfiler, ModelLadderConfigStep};

fn fixture_config_step(step: usize, min_ram_milli_gb: u64, expected_bytes: u64) -> ModelLadderConfigStep {
    ModelLadderConfigStep {
        step,
        label: format!("{step}-tier"),
        hf_repo: format!("repo-{step}"),
        hf_file: format!("file-{step}.gguf"),
        tokenizer_repo: String::new(),
        min_ram_milli_gb,
        min_bytes: expected_bytes / 5,
        expected_bytes,
    }
}

#[test]
fn test_filter_ladder_by_hardware_excludes_tiers_that_dont_fit_on_disk() {
    let steps = vec![
        fixture_config_step(1, 0, 5_000_000_000),
        fixture_config_step(4, 32_000, 20_000_000_000),
        fixture_config_step(5, 64_000, 45_000_000_000),
    ];
    let ladder = HardwareProfiler::filter_ladder_by_hardware(&steps, 64, 10_000_000_000);
    assert_eq!(ladder.len(), 1, "only the 1.5B tier should fit on disk");
    assert_eq!(ladder[0].step, 1);
}

#[test]
fn test_filter_ladder_by_hardware_still_gates_on_ram_too() {
    let steps = vec![
        fixture_config_step(1, 0, 5_000_000_000),
        fixture_config_step(2, 8_000, 5_000_000_000),
    ];
    let ladder = HardwareProfiler::filter_ladder_by_hardware(&steps, 4, 1_000_000_000_000);
    assert_eq!(ladder.len(), 1);
    assert_eq!(ladder[0].step, 1);
}

#[test]
fn test_filter_ladder_by_hardware_requires_the_safety_margin_not_just_exact_fit() {
    let steps = vec![fixture_config_step(1, 0, 5_000_000_000)];
    let ladder = HardwareProfiler::filter_ladder_by_hardware(&steps, 64, 5_000_000_000);
    assert!(
        ladder.is_empty(),
        "must require the safety margin, not just the raw model size"
    );
}

#[test]
fn ladder_keeps_configured_order_of_fitting_tiers() {
    let steps = vec![
        fixture_config_step(1, 0, 1_000),
        fixture_config_step(2, 1_500, 1_000),
        fixture_config_step(3, 0, 1_000),
    ];
    let fallback = fixture_config_step(9, 0, 0);
    let ladder = HardwareProfiler::get_progressive_model_ladder(&steps, 1, 3_000_000_000, &fallback);
    let ids: Vec<usize> = ladder.iter().map(|s| s.step).collect();
    assert_eq!(ids, vec![1, 3]);
}

fn profile(ram_gb: usize, available_ram_gb: usize, acceleration_active: bool) -> HardwareProfile {
    HardwareProfile {
        cpus: 8,
        cpu_brand: String::new(),
        gpu_info: String::new(),
        ram_gb,
        available_ram_gb,
        gpu_vram_gb: 0,
        swap_gb: 0,
        nvme_active: false,
        acceleration_active,
        native_acceleration: String::new(),
        os_info: String::new(),
        arch: String::new(),
        disk_gb: 0,
        disk_usage_pct: 0,
        load_avg: String::new(),
        uptime: String::new(),
        hostname: String::new(),
    }
}

#[test]
fn oom_critical_above_ninety_percent_usage() {
    assert!(HardwareProfiler::check_oom_critical(&profile(100, 9, false)));
    assert!(!HardwareProfiler::check_oom_critical(&profile(100, 10, false)));
    assert!(!HardwareProfiler::check_oom_critical(&profile(0, 0, false)));
}

#[test]
fn caps_string_lists_device_ram_and_version() {
    assert_eq!(HardwareProfiler::get_caps_string(&profile(32, 1, true), "1.2.0"), "GPU,32GB,1.2.0V");
    assert_eq!(HardwareProfiler::get_caps_string(&profile(0, 0, false), "x"), "CPU,0GB,xV");
}

#[test]
fn test_assess_os_caches_thresholds() {
    let f = HardwareProfiler::assess_os_caches(Some(600_000_000), Some(2_000_000_000));
    assert_eq!(f.pacman_reclaimable, Some(600_000_000));
    assert_eq!(f.user_cache_reclaimable, Some(500_000_000));
    assert_eq!(f.reclaimable_cache_bytes, 1_100_000_000);
    assert_eq!(f.status, "RECLAIMABLE_SPACE_DETECTED");
    let f = HardwareProfiler::assess_os_caches(Some(500_000_000), Some(1_000_000_000));
    assert_eq!(f.reclaimable_cache_bytes, 0);
    assert_eq!(f.status, "OPTIMAL");
    let f = HardwareProfiler::assess_os_caches(None, None);
    assert_eq!(f.pacman_reclaimable, None);
    assert_eq!(HardwareProfiler::os_clean_outcome(0), "OS environment is already clean and optimal.");
    assert_eq!(
        HardwareProfiler::os_clean_outcome(5),
        "SUCCESS: Executed OS environment care. Reclaimed space across OS caches."
    );
}

#[test]
fn test_scratch_entries_pick_temp_and_tmp() {
    let names: Vec<String> = ["cargo", "tmp-build", "mytemp", "pip"].iter().map(|s| s.to_string()).collect();
    assert_eq!(HardwareProfiler::scratch_entries(&names), vec![1, 2]);
}
