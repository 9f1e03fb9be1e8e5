use ghaf_tools::qmp::{
    BalloonInfo, Endpoint, GuestMemoryInfo, GuestMemoryStats, MemoryInfo, MemoryStats,
};

fn stats(balloon: usize, available: usize) -> MemoryStats {
    MemoryStats::new(
        &MemoryInfo {
            base_memory: 1 << 30,
            plugged_memory: 1 << 28,
        },
        &GuestMemoryInfo {
            last_update: 0,
            stats: GuestMemoryStats {
                stat_available_memory: available,
                stat_free_memory: available / 2,
            },
        },
        &BalloonInfo { actual: balloon },
    )
}

#[test]
fn totals_are_base_plus_plugged() {
    let s = stats(1000, 500);
    assert_eq!(s.total_memory, (1 << 30) + (1 << 28));
    assert_eq!(s.balloon_size, 1000);
    assert_eq!(s.available_memory, 500);
}

#[test]
fn pressure_is_used_fraction_in_percent() {
    // Half the balloon available: (201*1000 - 200*500)/1000/2 = 50.
    assert_eq!(stats(1000, 500).pressure(), 50);
    // Everything available: zero pressure.
    assert_eq!(stats(1000, 1000).pressure(), 0);
    // Nothing available: full pressure.
    assert_eq!(stats(1000, 0).pressure(), 100);
}

#[test]
fn reserved_and_adjusted_formulas() {
    let s = stats(1000, 500);
    assert_eq!(s.reserved(), 500);
    assert_eq!(s.adjusted(50), 1000);
    assert_eq!(s.adjusted(100), 500);
}

#[test]
fn window_aims_back_inside() {
    // Pressure 50, window [60, 90]: below it, aim at 60.
    assert_eq!(stats(1000, 500).window(60, 90), Some(500 * 100 / 60));
    // Pressure 50 inside [40, 90]: no adjustment.
    assert_eq!(stats(1000, 500).window(40, 90), None);
    // Pressure 50 above [10, 20]: aim at 18.
    assert_eq!(stats(1000, 500).window(10, 20), Some(500 * 100 / 18));
}

#[test]
fn endpoint_keeps_its_path() {
    let e = Endpoint::new("/run/vm/qmp.sock".to_string());
    assert_eq!(e.path, "/run/vm/qmp.sock");
}
