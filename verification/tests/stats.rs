use sway::stats::{
    elapsed_seconds, format_age, format_bytes, format_duration, format_rate, reading, Clock, TrafficStats,
    RECENT_LIMIT,
};

fn by_floats(n: u64) -> String {
    const KB: f64 = 1024.0;
    const MB: f64 = KB * 1024.0;
    const GB: f64 = MB * 1024.0;
    let v = n as f64;
    if v >= GB {
        format!("{:.2} GB", v / GB)
    } else if v >= MB {
        format!("{:.2} MB", v / MB)
    } else if v >= KB {
        format!("{:.1} KB", v / KB)
    } else {
        format!("{n} B")
    }
}

#[test]
fn amounts_of_bytes() {
    assert_eq!(format_bytes(0), "0 B");
    assert_eq!(format_bytes(1023), "1023 B");
    assert_eq!(format_bytes(1024), "1.0 KB");
    assert_eq!(format_bytes(1536), "1.5 KB");
    assert_eq!(format_bytes(1048576), "1.00 MB");
    assert_eq!(format_bytes(1073741824), "1.00 GB");
    assert_eq!(format_bytes(u64::MAX), "17179869184.00 GB");
}

#[test]
fn amounts_are_rounded_as_floating_point_does() {
    let mut x: u64 = 0x9e37_79b9_7f4a_7c15;
    for i in 0..200_000u64 {
        x ^= x << 13;
        x ^= x >> 7;
        x ^= x << 17;
        let n = x >> (i % 64);
        assert_eq!(format_bytes(n), by_floats(n), "{n}");
    }
    for k in 0..5000u64 {
        for base in [1024, 1048576, 1073741824, 9007199254740992] {
            assert_eq!(format_bytes(base + k), by_floats(base + k));
            assert_eq!(format_bytes(base - k.min(1024)), by_floats(base - k.min(1024)));
        }
        let half = k * 1024 / 20;
        assert_eq!(format_bytes(half), by_floats(half));
        let half = k * 1048576 / 200;
        assert_eq!(format_bytes(half), by_floats(half));
    }
}

#[test]
fn rates() {
    assert_eq!(format_rate(-1), "0 B/s");
    assert_eq!(format_rate(0), "0 B/s");
    assert_eq!(format_rate(2048), "2.0 KB/s");
    assert_eq!(format_rate(i128::MAX), format_rate(u64::MAX as i128));
}

#[test]
fn lengths_of_time() {
    assert_eq!(format_duration(0), "00:00");
    assert_eq!(format_duration(61), "01:01");
    assert_eq!(format_duration(3599), "59:59");
    assert_eq!(format_duration(3600), "01:00:00");
    assert_eq!(format_duration(360_000), "100:00:00");
    assert_eq!(format_age(5), " 5s");
    assert_eq!(format_age(59), "59s");
    assert_eq!(format_age(60), " 1m");
    assert_eq!(format_age(6000), "100m");
    assert_eq!(elapsed_seconds(1, 2_000_000_000), 1);
    assert_eq!(elapsed_seconds(5, 1), 0);
}

#[test]
fn flows_are_counted() {
    let mut s = TrafficStats::new();
    s.begin_flow_at("HTTP", "a:80", 1_000_000_000);
    s.begin_flow_at("HTTPS", "b:443", 2_000_000_000);
    s.add_up(10);
    s.add_down(20);
    s.mark_connected_at(0);
    let snap = s.snapshot_at(7_999_999_999);
    assert_eq!((snap.bytes_up, snap.bytes_down), (10, 20));
    assert_eq!((snap.active_conns, snap.total_conns, snap.failed_conns), (2, 2, 0));
    assert_eq!(snap.uptime_secs, 7);
    assert_eq!(snap.recent[0].target, "b:443");
    assert_eq!(snap.recent[1].proto, "HTTP");
    assert_eq!(snap.recent[1].at, 1_000_000_000);
    s.end_flow();
    s.fail_flow();
    s.fail_flow();
    let snap = s.snapshot();
    assert_eq!((snap.active_conns, snap.total_conns, snap.failed_conns), (0, 2, 2));
}

#[test]
fn counters_start_again() {
    let mut s = TrafficStats::new();
    s.add_up(u64::MAX);
    s.add_up(3);
    assert_eq!(s.snapshot().bytes_up, 2);
}

#[test]
fn only_the_latest_flows_are_kept() {
    let mut s = TrafficStats::new();
    for i in 0..30u64 {
        s.begin_flow_at("SOCKS5", &format!("h:{i}"), i);
    }
    let snap = s.snapshot();
    assert_eq!(snap.recent.len(), RECENT_LIMIT);
    assert_eq!(snap.recent[0].target, "h:29");
    assert_eq!(snap.recent[11].target, "h:18");
    assert_eq!(snap.uptime_secs, 0);
    assert_eq!(snap.clone().recent[3].target, snap.recent[3].target);
}

#[test]
fn readings_end_at_the_largest_number() {
    assert_eq!(reading(0), 0);
    assert_eq!(reading(1_234_567), 1_234_567);
    assert_eq!(reading(u64::MAX as u128), u64::MAX);
    assert_eq!(reading(u64::MAX as u128 + 1), u64::MAX);
    assert_eq!(reading(u128::MAX), u64::MAX);
}

#[test]
fn the_clock_goes_on() {
    let clock = Clock::new();
    let a = clock.nanos();
    let mut b = clock.nanos();
    while b < a + 1_000_000 {
        b = clock.nanos();
    }
    let mut s = TrafficStats::with_clock(clock);
    s.begin_flow("HTTP", "x");
    assert!(s.snapshot().recent[0].at >= b);
    s.mark_connected();
    assert_eq!(s.snapshot().uptime_secs, 0);
}
