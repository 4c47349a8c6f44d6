use nettui::monitor::{is_quit_key, tick_step, Monitor, TickStep};
use nettui::rank::rank;
use nettui::rate::{humanize, Rate};
use nettui::sample::{collect, delta_since, is_excluded, starts_with, Counters, RowData};
use nettui::screen::{cells, decimal, header_text, table};

fn counters(name: &str, rx: u64, tx: u64) -> Counters {
    Counters {
        name: name.to_string(),
        rx_bytes: rx,
        tx_bytes: tx,
        packets_in: 7,
        packets_out: 8,
        errors_in: 1,
        errors_out: 2,
    }
}

fn row(name: &str, rx: u64, tx: u64, micros: u64) -> RowData {
    RowData {
        interface: name.to_string(),
        rx_bytes: rx,
        tx_bytes: tx,
        micros,
        packets_in: 0,
        packets_out: 0,
        errors_in: 0,
        errors_out: 0,
    }
}

fn names(rows: &[RowData]) -> Vec<String> {
    rows.iter().map(|r| r.interface.clone()).collect()
}

#[test]
fn humanize_below_one_byte_is_placeholder() {
    assert_eq!(humanize(&Rate::per_second(0)), "--");
    assert_eq!(humanize(&Rate::over(1, 2_000_000)), "--");
}

#[test]
fn humanize_whole_bytes() {
    assert_eq!(humanize(&Rate::per_second(500)), "500 B/s");
    assert_eq!(humanize(&Rate::per_second(1)), "1 B/s");
    assert_eq!(humanize(&Rate::per_second(1023)), "1023 B/s");
}

#[test]
fn humanize_kilobytes_one_decimal() {
    assert_eq!(humanize(&Rate::per_second(2048)), "2.0 KB/s");
    assert_eq!(humanize(&Rate::per_second(1024)), "1.0 KB/s");
    assert_eq!(humanize(&Rate::per_second(1536)), "1.5 KB/s");
}

#[test]
fn humanize_large_value_has_no_decimals() {
    assert_eq!(humanize(&Rate::per_second(150 * 1024 * 1024)), "150 MB/s");
    assert_eq!(humanize(&Rate::per_second(100 * 1024)), "100 KB/s");
    assert_eq!(humanize(&Rate::per_second(99 * 1024)), "99.0 KB/s");
}

#[test]
fn humanize_saturates_at_gigabytes() {
    let tb: u64 = 1024 * 1024 * 1024 * 1024;
    assert_eq!(humanize(&Rate::per_second(tb)), "1024 GB/s");
    assert_eq!(humanize(&Rate::per_second(3 * 1024 * 1024 * 1024)), "3.0 GB/s");
    assert!(humanize(&Rate::per_second(u64::MAX)).ends_with(" GB/s"));
}

#[test]
fn humanize_rounds_ties_to_even() {
    // 1.25 KB/s and 2.5 B/s sit exactly between two displayed values.
    assert_eq!(humanize(&Rate::per_second(1280)), "1.2 KB/s");
    assert_eq!(humanize(&Rate::over(5, 2_000_000)), "2 B/s");
    assert_eq!(humanize(&Rate::over(7, 2_000_000)), "4 B/s");
}

#[test]
fn humanize_divides_by_elapsed_time() {
    assert_eq!(humanize(&Rate::over(1024, 500_000)), "2.0 KB/s");
    assert_eq!(humanize(&Rate::over(10236, 10_000_000)), "1024 B/s");
    assert_eq!(humanize(&Rate::over(500, 0)), "500 B/s");
    assert_eq!(humanize(&Rate::over(500, -3)), "500 B/s");
}

#[test]
fn rate_method_matches_function() {
    let r = Rate::over(4096, 1_000_000);
    assert_eq!(r.humanize(), "4.0 KB/s");
    assert_eq!(r.bytes(), 4096);
    assert_eq!(r.micros(), 1_000_000);
}

#[test]
fn collect_nonpositive_elapsed_equals_one_second() {
    let samples = vec![counters("eth0", 1024, 300), counters("wlan0", 5, 0)];
    let one = table(&collect(1_000_000, &samples, false));
    assert_eq!(table(&collect(0, &samples, false)), one);
    assert_eq!(table(&collect(-5, &samples, false)), one);
    assert_eq!(collect(0, &samples, false)[0].micros, 1_000_000);
}

#[test]
fn collect_twice_gives_identical_rates() {
    let samples = vec![counters("eth0", 12345, 678), counters("wlan0", 9, 99)];
    let a = collect(1_500_000, &samples, false);
    let b = collect(1_500_000, &samples, false);
    assert_eq!(a.len(), b.len());
    for (x, y) in a.iter().zip(b.iter()) {
        assert_eq!(x.interface, y.interface);
        assert_eq!(x.rx_bytes, y.rx_bytes);
        assert_eq!(x.tx_bytes, y.tx_bytes);
        assert_eq!(x.micros, y.micros);
    }
    assert_eq!(table(&a), table(&b));
}

#[test]
fn collect_keeps_idle_interfaces() {
    let rows = collect(1_000_000, &vec![counters("eth0", 0, 0)], false);
    assert_eq!(rows.len(), 1);
    assert_eq!(humanize(&rows[0].rx_rate()), "--");
    assert_eq!(humanize(&rows[0].tx_rate()), "--");
}

#[test]
fn collect_drops_excluded_names() {
    let samples = vec![
        counters("lo0", 1, 1),
        counters("eth0", 1, 1),
        counters("docker0", 1, 1),
        counters("veth12", 1, 1),
        counters("br-abc", 1, 1),
        counters("vmnet8", 1, 1),
        counters("virbr0", 1, 1),
        counters("wlan0", 1, 1),
    ];
    let rows = collect(1_000_000, &samples, false);
    assert_eq!(names(&rows), vec!["eth0", "wlan0"]);
    let all = collect(1_000_000, &samples, true);
    assert_eq!(all.len(), samples.len());
}

#[test]
fn exclusion_predicate() {
    assert!(is_excluded("lo"));
    assert!(is_excluded("lo0"));
    assert!(is_excluded("docker0"));
    assert!(is_excluded("br-1234"));
    assert!(!is_excluded("br0"));
    assert!(!is_excluded("eth0"));
    assert!(!is_excluded("l"));
    assert!(!is_excluded(""));
    assert!(starts_with("virbr0", "virbr"));
    assert!(!starts_with("vir", "virbr"));
    assert!(starts_with("abc", ""));
}

#[test]
fn rank_orders_by_total_descending() {
    let rows = vec![row("a", 10, 0, 1_000_000), row("b", 20, 30, 1_000_000), row("c", 0, 5, 1_000_000)];
    let ranked = rank(rows);
    assert_eq!(names(&ranked), vec!["b", "a", "c"]);
}

#[test]
fn rank_compares_rates_not_bytes() {
    // 100 bytes over 2 s is slower than 60 bytes over 1 s.
    let rows = vec![row("slow", 100, 0, 2_000_000), row("fast", 60, 0, 1_000_000)];
    assert_eq!(names(&rank(rows)), vec!["fast", "slow"]);
}

#[test]
fn rank_empty_and_equal() {
    assert!(rank(Vec::new()).is_empty());
    let rows = vec![row("x", 5, 5, 1_000_000), row("y", 10, 0, 1_000_000)];
    let ranked = rank(rows);
    assert_eq!(ranked.len(), 2);
    let mut n = names(&ranked);
    n.sort();
    assert_eq!(n, vec!["x", "y"]);
}

#[test]
fn delta_against_previous_snapshot() {
    let previous = vec![counters("eth0", 1000, 50), counters("wlan0", 900, 900)];
    let current = vec![counters("eth0", 3048, 50), counters("wlan0", 100, 1000), counters("usb0", 77, 77)];
    let d = delta_since(&current, &previous);
    assert_eq!(d.len(), 3);
    assert_eq!((d[0].rx_bytes, d[0].tx_bytes), (2048, 0));
    // A counter that went backwards counts as no traffic.
    assert_eq!((d[1].rx_bytes, d[1].tx_bytes), (0, 100));
    // An interface with no earlier entry has no baseline yet.
    assert_eq!((d[2].name.as_str(), d[2].rx_bytes, d[2].tx_bytes), ("usb0", 0, 0));
    assert_eq!((d[0].packets_in, d[0].errors_out), (7, 2));
}

#[test]
fn end_to_end_two_interfaces() {
    let seed = vec![counters("eth0", 0, 0), counters("eth1", 0, 0)];
    let mut monitor = Monitor::new(seed, false);
    let rows = monitor.tick(vec![counters("eth0", 1024, 0), counters("eth1", 0, 2048)], 1_000_000);
    let t = table(&rows);
    assert_eq!(t.len(), 2);
    assert_eq!(t[0][0], "eth1");
    assert_eq!((t[0][1].as_str(), t[0][2].as_str()), ("--", "2.0 KB/s"));
    assert_eq!(t[1][0], "eth0");
    assert_eq!((t[1][1].as_str(), t[1][2].as_str()), ("1.0 KB/s", "--"));
    assert_eq!(t[0][3..], ["7", "8", "1", "2"]);
    // The snapshot just handed in is the next baseline.
    let next = monitor.tick(vec![counters("eth0", 1024, 0), counters("eth1", 0, 2048)], 1_000_000);
    assert!(next.iter().all(|r| r.rx_bytes == 0 && r.tx_bytes == 0));
    assert!(!monitor.show_virtual());
}

#[test]
fn cells_of_one_row() {
    let r = RowData {
        interface: "eth0".to_string(),
        rx_bytes: 2048,
        tx_bytes: 500,
        micros: 1_000_000,
        packets_in: 12,
        packets_out: 0,
        errors_in: 3,
        errors_out: 45,
    };
    assert_eq!(cells(&r), vec!["eth0", "2.0 KB/s", "500 B/s", "12", "0", "3", "45"]);
}

#[test]
fn header_line() {
    assert_eq!(header_text(3, 123_456), " Nettui - live (q:quit)   tick: 123 ms   ifaces: 3 ");
    assert_eq!(header_text(0, 999), " Nettui - live (q:quit)   tick: 0 ms   ifaces: 0 ");
}

#[test]
fn decimal_text() {
    assert_eq!(decimal(0), "0");
    assert_eq!(decimal(10), "10");
    assert_eq!(decimal(u64::MAX), u64::MAX.to_string());
}

#[test]
fn tick_decisions() {
    assert_eq!(tick_step(0), TickStep::Wait);
    assert_eq!(tick_step(-1), TickStep::Wait);
    assert_eq!(tick_step(1), TickStep::Sample);
    assert!(is_quit_key('q'));
    assert!(!is_quit_key('Q'));
    assert!(!is_quit_key('i'));
}
