use slm::metrics::{bar_level, gib_centi, mem_calc, percent_centi, time_to_human_str, BarLevel, CpuSmoother};
use slm::text::{centi_string, decimal_string, proc_time_calc, uptime_calc};
use slm::trend::TrendBuffer;

#[test]
fn mem_calc_half_used() {
    let m = mem_calc(8_000_000_000, 4_000_000_000);
    assert_eq!(m.usage_per, 5000);
    assert_eq!(m.total_per, 10000);
    assert_eq!(m.total_gib_centi, 745);
    assert_eq!(m.usage_gib_centi, 372);
}

#[test]
fn percent_edges() {
    assert_eq!(percent_centi(1, 3), 3333);
    assert_eq!(percent_centi(5, 0), 0);
    assert_eq!(percent_centi(u64::MAX, 1), u64::MAX);
    assert_eq!(gib_centi(1073741824), 100);
}

#[test]
fn cpu_smoothing_is_mean_of_last_three() {
    let mut s = CpuSmoother::new();
    assert_eq!(s.usage_calc(3000), 1000);
    assert_eq!(s.usage_calc(6000), 3000);
    assert_eq!(s.usage_calc(9000), 6000);
    assert_eq!(s.usage_calc(0), 5000);
    assert_eq!(s.readings, vec![6000, 9000, 0]);
}

#[test]
fn time_split() {
    assert_eq!(time_to_human_str(0), (0, 0, 0, 0));
    assert_eq!(time_to_human_str(90061), (1, 1, 1, 1));
    assert_eq!(time_to_human_str(86399), (0, 23, 59, 59));
}

#[test]
fn time_rendering() {
    assert_eq!(uptime_calc(90061), "1 days, 1:1:1");
    assert_eq!(uptime_calc(0), "0 days, 0:0:0");
    assert_eq!(proc_time_calc(90061), "25:1:1");
    assert_eq!(proc_time_calc(3725), "1:2:5");
}

#[test]
fn number_rendering() {
    assert_eq!(decimal_string(0), "0");
    assert_eq!(decimal_string(1234567890), "1234567890");
    assert_eq!(decimal_string(u64::MAX), "18446744073709551615");
    assert_eq!(centi_string(1250), "12.50");
    assert_eq!(centi_string(7), "0.07");
}

#[test]
fn bar_levels() {
    assert_eq!(bar_level(8100, 5000, 8000), BarLevel::Critical);
    assert_eq!(bar_level(8000, 5000, 8000), BarLevel::High);
    assert_eq!(bar_level(5000, 5000, 8000), BarLevel::Normal);
}

#[test]
fn trend_keeps_latest_values_within_window() {
    let mut t = TrendBuffer::seed(3, vec![(0, 10)]);
    for v in [11u64, 12, 13, 14, 15] {
        t.append(v);
        assert!(t.samples.len() <= 3);
    }
    assert_eq!(t.samples, vec![(3, 13), (4, 14), (5, 15)]);
}

#[test]
fn trend_before_window_fills() {
    let mut t = TrendBuffer::seed(500, vec![(7, 1)]);
    t.append(2);
    assert_eq!(t.samples, vec![(7, 1), (8, 2)]);
    assert_eq!(t.last_tick(), 8);
    assert!(t.can_append());
}

#[test]
fn trend_seed_keeps_last_window() {
    let t = TrendBuffer::seed(2, vec![(0, 1), (1, 2), (2, 3)]);
    assert_eq!(t.samples, vec![(1, 2), (2, 3)]);
}

#[test]
fn trend_full_counter_cannot_append() {
    let t = TrendBuffer::seed(2, vec![(u64::MAX, 1)]);
    assert!(!t.can_append());
}
