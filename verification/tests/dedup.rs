use barcode_keyboard::config::{Config, DedupMode};
use barcode_keyboard::dedup::DedupFilter;

fn filter(mode: DedupMode, secs: u64) -> DedupFilter {
    let mut c = Config::default();
    c.dedup_mode = mode;
    c.dedup_secs = secs;
    DedupFilter::from_cfg(&c)
}

#[test]
fn first_scan_is_never_a_duplicate() {
    for mode in [DedupMode::Consecutive, DedupMode::Any, DedupMode::Off] {
        let f = filter(mode, 10);
        assert!(!f.is_dup("123"));
    }
}

#[test]
fn consecutive_repeat_within_window() {
    let mut f = filter(DedupMode::Consecutive, 10);
    f.record("123".to_string());
    assert!(f.is_dup("123"));
    assert!(!f.is_dup("456"));
    f.record("456".to_string());
    assert!(!f.is_dup("123"));
    assert!(f.is_dup("456"));
}

#[test]
fn consecutive_window_boundary() {
    let mut f = filter(DedupMode::Consecutive, 2);
    f.record_at("a".to_string(), 1_000);
    assert!(f.is_dup_at("a", 1_000));
    assert!(f.is_dup_at("a", 1_000 + 1_999_999_999));
    assert!(!f.is_dup_at("a", 1_000 + 2_000_000_000));
    assert!(!f.is_dup_at("b", 1_000));
    // a clock reading before the record counts as no time passed
    assert!(f.is_dup_at("a", 0));
}

#[test]
fn repeat_recorded_again_restarts_window() {
    let mut f = filter(DedupMode::Consecutive, 1);
    f.record_at("a".to_string(), 0);
    f.record_at("a".to_string(), 900_000_000);
    assert!(f.is_dup_at("a", 1_500_000_000));
    assert!(!f.is_dup_at("a", 1_900_000_000));
}

#[test]
fn accept_refuses_and_keeps_duplicates_out() {
    let mut f = filter(DedupMode::Consecutive, 1);
    assert!(f.accept_at("a".to_string(), 0));
    // refused: the window is not restarted by a refused scan
    assert!(!f.accept_at("a".to_string(), 900_000_000));
    assert!(f.accept_at("a".to_string(), 1_000_000_000));
    assert!(f.accept_at("b".to_string(), 1_000_000_001));
    let mut g = filter(DedupMode::Consecutive, 10);
    assert!(g.accept("x".to_string()));
    assert!(!g.accept("x".to_string()));
}

#[test]
fn any_mode_remembers_every_code() {
    let mut f = filter(DedupMode::Any, 5);
    f.record("a".to_string());
    f.record("b".to_string());
    f.record("a".to_string());
    assert!(f.is_dup("a"));
    assert!(f.is_dup("b"));
    assert!(!f.is_dup("c"));
    assert!(f.is_dup_at("a", u128::MAX));
}

#[test]
fn disabled_filters() {
    let mut off = filter(DedupMode::Off, 10);
    off.record("a".to_string());
    assert!(!off.is_dup("a"));
    let mut zero = filter(DedupMode::Any, 0);
    zero.record("a".to_string());
    assert!(!zero.is_dup("a"));
    let mut zero_consecutive = filter(DedupMode::Consecutive, 0);
    zero_consecutive.record("a".to_string());
    assert!(!zero_consecutive.is_dup("a"));
}
