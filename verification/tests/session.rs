use barcode_keyboard::session::ScanHistory;

#[test]
fn newest_first_and_copy_oldest_first() {
    let mut h = ScanHistory::new();
    assert_eq!(h.len(), 0);
    assert_eq!(h.copy_all_text(), "");
    h.add("a".to_string());
    assert_eq!(h.copy_all_text(), "a");
    h.add("b".to_string());
    h.add("c".to_string());
    assert_eq!(h.codes(), &vec!["c".to_string(), "b".to_string(), "a".to_string()]);
    assert_eq!(h.copy_all_text(), "a\nb\nc");
    assert_eq!(h.len(), 3);
    h.clear();
    assert_eq!(h.len(), 0);
    assert_eq!(h.copy_all_text(), "");
}

use barcode_keyboard::config::{Config, DedupMode, Transform};
use barcode_keyboard::dedup::DedupFilter;
use barcode_keyboard::session::{handle_listed_scan_at, handle_scan_at, ScanAction};

fn text_of(a: &ScanAction) -> Option<(&'static str, String)> {
    match a {
        ScanAction::Ignore => None,
        ScanAction::Type(t) => Some(("type", t.clone())),
        ScanAction::Copy(t) => Some(("copy", t.clone())),
    }
}

#[test]
fn scan_steps_deliver_list_and_ignore() {
    let mut cfg = Config::default();
    cfg.prefix = "ID:".to_string();
    cfg.transform = Transform::Upper;
    let mut dedup = DedupFilter::from_cfg(&cfg);
    let mut history = ScanHistory::new();
    let a = handle_listed_scan_at(&mut dedup, &mut history, &cfg, "ab".to_string(), 0);
    assert_eq!(text_of(&a), Some(("type", "ID:AB".to_string())));
    let b = handle_listed_scan_at(&mut dedup, &mut history, &cfg, "ab".to_string(), 1_000);
    assert_eq!(text_of(&b), None);
    assert_eq!(history.codes(), &vec!["ab".to_string()]);
    let c = handle_listed_scan_at(&mut dedup, &mut history, &cfg, "cd".to_string(), 2_000);
    assert_eq!(text_of(&c), Some(("type", "ID:CD".to_string())));
    assert_eq!(history.codes(), &vec!["cd".to_string(), "ab".to_string()]);
}

#[test]
fn copy_only_scan_step() {
    let mut cfg = Config::default();
    cfg.copy_only = true;
    cfg.dedup_mode = DedupMode::Off;
    let mut dedup = DedupFilter::from_cfg(&cfg);
    let a = handle_scan_at(&mut dedup, &cfg, "x".to_string(), 0);
    assert_eq!(text_of(&a), Some(("copy", "x".to_string())));
    let b = handle_scan_at(&mut dedup, &cfg, "x".to_string(), 1);
    assert_eq!(text_of(&b), Some(("copy", "x".to_string())));
}
