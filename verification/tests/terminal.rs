use barcode_keyboard::config::Config;
use barcode_keyboard::terminal::{dup_ignored_line, push_decimal, push_two_digits, scan_log_line, startup_lines};

#[test]
fn log_line_clock() {
    assert_eq!(scan_log_line(0, "abc"), "[00:00:00] abc");
    assert_eq!(scan_log_line(3725, "x"), "[01:02:05] x");
    assert_eq!(scan_log_line(360_000, "y"), "[100:00:00] y");
    assert_eq!(scan_log_line(86_399, "z"), "[23:59:59] z");
}

#[test]
fn decimal_numbers() {
    let mut s = String::new();
    push_decimal(&mut s, 0);
    push_decimal(&mut s, 1234567890);
    push_decimal(&mut s, u64::MAX);
    assert_eq!(s, format!("{}{}{}", 0, 1234567890u64, u64::MAX));
    let mut t = String::new();
    push_two_digits(&mut t, 7);
    push_two_digits(&mut t, 42);
    push_two_digits(&mut t, 123);
    assert_eq!(t, "0742123");
}

#[test]
fn dup_line() {
    assert_eq!(dup_ignored_line("123"), "(dup ignored: 123)");
}

#[test]
fn banner_without_site() {
    let lines = startup_lines("", "node-id", &Config::default());
    assert_eq!(
        lines,
        vec![
            "Endpoint ID: node-id".to_string(),
            String::new(),
            "Tip: keyboard --terminal https://filirom1.github.io/barcode-keyboard".to_string(),
            String::new(),
            "Waiting for barcode scans…".to_string(),
        ]
    );
}

#[test]
fn banner_with_site() {
    let lines = startup_lines("https://s/", "id", &Config::default());
    assert_eq!(lines.len(), 4);
    assert_eq!(lines[0], "Scanner URL: https://s/scanner.html?endpoint=id");
    assert_eq!(lines[1], "");
    assert!(!lines[2].is_empty());
    assert_eq!(lines[3], "Waiting for barcode scans…");
}
