use barcode_keyboard::config::{Camera, Config};
use barcode_keyboard::url::{build_scanner_url, scanner_url, trim_trailing_slashes};

#[test]
fn plain_scanner_url() {
    let c = Config::default();
    assert_eq!(
        build_scanner_url("https://filirom1.github.io/barcode-keyboard", "abc123", &c),
        "https://filirom1.github.io/barcode-keyboard/scanner.html?endpoint=abc123"
    );
}

#[test]
fn trailing_slashes_removed() {
    let c = Config::default();
    assert_eq!(build_scanner_url("https://x.org///", "id", &c), "https://x.org/scanner.html?endpoint=id");
    assert_eq!(trim_trailing_slashes("a/b//"), "a/b");
    assert_eq!(trim_trailing_slashes("///"), "");
}

#[test]
fn scanner_url_with_every_option() {
    let mut c = Config::default();
    c.formats = Some("qrcode,ean8".to_string());
    c.vibrate = false;
    c.camera = Camera::Front;
    c.torch = true;
    assert_eq!(
        build_scanner_url("http://h/", "e", &c),
        "http://h/scanner.html?endpoint=e&formats=qrcode,ean8&vibrate=0&camera=front&torch=1"
    );
}

#[test]
fn scanner_url_needs_endpoint_and_site() {
    let mut c = Config::default();
    assert_eq!(scanner_url(&c, Some("id")), None);
    c.url = "https://s".to_string();
    assert_eq!(scanner_url(&c, None), None);
    assert_eq!(scanner_url(&c, Some("id")), Some("https://s/scanner.html?endpoint=id".to_string()));
}
