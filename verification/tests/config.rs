use barcode_keyboard::Suffix;
use barcode_keyboard::config::{
    Camera, Config, DedupMode, Transform, config_dir, config_file, default_dedup_secs, default_true,
    formats_from_setting, formats_setting,
};
use barcode_keyboard::formats::Formats;

#[test]
fn config_defaults() {
    let c = Config::default();
    assert_eq!(c.url, "");
    assert_eq!(c.formats, None);
    assert!(c.vibrate);
    assert_eq!(c.camera, Camera::Rear);
    assert!(!c.torch);
    assert_eq!(c.suffix, Suffix::Enter);
    assert_eq!(c.dedup_secs, 10);
    assert_eq!(c.dedup_mode, DedupMode::Consecutive);
    assert_eq!(c.prefix, "");
    assert_eq!(c.transform, Transform::Keep);
    assert_eq!(c.ignore_pattern, None);
    assert!(!c.copy_only);
}

#[test]
fn default_helpers() {
    assert_eq!(default_dedup_secs(), 10);
    assert!(default_true());
    assert_eq!(Suffix::default(), Suffix::Enter);
    assert_eq!(Camera::default(), Camera::Rear);
    assert_eq!(DedupMode::default(), DedupMode::Consecutive);
    assert_eq!(Transform::default(), Transform::Keep);
}

#[test]
fn default_selection_is_not_stored() {
    assert_eq!(formats_setting(&Formats::default()), None);
}

#[test]
fn changed_selection_is_stored() {
    let mut f = Formats::default();
    f.qrcode = true;
    f.ean8 = false;
    assert_eq!(formats_setting(&f), Some("ean13,upca,code39,code128,qrcode".to_string()));
    assert_eq!(formats_from_setting(&formats_setting(&f)), f);
}

#[test]
fn missing_setting_means_default() {
    assert_eq!(formats_from_setting(&None), Formats::default());
}

#[test]
fn config_paths() {
    assert_eq!(config_dir(None), vec![".".to_string(), "barcode-keyboard".to_string()]);
    assert_eq!(
        config_file(Some("/home/u/.config".to_string())),
        vec!["/home/u/.config".to_string(), "barcode-keyboard".to_string(), "config.json".to_string()]
    );
}

#[test]
fn site_url_edit() {
    let mut c = Config::default();
    assert!(!c.apply_site_url(""));
    assert_eq!(c.url, "");
    assert!(c.apply_site_url("https://example.org"));
    assert_eq!(c.url, "https://example.org");
}
