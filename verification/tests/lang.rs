use barcode_keyboard::lang::{Language, language_for_locale};

#[test]
fn french_locales() {
    assert_eq!(language_for_locale("fr"), Language::French);
    assert_eq!(language_for_locale("fr-FR"), Language::French);
    assert_eq!(language_for_locale("fr_CA.UTF-8"), Language::French);
}

#[test]
fn other_locales_are_english() {
    assert_eq!(language_for_locale(""), Language::English);
    assert_eq!(language_for_locale("f"), Language::English);
    assert_eq!(language_for_locale("en-US"), Language::English);
    assert_eq!(language_for_locale("FR"), Language::English);
}
