use barcode_keyboard::formats::{Formats, FORMAT_COUNT, format_name_at};

fn formats_from_bits(bits: u32) -> Formats {
    Formats {
        ean13: bits & 1 != 0,
        ean8: bits & 2 != 0,
        upca: bits & 4 != 0,
        upce: bits & 8 != 0,
        code39: bits & 16 != 0,
        code128: bits & 32 != 0,
        qrcode: bits & 64 != 0,
        pdf417: bits & 128 != 0,
        itf: bits & 256 != 0,
        codabar: bits & 512 != 0,
        code93: bits & 1024 != 0,
        databar: bits & 2048 != 0,
    }
}

#[test]
fn default_formats_param() {
    assert_eq!(Formats::default().to_param(), "ean13,ean8,upca,code39,code128");
}

#[test]
fn default_is_default() {
    assert!(Formats::default().is_default());
    let mut f = Formats::default();
    f.upce = true;
    assert!(!f.is_default());
}

#[test]
fn empty_selection_param_is_empty() {
    assert_eq!(formats_from_bits(0).to_param(), "");
}

#[test]
fn all_formats_param() {
    assert_eq!(
        formats_from_bits(4095).to_param(),
        "ean13,ean8,upca,upce,code39,code128,qrcode,pdf417,itf,codabar,code93,databar"
    );
}

#[test]
fn param_roundtrip_every_selection() {
    for bits in 0..4096u32 {
        let f = formats_from_bits(bits);
        assert_eq!(Formats::from_str(&f.to_param()), f);
    }
}

#[test]
fn from_str_trims_pieces() {
    let f = Formats::from_str(" qrcode ,\tean8 ");
    assert_eq!(f, Formats { ean8: true, qrcode: true, ..formats_from_bits(0) });
}

#[test]
fn from_str_ignores_unknown_and_empty_pieces() {
    let f = Formats::from_str("foo,,ITF,itf,code 39,");
    assert_eq!(f, Formats { itf: true, ..formats_from_bits(0) });
    assert_eq!(Formats::from_str(""), formats_from_bits(0));
}

#[test]
fn format_names_in_order() {
    let names: Vec<&str> = (0..FORMAT_COUNT).map(format_name_at).collect();
    assert_eq!(names.join(","), formats_from_bits(4095).to_param());
}

#[test]
fn flag_at_matches_fields() {
    let f = formats_from_bits(0b1010_0101_0011);
    for k in 0..FORMAT_COUNT {
        assert_eq!(f.flag_at(k), (0b1010_0101_0011u32 >> k) & 1 == 1);
    }
}
