use barcode_keyboard::qr::{QR_PAD, qr_image, qr_rgba, terminal_qr};

#[test]
fn single_dark_module_image() {
    let rgba = qr_rgba(&vec![true], 1);
    let size = 1 + 2 * QR_PAD;
    assert_eq!(rgba.len(), size * size * 4);
    for p in 0..size * size {
        let dark = p == 3 * size + 3;
        let v = if dark { 0 } else { 255 };
        assert_eq!(&rgba[4 * p..4 * p + 4], &[v, v, v, 255]);
    }
}

#[test]
fn module_layout_row_by_row() {
    // 2x2 modules: dark, light / light, dark
    let rgba = qr_rgba(&vec![true, false, false, true], 2);
    let size = 2 + 2 * QR_PAD;
    let px = |r: usize, c: usize| rgba[(r * size + c) * 4];
    assert_eq!(px(3, 3), 0);
    assert_eq!(px(3, 4), 255);
    assert_eq!(px(4, 3), 255);
    assert_eq!(px(4, 4), 0);
    assert_eq!(px(0, 0), 255);
    assert!(rgba.chunks(4).all(|p| p[3] == 255));
}

#[test]
fn empty_symbol_is_border_only() {
    let rgba = qr_rgba(&vec![], 0);
    assert_eq!(rgba.len(), 36 * 4);
    assert!(rgba.iter().all(|b| *b == 255));
}

#[test]
fn qr_image_of_url() {
    let url = "https://example.org/scanner.html?endpoint=abc";
    let (rgba, size) = qr_image(url).expect("encodable");
    assert_eq!(rgba.len(), size * size * 4);
    let code = qrcode::QrCode::new(url.as_bytes()).unwrap();
    assert_eq!(size, code.width() + 2 * QR_PAD);
    for (i, c) in code.to_colors().iter().enumerate() {
        let p = (i / code.width() + QR_PAD) * size + i % code.width() + QR_PAD;
        let v = if *c == qrcode::Color::Dark { 0 } else { 255 };
        assert_eq!(rgba[4 * p], v);
    }
    // the finder pattern's corner is dark, the border light
    assert_eq!(rgba[(3 * size + 3) * 4], 0);
    assert_eq!(rgba[0], 255);
}

#[test]
fn too_long_text_has_no_qr() {
    let long = "x".repeat(10_000);
    assert!(qr_image(&long).is_none());
    assert!(terminal_qr(&long).is_none());
}

#[test]
fn terminal_qr_is_drawn() {
    let picture = terminal_qr("hello").expect("encodable");
    assert!(picture.lines().count() > 10);
    assert!(picture.contains('█') || picture.contains('▀') || picture.contains('▄'));
}
