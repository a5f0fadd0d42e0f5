//! The QR code that the phone scans: its modules come from the `qrcode`
//! crate, laid out here as an RGBA image with a quiet zone.

use vstd::prelude::*;
use vstd::arithmetic::div_mod::{lemma_fundamental_div_mod, lemma_fundamental_div_mod_converse};
use vstd::string::StringSliceAdditionalSpecFns;
use qrcode::{Color, QrCode};
use qrcode::render::unicode::Dense1x2;

verus! {

/// What `QrCode::new` encodes for `data`, if it can: the dark (`true`) and
/// light modules row by row, and the number of modules per side.
pub uninterp spec fn qr_symbol(data: Seq<u8>) -> Option<(Seq<bool>, usize)>;

/// The terminal picture of the QR code for `data` that `QrCode::new` and
/// the `Dense1x2` unicode renderer make, if the data can be encoded.
pub uninterp spec fn qr_terminal_picture(data: Seq<u8>) -> Option<Seq<char>>;

/// `QrCode::new(data)`, then `to_colors` (dark as `true`) and `width`.
/// The result is named, not described: it is the crate's encoding.
#[verifier::external_body]
fn qr_encode(data: &[u8]) -> (r: Option<(Vec<bool>, usize)>)
    ensures
        match r {
            Some((m, w)) => qr_symbol(data@) == Some((m@, w)),
            None => qr_symbol(data@) is None,
        },
{
    match QrCode::new(data) {
        Ok(code) => {
            let modules: Vec<bool> = code.to_colors().iter().map(|c| match c {
                Color::Dark => true,
                Color::Light => false,
            }).collect();
            Some((modules, code.width()))
        },
        Err(_) => None,
    }
}

/// `QrCode::new(data)` rendered with `render::<Dense1x2>()`, dark and light
/// colours `Dense1x2::Dark` and `Dense1x2::Light`, then `build`.
#[verifier::external_body]
fn qr_render_dense(data: &[u8]) -> (r: Option<String>)
    ensures
        match r {
            Some(s) => qr_terminal_picture(data@) == Some(s@),
            None => qr_terminal_picture(data@) is None,
        },
{
    match QrCode::new(data) {
        Ok(code) => Some(code.render::<Dense1x2>().dark_color(Dense1x2::Dark)
            .light_color(Dense1x2::Light).build()),
        Err(_) => None,
    }
}

/// The QR code of a text for a terminal, if the text can be encoded.
pub fn terminal_qr(text: &str) -> (r: Option<String>)
    ensures
        match r {
            Some(s) => qr_terminal_picture(text.spec_bytes()) == Some(s@),
            None => qr_terminal_picture(text.spec_bytes()) is None,
        },
{
    qr_render_dense(text.as_bytes())
}

} // verus!

verus! {

/// Width in pixels of the light border around the QR modules.
pub const QR_PAD: usize = 3;

/// Whether pixel `p` (row by row) of the padded image lies on a module.
pub open spec fn on_module(width: int, p: int) -> bool {
    let size = width + 2 * QR_PAD;
    &&& QR_PAD <= p / size < QR_PAD + width
    &&& QR_PAD <= p % size < QR_PAD + width
}

/// The index of the module under pixel `p`.
pub open spec fn module_index(width: int, p: int) -> int {
    let size = width + 2 * QR_PAD;
    (p / size - QR_PAD) * width + (p % size - QR_PAD)
}

/// Byte `j` of the RGBA image of the modules: black opaque on dark
/// modules, white opaque elsewhere, the border included.
pub open spec fn qr_image_byte(modules: Seq<bool>, width: int, j: int) -> u8 {
    if j % 4 < 3 && on_module(width, j / 4) && modules[module_index(width, j / 4)] {
        0
    } else {
        255
    }
}

/// Module `i` lies under exactly one pixel, the one `QR_PAD` rows and
/// columns further than the module.
proof fn lemma_module_pixel(width: int, i: int)
    requires
        width > 0,
        0 <= i < width * width,
    ensures
        ({
            let size = width + 2 * QR_PAD;
            let p = (i / width + QR_PAD) * size + (i % width + QR_PAD);
            &&& 0 <= i / width < width
            &&& 0 <= i % width < width
            &&& 0 <= p < size * size
            &&& on_module(width, p)
            &&& module_index(width, p) == i
            &&& forall|q: int| #![trigger module_index(width, q)]
                0 <= q && on_module(width, q) && module_index(width, q) == i ==> q == p
        }),
{
    let size = width + 2 * QR_PAD;
    let r = i / width;
    let c = i % width;
    lemma_fundamental_div_mod(i, width);
    assert(0 <= c < width);
    assert(0 <= r < width) by {
        if r >= width {
            assert(width * r >= width * width) by (nonlinear_arith)
                requires r >= width, width > 0;
        }
        if r < 0 {
            assert(width * r <= -width) by (nonlinear_arith)
                requires r < 0, width > 0;
        }
    }
    let p = (r + QR_PAD) * size + (c + QR_PAD);
    lemma_fundamental_div_mod_converse(p, size, r + QR_PAD, c + QR_PAD);
    assert(p < size * size) by (nonlinear_arith)
        requires p == (r + 3) * size + (c + 3), 0 <= r < width, 0 <= c < width, size == width + 6;
    assert(0 <= p) by (nonlinear_arith)
        requires p == (r + 3) * size + (c + 3), 0 <= r, 0 <= c, size > 0;
    assert(module_index(width, p) == r * width + c);
    assert(r * width == width * r) by (nonlinear_arith);
    assert forall|q: int| #![trigger module_index(width, q)]
        0 <= q && on_module(width, q) && module_index(width, q) == i implies q == p by {
        let qr = q / size - QR_PAD;
        let qc = q % size - QR_PAD;
        lemma_fundamental_div_mod_converse(i, width, qr, qc);
        lemma_fundamental_div_mod(q, size);
        assert(size * (q / size) == (qr + QR_PAD) * size) by (nonlinear_arith)
            requires qr == q / size - 3;
    }
}

/// A byte index splits into its pixel and its channel.
proof fn lemma_byte_pixel(j: int)
    requires
        0 <= j,
    ensures
        j == 4 * (j / 4) + j % 4,
        0 <= j % 4 < 4,
        0 <= j / 4,
{
    lemma_fundamental_div_mod(j, 4);
}

/// The RGBA image (`size` by `size` pixels, `size` = `width` + 2 × 3) of
/// a QR code given as `width` × `width` modules, row by row, `true` for
/// dark: black for dark modules, white for light ones and for the
/// three-pixel border, every pixel opaque.
pub fn qr_rgba(modules: &Vec<bool>, width: usize) -> (rgba: Vec<u8>)
    requires
        modules@.len() == width * width,
        (width + 2 * QR_PAD) * (width + 2 * QR_PAD) * 4 <= usize::MAX,
    ensures
        rgba@.len() == (width + 2 * QR_PAD) * (width + 2 * QR_PAD) * 4,
        forall|j: int| 0 <= j < rgba@.len() ==> #[trigger] rgba@[j] == qr_image_byte(modules@, width as int, j),
{
    assert(width + 2 * QR_PAD <= (width + 2 * QR_PAD) * (width + 2 * QR_PAD) * 4) by (nonlinear_arith)
        requires width >= 0;
    let size = width + 2 * QR_PAD;
    assert(size * size <= size * size * 4) by (nonlinear_arith);
    let pixels = size * size;
    let total = pixels * 4;
    let mut rgba: Vec<u8> = vec![255u8; total];
    let n = modules.len();
    if width == 0 {
        proof {
            assert forall|j: int| 0 <= j < rgba@.len() implies #[trigger] rgba@[j] == qr_image_byte(modules@, width as int, j) by {
                lemma_byte_pixel(j);
            }
        }
        return rgba;
    }
    for i in 0..n
        invariant
            width > 0,
            size == width + 2 * QR_PAD,
            n == modules@.len(),
            n == width * width,
            total == size * size * 4,
            total <= usize::MAX,
            rgba@.len() == total,
            forall|j: int| 0 <= j < total ==> #[trigger] rgba@[j] == (
                if j % 4 < 3 && on_module(width as int, j / 4) && module_index(width as int, j / 4) < i
                    && modules@[module_index(width as int, j / 4)] { 0u8 } else { 255u8 }),
    {
        proof {
            lemma_module_pixel(width as int, i as int);
        }
        let row = i / width + QR_PAD;
        let col = i % width + QR_PAD;
        proof {
            assert(row * size + col < size * size);
            assert((row * size + col) * 4 + 3 < size * size * 4) by (nonlinear_arith)
                requires row * size + col < size * size;
        }
        let b = (row * size + col) * 4;
        let v: u8 = if modules[i] { 0 } else { 255 };
        let ghost p: int = row * size + col;
        let ghost before = rgba@;
        rgba.set(b, v);
        rgba.set(b + 1, v);
        rgba.set(b + 2, v);
        rgba.set(b + 3, 255);
        proof {
            assert forall|j: int| 0 <= j < total implies #[trigger] rgba@[j] == (
                if j % 4 < 3 && on_module(width as int, j / 4) && module_index(width as int, j / 4) < i + 1
                    && modules@[module_index(width as int, j / 4)] { 0u8 } else { 255u8 }) by {
                lemma_byte_pixel(j);
                if b <= j < b + 4 {
                    lemma_fundamental_div_mod_converse(j, 4, p, j - b);
                } else {
                    assert(rgba@[j] == before[j]);
                    if on_module(width as int, j / 4) && module_index(width as int, j / 4) == i {
                        assert(j / 4 == p);
                    }
                }
            }
        }
    }
    proof {
        assert forall|j: int| 0 <= j < total implies #[trigger] rgba@[j] == qr_image_byte(modules@, width as int, j) by {
            lemma_byte_pixel(j);
            if on_module(width as int, j / 4) {
                let q = j / 4;
                let qr = q / (size as int) - QR_PAD;
                let qc = q % (size as int) - QR_PAD;
                assert(module_index(width as int, q) < n) by (nonlinear_arith)
                    requires module_index(width as int, q) == qr * width + qc, 0 <= qr < width, 0 <= qc < width,
                        n == width * width;
            }
        }
    }
    rgba
}

} // verus!

verus! {

/// Whether a QR symbol has one module per cell of its square and its padded
/// RGBA image fits in memory.
pub open spec fn symbol_fits(modules: Seq<bool>, width: usize) -> bool {
    &&& modules.len() == width * width
    &&& (width + 2 * QR_PAD) * (width + 2 * QR_PAD) * 4 <= usize::MAX
}

/// The RGBA image of the QR code of `text` and its side in pixels, as the
/// app shows it: `None` when the `qrcode` crate cannot encode the text (or
/// its symbol would not fit in memory as an image).
pub fn qr_image(text: &str) -> (r: Option<(Vec<u8>, usize)>)
    ensures
        match qr_symbol(text.spec_bytes()) {
            Some((modules, width)) => if symbol_fits(modules, width) {
                r matches Some((rgba, size)) && size == width + 2 * QR_PAD
                    && rgba@.len() == size * size * 4
                    && forall|j: int| 0 <= j < rgba@.len()
                        ==> #[trigger] rgba@[j] == qr_image_byte(modules, width as int, j)
            } else {
                r is None
            },
            None => r is None,
        },
{
    match qr_encode(text.as_bytes()) {
        None => None,
        Some((modules, width)) => {
            let len = modules.len();
            let cells = width.checked_mul(width);
            let size = width.checked_add(2 * QR_PAD);
            match (cells, size) {
                (Some(cells), Some(size)) => {
                    if cells != modules.len() {
                        return None;
                    }
                    match size.checked_mul(size) {
                        Some(pixels) => {
                            if pixels > usize::MAX / 4 {
                                assert(pixels * 4 > usize::MAX);
                                return None;
                            }
                            let rgba = qr_rgba(&modules, width);
                            Some((rgba, size))
                        },
                        None => {
                            assert(size * size * 4 > usize::MAX) by (nonlinear_arith)
                                requires size * size > usize::MAX;
                            None
                        },
                    }
                },
                (None, _) => {
                    assert(len != width * width);
                    None
                },
                (_, None) => {
                    assert((width + 2 * QR_PAD) * (width + 2 * QR_PAD) * 4 > usize::MAX) by (nonlinear_arith)
                        requires width + 6 > usize::MAX;
                    None
                },
            }
        },
    }
}

} // verus!
