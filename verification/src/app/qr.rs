//! The picture of the pairing code.

use vstd::prelude::*;

use crate::text;
use crate::text::trim_text;

verus! {

/// The pixels of a module's side.
pub const QR_SCALE: usize = 5;

/// The light modules around the code.
pub const QR_BORDER_MODULES: usize = 4;

/// The most modules of a code's side.
pub const MAX_QR_SIDE: usize = 177;

/// The code of a text at medium error correction: its rows of modules, `true`
/// for a dark one, or the description of the error.
pub uninterp spec fn qr_code(payload: Seq<char>) -> Result<Seq<Seq<bool>>, Seq<char>>;

pub open spec fn rows(modules: Seq<Vec<bool>>) -> Seq<Seq<bool>> {
    Seq::new(modules.len(), |y: int| modules[y]@)
}

/// A square of modules that is not too large.
pub open spec fn is_square(modules: Seq<Seq<bool>>) -> bool {
    &&& modules.len() <= MAX_QR_SIDE
    &&& forall|y: int| 0 <= y < modules.len() ==> (#[trigger] modules[y]).len() == modules.len()
}

/// `qrcodegen::QrCode::encode_text` at medium error correction, with `size` and
/// `get_module` to read the code out row by row: a square of at most 177 modules
/// a side, or the description of why the text does not fit.
#[verifier::external_body]
fn encode_qr(payload: &str) -> (r: Result<Vec<Vec<bool>>, String>)
    ensures
        match r {
            Ok(modules) => {
                &&& qr_code(payload@) == Ok::<Seq<Seq<bool>>, Seq<char>>(rows(modules@))
                &&& is_square(rows(modules@))
            },
            Err(error) => qr_code(payload@) == Err::<Seq<Seq<bool>>, Seq<char>>(error@),
        },
{
    let qr = qrcodegen::QrCode::encode_text(payload, qrcodegen::QrCodeEcc::Medium)
        .map_err(|err| format!("{err:?}"))?;
    let side = qr.size();
    Ok((0..side).map(|y| (0..side).map(|x| qr.get_module(x, y)).collect()).collect())
}

/// A square picture in dark and light, row by row.
#[derive(Debug)]
pub struct QrImage {
    pub side: usize,
    pub dark: Vec<bool>,
}

/// The side of the picture of a code.
pub open spec fn picture_side(modules: nat) -> nat {
    (modules + 2 * QR_BORDER_MODULES as nat) * QR_SCALE as nat
}

/// Whether a pixel is dark: it belongs to a dark module.
pub open spec fn is_dark(modules: Seq<Seq<bool>>, x: int, y: int) -> bool {
    let module_x = x / (QR_SCALE as int) - QR_BORDER_MODULES;
    let module_y = y / (QR_SCALE as int) - QR_BORDER_MODULES;
    0 <= module_x < modules.len() && 0 <= module_y < modules.len() && modules[module_y][module_x]
}

impl QrImage {
    /// The picture shows the code.
    pub open spec fn shows(self, modules: Seq<Seq<bool>>) -> bool {
        &&& self.side == picture_side(modules.len())
        &&& self.dark@.len() == self.side * self.side
        &&& forall|x: int, y: int|
            0 <= x < self.side && 0 <= y < self.side ==> #[trigger] self.dark@[y * self.side + x]
                == is_dark(modules, x, y)
    }
}

fn pixel(modules: &Vec<Vec<bool>>, x: usize, y: usize) -> (r: bool)
    requires
        is_square(rows(modules@)),
    ensures
        r == is_dark(rows(modules@), x as int, y as int),
{
    let n: usize = modules.len();
    let module_x: usize = x / QR_SCALE;
    let module_y: usize = y / QR_SCALE;
    if module_x >= QR_BORDER_MODULES && module_x - QR_BORDER_MODULES < n && module_y
        >= QR_BORDER_MODULES && module_y - QR_BORDER_MODULES < n {
        let row = module_y - QR_BORDER_MODULES;
        assert(rows(modules@)[row as int] == modules@[row as int]@);
        modules[module_y - QR_BORDER_MODULES][module_x - QR_BORDER_MODULES]
    } else {
        false
    }
}

/// Draws a code.
pub fn render_qr(modules: &Vec<Vec<bool>>) -> (r: QrImage)
    requires
        is_square(rows(modules@)),
    ensures
        r.shows(rows(modules@)),
{
    let ghost given = rows(modules@);
    let side: usize = (modules.len() + 2 * QR_BORDER_MODULES) * QR_SCALE;
    let mut dark: Vec<bool> = Vec::new();
    let mut y: usize = 0;
    while y < side
        invariant
            given == rows(modules@),
            is_square(given),
            side == picture_side(given.len()),
            side <= 925,
            y <= side,
            dark@.len() == y * side,
            forall|i: int, j: int|
                0 <= i < side && 0 <= j < y ==> #[trigger] dark@[j * side + i] == is_dark(
                    given,
                    i,
                    j,
                ),
        decreases side - y,
    {
        let mut x: usize = 0;
        while x < side
            invariant
                given == rows(modules@),
                is_square(given),
                side <= 925,
                y < side,
                x <= side,
                dark@.len() == y * side + x,
                forall|i: int, j: int|
                    0 <= i < side && 0 <= j < y ==> #[trigger] dark@[j * side + i] == is_dark(
                        given,
                        i,
                        j,
                    ),
                forall|i: int|
                    0 <= i < x ==> #[trigger] dark@[y * side + i] == is_dark(given, i, y as int),
            decreases side - x,
        {
            let ghost before = dark@;
            dark.push(pixel(modules, x, y));
            assert forall|i: int, j: int| 0 <= i < side && 0 <= j < y implies #[trigger] dark@[j
                * side + i] == is_dark(given, i, j) by {
                lemma_place_before(i, j, side as int, y as int);
                assert(dark@[j * side + i] == before[j * side + i]);
            }
            assert forall|i: int| 0 <= i < x + 1 implies #[trigger] dark@[y * side + i] == is_dark(
                given,
                i,
                y as int,
            ) by {
                if i < x {
                    assert(dark@[y * side + i] == before[y * side + i]);
                }
            }
            x += 1;
        }
        assert((y + 1) * side == y * side + side) by (nonlinear_arith);
        assert forall|i: int, j: int| 0 <= i < side && 0 <= j < y + 1 implies #[trigger] dark@[j
            * side + i] == is_dark(given, i, j) by {}
        y += 1;
    }
    QrImage { side, dark }
}

proof fn lemma_place_before(i: int, j: int, side: int, y: int)
    requires
        0 <= i < side,
        0 <= j < y,
    ensures
        0 <= j * side + i < y * side,
{
    assert(0 <= j * side && j * side + side <= y * side) by (nonlinear_arith)
        requires
            0 <= j,
            j + 1 <= y,
            0 <= side,
    ;
}

/// Draws the code of a payload, or says why it cannot.
pub fn build_qr_image(payload: &str) -> (r: Result<QrImage, String>)
    ensures
        ({
            let t = text::trimmed(payload@);
            match r {
                Ok(image) => t.len() > 0 && qr_code(t) is Ok && image.shows(qr_code(t)->Ok_0),
                Err(message) => if t.len() == 0 {
                    message@ == "QR payload is empty."@
                } else {
                    qr_code(t) is Err && message@ == "QR encode failed: "@ + qr_code(t)->Err_0
                },
            }
        }),
{
    let t = trim_text(payload);
    if t.unicode_len() == 0 {
        return Err("QR payload is empty.".to_owned());
    }
    match encode_qr(t) {
        Ok(modules) => Ok(render_qr(&modules)),
        Err(error) => {
            let mut message = "QR encode failed: ".to_owned();
            message.append(error.as_str());
            Err(message)
        },
    }
}

/// Each module is a square of five by five pixels, dark or light as it is, at its
/// place behind a border of twenty light pixels on each side.
pub proof fn law_modules_are_squares_of_pixels(
    modules: Seq<Seq<bool>>,
    row: int,
    column: int,
    dx: int,
    dy: int,
    x: int,
    y: int,
)
    requires
        0 <= row < modules.len(),
        0 <= column < modules.len(),
        0 <= dx < 5,
        0 <= dy < 5,
    ensures
        picture_side(modules.len()) == 5 * modules.len() + 40,
        is_dark(modules, 20 + 5 * column + dx, 20 + 5 * row + dy) == modules[row][column],
        x < 20 || y < 20 || x >= 20 + 5 * modules.len() || y >= 20 + 5 * modules.len() ==> !is_dark(
            modules,
            x,
            y,
        ),
{
    assert((20 + 5 * column + dx) / 5 == 4 + column);
    assert((20 + 5 * row + dy) / 5 == 4 + row);
}

/// A picture that shows a code has the light or dark of each module in all of its
/// pixels, row by row.
pub proof fn law_pictures_show_every_module(
    image: QrImage,
    modules: Seq<Seq<bool>>,
    row: int,
    column: int,
    dx: int,
    dy: int,
)
    requires
        image.shows(modules),
        0 <= row < modules.len(),
        0 <= column < modules.len(),
        0 <= dx < 5,
        0 <= dy < 5,
    ensures
        image.side == 5 * modules.len() + 40,
        image.dark@.len() == image.side * image.side,
        image.dark@[(20 + 5 * row + dy) * image.side + (20 + 5 * column + dx)]
            == modules[row][column],
{
    law_modules_are_squares_of_pixels(modules, row, column, dx, dy, 0, 0);
}

} // verus!
