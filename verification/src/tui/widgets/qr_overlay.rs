//! The pairing code as a picture: two rows of modules of the QR code in one
//! row of cells.

use vstd::prelude::*;

verus! {

/// What a cell shows of the two modules it stands for.
#[derive(Debug, Clone, Copy, PartialEq, Eq, Structural)]
pub enum HalfBlock {
    /// Both modules are dark.
    Full,
    /// Only the upper module is dark.
    Upper,
    /// Only the lower module is dark.
    Lower,
    /// Both modules are light.
    Empty,
}

/// The QR code of a text: the number of modules per side, and for each
/// module, row by row, whether it is dark. Nothing for a text that no QR
/// code can hold.
pub uninterp spec fn qr_code_of(data: Seq<char>) -> Option<(usize, Seq<bool>)>;

/// The plain parts of what building a QR code gave.
pub open spec fn code_view(code: Option<(usize, Vec<bool>)>) -> Option<(usize, Seq<bool>)> {
    match code {
        Some(c) => Some((c.0, c.1@)),
        None => None,
    }
}

/// `QrCode::new` of the bytes of the text, handed out as the code's `width`
/// and, for each of its `to_colors`, whether it is the dark one.
#[verifier::external_body]
fn build_qr(data: &str) -> (code: Option<(usize, Vec<bool>)>)
    ensures
        code_view(code) == qr_code_of(data@),
{
    let built = qrcode::QrCode::new(data.as_bytes()).ok();
    built.map(|q| (q.width(), q.to_colors().iter().map(|c| *c == qrcode::Color::Dark).collect()))
}

/// What the cell at column `x` of row `y` shows: the module at row `2y` is
/// its upper half, the one at row `2y + 1` its lower half, which is light
/// where the code has no such row.
pub open spec fn half_block_at(dark: Seq<bool>, width: int, y: int, x: int) -> HalfBlock {
    let top = dark[2 * y * width + x];
    let bottom = 2 * y + 1 < width && dark[(2 * y + 1) * width + x];
    if top && bottom {
        HalfBlock::Full
    } else if top {
        HalfBlock::Upper
    } else if bottom {
        HalfBlock::Lower
    } else {
        HalfBlock::Empty
    }
}

/// Whether `rows` is the picture of the modules: a row of cells for every
/// two rows of modules, each as wide as the code.
pub open spec fn is_picture_of(rows: Seq<Seq<HalfBlock>>, dark: Seq<bool>, width: int) -> bool {
    &&& rows.len() == (width + 1) / 2
    &&& forall|y: int| 0 <= y < rows.len() ==> (#[trigger] rows[y]).len() == width
    &&& forall|y: int, x: int|
        0 <= y < rows.len() && 0 <= x < width ==> (#[trigger] rows[y][x]) == half_block_at(
            dark,
            width,
            y,
            x,
        )
}

/// The cells of the rows of a picture.
pub open spec fn rows_view(rows: Seq<Vec<HalfBlock>>) -> Seq<Seq<HalfBlock>> {
    rows.map_values(|r: Vec<HalfBlock>| r@)
}

/// The picture of the modules of a QR code; nothing where there are not as
/// many modules as a square of the given side has.
pub fn qr_rows(dark: &Vec<bool>, width: usize) -> (rows: Option<Vec<Vec<HalfBlock>>>)
    ensures
        rows is Some <==> dark.len() == width * width,
        rows matches Some(r) ==> is_picture_of(rows_view(r@), dark@, width as int),
{
    let mut rows: Vec<Vec<HalfBlock>> = Vec::new();
    if width == 0 {
        if dark.len() != 0 {
            return None;
        }
        assert(rows_view(rows@) =~= Seq::empty());
        return Some(rows);
    }
    let ghost n = dark.len() as int;
    let ghost w = width as int;
    if dark.len() / width != width || dark.len() % width != 0 {
        assert(n != w * w) by (nonlinear_arith)
            requires
                w > 0,
                n >= 0,
                n / w != w || n % w != 0,
        ;
        return None;
    }
    assert(n == w * w && w <= n && (w == 1 || w + 2 <= n)) by (nonlinear_arith)
        requires
            w > 0,
            n / w == w,
            n % w == 0,
    ;
    let mut top: usize = 0;
    while top < width
        invariant
            n == dark.len(),
            w == width,
            n == w * w,
            0 < w <= n,
            w == 1 || w + 2 <= n,
            top == 2 * rows.len(),
            top <= width + 1,
            forall|r: int| 0 <= r < rows.len() ==> (#[trigger] rows@[r])@.len() == width,
            forall|r: int, x: int|
                0 <= r < rows.len() && 0 <= x < width ==> (#[trigger] rows@[r]@[x])
                    == half_block_at(dark@, w, r, x),
        decreases width + 1 - top,
    {
        let mut row: Vec<HalfBlock> = Vec::new();
        let has_bottom = top + 1 < width;
        let ghost y = rows.len() as int;
        assert(top * w + w <= w * w) by (nonlinear_arith)
            requires
                0 <= top < w,
        ;
        assert(has_bottom ==> (top + 1) * w + w <= w * w) by (nonlinear_arith)
            requires
                0 <= top,
                has_bottom ==> top + 2 <= w,
        ;
        let mut x: usize = 0;
        while x < width
            invariant
                n == dark.len(),
                w == width,
                n == w * w,
                top == 2 * y,
                top < width,
                has_bottom == (top + 1 < width),
                top * w + w <= w * w,
                has_bottom ==> (top + 1) * w + w <= w * w,
                0 <= x <= width,
                row.len() == x,
                forall|k: int| 0 <= k < x ==> (#[trigger] row@[k]) == half_block_at(dark@, w, y, k),
            decreases width - x,
        {
            let upper = dark[top * width + x];
            let lower = has_bottom && dark[(top + 1) * width + x];
            let cell = if upper && lower {
                HalfBlock::Full
            } else if upper {
                HalfBlock::Upper
            } else if lower {
                HalfBlock::Lower
            } else {
                HalfBlock::Empty
            };
            row.push(cell);
            x += 1;
        }
        rows.push(row);
        top += 2;
    }
    proof {
        assert(rows_view(rows@).len() == (width + 1) / 2);
        assert forall|r: int| 0 <= r < rows_view(rows@).len() implies (#[trigger] rows_view(
            rows@,
        )[r]).len() == width by {
            assert(rows_view(rows@)[r] == rows@[r]@);
        }
        assert forall|r: int, x: int|
            0 <= r < rows_view(rows@).len() && 0 <= x < width implies (#[trigger] rows_view(
            rows@,
        )[r][x]) == half_block_at(dark@, width as int, r, x) by {
            assert(rows_view(rows@)[r] == rows@[r]@);
        }
    }
    Some(rows)
}

/// Whether a QR code can be drawn: it has as many modules as a square of
/// its side.
pub open spec fn is_square(built: (usize, Seq<bool>)) -> bool {
    built.1.len() == built.0 * built.0
}

/// The picture of the QR code of a pairing code. There is one exactly where
/// the text has a QR code and that code is a square; nothing for a text that
/// no QR code can hold.
pub fn pairing_picture(code: &str) -> (rows: Option<Vec<Vec<HalfBlock>>>)
    ensures
        rows is Some <==> (qr_code_of(code@) matches Some(built) && is_square(built)),
        rows matches Some(r) ==> qr_code_of(code@) matches Some(built) && is_picture_of(
            rows_view(r@),
            built.1,
            built.0 as int,
        ),
{
    match build_qr(code) {
        Some(built) => qr_rows(&built.1, built.0),
        None => None,
    }
}

/// The size of the popup of a picture with `width` modules per side and
/// `rows` rows of cells: the picture with a quiet zone of two cells left and
/// right and a row above and below, four more rows for the note below it,
/// and the border. A size beyond the last that can be named is the last.
pub open spec fn popup_size_spec(width: int, rows: int) -> (u16, u16) {
    (
        if width + 6 > u16::MAX {
            u16::MAX
        } else {
            (width + 6) as u16
        },
        if rows + 8 > u16::MAX {
            u16::MAX
        } else {
            (rows + 8) as u16
        },
    )
}

/// The size of the popup of a picture.
pub fn popup_size(width: usize, rows: usize) -> (size: (u16, u16))
    ensures
        size == popup_size_spec(width as int, rows as int),
{
    let w: u16 = if width > (u16::MAX - 6) as usize {
        u16::MAX
    } else {
        (width + 6) as u16
    };
    let h: u16 = if rows > (u16::MAX - 8) as usize {
        u16::MAX
    } else {
        (rows + 8) as u16
    };
    (w, h)
}

} // verus!
