//! The display surface: a fixed-geometry grid of character cells backed by
//! volatile memory. Every cell access goes through the `volatile` crate so
//! that the stores and loads reaching the display hardware can never be
//! elided, reordered, or coalesced.

use vstd::prelude::*;

use crate::color::ColorCode;

verus! {

/// Number of rows of the display surface.
pub const BUFFER_HEIGHT: usize = 25;

/// Number of character cells in one row of the display surface.
pub const BUFFER_WIDTH: usize = 80;

/// One cell of the display surface: the character code first, then the
/// attribute byte, matching the hardware's two-byte cell layout.
#[derive(Debug, Clone, Copy, PartialEq, Eq, Structural)]
pub struct ScreenChar {
    pub ascii_character: u8,
    pub color_code: ColorCode,
}

/// The blank cell written when a row is cleared: a space in the given attribute.
pub open spec fn blank_cell(color: ColorCode) -> ScreenChar {
    ScreenChar { ascii_character: 0x20, color_code: color }
}

/// A whole row of blank cells in the given attribute.
pub open spec fn blank_row(color: ColorCode) -> Seq<ScreenChar> {
    Seq::new(BUFFER_WIDTH as nat, |c: int| blank_cell(color))
}

/// A grid with exactly `BUFFER_HEIGHT` rows of `BUFFER_WIDTH` cells each.
pub open spec fn wf_grid(g: Seq<Seq<ScreenChar>>) -> bool {
    &&& g.len() == BUFFER_HEIGHT
    &&& forall|r: int| 0 <= r < g.len() ==> (#[trigger] g[r]).len() == BUFFER_WIDTH
}

/// The volatile-cell wrapper type of the outside `volatile` crate.
#[verifier::external_type_specification]
#[verifier::external_body]
#[verifier::reject_recursive_types(T)]
pub struct ExVolatile<T: Copy>(volatile::Volatile<T>);

/// The character code and attribute byte held by one volatile cell.
pub uninterp spec fn vol_contents(v: volatile::Volatile<ScreenChar>) -> (u8, u8);

/// The cell value held by one volatile cell.
pub open spec fn stored(v: volatile::Volatile<ScreenChar>) -> ScreenChar {
    ScreenChar {
        ascii_character: vol_contents(v).0,
        color_code: ColorCode(vol_contents(v).1),
    }
}

/// Relies on volatile::Volatile::new: the constructed cell wraps exactly the
/// given value.
#[verifier::external_body]
fn vol_new(value: ScreenChar) -> (v: volatile::Volatile<ScreenChar>)
    ensures
        vol_contents(v) == (value.ascii_character, value.color_code.0),
{
    volatile::Volatile::new(value)
}

/// Relies on volatile::Volatile::read: a volatile load that returns a copy of
/// the wrapped value.
#[verifier::external_body]
fn vol_read(v: &volatile::Volatile<ScreenChar>) -> (c: ScreenChar)
    ensures
        (c.ascii_character, c.color_code.0) == vol_contents(*v),
{
    v.read()
}

/// Relies on volatile::Volatile::write: a volatile store that replaces the
/// wrapped value with the given one.
#[verifier::external_body]
fn vol_write(v: &mut volatile::Volatile<ScreenChar>, value: ScreenChar)
    ensures
        vol_contents(*final(v)) == (value.ascii_character, value.color_code.0),
{
    v.write(value)
}

/// The display surface: `BUFFER_HEIGHT` rows of `BUFFER_WIDTH` volatile cells.
/// Its view is the grid of cell values currently held by the cells.
pub struct Buffer {
    chars: Vec<Vec<volatile::Volatile<ScreenChar>>>,
}

impl View for Buffer {
    type V = Seq<Seq<ScreenChar>>;

    closed spec fn view(&self) -> Seq<Seq<ScreenChar>> {
        Seq::new(
            self.chars@.len(),
            |r: int| Seq::new(self.chars@[r]@.len(), |c: int| stored(self.chars@[r]@[c])),
        )
    }
}

impl Buffer {
    /// The surface has its fixed geometry: `BUFFER_HEIGHT` rows of
    /// `BUFFER_WIDTH` cells.
    pub closed spec fn wf(&self) -> bool {
        &&& self.chars@.len() == BUFFER_HEIGHT
        &&& forall|r: int|
            0 <= r < self.chars@.len() ==> (#[trigger] self.chars@[r])@.len() == BUFFER_WIDTH
    }

    /// A well-formed surface has a well-formed grid as its view.
    pub proof fn lemma_wf_grid(&self)
        requires
            self.wf(),
        ensures
            wf_grid(self@),
    {
    }

    /// A fresh surface with every cell blank in the given attribute.
    pub fn new(color: ColorCode) -> (b: Buffer)
        ensures
            b.wf(),
            b@ == Seq::new(BUFFER_HEIGHT as nat, |r: int| blank_row(color)),
    {
        let blank = ScreenChar { ascii_character: 0x20, color_code: color };
        let mut chars: Vec<Vec<volatile::Volatile<ScreenChar>>> = Vec::new();
        while chars.len() < BUFFER_HEIGHT
            invariant
                blank == blank_cell(color),
                chars@.len() <= BUFFER_HEIGHT,
                forall|r: int|
                    0 <= r < chars@.len() ==> (#[trigger] chars@[r])@.len() == BUFFER_WIDTH,
                forall|r: int, c: int|
                    0 <= r < chars@.len() && 0 <= c < BUFFER_WIDTH
                        ==> stored(#[trigger] chars@[r]@[c]) == blank_cell(color),
            decreases BUFFER_HEIGHT - chars.len(),
        {
            let mut rowv: Vec<volatile::Volatile<ScreenChar>> = Vec::new();
            while rowv.len() < BUFFER_WIDTH
                invariant
                    blank == blank_cell(color),
                    rowv@.len() <= BUFFER_WIDTH,
                    forall|c: int|
                        0 <= c < rowv@.len() ==> stored(#[trigger] rowv@[c]) == blank_cell(color),
                decreases BUFFER_WIDTH - rowv.len(),
            {
                let cell = vol_new(blank);
                rowv.push(cell);
                proof {
                    assert(stored(cell) == blank_cell(color));
                }
            }
            chars.push(rowv);
        }
        let b = Buffer { chars };
        proof {
            assert(b@ =~~= Seq::new(BUFFER_HEIGHT as nat, |r: int| blank_row(color)));
        }
        b
    }

    /// Reads the cell at `(row, col)` with a volatile load.
    pub fn read_cell(&self, row: usize, col: usize) -> (c: ScreenChar)
        requires
            self.wf(),
            row < BUFFER_HEIGHT,
            col < BUFFER_WIDTH,
        ensures
            c == self@[row as int][col as int],
    {
        vol_read(&self.chars[row][col])
    }

    /// Writes `value` into the cell at `(row, col)` with a volatile store;
    /// every other cell keeps its contents.
    pub fn write_cell(&mut self, row: usize, col: usize, value: ScreenChar)
        requires
            old(self).wf(),
            row < BUFFER_HEIGHT,
            col < BUFFER_WIDTH,
        ensures
            final(self).wf(),
            final(self)@ == old(self)@.update(
                row as int,
                old(self)@[row as int].update(col as int, value),
            ),
    {
        vol_write(&mut self.chars[row][col], value);
        proof {
            assert(self@ =~~= old(self)@.update(
                row as int,
                old(self)@[row as int].update(col as int, value),
            ));
        }
    }
}

} // verus!
