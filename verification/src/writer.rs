//! The line writer: owns the display surface, composes text on its last row
//! byte by byte, wraps when the row is full, and scrolls the whole surface up
//! by one row on every line feed. Its behavior is captured by a functional
//! model (`WriterView` and the `view_after_*` functions), and the laws at the
//! end of the module relate the model's transitions to one another.

use vstd::prelude::*;
use vstd::string::StringSliceAdditionalSpecFns;

use crate::buffer::{blank_cell, blank_row, wf_grid, Buffer, ScreenChar, BUFFER_HEIGHT, BUFFER_WIDTH};
use crate::color::{Color, ColorCode};

verus! {

/// The line feed byte: it is never stored; it forces a scroll.
pub const NEWLINE: u8 = 0x0a;

/// The substitution glyph stored in place of a byte outside the printable range.
pub const UNKNOWN_GLYPH: u8 = 0xfe;

/// A byte in the printable range, stored unchanged by the text interface.
pub open spec fn is_printable(b: u8) -> bool {
    0x20 <= b <= 0x7e
}

/// The byte the text interface hands to the writer for input byte `b`:
/// printable bytes and the line feed pass through, everything else becomes
/// the substitution glyph.
pub open spec fn substituted(b: u8) -> u8 {
    if is_printable(b) || b == NEWLINE {
        b
    } else {
        UNKNOWN_GLYPH
    }
}

/// The abstract state of the writer: the write column on the last row, the
/// current attribute, and the grid of cells on the surface.
#[verifier::ext_equal]
pub ghost struct WriterView {
    pub column: int,
    pub color: ColorCode,
    pub grid: Seq<Seq<ScreenChar>>,
}

/// A well-formed writer state: fixed geometry, column never past the row width.
pub open spec fn wf_view(v: WriterView) -> bool {
    &&& wf_grid(v.grid)
    &&& 0 <= v.column <= BUFFER_WIDTH
}

/// The grid after a scroll: every row moves up by one, and the vacated last
/// row is blank in the writer's current attribute.
pub open spec fn scrolled(g: Seq<Seq<ScreenChar>>, color: ColorCode) -> Seq<Seq<ScreenChar>> {
    Seq::new(g.len(), |r: int| if r + 1 < g.len() { g[r + 1] } else { blank_row(color) })
}

/// The writer after a line feed: the surface scrolls and the cursor returns
/// to the start of the (still last) row.
pub open spec fn view_after_line_feed(v: WriterView) -> WriterView {
    WriterView { column: 0, color: v.color, grid: scrolled(v.grid, v.color) }
}

/// The writer after placing byte `b` at the cursor on the last row and
/// advancing the cursor (no wrap check here).
pub open spec fn view_after_put(v: WriterView, b: u8) -> WriterView {
    WriterView {
        column: v.column + 1,
        color: v.color,
        grid: v.grid.update(
            BUFFER_HEIGHT - 1,
            v.grid[BUFFER_HEIGHT - 1].update(
                v.column,
                ScreenChar { ascii_character: b, color_code: v.color },
            ),
        ),
    }
}

/// The writer after `write_byte(b)`: a line feed scrolls; any other byte is
/// placed at the cursor, after a wrap when the row is already full.
pub open spec fn view_after_byte(v: WriterView, b: u8) -> WriterView {
    if b == NEWLINE {
        view_after_line_feed(v)
    } else if v.column >= BUFFER_WIDTH {
        view_after_put(view_after_line_feed(v), b)
    } else {
        view_after_put(v, b)
    }
}

/// The writer after writing a byte sequence through the text interface,
/// substituting each byte outside the renderable range.
pub open spec fn view_after_bytes(v: WriterView, s: Seq<u8>) -> WriterView
    decreases s.len(),
{
    if s.len() == 0 {
        v
    } else {
        view_after_bytes(view_after_byte(v, substituted(s[0])), s.subrange(1, s.len() as int))
    }
}

/// The line writer. It always composes text on the last row of the surface;
/// earlier rows hold history and are only ever written by the scroll.
pub struct Writer {
    column_position: usize,
    color_code: ColorCode,
    buffer: Buffer,
}

impl View for Writer {
    type V = WriterView;

    closed spec fn view(&self) -> WriterView {
        WriterView {
            column: self.column_position as int,
            color: self.color_code,
            grid: self.buffer@,
        }
    }
}

impl Writer {
    /// The writer owns a well-formed surface and its cursor never passes the
    /// row width.
    pub closed spec fn wf(&self) -> bool {
        &&& self.buffer.wf()
        &&& self.column_position <= BUFFER_WIDTH
    }

    /// A well-formed writer has a well-formed view.
    pub proof fn lemma_wf_view(&self)
        requires
            self.wf(),
        ensures
            wf_view(self@),
    {
        self.buffer.lemma_wf_grid();
    }

    /// A fresh writer over a fresh surface: cursor at the start of the line,
    /// the given color pair packed as its attribute, and every cell blank in
    /// that attribute.
    pub fn new(foreground: Color, background: Color) -> (w: Writer)
        ensures
            w.wf(),
            w@.column == 0,
            w@.color.0 == crate::color::spec_pack(foreground, background),
            w@.grid == Seq::new(BUFFER_HEIGHT as nat, |r: int| blank_row(w@.color)),
    {
        let color_code = ColorCode::new(foreground, background);
        Writer { column_position: 0, color_code, buffer: Buffer::new(color_code) }
    }

    /// The current write column on the last row.
    pub fn column(&self) -> (c: usize)
        ensures
            c == self@.column,
    {
        self.column_position
    }

    /// The current attribute byte.
    pub fn color(&self) -> (c: ColorCode)
        ensures
            c == self@.color,
    {
        self.color_code
    }

    /// Reads the cell at `(row, col)` of the surface.
    pub fn cell_at(&self, row: usize, col: usize) -> (c: ScreenChar)
        requires
            self.wf(),
            row < BUFFER_HEIGHT,
            col < BUFFER_WIDTH,
        ensures
            c == self@.grid[row as int][col as int],
    {
        self.buffer.read_cell(row, col)
    }

    /// Overwrites every cell of `row` with a blank in the current attribute.
    fn clear_row(&mut self, row: usize)
        requires
            old(self).wf(),
            row < BUFFER_HEIGHT,
        ensures
            final(self).wf(),
            final(self)@.grid == old(self)@.grid.update(row as int, blank_row(old(self)@.color)),
            final(self)@.column == old(self)@.column,
            final(self)@.color == old(self)@.color,
    {
        let ghost g0 = self.buffer@;
        let ghost w0 = *self;
        proof {
            self.buffer.lemma_wf_grid();
        }
        let blank = ScreenChar { ascii_character: 0x20, color_code: self.color_code };
        let mut col: usize = 0;
        while col < BUFFER_WIDTH
            invariant
                self.wf(),
                row < BUFFER_HEIGHT,
                col <= BUFFER_WIDTH,
                blank == blank_cell(w0.color_code),
                self.column_position == w0.column_position,
                self.color_code == w0.color_code,
                wf_grid(g0),
                self.buffer@.len() == g0.len(),
                forall|r: int| 0 <= r < g0.len() && r != row ==> self.buffer@[r] == g0[r],
                self.buffer@[row as int].len() == BUFFER_WIDTH,
                forall|c: int| 0 <= c < col ==> self.buffer@[row as int][c] == blank_cell(w0.color_code),
            decreases BUFFER_WIDTH - col,
        {
            self.buffer.write_cell(row, col, blank);
            col = col + 1;
        }
        proof {
            assert(self.buffer@[row as int] =~= blank_row(w0.color_code));
            assert(self@.grid =~~= old(self)@.grid.update(row as int, blank_row(old(self)@.color)));
        }
    }

    /// The scroll: copies each row into the one above it in a single
    /// top-to-bottom pass, clears the vacated last row in the current
    /// attribute, and returns the cursor to the start of the line.
    fn new_line(&mut self)
        requires
            old(self).wf(),
        ensures
            final(self).wf(),
            final(self)@ == view_after_line_feed(old(self)@),
    {
        let ghost g0 = self.buffer@;
        let ghost w0 = *self;
        proof {
            self.buffer.lemma_wf_grid();
        }
        let mut row: usize = 1;
        while row < BUFFER_HEIGHT
            invariant
                self.wf(),
                1 <= row <= BUFFER_HEIGHT,
                self.column_position == w0.column_position,
                self.color_code == w0.color_code,
                wf_grid(g0),
                wf_grid(self.buffer@),
                forall|r: int| 0 <= r < row - 1 ==> self.buffer@[r] == g0[r + 1],
                forall|r: int| row - 1 <= r < BUFFER_HEIGHT ==> self.buffer@[r] == g0[r],
            decreases BUFFER_HEIGHT - row,
        {
            let mut col: usize = 0;
            while col < BUFFER_WIDTH
                invariant
                    self.wf(),
                    1 <= row < BUFFER_HEIGHT,
                    col <= BUFFER_WIDTH,
                    self.column_position == w0.column_position,
                    self.color_code == w0.color_code,
                    wf_grid(g0),
                    wf_grid(self.buffer@),
                    forall|r: int| 0 <= r < row - 1 ==> self.buffer@[r] == g0[r + 1],
                    forall|r: int| row <= r < BUFFER_HEIGHT ==> self.buffer@[r] == g0[r],
                    forall|c: int|
                        0 <= c < col ==> #[trigger] self.buffer@[row - 1][c] == g0[row as int][c],
                    forall|c: int|
                        col <= c < BUFFER_WIDTH ==> #[trigger] self.buffer@[row - 1][c]
                            == g0[row - 1][c],
                decreases BUFFER_WIDTH - col,
            {
                let character = self.buffer.read_cell(row, col);
                self.buffer.write_cell(row - 1, col, character);
                col = col + 1;
            }
            proof {
                assert(self.buffer@[row - 1] =~= g0[row as int]);
            }
            row = row + 1;
        }
        self.clear_row(BUFFER_HEIGHT - 1);
        self.column_position = 0;
        proof {
            assert(self@.grid =~~= scrolled(g0, w0.color_code));
            assert(self@ =~~= view_after_line_feed(old(self)@));
        }
    }

    /// Writes one byte. The line feed scrolls; any other byte is placed at
    /// the cursor on the last row — after a wrap when the row is already
    /// full — in the current attribute, and the cursor advances.
    pub fn write_byte(&mut self, byte: u8)
        requires
            old(self).wf(),
        ensures
            final(self).wf(),
            final(self)@ == view_after_byte(old(self)@, byte),
    {
        if byte == NEWLINE {
            self.new_line();
        } else {
            if self.column_position >= BUFFER_WIDTH {
                self.new_line();
            }
            let row = BUFFER_HEIGHT - 1;
            let col = self.column_position;
            let color_code = self.color_code;
            proof {
                self.buffer.lemma_wf_grid();
            }
            self.buffer.write_cell(row, col, ScreenChar { ascii_character: byte, color_code });
            self.column_position = self.column_position + 1;
            proof {
                assert(self@ =~~= view_after_byte(old(self)@, byte));
            }
        }
    }

    /// Writes a byte sequence through the text interface: printable bytes and
    /// the line feed reach `write_byte` unchanged, every other byte is
    /// replaced with the substitution glyph first.
    pub fn write_bytes(&mut self, bytes: &[u8])
        requires
            old(self).wf(),
        ensures
            final(self).wf(),
            final(self)@ == view_after_bytes(old(self)@, bytes@),
    {
        let ghost v0 = self@;
        let mut i: usize = 0;
        while i < bytes.len()
            invariant
                self.wf(),
                i <= bytes@.len(),
                self@ == view_after_bytes(v0, bytes@.take(i as int)),
            decreases bytes@.len() - i,
        {
            let byte = bytes[i];
            if (0x20 <= byte && byte <= 0x7e) || byte == NEWLINE {
                self.write_byte(byte);
            } else {
                self.write_byte(UNKNOWN_GLYPH);
            }
            proof {
                lemma_view_after_bytes_push(v0, bytes@.take(i as int), bytes@[i as int]);
                assert(bytes@.take(i as int).push(bytes@[i as int]) =~= bytes@.take(i + 1));
            }
            i = i + 1;
        }
        proof {
            assert(bytes@.take(bytes@.len() as int) =~= bytes@);
        }
    }

    /// Writes a string through the text interface, one UTF-8 byte at a time.
    pub fn write_string(&mut self, s: &str)
        requires
            old(self).wf(),
        ensures
            final(self).wf(),
            final(self)@ == view_after_bytes(old(self)@, s.spec_bytes()),
    {
        self.write_bytes(s.as_bytes());
    }
}

/// Writing one more byte after a sequence is the same as writing the sequence
/// extended by that byte.
pub proof fn lemma_view_after_bytes_push(v: WriterView, s: Seq<u8>, b: u8)
    ensures
        view_after_bytes(v, s.push(b)) == view_after_byte(view_after_bytes(v, s), substituted(b)),
    decreases s.len(),
{
    if s.len() == 0 {
        reveal_with_fuel(view_after_bytes, 2);
        assert(s.push(b)[0] == b);
        assert(s.push(b).subrange(1, s.push(b).len() as int) =~= Seq::<u8>::empty());
    } else {
        assert(s.push(b)[0] == s[0]);
        assert(s.push(b).subrange(1, s.push(b).len() as int) =~= s.subrange(
            1,
            s.len() as int,
        ).push(b));
        lemma_view_after_bytes_push(
            view_after_byte(v, substituted(s[0])),
            s.subrange(1, s.len() as int),
            b,
        );
    }
}

/// Every single-byte transition keeps the writer state well formed.
pub proof fn lemma_byte_wf(v: WriterView, b: u8)
    requires
        wf_view(v),
    ensures
        wf_view(view_after_byte(v, b)),
{
}

/// Every text write keeps the writer state well formed.
pub proof fn lemma_bytes_wf(v: WriterView, s: Seq<u8>)
    requires
        wf_view(v),
    ensures
        wf_view(view_after_bytes(v, s)),
    decreases s.len(),
{
    if s.len() > 0 {
        lemma_byte_wf(v, substituted(s[0]));
        lemma_bytes_wf(view_after_byte(v, substituted(s[0])), s.subrange(1, s.len() as int));
    }
}

/// Law: writes compose — issuing two texts in sequence yields exactly the
/// surface of their concatenation, so the bytes of the second write follow
/// the bytes of the first and never interleave with them.
pub proof fn lemma_writes_compose(v: WriterView, s1: Seq<u8>, s2: Seq<u8>)
    ensures
        view_after_bytes(view_after_bytes(v, s1), s2) == view_after_bytes(v, s1 + s2),
    decreases s1.len(),
{
    if s1.len() == 0 {
        assert(s1 + s2 =~= s2);
    } else {
        assert((s1 + s2)[0] == s1[0]);
        assert((s1 + s2).subrange(1, (s1 + s2).len() as int) =~= s1.subrange(
            1,
            s1.len() as int,
        ) + s2);
        lemma_writes_compose(
            view_after_byte(v, substituted(s1[0])),
            s1.subrange(1, s1.len() as int),
            s2,
        );
    }
}

/// Printable bytes that fit on the current line advance the cursor by one
/// cell each, without a scroll and without changing the attribute.
pub proof fn lemma_printables_advance_column(v: WriterView, s: Seq<u8>)
    requires
        wf_view(v),
        v.column + s.len() <= BUFFER_WIDTH,
        forall|i: int| 0 <= i < s.len() ==> is_printable(#[trigger] s[i]),
    ensures
        view_after_bytes(v, s).column == v.column + s.len(),
        view_after_bytes(v, s).color == v.color,
    decreases s.len(),
{
    if s.len() > 0 {
        let b = s[0];
        assert(is_printable(b));
        lemma_byte_wf(v, b);
        lemma_printables_advance_column(view_after_byte(v, b), s.subrange(1, s.len() as int));
    }
}

/// Law (wrap): from the start of a line, writing `BUFFER_WIDTH + 1` printable
/// bytes produces exactly the state of writing the first `BUFFER_WIDTH`
/// bytes, issuing a line feed, then writing the last byte. In particular a
/// scroll has occurred — the second-to-last row now holds what the last row
/// held after the first `BUFFER_WIDTH` bytes — and the extra byte stands at
/// column 0 of the still-last row, with the cursor one past it.
pub proof fn lemma_wrap_equals_line_feed(v: WriterView, s: Seq<u8>)
    requires
        wf_view(v),
        v.column == 0,
        s.len() == BUFFER_WIDTH + 1,
        forall|i: int| 0 <= i < s.len() ==> is_printable(#[trigger] s[i]),
    ensures
        view_after_bytes(v, s) == view_after_byte(
            view_after_byte(view_after_bytes(v, s.take(BUFFER_WIDTH as int)), NEWLINE),
            s[BUFFER_WIDTH as int],
        ),
        view_after_bytes(v, s).column == 1,
        view_after_bytes(v, s).grid[BUFFER_HEIGHT - 1][0] == (ScreenChar {
            ascii_character: s[BUFFER_WIDTH as int],
            color_code: v.color,
        }),
        view_after_bytes(v, s).grid[BUFFER_HEIGHT - 2] == view_after_bytes(
            v,
            s.take(BUFFER_WIDTH as int),
        ).grid[BUFFER_HEIGHT - 1],
{
    let w = BUFFER_WIDTH as int;
    let head = s.take(w);
    let last = s[w];
    assert(forall|i: int| 0 <= i < head.len() ==> is_printable(#[trigger] head[i]));
    lemma_printables_advance_column(v, head);
    lemma_bytes_wf(v, head);
    let mid = view_after_bytes(v, head);
    assert(s =~= head.push(last));
    lemma_view_after_bytes_push(v, head, last);
    assert(is_printable(last));
    assert(substituted(last) == last);
    assert(view_after_byte(mid, last) == view_after_put(view_after_line_feed(mid), last));
    assert(view_after_byte(mid, NEWLINE) == view_after_line_feed(mid));
    assert(view_after_byte(view_after_line_feed(mid), last) == view_after_put(
        view_after_line_feed(mid),
        last,
    ));
}

/// Law (substitution): writing a byte outside the printable range that is not
/// the line feed stores the substitution glyph, in the writer's current
/// attribute, at the cell the write targets.
pub proof fn lemma_substitution(v: WriterView, b: u8)
    requires
        wf_view(v),
        !is_printable(b),
        b != NEWLINE,
    ensures
        v.column < BUFFER_WIDTH ==> view_after_bytes(v, seq![b]).grid[BUFFER_HEIGHT - 1][v.column]
            == (ScreenChar { ascii_character: UNKNOWN_GLYPH, color_code: v.color }),
        v.column == BUFFER_WIDTH ==> view_after_bytes(v, seq![b]).grid[BUFFER_HEIGHT - 1][0]
            == (ScreenChar { ascii_character: UNKNOWN_GLYPH, color_code: v.color }),
{
    let s = seq![b];
    reveal_with_fuel(view_after_bytes, 2);
    assert(s[0] == b);
    assert(s.subrange(1, s.len() as int) =~= Seq::<u8>::empty());
    assert(substituted(b) == UNKNOWN_GLYPH);
    assert(view_after_bytes(v, s) == view_after_byte(v, UNKNOWN_GLYPH));
    lemma_byte_wf(v, UNKNOWN_GLYPH);
}

/// Law (scroll on blank): a line feed on a surface whose every row is already
/// blank in the writer's current attribute leaves every cell unchanged and
/// returns the cursor to the start of the line.
pub proof fn lemma_scroll_blank(v: WriterView)
    requires
        wf_view(v),
        forall|r: int| 0 <= r < v.grid.len() ==> #[trigger] v.grid[r] == blank_row(v.color),
    ensures
        view_after_byte(v, NEWLINE).grid == v.grid,
        view_after_byte(v, NEWLINE).column == 0,
{
    assert(scrolled(v.grid, v.color) =~~= v.grid);
}

} // verus!
