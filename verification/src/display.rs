use vstd::prelude::*;

verus! {

/// Rows on the screen.
pub const SCREEN_HEIGHT: u8 = 32;

/// Columns on the screen.
pub const SCREEN_WIDTH: u8 = 64;

/// The monochrome screen, row by row.
pub struct DisplayData {
    pub pixels: [[bool; 64]; 32],
}

impl View for DisplayData {
    type V = Seq<Seq<bool>>;

    /// The rows of the screen, each a sequence of pixels from left to right.
    open spec fn view(&self) -> Seq<Seq<bool>> {
        self.pixels@.map_values(|row: [bool; 64]| row@)
    }
}

/// The text of one row: `on` for each lit pixel and `off` for each dark one.
pub open spec fn row_text(row: Seq<bool>, on: Seq<char>, off: Seq<char>) -> Seq<char>
    decreases row.len(),
{
    if row.len() == 0 {
        Seq::empty()
    } else {
        row_text(row.drop_last(), on, off) + if row.last() {
            on
        } else {
            off
        }
    }
}

/// The text of a screen: each row's text followed by a line break.
pub open spec fn screen_text(rows: Seq<Seq<bool>>, on: Seq<char>, off: Seq<char>) -> Seq<char>
    decreases rows.len(),
{
    if rows.len() == 0 {
        Seq::empty()
    } else {
        screen_text(rows.drop_last(), on, off) + row_text(rows.last(), on, off) + seq!['\n']
    }
}

/// With glyphs of one length, the text of a row has that length for each pixel.
pub proof fn lemma_row_text_len(row: Seq<bool>, on: Seq<char>, off: Seq<char>)
    requires
        on.len() == off.len(),
    ensures
        row_text(row, on, off).len() == row.len() * on.len(),
    decreases row.len(),
{
    if row.len() > 0 {
        lemma_row_text_len(row.drop_last(), on, off);
        let n = row.len() as int;
        let g = on.len() as int;
        assert((n - 1) * g + g == n * g) by (nonlinear_arith);
    }
}

/// With glyphs of one length and rows of `width` pixels, the text of a screen
/// has, for each row, one glyph per pixel and a line break.
pub proof fn lemma_screen_text_len(rows: Seq<Seq<bool>>, width: nat, on: Seq<char>, off: Seq<char>)
    requires
        on.len() == off.len(),
        forall|r: int| 0 <= r < rows.len() ==> (#[trigger] rows[r]).len() == width,
    ensures
        screen_text(rows, on, off).len() == rows.len() * (width * on.len() + 1),
    decreases rows.len(),
{
    if rows.len() > 0 {
        lemma_screen_text_len(rows.drop_last(), width, on, off);
        lemma_row_text_len(rows.last(), on, off);
        let n = rows.len() as int;
        let line = (width * on.len() + 1) as int;
        assert((n - 1) * line + line == n * line) by (nonlinear_arith);
    }
}

/// In the text of a row, the `g` characters from `x * g` on are the glyph of
/// pixel `x`: `on` when it is lit, `off` when it is dark.
pub proof fn lemma_row_text_glyph(row: Seq<bool>, on: Seq<char>, off: Seq<char>, x: int, j: int)
    requires
        on.len() == off.len(),
        0 <= x < row.len(),
        0 <= j < on.len(),
    ensures
        row_text(row, on, off)[x * on.len() + j] == if row[x] {
            on[j]
        } else {
            off[j]
        },
    decreases row.len(),
{
    let g = on.len() as int;
    let n = row.len() as int;
    lemma_row_text_len(row.drop_last(), on, off);
    if x == n - 1 {
        assert(x * g + j - (n - 1) * g == j) by (nonlinear_arith)
            requires
                x == n - 1,
        ;
    } else {
        lemma_row_text_glyph(row.drop_last(), on, off, x, j);
        assert(x * g + j < (n - 1) * g) by (nonlinear_arith)
            requires
                0 <= x < n - 1,
                0 <= j < g,
        ;
    }
}

/// In the text of a screen with rows of `width` pixels, line `y` starts at
/// `y * (width * g + 1)`: the glyph of pixel `x` of row `y` is at `x * g` from
/// there, and the line ends with a line break at `width * g`.
pub proof fn lemma_screen_text_glyph(
    rows: Seq<Seq<bool>>,
    width: nat,
    on: Seq<char>,
    off: Seq<char>,
    y: int,
    x: int,
    j: int,
)
    requires
        on.len() == off.len(),
        forall|r: int| 0 <= r < rows.len() ==> (#[trigger] rows[r]).len() == width,
        0 <= y < rows.len(),
        0 <= x < width,
        0 <= j < on.len(),
    ensures
        screen_text(rows, on, off)[y * (width * on.len() + 1) + x * on.len() + j] == if rows[y][x] {
            on[j]
        } else {
            off[j]
        },
        screen_text(rows, on, off)[y * (width * on.len() + 1) + width * on.len()] == '\n',
    decreases rows.len(),
{
    let g = on.len() as int;
    let w = width as int;
    let line = w * g + 1;
    let n = rows.len() as int;
    lemma_screen_text_len(rows.drop_last(), width, on, off);
    lemma_row_text_len(rows.last(), on, off);
    assert(x * g + j < w * g) by (nonlinear_arith)
        requires
            0 <= x < w,
            0 <= j < g,
    ;
    if y == n - 1 {
        lemma_row_text_glyph(rows.last(), on, off, x, j);
    } else {
        lemma_screen_text_glyph(rows.drop_last(), width, on, off, y, x, j);
        assert(y * line + line <= (n - 1) * line) by (nonlinear_arith)
            requires
                0 <= y < n - 1,
                line >= 1,
        ;
    }
}

impl DisplayData {
    /// A screen with every pixel dark.
    pub fn new() -> (d: DisplayData)
        ensures
            forall|y: int, x: int| 0 <= y < 32 && 0 <= x < 64 ==> !#[trigger] d@[y][x],
    {
        DisplayData { pixels: [[false; 64]; 32] }
    }

    /// Sets the pixel in row `y`, column `x` to `val`.
    pub(crate) fn set_pixel(&mut self, y: usize, x: usize, val: bool)
        requires
            y < 32,
            x < 64,
        ensures
            final(self)@ == old(self)@.update(y as int, old(self)@[y as int].update(x as int, val)),
    {
        self.pixels[y][x] = val;
        assert(final(self)@ =~~= old(self)@.update(y as int, old(self)@[y as int].update(x as int, val)));
    }

    /// Writes the screen as text, `on` for each lit pixel and `off` for each dark
    /// one, with a line break after each row.
    pub fn render(&self, on: &str, off: &str) -> (text: String)
        ensures
            text@ == screen_text(self@, on@, off@),
    {
        let ghost rows = self@;
        let mut scr = String::new();
        let mut y: usize = 0;
        while y < 32
            invariant
                y <= 32,
                rows == self@,
                rows.len() == 32,
                scr@ == screen_text(rows.take(y as int), on@, off@),
            decreases 32 - y,
        {
            let row: [bool; 64] = self.pixels[y];
            let mut line = String::new();
            let mut x: usize = 0;
            while x < 64
                invariant
                    x <= 64,
                    line@ == row_text(row@.take(x as int), on@, off@),
                decreases 64 - x,
            {
                if row[x] {
                    line.append(on);
                } else {
                    line.append(off);
                }
                assert(row@.take(x + 1).drop_last() =~= row@.take(x as int));
                x += 1;
            }
            assert(row@.take(64) =~= row@);
            scr.append(line.as_str());
            let nl = "\n";
            proof {
                reveal_strlit("\n");
            }
            scr.append(nl);
            assert(rows.take(y + 1).drop_last() =~= rows.take(y as int));
            assert(rows.take(y + 1).last() == row@);
            y += 1;
        }
        assert(rows.take(32) =~= rows);
        scr
    }

    /// The frame that the terminal shows: a full block pair for each lit pixel,
    /// two spaces for each dark one.
    pub fn draw(&self) -> (frame: String)
        ensures
            frame@ == screen_text(self@, "██"@, "  "@),
    {
        self.render("██", "  ")
    }
}

} // verus!
