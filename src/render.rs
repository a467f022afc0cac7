use crate::symbol::{QrSymbol, SymbolView};
use vstd::prelude::*;

verus! {

/// Modules of blank border on each side when the quiet zone is on.
pub const QUIET_ZONE: usize = 3;

/// Width of the blank border on each side.
pub open spec fn border(quiet_zone: bool) -> int {
    if quiet_zone {
        QUIET_ZONE as int
    } else {
        0
    }
}

/// Modules per side of the rendered grid, border included.
pub open spec fn side(s: SymbolView, quiet_zone: bool) -> int {
    s.width + 2 * border(quiet_zone)
}

/// The colour of the module at (`row`, `col`) of the rendered grid.
pub open spec fn dark_at(s: SymbolView, quiet_zone: bool, row: int, col: int) -> bool {
    s.is_dark(row - border(quiet_zone), col - border(quiet_zone))
}

/// Joins lines with a newline between each two, none at the end.
pub open spec fn join_lines(lines: Seq<Seq<char>>) -> Seq<char>
    decreases lines.len(),
{
    if lines.len() == 0 {
        seq![]
    } else if lines.len() == 1 {
        lines[0]
    } else {
        join_lines(lines.drop_last()) + seq!['\n'] + lines.last()
    }
}

/// Concatenates rows into one sequence.
pub open spec fn concat_rows(rows: Seq<Seq<u8>>) -> Seq<u8>
    decreases rows.len(),
{
    if rows.len() == 0 {
        seq![]
    } else {
        concat_rows(rows.drop_last()) + rows.last()
    }
}

/// Rows of `width` items each concatenate to `rows.len() * width` items.
pub proof fn lemma_concat_rows_len(rows: Seq<Seq<u8>>, width: int)
    requires
        forall|i: int| 0 <= i < rows.len() ==> #[trigger] rows[i].len() == width,
    ensures
        concat_rows(rows).len() == rows.len() * width,
    decreases rows.len(),
{
    if rows.len() > 0 {
        let init = rows.drop_last();
        assert forall|i: int| 0 <= i < init.len() implies #[trigger] init[i].len() == width by {
            assert(init[i] == rows[i]);
        }
        lemma_concat_rows_len(init, width);
        assert(concat_rows(rows).len() == (rows.len() - 1) * width + width);
        assert((rows.len() - 1) * width + width == rows.len() * width) by (nonlinear_arith);
    }
}

pub open spec fn ascii_glyph(dark: bool) -> char {
    if dark {
        '#'
    } else {
        ' '
    }
}

/// The lines of the ASCII rendering: one character per module.
pub open spec fn ascii_lines(s: SymbolView, quiet_zone: bool) -> Seq<Seq<char>> {
    Seq::new(
        side(s, quiet_zone) as nat,
        |r: int| Seq::new(side(s, quiet_zone) as nat, |c: int| ascii_glyph(dark_at(s, quiet_zone, r, c))),
    )
}

pub open spec fn upper_half() -> char {
    '\u{2580}'
}

pub open spec fn lower_half() -> char {
    '\u{2584}'
}

pub open spec fn full_block() -> char {
    '\u{2588}'
}

/// The block glyph for a module over another.
pub open spec fn block_glyph(upper: bool, lower: bool) -> char {
    if upper && lower {
        full_block()
    } else if upper {
        upper_half()
    } else if lower {
        lower_half()
    } else {
        ' '
    }
}

/// The lines of the Unicode rendering: each character stands for two modules,
/// one over the other; below the last row of an odd grid, light.
pub open spec fn unicode_lines(s: SymbolView, quiet_zone: bool) -> Seq<Seq<char>> {
    Seq::new(
        ((side(s, quiet_zone) + 1) / 2) as nat,
        |r: int|
            Seq::new(
                side(s, quiet_zone) as nat,
                |c: int| block_glyph(dark_at(s, quiet_zone, 2 * r, c), dark_at(s, quiet_zone, 2 * r + 1, c)),
            ),
    )
}

/// Grayscale intensity of a module: dark is 0, light is 255.
pub open spec fn luma(dark: bool) -> u8 {
    if dark {
        0
    } else {
        255
    }
}

/// The pixel rows of the raster rendering: one pixel per module.
pub open spec fn pixel_rows(s: SymbolView, quiet_zone: bool) -> Seq<Seq<u8>> {
    Seq::new(
        side(s, quiet_zone) as nat,
        |r: int| Seq::new(side(s, quiet_zone) as nat, |c: int| luma(dark_at(s, quiet_zone, r, c))),
    )
}

pub(crate) fn border_of(quiet_zone: bool) -> (r: usize)
    ensures
        r == border(quiet_zone),
{
    if quiet_zone {
        QUIET_ZONE
    } else {
        0
    }
}

/// Colour of a module of the rendered grid, border included.
pub(crate) fn module_at(s: &QrSymbol, b: usize, row: usize, col: usize) -> (r: bool)
    requires
        s@.wf(),
        b <= 3,
    ensures
        r == s@.is_dark(row - b, col - b),
{
    if row < b || col < b {
        false
    } else {
        s.is_dark(row - b, col - b)
    }
}

fn push_ascii_line(out: &mut Vec<char>, s: &QrSymbol, quiet_zone: bool, row: usize)
    requires
        s@.wf(),
        row < side(s@, quiet_zone),
    ensures
        final(out)@ == old(out)@ + ascii_lines(s@, quiet_zone)[row as int],
{
    let b = border_of(quiet_zone);
    let n = s.width + 2 * b;
    let ghost start = out@;
    let ghost line = ascii_lines(s@, quiet_zone)[row as int];
    let mut col: usize = 0;
    while col < n
        invariant
            s@.wf(),
            b == border(quiet_zone),
            n == side(s@, quiet_zone),
            row < n,
            col <= n,
            line == ascii_lines(s@, quiet_zone)[row as int],
            out@ == start + line.take(col as int),
        decreases n - col,
    {
        let d = module_at(s, b, row, col);
        out.push(if d {
            '#'
        } else {
            ' '
        });
        col = col + 1;
        assert(line.take(col as int) =~= line.take(col - 1) + seq![line[col - 1]]);
    }
    assert(line.take(n as int) =~= line);
}

fn push_unicode_line(out: &mut Vec<char>, s: &QrSymbol, quiet_zone: bool, row: usize)
    requires
        s@.wf(),
        row < (side(s@, quiet_zone) + 1) / 2,
    ensures
        final(out)@ == old(out)@ + unicode_lines(s@, quiet_zone)[row as int],
{
    let b = border_of(quiet_zone);
    let n = s.width + 2 * b;
    let ghost start = out@;
    let ghost line = unicode_lines(s@, quiet_zone)[row as int];
    let mut col: usize = 0;
    while col < n
        invariant
            s@.wf(),
            b == border(quiet_zone),
            n == side(s@, quiet_zone),
            row < (n + 1) / 2,
            col <= n,
            line == unicode_lines(s@, quiet_zone)[row as int],
            out@ == start + line.take(col as int),
        decreases n - col,
    {
        let upper = module_at(s, b, 2 * row, col);
        let lower = module_at(s, b, 2 * row + 1, col);
        out.push(
            if upper && lower {
                '\u{2588}'
            } else if upper {
                '\u{2580}'
            } else if lower {
                '\u{2584}'
            } else {
                ' '
            },
        );
        col = col + 1;
        assert(line.take(col as int) =~= line.take(col - 1) + seq![line[col - 1]]);
    }
    assert(line.take(n as int) =~= line);
}

proof fn lemma_join_step(lines: Seq<Seq<char>>, k: int)
    requires
        0 <= k < lines.len(),
    ensures
        join_lines(lines.take(k + 1)) == if k == 0 {
            lines[0]
        } else {
            join_lines(lines.take(k)) + seq!['\n'] + lines[k]
        },
{
    assert(lines.take(k + 1).drop_last() =~= lines.take(k));
    if k == 0 {
        assert(lines.take(1)[0] == lines[0]);
    }
}

/// The ASCII rendering: `'#'` for a dark module, a space for a light one.
pub fn render_ascii(s: &QrSymbol, quiet_zone: bool) -> (r: Vec<char>)
    requires
        s@.wf(),
    ensures
        r@ == join_lines(ascii_lines(s@, quiet_zone)),
{
    let b = border_of(quiet_zone);
    let n = s.width + 2 * b;
    let ghost lines = ascii_lines(s@, quiet_zone);
    let mut out: Vec<char> = Vec::new();
    let mut row: usize = 0;
    while row < n
        invariant
            s@.wf(),
            b == border(quiet_zone),
            n == side(s@, quiet_zone),
            lines == ascii_lines(s@, quiet_zone),
            row <= n,
            out@ == join_lines(lines.take(row as int)),
        decreases n - row,
    {
        proof {
            lemma_join_step(lines, row as int);
        }
        if row > 0 {
            out.push('\n');
        }
        push_ascii_line(&mut out, s, quiet_zone, row);
        row = row + 1;
    }
    assert(lines.take(n as int) =~= lines);
    out
}

/// The Unicode rendering: one block glyph for each two modules, one over the
/// other.
pub fn render_unicode(s: &QrSymbol, quiet_zone: bool) -> (r: Vec<char>)
    requires
        s@.wf(),
    ensures
        r@ == join_lines(unicode_lines(s@, quiet_zone)),
{
    let b = border_of(quiet_zone);
    let n = s.width + 2 * b;
    let h = (n + 1) / 2;
    let ghost lines = unicode_lines(s@, quiet_zone);
    let mut out: Vec<char> = Vec::new();
    let mut row: usize = 0;
    while row < h
        invariant
            s@.wf(),
            b == border(quiet_zone),
            n == side(s@, quiet_zone),
            h == (n + 1) / 2,
            lines == unicode_lines(s@, quiet_zone),
            row <= h,
            out@ == join_lines(lines.take(row as int)),
        decreases h - row,
    {
        proof {
            lemma_join_step(lines, row as int);
        }
        if row > 0 {
            out.push('\n');
        }
        push_unicode_line(&mut out, s, quiet_zone, row);
        row = row + 1;
    }
    assert(lines.take(h as int) =~= lines);
    out
}

/// A grayscale raster, `width` by `height`, pixels row by row.
pub struct GrayImage {
    pub width: u32,
    pub height: u32,
    pub pixels: Vec<u8>,
}

fn push_pixel_row(out: &mut Vec<u8>, s: &QrSymbol, quiet_zone: bool, row: usize)
    requires
        s@.wf(),
        row < side(s@, quiet_zone),
    ensures
        final(out)@ == old(out)@ + pixel_rows(s@, quiet_zone)[row as int],
{
    let b = border_of(quiet_zone);
    let n = s.width + 2 * b;
    let ghost start = out@;
    let ghost line = pixel_rows(s@, quiet_zone)[row as int];
    let mut col: usize = 0;
    while col < n
        invariant
            s@.wf(),
            b == border(quiet_zone),
            n == side(s@, quiet_zone),
            row < n,
            col <= n,
            line == pixel_rows(s@, quiet_zone)[row as int],
            out@ == start + line.take(col as int),
        decreases n - col,
    {
        let d = module_at(s, b, row, col);
        out.push(if d {
            0u8
        } else {
            255u8
        });
        col = col + 1;
        assert(line.take(col as int) =~= line.take(col - 1) + seq![line[col - 1]]);
    }
    assert(line.take(n as int) =~= line);
}

/// The raster rendering: one pixel per module, dark 0 and light 255, on a
/// square as wide as the rendered grid.
pub fn render_pixels(s: &QrSymbol, quiet_zone: bool) -> (r: GrayImage)
    requires
        s@.wf(),
    ensures
        r.width == side(s@, quiet_zone),
        r.height == side(s@, quiet_zone),
        r.pixels@ == concat_rows(pixel_rows(s@, quiet_zone)),
        r.pixels@.len() == r.width * r.height,
{
    let b = border_of(quiet_zone);
    let n = s.width + 2 * b;
    let ghost rows = pixel_rows(s@, quiet_zone);
    let mut out: Vec<u8> = Vec::new();
    let mut row: usize = 0;
    while row < n
        invariant
            s@.wf(),
            b == border(quiet_zone),
            n == side(s@, quiet_zone),
            rows == pixel_rows(s@, quiet_zone),
            row <= n,
            out@ == concat_rows(rows.take(row as int)),
        decreases n - row,
    {
        assert(rows.take(row + 1).drop_last() =~= rows.take(row as int));
        push_pixel_row(&mut out, s, quiet_zone, row);
        row = row + 1;
    }
    assert(rows.take(n as int) =~= rows);
    proof {
        lemma_concat_rows_len(rows, n as int);
    }
    GrayImage { width: n as u32, height: n as u32, pixels: out }
}


/// Every character of the joined text is a newline or a character of one
/// of the lines.
pub proof fn lemma_join_chars(lines: Seq<Seq<char>>, allowed: Set<char>)
    requires
        forall|i: int, j: int|
            0 <= i < lines.len() && 0 <= j < lines[i].len() ==> allowed.contains(#[trigger] lines[i][j]),
    ensures
        forall|k: int|
            0 <= k < join_lines(lines).len() ==> #[trigger] join_lines(lines)[k] == '\n' || allowed.contains(
                join_lines(lines)[k],
            ),
    decreases lines.len(),
{
    if lines.len() > 1 {
        let init = lines.drop_last();
        assert forall|i: int, j: int|
            0 <= i < init.len() && 0 <= j < init[i].len() implies allowed.contains(#[trigger] init[i][j]) by {
            assert(init[i] == lines[i]);
        }
        lemma_join_chars(init, allowed);
        let a = join_lines(init);
        let last = lines.last();
        assert forall|k: int| 0 <= k < join_lines(lines).len() implies #[trigger] join_lines(lines)[k] == '\n'
            || allowed.contains(join_lines(lines)[k]) by {
            if k < a.len() {
                assert(join_lines(lines)[k] == a[k]);
            } else if k > a.len() {
                assert(join_lines(lines)[k] == last[k - a.len() - 1]);
                assert(allowed.contains(lines[lines.len() - 1][k - a.len() - 1]));
            }
        }
    } else if lines.len() == 1 {
        assert forall|k: int| 0 <= k < join_lines(lines).len() implies #[trigger] join_lines(lines)[k] == '\n'
            || allowed.contains(join_lines(lines)[k]) by {
            assert(allowed.contains(lines[0][k]));
        }
    }
}

/// The ASCII rendering of a symbol has as many lines as the symbol has
/// modules per side, six more with the quiet zone, each as long; it holds
/// only `'#'`, spaces, and the newlines between lines.
pub proof fn lemma_ascii_shape(s: SymbolView, quiet_zone: bool)
    requires
        s.wf(),
    ensures
        side(s, quiet_zone) == s.width + if quiet_zone {
            6int
        } else {
            0int
        },
        ascii_lines(s, quiet_zone).len() == side(s, quiet_zone),
        forall|r: int| 0 <= r < side(s, quiet_zone) ==> #[trigger] ascii_lines(s, quiet_zone)[r].len() == side(s, quiet_zone),
        forall|k: int|
            0 <= k < join_lines(ascii_lines(s, quiet_zone)).len() ==> {
                let ch = #[trigger] join_lines(ascii_lines(s, quiet_zone))[k];
                ch == '#' || ch == ' ' || ch == '\n'
            },
{
    let lines = ascii_lines(s, quiet_zone);
    let allowed = set!['#', ' '];
    assert forall|i: int, j: int| 0 <= i < lines.len() && 0 <= j < lines[i].len() implies allowed.contains(
        #[trigger] lines[i][j],
    ) by {
        assert(lines[i][j] == ascii_glyph(dark_at(s, quiet_zone, i, j)));
    }
    lemma_join_chars(lines, allowed);
}

/// The Unicode rendering of a symbol is as wide as the symbol has modules
/// per side, six more with the quiet zone, with a line for each two rows of
/// modules; it holds only the four block glyphs and the newlines between
/// lines.
pub proof fn lemma_unicode_shape(s: SymbolView, quiet_zone: bool)
    requires
        s.wf(),
    ensures
        side(s, quiet_zone) == s.width + if quiet_zone {
            6int
        } else {
            0int
        },
        unicode_lines(s, quiet_zone).len() == (side(s, quiet_zone) + 1) / 2,
        forall|r: int|
            0 <= r < unicode_lines(s, quiet_zone).len() ==> #[trigger] unicode_lines(s, quiet_zone)[r].len() == side(
                s,
                quiet_zone,
            ),
        forall|k: int|
            0 <= k < join_lines(unicode_lines(s, quiet_zone)).len() ==> {
                let ch = #[trigger] join_lines(unicode_lines(s, quiet_zone))[k];
                ch == ' ' || ch == upper_half() || ch == lower_half() || ch == full_block() || ch == '\n'
            },
{
    let lines = unicode_lines(s, quiet_zone);
    let allowed = set![' ', upper_half(), lower_half(), full_block()];
    assert forall|i: int, j: int| 0 <= i < lines.len() && 0 <= j < lines[i].len() implies allowed.contains(
        #[trigger] lines[i][j],
    ) by {
        assert(lines[i][j] == block_glyph(dark_at(s, quiet_zone, 2 * i, j), dark_at(s, quiet_zone, 2 * i + 1, j)));
    }
    lemma_join_chars(lines, allowed);
}

/// The quiet zone adds three light modules on every side: each rendering
/// grows by six modules in both directions (three Unicode lines, which hold
/// two rows each), and the symbol moves three modules right and down.
pub proof fn lemma_quiet_zone_adds_border(s: SymbolView)
    requires
        s.wf(),
    ensures
        side(s, true) == side(s, false) + 6,
        ascii_lines(s, true).len() == ascii_lines(s, false).len() + 6,
        ascii_lines(s, true)[0].len() == ascii_lines(s, false)[0].len() + 6,
        unicode_lines(s, true).len() == unicode_lines(s, false).len() + 3,
        unicode_lines(s, true)[0].len() == unicode_lines(s, false)[0].len() + 6,
        pixel_rows(s, true).len() == pixel_rows(s, false).len() + 6,
        pixel_rows(s, true)[0].len() == pixel_rows(s, false)[0].len() + 6,
        forall|r: int, c: int| #[trigger] dark_at(s, true, r + 3, c + 3) == dark_at(s, false, r, c),
        forall|r: int, c: int|
            0 <= r < side(s, true) && 0 <= c < side(s, true) && (r < 3 || c < 3 || r >= s.width + 3 || c >= s.width
                + 3) ==> !#[trigger] dark_at(s, true, r, c),
{
}

/// Whether a block glyph shows its upper module dark.
pub open spec fn upper_dark(glyph: char) -> bool {
    glyph == full_block() || glyph == upper_half()
}

/// Whether a block glyph shows its lower module dark.
pub open spec fn lower_dark(glyph: char) -> bool {
    glyph == full_block() || glyph == lower_half()
}

/// The ASCII and Unicode renderings show the same modules: a module is `'#'`
/// in the one exactly when the glyph of its pair in the other shows it dark.
pub proof fn lemma_ascii_unicode_agree(s: SymbolView, quiet_zone: bool, row: int, col: int)
    requires
        s.wf(),
        0 <= row < side(s, quiet_zone),
        0 <= col < side(s, quiet_zone),
    ensures
        (ascii_lines(s, quiet_zone)[row][col] == '#') == if row % 2 == 0 {
            upper_dark(unicode_lines(s, quiet_zone)[row / 2][col])
        } else {
            lower_dark(unicode_lines(s, quiet_zone)[row / 2][col])
        },
{
    let h = row / 2;
    assert(h < (side(s, quiet_zone) + 1) / 2);
    assert(row == 2 * h || row == 2 * h + 1);
    assert(unicode_lines(s, quiet_zone)[h][col] == block_glyph(
        dark_at(s, quiet_zone, 2 * h, col),
        dark_at(s, quiet_zone, 2 * h + 1, col),
    ));
}

} // verus!
