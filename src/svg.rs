use crate::codec::chars_of;
use crate::render::{border, border_of, dark_at, module_at, side};
use crate::symbol::{QrSymbol, SymbolView};
use vstd::prelude::*;

verus! {

/// Smallest side of the SVG document, in user units.
pub const SVG_MIN_SIZE: usize = 200;

/// The characters of a decimal digit.
pub open spec fn digit_char(d: nat) -> char {
    seq!['0', '1', '2', '3', '4', '5', '6', '7', '8', '9'][d as int]
}

/// The decimal form of a natural number, without leading zeros.
pub open spec fn decimal(v: nat) -> Seq<char>
    decreases v,
{
    if v < 10 {
        seq![digit_char(v)]
    } else {
        decimal(v / 10) + seq![digit_char(v % 10)]
    }
}

/// User units per module: the least that makes the document at least
/// `SVG_MIN_SIZE` wide.
pub open spec fn svg_unit(s: SymbolView, quiet_zone: bool) -> nat {
    ((SVG_MIN_SIZE + side(s, quiet_zone) - 1) / side(s, quiet_zone)) as nat
}

/// Side of the SVG document, in user units.
pub open spec fn svg_size(s: SymbolView, quiet_zone: bool) -> nat {
    (side(s, quiet_zone) * svg_unit(s, quiet_zone)) as nat
}

/// The path of one dark module at (`row`, `col`), `unit` wide.
pub open spec fn cell_path(row: nat, col: nat, unit: nat) -> Seq<char> {
    "M"@ + decimal(col * unit) + " "@ + decimal(row * unit) + "h"@ + decimal(unit) + "v"@ + decimal(unit)
        + "H"@ + decimal(col * unit) + "Z"@
}

/// The paths of the dark modules among the first `k` of row `row`.
pub open spec fn row_path(s: SymbolView, quiet_zone: bool, row: nat, k: nat) -> Seq<char>
    decreases k,
{
    if k == 0 {
        seq![]
    } else {
        row_path(s, quiet_zone, row, (k - 1) as nat) + if dark_at(s, quiet_zone, row as int, k - 1) {
            cell_path(row, (k - 1) as nat, svg_unit(s, quiet_zone))
        } else {
            seq![]
        }
    }
}

/// The paths of the dark modules of the first `k` rows.
pub open spec fn grid_path(s: SymbolView, quiet_zone: bool, k: nat) -> Seq<char>
    decreases k,
{
    if k == 0 {
        seq![]
    } else {
        grid_path(s, quiet_zone, (k - 1) as nat) + row_path(
            s,
            quiet_zone,
            (k - 1) as nat,
            side(s, quiet_zone) as nat,
        )
    }
}

/// The SVG document: a light square of `svg_size` units, and over it one
/// path that draws every dark module as a square of `svg_unit` units.
pub open spec fn svg_document(s: SymbolView, quiet_zone: bool) -> Seq<char> {
    let t = decimal(svg_size(s, quiet_zone));
    "<?xml version=\"1.0\" standalone=\"yes\"?><svg xmlns=\"http://www.w3.org/2000/svg\" version=\"1.1\" width=\""@
        + t + "\" height=\""@ + t + "\" viewBox=\"0 0 "@ + t + " "@ + t
        + "\" shape-rendering=\"crispEdges\"><rect x=\"0\" y=\"0\" width=\""@ + t + "\" height=\""@ + t
        + "\" fill=\"#ffff80\"/><path fill=\"#800000\" d=\""@ + grid_path(
        s,
        quiet_zone,
        side(s, quiet_zone) as nat,
    ) + "\"/></svg>"@
}

/// Appends the characters of `text`.
fn push_text(out: &mut Vec<char>, text: &str)
    ensures
        final(out)@ == old(out)@ + text@,
{
    let mut chars = chars_of(text);
    out.append(&mut chars);
}

fn digit(d: u32) -> (r: char)
    requires
        d < 10,
    ensures
        r == digit_char(d as nat),
{
    let digits: [char; 10] = ['0', '1', '2', '3', '4', '5', '6', '7', '8', '9'];
    proof {
        assert(digits@ =~= seq!['0', '1', '2', '3', '4', '5', '6', '7', '8', '9']);
    }
    digits[d as usize]
}

/// Appends the decimal form of `v`.
pub fn push_decimal(out: &mut Vec<char>, v: u32)
    ensures
        final(out)@ == old(out)@ + decimal(v as nat),
    decreases v,
{
    if v < 10 {
        out.push(digit(v));
    } else {
        push_decimal(out, v / 10);
        out.push(digit(v % 10));
        assert(final(out)@ =~= old(out)@ + decimal(v as nat));
    }
}

fn push_cell(out: &mut Vec<char>, row: u32, col: u32, unit: u32)
    requires
        row * unit <= u32::MAX,
        col * unit <= u32::MAX,
    ensures
        final(out)@ == old(out)@ + cell_path(row as nat, col as nat, unit as nat),
{
    let ghost start = out@;
    push_text(out, "M");
    push_decimal(out, col * unit);
    push_text(out, " ");
    push_decimal(out, row * unit);
    push_text(out, "h");
    push_decimal(out, unit);
    push_text(out, "v");
    push_decimal(out, unit);
    push_text(out, "H");
    push_decimal(out, col * unit);
    push_text(out, "Z");
    assert(out@ =~= start + cell_path(row as nat, col as nat, unit as nat));
}

proof fn lemma_unit_bounds(n: int)
    requires
        21 <= n <= 183,
    ensures
        1 <= (200 + n - 1) / n <= 10,
        n * ((200 + n - 1) / n) <= 1830,
{
    let u = (200 + n - 1) / n;
    let m = (200 + n - 1) % n;
    vstd::arithmetic::div_mod::lemma_fundamental_div_mod(200 + n - 1, n);
    assert(n * u <= 199 + n && n * u > 199);
    assert(u <= 10) by (nonlinear_arith)
        requires
            21 <= n,
            n * u <= 199 + n,
    ;
    assert(u >= 1) by (nonlinear_arith)
        requires
            21 <= n,
            n * u > 199,
    ;
    assert(n * u <= 1830) by (nonlinear_arith)
        requires
            21 <= n <= 183,
            1 <= u <= 10,
    ;
}

proof fn lemma_cell_bounds(k: int, n: int, u: int)
    requires
        0 <= k < n <= 183,
        0 <= u <= 10,
    ensures
        k * u <= 1830,
{
    assert(k * u <= 1830) by (nonlinear_arith)
        requires
            0 <= k < n <= 183,
            0 <= u <= 10,
    ;
}

/// The SVG rendering, in the colours `#800000` (dark) on `#ffff80` (light).
pub fn render_svg(s: &QrSymbol, quiet_zone: bool) -> (r: Vec<char>)
    requires
        s@.wf(),
    ensures
        r@ == svg_document(s@, quiet_zone),
{
    let b = border_of(quiet_zone);
    let n: usize = s.width + 2 * b;
    assert(n == side(s@, quiet_zone));
    proof {
        lemma_unit_bounds(n as int);
    }
    let unit: usize = (SVG_MIN_SIZE + n - 1) / n;
    let size: usize = n * unit;
    let mut out: Vec<char> = Vec::new();
    push_text(
        &mut out,
        "<?xml version=\"1.0\" standalone=\"yes\"?><svg xmlns=\"http://www.w3.org/2000/svg\" version=\"1.1\" width=\"",
    );
    push_decimal(&mut out, size as u32);
    push_text(&mut out, "\" height=\"");
    push_decimal(&mut out, size as u32);
    push_text(&mut out, "\" viewBox=\"0 0 ");
    push_decimal(&mut out, size as u32);
    push_text(&mut out, " ");
    push_decimal(&mut out, size as u32);
    push_text(&mut out, "\" shape-rendering=\"crispEdges\"><rect x=\"0\" y=\"0\" width=\"");
    push_decimal(&mut out, size as u32);
    push_text(&mut out, "\" height=\"");
    push_decimal(&mut out, size as u32);
    push_text(&mut out, "\" fill=\"#ffff80\"/><path fill=\"#800000\" d=\"");
    let ghost head = out@;
    let mut row: usize = 0;
    while row < n
        invariant
            s@.wf(),
            b == border(quiet_zone),
            n == side(s@, quiet_zone),
            unit == svg_unit(s@, quiet_zone),
            1 <= unit <= 10,
            row <= n,
            out@ == head + grid_path(s@, quiet_zone, row as nat),
        decreases n - row,
    {
        let ghost before_row = out@;
        let mut col: usize = 0;
        while col < n
            invariant
                s@.wf(),
                b == border(quiet_zone),
                n == side(s@, quiet_zone),
                unit == svg_unit(s@, quiet_zone),
                1 <= unit <= 10,
                row < n,
                col <= n,
                out@ == before_row + row_path(s@, quiet_zone, row as nat, col as nat),
            decreases n - col,
        {
            let ghost prev = out@;
            if module_at(s, b, row, col) {
                proof {
                    lemma_cell_bounds(row as int, n as int, unit as int);
                    lemma_cell_bounds(col as int, n as int, unit as int);
                }
                push_cell(&mut out, row as u32, col as u32, unit as u32);
            }
            col = col + 1;
            assert(out@ =~= before_row + row_path(s@, quiet_zone, row as nat, col as nat));
        }
        row = row + 1;
        assert(out@ =~= head + grid_path(s@, quiet_zone, row as nat));
    }
    push_text(&mut out, "\"/></svg>");
    assert(size as nat == svg_size(s@, quiet_zone));
    assert(out@ =~= svg_document(s@, quiet_zone));
    out
}

} // verus!
