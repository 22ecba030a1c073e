//! Two-column bordered table: a fixed-width label column and a value
//! column; both columns pad by visible width, so styled cells line up.
use vstd::prelude::*;
use crate::ansi::{
    escapes_closed, lemma_painted_concat_empty, lemma_painted_concat_expand,
    lemma_painted_concat_push, lemma_painted_concat_single, lemma_painted_concat_width,
    lemma_painted_scan, lemma_plain_width, painted_concat, piece_rendering, pieces_closed,
    pieces_width, repeated, visible_width_of,
};
use crate::style::{dim, dim_look, emit_plain, paint, visible_width};
use crate::ansi::{lemma_painted_as_shape, plain_look, Piece};
use crate::text::repeat_char;

verus! {

/// A horizontal border: `left`, the first column's dashes, `mid`, the
/// second column's dashes and `right`, all dim.
pub open spec fn border_pieces(left: char, mid: char, right: char, col1: nat, col2: nat) -> Seq<Piece> {
    seq![
        (seq![left] + repeated('─', col1 + 2) + seq![mid] + repeated('─', col2 + 2) + seq![right], dim_look()),
    ]
}

pub open spec fn top_pieces(col1: nat, col2: nat) -> Seq<Piece> {
    border_pieces('╭', '┬', '╮', col1, col2)
}

pub open spec fn bottom_pieces(col1: nat, col2: nat) -> Seq<Piece> {
    border_pieces('╰', '┴', '╯', col1, col2)
}

/// Spaces that bring a cell to `width` visible columns.
pub open spec fn cell_fill(text: Seq<char>, width: nat) -> nat {
    if visible_width_of(text) <= width {
        (width - visible_width_of(text)) as nat
    } else {
        0
    }
}

/// A row: dim borders around the two cells, each cell followed by its
/// padding.
pub open spec fn row_pieces(c1: Seq<char>, col1: nat, c2: Seq<char>, col2: nat) -> Seq<Piece> {
    seq![
        (seq!['│', ' '], dim_look()),
        (c1, plain_look()),
        (repeated(' ', cell_fill(c1, col1)), plain_look()),
        (seq![' ', '│', ' '], dim_look()),
        (c2, plain_look()),
        (repeated(' ', cell_fill(c2, col2)), plain_look()),
        (seq![' ', '│'], dim_look()),
    ]
}

fn border(left: &str, mid: &str, right: &str, col1: usize, col2: usize) -> (out: String)
    requires
        col1 + 2 <= usize::MAX,
        col2 + 2 <= usize::MAX,
    ensures
        painted_concat(
            seq![(left@ + repeated('─', (col1 + 2) as nat) + mid@ + repeated('─', (col2 + 2) as nat) + right@, dim_look())],
            out@,
        ),
{
    let mut s = String::from_str(left);
    let d1 = repeat_char('─', col1 + 2);
    s.append(d1.as_str());
    s.append(mid);
    let d2 = repeat_char('─', col2 + 2);
    s.append(d2.as_str());
    s.append(right);
    let out = paint(&dim(), s.as_str());
    let ghost piece = (left@ + repeated('─', (col1 + 2) as nat) + mid@ + repeated('─', (col2 + 2) as nat)
        + right@, dim_look());
    proof {
        assert(s@ =~= piece.0);
        lemma_painted_concat_empty();
        lemma_painted_concat_push(Seq::empty(), Seq::empty(), piece, out@);
        assert(Seq::<Piece>::empty().push(piece) =~= seq![piece]);
        assert(Seq::<char>::empty() + out@ =~= out@);
    }
    out
}

pub fn top(col1: usize, col2: usize) -> (out: String)
    requires
        col1 + 2 <= usize::MAX,
        col2 + 2 <= usize::MAX,
    ensures
        painted_concat(top_pieces(col1 as nat, col2 as nat), out@),
{
    proof {
        reveal_strlit("╭");
        reveal_strlit("┬");
        reveal_strlit("╮");
        assert("╭"@ =~= seq!['╭']);
        assert("┬"@ =~= seq!['┬']);
        assert("╮"@ =~= seq!['╮']);
    }
    border("╭", "┬", "╮", col1, col2)
}

pub fn bottom(col1: usize, col2: usize) -> (out: String)
    requires
        col1 + 2 <= usize::MAX,
        col2 + 2 <= usize::MAX,
    ensures
        painted_concat(bottom_pieces(col1 as nat, col2 as nat), out@),
{
    proof {
        reveal_strlit("╰");
        reveal_strlit("┴");
        reveal_strlit("╯");
        assert("╰"@ =~= seq!['╰']);
        assert("┴"@ =~= seq!['┴']);
        assert("╯"@ =~= seq!['╯']);
    }
    border("╰", "┴", "╯", col1, col2)
}

/// One table row. Both cells may carry styling; each is padded from its
/// visible width.
pub fn row(col1_text: &str, col1: usize, col2_text: &str, col2: usize) -> (out: String)
    ensures
        painted_concat(row_pieces(col1_text@, col1 as nat, col2_text@, col2 as nat), out@),
{
    let pad1 = col1.saturating_sub(visible_width(col1_text));
    let pad2 = col2.saturating_sub(visible_width(col2_text));
    let fill1 = repeat_char(' ', pad1);
    let fill2 = repeat_char(' ', pad2);
    proof {
        reveal_strlit("│ ");
        reveal_strlit(" │ ");
        reveal_strlit(" │");
        assert("│ "@ =~= seq!['│', ' ']);
        assert(" │ "@ =~= seq![' ', '│', ' ']);
        assert(" │"@ =~= seq![' ', '│']);
    }
    let left = paint(&dim(), "│ ");
    let mid = paint(&dim(), " │ ");
    let right = paint(&dim(), " │");
    let ghost pieces = row_pieces(col1_text@, col1 as nat, col2_text@, col2 as nat);
    let mut out = String::new();
    proof {
        lemma_painted_concat_empty();
        lemma_painted_concat_push(pieces.take(0), out@, pieces[0], left@);
        assert(pieces.take(0).push(pieces[0]) =~= pieces.take(1));
    }
    out.append(left.as_str());
    proof {
        lemma_painted_concat_push(pieces.take(1), out@, pieces[1], col1_text@);
        assert(pieces.take(1).push(pieces[1]) =~= pieces.take(2));
    }
    out.append(col1_text);
    proof {
        lemma_painted_concat_push(pieces.take(2), out@, pieces[2], fill1@);
        assert(pieces.take(2).push(pieces[2]) =~= pieces.take(3));
    }
    out.append(fill1.as_str());
    proof {
        lemma_painted_concat_push(pieces.take(3), out@, pieces[3], mid@);
        assert(pieces.take(3).push(pieces[3]) =~= pieces.take(4));
    }
    out.append(mid.as_str());
    proof {
        lemma_painted_concat_push(pieces.take(4), out@, pieces[4], col2_text@);
        assert(pieces.take(4).push(pieces[4]) =~= pieces.take(5));
    }
    out.append(col2_text);
    proof {
        lemma_painted_concat_push(pieces.take(5), out@, pieces[5], fill2@);
        assert(pieces.take(5).push(pieces[5]) =~= pieces.take(6));
    }
    out.append(fill2.as_str());
    proof {
        lemma_painted_concat_push(pieces.take(6), out@, pieces[6], right@);
        assert(pieces.take(6).push(pieces[6]) =~= pieces);
    }
    out.append(right.as_str());
    out
}

proof fn lemma_border_width(pieces: Seq<Piece>, col1: nat, col2: nat, out: Seq<char>)
    requires
        pieces == top_pieces(col1, col2) || pieces == bottom_pieces(col1, col2),
        painted_concat(pieces, out),
    ensures
        visible_width_of(out) == col1 + col2 + 7,
{
    lemma_plain_width(pieces[0].0);
    assert(pieces_closed(pieces));
    reveal_with_fuel(pieces_width, 2);
    lemma_painted_concat_width(pieces, out);
}

/// The wider of a column's width and its cell's width.
pub open spec fn spread(col: nat, cell: nat) -> nat {
    if cell <= col {
        col
    } else {
        cell
    }
}

/// A row is as wide as its two columns plus its borders, a cell wider
/// than its column widening the row by the excess (the cell is never
/// cut), whatever styling the terminal applied, as long as neither cell
/// leaves an escape sequence open.
pub proof fn lemma_row_width(c1: Seq<char>, col1: nat, c2: Seq<char>, col2: nat, out: Seq<char>)
    requires
        escapes_closed(c1),
        escapes_closed(c2),
        painted_concat(row_pieces(c1, col1, c2, col2), out),
    ensures
        visible_width_of(out) == spread(col1, visible_width_of(c1)) + spread(col2, visible_width_of(c2)) + 7,
{
    let p = row_pieces(c1, col1, c2, col2);
    lemma_plain_width(p[0].0);
    lemma_plain_width(p[2].0);
    lemma_plain_width(p[3].0);
    lemma_plain_width(p[5].0);
    lemma_plain_width(p[6].0);
    assert(pieces_closed(p));
    reveal_with_fuel(pieces_width, 8);
    lemma_painted_concat_width(p, out);
}

/// Every line of a table has the same visible width, `col1 + col2 + 7`,
/// whatever styling the terminal applied: the top and bottom borders, and
/// any row whose cells fit their columns and leave no escape sequence
/// open.
pub proof fn lemma_table_lines_align(
    col1: nat,
    col2: nat,
    c1: Seq<char>,
    c2: Seq<char>,
    top_out: Seq<char>,
    row_out: Seq<char>,
    bottom_out: Seq<char>,
)
    requires
        escapes_closed(c1),
        escapes_closed(c2),
        visible_width_of(c1) <= col1,
        visible_width_of(c2) <= col2,
        painted_concat(top_pieces(col1, col2), top_out),
        painted_concat(row_pieces(c1, col1, c2, col2), row_out),
        painted_concat(bottom_pieces(col1, col2), bottom_out),
    ensures
        visible_width_of(top_out) == col1 + col2 + 7,
        visible_width_of(row_out) == col1 + col2 + 7,
        visible_width_of(bottom_out) == col1 + col2 + 7,
{
    lemma_border_width(top_pieces(col1, col2), col1, col2, top_out);
    lemma_border_width(bottom_pieces(col1, col2), col1, col2, bottom_out);
    lemma_row_width(c1, col1, c2, col2, row_out);
}

/// A row whose value cell is the rendering of `value`, with its line
/// break. A single styled piece is exactly as wide as its text, so the
/// padding follows from the text.
pub open spec fn table_row(label: Seq<char>, col1: nat, value: Piece, col2: nat) -> Seq<Piece> {
    seq![
        (seq!['│', ' '], dim_look()),
        (label, plain_look()),
        (repeated(' ', cell_fill(label, col1)), plain_look()),
        (seq![' ', '│', ' '], dim_look()),
        value,
        (repeated(' ', cell_fill(value.0, col2)), plain_look()),
        (seq![' ', '│'], dim_look()),
        ("\n"@, plain_look()),
    ]
}

/// The pieces of a row before and after its value cell.
pub open spec fn row_head(label: Seq<char>, col1: nat) -> Seq<Piece> {
    seq![
        (seq!['│', ' '], dim_look()),
        (label, plain_look()),
        (repeated(' ', cell_fill(label, col1)), plain_look()),
        (seq![' ', '│', ' '], dim_look()),
    ]
}

pub open spec fn row_tail(value: Piece, col2: nat) -> Seq<Piece> {
    seq![(repeated(' ', cell_fill(value.0, col2)), plain_look()), (seq![' ', '│'], dim_look())]
}

/// A row drawn with the rendering of a value in its value cell is a
/// rendering of the row with the value's own piece there.
proof fn lemma_row_with_value(label: Seq<char>, col1: nat, rendered: Seq<char>, col2: nat, value: Piece, out: Seq<char>)
    requires
        piece_rendering(value, rendered),
        painted_concat(row_pieces(label, col1, rendered, col2), out),
    ensures
        painted_concat(row_head(label, col1) + seq![value] + row_tail(value, col2), out),
{
    assert(visible_width_of(rendered) == visible_width_of(value.0)) by {
        lemma_painted_as_shape(value.1, value.0, rendered);
        lemma_painted_scan(value.0, rendered, 0);
    }
    assert(row_pieces(label, col1, rendered, col2) =~= row_head(label, col1) + seq![(rendered, plain_look())] + row_tail(value, col2));
    lemma_painted_concat_single(value, rendered);
    lemma_painted_concat_expand(row_head(label, col1), rendered, row_tail(value, col2), seq![value], out);
}

/// The row of `label` and `rendered`, the rendering of `value`, followed
/// by a line break.
pub(crate) fn row_line(label: &str, col1: usize, rendered: &str, col2: usize, Ghost(value): Ghost<Piece>) -> (out: String)
    requires
        piece_rendering(value, rendered@),
    ensures
        painted_concat(table_row(label@, col1 as nat, value, col2 as nat), out@),
{
    let mut out = row(label, col1, rendered, col2);
    let ghost parts = row_head(label@, col1 as nat) + seq![value] + row_tail(value, col2 as nat);
    proof {
        lemma_row_with_value(label@, col1 as nat, rendered@, col2 as nat, value, out@);
    }
    emit_plain(&mut out, "\n", Ghost(parts));
    proof {
        assert(parts.push(("\n"@, plain_look())) =~= table_row(label@, col1 as nat, value, col2 as nat));
    }
    out
}

} // verus!
