//! Single-column bordered panel: the title sits in the top border, and
//! content lines are padded so that every line has the same visible width,
//! whatever color codes the content carries.
use vstd::prelude::*;
use crate::ansi::{
    escapes_closed, is_plain, lemma_painted_concat_empty, lemma_painted_concat_expand,
    lemma_painted_concat_push, lemma_painted_concat_visible, lemma_painted_concat_width,
    lemma_pieces_width_append, lemma_plain_width, painted_concat, pieces_closed, pieces_width, repeated,
    visible_width_of,
};
use crate::style::{bold, bold_look, dim, dim_look, emit_plain, paint, visible_width};
use crate::ansi::{lemma_painted_concat_shown, lemma_plain_shown, pieces_shown, plain_look, shown, Piece};
use crate::text::repeat_char;

verus! {

/// Total visible width of every panel line, corners included.
pub const WIDTH: usize = 56;

/// Width available to a content line between the borders and their
/// one-space margins.
pub const CONTENT_WIDTH: usize = WIDTH - 4;

/// Number of dashes that follow the title in the top border.
pub open spec fn top_fill(title: Seq<char>) -> nat {
    if title.len() + 3 <= WIDTH - 2 {
        (WIDTH - 2 - (title.len() + 3)) as nat
    } else {
        0
    }
}

/// The pieces of the top border: a dim corner, the bold title, a dim
/// fill of dashes and a dim closing corner.
pub open spec fn top_pieces(title: Seq<char>) -> Seq<Piece> {
    seq![
        (seq!['╭', '─', ' '], dim_look()),
        (title, bold_look()),
        (seq![' '] + repeated('─', top_fill(title)), dim_look()),
        (seq!['╮'], dim_look()),
    ]
}

/// The bottom border: one dim run of dashes between two corners.
pub open spec fn bottom_pieces() -> Seq<Piece> {
    seq![(seq!['╰'] + repeated('─', (WIDTH - 2) as nat) + seq!['╯'], dim_look())]
}

/// The divider between the head and the body of a panel.
pub open spec fn divider_pieces() -> Seq<Piece> {
    seq![(seq!['├'] + repeated('─', (WIDTH - 2) as nat) + seq!['┤'], dim_look())]
}

/// Spaces that bring a content line to `CONTENT_WIDTH` visible columns.
pub open spec fn line_fill(content: Seq<char>) -> nat {
    if visible_width_of(content) <= CONTENT_WIDTH {
        (CONTENT_WIDTH - visible_width_of(content)) as nat
    } else {
        0
    }
}

/// A content line: dim left border, the content as given, the padding and
/// the dim right border.
pub open spec fn line_pieces(content: Seq<char>) -> Seq<Piece> {
    seq![
        (seq!['│', ' '], dim_look()),
        (content, plain_look()),
        (repeated(' ', line_fill(content)), plain_look()),
        (seq![' ', '│'], dim_look()),
    ]
}

pub fn top(title: &str) -> (out: String)
    requires
        title@.len() + 3 <= usize::MAX,
    ensures
        painted_concat(top_pieces(title@), out@),
{
    let dashes_total: usize = WIDTH - 2;
    let head_len = 1 + 1 + title.unicode_len() + 1;
    let after = dashes_total.saturating_sub(head_len);
    let mut fill = String::from_str(" ");
    let dashes = repeat_char('─', after);
    fill.append(dashes.as_str());
    proof {
        reveal_strlit(" ");
        reveal_strlit("╭─ ");
        reveal_strlit("╮");
        assert("╭─ "@ =~= seq!['╭', '─', ' ']);
        assert("╮"@ =~= seq!['╮']);
        assert(fill@ =~= seq![' '] + repeated('─', top_fill(title@)));
    }
    let p1 = paint(&dim(), "╭─ ");
    let p2 = paint(&bold(), title);
    let p3 = paint(&dim(), fill.as_str());
    let p4 = paint(&dim(), "╮");
    let mut out = String::new();
    let ghost pieces = top_pieces(title@);
    proof {
        lemma_painted_concat_empty();
        lemma_painted_concat_push(pieces.take(0), out@, pieces[0], p1@);
        assert(pieces.take(0).push(pieces[0]) =~= pieces.take(1));
    }
    out.append(p1.as_str());
    proof {
        lemma_painted_concat_push(pieces.take(1), out@, pieces[1], p2@);
        assert(pieces.take(1).push(pieces[1]) =~= pieces.take(2));
    }
    out.append(p2.as_str());
    proof {
        lemma_painted_concat_push(pieces.take(2), out@, pieces[2], p3@);
        assert(pieces.take(2).push(pieces[2]) =~= pieces.take(3));
    }
    out.append(p3.as_str());
    proof {
        lemma_painted_concat_push(pieces.take(3), out@, pieces[3], p4@);
        assert(pieces.take(3).push(pieces[3]) =~= pieces);
    }
    out.append(p4.as_str());
    out
}

pub fn bottom() -> (out: String)
    ensures
        painted_concat(bottom_pieces(), out@),
{
    let mut s = String::from_str("╰");
    let dashes = repeat_char('─', WIDTH - 2);
    s.append(dashes.as_str());
    s.append("╯");
    proof {
        reveal_strlit("╰");
        reveal_strlit("╯");
        assert(s@ =~= bottom_pieces()[0].0);
    }
    let out = paint(&dim(), s.as_str());
    proof {
        lemma_painted_concat_empty();
        lemma_painted_concat_push(Seq::empty(), Seq::empty(), bottom_pieces()[0], out@);
        assert(Seq::<Piece>::empty().push(bottom_pieces()[0]) =~= bottom_pieces());
        assert(Seq::<char>::empty() + out@ =~= out@);
    }
    out
}

pub fn divider() -> (out: String)
    ensures
        painted_concat(divider_pieces(), out@),
{
    let mut s = String::from_str("├");
    let dashes = repeat_char('─', WIDTH - 2);
    s.append(dashes.as_str());
    s.append("┤");
    proof {
        reveal_strlit("├");
        reveal_strlit("┤");
        assert(s@ =~= divider_pieces()[0].0);
    }
    let out = paint(&dim(), s.as_str());
    proof {
        lemma_painted_concat_empty();
        lemma_painted_concat_push(Seq::empty(), Seq::empty(), divider_pieces()[0], out@);
        assert(Seq::<Piece>::empty().push(divider_pieces()[0]) =~= divider_pieces());
        assert(Seq::<char>::empty() + out@ =~= out@);
    }
    out
}

/// A blank line inside the panel (still bordered).
pub fn blank() -> (out: String)
    ensures
        painted_concat(line_pieces(Seq::empty()), out@),
{
    let out = line("");
    proof {
        reveal_strlit("");
        assert(""@ =~= Seq::<char>::empty());
    }
    out
}

/// A content line. `content` may carry styling; the padding is computed
/// from its visible width, not its length. Content wider than the panel is
/// not wrapped.
pub fn line(content: &str) -> (out: String)
    ensures
        painted_concat(line_pieces(content@), out@),
{
    let pad = CONTENT_WIDTH.saturating_sub(visible_width(content));
    let fill = repeat_char(' ', pad);
    proof {
        reveal_strlit("│ ");
        reveal_strlit(" │");
        assert("│ "@ =~= seq!['│', ' ']);
        assert(" │"@ =~= seq![' ', '│']);
    }
    let p1 = paint(&dim(), "│ ");
    let p4 = paint(&dim(), " │");
    let mut out = String::new();
    let ghost pieces = line_pieces(content@);
    proof {
        lemma_painted_concat_empty();
        lemma_painted_concat_push(pieces.take(0), out@, pieces[0], p1@);
        assert(pieces.take(0).push(pieces[0]) =~= pieces.take(1));
    }
    out.append(p1.as_str());
    proof {
        lemma_painted_concat_push(pieces.take(1), out@, pieces[1], content@);
        assert(pieces.take(1).push(pieces[1]) =~= pieces.take(2));
    }
    out.append(content);
    proof {
        lemma_painted_concat_push(pieces.take(2), out@, pieces[2], fill@);
        assert(pieces.take(2).push(pieces[2]) =~= pieces.take(3));
    }
    out.append(fill.as_str());
    proof {
        lemma_painted_concat_push(pieces.take(3), out@, pieces[3], p4@);
        assert(pieces.take(3).push(pieces[3]) =~= pieces);
    }
    out.append(p4.as_str());
    out
}

proof fn lemma_top_width(title: Seq<char>, out: Seq<char>)
    requires
        is_plain(title),
        title.len() + 5 <= WIDTH,
        painted_concat(top_pieces(title), out),
    ensures
        visible_width_of(out) == WIDTH,
        escapes_closed(out),
{
    let p = top_pieces(title);
    lemma_plain_width(p[0].0);
    lemma_plain_width(p[1].0);
    lemma_plain_width(p[2].0);
    lemma_plain_width(p[3].0);
    assert(pieces_closed(p));
    reveal_with_fuel(pieces_width, 5);
    lemma_painted_concat_width(p, out);
}

proof fn lemma_line_width(content: Seq<char>, out: Seq<char>)
    requires
        escapes_closed(content),
        visible_width_of(content) <= CONTENT_WIDTH,
        painted_concat(line_pieces(content), out),
    ensures
        visible_width_of(out) == WIDTH,
        escapes_closed(out),
{
    let p = line_pieces(content);
    lemma_plain_width(p[0].0);
    lemma_plain_width(p[2].0);
    lemma_plain_width(p[3].0);
    assert(pieces_closed(p));
    reveal_with_fuel(pieces_width, 5);
    lemma_painted_concat_width(p, out);
}

proof fn lemma_rule_line_width(pieces: Seq<Piece>, out: Seq<char>)
    requires
        pieces == bottom_pieces() || pieces == divider_pieces(),
        painted_concat(pieces, out),
    ensures
        visible_width_of(out) == WIDTH,
        escapes_closed(out),
{
    lemma_plain_width(pieces[0].0);
    assert(pieces_closed(pieces));
    reveal_with_fuel(pieces_width, 2);
    lemma_painted_concat_width(pieces, out);
}

/// Every line a panel prints has the same visible width, `WIDTH`, whatever
/// styling the terminal applied: the top border (for a title without
/// escape characters that leaves room for the corners), a content line
/// whose content fits in `CONTENT_WIDTH` and leaves no escape sequence
/// open (a blank line is the empty content), the divider and the bottom
/// border.
pub proof fn lemma_panel_lines_align(
    title: Seq<char>,
    content: Seq<char>,
    top_out: Seq<char>,
    line_out: Seq<char>,
    divider_out: Seq<char>,
    bottom_out: Seq<char>,
)
    requires
        is_plain(title),
        title.len() + 5 <= WIDTH,
        escapes_closed(content),
        visible_width_of(content) <= CONTENT_WIDTH,
        painted_concat(top_pieces(title), top_out),
        painted_concat(line_pieces(content), line_out),
        painted_concat(divider_pieces(), divider_out),
        painted_concat(bottom_pieces(), bottom_out),
    ensures
        visible_width_of(top_out) == WIDTH,
        visible_width_of(line_out) == WIDTH,
        visible_width_of(divider_out) == WIDTH,
        visible_width_of(bottom_out) == WIDTH,
{
    lemma_top_width(title, top_out);
    lemma_line_width(content, line_out);
    lemma_rule_line_width(divider_pieces(), divider_out);
    lemma_rule_line_width(bottom_pieces(), bottom_out);
}

/// A blank panel line has the panel's full width.
pub proof fn lemma_blank_width(out: Seq<char>)
    requires
        painted_concat(line_pieces(Seq::empty()), out),
    ensures
        visible_width_of(out) == WIDTH,
{
    lemma_plain_width(Seq::<char>::empty());
    lemma_line_width(Seq::empty(), out);
}

/// Spaces that bring a row made of `inner` to `CONTENT_WIDTH` visible
/// columns.
pub open spec fn row_fill(inner: Seq<Piece>) -> nat {
    if pieces_width(inner) <= CONTENT_WIDTH {
        (CONTENT_WIDTH - pieces_width(inner)) as nat
    } else {
        0
    }
}

/// A content line whose content is the rendering of `inner`, with its line
/// break.
pub open spec fn panel_row(inner: Seq<Piece>) -> Seq<Piece> {
    seq![(seq!['│', ' '], dim_look())] + inner + seq![
        (repeated(' ', row_fill(inner)), plain_look()),
        (seq![' ', '│'], dim_look()),
        ("\n"@, plain_look()),
    ]
}

/// The content line of `content`, the rendering of `inner`, followed by a
/// line break. Every piece of `inner` but the last must end outside an
/// escape sequence, so that the padding follows from the pieces' widths.
pub(crate) fn row_line(content: &str, Ghost(inner): Ghost<Seq<Piece>>) -> (out: String)
    requires
        painted_concat(inner, content@),
        pieces_closed(inner.drop_last()),
    ensures
        painted_concat(panel_row(inner), out@),
{
    let mut out = line(content);
    let ghost pre = seq![(seq!['│', ' '], dim_look())];
    let ghost post = seq![(repeated(' ', row_fill(inner)), plain_look()), (seq![' ', '│'], dim_look())];
    proof {
        lemma_painted_concat_visible(inner, content@);
        assert(line_pieces(content@) =~= pre + seq![(content@, plain_look())] + post);
        lemma_painted_concat_expand(pre, content@, post, inner, out@);
    }
    emit_plain(&mut out, "\n", Ghost(pre + inner + post));
    proof {
        assert((pre + inner + post).push(("\n"@, plain_look())) =~= panel_row(inner));
    }
    out
}

/// A content row of a panel, its line break left out, has the panel's
/// full width whatever styling the terminal applied, when its pieces fit
/// in `CONTENT_WIDTH` and leave no escape sequence open.
pub proof fn lemma_panel_row_aligns(inner: Seq<Piece>, out: Seq<char>)
    requires
        pieces_closed(inner),
        pieces_width(inner) <= CONTENT_WIDTH,
        painted_concat(panel_row(inner).drop_last(), out),
    ensures
        visible_width_of(out) == WIDTH,
{
    let left = seq![(seq!['│', ' '], dim_look())];
    let right = seq![(repeated(' ', row_fill(inner)), plain_look()), (seq![' ', '│'], dim_look())];
    assert(panel_row(inner).drop_last() =~= left + inner + right);
    lemma_plain_width(left[0].0);
    lemma_plain_width(right[0].0);
    lemma_plain_width(right[1].0);
    assert(pieces_closed(left));
    assert(pieces_closed(right));
    reveal_with_fuel(pieces_width, 3);
    lemma_pieces_width_append(left, inner);
    lemma_pieces_width_append(left + inner, right);
    lemma_painted_concat_width(left + inner + right, out);
}

/// What a terminal shows of the bottom border, whatever styling it got:
/// a corner, 54 dashes and a corner, the panel's full width.
pub proof fn lemma_bottom_shown(out: Seq<char>)
    requires
        painted_concat(bottom_pieces(), out),
    ensures
        shown(out) == seq!['╰'] + repeated('─', (WIDTH - 2) as nat) + seq!['╯'],
        visible_width_of(out) == WIDTH,
{
    let p = bottom_pieces();
    lemma_plain_shown(p[0].0);
    assert(pieces_closed(p));
    reveal_with_fuel(pieces_shown, 2);
    assert(p.drop_last() =~= Seq::<Piece>::empty());
    lemma_painted_concat_shown(p, out);
    assert(Seq::<char>::empty() + p[0].0 =~= p[0].0);
    lemma_rule_line_width(p, out);
}

/// What a terminal shows of a blank panel line (what `blank` and
/// `line("")` draw), whatever styling it got: the two borders with 52
/// spaces between their margins.
pub proof fn lemma_blank_shown(out: Seq<char>)
    requires
        painted_concat(line_pieces(Seq::empty()), out),
    ensures
        shown(out) == seq!['│', ' '] + repeated(' ', CONTENT_WIDTH as nat) + seq![' ', '│'],
        visible_width_of(out) == WIDTH,
{
    let p = line_pieces(Seq::empty());
    lemma_plain_shown(p[0].0);
    lemma_plain_shown(p[1].0);
    lemma_plain_shown(p[2].0);
    lemma_plain_shown(p[3].0);
    assert(pieces_closed(p));
    reveal_with_fuel(pieces_shown, 5);
    assert(p.drop_last().drop_last().drop_last().drop_last() =~= Seq::<Piece>::empty());
    lemma_painted_concat_shown(p, out);
    assert(pieces_shown(p) =~= seq!['│', ' '] + repeated(' ', CONTENT_WIDTH as nat) + seq![' ', '│']);
    lemma_blank_width(out);
}

} // verus!
