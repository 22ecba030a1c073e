//! Visible width of terminal text that may carry ANSI SGR escape
//! sequences, and the shape of text that a terminal style produces.
use vstd::prelude::*;
use crate::args::decimal;

verus! {

/// The escape character that opens an ANSI sequence.
pub open spec fn esc() -> char {
    '\u{1b}'
}

/// One step of the visible-width scanner. The state is the number of
/// visible characters seen so far and whether the scanner is inside an
/// escape sequence (from an ESC character up to and including the next
/// `m`).
pub open spec fn scan_step(st: (nat, bool), c: char) -> (nat, bool) {
    if st.1 {
        if c == 'm' {
            (st.0, false)
        } else {
            st
        }
    } else if c == esc() {
        (st.0, true)
    } else {
        (st.0 + 1, false)
    }
}

/// The scanner run over a whole sequence, from the state `st`.
pub open spec fn scan(st: (nat, bool), s: Seq<char>) -> (nat, bool)
    decreases s.len(),
{
    if s.len() == 0 {
        st
    } else {
        scan_step(scan(st, s.drop_last()), s.last())
    }
}

/// Number of characters of `s` that a terminal shows: every character
/// outside an escape sequence, the ESC character itself excluded.
pub open spec fn visible_width_of(s: Seq<char>) -> nat {
    scan((0, false), s).0
}

/// `s` does not end inside an unterminated escape sequence.
pub open spec fn escapes_closed(s: Seq<char>) -> bool {
    !scan((0, false), s).1
}

/// `s` holds no escape character at all.
pub open spec fn is_plain(s: Seq<char>) -> bool {
    forall|i: int| 0 <= i < s.len() ==> s[i] != esc()
}

/// A sequence of `n` copies of `c`.
pub open spec fn repeated(c: char, n: nat) -> Seq<char> {
    Seq::new(n, |i: int| c)
}

/// Recognizer for a run of SGR sequences (`ESC [ params m`, params made
/// of digits and `;`). States: 0 between sequences, 1 after ESC, 2 inside
/// the parameters, 3 rejected.
pub open spec fn sgr_step(state: int, c: char) -> int {
    if state == 0 {
        if c == esc() {
            1
        } else {
            3
        }
    } else if state == 1 {
        if c == '[' {
            2
        } else {
            3
        }
    } else if state == 2 {
        if c == 'm' {
            0
        } else if ('0' <= c && c <= '9') || c == ';' {
            2
        } else {
            3
        }
    } else {
        3
    }
}

pub open spec fn sgr_state(s: Seq<char>) -> int
    decreases s.len(),
{
    if s.len() == 0 {
        0
    } else {
        sgr_step(sgr_state(s.drop_last()), s.last())
    }
}

/// A non-empty concatenation of complete SGR sequences.
pub open spec fn is_sgr_run(s: Seq<char>) -> bool {
    s.len() > 0 && sgr_state(s) == 0
}

/// The sequence that resets all terminal attributes: `ESC [ 0 m`.
pub open spec fn reset_code() -> Seq<char> {
    seq![esc(), '[', '0', 'm']
}

/// A color as a console style stores it: one of the eight basic colors,
/// or an entry of the 256-color palette.
pub enum Shade {
    Black,
    Red,
    Green,
    Yellow,
    Blue,
    Magenta,
    Cyan,
    White,
    Palette(u8),
}

/// The number console writes for a color: 0 to 7 for the basic colors,
/// the palette index otherwise.
pub open spec fn shade_number(s: Shade) -> nat {
    match s {
        Shade::Black => 0,
        Shade::Red => 1,
        Shade::Green => 2,
        Shade::Yellow => 3,
        Shade::Blue => 4,
        Shade::Magenta => 5,
        Shade::Cyan => 6,
        Shade::White => 7,
        Shade::Palette(n) => n as nat,
    }
}

/// What a terminal style holds that decides how text is drawn: its
/// foreground and background colors, whether each is the bright variant,
/// and which attributes it carries.
pub struct Look {
    pub fg: Option<Shade>,
    pub bg: Option<Shade>,
    pub fg_bright: bool,
    pub bg_bright: bool,
    pub bold: bool,
    pub dim: bool,
    pub italic: bool,
    pub underlined: bool,
    pub blink: bool,
    pub blink_fast: bool,
    pub reverse: bool,
    pub hidden: bool,
    pub strike_through: bool,
}

/// The look of an empty style: no color, no attribute.
pub open spec fn plain_look() -> Look {
    Look {
        fg: None,
        bg: None,
        fg_bright: false,
        bg_bright: false,
        bold: false,
        dim: false,
        italic: false,
        underlined: false,
        blink: false,
        blink_fast: false,
        reverse: false,
        hidden: false,
        strike_through: false,
    }
}

/// `l` with the foreground `shade`.
pub open spec fn with_fg(l: Look, shade: Shade) -> Look {
    Look { fg: Some(shade), ..l }
}

/// `l` with the background `shade`.
pub open spec fn with_bg(l: Look, shade: Shade) -> Look {
    Look { bg: Some(shade), ..l }
}

/// `l` with the bold attribute.
pub open spec fn with_bold_attr(l: Look) -> Look {
    Look { bold: true, ..l }
}

/// `l` with the dim attribute.
pub open spec fn with_dim_attr(l: Look) -> Look {
    Look { dim: true, ..l }
}

/// One SGR sequence: ESC, `[`, the parameters, `m`.
pub open spec fn sgr(params: Seq<char>) -> Seq<char> {
    seq![esc(), '['] + params + seq!['m']
}

/// The sequence that selects a color: `30 + n` (or `40 + n` for a
/// background) for a basic color, `38;5;n` (or `48;5;n`) for a palette
/// entry, and for a bright basic color the palette entry `n + 8`.
pub open spec fn color_code(shade: Option<Shade>, bright: bool, background: bool) -> Seq<char> {
    match shade {
        None => Seq::empty(),
        Some(s) => {
            let lead: Seq<char> = if background {
                seq!['4', '8', ';', '5', ';']
            } else {
                seq!['3', '8', ';', '5', ';']
            };
            match s {
                Shade::Palette(n) => sgr(lead + decimal(n as nat)),
                _ => if bright {
                    sgr(lead + decimal(shade_number(s) + 8))
                } else {
                    sgr(decimal(shade_number(s) + if background { 40nat } else { 30nat }))
                },
            }
        },
    }
}

/// The sequence of one attribute, when it is set.
pub open spec fn attr_code(set: bool, number: nat) -> Seq<char> {
    if set {
        sgr(decimal(number))
    } else {
        Seq::empty()
    }
}

/// The escape sequences console writes before text drawn in a style of
/// look `l`: the foreground, the background, then the attributes in
/// their order (bold 1, dim 2, italic 3, underlined 4, blink 5, fast
/// blink 6, reverse 7, hidden 8, strike-through 9).
pub open spec fn sgr_codes(l: Look) -> Seq<char> {
    color_code(l.fg, l.fg_bright, false) + color_code(l.bg, l.bg_bright, true)
        + attr_code(l.bold, 1) + attr_code(l.dim, 2) + attr_code(l.italic, 3)
        + attr_code(l.underlined, 4) + attr_code(l.blink, 5) + attr_code(l.blink_fast, 6)
        + attr_code(l.reverse, 7) + attr_code(l.hidden, 8) + attr_code(l.strike_through, 9)
}

/// `out` is `text` drawn in a style of look `l`: the text as it is (when
/// styling is off, or the look writes no sequence), or the look's
/// sequences, the text and the reset sequence.
pub open spec fn painted_as(l: Look, text: Seq<char>, out: Seq<char>) -> bool {
    ||| out == text
    ||| (sgr_codes(l).len() > 0 && out == sgr_codes(l) + text + reset_code())
}

/// `out` is what a terminal style makes of `text`: either `text` itself
/// (styling switched off, or an empty style), or `text` preceded by a run
/// of SGR sequences and followed by the reset sequence.
pub open spec fn painted(text: Seq<char>, out: Seq<char>) -> bool {
    ||| out == text
    ||| {
        let k = out.len() - text.len() - 4;
        &&& k > 0
        &&& is_sgr_run(out.take(k))
        &&& out.subrange(k, k + text.len()) == text
        &&& out.skip(k + text.len()) == reset_code()
    }
}

/// One piece of a line: its text, and the look of the style applied to
/// it (`plain_look()` for text written as it is).
pub type Piece = (Seq<char>, Look);

pub open spec fn piece_rendering(piece: Piece, out: Seq<char>) -> bool {
    painted_as(piece.1, piece.0, out)
}

/// `out` is the concatenation of renderings of `pieces`, in order.
pub open spec fn painted_concat(pieces: Seq<Piece>, out: Seq<char>) -> bool
    decreases pieces.len(),
{
    if pieces.len() == 0 {
        out.len() == 0
    } else {
        exists|k: int|
            0 <= k <= out.len() && piece_rendering(pieces.last(), #[trigger] out.subrange(k, out.len() as int))
                && painted_concat(pieces.drop_last(), out.take(k))
    }
}

/// Sum of the visible widths of the texts of `pieces`.
pub open spec fn pieces_width(pieces: Seq<Piece>) -> nat
    decreases pieces.len(),
{
    if pieces.len() == 0 {
        0
    } else {
        pieces_width(pieces.drop_last()) + visible_width_of(pieces.last().0)
    }
}

/// Every piece's text ends outside an escape sequence.
pub open spec fn pieces_closed(pieces: Seq<Piece>) -> bool {
    forall|i: int| 0 <= i < pieces.len() ==> escapes_closed(#[trigger] pieces[i].0)
}

pub proof fn lemma_scan_concat(st: (nat, bool), a: Seq<char>, b: Seq<char>)
    ensures
        scan(st, a + b) == scan(scan(st, a), b),
    decreases b.len(),
{
    if b.len() == 0 {
        assert(a + b == a);
    } else {
        assert((a + b).drop_last() == a + b.drop_last());
        assert((a + b).last() == b.last());
        lemma_scan_concat(st, a, b.drop_last());
    }
}

pub proof fn lemma_scan_offset(w: nat, e: bool, s: Seq<char>)
    ensures
        scan((w, e), s) == (w + scan((0, e), s).0, scan((0, e), s).1),
    decreases s.len(),
{
    if s.len() > 0 {
        lemma_scan_offset(w, e, s.drop_last());
    }
}

/// Plain text is entirely visible.
pub proof fn lemma_scan_plain(s: Seq<char>)
    requires
        is_plain(s),
    ensures
        scan((0, false), s) == (s.len(), false),
    decreases s.len(),
{
    if s.len() > 0 {
        assert(is_plain(s.drop_last()));
        lemma_scan_plain(s.drop_last());
    }
}

pub proof fn lemma_plain_width(s: Seq<char>)
    requires
        is_plain(s),
    ensures
        visible_width_of(s) == s.len(),
        escapes_closed(s),
{
    lemma_scan_plain(s);
}

/// A run of SGR sequences is invisible and leaves the scanner outside an
/// escape sequence; a partial one leaves it inside.
pub proof fn lemma_sgr_scan(w: nat, s: Seq<char>)
    ensures
        sgr_state(s) == 0 ==> scan((w, false), s) == (w, false),
        (sgr_state(s) == 1 || sgr_state(s) == 2) ==> scan((w, false), s) == (w, true),
        sgr_state(s) == 0 || sgr_state(s) == 1 || sgr_state(s) == 2 || sgr_state(s) == 3,
    decreases s.len(),
{
    if s.len() > 0 {
        lemma_sgr_scan(w, s.drop_last());
    }
}

/// The reset sequence is invisible and always ends outside an escape.
pub proof fn lemma_reset_scan(st: (nat, bool))
    ensures
        scan(st, reset_code()) == (st.0, false),
{
    let r = reset_code();
    assert(r.drop_last().drop_last().drop_last().drop_last() == Seq::<char>::empty());
    assert(r.drop_last().drop_last().drop_last().last() == esc());
    assert(r.drop_last().drop_last().last() == '[');
    assert(r.drop_last().last() == '0');
    assert(r.last() == 'm');
    reveal_with_fuel(scan, 5);
}

/// Styling never changes the visible width of a text, and the styled text
/// of closed text is closed; scanning it from any width just adds the
/// text's width.
pub proof fn lemma_painted_scan(text: Seq<char>, out: Seq<char>, w: nat)
    requires
        painted(text, out),
    ensures
        visible_width_of(out) == visible_width_of(text),
        escapes_closed(text) ==> scan((w, false), out) == (w + visible_width_of(text), false),
{
    lemma_scan_offset(w, false, text);
    lemma_scan_offset(w, false, out);
    if out != text {
        let k = out.len() - text.len() - 4;
        let codes = out.take(k);
        assert(out == codes + text + reset_code());
        lemma_scan_concat((0, false), codes + text, reset_code());
        lemma_scan_concat((0, false), codes, text);
        lemma_sgr_scan(0, codes);
        lemma_reset_scan(scan((0, false), codes + text));
    }
}

/// Appending one rendered piece extends a rendered concatenation.
pub proof fn lemma_painted_concat_push(
    pieces: Seq<Piece>,
    out: Seq<char>,
    piece: Piece,
    piece_out: Seq<char>,
)
    requires
        painted_concat(pieces, out),
        piece_rendering(piece, piece_out),
    ensures
        painted_concat(pieces.push(piece), out + piece_out),
{
    let all = out + piece_out;
    let k = out.len() as int;
    assert(pieces.push(piece).drop_last() == pieces);
    assert(all.take(k) == out);
    assert(all.subrange(k, all.len() as int) == piece_out);
    assert(piece_rendering(pieces.push(piece).last(), all.subrange(k, all.len() as int)));
}

pub proof fn lemma_painted_concat_empty()
    ensures
        painted_concat(Seq::<Piece>::empty(), Seq::<char>::empty()),
{
}

/// The visible width of a rendered line is the sum of the widths of its
/// pieces, whatever styling the terminal applied, as long as no piece
/// leaves an escape sequence open.
pub proof fn lemma_painted_concat_scan(pieces: Seq<Piece>, out: Seq<char>, w: nat)
    requires
        painted_concat(pieces, out),
        pieces_closed(pieces),
    ensures
        scan((w, false), out) == (w + pieces_width(pieces), false),
    decreases pieces.len(),
{
    if pieces.len() == 0 {
        assert(out == Seq::<char>::empty());
    } else {
        let k = choose|k: int|
            0 <= k <= out.len() && piece_rendering(pieces.last(), #[trigger] out.subrange(k, out.len() as int))
                && painted_concat(pieces.drop_last(), out.take(k));
        let head = out.take(k);
        let tail = out.subrange(k, out.len() as int);
        assert(out == head + tail);
        assert(pieces_closed(pieces.drop_last())) by {
            assert forall|i: int| 0 <= i < pieces.drop_last().len() implies escapes_closed(
                #[trigger] pieces.drop_last()[i].0,
            ) by {
                assert(pieces.drop_last()[i] == pieces[i]);
            }
        }
        lemma_painted_concat_scan(pieces.drop_last(), head, w);
        lemma_scan_concat((w, false), head, tail);
        let w2 = w + pieces_width(pieces.drop_last());
        assert(escapes_closed(pieces.last().0)) by {
            assert(pieces.last() == pieces[pieces.len() - 1]);
        }
        lemma_painted_as_shape(pieces.last().1, pieces.last().0, tail);
        lemma_painted_scan(pieces.last().0, tail, w2);
    }
}

/// Width of a rendered line from its pieces.
pub proof fn lemma_painted_concat_width(pieces: Seq<Piece>, out: Seq<char>)
    requires
        painted_concat(pieces, out),
        pieces_closed(pieces),
    ensures
        visible_width_of(out) == pieces_width(pieces),
        escapes_closed(out),
{
    lemma_painted_concat_scan(pieces, out, 0);
}

/// Renderings of two piece lists concatenate to a rendering of the
/// concatenated list.
pub proof fn lemma_painted_concat_append(
    a: Seq<Piece>,
    b: Seq<Piece>,
    x: Seq<char>,
    y: Seq<char>,
)
    requires
        painted_concat(a, x),
        painted_concat(b, y),
    ensures
        painted_concat(a + b, x + y),
    decreases b.len(),
{
    if b.len() == 0 {
        assert(a + b == a);
        assert(y == Seq::<char>::empty());
        assert(x + y == x);
    } else {
        let k = choose|k: int|
            0 <= k <= y.len() && piece_rendering(b.last(), #[trigger] y.subrange(k, y.len() as int))
                && painted_concat(b.drop_last(), y.take(k));
        lemma_painted_concat_append(a, b.drop_last(), x, y.take(k));
        lemma_painted_concat_push(a + b.drop_last(), x + y.take(k), b.last(), y.subrange(k, y.len() as int));
        assert((a + b.drop_last()).push(b.last()) == a + b);
        assert(x + y.take(k) + y.subrange(k, y.len() as int) == x + y);
    }
}

/// A rendering of a concatenated list splits at the boundary between the
/// two lists; the split point is returned.
pub proof fn lemma_painted_concat_split(a: Seq<Piece>, b: Seq<Piece>, out: Seq<char>) -> (k: int)
    requires
        painted_concat(a + b, out),
    ensures
        0 <= k <= out.len(),
        painted_concat(a, out.take(k)),
        painted_concat(b, out.skip(k)),
    decreases b.len(),
{
    if b.len() == 0 {
        assert(a + b == a);
        assert(out.take(out.len() as int) == out);
        assert(out.skip(out.len() as int) == Seq::<char>::empty());
        out.len() as int
    } else {
        let all = a + b;
        assert(all.drop_last() == a + b.drop_last());
        assert(all.last() == b.last());
        let k1 = choose|k: int|
            0 <= k <= out.len() && piece_rendering(all.last(), #[trigger] out.subrange(k, out.len() as int))
                && painted_concat(all.drop_last(), out.take(k));
        let head = out.take(k1);
        let k2 = lemma_painted_concat_split(a, b.drop_last(), head);
        assert(head.take(k2) == out.take(k2));
        lemma_painted_concat_push(b.drop_last(), head.skip(k2), b.last(), out.subrange(k1, out.len() as int));
        assert(b.drop_last().push(b.last()) == b);
        assert(head.skip(k2) + out.subrange(k1, out.len() as int) == out.skip(k2));
        k2
    }
}

/// A rendering of one unstyled piece is the piece's text.
pub proof fn lemma_painted_concat_single_plain(t: Seq<char>, out: Seq<char>)
    requires
        painted_concat(seq![(t, plain_look())], out),
    ensures
        out == t,
{
    let p = seq![(t, plain_look())];
    let k = choose|k: int|
        0 <= k <= out.len() && piece_rendering(p.last(), #[trigger] out.subrange(k, out.len() as int))
            && painted_concat(p.drop_last(), out.take(k));
    assert(p.drop_last().len() == 0);
    assert(out.take(k).len() == 0);
    lemma_plain_look_writes_nothing();
    assert(out == out.take(k) + out.subrange(k, out.len() as int));
}

/// One rendering of a single piece.
pub proof fn lemma_painted_concat_single(piece: Piece, out: Seq<char>)
    requires
        piece_rendering(piece, out),
    ensures
        painted_concat(seq![piece], out),
{
    lemma_painted_concat_push(Seq::empty(), Seq::empty(), piece, out);
    assert(Seq::<Piece>::empty().push(piece) == seq![piece]);
    assert(Seq::<char>::empty() + out == out);
}

/// An unstyled piece whose text is itself a rendering of `inner` can be
/// replaced by `inner`'s pieces.
pub proof fn lemma_painted_concat_expand(
    pre: Seq<Piece>,
    text: Seq<char>,
    post: Seq<Piece>,
    inner: Seq<Piece>,
    out: Seq<char>,
)
    requires
        painted_concat(pre + seq![(text, plain_look())] + post, out),
        painted_concat(inner, text),
    ensures
        painted_concat(pre + inner + post, out),
{
    let k1 = lemma_painted_concat_split(pre + seq![(text, plain_look())], post, out);
    let head = out.take(k1);
    let k2 = lemma_painted_concat_split(pre, seq![(text, plain_look())], head);
    lemma_painted_concat_single_plain(text, head.skip(k2));
    lemma_painted_concat_append(pre, inner, head.take(k2), head.skip(k2));
    lemma_painted_concat_append(pre + inner, post, head.take(k2) + head.skip(k2), out.skip(k1));
    assert(head.take(k2) + head.skip(k2) == head);
    assert(head + out.skip(k1) == out);
}

/// The visible width of a rendered concatenation is the sum of its
/// pieces' widths when every piece but the last ends outside an escape
/// sequence; the last one may leave one open, which only matters to what
/// follows it.
pub proof fn lemma_painted_concat_visible(pieces: Seq<Piece>, out: Seq<char>)
    requires
        painted_concat(pieces, out),
        pieces_closed(pieces.drop_last()),
    ensures
        visible_width_of(out) == pieces_width(pieces),
{
    if pieces.len() == 0 {
        assert(out == Seq::<char>::empty());
    } else {
        let k = choose|k: int|
            0 <= k <= out.len() && piece_rendering(pieces.last(), #[trigger] out.subrange(k, out.len() as int))
                && painted_concat(pieces.drop_last(), out.take(k));
        let head = out.take(k);
        let tail = out.subrange(k, out.len() as int);
        assert(out == head + tail);
        lemma_painted_concat_scan(pieces.drop_last(), head, 0);
        lemma_scan_concat((0, false), head, tail);
        let w2 = pieces_width(pieces.drop_last());
        lemma_scan_offset(w2, false, tail);
        lemma_painted_as_shape(pieces.last().1, pieces.last().0, tail);
        lemma_painted_scan(pieces.last().0, tail, 0);
    }
}

/// A space-padded plain text is plain.
pub proof fn lemma_padded_plain(text: Seq<char>, fill: nat)
    requires
        is_plain(text),
    ensures
        is_plain(text + repeated(' ', fill)),
{
    let s = text + repeated(' ', fill);
    assert forall|i: int| 0 <= i < s.len() implies s[i] != esc() by {
        if i >= text.len() {
            assert(s[i] == ' ');
        }
    }
}

/// The width of a concatenation of piece lists is the sum of their widths.
pub proof fn lemma_pieces_width_append(a: Seq<Piece>, b: Seq<Piece>)
    ensures
        pieces_width(a + b) == pieces_width(a) + pieces_width(b),
        pieces_closed(a) && pieces_closed(b) ==> pieces_closed(a + b),
    decreases b.len(),
{
    if b.len() == 0 {
        assert(a + b =~= a);
    } else {
        lemma_pieces_width_append(a, b.drop_last());
        assert((a + b).drop_last() =~= a + b.drop_last());
        assert((a + b).last() == b.last());
    }
    if pieces_closed(a) && pieces_closed(b) {
        assert forall|i: int| 0 <= i < (a + b).len() implies escapes_closed(#[trigger] (a + b)[i].0) by {
            if i < a.len() {
                assert((a + b)[i] == a[i]);
            } else {
                assert((a + b)[i] == b[i - a.len()]);
            }
        }
    }
}

/// The empty look writes no escape sequence.
pub proof fn lemma_plain_look_writes_nothing()
    ensures
        sgr_codes(plain_look()).len() == 0,
        forall|t: Seq<char>, out: Seq<char>| painted_as(plain_look(), t, out) <==> out == t,
{
    assert(sgr_codes(plain_look()) =~= Seq::<char>::empty());
}

/// A run of complete SGR sequences leaves the recognizer where it found
/// it: between sequences.
proof fn lemma_sgr_state_concat(a: Seq<char>, b: Seq<char>)
    requires
        sgr_state(a) == 0,
    ensures
        sgr_state(a + b) == sgr_state(b),
    decreases b.len(),
{
    if b.len() == 0 {
        assert(a + b =~= a);
    } else {
        lemma_sgr_state_concat(a, b.drop_last());
        assert((a + b).drop_last() =~= a + b.drop_last());
        assert((a + b).last() == b.last());
    }
}

pub open spec fn is_param_char(c: char) -> bool {
    ('0' <= c && c <= '9') || c == ';'
}

proof fn lemma_sgr_params(q: Seq<char>)
    requires
        forall|i: int| 0 <= i < q.len() ==> is_param_char(#[trigger] q[i]),
    ensures
        sgr_state(seq![esc(), '['] + q) == 2,
    decreases q.len(),
{
    let h = seq![esc(), '['];
    if q.len() == 0 {
        assert(h + q =~= h);
        assert(h.drop_last() =~= seq![esc()]);
        assert(seq![esc()].drop_last() =~= Seq::<char>::empty());
        assert(sgr_state(Seq::<char>::empty()) == 0);
        assert(sgr_state(seq![esc()]) == 1);
        assert(sgr_state(h) == 2);
    } else {
        lemma_sgr_params(q.drop_last());
        assert((h + q).drop_last() =~= h + q.drop_last());
        assert((h + q).last() == q.last());
        assert(q.last() == q[q.len() - 1]);
        assert(is_param_char(q.last()));
        assert(sgr_state(h + q) == sgr_step(sgr_state(h + q.drop_last()), q.last()));
    }
}

/// One SGR sequence whose parameters are digits and `;` is complete.
proof fn lemma_sgr_complete(params: Seq<char>)
    requires
        forall|i: int| 0 <= i < params.len() ==> is_param_char(#[trigger] params[i]),
    ensures
        sgr_state(sgr(params)) == 0,
        sgr(params).len() > 0,
{
    lemma_sgr_params(params);
    assert(sgr(params).drop_last() =~= seq![esc(), '['] + params);
}

pub proof fn lemma_decimal_params(n: nat)
    ensures
        forall|i: int| 0 <= i < decimal(n).len() ==> is_param_char(#[trigger] decimal(n)[i]),
    decreases n,
{
    if n >= 10 {
        lemma_decimal_params(n / 10);
        let d = decimal(n / 10);
        assert forall|i: int| 0 <= i < decimal(n).len() implies is_param_char(#[trigger] decimal(n)[i]) by {
            if i < d.len() {
                assert(decimal(n)[i] == d[i]);
            }
        }
    }
}

proof fn lemma_lead_params(lead: Seq<char>, n: nat)
    requires
        forall|i: int| 0 <= i < lead.len() ==> is_param_char(#[trigger] lead[i]),
    ensures
        forall|i: int| 0 <= i < (lead + decimal(n)).len() ==> is_param_char(#[trigger] (lead + decimal(n))[i]),
{
    lemma_decimal_params(n);
    assert forall|i: int| 0 <= i < (lead + decimal(n)).len() implies is_param_char(#[trigger] (lead + decimal(n))[i]) by {
        if i < lead.len() {
            assert((lead + decimal(n))[i] == lead[i]);
        } else {
            assert((lead + decimal(n))[i] == decimal(n)[i - lead.len()]);
        }
    }
}

proof fn lemma_color_code_complete(shade: Option<Shade>, bright: bool, background: bool)
    ensures
        sgr_state(color_code(shade, bright, background)) == 0,
{
    match shade {
        None => {},
        Some(s) => {
            let lead: Seq<char> = if background {
                seq!['4', '8', ';', '5', ';']
            } else {
                seq!['3', '8', ';', '5', ';']
            };
            assert forall|i: int| 0 <= i < lead.len() implies is_param_char(#[trigger] lead[i]) by {}
            match s {
                Shade::Palette(n) => {
                    lemma_lead_params(lead, n as nat);
                    lemma_sgr_complete(lead + decimal(n as nat));
                },
                _ => if bright {
                    lemma_lead_params(lead, shade_number(s) + 8);
                    lemma_sgr_complete(lead + decimal(shade_number(s) + 8));
                } else {
                    lemma_decimal_params(shade_number(s) + if background { 40nat } else { 30nat });
                    lemma_sgr_complete(decimal(shade_number(s) + if background { 40nat } else { 30nat }));
                },
            }
        },
    }
}

proof fn lemma_attr_code_complete(set: bool, number: nat)
    ensures
        sgr_state(attr_code(set, number)) == 0,
{
    if set {
        lemma_decimal_params(number);
        lemma_sgr_complete(decimal(number));
    }
}

proof fn lemma_runs_concat(a: Seq<char>, b: Seq<char>)
    requires
        sgr_state(a) == 0,
        sgr_state(b) == 0,
    ensures
        sgr_state(a + b) == 0,
{
    lemma_sgr_state_concat(a, b);
}

/// The sequences of any look form a run of complete SGR sequences.
proof fn lemma_sgr_codes_complete(l: Look)
    ensures
        sgr_state(sgr_codes(l)) == 0,
{
    lemma_color_code_complete(l.fg, l.fg_bright, false);
    lemma_color_code_complete(l.bg, l.bg_bright, true);
    lemma_attr_code_complete(l.bold, 1);
    lemma_attr_code_complete(l.dim, 2);
    lemma_attr_code_complete(l.italic, 3);
    lemma_attr_code_complete(l.underlined, 4);
    lemma_attr_code_complete(l.blink, 5);
    lemma_attr_code_complete(l.blink_fast, 6);
    lemma_attr_code_complete(l.reverse, 7);
    lemma_attr_code_complete(l.hidden, 8);
    lemma_attr_code_complete(l.strike_through, 9);
    let c1 = color_code(l.fg, l.fg_bright, false);
    let c2 = c1 + color_code(l.bg, l.bg_bright, true);
    lemma_runs_concat(c1, color_code(l.bg, l.bg_bright, true));
    let c3 = c2 + attr_code(l.bold, 1);
    lemma_runs_concat(c2, attr_code(l.bold, 1));
    let c4 = c3 + attr_code(l.dim, 2);
    lemma_runs_concat(c3, attr_code(l.dim, 2));
    let c5 = c4 + attr_code(l.italic, 3);
    lemma_runs_concat(c4, attr_code(l.italic, 3));
    let c6 = c5 + attr_code(l.underlined, 4);
    lemma_runs_concat(c5, attr_code(l.underlined, 4));
    let c7 = c6 + attr_code(l.blink, 5);
    lemma_runs_concat(c6, attr_code(l.blink, 5));
    let c8 = c7 + attr_code(l.blink_fast, 6);
    lemma_runs_concat(c7, attr_code(l.blink_fast, 6));
    let c9 = c8 + attr_code(l.reverse, 7);
    lemma_runs_concat(c8, attr_code(l.reverse, 7));
    let c10 = c9 + attr_code(l.hidden, 8);
    lemma_runs_concat(c9, attr_code(l.hidden, 8));
    lemma_runs_concat(c10, attr_code(l.strike_through, 9));
}

/// Text drawn in a known look has the shape of any styled text.
pub proof fn lemma_painted_as_shape(l: Look, text: Seq<char>, out: Seq<char>)
    requires
        painted_as(l, text, out),
    ensures
        painted(text, out),
{
    if out != text {
        let c = sgr_codes(l);
        lemma_sgr_codes_complete(l);
        let k = out.len() - text.len() - 4;
        assert(k == c.len());
        assert(out.take(k) =~= c);
        assert(out.subrange(k, k + text.len()) =~= text);
        assert(out.skip(k + text.len()) =~= reset_code());
    }
}

/// What a terminal shows of `s` when it starts inside an escape sequence
/// or not: the characters outside escape sequences, and whether `s` ends
/// inside one.
pub open spec fn shown_from(inside: bool, s: Seq<char>) -> (Seq<char>, bool)
    decreases s.len(),
{
    if s.len() == 0 {
        (Seq::empty(), inside)
    } else {
        let prev = shown_from(inside, s.drop_last());
        let c = s.last();
        if prev.1 {
            if c == 'm' {
                (prev.0, false)
            } else {
                prev
            }
        } else if c == esc() {
            (prev.0, true)
        } else {
            (prev.0.push(c), false)
        }
    }
}

/// The text a terminal shows of `s`: `s` with its escape sequences
/// removed.
pub open spec fn shown(s: Seq<char>) -> Seq<char> {
    shown_from(false, s).0
}

/// The shown texts of `pieces`, concatenated.
pub open spec fn pieces_shown(pieces: Seq<Piece>) -> Seq<char>
    decreases pieces.len(),
{
    if pieces.len() == 0 {
        Seq::empty()
    } else {
        pieces_shown(pieces.drop_last()) + shown(pieces.last().0)
    }
}

proof fn lemma_shown_concat(e: bool, a: Seq<char>, b: Seq<char>)
    ensures
        shown_from(e, a + b) == (shown_from(e, a).0 + shown_from(shown_from(e, a).1, b).0, shown_from(
            shown_from(e, a).1,
            b,
        ).1),
    decreases b.len(),
{
    if b.len() == 0 {
        assert(a + b =~= a);
        assert(shown_from(e, a).0 + Seq::<char>::empty() =~= shown_from(e, a).0);
    } else {
        lemma_shown_concat(e, a, b.drop_last());
        assert((a + b).drop_last() =~= a + b.drop_last());
        assert((a + b).last() == b.last());
        let x = shown_from(e, a);
        let y = shown_from(x.1, b.drop_last());
        assert((x.0 + y.0).push(b.last()) =~= x.0 + y.0.push(b.last()));
    }
}

/// Whether `s` ends inside an escape sequence is what the width scanner
/// says.
proof fn lemma_shown_scan_agree(e: bool, w: nat, s: Seq<char>)
    ensures
        shown_from(e, s).1 == scan((w, e), s).1,
    decreases s.len(),
{
    if s.len() > 0 {
        lemma_shown_scan_agree(e, w, s.drop_last());
        lemma_scan_offset(w, e, s.drop_last());
        lemma_scan_offset(w, e, s);
        lemma_shown_scan_agree(e, 0, s.drop_last());
    }
}

proof fn lemma_shown_plain(s: Seq<char>)
    requires
        is_plain(s),
    ensures
        shown_from(false, s) == (s, false),
    decreases s.len(),
{
    if s.len() > 0 {
        assert(is_plain(s.drop_last()));
        lemma_shown_plain(s.drop_last());
        assert(s.drop_last().push(s.last()) =~= s);
    }
}

proof fn lemma_shown_sgr(s: Seq<char>)
    ensures
        sgr_state(s) == 0 ==> shown_from(false, s) == (Seq::<char>::empty(), false),
        (sgr_state(s) == 1 || sgr_state(s) == 2) ==> shown_from(false, s) == (Seq::<char>::empty(), true),
    decreases s.len(),
{
    if s.len() > 0 {
        lemma_shown_sgr(s.drop_last());
    }
}

proof fn lemma_shown_reset(e: bool)
    ensures
        shown_from(e, reset_code()) == (Seq::<char>::empty(), false),
{
    let r = reset_code();
    assert(r.drop_last().drop_last().drop_last().drop_last() =~= Seq::<char>::empty());
    assert(r.drop_last().drop_last().drop_last().last() == esc());
    assert(r.drop_last().drop_last().last() == '[');
    assert(r.drop_last().last() == '0');
    assert(r.last() == 'm');
    reveal_with_fuel(shown_from, 5);
}

/// Drawing closed text in any look shows the text and nothing else.
proof fn lemma_painted_shown(l: Look, text: Seq<char>, out: Seq<char>)
    requires
        painted_as(l, text, out),
        escapes_closed(text),
    ensures
        shown_from(false, out) == (shown(text), false),
{
    lemma_shown_scan_agree(false, 0, text);
    if out != text {
        let c = sgr_codes(l);
        lemma_sgr_codes_complete(l);
        lemma_shown_sgr(c);
        assert(out =~= c + text + reset_code());
        lemma_shown_concat(false, c + text, reset_code());
        lemma_shown_concat(false, c, text);
        lemma_shown_reset(false);
        assert(Seq::<char>::empty() + shown(text) =~= shown(text));
        assert(shown(text) + Seq::<char>::empty() =~= shown(text));
    }
}

/// What a terminal shows of a rendering of closed pieces is the pieces'
/// shown texts one after the other, whatever styling was applied.
pub proof fn lemma_painted_concat_shown(pieces: Seq<Piece>, out: Seq<char>)
    requires
        painted_concat(pieces, out),
        pieces_closed(pieces),
    ensures
        shown(out) == pieces_shown(pieces),
        !shown_from(false, out).1,
    decreases pieces.len(),
{
    if pieces.len() == 0 {
        assert(out == Seq::<char>::empty());
    } else {
        let k = choose|k: int|
            0 <= k <= out.len() && piece_rendering(pieces.last(), #[trigger] out.subrange(k, out.len() as int))
                && painted_concat(pieces.drop_last(), out.take(k));
        let head = out.take(k);
        let tail = out.subrange(k, out.len() as int);
        assert(out == head + tail);
        assert(pieces_closed(pieces.drop_last())) by {
            assert forall|i: int| 0 <= i < pieces.drop_last().len() implies escapes_closed(
                #[trigger] pieces.drop_last()[i].0,
            ) by {
                assert(pieces.drop_last()[i] == pieces[i]);
            }
        }
        assert(escapes_closed(pieces.last().0)) by {
            assert(pieces.last() == pieces[pieces.len() - 1]);
        }
        lemma_painted_concat_shown(pieces.drop_last(), head);
        lemma_shown_concat(false, head, tail);
        lemma_painted_shown(pieces.last().1, pieces.last().0, tail);
    }
}

/// Plain text shows as itself.
pub proof fn lemma_plain_shown(s: Seq<char>)
    requires
        is_plain(s),
    ensures
        shown(s) == s,
        escapes_closed(s),
{
    lemma_shown_plain(s);
    lemma_plain_width(s);
}

} // verus!
