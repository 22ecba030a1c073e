//! Terminal styling: colored marks, labels and rules, plus the bordered
//! panel and table layouts in the submodules.
use vstd::prelude::*;
use crate::ansi::{
    lemma_painted_concat_append, lemma_painted_concat_push, painted_as, painted_concat, piece_rendering,
    plain_look, repeated, scan, visible_width_of, with_bg, with_bold_attr, with_dim_attr, with_fg, Look,
    Piece, Shade,
};
use crate::text::repeat_char;
use console::Style;

pub mod panel;
pub mod table;

verus! {

#[verifier::external_type_specification]
#[verifier::external_body]
pub struct ExStyle(console::Style);

/// What `style` holds, as `Look` describes it: its foreground and
/// background colors, their bright flags and its attributes (the forced
/// on/off setting and the stderr target only decide whether colors are
/// written at all, which `paint` leaves open).
pub uninterp spec fn style_look(style: console::Style) -> Look;

/// Dim, no color.
pub open spec fn dim_look() -> Look {
    with_dim_attr(plain_look())
}

/// Bold, no color.
pub open spec fn bold_look() -> Look {
    with_bold_attr(plain_look())
}

/// A cyan foreground.
pub open spec fn value_look() -> Look {
    with_fg(plain_look(), Shade::Cyan)
}

/// Bold green.
pub open spec fn ok_look() -> Look {
    with_bold_attr(with_fg(plain_look(), Shade::Green))
}

/// Bold yellow.
pub open spec fn warn_look() -> Look {
    with_bold_attr(with_fg(plain_look(), Shade::Yellow))
}

/// Bold red.
pub open spec fn err_look() -> Look {
    with_bold_attr(with_fg(plain_look(), Shade::Red))
}

/// `console::Style::new`: an empty style.
pub assume_specification[ console::Style::new ]() -> (r: console::Style)
    ensures
        style_look(r) == plain_look(),
;

/// Adds the bold attribute, through `console::Style::bold`, which inserts
/// it into the style's attributes and changes nothing else.
#[verifier::external_body]
fn with_bold(style: Style) -> (r: Style)
    ensures
        style_look(r) == with_bold_attr(style_look(style)),
{
    style.bold()
}

/// Adds the dim attribute, through `console::Style::dim`, which inserts it
/// into the style's attributes and changes nothing else.
#[verifier::external_body]
fn with_dim(style: Style) -> (r: Style)
    ensures
        style_look(r) == with_dim_attr(style_look(style)),
{
    style.dim()
}

/// `console::Style::cyan`: sets a cyan foreground, nothing else.
pub assume_specification[ console::Style::cyan ](style: console::Style) -> (r: console::Style)
    ensures
        style_look(r) == with_fg(style_look(style), Shade::Cyan),
;

/// `console::Style::green`: sets a green foreground, nothing else.
pub assume_specification[ console::Style::green ](style: console::Style) -> (r: console::Style)
    ensures
        style_look(r) == with_fg(style_look(style), Shade::Green),
;

/// `console::Style::yellow`: sets a yellow foreground, nothing else.
pub assume_specification[ console::Style::yellow ](style: console::Style) -> (r: console::Style)
    ensures
        style_look(r) == with_fg(style_look(style), Shade::Yellow),
;

/// `console::Style::red`: sets a red foreground, nothing else.
pub assume_specification[ console::Style::red ](style: console::Style) -> (r: console::Style)
    ensures
        style_look(r) == with_fg(style_look(style), Shade::Red),
;

/// `console::Style::black`: sets a black foreground, nothing else.
pub assume_specification[ console::Style::black ](style: console::Style) -> (r: console::Style)
    ensures
        style_look(r) == with_fg(style_look(style), Shade::Black),
;

/// `console::Style::white`: sets a white foreground, nothing else.
pub assume_specification[ console::Style::white ](style: console::Style) -> (r: console::Style)
    ensures
        style_look(r) == with_fg(style_look(style), Shade::White),
;

/// `console::Style::on_color256`: sets a background from the 256-color
/// palette, nothing else.
pub assume_specification[ console::Style::on_color256 ](style: console::Style, color: u8) -> (r: console::Style)
    ensures
        style_look(r) == with_bg(style_look(style), Shade::Palette(color)),
;

/// Renders `text` under `style` through `console::Style::apply_to` and the
/// `Display` of the styled object. Whether escape sequences are written
/// depends on the terminal and the environment of the process (console
/// checks whether colors are enabled), so the contract states what every
/// outcome is, as console's source shows it: the text unchanged, or the
/// sequences of the style's colors and attributes, the text, and
/// `ESC [ 0 m`.
#[verifier::external_body]
pub(crate) fn paint(style: &Style, text: &str) -> (out: String)
    ensures
        painted_as(style_look(*style), text@, out@),
{
    style.apply_to(text).to_string()
}

/// Bold, no color: titles and emphasized figures.
pub fn bold() -> (s: Style)
    ensures
        style_look(s) == bold_look(),
{
    with_bold(Style::new())
}

/// Dim, no color: borders and secondary text.
pub fn dim() -> (s: Style)
    ensures
        style_look(s) == dim_look(),
{
    with_dim(Style::new())
}

/// Dim, no color: field labels.
pub fn label() -> (s: Style)
    ensures
        style_look(s) == dim_look(),
{
    with_dim(Style::new())
}

/// Cyan foreground: the values a report names.
pub fn value() -> (s: Style)
    ensures
        style_look(s) == value_look(),
{
    Style::new().cyan()
}

/// Bold green: a clean result.
pub fn ok_style() -> (s: Style)
    ensures
        style_look(s) == ok_look(),
{
    with_bold(Style::new().green())
}

/// Bold yellow: a result that needs attention.
pub fn warn_style() -> (s: Style)
    ensures
        style_look(s) == warn_look(),
{
    with_bold(Style::new().yellow())
}

/// Bold red: a hard failure.
pub fn err_style() -> (s: Style)
    ensures
        style_look(s) == err_look(),
{
    with_bold(Style::new().red())
}

/// Visible width of `s`: its characters, skipping ANSI escape sequences
/// (from ESC up to and including the next `m`), so that padding a line
/// with colored text still lines up.
pub fn visible_width(s: &str) -> (width: usize)
    ensures
        width == visible_width_of(s@),
{
    let n = s.unicode_len();
    let mut width: usize = 0;
    let mut in_escape = false;
    for c in it: s.chars()
        invariant
            n == s@.len(),
            it.seq() == s@,
            (width as nat, in_escape) == scan((0, false), it.seq().take(it.index())),
            width <= it.index(),
    {
        assert(it.seq().take(it.index() + 1).drop_last() == it.seq().take(it.index()));
        if in_escape {
            if c == 'm' {
                in_escape = false;
            }
        } else if c == '\u{1b}' {
            in_escape = true;
        } else {
            width = width + 1;
        }
    }
    assert(s@.take(s@.len() as int) == s@);
    width
}


/// The kind of status chip `badge` draws.
pub enum Badge {
    Success,
    Warn,
    Failure,
}

/// `text` left-aligned in a field of `width` characters (what the
/// `{:<width$}` format gives).
pub open spec fn pad_right(text: Seq<char>, width: nat) -> Seq<char> {
    if text.len() < width {
        text + repeated(' ', (width - text.len()) as nat)
    } else {
        text
    }
}

/// A status chip: the text with one space on each side, under a style
/// with a filled background whose color depends on `kind`.
/// The look of a badge of `kind`: bold, black on green for success, black
/// on amber for a warning, white on red for a failure (256-color palette
/// entries 84, 220 and 160).
pub open spec fn badge_look(kind: Badge) -> Look {
    match kind {
        Badge::Success => with_bold_attr(with_bg(with_fg(plain_look(), Shade::Black), Shade::Palette(84))),
        Badge::Warn => with_bold_attr(with_bg(with_fg(plain_look(), Shade::Black), Shade::Palette(220))),
        Badge::Failure => with_bold_attr(with_bg(with_fg(plain_look(), Shade::White), Shade::Palette(160))),
    }
}

pub fn badge(text: &str, kind: Badge) -> (out: String)
    ensures
        painted_as(badge_look(kind), seq![' '] + text@ + seq![' '], out@),
{
    let mut padded = String::from_str(" ");
    padded.append(text);
    padded.append(" ");
    proof {
        reveal_strlit(" ");
    }
    let style = match kind {
        Badge::Success => with_bold(Style::new().black().on_color256(84)),
        Badge::Warn => with_bold(Style::new().black().on_color256(220)),
        Badge::Failure => with_bold(Style::new().white().on_color256(160)),
    };
    let out = paint(&style, padded.as_str());
    proof {
        assert(padded@ =~= seq![' '] + text@ + seq![' ']);
    }
    out
}

/// `✓` in green: a clean or passing result.
pub fn ok_mark() -> (out: String)
    ensures
        painted_as(ok_look(), seq!['✓'], out@),
{
    let out = paint(&ok_style(), "✓");
    proof {
        reveal_strlit("✓");
        assert("✓"@ =~= seq!['✓']);
    }
    out
}

/// `⚠` in yellow: a result that needs attention.
pub fn warn_mark() -> (out: String)
    ensures
        painted_as(warn_look(), seq!['⚠'], out@),
{
    let out = paint(&warn_style(), "⚠");
    proof {
        reveal_strlit("⚠");
        assert("⚠"@ =~= seq!['⚠']);
    }
    out
}

/// `✗` in red: a hard failure.
pub fn err_mark() -> (out: String)
    ensures
        painted_as(err_look(), seq!['✗'], out@),
{
    let out = paint(&err_style(), "✗");
    proof {
        reveal_strlit("✗");
        assert("✗"@ =~= seq!['✗']);
    }
    out
}

/// A dim horizontal rule of `width` box-drawing dashes.
pub fn rule(width: usize) -> (out: String)
    ensures
        painted_as(dim_look(), repeated('─', width as nat), out@),
{
    let line = repeat_char('─', width);
    paint(&dim(), line.as_str())
}

/// A bold section title.
pub fn title(text: &str) -> (out: String)
    ensures
        painted_as(bold_look(), text@, out@),
{
    paint(&bold(), text)
}

/// A dimmed field label, padded with spaces to `pad_to` characters.
pub fn field(text: &str, pad_to: usize) -> (out: String)
    ensures
        painted_as(dim_look(), pad_right(text@, pad_to as nat), out@),
{
    let n = text.unicode_len();
    let mut padded = String::from_str(text);
    if n < pad_to {
        let fill = repeat_char(' ', pad_to - n);
        padded.append(fill.as_str());
    }
    paint(&label(), padded.as_str())
}


/// Appends the rendering of one piece.
pub(crate) fn emit(out: &mut String, rendered: &str, Ghost(doc): Ghost<Seq<Piece>>, Ghost(piece): Ghost<Piece>)
    requires
        painted_concat(doc, old(out)@),
        piece_rendering(piece, rendered@),
    ensures
        painted_concat(doc.push(piece), final(out)@),
{
    proof {
        lemma_painted_concat_push(doc, out@, piece, rendered@);
    }
    out.append(rendered);
}

/// Appends text as it is.
pub(crate) fn emit_plain(out: &mut String, text: &str, Ghost(doc): Ghost<Seq<Piece>>)
    requires
        painted_concat(doc, old(out)@),
    ensures
        painted_concat(doc.push((text@, plain_look())), final(out)@),
{
    emit(out, text, Ghost(doc), Ghost((text@, plain_look())));
}

/// Appends the rendering of several pieces.
pub(crate) fn emit_all(out: &mut String, rendered: &str, Ghost(doc): Ghost<Seq<Piece>>, Ghost(pieces): Ghost<Seq<Piece>>)
    requires
        painted_concat(doc, old(out)@),
        painted_concat(pieces, rendered@),
    ensures
        painted_concat(doc + pieces, final(out)@),
{
    proof {
        lemma_painted_concat_append(doc, pieces, out@, rendered@);
    }
    out.append(rendered);
}

} // verus!
