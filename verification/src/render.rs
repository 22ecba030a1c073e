//! Layout of free text inside fixed-width terminal output.
use vstd::prelude::*;
use crate::text::{is_word, lemma_whitespace_words_are_words, split_whitespace, whitespace_words, is_white_space};
use crate::ansi::{
    is_plain, lemma_padded_plain, lemma_painted_as_shape, lemma_painted_concat_empty,
    lemma_painted_concat_single, lemma_plain_width, painted_as, painted_concat, piece_rendering,
    pieces_closed, plain_look, repeated, Look, Piece,
};
use crate::style::panel::{
    bottom, bottom_pieces, divider, divider_pieces, panel_row, row_line, top, top_pieces,
    CONTENT_WIDTH,
};
use crate::style::{
    badge_look, bold, bold_look, dim, dim_look, emit, emit_all, emit_plain, err_look, err_mark, field,
    ok_look, ok_mark, ok_style, paint, pad_right, rule, title, value, value_look, warn_look, warn_mark,
    warn_style,
};
use crate::verdict::{
    compare_verdict, count_significant, count_true, lemma_count_true_bound, spec_compare_verdict,
    spec_stability_verdict, stability_verdict, CompareVerdict, StabilityVerdict,
};
use crate::args::{decimal, decimal_string, decimal_u64, lemma_decimal_plain};
use crate::report::{
    detection_text, doctor_quality, leak_advice, plain_failures, plain_head, plain_verdict, DetectionReport,
    DoctorReport, UNBOUNDED_SAMPLES,
};
use crate::text::{lemma_occurs_after, lemma_occurs_self, lemma_occurs_then, occurs};
use crate::doctor::{jitter_label, quality_label, EnvironmentQuality};
use crate::style::{badge, visible_width, Badge};
use crate::style::table;
use crate::ansi::{is_param_char, lemma_decimal_params, lemma_painted_scan, visible_width_of};
use vstd::seq_lib::lemma_concat_associative;

verus! {

/// Lines found so far and the line being filled, after the words so far.
pub open spec fn wrap_state(words: Seq<Seq<char>>, width: nat) -> (Seq<Seq<char>>, Seq<char>)
    decreases words.len(),
{
    if words.len() == 0 {
        (Seq::empty(), Seq::empty())
    } else {
        let prev = wrap_state(words.drop_last(), width);
        let w = words.last();
        let cur = prev.1;
        let candidate = if cur.len() == 0 {
            w.len()
        } else {
            cur.len() + 1 + w.len()
        };
        let broken = candidate > width && cur.len() > 0;
        let lines = if broken {
            prev.0.push(cur)
        } else {
            prev.0
        };
        let cur2 = if broken {
            Seq::empty()
        } else {
            cur
        };
        (lines, if cur2.len() > 0 {
            cur2 + seq![' '] + w
        } else {
            w
        })
    }
}

/// Greedy wrap: each word goes on the current line, separated by one
/// space, unless that would make the line longer than `width` characters, in
/// which case the line is closed first.
pub open spec fn wrap_words(words: Seq<Seq<char>>, width: nat) -> Seq<Seq<char>> {
    let st = wrap_state(words, width);
    if st.1.len() > 0 {
        st.0.push(st.1)
    } else {
        st.0
    }
}

/// Greedy word-wrap of `text` to `width` columns (characters), splitting at
/// whitespace; used for explanation lines that are too long for one
/// bordered line.
pub fn wrap(text: &str, width: usize) -> (lines: Vec<String>)
    ensures
        lines.deep_view() == wrap_words(whitespace_words(text@), width as nat),
{
    let words = split_whitespace(text);
    let ghost ws = words.deep_view();
    let mut lines: Vec<String> = Vec::new();
    let mut current = String::new();
    let mut i: usize = 0;
    while i < words.len()
        invariant
            i <= words@.len(),
            ws == words.deep_view(),
            (lines.deep_view(), current@) == wrap_state(ws.take(i as int), width as nat),
        decreases words@.len() - i,
    {
        proof {
            assert(ws.take(i + 1).drop_last() == ws.take(i as int));
            assert(ws.take(i + 1).last() == words@[i as int]@);
        }
        let word = &words[i];
        let cur_len = current.as_str().unicode_len();
        let word_len = word.as_str().unicode_len();
        let too_long = if cur_len == 0 {
            word_len > width
        } else {
            cur_len >= width || word_len >= width - cur_len
        };
        if too_long && cur_len > 0 {
            let ghost before = lines.deep_view();
            lines.push(current);
            current = String::new();
            proof {
                assert(lines.deep_view() =~= before.push(wrap_state(ws.take(i as int), width as nat).1));
            }
        }
        if current.as_str().unicode_len() > 0 {
            current.append(" ");
            proof {
                reveal_strlit(" ");
            }
        }
        current.append(word.as_str());
        i = i + 1;
    }
    proof {
        assert(ws.take(ws.len() as int) == ws);
    }
    if current.as_str().unicode_len() > 0 {
        let ghost before = lines.deep_view();
        lines.push(current);
        proof {
            assert(lines.deep_view() =~= before.push(wrap_state(ws, width as nat).1));
        }
    }
    lines
}

/// The parts joined with single spaces.
pub open spec fn join_spaced(parts: Seq<Seq<char>>) -> Seq<char>
    decreases parts.len(),
{
    if parts.len() == 0 {
        Seq::empty()
    } else if parts.len() == 1 {
        parts[0]
    } else {
        join_spaced(parts.drop_last()) + seq![' '] + parts.last()
    }
}

/// A line respects the width, or it is a single word that alone is wider.
pub open spec fn fits_or_single_word(line: Seq<char>, width: nat) -> bool {
    line.len() <= width || forall|j: int| 0 <= j < line.len() ==> !is_white_space(#[trigger] line[j])
}

pub open spec fn wrap_state_ok(words: Seq<Seq<char>>, width: nat) -> bool {
    let st = wrap_state(words, width);
    &&& forall|i: int| 0 <= i < st.0.len() ==> (#[trigger] st.0[i]).len() > 0 && fits_or_single_word(st.0[i], width)
    &&& (st.1.len() > 0 <==> words.len() > 0)
    &&& fits_or_single_word(st.1, width)
    &&& join_spaced(if st.1.len() > 0 { st.0.push(st.1) } else { st.0 }) == join_spaced(words)
}

proof fn lemma_wrap_state_ok(words: Seq<Seq<char>>, width: nat)
    requires
        forall|i: int| 0 <= i < words.len() ==> is_word(#[trigger] words[i]),
    ensures
        wrap_state_ok(words, width),
    decreases words.len(),
{
    if words.len() > 0 {
        let prev_words = words.drop_last();
        assert forall|i: int| 0 <= i < prev_words.len() implies is_word(#[trigger] prev_words[i]) by {
            assert(prev_words[i] == words[i]);
        }
        lemma_wrap_state_ok(prev_words, width);
        let prev = wrap_state(prev_words, width);
        let w = words.last();
        assert(is_word(w)) by {
            assert(w == words[words.len() - 1]);
        }
        let cur = prev.1;
        let candidate = if cur.len() == 0 {
            w.len()
        } else {
            cur.len() + 1 + w.len()
        };
        let broken = candidate > width && cur.len() > 0;
        let st = wrap_state(words, width);
        if prev_words.len() == 0 {
            assert(words == seq![w]);
            assert(st.0.len() == 0);
            assert(st.1 == w);
        } else if broken {
            assert(st.0 == prev.0.push(cur));
            assert(st.1 == w);
            assert forall|i: int| 0 <= i < st.0.len() implies (#[trigger] st.0[i]).len() > 0 && fits_or_single_word(
                st.0[i],
                width,
            ) by {
                if i < prev.0.len() {
                    assert(st.0[i] == prev.0[i]);
                } else {
                    assert(st.0[i] == cur);
                }
            }
            assert(st.0.push(st.1).drop_last() == prev.0.push(cur));
            assert(words.drop_last() == prev_words);
            assert(join_spaced(st.0.push(st.1)) == join_spaced(prev.0.push(cur)) + seq![' '] + w);
            assert(join_spaced(words) == join_spaced(prev_words) + seq![' '] + w);
            assert(fits_or_single_word(st.1, width));
        } else {
            assert(st.0 == prev.0);
            assert(st.1 == cur + seq![' '] + w);
            assert(st.1.len() <= width);
            if prev.0.len() == 0 {
                assert(prev.0.push(cur) == seq![cur]);
                assert(prev.0.push(st.1) == seq![st.1]);
            } else {
                assert(prev.0.push(st.1).drop_last() == prev.0);
                assert(prev.0.push(cur).drop_last() == prev.0);
                assert(join_spaced(prev.0.push(cur)) == join_spaced(prev.0) + seq![' '] + cur);
                assert(join_spaced(prev.0.push(st.1)) == join_spaced(prev.0) + seq![' '] + st.1);
            }
            assert(words.drop_last() == prev_words);
            assert(join_spaced(words) == join_spaced(prev_words) + seq![' '] + w);
            assert(join_spaced(st.0.push(st.1)) == join_spaced(words));
        }
    }
}

/// The greedy wrap loses, adds and reorders nothing: joined with single
/// spaces, its lines give back the words joined with single spaces. No
/// line is empty, and a line is longer than `width` characters only when it is
/// a single word that is itself longer.
pub proof fn lemma_wrap_keeps_words(words: Seq<Seq<char>>, width: nat)
    requires
        forall|i: int| 0 <= i < words.len() ==> is_word(#[trigger] words[i]),
    ensures
        join_spaced(wrap_words(words, width)) == join_spaced(words),
        forall|i: int| 0 <= i < wrap_words(words, width).len() ==> (#[trigger] wrap_words(words, width)[i]).len() > 0,
        forall|i: int| 0 <= i < wrap_words(words, width).len() ==> fits_or_single_word(#[trigger] wrap_words(words, width)[i], width),
{
    lemma_wrap_state_ok(words, width);
    let st = wrap_state(words, width);
    if st.1.len() > 0 {
        let ls = st.0.push(st.1);
        assert forall|i: int| 0 <= i < ls.len() implies (#[trigger] ls[i]).len() > 0 && fits_or_single_word(ls[i], width) by {
            if i < st.0.len() {
                assert(ls[i] == st.0[i]);
            }
        }
    }
}

/// A line with no leading, trailing or doubled space.
pub open spec fn well_spaced(line: Seq<char>) -> bool {
    &&& line.len() > 0
    &&& line[0] != ' '
    &&& line[line.len() - 1] != ' '
    &&& forall|i: int| 0 <= i < line.len() - 1 && #[trigger] line[i] == ' ' ==> line[i + 1] != ' '
}

proof fn lemma_word_spaced(w: Seq<char>)
    requires
        is_word(w),
    ensures
        well_spaced(w),
{
    assert(!is_white_space(w[0]));
    assert(!is_white_space(w[w.len() - 1]));
    assert forall|i: int| 0 <= i < w.len() - 1 && #[trigger] w[i] == ' ' implies w[i + 1] != ' ' by {
        assert(!is_white_space(w[i]));
    }
}

proof fn lemma_join_word_spaced(a: Seq<char>, w: Seq<char>)
    requires
        well_spaced(a),
        is_word(w),
    ensures
        well_spaced(a + seq![' '] + w),
{
    let s = a + seq![' '] + w;
    let n = a.len() as int;
    assert(s[0] == a[0]);
    assert(s[s.len() - 1] == w[w.len() - 1]);
    assert(!is_white_space(w[w.len() - 1]));
    assert forall|i: int| 0 <= i < s.len() - 1 && #[trigger] s[i] == ' ' implies s[i + 1] != ' ' by {
        if i < n - 1 {
            assert(s[i] == a[i]);
            assert(s[i + 1] == a[i + 1]);
        } else if i == n - 1 {
            assert(s[i] == a[n - 1]);
        } else if i == n {
            assert(s[i + 1] == w[0]);
            assert(!is_white_space(w[0]));
        } else {
            assert(s[i] == w[i - n - 1]);
            assert(!is_white_space(w[i - n - 1]));
        }
    }
}

proof fn lemma_wrap_state_spaced(words: Seq<Seq<char>>, width: nat)
    requires
        forall|i: int| 0 <= i < words.len() ==> is_word(#[trigger] words[i]),
    ensures
        forall|i: int| 0 <= i < wrap_state(words, width).0.len() ==> well_spaced(#[trigger] wrap_state(words, width).0[i]),
        wrap_state(words, width).1.len() > 0 ==> well_spaced(wrap_state(words, width).1),
        wrap_state(words, width).1.len() > 0 <==> words.len() > 0,
        words.len() == 0 ==> wrap_state(words, width).0.len() == 0,
    decreases words.len(),
{
    if words.len() > 0 {
        let prev_words = words.drop_last();
        assert forall|i: int| 0 <= i < prev_words.len() implies is_word(#[trigger] prev_words[i]) by {
            assert(prev_words[i] == words[i]);
        }
        lemma_wrap_state_spaced(prev_words, width);
        let prev = wrap_state(prev_words, width);
        let w = words.last();
        assert(is_word(w)) by {
            assert(w == words[words.len() - 1]);
        }
        lemma_word_spaced(w);
        let cur = prev.1;
        let st = wrap_state(words, width);
        if cur.len() > 0 {
            lemma_join_word_spaced(cur, w);
        }
        assert forall|i: int| 0 <= i < st.0.len() implies well_spaced(#[trigger] st.0[i]) by {
            if i < prev.0.len() {
                assert(st.0[i] == prev.0[i]);
            }
        }
    }
}

/// Every line of a wrap is its words joined by single spaces: none is
/// empty, none starts or ends with a space or holds two in a row; and
/// the wrap has no line exactly when there is no word.
pub proof fn lemma_wrap_lines_well_spaced(words: Seq<Seq<char>>, width: nat)
    requires
        forall|i: int| 0 <= i < words.len() ==> is_word(#[trigger] words[i]),
    ensures
        forall|i: int| 0 <= i < wrap_words(words, width).len() ==> well_spaced(#[trigger] wrap_words(words, width)[i]),
        wrap_words(words, width).len() == 0 <==> words.len() == 0,
{
    lemma_wrap_state_spaced(words, width);
    let st = wrap_state(words, width);
    if st.1.len() > 0 {
        let ls = st.0.push(st.1);
        assert forall|i: int| 0 <= i < ls.len() implies well_spaced(#[trigger] ls[i]) by {
            if i < st.0.len() {
                assert(ls[i] == st.0[i]);
            }
        }
    }
}

/// The wrap of a text: its lines are well spaced, and there is none
/// exactly when the text holds only whitespace.
pub proof fn lemma_wrap_text_well_spaced(text: Seq<char>, width: nat)
    ensures
        forall|i: int| 0 <= i < wrap_words(whitespace_words(text), width).len() ==> well_spaced(
            #[trigger] wrap_words(whitespace_words(text), width)[i],
        ),
        wrap_words(whitespace_words(text), width).len() == 0 <==> whitespace_words(text).len() == 0,
{
    lemma_whitespace_words_are_words(text);
    lemma_wrap_lines_well_spaced(whitespace_words(text), width);
}

/// The wrap of a text keeps its whitespace-separated words, in order.
pub proof fn lemma_wrap_text_keeps_words(text: Seq<char>, width: nat)
    ensures
        join_spaced(wrap_words(whitespace_words(text), width)) == join_spaced(whitespace_words(text)),
        forall|i: int| 0 <= i < wrap_words(whitespace_words(text), width).len() ==> fits_or_single_word(
            #[trigger] wrap_words(whitespace_words(text), width)[i],
            width,
        ),
{
    lemma_whitespace_words_are_words(text);
    lemma_wrap_keeps_words(whitespace_words(text), width);
}

/// Width of the rules around the `compare` output.
pub const RULE_WIDTH: usize = 48;

/// What `compare` reads of a saved detection report, its figures written
/// out as text.
pub struct SavedReport {
    pub target: String,
    pub injection_point: String,
    pub significant: bool,
    pub sidecheck_version: String,
    /// Estimated leak in microseconds, one decimal.
    pub estimated_leak_us: String,
    /// Bounds of the confidence interval in microseconds, one decimal.
    pub ci_low_us: String,
    pub ci_high_us: String,
}

/// How a report's verdict is named in the comparison.
pub open spec fn status_word(significant: bool) -> Seq<char> {
    if significant {
        "leak detected"@
    } else {
        "clean"@
    }
}

/// The line that states one side's verdict and the version that made it.
pub open spec fn side_text(r: SavedReport) -> Seq<char> {
    status_word(r.significant) + " (sidecheck "@ + r.sidecheck_version@ + ")\n"@
}

/// The head of the comparison: the target, the field, and each side's
/// verdict.
pub open spec fn compare_head(base: SavedReport, cur: SavedReport) -> Seq<Piece> {
    seq![
        (repeated('─', RULE_WIDTH as nat), dim_look()),
        ("\n"@, plain_look()),
        ("sidecheck compare"@, bold_look()),
        ("\n\n"@, plain_look()),
        (pad_right("target"@, 18), dim_look()),
        (cur.target@, value_look()),
        ("\n"@, plain_look()),
        (pad_right("field"@, 18), dim_look()),
        (cur.injection_point@, value_look()),
        ("\n"@, plain_look()),
        (pad_right("baseline"@, 18), dim_look()),
        (side_text(base), plain_look()),
        (pad_right("current"@, 18), dim_look()),
        (side_text(cur), plain_look()),
        (repeated('─', RULE_WIDTH as nat), dim_look()),
        ("\n"@, plain_look()),
    ]
}

/// The verdict's own lines.
pub open spec fn compare_body(base: SavedReport, cur: SavedReport) -> Seq<Piece> {
    match spec_compare_verdict(base.significant, cur.significant) {
        CompareVerdict::Regression => seq![
            (seq!['✗'], err_look()),
            (" regression: no leak in the baseline, but a significant one now\n  "@, plain_look()),
            (pad_right("estimated leak"@, 16), dim_look()),
            (cur.estimated_leak_us@ + " μs (95% CI ["@ + cur.ci_low_us@ + ", "@ + cur.ci_high_us@ + "] μs)\n\n"@, plain_look()),
            ("this change appears to have introduced a timing leak that wasn't\nthere before."@, dim_look()),
            ("\n"@, plain_look()),
            (repeated('─', RULE_WIDTH as nat), dim_look()),
            ("\n"@, plain_look()),
        ],
        CompareVerdict::Improved => seq![
            (seq!['✓'], ok_look()),
            (" improved: the baseline's leak is no longer significant.\n  "@, plain_look()),
            ("(still verify this is a real fix, not just a noisier run —\n  see docs/limitations.md on what a clean result does and doesn't mean)"@, dim_look()),
            ("\n"@, plain_look()),
        ],
        CompareVerdict::Persisting => seq![
            (seq!['⚠'], warn_look()),
            (" leak present in both baseline and current — not flagged as a NEW\n  regression by this comparison, but it's still an existing problem.\n  "@, plain_look()),
            (pad_right("baseline leak"@, 16), dim_look()),
            (base.estimated_leak_us@ + " μs\n  "@, plain_look()),
            (pad_right("current leak"@, 16), dim_look()),
            (cur.estimated_leak_us@ + " μs\n"@, plain_look()),
        ],
        CompareVerdict::Clean => seq![
            (seq!['✓'], ok_look()),
            (" no leak in baseline or current.\n"@, plain_look()),
        ],
    }
}

/// The whole comparison.
pub open spec fn compare_pieces(base: SavedReport, cur: SavedReport) -> Seq<Piece> {
    compare_head(base, cur) + compare_body(base, cur) + seq![
        (repeated('─', RULE_WIDTH as nat), dim_look()),
        ("\n"@, plain_look()),
    ]
}

fn side_line(r: &SavedReport) -> (s: String)
    ensures
        s@ == side_text(*r),
{
    let mut s = if r.significant {
        String::from_str("leak detected")
    } else {
        String::from_str("clean")
    };
    s.append(" (sidecheck ");
    s.append(r.sidecheck_version.as_str());
    s.append(")\n");
    s
}

fn compare_head_text(base: &SavedReport, cur: &SavedReport) -> (out: String)
    ensures
        painted_concat(compare_head(*base, *cur), out@),
{
    let mut out = String::new();
    let ghost mut doc: Seq<Piece> = Seq::empty();
    proof {
        lemma_painted_concat_empty();
    }
    let r = rule(RULE_WIDTH);
    emit(&mut out, r.as_str(), Ghost(doc), Ghost((repeated('─', RULE_WIDTH as nat), dim_look())));
    proof { doc = doc.push((repeated('─', RULE_WIDTH as nat), dim_look())); }
    emit_plain(&mut out, "\n", Ghost(doc));
    proof { doc = doc.push(("\n"@, plain_look())); }
    let t = title("sidecheck compare");
    emit(&mut out, t.as_str(), Ghost(doc), Ghost(("sidecheck compare"@, bold_look())));
    proof { doc = doc.push(("sidecheck compare"@, bold_look())); }
    emit_plain(&mut out, "\n\n", Ghost(doc));
    proof { doc = doc.push(("\n\n"@, plain_look())); }
    let f = field("target", 18);
    emit(&mut out, f.as_str(), Ghost(doc), Ghost((pad_right("target"@, 18), dim_look())));
    proof { doc = doc.push((pad_right("target"@, 18), dim_look())); }
    let v = paint(&value(), cur.target.as_str());
    emit(&mut out, v.as_str(), Ghost(doc), Ghost((cur.target@, value_look())));
    proof { doc = doc.push((cur.target@, value_look())); }
    emit_plain(&mut out, "\n", Ghost(doc));
    proof { doc = doc.push(("\n"@, plain_look())); }
    let f = field("field", 18);
    emit(&mut out, f.as_str(), Ghost(doc), Ghost((pad_right("field"@, 18), dim_look())));
    proof { doc = doc.push((pad_right("field"@, 18), dim_look())); }
    let v = paint(&value(), cur.injection_point.as_str());
    emit(&mut out, v.as_str(), Ghost(doc), Ghost((cur.injection_point@, value_look())));
    proof { doc = doc.push((cur.injection_point@, value_look())); }
    emit_plain(&mut out, "\n", Ghost(doc));
    proof { doc = doc.push(("\n"@, plain_look())); }
    let f = field("baseline", 18);
    emit(&mut out, f.as_str(), Ghost(doc), Ghost((pad_right("baseline"@, 18), dim_look())));
    proof { doc = doc.push((pad_right("baseline"@, 18), dim_look())); }
    let side = side_line(base);
    emit_plain(&mut out, side.as_str(), Ghost(doc));
    proof { doc = doc.push((side_text(*base), plain_look())); }
    let f = field("current", 18);
    emit(&mut out, f.as_str(), Ghost(doc), Ghost((pad_right("current"@, 18), dim_look())));
    proof { doc = doc.push((pad_right("current"@, 18), dim_look())); }
    let side = side_line(cur);
    emit_plain(&mut out, side.as_str(), Ghost(doc));
    proof { doc = doc.push((side_text(*cur), plain_look())); }
    let r = rule(RULE_WIDTH);
    emit(&mut out, r.as_str(), Ghost(doc), Ghost((repeated('─', RULE_WIDTH as nat), dim_look())));
    proof { doc = doc.push((repeated('─', RULE_WIDTH as nat), dim_look())); }
    emit_plain(&mut out, "\n", Ghost(doc));
    proof {
        doc = doc.push(("\n"@, plain_look()));
        assert(doc =~= compare_head(*base, *cur));
    }
    out
}

fn compare_body_text(base: &SavedReport, cur: &SavedReport) -> (out: String)
    ensures
        painted_concat(compare_body(*base, *cur), out@),
{
    let mut out = String::new();
    let ghost mut doc: Seq<Piece> = Seq::empty();
    proof {
        lemma_painted_concat_empty();
    }
    match compare_verdict(base.significant, cur.significant) {
        CompareVerdict::Regression => {
            let m = err_mark();
            emit(&mut out, m.as_str(), Ghost(doc), Ghost((seq!['✗'], err_look())));
            proof { doc = doc.push((seq!['✗'], err_look())); }
            emit_plain(&mut out, " regression: no leak in the baseline, but a significant one now\n  ", Ghost(doc));
            proof { doc = doc.push((" regression: no leak in the baseline, but a significant one now\n  "@, plain_look())); }
            let f = field("estimated leak", 16);
            emit(&mut out, f.as_str(), Ghost(doc), Ghost((pad_right("estimated leak"@, 16), dim_look())));
            proof { doc = doc.push((pad_right("estimated leak"@, 16), dim_look())); }
            let mut figures = String::from_str(cur.estimated_leak_us.as_str());
            figures.append(" μs (95% CI [");
            figures.append(cur.ci_low_us.as_str());
            figures.append(", ");
            figures.append(cur.ci_high_us.as_str());
            figures.append("] μs)\n\n");
            emit_plain(&mut out, figures.as_str(), Ghost(doc));
            proof { doc = doc.push((figures@, plain_look())); }
            let note = paint(&dim(), "this change appears to have introduced a timing leak that wasn't\nthere before.");
            emit(&mut out, note.as_str(), Ghost(doc), Ghost(("this change appears to have introduced a timing leak that wasn't\nthere before."@, dim_look())));
            proof { doc = doc.push(("this change appears to have introduced a timing leak that wasn't\nthere before."@, dim_look())); }
            emit_plain(&mut out, "\n", Ghost(doc));
            proof { doc = doc.push(("\n"@, plain_look())); }
            let r = rule(RULE_WIDTH);
            emit(&mut out, r.as_str(), Ghost(doc), Ghost((repeated('─', RULE_WIDTH as nat), dim_look())));
            proof { doc = doc.push((repeated('─', RULE_WIDTH as nat), dim_look())); }
            emit_plain(&mut out, "\n", Ghost(doc));
            proof { doc = doc.push(("\n"@, plain_look())); }
        },
        CompareVerdict::Improved => {
            let m = ok_mark();
            emit(&mut out, m.as_str(), Ghost(doc), Ghost((seq!['✓'], ok_look())));
            proof { doc = doc.push((seq!['✓'], ok_look())); }
            emit_plain(&mut out, " improved: the baseline's leak is no longer significant.\n  ", Ghost(doc));
            proof { doc = doc.push((" improved: the baseline's leak is no longer significant.\n  "@, plain_look())); }
            let note = paint(&dim(), "(still verify this is a real fix, not just a noisier run —\n  see docs/limitations.md on what a clean result does and doesn't mean)");
            emit(&mut out, note.as_str(), Ghost(doc), Ghost(("(still verify this is a real fix, not just a noisier run —\n  see docs/limitations.md on what a clean result does and doesn't mean)"@, dim_look())));
            proof { doc = doc.push(("(still verify this is a real fix, not just a noisier run —\n  see docs/limitations.md on what a clean result does and doesn't mean)"@, dim_look())); }
            emit_plain(&mut out, "\n", Ghost(doc));
            proof { doc = doc.push(("\n"@, plain_look())); }
        },
        CompareVerdict::Persisting => {
            let m = warn_mark();
            emit(&mut out, m.as_str(), Ghost(doc), Ghost((seq!['⚠'], warn_look())));
            proof { doc = doc.push((seq!['⚠'], warn_look())); }
            emit_plain(&mut out, " leak present in both baseline and current — not flagged as a NEW\n  regression by this comparison, but it's still an existing problem.\n  ", Ghost(doc));
            proof { doc = doc.push((" leak present in both baseline and current — not flagged as a NEW\n  regression by this comparison, but it's still an existing problem.\n  "@, plain_look())); }
            let f = field("baseline leak", 16);
            emit(&mut out, f.as_str(), Ghost(doc), Ghost((pad_right("baseline leak"@, 16), dim_look())));
            proof { doc = doc.push((pad_right("baseline leak"@, 16), dim_look())); }
            let mut figure = String::from_str(base.estimated_leak_us.as_str());
            figure.append(" μs\n  ");
            emit_plain(&mut out, figure.as_str(), Ghost(doc));
            proof { doc = doc.push((figure@, plain_look())); }
            let f = field("current leak", 16);
            emit(&mut out, f.as_str(), Ghost(doc), Ghost((pad_right("current leak"@, 16), dim_look())));
            proof { doc = doc.push((pad_right("current leak"@, 16), dim_look())); }
            let mut figure = String::from_str(cur.estimated_leak_us.as_str());
            figure.append(" μs\n");
            emit_plain(&mut out, figure.as_str(), Ghost(doc));
            proof { doc = doc.push((figure@, plain_look())); }
        },
        CompareVerdict::Clean => {
            let m = ok_mark();
            emit(&mut out, m.as_str(), Ghost(doc), Ghost((seq!['✓'], ok_look())));
            proof { doc = doc.push((seq!['✓'], ok_look())); }
            emit_plain(&mut out, " no leak in baseline or current.\n", Ghost(doc));
            proof { doc = doc.push((" no leak in baseline or current.\n"@, plain_look())); }
        },
    }
    proof {
        assert(doc =~= compare_body(*base, *cur));
    }
    out
}

/// The comparison of a baseline report with a current one: the target,
/// both verdicts with the versions that produced them, and what changed
/// between them, between two rules.
pub fn compare(base: &SavedReport, cur: &SavedReport) -> (out: String)
    ensures
        painted_concat(compare_pieces(*base, *cur), out@),
{
    let mut out = compare_head_text(base, cur);
    let body = compare_body_text(base, cur);
    emit_all(&mut out, body.as_str(), Ghost(compare_head(*base, *cur)), Ghost(compare_body(*base, *cur)));
    let ghost doc = compare_head(*base, *cur) + compare_body(*base, *cur);
    let r = rule(RULE_WIDTH);
    emit(&mut out, r.as_str(), Ghost(doc), Ghost((repeated('─', RULE_WIDTH as nat), dim_look())));
    emit_plain(&mut out, "\n", Ghost(doc.push((repeated('─', RULE_WIDTH as nat), dim_look()))));
    proof {
        assert(doc.push((repeated('─', RULE_WIDTH as nat), dim_look())).push(("\n"@, plain_look())) =~= compare_pieces(*base, *cur));
    }
    out
}

/// The closing verdict of a stability summary over `runs` runs of which
/// `significant_runs` were significant.
pub open spec fn stability_verdict_pieces(significant_runs: nat, runs: nat, magnitude_unstable: bool) -> Seq<Piece> {
    match spec_stability_verdict(significant_runs, runs, magnitude_unstable) {
        StabilityVerdict::ConsistentlyClean => seq![
            (seq!['✓'], ok_look()),
            (" consistently no significant difference across "@ + decimal(runs) + " runs.\n"@, plain_look()),
        ],
        StabilityVerdict::SignificantButUnstable => seq![
            (seq!['⚠'], warn_look()),
            (" all runs found a significant effect, but its magnitude varies substantially between runs (std dev is more than half the mean) — the direction is consistent, but don't treat any single run's exact number as precise.\n"@, plain_look()),
        ],
        StabilityVerdict::ConsistentlySignificant => seq![
            (seq!['✓'], ok_look()),
            (" consistently significant with a stable magnitude across runs.\n"@, plain_look()),
        ],
        StabilityVerdict::Inconsistent => seq![
            (seq!['⚠'], warn_look()),
            (" significance is inconsistent across runs ("@ + decimal(significant_runs) + "/"@ + decimal(runs) + " found a signal) — likely sitting right at the edge of detectability with this sample size; more samples per run would give a more decisive answer.\n"@, plain_look()),
        ],
    }
}

/// The summary of repeated runs: how many were significant, the spread of
/// the estimated leak (figures written out with their units), and the
/// verdict on stability.
pub open spec fn stability_pieces(
    flags: Seq<bool>,
    magnitude_unstable: bool,
    mean: Seq<char>,
    min: Seq<char>,
    max: Seq<char>,
    std_dev: Seq<char>,
) -> Seq<Piece> {
    seq![
        ("\n"@, plain_look()),
        (repeated('─', RULE_WIDTH as nat), dim_look()),
        ("\n"@, plain_look()),
        ("stability summary across "@ + decimal(flags.len()) + " runs"@, bold_look()),
        ("\n"@, plain_look()),
        (repeated('─', RULE_WIDTH as nat), dim_look()),
        ("\n"@, plain_look()),
        ("\n"@, plain_look()),
        ("significant in "@ + decimal(count_true(flags)) + "/"@ + decimal(flags.len()) + " runs\n"@, plain_look()),
        (pad_right("estimated leak"@, 17), dim_look()),
        ("mean "@ + mean + " · range ["@ + min + ", "@ + max + "] · std dev "@ + std_dev + "\n"@, plain_look()),
        ("\n"@, plain_look()),
    ] + stability_verdict_pieces(count_true(flags), flags.len(), magnitude_unstable)
}

fn stability_verdict_text(significant_runs: usize, runs: usize, magnitude_unstable: bool) -> (out: String)
    ensures
        painted_concat(stability_verdict_pieces(significant_runs as nat, runs as nat, magnitude_unstable), out@),
{
    let mut out = String::new();
    let ghost doc: Seq<Piece> = Seq::empty();
    proof {
        lemma_painted_concat_empty();
    }
    match stability_verdict(significant_runs, runs, magnitude_unstable) {
        StabilityVerdict::ConsistentlyClean => {
            let m = ok_mark();
            emit(&mut out, m.as_str(), Ghost(doc), Ghost((seq!['✓'], ok_look())));
            let mut text = String::from_str(" consistently no significant difference across ");
            let n = decimal_string(runs);
            text.append(n.as_str());
            text.append(" runs.\n");
            emit_plain(&mut out, text.as_str(), Ghost(doc.push((seq!['✓'], ok_look()))));
            proof {
                assert(doc.push((seq!['✓'], ok_look())).push((text@, plain_look())) =~= stability_verdict_pieces(
                    significant_runs as nat,
                    runs as nat,
                    magnitude_unstable,
                ));
            }
        },
        StabilityVerdict::SignificantButUnstable => {
            let m = warn_mark();
            emit(&mut out, m.as_str(), Ghost(doc), Ghost((seq!['⚠'], warn_look())));
            emit_plain(&mut out, " all runs found a significant effect, but its magnitude varies substantially between runs (std dev is more than half the mean) — the direction is consistent, but don't treat any single run's exact number as precise.\n", Ghost(doc.push((seq!['⚠'], warn_look()))));
            proof {
                assert(doc.push((seq!['⚠'], warn_look())).push((" all runs found a significant effect, but its magnitude varies substantially between runs (std dev is more than half the mean) — the direction is consistent, but don't treat any single run's exact number as precise.\n"@, plain_look())) =~= stability_verdict_pieces(
                    significant_runs as nat,
                    runs as nat,
                    magnitude_unstable,
                ));
            }
        },
        StabilityVerdict::ConsistentlySignificant => {
            let m = ok_mark();
            emit(&mut out, m.as_str(), Ghost(doc), Ghost((seq!['✓'], ok_look())));
            emit_plain(&mut out, " consistently significant with a stable magnitude across runs.\n", Ghost(doc.push((seq!['✓'], ok_look()))));
            proof {
                assert(doc.push((seq!['✓'], ok_look())).push((" consistently significant with a stable magnitude across runs.\n"@, plain_look())) =~= stability_verdict_pieces(
                    significant_runs as nat,
                    runs as nat,
                    magnitude_unstable,
                ));
            }
        },
        StabilityVerdict::Inconsistent => {
            let m = warn_mark();
            emit(&mut out, m.as_str(), Ghost(doc), Ghost((seq!['⚠'], warn_look())));
            let mut text = String::from_str(" significance is inconsistent across runs (");
            let k = decimal_string(significant_runs);
            text.append(k.as_str());
            text.append("/");
            let n = decimal_string(runs);
            text.append(n.as_str());
            text.append(" found a signal) — likely sitting right at the edge of detectability with this sample size; more samples per run would give a more decisive answer.\n");
            emit_plain(&mut out, text.as_str(), Ghost(doc.push((seq!['⚠'], warn_look()))));
            proof {
                assert(doc.push((seq!['⚠'], warn_look())).push((text@, plain_look())) =~= stability_verdict_pieces(
                    significant_runs as nat,
                    runs as nat,
                    magnitude_unstable,
                ));
            }
        },
    }
    out
}

/// The stability summary of repeated runs, one flag per run telling
/// whether it was significant. `magnitude_unstable` is whether the
/// standard deviation of the estimated leaks exceeds half their absolute
/// mean; `mean`, `min`, `max` and `std_dev` are those figures written out
/// with their units.
pub fn stability_summary(
    flags: &Vec<bool>,
    magnitude_unstable: bool,
    mean: &str,
    min: &str,
    max: &str,
    std_dev: &str,
) -> (out: String)
    ensures
        painted_concat(stability_pieces(flags@, magnitude_unstable, mean@, min@, max@, std_dev@), out@),
{
    let runs = flags.len();
    let significant_runs = count_significant(flags);
    proof {
        lemma_count_true_bound(flags@);
    }
    let mut out = String::new();
    let ghost mut doc: Seq<Piece> = Seq::empty();
    proof {
        lemma_painted_concat_empty();
    }
    emit_plain(&mut out, "\n", Ghost(doc));
    proof { doc = doc.push(("\n"@, plain_look())); }
    let r = rule(RULE_WIDTH);
    emit(&mut out, r.as_str(), Ghost(doc), Ghost((repeated('─', RULE_WIDTH as nat), dim_look())));
    proof { doc = doc.push((repeated('─', RULE_WIDTH as nat), dim_look())); }
    emit_plain(&mut out, "\n", Ghost(doc));
    proof { doc = doc.push(("\n"@, plain_look())); }
    let mut heading = String::from_str("stability summary across ");
    let n = decimal_string(runs);
    heading.append(n.as_str());
    heading.append(" runs");
    let t = title(heading.as_str());
    emit(&mut out, t.as_str(), Ghost(doc), Ghost((heading@, bold_look())));
    proof { doc = doc.push((heading@, bold_look())); }
    emit_plain(&mut out, "\n", Ghost(doc));
    proof { doc = doc.push(("\n"@, plain_look())); }
    emit(&mut out, r.as_str(), Ghost(doc), Ghost((repeated('─', RULE_WIDTH as nat), dim_look())));
    proof { doc = doc.push((repeated('─', RULE_WIDTH as nat), dim_look())); }
    emit_plain(&mut out, "\n", Ghost(doc));
    proof { doc = doc.push(("\n"@, plain_look())); }
    emit_plain(&mut out, "\n", Ghost(doc));
    proof { doc = doc.push(("\n"@, plain_look())); }
    let mut count_line = String::from_str("significant in ");
    let k = decimal_string(significant_runs);
    count_line.append(k.as_str());
    count_line.append("/");
    count_line.append(n.as_str());
    count_line.append(" runs\n");
    emit_plain(&mut out, count_line.as_str(), Ghost(doc));
    proof { doc = doc.push((count_line@, plain_look())); }
    let f = field("estimated leak", 17);
    emit(&mut out, f.as_str(), Ghost(doc), Ghost((pad_right("estimated leak"@, 17), dim_look())));
    proof { doc = doc.push((pad_right("estimated leak"@, 17), dim_look())); }
    let mut spread = String::from_str("mean ");
    spread.append(mean);
    spread.append(" · range [");
    spread.append(min);
    spread.append(", ");
    spread.append(max);
    spread.append("] · std dev ");
    spread.append(std_dev);
    spread.append("\n");
    emit_plain(&mut out, spread.as_str(), Ghost(doc));
    proof { doc = doc.push((spread@, plain_look())); }
    emit_plain(&mut out, "\n", Ghost(doc));
    proof { doc = doc.push(("\n"@, plain_look())); }
    let verdict = stability_verdict_text(significant_runs, runs, magnitude_unstable);
    emit_all(&mut out, verdict.as_str(), Ghost(doc), Ghost(stability_verdict_pieces(significant_runs as nat, runs as nat, magnitude_unstable)));
    proof {
        assert(doc =~= seq![
            ("\n"@, plain_look()),
            (repeated('─', RULE_WIDTH as nat), dim_look()),
            ("\n"@, plain_look()),
            ("stability summary across "@ + decimal(flags@.len()) + " runs"@, bold_look()),
            ("\n"@, plain_look()),
            (repeated('─', RULE_WIDTH as nat), dim_look()),
            ("\n"@, plain_look()),
            ("\n"@, plain_look()),
            ("significant in "@ + decimal(count_true(flags@)) + "/"@ + decimal(flags@.len()) + " runs\n"@, plain_look()),
            (pad_right("estimated leak"@, 17), dim_look()),
            ("mean "@ + mean@ + " · range ["@ + min@ + ", "@ + max@ + "] · std dev "@ + std_dev@ + "\n"@, plain_look()),
            ("\n"@, plain_look()),
        ]);
    }
    out
}

/// Dim when `styled`, plain otherwise.
pub open spec fn dim_if(styled: bool) -> Look {
    if styled {
        dim_look()
    } else {
        plain_look()
    }
}

/// Rows of a panel, one per wrapped line, dim when `styled`.
pub open spec fn wrapped_rows(lines: Seq<Seq<char>>, styled: bool) -> Seq<Piece>
    decreases lines.len(),
{
    if lines.len() == 0 {
        Seq::empty()
    } else {
        wrapped_rows(lines.drop_last(), styled) + panel_row(seq![(lines.last(), dim_if(styled))])
    }
}

/// The rows of `text` wrapped to the panel's content width.
pub open spec fn text_rows(text: Seq<char>, styled: bool) -> Seq<Piece> {
    wrapped_rows(wrap_words(whitespace_words(text), CONTENT_WIDTH as nat), styled)
}

fn text_rows_text(text: &str, styled: bool) -> (out: String)
    ensures
        painted_concat(text_rows(text@, styled), out@),
{
    let lines = wrap(text, CONTENT_WIDTH);
    let ghost ls = lines.deep_view();
    let mut out = String::new();
    proof {
        lemma_painted_concat_empty();
        assert(ls.take(0) =~= Seq::<Seq<char>>::empty());
    }
    let mut i: usize = 0;
    while i < lines.len()
        invariant
            i <= lines@.len(),
            ls == lines.deep_view(),
            painted_concat(wrapped_rows(ls.take(i as int), styled), out@),
        decreases lines@.len() - i,
    {
        let l = lines[i].as_str();
        let ghost piece = (l@, dim_if(styled));
        let content = if styled {
            paint(&dim(), l)
        } else {
            String::from_str(l)
        };
        proof {
            lemma_painted_concat_single(piece, content@);
            assert(seq![piece].drop_last().len() == 0);
        }
        let ghost inner = seq![piece];
        let row = row_line(content.as_str(), Ghost(inner));
        emit_all(&mut out, row.as_str(), Ghost(wrapped_rows(ls.take(i as int), styled)), Ghost(panel_row(inner)));
        proof {
            assert(ls.take(i + 1).drop_last() =~= ls.take(i as int));
            assert(ls.take(i + 1).last() == l@);
        }
        i = i + 1;
    }
    proof {
        assert(ls.take(ls.len() as int) =~= ls);
    }
    out
}

/// A label padded to `pad` columns, then a value.
pub open spec fn labelled(label: Seq<char>, pad: nat, value: Piece) -> Seq<Piece> {
    seq![(pad_right(label, pad), dim_look()), value]
}

/// An empty bordered line.
pub open spec fn blank_row() -> Seq<Piece> {
    panel_row(seq![(Seq::empty(), plain_look())])
}

proof fn lemma_labelled_closed(label: Seq<char>, pad: nat, value: Piece)
    requires
        is_plain(label),
    ensures
        pieces_closed(labelled(label, pad, value).drop_last()),
{
    if label.len() < pad {
        lemma_padded_plain(label, (pad - label.len()) as nat);
    }
    lemma_plain_width(pad_right(label, pad));
    assert(labelled(label, pad, value).drop_last() =~= seq![(pad_right(label, pad), dim_look())]);
}

/// The content line of a label padded to `pad` columns followed by
/// `rendered`, the rendering of `piece`.
fn labelled_row(label: &str, pad: usize, rendered: &str, Ghost(piece): Ghost<Piece>) -> (out: String)
    requires
        is_plain(label@),
        piece_rendering(piece, rendered@),
    ensures
        painted_concat(panel_row(labelled(label@, pad as nat, piece)), out@),
{
    let mut content = field(label, pad);
    let ghost head = seq![(pad_right(label@, pad as nat), dim_look())];
    proof {
        lemma_painted_concat_single((pad_right(label@, pad as nat), dim_look()), content@);
    }
    emit(&mut content, rendered, Ghost(head), Ghost(piece));
    proof {
        assert(seq![(pad_right(label@, pad as nat), dim_look())].push(piece) =~= labelled(label@, pad as nat, piece));
        lemma_labelled_closed(label@, pad as nat, piece);
    }
    row_line(content.as_str(), Ghost(labelled(label@, pad as nat, piece)))
}

fn blank_line() -> (out: String)
    ensures
        painted_concat(blank_row(), out@),
{
    proof {
        reveal_strlit("");
        assert(""@ =~= Seq::<char>::empty());
        lemma_painted_concat_single((Seq::<char>::empty(), plain_look()), ""@);
        assert(seq![(Seq::<char>::empty(), plain_look())].drop_last().len() == 0);
    }
    let ghost inner = seq![(Seq::<char>::empty(), plain_look())];
    row_line("", Ghost(inner))
}

/// A verdict headline: a mark, a space and a word, mark and word in the
/// same look.
pub open spec fn headline(mark: char, word: Seq<char>, look: Look) -> Seq<Piece> {
    seq![(seq![mark], look), (" "@, plain_look()), (word, look)]
}

/// The headline row, from the rendered mark and the rendered word.
fn headline_row(mark: &str, word: &str, Ghost(m): Ghost<char>, Ghost(w): Ghost<Seq<char>>, Ghost(look): Ghost<Look>) -> (out: String)
    requires
        painted_as(look, seq![m], mark@),
        painted_as(look, w, word@),
        m != '\u{1b}',
    ensures
        painted_concat(panel_row(headline(m, w, look)), out@),
{
    let mut content = String::from_str(mark);
    let ghost first = seq![(seq![m], look)];
    let ghost two = seq![(seq![m], look), (" "@, plain_look())];
    proof {
        lemma_painted_concat_single((seq![m], look), content@);
    }
    emit_plain(&mut content, " ", Ghost(first));
    proof {
        assert(first.push((" "@, plain_look())) =~= two);
    }
    emit(&mut content, word, Ghost(two), Ghost((w, look)));
    proof {
        reveal_strlit(" ");
        assert(two.push((w, look)) =~= headline(m, w, look));
        lemma_plain_width(seq![m]);
        lemma_plain_width(" "@);
        assert(pieces_closed(headline(m, w, look).drop_last()));
    }
    row_line(content.as_str(), Ghost(headline(m, w, look)))
}

/// What a detected leak means.
pub open spec fn leak_explanation() -> Seq<char> {
    "this endpoint responds measurably differently depending on input correctness. an attacker can exploit this to recover secrets character-by-character instead of brute-forcing them."@
}

/// How a detected leak is fixed.
pub open spec fn leak_fix() -> Seq<char> {
    "fix: use a constant-time comparison instead of == on secret bytes (e.g. the subtle crate in Rust, crypto/subtle in Go, hmac.compare_digest in Python)."@
}

/// What a clean result does not promise.
pub open spec fn disclaimer() -> Seq<char> {
    "sidecheck cannot prove the absence of a timing leak — only detect a statistically significant one under the tested conditions. A clean result here is not a safety guarantee."@
}

fn leak_explanation_text() -> (s: &'static str)
    ensures
        s@ == leak_explanation(),
{
    "this endpoint responds measurably differently depending on input correctness. an attacker can exploit this to recover secrets character-by-character instead of brute-forcing them."
}

fn leak_fix_text() -> (s: &'static str)
    ensures
        s@ == leak_fix(),
{
    "fix: use a constant-time comparison instead of == on secret bytes (e.g. the subtle crate in Rust, crypto/subtle in Go, hmac.compare_digest in Python)."
}

fn disclaimer_text() -> (s: &'static str)
    ensures
        s@ == disclaimer(),
{
    "sidecheck cannot prove the absence of a timing leak — only detect a statistically significant one under the tested conditions. A clean result here is not a safety guarantee."
}

/// The sentence on a confidence interval that includes zero.
pub open spec fn ci_sentence(r: DetectionReport) -> Seq<char> {
    "bootstrap "@ + r.confidence_whole_pct@ + "% CI of the difference: ["@ + r.ci_low@ + ", "@ + r.ci_high@
        + "] — includes zero"@
}

/// The line naming the version and the seed that reproduces the run.
pub open spec fn provenance(r: DetectionReport) -> Seq<char> {
    "generated by sidecheck "@ + r.sidecheck_version@ + " · seed "@ + decimal(r.seed as nat)
        + " (rerun with --seed "@ + decimal(r.seed as nat) + " to reproduce request order)"@
}

/// The panel's title and the run's parameters.
pub open spec fn detection_head(r: DetectionReport) -> Seq<Piece> {
    top_pieces("sidecheck timing report"@).push(("\n"@, plain_look()))
        + panel_row(labelled("target"@, 17, (r.target@, value_look())))
        + panel_row(labelled("field"@, 17, (r.field@, value_look())))
        + panel_row(labelled("samples/class"@, 17, (decimal(r.samples_per_class as nat), plain_look())))
        + panel_row(labelled("network jitter"@, 17, (r.jitter@, plain_look())))
}

/// The failed requests, when there were any.
pub open spec fn failures_rows(r: DetectionReport) -> Seq<Piece> {
    if r.failures > 0 {
        panel_row(
            seq![
                (pad_right("failed requests"@, 17), dim_look()),
                (decimal(r.failures as nat), warn_look()),
                (" (excluded from analysis)"@, plain_look()),
            ],
        )
    } else {
        Seq::empty()
    }
}

/// The body of the panel when the leak is significant.
pub open spec fn leak_rows(r: DetectionReport) -> Seq<Piece> {
    panel_row(headline('⚠', "LEAK DETECTED"@, warn_look()))
        + blank_row()
        + panel_row(labelled("estimated leak"@, 18, (r.leak@, bold_look())))
        + panel_row(labelled("bootstrap confidence"@, 18, (r.confidence_pct@ + "%"@, plain_look())))
        + blank_row()
        + text_rows(leak_explanation(), true)
        + blank_row()
        + text_rows(leak_fix(), false)
}

/// The body of the panel when no significant difference was found.
pub open spec fn clean_rows(r: DetectionReport) -> Seq<Piece> {
    panel_row(headline('✓', "NO LEAK"@, ok_look()))
        + panel_row(seq![("no statistically significant timing difference detected"@, plain_look())])
        + blank_row()
        + text_rows(ci_sentence(r), true)
}

/// The lines under the panel.
pub open spec fn detection_footer(r: DetectionReport) -> Seq<Piece> {
    seq![(disclaimer(), dim_look()), ("\n"@, plain_look()), (provenance(r), dim_look()), ("\n"@, plain_look())]
}

/// The whole detection report.
pub open spec fn detection_pieces(r: DetectionReport) -> Seq<Piece> {
    detection_head(r) + failures_rows(r) + divider_pieces().push(("\n"@, plain_look()))
        + (if r.significant {
            leak_rows(r)
        } else {
            clean_rows(r)
        })
        + bottom_pieces().push(("\n"@, plain_look()))
        + detection_footer(r)
}

fn detection_head_text(r: &DetectionReport) -> (out: String)
    ensures
        painted_concat(detection_head(*r), out@),
{
    proof {
        reveal_strlit("sidecheck timing report");
    }
    let mut out = top("sidecheck timing report");
    emit_plain(&mut out, "\n", Ghost(top_pieces("sidecheck timing report"@)));
    let ghost mut doc = top_pieces("sidecheck timing report"@).push(("\n"@, plain_look()));
    proof {
        reveal_strlit("target");
        reveal_strlit("field");
        reveal_strlit("samples/class");
        reveal_strlit("network jitter");
    }
    let v = paint(&value(), r.target.as_str());
    let row = labelled_row("target", 17, v.as_str(), Ghost((r.target@, value_look())));
    emit_all(&mut out, row.as_str(), Ghost(doc), Ghost(panel_row(labelled("target"@, 17, (r.target@, value_look())))));
    proof { doc = doc + panel_row(labelled("target"@, 17, (r.target@, value_look()))); }
    let v = paint(&value(), r.field.as_str());
    let row = labelled_row("field", 17, v.as_str(), Ghost((r.field@, value_look())));
    emit_all(&mut out, row.as_str(), Ghost(doc), Ghost(panel_row(labelled("field"@, 17, (r.field@, value_look())))));
    proof { doc = doc + panel_row(labelled("field"@, 17, (r.field@, value_look()))); }
    let v = decimal_string(r.samples_per_class);
    let ghost samples = decimal(r.samples_per_class as nat);
    let row = labelled_row("samples/class", 17, v.as_str(), Ghost((samples, plain_look())));
    emit_all(&mut out, row.as_str(), Ghost(doc), Ghost(panel_row(labelled("samples/class"@, 17, (samples, plain_look())))));
    proof { doc = doc + panel_row(labelled("samples/class"@, 17, (samples, plain_look()))); }
    let row = labelled_row("network jitter", 17, r.jitter.as_str(), Ghost((r.jitter@, plain_look())));
    emit_all(&mut out, row.as_str(), Ghost(doc), Ghost(panel_row(labelled("network jitter"@, 17, (r.jitter@, plain_look())))));
    out
}

fn failures_text(r: &DetectionReport) -> (out: String)
    ensures
        painted_concat(failures_rows(*r), out@),
{
    if r.failures > 0 {
        proof {
            reveal_strlit("failed requests");
        }
        let mut content = field("failed requests", 17);
        let ghost label = (pad_right("failed requests"@, 17), dim_look());
        proof {
            lemma_painted_concat_single(label, content@);
        }
        let n = decimal_string(r.failures);
        let count = paint(&warn_style(), n.as_str());
        let ghost c = (decimal(r.failures as nat), warn_look());
        let ghost first = seq![label];
        emit(&mut content, count.as_str(), Ghost(first), Ghost(c));
        emit_plain(&mut content, " (excluded from analysis)", Ghost(first.push(c)));
        let ghost inner = seq![label, c, (" (excluded from analysis)"@, plain_look())];
        proof {
            assert(seq![label].push(c).push((" (excluded from analysis)"@, plain_look())) =~= inner);
            lemma_labelled_closed("failed requests"@, 17, c);
            lemma_decimal_plain(r.failures as nat);
            lemma_plain_width(decimal(r.failures as nat));
            assert(inner.drop_last()[0] == labelled("failed requests"@, 17, c).drop_last()[0]);
            assert(pieces_closed(inner.drop_last()));
        }
        row_line(content.as_str(), Ghost(inner))
    } else {
        proof {
            lemma_painted_concat_empty();
        }
        String::new()
    }
}

fn leak_rows_text(r: &DetectionReport) -> (out: String)
    ensures
        painted_concat(leak_rows(*r), out@),
{
    let mark = warn_mark();
    let word = paint(&warn_style(), "LEAK DETECTED");
    let mut out = headline_row(mark.as_str(), word.as_str(), Ghost('⚠'), Ghost("LEAK DETECTED"@), Ghost(warn_look()));
    let ghost mut doc = panel_row(headline('⚠', "LEAK DETECTED"@, warn_look()));
    let b = blank_line();
    emit_all(&mut out, b.as_str(), Ghost(doc), Ghost(blank_row()));
    proof {
        doc = doc + blank_row();
        reveal_strlit("estimated leak");
        reveal_strlit("bootstrap confidence");
    }
    let v = paint(&bold(), r.leak.as_str());
    let row = labelled_row("estimated leak", 18, v.as_str(), Ghost((r.leak@, bold_look())));
    emit_all(&mut out, row.as_str(), Ghost(doc), Ghost(panel_row(labelled("estimated leak"@, 18, (r.leak@, bold_look())))));
    proof { doc = doc + panel_row(labelled("estimated leak"@, 18, (r.leak@, bold_look()))); }
    let mut pct = String::from_str(r.confidence_pct.as_str());
    pct.append("%");
    let row = labelled_row("bootstrap confidence", 18, pct.as_str(), Ghost((pct@, plain_look())));
    emit_all(&mut out, row.as_str(), Ghost(doc), Ghost(panel_row(labelled("bootstrap confidence"@, 18, (pct@, plain_look())))));
    proof { doc = doc + panel_row(labelled("bootstrap confidence"@, 18, (pct@, plain_look()))); }
    emit_all(&mut out, b.as_str(), Ghost(doc), Ghost(blank_row()));
    proof { doc = doc + blank_row(); }
    let rows = text_rows_text(leak_explanation_text(), true);
    emit_all(&mut out, rows.as_str(), Ghost(doc), Ghost(text_rows(leak_explanation(), true)));
    proof { doc = doc + text_rows(leak_explanation(), true); }
    emit_all(&mut out, b.as_str(), Ghost(doc), Ghost(blank_row()));
    proof { doc = doc + blank_row(); }
    let rows = text_rows_text(leak_fix_text(), false);
    emit_all(&mut out, rows.as_str(), Ghost(doc), Ghost(text_rows(leak_fix(), false)));
    out
}

fn clean_rows_text(r: &DetectionReport) -> (out: String)
    ensures
        painted_concat(clean_rows(*r), out@),
{
    let mark = ok_mark();
    let word = paint(&ok_style(), "NO LEAK");
    let mut out = headline_row(mark.as_str(), word.as_str(), Ghost('✓'), Ghost("NO LEAK"@), Ghost(ok_look()));
    let ghost mut doc = panel_row(headline('✓', "NO LEAK"@, ok_look()));
    let ghost note = seq![("no statistically significant timing difference detected"@, plain_look())];
    proof {
        lemma_painted_concat_single(
            ("no statistically significant timing difference detected"@, plain_look()),
            "no statistically significant timing difference detected"@,
        );
        assert(note.drop_last().len() == 0);
    }
    let row = row_line("no statistically significant timing difference detected", Ghost(note));
    emit_all(&mut out, row.as_str(), Ghost(doc), Ghost(panel_row(note)));
    proof { doc = doc + panel_row(note); }
    let b = blank_line();
    emit_all(&mut out, b.as_str(), Ghost(doc), Ghost(blank_row()));
    proof { doc = doc + blank_row(); }
    let mut sentence = String::from_str("bootstrap ");
    sentence.append(r.confidence_whole_pct.as_str());
    sentence.append("% CI of the difference: [");
    sentence.append(r.ci_low.as_str());
    sentence.append(", ");
    sentence.append(r.ci_high.as_str());
    sentence.append("] — includes zero");
    let rows = text_rows_text(sentence.as_str(), true);
    emit_all(&mut out, rows.as_str(), Ghost(doc), Ghost(text_rows(ci_sentence(*r), true)));
    out
}

fn detection_footer_text(r: &DetectionReport) -> (out: String)
    ensures
        painted_concat(detection_footer(*r), out@),
{
    let mut out = paint(&dim(), disclaimer_text());
    proof {
        lemma_painted_concat_single((disclaimer(), dim_look()), out@);
    }
    let ghost first = seq![(disclaimer(), dim_look())];
    emit_plain(&mut out, "\n", Ghost(first));
    let mut line = String::from_str("generated by sidecheck ");
    line.append(r.sidecheck_version.as_str());
    line.append(" · seed ");
    let seed = decimal_u64(r.seed);
    line.append(seed.as_str());
    line.append(" (rerun with --seed ");
    line.append(seed.as_str());
    line.append(" to reproduce request order)");
    let styled = paint(&dim(), line.as_str());
    let ghost doc = seq![(disclaimer(), dim_look())].push(("\n"@, plain_look()));
    emit(&mut out, styled.as_str(), Ghost(doc), Ghost((provenance(*r), dim_look())));
    emit_plain(&mut out, "\n", Ghost(doc.push((provenance(*r), dim_look()))));
    proof {
        assert(doc.push((provenance(*r), dim_look())).push(("\n"@, plain_look())) =~= detection_footer(*r));
    }
    out
}

/// The detection report in a bordered panel: the run's parameters, then
/// either the leak with its size, what it means and how to fix it, or the
/// confidence interval that includes zero; under the panel, what a clean
/// result does not promise and the seed that reproduces the run.
pub fn detection(report: &DetectionReport) -> (out: String)
    ensures
        painted_concat(detection_pieces(*report), out@),
{
    let mut out = detection_head_text(report);
    let ghost mut doc = detection_head(*report);
    let failures = failures_text(report);
    emit_all(&mut out, failures.as_str(), Ghost(doc), Ghost(failures_rows(*report)));
    proof { doc = doc + failures_rows(*report); }
    let mut d = divider();
    emit_plain(&mut d, "\n", Ghost(divider_pieces()));
    emit_all(&mut out, d.as_str(), Ghost(doc), Ghost(divider_pieces().push(("\n"@, plain_look()))));
    proof { doc = doc + divider_pieces().push(("\n"@, plain_look())); }
    let body = if report.significant {
        leak_rows_text(report)
    } else {
        clean_rows_text(report)
    };
    let ghost body_pieces = if report.significant {
        leak_rows(*report)
    } else {
        clean_rows(*report)
    };
    emit_all(&mut out, body.as_str(), Ghost(doc), Ghost(body_pieces));
    proof { doc = doc + body_pieces; }
    let mut b = bottom();
    emit_plain(&mut b, "\n", Ghost(bottom_pieces()));
    emit_all(&mut out, b.as_str(), Ghost(doc), Ghost(bottom_pieces().push(("\n"@, plain_look()))));
    proof { doc = doc + bottom_pieces().push(("\n"@, plain_look())); }
    let footer = detection_footer_text(report);
    emit_all(&mut out, footer.as_str(), Ghost(doc), Ghost(detection_footer(*report)));
    out
}

/// Puts a stretch found in the middle part of `a + mid + b` into the
/// whole.
proof fn lemma_occurs_within<A>(a: Seq<A>, mid: Seq<A>, b: Seq<A>, part: Seq<A>)
    requires
        occurs(mid, part),
    ensures
        occurs(a + mid + b, part),
{
    lemma_occurs_after(a, mid, part);
    lemma_occurs_then(a + mid, part, b);
}

proof fn lemma_occurs_at<A>(s: Seq<A>, i: int, part: Seq<A>)
    requires
        0 <= i,
        i + part.len() <= s.len(),
        s.subrange(i, i + part.len()) == part,
    ensures
        occurs(s, part),
{
}

/// A regression is reported with the current run's figures: its
/// estimated leak, then the bounds of its confidence interval. A leak in
/// both reports shows the baseline's estimate first and the current one
/// second.
pub proof fn lemma_compare_shows_figures(b: SavedReport, c: SavedReport)
    ensures
        (!b.significant && c.significant) ==> occurs(
            compare_pieces(b, c),
            seq![
                (pad_right("estimated leak"@, 16), dim_look()),
                (c.estimated_leak_us@ + " μs (95% CI ["@ + c.ci_low_us@ + ", "@ + c.ci_high_us@ + "] μs)\n\n"@, plain_look()),
            ],
        ),
        (b.significant && c.significant) ==> occurs(
            compare_pieces(b, c),
            seq![
                (pad_right("baseline leak"@, 16), dim_look()),
                (b.estimated_leak_us@ + " μs\n  "@, plain_look()),
                (pad_right("current leak"@, 16), dim_look()),
                (c.estimated_leak_us@ + " μs\n"@, plain_look()),
            ],
        ),
{
    let body = compare_body(b, c);
    let tail = seq![(repeated('─', RULE_WIDTH as nat), dim_look()), ("\n"@, plain_look())];
    assert(compare_pieces(b, c) =~= compare_head(b, c) + body + tail);
    if !b.significant && c.significant {
        let part = seq![
            (pad_right("estimated leak"@, 16), dim_look()),
            (c.estimated_leak_us@ + " μs (95% CI ["@ + c.ci_low_us@ + ", "@ + c.ci_high_us@ + "] μs)\n\n"@, plain_look()),
        ];
        assert(body.subrange(2, 4) =~= part);
        lemma_occurs_at(body, 2, part);
        lemma_occurs_within(compare_head(b, c), body, tail, part);
    }
    if b.significant && c.significant {
        let part = seq![
            (pad_right("baseline leak"@, 16), dim_look()),
            (b.estimated_leak_us@ + " μs\n  "@, plain_look()),
            (pad_right("current leak"@, 16), dim_look()),
            (c.estimated_leak_us@ + " μs\n"@, plain_look()),
        ];
        assert(body.subrange(2, 6) =~= part);
        lemma_occurs_at(body, 2, part);
        lemma_occurs_within(compare_head(b, c), body, tail, part);
    }
}

/// The stability summary counts the significant runs once and reports
/// the same count everywhere: the count line names the number of
/// significant runs out of all runs, and the verdict that mixed results
/// get names that same number out of the same total; a verdict of no
/// signal names the number of runs.
pub proof fn lemma_stability_counts_agree(
    flags: Seq<bool>,
    magnitude_unstable: bool,
    mean: Seq<char>,
    min: Seq<char>,
    max: Seq<char>,
    std_dev: Seq<char>,
)
    ensures
        occurs(
            stability_pieces(flags, magnitude_unstable, mean, min, max, std_dev),
            seq![("significant in "@ + decimal(count_true(flags)) + "/"@ + decimal(flags.len()) + " runs\n"@, plain_look())],
        ),
        (0 < count_true(flags) && count_true(flags) < flags.len()) ==> occurs(
            stability_pieces(flags, magnitude_unstable, mean, min, max, std_dev),
            seq![
                (seq!['⚠'], warn_look()),
                (" significance is inconsistent across runs ("@ + decimal(count_true(flags)) + "/"@ + decimal(flags.len())
                    + " found a signal) — likely sitting right at the edge of detectability with this sample size; more samples per run would give a more decisive answer.\n"@, plain_look()),
            ],
        ),
        count_true(flags) == 0 ==> occurs(
            stability_pieces(flags, magnitude_unstable, mean, min, max, std_dev),
            seq![
                (seq!['✓'], ok_look()),
                (" consistently no significant difference across "@ + decimal(flags.len()) + " runs.\n"@, plain_look()),
            ],
        ),
{
    let all = stability_pieces(flags, magnitude_unstable, mean, min, max, std_dev);
    let head = seq![
        ("\n"@, plain_look()),
        (repeated('─', RULE_WIDTH as nat), dim_look()),
        ("\n"@, plain_look()),
        ("stability summary across "@ + decimal(flags.len()) + " runs"@, bold_look()),
        ("\n"@, plain_look()),
        (repeated('─', RULE_WIDTH as nat), dim_look()),
        ("\n"@, plain_look()),
        ("\n"@, plain_look()),
        ("significant in "@ + decimal(count_true(flags)) + "/"@ + decimal(flags.len()) + " runs\n"@, plain_look()),
        (pad_right("estimated leak"@, 17), dim_look()),
        ("mean "@ + mean + " · range ["@ + min + ", "@ + max + "] · std dev "@ + std_dev + "\n"@, plain_look()),
        ("\n"@, plain_look()),
    ];
    let verdict = stability_verdict_pieces(count_true(flags), flags.len(), magnitude_unstable);
    assert(all == head + verdict);
    let count = seq![head[8]];
    assert(head.subrange(8, 9) =~= count);
    lemma_occurs_at(head, 8, count);
    lemma_occurs_then(head, count, verdict);
    if 0 < count_true(flags) && count_true(flags) < flags.len() || count_true(flags) == 0 {
        assert(verdict.subrange(0, 2) =~= verdict);
        lemma_occurs_at(verdict, 0, verdict);
        lemma_occurs_after(head, verdict, verdict);
    }
}

/// No piece is drawn in the error look.
pub open spec fn free_of_err(pieces: Seq<Piece>) -> bool {
    forall|i: int| 0 <= i < pieces.len() ==> (#[trigger] pieces[i]).1 != err_look()
}

proof fn lemma_free_of_err_concat(a: Seq<Piece>, b: Seq<Piece>)
    requires
        free_of_err(a),
        free_of_err(b),
    ensures
        free_of_err(a + b),
{
    assert forall|i: int| 0 <= i < (a + b).len() implies (#[trigger] (a + b)[i]).1 != err_look() by {
        if i < a.len() {
            assert((a + b)[i] == a[i]);
        } else {
            assert((a + b)[i] == b[i - a.len()]);
        }
    }
}

proof fn lemma_compare_head_free(b: SavedReport, c: SavedReport)
    ensures
        free_of_err(compare_head(b, c)),
        compare_head(b, c).len() == 16,
{
    let h = compare_head(b, c);
    assert forall|i: int| 0 <= i < h.len() implies (#[trigger] h[i]).1 != err_look() by {
        if i == 0 {} else if i == 1 {} else if i == 2 {} else if i == 3 {} else if i == 4 {} else if i == 5 {} else if i == 6 {} else if i == 7 {} else if i == 8 {} else if i == 9 {} else if i == 10 {} else if i == 11 {} else if i == 12 {} else if i == 13 {} else if i == 14 {} else if i == 15 {}
    }
}

/// A comparison draws something in the error look (its red cross)
/// exactly when it reports a regression, and then the cross is followed
/// by the word "regression"; a leak already present in the baseline is
/// never drawn as one.
pub proof fn lemma_regression_drawn_as_error(b: SavedReport, c: SavedReport)
    ensures
        (exists|i: int| 0 <= i < compare_pieces(b, c).len() && (#[trigger] compare_pieces(b, c)[i]).1 == err_look())
            <==> (!b.significant && c.significant),
        occurs(
            compare_pieces(b, c),
            seq![
                (seq!['✗'], err_look()),
                (" regression: no leak in the baseline, but a significant one now\n  "@, plain_look()),
            ],
        ) <==> (!b.significant && c.significant),
{
    let p = compare_pieces(b, c);
    let body = compare_body(b, c);
    let tail = seq![(repeated('─', RULE_WIDTH as nat), dim_look()), ("\n"@, plain_look())];
    lemma_compare_head_free(b, c);
    assert(p =~= compare_head(b, c) + body + tail);
    if !b.significant && c.significant {
        let part = seq![
            (seq!['✗'], err_look()),
            (" regression: no leak in the baseline, but a significant one now\n  "@, plain_look()),
        ];
        assert(body.subrange(0, 2) =~= part);
        lemma_occurs_at(body, 0, part);
        lemma_occurs_within(compare_head(b, c), body, tail, part);
        assert(p[16] == body[0]);
    } else {
        assert forall|i: int| 0 <= i < body.len() implies (#[trigger] body[i]).1 != err_look() by {
            if i == 0 {} else if i == 1 {} else if i == 2 {} else if i == 3 {} else if i == 4 {} else if i == 5 {} else if i == 6 {} else if i == 7 {}
        }
        assert forall|i: int| 0 <= i < tail.len() implies (#[trigger] tail[i]).1 != err_look() by {
            if i == 0 {} else {}
        }
        lemma_free_of_err_concat(compare_head(b, c), body);
        lemma_free_of_err_concat(compare_head(b, c) + body, tail);
        let part = seq![
            (seq!['✗'], err_look()),
            (" regression: no leak in the baseline, but a significant one now\n  "@, plain_look()),
        ];
        if occurs(p, part) {
            let i = choose|i: int| 0 <= i && i + part.len() <= p.len() && #[trigger] p.subrange(i, i + part.len()) == part;
            assert(p.subrange(i, i + part.len())[0] == p[i]);
            assert(p[i].1 == err_look());
        }
    }
}

/// The parts of the panel around its body.
pub open spec fn panel_before_body(r: DetectionReport) -> Seq<Piece> {
    detection_head(r) + failures_rows(r) + divider_pieces().push(("\n"@, plain_look()))
}

pub open spec fn panel_after_body(r: DetectionReport) -> Seq<Piece> {
    bottom_pieces().push(("\n"@, plain_look())) + detection_footer(r)
}

pub open spec fn panel_body(r: DetectionReport) -> Seq<Piece> {
    if r.significant {
        leak_rows(r)
    } else {
        clean_rows(r)
    }
}

proof fn lemma_detection_parts(r: DetectionReport)
    ensures
        detection_pieces(r) =~= panel_before_body(r) + panel_body(r) + panel_after_body(r),
        detection_pieces(r) =~= detection_head(r) + (failures_rows(r) + divider_pieces().push(("\n"@, plain_look()))
            + panel_body(r) + panel_after_body(r)),
        detection_pieces(r) =~= detection_head(r) + failures_rows(r) + (divider_pieces().push(("\n"@, plain_look()))
            + panel_body(r) + panel_after_body(r)),
{
}

proof fn lemma_mirror_target(r: DetectionReport)
    ensures
        occurs(detection_text(r), r.target@),
        occurs(detection_pieces(r), seq![(r.target@, value_look())]),
{
    let t_pre = repeated('─', 48) + "\nsidecheck timing report\n"@ + repeated('─', 48) + "\n\ntarget          "@;
    let t_post = "\n"@ + "field            "@ + r.field@ + "\n"@ + "samples/class    "@ + decimal(
        r.samples_per_class as nat,
    ) + "\n"@ + "network jitter   "@ + r.jitter_ms@ + " ms\n"@;
    assert(plain_head(r) =~= t_pre + r.target@ + t_post);
    lemma_occurs_self(r.target@);
    lemma_occurs_within(t_pre, r.target@, t_post, r.target@);
    assert(detection_text(r) =~= plain_head(r) + (plain_failures(r) + "\n"@ + plain_verdict(r)));
    lemma_occurs_then(plain_head(r), r.target@, plain_failures(r) + "\n"@ + plain_verdict(r));
    let part = seq![(r.target@, value_look())];
    let target_row = panel_row(labelled("target"@, 17, (r.target@, value_look())));
    assert(target_row.subrange(2, 3) =~= part);
    lemma_occurs_at(target_row, 2, part);
    let p_head = top_pieces("sidecheck timing report"@).push(("\n"@, plain_look()));
    let p_rest = panel_row(labelled("field"@, 17, (r.field@, value_look())))
        + panel_row(labelled("samples/class"@, 17, (decimal(r.samples_per_class as nat), plain_look())))
        + panel_row(labelled("network jitter"@, 17, (r.jitter@, plain_look())));
    assert(detection_head(r) =~= p_head + target_row + p_rest);
    lemma_occurs_within(p_head, target_row, p_rest, part);
    lemma_detection_parts(r);
    lemma_occurs_then(detection_head(r), part, failures_rows(r) + divider_pieces().push(("\n"@, plain_look()))
        + panel_body(r) + panel_after_body(r));
}

proof fn lemma_mirror_verdict(r: DetectionReport)
    ensures
        r.significant ==> occurs(detection_text(r), "⚠ timing leak detected\n"@),
        r.significant ==> occurs(detection_pieces(r), seq![("LEAK DETECTED"@, warn_look())]),
        !r.significant ==> occurs(
            detection_text(r),
            "✓ no statistically significant timing difference detected\n"@,
        ),
        !r.significant ==> occurs(detection_pieces(r), seq![("NO LEAK"@, ok_look())]),
{
    let pre_verdict = plain_head(r) + plain_failures(r) + "\n"@;
    lemma_detection_parts(r);
    if r.significant {
        let lit = "⚠ timing leak detected\n"@;
        let rest = "  estimated leak   "@ + r.leak_us@ + " μs\n"@ + "  confidence       "@ + r.confidence_pct@ + "%\n"@
            + leak_advice();
        assert(plain_verdict(r) =~= lit + rest);
        lemma_occurs_self(lit);
        lemma_occurs_then(lit, lit, rest);
        lemma_occurs_after(pre_verdict, plain_verdict(r), lit);
        let part = seq![("LEAK DETECTED"@, warn_look())];
        let hl = panel_row(headline('⚠', "LEAK DETECTED"@, warn_look()));
        assert(hl.subrange(3, 4) =~= part);
        lemma_occurs_at(hl, 3, part);
        let more = blank_row()
            + panel_row(labelled("estimated leak"@, 18, (r.leak@, bold_look())))
            + panel_row(labelled("bootstrap confidence"@, 18, (r.confidence_pct@ + "%"@, plain_look())))
            + blank_row()
            + text_rows(leak_explanation(), true)
            + blank_row()
            + text_rows(leak_fix(), false);
        assert(leak_rows(r) =~= hl + more);
        lemma_occurs_then(hl, part, more);
        lemma_occurs_within(panel_before_body(r), panel_body(r), panel_after_body(r), part);
    } else {
        let lit = "✓ no statistically significant timing difference detected\n"@;
        let rest = "  (95% CI of the difference: ["@ + r.ci_low_us@ + ", "@ + r.ci_high_us@ + "] μs, includes zero)\n"@;
        assert(plain_verdict(r) =~= lit + rest);
        lemma_occurs_self(lit);
        lemma_occurs_then(lit, lit, rest);
        lemma_occurs_after(pre_verdict, plain_verdict(r), lit);
        let part = seq![("NO LEAK"@, ok_look())];
        let hl = panel_row(headline('✓', "NO LEAK"@, ok_look()));
        assert(hl.subrange(3, 4) =~= part);
        lemma_occurs_at(hl, 3, part);
        let more = panel_row(seq![("no statistically significant timing difference detected"@, plain_look())])
            + blank_row()
            + text_rows(ci_sentence(r), true);
        assert(clean_rows(r) =~= hl + more);
        lemma_occurs_then(hl, part, more);
        lemma_occurs_within(panel_before_body(r), panel_body(r), panel_after_body(r), part);
    }
}

/// `s` never holds the character `c`.
pub open spec fn lacks(s: Seq<char>, c: char) -> bool {
    forall|i: int| 0 <= i < s.len() ==> #[trigger] s[i] != c
}

proof fn lemma_lacks_concat(a: Seq<char>, b: Seq<char>, c: char)
    requires
        lacks(a, c),
        lacks(b, c),
    ensures
        lacks(a + b, c),
{
    assert forall|i: int| 0 <= i < (a + b).len() implies #[trigger] (a + b)[i] != c by {
        if i < a.len() {
            assert((a + b)[i] == a[i]);
        } else {
            assert((a + b)[i] == b[i - a.len()]);
        }
    }
}

proof fn lemma_lacks_no_occurs(s: Seq<char>, part: Seq<char>, k: int, c: char)
    requires
        lacks(s, c),
        0 <= k < part.len(),
        part[k] == c,
    ensures
        !occurs(s, part),
{
    if occurs(s, part) {
        let i = choose|i: int| 0 <= i && i + part.len() <= s.len() && #[trigger] s.subrange(i, i + part.len()) == part;
        assert(s.subrange(i, i + part.len())[k] == s[i + k]);
    }
}

proof fn lemma_decimal_lacks(n: nat, c: char)
    requires
        !is_param_char(c),
    ensures
        lacks(decimal(n), c),
{
    lemma_decimal_params(n);
    assert forall|i: int| 0 <= i < decimal(n).len() implies #[trigger] decimal(n)[i] != c by {
        assert(is_param_char(decimal(n)[i]));
    }
}

/// The plain report's parameters and failures line hold neither the
/// warning sign nor the check mark, unless a text handed to them does.
proof fn lemma_plain_head_lacks(r: DetectionReport, c: char)
    requires
        c == '⚠' || c == '✓',
        lacks(r.target@, c),
        lacks(r.field@, c),
        lacks(r.jitter_ms@, c),
    ensures
        lacks(plain_head(r) + plain_failures(r) + "\n"@, c),
{
    reveal_strlit("\nsidecheck timing report\n");
    reveal_strlit("\n\ntarget          ");
    reveal_strlit("\n");
    reveal_strlit("field            ");
    reveal_strlit("samples/class    ");
    reveal_strlit("network jitter   ");
    reveal_strlit(" ms\n");
    reveal_strlit("failed requests  ");
    reveal_strlit(" (excluded from analysis)\n");
    assert(lacks("\nsidecheck timing report\n"@, c));
    assert(lacks("\n\ntarget          "@, c));
    assert(lacks("\n"@, c));
    assert(lacks("field            "@, c));
    assert(lacks("samples/class    "@, c));
    assert(lacks("network jitter   "@, c));
    assert(lacks(" ms\n"@, c));
    assert(lacks("failed requests  "@, c));
    assert(lacks(" (excluded from analysis)\n"@, c));
    assert(lacks(repeated('─', 48), c));
    assert(!is_param_char(c));
    lemma_decimal_lacks(r.samples_per_class as nat, c);
    lemma_decimal_lacks(r.failures as nat, c);
    let rule = repeated('─', 48);
    let h1 = rule + "\nsidecheck timing report\n"@;
    lemma_lacks_concat(rule, "\nsidecheck timing report\n"@, c);
    let h2 = h1 + rule;
    lemma_lacks_concat(h1, rule, c);
    let h3 = h2 + "\n\ntarget          "@;
    lemma_lacks_concat(h2, "\n\ntarget          "@, c);
    let h4 = h3 + r.target@;
    lemma_lacks_concat(h3, r.target@, c);
    let h5 = h4 + "\n"@;
    lemma_lacks_concat(h4, "\n"@, c);
    let h6 = h5 + "field            "@;
    lemma_lacks_concat(h5, "field            "@, c);
    let h7 = h6 + r.field@;
    lemma_lacks_concat(h6, r.field@, c);
    let h8 = h7 + "\n"@;
    lemma_lacks_concat(h7, "\n"@, c);
    let h9 = h8 + "samples/class    "@;
    lemma_lacks_concat(h8, "samples/class    "@, c);
    let h10 = h9 + decimal(r.samples_per_class as nat);
    lemma_lacks_concat(h9, decimal(r.samples_per_class as nat), c);
    let h11 = h10 + "\n"@;
    lemma_lacks_concat(h10, "\n"@, c);
    let h12 = h11 + "network jitter   "@;
    lemma_lacks_concat(h11, "network jitter   "@, c);
    let h13 = h12 + r.jitter_ms@;
    lemma_lacks_concat(h12, r.jitter_ms@, c);
    let h14 = h13 + " ms\n"@;
    lemma_lacks_concat(h13, " ms\n"@, c);
    assert(h14 == plain_head(r));
    if r.failures > 0 {
        let f1 = "failed requests  "@ + decimal(r.failures as nat);
        lemma_lacks_concat("failed requests  "@, decimal(r.failures as nat), c);
        lemma_lacks_concat(f1, " (excluded from analysis)\n"@, c);
    } else {
        assert(lacks(plain_failures(r), c));
    }
    lemma_lacks_concat(h14, plain_failures(r), c);
    lemma_lacks_concat(h14 + plain_failures(r), "\n"@, c);
}

/// Without a significant leak, the plain report shows no warning sign
/// unless a text handed to it holds one.
proof fn lemma_plain_no_warning_sign(r: DetectionReport)
    requires
        !r.significant,
        lacks(r.target@, '⚠'),
        lacks(r.field@, '⚠'),
        lacks(r.jitter_ms@, '⚠'),
        lacks(r.ci_low_us@, '⚠'),
        lacks(r.ci_high_us@, '⚠'),
    ensures
        lacks(detection_text(r), '⚠'),
{
    let c = '⚠';
    lemma_plain_head_lacks(r, c);
    reveal_strlit("✓ no statistically significant timing difference detected\n");
    reveal_strlit("  (95% CI of the difference: [");
    reveal_strlit(", ");
    reveal_strlit("] μs, includes zero)\n");
    assert(lacks("✓ no statistically significant timing difference detected\n"@, c));
    assert(lacks("  (95% CI of the difference: ["@, c));
    assert(lacks(", "@, c));
    assert(lacks("] μs, includes zero)\n"@, c));
    let v0 = "✓ no statistically significant timing difference detected\n"@;
    let v1 = v0 + "  (95% CI of the difference: ["@;
    lemma_lacks_concat(v0, "  (95% CI of the difference: ["@, c);
    let v2 = v1 + r.ci_low_us@;
    lemma_lacks_concat(v1, r.ci_low_us@, c);
    let v3 = v2 + ", "@;
    lemma_lacks_concat(v2, ", "@, c);
    let v4 = v3 + r.ci_high_us@;
    lemma_lacks_concat(v3, r.ci_high_us@, c);
    lemma_lacks_concat(v4, "] μs, includes zero)\n"@, c);
    assert(plain_verdict(r) == v4 + "] μs, includes zero)\n"@);
    lemma_lacks_concat(plain_head(r) + plain_failures(r) + "\n"@, plain_verdict(r), c);
}

/// With a significant leak, the plain report shows no check mark unless a
/// text handed to it holds one.
proof fn lemma_plain_no_check_mark(r: DetectionReport)
    requires
        r.significant,
        lacks(r.target@, '✓'),
        lacks(r.field@, '✓'),
        lacks(r.jitter_ms@, '✓'),
        lacks(r.leak_us@, '✓'),
        lacks(r.confidence_pct@, '✓'),
    ensures
        lacks(detection_text(r), '✓'),
{
    let c = '✓';
    lemma_plain_head_lacks(r, c);
    reveal_strlit("⚠ timing leak detected\n");
    reveal_strlit("  estimated leak   ");
    reveal_strlit(" μs\n");
    reveal_strlit("  confidence       ");
    reveal_strlit("%\n");
    reveal_strlit("\n  this endpoint responds measurably differently depending on\n");
    reveal_strlit("  input correctness. an attacker can exploit this to recover\n");
    reveal_strlit("  secrets character-by-character instead of brute-forcing them.\n\n");
    reveal_strlit("  fix: use a constant-time comparison instead of == on secret\n");
    reveal_strlit("  bytes (e.g. the `subtle` crate in Rust, `crypto/subtle` in Go,\n");
    reveal_strlit("  `hmac.compare_digest` in Python).\n");
    let a0 = "\n  this endpoint responds measurably differently depending on\n"@;
    let a1 = "  input correctness. an attacker can exploit this to recover\n"@;
    let a2 = "  secrets character-by-character instead of brute-forcing them.\n\n"@;
    let a3 = "  fix: use a constant-time comparison instead of == on secret\n"@;
    let a4 = "  bytes (e.g. the `subtle` crate in Rust, `crypto/subtle` in Go,\n"@;
    let a5 = "  `hmac.compare_digest` in Python).\n"@;
    assert(lacks(a0, c));
    assert(lacks(a1, c));
    assert(lacks(a2, c));
    assert(lacks(a3, c));
    assert(lacks(a4, c));
    assert(lacks(a5, c));
    lemma_lacks_concat(a0, a1, c);
    lemma_lacks_concat(a0 + a1, a2, c);
    lemma_lacks_concat(a0 + a1 + a2, a3, c);
    lemma_lacks_concat(a0 + a1 + a2 + a3, a4, c);
    lemma_lacks_concat(a0 + a1 + a2 + a3 + a4, a5, c);
    assert(leak_advice() == a0 + a1 + a2 + a3 + a4 + a5);
    assert(lacks("⚠ timing leak detected\n"@, c));
    assert(lacks("  estimated leak   "@, c));
    assert(lacks(" μs\n"@, c));
    assert(lacks("  confidence       "@, c));
    assert(lacks("%\n"@, c));
    let v0 = "⚠ timing leak detected\n"@;
    let v1 = v0 + "  estimated leak   "@;
    lemma_lacks_concat(v0, "  estimated leak   "@, c);
    let v2 = v1 + r.leak_us@;
    lemma_lacks_concat(v1, r.leak_us@, c);
    let v3 = v2 + " μs\n"@;
    lemma_lacks_concat(v2, " μs\n"@, c);
    let v4 = v3 + "  confidence       "@;
    lemma_lacks_concat(v3, "  confidence       "@, c);
    let v5 = v4 + r.confidence_pct@;
    lemma_lacks_concat(v4, r.confidence_pct@, c);
    let v6 = v5 + "%\n"@;
    lemma_lacks_concat(v5, "%\n"@, c);
    lemma_lacks_concat(v6, leak_advice(), c);
    assert(plain_verdict(r) == v6 + leak_advice());
    lemma_lacks_concat(plain_head(r) + plain_failures(r) + "\n"@, plain_verdict(r), c);
}

proof fn lemma_mirror_failures(r: DetectionReport)
    ensures
        r.failures > 0 ==> occurs(detection_text(r), "failed requests  "@),
        r.failures > 0 ==> occurs(detection_pieces(r), seq![(pad_right("failed requests"@, 17), dim_look())]),
        r.failures == 0 ==> plain_failures(r).len() == 0 && failures_rows(r).len() == 0,
{
    if r.failures > 0 {
        let lit = "failed requests  "@;
        let rest = decimal(r.failures as nat) + " (excluded from analysis)\n"@;
        assert(plain_failures(r) =~= lit + rest);
        lemma_occurs_self(lit);
        lemma_occurs_then(lit, lit, rest);
        lemma_occurs_within(plain_head(r), plain_failures(r), "\n"@ + plain_verdict(r), lit);
        assert(detection_text(r) =~= plain_head(r) + plain_failures(r) + ("\n"@ + plain_verdict(r)));
        let part = seq![(pad_right("failed requests"@, 17), dim_look())];
        let row = failures_rows(r);
        assert(row.subrange(1, 2) =~= part);
        lemma_occurs_at(row, 1, part);
        lemma_detection_parts(r);
        lemma_occurs_within(detection_head(r), row, divider_pieces().push(("\n"@, plain_look())) + panel_body(r)
            + panel_after_body(r), part);
    }
}

/// Every piece is drawn in one of the looks of `allowed`.
pub open spec fn looks_among(pieces: Seq<Piece>, allowed: Set<Look>) -> bool {
    forall|i: int| 0 <= i < pieces.len() ==> allowed.contains(#[trigger] pieces[i].1)
}

/// No piece is `p`.
pub open spec fn avoids(pieces: Seq<Piece>, p: Piece) -> bool {
    forall|i: int| 0 <= i < pieces.len() ==> #[trigger] pieces[i] != p
}

proof fn lemma_looks_concat(a: Seq<Piece>, b: Seq<Piece>, allowed: Set<Look>)
    requires
        looks_among(a, allowed),
        looks_among(b, allowed),
    ensures
        looks_among(a + b, allowed),
{
    assert forall|i: int| 0 <= i < (a + b).len() implies allowed.contains(#[trigger] (a + b)[i].1) by {
        if i < a.len() {
            assert((a + b)[i] == a[i]);
        } else {
            assert((a + b)[i] == b[i - a.len()]);
        }
    }
}

proof fn lemma_avoids_concat(a: Seq<Piece>, b: Seq<Piece>, p: Piece)
    requires
        avoids(a, p),
        avoids(b, p),
    ensures
        avoids(a + b, p),
{
    assert forall|i: int| 0 <= i < (a + b).len() implies #[trigger] (a + b)[i] != p by {
        if i < a.len() {
            assert((a + b)[i] == a[i]);
        } else {
            assert((a + b)[i] == b[i - a.len()]);
        }
    }
}

proof fn lemma_looks_avoid(pieces: Seq<Piece>, allowed: Set<Look>, p: Piece)
    requires
        looks_among(pieces, allowed),
        !allowed.contains(p.1),
    ensures
        avoids(pieces, p),
{
    assert forall|i: int| 0 <= i < pieces.len() implies #[trigger] pieces[i] != p by {
        assert(allowed.contains(pieces[i].1));
    }
}

proof fn lemma_avoids_no_occurs(pieces: Seq<Piece>, p: Piece)
    requires
        avoids(pieces, p),
    ensures
        !occurs(pieces, seq![p]),
{
    if occurs(pieces, seq![p]) {
        let i = choose|i: int| 0 <= i && i + 1 <= pieces.len() && #[trigger] pieces.subrange(i, i + 1) == seq![p];
        assert(pieces.subrange(i, i + 1)[0] == pieces[i]);
    }
}

/// The looks that borders, labels, titles and plain text use.
pub open spec fn frame_looks() -> Set<Look> {
    set![dim_look(), plain_look(), bold_look(), value_look()]
}

proof fn lemma_row_looks(inner: Seq<Piece>, allowed: Set<Look>)
    requires
        looks_among(inner, allowed),
        allowed.contains(dim_look()),
        allowed.contains(plain_look()),
    ensures
        looks_among(panel_row(inner), allowed),
{
    let left = seq![(seq!['│', ' '], dim_look())];
    let right = seq![
        (repeated(' ', crate::style::panel::row_fill(inner)), plain_look()),
        (seq![' ', '│'], dim_look()),
        ("\n"@, plain_look()),
    ];
    assert forall|i: int| 0 <= i < left.len() implies allowed.contains(#[trigger] left[i].1) by {}
    assert forall|i: int| 0 <= i < right.len() implies allowed.contains(#[trigger] right[i].1) by {
        if i == 0 {} else if i == 1 {} else if i == 2 {}
    }
    lemma_looks_concat(left, inner, allowed);
    lemma_looks_concat(left + inner, right, allowed);
    assert(panel_row(inner) =~= left + inner + right);
}

proof fn lemma_row_avoids(inner: Seq<Piece>, p: Piece)
    requires
        avoids(inner, p),
        p.1 != dim_look(),
        p.1 != plain_look(),
    ensures
        avoids(panel_row(inner), p),
{
    let left = seq![(seq!['│', ' '], dim_look())];
    let right = seq![
        (repeated(' ', crate::style::panel::row_fill(inner)), plain_look()),
        (seq![' ', '│'], dim_look()),
        ("\n"@, plain_look()),
    ];
    assert forall|i: int| 0 <= i < left.len() implies #[trigger] left[i] != p by {}
    assert forall|i: int| 0 <= i < right.len() implies #[trigger] right[i] != p by {
        if i == 0 {} else if i == 1 {} else if i == 2 {}
    }
    lemma_avoids_concat(left, inner, p);
    lemma_avoids_concat(left + inner, right, p);
    assert(panel_row(inner) =~= left + inner + right);
}

proof fn lemma_wrapped_looks(lines: Seq<Seq<char>>, styled: bool)
    ensures
        looks_among(wrapped_rows(lines, styled), frame_looks()),
    decreases lines.len(),
{
    if lines.len() == 0 {
    } else {
        lemma_wrapped_looks(lines.drop_last(), styled);
        let inner = seq![(lines.last(), dim_if(styled))];
        assert forall|i: int| 0 <= i < inner.len() implies frame_looks().contains(#[trigger] inner[i].1) by {}
        lemma_row_looks(inner, frame_looks());
        lemma_looks_concat(wrapped_rows(lines.drop_last(), styled), panel_row(inner), frame_looks());
    }
}

proof fn lemma_labelled_looks(label: Seq<char>, pad: nat, value: Piece)
    requires
        frame_looks().contains(value.1),
    ensures
        looks_among(panel_row(labelled(label, pad, value)), frame_looks()),
{
    let inner = labelled(label, pad, value);
    assert forall|i: int| 0 <= i < inner.len() implies frame_looks().contains(#[trigger] inner[i].1) by {
        if i == 0 {} else if i == 1 {}
    }
    lemma_row_looks(inner, frame_looks());
}

proof fn lemma_blank_looks()
    ensures
        looks_among(blank_row(), frame_looks()),
{
    let inner = seq![(Seq::<char>::empty(), plain_look())];
    assert forall|i: int| 0 <= i < inner.len() implies frame_looks().contains(#[trigger] inner[i].1) by {}
    lemma_row_looks(inner, frame_looks());
}

/// The parts that both verdicts share draw only in the frame looks.
proof fn lemma_detection_frame_looks(r: DetectionReport)
    ensures
        looks_among(detection_head(r), frame_looks()),
        looks_among(divider_pieces().push(("\n"@, plain_look())), frame_looks()),
        looks_among(panel_after_body(r), frame_looks()),
{
    let top = top_pieces("sidecheck timing report"@).push(("\n"@, plain_look()));
    assert forall|i: int| 0 <= i < top.len() implies frame_looks().contains(#[trigger] top[i].1) by {
        if i == 0 {} else if i == 1 {} else if i == 2 {} else if i == 3 {} else if i == 4 {}
    }
    lemma_labelled_looks("target"@, 17, (r.target@, value_look()));
    lemma_labelled_looks("field"@, 17, (r.field@, value_look()));
    lemma_labelled_looks("samples/class"@, 17, (decimal(r.samples_per_class as nat), plain_look()));
    lemma_labelled_looks("network jitter"@, 17, (r.jitter@, plain_look()));
    let r1 = panel_row(labelled("target"@, 17, (r.target@, value_look())));
    let r2 = panel_row(labelled("field"@, 17, (r.field@, value_look())));
    let r3 = panel_row(labelled("samples/class"@, 17, (decimal(r.samples_per_class as nat), plain_look())));
    let r4 = panel_row(labelled("network jitter"@, 17, (r.jitter@, plain_look())));
    lemma_looks_concat(top, r1, frame_looks());
    lemma_looks_concat(top + r1, r2, frame_looks());
    lemma_looks_concat(top + r1 + r2, r3, frame_looks());
    lemma_looks_concat(top + r1 + r2 + r3, r4, frame_looks());
    let div = divider_pieces().push(("\n"@, plain_look()));
    assert forall|i: int| 0 <= i < div.len() implies frame_looks().contains(#[trigger] div[i].1) by {
        if i == 0 {} else if i == 1 {}
    }
    let bot = bottom_pieces().push(("\n"@, plain_look()));
    assert forall|i: int| 0 <= i < bot.len() implies frame_looks().contains(#[trigger] bot[i].1) by {
        if i == 0 {} else if i == 1 {}
    }
    let foot = detection_footer(r);
    assert forall|i: int| 0 <= i < foot.len() implies frame_looks().contains(#[trigger] foot[i].1) by {
        if i == 0 {} else if i == 1 {} else if i == 2 {} else if i == 3 {}
    }
    lemma_looks_concat(bot, foot, frame_looks());
}

proof fn lemma_leak_rows_looks(r: DetectionReport)
    ensures
        looks_among(leak_rows(r), frame_looks().insert(warn_look())),
{
    let s = frame_looks().insert(warn_look());
    let h = headline('⚠', "LEAK DETECTED"@, warn_look());
    assert forall|i: int| 0 <= i < h.len() implies s.contains(#[trigger] h[i].1) by {
        if i == 0 {} else if i == 1 {} else if i == 2 {}
    }
    lemma_row_looks(h, s);
    lemma_blank_looks();
    lemma_labelled_looks("estimated leak"@, 18, (r.leak@, bold_look()));
    lemma_labelled_looks("bootstrap confidence"@, 18, (r.confidence_pct@ + "%"@, plain_look()));
    lemma_wrapped_looks(wrap_words(whitespace_words(leak_explanation()), CONTENT_WIDTH as nat), true);
    lemma_wrapped_looks(wrap_words(whitespace_words(leak_fix()), CONTENT_WIDTH as nat), false);
    let parts = seq![
        blank_row(),
        panel_row(labelled("estimated leak"@, 18, (r.leak@, bold_look()))),
        panel_row(labelled("bootstrap confidence"@, 18, (r.confidence_pct@ + "%"@, plain_look()))),
        blank_row(),
        text_rows(leak_explanation(), true),
        blank_row(),
        text_rows(leak_fix(), false),
    ];
    assert forall|k: int| 0 <= k < parts.len() implies looks_among(#[trigger] parts[k], s) by {
        assert(looks_among(parts[k], frame_looks()));
        assert forall|i: int| 0 <= i < parts[k].len() implies s.contains(#[trigger] parts[k][i].1) by {
            assert(frame_looks().contains(parts[k][i].1));
        }
    }
    let a1 = panel_row(h) + parts[0];
    lemma_looks_concat(panel_row(h), parts[0], s);
    lemma_looks_concat(a1, parts[1], s);
    lemma_looks_concat(a1 + parts[1], parts[2], s);
    lemma_looks_concat(a1 + parts[1] + parts[2], parts[3], s);
    lemma_looks_concat(a1 + parts[1] + parts[2] + parts[3], parts[4], s);
    lemma_looks_concat(a1 + parts[1] + parts[2] + parts[3] + parts[4], parts[5], s);
    lemma_looks_concat(a1 + parts[1] + parts[2] + parts[3] + parts[4] + parts[5], parts[6], s);
}

proof fn lemma_clean_rows_looks(r: DetectionReport)
    ensures
        looks_among(clean_rows(r), frame_looks().insert(ok_look())),
{
    let s = frame_looks().insert(ok_look());
    let h = headline('✓', "NO LEAK"@, ok_look());
    assert forall|i: int| 0 <= i < h.len() implies s.contains(#[trigger] h[i].1) by {
        if i == 0 {} else if i == 1 {} else if i == 2 {}
    }
    lemma_row_looks(h, s);
    let note = seq![("no statistically significant timing difference detected"@, plain_look())];
    assert forall|i: int| 0 <= i < note.len() implies s.contains(#[trigger] note[i].1) by {}
    lemma_row_looks(note, s);
    lemma_blank_looks();
    lemma_wrapped_looks(wrap_words(whitespace_words(ci_sentence(r)), CONTENT_WIDTH as nat), true);
    let b = blank_row();
    let t = text_rows(ci_sentence(r), true);
    assert forall|i: int| 0 <= i < b.len() implies s.contains(#[trigger] b[i].1) by {
        assert(frame_looks().contains(b[i].1));
    }
    assert forall|i: int| 0 <= i < t.len() implies s.contains(#[trigger] t[i].1) by {
        assert(frame_looks().contains(t[i].1));
    }
    lemma_looks_concat(panel_row(h), panel_row(note), s);
    lemma_looks_concat(panel_row(h) + panel_row(note), b, s);
    lemma_looks_concat(panel_row(h) + panel_row(note) + b, t, s);
}

proof fn lemma_widen_looks(pieces: Seq<Piece>, small: Set<Look>, big: Set<Look>)
    requires
        looks_among(pieces, small),
        small.subset_of(big),
    ensures
        looks_among(pieces, big),
{
    assert forall|i: int| 0 <= i < pieces.len() implies big.contains(#[trigger] pieces[i].1) by {
        assert(small.contains(pieces[i].1));
    }
}

/// A report with a significant leak shows no "NO LEAK" headline, and one
/// without shows no "LEAK DETECTED" headline.
proof fn lemma_mirror_other_verdict_absent(r: DetectionReport)
    ensures
        r.significant ==> !occurs(detection_pieces(r), seq![("NO LEAK"@, ok_look())]),
        !r.significant ==> !occurs(detection_pieces(r), seq![("LEAK DETECTED"@, warn_look())]),
{
    lemma_detection_frame_looks(r);
    lemma_detection_parts(r);
    let f = failures_rows(r);
    let div = divider_pieces().push(("\n"@, plain_look()));
    if r.significant {
        let s = frame_looks().insert(warn_look());
        if r.failures > 0 {
            let inner = seq![
                (pad_right("failed requests"@, 17), dim_look()),
                (decimal(r.failures as nat), warn_look()),
                (" (excluded from analysis)"@, plain_look()),
            ];
            assert forall|i: int| 0 <= i < inner.len() implies s.contains(#[trigger] inner[i].1) by {
                if i == 0 {} else if i == 1 {} else if i == 2 {}
            }
            lemma_row_looks(inner, s);
        }
        lemma_widen_looks(detection_head(r), frame_looks(), s);
        lemma_widen_looks(div, frame_looks(), s);
        lemma_widen_looks(panel_after_body(r), frame_looks(), s);
        lemma_leak_rows_looks(r);
        lemma_looks_concat(detection_head(r), f, s);
        lemma_looks_concat(detection_head(r) + f, div, s);
        lemma_looks_concat(panel_before_body(r), panel_body(r), s);
        lemma_looks_concat(panel_before_body(r) + panel_body(r), panel_after_body(r), s);
        lemma_looks_avoid(detection_pieces(r), s, ("NO LEAK"@, ok_look()));
        lemma_avoids_no_occurs(detection_pieces(r), ("NO LEAK"@, ok_look()));
    } else {
        let s = frame_looks().insert(ok_look());
        let p = ("LEAK DETECTED"@, warn_look());
        lemma_widen_looks(detection_head(r), frame_looks(), s);
        lemma_widen_looks(div, frame_looks(), s);
        lemma_widen_looks(panel_after_body(r), frame_looks(), s);
        lemma_clean_rows_looks(r);
        lemma_looks_avoid(detection_head(r), s, p);
        lemma_looks_avoid(div, s, p);
        lemma_looks_avoid(panel_body(r), s, p);
        lemma_looks_avoid(panel_after_body(r), s, p);
        if r.failures > 0 {
            let inner = seq![
                (pad_right("failed requests"@, 17), dim_look()),
                (decimal(r.failures as nat), warn_look()),
                (" (excluded from analysis)"@, plain_look()),
            ];
            lemma_decimal_not_leak(r.failures as nat);
            assert forall|i: int| 0 <= i < inner.len() implies #[trigger] inner[i] != p by {
                if i == 0 {} else if i == 1 {} else if i == 2 {}
            }
            lemma_row_avoids(inner, p);
        }
        lemma_avoids_concat(detection_head(r), f, p);
        lemma_avoids_concat(detection_head(r) + f, div, p);
        lemma_avoids_concat(panel_before_body(r), panel_body(r), p);
        lemma_avoids_concat(panel_before_body(r) + panel_body(r), panel_after_body(r), p);
        lemma_avoids_no_occurs(detection_pieces(r), p);
    }
}

proof fn lemma_decimal_not_leak(n: nat)
    ensures
        decimal(n) != "LEAK DETECTED"@,
{
    reveal_strlit("LEAK DETECTED");
    lemma_decimal_params(n);
    if decimal(n) == "LEAK DETECTED"@ {
        assert(decimal(n)[0] == 'L');
        assert(is_param_char(decimal(n)[0]));
    }
}

/// The colored detection report mirrors the plain one: both name the
/// target; both take the verdict from the same significance flag, the
/// panel showing the "LEAK DETECTED" headline (in the warning look)
/// exactly when the run is significant and the "NO LEAK" headline (in the
/// success look) exactly when it is not, and the plain report showing its
/// own verdict line and never the other one (as long as no text handed to
/// it holds the other line's sign); and both list the failed requests
/// exactly when there were any.
pub proof fn lemma_reports_mirror(r: DetectionReport)
    ensures
        occurs(detection_text(r), r.target@),
        occurs(detection_pieces(r), seq![(r.target@, value_look())]),
        r.significant ==> occurs(detection_text(r), "⚠ timing leak detected\n"@),
        occurs(detection_pieces(r), seq![("LEAK DETECTED"@, warn_look())]) <==> r.significant,
        !r.significant ==> occurs(
            detection_text(r),
            "✓ no statistically significant timing difference detected\n"@,
        ),
        occurs(detection_pieces(r), seq![("NO LEAK"@, ok_look())]) <==> !r.significant,
        r.failures > 0 ==> occurs(detection_text(r), "failed requests  "@),
        r.failures > 0 ==> occurs(detection_pieces(r), seq![(pad_right("failed requests"@, 17), dim_look())]),
        r.failures == 0 ==> plain_failures(r).len() == 0 && failures_rows(r).len() == 0,
        (!r.significant && lacks(r.target@, '⚠') && lacks(r.field@, '⚠') && lacks(r.jitter_ms@, '⚠') && lacks(
            r.ci_low_us@,
            '⚠',
        ) && lacks(r.ci_high_us@, '⚠')) ==> !occurs(detection_text(r), "⚠ timing leak detected\n"@),
        (r.significant && lacks(r.target@, '✓') && lacks(r.field@, '✓') && lacks(r.jitter_ms@, '✓') && lacks(
            r.leak_us@,
            '✓',
        ) && lacks(r.confidence_pct@, '✓')) ==> !occurs(
            detection_text(r),
            "✓ no statistically significant timing difference detected\n"@,
        ),
{
    lemma_mirror_target(r);
    lemma_mirror_verdict(r);
    lemma_mirror_failures(r);
    lemma_mirror_other_verdict_absent(r);
    reveal_strlit("⚠ timing leak detected\n");
    reveal_strlit("✓ no statistically significant timing difference detected\n");
    if !r.significant && lacks(r.target@, '⚠') && lacks(r.field@, '⚠') && lacks(r.jitter_ms@, '⚠') && lacks(
        r.ci_low_us@,
        '⚠',
    ) && lacks(r.ci_high_us@, '⚠') {
        lemma_plain_no_warning_sign(r);
        lemma_lacks_no_occurs(detection_text(r), "⚠ timing leak detected\n"@, 0, '⚠');
    }
    if r.significant && lacks(r.target@, '✓') && lacks(r.field@, '✓') && lacks(r.jitter_ms@, '✓') && lacks(
        r.leak_us@,
        '✓',
    ) && lacks(r.confidence_pct@, '✓') {
        lemma_plain_no_check_mark(r);
        lemma_lacks_no_occurs(
            detection_text(r),
            "✓ no statistically significant timing difference detected\n"@,
            0,
            '✓',
        );
    }
}

/// Width of the label column of the `doctor` table.
pub const LABEL_COLUMN: usize = 20;

/// The recommended sample size as the table shows it: a warning when it
/// is out of reach.
pub open spec fn recommended_cell(recommended: u64) -> Piece {
    if recommended > UNBOUNDED_SAMPLES {
        ("effectively unbounded — not reliably measurable"@, warn_look())
    } else {
        ("~"@ + decimal(recommended as nat), plain_look())
    }
}

/// The badge kind of a grade.
pub open spec fn quality_badge(q: EnvironmentQuality) -> Badge {
    match q {
        EnvironmentQuality::Good => Badge::Success,
        EnvironmentQuality::Fair => Badge::Warn,
        EnvironmentQuality::Poor => Badge::Failure,
    }
}

/// The value cells of the `doctor` table, top to bottom.
pub open spec fn doctor_cells(r: DoctorReport) -> Seq<Piece> {
    seq![
        (r.target@, value_look()),
        (decimal(r.samples as nat), plain_look()),
        (r.median_rtt_ms@ + " ms"@, plain_look()),
        (r.jitter_ms@ + " ms ("@ + jitter_label(r.jitter_level) + ")"@, plain_look()),
        (r.packet_loss_pct@ + "%"@, plain_look()),
        recommended_cell(r.recommended_samples),
        (seq![' '] + quality_label(doctor_quality(r)) + seq![' '], badge_look(quality_badge(doctor_quality(r)))),
    ]
}

pub open spec fn wider(a: nat, b: nat) -> nat {
    if a > b {
        a
    } else {
        b
    }
}

/// The widest text among the first `n` cells, and at least 10.
pub open spec fn widest(cells: Seq<Piece>, n: nat) -> nat
    decreases n,
{
    if n == 0 {
        10
    } else {
        wider(widest(cells, (n - 1) as nat), visible_width_of(cells[n - 1].0))
    }
}

/// Width of the value column: the widest cell, and at least 10.
pub open spec fn doctor_value_column(r: DoctorReport) -> nat {
    widest(doctor_cells(r), 7)
}

/// The rows of the `doctor` table.
pub open spec fn doctor_rows(r: DoctorReport, col2: nat) -> Seq<Piece> {
    let c = doctor_cells(r);
    let col1 = LABEL_COLUMN as nat;
    table::table_row("target"@, col1, c[0], col2)
        + table::table_row("samples"@, col1, c[1], col2)
        + table::table_row("median RTT"@, col1, c[2], col2)
        + table::table_row("RTT jitter"@, col1, c[3], col2)
        + table::table_row("packet loss"@, col1, c[4], col2)
        + table::table_row("recommended samples"@, col1, c[5], col2)
        + table::table_row("environment quality"@, col1, c[6], col2)
}

/// What to do next, by quality grade.
pub open spec fn doctor_advice(quality: EnvironmentQuality) -> Seq<Piece> {
    match quality {
        EnvironmentQuality::Good => seq![(seq!['✓'], ok_look()), (" this path looks suitable for timing measurement. proceed with `sidecheck check`.\n"@, plain_look())],
        EnvironmentQuality::Fair => seq![("usable, but expect to need a larger sample size for small leaks. `sidecheck check` will size the run automatically based on what it finds.\n"@, plain_look())],
        EnvironmentQuality::Poor => seq![(seq!['⚠'], warn_look()), (" this path is too noisy/lossy for reliable timing measurement of a realistic-sized leak. this is a property of the network path, not proof the endpoint is safe. test from a lower-latency vantage point (same LAN/datacenter as the target, or from the server itself) if you can.\n"@, plain_look())],
    }
}

/// The whole `doctor` output.
pub open spec fn doctor_pieces(r: DoctorReport) -> Seq<Piece> {
    let col2 = doctor_value_column(r);
    table::top_pieces(LABEL_COLUMN as nat, col2).push(("\n"@, plain_look()))
        + doctor_rows(r, col2)
        + table::bottom_pieces(LABEL_COLUMN as nat, col2).push(("\n"@, plain_look()))
        + doctor_advice(doctor_quality(r))
}

/// A cell's width, which is its text's width whatever styling it got.
fn cell_width(rendered: &str, Ghost(cell): Ghost<Piece>) -> (w: usize)
    requires
        piece_rendering(cell, rendered@),
    ensures
        w == visible_width_of(cell.0),
{
    proof {
        lemma_painted_as_shape(cell.1, cell.0, rendered@);
        lemma_painted_scan(cell.0, rendered@, 0);
    }
    visible_width(rendered)
}

fn doctor_advice_text(quality: EnvironmentQuality) -> (out: String)
    ensures
        painted_concat(doctor_advice(quality), out@),
{
    let mut out = String::new();
    proof {
        lemma_painted_concat_empty();
    }
    let ghost empty: Seq<Piece> = Seq::empty();
    match quality {
        EnvironmentQuality::Good => {
            let m = ok_mark();
            emit(&mut out, m.as_str(), Ghost(empty), Ghost((seq!['✓'], ok_look())));
            emit_plain(&mut out, " this path looks suitable for timing measurement. proceed with `sidecheck check`.\n", Ghost(empty.push((seq!['✓'], ok_look()))));
            proof {
                assert(empty.push((seq!['✓'], ok_look())).push((" this path looks suitable for timing measurement. proceed with `sidecheck check`.\n"@, plain_look())) =~= doctor_advice(quality));
            }
        },
        EnvironmentQuality::Fair => {
            emit_plain(&mut out, "usable, but expect to need a larger sample size for small leaks. `sidecheck check` will size the run automatically based on what it finds.\n", Ghost(empty));
            proof {
                assert(empty.push(("usable, but expect to need a larger sample size for small leaks. `sidecheck check` will size the run automatically based on what it finds.\n"@, plain_look())) =~= doctor_advice(quality));
            }
        },
        EnvironmentQuality::Poor => {
            let m = warn_mark();
            emit(&mut out, m.as_str(), Ghost(empty), Ghost((seq!['⚠'], warn_look())));
            emit_plain(&mut out, " this path is too noisy/lossy for reliable timing measurement of a realistic-sized leak. this is a property of the network path, not proof the endpoint is safe. test from a lower-latency vantage point (same LAN/datacenter as the target, or from the server itself) if you can.\n", Ghost(empty.push((seq!['⚠'], warn_look()))));
            proof {
                assert(empty.push((seq!['⚠'], warn_look())).push((" this path is too noisy/lossy for reliable timing measurement of a realistic-sized leak. this is a property of the network path, not proof the endpoint is safe. test from a lower-latency vantage point (same LAN/datacenter as the target, or from the server itself) if you can.\n"@, plain_look())) =~= doctor_advice(quality));
            }
        },
    }
    out
}

/// The rendered value cells of the `doctor` table.
fn doctor_cells_text(report: &DoctorReport) -> (cells: Vec<String>)
    ensures
        cells@.len() == 7,
        forall|i: int| 0 <= i < 7 ==> piece_rendering(#[trigger] doctor_cells(*report)[i], cells@[i]@),
{
    let quality = report.quality();
    let v0 = paint(&value(), report.target.as_str());
    let v1 = decimal_string(report.samples);
    let mut v2 = String::from_str(report.median_rtt_ms.as_str());
    v2.append(" ms");
    let mut v3 = String::from_str(report.jitter_ms.as_str());
    v3.append(" ms (");
    v3.append(report.jitter_level.label());
    v3.append(")");
    let mut v4 = String::from_str(report.packet_loss_pct.as_str());
    v4.append("%");
    let v5 = if report.recommended_samples > UNBOUNDED_SAMPLES {
        paint(&warn_style(), "effectively unbounded — not reliably measurable")
    } else {
        let mut s = String::from_str("~");
        let n = decimal_u64(report.recommended_samples);
        s.append(n.as_str());
        s
    };
    let kind = match quality {
        EnvironmentQuality::Good => Badge::Success,
        EnvironmentQuality::Fair => Badge::Warn,
        EnvironmentQuality::Poor => Badge::Failure,
    };
    let v6 = badge(quality.label(), kind);
    let mut cells: Vec<String> = Vec::new();
    cells.push(v0);
    cells.push(v1);
    cells.push(v2);
    cells.push(v3);
    cells.push(v4);
    cells.push(v5);
    cells.push(v6);
    proof {
        let c = doctor_cells(*report);
        assert forall|i: int| 0 <= i < 7 implies piece_rendering(#[trigger] c[i], cells@[i]@) by {}
    }
    cells
}

/// Width of the value column: the widest cell, and at least 10.
fn doctor_column(cells: &Vec<String>, Ghost(c): Ghost<Seq<Piece>>) -> (col2: usize)
    requires
        cells@.len() == c.len(),
        forall|i: int| 0 <= i < c.len() ==> piece_rendering(#[trigger] c[i], cells@[i]@),
    ensures
        col2 == widest(c, c.len()),
{
    let mut col2: usize = 10;
    let mut i: usize = 0;
    while i < cells.len()
        invariant
            0 <= i <= cells@.len(),
            cells@.len() == c.len(),
            forall|j: int| 0 <= j < c.len() ==> piece_rendering(#[trigger] c[j], cells@[j]@),
            col2 == widest(c, i as nat),
        decreases cells@.len() - i,
    {
        let w = cell_width(cells[i].as_str(), Ghost(c[i as int]));
        if w > col2 {
            col2 = w;
        }
        i = i + 1;
    }
    col2
}

/// The table's borders and rows, for a value column `col2` wide.
fn doctor_table_text(cells: &Vec<String>, col2: usize, Ghost(r): Ghost<DoctorReport>) -> (out: String)
    requires
        cells@.len() == 7,
        forall|i: int| 0 <= i < 7 ==> piece_rendering(#[trigger] doctor_cells(r)[i], cells@[i]@),
        col2 + 2 <= usize::MAX,
    ensures
        painted_concat(
            table::top_pieces(LABEL_COLUMN as nat, col2 as nat).push(("\n"@, plain_look())) + doctor_rows(r, col2 as nat)
                + table::bottom_pieces(LABEL_COLUMN as nat, col2 as nat).push(("\n"@, plain_look())),
            out@,
        ),
{
    let ghost c = doctor_cells(r);
    let col1 = LABEL_COLUMN;
    let mut out = table::top(col1, col2);
    let ghost top = table::top_pieces(col1 as nat, col2 as nat);
    emit_plain(&mut out, "\n", Ghost(top));
    let ghost mut doc = top.push(("\n"@, plain_look()));
    let ghost mut rows: Seq<Piece> = table::table_row("target"@, col1 as nat, c[0], col2 as nat);
    let row = table::row_line("target", col1, cells[0].as_str(), col2, Ghost(c[0]));
    emit_all(&mut out, row.as_str(), Ghost(doc), Ghost(rows));
    proof { doc = doc + rows; }
    let row = table::row_line("samples", col1, cells[1].as_str(), col2, Ghost(c[1]));
    emit_all(&mut out, row.as_str(), Ghost(doc), Ghost(table::table_row("samples"@, col1 as nat, c[1], col2 as nat)));
    proof {
        lemma_concat_associative(top.push(("\n"@, plain_look())), rows, table::table_row("samples"@, col1 as nat, c[1], col2 as nat));
        rows = rows + table::table_row("samples"@, col1 as nat, c[1], col2 as nat);
        doc = top.push(("\n"@, plain_look())) + rows;
    }
    let row = table::row_line("median RTT", col1, cells[2].as_str(), col2, Ghost(c[2]));
    emit_all(&mut out, row.as_str(), Ghost(doc), Ghost(table::table_row("median RTT"@, col1 as nat, c[2], col2 as nat)));
    proof {
        lemma_concat_associative(top.push(("\n"@, plain_look())), rows, table::table_row("median RTT"@, col1 as nat, c[2], col2 as nat));
        rows = rows + table::table_row("median RTT"@, col1 as nat, c[2], col2 as nat);
        doc = top.push(("\n"@, plain_look())) + rows;
    }
    let row = table::row_line("RTT jitter", col1, cells[3].as_str(), col2, Ghost(c[3]));
    emit_all(&mut out, row.as_str(), Ghost(doc), Ghost(table::table_row("RTT jitter"@, col1 as nat, c[3], col2 as nat)));
    proof {
        lemma_concat_associative(top.push(("\n"@, plain_look())), rows, table::table_row("RTT jitter"@, col1 as nat, c[3], col2 as nat));
        rows = rows + table::table_row("RTT jitter"@, col1 as nat, c[3], col2 as nat);
        doc = top.push(("\n"@, plain_look())) + rows;
    }
    let row = table::row_line("packet loss", col1, cells[4].as_str(), col2, Ghost(c[4]));
    emit_all(&mut out, row.as_str(), Ghost(doc), Ghost(table::table_row("packet loss"@, col1 as nat, c[4], col2 as nat)));
    proof {
        lemma_concat_associative(top.push(("\n"@, plain_look())), rows, table::table_row("packet loss"@, col1 as nat, c[4], col2 as nat));
        rows = rows + table::table_row("packet loss"@, col1 as nat, c[4], col2 as nat);
        doc = top.push(("\n"@, plain_look())) + rows;
    }
    let row = table::row_line("recommended samples", col1, cells[5].as_str(), col2, Ghost(c[5]));
    emit_all(&mut out, row.as_str(), Ghost(doc), Ghost(table::table_row("recommended samples"@, col1 as nat, c[5], col2 as nat)));
    proof {
        lemma_concat_associative(top.push(("\n"@, plain_look())), rows, table::table_row("recommended samples"@, col1 as nat, c[5], col2 as nat));
        rows = rows + table::table_row("recommended samples"@, col1 as nat, c[5], col2 as nat);
        doc = top.push(("\n"@, plain_look())) + rows;
    }
    let row = table::row_line("environment quality", col1, cells[6].as_str(), col2, Ghost(c[6]));
    emit_all(&mut out, row.as_str(), Ghost(doc), Ghost(table::table_row("environment quality"@, col1 as nat, c[6], col2 as nat)));
    proof {
        lemma_concat_associative(top.push(("\n"@, plain_look())), rows, table::table_row("environment quality"@, col1 as nat, c[6], col2 as nat));
        rows = rows + table::table_row("environment quality"@, col1 as nat, c[6], col2 as nat);
        doc = top.push(("\n"@, plain_look())) + rows;
        assert(rows == doctor_rows(r, col2 as nat));
    }
    let mut b = table::bottom(col1, col2);
    emit_plain(&mut b, "\n", Ghost(table::bottom_pieces(col1 as nat, col2 as nat)));
    emit_all(&mut out, b.as_str(), Ghost(doc), Ghost(table::bottom_pieces(col1 as nat, col2 as nat).push(("\n"@, plain_look()))));
    out
}

/// The `doctor` summary as a two-column table, the value column as wide
/// as its widest cell (and at least 10), followed by the advice for the
/// path's grade. A table whose value column would not leave room for its
/// borders in a `usize` cannot be drawn.
pub fn doctor(report: &DoctorReport) -> (out: String)
    requires
        doctor_value_column(*report) + 2 <= usize::MAX,
    ensures
        painted_concat(doctor_pieces(*report), out@),
{
    let cells = doctor_cells_text(report);
    let col2 = doctor_column(&cells, Ghost(doctor_cells(*report)));
    assert(doctor_cells(*report).len() == 7);
    let mut out = doctor_table_text(&cells, col2, Ghost(*report));
    let quality = report.quality();
    let advice = doctor_advice_text(quality);
    emit_all(
        &mut out,
        advice.as_str(),
        Ghost(
            table::top_pieces(LABEL_COLUMN as nat, col2 as nat).push(("\n"@, plain_look())) + doctor_rows(*report, col2 as nat)
                + table::bottom_pieces(LABEL_COLUMN as nat, col2 as nat).push(("\n"@, plain_look())),
        ),
        Ghost(doctor_advice(quality)),
    );
    out
}

/// The looks the `doctor` output draws in: the frame, the warning and
/// success marks, and the chip of the path's own grade.
pub open spec fn doctor_looks(r: DoctorReport) -> Set<Look> {
    set![dim_look(), plain_look(), value_look(), warn_look(), ok_look(), badge_look(quality_badge(doctor_quality(r)))]
}

proof fn lemma_table_row_looks(label: Seq<char>, col1: nat, value: Piece, col2: nat, allowed: Set<Look>)
    requires
        allowed.contains(dim_look()),
        allowed.contains(plain_look()),
        allowed.contains(value.1),
    ensures
        looks_among(table::table_row(label, col1, value, col2), allowed),
{
    let row = table::table_row(label, col1, value, col2);
    assert forall|i: int| 0 <= i < row.len() implies allowed.contains(#[trigger] row[i].1) by {
        if i == 0 {} else if i == 1 {} else if i == 2 {} else if i == 3 {} else if i == 4 {} else if i == 5 {} else if i == 6 {} else if i == 7 {}
    }
}

proof fn lemma_doctor_looks(r: DoctorReport)
    ensures
        looks_among(doctor_pieces(r), doctor_looks(r)),
{
    let s = doctor_looks(r);
    let col2 = doctor_value_column(r);
    let c = doctor_cells(r);
    let col1 = LABEL_COLUMN as nat;
    let top = table::top_pieces(col1, col2).push(("\n"@, plain_look()));
    let bot = table::bottom_pieces(col1, col2).push(("\n"@, plain_look()));
    let adv = doctor_advice(doctor_quality(r));
    assert forall|i: int| 0 <= i < top.len() implies s.contains(#[trigger] top[i].1) by {
        if i == 0 {} else if i == 1 {}
    }
    assert forall|i: int| 0 <= i < bot.len() implies s.contains(#[trigger] bot[i].1) by {
        if i == 0 {} else if i == 1 {}
    }
    assert forall|i: int| 0 <= i < adv.len() implies s.contains(#[trigger] adv[i].1) by {
        if i == 0 {} else if i == 1 {}
    }
    assert forall|k: int| 0 <= k < 7 implies s.contains(#[trigger] c[k].1) by {
        if k == 5 {
            assert(c[5] == recommended_cell(r.recommended_samples));
        }
    }
    lemma_table_row_looks("target"@, col1, c[0], col2, s);
    lemma_table_row_looks("samples"@, col1, c[1], col2, s);
    lemma_table_row_looks("median RTT"@, col1, c[2], col2, s);
    lemma_table_row_looks("RTT jitter"@, col1, c[3], col2, s);
    lemma_table_row_looks("packet loss"@, col1, c[4], col2, s);
    lemma_table_row_looks("recommended samples"@, col1, c[5], col2, s);
    lemma_table_row_looks("environment quality"@, col1, c[6], col2, s);
    let r0 = table::table_row("target"@, col1, c[0], col2);
    let r1 = table::table_row("samples"@, col1, c[1], col2);
    let r2 = table::table_row("median RTT"@, col1, c[2], col2);
    let r3 = table::table_row("RTT jitter"@, col1, c[3], col2);
    let r4 = table::table_row("packet loss"@, col1, c[4], col2);
    let r5 = table::table_row("recommended samples"@, col1, c[5], col2);
    let r6 = table::table_row("environment quality"@, col1, c[6], col2);
    lemma_looks_concat(top, r0, s);
    lemma_looks_concat(top + r0, r1, s);
    lemma_looks_concat(top + r0 + r1, r2, s);
    lemma_looks_concat(top + r0 + r1 + r2, r3, s);
    lemma_looks_concat(top + r0 + r1 + r2 + r3, r4, s);
    lemma_looks_concat(top + r0 + r1 + r2 + r3 + r4, r5, s);
    lemma_looks_concat(top + r0 + r1 + r2 + r3 + r4 + r5, r6, s);
    lemma_looks_concat(top + r0 + r1 + r2 + r3 + r4 + r5 + r6, bot, s);
    lemma_looks_concat(top + r0 + r1 + r2 + r3 + r4 + r5 + r6 + bot, adv, s);
    assert(doctor_pieces(r) =~= top + r0 + r1 + r2 + r3 + r4 + r5 + r6 + bot + adv);
}

/// The `doctor` output shows no chip of another grade than the path's.
pub proof fn lemma_doctor_shows_no_other_grade(r: DoctorReport)
    ensures
        forall|q: EnvironmentQuality|
            q != doctor_quality(r) ==> !occurs(
                doctor_pieces(r),
                #[trigger] seq![(seq![' '] + quality_label(q) + seq![' '], badge_look(quality_badge(q)))],
            ),
{
    lemma_doctor_looks(r);
    assert forall|q: EnvironmentQuality| q != doctor_quality(r) implies !occurs(
        doctor_pieces(r),
        #[trigger] seq![(seq![' '] + quality_label(q) + seq![' '], badge_look(quality_badge(q)))],
    ) by {
        let p = (seq![' '] + quality_label(q) + seq![' '], badge_look(quality_badge(q)));
        assert(!doctor_looks(r).contains(p.1));
        lemma_looks_avoid(doctor_pieces(r), doctor_looks(r), p);
        lemma_avoids_no_occurs(doctor_pieces(r), p);
    }
}

/// The `doctor` table shows the path's grade as the chip of that grade
/// (" GOOD ", " FAIR " or " POOR ", in that grade's badge look) and the
/// jitter figure followed by its class ("low", "medium" or "high"), the
/// same classification the plain summary prints.
pub proof fn lemma_doctor_shows_grade(r: DoctorReport)
    ensures
        occurs(
            doctor_pieces(r),
            seq![(seq![' '] + quality_label(doctor_quality(r)) + seq![' '], badge_look(quality_badge(doctor_quality(r))))],
        ),
        occurs(
            doctor_pieces(r),
            seq![(r.jitter_ms@ + " ms ("@ + jitter_label(r.jitter_level) + ")"@, plain_look())],
        ),
{
    let col2 = doctor_value_column(r);
    let c = doctor_cells(r);
    let col1 = LABEL_COLUMN as nat;
    let top = table::top_pieces(col1, col2).push(("\n"@, plain_look()));
    let after = table::bottom_pieces(col1, col2).push(("\n"@, plain_look())) + doctor_advice(doctor_quality(r));
    let r0 = table::table_row("target"@, col1, c[0], col2);
    let r1 = table::table_row("samples"@, col1, c[1], col2);
    let r2 = table::table_row("median RTT"@, col1, c[2], col2);
    let r3 = table::table_row("RTT jitter"@, col1, c[3], col2);
    let r4 = table::table_row("packet loss"@, col1, c[4], col2);
    let r5 = table::table_row("recommended samples"@, col1, c[5], col2);
    let r6 = table::table_row("environment quality"@, col1, c[6], col2);
    assert(doctor_pieces(r) =~= (top + r0 + r1 + r2 + r3 + r4 + r5) + r6 + after);
    assert(doctor_pieces(r) =~= (top + r0 + r1 + r2) + r3 + (r4 + r5 + r6 + after));
    let grade = seq![c[6]];
    assert(r6.subrange(4, 5) =~= grade);
    lemma_occurs_at(r6, 4, grade);
    lemma_occurs_within(top + r0 + r1 + r2 + r3 + r4 + r5, r6, after, grade);
    let jitter = seq![c[3]];
    assert(r3.subrange(4, 5) =~= jitter);
    lemma_occurs_at(r3, 4, jitter);
    lemma_occurs_within(top + r0 + r1 + r2, r3, r4 + r5 + r6 + after, jitter);
}

proof fn lemma_widest(cells: Seq<Piece>, n: nat)
    requires
        n <= cells.len(),
    ensures
        forall|i: int| 0 <= i < n ==> visible_width_of(#[trigger] cells[i].0) <= widest(cells, n),
        widest(cells, n) >= 10,
        widest(cells, n) > 10 ==> exists|i: int| 0 <= i < n && visible_width_of(#[trigger] cells[i].0) == widest(cells, n),
    decreases n,
{
    if n > 0 {
        lemma_widest(cells, (n - 1) as nat);
        if widest(cells, n) > 10 && widest(cells, n) != visible_width_of(cells[n - 1].0) {
            let i = choose|i: int| 0 <= i < n - 1 && visible_width_of(#[trigger] cells[i].0) == widest(cells, (n - 1) as nat);
            assert(visible_width_of(cells[i].0) == widest(cells, n));
        }
    }
}

/// The value column of the `doctor` table clips no cell and wastes no
/// space: every cell fits in it, it is at least 10 wide, and when it is
/// wider than 10 some cell fills it exactly.
pub proof fn lemma_doctor_column_fits(r: DoctorReport)
    ensures
        forall|i: int| 0 <= i < doctor_cells(r).len() ==> visible_width_of(#[trigger] doctor_cells(r)[i].0) <= doctor_value_column(r),
        doctor_value_column(r) >= 10,
        doctor_value_column(r) > 10 ==> exists|i: int|
            0 <= i < doctor_cells(r).len() && visible_width_of(#[trigger] doctor_cells(r)[i].0) == doctor_value_column(r),
{
    lemma_widest(doctor_cells(r), 7);
}

} // verus!
