//! Small string-building helpers over `char` sequences.
use vstd::prelude::*;
use crate::ansi::repeated;

verus! {

/// Appends one character, through `String::push`.
#[verifier::external_body]
pub(crate) fn push_char(s: &mut String, c: char)
    ensures
        final(s)@ == old(s)@.push(c),
{
    s.push(c);
}

/// `n` copies of `c`, as a string (what `str::repeat` gives for a
/// one-character string).
pub fn repeat_char(c: char, n: usize) -> (s: String)
    ensures
        s@ == repeated(c, n as nat),
{
    let mut s = String::new();
    let mut i: usize = 0;
    while i < n
        invariant
            i <= n,
            s@ == repeated(c, i as nat),
        decreases n - i,
    {
        push_char(&mut s, c);
        i = i + 1;
        assert(s@ == repeated(c, i as nat));
    }
    s
}

/// The Unicode `White_Space` property, which `char::is_whitespace` tests.
pub open spec fn is_white_space(c: char) -> bool {
    ||| ('\u{9}' <= c && c <= '\u{d}')
    ||| c == ' '
    ||| c == '\u{85}'
    ||| c == '\u{a0}'
    ||| c == '\u{1680}'
    ||| ('\u{2000}' <= c && c <= '\u{200a}')
    ||| c == '\u{2028}'
    ||| c == '\u{2029}'
    ||| c == '\u{202f}'
    ||| c == '\u{205f}'
    ||| c == '\u{3000}'
}

pub fn is_whitespace(c: char) -> (r: bool)
    ensures
        r == is_white_space(c),
{
    ('\u{9}' <= c && c <= '\u{d}') || c == ' ' || c == '\u{85}' || c == '\u{a0}' || c == '\u{1680}' || (
    '\u{2000}' <= c && c <= '\u{200a}') || c == '\u{2028}' || c == '\u{2029}' || c == '\u{202f}' || c
        == '\u{205f}' || c == '\u{3000}'
}

/// Words found so far and the word being read, scanning left to right.
pub open spec fn split_state(s: Seq<char>) -> (Seq<Seq<char>>, Seq<char>)
    decreases s.len(),
{
    if s.len() == 0 {
        (Seq::empty(), Seq::empty())
    } else {
        let prev = split_state(s.drop_last());
        let c = s.last();
        if is_white_space(c) {
            if prev.1.len() > 0 {
                (prev.0.push(prev.1), Seq::empty())
            } else {
                prev
            }
        } else {
            (prev.0, prev.1.push(c))
        }
    }
}

/// The maximal runs of non-whitespace characters of `s`, in order (what
/// `str::split_whitespace` yields).
pub open spec fn whitespace_words(s: Seq<char>) -> Seq<Seq<char>> {
    let st = split_state(s);
    if st.1.len() > 0 {
        st.0.push(st.1)
    } else {
        st.0
    }
}

/// A word: non-empty, without whitespace.
pub open spec fn is_word(w: Seq<char>) -> bool {
    w.len() > 0 && forall|i: int| 0 <= i < w.len() ==> !is_white_space(#[trigger] w[i])
}

proof fn lemma_split_state_words(s: Seq<char>)
    ensures
        forall|i: int| 0 <= i < split_state(s).0.len() ==> is_word(#[trigger] split_state(s).0[i]),
        forall|i: int| 0 <= i < split_state(s).1.len() ==> !is_white_space(#[trigger] split_state(s).1[i]),
    decreases s.len(),
{
    if s.len() > 0 {
        lemma_split_state_words(s.drop_last());
        let prev = split_state(s.drop_last());
        let c = s.last();
        if is_white_space(c) {
            if prev.1.len() > 0 {
                let ws = prev.0.push(prev.1);
                assert forall|i: int| 0 <= i < ws.len() implies is_word(#[trigger] ws[i]) by {
                    if i < prev.0.len() {
                        assert(ws[i] == prev.0[i]);
                    } else {
                        assert(ws[i] == prev.1);
                    }
                }
            }
        } else {
            let cur = prev.1.push(c);
            assert forall|i: int| 0 <= i < cur.len() implies !is_white_space(#[trigger] cur[i]) by {
                if i < prev.1.len() {
                    assert(cur[i] == prev.1[i]);
                }
            }
        }
    }
}

/// Every whitespace-separated word is non-empty and holds no whitespace.
pub proof fn lemma_whitespace_words_are_words(s: Seq<char>)
    ensures
        forall|i: int| 0 <= i < whitespace_words(s).len() ==> is_word(#[trigger] whitespace_words(s)[i]),
{
    lemma_split_state_words(s);
}

/// Splits `text` at runs of whitespace, dropping empty pieces.
pub fn split_whitespace(text: &str) -> (words: Vec<String>)
    ensures
        words.deep_view() == whitespace_words(text@),
{
    let mut words: Vec<String> = Vec::new();
    let mut current = String::new();
    for c in it: text.chars()
        invariant
            it.seq() == text@,
            (words.deep_view(), current@) == split_state(it.seq().take(it.index())),
    {
        proof {
            assert(it.seq().take(it.index() + 1).drop_last() == it.seq().take(it.index()));
        }
        if is_whitespace(c) {
            if !current.as_str().is_empty() {
                let ghost before = words.deep_view();
                words.push(current);
                current = String::new();
                proof {
                    assert(words.deep_view() =~= before.push(split_state(it.seq().take(it.index())).1));
                }
            }
        } else {
            push_char(&mut current, c);
        }
    }
    proof {
        assert(text@.take(text@.len() as int) == text@);
    }
    if !current.as_str().is_empty() {
        let ghost before = words.deep_view();
        words.push(current);
        proof {
            assert(words.deep_view() =~= before.push(split_state(text@).1));
        }
    }
    words
}

/// `s` without its trailing run of `\n` and `\r` characters.
pub open spec fn trim_line_end(s: Seq<char>) -> Seq<char>
    decreases s.len(),
{
    if s.len() > 0 && (s.last() == '\n' || s.last() == '\r') {
        trim_line_end(s.drop_last())
    } else {
        s
    }
}

/// Strips every trailing `\n` and `\r` (what `trim_end_matches(['\n',
/// '\r'])` does), as for a line read from standard input.
pub fn trim_line_ending(line: &str) -> (out: String)
    ensures
        out@ == trim_line_end(line@),
{
    let mut kept = String::new();
    let mut tail = String::new();
    for c in it: line.chars()
        invariant
            it.seq() == line@,
            kept@ + tail@ == it.seq().take(it.index()),
            trim_line_end(it.seq().take(it.index())) == kept@,
            forall|i: int| 0 <= i < tail@.len() ==> (#[trigger] tail@[i] == '\n' || tail@[i] == '\r'),
            kept@.len() > 0 ==> !(kept@.last() == '\n' || kept@.last() == '\r'),
    {
        let ghost prefix = it.seq().take(it.index());
        proof {
            assert(it.seq().take(it.index() + 1) == prefix.push(c));
            assert(prefix.push(c).drop_last() == prefix);
        }
        if c == '\n' || c == '\r' {
            push_char(&mut tail, c);
            proof {
                lemma_trim_line_end_absorbs(kept@, tail@);
                assert(prefix.push(c) == kept@ + tail@);
            }
        } else {
            kept.append(tail.as_str());
            push_char(&mut kept, c);
            tail = String::new();
        }
    }
    proof {
        assert(line@.take(line@.len() as int) == line@);
    }
    kept
}

/// Trailing line-ending characters after a kept prefix are all trimmed.
proof fn lemma_trim_line_end_absorbs(kept: Seq<char>, tail: Seq<char>)
    requires
        forall|i: int| 0 <= i < tail.len() ==> (#[trigger] tail[i] == '\n' || tail[i] == '\r'),
        kept.len() > 0 ==> !(kept.last() == '\n' || kept.last() == '\r'),
    ensures
        trim_line_end(kept + tail) == kept,
    decreases tail.len(),
{
    if tail.len() == 0 {
        assert(kept + tail == kept);
    } else {
        assert((kept + tail).drop_last() == kept + tail.drop_last());
        assert((kept + tail).last() == tail.last());
        lemma_trim_line_end_absorbs(kept, tail.drop_last());
    }
}

/// `part` appears in `s` as a contiguous stretch.
pub open spec fn occurs<A>(s: Seq<A>, part: Seq<A>) -> bool {
    exists|i: int| 0 <= i && i + part.len() <= s.len() && #[trigger] s.subrange(i, i + part.len()) == part
}

pub proof fn lemma_occurs_self<A>(p: Seq<A>)
    ensures
        occurs(p, p),
{
    assert(p.subrange(0, 0 + p.len() as int) =~= p);
}

/// What appears in `s` still appears once something follows it.
pub proof fn lemma_occurs_then<A>(s: Seq<A>, part: Seq<A>, t: Seq<A>)
    requires
        occurs(s, part),
    ensures
        occurs(s + t, part),
{
    let i = choose|i: int| 0 <= i && i + part.len() <= s.len() && #[trigger] s.subrange(i, i + part.len()) == part;
    assert((s + t).subrange(i, i + part.len()) =~= s.subrange(i, i + part.len()));
}

/// What appears in `s` still appears once something precedes it.
pub proof fn lemma_occurs_after<A>(t: Seq<A>, s: Seq<A>, part: Seq<A>)
    requires
        occurs(s, part),
    ensures
        occurs(t + s, part),
{
    let i = choose|i: int| 0 <= i && i + part.len() <= s.len() && #[trigger] s.subrange(i, i + part.len()) == part;
    assert((t + s).subrange(t.len() + i, t.len() + i + part.len()) =~= s.subrange(i, i + part.len()));
}

} // verus!
