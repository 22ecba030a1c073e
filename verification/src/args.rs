//! Command-line values that need parsing beyond what the argument parser
//! does: repeated `NAME=VALUE` headers and per-run output file names.
use vstd::prelude::*;
use crate::text::push_char;
use crate::ansi::is_plain;

verus! {

/// Index of the first occurrence of `c` in `s`.
pub open spec fn first_index(s: Seq<char>, c: char) -> Option<nat>
    decreases s.len(),
{
    if s.len() == 0 {
        None
    } else {
        match first_index(s.drop_last(), c) {
            Some(i) => Some(i),
            None => if s.last() == c {
                Some((s.len() - 1) as nat)
            } else {
                None
            },
        }
    }
}

/// `s` split around the first `sep`, which belongs to neither side (what
/// `str::split_once` gives for a one-character separator).
pub open spec fn split_once_at(s: Seq<char>, sep: char) -> Option<(Seq<char>, Seq<char>)> {
    match first_index(s, sep) {
        Some(i) => Some((s.take(i as int), s.skip(i as int + 1))),
        None => None,
    }
}

proof fn lemma_first_index_bounds(s: Seq<char>, c: char)
    ensures
        first_index(s, c) matches Some(i) ==> i < s.len() && s[i as int] == c && forall|j: int|
            0 <= j < i ==> s[j] != c,
        first_index(s, c) is None ==> forall|j: int| 0 <= j < s.len() ==> s[j] != c,
    decreases s.len(),
{
    if s.len() > 0 {
        lemma_first_index_bounds(s.drop_last(), c);
        assert forall|j: int| 0 <= j < s.len() - 1 implies s.drop_last()[j] == s[j] by {}
        assert(s.last() == s[s.len() - 1]);
    }
}

pub fn split_once(s: &str, sep: char) -> (r: Option<(String, String)>)
    ensures
        match r {
            Some((a, b)) => split_once_at(s@, sep) == Some((a@, b@)),
            None => split_once_at(s@, sep) is None,
        },
{
    let mut before = String::new();
    let mut after = String::new();
    let mut found = false;
    for c in it: s.chars()
        invariant
            it.seq() == s@,
            !found ==> before@ == it.seq().take(it.index()) && first_index(before@, sep) is None
                && after@.len() == 0,
            found ==> (first_index(it.seq().take(it.index()), sep) matches Some(i) && before@ == it.seq().take(
                i as int,
            ) && after@ == it.seq().subrange(i as int + 1, it.index())),
    {
        let ghost prefix = it.seq().take(it.index());
        proof {
            assert(it.seq().take(it.index() + 1).drop_last() == prefix);
            assert(it.seq().take(it.index() + 1).last() == c);
        }
        if found {
            push_char(&mut after, c);
            proof {
                let i = first_index(prefix, sep)->0;
                lemma_first_index_bounds(prefix, sep);
                assert(after@ =~= it.seq().subrange(i as int + 1, it.index() + 1));
                assert(before@ =~= it.seq().take(it.index() + 1).take(i as int));
            }
        } else if c == sep {
            found = true;
            proof {
                assert(after@ =~= it.seq().subrange(it.index() + 1, it.index() + 1));
                assert(it.seq().take(it.index() + 1).take(it.index() as int) == prefix);
            }
        } else {
            push_char(&mut before, c);
            proof {
                assert(before@ == prefix.push(c));
                assert(before@.drop_last() == prefix);
                assert(before@ == it.seq().take(it.index() + 1));
            }
        }
    }
    proof {
        assert(s@.take(s@.len() as int) == s@);
    }
    if found {
        proof {
            let i = first_index(s@, sep)->0;
            lemma_first_index_bounds(s@, sep);
            assert(after@ =~= s@.skip(i as int + 1));
        }
        Some((before, after))
    } else {
        None
    }
}

/// An `--extra-header` value that is not in `NAME=VALUE` form.
pub struct ExtraHeaderError {
    pub entry: String,
}

/// Parses repeated `--extra-header NAME=VALUE` values. Each is split on
/// its first `=` only, so a value that itself holds `=` (a cookie pair, a
/// padded base64 token) is kept whole. The first entry without `=` is
/// reported.
pub fn parse_extra_headers(raw: &Vec<String>) -> (r: Result<Vec<(String, String)>, ExtraHeaderError>)
    ensures
        match r {
            Ok(pairs) => {
                &&& pairs@.len() == raw@.len()
                &&& forall|i: int|
                    0 <= i < raw@.len() ==> split_once_at(raw@[i]@, '=') == Some(
                        (#[trigger] pairs@[i].0@, pairs@[i].1@),
                    )
            },
            Err(e) => exists|i: int|
                0 <= i < raw@.len() && e.entry@ == raw@[i]@ && split_once_at(raw@[i]@, '=') is None
                    && forall|j: int| 0 <= j < i ==> split_once_at(raw@[j]@, '=') is Some,
        },
{
    let mut pairs: Vec<(String, String)> = Vec::new();
    let mut i: usize = 0;
    while i < raw.len()
        invariant
            i <= raw@.len(),
            pairs@.len() == i,
            forall|k: int|
                0 <= k < i ==> split_once_at(raw@[k]@, '=') == Some((#[trigger] pairs@[k].0@, pairs@[k].1@)),
        decreases raw@.len() - i,
    {
        match split_once(raw[i].as_str(), '=') {
            Some(pair) => {
                pairs.push(pair);
            },
            None => {
                let entry = raw[i].clone();
                proof {
                    assert forall|j: int| 0 <= j < i implies split_once_at(raw@[j]@, '=') is Some by {
                        assert(split_once_at(raw@[j]@, '=') == Some((pairs@[j].0@, pairs@[j].1@)));
                    }
                }
                return Err(ExtraHeaderError { entry });
            },
        }
        i = i + 1;
    }
    Ok(pairs)
}

/// The character of a decimal digit.
pub open spec fn digit_char(d: nat) -> char {
    (48 + d) as char
}

/// Decimal notation of `n`, without leading zeros (what `Display` writes
/// for an unsigned integer).
pub open spec fn decimal(n: nat) -> Seq<char>
    decreases n,
{
    if n < 10 {
        seq![digit_char(n)]
    } else {
        decimal(n / 10).push(digit_char(n % 10))
    }
}

/// Decimal notation holds no escape character.
pub proof fn lemma_decimal_plain(n: nat)
    ensures
        is_plain(decimal(n)),
    decreases n,
{
    if n >= 10 {
        lemma_decimal_plain(n / 10);
        let d = decimal(n / 10);
        assert forall|i: int| 0 <= i < decimal(n).len() implies decimal(n)[i] != '\u{1b}' by {
            if i < d.len() {
                assert(decimal(n)[i] == d[i]);
            }
        }
    }
}

pub fn decimal_string(n: usize) -> (s: String)
    ensures
        s@ == decimal(n as nat),
{
    decimal_u64(n as u64)
}

pub fn decimal_u64(n: u64) -> (s: String)
    ensures
        s@ == decimal(n as nat),
    decreases n,
{
    let digit = (48 + (n % 10) as u8) as char;
    if n < 10 {
        let mut s = String::new();
        push_char(&mut s, digit);
        proof {
            assert(s@ =~= seq![digit_char(n as nat)]);
        }
        s
    } else {
        let mut s = decimal_u64(n / 10);
        push_char(&mut s, digit);
        s
    }
}

/// The file-name stem of a path given as text: what `Path::file_stem`
/// returns (the last component without its final extension), as text.
pub uninterp spec fn path_file_stem(path: Seq<char>) -> Option<Seq<char>>;

/// The extension of a path given as text: what `Path::extension` returns.
pub uninterp spec fn path_extension(path: Seq<char>) -> Option<Seq<char>>;

/// The path with its last component replaced: what
/// `Path::with_file_name` returns, as text.
pub uninterp spec fn path_with_file_name(path: Seq<char>, file_name: Seq<char>) -> Seq<char>;

/// `std::path::Path::file_stem` of `path`. A path built from UTF-8 text
/// has UTF-8 components, so the conversion back to text loses nothing.
#[verifier::external_body]
fn file_stem(path: &str) -> (r: Option<String>)
    ensures
        r matches Some(s) ==> path_file_stem(path@) == Some(s@),
        r is None ==> path_file_stem(path@) is None,
{
    match std::path::Path::new(path).file_stem() {
        Some(stem) => Some(stem.to_string_lossy().into_owned()),
        None => None,
    }
}

/// `std::path::Path::extension` of `path`, as text.
#[verifier::external_body]
fn extension(path: &str) -> (r: Option<String>)
    ensures
        r matches Some(s) ==> path_extension(path@) == Some(s@),
        r is None ==> path_extension(path@) is None,
{
    match std::path::Path::new(path).extension() {
        Some(ext) => Some(ext.to_string_lossy().into_owned()),
        None => None,
    }
}

/// `std::path::Path::with_file_name` of `path`, as text.
#[verifier::external_body]
fn with_file_name(path: &str, file_name: &str) -> (r: String)
    ensures
        r@ == path_with_file_name(path@, file_name@),
{
    std::path::Path::new(path).with_file_name(file_name).to_string_lossy().into_owned()
}

/// File name of run `run` (counted from 1) of a repeated check:
/// `<stem>-run<run>.<ext>`, the stem defaulting to `report` and the dot
/// and extension left out when there is none.
pub open spec fn run_file_name(stem: Option<Seq<char>>, ext: Option<Seq<char>>, run: nat) -> Seq<char> {
    let base = match stem {
        Some(s) => s,
        None => seq!['r', 'e', 'p', 'o', 'r', 't'],
    };
    let named = base + seq!['-', 'r', 'u', 'n'] + decimal(run);
    match ext {
        Some(e) => named + seq!['.'] + e,
        None => named,
    }
}

/// The text of an optional text.
pub open spec fn opt_text(t: Option<&str>) -> Option<Seq<char>> {
    match t {
        Some(s) => Some(s@),
        None => None,
    }
}

/// The file name of run `run` (counted from 1) of a repeated check, from
/// the stem and the extension of the output path: `<stem>-run<run>.<ext>`,
/// the stem defaulting to `report` and the dot and extension left out
/// when there is none.
pub fn run_name(stem: Option<&str>, ext: Option<&str>, run: usize) -> (name: String)
    ensures
        name@ == run_file_name(opt_text(stem), opt_text(ext), run as nat),
{
    let mut name = match stem {
        Some(s) => String::from_str(s),
        None => String::from_str("report"),
    };
    proof {
        reveal_strlit("report");
        reveal_strlit("-run");
        reveal_strlit(".");
        assert("report"@ =~= seq!['r', 'e', 'p', 'o', 'r', 't']);
        assert("-run"@ =~= seq!['-', 'r', 'u', 'n']);
        assert("."@ =~= seq!['.']);
    }
    name.append("-run");
    let number = decimal_string(run);
    name.append(number.as_str());
    match ext {
        Some(e) => {
            name.append(".");
            name.append(e);
        },
        None => {},
    }
    name
}

/// With `repeat` above 1, each run's output file gets `-run<N>` inserted
/// before its extension so that runs do not overwrite each other; with one
/// run the path is left as it is.
pub fn suffix_path(path: &str, repeat: usize, index: usize) -> (out: String)
    requires
        repeat > 1 ==> index < usize::MAX,
    ensures
        repeat <= 1 ==> out@ == path@,
        repeat > 1 ==> out@ == path_with_file_name(
            path@,
            run_file_name(path_file_stem(path@), path_extension(path@), index as nat + 1),
        ),
{
    if repeat <= 1 {
        return String::from_str(path);
    }
    let stem = file_stem(path);
    let ext = extension(path);
    let stem_text: Option<&str> = match &stem {
        Some(s) => Some(s.as_str()),
        None => None,
    };
    let ext_text: Option<&str> = match &ext {
        Some(e) => Some(e.as_str()),
        None => None,
    };
    let name = run_name(stem_text, ext_text, index + 1);
    with_file_name(path, name.as_str())
}

} // verus!
