//! Request scheduling for the two measured classes and the values sent.
//!
//! The classes ("wrong value" A and "correct value" B) are interleaved in
//! randomly shuffled blocks, never sent all-A-then-all-B, so that drift
//! over time (server warm-up, background load) does not bias the result.
//! The network requests themselves are made by the caller; this module
//! decides which class goes next and when a run must stop.
use vstd::prelude::*;
use rand::rngs::StdRng;
use crate::rng::{random_below, shuffle_flags};
use crate::text::push_char;
use vstd::utf8::encode_utf8;

verus! {

broadcast use vstd::seq_lib::group_to_multiset_ensures;

/// Number of occurrences of `v` in `s`.
pub open spec fn count_of(s: Seq<bool>, v: bool) -> nat
    decreases s.len(),
{
    if s.len() == 0 {
        0
    } else {
        count_of(s.drop_last(), v) + if s.last() == v {
            1nat
        } else {
            0nat
        }
    }
}

pub proof fn lemma_count_of_multiset(s: Seq<bool>, v: bool)
    ensures
        count_of(s, v) == s.to_multiset().count(v),
    decreases s.len(),
{
    if s.len() > 0 {
        lemma_count_of_multiset(s.drop_last(), v);
        assert(s.drop_last().push(s.last()) == s);
    }
}

pub proof fn lemma_count_of_take(s: Seq<bool>, v: bool, p: int)
    requires
        0 <= p < s.len(),
    ensures
        count_of(s.take(p + 1), v) == count_of(s.take(p), v) + if s[p] == v {
            1nat
        } else {
            0nat
        },
        count_of(s.take(p + 1), v) <= count_of(s, v),
    decreases s.len(),
{
    assert(s.take(p + 1).drop_last() == s.take(p));
    if p + 1 < s.len() {
        lemma_count_of_take(s.drop_last(), v, p);
        assert(s.drop_last().take(p + 1) == s.take(p + 1));
    } else {
        assert(s.take(p + 1) == s);
    }
}

pub proof fn lemma_count_of_split(s: Seq<bool>)
    ensures
        count_of(s, true) + count_of(s, false) == s.len(),
    decreases s.len(),
{
    if s.len() > 0 {
        lemma_count_of_split(s.drop_last());
    }
}

/// The 62 characters a generated wrong value is made of: `A`-`Z`, then
/// `a`-`z`, then `0`-`9`.
pub open spec fn charset_char(i: int) -> char {
    if i < 26 {
        (65 + i) as char
    } else if i < 52 {
        (97 + (i - 26)) as char
    } else {
        (48 + (i - 52)) as char
    }
}

pub open spec fn in_charset(c: char) -> bool {
    ('A' <= c && c <= 'Z') || ('a' <= c && c <= 'z') || ('0' <= c && c <= '9')
}

pub const CHARSET_LEN: usize = 62;

fn charset_at(i: usize) -> (c: char)
    requires
        i < CHARSET_LEN,
    ensures
        c == charset_char(i as int),
        in_charset(c),
{
    let b: u8 = if i < 26 {
        65 + i as u8
    } else if i < 52 {
        97 + (i - 26) as u8
    } else {
        48 + (i - 52) as u8
    };
    b as char
}

/// `n` characters drawn uniformly from the charset.
fn draw_candidate(n: usize, rng: &mut StdRng) -> (s: String)
    ensures
        s@.len() == n,
        forall|i: int| 0 <= i < n ==> in_charset(#[trigger] s@[i]),
{
    let mut s = String::new();
    let mut i: usize = 0;
    while i < n
        invariant
            i <= n,
            s@.len() == i,
            forall|j: int| 0 <= j < i ==> in_charset(#[trigger] s@[j]),
        decreases n - i,
    {
        let k = random_below(rng, CHARSET_LEN);
        let c = charset_at(k);
        push_char(&mut s, c);
        i = i + 1;
    }
    s
}

/// Generates a deliberately wrong value with as many characters as the
/// secret has bytes, so that payload length is not a separate variable
/// skewing the measurement. Draws are repeated until one differs from the
/// secret; should `u64::MAX` draws in a row all equal it (which does not
/// happen), the first character of the last draw is changed instead. The
/// secret must be non-empty: for an empty secret every draw is empty too,
/// and no draw ever differs from it.
pub fn random_wrong_value(secret: &str, rng: &mut StdRng) -> (out: String)
    requires
        secret@.len() > 0,
    ensures
        out@.len() == encode_utf8(secret@).len(),
        forall|i: int| 0 <= i < out@.len() ==> in_charset(#[trigger] out@[i]),
        out@ != secret@,
{
    let n = secret.as_bytes().len();
    let target = String::from_str(secret);
    proof {
        assert(encode_utf8(secret@).len() > 0) by {
            reveal_with_fuel(encode_utf8, 2);
        }
    }
    let mut attempts_left: u64 = u64::MAX;
    loop
        invariant
            n == encode_utf8(secret@).len(),
            n > 0,
            target@ == secret@,
        decreases attempts_left,
    {
        let candidate = draw_candidate(n, rng);
        if !(candidate == target) {
            return candidate;
        }
        if attempts_left == 0 {
            return change_first_char(&candidate);
        }
        attempts_left = attempts_left - 1;
    }
}

/// `s` with its first character replaced by another charset character.
fn change_first_char(s: &String) -> (out: String)
    requires
        s@.len() > 0,
        forall|i: int| 0 <= i < s@.len() ==> in_charset(#[trigger] s@[i]),
    ensures
        out@.len() == s@.len(),
        out@[0] != s@[0],
        forall|i: int| 0 <= i < out@.len() ==> in_charset(#[trigger] out@[i]),
{
    let mut out = String::new();
    let mut first = true;
    for c in it: s.chars()
        invariant
            it.seq() == s@,
            forall|i: int| 0 <= i < s@.len() ==> in_charset(#[trigger] s@[i]),
            first == (it.index() == 0),
            out@.len() == it.index(),
            it.index() > 0 ==> out@[0] != s@[0],
            forall|i: int| 0 <= i < out@.len() ==> in_charset(#[trigger] out@[i]),
    {
        if first {
            let replacement = if c == 'A' {
                'B'
            } else {
                'A'
            };
            push_char(&mut out, replacement);
            first = false;
        } else {
            assert(in_charset(s@[it.index() as int]));
            push_char(&mut out, c);
        }
    }
    out
}

/// Abstract state of an interleaved run.
pub struct ScheduleState {
    pub n_per_class: nat,
    pub block_size: nat,
    /// requests of each class not yet placed in a block
    pub unplaced_a: nat,
    pub unplaced_b: nat,
    /// the current block (true = class A) and how much of it was handed out
    pub block: Seq<bool>,
    pub position: nat,
    /// the class of the request handed out and not yet recorded
    pub pending: Option<bool>,
    pub sent_a: nat,
    pub sent_b: nat,
    /// requests recorded so far, and how many of them failed
    pub done: nat,
    pub failures: nat,
}

impl ScheduleState {
    /// Every request of each class is exactly one of: already handed out,
    /// waiting in the rest of the current block, or not yet placed.
    pub open spec fn wf(self) -> bool {
        &&& self.position <= self.block.len()
        &&& self.sent_a + (count_of(self.block, true) - count_of(self.block.take(self.position as int), true))
            + self.unplaced_a == self.n_per_class
        &&& self.sent_b + (count_of(self.block, false) - count_of(self.block.take(self.position as int), false))
            + self.unplaced_b == self.n_per_class
        &&& count_of(self.block.take(self.position as int), true) <= count_of(self.block, true)
        &&& count_of(self.block.take(self.position as int), false) <= count_of(self.block, false)
        &&& self.done + (if self.pending is Some { 1nat } else { 0nat }) == self.sent_a + self.sent_b
        &&& self.failures <= self.done
        &&& self.n_per_class * 2 <= usize::MAX
        &&& self.block_size > 0 || (self.unplaced_a == 0 && self.unplaced_b == 0)
        &&& self.block.len() <= 2 * self.n_per_class
        &&& self.unplaced_a == self.unplaced_b
        &&& count_of(self.block, true) == count_of(self.block, false)
        &&& count_of(self.block, true) <= self.block_size
    }

    /// Requests still to be handed out, across both classes.
    pub open spec fn outstanding(self) -> nat {
        (2 * self.n_per_class - self.sent_a - self.sent_b) as nat
    }

    /// The rule that stops a run over an unstable channel: more than 100
    /// requests attempted and more than a tenth of them failed.
    pub open spec fn failure_limit_exceeded(self) -> bool {
        self.done > 100 && self.failures * 10 > self.done
    }
}

pub open spec fn min_nat(a: nat, b: nat) -> nat {
    if a <= b {
        a
    } else {
        b
    }
}

/// What the caller should do after recording a request's outcome.
#[derive(PartialEq, Eq, Structural, Debug, Clone, Copy)]
pub enum RecordOutcome {
    Continue,
    /// Too many requests failed; `failures` of `attempted` requests.
    Abort { failures: usize, attempted: usize },
}

/// Decides the order of requests for a run of `n_per_class` requests per
/// class, in randomly shuffled blocks of up to `block_size` requests of
/// each class, and tracks failures.
pub struct InterleaveSchedule {
    n_per_class: usize,
    block_size: usize,
    unplaced_a: usize,
    unplaced_b: usize,
    block: Vec<bool>,
    position: usize,
    pending: Option<bool>,
    sent_a: usize,
    sent_b: usize,
    done: usize,
    failures: usize,
}

impl View for InterleaveSchedule {
    type V = ScheduleState;

    closed spec fn view(&self) -> ScheduleState {
        ScheduleState {
            n_per_class: self.n_per_class as nat,
            block_size: self.block_size as nat,
            unplaced_a: self.unplaced_a as nat,
            unplaced_b: self.unplaced_b as nat,
            block: self.block@,
            position: self.position as nat,
            pending: self.pending,
            sent_a: self.sent_a as nat,
            sent_b: self.sent_b as nat,
            done: self.done as nat,
            failures: self.failures as nat,
        }
    }
}

impl InterleaveSchedule {
    /// A schedule for `n_per_class` requests of each class. The block size
    /// must be positive when there is anything to send (with an empty
    /// block no request would ever be placed), and the total request count
    /// must fit in a `usize`.
    pub fn new(n_per_class: usize, block_size: usize) -> (s: Self)
        requires
            n_per_class <= usize::MAX / 2,
            block_size > 0 || n_per_class == 0,
        ensures
            s@.wf(),
            s@.n_per_class == n_per_class,
            s@.block_size == block_size,
            s@.unplaced_a == n_per_class,
            s@.unplaced_b == n_per_class,
            s@.block.len() == 0,
            s@.pending is None,
            s@.sent_a == 0,
            s@.sent_b == 0,
            s@.done == 0,
            s@.failures == 0,
    {
        let s = InterleaveSchedule {
            n_per_class,
            block_size,
            unplaced_a: n_per_class,
            unplaced_b: n_per_class,
            block: Vec::new(),
            position: 0,
            pending: None,
            sent_a: 0,
            sent_b: 0,
            done: 0,
            failures: 0,
        };
        proof {
            assert(s.block@.take(0) =~= Seq::<bool>::empty());
        }
        s
    }

    /// Total number of requests of the run, both classes.
    pub fn total(&self) -> (t: usize)
        requires
            self@.wf(),
        ensures
            t == 2 * self@.n_per_class,
    {
        self.n_per_class * 2
    }

    /// Number of requests recorded so far.
    pub fn done(&self) -> (d: usize)
        ensures
            d == self@.done,
    {
        self.done
    }

    /// Number of recorded requests that failed.
    pub fn failures(&self) -> (f: usize)
        ensures
            f == self@.failures,
    {
        self.failures
    }

    /// Builds and shuffles the next block: up to `block_size` requests of
    /// each class, from those not yet placed.
    fn refill(&mut self, rng: &mut StdRng)
        requires
            old(self)@.wf(),
            old(self)@.position == old(self)@.block.len(),
            old(self)@.pending is None,
            old(self)@.unplaced_a + old(self)@.unplaced_b > 0,
        ensures
            final(self)@.wf(),
            final(self)@.position == 0,
            final(self)@.block.len() > 0,
            count_of(final(self)@.block, true) == min_nat(old(self)@.block_size, old(self)@.unplaced_a),
            count_of(final(self)@.block, false) == min_nat(old(self)@.block_size, old(self)@.unplaced_b),
            final(self)@.unplaced_a == old(self)@.unplaced_a - min_nat(old(self)@.block_size, old(self)@.unplaced_a),
            final(self)@.unplaced_b == old(self)@.unplaced_b - min_nat(old(self)@.block_size, old(self)@.unplaced_b),
            final(self)@.n_per_class == old(self)@.n_per_class,
            final(self)@.block_size == old(self)@.block_size,
            final(self)@.pending == old(self)@.pending,
            final(self)@.sent_a == old(self)@.sent_a,
            final(self)@.sent_b == old(self)@.sent_b,
            final(self)@.done == old(self)@.done,
            final(self)@.failures == old(self)@.failures,
    {
        proof {
            assert(self.block@.take(self.position as int) =~= self.block@);
        }
        let take_a = if self.block_size < self.unplaced_a {
            self.block_size
        } else {
            self.unplaced_a
        };
        let take_b = if self.block_size < self.unplaced_b {
            self.block_size
        } else {
            self.unplaced_b
        };
        let mut block: Vec<bool> = Vec::new();
        let mut i: usize = 0;
        while i < take_a
            invariant
                i <= take_a,
                block@.len() == i,
                count_of(block@, true) == i,
                count_of(block@, false) == 0,
            decreases take_a - i,
        {
            let ghost before = block@;
            block.push(true);
            proof {
                assert(block@.drop_last() == before);
            }
            i = i + 1;
        }
        let mut k: usize = 0;
        while k < take_b
            invariant
                k <= take_b,
                i == take_a,
                block@.len() == take_a + k,
                count_of(block@, true) == take_a,
                count_of(block@, false) == k,
            decreases take_b - k,
        {
            let ghost before = block@;
            block.push(false);
            proof {
                assert(block@.drop_last() == before);
            }
            k = k + 1;
        }
        let ghost built = block@;
        shuffle_flags(&mut block, rng);
        proof {
            lemma_count_of_multiset(built, true);
            lemma_count_of_multiset(built, false);
            lemma_count_of_multiset(block@, true);
            lemma_count_of_multiset(block@, false);
            assert(block@.take(0) =~= Seq::<bool>::empty());
        }
        self.unplaced_a = self.unplaced_a - take_a;
        self.unplaced_b = self.unplaced_b - take_b;
        self.block = block;
        self.position = 0;
    }

    /// The class of the next request to send (`true` for class A), or
    /// `None` once every request of both classes has been handed out. A
    /// new shuffled block is drawn whenever the current one is used up.
    pub fn next_request(&mut self, rng: &mut StdRng) -> (next: Option<bool>)
        requires
            old(self)@.wf(),
            old(self)@.pending is None,
        ensures
            final(self)@.wf(),
            final(self)@.n_per_class == old(self)@.n_per_class,
            final(self)@.done == old(self)@.done,
            final(self)@.failures == old(self)@.failures,
            final(self)@.block_size == old(self)@.block_size,
            final(self)@.pending == next,
            final(self)@.sent_a <= final(self)@.sent_b + final(self)@.block_size,
            final(self)@.sent_b <= final(self)@.sent_a + final(self)@.block_size,
            match next {
                None => {
                    &&& old(self)@.sent_a == old(self)@.n_per_class
                    &&& old(self)@.sent_b == old(self)@.n_per_class
                    &&& final(self)@ == old(self)@
                },
                Some(is_a) => {
                    &&& final(self)@.sent_a == old(self)@.sent_a + if is_a { 1nat } else { 0nat }
                    &&& final(self)@.sent_b == old(self)@.sent_b + if is_a { 0nat } else { 1nat }
                    &&& final(self)@.outstanding() + 1 == old(self)@.outstanding()
                    &&& 0 < final(self)@.position <= final(self)@.block.len()
                    &&& is_a == final(self)@.block[final(self)@.position - 1]
                },
            },
            // A request from the current block: the block stays as it is.
            next is Some && old(self)@.position < old(self)@.block.len() ==> {
                &&& final(self)@.block == old(self)@.block
                &&& final(self)@.position == old(self)@.position + 1
                &&& final(self)@.unplaced_a == old(self)@.unplaced_a
                &&& final(self)@.unplaced_b == old(self)@.unplaced_b
            },
            // The current block is used up: a new one is drawn, holding
            // `min(block_size, unplaced)` requests of each class in a
            // shuffled order, and its first request is handed out.
            next is Some && old(self)@.position == old(self)@.block.len() ==> {
                &&& count_of(final(self)@.block, true) == min_nat(old(self)@.block_size, old(self)@.unplaced_a)
                &&& count_of(final(self)@.block, false) == min_nat(old(self)@.block_size, old(self)@.unplaced_b)
                &&& final(self)@.block.len() == 2 * min_nat(old(self)@.block_size, old(self)@.unplaced_a)
                &&& final(self)@.unplaced_a == old(self)@.unplaced_a - min_nat(old(self)@.block_size, old(self)@.unplaced_a)
                &&& final(self)@.unplaced_b == old(self)@.unplaced_b - min_nat(old(self)@.block_size, old(self)@.unplaced_b)
                &&& final(self)@.position == 1
            },
    {
        if self.position == self.block.len() {
            if self.unplaced_a == 0 && self.unplaced_b == 0 {
                proof {
                    assert(self.block@.take(self.position as int) =~= self.block@);
                    lemma_classes_interleaved(self@);
                }
                return None;
            }
            self.refill(rng);
        }
        let is_a = self.block[self.position];
        proof {
            lemma_count_of_take(self.block@, true, self.position as int);
            lemma_count_of_take(self.block@, false, self.position as int);
            lemma_count_of_split(self.block@);
        }
        self.position = self.position + 1;
        if is_a {
            self.sent_a = self.sent_a + 1;
        } else {
            self.sent_b = self.sent_b + 1;
        }
        self.pending = Some(is_a);
        proof {
            lemma_classes_interleaved(self@);
        }
        Some(is_a)
    }

    /// Records the outcome of the pending request and applies the failure
    /// rule.
    pub fn record(&mut self, succeeded: bool) -> (outcome: RecordOutcome)
        requires
            old(self)@.wf(),
            old(self)@.pending is Some,
        ensures
            final(self)@.wf(),
            final(self)@.pending is None,
            final(self)@.done == old(self)@.done + 1,
            final(self)@.failures == old(self)@.failures + if succeeded { 0nat } else { 1nat },
            final(self)@.n_per_class == old(self)@.n_per_class,
            final(self)@.sent_a == old(self)@.sent_a,
            final(self)@.sent_b == old(self)@.sent_b,
            final(self)@.unplaced_a == old(self)@.unplaced_a,
            final(self)@.unplaced_b == old(self)@.unplaced_b,
            final(self)@.block == old(self)@.block,
            final(self)@.position == old(self)@.position,
            match outcome {
                RecordOutcome::Continue => !final(self)@.failure_limit_exceeded(),
                RecordOutcome::Abort { failures, attempted } => {
                    &&& final(self)@.failure_limit_exceeded()
                    &&& failures == final(self)@.failures
                    &&& attempted == final(self)@.done
                },
            },
    {
        self.pending = None;
        self.done = self.done + 1;
        if !succeeded {
            self.failures = self.failures + 1;
        }
        if self.done > 100 && self.failures > self.done / 10 {
            RecordOutcome::Abort { failures: self.failures, attempted: self.done }
        } else {
            RecordOutcome::Continue
        }
    }
}

/// Handing out requests until the schedule is exhausted sends exactly
/// `n_per_class` requests of each class, and never more: at any point
/// neither class has been sent more than `n_per_class` times, and when
/// `next_request` answers `None` both classes have been sent in full.
pub proof fn lemma_schedule_sends_each_class_in_full(s: ScheduleState)
    requires
        s.wf(),
    ensures
        s.sent_a <= s.n_per_class,
        s.sent_b <= s.n_per_class,
        s.outstanding() == 0 ==> s.sent_a == s.n_per_class && s.sent_b == s.n_per_class,
{
}

/// The two classes are interleaved block by block, never sent all of
/// one and then all of the other: at any point neither class has been
/// handed out more than `block_size` times beyond the other, and whenever
/// a block is used up both have been handed out equally often.
pub proof fn lemma_classes_interleaved(s: ScheduleState)
    requires
        s.wf(),
    ensures
        s.sent_a <= s.sent_b + s.block_size,
        s.sent_b <= s.sent_a + s.block_size,
        s.position == s.block.len() ==> s.sent_a == s.sent_b,
{
    if s.position == s.block.len() {
        assert(s.block.take(s.position as int) =~= s.block);
    }
}

} // verus!
