//! The streaming-progress protocol. The encoder prints line-oriented
//! `key=value` output; the line `out_time_us=N` carries the microseconds of
//! output already encoded. Each event is turned into a millisecond delta
//! against the file's last seen position — a regression clamps to zero
//! rather than corrupting the counters — and the delta is credited to both
//! the per-file counter and the run-wide aggregate.

use vstd::prelude::*;

use crate::text::{char_is_digit, dec_value, is_digit_char, matches_at, parse_u64_digits, str_matches_at};

verus! {

/// The key marking a progress event.
pub open spec fn out_time_marker() -> Seq<char> {
    "out_time_us="@
}

/// Whether a progress event starts at position `i`: the marker followed by
/// at least one digit.
pub open spec fn out_time_match_at(line: Seq<char>, i: int) -> bool {
    matches_at(line, out_time_marker(), i) && i + out_time_marker().len() < line.len()
        && is_digit_char(line[i + out_time_marker().len()])
}

/// The first position at or after `i` where a progress event starts.
pub open spec fn first_out_time_from(line: Seq<char>, i: int) -> Option<int>
    decreases line.len() - i,
{
    if i < 0 || i >= line.len() {
        None
    } else if out_time_match_at(line, i) {
        Some(i)
    } else {
        first_out_time_from(line, i + 1)
    }
}

/// The end of the digit run starting at `j`: the first position at or
/// after `j` that is past the line or not a digit.
pub open spec fn digit_run_end(line: Seq<char>, j: int) -> int
    decreases line.len() - j,
{
    if j < 0 || j >= line.len() || !is_digit_char(line[j]) {
        j
    } else {
        digit_run_end(line, j + 1)
    }
}

/// The microsecond position a progress line reports: the digits after the
/// first `out_time_us=` that a digit follows, read maximally.
pub open spec fn spec_out_time_us(line: Seq<char>) -> Option<int> {
    match first_out_time_from(line, 0) {
        None => None,
        Some(i) => {
            let st = i + out_time_marker().len();
            Some(dec_value(line.subrange(st, digit_run_end(line, st))))
        },
    }
}

proof fn lemma_first_out_time_skip(line: Seq<char>, i: int)
    requires
        0 <= i <= line.len(),
        forall|k: int| 0 <= k < i ==> !out_time_match_at(line, k),
    ensures
        first_out_time_from(line, 0) == first_out_time_from(line, i),
    decreases i,
{
    if i > 0 {
        lemma_first_out_time_skip(line, i - 1);
    }
}

proof fn lemma_digit_run_end_at(line: Seq<char>, st: int, j: int)
    requires
        0 <= st <= j <= line.len(),
        forall|t: int| st <= t < j ==> is_digit_char(#[trigger] line[t]),
        j == line.len() || !is_digit_char(line[j]),
    ensures
        digit_run_end(line, st) == j,
    decreases j - st,
{
    if st < j {
        lemma_digit_run_end_at(line, st + 1, j);
    }
}

/// The position where the first progress event of a line starts, if any.
fn find_out_time_start(line: &str) -> (r: Option<usize>)
    ensures
        match r {
            Some(f) => first_out_time_from(line@, 0) == Some(f as int) && out_time_match_at(
                line@,
                f as int,
            ),
            None => first_out_time_from(line@, 0) == None::<int>,
        },
{
    proof {
        reveal_strlit("out_time_us=");
    }
    let marker = "out_time_us=";
    let mlen = marker.unicode_len();
    let len = line.unicode_len();
    if len < mlen + 1 {
        proof {
            assert forall|k: int| 0 <= k < len implies !out_time_match_at(line@, k) by {}
            lemma_first_out_time_skip(line@, len as int);
        }
        return None;
    }
    let mut i: usize = 0;
    while i <= len - mlen - 1
        invariant
            0 <= i <= len - mlen,
            mlen + 1 <= len,
            mlen == out_time_marker().len(),
            len == line@.len(),
            marker@ == out_time_marker(),
            forall|k: int| 0 <= k < i ==> !out_time_match_at(line@, k),
        decreases len - mlen - i,
    {
        if str_matches_at(line, marker, i) {
            let c = line.get_char(i + mlen);
            if char_is_digit(c) {
                proof {
                    assert(out_time_match_at(line@, i as int));
                    lemma_first_out_time_skip(line@, i as int);
                }
                return Some(i);
            }
            assert(!out_time_match_at(line@, i as int));
        } else {
            assert(!out_time_match_at(line@, i as int));
        }
        i = i + 1;
    }
    proof {
        assert forall|k: int| 0 <= k < len implies !out_time_match_at(line@, k) by {
            if k > len - mlen - 1 {
                assert(!(k + out_time_marker().len() < len));
            }
        }
        lemma_first_out_time_skip(line@, len as int);
    }
    None
}

/// Reads the microsecond position from one line of encoder output, if the
/// line carries one that fits in a `u64`.
pub fn parse_out_time(line: &str) -> (r: Option<u64>)
    ensures
        r == match spec_out_time_us(line@) {
            Some(m) => if m <= u64::MAX {
                Some(m as u64)
            } else {
                None::<u64>
            },
            None => None::<u64>,
        },
{
    proof {
        reveal_strlit("out_time_us=");
    }
    let len = line.unicode_len();
    match find_out_time_start(line) {
        Some(f) => {
            let st = f + 12;
            proof {
                assert(out_time_marker().len() == 12);
                assert(st == f + out_time_marker().len());
            }
            let mut j: usize = st;
            while j < len && char_is_digit(line.get_char(j))
                invariant
                    st <= j <= len,
                    len == line@.len(),
                    forall|t: int| st <= t < j ==> is_digit_char(#[trigger] line@[t]),
                decreases len - j,
            {
                j = j + 1;
            }
            proof {
                if j < len {
                    assert(!is_digit_char(line@[j as int]));
                }
                lemma_digit_run_end_at(line@, st as int, j as int);
            }
            let digits = line.substring_char(st, j);
            proof {
                assert(digits@ =~= line@.subrange(st as int, j as int));
                crate::text::lemma_dec_value_nonneg(digits@);
            }
            parse_u64_digits(digits)
        },
        None => None,
    }
}

/// Milliseconds denoted by a microsecond position.
pub open spec fn millis_of_micros(us: u64) -> u64 {
    (us / 1000) as u64
}

/// The clamped progress delta from a last position to a new one: a
/// regression counts as zero.
pub open spec fn spec_delta(last: u64, millis: u64) -> u64 {
    if millis > last {
        (millis - last) as u64
    } else {
        0
    }
}

/// The run-wide aggregate progress counter, in milliseconds of encoded
/// output. Workers combine into it only through clamped deltas, so it
/// never decreases.
pub struct ProgressCounter {
    pub total_millis: u64,
}

impl ProgressCounter {
    /// A counter at zero.
    pub fn new() -> (r: ProgressCounter)
        ensures
            r.total_millis == 0,
    {
        ProgressCounter { total_millis: 0 }
    }

    /// Credits `delta` milliseconds, holding at the ceiling rather than
    /// wrapping.
    pub fn add(&mut self, delta: u64)
        ensures
            final(self).total_millis == if old(self).total_millis + delta <= u64::MAX {
                old(self).total_millis + delta
            } else {
                u64::MAX as int
            },
    {
        self.total_millis = self.total_millis.saturating_add(delta);
    }
}

/// The per-file progress state: the last reported position in
/// milliseconds. Owned by the one worker processing the file.
pub struct FileProgress {
    pub last_millis: u64,
}

impl FileProgress {
    /// A fresh file at position zero.
    pub fn new() -> (r: FileProgress)
        ensures
            r.last_millis == 0,
    {
        FileProgress { last_millis: 0 }
    }

    /// Accounts one progress event: computes the clamped delta from the
    /// last position, credits it to the aggregate, and advances the last
    /// position monotonically.
    pub fn observe(&mut self, aggregate: &mut ProgressCounter, out_time_us: u64) -> (delta: u64)
        ensures
            delta == spec_delta(old(self).last_millis, millis_of_micros(out_time_us)),
            final(self).last_millis == if millis_of_micros(out_time_us) > old(self).last_millis {
                millis_of_micros(out_time_us)
            } else {
                old(self).last_millis
            },
            final(aggregate).total_millis == if old(aggregate).total_millis + delta <= u64::MAX {
                old(aggregate).total_millis + delta
            } else {
                u64::MAX as int
            },
    {
        let millis = out_time_us / 1000;
        let delta = if millis > self.last_millis {
            millis - self.last_millis
        } else {
            0
        };
        if millis > self.last_millis {
            self.last_millis = millis;
        }
        aggregate.add(delta);
        delta
    }
}

/// The largest millisecond position among a stream of microsecond events.
pub open spec fn spec_max_millis(events: Seq<u64>) -> u64
    decreases events.len(),
{
    if events.len() == 0 {
        0
    } else {
        let rest = spec_max_millis(events.drop_last());
        if millis_of_micros(events.last()) > rest {
            millis_of_micros(events.last())
        } else {
            rest
        }
    }
}

/// Feeds a whole stream of events through a fresh file tracker and a
/// fresh aggregate, and returns what the aggregate ends at: the largest
/// position seen, in milliseconds.
pub fn replay_progress(events: &Vec<u64>) -> (total: u64)
    ensures
        total == spec_max_millis(events@),
{
    let mut file = FileProgress::new();
    let mut aggregate = ProgressCounter::new();
    let mut i: usize = 0;
    while i < events.len()
        invariant
            0 <= i <= events@.len(),
            file.last_millis == spec_max_millis(events@.take(i as int)),
            aggregate.total_millis == file.last_millis,
            file.last_millis <= u64::MAX / 1000,
        decreases events@.len() - i,
    {
        proof {
            assert(events@.take(i + 1).drop_last() =~= events@.take(i as int));
            assert(events@.take(i + 1).last() == events@[i as int]);
        }
        file.observe(&mut aggregate, events[i]);
        i = i + 1;
    }
    proof {
        assert(events@.take(events@.len() as int) =~= events@);
    }
    aggregate.total_millis
}

proof fn lemma_max_millis_ge(events: Seq<u64>, i: int)
    requires
        0 <= i < events.len(),
    ensures
        spec_max_millis(events) >= millis_of_micros(events[i]),
    decreases events.len(),
{
    if i < events.len() - 1 {
        lemma_max_millis_ge(events.drop_last(), i);
    }
}

proof fn lemma_max_millis_le(events: Seq<u64>, b: u64)
    requires
        forall|i: int| 0 <= i < events.len() ==> events[i] <= b,
    ensures
        spec_max_millis(events) <= millis_of_micros(b),
    decreases events.len(),
{
    if events.len() > 0 {
        assert(forall|i: int|
            0 <= i < events.len() - 1 ==> events.drop_last()[i] == events[i]);
        lemma_max_millis_le(events.drop_last(), b);
        vstd::arithmetic::div_mod::lemma_div_is_ordered(
            events.last() as int,
            b as int,
            1000,
        );
    }
}

/// A progress stream of strictly increasing microsecond positions that
/// ends at `d` seconds credits the aggregate with exactly `d` seconds in
/// milliseconds: the counter ends at `d * 1000`.
pub proof fn lemma_progress_of_increasing_stream(events: Seq<u64>, d: u64)
    requires
        events.len() > 0,
        forall|i: int, j: int| 0 <= i < j < events.len() ==> events[i] < events[j],
        d * 1000000 <= u64::MAX,
        events.last() == d * 1000000,
    ensures
        spec_max_millis(events) == d * 1000,
{
    assert forall|i: int| 0 <= i < events.len() implies events[i] <= events.last() by {
        if i < events.len() - 1 {
            assert(events[i] < events[events.len() - 1]);
        }
    }
    lemma_max_millis_le(events, events.last());
    lemma_max_millis_ge(events, events.len() - 1);
    assert(millis_of_micros(events.last()) == d * 1000) by {
        vstd::arithmetic::div_mod::lemma_div_multiples_vanish(d as int * 1000, 1000);
        assert(d as int * 1000000 == 1000 * (d as int * 1000)) by (nonlinear_arith);
    }
}

} // verus!
