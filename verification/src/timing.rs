//! The timing simulator: derives a randomized delay schedule (reading +
//! thinking + typing) from the inbound and reply word counts, so that a reply
//! arrives at a human-like pace rather than as an instantaneous echo.
//!
//! For each named rate band the millisecond range is `words / rate * 60000`,
//! with the faster rate giving the shorter bound. A duration is drawn
//! uniformly within each range; whatever the draw, every plan provably
//! stays inside its bands.

use crate::words::{spec_word_count, word_count};
use vstd::arithmetic::div_mod::{lemma_div_is_ordered, lemma_div_is_ordered_by_denominator};
use vstd::prelude::*;

verus! {

pub const READING_WPM_MIN: u64 = 180;

pub const READING_WPM_MAX: u64 = 250;

pub const THINKING_WPM_MIN: u64 = 1000;

pub const THINKING_WPM_MAX: u64 = 3000;

pub const TYPING_WPM_MIN: u64 = 80;

pub const TYPING_WPM_MAX: u64 = 180;

pub const MS_PER_MINUTE: u64 = 60000;

/// Largest word count whose millisecond conversion cannot overflow `u64`.
pub const MAX_TIMED_WORDS: u64 = u64::MAX / MS_PER_MINUTE;

/// How long to wait between two "composing" presence emissions.
pub const PRESENCE_INTERVAL_MS: u64 = 5000;

/// The duration, in milliseconds, of `words` words at `wpm` words per minute.
pub open spec fn band_ms(words: u64, wpm: u64) -> int {
    words * MS_PER_MINUTE / wpm as int
}

/// A drawn duration is within its band when it lies between the duration at
/// the fastest rate and the duration at the slowest rate.
pub open spec fn in_band(d: u64, words: u64, wpm_min: u64, wpm_max: u64) -> bool {
    band_ms(words, wpm_max) <= d <= band_ms(words, wpm_min)
}

/// Relies on rand::random_range over `lo..=hi`: returns a uniformly
/// distributed value within the inclusive range, and panics only when the
/// range is empty.
#[verifier::external_body]
fn draw_uniform(lo: u64, hi: u64) -> (r: u64)
    requires
        lo <= hi,
    ensures
        lo <= r <= hi,
{
    rand::random_range(lo..=hi)
}

/// A uniformly drawn value between the two arguments, in either order.
pub fn rand_between(min: u64, max: u64) -> (r: u64)
    ensures
        min <= max ==> min <= r <= max,
        max <= min ==> max <= r <= min,
{
    if min > max {
        draw_uniform(max, min)
    } else {
        draw_uniform(min, max)
    }
}

/// One reply's delay schedule: drawn once per reply, never persisted.
pub struct TimingPlan {
    pub reading_ms: u64,
    pub thinking_ms: u64,
    pub typing_ms: u64,
}

impl TimingPlan {
    /// Every delay lies within its rate band for the given word counts.
    pub open spec fn wf(self, inbound_words: u64, reply_words: u64) -> bool {
        &&& in_band(self.reading_ms, inbound_words, READING_WPM_MIN, READING_WPM_MAX)
        &&& in_band(self.thinking_ms, reply_words, THINKING_WPM_MIN, THINKING_WPM_MAX)
        &&& in_band(self.typing_ms, reply_words, TYPING_WPM_MIN, TYPING_WPM_MAX)
    }
}

/// The `[min, max]` millisecond range of one rate band: the faster rate
/// bounds it below, the slower rate above.
pub fn band_range(words: u64, wpm_min: u64, wpm_max: u64) -> (r: (u64, u64))
    requires
        0 < wpm_min <= wpm_max,
        words <= MAX_TIMED_WORDS,
    ensures
        r.0 == band_ms(words, wpm_max),
        r.1 == band_ms(words, wpm_min),
        r.0 <= r.1,
{
    proof {
        assert(words * MS_PER_MINUTE <= u64::MAX) by {
            assert(words * MS_PER_MINUTE <= MAX_TIMED_WORDS * MS_PER_MINUTE) by {
                lemma_mul_le(words as int, MAX_TIMED_WORDS as int, MS_PER_MINUTE as int);
            }
        }
    }
    let total = words * MS_PER_MINUTE;
    proof {
        lemma_div_is_ordered_by_denominator(total as int, wpm_min as int, wpm_max as int);
    }
    (total / wpm_max, total / wpm_min)
}

proof fn lemma_mul_le(x: int, y: int, z: int)
    requires
        0 <= x <= y,
        0 <= z,
    ensures
        x * z <= y * z,
{
    broadcast use vstd::arithmetic::mul::lemma_mul_inequality;

}

/// Draw a complete delay schedule for one reply. Whatever the random draws,
/// each delay falls within its band; in particular the typing delay lies in
/// `[reply_words * 60000 / 180, reply_words * 60000 / 80]` inclusive.
pub fn draw_plan(inbound_words: u64, reply_words: u64) -> (plan: TimingPlan)
    requires
        inbound_words <= MAX_TIMED_WORDS,
        reply_words <= MAX_TIMED_WORDS,
    ensures
        plan.wf(inbound_words, reply_words),
{
    let (reading_lo, reading_hi) = band_range(inbound_words, READING_WPM_MIN, READING_WPM_MAX);
    let (thinking_lo, thinking_hi) = band_range(reply_words, THINKING_WPM_MIN, THINKING_WPM_MAX);
    let (typing_lo, typing_hi) = band_range(reply_words, TYPING_WPM_MIN, TYPING_WPM_MAX);
    TimingPlan {
        reading_ms: draw_uniform(reading_lo, reading_hi),
        thinking_ms: draw_uniform(thinking_lo, thinking_hi),
        typing_ms: draw_uniform(typing_lo, typing_hi),
    }
}

/// A text's word count for timing purposes, saturated at the largest count
/// whose millisecond conversion cannot overflow.
pub open spec fn spec_timed_words(s: Seq<char>) -> u64 {
    if spec_word_count(s) <= MAX_TIMED_WORDS {
        spec_word_count(s) as u64
    } else {
        MAX_TIMED_WORDS
    }
}

pub fn timed_word_count(text: &str) -> (w: u64)
    requires
        text@.len() < usize::MAX,
    ensures
        w == spec_timed_words(text@),
{
    let n = word_count(text);
    let w = n as u64;
    if w > MAX_TIMED_WORDS {
        MAX_TIMED_WORDS
    } else {
        w
    }
}

/// Draw the complete schedule for one exchange: the word counts of the
/// inbound text and of the reply (saturated), and a plan within every band
/// for those counts.
pub fn plan_for_texts(question: &str, answer: &str) -> (r: (TimingPlan, u64, u64))
    requires
        question@.len() < usize::MAX,
        answer@.len() < usize::MAX,
    ensures
        r.1 == spec_timed_words(question@),
        r.2 == spec_timed_words(answer@),
        r.0.wf(r.1, r.2),
        r.1 <= MAX_TIMED_WORDS,
        r.2 <= MAX_TIMED_WORDS,
{
    let inbound_words = timed_word_count(question);
    let reply_words = timed_word_count(answer);
    let plan = draw_plan(inbound_words, reply_words);
    (plan, inbound_words, reply_words)
}

/// The total delay before any outward signal: reading plus thinking,
/// both slept in full before the typing phase begins.
pub fn presend_delay_ms(plan: &TimingPlan, inbound_words: u64, reply_words: u64) -> (d: u64)
    requires
        plan.wf(inbound_words, reply_words),
        inbound_words <= MAX_TIMED_WORDS,
        reply_words <= MAX_TIMED_WORDS,
    ensures
        d == plan.reading_ms + plan.thinking_ms,
{
    proof {
        lemma_mul_le(inbound_words as int, MAX_TIMED_WORDS as int, MS_PER_MINUTE as int);
        lemma_mul_le(reply_words as int, MAX_TIMED_WORDS as int, MS_PER_MINUTE as int);
        lemma_div_is_ordered(
            inbound_words * MS_PER_MINUTE,
            u64::MAX as int,
            READING_WPM_MIN as int,
        );
        lemma_div_is_ordered(
            reply_words * MS_PER_MINUTE,
            u64::MAX as int,
            THINKING_WPM_MIN as int,
        );
    }
    plan.reading_ms + plan.thinking_ms
}

/// The portion of the typing delay still to be slept after the reply
/// pipeline has already consumed `elapsed_ms` of wall-clock time: a slow
/// reply eats into the visible typing phase instead of stacking on top.
pub fn remaining_typing_ms(typing_ms: u64, elapsed_ms: u64) -> (d: u64)
    ensures
        d == if elapsed_ms <= typing_ms {
            (typing_ms - elapsed_ms) as int
        } else {
            0int
        },
{
    if typing_ms < elapsed_ms {
        0
    } else {
        typing_ms - elapsed_ms
    }
}

} // verus!
