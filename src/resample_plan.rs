use vstd::arithmetic::div_mod::{lemma_fundamental_div_mod, lemma_mod_bound};
use vstd::prelude::*;

use crate::error::DecodeError;

verus! {

/// Number of mono input samples handed to the resampler per block.
pub const CHUNK_SIZE: usize = 1024;

/// `a / b` rounded up, for a positive `b`.
pub open spec fn ceil_div(a: int, b: int) -> int {
    (a + b - 1) / b
}

/// The exact output length of converting `len` samples from `from_hz` to `to_hz`:
/// `ceil(len * to_hz / from_hz)`.
pub open spec fn converted_len(len: int, from_hz: int, to_hz: int) -> int {
    ceil_div(len * to_hz, from_hz)
}

/// `ceil_div(a, b)` is the least `c` with `c * b >= a`.
pub proof fn lemma_ceil_div_bounds(a: int, b: int)
    requires
        0 <= a,
        0 < b,
    ensures
        ceil_div(a, b) * b >= a,
        (ceil_div(a, b) - 1) * b < a,
        ceil_div(a, b) >= 0,
{
    let c = ceil_div(a, b);
    lemma_fundamental_div_mod(a + b - 1, b);
    lemma_mod_bound(a + b - 1, b);
    assert(b * c == c * b) by (nonlinear_arith);
    assert((c - 1) * b == c * b - b) by (nonlinear_arith);
    assert(c >= 0) by (nonlinear_arith)
        requires
            b * c >= a,
            0 <= a,
            0 < b,
    ;
}

/// Whether a signal at `from_hz` needs conversion to reach `to_hz`.
pub fn needs_resampling(from_hz: u32, to_hz: u32) -> (r: bool)
    ensures
        r == (from_hz != to_hz),
{
    from_hz != to_hz
}

/// The exact number of samples that converting `len` samples from `from_hz`
/// to `to_hz` yields.
pub fn expected_output_len(len: usize, from_hz: u32, to_hz: u32) -> (r: u128)
    requires
        from_hz > 0,
    ensures
        r == converted_len(len as int, from_hz as int, to_hz as int),
{
    assert(len as int * to_hz as int <= 0xffff_ffff_ffff_ffff * 0xffff_ffff) by (nonlinear_arith)
        requires
            len as int <= 0xffff_ffff_ffff_ffff,
            to_hz as int <= 0xffff_ffff,
    ;
    let product: u128 = len as u128 * to_hz as u128;
    (product + from_hz as u128 - 1) / from_hz as u128
}

/// Number of zero blocks that may be fed after the input to draw out the
/// resampler's delayed output: twice the blocks of one second of input plus
/// twice the input frames per output frame, plus two.
pub open spec fn flush_limit(from_hz: int, to_hz: int) -> int {
    2 * (ceil_div(from_hz, CHUNK_SIZE as int) + ceil_div(from_hz, to_hz)) + 2
}

/// What to do once the input blocks have all been fed.
#[derive(Clone, Copy, Debug, PartialEq, Eq, Structural)]
pub enum FlushStep {
    /// Feed one more block of zeros.
    Feed,
    /// Enough output has come out: truncate it to the planned length.
    Done,
    /// The resampler keeps falling short: give up.
    Fail(DecodeError),
}

/// How a mono signal is cut into fixed-size blocks for the resampler, and how
/// much of the concatenated output is kept.
#[derive(Clone, Copy, Debug, PartialEq, Eq, Structural)]
pub struct ResamplePlan {
    pub input_len: usize,
    pub from_hz: u32,
    pub to_hz: u32,
    /// `ceil(input_len * to_hz / from_hz)`: the output is truncated to it.
    pub output_len: u128,
}

impl ResamplePlan {
    pub open spec fn wf(&self) -> bool {
        &&& self.from_hz > 0
        &&& self.to_hz > 0
        &&& self.output_len == converted_len(
            self.input_len as int,
            self.from_hz as int,
            self.to_hz as int,
        )
    }

    pub open spec fn spec_block_count(&self) -> int {
        ceil_div(self.input_len as int, CHUNK_SIZE as int)
    }

    /// The plan for a rate pair that may be invalid: a zero rate is refused.
    pub fn try_new(input_len: usize, from_hz: u32, to_hz: u32) -> (r: Result<ResamplePlan, DecodeError>)
        ensures
            (from_hz == 0 || to_hz == 0) <==> r == Err::<ResamplePlan, DecodeError>(
                DecodeError::Resample,
            ),
            (from_hz > 0 && to_hz > 0) ==> r is Ok,
            r matches Ok(p) ==> p.wf() && p.input_len == input_len && p.from_hz == from_hz
                && p.to_hz == to_hz,
    {
        if from_hz == 0 || to_hz == 0 {
            Err(DecodeError::Resample)
        } else {
            Ok(ResamplePlan::new(input_len, from_hz, to_hz))
        }
    }

    pub fn new(input_len: usize, from_hz: u32, to_hz: u32) -> (r: ResamplePlan)
        requires
            from_hz > 0,
            to_hz > 0,
        ensures
            r.wf(),
            r.input_len == input_len,
            r.from_hz == from_hz,
            r.to_hz == to_hz,
    {
        ResamplePlan {
            input_len,
            from_hz,
            to_hz,
            output_len: expected_output_len(input_len, from_hz, to_hz),
        }
    }

    /// Number of blocks: the last one may be partial and is then zero-padded.
    pub fn block_count(&self) -> (r: usize)
        ensures
            r == self.spec_block_count(),
            r * CHUNK_SIZE >= self.input_len,
            (r - 1) * CHUNK_SIZE < self.input_len,
    {
        proof {
            lemma_ceil_div_bounds(self.input_len as int, CHUNK_SIZE as int);
        }
        self.input_len / CHUNK_SIZE + if self.input_len % CHUNK_SIZE == 0 {
            0
        } else {
            1
        }
    }

    /// The input range `[start, end)` of block `i`; the resampler gets it
    /// followed by `CHUNK_SIZE - (end - start)` zeros.
    pub fn block_bounds(&self, i: usize) -> (r: (usize, usize))
        requires
            i < self.spec_block_count(),
        ensures
            r.0 == i * CHUNK_SIZE,
            r.1 == if r.0 + CHUNK_SIZE <= self.input_len {
                r.0 + CHUNK_SIZE
            } else {
                self.input_len as int
            },
            r.0 < r.1 <= self.input_len,
            r.1 - r.0 <= CHUNK_SIZE,
    {
        proof {
            lemma_ceil_div_bounds(self.input_len as int, CHUNK_SIZE as int);
            assert(i * CHUNK_SIZE < self.input_len) by (nonlinear_arith)
                requires
                    i < ceil_div(self.input_len as int, CHUNK_SIZE as int),
                    (ceil_div(self.input_len as int, CHUNK_SIZE as int) - 1) * CHUNK_SIZE
                        < self.input_len,
            ;
        }
        let start: usize = i * CHUNK_SIZE;
        let end: usize = if self.input_len - start >= CHUNK_SIZE {
            start + CHUNK_SIZE
        } else {
            self.input_len
        };
        (start, end)
    }

    /// What follows once `produced` output samples have come out, of which
    /// `flushed` zero blocks were fed after the input.
    pub fn flush_step(&self, produced: usize, flushed: usize) -> (r: FlushStep)
        requires
            self.wf(),
        ensures
            r == if produced >= self.output_len {
                FlushStep::Done
            } else if flushed < flush_limit(self.from_hz as int, self.to_hz as int) {
                FlushStep::Feed
            } else {
                FlushStep::Fail(DecodeError::Resample)
            },
    {
        if produced as u128 >= self.output_len {
            return FlushStep::Done;
        }
        let from = self.from_hz as u64;
        let to = self.to_hz as u64;
        let chunk = CHUNK_SIZE as u64;
        let blocks: u64 = from / chunk + if from % chunk == 0 {
            0
        } else {
            1
        };
        let per_out: u64 = from / to + if from % to == 0 {
            0
        } else {
            1
        };
        proof {
            lemma_ceil_div_alt(from as int, chunk as int);
            lemma_ceil_div_alt(from as int, to as int);
            assert(per_out <= from) by (nonlinear_arith)
                requires
                    per_out == ceil_div(from as int, to as int),
                    to >= 1,
                    from >= 1,
                    (per_out - 1) * to < from,
            ;
        }
        let limit: u64 = 2 * (blocks + per_out) + 2;
        if (flushed as u64) < limit {
            FlushStep::Feed
        } else {
            FlushStep::Fail(DecodeError::Resample)
        }
    }

    /// How much of `produced` concatenated output samples is kept: exactly
    /// the planned length.
    pub fn kept_len(&self, produced: usize) -> (r: usize)
        requires
            produced >= self.output_len,
        ensures
            r == self.output_len,
    {
        self.output_len as usize
    }
}

/// `ceil_div` is the quotient rounded down, plus one where a remainder is left.
pub proof fn lemma_ceil_div_alt(a: int, b: int)
    requires
        0 <= a,
        0 < b,
    ensures
        ceil_div(a, b) == a / b + if a % b == 0 {
            0int
        } else {
            1int
        },
        (ceil_div(a, b) - 1) * b < a,
{
    lemma_ceil_div_bounds(a, b);
    lemma_fundamental_div_mod(a, b);
    lemma_mod_bound(a, b);
    lemma_fundamental_div_mod(a + b - 1, b);
    lemma_mod_bound(a + b - 1, b);
    let q = a / b;
    let c = ceil_div(a, b);
    assert(c == q + if a % b == 0 {
        0int
    } else {
        1int
    }) by (nonlinear_arith)
        requires
            a == b * q + a % b,
            0 <= a % b < b,
            a + b - 1 == b * c + (a + b - 1) % b,
            0 <= (a + b - 1) % b < b,
            b > 0,
    ;
}

/// At equal rates the planned output is exactly as long as the input.
pub proof fn lemma_same_rate_keeps_length(len: nat, rate: nat)
    requires
        rate > 0,
    ensures
        converted_len(len as int, rate as int, rate as int) == len,
{
    let c = converted_len(len as int, rate as int, rate as int);
    lemma_ceil_div_bounds((len * rate) as int, rate as int);
    assert(c == len) by (nonlinear_arith)
        requires
            c * rate >= len * rate,
            (c - 1) * rate < len * rate,
            rate > 0,
    ;
}

/// Converting `len` samples from `r` to `t` and back again gives at least `len`
/// samples and at most `len + ceil(r / t)`; at equal rates exactly `len`.
pub proof fn lemma_round_trip_length(len: nat, r: nat, t: nat)
    requires
        r > 0,
        t > 0,
    ensures
        len <= converted_len(converted_len(len as int, r as int, t as int), t as int, r as int),
        converted_len(converted_len(len as int, r as int, t as int), t as int, r as int) <= len
            + ceil_div(r as int, t as int),
        r == t ==> converted_len(converted_len(len as int, r as int, t as int), t as int, r as int)
            == len,
{
    let m = converted_len(len as int, r as int, t as int);
    lemma_ceil_div_bounds((len * t) as int, r as int);
    assert(m * r >= len * t && m * r < len * t + r) by (nonlinear_arith)
        requires
            m * r >= len * t,
            (m - 1) * r < len * t,
    ;
    let back = converted_len(m, t as int, r as int);
    lemma_ceil_div_bounds(m * r, t as int);
    lemma_ceil_div_bounds(r as int, t as int);
    let q = ceil_div(r as int, t as int);
    assert(back >= len) by (nonlinear_arith)
        requires
            back * t >= m * r,
            m * r >= len * t,
            t > 0,
    ;
    assert(back <= len + q) by (nonlinear_arith)
        requires
            (back - 1) * t < m * r,
            m * r < len * t + r,
            q * t >= r,
            t > 0,
    ;
    if r == t {
        lemma_same_rate_keeps_length(len, r);
    }
}

} // verus!
