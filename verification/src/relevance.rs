//! The decay model: how relevant a source still is some time after it was
//! activated. Relevance is counted in hundredths, so that `100` stands for
//! `1.0` and every value of the model is an exact integer.

use vstd::prelude::*;

verus! {

/// Relevance of a source at the instant it is activated: `1.0`.
pub const FULL_RELEVANCE: u64 = 100;

/// Hundredths of relevance lost per whole second: `0.01` per second.
pub const DECAY_PER_SEC: u64 = 1;

/// Least relevance, in hundredths, at which a source is still linked: `0.3`.
pub const MIN_RELEVANCE_THRESHOLD: u64 = 30;

/// Whole seconds from `activated_at` to `now`, both in milliseconds; a
/// fraction of a second is dropped, toward zero.
pub open spec fn elapsed_secs(activated_at: int, now: int) -> int {
    let ms = now - activated_at;
    if ms >= 0 {
        ms / 1000
    } else {
        -((-ms) / 1000)
    }
}

/// Relevance, in hundredths, at `now` of a source activated at
/// `activated_at`: one hundredth less for each whole second elapsed, and
/// never less than zero.
pub open spec fn relevance_at(activated_at: int, now: int) -> int {
    let r = FULL_RELEVANCE - DECAY_PER_SEC * elapsed_secs(activated_at, now);
    if r < 0 {
        0
    } else {
        r
    }
}

/// Computes `relevance_at` for two instants in milliseconds.
pub fn relevance(activated_at: i64, now: i64) -> (r: u64)
    ensures
        r == relevance_at(activated_at as int, now as int),
{
    let ms: i128 = now as i128 - activated_at as i128;
    let secs: i128 = if ms >= 0 {
        ms / 1000
    } else {
        -((-ms) / 1000)
    };
    let r: i128 = 100 - secs;
    if r < 0 {
        0
    } else {
        r as u64
    }
}

/// Relevance never grows while time passes: of two instants, the later one
/// finds a source no more relevant than the earlier one did.
pub proof fn lemma_decay_monotone(activated_at: int, t1: int, t2: int)
    requires
        t1 <= t2,
    ensures
        relevance_at(activated_at, t1) >= relevance_at(activated_at, t2),
{
    let a = t1 - activated_at;
    let b = t2 - activated_at;
    if a >= 0 {
        assert(a / 1000 <= b / 1000) by (nonlinear_arith)
            requires
                0 <= a <= b,
        ;
    } else if b < 0 {
        assert((-b) / 1000 <= (-a) / 1000) by (nonlinear_arith)
            requires
                0 <= -b <= -a,
        ;
    } else {
        assert((-a) / 1000 >= 0) by (nonlinear_arith)
            requires
                -a >= 0,
        ;
        assert(b / 1000 >= 0) by (nonlinear_arith)
            requires
                b >= 0,
        ;
    }
}

/// A hundred seconds after its activation, and ever after, a source has no
/// relevance left.
pub proof fn lemma_decay_expires(activated_at: int, now: int)
    requires
        now >= activated_at + 100_000,
    ensures
        relevance_at(activated_at, now) == 0,
{
}

/// At the instant of its activation a source has full relevance.
pub proof fn lemma_decay_starts_full(activated_at: int)
    ensures
        relevance_at(activated_at, activated_at) == FULL_RELEVANCE,
{
}

/// As long as the clock has not gone back behind the activation, relevance
/// lies between `0.0` and `1.0`.
pub proof fn lemma_decay_bounded(activated_at: int, now: int)
    requires
        activated_at <= now,
    ensures
        0 <= relevance_at(activated_at, now) <= FULL_RELEVANCE,
{
}

} // verus!
