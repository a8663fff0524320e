use vstd::arithmetic::power2::{lemma2_to64, lemma_pow2_unfold, pow2};
use vstd::prelude::*;

use crate::error::DetectorError;

verus! {

/// The most bisection steps the crossing search takes.
pub const MAX_BISECTIONS: u32 = 64;

/// How a score at a probed timestamp compares with the threshold.
#[derive(Clone, Copy, Debug, PartialEq, Eq, Structural)]
pub enum Probe {
    /// The score is below the threshold.
    Below,
    /// The score is at or above the threshold.
    Reached,
    /// The score could not be compared (it is not a number).
    Undefined,
}

/// `f` may answer `p` at timestamp `t`.
pub open spec fn answers<F: Fn(u64) -> Probe>(f: F, t: u64, p: Probe) -> bool {
    f.ensures((t,), p)
}

/// Once `f` may answer `Reached`, every later timestamp answers `Reached`.
pub open spec fn monotone<F: Fn(u64) -> Probe>(f: F) -> bool {
    forall|a: u64, b: u64, p: Probe|
        a <= b && #[trigger] answers(f, a, Probe::Reached) && #[trigger] answers(f, b, p) ==> p
            == Probe::Reached
}

/// `f` never answers `Undefined`.
pub open spec fn defined<F: Fn(u64) -> Probe>(f: F) -> bool {
    forall|t: u64| !#[trigger] answers(f, t, Probe::Undefined)
}

/// `f` answers nothing but `p` at `t`.
pub open spec fn only_answers<F: Fn(u64) -> Probe>(f: F, t: u64, p: Probe) -> bool {
    forall|q: Probe| #[trigger] answers(f, t, q) ==> q == p
}

/// A tight bracket stays tight: where a monotone `f` answers `Below` at `lower`
/// and `Reached` at `upper`, with `upper - lower` at most `tolerance`, it
/// cannot answer `Reached` at any timestamp `tolerance` or more before `upper`.
pub proof fn lemma_bracket_bounds_crossing<F: Fn(u64) -> Probe>(
    f: F,
    lower: u64,
    upper: u64,
    tolerance: u64,
)
    requires
        monotone(f),
        answers(f, lower, Probe::Below),
        answers(f, upper, Probe::Reached),
        upper - lower <= tolerance,
    ensures
        forall|t: u64| t + tolerance <= upper ==> !#[trigger] answers(f, t, Probe::Reached),
{
    assert forall|t: u64| t + tolerance <= upper implies !#[trigger] answers(
        f,
        t,
        Probe::Reached,
    ) by {
        if answers(f, t, Probe::Reached) {
            assert(t <= lower);
            assert(answers(f, lower, Probe::Below));
        }
    }
}

/// The next probe of the bracket search: the timestamp doubled, with zero
/// stepping to one and the top of the range saturating.
fn grow(t: u64) -> (r: u64)
    requires
        t < u64::MAX,
    ensures
        t < r,
        r == (if t == 0 {
            1
        } else if t > u64::MAX / 2 {
            u64::MAX as int
        } else {
            2 * t
        }),
{
    if t == 0 {
        1
    } else if t > u64::MAX / 2 {
        u64::MAX
    } else {
        2 * t
    }
}

/// Estimates, to within `tolerance`, the first timestamp from `now` on at which
/// `f` answers `Reached`.
///
/// `f` compares the score at a timestamp with the threshold. It must answer
/// `Below` at `now`. The search doubles a probe from `now` until `f` answers
/// `Reached`, then bisects the bracket until its width is at most
/// `tolerance`, and returns its upper end.
pub fn find_crossing<F: Fn(u64) -> Probe>(now: u64, tolerance: u64, f: F) -> (r: Result<
    u64,
    DetectorError,
>)
    requires
        forall|t: u64| f.requires((t,)),
    ensures
        r is Ok ==> {
            let t = r->Ok_0;
            &&& now < t
            &&& answers(f, t, Probe::Reached)
            &&& exists|l: u64|
                now <= l && l < t && t - l <= tolerance && #[trigger] answers(f, l, Probe::Below)
        },
        r is Ok && monotone(f) ==> forall|t: u64|
            t + tolerance <= r->Ok_0 ==> !#[trigger] answers(f, t, Probe::Reached),
        r == Err::<u64, _>(DetectorError::InvariantViolation) ==> answers(f, now, Probe::Reached)
            || exists|t: u64| now <= t && #[trigger] answers(f, t, Probe::Undefined),
        r == Err::<u64, _>(DetectorError::SearchDidNotConverge) ==> tolerance == 0 || answers(
            f,
            u64::MAX,
            Probe::Below,
        ),
        r != Err::<u64, _>(DetectorError::InvalidConfiguration),
        only_answers(f, now, Probe::Reached) ==> r == Err::<u64, _>(
            DetectorError::InvariantViolation,
        ),
        only_answers(f, now, Probe::Undefined) ==> r == Err::<u64, _>(
            DetectorError::InvariantViolation,
        ),
        tolerance == 0 ==> r is Err,
        tolerance > 0 && defined(f) && only_answers(f, now, Probe::Below) && only_answers(
            f,
            u64::MAX,
            Probe::Reached,
        ) ==> r is Ok,
        tolerance > 0 && monotone(f) && defined(f) && only_answers(f, now, Probe::Below) && (exists|
            t: u64,
        | #[trigger] answers(f, t, Probe::Reached)) ==> r is Ok,
{
    proof {
        if monotone(f) && exists|t: u64| #[trigger] answers(f, t, Probe::Reached) {
            let c = choose|t: u64| #[trigger] answers(f, t, Probe::Reached);
            assert forall|q: Probe| #[trigger] answers(f, u64::MAX, q) implies q
                == Probe::Reached by {
                assert(answers(f, c, Probe::Reached));
            }
        }
    }
    let first = f(now);
    match first {
        Probe::Below => {},
        Probe::Reached => {
            assert(answers(f, now, Probe::Reached));
            return Err(DetectorError::InvariantViolation);
        },
        Probe::Undefined => {
            assert(answers(f, now, Probe::Undefined));
            return Err(DetectorError::InvariantViolation);
        },
    }
    // Bracket: double the probe until the threshold is reached.
    let mut lower: u64 = now;
    let mut upper: u64 = now;
    loop
        invariant
            forall|t: u64| f.requires((t,)),
            now <= lower,
            answers(f, now, Probe::Below),
            answers(f, lower, Probe::Below),
        ensures
            answers(f, now, Probe::Below),
            now <= lower < upper,
            answers(f, lower, Probe::Below),
            answers(f, upper, Probe::Reached),
        decreases u64::MAX - lower,
    {
        if lower == u64::MAX {
            return Err(DetectorError::SearchDidNotConverge);
        }
        let probe = grow(lower);
        match f(probe) {
            Probe::Below => {
                lower = probe;
            },
            Probe::Reached => {
                upper = probe;
                break ;
            },
            Probe::Undefined => {
                assert(answers(f, probe, Probe::Undefined));
                return Err(DetectorError::InvariantViolation);
            },
        }
    }
    // Bisection: halve the bracket until it is within the tolerance.
    let mut steps: u32 = 0;
    proof {
        lemma2_to64();
    }
    while upper - lower > tolerance
        invariant
            forall|t: u64| f.requires((t,)),
            now <= lower < upper,
            answers(f, now, Probe::Below),
            answers(f, lower, Probe::Below),
            answers(f, upper, Probe::Reached),
            steps <= MAX_BISECTIONS,
            upper - lower <= pow2((MAX_BISECTIONS - steps) as nat),
        decreases upper - lower,
    {
        proof {
            lemma2_to64();
        }
        if upper - lower == 1 || steps == MAX_BISECTIONS {
            return Err(DetectorError::SearchDidNotConverge);
        }
        proof {
            lemma_pow2_unfold((MAX_BISECTIONS - steps) as nat);
        }
        let mid = lower + (upper - lower) / 2;
        match f(mid) {
            Probe::Below => {
                lower = mid;
            },
            Probe::Reached => {
                upper = mid;
            },
            Probe::Undefined => {
                assert(answers(f, mid, Probe::Undefined));
                return Err(DetectorError::InvariantViolation);
            },
        }
        steps = steps + 1;
    }
    proof {
        if monotone(f) {
            lemma_bracket_bounds_crossing(f, lower, upper, tolerance);
        }
    }
    Ok(upper)
}

} // verus!
