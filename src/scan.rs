//! A grid search for the pH: the range `[0, 14]` is split at 7 and each half is swept in
//! steps of `10^-dp`, keeping the point whose charge imbalance is closest to zero.
use vstd::prelude::*;
use vstd::arithmetic::power::pow;
use crate::calculator::{calculate_diff, imbalance};
use crate::numeric::{
    checked_lt, closer_to_zero, lemma_den_positive, lemma_less_than_transitive,
    lemma_not_less_than_transitive, Dec, P_UNIT,
};
use crate::types::{linear, linear_of, AcidBase, CalcError};

verus! {

/// Width of one grid step, in fixed-point units, for `dp` decimal places (`dp <= 9`):
/// `10^(P_SCALE - dp)`.
#[verifier::opaque]
pub open spec fn grid_step(dp: int) -> int {
    pow(10, (9 - dp) as nat)
}

fn step_of(dp: u8) -> (r: i64)
    requires
        dp <= 9,
    ensures
        r == grid_step(dp as int),
        1 <= r <= P_UNIT,
{
    proof {
        reveal(grid_step);
        reveal_with_fuel(pow, 10);
    }
    if dp == 0 { 1_000_000_000 }
    else if dp == 1 { 100_000_000 }
    else if dp == 2 { 10_000_000 }
    else if dp == 3 { 1_000_000 }
    else if dp == 4 { 100_000 }
    else if dp == 5 { 10_000 }
    else if dp == 6 { 1_000 }
    else if dp == 7 { 100 }
    else if dp == 8 { 10 }
    else { 1 }
}

/// The `k`-th point of the grid that starts at `start`.
pub open spec fn grid_point(start: int, step: int, k: int) -> int {
    start + k * step
}

/// First point of the half searched: 0 for the acidic half, 7 for the basic one.
pub open spec fn half_start(acidic_env: bool) -> int {
    if acidic_env { 0 } else { 7 * P_UNIT }
}

/// End (excluded) of the half searched: 7 for the acidic half, 14 for the basic one.
pub open spec fn half_end(acidic_env: bool) -> int {
    if acidic_env { 7 * P_UNIT } else { 14 * P_UNIT }
}

/// The sweep from `ph` on, with `best` the point closest to zero so far.
pub open spec fn sweep(
    sol: Seq<AcidBase>,
    kw: Dec,
    ph: int,
    end: int,
    step: int,
    best: Option<(i64, Dec)>,
) -> Result<(i64, Dec), CalcError>
    decreases (if ph < end { end - ph } else { 0 }) as nat,
{
    if ph >= end || step <= 0 {
        match best {
            Some(b) => Ok(b),
            None => Err(CalcError::NumericOverflow),
        }
    } else {
        match imbalance(sol, kw, ph) {
            None => Err(CalcError::NumericOverflow),
            Some(d) => match best {
                None => sweep(sol, kw, ph + step, end, step, Some((ph as i64, d))),
                Some(b) => if !(d.fits() && b.1.fits()) {
                    Err(CalcError::NumericOverflow)
                } else if closer_to_zero(d, b.1) {
                    sweep(sol, kw, ph + step, end, step, Some((ph as i64, d)))
                } else {
                    sweep(sol, kw, ph + step, end, step, Some(b))
                },
            },
        }
    }
}

/// Every grid point of the half has an imbalance no closer to zero than `d`.
pub open spec fn closest_on_grid(sol: Seq<AcidBase>, kw: Dec, acidic_env: bool, step: int, d: Dec) -> bool {
    forall|k: int| 0 <= k && grid_point(half_start(acidic_env), step, k) < half_end(acidic_env)
        ==> (#[trigger] imbalance(sol, kw, grid_point(half_start(acidic_env), step, k)) matches Some(e)
            && !closer_to_zero(e, d))
}

/// `p` is a point of the grid of the half.
pub open spec fn on_grid(acidic_env: bool, step: int, p: int) -> bool {
    exists|k: int| 0 <= k && #[trigger] grid_point(half_start(acidic_env), step, k) == p
        && p < half_end(acidic_env)
}

/// No grid point before the `k`-th has an imbalance closer to zero than `d`.
pub open spec fn closest_upto(sol: Seq<AcidBase>, kw: Dec, start: int, step: int, k: int, d: Dec) -> bool {
    forall|j: int| 0 <= j < k
        ==> (#[trigger] imbalance(sol, kw, grid_point(start, step, j)) matches Some(e) && !closer_to_zero(e, d))
}

proof fn lemma_closest_first(sol: Seq<AcidBase>, kw: Dec, start: int, step: int, d: Dec)
    requires
        imbalance(sol, kw, grid_point(start, step, 0)) == Some(d),
    ensures
        closest_upto(sol, kw, start, step, 1, d),
{
    lemma_den_positive(d.abs_spec());
    assert forall|j: int| 0 <= j < 1 implies
        (#[trigger] imbalance(sol, kw, grid_point(start, step, j)) matches Some(e) && !closer_to_zero(e, d)) by {
        assert(j == 0);
    }
}

proof fn lemma_closest_replace(sol: Seq<AcidBase>, kw: Dec, start: int, step: int, k: int, b: Dec, d: Dec)
    requires
        closest_upto(sol, kw, start, step, k, b),
        closer_to_zero(d, b),
        imbalance(sol, kw, grid_point(start, step, k)) == Some(d),
    ensures
        closest_upto(sol, kw, start, step, k + 1, d),
{
    lemma_den_positive(d.abs_spec());
    assert forall|j: int| 0 <= j < k + 1 implies
        (#[trigger] imbalance(sol, kw, grid_point(start, step, j)) matches Some(e) && !closer_to_zero(e, d)) by {
        if j < k {
            let e = imbalance(sol, kw, grid_point(start, step, j))->Some_0;
            if closer_to_zero(e, d) {
                lemma_less_than_transitive(e.abs_spec(), d.abs_spec(), b.abs_spec());
            }
        }
    }
}

proof fn lemma_closest_keep(sol: Seq<AcidBase>, kw: Dec, start: int, step: int, k: int, b: Dec, d: Dec)
    requires
        closest_upto(sol, kw, start, step, k, b),
        !closer_to_zero(d, b),
        imbalance(sol, kw, grid_point(start, step, k)) == Some(d),
    ensures
        closest_upto(sol, kw, start, step, k + 1, b),
{
    assert forall|j: int| 0 <= j < k + 1 implies
        (#[trigger] imbalance(sol, kw, grid_point(start, step, j)) matches Some(e) && !closer_to_zero(e, b)) by {
    }
}

/// Sweeps one half of `[0, 14)` in steps of `10^-dp` and returns the grid point whose
/// imbalance is closest to zero (the first one on ties), with that imbalance.
pub fn compute_pH_partial(acidic_env: bool, sol: &[AcidBase], Ki: Dec, dp: u8) -> (r: Result<(i64, Dec), CalcError>)
    requires
        dp <= 9,
    ensures
        r == sweep(sol@, Ki, half_start(acidic_env), half_end(acidic_env), grid_step(dp as int), None),
        r is Ok ==> ({
            let (p, d) = r->Ok_0;
            &&& on_grid(acidic_env, grid_step(dp as int), p as int)
            &&& imbalance(sol@, Ki, p as int) == Some(d)
            &&& closest_on_grid(sol@, Ki, acidic_env, grid_step(dp as int), d)
        }),
{
    let step = step_of(dp);
    let start: i64 = if acidic_env { 0 } else { 7 * P_UNIT };
    let end: i64 = if acidic_env { 7 * P_UNIT } else { 14 * P_UNIT };
    let ghost s = step as int;
    let mut ph: i64 = start;
    let ghost mut k: int = 0;
    let mut best: Option<(i64, Dec)> = None;
    while ph < end
        invariant
            s == step as int,
            step as int == grid_step(dp as int),
            1 <= step <= P_UNIT,
            start == half_start(acidic_env),
            end == half_end(acidic_env),
            0 <= k,
            ph == grid_point(start as int, s, k),
            start <= ph <= end + P_UNIT,
            sweep(sol@, Ki, start as int, end as int, s, None) == sweep(sol@, Ki, ph as int, end as int, s, best),
            k == 0 <==> best is None,
            best matches Some(b) ==> ({
                &&& imbalance(sol@, Ki, b.0 as int) == Some(b.1)
                &&& b.0 < end
                &&& exists|j: int| 0 <= j < k && #[trigger] grid_point(start as int, s, j) == b.0
                &&& closest_upto(sol@, Ki, start as int, s, k, b.1)
            }),
        decreases if ph < end { end - ph } else { 0 },
    {
        let d = match calculate_diff(sol, Ki, ph) {
            Some(v) => v,
            None => return Err(CalcError::NumericOverflow),
        };
        proof {
            assert(grid_point(start as int, s, k + 1) == ph + step) by (nonlinear_arith)
                requires
                    ph == grid_point(start as int, s, k),
                    s == step,
            ;
        }
        match best {
            None => {
                proof {
                    lemma_closest_first(sol@, Ki, start as int, s, d);
                }
                best = Some((ph, d));
            },
            Some(b) => {
                let closer = match checked_lt(d.abs(), b.1.abs()) {
                    Some(c) => c,
                    None => return Err(CalcError::NumericOverflow),
                };
                if closer {
                    proof {
                        lemma_closest_replace(sol@, Ki, start as int, s, k, b.1, d);
                    }
                    best = Some((ph, d));
                } else {
                    proof {
                        lemma_closest_keep(sol@, Ki, start as int, s, k, b.1, d);
                    }
                }
            },
        }
        ph = ph + step;
        proof {
            k = k + 1;
        }
    }
    proof {
        let b = best->Some_0;
        assert forall|j: int| 0 <= j && grid_point(half_start(acidic_env), s, j) < half_end(acidic_env)
            implies (#[trigger] imbalance(sol@, Ki, grid_point(half_start(acidic_env), s, j)) matches Some(e)
                && !closer_to_zero(e, b.1)) by {
            if j >= k {
                assert(grid_point(start as int, s, j) >= grid_point(start as int, s, k)) by (nonlinear_arith)
                    requires
                        j >= k,
                        s >= 1,
                ;
            }
        }
        let j = choose|j: int| 0 <= j < k && #[trigger] grid_point(start as int, s, j) == b.0;
        assert(grid_point(half_start(acidic_env), s, j) == b.0);
        assert(on_grid(acidic_env, s, b.0 as int));
        assert(closest_on_grid(sol@, Ki, acidic_env, s, b.1));
    }
    match best {
        Some(b) => Ok(b),
        None => Err(CalcError::NumericOverflow),
    }
}

/// The result of the two-half grid search with `precision` decimal places.
pub open spec fn grid_solve(sol: Seq<AcidBase>, pKi: int, precision: int) -> Result<i64, CalcError> {
    match linear_of(pKi) {
        None => Err(CalcError::NumericOverflow),
        Some(kw) => {
            let step = grid_step(precision);
            match sweep(sol, kw, half_start(true), half_end(true), step, None) {
                Err(e) => Err(e),
                Ok(a) => match sweep(sol, kw, half_start(false), half_end(false), step, None) {
                    Err(e) => Err(e),
                    Ok(b) => if !(a.1.fits() && b.1.fits()) {
                        Err(CalcError::NumericOverflow)
                    } else if closer_to_zero(a.1, b.1) {
                        Ok(a.0)
                    } else {
                        Ok(b.0)
                    },
                },
            }
        },
    }
}

proof fn lemma_closest_carries(sol: Seq<AcidBase>, kw: Dec, acidic_env: bool, step: int, a: Dec, b: Dec)
    requires
        closest_on_grid(sol, kw, acidic_env, step, a),
        !closer_to_zero(a, b),
    ensures
        closest_on_grid(sol, kw, acidic_env, step, b),
{
    assert forall|k: int| 0 <= k && grid_point(half_start(acidic_env), step, k) < half_end(acidic_env)
        implies (#[trigger] imbalance(sol, kw, grid_point(half_start(acidic_env), step, k)) matches Some(e)
            && !closer_to_zero(e, b)) by {
        let e = imbalance(sol, kw, grid_point(half_start(acidic_env), step, k))->Some_0;
        lemma_not_less_than_transitive(e.abs_spec(), a.abs_spec(), b.abs_spec());
    }
}

proof fn lemma_closest_carries_strict(sol: Seq<AcidBase>, kw: Dec, acidic_env: bool, step: int, a: Dec, b: Dec)
    requires
        closest_on_grid(sol, kw, acidic_env, step, a),
        closer_to_zero(b, a),
    ensures
        closest_on_grid(sol, kw, acidic_env, step, b),
{
    assert forall|k: int| 0 <= k && grid_point(half_start(acidic_env), step, k) < half_end(acidic_env)
        implies (#[trigger] imbalance(sol, kw, grid_point(half_start(acidic_env), step, k)) matches Some(e)
            && !closer_to_zero(e, b)) by {
        let e = imbalance(sol, kw, grid_point(half_start(acidic_env), step, k))->Some_0;
        if closer_to_zero(e, b) {
            lemma_less_than_transitive(e.abs_spec(), b.abs_spec(), a.abs_spec());
        }
    }
}

/// The pH of `solution` on the grid of `[0, 14)` with `precision` decimal places, for the
/// solvent self-ionization pK `pKi`: each half of the range is swept on its own and the
/// best point of the half whose imbalance is closer to zero wins (the basic one on ties).
pub fn compute_pH(solution: &[AcidBase], pKi: i64, precision: u8) -> (r: Result<i64, CalcError>)
    requires
        0 < precision < 5,
    ensures
        r == grid_solve(solution@, pKi as int, precision as int),
        r is Ok ==> ({
            let p = r->Ok_0 as int;
            let kw = linear_of(pKi as int)->Some_0;
            let step = grid_step(precision as int);
            &&& linear_of(pKi as int) is Some
            &&& on_grid(true, step, p) || on_grid(false, step, p)
            &&& imbalance(solution@, kw, p) matches Some(d)
                && closest_on_grid(solution@, kw, true, step, d)
                && closest_on_grid(solution@, kw, false, step, d)
        }),
{
    let kw = match linear(pKi) {
        Some(k) => k,
        None => return Err(CalcError::NumericOverflow),
    };
    let acidic = match compute_pH_partial(true, solution, kw, precision) {
        Ok(a) => a,
        Err(e) => return Err(e),
    };
    let basic = match compute_pH_partial(false, solution, kw, precision) {
        Ok(b) => b,
        Err(e) => return Err(e),
    };
    let closer = match checked_lt(acidic.1.abs(), basic.1.abs()) {
        Some(c) => c,
        None => return Err(CalcError::NumericOverflow),
    };
    let ghost step = grid_step(precision as int);
    if closer {
        proof {
            lemma_closest_carries_strict(solution@, kw, false, step, basic.1, acidic.1);
        }
        Ok(acidic.0)
    } else {
        proof {
            lemma_closest_carries(solution@, kw, true, step, acidic.1, basic.1);
        }
        Ok(basic.0)
    }
}

} // verus!
