//! The charge-balance evaluator and the bisection root finder.
use vstd::prelude::*;
use crate::numeric::{
    checked_add, checked_div, checked_mul, checked_pow, checked_sub, difference_of, fixed,
    fixed_spec, power_of, product_of, quotient_of, sum_of, Dec,
};
use crate::types::{linear, linear_of, ten_spec, AcidBase, CalcError, SolProperties};

verus! {

pub open spec fn lift_add(a: Option<Dec>, b: Option<Dec>) -> Option<Dec> {
    match (a, b) {
        (Some(x), Some(y)) => sum_of(x, y),
        _ => None,
    }
}

pub open spec fn lift_sub(a: Option<Dec>, b: Option<Dec>) -> Option<Dec> {
    match (a, b) {
        (Some(x), Some(y)) => difference_of(x, y),
        _ => None,
    }
}

pub open spec fn lift_mul(a: Option<Dec>, b: Option<Dec>) -> Option<Dec> {
    match (a, b) {
        (Some(x), Some(y)) => product_of(x, y),
        _ => None,
    }
}

pub open spec fn lift_div(a: Option<Dec>, b: Option<Dec>) -> Option<Dec> {
    match (a, b) {
        (Some(x), Some(y)) => quotient_of(x, y),
        _ => None,
    }
}

fn opt_add(a: Option<Dec>, b: Option<Dec>) -> (r: Option<Dec>)
    ensures
        r == lift_add(a, b),
{
    match (a, b) {
        (Some(x), Some(y)) => checked_add(x, y),
        _ => None,
    }
}

fn opt_sub(a: Option<Dec>, b: Option<Dec>) -> (r: Option<Dec>)
    ensures
        r == lift_sub(a, b),
{
    match (a, b) {
        (Some(x), Some(y)) => checked_sub(x, y),
        _ => None,
    }
}

fn opt_mul(a: Option<Dec>, b: Option<Dec>) -> (r: Option<Dec>)
    ensures
        r == lift_mul(a, b),
{
    match (a, b) {
        (Some(x), Some(y)) => checked_mul(x, y),
        _ => None,
    }
}

fn opt_div(a: Option<Dec>, b: Option<Dec>) -> (r: Option<Dec>)
    ensures
        r == lift_div(a, b),
{
    match (a, b) {
        (Some(x), Some(y)) => checked_div(x, y),
        _ => None,
    }
}

/// `[H+]^k = 10^(-pH * k)` at the fixed-point pH `ph`, raised in one step.
pub open spec fn h_power(ph: int, k: int) -> Option<Dec> {
    power_of(ten_spec(), fixed_spec(-(ph * k)))
}

/// Computes `h_power(ph, k)`.
fn h_pow(ph: i64, k: usize) -> (r: Option<Dec>)
    ensures
        r == h_power(ph as int, k as int),
{
    assert(-0x8000_0000_0000_0000 <= ph <= 0x7fff_ffff_ffff_ffff);
    assert(k <= 0xffff_ffff_ffff_ffff);
    assert(-0x7fff_ffff_ffff_ffff_ffff_ffff_ffff_ffff <= (ph as int) * (k as int)
        <= 0x7fff_ffff_ffff_ffff_ffff_ffff_ffff_ffff) by (nonlinear_arith)
        requires
            -0x8000_0000_0000_0000 <= ph <= 0x7fff_ffff_ffff_ffff,
            0 <= k <= 0xffff_ffff_ffff_ffff,
    ;
    let e: i128 = (ph as i128) * (k as i128);
    checked_pow(Dec::from_u64(10), fixed(-e))
}

/// `K_1 * ... * K_i`: one for `i == 0`, the constant itself for `i == 1`.
pub open spec fn prefix_product(ks: Seq<Dec>, i: int) -> Option<Dec>
    decreases i,
{
    if i <= 0 {
        Some(Dec::int_spec(1))
    } else if i == 1 {
        Some(ks[0])
    } else {
        lift_mul(prefix_product(ks, i - 1), Some(ks[i - 1]))
    }
}

/// Weight of the state that has lost `i` protons: `[H+]^(n-i) * K_1 * ... * K_i`.
pub open spec fn state_weight(ks: Seq<Dec>, ph: int, i: int) -> Option<Dec> {
    lift_mul(h_power(ph, ks.len() - i), prefix_product(ks, i))
}

/// Weight of the state of a base that has gained `i` protons: `[H+]^i * K_1 * ... * K_(n-i)`.
pub open spec fn base_weight(ks: Seq<Dec>, ph: int, i: int) -> Option<Dec> {
    lift_mul(h_power(ph, i), prefix_product(ks, ks.len() - i))
}

/// `sum over 0 <= i < k of state_weight(i)`; with `k = n + 1` the distribution denominator.
pub open spec fn denominator(ks: Seq<Dec>, ph: int, k: int) -> Option<Dec>
    decreases k,
{
    if k <= 0 {
        Some(Dec::zero_spec())
    } else {
        lift_add(denominator(ks, ph, k - 1), state_weight(ks, ph, k - 1))
    }
}

/// `sum over 1 <= i < k of i * state_weight(i)` (acid) or `i * base_weight(i)` (base);
/// with `k = n + 1` the mean number of protons lost (acid) or gained (base), times the denominator.
pub open spec fn numerator(ks: Seq<Dec>, ph: int, k: int, is_acid: bool) -> Option<Dec>
    decreases k,
{
    if k <= 1 {
        Some(Dec::zero_spec())
    } else {
        let w = if is_acid { state_weight(ks, ph, k - 1) } else { base_weight(ks, ph, k - 1) };
        lift_add(numerator(ks, ph, k - 1, is_acid), lift_mul(Some(Dec::int_spec((k - 1) as u64)), w))
    }
}

/// `C * N / D`: the equivalents of protons a species releases (acid) or binds (base).
pub open spec fn species_term(s: AcidBase, ph: int) -> Option<Dec> {
    let ks = s.consts();
    let n = ks.len() as int;
    lift_div(
        lift_mul(Some(s.conc_spec()), numerator(ks, ph, n + 1, s.is_acid_spec())),
        denominator(ks, ph, n + 1),
    )
}

/// `Kw / [H+]` plus the terms of the first `j` species, acids added and bases subtracted.
pub open spec fn rhs_upto(sol: Seq<AcidBase>, kw: Dec, ph: int, j: int) -> Option<Dec>
    decreases j,
{
    if j <= 0 {
        lift_div(Some(kw), h_power(ph, 1))
    } else if sol[j - 1].is_acid_spec() {
        lift_add(rhs_upto(sol, kw, ph, j - 1), species_term(sol[j - 1], ph))
    } else {
        lift_sub(rhs_upto(sol, kw, ph, j - 1), species_term(sol[j - 1], ph))
    }
}

/// The charge imbalance `[H+] - RHS` of a solution at the fixed-point pH `ph`.
#[verifier::opaque]
pub open spec fn imbalance(sol: Seq<AcidBase>, kw: Dec, ph: int) -> Option<Dec> {
    lift_sub(h_power(ph, 1), rhs_upto(sol, kw, ph, sol.len() as int))
}

/// The prefix products `P_0, ..., P_n` of a list of constants.
fn prefix_products(ks: &Vec<Dec>) -> (r: Vec<Option<Dec>>)
    ensures
        r@.len() == ks@.len() + 1,
        forall|i: int| 0 <= i <= ks@.len() ==> #[trigger] r@[i] == prefix_product(ks@, i),
{
    let mut r: Vec<Option<Dec>> = Vec::new();
    r.push(Some(Dec::from_u64(1)));
    let mut i: usize = 0;
    while i < ks.len()
        invariant
            i <= ks@.len(),
            r@.len() == i + 1,
            forall|j: int| 0 <= j <= i ==> #[trigger] r@[j] == prefix_product(ks@, j),
        decreases ks@.len() - i,
    {
        let next = if i == 0 { Some(ks[0]) } else { opt_mul(r[i], Some(ks[i])) };
        r.push(next);
        i = i + 1;
    }
    r
}

/// The term `C * N / D` of one species at the fixed-point pH `pH`.
fn species_contribution(species: &AcidBase, pH: i64) -> (r: Option<Dec>)
    ensures
        r == species_term(*species, pH as int),
{
    let ks = species.dissoc_consts_acid();
    let n = ks.len();
    let acid = species.is_acidic();
    let products = prefix_products(ks);
    let m = products.len();
    let mut numer: Option<Dec> = Some(Dec::zero());
    let mut denom: Option<Dec> = Some(Dec::zero());
    let mut i: usize = 0;
    while i <= n
        invariant
            n == ks@.len(),
            ks@ == species.consts(),
            acid == species.is_acid_spec(),
            products@.len() == n + 1,
            m == n + 1,
            forall|j: int| 0 <= j <= n ==> #[trigger] products@[j] == prefix_product(ks@, j),
            i <= n + 1,
            denom == denominator(ks@, pH as int, i as int),
            numer == numerator(ks@, pH as int, i as int, acid),
        decreases n + 1 - i,
    {
        let weight = opt_mul(h_pow(pH, n - i), products[i]);
        if i > 0 {
            let w = if acid { weight } else { opt_mul(h_pow(pH, i), products[n - i]) };
            numer = opt_add(numer, opt_mul(Some(Dec::from_u64(i as u64)), w));
        }
        denom = opt_add(denom, weight);
        i = i + 1;
    }
    opt_div(opt_mul(Some(species.conc()), numer), denom)
}

/// The charge imbalance `[H+] - RHS` of `sol` at the fixed-point pH `pH`, with the solvent's
/// linear self-ionization constant `Ki`; `None` when a decimal result leaves the decimal range.
pub fn calculate_diff(sol: &[AcidBase], Ki: Dec, pH: i64) -> (r: Option<Dec>)
    ensures
        r == imbalance(sol@, Ki, pH as int),
{
    let h = h_pow(pH, 1);
    let mut rhs = opt_div(Some(Ki), h);
    let mut j: usize = 0;
    while j < sol.len()
        invariant
            j <= sol@.len(),
            h == h_power(pH as int, 1),
            rhs == rhs_upto(sol@, Ki, pH as int, j as int),
        decreases sol@.len() - j,
    {
        let term = species_contribution(&sol[j], pH);
        if sol[j].is_acidic() {
            rhs = opt_add(rhs, term);
        } else {
            rhs = opt_sub(rhs, term);
        }
        j = j + 1;
    }
    proof {
        reveal(imbalance);
    }
    opt_sub(h, rhs)
}

/// Default width, in fixed-point pH steps, under which bisection stops.
pub const DEFAULT_TOLERANCE: u64 = 1;

/// The point bisection tries next in `[lo, hi]`.
pub open spec fn midpoint(lo: int, hi: int) -> int {
    lo + (hi - lo) / 2
}

/// The imbalance is not strictly of one sign at both `lo` and `hi`.
pub open spec fn brackets(sol: Seq<AcidBase>, kw: Dec, lo: int, hi: int) -> bool {
    match (imbalance(sol, kw, lo), imbalance(sol, kw, hi)) {
        (Some(l), Some(r)) => !(l.is_positive_spec() && r.is_positive_spec())
            && !(l.is_negative_spec() && r.is_negative_spec()),
        _ => false,
    }
}

/// `p` is an exact root of the imbalance, or lies in a bracket of width at most `tol`
/// (at least one step) at whose ends the imbalance does not keep one strict sign.
pub open spec fn located(sol: Seq<AcidBase>, kw: Dec, p: int, tol: int) -> bool {
    ||| (imbalance(sol, kw, p) matches Some(c) && c.is_zero_spec())
    ||| exists|lo: int, hi: int|
        lo <= p <= hi && (hi - lo <= tol || hi - lo <= 1) && #[trigger] brackets(sol, kw, lo, hi)
}

/// What one bisection step on `[lo, hi]` decides.
#[derive(Clone, Copy, Debug, PartialEq, Eq)]
pub enum Decision {
    /// The search ends with this pH.
    Finish(i64),
    /// Go on with `[mid, hi]`.
    RaiseLow,
    /// Go on with `[lo, mid]`.
    LowerHigh,
    /// The midpoint's imbalance agrees in sign with neither end.
    Inconsistent,
}

/// The decision of one bisection step, from the imbalances `left`, `right` and `center`
/// at `lo`, `hi` and their midpoint, within the solvent's range `[min, max]`.
pub open spec fn decision(
    left: Dec,
    right: Dec,
    center: Dec,
    lo: int,
    hi: int,
    min: int,
    max: int,
    tol: int,
) -> Decision {
    let mid = midpoint(lo, hi);
    if center.is_zero_spec() {
        Decision::Finish(mid as i64)
    } else if left.is_positive_spec() && right.is_positive_spec() {
        Decision::Finish(max as i64)
    } else if left.is_negative_spec() && right.is_negative_spec() {
        Decision::Finish(min as i64)
    } else if hi - lo <= tol || hi - lo <= 1 {
        Decision::Finish(mid as i64)
    } else if Dec::same_sign_spec(center, left) {
        Decision::RaiseLow
    } else if Dec::same_sign_spec(center, right) {
        Decision::LowerHigh
    } else {
        Decision::Inconsistent
    }
}

/// One bisection step: an exact root at the midpoint ends the search there; an imbalance
/// strictly positive (negative) at both ends saturates at `max` (`min`); a bracket at most
/// `tolerance` steps (or one step) wide ends at its midpoint; otherwise the half whose ends
/// keep a sign change is kept.
pub fn bisect_step(
    left: &Dec,
    right: &Dec,
    center: &Dec,
    lo: i64,
    hi: i64,
    min: i64,
    max: i64,
    tolerance: u64,
) -> (r: Decision)
    requires
        lo <= hi,
    ensures
        r == decision(*left, *right, *center, lo as int, hi as int, min as int, max as int, tolerance as int),
{
    let width: i128 = hi as i128 - lo as i128;
    let mid: i64 = (lo as i128 + width / 2) as i64;
    if center.is_zero() {
        Decision::Finish(mid)
    } else if left.is_positive() && right.is_positive() {
        Decision::Finish(max)
    } else if left.is_negative() && right.is_negative() {
        Decision::Finish(min)
    } else if width <= tolerance as i128 || width <= 1 {
        Decision::Finish(mid)
    } else if Dec::same_sign(center, left) {
        Decision::RaiseLow
    } else if Dec::same_sign(center, right) {
        Decision::LowerHigh
    } else {
        Decision::Inconsistent
    }
}

/// Bisection on `[lo, hi]` inside the solvent's range `[min, max]`, stopping once the
/// bracket is at most `tol` steps (and at most one step) wide.
pub open spec fn bisect(
    sol: Seq<AcidBase>,
    kw: Dec,
    min: int,
    max: int,
    tol: int,
    lo: int,
    hi: int,
) -> Result<i64, CalcError>
    decreases hi - lo,
{
    let mid = midpoint(lo, hi);
    match (imbalance(sol, kw, lo), imbalance(sol, kw, hi), imbalance(sol, kw, mid)) {
        (Some(left), Some(right), Some(center)) => match decision(left, right, center, lo, hi, min, max, tol) {
            Decision::Finish(p) => Ok(p),
            Decision::RaiseLow => bisect(sol, kw, min, max, tol, mid, hi),
            Decision::LowerHigh => bisect(sol, kw, min, max, tol, lo, mid),
            Decision::Inconsistent => Err(CalcError::InconsistentBracket),
        },
        _ => Err(CalcError::NumericOverflow),
    }
}

/// The solver's result for `sol` in the solvent `props`, with stopping width `tol`.
pub open spec fn solve(sol: Seq<AcidBase>, props: SolProperties, tol: int) -> Result<i64, CalcError> {
    match linear_of(props.pki_spec() as int) {
        Some(kw) => bisect(
            sol,
            kw,
            props.min_spec() as int,
            props.max_spec() as int,
            tol,
            props.min_spec() as int,
            props.max_spec() as int,
        ),
        None => Err(CalcError::NumericOverflow),
    }
}

/// The pH of `solution` in the solvent `properties`, found by bisection over the
/// fixed-point grid of `[min_pH, max_pH]` down to a bracket `tolerance` steps wide.
pub fn compute_pH_within(solution: &[AcidBase], properties: &SolProperties, tolerance: u64) -> (r: Result<i64, CalcError>)
    requires
        properties.wf(),
    ensures
        r == solve(solution@, *properties, tolerance as int),
        r != Err::<i64, CalcError>(CalcError::InconsistentBracket),
        r is Ok ==> properties.min_spec() <= r->Ok_0 <= properties.max_spec(),
        r is Ok ==> ({
            let p = r->Ok_0;
            ||| p == properties.min_spec()
            ||| p == properties.max_spec()
            ||| located(solution@, linear_of(properties.pki_spec() as int)->Some_0, p as int, tolerance as int)
        }),
{
    let min = properties.min_pH();
    let max = properties.max_pH();
    let kw = match linear(properties.pKi()) {
        Some(k) => k,
        None => return Err(CalcError::NumericOverflow),
    };
    let ghost sol = solution@;
    let ghost tol = tolerance as int;
    proof {
        lemma_solve_consistent(sol, *properties, tol);
    }
    let mut lo = min;
    let mut hi = max;
    let mut left = match calculate_diff(solution, kw, lo) {
        Some(v) => v,
        None => return Err(CalcError::NumericOverflow),
    };
    let mut right = match calculate_diff(solution, kw, hi) {
        Some(v) => v,
        None => return Err(CalcError::NumericOverflow),
    };
    loop
        invariant
            sol == solution@,
            tol == tolerance as int,
            linear_of(properties.pki_spec() as int) == Some(kw),
            min == properties.min_spec(),
            max == properties.max_spec(),
            min <= lo < hi <= max,
            imbalance(sol, kw, lo as int) == Some(left),
            imbalance(sol, kw, hi as int) == Some(right),
            solve(sol, *properties, tol) == bisect(sol, kw, min as int, max as int, tol, lo as int, hi as int),
        decreases hi - lo,
    {
        let width: i128 = hi as i128 - lo as i128;
        let mid: i64 = (lo as i128 + width / 2) as i64;
        assert(mid as int == midpoint(lo as int, hi as int));
        let center = match calculate_diff(solution, kw, mid) {
            Some(v) => v,
            None => return Err(CalcError::NumericOverflow),
        };
        match bisect_step(&left, &right, &center, lo, hi, min, max, tolerance) {
            Decision::Finish(p) => {
                if !center.is_zero() && !(left.is_positive() && right.is_positive())
                    && !(left.is_negative() && right.is_negative()) {
                    assert(brackets(sol, kw, lo as int, hi as int));
                }
                return Ok(p);
            },
            Decision::RaiseLow => {
                lo = mid;
                left = center;
            },
            Decision::LowerHigh => {
                hi = mid;
                right = center;
            },
            Decision::Inconsistent => return Err(CalcError::InconsistentBracket),
        }
    }
}

/// The pH of `solution` in the solvent `properties`, to the default tolerance.
pub fn compute_pH(solution: &[AcidBase], properties: &SolProperties) -> (r: Result<i64, CalcError>)
    requires
        properties.wf(),
    ensures
        r == solve(solution@, *properties, DEFAULT_TOLERANCE as int),
        r != Err::<i64, CalcError>(CalcError::InconsistentBracket),
        r is Ok ==> properties.min_spec() <= r->Ok_0 <= properties.max_spec(),
        r is Ok ==> ({
            let p = r->Ok_0;
            ||| p == properties.min_spec()
            ||| p == properties.max_spec()
            ||| located(solution@, linear_of(properties.pki_spec() as int)->Some_0, p as int, DEFAULT_TOLERANCE as int)
        }),
{
    compute_pH_within(solution, properties, DEFAULT_TOLERANCE)
}

/// `compute_pH` on an owned list of species, as handed over by a binding layer.
pub fn calculate_pH(solution: Vec<AcidBase>, properties: SolProperties) -> (r: Result<i64, CalcError>)
    requires
        properties.wf(),
    ensures
        r == solve(solution@, properties, DEFAULT_TOLERANCE as int),
{
    compute_pH(solution.as_slice(), &properties)
}

/// Solving is a pure function of its inputs: two solves of identical species lists in
/// identical solvents, with the same tolerance, give identical results.
pub proof fn lemma_solve_deterministic(
    sol_a: Seq<AcidBase>,
    sol_b: Seq<AcidBase>,
    props_a: SolProperties,
    props_b: SolProperties,
    tol: int,
)
    requires
        sol_a == sol_b,
        props_a == props_b,
    ensures
        solve(sol_a, props_a, tol) == solve(sol_b, props_b, tol),
{
}

/// When the imbalance is strictly positive at both ends of the solvent's range, the solver
/// saturates at exactly `max_pH` (unless the first midpoint happens to be an exact root).
pub proof fn lemma_saturates_at_max(sol: Seq<AcidBase>, props: SolProperties, tol: int)
    requires
        props.wf(),
        linear_of(props.pki_spec() as int) matches Some(kw) && ({
            &&& imbalance(sol, kw, props.min_spec() as int) matches Some(l) && l.is_positive_spec()
            &&& imbalance(sol, kw, props.max_spec() as int) matches Some(r) && r.is_positive_spec()
            &&& imbalance(sol, kw, midpoint(props.min_spec() as int, props.max_spec() as int)) matches Some(c)
                && !c.is_zero_spec()
        }),
    ensures
        solve(sol, props, tol) == Ok::<i64, CalcError>(props.max_spec()),
{
}

/// When the imbalance is strictly negative at both ends of the solvent's range, the solver
/// saturates at exactly `min_pH` (unless the first midpoint happens to be an exact root).
pub proof fn lemma_saturates_at_min(sol: Seq<AcidBase>, props: SolProperties, tol: int)
    requires
        props.wf(),
        linear_of(props.pki_spec() as int) matches Some(kw) && ({
            &&& imbalance(sol, kw, props.min_spec() as int) matches Some(l) && l.is_negative_spec()
            &&& imbalance(sol, kw, props.max_spec() as int) matches Some(r) && r.is_negative_spec()
            &&& imbalance(sol, kw, midpoint(props.min_spec() as int, props.max_spec() as int)) matches Some(c)
                && !c.is_zero_spec()
        }),
    ensures
        solve(sol, props, tol) == Ok::<i64, CalcError>(props.min_spec()),
{
}

/// Bisection never reports an inconsistent bracket: once the two ends are known not to
/// share a strict sign, a non-zero midpoint value always agrees in sign with one of them.
pub proof fn lemma_bisect_consistent(
    sol: Seq<AcidBase>,
    kw: Dec,
    min: int,
    max: int,
    tol: int,
    lo: int,
    hi: int,
)
    ensures
        bisect(sol, kw, min, max, tol, lo, hi) != Err::<i64, CalcError>(CalcError::InconsistentBracket),
    decreases hi - lo,
{
    let mid = midpoint(lo, hi);
    if let (Some(left), Some(right), Some(center)) = (
        imbalance(sol, kw, lo),
        imbalance(sol, kw, hi),
        imbalance(sol, kw, mid),
    ) {
        if !center.is_zero_spec() && !(left.is_positive_spec() && right.is_positive_spec())
            && !(left.is_negative_spec() && right.is_negative_spec()) && !(hi - lo <= tol || hi - lo <= 1) {
            if Dec::same_sign_spec(center, left) {
                lemma_bisect_consistent(sol, kw, min, max, tol, mid, hi);
            } else if Dec::same_sign_spec(center, right) {
                lemma_bisect_consistent(sol, kw, min, max, tol, lo, mid);
            }
        }
    }
}

/// The solver never reports an inconsistent bracket.
pub proof fn lemma_solve_consistent(sol: Seq<AcidBase>, props: SolProperties, tol: int)
    ensures
        solve(sol, props, tol) != Err::<i64, CalcError>(CalcError::InconsistentBracket),
{
    if let Some(kw) = linear_of(props.pki_spec() as int) {
        lemma_bisect_consistent(
            sol,
            kw,
            props.min_spec() as int,
            props.max_spec() as int,
            tol,
            props.min_spec() as int,
            props.max_spec() as int,
        );
    }
}

} // verus!
