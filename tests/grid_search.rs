use decimal_rs::Decimal;
use ph_calc::numeric::{Dec, P_UNIT};
use ph_calc::scan::{compute_pH, compute_pH_partial};
use ph_calc::types::{AcidBase, CalcError};

fn dec(s: &str) -> Dec {
    let (digits, scale, negative) = s.parse::<Decimal>().unwrap().into_parts();
    Dec { digits, scale, negative }
}

fn pk(x: f64) -> i64 {
    (x * P_UNIT as f64).round() as i64
}

fn species(is_acid: bool, conc: &str, pks: &[f64]) -> AcidBase {
    AcidBase::new(is_acid, dec(conc), pks.iter().map(|p| pk(*p)).collect()).unwrap()
}

#[test]
fn grid_water_is_neutral() {
    assert_eq!(compute_pH(&[], 14 * P_UNIT, 1), Ok(7 * P_UNIT));
}

#[test]
fn grid_halves_report_their_best_point() {
    let kw = dec("0.00000000000001");
    let (acid_ph, acid_diff) = compute_pH_partial(true, &[], kw, 1).unwrap();
    let (base_ph, base_diff) = compute_pH_partial(false, &[], kw, 1).unwrap();
    assert_eq!(acid_ph, 6_900_000_000);
    assert!(acid_diff.is_positive());
    assert_eq!(base_ph, 7 * P_UNIT);
    assert!(base_diff.is_zero());
}

// The grid tests sweep with two decimal places: every grid point raises ten to decimal
// powers for each species, and four places (140,000 points per solve) would take far
// longer than a unit test should.

#[test]
fn grid_triprotic_acid() {
    let r = compute_pH(&[species(true, "0.1", &[2.12, 7.21, 12.67])], 14 * P_UNIT, 2).unwrap();
    assert_eq!((10.0 * r as f64 / P_UNIT as f64).round(), 16.0);
}

#[test]
fn grid_monoprotic_acid() {
    let r = compute_pH(&[species(true, "0.02", &[4.76])], 14 * P_UNIT, 2).unwrap();
    assert_eq!((10.0 * r as f64 / P_UNIT as f64).round(), 32.0);
}

#[test]
fn grid_monoprotic_base() {
    let r = compute_pH(&[species(false, "0.03", &[9.24])], 14 * P_UNIT, 2).unwrap();
    assert_eq!((r as f64 / P_UNIT as f64).round(), 11.0);
}

#[test]
fn grid_unrepresentable_solvent_is_refused() {
    assert_eq!(compute_pH(&[], -9_000_000_000_000_000_000, 1), Err(CalcError::NumericOverflow));
}

fn grid_ph(solution: &[AcidBase]) -> f64 {
    compute_pH(solution, 14 * P_UNIT, 2).unwrap() as f64 / P_UNIT as f64
}

#[test]
fn grid_diprotic_acid() {
    assert_eq!(grid_ph(&[species(true, "0.1", &[-3.0, 1.99])]).round(), 1.0);
}

#[test]
fn grid_simple_buffer() {
    let ph = grid_ph(&[species(true, "0.1", &[4.21]), species(false, "0.1", &[4.21])]);
    assert_eq!((10.0 * ph).round(), 42.0);
}

#[test]
fn grid_diprotic_base() {
    assert_eq!(10.0 * grid_ph(&[species(false, "0.25", &[6.35, 10.33])]).round(), 120.0);
}

#[test]
fn grid_super_solution() {
    let solution = [
        species(true, "0.02", &[2.12, 7.21, 12.67]),
        species(true, "0.01", &[2.0, 2.7, 6.16, 10.26]),
        species(false, "0.25", &[9.24, 12.4, 13.3]),
        species(true, "0.001", &[-3.0, 1.99]),
        species(false, "0.05", &[4.76]),
    ];
    assert_eq!(grid_ph(&solution).round(), 13.0);
}
