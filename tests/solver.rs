use decimal_rs::Decimal;
use ph_calc::calculator::compute_pH;
use ph_calc::numeric::{Dec, P_UNIT};
use ph_calc::types::{AcidBase, SolProperties};

fn to_dec(d: Decimal) -> Dec {
    let (digits, scale, negative) = d.into_parts();
    Dec { digits, scale, negative }
}

fn dec(s: &str) -> Dec {
    to_dec(s.parse::<Decimal>().unwrap())
}

fn pk(x: f64) -> i64 {
    (x * P_UNIT as f64).round() as i64
}

fn species(is_acid: bool, conc: &str, pks: &[f64]) -> AcidBase {
    AcidBase::new(is_acid, dec(conc), pks.iter().map(|p| pk(*p)).collect()).unwrap()
}

fn ph_of(solution: &[AcidBase]) -> f64 {
    compute_pH(solution, &SolProperties::default_water()).unwrap() as f64 / P_UNIT as f64
}

#[test]
fn water() {
    assert_eq!(compute_pH(&[], &SolProperties::default_water()), Ok(7 * P_UNIT));
}

#[test]
fn strong_acid() {
    assert_eq!((100.0 * ph_of(&[species(true, "18", &[-3.0, 1.99])])).round(), -125.0);
}

#[test]
fn strong_base() {
    assert_eq!((10.0 * ph_of(&[species(false, "84", &[13.5])])).round(), 147.0);
}

#[test]
fn test_triprotic_acid() {
    assert_eq!((10.0 * ph_of(&[species(true, "0.1", &[2.12, 7.21, 12.67])])).round(), 16.0);
}

#[test]
fn test_diprotic_acid() {
    assert_eq!(ph_of(&[species(true, "0.1", &[-3.0, 1.99])]).round(), 1.0);
}

#[test]
fn test_monoprotic_acid() {
    assert_eq!((10.0 * ph_of(&[species(true, "0.02", &[4.76])])).round(), 32.0);
}

#[test]
fn test_simple_buffer() {
    assert_eq!(
        (10.0 * ph_of(&[species(true, "0.1", &[4.21]), species(false, "0.1", &[4.21])])).round(),
        42.0
    );
}

#[test]
fn test_monoprotic_base() {
    assert_eq!(10.0 * ph_of(&[species(false, "0.03", &[9.24])]).round(), 110.0);
}

#[test]
fn test_diprotic_base() {
    assert_eq!(10.0 * ph_of(&[species(false, "0.25", &[6.35, 10.33])]).round(), 120.0);
}

#[test]
fn test_super_solution() {
    let solution = [
        species(true, "0.02", &[2.12, 7.21, 12.67]),
        species(true, "0.01", &[2.0, 2.7, 6.16, 10.26]),
        species(false, "0.25", &[9.24, 12.4, 13.3]),
        species(true, "0.001", &[-3.0, 1.99]),
        species(false, "0.05", &[4.76]),
    ];
    assert_eq!(ph_of(&solution).round(), 13.0);
}
