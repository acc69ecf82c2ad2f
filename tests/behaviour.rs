use decimal_rs::Decimal;
use ph_calc::calculator::{bisect_step, calculate_diff, calculate_pH, compute_pH, compute_pH_within, Decision};
use ph_calc::numeric::{Dec, P_UNIT};
use ph_calc::types::{AcidBase, CalcError, SolProperties};

fn dec(s: &str) -> Dec {
    let (digits, scale, negative) = s.parse::<Decimal>().unwrap().into_parts();
    Dec { digits, scale, negative }
}

fn to_f64(d: Dec) -> f64 {
    f64::from(Decimal::from_parts(d.digits, d.scale, d.negative).unwrap())
}

fn pk(x: f64) -> i64 {
    (x * P_UNIT as f64).round() as i64
}

fn species(is_acid: bool, conc: &str, pks: &[f64]) -> AcidBase {
    AcidBase::new(is_acid, dec(conc), pks.iter().map(|p| pk(*p)).collect()).unwrap()
}

fn ph_of(solution: &[AcidBase]) -> f64 {
    compute_pH(solution, &SolProperties::default_water()).unwrap() as f64 / P_UNIT as f64
}

#[test]
fn pure_water_balances_exactly_at_seven() {
    let kw = dec("0.00000000000001");
    let at_seven = calculate_diff(&[], kw, 7 * P_UNIT).unwrap();
    assert!(at_seven.is_zero());
    assert_eq!(compute_pH(&[], &SolProperties::default_water()), Ok(7_000_000_000));
}

#[test]
fn imbalance_sign_follows_trial_ph() {
    let kw = dec("0.00000000000001");
    let acidic = calculate_diff(&[], kw, 3 * P_UNIT).unwrap();
    let basic = calculate_diff(&[], kw, 11 * P_UNIT).unwrap();
    assert!(acidic.is_positive());
    assert!(basic.is_negative());
    assert!((to_f64(acidic) - (1e-3 - 1e-11)).abs() < 1e-15);
}

#[test]
fn more_concentrated_acid_gives_lower_ph() {
    let dilute = ph_of(&[species(true, "0.01", &[4.76])]);
    let concentrated = ph_of(&[species(true, "0.1", &[4.76])]);
    assert!(concentrated < dilute);
}

#[test]
fn weaker_acid_gives_higher_ph() {
    let stronger = ph_of(&[species(true, "0.1", &[4.76])]);
    let weaker = ph_of(&[species(true, "0.1", &[6.0])]);
    assert!(weaker > stronger);
}

#[test]
fn solving_twice_gives_the_same_ph() {
    let solution = [species(true, "0.1", &[2.12, 7.21, 12.67]), species(false, "0.05", &[4.76])];
    let water = SolProperties::default_water();
    assert_eq!(compute_pH(&solution, &water), compute_pH(&solution, &water));
}

#[test]
fn strong_acid_is_fully_dissociated() {
    for (conc, expected) in [("0.001", 3.0), ("0.01", 2.0), ("0.1", 1.0), ("1", 0.0)] {
        let ph = ph_of(&[species(true, conc, &[-3.0])]);
        assert!((ph - expected).abs() < 0.01, "{conc}: {ph}");
    }
}

#[test]
fn equimolar_buffer_sits_at_its_pk() {
    let ph = ph_of(&[species(true, "0.1", &[4.21]), species(false, "0.1", &[4.21])]);
    assert!((ph - 4.21).abs() < 0.01, "{ph}");
}

#[test]
fn triprotic_phosphoric_acid() {
    assert_eq!((10.0 * ph_of(&[species(true, "0.1", &[2.12, 7.21, 12.67])])).round(), 16.0);
}

#[test]
fn diprotic_strong_acid() {
    assert_eq!(ph_of(&[species(true, "0.1", &[-3.0, 1.99])]).round(), 1.0);
}

#[test]
fn base_beyond_range_saturates_at_max() {
    let narrow = SolProperties::new(14 * P_UNIT, 2 * P_UNIT, 3 * P_UNIT).unwrap();
    let r = compute_pH(&[species(false, "0.1", &[13.5])], &narrow);
    assert_eq!(r, Ok(3 * P_UNIT));
}

#[test]
fn acid_beyond_range_saturates_at_min() {
    let narrow = SolProperties::new(14 * P_UNIT, 8 * P_UNIT, 10 * P_UNIT).unwrap();
    let r = compute_pH(&[species(true, "0.1", &[-3.0])], &narrow);
    assert_eq!(r, Ok(8 * P_UNIT));
}

#[test]
fn negative_concentration_is_refused() {
    let r = AcidBase::new(true, dec("-0.1"), vec![pk(4.76)]);
    assert_eq!(r.err(), Some(CalcError::InvalidConcentration));
}

#[test]
fn zero_concentration_is_accepted() {
    assert!(AcidBase::new(true, dec("0"), vec![pk(4.76)]).is_ok());
}

#[test]
fn missing_pk_is_refused() {
    let r = AcidBase::new(false, dec("0.1"), vec![]);
    assert_eq!(r.err(), Some(CalcError::MissingDissociationData));
}

#[test]
fn unrepresentable_constant_is_refused() {
    let r = AcidBase::new(true, dec("0.1"), vec![-9_000_000_000_000_000_000]);
    assert_eq!(r.err(), Some(CalcError::NumericOverflow));
}

#[test]
fn empty_or_reversed_range_is_refused() {
    assert_eq!(SolProperties::new(14 * P_UNIT, 5 * P_UNIT, 5 * P_UNIT).err(), Some(CalcError::InvalidSolventRange));
    assert_eq!(SolProperties::new(14 * P_UNIT, 9 * P_UNIT, 5 * P_UNIT).err(), Some(CalcError::InvalidSolventRange));
}

#[test]
fn solvent_keeps_its_values() {
    let s = SolProperties::new(13 * P_UNIT, -1 * P_UNIT, 15 * P_UNIT).unwrap();
    assert_eq!((s.pKi(), s.min_pH(), s.max_pH()), (13 * P_UNIT, -P_UNIT, 15 * P_UNIT));
    let w = SolProperties::default_water();
    assert_eq!((w.pKi(), w.min_pH(), w.max_pH()), (14 * P_UNIT, -2 * P_UNIT, 16 * P_UNIT));
}

#[test]
fn pk_values_are_sorted_and_converted() {
    let s = AcidBase::new(false, dec("0.25"), vec![pk(7.0), pk(2.0), pk(4.0)]).unwrap();
    assert!(!s.is_acidic());
    assert_eq!(s.conc(), dec("0.25"));
    assert_eq!(s.pka_values(), &vec![pk(2.0), pk(4.0), pk(7.0)]);
    let ks: Vec<f64> = s.dissoc_consts_acid().iter().map(|k| to_f64(*k)).collect();
    assert!((ks[0] - 1e-2).abs() < 1e-15);
    assert!((ks[1] - 1e-4).abs() < 1e-17);
    assert!((ks[2] - 1e-7).abs() < 1e-20);
}

#[test]
fn coarse_tolerance_stays_close() {
    let solution = [species(true, "0.02", &[4.76])];
    let water = SolProperties::default_water();
    let fine = compute_pH(&solution, &water).unwrap();
    let coarse = compute_pH_within(&solution, &water, 1_000_000).unwrap();
    assert!((fine - coarse).abs() <= 2_000_000);
}

#[test]
fn owned_entry_point_matches() {
    let solution = vec![species(true, "0.02", &[4.76])];
    let water = SolProperties::default_water();
    assert_eq!(calculate_pH(solution.clone(), water), compute_pH(&solution, &water));
}

#[test]
fn species_from_unordered_pks_is_built() {
    let s = AcidBase::new(true, dec("0.1"), vec![pk(7.21), pk(2.12)]).unwrap();
    assert!(s.is_acidic());
    assert_eq!(s.conc(), dec("0.1"));
    assert_eq!(s.pka_values(), &vec![pk(2.12), pk(7.21)]);
    let ks: Vec<f64> = s.dissoc_consts_acid().iter().map(|k| to_f64(*k)).collect();
    assert!((ks[0] - 10f64.powf(-2.12)).abs() < 1e-12);
    assert!((ks[1] - 10f64.powf(-7.21)).abs() < 1e-17);
}

#[test]
fn permuted_pks_store_the_same_constants() {
    let a = AcidBase::new(false, dec("0.1"), vec![pk(11.88), pk(6.79)]).unwrap();
    let b = AcidBase::new(false, dec("0.1"), vec![pk(6.79), pk(11.88)]).unwrap();
    assert_eq!(a.dissoc_consts_acid(), b.dissoc_consts_acid());
    assert_eq!(a.pka_values(), b.pka_values());
}

#[test]
fn display_label_is_kept_apart() {
    let mut s = species(true, "0.1", &[4.76]);
    assert_eq!(s.name(), &None);
    s.set_name(Some("acetic acid".to_string()));
    assert_eq!(s.name(), &Some("acetic acid".to_string()));
    assert_eq!(ph_of(&[s]), ph_of(&[species(true, "0.1", &[4.76])]));
}

#[test]
fn bisect_step_decisions() {
    let pos = dec("0.5");
    let neg = dec("-0.5");
    let zero = dec("0");
    let (lo, hi, min, max) = (2 * P_UNIT, 6 * P_UNIT, 0, 14 * P_UNIT);
    assert_eq!(bisect_step(&pos, &neg, &zero, lo, hi, min, max, 1), Decision::Finish(4 * P_UNIT));
    assert_eq!(bisect_step(&pos, &pos, &neg, lo, hi, min, max, 1), Decision::Finish(max));
    assert_eq!(bisect_step(&neg, &neg, &pos, lo, hi, min, max, 1), Decision::Finish(min));
    assert_eq!(bisect_step(&pos, &neg, &pos, lo, hi, min, max, 1), Decision::RaiseLow);
    assert_eq!(bisect_step(&pos, &neg, &neg, lo, hi, min, max, 1), Decision::LowerHigh);
    assert_eq!(bisect_step(&pos, &neg, &neg, lo, lo + 1, min, max, 1), Decision::Finish(lo));
    assert_eq!(bisect_step(&pos, &neg, &neg, lo, hi, min, max, 4 * P_UNIT as u64), Decision::Finish(4 * P_UNIT));
}
