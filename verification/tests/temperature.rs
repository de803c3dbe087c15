use thermal_viewer::fixed_point::{floor_div, round_div, saturate, FACTOR_ONE};
use thermal_viewer::temperature::{Temp, TempRange, TemperatureUnit};

#[test]
fn factor_is_zero_at_min_and_one_at_max() {
    let ranges = [
        (0i64, 1i64),
        (17482, 20682),
        (-500, 12),
        (i64::MIN, i64::MAX),
        (i64::MIN, i64::MIN + 1),
        (i64::MAX - 7, i64::MAX),
    ];
    for (lo, hi) in ranges {
        let r = TempRange::new(Temp::new(lo), Temp::new(hi));
        assert_eq!(r.factor(r.min), 0);
        assert_eq!(r.factor(r.max), FACTOR_ONE);
    }
}

#[test]
fn factor_of_a_range_without_span_is_zero_at_its_only_point() {
    let r = TempRange::new(Temp::new(300), Temp::new(300));
    assert_eq!(r.factor(Temp::new(300)), 0);
    assert_eq!(r.factor(Temp::new(301)), FACTOR_ONE);
    assert_eq!(r.factor(Temp::new(299)), -FACTOR_ONE);
}

#[test]
fn factor_counts_millionths_of_the_span_rounded_down() {
    let r = TempRange::new(Temp::new(0), Temp::new(75));
    assert_eq!(r.factor(Temp::new(25)), 333_333);
    assert_eq!(r.factor(Temp::new(50)), 666_666);
    assert_eq!(r.factor(Temp::new(150)), 2_000_000);
    assert_eq!(r.factor(Temp::new(-25)), -333_334);
}

#[test]
fn factor_saturates_far_outside_a_narrow_range() {
    let r = TempRange::new(Temp::new(0), Temp::new(1));
    assert_eq!(r.factor(Temp::new(i64::MAX)), i64::MAX);
    assert_eq!(r.factor(Temp::new(i64::MIN)), i64::MIN);
}

#[test]
fn celsius_and_fahrenheit_convert_to_sixty_fourths_of_a_kelvin() {
    assert_eq!(Temp::from_celsius(0).units, 17482);
    assert_eq!(Temp::from_celsius(50_000).units, 20682);
    assert_eq!(Temp::from_unit(TemperatureUnit::Kelvin, 273_125).units, 17480);
    assert_eq!(Temp::from_unit(TemperatureUnit::Fahrenheit, 32_000).units, 17482);
    assert_eq!(Temp::from_unit(TemperatureUnit::Fahrenheit, 212_000).units, 23882);
    assert_eq!(Temp::from_unit(TemperatureUnit::Kelvin, 0).units, 0);
}

#[test]
fn temperatures_read_back_in_thousandths_of_a_degree() {
    let t = Temp::new(17480);
    assert_eq!(t.to_unit(TemperatureUnit::Kelvin), 273_125);
    assert_eq!(t.to_unit(TemperatureUnit::Celsius), -25);
    assert_eq!(t.to_unit(TemperatureUnit::Fahrenheit), 31_955);
    assert_eq!(Temp::new(0).to_unit(TemperatureUnit::Celsius), -273_150);
}

#[test]
fn conversions_hold_at_the_ends_of_the_scale() {
    assert_eq!(Temp::from_unit(TemperatureUnit::Kelvin, i64::MAX).units, 590295810358705652);
    assert_eq!(Temp::new(i64::MAX).to_unit(TemperatureUnit::Kelvin), i64::MAX);
    assert_eq!(Temp::new(i64::MIN).to_unit(TemperatureUnit::Fahrenheit), i64::MIN);
}

#[test]
fn sums_and_differences_stop_at_the_ends_of_the_scale() {
    assert_eq!(Temp::new(5).plus(Temp::new(7)).units, 12);
    assert_eq!(Temp::new(5).minus(Temp::new(7)).units, -2);
    assert_eq!(Temp::highest().plus(Temp::new(1)), Temp::highest());
    assert_eq!(Temp::lowest().minus(Temp::new(1)), Temp::lowest());
    assert_eq!(Temp::highest().minus(Temp::lowest()), Temp::highest());
}

#[test]
fn scaling_multiplies_by_millionths_and_rounds_down() {
    assert_eq!(Temp::new(3200).scaled(500_000).units, 1600);
    assert_eq!(Temp::new(7).scaled(500_000).units, 3);
    assert_eq!(Temp::new(-7).scaled(500_000).units, -4);
    assert_eq!(Temp::new(i64::MAX).scaled(2_000_000), Temp::highest());
}

#[test]
fn unit_suffixes() {
    assert_eq!(TemperatureUnit::Kelvin.suffix(), "K");
    assert_eq!(TemperatureUnit::Celsius.suffix(), "°C");
    assert_eq!(TemperatureUnit::Fahrenheit.suffix(), "°F");
    assert_eq!(TemperatureUnit::default(), TemperatureUnit::Kelvin);
}

#[test]
fn default_range_is_the_unset_range() {
    let r = TempRange::default();
    assert!(r.is_default());
    assert_eq!(r.min, Temp::lowest());
    assert_eq!(r.max, Temp::highest());
    assert!(!TempRange::new(Temp::new(0), Temp::highest()).is_default());
    assert!(r.contains(Temp::new(0)));
}

#[test]
fn containment_includes_both_ends() {
    let r = TempRange::new(Temp::new(10), Temp::new(20));
    assert!(r.contains(Temp::new(10)));
    assert!(r.contains(Temp::new(20)));
    assert!(!r.contains(Temp::new(9)));
    assert!(!r.contains(Temp::new(21)));
    assert!(r.contains_range(TempRange::new(Temp::new(10), Temp::new(20))));
    assert!(!r.contains_range(TempRange::new(Temp::new(10), Temp::new(21))));
    assert!(!r.contains_range(TempRange::new(Temp::new(9), Temp::new(15))));
}

#[test]
fn animate_interpolates_both_ends() {
    let from = TempRange::new(Temp::new(0), Temp::new(100));
    let to = TempRange::new(Temp::new(50), Temp::new(300));
    assert_eq!(from.animate(to, 0), from);
    assert_eq!(from.animate(to, FACTOR_ONE), to);
    assert_eq!(from.animate(to, 500_000), TempRange::new(Temp::new(25), Temp::new(200)));
    assert_eq!(from.animate(to, 250_000), TempRange::new(Temp::new(12), Temp::new(150)));
    assert_eq!(to.animate(from, 250_000), TempRange::new(Temp::new(37), Temp::new(250)));
}

#[test]
fn animate_holds_the_factor_within_zero_and_one() {
    let from = TempRange::new(Temp::new(0), Temp::new(100));
    let to = TempRange::new(Temp::new(50), Temp::new(300));
    assert_eq!(from.animate(to, -3), from);
    assert_eq!(from.animate(to, 1_200_000), to);
    assert_eq!(from.animate(to, i64::MAX), to);
    let wide = TempRange::default();
    assert_eq!(from.animate(wide, FACTOR_ONE), wide);
    assert_eq!(wide.animate(from, FACTOR_ONE), from);
}

#[test]
fn diff_and_join() {
    let a = TempRange::new(Temp::new(10), Temp::new(20));
    let b = TempRange::new(Temp::new(15), Temp::new(40));
    assert_eq!(a.diff(), Temp::new(10));
    assert_eq!(a.join(b), TempRange::new(Temp::new(10), Temp::new(40)));
    assert_eq!(b.join(a), TempRange::new(Temp::new(10), Temp::new(40)));
    assert_eq!(TempRange::default().diff(), Temp::highest());
}

#[test]
fn temperatures_add_and_subtract_with_operators() {
    assert_eq!(Temp::new(5) + Temp::new(7), Temp::new(12));
    assert_eq!(Temp::new(5) - Temp::new(7), Temp::new(-2));
    assert_eq!(Temp::highest() + Temp::new(1), Temp::highest());
    assert_eq!(Temp::lowest() - Temp::new(1), Temp::lowest());
    assert!(Temp::new(5) < Temp::new(7));
    assert!(Temp::lowest() < Temp::highest());
    assert_eq!(Temp::default(), Temp::new(0));
}

#[test]
fn whole_number_division_rounds_down_or_to_the_nearest() {
    assert_eq!(floor_div(7, 2), 3);
    assert_eq!(floor_div(-7, 2), -4);
    assert_eq!(floor_div(-8, 2), -4);
    assert_eq!(floor_div(0, 5), 0);
    assert_eq!(floor_div(-1, 1_000_000), -1);
    assert_eq!(round_div(7, 2), 4);
    assert_eq!(round_div(-7, 2), -3);
    assert_eq!(round_div(5, 3), 2);
    assert_eq!(round_div(4, 3), 1);
    assert_eq!(round_div(-5, 3), -2);
    assert_eq!(saturate(1 << 70), i64::MAX);
    assert_eq!(saturate(-(1 << 70)), i64::MIN);
    assert_eq!(saturate(-3), -3);
}
