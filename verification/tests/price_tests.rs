use kalandra_kapital::price::{ConversionRate, CurrencyOrbType, Price};

fn rate215() -> ConversionRate {
    ConversionRate::new(215)
}

#[test]
fn canonical_scalar_of_divine_multiplies() {
    let rate = rate215();
    let p = Price::new(1_000_000, CurrencyOrbType::Divine);
    assert_eq!(p.as_chaos(&rate), 215_000_000);
}

#[test]
fn canonical_scalar_of_chaos_is_identity() {
    let rate = rate215();
    let p = Price::new(5_000_000, CurrencyOrbType::Chaos);
    assert_eq!(p.as_chaos(&rate), 5_000_000);
}

#[test]
fn as_divine_truncates_toward_zero() {
    let rate = rate215();
    let p = Price::new(5_000_000, CurrencyOrbType::Chaos);
    assert_eq!(p.as_divine(&rate), 23_255);
}

#[test]
fn convert_round_trip_from_divine_is_exact() {
    let rate = rate215();
    let x = Price::new(20_000, CurrencyOrbType::Divine);
    let there = x.convert(CurrencyOrbType::Chaos, &rate);
    assert_eq!(there.amount_micro, 4_300_000);
    assert_eq!(there.currency_orb, CurrencyOrbType::Chaos);
    let back = there.convert(CurrencyOrbType::Divine, &rate);
    assert_eq!(back.amount_micro, x.amount_micro);
    assert_eq!(back.currency_orb, CurrencyOrbType::Divine);
}

#[test]
fn convert_round_trip_from_chaos_loses_less_than_one_divine() {
    let rate = rate215();
    let x = Price::new(5_000_000, CurrencyOrbType::Chaos);
    let there = x.convert(CurrencyOrbType::Divine, &rate);
    assert_eq!(there.amount_micro, 23_255);
    let back = there.convert(CurrencyOrbType::Chaos, &rate);
    let lost = x.as_chaos(&rate) - back.as_chaos(&rate);
    assert!(0 <= lost && lost < 215);
    assert_eq!(back.amount_micro, 4_999_825);
}

#[test]
fn convert_to_same_unit_is_identity() {
    let rate = rate215();
    let x = Price::new(123, CurrencyOrbType::Divine);
    let y = x.convert(CurrencyOrbType::Divine, &rate);
    assert_eq!(y.amount_micro, 123);
    assert_eq!(y.currency_orb, CurrencyOrbType::Divine);
}

#[test]
fn ordering_follows_canonical_scalar() {
    let rate = rate215();
    // 0.02 divine = 4.3 chaos, below 5 chaos
    let five_chaos = Price::new(5_000_000, CurrencyOrbType::Chaos);
    let small_divine = Price::new(20_000, CurrencyOrbType::Divine);
    assert!(small_divine.lt(&five_chaos, &rate));
    assert!(!five_chaos.lt(&small_divine, &rate));
    assert!(small_divine.as_chaos(&rate) < five_chaos.as_chaos(&rate));
}

#[test]
fn equal_canonical_scalars_are_equal_regardless_of_unit() {
    let rate = rate215();
    let one_divine = Price::new(1_000_000, CurrencyOrbType::Divine);
    let chaos_equiv = Price::new(215_000_000, CurrencyOrbType::Chaos);
    assert!(one_divine.eq_at(&chaos_equiv, &rate));
    assert!(!one_divine.lt(&chaos_equiv, &rate));
    assert!(!chaos_equiv.lt(&one_divine, &rate));
}

#[test]
fn add_normalizes_to_chaos() {
    let rate = rate215();
    let a = Price::new(1_000_000, CurrencyOrbType::Divine);
    let b = Price::new(215_000_000, CurrencyOrbType::Chaos);
    let s = a.add(&b, &rate).unwrap();
    assert_eq!(s.currency_orb, CurrencyOrbType::Chaos);
    assert_eq!(s.amount_micro, 430_000_000);
}

#[test]
fn sub_can_go_negative() {
    let rate = rate215();
    let a = Price::new(1_000_000, CurrencyOrbType::Divine);
    let b = Price::new(2_000_000, CurrencyOrbType::Divine);
    let d = a.sub(&b, &rate).unwrap();
    assert_eq!(d.amount_micro, -215_000_000);
    assert_eq!(d.currency_orb, CurrencyOrbType::Chaos);
}

#[test]
fn as_divine_of_a_negative_value_truncates_toward_zero() {
    let rate = rate215();
    let a = Price::new(0, CurrencyOrbType::Chaos);
    let b = Price::new(5_000_000, CurrencyOrbType::Chaos);
    let d = a.sub(&b, &rate).unwrap();
    assert_eq!(d.amount_micro, -5_000_000);
    assert_eq!(d.as_divine(&rate), -23_255);
}

#[test]
fn zero_is_identity_for_addition() {
    let rate = rate215();
    let z = Price::zero();
    let p = Price::new(7_000_000, CurrencyOrbType::Chaos);
    let s = p.add(&z, &rate).unwrap();
    assert!(s.eq_at(&p, &rate));
}

#[test]
fn add_assign_follows_the_same_rule_as_add() {
    let rate = rate215();
    let mut total = Price::new(1_000_000, CurrencyOrbType::Chaos);
    let more = Price::new(1_000_000, CurrencyOrbType::Divine);
    assert!(total.add_assign(&more, &rate));
    assert_eq!(total.currency_orb, CurrencyOrbType::Chaos);
    assert_eq!(total.amount_micro, 216_000_000);
}
