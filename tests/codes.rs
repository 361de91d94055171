use client_rust_fix::codes::{
    order_type_name, order_type_text, order_type_to_char, side_as_int, side_name,
    time_in_force_text, time_in_force_to_char, OrdType, Side, TimeInForce,
};

#[test]
fn test_time_in_force_day() {
    let tif = TimeInForce::Day;
    assert_eq!(tif, TimeInForce::Day);
}

#[test]
fn test_time_in_force_good_till_cancel() {
    let tif = TimeInForce::GoodTillCancel;
    assert_eq!(tif, TimeInForce::GoodTillCancel);
}

#[test]
fn test_time_in_force_at_the_opening() {
    let tif = TimeInForce::AtTheOpening;
    assert_eq!(tif, TimeInForce::AtTheOpening);
}

#[test]
fn test_time_in_force_immediate_or_cancel() {
    let tif = TimeInForce::ImmediateOrCancel;
    assert_eq!(tif, TimeInForce::ImmediateOrCancel);
}

#[test]
fn test_time_in_force_fill_or_kill() {
    let tif = TimeInForce::FillOrKill;
    assert_eq!(tif, TimeInForce::FillOrKill);
}

#[test]
fn test_time_in_force_good_till_crossing() {
    let tif = TimeInForce::GoodTillCrossing;
    assert_eq!(tif, TimeInForce::GoodTillCrossing);
}

#[test]
fn test_time_in_force_good_till_date() {
    let tif = TimeInForce::GoodTillDate;
    assert_eq!(tif, TimeInForce::GoodTillDate);
}

#[test]
fn test_time_in_force_debug_format() {
    let tif = TimeInForce::Day;
    assert_eq!(format!("{:?}", tif), "Day");
}

#[test]
fn test_time_in_force_equality() {
    assert_eq!(TimeInForce::Day, TimeInForce::Day);
    assert_ne!(TimeInForce::Day, TimeInForce::GoodTillCancel);
}

#[test]
fn test_time_in_force_clone() {
    let tif = TimeInForce::FillOrKill;
    let tif_clone = tif.clone();
    assert_eq!(tif, tif_clone);
}

#[test]
fn test_order_type_market() {
    let order_type: OrdType = OrdType::Market;
    let order_type_char = order_type_to_char(order_type);
    assert_eq!(order_type_char, '1');
}

#[test]
fn test_order_type_limit() {
    let order_type: OrdType = OrdType::Limit;
    let order_type_char = order_type_to_char(order_type);
    assert_eq!(order_type_char, '2');
}

#[test]
fn test_side_buy() {
    let side: Side = Side::Buy;
    let side_int = side_as_int(side);
    assert_eq!(side_int, 1);
}

#[test]
fn test_side_sell() {
    let side: Side = Side::Sell;
    let side_int = side_as_int(side);
    assert_eq!(side_int, 2);
}

#[test]
fn side_codes_past_nine_are_decimal() {
    assert_eq!(side_as_int(Side::CrossShortExempt), 10);
    assert_eq!(side_as_int(Side::Borrow), 16);
}

#[test]
fn order_type_letters() {
    assert_eq!(order_type_to_char(OrdType::PreviouslyQuoted), 'D');
    assert_eq!(order_type_to_char(OrdType::Pegged), 'P');
    assert_eq!(order_type_text(OrdType::StopLimit), "4");
}

#[test]
fn time_in_force_codes() {
    assert_eq!(time_in_force_to_char(TimeInForce::Day), '0');
    assert_eq!(time_in_force_to_char(TimeInForce::AtTheClose), '7');
    assert_eq!(time_in_force_text(TimeInForce::GoodTillCancel), "1");
}

#[test]
fn names_match_variants() {
    assert_eq!(side_name(Side::SellShortExempt), "SellShortExempt");
    assert_eq!(order_type_name(OrdType::Limit), "Limit");
}
