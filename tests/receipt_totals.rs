use receipt_calculator::fixed::TOTAL_UNIT;
use receipt_calculator::gratuity::Gratuity;
use receipt_calculator::items::Item;
use receipt_calculator::quantity::Quantity;
use receipt_calculator::receipt::{Receipt, Totals};
use receipt_calculator::service_charge::ServiceCharge;
use receipt_calculator::tax::Tax;
use receipt_calculator::tax_group::TaxGroup;

fn group_with(name: &str, rate: i64) -> TaxGroup {
    TaxGroup::new(7, "Food".to_string(), vec![Tax::new(3, name.to_string(), rate)])
}

fn item(price: i64, group: TaxGroup, tax_overide: bool) -> Item {
    Item::new(1, "Burger".to_string(), "Food".to_string(), price, group, tax_overide)
}

fn receipt(service: i64, gratuity: i64) -> Receipt {
    let sc = ServiceCharge::new(1, "Service".to_string(), service, TaxGroup::default(), false);
    let gr = Gratuity::new(1, "Tip".to_string(), gratuity, TaxGroup::default(), false);
    Receipt::new(1, "Table 4".to_string(), sc, gr)
}

fn totals(r: &Receipt) -> Totals {
    assert!(r.within_range());
    r.calculate_total()
}

#[test]
fn empty_order_is_all_zero() {
    let r = receipt(50_000, 200_000);
    let t = totals(&r);
    assert_eq!(t, Totals { subtotal: 0, tax: 0, service_charge: 0, gratuity: 0, total: 0 });
}

#[test]
fn single_taxed_item_formulas() {
    // price 3.25, quantity 4, rate 0.1
    let mut r = receipt(0, 0);
    r.add_item(item(3_250_000, group_with("Sales Tax", 100_000), false), Quantity(4));
    let t = totals(&r);
    assert_eq!(t.subtotal, 13 * TOTAL_UNIT);
    assert_eq!(t.tax, 13 * TOTAL_UNIT / 10);
    assert_eq!(t.total, 143 * TOTAL_UNIT / 10);
}

#[test]
fn overridden_item_only_adds_to_total() {
    let mut r = receipt(0, 0);
    r.add_item(item(10_000_000, group_with("Sales Tax", 77_500), false), Quantity(1));
    let before = totals(&r);
    r.add_item(item(2_500_000, group_with("Sales Tax", 77_500), true), Quantity(3));
    let after = totals(&r);
    assert_eq!(after.subtotal, before.subtotal);
    assert_eq!(after.tax, before.tax);
    assert_eq!(after.total, before.total + 75 * TOTAL_UNIT / 10);
}

#[test]
fn item_without_sales_tax_contributes_nothing() {
    let mut r = receipt(50_000, 200_000);
    r.add_item(item(10_000_000, group_with("Sales Tax", 77_500), false), Quantity(2));
    let before = totals(&r);
    r.add_item(item(4_000_000, group_with("City Tax", 20_000), false), Quantity(5));
    let after = totals(&r);
    assert_eq!(after, before);
}

#[test]
fn sales_tax_name_is_case_sensitive() {
    let mut r = receipt(0, 0);
    r.add_item(item(4_000_000, group_with("sales tax", 20_000), false), Quantity(5));
    assert_eq!(totals(&r).total, 0);
}

#[test]
fn charges_use_the_running_total_after_items() {
    // one untaxed line of 100.00: running total 100
    let mut r = receipt(100_000, 250_000);
    r.add_item(item(100_000_000, TaxGroup::default(), true), Quantity(1));
    let t = totals(&r);
    assert_eq!(t.subtotal, 0);
    assert_eq!(t.service_charge, 10 * TOTAL_UNIT);
    assert_eq!(t.gratuity, 25 * TOTAL_UNIT);
    assert_eq!(t.total, 135 * TOTAL_UNIT);
}

#[test]
fn calculating_twice_gives_the_same_totals() {
    let mut r = receipt(35_000, 155_000);
    r.add_item(item(19_990_000, group_with("Sales Tax", 77_500), false), Quantity(3));
    r.add_item(item(5_000_000, group_with("Sales Tax", 77_500), true), Quantity(2));
    let first = r.calculate_total();
    let second = r.calculate_total();
    assert_eq!(first, second);
}

#[test]
fn documented_scenario() {
    let mut r = receipt(50_000, 200_000);
    r.add_item(item(10_000_000, group_with("Sales Tax", 77_500), false), Quantity(2));
    let t = totals(&r);
    assert_eq!(t.subtotal, 20 * TOTAL_UNIT);
    assert_eq!(t.tax, 155 * TOTAL_UNIT / 100);
    assert_eq!(t.service_charge, 10_775 * TOTAL_UNIT / 10_000);
    assert_eq!(t.gratuity, 431 * TOTAL_UNIT / 100);
    assert_eq!(t.total, 269_375 * TOTAL_UNIT / 10_000);
}

#[test]
fn negative_quantity_and_price_are_taken_as_given() {
    let mut r = receipt(0, 0);
    r.add_item(item(-2_000_000, group_with("Sales Tax", 500_000), false), Quantity(3));
    let t = totals(&r);
    assert_eq!(t.subtotal, -6 * TOTAL_UNIT);
    assert_eq!(t.tax, -3 * TOTAL_UNIT);
    assert_eq!(t.total, -9 * TOTAL_UNIT);
}

#[test]
fn largest_values_are_out_of_range() {
    let mut r = receipt(i64::MAX, i64::MAX);
    r.add_item(item(i64::MAX, group_with("Sales Tax", i64::MAX), false), Quantity(i32::MAX));
    assert!(!r.within_range());
    let mut small = receipt(i64::MAX, 0);
    small.add_item(item(1, group_with("Sales Tax", 0), false), Quantity(1));
    assert!(small.within_range());
    assert_eq!(small.calculate_total().service_charge, i64::MAX as i128 * 1_000_000);
}

#[test]
fn range_check_sums_every_line() {
    let mut r = receipt(0, 0);
    let line = item(i64::MAX, group_with("Sales Tax", 0), false);
    r.add_item(line.clone(), Quantity(1_000_000));
    assert!(r.within_range());
    for _ in 0..20 {
        r.add_item(line.clone(), Quantity(1_000_000));
    }
    assert!(!r.within_range());
}

#[test]
fn first_matching_tax_wins() {
    let g = TaxGroup::new(
        1,
        "Mixed".to_string(),
        vec![
            Tax::new(1, "City Tax".to_string(), 10_000),
            Tax::new(2, "Sales Tax".to_string(), 60_000),
            Tax::new(3, "Sales Tax".to_string(), 90_000),
        ],
    );
    assert_eq!(g.get_tax_percent("Sales Tax"), Some(60_000));
    assert_eq!(g.get_tax_percent("City Tax"), Some(10_000));
    assert_eq!(g.get_tax_percent("State Tax"), None);
    assert_eq!(TaxGroup::new(2, "Empty".to_string(), vec![]).get_tax_percent("Sales Tax"), None);
}

#[test]
fn defaults_and_constructors() {
    let i = Item::new(5, "Soup".to_string(), "Starters".to_string(), 4_500_000, TaxGroup::default(), true);
    assert_eq!(i.category, "Default");
    assert_eq!(i.price, 4_500_000);
    assert!(i.tax_overide);
    let d = Item::default();
    assert_eq!(d.name, "Rusty Crab");
    assert_eq!(d.price, 19_990_000);
    assert_eq!(TaxGroup::default().taxes, vec![Tax::default()]);
    assert_eq!(Tax::default().percent, 77_500);
    assert_eq!(ServiceCharge::default().percent, 35_000);
    assert_eq!(Gratuity::default().percent, 155_000);
}

#[test]
fn quantity_text() {
    assert_eq!(Quantity(3).to_text(false), "3");
    assert_eq!(Quantity(3).to_text(true), "Quantity: 3");
    assert_eq!(Quantity(-12).to_text(false), "-12");
    assert_eq!(Quantity(i32::MIN).to_text(false), "-2147483648");
    assert_eq!(Quantity(0).to_text(true), "Quantity: 0");
}
