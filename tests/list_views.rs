use receipt_calculator::calculations::amount_to_text;
use receipt_calculator::amount::parse_amount;
use receipt_calculator::gratuity::Gratuity;
use receipt_calculator::gratuity_list_view::{self, GratuityView};
use receipt_calculator::item_list_view::{self, ItemView};
use receipt_calculator::items::Item;
use receipt_calculator::revenue_category::RevenueCategory;
use receipt_calculator::service_charge_list_view::{self, ServiceChargeView};
use receipt_calculator::tax::Tax;
use receipt_calculator::tax_group::{taxes_to_string, TaxGroup};
use receipt_calculator::tax_group_list_view::{self, TaxGroupView};
use receipt_calculator::tax_list_view::{self, TaxView};
use receipt_calculator::table_state::TableState;
use std::collections::HashMap;

#[test]
fn amounts_are_written_back_as_text() {
    assert_eq!(amount_to_text(19_990_000), "19.99");
    assert_eq!(amount_to_text(-500_000), "-0.5");
    assert_eq!(amount_to_text(3_000_000), "3");
    assert_eq!(amount_to_text(0), "0");
    assert_eq!(amount_to_text(77_500), "0.0775");
    assert_eq!(amount_to_text(1), "0.000001");
    assert_eq!(amount_to_text(i64::MIN), "-9223372036854.775808");
    for x in [i64::MIN, -1, 0, 1, 19_990_000, 123_456_789, i64::MAX] {
        assert_eq!(parse_amount(&amount_to_text(x)), Some(x));
    }
}

#[test]
fn tax_names_are_joined() {
    let taxes = vec![Tax::new(1, "City Tax".to_string(), 1), Tax::new(2, "Sales Tax".to_string(), 2)];
    assert_eq!(taxes_to_string(&taxes), "City Tax,Sales Tax");
    assert_eq!(taxes_to_string(&vec![]), "");
    assert_eq!(taxes_to_string(&taxes[..1].to_vec()), "City Tax");
}

#[test]
fn tax_rows_are_edited_and_saved() {
    let mut view = TaxView::new();
    assert!(view.taxes.is_empty());
    TaxView::update(&mut view, tax_list_view::Message::NewTax(Tax::new(4, "Sales Tax".to_string(), 77_500)));
    TaxView::update(&mut view, tax_list_view::Message::NewTax(Tax::new(5, "City Tax".to_string(), 10_000)));
    assert!(TaxView::update(&mut view, tax_list_view::Message::ToggleEditMode(4, true)).is_none());
    let opened = &view.edit_states[&4];
    assert_eq!(opened.name, "Sales Tax");
    assert_eq!(opened.percent, "0.0775");
    assert!(opened.is_editing);
    TaxView::update(&mut view, tax_list_view::Message::EditField(4, "percent".to_string(), "0.08".to_string()));
    TaxView::update(&mut view, tax_list_view::Message::EditField(4, "name".to_string(), "State Tax".to_string()));
    TaxView::update(&mut view, tax_list_view::Message::EditField(4, "colour".to_string(), "red".to_string()));
    let next = TaxView::update(&mut view, tax_list_view::Message::SaveTax(4));
    assert!(matches!(next, Some(tax_list_view::Message::ToggleEditMode(4, false))));
    assert_eq!(view.taxes[0], Tax::new(4, "State Tax".to_string(), 80_000));
    TaxView::update(&mut view, next.unwrap());
    assert!(view.edit_states.is_empty());
    TaxView::update(&mut view, tax_list_view::Message::DeleteTax(4));
    assert_eq!(view.taxes, vec![Tax::new(5, "City Tax".to_string(), 10_000)]);
}

#[test]
fn unreadable_rate_keeps_the_old_one() {
    let mut view = TaxView::new();
    TaxView::update(&mut view, tax_list_view::Message::NewTax(Tax::new(1, "Sales Tax".to_string(), 77_500)));
    TaxView::update(&mut view, tax_list_view::Message::ToggleEditMode(1, true));
    TaxView::update(&mut view, tax_list_view::Message::EditField(1, "percent".to_string(), "lots".to_string()));
    TaxView::update(&mut view, tax_list_view::Message::SaveTax(1));
    assert_eq!(view.taxes[0].percent, 77_500);
    TaxView::update(&mut view, tax_list_view::Message::SaveTax(9));
    assert_eq!(view.taxes.len(), 1);
}

#[test]
fn item_rows_are_edited_and_deleted() {
    let mut view = ItemView::new();
    assert_eq!(view.items, vec![Item::default()]);
    ItemView::update(&mut view, item_list_view::Message::ToggleEditMode(1, true));
    assert_eq!(view.edit_states[&1].price, "19.99");
    assert_eq!(view.edit_states[&1].category, "Food");
    ItemView::update(&mut view, item_list_view::Message::EditField(1, "price".to_string(), "21.5".to_string()));
    ItemView::update(&mut view, item_list_view::Message::EditField(1, "category".to_string(), "Mains".to_string()));
    ItemView::update(&mut view, item_list_view::Message::SaveItem(1));
    assert_eq!(view.items[0].price, 21_500_000);
    assert_eq!(view.items[0].category, "Food");
    ItemView::update(&mut view, item_list_view::Message::NewItem(Item::default()));
    ItemView::update(&mut view, item_list_view::Message::DeleteItem(1));
    assert!(view.items.is_empty());
    assert!(view.edit_states.is_empty());
}

#[test]
fn gratuity_and_service_charge_rows() {
    let mut gv = GratuityView::new();
    assert_eq!(gv.gratuitys, vec![Gratuity::default()]);
    GratuityView::update(&mut gv, gratuity_list_view::Message::ToggleEditMode(1, true));
    assert_eq!(gv.edit_states[&1].percent, "0.155");
    GratuityView::update(&mut gv, gratuity_list_view::Message::EditField(1, "percent".to_string(), "0.18".to_string()));
    GratuityView::update(&mut gv, gratuity_list_view::Message::SaveGratuity(1));
    assert_eq!(gv.gratuitys[0].percent, 180_000);

    let mut sv = ServiceChargeView::new();
    ServiceChargeView::update(&mut sv, service_charge_list_view::Message::ToggleEditMode(1, true));
    ServiceChargeView::update(&mut sv, service_charge_list_view::Message::EditField(1, "name".to_string(), "Hall".to_string()));
    ServiceChargeView::update(&mut sv, service_charge_list_view::Message::SaveServiceCharge(1));
    assert_eq!(sv.service_charges[0].name, "Hall");
    assert_eq!(sv.service_charges[0].percent, 35_000);
    ServiceChargeView::update(&mut sv, service_charge_list_view::Message::ToggleEditMode(1, false));
    assert!(sv.edit_states.is_empty());
}

#[test]
fn tax_group_rows() {
    let mut view = TaxGroupView::new();
    assert_eq!(view.tax_groups, vec![TaxGroup::default()]);
    TaxGroupView::update(&mut view, tax_group_list_view::Message::ToggleEditMode(1, true));
    assert_eq!(view.edit_states[&1].taxes, vec![Tax::default()]);
    let taxes = vec![Tax::new(2, "Sales Tax".to_string(), 90_000)];
    TaxGroupView::update(&mut view, tax_group_list_view::Message::EditTaxes(1, taxes.clone()));
    TaxGroupView::update(&mut view, tax_group_list_view::Message::EditField(1, "name".to_string(), "Bar".to_string()));
    TaxGroupView::update(&mut view, tax_group_list_view::Message::TaxPressed(2));
    TaxGroupView::update(&mut view, tax_group_list_view::Message::SaveTaxGroup(1));
    assert_eq!(view.tax_groups[0], TaxGroup::new(1, "Bar".to_string(), taxes));
    TaxGroupView::update(&mut view, tax_group_list_view::Message::DeleteTaxGroup(1));
    assert!(view.tax_groups.is_empty());
}

#[test]
fn table_editing_starts_and_stops() {
    let mut table: TableState<Tax> = TableState::new();
    assert_eq!(table.editing_id(), None);
    let mut cells = HashMap::new();
    cells.insert("name".to_string(), "Sales Tax".to_string());
    table.start_editing(3, cells);
    assert_eq!(table.editing_id(), Some(3));
    table.stop_editing();
    assert_eq!(table.editing_id(), None);
}

#[test]
fn saving_an_unedited_row_keeps_it() {
    let mut view = TaxView::new();
    let tax = Tax::new(8, "Sales Tax".to_string(), -123_456_789);
    TaxView::update(&mut view, tax_list_view::Message::NewTax(tax.clone()));
    TaxView::update(&mut view, tax_list_view::Message::ToggleEditMode(8, true));
    TaxView::update(&mut view, tax_list_view::Message::SaveTax(8));
    assert_eq!(view.taxes[0], tax);

    let mut items = ItemView::new();
    ItemView::update(&mut items, item_list_view::Message::ToggleEditMode(1, true));
    ItemView::update(&mut items, item_list_view::Message::SaveItem(1));
    assert_eq!(items.items[0], Item::default());
}

#[test]
fn saved_rows_read_exponent_text() {
    let mut view = TaxView::new();
    TaxView::update(&mut view, tax_list_view::Message::NewTax(Tax::new(1, "Sales Tax".to_string(), 77_500)));
    TaxView::update(&mut view, tax_list_view::Message::ToggleEditMode(1, true));
    TaxView::update(&mut view, tax_list_view::Message::EditField(1, "percent".to_string(), "1e-1".to_string()));
    TaxView::update(&mut view, tax_list_view::Message::SaveTax(1));
    assert_eq!(view.taxes[0].percent, 100_000);

    let mut items = ItemView::new();
    ItemView::update(&mut items, item_list_view::Message::ToggleEditMode(1, true));
    ItemView::update(&mut items, item_list_view::Message::EditField(1, "price".to_string(), "1e3".to_string()));
    ItemView::update(&mut items, item_list_view::Message::SaveItem(1));
    assert_eq!(items.items[0].price, 1_000_000_000);
}

#[test]
fn revenue_category_keeps_its_name() {
    let c = RevenueCategory::new("Drinks".to_string());
    assert_eq!(c.name(), "Drinks");
}
