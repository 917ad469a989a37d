use receipt_calculator::add_gratuity_view::{self, AddGratuityForm};
use receipt_calculator::add_item_view::{self, AddItemForm};
use receipt_calculator::add_service_charge_view::{self, AddServiceChargeForm};
use receipt_calculator::add_tax_group_view::{self, AddTaxGroupForm};
use receipt_calculator::add_tax_view::{self, AddTaxForm};
use receipt_calculator::tax::Tax;
use receipt_calculator::tax_group::TaxGroup;
use receipt_calculator::validator::Message as Field;

#[test]
fn item_form_builds_an_item() {
    let mut form = AddItemForm::new();
    assert!(AddItemForm::update(&mut form, add_item_view::Message::ItemIdChanged(Field::RawInput("12".to_string()))).is_none());
    AddItemForm::update(&mut form, add_item_view::Message::ItemNameChanged("Fries".to_string()));
    AddItemForm::update(&mut form, add_item_view::Message::CategoryChanged("Sides".to_string()));
    AddItemForm::update(&mut form, add_item_view::Message::PriceChanged(Field::RawInput("3.49".to_string())));
    AddItemForm::update(&mut form, add_item_view::Message::TaxOverideChanged(true));
    AddItemForm::update(&mut form, add_item_view::Message::TaxGroupChanged("Food".to_string()));
    assert_eq!(form.tax_group, "Food");
    match AddItemForm::update(&mut form, add_item_view::Message::Submit) {
        Some(add_item_view::Action::AddNewItem(item)) => {
            assert_eq!(item.id, 12);
            assert_eq!(item.name, "Fries");
            assert_eq!(item.category, "Default");
            assert_eq!(item.price, 3_490_000);
            assert!(item.tax_overide);
            assert_eq!(item.tax_group, TaxGroup::default());
        }
        None => panic!("submit gives an item"),
    }
    assert_eq!(form.item_name, "Fries");
}

#[test]
fn item_form_rejects_letters_in_numbers() {
    let mut form = AddItemForm::new();
    AddItemForm::update(&mut form, add_item_view::Message::ItemIdChanged(Field::RawInput("1x".to_string())));
    assert_eq!(form.item_id.value, "");
    assert_eq!(form.item_id.placeholder, "Numbers Only");
    AddItemForm::update(&mut form, add_item_view::Message::PriceChanged(Field::RawSubmit("cheap".to_string())));
    assert_eq!(form.price.value, "cheap");
    assert!(!form.price.is_valid);
    match AddItemForm::update(&mut form, add_item_view::Message::Submit) {
        Some(add_item_view::Action::AddNewItem(item)) => {
            assert_eq!(item.id, 0);
            assert_eq!(item.price, 0);
        }
        None => panic!("submit gives an item"),
    }
}

#[test]
fn tax_form_builds_a_tax() {
    let mut form = AddTaxForm::new();
    AddTaxForm::update(&mut form, add_tax_view::Message::TaxIdChanged(Field::RawInput("4".to_string())));
    AddTaxForm::update(&mut form, add_tax_view::Message::TaxNameChanged("Sales Tax".to_string()));
    AddTaxForm::update(&mut form, add_tax_view::Message::PercentChanged(Field::RawInput("0.0825".to_string())));
    match AddTaxForm::update(&mut form, add_tax_view::Message::Submit) {
        Some(add_tax_view::Action::AddNewTax(tax)) => {
            assert_eq!(tax, Tax::new(4, "Sales Tax".to_string(), 82_500));
        }
        None => panic!("submit gives a tax"),
    }
}

#[test]
fn gratuity_form_builds_a_gratuity() {
    let mut form = AddGratuityForm::new();
    AddGratuityForm::update(&mut form, add_gratuity_view::Message::GratuityIdChanged(Field::RawInput("2".to_string())));
    AddGratuityForm::update(&mut form, add_gratuity_view::Message::GratuityNameChanged("Party".to_string()));
    AddGratuityForm::update(&mut form, add_gratuity_view::Message::PercentChanged(Field::RawInput("0.18".to_string())));
    match AddGratuityForm::update(&mut form, add_gratuity_view::Message::Submit) {
        Some(add_gratuity_view::Action::AddNewGratuity(g)) => {
            assert_eq!(g.id, 2);
            assert_eq!(g.name, "Party");
            assert_eq!(g.percent, 180_000);
            assert!(!g.tax_overide);
        }
        None => panic!("submit gives a gratuity"),
    }
}

#[test]
fn service_charge_form_builds_a_service_charge() {
    let mut form = AddServiceChargeForm::new();
    AddServiceChargeForm::update(&mut form, add_service_charge_view::Message::ServiceChargeIdChanged(Field::RawInput("9".to_string())));
    AddServiceChargeForm::update(&mut form, add_service_charge_view::Message::ServiceChargeNameChanged("Banquet".to_string()));
    AddServiceChargeForm::update(&mut form, add_service_charge_view::Message::PercentChanged(Field::RawInput("1e2".to_string())));
    assert_eq!(form.percent.value, "1e2");
    match AddServiceChargeForm::update(&mut form, add_service_charge_view::Message::Submit) {
        Some(add_service_charge_view::Action::AddNewServiceCharge(s)) => {
            assert_eq!(s.id, 9);
            assert_eq!(s.percent, 100_000_000);
        }
        None => panic!("submit gives a service charge"),
    }
}

#[test]
fn tax_group_form_keeps_only_decoded_taxes() {
    let mut form = AddTaxGroupForm::new();
    AddTaxGroupForm::update(&mut form, add_tax_group_view::Message::TaxGroupIdChanged(Field::RawInput("x".to_string())), None);
    assert_eq!(form.tax_group_id.value, "x");
    assert!(!form.tax_group_id.is_valid);
    AddTaxGroupForm::update(&mut form, add_tax_group_view::Message::TaxGroupIdChanged(Field::RawInput("3".to_string())), None);
    AddTaxGroupForm::update(&mut form, add_tax_group_view::Message::TaxGroupNameChanged("Bar".to_string()), None);
    AddTaxGroupForm::update(&mut form, add_tax_group_view::Message::TaxGroupTaxesChanged("[oops".to_string()), None);
    assert_eq!(form.tax_group_taxes, "");
    let taxes = vec![Tax::new(1, "Sales Tax".to_string(), 90_000)];
    AddTaxGroupForm::update(&mut form, add_tax_group_view::Message::TaxGroupTaxesChanged("[...]".to_string()), Some(taxes.clone()));
    assert_eq!(form.tax_group_taxes, "[...]");
    match AddTaxGroupForm::update(&mut form, add_tax_group_view::Message::Submit, Some(taxes.clone())) {
        Some(add_tax_group_view::Action::AddNewTaxGroup(g)) => {
            assert_eq!(g, TaxGroup::new(3, "Bar".to_string(), taxes));
        }
        None => panic!("submit gives a group"),
    }
    match AddTaxGroupForm::update(&mut form, add_tax_group_view::Message::Submit, None) {
        Some(add_tax_group_view::Action::AddNewTaxGroup(g)) => {
            assert_eq!(g.taxes, vec![Tax::default()]);
        }
        None => panic!("submit gives a group"),
    }
}

#[test]
fn exponent_text_is_read_as_its_value() {
    let mut form = AddItemForm::new();
    AddItemForm::update(&mut form, add_item_view::Message::PriceChanged(Field::RawInput("1e3".to_string())));
    assert!(form.price.is_valid);
    match AddItemForm::update(&mut form, add_item_view::Message::Submit) {
        Some(add_item_view::Action::AddNewItem(item)) => assert_eq!(item.price, 1_000_000_000),
        None => panic!("submit gives an item"),
    }
    AddItemForm::update(&mut form, add_item_view::Message::PriceChanged(Field::RawInput("inf".to_string())));
    assert_eq!(form.price.value, "");
    assert_eq!(form.price.placeholder, "Numbers Only");

    let mut tax = AddTaxForm::new();
    AddTaxForm::update(&mut tax, add_tax_view::Message::PercentChanged(Field::RawInput("7.75E-2".to_string())));
    match AddTaxForm::update(&mut tax, add_tax_view::Message::Submit) {
        Some(add_tax_view::Action::AddNewTax(t)) => assert_eq!(t.percent, 77_500),
        None => panic!("submit gives a tax"),
    }

    let mut grat = AddGratuityForm::new();
    AddGratuityForm::update(&mut grat, add_gratuity_view::Message::PercentChanged(Field::RawSubmit("2e-1".to_string())));
    match AddGratuityForm::update(&mut grat, add_gratuity_view::Message::Submit) {
        Some(add_gratuity_view::Action::AddNewGratuity(g)) => assert_eq!(g.percent, 200_000),
        None => panic!("submit gives a gratuity"),
    }
}
