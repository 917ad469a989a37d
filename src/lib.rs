//! Receipt totals for a point-of-sale configuration tool.
//!
//! Monetary amounts and rates are exact fixed-point numbers counted in
//! millionths (see `fixed`), so every total is computed without rounding.
pub mod add_gratuity_view;
pub mod add_item_view;
pub mod add_service_charge_view;
pub mod add_tax_group_view;
pub mod add_tax_view;
pub mod amount;
pub mod amount_laws;
pub mod calculations;
pub mod fixed;
pub mod gratuity;
pub mod gratuity_list_view;
pub mod item_list_view;
pub mod items;
pub mod listing;
pub mod quantity;
pub mod receipt;
pub mod revenue_category;
pub mod service_charge;
pub mod service_charge_list_view;
pub mod table_state;
pub mod tax;
pub mod tax_group;
pub mod tax_group_list_view;
pub mod tax_list_view;
pub mod totals_laws;
pub mod validator;
