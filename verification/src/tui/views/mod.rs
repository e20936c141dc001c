pub mod checkout_panel;
pub mod detail_view;
pub mod help;
pub mod mr_detail;
pub mod mr_list;
pub mod settings;
