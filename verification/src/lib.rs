//! Shopping-centre site logic: cookies, cart, locales, parking occupancy,
//! the daily prize game, vouchers, visit statistics, accounts and content.

pub mod text;
pub mod cookies;
pub mod bitmap;
pub mod clock;
pub mod parking;
pub mod parking_sim;
pub mod game_rules;
pub mod game;
pub mod daily;
pub mod order;
pub mod auth;
pub mod cart;
pub mod i18n;
pub mod site;
pub mod draw;
pub mod content;
pub mod visits;
pub mod store_form;
pub mod vouchers;
pub mod voucher_admin;
pub mod voucher_issue;
pub mod map_editor;
