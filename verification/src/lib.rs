//! Core of a personal terminal dashboard: markdown task tables, ledger
//! ingestion and aggregation, scrolling, and the key-driven state machine.

pub mod alipay;
pub mod amount;
pub mod bills;
pub mod catalog;
pub mod config;
pub mod dashboard;
pub mod ledger;
pub mod menu;
pub mod scroll;
pub mod source;
pub mod table;
pub mod text;
pub mod weather;
pub mod wechat;
