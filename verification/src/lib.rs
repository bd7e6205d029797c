//! Verified core of a household tablet time-control service.

pub mod activity;
pub mod clock;
pub mod control;
pub mod dashboard;
pub mod dns;
pub mod domain_rules;
pub mod game_ips;
pub mod ip_registry;
pub mod json;
pub mod keyed;
pub mod laws;
pub mod models;
pub mod numtext;
pub mod order;
pub mod points;
pub mod ros;
pub mod settings;
pub mod telegram;
pub mod text;
pub mod usage;
