pub mod api;
pub mod automation;
pub mod calendar;
pub mod chart;
pub mod client;
pub mod clock;
pub mod control;
pub mod database;
pub mod date;
pub mod energy;
pub mod engine;
pub mod error;
pub mod forms;
pub mod group;
pub mod inventory;
pub mod json;
pub mod laws;
pub mod migration;
pub mod mock;
pub mod notices;
pub mod omission;
pub mod plug;
pub mod quantity;
pub mod report;
pub mod rules;
pub mod schedule;
pub mod spans;
pub mod text;
pub mod views;
pub mod weather;
pub mod wire;

pub use error::Error;
