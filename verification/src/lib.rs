//! Decides when a home battery is charged from the grid and when a heat pump is held back, from
//! electricity prices, the weather forecast and the readings of the house, and answers questions
//! about all of it.

pub mod analysis;
pub mod balance;
pub mod bounds;
pub mod calendar;
pub mod commands;
pub mod config;
pub mod controller;
pub mod datasource;
pub mod documents;
pub mod double;
pub mod energy;
pub mod environment;
pub mod huawei;
pub mod json;
pub mod laws;
pub mod mcp;
pub mod moment;
pub mod order;
pub mod plant;
pub mod prices;
pub mod pricing;
pub mod rounding;
pub mod series;
pub mod settings;
pub mod state;
pub mod status;
pub mod text;
pub mod transport;
pub mod weather;
pub mod web;
