//! Decisions of a live trading scraper: which items are worth watching, which
//! of them a budget can buy, and what to do about each market order.

pub mod amount;
pub mod average;
pub mod entries;
pub mod interesting;
pub mod knapsack;
pub mod model;
pub mod orders;
pub mod progress;
pub mod rankless;
pub mod text;
