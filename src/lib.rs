//! A Monty Hall simulation: a set of doors with one prize behind them, a host
//! who opens empty doors one round at a time, and players who may switch.

pub mod doors;
mod draw;
pub mod strategy;
pub mod game;
pub mod trial;
