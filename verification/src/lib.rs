//! Transactional mutation core of a spreadsheet grid.
//!
//! Operations are applied one at a time to a grid of sheets. Every applied
//! operation is logged together with its exact inverse, so that a finished
//! transaction can be undone and redone by replaying those logs through the
//! same handlers.

pub mod a1;
pub mod bounds;
pub mod controller;
pub mod decimal;
pub mod display;
pub mod export;
pub mod formats;
pub mod formatting;
pub mod formula;
pub mod grid;
pub mod laws;
pub mod model;
pub mod names;
pub mod operation;
pub mod order;
pub mod pos;
pub mod rendering;
pub mod run_length;
pub mod selection;
pub mod series;
pub mod sheet;
pub mod sheet_formatting;
pub mod sorted;
pub mod store;
pub mod sweeps;
pub mod text;
pub mod transaction;
pub mod values;
