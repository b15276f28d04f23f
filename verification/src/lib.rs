//! A schema-driven record store: a catalogue of user-defined record
//! structures, typed rows per structure, and exchange with delimited text and
//! spreadsheet cells.

pub mod catalog;
pub mod codec;
pub mod editor;
pub mod exchange;
pub mod laws;
pub mod lookup;
pub mod schema;
pub mod service;
pub mod sheet;
pub mod store;
pub mod strmap;
