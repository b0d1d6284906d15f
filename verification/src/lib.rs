//! Synthetic customer-record generation and spreadsheet serialization.
//!
//! The crate generates synthetic business-contact records, lays them out on a
//! fixed eight-column sheet of a workbook, and parses such sheets back into
//! typed records, validating each field.

pub mod data_gen;
pub mod ids;
pub mod providers;
pub mod reader;
pub mod records;
pub mod sheet;
pub mod text;
pub mod verbosity;
pub mod workbook;
