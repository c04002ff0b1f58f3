//! A ledger of financial records, with the rules that keep it consistent.
//!
//! The [`ledger`] holds the records and changes them; [`commands`] is what a
//! host calls, with the snapshot to write after each change; [`model`] says
//! what each operation makes of a sequence of records, and [`laws`] what
//! follows from that. [`currency`] formats amounts, [`snapshot`] and
//! [`assistant`] decide what the disk and the text-completion service
//! cannot.

pub mod assistant;
pub mod commands;
pub mod currency;
pub mod error;
pub mod fresh;
pub mod laws;
pub mod ledger;
pub mod model;
pub mod names;
pub mod record;
pub mod snapshot;
pub mod text;
