//! Bookkeeping of paired short-range wireless peripherals: address
//! validation and normalisation, classification by name, parsing of the
//! operating system's paired-device dump, the registry of devices the user
//! registered, and the decision each command of the tool takes on it.

pub mod error;
pub mod text;
pub mod mac;
pub mod classify;
pub mod bluetooth;
pub mod config;
pub mod cli;
