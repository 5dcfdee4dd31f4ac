//! The wire-facing data shapes of the accounting resources, with the XML
//! element structure of each parameter type stated and proved at the
//! event level.

pub mod contacts;
pub mod invoices;
pub mod items;
pub mod payments;
