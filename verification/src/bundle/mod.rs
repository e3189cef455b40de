//! Transactions, bundles of transactions, and the staged construction of an
//! outgoing bundle.

pub mod bundle;
pub mod codec;
pub mod constants;
pub mod outgoing_bundle_builder;
pub mod transaction;
pub mod validation;
