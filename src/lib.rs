//! A ledger engine for client accounts: deposits, withdrawals and the
//! dispute lifecycle (dispute, then resolve or chargeback), with every
//! transition proved against a mathematical model of the ledger.
pub mod model;
pub mod processor;
pub mod laws;
pub mod amount;
