//! The bank's domain: money, wallets, accounts, people and events.
pub mod account;
pub mod audit;
pub mod error;
pub mod event;
pub mod filter;
pub mod money;
pub mod persistence;
pub mod person;
pub mod replay;
pub mod rows;
pub mod rules;
pub mod scenario;
pub mod service;
pub mod store;
pub mod wallet;
