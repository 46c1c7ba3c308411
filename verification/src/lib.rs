//! Verified core of a banking simulator, a multiplayer snake game and a chat
//! protocol: the data models, rules and state transitions, with contracts.
pub mod bank;
pub mod chat;
pub mod cli;
pub mod clock;
pub mod dashmaps;
pub mod decimal;
pub mod report;
pub mod text;
pub mod snake;
