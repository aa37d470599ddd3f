//! Onboarding rules for a community chat server: a member's classification is
//! read off the roles they hold, and their private replies are parsed into
//! role changes.

pub mod action;
pub mod dispatch;
pub mod parser;
pub mod roles;
pub mod router;
pub mod text;
