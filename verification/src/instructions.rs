//! The three operations the escrow exposes, plus their shared settlement
//! step.

pub mod cancel_session;
pub mod complete_session;
pub mod settle;
pub mod start_session;
