//! A multi-transport command gateway: a canonical command model, a verified
//! wire codec, and a dispatcher that executes commands against shared state
//! with exact contracts on every response.

pub mod adapters;
pub mod bootstrap;
pub mod chars;
pub mod command;
pub mod dispatch;
pub mod fields;
pub mod textcodec;
