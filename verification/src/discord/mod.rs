//! The Discord adapter: one channel's output, and the sessions that turn its
//! messages into turns.

pub mod channel;
pub mod session;
