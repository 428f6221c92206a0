//! The application layer of a self-governing forum: session-cookie signing and
//! the verified decision core behind every use-case.
pub mod session;
pub mod services;
