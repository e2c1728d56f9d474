//! Laws: what calls of the library give, whoever makes them.
//!
//! Each law takes arguments and results of calls, as `call_ensures` relates
//! them, and says in plain terms how they hang together.

pub mod addresses;
pub mod channels;
pub mod identities;
pub mod inbound;
pub mod market;
pub mod outbound;
pub mod startup;
pub mod streams;
