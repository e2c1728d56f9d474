//! Decision core of a hybrid peer-to-peer network service.

pub mod address;
pub mod agreements;
pub mod channel;
pub mod draw;
pub mod egress;
pub mod ingress;
pub mod laws;
pub mod message;
pub mod node_id;
pub mod relay;
pub mod service;
pub mod state;
pub mod stream;
pub mod table;
pub mod text;
