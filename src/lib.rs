//! Session sequencing, message splitting and order-lifecycle decisions for a
//! FIX-style order client.

pub mod common;
pub mod text;
pub mod framing;
pub mod tags;
pub mod codes;
pub mod factory;
pub mod utils;
pub mod order;
pub mod session;
pub mod rfq;
