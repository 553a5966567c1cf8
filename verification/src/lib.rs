//! Verified core of a wallet service and of a configuration-service client.

pub mod text;
pub mod sql;
pub mod model;
pub mod keyed;
pub mod acm;
pub mod api;
pub mod service;
pub mod async_init;
