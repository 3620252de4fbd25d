//! Decision layer of an authenticating reverse-proxy pair: a gateway that
//! admits requests carrying a known shared-secret key and routes them by the
//! first path segment, and a tunnel that injects that key into every
//! forwarded request.

pub mod api_key;
pub mod config;
pub mod error;
pub mod gateway;
pub mod key_store;
pub mod routing;
pub mod tunnel;
pub mod tunnel_config;
