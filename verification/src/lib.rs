//! Resolution of a layered MQTT connection profile: a raw key/value
//! variable set is validated and typed into `ConnectionSettings`, from
//! which a concrete transport configuration is derived.

pub mod connection_settings;
pub mod raw_vars;
pub mod text;
pub mod transport;
