//! Codec for the Cassandra native protocol: primitive wire types, bound
//! values, server error bodies and request frames.

pub mod codec;
pub mod consistency;
pub mod error;
pub mod frame;
pub mod frame_error;
pub mod query;
pub mod value;
