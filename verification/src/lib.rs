//! A log collector: message queues, message framing, transformation
//! modules and delivery planning.

pub mod text;
pub mod queue;
pub mod json;
pub mod message;
pub mod config;
pub mod transform;
pub mod server;
pub mod schema;
