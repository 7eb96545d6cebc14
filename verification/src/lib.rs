//! A bidirectional protocol gateway core: it bridges a binary vehicle
//! telemetry/command protocol with a JSON protocol spoken to a streaming
//! client. This crate holds the session pipeline's verified logic: the
//! domain message model, the frame mappers, the bounded channel model,
//! the client wire codec, and the per-loop decision steps.

pub mod channel;
pub mod codec;
pub mod domain;
pub mod mapper;
pub mod session;
pub mod text;
pub mod upstream;
pub mod worker;
