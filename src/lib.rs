//! Passive network observation: a header classifier for captured frames, a
//! bounded transport for capture records, a layered geo resolver, and an
//! aggregation engine that keeps a table of peers and emits the events that
//! live subscribers receive.
pub mod addr;
pub mod aggregate;
pub mod classify;
pub mod event;
pub mod models;
pub mod net;
pub mod resolver;
pub mod transport;
