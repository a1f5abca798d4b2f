//! The verified core of a small HTTP service that exposes one text
//! transformation: configuration resolution, the route table, request
//! decoding and the lifecycle of the listener.

pub mod address;
pub mod config;
pub mod lifecycle;
pub mod service;
pub mod text;
