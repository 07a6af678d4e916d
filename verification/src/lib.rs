//! Decision logic of the control service: call listings, trace artifacts,
//! model discovery and connectivity probing.

pub mod calls;
pub mod codec;
pub mod connectivity;
pub mod discovery;
pub mod json;
pub mod model;
pub mod order;
pub mod service;
pub mod text;
