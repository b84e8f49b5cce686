//! Aquarium device-command protocol, coordination protocol and host
//! decision logic, with machine-checked contracts.

pub mod text;
pub mod device;
pub mod coord;
pub mod json;
pub mod canonical;
pub mod digest;
pub mod host;
pub mod wire;
pub mod journal;
pub mod service;
pub mod assignment;
pub mod adapter;
pub mod linear;
pub mod mux;
pub mod control;
pub mod checkout;
pub mod paths;
pub mod session;
pub mod desktop;
