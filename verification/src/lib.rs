//! Verified core of a load-cell scale service: a bit-banged driver for an
//! HX711-style amplifier, two-point calibration, a retry-bounded read loop,
//! and the client registry of a local broadcast server.

pub mod calibrate;
pub mod config;
pub mod gpio;
pub mod hx711;
pub mod lines;
pub mod num;
pub mod readloop;
pub mod registry;
pub mod wire;
