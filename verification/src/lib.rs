//! Core of a Mode S / ADS-B decoder: CRC engine, frame parser, position solver
//! and aircraft tracker, with machine-checked contracts.

pub mod aircraft;
pub mod altitude;
pub mod bds;
pub mod bits;
pub mod callsign;
pub mod config;
pub mod cpr;
pub mod crc;
pub mod decoder;
pub mod demodulator;
pub mod magnitude;
pub mod math;
pub mod signal;
