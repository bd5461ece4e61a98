//! Configuration of the devices that drive the LED strip.

pub mod config;
