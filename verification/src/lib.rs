//! Pure logic of the F429ZI firmware.
pub mod fixed;
pub mod leds;
pub mod parse;
pub mod fault;
pub mod config;
pub mod auth;
pub mod ota;
pub mod sensor;
pub mod dfu;
pub mod clock;
pub mod buttons;
