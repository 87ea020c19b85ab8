//! A driver for the ThunderBorg motor controller board that performs no I/O
//! itself.
//!
//! The board hangs off an I2C bus. This crate holds everything the driver
//! decides: which bytes make up a request, how often an exchange is retried,
//! when a response counts, and what a response means. Whoever owns the bus
//! performs the [`controller::Action`]s that the driver asks for and reports
//! back what happened as [`controller::Event`]s.
pub mod binary32;
pub mod command;
pub mod controller;
pub mod frame;
pub mod power;
pub mod voltage;
