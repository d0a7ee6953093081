//! Fan control for AMD GPUs: the decisions between a temperature reading and
//! a PWM duty cycle, with the file formats of the hardware-monitor interface.
//!
//! Nothing in this crate touches the file system. A caller reads the sensor
//! and PWM files, hands their contents over as plain values, and performs the
//! writes that the actuator asks for.

pub mod config;
pub mod control;
pub mod curve;
pub mod device;
pub mod error;
pub mod ids;
pub mod pwm;
pub mod temp;
pub mod utils;
