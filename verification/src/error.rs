//! The ways in which configuration and actuation fail.

use vstd::prelude::*;

verus! {

/// A configuration that cannot drive a fan.
#[derive(Debug, Clone, Copy, PartialEq, Eq, Structural)]
pub enum ConfigError {
    /// The curve holds no point.
    EmptyCurve,
    /// A point asks for more than 100 percent.
    DutyOutOfRange,
    /// The temperatures of the points do not strictly increase.
    UnorderedCurve,
    /// The text is no TOML table of tables.
    Syntax,
    /// `mode` is missing or is no string.
    InvalidMode,
    /// `temp_mode` is missing or is no string.
    InvalidTempMode,
    /// `point` is missing or is no array.
    InvalidPoint,
    /// A point is no array.
    InvalidPointFormat,
    /// A point does not hold exactly two values.
    InvalidPointLength,
    /// The temperature of a point is no integer that fits.
    InvalidTemp,
    /// The duty cycle of a point is no integer that fits.
    InvalidPwm,
}

/// A line of the product table that names no product.
#[derive(Debug, Clone, Copy, PartialEq, Eq, Structural)]
pub enum IdsError {
    /// The line has no second field.
    MissingRevisionId,
    /// The line has no third field.
    MissingProductName,
    /// The first field is no hexadecimal number of 16 bits.
    InvalidDeviceId,
    /// The second field is no hexadecimal number of 16 bits.
    InvalidRevisionId,
}

/// A sensor file that cannot be understood.
#[derive(Debug, Clone, Copy, PartialEq, Eq, Structural)]
pub enum SensorError {
    /// The text is no unsigned decimal number that fits.
    InvalidReading,
}

/// A device whose PWM channels cannot be made out.
#[derive(Debug, Clone, Copy, PartialEq, Eq, Structural)]
pub enum ProbeError {
    /// Channels are there, but none with four files that can be read.
    Unreadable,
}

/// A refused or failed change of the PWM state.
#[derive(Debug, Clone, Copy, PartialEq, Eq, Structural)]
pub enum PwmError {
    /// The caller lacks the privilege to write to the hardware.
    PermissionError,
    /// The percentage is above 100.
    InvalidArgument,
    /// The hardware did not accept a write.
    ActuationError,
}

} // verus!
