//! One tick of the control loop for one device: from the samples and the
//! configuration to what is asked of the actuator.

use vstd::prelude::*;
use crate::config::{Config, Mode};
use crate::curve::{curve_fault, evaluate, target};
use crate::error::ConfigError;
use crate::pwm::Request;
use crate::temp::{aggregated, Samples, Temp};

verus! {

/// What a tick asks of the actuator. Under `Auto` the fan is handed to the
/// hardware whatever the sensors say. Under a curve policy a tick without a
/// temperature asks for nothing, and a tick with one asks for the duty cycle
/// that the curve gives, or fails on a curve that cannot be evaluated.
pub open spec fn tick(samples: Samples, config: Config) -> Result<Option<Request>, ConfigError> {
    if config.mode is Auto {
        Ok(Some(Request::EnableAuto))
    } else {
        match aggregated(samples, config.temp) {
            None => Ok(None),
            Some(t) => match curve_fault(config.point@) {
                Some(e) => Err(e),
                None => Ok(
                    Some(Request::SetDuty(target(config.point@, t as int, config.mode) as usize)),
                ),
            },
        }
    }
}

/// The temperature that stands for a device under its configuration; absent
/// where the sensors that the configuration names gave nothing.
pub fn read_temperature(temp: &Temp, config: &Config) -> (r: Option<usize>)
    ensures
        r == aggregated(temp@, config.temp),
{
    temp.aggregate(config.temp)
}

/// The duty cycle that the curve of `config` gives at `temp` degrees.
///
/// Under `Auto` there is no such duty cycle: the hardware decides.
pub fn compute_target(temp: usize, config: &Config) -> (r: Result<usize, ConfigError>)
    requires
        !(config.mode is Auto),
    ensures
        curve_fault(config.point@) matches Some(e) ==> r == Err::<usize, ConfigError>(e),
        curve_fault(config.point@) is None ==> (r matches Ok(p) && p == target(
            config.point@,
            temp as int,
            config.mode,
        ) && p <= 100),
{
    evaluate(temp, &config.point, config.mode)
}

/// Decides one tick: what to ask of the actuator, if anything.
pub fn plan_tick(temp: &Temp, config: &Config) -> (r: Result<Option<Request>, ConfigError>)
    ensures
        r == tick(temp@, *config),
        r matches Ok(Some(Request::SetDuty(p))) ==> p <= 100,
{
    match config.mode {
        Mode::Auto => Ok(Some(Request::EnableAuto)),
        _ => match read_temperature(temp, config) {
            None => Ok(None),
            Some(t) => match compute_target(t, config) {
                Ok(p) => Ok(Some(Request::SetDuty(p))),
                Err(e) => Err(e),
            },
        },
    }
}

} // verus!
