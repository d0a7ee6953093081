//! The fan actuator: the state of one PWM channel and the decisions on what
//! to write to it.
//!
//! The actuator never writes to the hardware itself. For a request it names
//! the writes that the hardware needs, in order; the caller performs them,
//! stops at the first that fails, and reports how many succeeded. Only then
//! does the state move, and only as far as the hardware did.

use vstd::prelude::*;
use crate::error::{ProbeError, PwmError};
use crate::utils::{
    append, append_decimal, decimal, decimal_text, number_within, read_usize, same_text, trim,
    trimmed,
};

verus! {

/// What a control loop may ask of the actuator.
#[derive(Debug, Clone, Copy, PartialEq, Eq, Structural)]
pub enum Request {
    /// Hand the fan to the hardware's own regulation.
    EnableAuto,
    /// Take the fan under manual control.
    EnableManual,
    /// Run the fan at this percentage.
    SetDuty(usize),
}

/// One write to a file of the PWM channel.
#[derive(Debug, Clone, Copy, PartialEq, Eq, Structural)]
pub enum PwmWrite {
    /// `1` into the enable file.
    Manual,
    /// `2` into the enable file.
    Automatic,
    /// The duty cycle in raw units into the PWM file.
    Duty(usize),
}

/// What is known of a PWM channel: who regulates, the duty cycle last
/// written in percent, and the raw bounds of the hardware.
pub struct PwmState {
    pub auto: bool,
    pub percent: usize,
    pub min: usize,
    pub max: usize,
}

/// The files of one PWM channel.
#[derive(Debug)]
pub struct PwmPath {
    pub auto: Option<String>,
    pub pwm: Option<String>,
    pub min: Option<String>,
    pub max: Option<String>,
}

/// The actuator of one fan.
#[derive(Debug)]
pub struct Pwm {
    auto: bool,
    pwm: usize,
    min: usize,
    max: usize,
    path: PwmPath,
}

/// What was found of one PWM channel whose PWM file exists: the text of its
/// four files, each absent where it could not be read.
#[derive(Debug)]
pub struct Probe {
    pub channel: usize,
    pub enable: Option<String>,
    pub pwm: Option<String>,
    pub min: Option<String>,
    pub max: Option<String>,
}

/// What the four files of a channel say: who regulates, the raw duty cycle
/// and the raw bounds.
pub struct ChannelReading {
    pub auto: bool,
    pub pwm: usize,
    pub min: usize,
    pub max: usize,
}

/// The requests that an actuator serves. Each method takes the caller's
/// privilege and the number of hardware writes of this request that
/// succeeded.
pub trait Control {
    /// Hands the fan to the hardware's own regulation.
    fn enable_auto(&mut self, privileged: bool, written: usize) -> Result<(), PwmError>;

    /// Takes the fan under manual control.
    fn enable_manual(&mut self, privileged: bool, written: usize) -> Result<(), PwmError>;

    /// Runs the fan at `percent`.
    fn set_pwm_percent(&mut self, percent: usize, privileged: bool, written: usize) -> Result<
        (),
        PwmError,
    >;

    /// The duty cycle last written, in percent.
    fn get_percent(self) -> usize;
}

/// The percentage that a raw duty cycle stands for between the raw bounds,
/// rounded down; readings outside the bounds count as the nearer bound.
pub open spec fn percent_of_raw(raw: int, min: int, max: int) -> int {
    if max <= min || raw <= min {
        0
    } else if raw >= max {
        100
    } else {
        (raw - min) * 100 / (max - min)
    }
}

/// The raw duty cycle for a percentage between the raw bounds, rounded down.
pub open spec fn raw_of_percent(percent: int, min: int, max: int) -> int {
    if max <= min {
        min
    } else {
        min + percent * (max - min) / 100
    }
}

/// Why a request is turned down before anything is written: a percentage
/// above 100 first, then a caller without privilege.
pub open spec fn refusal(request: Request, privileged: bool) -> Option<PwmError> {
    if request matches Request::SetDuty(p) && p > 100 {
        Some(PwmError::InvalidArgument)
    } else if !privileged {
        Some(PwmError::PermissionError)
    } else {
        None
    }
}

/// The writes that a request needs, in order.
pub open spec fn planned(state: PwmState, request: Request) -> Seq<PwmWrite> {
    match request {
        Request::EnableAuto => seq![PwmWrite::Automatic],
        Request::EnableManual => seq![PwmWrite::Manual],
        Request::SetDuty(p) => seq![
            PwmWrite::Manual,
            PwmWrite::Duty(raw_of_percent(p as int, state.min as int, state.max as int) as usize),
        ],
    }
}

/// The state after the first `written` writes of a request reached the
/// hardware. A request that is turned down leaves the state as it was.
pub open spec fn after(state: PwmState, request: Request, privileged: bool, written: nat)
    -> PwmState {
    if refusal(request, privileged) is Some || written == 0 {
        state
    } else {
        match request {
            Request::EnableAuto => PwmState { auto: true, ..state },
            Request::EnableManual => PwmState { auto: false, ..state },
            Request::SetDuty(p) => if written == 1 {
                PwmState { auto: false, ..state }
            } else {
                PwmState { auto: false, percent: p, ..state }
            },
        }
    }
}

/// How a request ends: turned down, failed at the hardware, or done.
pub open spec fn outcome(state: PwmState, request: Request, privileged: bool, written: nat)
    -> Result<(), PwmError> {
    match refusal(request, privileged) {
        Some(e) => Err(e),
        None => if written < planned(state, request).len() {
            Err(PwmError::ActuationError)
        } else {
            Ok(())
        },
    }
}

/// A percentage above 100 is turned down as an invalid argument, whoever
/// asks and whatever was written, and the state stays as it was.
pub proof fn lemma_invalid_percentage_changes_nothing(
    state: PwmState,
    percent: usize,
    privileged: bool,
    written: nat,
)
    requires
        percent > 100,
    ensures
        outcome(state, Request::SetDuty(percent), privileged, written) == Err::<(), PwmError>(
            PwmError::InvalidArgument,
        ),
        after(state, Request::SetDuty(percent), privileged, written) == state,
{
}

/// Without privilege a request that is otherwise valid ends in a
/// permission error, and the state stays as it was. The hardware sees no
/// write: `Pwm::writes` names none for a request that is turned down.
pub proof fn lemma_unprivileged_changes_nothing(state: PwmState, request: Request, written: nat)
    requires
        !(request matches Request::SetDuty(p) && p > 100),
    ensures
        outcome(state, request, false, written) == Err::<(), PwmError>(PwmError::PermissionError),
        after(state, request, false, written) == state,
{
}

/// A request whose writes did not all reach the hardware ends in an
/// actuation error and leaves the percentage as it was.
pub proof fn lemma_failed_write_keeps_percentage(state: PwmState, request: Request, written: nat)
    requires
        refusal(request, true) is None,
        written < planned(state, request).len(),
    ensures
        outcome(state, request, true, written) == Err::<(), PwmError>(PwmError::ActuationError),
        after(state, request, true, written).percent == state.percent,
        written == 0 ==> after(state, request, true, written) == state,
{
}

proof fn lemma_scaled_within(percent: int, span: int)
    by (nonlinear_arith)
    requires
        0 <= percent <= 100,
        0 <= span,
    ensures
        0 <= percent * span <= 100 * span,
        0 <= percent * span / 100 <= span,
{
}

proof fn lemma_percent_within(run: int, span: int)
    by (nonlinear_arith)
    requires
        0 <= run <= span,
        0 < span,
    ensures
        0 <= run * 100,
        0 <= run * 100 / span <= 100,
{
}

/// The percentage that a raw duty cycle stands for.
pub fn raw_to_percent(raw: usize, min: usize, max: usize) -> (percent: usize)
    ensures
        percent == percent_of_raw(raw as int, min as int, max as int),
        percent <= 100,
{
    if max <= min || raw <= min {
        0
    } else if raw >= max {
        100
    } else {
        proof {
            lemma_percent_within(raw - min, max - min);
        }
        (((raw - min) as u128 * 100) / ((max - min) as u128)) as usize
    }
}

/// The raw duty cycle for a percentage.
pub fn percent_to_raw(percent: usize, min: usize, max: usize) -> (raw: usize)
    requires
        percent <= 100,
    ensures
        raw == raw_of_percent(percent as int, min as int, max as int),
        min <= max ==> min <= raw <= max,
{
    if max <= min {
        min
    } else {
        proof {
            lemma_scaled_within(percent as int, max - min);
        }
        min + (percent as u128 * ((max - min) as u128) / 100) as usize
    }
}

/// The text that a write puts into its file.
pub open spec fn write_text(write: PwmWrite) -> Seq<char> {
    match write {
        PwmWrite::Manual => "1"@,
        PwmWrite::Automatic => "2"@,
        PwmWrite::Duty(raw) => decimal(raw as nat),
    }
}

/// The path of a file of a PWM channel: `pwm` and the number of the channel
/// in decimal, then what tells the files of a channel apart, all inside the
/// hardware-monitor directory.
pub open spec fn channel_file(dir: Seq<char>, channel: nat, suffix: Seq<char>) -> Seq<char> {
    dir + "/pwm"@ + decimal(channel) + suffix
}

/// The number that the text of a file holds, white space around it aside.
pub open spec fn file_number(text: Option<String>) -> Option<usize> {
    match text {
        Some(t) => match number_within(trimmed(t@), 10, usize::MAX as nat) {
            Some(n) => Some(n as usize),
            None => None,
        },
        None => None,
    }
}

/// What a probe says of its channel, where all four files were read and
/// the three numbers are numbers. The hardware regulates unless the enable
/// file holds `1`.
pub open spec fn probe_reading(probe: Probe) -> Option<ChannelReading> {
    match (probe.enable, file_number(probe.pwm), file_number(probe.min), file_number(probe.max)) {
        (Some(enable), Some(pwm), Some(min), Some(max)) => Some(
            ChannelReading { auto: trimmed(enable@) != "1"@, pwm, min, max },
        ),
        _ => None,
    }
}

/// The index of the first probe that can be read in full, if there is one.
pub open spec fn first_readable(probes: Seq<Probe>) -> Option<int>
    decreases probes.len(),
{
    if probes.len() == 0 {
        None
    } else if first_readable(probes.drop_last()) is Some {
        first_readable(probes.drop_last())
    } else if probe_reading(probes.last()) is Some {
        Some(probes.len() - 1)
    } else {
        None
    }
}

/// The files of a channel, by their paths.
pub open spec fn channel_files(dir: Seq<char>, channel: nat, path: PwmPath) -> bool {
    &&& path.auto matches Some(f) && f@ == channel_file(dir, channel, "_enable"@)
    &&& path.pwm matches Some(f) && f@ == channel_file(dir, channel, ""@)
    &&& path.min matches Some(f) && f@ == channel_file(dir, channel, "_min"@)
    &&& path.max matches Some(f) && f@ == channel_file(dir, channel, "_max"@)
}

/// The number that the text of a file holds.
fn read_number(text: &Option<String>) -> (r: Option<usize>)
    ensures
        r == file_number(*text),
{
    match text {
        Some(t) => read_usize(trim(t.as_str())),
        None => None,
    }
}

fn file_of(dir: &str, channel: usize, suffix: &str) -> (r: String)
    ensures
        r@ == channel_file(dir@, channel as nat, suffix@),
{
    let mut out = String::new();
    append(&mut out, dir);
    append(&mut out, "/pwm");
    append_decimal(&mut out, channel);
    append(&mut out, suffix);
    assert(out@ =~= channel_file(dir@, channel as nat, suffix@));
    out
}

impl PwmWrite {
    /// The text to write: `1` for manual control, `2` for the hardware's
    /// own, the raw duty cycle in decimal.
    pub fn text(&self) -> (r: String)
        ensures
            r@ == write_text(*self),
    {
        match self {
            PwmWrite::Manual => "1".to_owned(),
            PwmWrite::Automatic => "2".to_owned(),
            PwmWrite::Duty(raw) => decimal_text(*raw),
        }
    }
}

impl Probe {
    /// What the probe says of its channel, if all of it can be read.
    pub fn reading(&self) -> (r: Option<ChannelReading>)
        ensures
            r == probe_reading(*self),
    {
        let auto = match &self.enable {
            Some(text) => !same_text(trim(text.as_str()), "1"),
            None => {
                return None;
            },
        };
        let pwm = match read_number(&self.pwm) {
            Some(v) => v,
            None => {
                return None;
            },
        };
        let min = match read_number(&self.min) {
            Some(v) => v,
            None => {
                return None;
            },
        };
        let max = match read_number(&self.max) {
            Some(v) => v,
            None => {
                return None;
            },
        };
        Some(ChannelReading { auto, pwm, min, max })
    }
}

impl PwmPath {
    /// No file is known yet.
    pub fn new() -> (r: Self)
        ensures
            r.auto is None,
            r.pwm is None,
            r.min is None,
            r.max is None,
    {
        PwmPath { auto: None, pwm: None, min: None, max: None }
    }

    /// The files of the channel with this number in the hardware-monitor
    /// directory `dir`.
    pub fn for_channel(dir: &str, channel: usize) -> (r: Self)
        ensures
            channel_files(dir@, channel as nat, r),
    {
        let mut path = PwmPath::new();
        path.init(
            file_of(dir, channel, "_enable"),
            file_of(dir, channel, ""),
            file_of(dir, channel, "_min"),
            file_of(dir, channel, "_max"),
        );
        path
    }

    /// Sets the four files of the channel.
    pub fn init(&mut self, auto: String, pwm: String, min: String, max: String)
        ensures
            final(self).auto == Some(auto),
            final(self).pwm == Some(pwm),
            final(self).min == Some(min),
            final(self).max == Some(max),
    {
        self.auto = Some(auto);
        self.pwm = Some(pwm);
        self.min = Some(min);
        self.max = Some(max);
    }
}

impl View for Pwm {
    type V = PwmState;

    closed spec fn view(&self) -> PwmState {
        PwmState { auto: self.auto, percent: self.pwm, min: self.min, max: self.max }
    }
}

impl Pwm {
    #[verifier::type_invariant]
    spec fn percent_in_range(self) -> bool {
        self.pwm <= 100
    }

    /// The files of the channel.
    pub closed spec fn files(&self) -> PwmPath {
        self.path
    }

    /// An actuator for a channel as the hardware shows it: who regulates,
    /// the raw duty cycle, the raw bounds, and the files.
    pub fn from(auto: bool, pwm: usize, min: usize, max: usize, path: PwmPath) -> (r: Self)
        ensures
            r@ == (PwmState {
                auto,
                percent: percent_of_raw(pwm as int, min as int, max as int) as usize,
                min,
                max,
            }),
            r.files() == path,
    {
        Pwm { auto, pwm: raw_to_percent(pwm, min, max), min, max, path }
    }

    /// The actuator for the first channel that can be read in full.
    ///
    /// `probes` holds the channels that are there, in the order of their
    /// numbers. A device without any has no PWM capability, which is no
    /// error; a device whose channels all fail to read is one.
    pub fn from_probes(dir: &str, probes: &Vec<Probe>) -> (r: Result<Option<Pwm>, ProbeError>)
        ensures
            match first_readable(probes@) {
                Some(i) => r matches Ok(Some(pwm)) && ({
                    let found = probe_reading(probes@[i])->0;
                    &&& 0 <= i < probes@.len()
                    &&& pwm@ == (PwmState {
                        auto: found.auto,
                        percent: percent_of_raw(
                            found.pwm as int,
                            found.min as int,
                            found.max as int,
                        ) as usize,
                        min: found.min,
                        max: found.max,
                    })
                    &&& channel_files(dir@, probes@[i].channel as nat, pwm.files())
                }),
                None => if probes@.len() == 0 {
                    r matches Ok(None)
                } else {
                    r matches Err(ProbeError::Unreadable)
                },
            },
    {
        let mut i: usize = 0;
        assert(probes@.take(0) =~= Seq::<Probe>::empty());
        while i < probes.len()
            invariant
                i <= probes.len(),
                first_readable(probes@.take(i as int)) is None,
            decreases probes.len() - i,
        {
            let ghost next = probes@.take(i + 1);
            assert(next.drop_last() =~= probes@.take(i as int));
            assert(next.last() == probes@[i as int]);
            if let Some(found) = probes[i].reading() {
                proof {
                    lemma_first_readable_stays(probes@, i + 1);
                }
                let path = PwmPath::for_channel(dir, probes[i].channel);
                return Ok(Some(Pwm::from(found.auto, found.pwm, found.min, found.max, path)));
            }
            i += 1;
        }
        assert(probes@.take(i as int) =~= probes@);
        if probes.len() == 0 {
            Ok(None)
        } else {
            Err(ProbeError::Unreadable)
        }
    }

    /// Whether the hardware regulates the fan itself.
    pub fn is_auto(&self) -> (r: bool)
        ensures
            r == self@.auto,
    {
        self.auto
    }

    /// The raw bounds of the hardware: the least and the greatest duty cycle.
    pub fn bounds(&self) -> (r: (usize, usize))
        ensures
            r == (self@.min, self@.max),
    {
        (self.min, self.max)
    }

    /// The files of the channel.
    pub fn path(&self) -> (r: &PwmPath)
        ensures
            *r == self.files(),
    {
        &self.path
    }

    /// The file that a write goes to: the enable file for a change of mode,
    /// the PWM file for a duty cycle.
    pub fn target(&self, write: PwmWrite) -> (r: &Option<String>)
        ensures
            *r == match write {
                PwmWrite::Duty(_) => self.files().pwm,
                _ => self.files().auto,
            },
    {
        match write {
            PwmWrite::Duty(_) => &self.path.pwm,
            _ => &self.path.auto,
        }
    }

    /// The writes that the hardware needs for `request`, in order, or why
    /// the request is turned down. A request that is turned down needs no
    /// write at all.
    pub fn writes(&self, request: Request, privileged: bool) -> (r: Result<Vec<PwmWrite>, PwmError>)
        ensures
            match refusal(request, privileged) {
                Some(e) => r == Err::<Vec<PwmWrite>, PwmError>(e),
                None => r matches Ok(w) && w@ == planned(self@, request),
            },
    {
        if let Request::SetDuty(p) = request {
            if p > 100 {
                return Err(PwmError::InvalidArgument);
            }
        }
        if !privileged {
            return Err(PwmError::PermissionError);
        }
        let mut w: Vec<PwmWrite> = Vec::new();
        match request {
            Request::EnableAuto => {
                w.push(PwmWrite::Automatic);
            },
            Request::EnableManual => {
                w.push(PwmWrite::Manual);
            },
            Request::SetDuty(p) => {
                w.push(PwmWrite::Manual);
                w.push(PwmWrite::Duty(percent_to_raw(p, self.min, self.max)));
            },
        }
        assert(w@ =~= planned(self@, request));
        Ok(w)
    }

    /// Takes note of how far a request got: `written` of its writes reached
    /// the hardware. The state follows the hardware and no further.
    pub fn settle(&mut self, request: Request, privileged: bool, written: usize) -> (r: Result<
        (),
        PwmError,
    >)
        ensures
            r == outcome(old(self)@, request, privileged, written as nat),
            final(self)@ == after(old(self)@, request, privileged, written as nat),
            final(self).files() == old(self).files(),
    {
        proof {
            use_type_invariant(&*self);
        }
        if let Request::SetDuty(p) = request {
            if p > 100 {
                return Err(PwmError::InvalidArgument);
            }
        }
        if !privileged {
            return Err(PwmError::PermissionError);
        }
        if written == 0 {
            return Err(PwmError::ActuationError);
        }
        match request {
            Request::EnableAuto => {
                self.auto = true;
                Ok(())
            },
            Request::EnableManual => {
                self.auto = false;
                Ok(())
            },
            Request::SetDuty(p) => {
                self.auto = false;
                if written == 1 {
                    Err(PwmError::ActuationError)
                } else {
                    self.pwm = p;
                    Ok(())
                }
            },
        }
    }
}

/// The first readable probe stays the first, whatever follows.
proof fn lemma_first_readable_stays(probes: Seq<Probe>, k: int)
    requires
        0 <= k <= probes.len(),
        first_readable(probes.take(k)) is Some,
    ensures
        first_readable(probes) == first_readable(probes.take(k)),
    decreases probes.len() - k,
{
    if k == probes.len() {
        assert(probes.take(k) =~= probes);
    } else {
        assert(probes.drop_last().take(k) =~= probes.take(k));
        lemma_first_readable_stays(probes.drop_last(), k);
    }
}

impl Control for Pwm {
    /// Hands the fan to the hardware, once `2` is in the enable file.
    fn enable_auto(&mut self, privileged: bool, written: usize) -> (r: Result<(), PwmError>)
        ensures
            r == outcome(old(self)@, Request::EnableAuto, privileged, written as nat),
            final(self)@ == after(old(self)@, Request::EnableAuto, privileged, written as nat),
            final(self).files() == old(self).files(),
    {
        self.settle(Request::EnableAuto, privileged, written)
    }

    /// Takes the fan under manual control, once `1` is in the enable file.
    fn enable_manual(&mut self, privileged: bool, written: usize) -> (r: Result<(), PwmError>)
        ensures
            r == outcome(old(self)@, Request::EnableManual, privileged, written as nat),
            final(self)@ == after(old(self)@, Request::EnableManual, privileged, written as nat),
            final(self).files() == old(self).files(),
    {
        self.settle(Request::EnableManual, privileged, written)
    }

    /// Runs the fan at `percent`: manual control first, then the duty cycle.
    /// A percentage above 100 is turned down, never clamped.
    fn set_pwm_percent(&mut self, percent: usize, privileged: bool, written: usize) -> (r: Result<
        (),
        PwmError,
    >)
        ensures
            r == outcome(old(self)@, Request::SetDuty(percent), privileged, written as nat),
            final(self)@ == after(old(self)@, Request::SetDuty(percent), privileged, written as nat),
            final(self).files() == old(self).files(),
    {
        self.settle(Request::SetDuty(percent), privileged, written)
    }

    /// The duty cycle last written, in percent. The hardware is not asked.
    fn get_percent(self) -> (r: usize)
        ensures
            r == self@.percent,
            r <= 100,
    {
        proof {
            use_type_invariant(&self);
        }
        self.pwm
    }
}

} // verus!
