//! Temperature samples of one device and the value that stands for them.

use vstd::prelude::*;
use crate::config::TempMode;
use crate::error::SensorError;
use crate::utils::{
    append, append_decimal, decimal, number_within, read_usize, same_text, trim, trimmed,
};

verus! {

/// What the sensors of a device reported, in whole degrees Celsius. A sensor
/// that did not report is absent.
pub struct Samples {
    pub edge: Option<usize>,
    pub junction: Option<usize>,
    pub mem: Option<usize>,
}

/// The samples of one device together with their mean.
#[derive(Debug)]
pub struct Temp {
    edge: Option<usize>,
    junction: Option<usize>,
    mem: Option<usize>,
    avg: Option<usize>,
}

/// Taking in samples by the name of their sensor.
pub trait UpdateTemp {
    /// Stores `value` as the sample of the sensor named `key`.
    fn update_value(&mut self, key: &str, value: usize);

    /// Brings the mean up to date with the samples.
    fn calculate_avg(&mut self);
}

/// 1 for a sample that is present, 0 for an absent one.
pub open spec fn present(sample: Option<usize>) -> int {
    if sample is Some {
        1
    } else {
        0
    }
}

/// The value of a sample, 0 for an absent one.
pub open spec fn amount(sample: Option<usize>) -> int {
    match sample {
        Some(v) => v as int,
        None => 0,
    }
}

/// The arithmetic mean of the samples that are present, rounded down;
/// absent where none is.
pub open spec fn mean(s: Samples) -> Option<usize> {
    let count = present(s.edge) + present(s.junction) + present(s.mem);
    let sum = amount(s.edge) + amount(s.junction) + amount(s.mem);
    if count == 0 {
        None
    } else {
        Some((sum / count) as usize)
    }
}

/// The temperature that stands for the samples under `mode`.
pub open spec fn aggregated(s: Samples, mode: TempMode) -> Option<usize> {
    match mode {
        TempMode::Avg => mean(s),
        TempMode::Junction => s.junction,
        TempMode::Edge => s.edge,
    }
}

/// The samples after the sensor named `key` reported `value`. A name other
/// than `edge`, `junction` and `mem` changes nothing.
pub open spec fn with_sample(s: Samples, key: Seq<char>, value: usize) -> Samples {
    if key == "edge"@ {
        Samples { edge: Some(value), ..s }
    } else if key == "junction"@ {
        Samples { junction: Some(value), ..s }
    } else if key == "mem"@ {
        Samples { mem: Some(value), ..s }
    } else {
        s
    }
}

/// The whole degrees that the text of a sensor file stands for: the text is
/// a number of millidegrees, with white space around it.
pub open spec fn reading_value(input: Seq<char>) -> Option<usize> {
    match number_within(trimmed(input), 10, usize::MAX as nat) {
        Some(n) => Some((n / 1000) as usize),
        None => None,
    }
}

/// The samples after a run of sensor files, each given as the text of its
/// label and the text of its value; absent where a value cannot be read.
pub open spec fn after_readings(start: Samples, readings: Seq<(String, String)>) -> Option<Samples>
    decreases readings.len(),
{
    if readings.len() == 0 {
        Some(start)
    } else {
        match after_readings(start, readings.drop_last()) {
            None => None,
            Some(s) => match reading_value(readings.last().1@) {
                None => None,
                Some(v) => Some(with_sample(s, trimmed(readings.last().0@), v)),
            },
        }
    }
}

/// The name of a file of the sensor with this number: `temp`, the number in
/// decimal, and what tells the two files of a sensor apart.
pub open spec fn sensor_file(num: nat, suffix: Seq<char>) -> Seq<char> {
    "temp"@ + decimal(num) + suffix
}

fn file_of(num: usize, suffix: &str) -> (r: String)
    ensures
        r@ == sensor_file(num as nat, suffix@),
{
    let mut out = String::new();
    append(&mut out, "temp");
    append_decimal(&mut out, num);
    append(&mut out, suffix);
    assert(out@ =~= sensor_file(num as nat, suffix@));
    out
}

/// The names of the two files of the sensor with this number: the one
/// with its label, the one with its value.
pub fn get_temp_file(num: usize) -> (r: (String, String))
    ensures
        r.0@ == sensor_file(num as nat, "_label"@),
        r.1@ == sensor_file(num as nat, "_input"@),
{
    (file_of(num, "_label"), file_of(num, "_input"))
}

fn mean_of(edge: Option<usize>, junction: Option<usize>, mem: Option<usize>) -> (r: Option<usize>)
    ensures
        r == mean(Samples { edge, junction, mem }),
{
    let mut sum: u128 = 0;
    let mut count: u128 = 0;
    if let Some(v) = edge {
        sum = sum + v as u128;
        count = count + 1;
    }
    if let Some(v) = junction {
        sum = sum + v as u128;
        count = count + 1;
    }
    if let Some(v) = mem {
        sum = sum + v as u128;
        count = count + 1;
    }
    if count == 0 {
        None
    } else {
        Some((sum / count) as usize)
    }
}

impl View for Temp {
    type V = Samples;

    closed spec fn view(&self) -> Samples {
        Samples { edge: self.edge, junction: self.junction, mem: self.mem }
    }
}

impl Temp {
    #[verifier::type_invariant]
    spec fn mean_is_current(self) -> bool {
        self.avg == mean(self@)
    }

    /// The mean that is kept beside the samples.
    pub closed spec fn stored_mean(&self) -> Option<usize> {
        self.avg
    }

    /// No sensor has reported yet.
    pub fn new() -> (r: Self)
        ensures
            r@ == (Samples { edge: None, junction: None, mem: None }),
            r.stored_mean() is None,
    {
        Temp { edge: None, junction: None, mem: None, avg: None }
    }

    /// The temperature that stands for the device under `mode`: the mean of
    /// the samples, or the sample of one sensor. Absent where there is
    /// nothing to go by; never a zero in its place.
    pub fn aggregate(&self, mode: TempMode) -> (r: Option<usize>)
        ensures
            r == aggregated(self@, mode),
            mode is Avg ==> r == self.stored_mean(),
    {
        proof {
            use_type_invariant(self);
        }
        match mode {
            TempMode::Avg => self.avg,
            TempMode::Junction => self.junction,
            TempMode::Edge => self.edge,
        }
    }

    /// Takes in one sensor file: the text of its label and the text of its
    /// value in millidegrees. Where the value cannot be read, nothing changes.
    pub fn record(&mut self, label: &str, input: &str) -> (r: Result<(), SensorError>)
        ensures
            match reading_value(input@) {
                Some(v) => r is Ok && final(self)@ == with_sample(old(self)@, trimmed(label@), v),
                None => r == Err::<(), SensorError>(SensorError::InvalidReading) && final(self)@
                    == old(self)@,
            },
            final(self).stored_mean() == mean(final(self)@),
    {
        proof {
            use_type_invariant(&*self);
        }
        match read_usize(trim(input)) {
            Some(milli) => {
                self.update_value(trim(label), milli / 1000);
                Ok(())
            },
            None => Err(SensorError::InvalidReading),
        }
    }

    /// The samples that a run of sensor files leaves behind, each file given
    /// as the text of its label and the text of its value.
    pub fn from_readings(readings: &Vec<(String, String)>) -> (r: Result<Temp, SensorError>)
        ensures
            match after_readings(Samples { edge: None, junction: None, mem: None }, readings@) {
                Some(s) => r matches Ok(t) && t@ == s && t.stored_mean() == mean(s),
                None => r matches Err(SensorError::InvalidReading),
            },
    {
        let mut temp = Temp::new();
        let ghost start = temp@;
        let mut i: usize = 0;
        while i < readings.len()
            invariant
                i <= readings.len(),
                start == (Samples { edge: None, junction: None, mem: None }),
                after_readings(start, readings@.take(i as int)) == Some(temp@),
            decreases readings.len() - i,
        {
            let ghost done = readings@.take(i as int);
            let ghost next = readings@.take(i + 1);
            assert(next.drop_last() =~= done);
            assert(next.last() == readings@[i as int]);
            match temp.record(readings[i].0.as_str(), readings[i].1.as_str()) {
                Ok(_) => {},
                Err(e) => {
                    proof {
                        lemma_failure_stays(start, readings@, i + 1);
                    }
                    return Err(e);
                },
            }
            i += 1;
        }
        assert(readings@.take(i as int) =~= readings@);
        proof {
            use_type_invariant(&temp);
        }
        Ok(temp)
    }
}

/// Once a value could not be read, no later file mends it.
proof fn lemma_failure_stays(start: Samples, readings: Seq<(String, String)>, k: int)
    requires
        0 <= k <= readings.len(),
        after_readings(start, readings.take(k)) is None,
    ensures
        after_readings(start, readings) is None,
    decreases readings.len() - k,
{
    if k == readings.len() {
        assert(readings.take(k) =~= readings);
    } else {
        assert(readings.drop_last().take(k) =~= readings.take(k));
        lemma_failure_stays(start, readings.drop_last(), k);
    }
}

impl UpdateTemp for Temp {
    /// Stores `value` as the sample of `edge`, `junction` or `mem`; any other
    /// name is passed over. The mean follows.
    fn update_value(&mut self, key: &str, value: usize)
        ensures
            final(self)@ == with_sample(old(self)@, key@, value),
            final(self).stored_mean() == mean(final(self)@),
    {
        proof {
            use_type_invariant(&*self);
        }
        let mut edge = self.edge;
        let mut junction = self.junction;
        let mut mem = self.mem;
        if same_text(key, "edge") {
            edge = Some(value);
        } else if same_text(key, "junction") {
            junction = Some(value);
        } else if same_text(key, "mem") {
            mem = Some(value);
        }
        *self = Temp { edge, junction, mem, avg: mean_of(edge, junction, mem) };
    }

    /// Brings the mean up to date with the samples. The samples stay, and
    /// since every method leaves the mean current, so does what
    /// `aggregate` returns.
    fn calculate_avg(&mut self)
        ensures
            final(self)@ == old(self)@,
            final(self).stored_mean() == mean(final(self)@),
    {
        *self = Temp {
            edge: self.edge,
            junction: self.junction,
            mem: self.mem,
            avg: mean_of(self.edge, self.junction, self.mem),
        };
    }
}

} // verus!
