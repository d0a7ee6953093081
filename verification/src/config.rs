//! Per-device configuration: which curve policy, which sensor, which points.

use std::collections::BTreeMap;
use vstd::prelude::*;
use crate::curve::{
    check_curve, check_shape, curve_fault, duties_in_range, shape_fault, strictly_ascending,
};
use crate::error::ConfigError;
use crate::utils::same_text;

verus! {

/// How a temperature becomes a duty cycle.
#[derive(Debug, Clone, Copy, PartialEq, Eq, Structural)]
pub enum Mode {
    /// The hardware regulates the fan itself.
    Auto,
    /// A step function over the points.
    Ladder,
    /// Linear interpolation between neighbouring points.
    Trapezoidal,
}

/// Which sensor stands for the temperature of the device.
#[derive(Debug, Clone, Copy, PartialEq, Eq, Structural)]
pub enum TempMode {
    /// The mean of all sensors that reported.
    Avg,
    /// The junction sensor alone.
    Junction,
    /// The edge sensor alone.
    Edge,
}

/// One point of a curve: at `temp` degrees Celsius the fan runs at `pwm` percent.
#[derive(Debug, Clone, Copy, PartialEq, Eq, Structural)]
pub struct Point {
    pub temp: usize,
    pub pwm: usize,
}

/// The configuration of the fan of one device.
#[derive(Debug)]
pub struct Config {
    pub bus_id: String,
    pub mode: Mode,
    pub temp: TempMode,
    pub point: Vec<Point>,
}

/// A value of a configuration file, as far as a configuration reads it.
#[derive(Debug)]
pub enum ConfigValue {
    /// A string.
    Text(String),
    /// An integer.
    Integer(i64),
    /// An array, with its items in order.
    List(Vec<ConfigValue>),
    /// A float, a boolean, a date or a table.
    Other,
}

/// One key of a section with its value.
#[derive(Debug)]
pub struct Entry {
    pub key: String,
    pub value: ConfigValue,
}

/// One table of a configuration file: the settings of the device named by
/// its bus id.
#[derive(Debug)]
pub struct Section {
    pub name: String,
    pub entries: Vec<Entry>,
}

/// `toml::Value`, a value as the TOML parser hands it out. Nothing is
/// claimed of what it holds.
#[verifier::external_type_specification]
#[verifier::external_body]
pub struct ExTomlValue(toml::Value);

/// `toml::de::Error`, the TOML parser's account of why it refused a text.
/// Nothing is claimed of what it holds.
#[verifier::external_type_specification]
#[verifier::external_body]
pub struct ExTomlError(toml::de::Error);

/// The sections that the TOML parser finds in `text`, in the order of their
/// names; absent where the text is no TOML document made of tables only.
pub uninterp spec fn toml_document(text: Seq<char>) -> Option<Seq<Section>>;

/// Brings a value of the TOML parser, `toml::Value`, into this crate's form:
/// a string, an integer and an array keep what they hold, item by item; every
/// other kind becomes `Other`.
#[verifier::external_body]
fn config_value(value: toml::Value) -> ConfigValue {
    match value {
        toml::Value::String(s) => ConfigValue::Text(s),
        toml::Value::Integer(i) => ConfigValue::Integer(i),
        toml::Value::Array(a) => ConfigValue::List(a.into_iter().map(config_value).collect()),
        toml::Value::Float(_) => ConfigValue::Other,
        toml::Value::Boolean(_) => ConfigValue::Other,
        toml::Value::Datetime(_) => ConfigValue::Other,
        toml::Value::Table(_) => ConfigValue::Other,
    }
}

/// No two sections have the same name.
pub open spec fn distinct_names(doc: Seq<Section>) -> bool {
    forall|i: int, j: int|
        0 <= i < j < doc.len() ==> (#[trigger] doc[i]).name@ != (#[trigger] doc[j]).name@
}

/// Parses a configuration file with `toml::from_str`, as a map from section
/// names to maps from keys to values, and hands the maps out as lists, each
/// value brought into this crate's form by `config_value`. The result
/// depends on the text alone: the parser's error where it refuses the text,
/// else what `toml_document` names. The names of the sections are the keys
/// of one map, so no two of them are the same.
#[verifier::external_body]
fn read_document(text: &str) -> (r: Result<Vec<Section>, toml::de::Error>)
    ensures
        match r {
            Ok(doc) => toml_document(text@) == Some(doc@) && distinct_names(doc@),
            Err(_) => toml_document(text@) is None,
        },
{
    let doc: BTreeMap<String, BTreeMap<String, toml::Value>> = toml::from_str(text)?;
    Ok(
        doc.into_iter().map(
            |(name, table)| Section {
                name,
                entries: table.into_iter().map(
                    |(key, value)| Entry { key, value: config_value(value) },
                ).collect(),
            },
        ).collect(),
    )
}

/// The policy that a word of the configuration names. A word that names
/// none stands for `Auto`.
pub open spec fn mode_of(word: Seq<char>) -> Mode {
    if word == "ladder"@ {
        Mode::Ladder
    } else if word == "trapezoidal"@ {
        Mode::Trapezoidal
    } else {
        Mode::Auto
    }
}

/// The sensor choice that a word of the configuration names. A word that
/// names none stands for `Avg`.
pub open spec fn temp_mode_of(word: Seq<char>) -> TempMode {
    if word == "junction"@ {
        TempMode::Junction
    } else if word == "edge"@ {
        TempMode::Edge
    } else {
        TempMode::Avg
    }
}

/// The value of the first entry with this key.
pub open spec fn lookup(entries: Seq<Entry>, key: Seq<char>) -> Option<ConfigValue>
    decreases entries.len(),
{
    if entries.len() == 0 {
        None
    } else if entries[0].key@ == key {
        Some(entries[0].value)
    } else {
        lookup(entries.drop_first(), key)
    }
}

/// The point that a value stands for: an array of exactly two integers that
/// fit, the temperature first.
pub open spec fn point_of(value: ConfigValue) -> Result<Point, ConfigError> {
    match value {
        ConfigValue::List(items) => if items@.len() != 2 {
            Err(ConfigError::InvalidPointLength)
        } else {
            match (items@[0], items@[1]) {
                (ConfigValue::Integer(t), ConfigValue::Integer(p)) => if !(0 <= t <= usize::MAX) {
                    Err(ConfigError::InvalidTemp)
                } else if !(0 <= p <= usize::MAX) {
                    Err(ConfigError::InvalidPwm)
                } else {
                    Ok(Point { temp: t as usize, pwm: p as usize })
                },
                (ConfigValue::Integer(t), _) => if !(0 <= t <= usize::MAX) {
                    Err(ConfigError::InvalidTemp)
                } else {
                    Err(ConfigError::InvalidPwm)
                },
                _ => Err(ConfigError::InvalidTemp),
            }
        },
        _ => Err(ConfigError::InvalidPointFormat),
    }
}

/// The points that the items of an array stand for, or what is wrong with
/// the first item that stands for none.
pub open spec fn points_of(items: Seq<ConfigValue>) -> Result<Seq<Point>, ConfigError>
    decreases items.len(),
{
    if items.len() == 0 {
        Ok(Seq::empty())
    } else {
        match points_of(items.drop_last()) {
            Err(e) => Err(e),
            Ok(front) => match point_of(items.last()) {
                Err(e) => Err(e),
                Ok(p) => Ok(front.push(p)),
            },
        }
    }
}

/// The policy that a section asks for.
pub open spec fn section_mode(section: Section) -> Result<Mode, ConfigError> {
    match lookup(section.entries@, "mode"@) {
        Some(ConfigValue::Text(word)) => Ok(mode_of(word@)),
        _ => Err(ConfigError::InvalidMode),
    }
}

/// The sensor choice that a section asks for.
pub open spec fn section_temp_mode(section: Section) -> Result<TempMode, ConfigError> {
    match lookup(section.entries@, "temp_mode"@) {
        Some(ConfigValue::Text(word)) => Ok(temp_mode_of(word@)),
        _ => Err(ConfigError::InvalidTempMode),
    }
}

/// The curve that a section gives.
pub open spec fn section_points(section: Section) -> Result<Seq<Point>, ConfigError> {
    match lookup(section.entries@, "point"@) {
        Some(ConfigValue::List(items)) => points_of(items@),
        _ => Err(ConfigError::InvalidPoint),
    }
}

/// What is wrong with a section, if anything: the policy first, then the
/// sensor choice, then the first value that is no point, then a duty cycle
/// above 100, then temperatures that do not strictly increase. A section
/// without any point has no fault: under `Auto` none is needed.
pub open spec fn section_fault(section: Section) -> Option<ConfigError> {
    match section_mode(section) {
        Err(e) => Some(e),
        Ok(_) => match section_temp_mode(section) {
            Err(e) => Some(e),
            Ok(_) => match section_points(section) {
                Err(e) => Some(e),
                Ok(points) => shape_fault(points),
            },
        },
    }
}

/// `config` holds what a faultless `section` says, under the section's
/// name: the policy, the sensor choice, and the points in the order of the
/// file, which is the order of their temperatures.
pub open spec fn describes(section: Section, config: Config) -> bool {
    &&& config.bus_id == section.name
    &&& section_mode(section) == Ok::<Mode, ConfigError>(config.mode)
    &&& section_temp_mode(section) == Ok::<TempMode, ConfigError>(config.temp)
    &&& section_points(section) == Ok::<Seq<Point>, ConfigError>(config.point@)
    &&& duties_in_range(config.point@)
    &&& strictly_ascending(config.point@)
}

/// What is wrong with the first section that has a fault, if any has.
pub open spec fn document_fault(doc: Seq<Section>) -> Option<ConfigError>
    decreases doc.len(),
{
    if doc.len() == 0 {
        None
    } else if document_fault(doc.drop_last()) is Some {
        document_fault(doc.drop_last())
    } else {
        section_fault(doc.last())
    }
}

/// `configs` holds what a faultless document says, section by section.
pub open spec fn describes_all(doc: Seq<Section>, configs: Seq<Config>) -> bool {
    &&& configs.len() == doc.len()
    &&& forall|i: int| 0 <= i < doc.len() ==> describes(#[trigger] doc[i], configs[i])
}

/// The policy that `value` names: `ladder`, `trapezoidal` or `auto`. Any
/// other word is taken for `auto`.
pub fn parse_mode(value: &str) -> (r: Mode)
    ensures
        r == mode_of(value@),
{
    if same_text(value, "ladder") {
        Mode::Ladder
    } else if same_text(value, "trapezoidal") {
        Mode::Trapezoidal
    } else {
        Mode::Auto
    }
}

/// The sensor choice that `value` names: `junction`, `edge` or `avg`. Any
/// other word is taken for `avg`.
pub fn parse_temp_mode(value: &str) -> (r: TempMode)
    ensures
        r == temp_mode_of(value@),
{
    if same_text(value, "junction") {
        TempMode::Junction
    } else if same_text(value, "edge") {
        TempMode::Edge
    } else {
        TempMode::Avg
    }
}

/// Whether an integer of the configuration fits a `usize`.
fn to_usize(i: i64) -> (r: Option<usize>)
    ensures
        r == if 0 <= i <= usize::MAX {
            Some(i as usize)
        } else {
            None
        },
{
    if i < 0 || i as u64 > usize::MAX as u64 {
        None
    } else {
        Some(i as usize)
    }
}

/// Reads one point of a curve: an array of the temperature and the duty
/// cycle, both integers that are not negative.
pub fn parse_point(point: &ConfigValue) -> (r: Result<Point, ConfigError>)
    ensures
        r == point_of(*point),
{
    match point {
        ConfigValue::List(items) => {
            if items.len() != 2 {
                return Err(ConfigError::InvalidPointLength);
            }
            let temp = match &items[0] {
                ConfigValue::Integer(t) => match to_usize(*t) {
                    Some(v) => v,
                    None => {
                        return Err(ConfigError::InvalidTemp);
                    },
                },
                _ => {
                    return Err(ConfigError::InvalidTemp);
                },
            };
            let pwm = match &items[1] {
                ConfigValue::Integer(p) => match to_usize(*p) {
                    Some(v) => v,
                    None => {
                        return Err(ConfigError::InvalidPwm);
                    },
                },
                _ => {
                    return Err(ConfigError::InvalidPwm);
                },
            };
            Ok(Point { temp, pwm })
        },
        _ => Err(ConfigError::InvalidPointFormat),
    }
}

/// The value of the first entry of a section with this key.
fn find<'a>(entries: &'a Vec<Entry>, key: &str) -> (r: Option<&'a ConfigValue>)
    ensures
        match lookup(entries@, key@) {
            Some(v) => r == Some(&v),
            None => r is None,
        },
{
    let mut i: usize = 0;
    assert(entries@.skip(0) =~= entries@);
    while i < entries.len()
        invariant
            i <= entries.len(),
            lookup(entries@, key@) == lookup(entries@.skip(i as int), key@),
        decreases entries.len() - i,
    {
        let ghost rest = entries@.skip(i as int);
        assert(rest[0] == entries@[i as int]);
        assert(rest.drop_first() =~= entries@.skip(i + 1));
        if same_text(entries[i].key.as_str(), key) {
            return Some(&entries[i].value);
        }
        i += 1;
    }
    None
}

/// Once an item stands for no point, no later item mends it.
proof fn lemma_points_fault_stays(items: Seq<ConfigValue>, k: int)
    requires
        0 <= k <= items.len(),
        points_of(items.take(k)) is Err,
    ensures
        points_of(items) == points_of(items.take(k)),
    decreases items.len() - k,
{
    if k == items.len() {
        assert(items.take(k) =~= items);
    } else {
        assert(items.drop_last().take(k) =~= items.take(k));
        lemma_points_fault_stays(items.drop_last(), k);
    }
}

/// Once a section has a fault, the document has it.
proof fn lemma_document_fault_stays(doc: Seq<Section>, k: int)
    requires
        0 <= k <= doc.len(),
        document_fault(doc.take(k)) is Some,
    ensures
        document_fault(doc) == document_fault(doc.take(k)),
    decreases doc.len() - k,
{
    if k == doc.len() {
        assert(doc.take(k) =~= doc);
    } else {
        assert(doc.drop_last().take(k) =~= doc.take(k));
        lemma_document_fault_stays(doc.drop_last(), k);
    }
}

impl Config {
    /// The configuration that one section of a file describes. A curve
    /// whose duty cycles leave the range or whose temperatures are out of
    /// order is refused here, so that what is loaded can be evaluated as
    /// soon as it holds a point.
    pub fn from_section(section: &Section) -> (r: Result<Config, ConfigError>)
        ensures
            match section_fault(*section) {
                Some(e) => r matches Err(f) && f == e,
                None => r matches Ok(c) && describes(*section, c),
            },
    {
        let mode = match find(&section.entries, "mode") {
            Some(ConfigValue::Text(word)) => parse_mode(word.as_str()),
            _ => {
                return Err(ConfigError::InvalidMode);
            },
        };
        let temp = match find(&section.entries, "temp_mode") {
            Some(ConfigValue::Text(word)) => parse_temp_mode(word.as_str()),
            _ => {
                return Err(ConfigError::InvalidTempMode);
            },
        };
        let items = match find(&section.entries, "point") {
            Some(ConfigValue::List(items)) => items,
            _ => {
                return Err(ConfigError::InvalidPoint);
            },
        };
        assert(section_points(*section) == points_of(items@));
        let mut point: Vec<Point> = Vec::new();
        let mut i: usize = 0;
        assert(items@.take(0) =~= Seq::<ConfigValue>::empty());
        while i < items.len()
            invariant
                i <= items.len(),
                section_mode(*section) == Ok::<Mode, ConfigError>(mode),
                section_temp_mode(*section) == Ok::<TempMode, ConfigError>(temp),
                section_points(*section) == points_of(items@),
                points_of(items@.take(i as int)) == Ok::<Seq<Point>, ConfigError>(point@),
            decreases items.len() - i,
        {
            let ghost next = items@.take(i + 1);
            assert(next.drop_last() =~= items@.take(i as int));
            assert(next.last() == items@[i as int]);
            match parse_point(&items[i]) {
                Ok(p) => {
                    point.push(p);
                },
                Err(e) => {
                    proof {
                        assert(points_of(next) == Err::<Seq<Point>, ConfigError>(e));
                        lemma_points_fault_stays(items@, i + 1);
                    }
                    return Err(e);
                },
            }
            i += 1;
        }
        assert(items@.take(i as int) =~= items@);
        match check_shape(&point) {
            Ok(_) => {},
            Err(e) => {
                return Err(e);
            },
        }
        Ok(Config { bus_id: section.name.clone(), mode, temp, point })
    }

    /// The configurations that the sections of a file describe, in the order
    /// of the sections; or what is wrong with the first section at fault.
    pub fn from_document(doc: &Vec<Section>) -> (r: Result<Vec<Config>, ConfigError>)
        ensures
            match document_fault(doc@) {
                Some(e) => r matches Err(f) && f == e,
                None => r matches Ok(configs) && describes_all(doc@, configs@),
            },
    {
        let mut configs: Vec<Config> = Vec::new();
        let mut i: usize = 0;
        while i < doc.len()
            invariant
                i <= doc.len(),
                document_fault(doc@.take(i as int)) is None,
                describes_all(doc@.take(i as int), configs@),
            decreases doc.len() - i,
        {
            let ghost done = doc@.take(i as int);
            let ghost next = doc@.take(i + 1);
            assert(next.drop_last() =~= done);
            assert(next.last() == doc@[i as int]);
            match Config::from_section(&doc[i]) {
                Ok(c) => {
                    configs.push(c);
                    assert forall|j: int| 0 <= j < next.len() implies describes(
                        #[trigger] next[j],
                        configs@[j],
                    ) by {
                        if j < i {
                            assert(next[j] == done[j]);
                        }
                    }
                },
                Err(e) => {
                    proof {
                        lemma_document_fault_stays(doc@, i + 1);
                    }
                    return Err(e);
                },
            }
            i += 1;
        }
        assert(doc@.take(i as int) =~= doc@);
        Ok(configs)
    }

    /// Reads a configuration file: one table for each device, named by its
    /// bus id, with the keys `mode`, `temp_mode` and `point`. Text that the
    /// TOML parser refuses gives `Syntax`. No bus id comes out twice.
    pub fn from_toml(text: &str) -> (r: Result<Vec<Config>, ConfigError>)
        ensures
            match toml_document(text@) {
                None => r matches Err(ConfigError::Syntax),
                Some(doc) => match document_fault(doc) {
                    Some(e) => r matches Err(f) && f == e,
                    None => r matches Ok(configs) && describes_all(doc, configs@),
                },
            },
            r matches Ok(configs) ==> forall|i: int, j: int|
                0 <= i < j < configs@.len() ==> (#[trigger] configs@[i]).bus_id@ != (
                #[trigger] configs@[j]).bus_id@,
    {
        match read_document(text) {
            Ok(doc) => {
                let r = Config::from_document(&doc);
                proof {
                    if r is Ok {
                        let configs = r.unwrap();
                        assert forall|i: int, j: int| 0 <= i < j < configs@.len() implies (
                        #[trigger] configs@[i]).bus_id@ != (#[trigger] configs@[j]).bus_id@ by {
                            assert(describes(doc@[i], configs@[i]));
                            assert(describes(doc@[j], configs@[j]));
                        }
                    }
                }
                r
            },
            Err(_) => Err(ConfigError::Syntax),
        }
    }

    /// Tells whether the curve can drive the fan. Under `Auto` no curve is
    /// needed and none is looked at.
    pub fn check(&self) -> (r: Result<(), ConfigError>)
        ensures
            r == if self.mode is Auto {
                Ok::<(), ConfigError>(())
            } else {
                match curve_fault(self.point@) {
                    Some(e) => Err::<(), ConfigError>(e),
                    None => Ok(()),
                }
            },
    {
        match self.mode {
            Mode::Auto => Ok(()),
            _ => check_curve(&self.point),
        }
    }
}

} // verus!
