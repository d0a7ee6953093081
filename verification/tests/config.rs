use amdfan::config::{
    parse_mode, parse_point, parse_temp_mode, Config, ConfigValue, Entry, Mode, Point, Section,
    TempMode,
};
use amdfan::error::ConfigError;

fn pair(temp: i64, pwm: i64) -> ConfigValue {
    ConfigValue::List(vec![ConfigValue::Integer(temp), ConfigValue::Integer(pwm)])
}

fn entry(key: &str, value: ConfigValue) -> Entry {
    Entry { key: key.to_string(), value }
}

fn text(word: &str) -> ConfigValue {
    ConfigValue::Text(word.to_string())
}

fn section(name: &str, entries: Vec<Entry>) -> Section {
    Section { name: name.to_string(), entries }
}

fn fault_of(file: &str) -> ConfigError {
    Config::from_toml(file).err().unwrap()
}

#[test]
fn mode_words() {
    assert_eq!(parse_mode("auto"), Mode::Auto);
    assert_eq!(parse_mode("ladder"), Mode::Ladder);
    assert_eq!(parse_mode("trapezoidal"), Mode::Trapezoidal);
}

#[test]
fn unknown_mode_falls_back_to_auto() {
    assert_eq!(parse_mode(""), Mode::Auto);
    assert_eq!(parse_mode("Ladder"), Mode::Auto);
    assert_eq!(parse_mode("ladder "), Mode::Auto);
    assert_eq!(parse_mode("pid"), Mode::Auto);
}

#[test]
fn temp_mode_words() {
    assert_eq!(parse_temp_mode("avg"), TempMode::Avg);
    assert_eq!(parse_temp_mode("junction"), TempMode::Junction);
    assert_eq!(parse_temp_mode("edge"), TempMode::Edge);
}

#[test]
fn unknown_temp_mode_falls_back_to_avg() {
    assert_eq!(parse_temp_mode(""), TempMode::Avg);
    assert_eq!(parse_temp_mode("EDGE"), TempMode::Avg);
    assert_eq!(parse_temp_mode("mem"), TempMode::Avg);
}

#[test]
fn point_from_a_pair() {
    assert_eq!(parse_point(&pair(40, 20)), Ok(Point { temp: 40, pwm: 20 }));
    assert_eq!(parse_point(&pair(0, 0)), Ok(Point { temp: 0, pwm: 0 }));
}

#[test]
fn point_faults() {
    assert_eq!(parse_point(&ConfigValue::Integer(4)), Err(ConfigError::InvalidPointFormat));
    assert_eq!(parse_point(&text("40,20")), Err(ConfigError::InvalidPointFormat));
    assert_eq!(parse_point(&ConfigValue::Other), Err(ConfigError::InvalidPointFormat));
    assert_eq!(parse_point(&ConfigValue::List(vec![])), Err(ConfigError::InvalidPointLength));
    assert_eq!(
        parse_point(&ConfigValue::List(vec![ConfigValue::Integer(1)])),
        Err(ConfigError::InvalidPointLength)
    );
    assert_eq!(
        parse_point(&ConfigValue::List(vec![
            ConfigValue::Integer(1),
            ConfigValue::Integer(2),
            ConfigValue::Integer(3)
        ])),
        Err(ConfigError::InvalidPointLength)
    );
    assert_eq!(
        parse_point(&ConfigValue::List(vec![text("40"), ConfigValue::Integer(2)])),
        Err(ConfigError::InvalidTemp)
    );
    assert_eq!(
        parse_point(&ConfigValue::List(vec![text("40"), text("20")])),
        Err(ConfigError::InvalidTemp)
    );
    assert_eq!(
        parse_point(&ConfigValue::List(vec![ConfigValue::Integer(40), ConfigValue::Other])),
        Err(ConfigError::InvalidPwm)
    );
    assert_eq!(parse_point(&pair(-1, 20)), Err(ConfigError::InvalidTemp));
    assert_eq!(parse_point(&pair(40, -20)), Err(ConfigError::InvalidPwm));
    assert_eq!(parse_point(&pair(-1, -1)), Err(ConfigError::InvalidTemp));
}

#[test]
fn section_by_hand() {
    let s = section(
        "0000:03:00.0",
        vec![
            entry("mode", text("ladder")),
            entry("point", ConfigValue::List(vec![pair(40, 20), pair(60, 40)])),
            entry("temp_mode", text("edge")),
        ],
    );
    let c = Config::from_section(&s).unwrap();
    assert_eq!(c.bus_id, "0000:03:00.0");
    assert_eq!(c.mode, Mode::Ladder);
    assert_eq!(c.temp, TempMode::Edge);
    assert_eq!(c.point, vec![Point { temp: 40, pwm: 20 }, Point { temp: 60, pwm: 40 }]);
}

#[test]
fn section_faults_in_order() {
    let nothing = section("a", vec![]);
    assert_eq!(Config::from_section(&nothing).err(), Some(ConfigError::InvalidMode));
    let no_temp = section("a", vec![entry("mode", text("auto"))]);
    assert_eq!(Config::from_section(&no_temp).err(), Some(ConfigError::InvalidTempMode));
    let no_point = section("a", vec![entry("mode", text("auto")), entry("temp_mode", text("avg"))]);
    assert_eq!(Config::from_section(&no_point).err(), Some(ConfigError::InvalidPoint));
    let bad_mode = section(
        "a",
        vec![entry("mode", ConfigValue::Integer(1)), entry("temp_mode", ConfigValue::Integer(1))],
    );
    assert_eq!(Config::from_section(&bad_mode).err(), Some(ConfigError::InvalidMode));
    let bad_second = section(
        "a",
        vec![
            entry("mode", text("auto")),
            entry("temp_mode", text("avg")),
            entry("point", ConfigValue::List(vec![pair(1, 2), pair(3, -4), text("x")])),
        ],
    );
    assert_eq!(Config::from_section(&bad_second).err(), Some(ConfigError::InvalidPwm));
}

#[test]
fn document_by_hand_keeps_order_and_reports_first_fault() {
    let good = |name: &str| {
        section(
            name,
            vec![
                entry("mode", text("auto")),
                entry("temp_mode", text("avg")),
                entry("point", ConfigValue::List(vec![])),
            ],
        )
    };
    let doc = vec![good("b"), good("a")];
    let configs = Config::from_document(&doc).unwrap();
    assert_eq!(configs.len(), 2);
    assert_eq!(configs[0].bus_id, "b");
    assert_eq!(configs[1].bus_id, "a");
    assert!(configs[0].point.is_empty());

    let doc = vec![
        good("a"),
        section("b", vec![entry("mode", text("auto"))]),
        section("c", vec![]),
    ];
    assert_eq!(Config::from_document(&doc).err(), Some(ConfigError::InvalidTempMode));
    assert_eq!(Config::from_document(&Vec::new()).unwrap().len(), 0);
}

#[test]
fn file_with_two_devices() {
    let file = "
[\"0000:0a:00.0\"]
mode = \"trapezoidal\"
temp_mode = \"junction\"
point = [[40, 20], [60, 40], [80, 80]]

[\"0000:03:00.0\"]
mode = \"ladder\"
temp_mode = \"edge\"
point = [[30, 10]]
";
    let configs = Config::from_toml(file).unwrap();
    assert_eq!(configs.len(), 2);
    assert_eq!(configs[0].bus_id, "0000:03:00.0");
    assert_eq!(configs[0].mode, Mode::Ladder);
    assert_eq!(configs[0].temp, TempMode::Edge);
    assert_eq!(configs[0].point, vec![Point { temp: 30, pwm: 10 }]);
    assert_eq!(configs[1].bus_id, "0000:0a:00.0");
    assert_eq!(configs[1].mode, Mode::Trapezoidal);
    assert_eq!(configs[1].temp, TempMode::Junction);
    assert_eq!(
        configs[1].point,
        vec![
            Point { temp: 40, pwm: 20 },
            Point { temp: 60, pwm: 40 },
            Point { temp: 80, pwm: 80 }
        ]
    );
}

#[test]
fn file_with_unknown_words_degrades_to_defaults() {
    let file = "[gpu]\nmode = \"turbo\"\ntemp_mode = \"hotspot\"\npoint = []\n";
    let configs = Config::from_toml(file).unwrap();
    assert_eq!(configs.len(), 1);
    assert_eq!(configs[0].bus_id, "gpu");
    assert_eq!(configs[0].mode, Mode::Auto);
    assert_eq!(configs[0].temp, TempMode::Avg);
    assert!(configs[0].point.is_empty());
}

#[test]
fn empty_file_has_no_device() {
    assert_eq!(Config::from_toml("").unwrap().len(), 0);
    assert_eq!(Config::from_toml("# nothing here\n").unwrap().len(), 0);
}

#[test]
fn file_that_is_no_toml() {
    assert_eq!(fault_of("[gpu\nmode = 1"), ConfigError::Syntax);
    assert_eq!(fault_of("mode = "), ConfigError::Syntax);
    // a value outside any table
    assert_eq!(fault_of("mode = \"auto\"\n"), ConfigError::Syntax);
}

#[test]
fn file_faults() {
    assert_eq!(fault_of("[gpu]\ntemp_mode = \"avg\"\npoint = []\n"), ConfigError::InvalidMode);
    assert_eq!(
        fault_of("[gpu]\nmode = 2\ntemp_mode = \"avg\"\npoint = []\n"),
        ConfigError::InvalidMode
    );
    assert_eq!(fault_of("[gpu]\nmode = \"auto\"\npoint = []\n"), ConfigError::InvalidTempMode);
    assert_eq!(
        fault_of("[gpu]\nmode = \"auto\"\ntemp_mode = true\npoint = []\n"),
        ConfigError::InvalidTempMode
    );
    assert_eq!(
        fault_of("[gpu]\nmode = \"auto\"\ntemp_mode = \"avg\"\n"),
        ConfigError::InvalidPoint
    );
    assert_eq!(
        fault_of("[gpu]\nmode = \"auto\"\ntemp_mode = \"avg\"\npoint = \"40:20\"\n"),
        ConfigError::InvalidPoint
    );
    assert_eq!(
        fault_of("[gpu]\nmode = \"auto\"\ntemp_mode = \"avg\"\npoint = [40, 20]\n"),
        ConfigError::InvalidPointFormat
    );
    assert_eq!(
        fault_of("[gpu]\nmode = \"auto\"\ntemp_mode = \"avg\"\npoint = [[40, 20, 1]]\n"),
        ConfigError::InvalidPointLength
    );
    assert_eq!(
        fault_of("[gpu]\nmode = \"auto\"\ntemp_mode = \"avg\"\npoint = [[40.5, 20]]\n"),
        ConfigError::InvalidTemp
    );
    assert_eq!(
        fault_of("[gpu]\nmode = \"auto\"\ntemp_mode = \"avg\"\npoint = [[40, \"20\"]]\n"),
        ConfigError::InvalidPwm
    );
    assert_eq!(
        fault_of("[gpu]\nmode = \"auto\"\ntemp_mode = \"avg\"\npoint = [[40, 20], [-1, 20]]\n"),
        ConfigError::InvalidTemp
    );
}

#[test]
fn first_faulty_section_of_a_file_decides() {
    let file = "
[b]
mode = \"auto\"
temp_mode = \"avg\"

[a]
mode = \"auto\"
point = []
";
    // the sections are read in the order of their names
    assert_eq!(fault_of(file), ConfigError::InvalidTempMode);
}

#[test]
fn check_looks_at_the_curve_unless_auto() {
    let mut c = Config {
        bus_id: String::from("gpu"),
        mode: Mode::Auto,
        temp: TempMode::Avg,
        point: Vec::new(),
    };
    assert_eq!(c.check(), Ok(()));
    c.mode = Mode::Ladder;
    assert_eq!(c.check(), Err(ConfigError::EmptyCurve));
    c.point = vec![Point { temp: 50, pwm: 101 }];
    assert_eq!(c.check(), Err(ConfigError::DutyOutOfRange));
    c.point = vec![Point { temp: 50, pwm: 10 }, Point { temp: 50, pwm: 20 }];
    assert_eq!(c.check(), Err(ConfigError::UnorderedCurve));
    c.mode = Mode::Auto;
    assert_eq!(c.check(), Ok(()));
    c.mode = Mode::Trapezoidal;
    c.point = vec![Point { temp: 50, pwm: 10 }, Point { temp: 60, pwm: 20 }];
    assert_eq!(c.check(), Ok(()));
}

#[test]
fn load_refuses_a_curve_out_of_order() {
    assert_eq!(
        fault_of("[gpu]\nmode = \"ladder\"\ntemp_mode = \"avg\"\npoint = [[60, 40], [40, 20]]\n"),
        ConfigError::UnorderedCurve
    );
    assert_eq!(
        fault_of("[gpu]\nmode = \"ladder\"\ntemp_mode = \"avg\"\npoint = [[40, 20], [40, 30]]\n"),
        ConfigError::UnorderedCurve
    );
    // under any policy
    assert_eq!(
        fault_of("[gpu]\nmode = \"auto\"\ntemp_mode = \"avg\"\npoint = [[60, 40], [40, 20]]\n"),
        ConfigError::UnorderedCurve
    );
    let s = section(
        "gpu",
        vec![
            entry("mode", text("trapezoidal")),
            entry("temp_mode", text("avg")),
            entry("point", ConfigValue::List(vec![pair(60, 40), pair(40, 20)])),
        ],
    );
    assert_eq!(Config::from_section(&s).err(), Some(ConfigError::UnorderedCurve));
}

#[test]
fn load_refuses_a_duty_cycle_above_hundred() {
    assert_eq!(
        fault_of("[gpu]\nmode = \"ladder\"\ntemp_mode = \"avg\"\npoint = [[40, 150]]\n"),
        ConfigError::DutyOutOfRange
    );
    assert_eq!(
        fault_of("[gpu]\nmode = \"ladder\"\ntemp_mode = \"avg\"\npoint = [[40, 101]]\n"),
        ConfigError::DutyOutOfRange
    );
    // the range is looked at before the order
    assert_eq!(
        fault_of("[gpu]\nmode = \"ladder\"\ntemp_mode = \"avg\"\npoint = [[60, 140], [40, 20]]\n"),
        ConfigError::DutyOutOfRange
    );
    // and a value that is no point before both
    assert_eq!(
        fault_of("[gpu]\nmode = \"ladder\"\ntemp_mode = \"avg\"\npoint = [[60, 140], [40]]\n"),
        ConfigError::InvalidPointLength
    );
}

#[test]
fn load_takes_the_bounds_of_the_range() {
    let configs = Config::from_toml(
        "[gpu]\nmode = \"ladder\"\ntemp_mode = \"avg\"\npoint = [[0, 0], [1, 100]]\n",
    )
    .unwrap();
    assert_eq!(configs[0].point, vec![Point { temp: 0, pwm: 0 }, Point { temp: 1, pwm: 100 }]);
}

#[test]
fn loaded_curves_can_be_evaluated() {
    let file = "[a]\nmode = \"ladder\"\ntemp_mode = \"avg\"\npoint = [[40, 20], [60, 40]]\n\
                [b]\nmode = \"trapezoidal\"\ntemp_mode = \"edge\"\npoint = [[30, 10]]\n";
    for c in Config::from_toml(file).unwrap() {
        assert_eq!(c.check(), Ok(()));
        for pair in c.point.windows(2) {
            assert!(pair[0].temp < pair[1].temp);
        }
        assert!(c.point.iter().all(|p| p.pwm <= 100));
    }
}

#[test]
fn a_bus_id_comes_out_once() {
    // a table that is given twice is no TOML
    assert_eq!(
        fault_of("[gpu]\nmode = \"auto\"\ntemp_mode = \"avg\"\npoint = []\n[gpu]\nmode = \"auto\"\n"),
        ConfigError::Syntax
    );
    let configs = Config::from_toml(
        "[b]\nmode = \"auto\"\ntemp_mode = \"avg\"\npoint = []\n\
         [a]\nmode = \"auto\"\ntemp_mode = \"avg\"\npoint = []\n",
    )
    .unwrap();
    assert_eq!(configs.len(), 2);
    assert!(configs[0].bus_id != configs[1].bus_id);
}
