use ev3dev_lang_rust::driver::find_name_by_driver;
use ev3dev_lang_rust::driver::find_name_by_port_and_driver;
use ev3dev_lang_rust::driver::find_names_by_driver;
use ev3dev_lang_rust::driver::format_driver_list;
use ev3dev_lang_rust::findable::find_device_name;
use ev3dev_lang_rust::findable::get_device_name;
use ev3dev_lang_rust::motors::MotorPort;
use ev3dev_lang_rust::sensors::SensorPort;
use ev3dev_lang_rust::Attribute;
use ev3dev_lang_rust::DeviceInfo;
use ev3dev_lang_rust::Driver;
use ev3dev_lang_rust::Ev3Error;

fn entry(name: &str, address: &str, driver_name: &str) -> DeviceInfo {
    DeviceInfo {
        name: name.to_string(),
        address: address.to_string(),
        driver_name: driver_name.to_string(),
    }
}

#[test]
fn resolve_by_port_and_driver_exact() {
    let entries = vec![
        entry("motor0", "outA", "lego-ev3-l-motor"),
        entry("motor1", "outB", "lego-ev3-m-motor"),
    ];
    let r = find_name_by_port_and_driver(&entries, &MotorPort::OutA, &["lego-ev3-l-motor"]);
    assert_eq!(r.unwrap(), "motor0");

    let miss = find_name_by_port_and_driver(&entries, &MotorPort::OutC, &["lego-ev3-l-motor"]);
    match miss.unwrap_err() {
        Ev3Error::NotConnected { device, port } => {
            assert_eq!(device, "[\"lego-ev3-l-motor\"]");
            assert_eq!(port, Some("outC".to_string()));
        }
        _ => panic!("expected NotConnected"),
    }
}

#[test]
fn resolve_matches_port_by_substring() {
    // Firmware may prefix or suffix the raw port label.
    let entries = vec![entry("motor0", "ev3-ports:outA", "lego-ev3-l-motor")];
    let r = find_name_by_port_and_driver(&entries, &MotorPort::OutA, &["lego-ev3-l-motor"]);
    assert_eq!(r.unwrap(), "motor0");
}

#[test]
fn resolve_accepts_any_listed_driver() {
    let entries = vec![entry("motor2", "outC", "lego-nxt-motor")];
    let r = find_name_by_port_and_driver(
        &entries,
        &MotorPort::OutC,
        &["lego-ev3-l-motor", "lego-nxt-motor"],
    );
    assert_eq!(r.unwrap(), "motor2");
}

#[test]
fn resolve_first_match_wins() {
    let entries = vec![
        entry("sensor0", "in3", "lego-ev3-touch"),
        entry("sensor1", "in3", "lego-ev3-touch"),
    ];
    let r = find_name_by_port_and_driver(&entries, &SensorPort::In3, &["lego-ev3-touch"]);
    assert_eq!(r.unwrap(), "sensor0");
}

#[test]
fn driver_only_ambiguity_reports_both_addresses() {
    let entries = vec![
        entry("sensor0", "in1", "lego-ev3-color"),
        entry("sensor1", "in2", "lego-ev3-color"),
    ];
    match find_name_by_driver(&entries, &["lego-ev3-color"]).unwrap_err() {
        Ev3Error::MultipleMatches { device, ports } => {
            assert_eq!(device, "[\"lego-ev3-color\"]");
            let mut sorted = ports.clone();
            sorted.sort();
            assert_eq!(sorted, vec!["in1".to_string(), "in2".to_string()]);
        }
        _ => panic!("expected MultipleMatches"),
    }
}

#[test]
fn driver_only_unique_match_succeeds() {
    let entries = vec![
        entry("sensor0", "in1", "lego-ev3-gyro"),
        entry("sensor1", "in2", "lego-ev3-color"),
    ];
    assert_eq!(find_name_by_driver(&entries, &["lego-ev3-gyro"]).unwrap(), "sensor0");
}

#[test]
fn driver_only_no_match_is_not_connected() {
    let entries = vec![entry("sensor0", "in1", "lego-ev3-color")];
    match find_name_by_driver(&entries, &["lego-ev3-us"]).unwrap_err() {
        Ev3Error::NotConnected { device, port } => {
            assert_eq!(device, "[\"lego-ev3-us\"]");
            assert_eq!(port, None);
        }
        _ => panic!("expected NotConnected"),
    }
}

#[test]
fn list_returns_exactly_the_matches() {
    let entries = vec![
        entry("motor0", "outA", "lego-ev3-l-motor"),
        entry("motor1", "outB", "lego-ev3-l-motor"),
        entry("motor2", "outC", "lego-ev3-m-motor"),
        entry("motor3", "outD", "lego-ev3-l-motor"),
    ];
    let names = find_names_by_driver(&entries, &["lego-ev3-l-motor"]);
    assert_eq!(
        names,
        vec!["motor0".to_string(), "motor1".to_string(), "motor3".to_string()]
    );
    let none = find_names_by_driver(&entries, &["lego-ev3-gyro"]);
    assert!(none.is_empty());
}

#[test]
fn driver_lists_are_rendered_like_debug_output() {
    assert_eq!(format_driver_list(&[]), "[]");
    assert_eq!(format_driver_list(&["a"]), "[\"a\"]");
    assert_eq!(
        format_driver_list(&["lego-ev3-l-motor", "lego-nxt-motor"]),
        "[\"lego-ev3-l-motor\", \"lego-nxt-motor\"]"
    );
}

#[test]
fn typed_resolver_uses_display_name_and_port_labels() {
    let entries = vec![
        entry("motor0", "outA", "lego-ev3-l-motor"),
        entry("motor1", "outB", "lego-ev3-l-motor"),
    ];
    let r = get_device_name::<MotorPort, MotorPort>(
        &entries,
        &MotorPort::OutC,
        &["lego-ev3-l-motor"],
        "LargeMotor",
    );
    match r.unwrap_err() {
        Ev3Error::NotConnected { device, port } => {
            assert_eq!(device, "LargeMotor");
            assert_eq!(port, Some("outC".to_string()));
        }
        _ => panic!("expected NotConnected"),
    }

    let r = find_device_name::<MotorPort>(&entries, &["lego-ev3-l-motor"], "LargeMotor");
    match r.unwrap_err() {
        Ev3Error::MultipleMatches { device, ports } => {
            assert_eq!(device, "LargeMotor");
            // Each ambiguous entry is reported by its address.
            assert_eq!(ports, vec!["outA".to_string(), "outB".to_string()]);
        }
        _ => panic!("expected MultipleMatches"),
    }
}

#[test]
fn device_directory_names_format_to_port_labels() {
    assert_eq!(MotorPort::format_name("motor0"), "outA");
    assert_eq!(MotorPort::format_name("motor3"), "outD");
    assert_eq!(MotorPort::format_name("outB"), "outB");
    assert_eq!(SensorPort::format_name("sensor0"), "in1");
    assert_eq!(SensorPort::format_name("sensor3"), "in4");
    assert_eq!(SensorPort::format_name("unknown"), "unknown");
}

#[test]
fn errors_render_their_one_line_description() {
    let e = Ev3Error::InternalError { msg: "boom".to_string() };
    assert_eq!(e.message(), "InternalError: boom!");

    let e = Ev3Error::NotConnected {
        device: "LargeMotor".to_string(),
        port: Some("outA".to_string()),
    };
    assert_eq!(e.message(), "'LargeMotor' not connected at port Some(\"outA\")!");

    let e = Ev3Error::NotConnected { device: "GyroSensor".to_string(), port: None };
    assert_eq!(e.message(), "'GyroSensor' not connected at port None!");

    let e = Ev3Error::MultipleMatches {
        device: "ColorSensor".to_string(),
        ports: vec!["in1".to_string(), "in2".to_string()],
    };
    assert_eq!(e.message(), "Multiple 'ColorSensor' connected at ports [\"in1\", \"in2\"]!");
}

#[test]
fn attribute_cache_memoizes_per_name() {
    let mut driver = Driver::new("tacho-motor", "motor0");
    assert!(driver.get_cached("duty_cycle_sp").is_none());
    let path = driver.attribute_path("duty_cycle_sp");
    assert_eq!(path, "/sys/class/tacho-motor/motor0/duty_cycle_sp");

    driver.add_attribute("duty_cycle_sp", Attribute::new(path.clone(), 0o060));
    let first = driver.get_cached("duty_cycle_sp").unwrap();
    let second = driver.get_cached("duty_cycle_sp").unwrap();
    assert_eq!(first.get_file_path(), path);
    assert_eq!(second.get_file_path(), path);
    assert!(first.is_readable() && first.is_writable());
    assert!(driver.get_cached("position").is_none());
}
