use ev3dev_lang_rust::attribute::build_sys_class_path;
use ev3dev_lang_rust::attribute::discriminator_miss_error;
use ev3dev_lang_rust::attribute::select_by_discriminator;
use ev3dev_lang_rust::Attribute;
use ev3dev_lang_rust::Ev3Error;

const GROUP_READ: u32 = 0o040;
const GROUP_WRITE: u32 = 0o020;

#[test]
fn attribute_flags_follow_group_bits() {
    let a = Attribute::new("/sys/class/lego-sensor/sensor0/value0".to_string(), 0o100644 | GROUP_READ);
    assert!(a.is_readable());
    assert!(!a.is_writable());

    let b = Attribute::new("/sys/class/tacho-motor/motor0/command".to_string(), GROUP_WRITE);
    assert!(!b.is_readable());
    assert!(b.is_writable());

    let c = Attribute::new("p".to_string(), GROUP_READ | GROUP_WRITE);
    assert!(c.is_readable());
    assert!(c.is_writable());
}

#[test]
fn readonly_attribute_gets_but_does_not_set() {
    let a = Attribute::new("/sys/class/lego-sensor/sensor0/value0".to_string(), GROUP_READ);
    assert_eq!(a.get_i32("57\n").unwrap(), 57);
    let err = a.set_i32(10).unwrap_err();
    assert!(matches!(err, Ev3Error::InternalError { .. }));
    let err2 = a.set_str_slice("10").unwrap_err();
    match err2 {
        Ev3Error::InternalError { msg } => assert_eq!(msg, "file is not writable"),
        _ => panic!("expected an internal error"),
    }
}

#[test]
fn writeonly_attribute_sets_but_does_not_get() {
    let a = Attribute::new("/sys/class/tacho-motor/motor0/command".to_string(), GROUP_WRITE);
    assert_eq!(a.set_str_slice("run-forever").unwrap(), "run-forever");
    let err = a.get_str("anything").unwrap_err();
    match err {
        Ev3Error::InternalError { msg } => assert_eq!(msg, "file is not readable"),
        _ => panic!("expected an internal error"),
    }
}

#[test]
fn set_then_get_round_trips() {
    let a = Attribute::new("p".to_string(), GROUP_READ | GROUP_WRITE);
    for v in [0i32, 42, -42, 2147483647, -2147483648] {
        let written = a.set_i32(v).unwrap();
        assert_eq!(a.get_i32(&written).unwrap(), v);
    }
    // A virtual file may hand back a trailing newline; the read trims it.
    let written = a.set_i32(-17).unwrap();
    assert_eq!(written, "-17");
    assert_eq!(a.get_i32(&format!("{written}\n")).unwrap(), -17);
}

#[test]
fn get_parses_and_reports_parse_errors() {
    let a = Attribute::new("p".to_string(), GROUP_READ);
    assert_eq!(a.get_i32("  \t12  \n").is_ok(), false); // leading blanks are not trimmed
    assert_eq!(a.get_i32("12  \n").unwrap(), 12);
    assert_eq!(a.get_i32("+7").unwrap(), 7);
    assert!(matches!(a.get_i32("twelve"), Err(Ev3Error::InternalError { .. })));
    assert!(matches!(a.get_i32(""), Err(Ev3Error::InternalError { .. })));
    assert!(matches!(a.get_i32("2147483648"), Err(Ev3Error::InternalError { .. })));
}

#[test]
fn get_vec_splits_state_flags() {
    let a = Attribute::new("p".to_string(), GROUP_READ);
    let v = a.get_vec("running  ramping\tholding\n").unwrap();
    assert_eq!(v, vec!["running".to_string(), "ramping".to_string(), "holding".to_string()]);
    let empty = a.get_vec("   \n").unwrap();
    assert!(empty.is_empty());
}

#[test]
fn sys_class_paths_are_assembled() {
    assert_eq!(
        build_sys_class_path("tacho-motor", "motor0", "duty_cycle_sp"),
        "/sys/class/tacho-motor/motor0/duty_cycle_sp"
    );
    assert_eq!(ev3dev_lang_rust::get_driver_path(), "/sys/class/");
}

#[test]
fn discriminator_selects_first_match() {
    let texts = vec![
        "ev3-ports".to_string(),
        "ev3-tacho".to_string(),
        "ev3-tacho".to_string(),
    ];
    assert_eq!(select_by_discriminator(&texts, "ev3-tacho"), Some(1));
    assert_eq!(select_by_discriminator(&texts, "nxt-i2c"), None);

    let err = discriminator_miss_error("in_count0_raw", "/sys/bus/iio/devices");
    match err {
        Ev3Error::InternalError { msg } => assert_eq!(
            msg,
            "Attribute `in_count0_raw` at driver path `/sys/bus/iio/devices` could not be found!"
        ),
        _ => panic!("expected an internal error"),
    }
}
