use ev3dev_lang_rust::sensors::clamp_channel;
use ev3dev_lang_rust::sensors::value_attribute_name;
use ev3dev_lang_rust::sensors::RemoteControlHelper;
use ev3dev_lang_rust::Ev3Error;

#[test]
fn remote_starts_with_nothing_pressed() {
    let helper = RemoteControlHelper::new();
    assert!(!helper.is_red_up());
    assert!(!helper.is_red_down());
    assert!(!helper.is_blue_up());
    assert!(!helper.is_blue_down());
    assert!(!helper.is_beacon());
}

#[test]
fn remote_decodes_single_buttons() {
    let mut helper = RemoteControlHelper::new();
    helper.process(1);
    assert!(helper.is_red_up() && !helper.is_red_down());
    helper.process(2);
    assert!(helper.is_red_down() && !helper.is_red_up());
    helper.process(3);
    assert!(helper.is_blue_up());
    helper.process(4);
    assert!(helper.is_blue_down());
    helper.process(9);
    assert!(helper.is_beacon() && !helper.is_blue_down());
}

#[test]
fn remote_decodes_combinations() {
    let mut helper = RemoteControlHelper::new();
    helper.process(5);
    assert!(helper.is_red_up() && helper.is_blue_up());
    helper.process(6);
    assert!(helper.is_red_up() && helper.is_blue_down());
    helper.process(7);
    assert!(helper.is_red_down() && helper.is_blue_up());
    helper.process(8);
    assert!(helper.is_red_down() && helper.is_blue_down());
    helper.process(10);
    assert!(helper.is_red_up() && helper.is_red_down());
    helper.process(11);
    assert!(helper.is_blue_up() && helper.is_blue_down());
}

#[test]
fn remote_release_clears_everything() {
    let mut helper = RemoteControlHelper::new();
    helper.process(5);
    helper.process(0);
    assert!(!helper.is_red_up());
    assert!(!helper.is_blue_up());
}

#[test]
fn remote_ignores_unchanged_readings() {
    let mut helper = RemoteControlHelper::new();
    helper.process(1);
    assert!(helper.is_red_up());
    helper.process(1);
    assert!(helper.is_red_up());
    assert!(helper.contains("red_up"));
    assert!(!helper.contains("beacon"));
}

#[test]
fn channels_clamp_to_hardware_range() {
    assert_eq!(clamp_channel(0), 0);
    assert_eq!(clamp_channel(1), 0);
    assert_eq!(clamp_channel(2), 1);
    assert_eq!(clamp_channel(4), 3);
    assert_eq!(clamp_channel(9), 3);
    assert_eq!(clamp_channel(255), 3);
}

#[test]
fn sensor_value_attribute_names() {
    assert_eq!(value_attribute_name(0).unwrap(), "value0");
    assert_eq!(value_attribute_name(7).unwrap(), "value7");
    match value_attribute_name(8).unwrap_err() {
        Ev3Error::InternalError { msg } => {
            assert_eq!(msg, "Sensor value index 8 is out of bounds [0, 7]");
        }
        _ => panic!("expected an internal error"),
    }
}
