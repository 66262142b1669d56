use ev3dev_lang_rust::led::combined_color;
use ev3dev_lang_rust::led::select_led_names;

#[test]
fn led_names_classify_by_side_and_colour() {
    let names = vec![
        "led0:red:brick-status".to_string(),
        "led0:green:brick-status".to_string(),
        "led1:red:brick-status".to_string(),
        "led1:green:brick-status".to_string(),
        "some-other-led".to_string(),
    ];
    let selection = select_led_names(&names);
    assert_eq!(selection.left_red, "led0:red:brick-status");
    assert_eq!(selection.left_green, "led0:green:brick-status");
    assert_eq!(selection.right_red, "led1:red:brick-status");
    assert_eq!(selection.right_green, "led1:green:brick-status");
}

#[test]
fn led_names_accept_the_newer_scheme() {
    let names = vec![
        "ev3:left:red:ev3dev".to_string(),
        "ev3:left:green:ev3dev".to_string(),
        "ev3:right:red:ev3dev".to_string(),
        "ev3:right:green:ev3dev".to_string(),
    ];
    let selection = select_led_names(&names);
    assert_eq!(selection.left_red, "ev3:left:red:ev3dev");
    assert_eq!(selection.left_green, "ev3:left:green:ev3dev");
    assert_eq!(selection.right_red, "ev3:right:red:ev3dev");
    assert_eq!(selection.right_green, "ev3:right:green:ev3dev");
}

#[test]
fn unmatched_channels_stay_empty() {
    let names = vec!["unrelated".to_string()];
    let selection = select_led_names(&names);
    assert_eq!(selection.left_red, "");
    assert_eq!(selection.right_green, "");
}

#[test]
fn combined_colour_needs_agreement() {
    assert_eq!(combined_color((255, 0), (255, 0)), Some((255, 0)));
    assert_eq!(combined_color((255, 128), (255, 255)), None);
    assert_eq!(combined_color((0, 0), (0, 0)), Some((0, 0)));
}
