use ev3dev_lang_rust::sound::find_substr;
use ev3dev_lang_rust::sound::parse_channels;
use ev3dev_lang_rust::sound::parse_volume;
use ev3dev_lang_rust::sound::set_volume_args;

#[test]
fn channels_are_read_from_the_listing() {
    let out = "Simple mixer control 'Playback',0\nSimple mixer control 'Capture',0\n";
    assert_eq!(parse_channels(out), vec!["Playback".to_string(), "Capture".to_string()]);
}

#[test]
fn channel_listing_without_quotes_falls_back() {
    assert_eq!(parse_channels(""), vec!["Playback".to_string()]);
    assert_eq!(parse_channels("no mixer controls here\n"), vec!["Playback".to_string()]);
}

#[test]
fn volume_is_read_from_the_report() {
    let out = "Simple mixer control 'Playback',0\n  Mono: Playback 57 [57%] [on]\n";
    assert_eq!(parse_volume(out).unwrap(), 57);
    assert_eq!(parse_volume("x [0%]").unwrap(), 0);
    assert_eq!(parse_volume("[100%]").unwrap(), 100);
}

#[test]
fn garbled_volume_reports_fail() {
    assert!(parse_volume("").is_err());
    assert!(parse_volume("no brackets").is_err());
    assert!(parse_volume("[%]").is_err());
    assert!(parse_volume("[abc%]").is_err());
}

#[test]
fn volume_setting_command_line() {
    assert_eq!(
        set_volume_args(40, "Playback"),
        vec!["-q".to_string(), "set".to_string(), "Playback".to_string(), "40%".to_string()]
    );
}

#[test]
fn substring_positions_are_first_occurrences() {
    assert_eq!(find_substr("a%]b%]", "%]"), Some(1));
    assert_eq!(find_substr("abc", "%]"), None);
    assert_eq!(find_substr("abc", ""), Some(0));
}
