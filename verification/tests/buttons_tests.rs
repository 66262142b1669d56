use ev3dev_lang_rust::buttons::ButtonSet;
use ev3dev_lang_rust::buttons::KEY_BUF_LEN;

const INPUT_PATH: &str = "/dev/input/by-path/platform-gpio_keys-event";

fn standard_set() -> ButtonSet {
    let mut set = ButtonSet::new();
    set.add_button("up", INPUT_PATH, 103);
    set.add_button("down", INPUT_PATH, 108);
    set.add_button("left", INPUT_PATH, 105);
    set.add_button("right", INPUT_PATH, 106);
    set.add_button("enter", INPUT_PATH, 28);
    set.add_button("backspace", INPUT_PATH, 14);
    set
}

fn empty_bitmaps(n: usize) -> Vec<Vec<u8>> {
    vec![vec![0u8; KEY_BUF_LEN]; n]
}

fn set_key(buffers: &mut [Vec<u8>], file: usize, key_code: u32) {
    buffers[file][(key_code / 8) as usize] |= 1 << (key_code % 8);
}

fn clear_key(buffers: &mut [Vec<u8>], file: usize, key_code: u32) {
    buffers[file][(key_code / 8) as usize] &= !(1 << (key_code % 8));
}

#[test]
fn buttons_share_one_file() {
    let set = standard_set();
    assert_eq!(set.file_count(), 1);
    assert_eq!(set.file_path_at(0), INPUT_PATH);
}

#[test]
fn press_fires_one_event_with_true() {
    let mut set = standard_set();
    let mut buffers = empty_bitmaps(set.file_count());
    set_key(&mut buffers, 0, 28);
    let events = set.process(&buffers);
    assert_eq!(events, vec![("enter".to_string(), true)]);
    assert!(set.get_button_state("enter"));
    assert!(!set.get_button_state("up"));
    assert_eq!(set.get_pressed_buttons(), vec!["enter".to_string()]);
}

#[test]
fn unchanged_bitmap_fires_nothing() {
    let mut set = standard_set();
    let mut buffers = empty_bitmaps(set.file_count());
    set_key(&mut buffers, 0, 103);
    let first = set.process(&buffers);
    assert_eq!(first.len(), 1);
    // The bit is still set: a held button is no transition.
    let second = set.process(&buffers);
    assert!(second.is_empty());
    let third = set.process(&buffers);
    assert!(third.is_empty());
    assert!(set.get_button_state("up"));
}

#[test]
fn release_fires_one_event_with_false() {
    let mut set = standard_set();
    let mut buffers = empty_bitmaps(set.file_count());
    set_key(&mut buffers, 0, 14);
    set.process(&buffers);
    clear_key(&mut buffers, 0, 14);
    let events = set.process(&buffers);
    assert_eq!(events, vec![("backspace".to_string(), false)]);
    assert!(!set.get_button_state("backspace"));
    assert!(set.get_pressed_buttons().is_empty());
}

#[test]
fn simultaneous_flips_fire_in_registration_order() {
    let mut set = standard_set();
    let mut buffers = empty_bitmaps(set.file_count());
    set_key(&mut buffers, 0, 103);
    set_key(&mut buffers, 0, 106);
    let events = set.process(&buffers);
    assert_eq!(
        events,
        vec![("up".to_string(), true), ("right".to_string(), true)]
    );
    set_key(&mut buffers, 0, 28);
    clear_key(&mut buffers, 0, 103);
    let events = set.process(&buffers);
    assert_eq!(
        events,
        vec![("up".to_string(), false), ("enter".to_string(), true)]
    );
}

#[test]
fn buttons_on_distinct_files_read_their_own_bitmap() {
    let mut set = ButtonSet::new();
    set.add_button("a", "/dev/input/event1", 10);
    set.add_button("b", "/dev/input/event2", 10);
    assert_eq!(set.file_count(), 2);
    let mut buffers = empty_bitmaps(2);
    set_key(&mut buffers, 1, 10);
    let events = set.process(&buffers);
    assert_eq!(events, vec![("b".to_string(), true)]);
    assert!(!set.get_button_state("a"));
    assert!(set.get_button_state("b"));
}

#[test]
fn readding_a_name_rebinds_it() {
    let mut set = ButtonSet::new();
    set.add_button("x", "/dev/input/event1", 10);
    set.add_button("x", "/dev/input/event1", 20);
    let mut buffers = empty_bitmaps(set.file_count());
    set_key(&mut buffers, 0, 10);
    let events = set.process(&buffers);
    assert!(events.is_empty());
    set_key(&mut buffers, 0, 20);
    let events = set.process(&buffers);
    assert_eq!(events, vec![("x".to_string(), true)]);
}
