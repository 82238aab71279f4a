use gbemu::joypad::{GameBoyButton, Joypad, JoypadKey, DEBOUNCE_THRESHOLD, NANOS_PER_SECOND};

const MS: u64 = 1_000_000;

#[test]
fn joypad_starts_released_and_unselected() {
    let j = Joypad::new(2 * NANOS_PER_SECOND);
    assert_eq!(j.read_register(), 0xFF);
    assert_eq!(j.get_key_stats(JoypadKey::Down).key, JoypadKey::Down);
    assert_eq!(j.get_key_stats(JoypadKey::A).last_change, NANOS_PER_SECOND);
    assert_eq!(j.get_debounce_stats().debounce_threshold, DEBOUNCE_THRESHOLD);
    let early = Joypad::new(0);
    assert_eq!(early.get_key_stats(JoypadKey::B).last_change, 0);
}

#[test]
fn joypad_press_in_selected_row_requests_interrupt() {
    let t0 = 2 * NANOS_PER_SECOND;
    let mut j = Joypad::new(t0);
    j.write_register(0xEF);
    assert_eq!(j.select, 0x20);
    assert_eq!(j.read_register(), 0xEF);
    assert!(j.set_key(JoypadKey::Right, true, t0));
    assert_eq!(j.direction_keys, 0x0E);
    assert_eq!(j.read_register(), 0xEE);
    assert!(j.get_key_stats(JoypadKey::Right).pressed);
    assert_eq!(j.get_key_stats(JoypadKey::Right).press_duration, NANOS_PER_SECOND);
    assert!(!j.set_key(JoypadKey::A, true, t0));
    assert_eq!(j.action_keys, 0x0E);
    assert_eq!(j.read_register(), 0xEE);
}

#[test]
fn joypad_debounces_fast_changes() {
    let t0 = 2 * NANOS_PER_SECOND;
    let mut j = Joypad::new(t0);
    j.write_register(0x10);
    assert!(j.set_key(JoypadKey::Start, true, t0));
    assert!(!j.set_key(JoypadKey::Start, false, t0 + MS));
    assert_eq!(j.action_keys, 0x07);
    assert_eq!(j.get_debounce_stats().bounce_events_filtered, 1);
    assert!(!j.set_key(JoypadKey::Start, false, t0 + 10 * MS));
    assert_eq!(j.action_keys, 0x0F);
    assert_eq!(j.get_key_stats(JoypadKey::Start).release_duration, 10 * MS);
    assert!(!j.set_key(JoypadKey::Start, false, t0 + 20 * MS));
    assert_eq!(j.get_key_stats(JoypadKey::Start).bounce_count, 1);
    assert_eq!(j.get_debounce_stats().bounce_events_filtered, 2);
}

#[test]
fn joypad_press_release_restores_rows() {
    let t0 = 2 * NANOS_PER_SECOND;
    let mut j = Joypad::new(t0);
    j.write_register(0x00);
    let before = j.read_register();
    assert!(j.set_key(JoypadKey::Up, true, t0));
    j.set_key(JoypadKey::Up, false, t0 + 6 * MS);
    assert_eq!(j.read_register(), before);
    assert_eq!(j.direction_keys, 0x0F);
}

#[test]
fn joypad_buttons_drive_their_keys() {
    assert_eq!(GameBoyButton::Start.joypad_key(), JoypadKey::Start);
    assert_eq!(GameBoyButton::Left.joypad_key(), JoypadKey::Left);
    assert_eq!(GameBoyButton::Left.joypad_key().as_index(), 5);
}
