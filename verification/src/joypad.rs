use vstd::prelude::*;

verus! {

/// A Game Boy button as the input mapping names it.
#[derive(Debug, Clone, Copy, PartialEq, Eq)]
pub enum GameBoyButton {
    A,
    B,
    Select,
    Start,
    Right,
    Left,
    Up,
    Down,
}

/// Whether an input event presses or releases a button.
#[derive(Debug, Clone, Copy, PartialEq, Eq)]
pub enum InputEventType {
    ButtonPress,
    ButtonRelease,
}

/// A joypad key.
#[derive(Debug, Clone, PartialEq, Eq, Hash, Copy)]
pub enum JoypadKey {
    A,
    B,
    Select,
    Start,
    Right,
    Left,
    Up,
    Down,
}

/// The slot of a key in the key-state table: A, B, Select, Start, Right, Left, Up, Down as
/// 0..=7.
pub open spec fn key_index(k: JoypadKey) -> nat {
    match k {
        JoypadKey::A => 0,
        JoypadKey::B => 1,
        JoypadKey::Select => 2,
        JoypadKey::Start => 3,
        JoypadKey::Right => 4,
        JoypadKey::Left => 5,
        JoypadKey::Up => 6,
        JoypadKey::Down => 7,
    }
}

impl JoypadKey {
    /// The slot of the key in the key-state table (0..=7).
    pub fn as_index(self) -> (r: usize)
        ensures
            r == key_index(self),
    {
        match self {
            JoypadKey::A => 0,
            JoypadKey::B => 1,
            JoypadKey::Select => 2,
            JoypadKey::Start => 3,
            JoypadKey::Right => 4,
            JoypadKey::Left => 5,
            JoypadKey::Up => 6,
            JoypadKey::Down => 7,
        }
    }
}

/// Distinct keys have distinct slots, so the table holds one state per key.
pub proof fn law_key_index_injective(a: JoypadKey, b: JoypadKey)
    ensures
        key_index(a) < 8,
        key_index(a) == key_index(b) ==> a == b,
{
}

/// A button event: what happened to which button, when it was seen (nanoseconds on the
/// caller's monotonic clock), the front end's own timestamp, and how long it took to handle.
#[derive(Debug, Clone, Copy)]
pub struct InputEvent {
    pub event_type: InputEventType,
    pub button: GameBoyButton,
    pub timestamp: u64,
    pub sdl_timestamp: u32,
    pub processing_latency: Option<u64>,
}

/// The tracked state of one key; times and durations are in nanoseconds.
#[derive(Debug, Clone, Copy)]
pub struct KeyState {
    pub key: JoypadKey,
    pub pressed: bool,
    pub last_change: u64,
    pub press_duration: u64,
    pub release_duration: u64,
    pub bounce_count: u32,
}

/// Key-change filtering: changes closer than the threshold (nanoseconds) to the key's last
/// change are dropped and counted.
#[derive(Debug, Clone, Copy)]
pub struct DebounceFilter {
    pub debounce_threshold: u64,
    pub last_bounce_check: u64,
    pub bounce_events_filtered: u64,
}

/// One second in nanoseconds.
pub const NANOS_PER_SECOND: u64 = 1_000_000_000;

/// The default debounce threshold: 5 ms.
pub const DEBOUNCE_THRESHOLD: u64 = 5_000_000;

/// The joypad register P1 as read: bits 6-7 set, the select bits, and the low nibble of
/// each selected row ANDed into 0x0F (direction keys with bit 4 clear, action keys with bit
/// 5 clear); a pressed key reads 0.
pub open spec fn joypad_reg(select: u8, direction: u8, action: u8) -> u8 {
    let d: u8 = if select & 0x10 == 0 {
        0x0F & direction
    } else {
        0x0F
    };
    let k: u8 = if select & 0x20 == 0 {
        d & action
    } else {
        d
    };
    (0xC0 | select) | k
}

/// A key row with the bits of `mask` cleared (pressed) or set (released).
pub open spec fn key_bit(target: u8, mask: u8, pressed: bool) -> u8 {
    if pressed {
        target & !mask
    } else {
        target | mask
    }
}

/// Whether a key is an action key (A, B, Select, Start) rather than a direction.
pub open spec fn is_action(k: JoypadKey) -> bool {
    key_index(k) < 4
}

/// The bit of a key in its row.
pub open spec fn key_mask(k: JoypadKey) -> u8 {
    match k {
        JoypadKey::A | JoypadKey::Right => 0x01,
        JoypadKey::B | JoypadKey::Left => 0x02,
        JoypadKey::Select | JoypadKey::Up => 0x04,
        JoypadKey::Start | JoypadKey::Down => 0x08,
    }
}

/// Whether a key change at `now` is far enough (at least the debounce threshold, saturating)
/// from the key's last change to be taken.
pub open spec fn change_accepted(j: Joypad, k: JoypadKey, now: u64) -> bool {
    (if now >= j.key_states@[key_index(k) as int].last_change {
        now - j.key_states@[key_index(k) as int].last_change
    } else {
        0
    }) >= j.debounce_filter.debounce_threshold
}

/// The joypad: both key rows (active low), the select bits, the per-key state and the
/// debounce filter.
pub struct Joypad {
    pub action_keys: u8,
    pub direction_keys: u8,
    pub select: u8,
    pub key_states: [KeyState; 8],
    pub debounce_filter: DebounceFilter,
}

fn released_key(key: JoypadKey, now: u64) -> (r: KeyState)
    ensures
        r == (KeyState {
            key,
            pressed: false,
            last_change: if now >= NANOS_PER_SECOND { (now - NANOS_PER_SECOND) as u64 } else { 0 },
            press_duration: 0,
            release_duration: 0,
            bounce_count: 0,
        }),
{
    KeyState {
        key,
        pressed: false,
        last_change: now.saturating_sub(NANOS_PER_SECOND),
        press_duration: 0,
        release_duration: 0,
        bounce_count: 0,
    }
}

impl Joypad {
    /// A joypad at time `now`: no key pressed, no row selected, each key's last change one
    /// second in the past (saturating) so that the first event is taken, a 5 ms debounce
    /// threshold.
    pub fn new(now: u64) -> (r: Joypad)
        ensures
            r.action_keys == 0x0F && r.direction_keys == 0x0F && r.select == 0x30,
            forall|i: int|
                0 <= i < 8 ==> (#[trigger] r.key_states@[i]).pressed == false
                    && r.key_states@[i].last_change == (if now >= NANOS_PER_SECOND {
                    (now - NANOS_PER_SECOND) as u64
                } else {
                    0
                }) && r.key_states@[i].bounce_count == 0 && r.key_states@[i].press_duration == 0
                    && r.key_states@[i].release_duration == 0,
            r.key_states@[0].key == JoypadKey::A && r.key_states@[1].key == JoypadKey::B,
            r.key_states@[2].key == JoypadKey::Select && r.key_states@[3].key == JoypadKey::Start,
            r.key_states@[4].key == JoypadKey::Right && r.key_states@[5].key == JoypadKey::Left,
            r.key_states@[6].key == JoypadKey::Up && r.key_states@[7].key == JoypadKey::Down,
            r.debounce_filter == (DebounceFilter {
                debounce_threshold: DEBOUNCE_THRESHOLD,
                last_bounce_check: now,
                bounce_events_filtered: 0,
            }),
    {
        let key_states = [
            released_key(JoypadKey::A, now),
            released_key(JoypadKey::B, now),
            released_key(JoypadKey::Select, now),
            released_key(JoypadKey::Start, now),
            released_key(JoypadKey::Right, now),
            released_key(JoypadKey::Left, now),
            released_key(JoypadKey::Up, now),
            released_key(JoypadKey::Down, now),
        ];
        Joypad {
            action_keys: 0x0F,
            direction_keys: 0x0F,
            select: 0x30,
            key_states,
            debounce_filter: DebounceFilter {
                debounce_threshold: DEBOUNCE_THRESHOLD,
                last_bounce_check: now,
                bounce_events_filtered: 0,
            },
        }
    }

    fn update_key_bit(target: &mut u8, mask: u8, pressed: bool)
        ensures
            *final(target) == key_bit(*old(target), mask, pressed),
    {
        if pressed {
            *target = *target & !mask;
        } else {
            *target = *target | mask;
        }
    }

    /// The joypad register P1 as `joypad_reg` describes.
    pub fn read_register(&self) -> (r: u8)
        ensures
            r == joypad_reg(self.select, self.direction_keys, self.action_keys),
    {
        let upper = 0xC0 | self.select;
        let mut keys: u8 = 0x0F;
        if (self.select & 0x10) == 0 {
            keys = keys & self.direction_keys;
        }
        if (self.select & 0x20) == 0 {
            keys = keys & self.action_keys;
        }
        upper | keys
    }

    /// Writes P1: only the select bits 4-5 are kept.
    pub fn write_register(&mut self, value: u8)
        ensures
            *final(self) == (Joypad { select: value & 0x30, ..*old(self) }),
    {
        self.select = value & 0x30;
    }

    /// Takes a key change at time `now`. A change within the debounce threshold of the key's
    /// last change is dropped (and counted) and nothing else changes. Otherwise a real change
    /// records the time held in the other state and the change time; a repeat of the current
    /// state is counted as a bounce; the key's row bit follows the event. The result is
    /// whether a selected row bit went from 1 to 0, which requests the joypad interrupt.
    pub fn set_key(&mut self, key: JoypadKey, pressed: bool, now: u64) -> (r: bool)
        requires
            old(self).debounce_filter.bounce_events_filtered < u64::MAX,
            old(self).key_states@[key_index(key) as int].bounce_count < u32::MAX,
        ensures
            !change_accepted(*old(self), key, now) ==> !r && *final(self) == (Joypad {
                debounce_filter: DebounceFilter {
                    bounce_events_filtered: (old(self).debounce_filter.bounce_events_filtered + 1) as u64,
                    ..old(self).debounce_filter
                },
                ..*old(self)
            }),
            change_accepted(*old(self), key, now) ==> ({
                let i = key_index(key) as int;
                let ks = old(self).key_states@[i];
                let since: u64 = if now >= ks.last_change { (now - ks.last_change) as u64 } else { 0 };
                &&& final(self).select == old(self).select
                &&& final(self).action_keys == (if is_action(key) {
                    key_bit(old(self).action_keys, key_mask(key), pressed)
                } else {
                    old(self).action_keys
                })
                &&& final(self).direction_keys == (if is_action(key) {
                    old(self).direction_keys
                } else {
                    key_bit(old(self).direction_keys, key_mask(key), pressed)
                })
                &&& final(self).key_states@ == old(self).key_states@.update(
                    i,
                    if pressed != ks.pressed {
                        KeyState {
                            pressed,
                            last_change: now,
                            press_duration: if pressed { since } else { ks.press_duration },
                            release_duration: if pressed { ks.release_duration } else { since },
                            ..ks
                        }
                    } else {
                        KeyState { bounce_count: (ks.bounce_count + 1) as u32, ..ks }
                    },
                )
                &&& final(self).debounce_filter == (if pressed != ks.pressed {
                    old(self).debounce_filter
                } else {
                    DebounceFilter {
                        bounce_events_filtered: (old(self).debounce_filter.bounce_events_filtered + 1) as u64,
                        ..old(self).debounce_filter
                    }
                })
                &&& r == ((joypad_reg(old(self).select, old(self).direction_keys, old(self).action_keys)
                    & !joypad_reg(final(self).select, final(self).direction_keys, final(self).action_keys)
                    & 0x0F) != 0)
            }),
    {
        let key_index = key.as_index();
        if !self.should_process_key_change(key_index, pressed, now) {
            return false;
        }
        let old_res = self.read_register();
        let mut key_state = self.key_states[key_index];
        let previous_pressed = key_state.pressed;
        let time_since_last_change = now.saturating_sub(key_state.last_change);
        if pressed != previous_pressed {
            if pressed {
                key_state.press_duration = time_since_last_change;
            } else {
                key_state.release_duration = time_since_last_change;
            }
            key_state.last_change = now;
            key_state.pressed = pressed;
        } else {
            key_state.bounce_count = key_state.bounce_count + 1;
            self.debounce_filter.bounce_events_filtered = self.debounce_filter.bounce_events_filtered + 1;
        }
        self.key_states[key_index] = key_state;
        match key {
            JoypadKey::A => Self::update_key_bit(&mut self.action_keys, 0x01, pressed),
            JoypadKey::B => Self::update_key_bit(&mut self.action_keys, 0x02, pressed),
            JoypadKey::Select => Self::update_key_bit(&mut self.action_keys, 0x04, pressed),
            JoypadKey::Start => Self::update_key_bit(&mut self.action_keys, 0x08, pressed),
            JoypadKey::Right => Self::update_key_bit(&mut self.direction_keys, 0x01, pressed),
            JoypadKey::Left => Self::update_key_bit(&mut self.direction_keys, 0x02, pressed),
            JoypadKey::Up => Self::update_key_bit(&mut self.direction_keys, 0x04, pressed),
            JoypadKey::Down => Self::update_key_bit(&mut self.direction_keys, 0x08, pressed),
        }
        let new_res = self.read_register();
        (old_res & !new_res & 0x0F) != 0
    }

    fn should_process_key_change(&mut self, key_index: usize, new_pressed: bool, now: u64) -> (r: bool)
        requires
            key_index < 8,
            old(self).debounce_filter.bounce_events_filtered < u64::MAX,
        ensures
            r == ((if now >= old(self).key_states@[key_index as int].last_change {
                now - old(self).key_states@[key_index as int].last_change
            } else {
                0
            }) >= old(self).debounce_filter.debounce_threshold),
            r ==> *final(self) == *old(self),
            !r ==> *final(self) == (Joypad {
                debounce_filter: DebounceFilter {
                    bounce_events_filtered: (old(self).debounce_filter.bounce_events_filtered + 1) as u64,
                    ..old(self).debounce_filter
                },
                ..*old(self)
            }),
    {
        let key_state = &self.key_states[key_index];
        let time_since_last_change = now.saturating_sub(key_state.last_change);
        if time_since_last_change < self.debounce_filter.debounce_threshold {
            self.debounce_filter.bounce_events_filtered = self.debounce_filter.bounce_events_filtered + 1;
            return false;
        }
        true
    }

    /// The tracked state of a key.
    pub fn get_key_stats(&self, key: JoypadKey) -> (r: &KeyState)
        ensures
            *r == self.key_states@[key_index(key) as int],
    {
        &self.key_states[key.as_index()]
    }

    /// The debounce filter and its count of dropped events.
    pub fn get_debounce_stats(&self) -> (r: &DebounceFilter)
        ensures
            *r == self.debounce_filter,
    {
        &self.debounce_filter
    }
}

/// The (direction, action) rows after a key event on rows `d` and `a`.
pub open spec fn rows_after(d: u8, a: u8, key: JoypadKey, pressed: bool) -> (u8, u8) {
    if is_action(key) {
        (d, key_bit(a, key_mask(key), pressed))
    } else {
        (key_bit(d, key_mask(key), pressed), a)
    }
}

proof fn lemma_joypad_bits(sel: u8, d: u8, a: u8, m: u8)
    by (bit_vector)
    requires
        m == 1 || m == 2 || m == 4 || m == 8,
    ensures
        a & m != 0 ==> ((a & !m) | m) == a,
        d & m != 0 ==> ((d & !m) | m) == d,
        sel & 0x0F == 0 && sel & 0x20 == 0 && joypad_reg(sel, d, a) & m != 0 ==> (joypad_reg(sel, d, a) & !joypad_reg(
            sel,
            d,
            a & !m,
        ) & 0x0F) != 0,
        sel & 0x0F == 0 && sel & 0x10 == 0 && joypad_reg(sel, d, a) & m != 0 ==> (joypad_reg(sel, d, a) & !joypad_reg(
            sel,
            d & !m,
            a,
        ) & 0x0F) != 0,
{
}

/// Pressing a key that reads as released in a selected row is a falling edge of P1, which is
/// what `set_key` reports as a joypad interrupt request.
pub proof fn law_press_requests_interrupt(sel: u8, d: u8, a: u8, key: JoypadKey)
    requires
        sel & 0x0F == 0,
        is_action(key) ==> sel & 0x20 == 0,
        !is_action(key) ==> sel & 0x10 == 0,
        joypad_reg(sel, d, a) & key_mask(key) != 0,
    ensures
        (joypad_reg(sel, d, a) & !joypad_reg(
            sel,
            rows_after(d, a, key, true).0,
            rows_after(d, a, key, true).1,
        ) & 0x0F) != 0,
{
    lemma_joypad_bits(sel, d, a, key_mask(key));
}

/// Pressing and then releasing a key that was released gives back both rows.
pub proof fn law_press_release_restores(d: u8, a: u8, key: JoypadKey)
    requires
        is_action(key) ==> a & key_mask(key) != 0,
        !is_action(key) ==> d & key_mask(key) != 0,
    ensures
        ({
            let p = rows_after(d, a, key, true);
            rows_after(p.0, p.1, key, false) == (d, a)
        }),
{
    lemma_joypad_bits(0, d, a, key_mask(key));
}

/// The joypad key a button drives.
pub open spec fn key_of_button(b: GameBoyButton) -> JoypadKey {
    match b {
        GameBoyButton::A => JoypadKey::A,
        GameBoyButton::B => JoypadKey::B,
        GameBoyButton::Select => JoypadKey::Select,
        GameBoyButton::Start => JoypadKey::Start,
        GameBoyButton::Right => JoypadKey::Right,
        GameBoyButton::Left => JoypadKey::Left,
        GameBoyButton::Up => JoypadKey::Up,
        GameBoyButton::Down => JoypadKey::Down,
    }
}

impl GameBoyButton {
    /// The joypad key this button drives.
    pub fn joypad_key(self) -> (r: JoypadKey)
        ensures
            r == key_of_button(self),
    {
        match self {
            GameBoyButton::A => JoypadKey::A,
            GameBoyButton::B => JoypadKey::B,
            GameBoyButton::Select => JoypadKey::Select,
            GameBoyButton::Start => JoypadKey::Start,
            GameBoyButton::Right => JoypadKey::Right,
            GameBoyButton::Left => JoypadKey::Left,
            GameBoyButton::Up => JoypadKey::Up,
            GameBoyButton::Down => JoypadKey::Down,
        }
    }
}

} // verus!
