use vstd::prelude::*;

verus! {

/// How strictly frames are paced.
#[derive(Debug, Clone, Copy, PartialEq, Eq)]
pub enum TimingMode {
    /// Strict Game Boy timing (59.7275 frames per second).
    Strict,
}

/// The five interrupt sources, in IF/IE bit order.
#[derive(Debug, Clone, Copy, PartialEq, Eq, Structural, Hash)]
pub enum InterruptType {
    VBlank,
    LcdStat,
    Timer,
    Serial,
    Joypad,
}

/// The IF/IE bit of an interrupt source.
pub open spec fn interrupt_bit(t: InterruptType) -> nat {
    match t {
        InterruptType::VBlank => 0,
        InterruptType::LcdStat => 1,
        InterruptType::Timer => 2,
        InterruptType::Serial => 3,
        InterruptType::Joypad => 4,
    }
}

/// The interrupt source of an IF/IE bit 0..=4.
pub open spec fn interrupt_of_bit(b: nat) -> InterruptType {
    if b == 0 {
        InterruptType::VBlank
    } else if b == 1 {
        InterruptType::LcdStat
    } else if b == 2 {
        InterruptType::Timer
    } else if b == 3 {
        InterruptType::Serial
    } else {
        InterruptType::Joypad
    }
}

/// The handler address of the interrupt at bit `b`: 0x40 + 8 * b.
pub open spec fn vector_of_bit(b: nat) -> u16 {
    (0x40 + 8 * b) as u16
}

/// Whether interrupt bit `b` is both requested and enabled.
pub open spec fn bit_pending(ie: u8, ifl: u8, b: nat) -> bool {
    (ie & ifl & 0x1F) & (1u8 << b as u8) != 0
}

/// The priority an interrupt competes with (lower wins): its configured priority, one
/// step worse (saturating) when masking prevention is on and it was the last one served.
pub open spec fn effective_priority(
    priorities: Seq<u8>,
    b: nat,
    masking_prevention: bool,
    last: Option<InterruptType>,
) -> nat {
    if masking_prevention && last == Some(interrupt_of_bit(b)) {
        if priorities[b as int] == 255 {
            255
        } else {
            (priorities[b as int] + 1) as nat
        }
    } else {
        priorities[b as int] as nat
    }
}

/// Whether `r` is the interrupt to serve: among the requested and enabled interrupts, the one
/// with the lowest effective priority, the lowest bit among equals, with its handler address;
/// `None` when none is requested and enabled.
pub open spec fn interrupt_choice(
    ie: u8,
    ifl: u8,
    priorities: Seq<u8>,
    masking_prevention: bool,
    last_processed: Option<InterruptType>,
    r: Option<(InterruptType, u16)>,
) -> bool {
    match r {
        Some((t, v)) => {
            let b = interrupt_bit(t);
            &&& b < 5
            &&& bit_pending(ie, ifl, b)
            &&& v == vector_of_bit(b)
            &&& forall|c: nat|
                c < 5 && bit_pending(ie, ifl, c) ==> effective_priority(
                    priorities,
                    c,
                    masking_prevention,
                    last_processed,
                ) >= effective_priority(priorities, b, masking_prevention, last_processed)
            &&& forall|c: nat|
                c < b && bit_pending(ie, ifl, c) ==> effective_priority(
                    priorities,
                    c,
                    masking_prevention,
                    last_processed,
                ) > effective_priority(priorities, b, masking_prevention, last_processed)
        },
        None => forall|c: nat| c < 5 ==> !bit_pending(ie, ifl, c),
    }
}

/// The interrupt source to serve, as `interrupt_choice` describes.
pub fn highest_priority_interrupt(
    ie: u8,
    ifl: u8,
    priorities: [u8; 5],
    masking_prevention: bool,
    last_processed: Option<InterruptType>,
) -> (r: Option<(InterruptType, u16)>)
    ensures
        interrupt_choice(ie, ifl, priorities@, masking_prevention, last_processed, r),
{
    let pending = ie & ifl & 0x1F;
    let mut highest: u8 = 255;
    let mut selected: Option<(InterruptType, u16)> = None;
    let mut bit: u8 = 0;
    while bit < 5
        invariant
            bit <= 5,
            pending == ie & ifl & 0x1F,
            match selected {
                Some((t, v)) => {
                    let b = interrupt_bit(t);
                    &&& b < bit
                    &&& bit_pending(ie, ifl, b)
                    &&& highest as nat == effective_priority(
                        priorities@,
                        b,
                        masking_prevention,
                        last_processed,
                    )
                    &&& v == vector_of_bit(b)
                    &&& forall|c: nat|
                        c < b && bit_pending(ie, ifl, c) ==> effective_priority(
                            priorities@,
                            c,
                            masking_prevention,
                            last_processed,
                        ) > highest
                },
                None => forall|c: nat| c < bit ==> !bit_pending(ie, ifl, c),
            },
            forall|c: nat|
                c < bit && bit_pending(ie, ifl, c) ==> effective_priority(
                    priorities@,
                    c,
                    masking_prevention,
                    last_processed,
                ) >= highest,
        decreases 5 - bit,
    {
        if (pending & (1u8 << bit)) != 0 {
            let t = if bit == 0 {
                InterruptType::VBlank
            } else if bit == 1 {
                InterruptType::LcdStat
            } else if bit == 2 {
                InterruptType::Timer
            } else if bit == 3 {
                InterruptType::Serial
            } else {
                InterruptType::Joypad
            };
            let base = priorities[bit as usize];
            let again = match last_processed {
                Some(l) => masking_prevention && l == t,
                None => false,
            };
            let p = if again {
                base.saturating_add(1)
            } else {
                base
            };
            if selected.is_none() || p < highest {
                highest = p;
                selected = Some((t, 0x40 + 8 * (bit as u16)));
            }
        }
        bit = bit + 1;
    }
    selected
}

/// Why a PPU or timer observation is off the Game Boy's timing.
#[derive(Debug, Clone, Copy, PartialEq, Eq)]
pub enum TimingFault {
    /// A scanline above 153.
    Scanline(u8),
    /// A dot position above 455 on a scanline.
    Dots(u8, u16),
    /// HBlank before dot 252.
    HBlankEarly(u16),
    /// VBlank on a visible scanline (below 144).
    VBlankEarly(u8),
    /// OAM search after dot 79.
    OamSearchLate(u16),
    /// Pixel transfer outside dots 80..=251.
    TransferOutside(u16),
    /// A PPU mode other than 0..=3.
    Mode(u8),
    /// More than twice the increment period since the last TIMA increment:
    /// (cycles, period).
    TimerOverdue(u64, u64),
}

/// The decimal digit `d` (0..=9) as a character.
pub open spec fn digit_char(d: nat) -> char {
    if d == 0 {
        '0'
    } else if d == 1 {
        '1'
    } else if d == 2 {
        '2'
    } else if d == 3 {
        '3'
    } else if d == 4 {
        '4'
    } else if d == 5 {
        '5'
    } else if d == 6 {
        '6'
    } else if d == 7 {
        '7'
    } else if d == 8 {
        '8'
    } else {
        '9'
    }
}

/// `n` written in decimal, without leading zeros.
pub open spec fn decimal(n: nat) -> Seq<char>
    decreases n,
{
    if n < 10 {
        seq![digit_char(n)]
    } else {
        decimal(n / 10) + seq![digit_char(n % 10)]
    }
}

/// The text that describes a timing fault.
pub open spec fn fault_message(f: TimingFault) -> Seq<char> {
    match f {
        TimingFault::Scanline(s) => "Invalid scanline: "@ + decimal(s as nat) + " (max 153)"@,
        TimingFault::Dots(s, d) => "Invalid dots for scanline "@ + decimal(s as nat) + ": "@
            + decimal(d as nat) + " (max 455)"@,
        TimingFault::HBlankEarly(d) => "HBlank mode at invalid dots: "@ + decimal(d as nat)
            + " (should be >= 252)"@,
        TimingFault::VBlankEarly(s) => "VBlank mode at invalid scanline: "@ + decimal(s as nat)
            + " (should be >= 144)"@,
        TimingFault::OamSearchLate(d) => "OAM Search mode at invalid dots: "@ + decimal(d as nat)
            + " (should be <= 79)"@,
        TimingFault::TransferOutside(d) => "Pixel Transfer mode at invalid dots: "@ + decimal(
            d as nat,
        ) + " (should be 80-251)"@,
        TimingFault::Mode(m) => "Invalid PPU mode: "@ + decimal(m as nat),
        TimingFault::TimerOverdue(c, p) => "Timer increment overdue: "@ + decimal(c as nat)
            + " cycles since last increment (expected ~"@ + decimal(p as nat) + ")"@,
    }
}

/// The one-character text of a decimal digit.
fn digit_str(d: u64) -> (r: &'static str)
    requires
        d < 10,
    ensures
        r@ == seq![digit_char(d as nat)],
{
    proof {
        reveal_strlit("0");
        reveal_strlit("1");
        reveal_strlit("2");
        reveal_strlit("3");
        reveal_strlit("4");
        reveal_strlit("5");
        reveal_strlit("6");
        reveal_strlit("7");
        reveal_strlit("8");
        reveal_strlit("9");
    }
    if d == 0 {
        "0"
    } else if d == 1 {
        "1"
    } else if d == 2 {
        "2"
    } else if d == 3 {
        "3"
    } else if d == 4 {
        "4"
    } else if d == 5 {
        "5"
    } else if d == 6 {
        "6"
    } else if d == 7 {
        "7"
    } else if d == 8 {
        "8"
    } else {
        "9"
    }
}

/// Appends `n` in decimal to `s`.
fn push_decimal(s: &mut String, n: u64)
    ensures
        final(s)@ == old(s)@ + decimal(n as nat),
    decreases n,
{
    if n >= 10 {
        push_decimal(s, n / 10);
    }
    s.append(digit_str(n % 10));
    proof {
        if n >= 10 {
            assert(final(s)@ =~= old(s)@ + decimal(n as nat));
        }
    }
}

impl TimingFault {
    /// The fault as text, naming the observed values and the bound they break.
    pub fn message(&self) -> (r: String)
        ensures
            r@ == fault_message(*self),
    {
        match *self {
            TimingFault::Scanline(sl) => {
                let mut s = String::from_str("Invalid scanline: ");
                push_decimal(&mut s, sl as u64);
                s.append(" (max 153)");
                s
            },
            TimingFault::Dots(sl, d) => {
                let mut s = String::from_str("Invalid dots for scanline ");
                push_decimal(&mut s, sl as u64);
                s.append(": ");
                push_decimal(&mut s, d as u64);
                s.append(" (max 455)");
                s
            },
            TimingFault::HBlankEarly(d) => {
                let mut s = String::from_str("HBlank mode at invalid dots: ");
                push_decimal(&mut s, d as u64);
                s.append(" (should be >= 252)");
                s
            },
            TimingFault::VBlankEarly(sl) => {
                let mut s = String::from_str("VBlank mode at invalid scanline: ");
                push_decimal(&mut s, sl as u64);
                s.append(" (should be >= 144)");
                s
            },
            TimingFault::OamSearchLate(d) => {
                let mut s = String::from_str("OAM Search mode at invalid dots: ");
                push_decimal(&mut s, d as u64);
                s.append(" (should be <= 79)");
                s
            },
            TimingFault::TransferOutside(d) => {
                let mut s = String::from_str("Pixel Transfer mode at invalid dots: ");
                push_decimal(&mut s, d as u64);
                s.append(" (should be 80-251)");
                s
            },
            TimingFault::Mode(m) => {
                let mut s = String::from_str("Invalid PPU mode: ");
                push_decimal(&mut s, m as u64);
                s
            },
            TimingFault::TimerOverdue(c, p) => {
                let mut s = String::from_str("Timer increment overdue: ");
                push_decimal(&mut s, c);
                s.append(" cycles since last increment (expected ~");
                push_decimal(&mut s, p);
                s.append(")");
                s
            },
        }
    }
}

/// The PPU frame shape: 154 scanlines of 456 dots.
pub fn get_ppu_timing_constants() -> (r: (u8, u16))
    ensures
        r == (154u8, 456u16),
{
    (154, 456)
}

/// The TIMA increment period (in t-cycles) of each TAC frequency setting.
pub fn get_timer_frequency_constants() -> (r: [(u8, u64); 4])
    ensures
        r@ == seq![(0u8, 1024u64), (1u8, 16u64), (2u8, 64u64), (3u8, 256u64)],
{
    let r = [(0u8, 1024u64), (1u8, 16u64), (2u8, 64u64), (3u8, 256u64)];
    proof {
        assert(r@ =~= seq![(0u8, 1024u64), (1u8, 16u64), (2u8, 64u64), (3u8, 256u64)]);
    }
    r
}

/// The first timing rule that a PPU observation (scanline, dot, mode) breaks, if any.
pub open spec fn ppu_timing_fault(scanline: u8, dots: u16, mode: u8) -> Option<TimingFault> {
    if scanline > 153 {
        Some(TimingFault::Scanline(scanline))
    } else if dots > 455 {
        Some(TimingFault::Dots(scanline, dots))
    } else if mode == 0 {
        if dots < 252 {
            Some(TimingFault::HBlankEarly(dots))
        } else {
            None
        }
    } else if mode == 1 {
        if scanline < 144 {
            Some(TimingFault::VBlankEarly(scanline))
        } else {
            None
        }
    } else if mode == 2 {
        if dots > 79 {
            Some(TimingFault::OamSearchLate(dots))
        } else {
            None
        }
    } else if mode == 3 {
        if !(80 <= dots <= 251) {
            Some(TimingFault::TransferOutside(dots))
        } else {
            None
        }
    } else {
        Some(TimingFault::Mode(mode))
    }
}

/// Checks a PPU observation against the frame timing: scanlines 0..=153, dots 0..=455, HBlank
/// from dot 252, VBlank from scanline 144, OAM search up to dot 79, pixel transfer on dots
/// 80..=251.
pub fn validate_ppu_timing(scanline: u8, dots: u16, mode: u8) -> (r: Result<(), TimingFault>)
    ensures
        match ppu_timing_fault(scanline, dots, mode) {
            Some(f) => r == Err::<(), TimingFault>(f),
            None => r is Ok,
        },
{
    if scanline > 153 {
        return Err(TimingFault::Scanline(scanline));
    }
    if dots > 455 {
        return Err(TimingFault::Dots(scanline, dots));
    }
    if mode == 0 {
        if dots < 252 {
            return Err(TimingFault::HBlankEarly(dots));
        }
    } else if mode == 1 {
        if scanline < 144 {
            return Err(TimingFault::VBlankEarly(scanline));
        }
    } else if mode == 2 {
        if dots > 79 {
            return Err(TimingFault::OamSearchLate(dots));
        }
    } else if mode == 3 {
        if !(80 <= dots && dots <= 251) {
            return Err(TimingFault::TransferOutside(dots));
        }
    } else {
        return Err(TimingFault::Mode(mode));
    }
    Ok(())
}

/// The TIMA increment period of a TAC value: 1024, 16, 64 or 256 t-cycles by bits 0-1.
pub open spec fn timer_period(tac: u8) -> u64 {
    let f = tac % 4;
    if f == 0 {
        1024
    } else if f == 1 {
        16
    } else if f == 2 {
        64
    } else {
        256
    }
}

/// Checks the time since the last TIMA increment: with the timer enabled (TAC bit 2) it may
/// be at most twice the increment period.
pub fn validate_timer_timing(tac: u8, cycles_since_last_increment: u64) -> (r: Result<
    (),
    TimingFault,
>)
    ensures
        (tac & 0x04 != 0 && cycles_since_last_increment > 2 * timer_period(tac)) ==> r
            == Err::<(), TimingFault>(
            TimingFault::TimerOverdue(cycles_since_last_increment, timer_period(tac)),
        ),
        !(tac & 0x04 != 0 && cycles_since_last_increment > 2 * timer_period(tac)) ==> r is Ok,
{
    if (tac & 0x04) == 0 {
        return Ok(());
    }
    proof {
        crate::bits::lemma_u8_bits(tac);
    }
    let expected: u64 = match tac & 0x03 {
        0 => 1024,
        1 => 16,
        2 => 64,
        _ => 256,
    };
    if cycles_since_last_increment > expected * 2 {
        return Err(TimingFault::TimerOverdue(cycles_since_last_increment, expected));
    }
    Ok(())
}

/// Interrupt settings for one game: priorities by interrupt bit (lower wins; `None` keeps the
/// priority in force), the joypad interrupt delay in cycles, masking prevention, and timing
/// adjustments by interrupt bit, in nanoseconds.
#[derive(Debug, Clone)]
pub struct GameInterruptConfig {
    pub game_id: String,
    pub custom_priorities: [Option<u8>; 5],
    pub joypad_delay_cycles: u8,
    pub prevent_masking: bool,
    pub timing_adjustments: [Option<u64>; 5],
}

/// A game configuration as values.
pub struct ConfigView {
    pub game_id: Seq<char>,
    pub custom_priorities: Seq<Option<u8>>,
    pub joypad_delay_cycles: u8,
    pub prevent_masking: bool,
    pub timing_adjustments: Seq<Option<u64>>,
}

impl View for GameInterruptConfig {
    type V = ConfigView;

    open spec fn view(&self) -> ConfigView {
        ConfigView {
            game_id: self.game_id@,
            custom_priorities: self.custom_priorities@,
            joypad_delay_cycles: self.joypad_delay_cycles,
            prevent_masking: self.prevent_masking,
            timing_adjustments: self.timing_adjustments@,
        }
    }
}

/// Five entries of nothing.
pub open spec fn none5<T>() -> Seq<Option<T>> {
    Seq::new(5, |i: int| None)
}

/// The configuration used when no game is recognised: id "default", no priorities of its own,
/// a 4-cycle joypad delay, masking prevention on.
pub open spec fn default_config() -> ConfigView {
    ConfigView {
        game_id: "default"@,
        custom_priorities: none5(),
        joypad_delay_cycles: 4,
        prevent_masking: true,
        timing_adjustments: none5(),
    }
}

/// A built-in game configuration: priorities for all five interrupts, masking prevention on.
pub open spec fn preset(id: Seq<char>, p: Seq<u8>, delay: u8) -> ConfigView {
    ConfigView {
        game_id: id,
        custom_priorities: Seq::new(5, |i: int| Some(p[i])),
        joypad_delay_cycles: delay,
        prevent_masking: true,
        timing_adjustments: none5(),
    }
}

/// The built-in configurations, by interrupt bit (VBlank, STAT, Timer, Serial, Joypad): Tetris
/// puts the joypad first with a 3-cycle delay; Dr. Mario and Hyper Lode Runner put it second,
/// with 4 and 3 cycles.
pub open spec fn preset_configs() -> Seq<ConfigView> {
    seq![
        preset("tetris"@, seq![1u8, 2u8, 3u8, 4u8, 0u8], 3),
        preset("drmario"@, seq![0u8, 2u8, 3u8, 4u8, 1u8], 4),
        preset("hyperlode"@, seq![0u8, 2u8, 3u8, 4u8, 1u8], 3),
    ]
}

/// The default priorities: bit order.
pub open spec fn default_priorities() -> Seq<u8> {
    seq![0u8, 1u8, 2u8, 3u8, 4u8]
}

/// The priorities after a configuration's own priorities replace the ones in force.
pub open spec fn priorities_applied(p: Seq<u8>, custom: Seq<Option<u8>>) -> Seq<u8> {
    Seq::new(
        5,
        |i: int|
            match custom[i] {
                Some(x) => x,
                None => p[i],
            },
    )
}

/// The position of the configuration with id `id`, if any.
pub open spec fn config_index(configs: Seq<ConfigView>, id: Seq<char>) -> Option<int> {
    if exists|i: int| 0 <= i < configs.len() && configs[i].game_id == id {
        Some(choose|i: int| 0 <= i < configs.len() && configs[i].game_id == id)
    } else {
        None
    }
}

/// The configurations after `c` is added: it replaces the one with its id, or comes last.
pub open spec fn config_added(configs: Seq<ConfigView>, c: ConfigView) -> Seq<ConfigView> {
    match config_index(configs, c.game_id) {
        Some(i) => configs.update(i, c),
        None => configs.push(c),
    }
}

/// No two configurations share an id.
pub open spec fn ids_unique(configs: Seq<ConfigView>) -> bool {
    forall|i: int, j: int|
        0 <= i < configs.len() && 0 <= j < configs.len() && i != j ==> configs[i].game_id
            != configs[j].game_id
}

/// Whether `needle` occurs in `hay`.
pub open spec fn has_substring(hay: Seq<char>, needle: Seq<char>) -> bool {
    exists|i: int| 0 <= i && i + needle.len() <= hay.len() && #[trigger] hay.subrange(i, i + needle.len()) == needle
}

/// The lower-case form of a string, as std's `str::to_lowercase` gives it.
pub uninterp spec fn lowercase_of(s: Seq<char>) -> Seq<char>;

/// std's `str::to_lowercase`; its result is named by `lowercase_of`.
#[verifier::external_body]
fn to_lower(s: &str) -> (r: String)
    ensures
        r@ == lowercase_of(s@),
{
    s.to_lowercase()
}

/// std's `str::contains` with a string pattern: whether `needle` occurs in `hay`.
#[verifier::external_body]
fn str_contains(hay: &str, needle: &str) -> (r: bool)
    ensures
        r == has_substring(hay@, needle@),
{
    hay.contains(needle)
}

/// The game a lower-cased ROM file name names: "tetris", "drmario" (from "dr.mario" or
/// "drmario"), "hyperlode" (from "hyper" and "lode"), else "default".
pub open spec fn game_of_name(lower: Seq<char>) -> Seq<char> {
    if has_substring(lower, "tetris"@) {
        "tetris"@
    } else if has_substring(lower, "dr.mario"@) || has_substring(lower, "drmario"@) {
        "drmario"@
    } else if has_substring(lower, "hyper"@) && has_substring(lower, "lode"@) {
        "hyperlode"@
    } else {
        "default"@
    }
}

/// Interrupt counts: all interrupts raised, and by interrupt bit.
#[derive(Debug, Clone, Copy)]
pub struct InterruptStatistics {
    pub total_interrupts: u64,
    pub interrupts_by_type: [u64; 5],
}

impl InterruptStatistics {
    /// No interrupts counted.
    pub fn new() -> (r: InterruptStatistics)
        ensures
            r.total_interrupts == 0,
            r.interrupts_by_type@ == Seq::new(5, |i: int| 0u64),
    {
        let r = InterruptStatistics { total_interrupts: 0, interrupts_by_type: [0u64; 5] };
        proof {
            assert(r.interrupts_by_type@ =~= Seq::new(5, |i: int| 0u64));
        }
        r
    }
}

/// The interrupt handler's configuration and pending state as values.
pub struct HandlerView {
    pub priorities: Seq<u8>,
    pub joypad_delay: Option<u8>,
    pub frequency: Seq<u64>,
    pub configs: Seq<ConfigView>,
    pub current: Option<ConfigView>,
    pub masking_prevention: bool,
    pub last_processed: Option<InterruptType>,
}

/// An optional configuration as values.
pub open spec fn opt_config(o: Option<GameInterruptConfig>) -> Option<ConfigView> {
    match o {
        Some(c) => Some(c@),
        None => None,
    }
}

/// Interrupt requests and enables with configurable priorities, per-game configurations, a
/// delayed joypad interrupt and masking prevention.
pub struct InterruptHandler {
    pub ie_register: u8,
    pub if_register: u8,
    pub priority_config: [u8; 5],
    pub stats: InterruptStatistics,
    pub joypad_interrupt_delay: Option<u8>,
    pub interrupt_frequency: [u64; 5],
    pub game_configs: Vec<GameInterruptConfig>,
    pub current_game_config: Option<GameInterruptConfig>,
    pub masking_prevention_enabled: bool,
    pub last_processed_interrupt: Option<InterruptType>,
}

impl View for InterruptHandler {
    type V = HandlerView;

    open spec fn view(&self) -> HandlerView {
        HandlerView {
            priorities: self.priority_config@,
            joypad_delay: self.joypad_interrupt_delay,
            frequency: self.interrupt_frequency@,
            configs: self.game_configs@.map_values(|c: GameInterruptConfig| c@),
            current: opt_config(self.current_game_config),
            masking_prevention: self.masking_prevention_enabled,
            last_processed: self.last_processed_interrupt,
        }
    }
}

fn bit_of(t: InterruptType) -> (r: u8)
    ensures
        r == interrupt_bit(t),
        r < 5,
{
    match t {
        InterruptType::VBlank => 0,
        InterruptType::LcdStat => 1,
        InterruptType::Timer => 2,
        InterruptType::Serial => 3,
        InterruptType::Joypad => 4,
    }
}

fn copy_config(c: &GameInterruptConfig) -> (r: GameInterruptConfig)
    ensures
        r@ == c@,
{
    GameInterruptConfig {
        game_id: c.game_id.clone(),
        custom_priorities: c.custom_priorities,
        joypad_delay_cycles: c.joypad_delay_cycles,
        prevent_masking: c.prevent_masking,
        timing_adjustments: c.timing_adjustments,
    }
}

fn make_preset(id: &str, p: [u8; 5], delay: u8) -> (r: GameInterruptConfig)
    ensures
        r@ == preset(id@, p@, delay),
{
    let r = GameInterruptConfig {
        game_id: id.to_owned(),
        custom_priorities: [Some(p[0]), Some(p[1]), Some(p[2]), Some(p[3]), Some(p[4])],
        joypad_delay_cycles: delay,
        prevent_masking: true,
        timing_adjustments: [None, None, None, None, None],
    };
    proof {
        assert(r.custom_priorities@ =~= Seq::new(5, |i: int| Some(p@[i])));
        assert(r.timing_adjustments@ =~= none5::<u64>());
    }
    r
}

impl Default for GameInterruptConfig {
    /// The configuration used when no game is recognised.
    fn default() -> (r: GameInterruptConfig)
        ensures
            r@ == default_config(),
    {
        let r = GameInterruptConfig {
            game_id: "default".to_owned(),
            custom_priorities: [None, None, None, None, None],
            joypad_delay_cycles: 4,
            prevent_masking: true,
            timing_adjustments: [None, None, None, None, None],
        };
        proof {
            assert(r.custom_priorities@ =~= none5::<u8>());
            assert(r.timing_adjustments@ =~= none5::<u64>());
        }
        r
    }
}

impl InterruptHandler {
    /// No two configurations share an id.
    pub open spec fn wf(&self) -> bool {
        ids_unique(self@.configs)
    }

    /// Nothing requested or enabled, default priorities, masking prevention on, no game
    /// selected, no joypad delay running, nothing counted, and the built-in game
    /// configurations.
    pub fn new() -> (r: InterruptHandler)
        ensures
            r.wf(),
            r.ie_register == 0 && r.if_register == 0,
            r.stats.total_interrupts == 0,
            r.stats.interrupts_by_type@ == Seq::new(5, |i: int| 0u64),
            r@.priorities == default_priorities(),
            r@.joypad_delay is None,
            r@.frequency == Seq::new(5, |i: int| 0u64),
            r@.configs == preset_configs(),
            r@.current is None,
            r@.masking_prevention,
            r@.last_processed is None,
    {
        let mut handler = InterruptHandler {
            ie_register: 0,
            if_register: 0,
            priority_config: [0, 1, 2, 3, 4],
            stats: InterruptStatistics::new(),
            joypad_interrupt_delay: None,
            interrupt_frequency: [0u64; 5],
            game_configs: Vec::new(),
            current_game_config: None,
            masking_prevention_enabled: true,
            last_processed_interrupt: None,
        };
        handler.initialize_game_configs();
        proof {
            assert(handler.priority_config@ =~= default_priorities());
            assert(handler.interrupt_frequency@ =~= Seq::new(5, |i: int| 0u64));
        }
        handler
    }

    fn initialize_game_configs(&mut self)
        requires
            old(self).game_configs@.len() == 0,
        ensures
            final(self).wf(),
            final(self)@.configs == preset_configs(),
            *final(self) == (InterruptHandler { game_configs: final(self).game_configs, ..*old(self) }),
    {
        let tetris = make_preset("tetris", [1, 2, 3, 4, 0], 3);
        self.game_configs.push(tetris);
        let drmario = make_preset("drmario", [0, 2, 3, 4, 1], 4);
        self.game_configs.push(drmario);
        let hyperlode = make_preset("hyperlode", [0, 2, 3, 4, 1], 3);
        self.game_configs.push(hyperlode);
        proof {
            reveal_strlit("tetris");
            reveal_strlit("drmario");
            reveal_strlit("hyperlode");
            assert([1u8, 2, 3, 4, 0]@ =~= seq![1u8, 2u8, 3u8, 4u8, 0u8]);
            assert([0u8, 2, 3, 4, 1]@ =~= seq![0u8, 2u8, 3u8, 4u8, 1u8]);
            assert(self@.configs =~= preset_configs());
            assert("tetris"@.len() == 6 && "drmario"@.len() == 7 && "hyperlode"@.len() == 9);
            assert("tetris"@ != "drmario"@);
            assert("tetris"@ != "hyperlode"@);
            assert("drmario"@ != "hyperlode"@);
        }
    }

    /// Sets the priority of one interrupt (lower wins).
    pub fn set_interrupt_priority(&mut self, interrupt_type: InterruptType, priority: u8)
        requires
            old(self).wf(),
        ensures
            final(self).wf(),
            final(self)@ == (HandlerView {
                priorities: old(self)@.priorities.update(interrupt_bit(interrupt_type) as int, priority),
                ..old(self)@
            }),
            final(self).ie_register == old(self).ie_register,
            final(self).if_register == old(self).if_register,
            final(self).stats == old(self).stats,
    {
        let b = bit_of(interrupt_type);
        self.priority_config[b as usize] = priority;
        proof {
            assert(self@.priorities =~= old(self)@.priorities.update(interrupt_bit(interrupt_type) as int, priority));
        }
    }

    /// The priorities by interrupt bit.
    pub fn get_interrupt_priorities(&self) -> (r: [u8; 5])
        ensures
            r@ == self@.priorities,
    {
        self.priority_config
    }

    fn find_config(&self, id: &String) -> (r: Option<usize>)
        ensures
            match r {
                Some(i) => i < self@.configs.len() && self@.configs[i as int].game_id == id@ && (
                forall|j: int| 0 <= j < i ==> self@.configs[j].game_id != id@),
                None => forall|j: int| 0 <= j < self@.configs.len() ==> self@.configs[j].game_id != id@,
            },
    {
        let mut i: usize = 0;
        while i < self.game_configs.len()
            invariant
                i <= self.game_configs@.len(),
                self@.configs == self.game_configs@.map_values(|c: GameInterruptConfig| c@),
                forall|j: int| 0 <= j < i ==> self@.configs[j].game_id != id@,
            decreases self.game_configs@.len() - i,
        {
            if self.game_configs[i].game_id == *id {
                return Some(i);
            }
            i = i + 1;
        }
        None
    }

    /// Adds a game configuration, replacing the one with the same id.
    pub fn add_game_config(&mut self, config: GameInterruptConfig)
        requires
            old(self).wf(),
        ensures
            final(self).wf(),
            final(self)@ == (HandlerView { configs: config_added(old(self)@.configs, config@), ..old(self)@ }),
            final(self).ie_register == old(self).ie_register,
            final(self).if_register == old(self).if_register,
            final(self).stats == old(self).stats,
    {
        let ghost cv = config@;
        let ghost old_configs = old(self)@.configs;
        match self.find_config(&config.game_id) {
            Some(i) => {
                self.game_configs.set(i, config);
                proof {
                    assert(config_index(old_configs, cv.game_id) == Some(i as int)) by {
                        assert(old_configs[i as int].game_id == cv.game_id);
                    }
                    assert(self@.configs =~= old_configs.update(i as int, cv));
                }
            },
            None => {
                self.game_configs.push(config);
                proof {
                    assert(config_index(old_configs, cv.game_id) is None);
                    assert(self@.configs =~= old_configs.push(cv));
                }
            },
        }
    }

    /// Selects the configuration with id `game_id`: its own priorities replace those in force,
    /// its masking prevention setting applies, and it becomes the current configuration. An
    /// unknown id resets to the default configuration.
    pub fn set_game_config(&mut self, game_id: &str)
        requires
            old(self).wf(),
        ensures
            final(self).wf(),
            final(self).ie_register == old(self).ie_register,
            final(self).if_register == old(self).if_register,
            final(self).stats == old(self).stats,
            match config_index(old(self)@.configs, game_id@) {
                Some(i) => final(self)@ == (HandlerView {
                    priorities: priorities_applied(
                        old(self)@.priorities,
                        old(self)@.configs[i].custom_priorities,
                    ),
                    masking_prevention: old(self)@.configs[i].prevent_masking,
                    current: Some(old(self)@.configs[i]),
                    ..old(self)@
                }),
                None => final(self)@ == (HandlerView {
                    priorities: default_priorities(),
                    masking_prevention: true,
                    current: None,
                    ..old(self)@
                }),
            },
    {
        let key = game_id.to_owned();
        match self.find_config(&key) {
            Some(i) => {
                let cfg = copy_config(&self.game_configs[i]);
                proof {
                    assert(config_index(old(self)@.configs, game_id@) == Some(i as int));
                }
                let mut b: usize = 0;
                while b < 5
                    invariant
                        b <= 5,
                        cfg@ == old(self)@.configs[i as int],
                        self.game_configs == old(self).game_configs,
                        self.current_game_config == old(self).current_game_config,
                        self.masking_prevention_enabled == old(self).masking_prevention_enabled,
                        self.joypad_interrupt_delay == old(self).joypad_interrupt_delay,
                        self.interrupt_frequency == old(self).interrupt_frequency,
                        self.last_processed_interrupt == old(self).last_processed_interrupt,
                        self.ie_register == old(self).ie_register,
                        self.if_register == old(self).if_register,
                        self.stats == old(self).stats,
                        forall|j: int| 0 <= j < b ==> self.priority_config@[j] == priorities_applied(
                            old(self)@.priorities,
                            cfg@.custom_priorities,
                        )[j],
                        forall|j: int| b <= j < 5 ==> self.priority_config@[j] == old(self).priority_config@[j],
                    decreases 5 - b,
                {
                    match cfg.custom_priorities[b] {
                        Some(p) => {
                            self.priority_config[b] = p;
                        },
                        None => {},
                    }
                    b = b + 1;
                }
                self.masking_prevention_enabled = cfg.prevent_masking;
                self.current_game_config = Some(cfg);
                proof {
                    assert(self@.priorities =~= priorities_applied(
                        old(self)@.priorities,
                        old(self)@.configs[i as int].custom_priorities,
                    ));
                }
            },
            None => {
                proof {
                    assert(config_index(old(self)@.configs, game_id@) is None);
                }
                self.reset_to_default_config();
            },
        }
    }

    /// Default priorities, masking prevention on, no current configuration.
    pub fn reset_to_default_config(&mut self)
        requires
            old(self).wf(),
        ensures
            final(self).wf(),
            final(self)@ == (HandlerView {
                priorities: default_priorities(),
                masking_prevention: true,
                current: None,
                ..old(self)@
            }),
            final(self).ie_register == old(self).ie_register,
            final(self).if_register == old(self).if_register,
            final(self).stats == old(self).stats,
    {
        self.priority_config = [0, 1, 2, 3, 4];
        self.masking_prevention_enabled = true;
        self.current_game_config = None;
        proof {
            assert(self@.priorities =~= default_priorities());
        }
    }

    /// The current game configuration, if one is selected.
    pub fn get_current_game_config(&self) -> (r: Option<&GameInterruptConfig>)
        ensures
            match r {
                Some(c) => self@.current == Some(c@),
                None => self@.current is None,
            },
    {
        self.current_game_config.as_ref()
    }

    /// All game configurations.
    pub fn get_game_configs(&self) -> (r: &Vec<GameInterruptConfig>)
        ensures
            r@.map_values(|c: GameInterruptConfig| c@) == self@.configs,
    {
        &self.game_configs
    }

    /// Selects the configuration that a ROM file name names, or the default one.
    pub fn auto_configure_for_game(&mut self, rom_filename: &str)
        requires
            old(self).wf(),
        ensures
            final(self).wf(),
            final(self).ie_register == old(self).ie_register,
            final(self).if_register == old(self).if_register,
            final(self).stats == old(self).stats,
            ({
                let g = game_of_name(lowercase_of(rom_filename@));
                match (if g != "default"@ {
                    config_index(old(self)@.configs, g)
                } else {
                    None
                }) {
                    Some(i) => final(self)@ == (HandlerView {
                        priorities: priorities_applied(
                            old(self)@.priorities,
                            old(self)@.configs[i].custom_priorities,
                        ),
                        masking_prevention: old(self)@.configs[i].prevent_masking,
                        current: Some(old(self)@.configs[i]),
                        ..old(self)@
                    }),
                    None => final(self)@ == (HandlerView {
                        priorities: default_priorities(),
                        masking_prevention: true,
                        current: None,
                        ..old(self)@
                    }),
                }
            }),
    {
        let game_id = self.detect_game_from_filename(rom_filename);
        if game_id != "default".to_owned() {
            self.set_game_config(game_id.as_str());
        } else {
            self.reset_to_default_config();
        }
    }

    fn detect_game_from_filename(&self, filename: &str) -> (r: String)
        ensures
            r@ == game_of_name(lowercase_of(filename@)),
    {
        let filename_lower = to_lower(filename);
        Self::game_of_lowered(filename_lower.as_str())
    }

    /// The game a lower-cased ROM file name names, as `game_of_name` describes: "tetris",
    /// "drmario" (from "dr.mario" or "drmario"), "hyperlode" (from "hyper" and "lode"), else
    /// "default".
    pub fn game_of_lowered(lower: &str) -> (r: String)
        ensures
            r@ == game_of_name(lower@),
    {
        if str_contains(lower, "tetris") {
            "tetris".to_owned()
        } else if str_contains(lower, "dr.mario") || str_contains(lower, "drmario") {
            "drmario".to_owned()
        } else if str_contains(lower, "hyper") && str_contains(lower, "lode") {
            "hyperlode".to_owned()
        } else {
            "default".to_owned()
        }
    }

    /// Whether an interrupt is both requested and enabled.
    pub fn has_pending_interrupts(&self) -> (r: bool)
        ensures
            r == (self.ie_register & self.if_register & 0x1F != 0),
    {
        (self.ie_register & self.if_register & 0x1F) != 0
    }

    /// The interrupt to serve under the priorities and masking prevention in force, as
    /// `interrupt_choice` describes.
    pub fn get_highest_priority_interrupt(&self) -> (r: Option<(InterruptType, u16)>)
        ensures
            interrupt_choice(
                self.ie_register,
                self.if_register,
                self@.priorities,
                self@.masking_prevention,
                self@.last_processed,
                r,
            ),
    {
        highest_priority_interrupt(
            self.ie_register,
            self.if_register,
            self.priority_config,
            self.masking_prevention_enabled,
            self.last_processed_interrupt,
        )
    }

    /// Raises an interrupt: the joypad interrupt starts its delay (the current configuration's,
    /// else 4 cycles) unless one is running; any other sets its IF bit. The interrupt is
    /// counted.
    pub fn trigger_interrupt(&mut self, interrupt_type: InterruptType)
        requires
            old(self).wf(),
            old(self).stats.total_interrupts < u64::MAX,
            old(self).stats.interrupts_by_type@[interrupt_bit(interrupt_type) as int] < u64::MAX,
        ensures
            final(self).wf(),
            final(self).ie_register == old(self).ie_register,
            final(self).stats.total_interrupts == old(self).stats.total_interrupts + 1,
            final(self).stats.interrupts_by_type@ == old(self).stats.interrupts_by_type@.update(
                interrupt_bit(interrupt_type) as int,
                (old(self).stats.interrupts_by_type@[interrupt_bit(interrupt_type) as int] + 1) as u64,
            ),
            interrupt_type is Joypad ==> final(self).if_register == old(self).if_register
                && final(self)@ == (HandlerView {
                joypad_delay: match old(self)@.joypad_delay {
                    Some(d) => Some(d),
                    None => Some(
                        match old(self)@.current {
                            Some(c) => c.joypad_delay_cycles,
                            None => 4u8,
                        },
                    ),
                },
                ..old(self)@
            }),
            !(interrupt_type is Joypad) ==> final(self).if_register == old(self).if_register | (1u8
                << interrupt_bit(interrupt_type) as u8) && final(self)@ == old(self)@,
    {
        let b = bit_of(interrupt_type);
        if interrupt_type == InterruptType::Joypad {
            self.trigger_joypad_interrupt_optimized();
        } else {
            self.if_register = self.if_register | (1u8 << b);
        }
        self.update_interrupt_statistics(interrupt_type);
    }

    fn trigger_joypad_interrupt_optimized(&mut self)
        ensures
            *final(self) == (InterruptHandler {
                joypad_interrupt_delay: final(self).joypad_interrupt_delay,
                ..*old(self)
            }),
            final(self)@.joypad_delay == (match old(self)@.joypad_delay {
                Some(d) => Some(d),
                None => Some(
                    match old(self)@.current {
                        Some(c) => c.joypad_delay_cycles,
                        None => 4u8,
                    },
                ),
            }),
    {
        if self.joypad_interrupt_delay.is_none() {
            let delay_cycles = match &self.current_game_config {
                Some(config) => config.joypad_delay_cycles,
                None => 4,
            };
            self.joypad_interrupt_delay = Some(delay_cycles);
        }
    }

    /// Counts down the joypad interrupt delay by one cycle (saturating); when it reaches 0 the
    /// joypad IF bit is set, the delay ends and the result is true.
    pub fn process_joypad_interrupt_delay(&mut self) -> (r: bool)
        requires
            old(self).wf(),
        ensures
            final(self).wf(),
            final(self).ie_register == old(self).ie_register,
            final(self).stats == old(self).stats,
            match old(self)@.joypad_delay {
                Some(d) => if d <= 1 {
                    &&& r
                    &&& final(self).if_register == old(self).if_register | 0x10
                    &&& final(self)@ == (HandlerView { joypad_delay: None, ..old(self)@ })
                } else {
                    &&& !r
                    &&& final(self).if_register == old(self).if_register
                    &&& final(self)@ == (HandlerView { joypad_delay: Some((d - 1) as u8), ..old(self)@ })
                },
                None => !r && *final(self) == *old(self),
            },
    {
        match self.joypad_interrupt_delay {
            Some(d) => {
                let remaining = d.saturating_sub(1);
                if remaining == 0 {
                    self.if_register = self.if_register | 0x10;
                    self.joypad_interrupt_delay = None;
                    true
                } else {
                    self.joypad_interrupt_delay = Some(remaining);
                    false
                }
            },
            None => false,
        }
    }

    /// Clears the IF bit of one interrupt.
    pub fn clear_interrupt_flag(&mut self, interrupt_type: InterruptType)
        ensures
            *final(self) == (InterruptHandler {
                if_register: old(self).if_register & !(1u8 << interrupt_bit(interrupt_type) as u8),
                ..*old(self)
            }),
    {
        let b = bit_of(interrupt_type);
        self.if_register = self.if_register & !(1u8 << b);
    }

    /// The CPU starts serving an interrupt: its IF bit is cleared, it becomes the last one
    /// served, and it is counted.
    pub fn acknowledge_interrupt(&mut self, interrupt_type: InterruptType)
        requires
            old(self).wf(),
            old(self)@.frequency[interrupt_bit(interrupt_type) as int] < u64::MAX,
        ensures
            final(self).wf(),
            final(self).ie_register == old(self).ie_register,
            final(self).stats == old(self).stats,
            final(self).if_register == old(self).if_register & !(1u8 << interrupt_bit(interrupt_type) as u8),
            final(self)@ == (HandlerView {
                last_processed: Some(interrupt_type),
                frequency: old(self)@.frequency.update(
                    interrupt_bit(interrupt_type) as int,
                    (old(self)@.frequency[interrupt_bit(interrupt_type) as int] + 1) as u64,
                ),
                ..old(self)@
            }),
    {
        self.clear_interrupt_flag(interrupt_type);
        self.last_processed_interrupt = Some(interrupt_type);
        let b = bit_of(interrupt_type) as usize;
        self.interrupt_frequency[b] = self.interrupt_frequency[b] + 1;
        proof {
            assert(self@.frequency =~= old(self)@.frequency.update(
                interrupt_bit(interrupt_type) as int,
                (old(self)@.frequency[interrupt_bit(interrupt_type) as int] + 1) as u64,
            ));
        }
    }

    fn update_interrupt_statistics(&mut self, interrupt_type: InterruptType)
        requires
            old(self).stats.total_interrupts < u64::MAX,
            old(self).stats.interrupts_by_type@[interrupt_bit(interrupt_type) as int] < u64::MAX,
        ensures
            final(self).stats.total_interrupts == old(self).stats.total_interrupts + 1,
            final(self).stats.interrupts_by_type@ == old(self).stats.interrupts_by_type@.update(
                interrupt_bit(interrupt_type) as int,
                (old(self).stats.interrupts_by_type@[interrupt_bit(interrupt_type) as int] + 1) as u64,
            ),
            *final(self) == (InterruptHandler { stats: final(self).stats, ..*old(self) }),
    {
        self.stats.total_interrupts = self.stats.total_interrupts + 1;
        let b = bit_of(interrupt_type) as usize;
        self.stats.interrupts_by_type[b] = self.stats.interrupts_by_type[b] + 1;
        proof {
            assert(self.stats.interrupts_by_type@ =~= old(self).stats.interrupts_by_type@.update(
                interrupt_bit(interrupt_type) as int,
                (old(self).stats.interrupts_by_type@[interrupt_bit(interrupt_type) as int] + 1) as u64,
            ));
        }
    }

    /// The interrupt counts.
    pub fn get_statistics(&self) -> (r: &InterruptStatistics)
        ensures
            *r == self.stats,
    {
        &self.stats
    }

    /// Zeroes the interrupt counts and the serve counts.
    pub fn reset_statistics(&mut self)
        requires
            old(self).wf(),
        ensures
            final(self).wf(),
            final(self).stats.total_interrupts == 0,
            final(self).stats.interrupts_by_type@ == Seq::new(5, |i: int| 0u64),
            final(self)@ == (HandlerView { frequency: Seq::new(5, |i: int| 0u64), ..old(self)@ }),
            final(self).ie_register == old(self).ie_register,
            final(self).if_register == old(self).if_register,
    {
        self.stats = InterruptStatistics::new();
        self.interrupt_frequency = [0u64; 5];
        proof {
            assert(self@.frequency =~= Seq::new(5, |i: int| 0u64));
        }
    }

    /// Whether a joypad interrupt delay is running.
    pub fn is_joypad_interrupt_delayed(&self) -> (r: bool)
        ensures
            r == self@.joypad_delay is Some,
    {
        self.joypad_interrupt_delay.is_some()
    }

    /// The cycles left in the joypad interrupt delay, if one is running.
    pub fn get_joypad_interrupt_delay_cycles(&self) -> (r: Option<u8>)
        ensures
            r == self@.joypad_delay,
    {
        self.joypad_interrupt_delay
    }

    /// Whether masking prevention is on.
    pub fn is_masking_prevention_enabled(&self) -> (r: bool)
        ensures
            r == self@.masking_prevention,
    {
        self.masking_prevention_enabled
    }
}

/// Cycles the CPU spends entering an interrupt handler.
pub const INTERRUPT_ENTRY_CYCLES: u32 = 20;

/// The joypad interrupt delay after `n` cycles of countdown from `d`, and whether the
/// interrupt fired in them: a delay of `x` fires on cycle `max(x, 1)` and then ends.
pub open spec fn delay_after(d: Option<u8>, n: nat) -> (Option<u8>, bool) {
    match d {
        None => (None, false),
        Some(x) => if (if x == 0 {
            1
        } else {
            x as nat
        }) <= n {
            (None, true)
        } else {
            (Some((x - n) as u8), false)
        },
    }
}

impl InterruptHandler {
    fn count_down_joypad(&mut self, cycles: u32) -> (fired: bool)
        requires
            old(self).wf(),
        ensures
            final(self).wf(),
            final(self).ie_register == old(self).ie_register,
            final(self).stats == old(self).stats,
            fired == delay_after(old(self)@.joypad_delay, cycles as nat).1,
            final(self).if_register == (if fired {
                old(self).if_register | 0x10
            } else {
                old(self).if_register
            }),
            final(self)@ == (HandlerView {
                joypad_delay: delay_after(old(self)@.joypad_delay, cycles as nat).0,
                ..old(self)@
            }),
    {
        let mut fired = false;
        let mut i: u32 = 0;
        while i < cycles
            invariant
                i <= cycles,
                self.wf(),
                self.ie_register == old(self).ie_register,
                self.stats == old(self).stats,
                fired == delay_after(old(self)@.joypad_delay, i as nat).1,
                self.if_register == (if fired {
                    old(self).if_register | 0x10
                } else {
                    old(self).if_register
                }),
                self@ == (HandlerView {
                    joypad_delay: delay_after(old(self)@.joypad_delay, i as nat).0,
                    ..old(self)@
                }),
            decreases cycles - i,
        {
            let hit = self.process_joypad_interrupt_delay();
            if hit {
                proof {
                    crate::bits::lemma_low_nibble(old(self).if_register);
                }
                fired = true;
            }
            i = i + 1;
        }
        fired
    }

    /// The interrupt half of a machine step. The joypad delay advances one cycle; the enable
    /// and request registers are then taken from memory (`ie`, `iflag`). When an interrupt is
    /// requested and enabled and the CPU's master enable is on, the one `interrupt_choice`
    /// picks is acknowledged and returned with its handler address, for the CPU to clear its
    /// master enable, push PC and jump there; the joypad delay then runs on through the
    /// INTERRUPT_ENTRY_CYCLES cycles of the entry, raising the joypad request if it fires.
    /// Otherwise nothing is served and the CPU runs its next instruction.
    pub fn begin_cpu_step(&mut self, ie: u8, iflag: u8, ime_enabled: bool) -> (r: Option<
        (InterruptType, u16),
    >)
        requires
            old(self).wf(),
            forall|b: int| 0 <= b < 5 ==> old(self)@.frequency[b] < u64::MAX,
        ensures
            final(self).wf(),
            final(self).ie_register == ie,
            final(self).stats == old(self).stats,
            ({
                let d1 = delay_after(old(self)@.joypad_delay, 1).0;
                if ime_enabled && ie & iflag & 0x1F != 0 {
                    &&& interrupt_choice(
                        ie,
                        iflag,
                        old(self)@.priorities,
                        old(self)@.masking_prevention,
                        old(self)@.last_processed,
                        r,
                    )
                    &&& match r {
                        Some((t, v)) => {
                            let b = interrupt_bit(t);
                            let cleared = iflag & !(1u8 << b as u8);
                            let after = delay_after(d1, INTERRUPT_ENTRY_CYCLES as nat);
                            &&& final(self).if_register == (if after.1 {
                                cleared | 0x10
                            } else {
                                cleared
                            })
                            &&& final(self)@ == (HandlerView {
                                joypad_delay: after.0,
                                last_processed: Some(t),
                                frequency: old(self)@.frequency.update(
                                    b as int,
                                    (old(self)@.frequency[b as int] + 1) as u64,
                                ),
                                ..old(self)@
                            })
                        },
                        None => {
                            &&& final(self).if_register == iflag
                            &&& final(self)@ == (HandlerView { joypad_delay: d1, ..old(self)@ })
                        },
                    }
                } else {
                    &&& r is None
                    &&& final(self).if_register == iflag
                    &&& final(self)@ == (HandlerView { joypad_delay: d1, ..old(self)@ })
                }
            }),
    {
        let _ = self.process_joypad_interrupt_delay();
        self.ie_register = ie;
        self.if_register = iflag;
        if self.has_pending_interrupts() && ime_enabled {
            match self.get_highest_priority_interrupt() {
                Some((t, v)) => {
                    self.clear_interrupt_flag(t);
                    self.acknowledge_interrupt(t);
                    proof {
                        crate::bits::lemma_u16_join(iflag, 1u8 << interrupt_bit(t) as u8);
                    }
                    let _ = self.count_down_joypad(INTERRUPT_ENTRY_CYCLES);
                    Some((t, v))
                },
                None => None,
            }
        } else {
            None
        }
    }
}

impl Default for InterruptHandler {
    /// The same as `new`.
    fn default() -> (r: InterruptHandler)
        ensures
            r.wf(),
            r.ie_register == 0 && r.if_register == 0,
            r@.priorities == default_priorities(),
            r@.configs == preset_configs(),
            r@.current is None,
            r@.masking_prevention,
    {
        InterruptHandler::new()
    }
}

/// The interrupt to serve is determined by the request and enable bits, the priorities, the
/// masking prevention setting and the last interrupt served: two choices that both meet
/// `interrupt_choice` are the same.
pub proof fn law_interrupt_choice_unique(
    ie: u8,
    ifl: u8,
    priorities: Seq<u8>,
    masking_prevention: bool,
    last_processed: Option<InterruptType>,
    r1: Option<(InterruptType, u16)>,
    r2: Option<(InterruptType, u16)>,
)
    requires
        interrupt_choice(ie, ifl, priorities, masking_prevention, last_processed, r1),
        interrupt_choice(ie, ifl, priorities, masking_prevention, last_processed, r2),
    ensures
        r1 == r2,
{
    match (r1, r2) {
        (Some((t1, v1)), Some((t2, v2))) => {
            let b1 = interrupt_bit(t1);
            let b2 = interrupt_bit(t2);
            let e1 = effective_priority(priorities, b1, masking_prevention, last_processed);
            let e2 = effective_priority(priorities, b2, masking_prevention, last_processed);
            assert(e2 >= e1);
            assert(e1 >= e2);
            if b1 < b2 {
                assert(e1 > e2);
            }
            if b2 < b1 {
                assert(e2 > e1);
            }
            assert(b1 == b2);
        },
        (Some((t1, v1)), None) => {
            let b1 = interrupt_bit(t1);
            assert(!bit_pending(ie, ifl, b1));
        },
        (None, Some((t2, v2))) => {
            let b2 = interrupt_bit(t2);
            assert(!bit_pending(ie, ifl, b2));
        },
        (None, None) => {},
    }
}

/// A game configuration once added is the one its id selects, and ids stay unique: adding
/// `c` to configurations with unique ids leaves them unique, and looking up `c`'s id finds `c`.
pub proof fn law_added_config_found(configs: Seq<ConfigView>, c: ConfigView)
    requires
        ids_unique(configs),
    ensures
        ids_unique(config_added(configs, c)),
        config_index(config_added(configs, c), c.game_id) matches Some(i) && config_added(
            configs,
            c,
        )[i] == c,
{
    let n = config_added(configs, c);
    match config_index(configs, c.game_id) {
        Some(i) => {
            assert(configs[i].game_id == c.game_id);
            assert(n == configs.update(i, c));
            assert forall|a: int, b: int|
                0 <= a < n.len() && 0 <= b < n.len() && a != b implies n[a].game_id
                    != n[b].game_id by {
                if a != i && b != i {
                    assert(configs[a].game_id != configs[b].game_id);
                } else if a == i {
                    assert(configs[b].game_id != configs[i].game_id);
                } else {
                    assert(configs[a].game_id != configs[i].game_id);
                }
            }
            assert(n[i].game_id == c.game_id);
            let j = choose|j: int| 0 <= j < n.len() && n[j].game_id == c.game_id;
            if j != i {
                assert(configs[j].game_id != configs[i].game_id);
            }
        },
        None => {
            assert(n == configs.push(c));
            let last = configs.len() as int;
            assert(n[last].game_id == c.game_id);
            assert forall|a: int, b: int|
                0 <= a < n.len() && 0 <= b < n.len() && a != b implies n[a].game_id
                    != n[b].game_id by {
                if a != last && b != last {
                    assert(configs[a].game_id != configs[b].game_id);
                } else if a == last {
                    assert(configs[b].game_id != c.game_id);
                } else {
                    assert(configs[a].game_id != c.game_id);
                }
            }
            let j = choose|j: int| 0 <= j < n.len() && n[j].game_id == c.game_id;
            if j != last {
                assert(configs[j].game_id != c.game_id);
            }
        },
    }
}

} // verus!
