use vstd::prelude::*;

verus! {

/// A volume envelope: the current volume, the period and direction from NRx2, and the timer
/// that counts envelope clocks down to the next step.
#[derive(Clone, Copy)]
pub struct Envelope {
    pub volume: u8,
    pub period: u8,
    pub up: bool,
    pub timer: u8,
}

/// A square channel (channels 1 and 2).
#[derive(Clone, Copy)]
pub struct SquareChannel {
    pub enabled: bool,
    pub frequency: u16,
    pub duty: u8,
    pub length_counter: u8,
    pub length_enabled: bool,
    pub envelope: Envelope,
    pub phase: u8,
}

/// Channel 1's frequency sweep: the NR10 fields, the sweep timer and the shadow frequency.
#[derive(Clone, Copy)]
pub struct Sweep {
    pub period: u8,
    pub negate: bool,
    pub shift: u8,
    pub timer: u8,
    pub shadow_freq: u16,
    pub enabled: bool,
}

/// The wave channel (channel 3) as a value, its wave RAM as a sequence of bytes.
pub struct WaveState {
    pub enabled: bool,
    pub frequency: u16,
    pub length_counter: u8,
    pub length_enabled: bool,
    pub output_level: u8,
    pub wave_ram: Seq<u8>,
    pub wave_position: usize,
    pub phase: u16,
}

/// The wave channel (channel 3): 32 four-bit samples in 16 bytes of wave RAM.
pub struct WaveChannel {
    pub enabled: bool,
    pub frequency: u16,
    pub length_counter: u8,
    pub length_enabled: bool,
    pub output_level: u8,
    pub wave_ram: Vec<u8>,
    pub wave_position: usize,
    pub phase: u16,
}

impl View for WaveChannel {
    type V = WaveState;

    open spec fn view(&self) -> WaveState {
        WaveState {
            enabled: self.enabled,
            frequency: self.frequency,
            length_counter: self.length_counter,
            length_enabled: self.length_enabled,
            output_level: self.output_level,
            wave_ram: self.wave_ram@,
            wave_position: self.wave_position,
            phase: self.phase,
        }
    }
}

/// The noise channel (channel 4): a linear-feedback shift register clocked at a rate set by
/// NR43.
#[derive(Clone, Copy)]
pub struct NoiseChannel {
    pub enabled: bool,
    pub length_counter: u8,
    pub length_enabled: bool,
    pub envelope: Envelope,
    pub clock_shift: u8,
    pub lfsr_width: bool,
    pub clock_divider: u8,
    pub lfsr: u16,
    pub phase: u16,
}

/// The master switch, the two output volumes (NR50) and the channel routing (NR51).
#[derive(Clone, Copy)]
pub struct Mixer {
    pub master_enabled: bool,
    pub left_volume: u8,
    pub right_volume: u8,
    pub ch1_left: bool,
    pub ch1_right: bool,
    pub ch2_left: bool,
    pub ch2_right: bool,
    pub ch3_left: bool,
    pub ch3_right: bool,
    pub ch4_left: bool,
    pub ch4_right: bool,
}

/// The state of the sound unit: frame sequencer, the four channels, the sweep and the mixer.
pub struct ApuState {
    pub frame_sequencer_timer: u16,
    pub frame_sequencer_step: u8,
    pub ch1: SquareChannel,
    pub sweep: Sweep,
    pub ch2: SquareChannel,
    pub ch3: WaveState,
    pub ch4: NoiseChannel,
    pub mixer: Mixer,
}

/// The sound unit: two square channels (the first with frequency sweep), a wave channel,
/// a noise channel, the 512 Hz frame sequencer and the stereo mixer registers.
pub struct OldApu {
    frame_sequencer_timer: u16,
    frame_sequencer_step: u8,
    ch1: SquareChannel,
    sweep: Sweep,
    ch2: SquareChannel,
    ch3: WaveChannel,
    ch4: NoiseChannel,
    mixer: Mixer,
}

impl View for OldApu {
    type V = ApuState;

    closed spec fn view(&self) -> ApuState {
        ApuState {
            frame_sequencer_timer: self.frame_sequencer_timer,
            frame_sequencer_step: self.frame_sequencer_step,
            ch1: self.ch1,
            sweep: self.sweep,
            ch2: self.ch2,
            ch3: self.ch3@,
            ch4: self.ch4,
            mixer: self.mixer,
        }
    }
}

/// The timer periods (in t-cycles) of the four channels' phase counters, as the host computes
/// them from the channel frequencies.
#[derive(Clone, Copy)]
pub struct PhasePeriods {
    pub ch1: u32,
    pub ch2: u32,
    pub ch3: u32,
    pub ch4: u32,
}

/// The invariant of the sound unit: 16 bytes of wave RAM, a wave position inside it, a sweep
/// shift of at most 7 and a frame-sequencer step below 8.
pub open spec fn apu_wf(s: ApuState) -> bool {
    &&& s.ch3.wave_ram.len() == 16
    &&& s.ch3.wave_position < 32
    &&& s.sweep.shift <= 7
    &&& s.frame_sequencer_step < 8
}

/// A silent envelope.
pub open spec fn envelope_initial() -> Envelope {
    Envelope { volume: 0, period: 0, up: false, timer: 0 }
}

/// A square channel at power-on: off, frequency 0, duty 50%.
pub open spec fn square_initial() -> SquareChannel {
    SquareChannel {
        enabled: false,
        frequency: 0,
        duty: 2,
        length_counter: 0,
        length_enabled: false,
        envelope: envelope_initial(),
        phase: 0,
    }
}

/// The power-on state of the sound unit: all channels off, both volumes 7, every channel
/// routed to both sides, the noise register at 0x7FFF.
pub open spec fn apu_initial() -> ApuState {
    ApuState {
        frame_sequencer_timer: 8192,
        frame_sequencer_step: 0,
        ch1: square_initial(),
        sweep: Sweep { period: 0, negate: false, shift: 0, timer: 0, shadow_freq: 0, enabled: false },
        ch2: square_initial(),
        ch3: WaveState {
            enabled: false,
            frequency: 0,
            length_counter: 0,
            length_enabled: false,
            output_level: 0,
            wave_ram: Seq::new(16, |i: int| 0u8),
            wave_position: 0,
            phase: 0,
        },
        ch4: NoiseChannel {
            enabled: false,
            length_counter: 0,
            length_enabled: false,
            envelope: envelope_initial(),
            clock_shift: 0,
            lfsr_width: false,
            clock_divider: 0,
            lfsr: 0x7FFF,
            phase: 0,
        },
        mixer: Mixer {
            master_enabled: false,
            left_volume: 7,
            right_volume: 7,
            ch1_left: true,
            ch1_right: true,
            ch2_left: true,
            ch2_right: true,
            ch3_left: true,
            ch3_right: true,
            ch4_left: true,
            ch4_right: true,
        },
    }
}

/// One length-counter clock of a channel: (counter, enabled) afterwards. An enabled counter
/// above zero counts down, and the channel turns off when it reaches zero.
pub open spec fn length_tick(len_enabled: bool, counter: u8, enabled: bool) -> (u8, bool) {
    if len_enabled && counter > 0 {
        ((counter - 1) as u8, if counter - 1 == 0 {
            false
        } else {
            enabled
        })
    } else {
        (counter, enabled)
    }
}

/// A square channel after one length clock.
pub open spec fn square_length_clocked(c: SquareChannel) -> SquareChannel {
    let t = length_tick(c.length_enabled, c.length_counter, c.enabled);
    SquareChannel { length_counter: t.0, enabled: t.1, ..c }
}

/// The wave channel after one length clock.
pub open spec fn wave_length_clocked(c: WaveState) -> WaveState {
    let t = length_tick(c.length_enabled, c.length_counter, c.enabled);
    WaveState { length_counter: t.0, enabled: t.1, ..c }
}

/// The noise channel after one length clock.
pub open spec fn noise_length_clocked(c: NoiseChannel) -> NoiseChannel {
    let t = length_tick(c.length_enabled, c.length_counter, c.enabled);
    NoiseChannel { length_counter: t.0, enabled: t.1, ..c }
}

/// The sound unit after its four length counters are clocked.
pub open spec fn length_clocked(s: ApuState) -> ApuState {
    ApuState {
        ch1: square_length_clocked(s.ch1),
        ch2: square_length_clocked(s.ch2),
        ch3: wave_length_clocked(s.ch3),
        ch4: noise_length_clocked(s.ch4),
        ..s
    }
}

/// One sweep step from frequency `f`: `f` plus or minus `f >> shift`, modulo 2^16.
pub open spec fn sweep_next(f: u16, shift: u8, negate: bool) -> u16 {
    let delta = f >> shift;
    if negate {
        ((f - delta + 0x10000) % 0x10000) as u16
    } else {
        ((f + delta) % 0x10000) as u16
    }
}

/// A sweep step on an 11-bit frequency `f` moves it by `f / 2^shift`: up when the sweep
/// increases (NR10 bit 3 clear), down when it decreases (bit 3 set).
pub proof fn law_sweep_direction(f: u16, shift: u8)
    requires
        f <= 2047,
        shift <= 7,
    ensures
        sweep_next(f, shift, false) as int == f as int + f as int / vstd::arithmetic::power2::pow2(
            shift as nat,
        ) as int,
        sweep_next(f, shift, true) as int == f as int - f as int / vstd::arithmetic::power2::pow2(
            shift as nat,
        ) as int,
        sweep_next(f, shift, false) >= f,
        sweep_next(f, shift, true) <= f,
{
    vstd::bits::lemma_u16_shr_is_div(f, shift as u16);
    vstd::arithmetic::power2::lemma2_to64();
    let d = vstd::arithmetic::power2::pow2(shift as nat);
    assert(d >= 1);
    assert(f as nat / d <= f) by {
        vstd::arithmetic::div_mod::lemma_div_is_ordered_by_denominator(f as int, 1, d as int);
    }
    assert((f >> shift) == (f >> (shift as u16)));
}

/// Channel 1 and its sweep after one sweep clock. When the sweep timer runs out on an enabled
/// sweep it reloads (a period of 0 counts as 8); with a nonzero period the next frequency is
/// computed, an overflow past 2047 turns the channel off, and with a nonzero shift the new
/// frequency is taken and checked for overflow once more.
pub open spec fn sweep_tick(c: SquareChannel, w: Sweep) -> (SquareChannel, Sweep) {
    let t = if w.timer > 0 {
        (w.timer - 1) as u8
    } else {
        0u8
    };
    if t == 0 && w.enabled {
        let w1 = Sweep {
            timer: if w.period == 0 {
                8
            } else {
                w.period
            },
            ..w
        };
        if w.period > 0 {
            let nf = sweep_next(w.shadow_freq, w.shift, w.negate);
            if nf > 2047 {
                (SquareChannel { enabled: false, ..c }, w1)
            } else if w.shift > 0 {
                let c2 = SquareChannel { frequency: nf, ..c };
                let w2 = Sweep { shadow_freq: nf, ..w1 };
                if sweep_next(nf, w.shift, w.negate) > 2047 {
                    (SquareChannel { enabled: false, ..c2 }, w2)
                } else {
                    (c2, w2)
                }
            } else {
                (c, w1)
            }
        } else {
            (c, w1)
        }
    } else {
        (c, Sweep { timer: t, ..w })
    }
}

/// The sound unit after channel 1's frequency sweep is clocked.
pub open spec fn sweep_clocked(s: ApuState) -> ApuState {
    let r = sweep_tick(s.ch1, s.sweep);
    ApuState { ch1: r.0, sweep: r.1, ..s }
}

/// An envelope after one envelope clock: with a nonzero period the timer counts down, and when
/// it runs out it reloads and the volume steps up (below 15) or down (above 0).
pub open spec fn envelope_tick(e: Envelope) -> Envelope {
    if e.period > 0 {
        let t = if e.timer > 0 {
            (e.timer - 1) as u8
        } else {
            0u8
        };
        if t == 0 {
            Envelope {
                timer: e.period,
                volume: if e.up && e.volume < 15 {
                    (e.volume + 1) as u8
                } else if !e.up && e.volume > 0 {
                    (e.volume - 1) as u8
                } else {
                    e.volume
                },
                ..e
            }
        } else {
            Envelope { timer: t, ..e }
        }
    } else {
        e
    }
}

/// An envelope clock with a nonzero period counts its timer down; when the timer runs out
/// (it was 0 or 1) the timer reloads with the period and the volume moves one step in the
/// envelope's direction, staying within 0..=15; otherwise the volume stays.
pub proof fn law_envelope_clock_step(e: Envelope)
    requires
        e.period > 0,
    ensures
        e.timer <= 1 ==> envelope_tick(e).timer == e.period,
        e.timer <= 1 && e.up && e.volume < 15 ==> envelope_tick(e).volume as int == e.volume
            as int + 1,
        e.timer <= 1 && !e.up && e.volume > 0 ==> envelope_tick(e).volume as int == e.volume
            as int - 1,
        e.timer <= 1 && e.up && e.volume >= 15 ==> envelope_tick(e).volume == e.volume,
        e.timer <= 1 && !e.up && e.volume == 0 ==> envelope_tick(e).volume == 0,
        e.timer > 1 ==> envelope_tick(e).volume == e.volume && envelope_tick(e).timer as int
            == e.timer as int - 1,
        envelope_tick(e).period == e.period && envelope_tick(e).up == e.up,
{
}

/// The sound unit after the volume envelopes of channels 1, 2 and 4 are clocked.
pub open spec fn envelopes_clocked(s: ApuState) -> ApuState {
    ApuState {
        ch1: SquareChannel { envelope: envelope_tick(s.ch1.envelope), ..s.ch1 },
        ch2: SquareChannel { envelope: envelope_tick(s.ch2.envelope), ..s.ch2 },
        ch4: NoiseChannel { envelope: envelope_tick(s.ch4.envelope), ..s.ch4 },
        ..s
    }
}

/// One shift of the noise channel's linear-feedback shift register: the register moves right
/// by one, the xor of its two lowest bits (bits 0 and 6 in 7-bit mode) enters at bit 14, and
/// in 7-bit mode bit 6 is cleared.
pub open spec fn lfsr_next(l: u16, width7: bool) -> u16 {
    let bit = l & 1;
    let fb = if width7 {
        (bit ^ ((l >> 6u16) & 1)) != 0
    } else {
        (bit ^ ((l >> 1u16) & 1)) != 0
    };
    let a = l >> 1u16;
    let b = if fb {
        a | 0x4000
    } else {
        a
    };
    if width7 {
        b & !0x40u16
    } else {
        b
    }
}

/// A square channel's phase after `cycles` t-cycles with period `p` (no change at a frequency
/// of 2048 or more).
pub open spec fn square_advanced(c: SquareChannel, cycles: u16, p: u32) -> SquareChannel {
    if c.frequency < 2048 {
        SquareChannel { phase: ((c.phase + cycles) % (p as int)) as u8, ..c }
    } else {
        c
    }
}

/// The wave channel's phase and sample position after `cycles` t-cycles with period `p`.
pub open spec fn wave_advanced(c: WaveState, cycles: u16, p: u32) -> WaveState {
    if c.frequency < 2048 {
        let ph = ((c.phase + cycles) % (p as int)) as u16;
        WaveState {
            phase: ph,
            wave_position: ((ph as int / (p as int / 32)) % 32) as usize,
            ..c
        }
    } else {
        c
    }
}

/// The noise channel after `cycles` t-cycles with period `p`: the phase advances, and when it
/// wraps (ends below `cycles`) the shift register shifts once.
pub open spec fn noise_advanced(c: NoiseChannel, cycles: u16, p: u32) -> NoiseChannel {
    let ph = ((c.phase + cycles) % (p as int)) as u16;
    if ph < cycles {
        NoiseChannel { phase: ph, lfsr: lfsr_next(c.lfsr, c.lfsr_width), ..c }
    } else {
        NoiseChannel { phase: ph, ..c }
    }
}

/// The phase counters after `cycles` t-cycles with the given periods.
pub open spec fn phases_advanced(s: ApuState, cycles: u16, p: PhasePeriods) -> ApuState {
    ApuState {
        ch1: square_advanced(s.ch1, cycles, p.ch1),
        ch2: square_advanced(s.ch2, cycles, p.ch2),
        ch3: wave_advanced(s.ch3, cycles, p.ch3),
        ch4: noise_advanced(s.ch4, cycles, p.ch4),
        ..s
    }
}

/// Whether the periods are usable for the channels that advance: nonzero, and for the wave
/// channel at least one t-cycle per sample.
pub open spec fn periods_ok(s: ApuState, p: PhasePeriods) -> bool {
    &&& s.ch1.frequency < 2048 ==> p.ch1 > 0
    &&& s.ch2.frequency < 2048 ==> p.ch2 > 0
    &&& s.ch3.frequency < 2048 ==> p.ch3 >= 32
    &&& p.ch4 > 0
}

/// The sound unit after `cycles` t-cycles: the phases advance, and each time the 8192-cycle
/// frame-sequencer timer runs out its step advances and clocks the length counters (steps
/// 0, 2, 4, 6), the sweep (steps 2, 6) or the envelopes (step 7).
pub open spec fn stepped(s: ApuState, cycles: u16, p: PhasePeriods) -> ApuState {
    let s1 = phases_advanced(s, cycles, p);
    let t = if s1.frame_sequencer_timer > cycles {
        (s1.frame_sequencer_timer - cycles) as u16
    } else {
        0u16
    };
    if t == 0 {
        let k = ((s1.frame_sequencer_step + 1) % 8) as u8;
        let s2 = ApuState { frame_sequencer_timer: 8192, frame_sequencer_step: k, ..s1 };
        if k == 0 || k == 4 {
            length_clocked(s2)
        } else if k == 2 || k == 6 {
            sweep_clocked(length_clocked(s2))
        } else if k == 7 {
            envelopes_clocked(s2)
        } else {
            s2
        }
    } else {
        ApuState { frame_sequencer_timer: t, ..s1 }
    }
}

/// The square-wave duty pattern for duty setting `d` (12.5%, 25%, 50%, 75%).
pub open spec fn duty_pattern(d: u8) -> u8 {
    let k = d % 4;
    if k == 0 {
        0x01
    } else if k == 1 {
        0x03
    } else if k == 2 {
        0x0F
    } else {
        0x3F
    }
}

/// The output of a square channel at phase 0..=7: its envelope volume where the duty pattern
/// has a 1 bit (read from bit 7 down), else 0.
pub open spec fn square_sample(c: SquareChannel) -> i8 {
    if (duty_pattern(c.duty) >> ((7 - c.phase) as u8)) & 1 != 0 {
        c.envelope.volume as i8
    } else {
        0
    }
}

/// The output of the wave channel: the 4-bit sample at the wave position (high nibble first),
/// at full, half or quarter level, or muted.
pub open spec fn wave_sample(c: WaveState) -> i8 {
    let byte = c.wave_ram[(c.wave_position / 2) as int];
    let sample = if c.wave_position % 2 == 0 {
        (byte >> 4u8) & 0xF
    } else {
        byte & 0xF
    };
    if c.output_level == 1 {
        sample as i8
    } else if c.output_level == 2 {
        (sample >> 1u8) as i8
    } else if c.output_level == 3 {
        (sample >> 2u8) as i8
    } else {
        0
    }
}

/// The output of the noise channel: its envelope volume when bit 0 of the shift register is
/// set, else 0.
pub open spec fn noise_sample(c: NoiseChannel) -> i8 {
    if c.lfsr & 1 != 0 {
        c.envelope.volume as i8
    } else {
        0
    }
}

/// The outputs of the four channels (0 for a disabled channel).
pub open spec fn channel_outputs(s: ApuState) -> (int, int, int, int) {
    (
        if s.ch1.enabled {
            square_sample(s.ch1) as int
        } else {
            0
        },
        if s.ch2.enabled {
            square_sample(s.ch2) as int
        } else {
            0
        },
        if s.ch3.enabled {
            wave_sample(s.ch3) as int
        } else {
            0
        },
        if s.ch4.enabled {
            noise_sample(s.ch4) as int
        } else {
            0
        },
    )
}

/// The sum of the channel outputs routed to one side.
pub open spec fn side_sum(o: (int, int, int, int), e1: bool, e2: bool, e3: bool, e4: bool) -> int {
    (if e1 {
        o.0
    } else {
        0
    }) + (if e2 {
        o.1
    } else {
        0
    }) + (if e3 {
        o.2
    } else {
        0
    }) + (if e4 {
        o.3
    } else {
        0
    })
}

/// What the mixer hands on while the sound unit is on: (left sum, right sum, left volume,
/// right volume).
pub open spec fn mix_of(s: ApuState) -> (int, int, int, int) {
    let o = channel_outputs(s);
    let m = s.mixer;
    (
        side_sum(o, m.ch1_left, m.ch2_left, m.ch3_left, m.ch4_left),
        side_sum(o, m.ch1_right, m.ch2_right, m.ch3_right, m.ch4_right),
        m.left_volume as int,
        m.right_volume as int,
    )
}

/// Whether the enabled square channels sit at a phase inside their 8-step duty pattern.
pub open spec fn phases_in_pattern(s: ApuState) -> bool {
    &&& s.ch1.enabled ==> s.ch1.phase <= 7
    &&& s.ch2.enabled ==> s.ch2.phase <= 7
}

/// NR10 as read back: sweep period in bits 0-2, negate in bit 3, shift in bits 4-6.
pub open spec fn sweep_reg(w: Sweep) -> u8 {
    (w.period & 0x7) | (if w.negate {
        0x08u8
    } else {
        0u8
    }) | ((w.shift & 0x7) << 4u8)
}

/// The sweep after a write of `v` to NR10.
pub open spec fn sweep_written(w: Sweep, v: u8) -> Sweep {
    Sweep { period: v & 0x7, negate: v & 0x08 != 0, shift: (v >> 4u8) & 0x7, ..w }
}

/// NRx2 as read back: envelope period in bits 0-2, direction in bit 3, volume in bits 4-7.
pub open spec fn envelope_reg(e: Envelope) -> u8 {
    (e.period & 0x7) | (if e.up {
        0x08u8
    } else {
        0u8
    }) | ((e.volume & 0xF) << 4u8)
}

/// An envelope after a write of `v` to NRx2 (its timer is kept).
pub open spec fn envelope_written(e: Envelope, v: u8) -> Envelope {
    Envelope { period: v & 0x7, up: v & 0x08 != 0, volume: (v >> 4u8) & 0xF, ..e }
}

/// NR11/NR21 as read back: the duty in bits 6-7, the other bits set.
pub open spec fn duty_reg(duty: u8) -> u8 {
    (duty << 6u8) | 0x3F
}

/// A square channel after a write of `v` to NR11/NR21: the duty and the length counter
/// (64 minus the low six bits).
pub open spec fn square_length_written(c: SquareChannel, v: u8) -> SquareChannel {
    SquareChannel { duty: (v >> 6u8) & 0x3, length_counter: (64 - (v & 0x3F)) as u8, ..c }
}

/// The frequency after a write of `v` to its low byte (NRx3).
pub open spec fn freq_low_written(f: u16, v: u8) -> u16 {
    (f & 0xFF00) | (v as u16)
}

/// The frequency after a write of `v` to NRx4: bits 0-2 of `v` become bits 8-10.
pub open spec fn freq_high_written(f: u16, v: u8) -> u16 {
    (f & 0x00FF) | (((v & 0x7) as u16) << 8u16)
}

/// NRx4 as read back: the length-enable bit 6, the other bits set.
pub open spec fn control_reg(length_enabled: bool) -> u8 {
    (if length_enabled {
        0x40u8
    } else {
        0u8
    }) | 0xBF
}

/// A square channel after a trigger: on, a zero length counter reloaded to 64, the envelope
/// timer restarted (a period of 0 counts as 8) and the volume reloaded from NRx2.
pub open spec fn square_triggered(c: SquareChannel) -> SquareChannel {
    SquareChannel {
        enabled: true,
        length_counter: if c.length_counter == 0 {
            64
        } else {
            c.length_counter
        },
        envelope: Envelope {
            timer: if c.envelope.period == 0 {
                8
            } else {
                c.envelope.period
            },
            volume: c.envelope.volume & 0xF,
            ..c.envelope
        },
        ..c
    }
}

/// The sound unit after channel 1 is triggered: the channel restarts, the sweep takes the
/// frequency as its shadow, reloads its timer and is enabled by a nonzero period or shift;
/// with a nonzero shift the sweep is clocked at once.
pub open spec fn ch1_triggered(s: ApuState) -> ApuState {
    let c = square_triggered(s.ch1);
    let w = Sweep {
        shadow_freq: s.ch1.frequency,
        timer: if s.sweep.period == 0 {
            8
        } else {
            s.sweep.period
        },
        enabled: s.sweep.period > 0 || s.sweep.shift > 0,
        ..s.sweep
    };
    if s.sweep.shift > 0 {
        let r = sweep_tick(c, w);
        ApuState { ch1: r.0, sweep: r.1, ..s }
    } else {
        ApuState { ch1: c, sweep: w, ..s }
    }
}

/// The wave channel after a trigger: on, a zero length counter reloaded to 255, the sample
/// position back at 0.
pub open spec fn wave_triggered(c: WaveState) -> WaveState {
    WaveState {
        enabled: true,
        length_counter: if c.length_counter == 0 {
            255
        } else {
            c.length_counter
        },
        wave_position: 0,
        ..c
    }
}

/// The noise channel after a trigger: on, a zero length counter reloaded to 64, the envelope
/// restarted and the shift register reset to 0x7FFF.
pub open spec fn noise_triggered(c: NoiseChannel) -> NoiseChannel {
    NoiseChannel {
        enabled: true,
        length_counter: if c.length_counter == 0 {
            64
        } else {
            c.length_counter
        },
        envelope: Envelope {
            timer: if c.envelope.period == 0 {
                8
            } else {
                c.envelope.period
            },
            volume: c.envelope.volume & 0xF,
            ..c.envelope
        },
        lfsr: 0x7FFF,
        ..c
    }
}

/// NR43 as read back: clock shift in bits 0-3, width in bit 3, divider in bits 4-6.
pub open spec fn noise_reg(c: NoiseChannel) -> u8 {
    (c.clock_shift & 0xF) | (if c.lfsr_width {
        0x08u8
    } else {
        0u8
    }) | ((c.clock_divider & 0x7) << 4u8)
}

/// The noise channel after a write of `v` to NR43.
pub open spec fn noise_written(c: NoiseChannel, v: u8) -> NoiseChannel {
    NoiseChannel {
        clock_shift: v & 0xF,
        lfsr_width: v & 0x08 != 0,
        clock_divider: (v >> 4u8) & 0x7,
        ..c
    }
}

/// NR50 as read back: left volume in bits 0-2, right volume in bits 4-6.
pub open spec fn volume_reg(m: Mixer) -> u8 {
    (m.left_volume & 0x7) | ((m.right_volume & 0x7) << 4u8)
}

/// The mixer after a write of `v` to NR50.
pub open spec fn volume_written(m: Mixer, v: u8) -> Mixer {
    Mixer { left_volume: v & 0x7, right_volume: (v >> 4u8) & 0x7, ..m }
}

/// A routing flag as its bit in NR51.
pub open spec fn route_bit(on: bool, bit: u8) -> u8 {
    if on {
        bit
    } else {
        0u8
    }
}

/// NR51 as read back: left enables of channels 4..1 in bits 7..4, right enables in bits 3..0.
pub open spec fn routing_reg(m: Mixer) -> u8 {
    route_bit(m.ch4_left, 0x80) | route_bit(m.ch3_left, 0x40) | route_bit(m.ch2_left, 0x20)
        | route_bit(m.ch1_left, 0x10) | route_bit(m.ch4_right, 0x08) | route_bit(m.ch3_right, 0x04)
        | route_bit(m.ch2_right, 0x02) | route_bit(m.ch1_right, 0x01)
}

/// The mixer after a write of `v` to NR51.
pub open spec fn routing_written(m: Mixer, v: u8) -> Mixer {
    Mixer {
        ch4_left: v & 0x80 != 0,
        ch3_left: v & 0x40 != 0,
        ch2_left: v & 0x20 != 0,
        ch1_left: v & 0x10 != 0,
        ch4_right: v & 0x08 != 0,
        ch3_right: v & 0x04 != 0,
        ch2_right: v & 0x02 != 0,
        ch1_right: v & 0x01 != 0,
        ..m
    }
}

/// The sound unit after a write of `v` to NR52: with bit 7 clear it powers off (every channel
/// off, volumes and routing cleared); with bit 7 set on a powered-off unit it powers on and the
/// frame sequencer restarts at step 0; otherwise nothing changes.
pub open spec fn power_written(s: ApuState, v: u8) -> ApuState {
    if v & 0x80 == 0 {
        ApuState {
            ch1: SquareChannel { enabled: false, ..s.ch1 },
            ch2: SquareChannel { enabled: false, ..s.ch2 },
            ch3: WaveState { enabled: false, ..s.ch3 },
            ch4: NoiseChannel { enabled: false, ..s.ch4 },
            mixer: Mixer {
                master_enabled: false,
                left_volume: 0,
                right_volume: 0,
                ch1_left: false,
                ch1_right: false,
                ch2_left: false,
                ch2_right: false,
                ch3_left: false,
                ch3_right: false,
                ch4_left: false,
                ch4_right: false,
            },
            ..s
        }
    } else if !s.mixer.master_enabled {
        ApuState {
            mixer: Mixer { master_enabled: true, ..s.mixer },
            frame_sequencer_step: 0,
            ..s
        }
    } else {
        s
    }
}

/// Wave RAM as read at `addr` (0xFF30 or above): the byte at `addr - 0xFF30` inside the 16
/// bytes, 0 past them.
pub open spec fn wave_ram_read(s: ApuState, addr: u16) -> u8 {
    if addr - 0xFF30 < 16 {
        s.ch3.wave_ram[addr - 0xFF30]
    } else {
        0u8
    }
}

/// The sound unit after `v` is written to wave RAM at `addr` (0xFF30 or above); past the 16
/// bytes nothing changes.
pub open spec fn wave_ram_written(s: ApuState, addr: u16, v: u8) -> ApuState {
    if addr - 0xFF30 < 16 {
        ApuState {
            ch3: WaveState { wave_ram: s.ch3.wave_ram.update(addr - 0xFF30, v), ..s.ch3 },
            ..s
        }
    } else {
        s
    }
}

/// The value the CPU reads from sound register `addr` (0xFF10..=0xFF3F); unmapped addresses
/// read 0xFF.
pub open spec fn register_read(s: ApuState, addr: u16) -> u8 {
    if addr == 0xFF10 {
        sweep_reg(s.sweep)
    } else if addr == 0xFF11 {
        duty_reg(s.ch1.duty)
    } else if addr == 0xFF12 {
        envelope_reg(s.ch1.envelope)
    } else if addr == 0xFF13 {
        s.ch1.frequency as u8
    } else if addr == 0xFF14 {
        control_reg(s.ch1.length_enabled)
    } else if addr == 0xFF16 {
        duty_reg(s.ch2.duty)
    } else if addr == 0xFF17 {
        envelope_reg(s.ch2.envelope)
    } else if addr == 0xFF18 {
        s.ch2.frequency as u8
    } else if addr == 0xFF19 {
        control_reg(s.ch2.length_enabled)
    } else if addr == 0xFF1A {
        (if s.ch3.enabled {
            0x80u8
        } else {
            0u8
        }) | 0x7F
    } else if addr == 0xFF1C {
        (s.ch3.output_level << 5u8) | 0x9F
    } else if addr == 0xFF1D {
        s.ch3.frequency as u8
    } else if addr == 0xFF1E {
        control_reg(s.ch3.length_enabled)
    } else if addr == 0xFF21 {
        envelope_reg(s.ch4.envelope)
    } else if addr == 0xFF22 {
        noise_reg(s.ch4)
    } else if addr == 0xFF23 {
        control_reg(s.ch4.length_enabled)
    } else if addr == 0xFF24 {
        volume_reg(s.mixer)
    } else if addr == 0xFF25 {
        routing_reg(s.mixer)
    } else if addr == 0xFF26 {
        0x70u8 | if s.mixer.master_enabled {
            0x80u8
        } else {
            0u8
        }
    } else if 0xFF30 <= addr <= 0xFF3F {
        wave_ram_read(s, addr)
    } else {
        0xFF
    }
}

/// Channel 1 after a write of `v` to NR14 (before a trigger).
pub open spec fn nr14_applied(s: ApuState, v: u8) -> ApuState {
    ApuState {
        ch1: SquareChannel {
            length_enabled: v & 0x40 != 0,
            frequency: freq_high_written(s.ch1.frequency, v),
            ..s.ch1
        },
        ..s
    }
}

/// The sound unit after the CPU writes `v` to sound register `addr`; writes to unmapped
/// addresses change nothing.
pub open spec fn register_written(s: ApuState, addr: u16, v: u8) -> ApuState {
    if addr == 0xFF10 {
        ApuState { sweep: sweep_written(s.sweep, v), ..s }
    } else if addr == 0xFF11 {
        ApuState { ch1: square_length_written(s.ch1, v), ..s }
    } else if addr == 0xFF12 {
        ApuState { ch1: SquareChannel { envelope: envelope_written(s.ch1.envelope, v), ..s.ch1 }, ..s }
    } else if addr == 0xFF13 {
        ApuState { ch1: SquareChannel { frequency: freq_low_written(s.ch1.frequency, v), ..s.ch1 }, ..s }
    } else if addr == 0xFF14 {
        if v & 0x80 != 0 {
            ch1_triggered(nr14_applied(s, v))
        } else {
            nr14_applied(s, v)
        }
    } else if addr == 0xFF16 {
        ApuState { ch2: square_length_written(s.ch2, v), ..s }
    } else if addr == 0xFF17 {
        ApuState { ch2: SquareChannel { envelope: envelope_written(s.ch2.envelope, v), ..s.ch2 }, ..s }
    } else if addr == 0xFF18 {
        ApuState { ch2: SquareChannel { frequency: freq_low_written(s.ch2.frequency, v), ..s.ch2 }, ..s }
    } else if addr == 0xFF19 {
        let c1 = SquareChannel {
            length_enabled: v & 0x40 != 0,
            frequency: freq_high_written(s.ch2.frequency, v),
            ..s.ch2
        };
        ApuState {
            ch2: if v & 0x80 != 0 {
                square_triggered(c1)
            } else {
                c1
            },
            ..s
        }
    } else if addr == 0xFF1A {
        ApuState { ch3: WaveState { enabled: v & 0x80 != 0, ..s.ch3 }, ..s }
    } else if addr == 0xFF1B {
        ApuState { ch3: WaveState { length_counter: ((256 - v) % 256) as u8, ..s.ch3 }, ..s }
    } else if addr == 0xFF1C {
        ApuState { ch3: WaveState { output_level: (v >> 5u8) & 0x3, ..s.ch3 }, ..s }
    } else if addr == 0xFF1D {
        ApuState { ch3: WaveState { frequency: freq_low_written(s.ch3.frequency, v), ..s.ch3 }, ..s }
    } else if addr == 0xFF1E {
        let c1 = WaveState {
            length_enabled: v & 0x40 != 0,
            frequency: freq_high_written(s.ch3.frequency, v),
            ..s.ch3
        };
        ApuState {
            ch3: if v & 0x80 != 0 {
                wave_triggered(c1)
            } else {
                c1
            },
            ..s
        }
    } else if addr == 0xFF20 {
        ApuState { ch4: NoiseChannel { length_counter: (64 - (v & 0x3F)) as u8, ..s.ch4 }, ..s }
    } else if addr == 0xFF21 {
        ApuState { ch4: NoiseChannel { envelope: envelope_written(s.ch4.envelope, v), ..s.ch4 }, ..s }
    } else if addr == 0xFF22 {
        ApuState { ch4: noise_written(s.ch4, v), ..s }
    } else if addr == 0xFF23 {
        let c1 = NoiseChannel { length_enabled: v & 0x40 != 0, ..s.ch4 };
        ApuState {
            ch4: if v & 0x80 != 0 {
                noise_triggered(c1)
            } else {
                c1
            },
            ..s
        }
    } else if addr == 0xFF24 {
        ApuState { mixer: volume_written(s.mixer, v), ..s }
    } else if addr == 0xFF25 {
        ApuState { mixer: routing_written(s.mixer, v), ..s }
    } else if addr == 0xFF26 {
        power_written(s, v)
    } else if 0xFF30 <= addr <= 0xFF3F {
        wave_ram_written(s, addr, v)
    } else {
        s
    }
}

/// Bit facts about the register fields: field widths, and each register read back after a
/// write.
proof fn lemma_register_bits(v: u8, p: u8, vol: u8, up: bool, f: u16)
    by (bit_vector)
    ensures
        v & 0x3F <= 63,
        (v >> 4u8) & 0x7 <= 7,
        (v >> 5u8) & 0x3 <= 3,
        (v >> 6u8) & 0x3 <= 3,
        v & 0x7 <= 7,
        ((((p & 0x7) | (if up { 0x08u8 } else { 0u8 }) | ((vol & 0xF) << 4u8)) >> 4u8) & 0xF)
            == vol & 0xF,
        ((v & 0x7) & 0x7) | (if v & 0x08 != 0 { 0x08u8 } else { 0u8 }) | ((((v >> 4u8) & 0xF)
            & 0xF) << 4u8) == v,
        ((v & 0x7) & 0x7) | (if v & 0x08 != 0 { 0x08u8 } else { 0u8 }) | ((((v >> 4u8) & 0x7)
            & 0x7) << 4u8) == v & 0x7F,
        ((v & 0xF) & 0xF) | (if v & 0x08 != 0 { 0x08u8 } else { 0u8 }) | ((((v >> 4u8) & 0x7)
            & 0x7) << 4u8) == v & 0x7F,
        ((v & 0x7) & 0x7) | ((((v >> 4u8) & 0x7) & 0x7) << 4u8) == v & 0x77,
        (if v & 0x80 != 0 { 0x80u8 } else { 0u8 }) | (if v & 0x40 != 0 { 0x40u8 } else { 0u8 })
            | (if v & 0x20 != 0 { 0x20u8 } else { 0u8 }) | (if v & 0x10 != 0 { 0x10u8 } else {
            0u8
        }) | (if v & 0x08 != 0 { 0x08u8 } else { 0u8 }) | (if v & 0x04 != 0 { 0x04u8 } else {
            0u8
        }) | (if v & 0x02 != 0 { 0x02u8 } else { 0u8 }) | (if v & 0x01 != 0 { 0x01u8 } else {
            0u8
        }) == v,
        (((v >> 6u8) & 0x3) << 6u8) | 0x3F == v | 0x3F,
        (((v >> 5u8) & 0x3) << 5u8) | 0x9F == v | 0x9F,
        ((f & 0xFF00) | (v as u16)) as u8 == v,
        ((f & 0x00FF) | (((v & 0x7) as u16) << 8u16)) as u8 == f as u8,
        (f & 0x00FF) | (((v & 0x7) as u16) << 8u16) < 2048,
        (256u16 - (v as u16)) as u8 == ((256 - v) % 256) as u8,
        (if v & 0x80 != 0 { 0x80u8 } else { 0u8 }) == v & 0x80,
        ((((f & 0xFF00) | (v as u16)) & 0x00FF) | (((p & 0x7) as u16) << 8u16)) as int == v as int
            + 256 * ((p & 0x7) as int),
{
}

/// `k` length clocks of a channel with its length counter enabled: (counter, enabled).
pub open spec fn length_ticks(k: nat, counter: u8, enabled: bool) -> (u8, bool)
    decreases k,
{
    if k == 0 {
        (counter, enabled)
    } else {
        let t = length_tick(true, counter, enabled);
        length_ticks((k - 1) as nat, t.0, t.1)
    }
}

/// A channel whose length counter is enabled and holds `n > 0` is off after exactly `n`
/// length clocks, with the counter at zero; before that it keeps its on/off state.
pub proof fn law_length_counter_expires(n: u8, enabled: bool)
    requires
        n > 0,
    ensures
        length_ticks(n as nat, n, enabled) == (0u8, false),
        forall|k: nat| k < n ==> #[trigger] length_ticks(k, n, enabled) == ((n - k) as u8, enabled),
    decreases n,
{
    if n == 1 {
        assert(length_ticks(0, 0u8, false) == (0u8, false));
    } else {
        lemma_length_ticks_step(n, enabled);
        law_length_counter_expires((n - 1) as u8, enabled);
    }
    assert forall|k: nat| k < n implies #[trigger] length_ticks(k, n, enabled) == ((n - k) as u8,
        enabled) by {
        lemma_length_ticks_prefix(k, n, enabled);
    }
}

proof fn lemma_length_ticks_step(n: u8, enabled: bool)
    requires
        n > 1,
    ensures
        length_ticks(n as nat, n, enabled) == length_ticks((n - 1) as nat, (n - 1) as u8, enabled),
{
    assert(length_tick(true, n, enabled) == ((n - 1) as u8, enabled));
}

proof fn lemma_length_ticks_prefix(k: nat, n: u8, enabled: bool)
    requires
        k < n,
    ensures
        length_ticks(k, n, enabled) == ((n - k) as u8, enabled),
    decreases k,
{
    if k > 0 {
        assert(length_tick(true, n, enabled) == ((n - 1) as u8, enabled));
        lemma_length_ticks_prefix((k - 1) as nat, (n - 1) as u8, enabled);
    }
}

/// An envelope keeps its volume within 0..=15.
pub proof fn law_envelope_volume_bounded(e: Envelope)
    requires
        e.volume <= 15,
    ensures
        envelope_tick(e).volume <= 15,
{
}

/// NRx2 reads back exactly what was written to it.
pub proof fn law_envelope_register_round_trip(e: Envelope, v: u8)
    ensures
        envelope_reg(envelope_written(e, v)) == v,
{
    lemma_register_bits(v, 0, 0, false, 0);
}

/// NR10 reads back what was written, bit 7 (unused) cleared.
pub proof fn law_sweep_register_round_trip(w: Sweep, v: u8)
    ensures
        sweep_reg(sweep_written(w, v)) == v & 0x7F,
{
    lemma_register_bits(v, 0, 0, false, 0);
}

/// NR43 reads back what was written, bit 7 (unused) cleared.
pub proof fn law_noise_register_round_trip(c: NoiseChannel, v: u8)
    ensures
        noise_reg(noise_written(c, v)) == v & 0x7F,
{
    lemma_register_bits(v, 0, 0, false, 0);
}

/// NR50 reads back the two volumes that were written (bits 3 and 7 cleared).
pub proof fn law_volume_register_round_trip(m: Mixer, v: u8)
    ensures
        volume_reg(volume_written(m, v)) == v & 0x77,
{
    lemma_register_bits(v, 0, 0, false, 0);
}

/// NR51 reads back exactly what was written to it.
pub proof fn law_routing_register_round_trip(m: Mixer, v: u8)
    ensures
        routing_reg(routing_written(m, v)) == v,
{
    lemma_register_bits(v, 0, 0, false, 0);
}

/// NR11/NR21 read back the written duty, the length bits reading as 1.
pub proof fn law_duty_register_round_trip(c: SquareChannel, v: u8)
    ensures
        duty_reg(square_length_written(c, v).duty) == v | 0x3F,
{
    lemma_register_bits(v, 0, 0, false, 0);
}

/// Writing the low frequency byte and then NRx4 sets the frequency to the low byte plus 256
/// times bits 0-2 of NRx4; the low byte reads back as written, and the frequency stays below
/// 2048.
pub proof fn law_frequency_by_bytes(f: u16, lo: u8, hi: u8)
    ensures
        freq_high_written(freq_low_written(f, lo), hi) == lo + 256 * (hi & 0x7),
        freq_low_written(f, lo) as u8 == lo,
        freq_high_written(f, hi) < 2048,
{
    lemma_register_bits(lo, hi, 0, false, f);
    lemma_register_bits(hi, 0, 0, false, f);
}

/// NR52 reads back the power bit that was written (over the unused bits 4-6).
pub proof fn law_power_bit_round_trip(s: ApuState, v: u8)
    ensures
        (0x70u8 | if power_written(s, v).mixer.master_enabled {
            0x80u8
        } else {
            0u8
        }) == 0x70u8 | (v & 0x80),
{
    lemma_register_bits(v, 0, 0, false, 0);
}

/// Powering the sound unit off silences every channel and every route.
pub proof fn law_power_off_silences(s: ApuState, v: u8)
    requires
        v & 0x80 == 0,
    ensures
        channel_outputs(power_written(s, v)) == (0int, 0int, 0int, 0int),
        !power_written(s, v).mixer.master_enabled,
        power_written(s, v).mixer.left_volume == 0,
        power_written(s, v).mixer.right_volume == 0,
{
}

/// Wave RAM reads back what was written at the same address, and a write leaves every other
/// address as it was.
pub proof fn law_wave_ram_round_trip(s: ApuState, a: u16, b: u16, v: u8)
    requires
        apu_wf(s),
        a >= 0xFF30,
        b >= 0xFF30,
    ensures
        a - 0xFF30 < 16 ==> wave_ram_read(wave_ram_written(s, a, v), a) == v,
        a != b ==> wave_ram_read(wave_ram_written(s, a, v), b) == wave_ram_read(s, b),
        apu_wf(wave_ram_written(s, a, v)),
{
}

/// Stepping the sound unit keeps its invariant and never leaves the frame-sequencer step
/// outside 0..8 or the timer above 8192.
pub proof fn law_step_keeps_invariant(s: ApuState, cycles: u16, p: PhasePeriods)
    requires
        apu_wf(s),
        s.frame_sequencer_timer <= 8192,
        periods_ok(s, p),
    ensures
        apu_wf(stepped(s, cycles, p)),
        stepped(s, cycles, p).frame_sequencer_timer <= 8192,
{
}

impl Envelope {
    fn clock(&mut self)
        ensures
            *final(self) == envelope_tick(*old(self)),
    {
        if self.period > 0 {
            if self.timer > 0 {
                self.timer = self.timer - 1;
            }
            if self.timer == 0 {
                self.timer = self.period;
                if self.up && self.volume < 15 {
                    self.volume = self.volume + 1;
                } else if !self.up && self.volume > 0 {
                    self.volume = self.volume - 1;
                }
            }
        }
    }
}

impl SquareChannel {
    fn clock_length(&mut self)
        ensures
            *final(self) == square_length_clocked(*old(self)),
    {
        if self.length_enabled && self.length_counter > 0 {
            self.length_counter = self.length_counter - 1;
            if self.length_counter == 0 {
                self.enabled = false;
            }
        }
    }

    fn advance(&mut self, cycles: u16, period: u32)
        requires
            old(self).frequency < 2048 ==> period > 0,
        ensures
            *final(self) == square_advanced(*old(self), cycles, period),
    {
        if self.frequency < 2048 {
            self.phase = ((self.phase as u32 + cycles as u32) % period) as u8;
        }
    }
}

impl WaveChannel {
    fn clock_length(&mut self)
        ensures
            final(self)@ == wave_length_clocked(old(self)@),
    {
        if self.length_enabled && self.length_counter > 0 {
            self.length_counter = self.length_counter - 1;
            if self.length_counter == 0 {
                self.enabled = false;
            }
        }
    }

    fn advance(&mut self, cycles: u16, period: u32)
        requires
            old(self).frequency < 2048 ==> period >= 32,
        ensures
            final(self)@ == wave_advanced(old(self)@, cycles, period),
            final(self).wave_ram@ == old(self).wave_ram@,
            final(self).wave_position < 32 || final(self).wave_position == old(self).wave_position,
    {
        if self.frequency < 2048 {
            self.phase = ((self.phase as u32 + cycles as u32) % period) as u16;
            self.wave_position = (self.phase as usize / (period as usize / 32)) % 32;
        }
    }
}

impl NoiseChannel {
    fn clock_length(&mut self)
        ensures
            *final(self) == noise_length_clocked(*old(self)),
    {
        if self.length_enabled && self.length_counter > 0 {
            self.length_counter = self.length_counter - 1;
            if self.length_counter == 0 {
                self.enabled = false;
            }
        }
    }

    fn shift_lfsr(&mut self)
        ensures
            *final(self) == (NoiseChannel {
                lfsr: lfsr_next(old(self).lfsr, old(self).lfsr_width),
                ..*old(self)
            }),
    {
        let bit = self.lfsr & 1;
        let feedback = if self.lfsr_width {
            (bit ^ ((self.lfsr >> 6) & 1)) != 0
        } else {
            (bit ^ ((self.lfsr >> 1) & 1)) != 0
        };
        self.lfsr = self.lfsr >> 1;
        if feedback {
            self.lfsr = self.lfsr | 0x4000;
        }
        if self.lfsr_width {
            self.lfsr = self.lfsr & !0x40u16;
        }
    }

    fn advance(&mut self, cycles: u16, period: u32)
        requires
            period > 0,
        ensures
            *final(self) == noise_advanced(*old(self), cycles, period),
    {
        self.phase = ((self.phase as u32 + cycles as u32) % period) as u16;
        if self.phase < cycles {
            self.shift_lfsr();
        }
    }
}

impl OldApu {
    /// The invariant: 16 bytes of wave RAM, a wave position inside it, a sweep shift of at
    /// most 7, a frame-sequencer step below 8.
    pub open spec fn wf(&self) -> bool {
        apu_wf(self@)
    }

    /// The power-on state: all channels off, both volumes 7, every channel routed to both
    /// sides, the noise register at 0x7FFF.
    pub fn new() -> (r: OldApu)
        ensures
            r.wf(),
            r@ == apu_initial(),
    {
        let env = Envelope { volume: 0, period: 0, up: false, timer: 0 };
        let square = SquareChannel {
            enabled: false,
            frequency: 0,
            duty: 2,
            length_counter: 0,
            length_enabled: false,
            envelope: env,
            phase: 0,
        };
        let r = OldApu {
            frame_sequencer_timer: 8192,
            frame_sequencer_step: 0,
            ch1: square,
            sweep: Sweep {
                period: 0,
                negate: false,
                shift: 0,
                timer: 0,
                shadow_freq: 0,
                enabled: false,
            },
            ch2: square,
            ch3: WaveChannel {
                enabled: false,
                frequency: 0,
                length_counter: 0,
                length_enabled: false,
                output_level: 0,
                wave_ram: vec![0u8; 16],
                wave_position: 0,
                phase: 0,
            },
            ch4: NoiseChannel {
                enabled: false,
                length_counter: 0,
                length_enabled: false,
                envelope: env,
                clock_shift: 0,
                lfsr_width: false,
                clock_divider: 0,
                lfsr: 0x7FFF,
                phase: 0,
            },
            mixer: Mixer {
                master_enabled: false,
                left_volume: 7,
                right_volume: 7,
                ch1_left: true,
                ch1_right: true,
                ch2_left: true,
                ch2_right: true,
                ch3_left: true,
                ch3_right: true,
                ch4_left: true,
                ch4_right: true,
            },
        };
        proof {
            assert(r@.ch3.wave_ram =~= Seq::new(16, |i: int| 0u8));
        }
        r
    }

    /// Advances the sound unit by `cycles` t-cycles, given the channels' phase periods.
    pub fn step(&mut self, cycles: u16, periods: PhasePeriods)
        requires
            old(self).wf(),
            periods_ok(old(self)@, periods),
        ensures
            final(self).wf(),
            final(self)@ == stepped(old(self)@, cycles, periods),
    {
        self.update_phases(cycles, periods);
        self.frame_sequencer_timer = self.frame_sequencer_timer.saturating_sub(cycles);
        if self.frame_sequencer_timer == 0 {
            self.frame_sequencer_timer = 8192;
            self.frame_sequencer_step = (self.frame_sequencer_step + 1) % 8;
            let k = self.frame_sequencer_step;
            if k == 0 || k == 4 {
                self.clock_length_counters();
            } else if k == 2 || k == 6 {
                self.clock_length_counters();
                self.clock_sweep();
            } else if k == 7 {
                self.clock_envelopes();
            }
        }
    }

    /// The registers that the phase periods depend on: the three channel frequencies and the
    /// noise clock divider and shift.
    pub fn phase_inputs(&self) -> (r: (u16, u16, u16, u8, u8))
        ensures
            r == (self@.ch1.frequency, self@.ch2.frequency, self@.ch3.frequency,
                self@.ch4.clock_divider, self@.ch4.clock_shift),
    {
        (
            self.ch1.frequency,
            self.ch2.frequency,
            self.ch3.frequency,
            self.ch4.clock_divider,
            self.ch4.clock_shift,
        )
    }

    fn update_phases(&mut self, cycles: u16, periods: PhasePeriods)
        requires
            old(self).wf(),
            periods_ok(old(self)@, periods),
        ensures
            final(self).wf(),
            final(self)@ == phases_advanced(old(self)@, cycles, periods),
    {
        self.ch1.advance(cycles, periods.ch1);
        self.ch2.advance(cycles, periods.ch2);
        self.ch3.advance(cycles, periods.ch3);
        self.ch4.advance(cycles, periods.ch4);
    }

    fn update_ch4_lfsr(&mut self)
        ensures
            final(self)@ == (ApuState {
                ch4: NoiseChannel {
                    lfsr: lfsr_next(old(self)@.ch4.lfsr, old(self)@.ch4.lfsr_width),
                    ..old(self)@.ch4
                },
                ..old(self)@
            }),
    {
        self.ch4.shift_lfsr();
    }

    /// Whether the enabled square channels' phases lie inside their 8-step duty patterns, so
    /// that their samples can be taken.
    pub fn phases_ready(&self) -> (r: bool)
        ensures
            r == phases_in_pattern(self@),
    {
        (!self.ch1.enabled || self.ch1.phase <= 7) && (!self.ch2.enabled || self.ch2.phase <= 7)
    }

    /// The channel outputs the mixer adds up, or `None` while the sound unit is off:
    /// (left sum, right sum, left volume, right volume).
    #[verifier::spinoff_prover]
    pub fn mix_levels(&self) -> (r: Option<(i32, i32, u8, u8)>)
        requires
            self.wf(),
            phases_in_pattern(self@),
        ensures
            !self@.mixer.master_enabled ==> r.is_none(),
            self@.mixer.master_enabled ==> (r matches Some(m) && mix_of(self@) == (
                m.0 as int,
                m.1 as int,
                m.2 as int,
                m.3 as int,
            )),
    {
        if !self.mixer.master_enabled {
            return None;
        }
        let c1: i32 = if self.ch1.enabled {
            self.generate_ch1_sample() as i32
        } else {
            0
        };
        let c2: i32 = if self.ch2.enabled {
            self.generate_ch2_sample() as i32
        } else {
            0
        };
        let c3: i32 = if self.ch3.enabled {
            self.generate_ch3_sample() as i32
        } else {
            0
        };
        let c4: i32 = if self.ch4.enabled {
            self.generate_ch4_sample() as i32
        } else {
            0
        };
        let m = self.mixer;
        let o = (c1, c2, c3, c4);
        proof {
            let oo = channel_outputs(self@);
            assert(oo == (c1 as int, c2 as int, c3 as int, c4 as int));
        }
        let left = Self::side(o, m.ch1_left, m.ch2_left, m.ch3_left, m.ch4_left);
        let right = Self::side(o, m.ch1_right, m.ch2_right, m.ch3_right, m.ch4_right);
        Some((left, right, m.left_volume, m.right_volume))
    }

    fn side(o: (i32, i32, i32, i32), e1: bool, e2: bool, e3: bool, e4: bool) -> (r: i32)
        requires
            -128 <= o.0 < 128,
            -128 <= o.1 < 128,
            -128 <= o.2 < 128,
            -128 <= o.3 < 128,
        ensures
            r == side_sum((o.0 as int, o.1 as int, o.2 as int, o.3 as int), e1, e2, e3, e4),
    {
        let a = if e1 {
            o.0
        } else {
            0
        };
        let b = if e2 {
            o.1
        } else {
            0
        };
        let c = if e3 {
            o.2
        } else {
            0
        };
        let d = if e4 {
            o.3
        } else {
            0
        };
        a + b + c + d
    }

    fn duty(d: u8) -> (r: u8)
        ensures
            r == duty_pattern(d),
    {
        let k = d % 4;
        if k == 0 {
            0x01
        } else if k == 1 {
            0x03
        } else if k == 2 {
            0x0F
        } else {
            0x3F
        }
    }

    fn square_output(c: &SquareChannel) -> (r: i8)
        requires
            c.phase <= 7,
        ensures
            r == square_sample(*c),
    {
        let pattern = Self::duty(c.duty);
        let bit = (pattern >> (7 - c.phase)) & 1;
        if bit != 0 {
            c.envelope.volume as i8
        } else {
            0
        }
    }

    fn generate_ch1_sample(&self) -> (r: i8)
        requires
            self@.ch1.phase <= 7,
        ensures
            r == square_sample(self@.ch1),
    {
        Self::square_output(&self.ch1)
    }

    fn generate_ch2_sample(&self) -> (r: i8)
        requires
            self@.ch2.phase <= 7,
        ensures
            r == square_sample(self@.ch2),
    {
        Self::square_output(&self.ch2)
    }

    fn generate_ch3_sample(&self) -> (r: i8)
        requires
            self.wf(),
        ensures
            r == wave_sample(self@.ch3),
    {
        let sample_index = self.ch3.wave_position / 2;
        let byte = self.ch3.wave_ram[sample_index];
        let sample = if self.ch3.wave_position % 2 == 0 {
            (byte >> 4) & 0xF
        } else {
            byte & 0xF
        };
        if self.ch3.output_level == 1 {
            sample as i8
        } else if self.ch3.output_level == 2 {
            (sample >> 1) as i8
        } else if self.ch3.output_level == 3 {
            (sample >> 2) as i8
        } else {
            0
        }
    }

    fn generate_ch4_sample(&self) -> (r: i8)
        ensures
            r == noise_sample(self@.ch4),
    {
        if self.ch4.lfsr & 1 != 0 {
            self.ch4.envelope.volume as i8
        } else {
            0
        }
    }

    fn clock_length_counters(&mut self)
        ensures
            final(self)@ == length_clocked(old(self)@),
    {
        self.ch1.clock_length();
        self.ch2.clock_length();
        self.ch3.clock_length();
        self.ch4.clock_length();
    }

    fn sweep_step(&self, f: u16) -> (r: u16)
        requires
            self@.sweep.shift <= 7,
        ensures
            r == sweep_next(f, self@.sweep.shift, self@.sweep.negate),
    {
        let delta = f >> self.sweep.shift;
        if self.sweep.negate {
            f.wrapping_sub(delta)
        } else {
            f.wrapping_add(delta)
        }
    }

    fn clock_sweep(&mut self)
        requires
            old(self).wf(),
        ensures
            final(self).wf(),
            final(self)@ == sweep_clocked(old(self)@),
    {
        if self.sweep.timer > 0 {
            self.sweep.timer = self.sweep.timer - 1;
        }
        if self.sweep.timer == 0 && self.sweep.enabled {
            self.sweep.timer = if self.sweep.period == 0 {
                8
            } else {
                self.sweep.period
            };
            if self.sweep.period > 0 {
                let new_freq = self.sweep_step(self.sweep.shadow_freq);
                if new_freq > 2047 {
                    self.ch1.enabled = false;
                } else if self.sweep.shift > 0 {
                    self.sweep.shadow_freq = new_freq;
                    self.ch1.frequency = new_freq;
                    let new_freq2 = self.sweep_step(new_freq);
                    if new_freq2 > 2047 {
                        self.ch1.enabled = false;
                    }
                }
            }
        }
    }

    fn clock_envelopes(&mut self)
        ensures
            final(self)@ == envelopes_clocked(old(self)@),
    {
        self.ch1.envelope.clock();
        self.ch2.envelope.clock();
        self.ch4.envelope.clock();
    }

    /// NR50: the two output volumes.
    pub fn read_nr50(&self) -> (r: u8)
        ensures
            r == volume_reg(self@.mixer),
    {
        (self.mixer.left_volume & 0x7) | ((self.mixer.right_volume & 0x7) << 4)
    }

    /// Writes NR50: left volume from bits 0-2, right volume from bits 4-6.
    pub fn write_nr50(&mut self, value: u8)
        requires
            old(self).wf(),
        ensures
            final(self).wf(),
            final(self)@ == (ApuState { mixer: volume_written(old(self)@.mixer, value), ..old(self)@ }),
    {
        self.mixer.left_volume = value & 0x7;
        self.mixer.right_volume = (value >> 4) & 0x7;
    }

    /// NR51: which channels reach the left and right outputs.
    pub fn read_nr51(&self) -> (r: u8)
        ensures
            r == routing_reg(self@.mixer),
    {
        let m = self.mixer;
        (if m.ch4_left { 0x80u8 } else { 0 }) | (if m.ch3_left { 0x40u8 } else { 0 }) | (
        if m.ch2_left { 0x20u8 } else { 0 }) | (if m.ch1_left { 0x10u8 } else { 0 }) | (
        if m.ch4_right { 0x08u8 } else { 0 }) | (if m.ch3_right { 0x04u8 } else { 0 }) | (
        if m.ch2_right { 0x02u8 } else { 0 }) | (if m.ch1_right { 0x01u8 } else { 0 })
    }

    /// Writes NR51: one routing flag per bit.
    pub fn write_nr51(&mut self, value: u8)
        requires
            old(self).wf(),
        ensures
            final(self).wf(),
            final(self)@ == (ApuState { mixer: routing_written(old(self)@.mixer, value), ..old(self)@ }),
    {
        self.mixer.ch4_left = (value & 0x80) != 0;
        self.mixer.ch3_left = (value & 0x40) != 0;
        self.mixer.ch2_left = (value & 0x20) != 0;
        self.mixer.ch1_left = (value & 0x10) != 0;
        self.mixer.ch4_right = (value & 0x08) != 0;
        self.mixer.ch3_right = (value & 0x04) != 0;
        self.mixer.ch2_right = (value & 0x02) != 0;
        self.mixer.ch1_right = (value & 0x01) != 0;
    }

    /// NR52: the power bit 7 over the unused bits 4-6.
    pub fn read_nr52(&self) -> (r: u8)
        ensures
            r == (0x70u8 | if self@.mixer.master_enabled {
                0x80u8
            } else {
                0u8
            }),
    {
        0x70 | (if self.mixer.master_enabled {
            0x80
        } else {
            0
        })
    }

    /// Writes NR52: bit 7 clear powers the unit off and clears the channels and the mixer;
    /// bit 7 set powers an unpowered unit on and restarts the frame sequencer.
    pub fn write_nr52(&mut self, value: u8)
        requires
            old(self).wf(),
        ensures
            final(self).wf(),
            final(self)@ == power_written(old(self)@, value),
    {
        let new_enabled = (value & 0x80) != 0;
        if !new_enabled {
            self.mixer.master_enabled = false;
            self.ch1.enabled = false;
            self.ch2.enabled = false;
            self.ch3.enabled = false;
            self.ch4.enabled = false;
            self.mixer.left_volume = 0;
            self.mixer.right_volume = 0;
            self.mixer.ch1_left = false;
            self.mixer.ch1_right = false;
            self.mixer.ch2_left = false;
            self.mixer.ch2_right = false;
            self.mixer.ch3_left = false;
            self.mixer.ch3_right = false;
            self.mixer.ch4_left = false;
            self.mixer.ch4_right = false;
        } else if !self.mixer.master_enabled {
            self.mixer.master_enabled = true;
            self.frame_sequencer_step = 0;
        }
    }

    /// NR10: channel 1's sweep period, direction and shift.
    pub fn read_nr10(&self) -> (r: u8)
        ensures
            r == sweep_reg(self@.sweep),
    {
        (self.sweep.period & 0x7) | (if self.sweep.negate {
            0x08
        } else {
            0
        }) | ((self.sweep.shift & 0x7) << 4)
    }

    /// Writes NR10.
    pub fn write_nr10(&mut self, value: u8)
        requires
            old(self).wf(),
        ensures
            final(self).wf(),
            final(self)@ == (ApuState { sweep: sweep_written(old(self)@.sweep, value), ..old(self)@ }),
    {
        proof {
            lemma_register_bits(value, 0, 0, false, 0);
        }
        self.sweep.period = value & 0x7;
        self.sweep.negate = (value & 0x08) != 0;
        self.sweep.shift = (value >> 4) & 0x7;
    }

    /// NR11: channel 1's duty.
    pub fn read_nr11(&self) -> (r: u8)
        ensures
            r == duty_reg(self@.ch1.duty),
    {
        (self.ch1.duty << 6) | 0x3F
    }

    /// Writes NR11: the duty and the length counter.
    pub fn write_nr11(&mut self, value: u8)
        requires
            old(self).wf(),
        ensures
            final(self).wf(),
            final(self)@ == (ApuState { ch1: square_length_written(old(self)@.ch1, value), ..old(self)@ }),
    {
        proof {
            lemma_register_bits(value, 0, 0, false, 0);
        }
        self.ch1.duty = (value >> 6) & 0x3;
        self.ch1.length_counter = 64 - (value & 0x3F);
    }

    /// NR12: channel 1's envelope.
    pub fn read_nr12(&self) -> (r: u8)
        ensures
            r == envelope_reg(self@.ch1.envelope),
    {
        Self::read_envelope(&self.ch1.envelope)
    }

    /// Writes NR12.
    pub fn write_nr12(&mut self, value: u8)
        requires
            old(self).wf(),
        ensures
            final(self).wf(),
            final(self)@ == (ApuState {
                ch1: SquareChannel {
                    envelope: envelope_written(old(self)@.ch1.envelope, value),
                    ..old(self)@.ch1
                },
                ..old(self)@
            }),
    {
        Self::write_envelope(&mut self.ch1.envelope, value);
    }

    /// NR13: the low byte of channel 1's frequency.
    pub fn read_nr13(&self) -> (r: u8)
        ensures
            r == self@.ch1.frequency as u8,
    {
        self.ch1.frequency as u8
    }

    /// Writes NR13.
    pub fn write_nr13(&mut self, value: u8)
        requires
            old(self).wf(),
        ensures
            final(self).wf(),
            final(self)@ == (ApuState {
                ch1: SquareChannel {
                    frequency: freq_low_written(old(self)@.ch1.frequency, value),
                    ..old(self)@.ch1
                },
                ..old(self)@
            }),
    {
        self.ch1.frequency = (self.ch1.frequency & 0xFF00) | value as u16;
    }

    /// NR14: channel 1's length enable.
    pub fn read_nr14(&self) -> (r: u8)
        ensures
            r == control_reg(self@.ch1.length_enabled),
    {
        (if self.ch1.length_enabled {
            0x40
        } else {
            0
        }) | 0xBF
    }

    /// Writes NR14: the length enable, the high frequency bits, and with bit 7 a trigger.
    pub fn write_nr14(&mut self, value: u8)
        requires
            old(self).wf(),
        ensures
            final(self).wf(),
            ({
                let s1 = ApuState {
                    ch1: SquareChannel {
                        length_enabled: value & 0x40 != 0,
                        frequency: freq_high_written(old(self)@.ch1.frequency, value),
                        ..old(self)@.ch1
                    },
                    ..old(self)@
                };
                final(self)@ == if value & 0x80 != 0 {
                    ch1_triggered(s1)
                } else {
                    s1
                }
            }),
    {
        self.ch1.length_enabled = (value & 0x40) != 0;
        let trigger = (value & 0x80) != 0;
        self.ch1.frequency = (self.ch1.frequency & 0x00FF) | (((value & 0x7) as u16) << 8);
        if trigger {
            self.trigger_ch1();
        }
    }

    fn read_envelope(e: &Envelope) -> (r: u8)
        ensures
            r == envelope_reg(*e),
    {
        (e.period & 0x7) | (if e.up {
            0x08
        } else {
            0
        }) | ((e.volume & 0xF) << 4)
    }

    fn write_envelope(e: &mut Envelope, value: u8)
        ensures
            *final(e) == envelope_written(*old(e), value),
    {
        e.period = value & 0x7;
        e.up = (value & 0x08) != 0;
        e.volume = (value >> 4) & 0xF;
    }

    fn restart_square(c: &mut SquareChannel)
        ensures
            *final(c) == square_triggered(*old(c)),
    {
        c.enabled = true;
        if c.length_counter == 0 {
            c.length_counter = 64;
        }
        c.envelope.timer = if c.envelope.period == 0 {
            8
        } else {
            c.envelope.period
        };
        let reg = Self::read_envelope(&c.envelope);
        proof {
            lemma_register_bits(0, c.envelope.period, c.envelope.volume, c.envelope.up, 0);
        }
        c.envelope.volume = (reg >> 4) & 0xF;
    }

    fn trigger_ch1(&mut self)
        requires
            old(self).wf(),
        ensures
            final(self).wf(),
            final(self)@ == ch1_triggered(old(self)@),
    {
        Self::restart_square(&mut self.ch1);
        self.sweep.shadow_freq = self.ch1.frequency;
        self.sweep.timer = if self.sweep.period == 0 {
            8
        } else {
            self.sweep.period
        };
        self.sweep.enabled = self.sweep.period > 0 || self.sweep.shift > 0;
        if self.sweep.shift > 0 {
            self.clock_sweep();
        }
    }

    /// NR21: channel 2's duty.
    pub fn read_nr21(&self) -> (r: u8)
        ensures
            r == duty_reg(self@.ch2.duty),
    {
        (self.ch2.duty << 6) | 0x3F
    }

    /// Writes NR21: the duty and the length counter.
    pub fn write_nr21(&mut self, value: u8)
        requires
            old(self).wf(),
        ensures
            final(self).wf(),
            final(self)@ == (ApuState { ch2: square_length_written(old(self)@.ch2, value), ..old(self)@ }),
    {
        proof {
            lemma_register_bits(value, 0, 0, false, 0);
        }
        self.ch2.duty = (value >> 6) & 0x3;
        self.ch2.length_counter = 64 - (value & 0x3F);
    }

    /// NR22: channel 2's envelope.
    pub fn read_nr22(&self) -> (r: u8)
        ensures
            r == envelope_reg(self@.ch2.envelope),
    {
        Self::read_envelope(&self.ch2.envelope)
    }

    /// Writes NR22.
    pub fn write_nr22(&mut self, value: u8)
        requires
            old(self).wf(),
        ensures
            final(self).wf(),
            final(self)@ == (ApuState {
                ch2: SquareChannel {
                    envelope: envelope_written(old(self)@.ch2.envelope, value),
                    ..old(self)@.ch2
                },
                ..old(self)@
            }),
    {
        Self::write_envelope(&mut self.ch2.envelope, value);
    }

    /// NR23: the low byte of channel 2's frequency.
    pub fn read_nr23(&self) -> (r: u8)
        ensures
            r == self@.ch2.frequency as u8,
    {
        self.ch2.frequency as u8
    }

    /// Writes NR23.
    pub fn write_nr23(&mut self, value: u8)
        requires
            old(self).wf(),
        ensures
            final(self).wf(),
            final(self)@ == (ApuState {
                ch2: SquareChannel {
                    frequency: freq_low_written(old(self)@.ch2.frequency, value),
                    ..old(self)@.ch2
                },
                ..old(self)@
            }),
    {
        self.ch2.frequency = (self.ch2.frequency & 0xFF00) | value as u16;
    }

    /// NR24: channel 2's length enable.
    pub fn read_nr24(&self) -> (r: u8)
        ensures
            r == control_reg(self@.ch2.length_enabled),
    {
        (if self.ch2.length_enabled {
            0x40
        } else {
            0
        }) | 0xBF
    }

    /// Writes NR24: the length enable, the high frequency bits, and with bit 7 a trigger.
    pub fn write_nr24(&mut self, value: u8)
        requires
            old(self).wf(),
        ensures
            final(self).wf(),
            ({
                let c1 = SquareChannel {
                    length_enabled: value & 0x40 != 0,
                    frequency: freq_high_written(old(self)@.ch2.frequency, value),
                    ..old(self)@.ch2
                };
                final(self)@ == (ApuState {
                    ch2: if value & 0x80 != 0 {
                        square_triggered(c1)
                    } else {
                        c1
                    },
                    ..old(self)@
                })
            }),
    {
        self.ch2.length_enabled = (value & 0x40) != 0;
        let trigger = (value & 0x80) != 0;
        self.ch2.frequency = (self.ch2.frequency & 0x00FF) | (((value & 0x7) as u16) << 8);
        if trigger {
            self.trigger_ch2();
        }
    }

    fn trigger_ch2(&mut self)
        ensures
            final(self)@ == (ApuState { ch2: square_triggered(old(self)@.ch2), ..old(self)@ }),
    {
        Self::restart_square(&mut self.ch2);
    }

    /// NR30: channel 3's on bit.
    pub fn read_nr30(&self) -> (r: u8)
        ensures
            r == ((if self@.ch3.enabled {
                0x80u8
            } else {
                0u8
            }) | 0x7F),
    {
        (if self.ch3.enabled {
            0x80
        } else {
            0
        }) | 0x7F
    }

    /// Writes NR30: bit 7 turns channel 3 on or off.
    pub fn write_nr30(&mut self, value: u8)
        requires
            old(self).wf(),
        ensures
            final(self).wf(),
            final(self)@ == (ApuState {
                ch3: WaveState { enabled: value & 0x80 != 0, ..old(self)@.ch3 },
                ..old(self)@
            }),
    {
        self.ch3.enabled = (value & 0x80) != 0;
    }

    /// NR31 reads back as 0xFF.
    pub fn read_nr31(&self) -> (r: u8)
        ensures
            r == 0xFF,
    {
        0xFF
    }

    /// Writes NR31: the length counter becomes 256 minus the value, modulo 256.
    pub fn write_nr31(&mut self, value: u8)
        requires
            old(self).wf(),
        ensures
            final(self).wf(),
            final(self)@ == (ApuState {
                ch3: WaveState { length_counter: ((256 - value) % 256) as u8, ..old(self)@.ch3 },
                ..old(self)@
            }),
    {
        proof {
            lemma_register_bits(value, 0, 0, false, 0);
        }
        self.ch3.length_counter = (256 - value as u16) as u8;
    }

    /// NR32: channel 3's output level in bits 5-6.
    pub fn read_nr32(&self) -> (r: u8)
        ensures
            r == ((self@.ch3.output_level << 5u8) | 0x9F),
    {
        (self.ch3.output_level << 5) | 0x9F
    }

    /// Writes NR32.
    pub fn write_nr32(&mut self, value: u8)
        requires
            old(self).wf(),
        ensures
            final(self).wf(),
            final(self)@ == (ApuState {
                ch3: WaveState { output_level: (value >> 5u8) & 0x3, ..old(self)@.ch3 },
                ..old(self)@
            }),
    {
        self.ch3.output_level = (value >> 5) & 0x3;
    }

    /// NR33: the low byte of channel 3's frequency.
    pub fn read_nr33(&self) -> (r: u8)
        ensures
            r == self@.ch3.frequency as u8,
    {
        self.ch3.frequency as u8
    }

    /// Writes NR33.
    pub fn write_nr33(&mut self, value: u8)
        requires
            old(self).wf(),
        ensures
            final(self).wf(),
            final(self)@ == (ApuState {
                ch3: WaveState {
                    frequency: freq_low_written(old(self)@.ch3.frequency, value),
                    ..old(self)@.ch3
                },
                ..old(self)@
            }),
    {
        self.ch3.frequency = (self.ch3.frequency & 0xFF00) | value as u16;
    }

    /// NR34: channel 3's length enable.
    pub fn read_nr34(&self) -> (r: u8)
        ensures
            r == control_reg(self@.ch3.length_enabled),
    {
        (if self.ch3.length_enabled {
            0x40
        } else {
            0
        }) | 0xBF
    }

    /// Writes NR34: the length enable, the high frequency bits, and with bit 7 a trigger.
    pub fn write_nr34(&mut self, value: u8)
        requires
            old(self).wf(),
        ensures
            final(self).wf(),
            ({
                let c1 = WaveState {
                    length_enabled: value & 0x40 != 0,
                    frequency: freq_high_written(old(self)@.ch3.frequency, value),
                    ..old(self)@.ch3
                };
                final(self)@ == (ApuState {
                    ch3: if value & 0x80 != 0 {
                        wave_triggered(c1)
                    } else {
                        c1
                    },
                    ..old(self)@
                })
            }),
    {
        self.ch3.length_enabled = (value & 0x40) != 0;
        let trigger = (value & 0x80) != 0;
        self.ch3.frequency = (self.ch3.frequency & 0x00FF) | (((value & 0x7) as u16) << 8);
        if trigger {
            self.trigger_ch3();
        }
    }

    fn trigger_ch3(&mut self)
        requires
            old(self).wf(),
        ensures
            final(self).wf(),
            final(self)@ == (ApuState { ch3: wave_triggered(old(self)@.ch3), ..old(self)@ }),
    {
        self.ch3.enabled = true;
        if self.ch3.length_counter == 0 {
            self.ch3.length_counter = 255;
        }
        self.ch3.wave_position = 0;
    }

    /// Reads wave RAM at 0xFF30..=0xFF3F; past it, 0.
    pub fn read_wave_ram(&self, addr: u16) -> (r: u8)
        requires
            self.wf(),
            addr >= 0xFF30,
        ensures
            r == wave_ram_read(self@, addr),
    {
        let index = (addr - 0xFF30) as usize;
        if index < 16 {
            self.ch3.wave_ram[index]
        } else {
            0
        }
    }

    /// Writes wave RAM at 0xFF30..=0xFF3F; past it, nothing changes.
    pub fn write_wave_ram(&mut self, addr: u16, value: u8)
        requires
            old(self).wf(),
            addr >= 0xFF30,
        ensures
            final(self).wf(),
            final(self)@ == wave_ram_written(old(self)@, addr, value),
    {
        let index = (addr - 0xFF30) as usize;
        if index < 16 {
            self.ch3.wave_ram.set(index, value);
        }
    }

    /// NR41 reads back as 0xFF.
    pub fn read_nr41(&self) -> (r: u8)
        ensures
            r == 0xFF,
    {
        0xFF
    }

    /// Writes NR41: the length counter becomes 64 minus the low six bits.
    pub fn write_nr41(&mut self, value: u8)
        requires
            old(self).wf(),
        ensures
            final(self).wf(),
            final(self)@ == (ApuState {
                ch4: NoiseChannel {
                    length_counter: (64 - (value & 0x3F)) as u8,
                    ..old(self)@.ch4
                },
                ..old(self)@
            }),
    {
        proof {
            lemma_register_bits(value, 0, 0, false, 0);
        }
        self.ch4.length_counter = 64 - (value & 0x3F);
    }

    /// NR42: channel 4's envelope.
    pub fn read_nr42(&self) -> (r: u8)
        ensures
            r == envelope_reg(self@.ch4.envelope),
    {
        Self::read_envelope(&self.ch4.envelope)
    }

    /// Writes NR42.
    pub fn write_nr42(&mut self, value: u8)
        requires
            old(self).wf(),
        ensures
            final(self).wf(),
            final(self)@ == (ApuState {
                ch4: NoiseChannel {
                    envelope: envelope_written(old(self)@.ch4.envelope, value),
                    ..old(self)@.ch4
                },
                ..old(self)@
            }),
    {
        Self::write_envelope(&mut self.ch4.envelope, value);
    }

    /// NR43: channel 4's clock shift, width and divider.
    pub fn read_nr43(&self) -> (r: u8)
        ensures
            r == noise_reg(self@.ch4),
    {
        (self.ch4.clock_shift & 0xF) | (if self.ch4.lfsr_width {
            0x08
        } else {
            0
        }) | ((self.ch4.clock_divider & 0x7) << 4)
    }

    /// Writes NR43.
    pub fn write_nr43(&mut self, value: u8)
        requires
            old(self).wf(),
        ensures
            final(self).wf(),
            final(self)@ == (ApuState { ch4: noise_written(old(self)@.ch4, value), ..old(self)@ }),
    {
        self.ch4.clock_shift = value & 0xF;
        self.ch4.lfsr_width = (value & 0x08) != 0;
        self.ch4.clock_divider = (value >> 4) & 0x7;
    }

    /// NR44: channel 4's length enable.
    pub fn read_nr44(&self) -> (r: u8)
        ensures
            r == control_reg(self@.ch4.length_enabled),
    {
        (if self.ch4.length_enabled {
            0x40
        } else {
            0
        }) | 0xBF
    }

    /// Writes NR44: the length enable, and with bit 7 a trigger.
    pub fn write_nr44(&mut self, value: u8)
        requires
            old(self).wf(),
        ensures
            final(self).wf(),
            ({
                let c1 = NoiseChannel { length_enabled: value & 0x40 != 0, ..old(self)@.ch4 };
                final(self)@ == (ApuState {
                    ch4: if value & 0x80 != 0 {
                        noise_triggered(c1)
                    } else {
                        c1
                    },
                    ..old(self)@
                })
            }),
    {
        self.ch4.length_enabled = (value & 0x40) != 0;
        let trigger = (value & 0x80) != 0;
        if trigger {
            self.trigger_ch4();
        }
    }

    fn trigger_ch4(&mut self)
        ensures
            final(self)@ == (ApuState { ch4: noise_triggered(old(self)@.ch4), ..old(self)@ }),
    {
        self.ch4.enabled = true;
        if self.ch4.length_counter == 0 {
            self.ch4.length_counter = 64;
        }
        self.ch4.envelope.timer = if self.ch4.envelope.period == 0 {
            8
        } else {
            self.ch4.envelope.period
        };
        let reg = self.read_nr42();
        proof {
            let e = self.ch4.envelope;
            lemma_register_bits(0, e.period, e.volume, e.up, 0);
        }
        self.ch4.envelope.volume = (reg >> 4) & 0xF;
        self.ch4.lfsr = 0x7FFF;
    }
}

} // verus!
