use gbemu::hardware::apu::{OldApu, PhasePeriods};

fn periods() -> PhasePeriods {
    PhasePeriods { ch1: 8, ch2: 8, ch3: 64, ch4: 4 }
}

#[test]
fn apu_power_on_registers() {
    let apu = OldApu::new();
    assert_eq!(apu.read_nr50(), 0x77);
    assert_eq!(apu.read_nr51(), 0xFF);
    assert_eq!(apu.read_nr52(), 0x70);
    assert_eq!(apu.read_nr11(), 0xBF);
    assert_eq!(apu.read_nr21(), 0xBF);
    assert_eq!(apu.read_nr31(), 0xFF);
    assert_eq!(apu.read_nr41(), 0xFF);
    assert_eq!(apu.read_nr30(), 0x7F);
    assert_eq!(apu.read_nr14(), 0xBF);
    assert_eq!(apu.mix_levels(), None);
}

#[test]
fn apu_envelope_registers_read_back() {
    let mut apu = OldApu::new();
    apu.write_nr12(0xA5);
    apu.write_nr22(0x3B);
    apu.write_nr42(0xF8);
    assert_eq!(apu.read_nr12(), 0xA5);
    assert_eq!(apu.read_nr22(), 0x3B);
    assert_eq!(apu.read_nr42(), 0xF8);
}

#[test]
fn apu_sweep_and_noise_registers_drop_bit7() {
    let mut apu = OldApu::new();
    apu.write_nr10(0xFF);
    assert_eq!(apu.read_nr10(), 0x7F);
    apu.write_nr43(0xC9);
    assert_eq!(apu.read_nr43(), 0x49);
}

#[test]
fn apu_mixer_registers_read_back() {
    let mut apu = OldApu::new();
    apu.write_nr50(0xFF);
    assert_eq!(apu.read_nr50(), 0x77);
    apu.write_nr51(0x5A);
    assert_eq!(apu.read_nr51(), 0x5A);
}

#[test]
fn apu_duty_register_keeps_duty_only() {
    let mut apu = OldApu::new();
    apu.write_nr11(0x40 | 0x05);
    assert_eq!(apu.read_nr11(), 0x7F);
    apu.write_nr32(0x60);
    assert_eq!(apu.read_nr32(), 0xFF);
    apu.write_nr32(0x20);
    assert_eq!(apu.read_nr32(), 0xBF);
}

#[test]
fn apu_frequency_from_two_bytes() {
    let mut apu = OldApu::new();
    apu.write_nr13(0x34);
    apu.write_nr14(0x05);
    assert_eq!(apu.read_nr13(), 0x34);
    assert_eq!(apu.phase_inputs().0, 0x534);
    apu.write_nr23(0xFF);
    apu.write_nr24(0x07);
    assert_eq!(apu.phase_inputs().1, 0x7FF);
    apu.write_nr33(0x01);
    apu.write_nr34(0x42);
    assert_eq!(apu.phase_inputs().2, 0x201);
    assert_eq!(apu.read_nr34(), 0xFF);
}

#[test]
fn apu_power_off_clears_mixer() {
    let mut apu = OldApu::new();
    apu.write_nr52(0x80);
    assert_eq!(apu.read_nr52(), 0xF0);
    apu.write_nr51(0xFF);
    apu.write_nr52(0x00);
    assert_eq!(apu.read_nr52(), 0x70);
    assert_eq!(apu.read_nr51(), 0x00);
    assert_eq!(apu.read_nr50(), 0x00);
    assert_eq!(apu.mix_levels(), None);
}

#[test]
fn apu_wave_ram_round_trip() {
    let mut apu = OldApu::new();
    apu.write_wave_ram(0xFF30, 0xAB);
    apu.write_wave_ram(0xFF3F, 0x12);
    apu.write_wave_ram(0xFF40, 0x99);
    assert_eq!(apu.read_wave_ram(0xFF30), 0xAB);
    assert_eq!(apu.read_wave_ram(0xFF3F), 0x12);
    assert_eq!(apu.read_wave_ram(0xFF31), 0x00);
    assert_eq!(apu.read_wave_ram(0xFF40), 0x00);
}

#[test]
fn apu_length_counter_turns_wave_channel_off() {
    let mut apu = OldApu::new();
    apu.write_nr52(0x80);
    apu.write_nr31(255);
    apu.write_nr30(0x80);
    apu.write_nr34(0xC0);
    assert_eq!(apu.read_nr30(), 0xFF);
    apu.step(8192, periods());
    assert_eq!(apu.read_nr30(), 0xFF);
    apu.step(8192, periods());
    assert_eq!(apu.read_nr30(), 0x7F);
}

#[test]
fn apu_square_channel_mixes_volume_on_high_duty_step() {
    let mut apu = OldApu::new();
    apu.write_nr52(0x80);
    apu.write_nr21(0x80);
    apu.write_nr22(0xF0);
    apu.write_nr24(0x80);
    assert_eq!(apu.mix_levels(), Some((0, 0, 7, 7)));
    apu.step(5, periods());
    assert_eq!(apu.mix_levels(), Some((15, 15, 7, 7)));
    apu.write_nr51(0x02);
    assert_eq!(apu.mix_levels(), Some((0, 15, 7, 7)));
}

#[test]
fn apu_noise_trigger_resets_shift_register() {
    let mut apu = OldApu::new();
    apu.write_nr52(0x80);
    apu.write_nr42(0xA0);
    apu.write_nr44(0x80);
    assert_eq!(apu.mix_levels(), Some((10, 10, 7, 7)));
    for _ in 0..14 {
        apu.step(4, periods());
    }
    assert_eq!(apu.mix_levels(), Some((10, 10, 7, 7)));
    apu.step(4, periods());
    assert_eq!(apu.mix_levels(), Some((0, 0, 7, 7)));
}

#[test]
fn apu_envelope_steps_volume_down_at_step_seven() {
    let mut apu = OldApu::new();
    apu.write_nr52(0x80);
    apu.write_nr22(0x21);
    apu.write_nr21(0x80);
    apu.write_nr24(0x80);
    apu.step(5, periods());
    assert_eq!(apu.mix_levels(), Some((2, 2, 7, 7)));
    for _ in 0..7 {
        apu.step(8192, periods());
    }
    assert_eq!(apu.mix_levels(), Some((1, 1, 7, 7)));
}
