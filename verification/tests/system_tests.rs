use gbemu::gameboy::{
    get_ppu_timing_constants, get_timer_frequency_constants, highest_priority_interrupt,
    validate_ppu_timing, validate_timer_timing, InterruptType, TimingFault,
};
use gbemu::gb::bus::Bus;
use gbemu::gb::debug::{DebugRegs, OpTrace};
use gbemu::gb::mbc::{MBCImpl, MBCNone, MBC, MBC1, MBC3, MBC5};
use gbemu::gb::types::MbcType;
use gbemu::input::InputManager;
use gbemu::interface::video::{DummyVideoInterface, VideoInterface};
use gbemu::joypad::JoypadKey;

#[test]
fn priority_default_order_picks_lowest_bit() {
    let r = highest_priority_interrupt(0x1F, 0x05, [0, 1, 2, 3, 4], false, None);
    assert_eq!(r, Some((InterruptType::VBlank, 0x40)));
    let r = highest_priority_interrupt(0x1F, 0x14, [0, 1, 2, 3, 4], false, None);
    assert_eq!(r, Some((InterruptType::Timer, 0x50)));
}

#[test]
fn priority_custom_table_and_masking_prevention() {
    let r = highest_priority_interrupt(0x1F, 0x05, [4, 1, 0, 3, 2], false, None);
    assert_eq!(r, Some((InterruptType::Timer, 0x50)));
    let r = highest_priority_interrupt(
        0x1F,
        0x05,
        [1, 1, 1, 1, 1],
        true,
        Some(InterruptType::VBlank),
    );
    assert_eq!(r, Some((InterruptType::Timer, 0x50)));
    let r = highest_priority_interrupt(0x1F, 0x10, [0, 0, 0, 0, 0], false, None);
    assert_eq!(r, Some((InterruptType::Joypad, 0x60)));
}

#[test]
fn priority_none_only_when_nothing_pending() {
    assert_eq!(highest_priority_interrupt(0x00, 0x1F, [0, 1, 2, 3, 4], false, None), None);
    // A pending interrupt is served even at the lowest priority.
    assert_eq!(
        highest_priority_interrupt(0x04, 0x04, [0, 1, 255, 3, 4], false, None),
        Some((InterruptType::Timer, 0x50))
    );
    assert_eq!(
        highest_priority_interrupt(0x04, 0x04, [0, 1, 254, 3, 4], true, Some(InterruptType::Timer)),
        Some((InterruptType::Timer, 0x50))
    );
    assert_eq!(
        highest_priority_interrupt(0x05, 0x05, [255, 1, 255, 3, 4], false, None),
        Some((InterruptType::VBlank, 0x40))
    );
}

#[test]
fn ppu_timing_faults() {
    assert_eq!(validate_ppu_timing(154, 0, 2), Err(TimingFault::Scanline(154)));
    assert_eq!(validate_ppu_timing(10, 500, 0), Err(TimingFault::Dots(10, 500)));
    assert_eq!(validate_ppu_timing(10, 100, 0), Err(TimingFault::HBlankEarly(100)));
    assert_eq!(validate_ppu_timing(10, 300, 1), Err(TimingFault::VBlankEarly(10)));
    assert_eq!(validate_ppu_timing(10, 100, 2), Err(TimingFault::OamSearchLate(100)));
    assert_eq!(validate_ppu_timing(10, 50, 3), Err(TimingFault::TransferOutside(50)));
    assert_eq!(validate_ppu_timing(10, 100, 4), Err(TimingFault::Mode(4)));
    assert_eq!(validate_ppu_timing(150, 10, 1), Ok(()));
    assert_eq!(validate_ppu_timing(10, 300, 0), Ok(()));
    assert_eq!(validate_ppu_timing(10, 79, 2), Ok(()));
    assert_eq!(validate_ppu_timing(10, 251, 3), Ok(()));
}

#[test]
fn timer_timing_faults_and_constants() {
    assert_eq!(validate_timer_timing(0x04, 2049), Err(TimingFault::TimerOverdue(2049, 1024)));
    assert_eq!(validate_timer_timing(0x05, 33), Err(TimingFault::TimerOverdue(33, 16)));
    assert_eq!(validate_timer_timing(0x05, 32), Ok(()));
    assert_eq!(validate_timer_timing(0x03, 1_000_000), Ok(()));
    assert_eq!(get_ppu_timing_constants(), (154, 456));
    assert_eq!(get_timer_frequency_constants(), [(0, 1024), (1, 16), (2, 64), (3, 256)]);
}

#[test]
fn op_trace_keeps_last_sixty_four() {
    let mut t = OpTrace::new();
    assert!(t.get_last_ops().is_empty());
    for i in 0..70u16 {
        t.store_op(0x100 + i, i as u8);
    }
    let ops = t.get_last_ops();
    assert_eq!(ops.len(), 64);
    assert_eq!(ops[0], (0x106, 6));
    assert_eq!(ops[63], (0x145, 69));
    let z = DebugRegs::zeroed();
    assert_eq!((z.pc, z.a, z.sp, z.last_opcode), (0, 0, 0, 0));
}

fn rom_of_banks(n: usize) -> Vec<u8> {
    let mut rom = vec![0u8; n * 0x4000];
    for b in 0..n {
        rom[b * 0x4000] = b as u8;
        rom[b * 0x4000 + 1] = 0xA0 | (b as u8);
    }
    rom
}

#[test]
fn mbc_rom_only_reads_image_straight() {
    let m = MBCNone::new();
    let rom = vec![1u8, 2, 3];
    assert_eq!(m.read_rom(1, &rom, 1), 2);
    assert_eq!(m.read_rom(3, &rom, 1), 0xFF);
    assert!(!m.ram_enabled());
}

#[test]
fn mbc1_bank_zero_selects_one_and_modes() {
    let rom = rom_of_banks(64);
    let mut m = MBC1::new();
    assert_eq!(m.read_rom(0x4000, &rom, 64), 1);
    m.write(0x2000, 0x00);
    assert_eq!(m.rom_bank(), 1);
    m.write(0x2000, 0x05);
    assert_eq!(m.read_rom(0x4000, &rom, 64), 5);
    m.write(0x4000, 0x01);
    assert_eq!(m.rom_bank(), 0x25);
    assert_eq!(m.read_rom(0x4001, &rom, 64), 0xA0 | 0x25);
    assert_eq!(m.read_rom(0x0000, &rom, 64), 0);
    m.write(0x6000, 0x01);
    assert_eq!(m.read_rom(0x0000, &rom, 64), 0x20);
    assert_eq!(m.rom_bank(), 5);
    m.write(0x4000, 0x02);
    assert_eq!(m.ram_bank(), 2);
    m.write(0x0000, 0x0A);
    assert!(m.ram_enabled());
    m.write(0x0000, 0x1B);
    assert!(!m.ram_enabled());
}

#[test]
fn mbc3_rom_bank_and_clock_select() {
    let rom = rom_of_banks(8);
    let mut m = MBC3::new();
    m.write(0x2000, 0x80);
    assert_eq!(m.rom_bank(), 1);
    m.write(0x2000, 0x0B);
    assert_eq!(m.read_rom(0x4000, &rom, 8), 3);
    m.write(0x4000, 0x02);
    assert_eq!(m.ram_bank(), 2);
    m.write(0x4000, 0x09);
    assert_eq!(m.ram_bank(), 2);
    assert_eq!(m.read_rom(0x0001, &rom, 0), 0xA0);
}

#[test]
fn mbc5_nine_bit_rom_bank() {
    let mut m = MBC5::new();
    m.write(0x2000, 0x34);
    m.write(0x3000, 0x01);
    assert_eq!(m.rom_bank(), 0x134);
    m.write(0x2000, 0x00);
    assert_eq!(m.rom_bank(), 0x100);
    m.write(0x4000, 0x1F);
    assert_eq!(m.ram_bank(), 0x0F);
    let rom = rom_of_banks(4);
    m.write(0x3000, 0x00);
    m.write(0x2000, 0x06);
    assert_eq!(m.read_rom(0x4000, &rom, 4), 2);
}

#[test]
fn mbc_impl_dispatches_by_family() {
    let mut m = MBCImpl::new(MbcType::Mbc1);
    m.write(0x0000, 0x0A);
    assert!(m.ram_enabled());
    assert_eq!(m.rom_bank(), 1);
    let n = MBCImpl::new(MbcType::RomOnly);
    assert!(!n.ram_enabled());
    assert_eq!(n.rom_bank(), 0);
    let mut k = MBCImpl::new(MbcType::Mbc5);
    k.write(0x2000, 0x07);
    assert_eq!(k.rom_bank(), 7);
}

#[test]
fn joypad_key_slots_are_distinct() {
    let keys = [
        JoypadKey::A,
        JoypadKey::B,
        JoypadKey::Select,
        JoypadKey::Start,
        JoypadKey::Right,
        JoypadKey::Left,
        JoypadKey::Up,
        JoypadKey::Down,
    ];
    for (i, k) in keys.iter().enumerate() {
        assert_eq!(k.as_index(), i);
    }
}

#[test]
fn dummy_video_renders_white_frame() {
    let mut v = DummyVideoInterface::new();
    assert!(v.render().is_ok());
    let fb = v.get_framebuffer();
    assert_eq!(fb.len(), 160 * 144);
    assert!(fb.iter().all(|&p| p == 0xFFFF_FFFF));
    let _ = InputManager::new();
}

#[test]
fn bus_reads_back_ram_writes() {
    let mut bus = Bus::new();
    bus.write(0xC010, 0x42);
    bus.write(0xFF90, 0x24);
    bus.write(0xE010, 0x99);
    assert_eq!(bus.read(0xC010), 0x42);
    assert_eq!(bus.read(0xE010), 0x99);
    assert_eq!(bus.read(0xFF90), 0x24);
    assert_eq!(bus.read(0xC011), 0x00);
}

#[test]
fn bus_synth_settings_follow_sound_registers() {
    let mut bus = Bus::new();
    let s = bus.apu_synth_settings(false);
    assert!(!s.master_enable && !s.ch1_enable && !s.restart);
    bus.write(0xFF26, 0x80);
    bus.write(0xFF25, 0x11);
    bus.write(0xFF24, 0x73);
    bus.write(0xFF11, 0x80);
    bus.write(0xFF12, 0xF0);
    bus.write(0xFF13, 0x00);
    bus.write(0xFF14, 0x87);
    let s = bus.apu_synth_settings(false);
    assert!(s.master_enable);
    assert_eq!((s.left_level, s.right_level), (7, 3));
    assert_eq!((s.ch1_duty, s.ch1_volume, s.ch1_period), (2, 15, 0x700));
    assert!(s.ch1_enable);
    assert!(!s.ch2_enable);
    assert!(s.restart);
    bus.write(0xFF26, 0x00);
    let s = bus.apu_synth_settings(true);
    assert!(!s.master_enable && !s.ch1_enable && !s.restart);
}

fn bus_with_lcd_off() -> Bus {
    let mut b = Bus::new();
    b.write(0xFF40, 0x00);
    b
}

#[test]
fn bus_sprites_first_in_oam_order_win() {
    let mut b = bus_with_lcd_off();
    // Tile 1: color 3 on row 0; tile 2: color 1.
    b.write(0x8010, 0xFF);
    b.write(0x8011, 0xFF);
    b.write(0x8020, 0xFF);
    b.write(0x8021, 0x00);
    for (entry, x, tile) in [(0u16, 10u8, 1u8), (1, 6, 2)] {
        b.write(0xFE00 + entry * 4, 16);
        b.write(0xFE01 + entry * 4, 8 + x);
        b.write(0xFE02 + entry * 4, tile);
        b.write(0xFE03 + entry * 4, 0);
    }
    b.write(0xFF48, 0xE4);
    b.write(0xFF40, 0x82);
    b.step(456);
    for x in 6..10 {
        assert_eq!(b.get_fb_pixel(x, 0), 1);
    }
    for x in 10..18 {
        assert_eq!(b.get_fb_pixel(x, 0), 3);
    }
    assert_eq!(b.get_fb_pixel(18, 0), 0);
}

#[test]
fn bus_window_draws_from_wx() {
    let mut b = bus_with_lcd_off();
    // Window map at 0x9C00 uses tile 1 (color 3 on its rows); the background stays tile 0.
    for i in 0..32u16 {
        b.write(0x9C00 + i, 1);
    }
    b.write(0x8010, 0xFF);
    b.write(0x8011, 0xFF);
    b.write(0xFF47, 0xE4);
    b.write(0xFF4A, 0);
    b.write(0xFF4B, 7 + 80);
    b.write(0xFF40, 0xF1);
    b.step(456);
    assert_eq!(b.get_fb_pixel(79, 0), 0);
    assert_eq!(b.get_fb_pixel(80, 0), 3);
    assert_eq!(b.get_fb_pixel(159, 0), 3);
}

#[test]
fn bus_timer_counts_and_reloads() {
    let mut b = Bus::new();
    b.write(0xFF07, 0x05);
    b.write(0xFF06, 0x20);
    b.write(0xFF05, 0xFD);
    b.write(0xFF0F, 0x00);
    // Period 16: 48 cycles clock TIMA three times, overflowing once into TMA.
    b.step(48);
    assert_eq!(b.read(0xFF05), 0x20);
    assert_eq!(b.read(0xFF0F) & 0x04, 0x04);
}

#[test]
fn timing_fault_messages_name_the_values() {
    assert_eq!(TimingFault::Scanline(154).message(), "Invalid scanline: 154 (max 153)");
    assert_eq!(
        TimingFault::Dots(10, 500).message(),
        "Invalid dots for scanline 10: 500 (max 455)"
    );
    assert_eq!(
        TimingFault::HBlankEarly(100).message(),
        "HBlank mode at invalid dots: 100 (should be >= 252)"
    );
    assert_eq!(
        TimingFault::VBlankEarly(0).message(),
        "VBlank mode at invalid scanline: 0 (should be >= 144)"
    );
    assert_eq!(
        TimingFault::OamSearchLate(80).message(),
        "OAM Search mode at invalid dots: 80 (should be <= 79)"
    );
    assert_eq!(
        TimingFault::TransferOutside(252).message(),
        "Pixel Transfer mode at invalid dots: 252 (should be 80-251)"
    );
    assert_eq!(TimingFault::Mode(7).message(), "Invalid PPU mode: 7");
    assert_eq!(
        TimingFault::TimerOverdue(2049, 1024).message(),
        "Timer increment overdue: 2049 cycles since last increment (expected ~1024)"
    );
}

#[test]
fn bus_step_requests_vblank_on_entering_line_144_only() {
    let mut bus = Bus::new();
    bus.write(0xFF40, 0x80);
    bus.step(456 * 143);
    bus.write(0xFF0F, 0x00);
    bus.step(455);
    assert_eq!(bus.read(0xFF0F) & 0x01, 0);
    bus.step(1);
    assert_eq!(bus.read(0xFF44), 144);
    assert_ne!(bus.read(0xFF0F) & 0x01, 0);
}

#[test]
fn bus_step_without_stat_sources_requests_no_stat() {
    let mut bus = Bus::new();
    bus.write(0xFF40, 0x80);
    bus.write(0xFF41, 0x00);
    bus.write(0xFF0F, 0x00);
    bus.step(70224);
    assert_eq!(bus.read(0xFF0F) & 0x02, 0);
    assert_ne!(bus.read(0xFF0F) & 0x01, 0);
}
