use gbemu::emu_core::apu::{NoiseChannel, APU};
use gbemu::emu_core::cpu::decode_and_execute::{decode_and_execute, decode_and_execute_cb};
use gbemu::emu_core::cpu::flags::Flag;
use gbemu::emu_core::cpu::registers::Registers;
use gbemu::emu_core::error::{Error, InstructionError, RegTarget};
use gbemu::emu_core::mmu::mmu::MMU;
use gbemu::emu_core::ppu::pixel::set_pixel;
use gbemu::emu_core::ppu::ppu::PPU;
use gbemu::emu_core::ppu::sprite::{Sprite, SpriteFlags};
use gbemu::emu_core::ppu::tile::decode_tile;
use gbemu::emu_core::ppu::vram::VRAM;

fn regs_at(pc: u16) -> Registers {
    let mut r = Registers::new();
    r.pc = pc;
    r
}

#[test]
fn core_add_a_register_index_and_flags() {
    let mut r = regs_at(0xC000);
    let mut m = MMU::new();
    r.a = 0x3A;
    r.b = 0xC6;
    decode_and_execute(&mut r, &mut m, 0x81);
    assert_eq!(r.a, 0x00);
    assert_eq!(r.get_f() & 0xF0, 0x80 | 0x20 | 0x10);
    assert_eq!(r.pc, 0xC000);
    r.a = 0x3A;
    decode_and_execute(&mut r, &mut m, 0x80);
    assert_eq!(r.a, 0x74);
    assert_eq!(r.get_f() & 0xF0, 0x20);
}

#[test]
fn core_immediate_alu_reads_after_pc() {
    let mut r = regs_at(0xC000);
    let mut m = MMU::new();
    m.memory[0xC001] = 0x0F;
    r.a = 0x10;
    decode_and_execute(&mut r, &mut m, 0xD6);
    assert_eq!(r.a, 0x01);
    assert_eq!(r.get_f() & 0xF0, 0x40 | 0x20);
    decode_and_execute(&mut r, &mut m, 0xFE);
    assert_eq!(r.a, 0x01);
    assert_eq!(r.get_f() & 0xF0, 0x40 | 0x10 | 0x20);
    decode_and_execute(&mut r, &mut m, 0xE6);
    assert_eq!(r.a, 0x01);
    assert_eq!(r.get_f() & 0xF0, 0x20);
}

#[test]
fn core_call_and_ret_round_trip() {
    let mut r = regs_at(0xC000);
    let mut m = MMU::new();
    r.sp = 0xFFFE;
    m.memory[0xC001] = 0x34;
    m.memory[0xC002] = 0x12;
    decode_and_execute(&mut r, &mut m, 0xCD);
    assert_eq!(r.pc, 0x1234);
    assert_eq!(r.sp, 0xFFFC);
    assert_eq!(m.read_word(0xFFFC), 0xC003);
    decode_and_execute(&mut r, &mut m, 0xC9);
    assert_eq!(r.pc, 0xC003);
    assert_eq!(r.sp, 0xFFFE);
}

#[test]
fn core_conditional_call_not_taken_changes_nothing() {
    let mut r = regs_at(0xC000);
    let mut m = MMU::new();
    r.sp = 0xFFFE;
    r.update_flags(true, false, false, false);
    decode_and_execute(&mut r, &mut m, 0xC4);
    assert_eq!(r.pc, 0xC000);
    assert_eq!(r.sp, 0xFFFE);
}

#[test]
fn core_push_then_pop_moves_pair() {
    let mut r = regs_at(0xC000);
    let mut m = MMU::new();
    r.sp = 0xFFFE;
    r.set_bc(0xBEEF);
    decode_and_execute(&mut r, &mut m, 0xC5);
    assert_eq!(r.sp, 0xFFFC);
    decode_and_execute(&mut r, &mut m, 0xD1);
    assert_eq!(r.get_de(), 0xBEEF);
    assert_eq!(r.sp, 0xFFFE);
}

#[test]
fn core_ldh_stores_to_high_ram() {
    let mut r = regs_at(0xC000);
    let mut m = MMU::new();
    r.a = 0x77;
    m.memory[0xC001] = 0x80;
    decode_and_execute(&mut r, &mut m, 0xE0);
    assert_eq!(r.pc, 0xC002);
    assert_eq!(m.read_byte(0xFF80).ok(), Some(0x77));
    r.a = 0;
    r.pc = 0xC000;
    decode_and_execute(&mut r, &mut m, 0xF0);
    assert_eq!(r.a, 0x77);
}

#[test]
fn core_add_hl_sets_half_and_full_carry() {
    let mut r = regs_at(0xC000);
    let mut m = MMU::new();
    r.set_hl(0x8FFF);
    r.set_bc(0x8001);
    decode_and_execute(&mut r, &mut m, 0x09);
    assert_eq!(r.get_hl(), 0x1000);
    assert_eq!(r.get_f() & 0x70, 0x20 | 0x10);
    assert_eq!(r.pc, 0xC001);
}

#[test]
fn core_unknown_opcode_changes_nothing() {
    let mut r = regs_at(0xC000);
    let mut m = MMU::new();
    r.a = 5;
    decode_and_execute(&mut r, &mut m, 0x00);
    assert_eq!(r.a, 5);
    assert_eq!(r.pc, 0xC000);
}

#[test]
fn core_mmu_reads_back_written_ram() {
    let mut m = MMU::new();
    assert!(m.write_byte(0xC123, 0x5A).is_ok());
    assert!(m.write_byte(0x8010, 0x11).is_ok());
    assert!(m.write_byte(0xFF90, 0x22).is_ok());
    assert_eq!(m.read_byte(0xC123).ok(), Some(0x5A));
    assert_eq!(m.read_byte(0x8010).ok(), Some(0x11));
    assert_eq!(m.read_byte(0xFF90).ok(), Some(0x22));
    assert_eq!(m.read_byte(0xC124).ok(), Some(0x00));
}

#[test]
fn core_reg_target_rejects_large_index() {
    match RegTarget::from_bits(8) {
        Err(Error::Instruction(InstructionError::InvalidRegister(b))) => assert_eq!(b, 8),
        _ => panic!("index 8 must be rejected"),
    }
    assert_eq!(RegTarget::from_bits(0).ok(), Some(RegTarget::A));
}

#[test]
fn core_apu_mix_adds_routed_channels() {
    let apu = APU::new();
    let n = 10;
    let ch1 = vec![16u8; n];
    let ch2 = vec![7u8; n];
    let ch3 = vec![0u8; n];
    let ch4 = vec![35u8; n];
    let (l, r) = apu.mix(&ch1, &ch2, &ch3, &ch4, 1000, 10);
    assert_eq!(l.len(), 10);
    assert_eq!(r.len(), 10);
    assert!(l.iter().all(|&s| s == 16 + 7 + 35));
    let mut quiet = APU::new();
    quiet.left_enable = 0x01;
    quiet.right_enable = 0x08;
    quiet.master_volume = 3;
    let (l, r) = quiet.mix(&ch1, &ch2, &ch3, &ch4, 1000, 10);
    assert!(l.iter().all(|&s| s == 16 * 3 / 7));
    assert!(r.iter().all(|&s| s == 35 * 3 / 7));
}

#[test]
fn core_noise_wave_is_bounded_or_silent() {
    let mut ch = NoiseChannel::default();
    let silent = ch.generate_wave(44100, 10);
    assert_eq!(silent.len(), 441);
    assert!(silent.iter().all(|&s| s == 0));
    ch.enabled = true;
    ch.volume = 2;
    let noise = ch.generate_wave(44100, 10);
    assert_eq!(noise.len(), 441);
    assert!(noise.iter().all(|&s| s <= 32));
}

fn vram_with(bytes: &[(usize, u8)]) -> VRAM {
    let mut v = VRAM::new_with_buffer(None);
    for &(a, b) in bytes {
        v.write_byte(a, b);
    }
    v
}

#[test]
fn core_ppu_draws_background_tile_row() {
    let mut m = MMU::new();
    assert!(m.write_byte(0xFF47, 0xE4).is_ok());
    let vram = vram_with(&[(0, 0xFF), (1, 0x00)]);
    let mut ppu = PPU::new();
    ppu.lcdc = 0x91;
    ppu.tick(&m, &vram);
    let fb = ppu.get_framebuffer();
    assert_eq!(fb.len(), 160 * 144);
    assert_eq!(fb[0], (136, 192, 112));
    assert_eq!(fb[7], (136, 192, 112));
    assert_eq!(fb[160], (224, 248, 208));
    assert_eq!(ppu.bgp, 0xE4);
    assert_eq!(ppu.get_framebuffer_indices()[0], 136);
}

#[test]
fn core_ppu_display_off_is_white() {
    let m = MMU::new();
    let vram = vram_with(&[(0, 0xFF), (1, 0xFF)]);
    let mut ppu = PPU::new();
    ppu.lcdc = 0x11;
    ppu.tick(&m, &vram);
    assert!(ppu.get_framebuffer().iter().all(|&p| p == (224, 248, 208)));
}

#[test]
fn core_ppu_sprite_over_background() {
    let mut m = MMU::new();
    assert!(m.write_byte(0xFF47, 0xE4).is_ok());
    assert!(m.write_byte(0xFF48, 0xE4).is_ok());
    let vram = vram_with(&[(0, 0xFF), (16, 0x80), (17, 0x80)]);
    let mut ppu = PPU::new();
    ppu.lcdc = 0x93;
    ppu.oam[0] = 16;
    ppu.oam[1] = 8;
    ppu.oam[2] = 1;
    ppu.oam[3] = 0;
    ppu.run(2, &m, &vram);
    let fb = ppu.get_framebuffer();
    assert_eq!(fb[0], (8, 24, 32));
    assert_eq!(fb[1], (136, 192, 112));
}

#[test]
fn core_tile_pixel_and_sprite_helpers() {
    let mut data = vec![0u8; 64];
    for i in 0..64 {
        data[i] = i as u8;
    }
    let t = decode_tile(&data, 2);
    assert_eq!(t[0], 32);
    assert_eq!(t[15], 47);
    let mut fb = vec![0u8; 320];
    set_pixel(&mut fb, 3, 1, 2);
    set_pixel(&mut fb, 3, 5, 2);
    assert_eq!(fb[163], 2);
    assert_eq!(fb.iter().filter(|&&p| p != 0).count(), 1);
    let f = SpriteFlags::new(0xA0);
    assert!(f.priority() && !f.y_flip() && f.x_flip() && !f.palette());
    let s = Sprite::new(16, 8, 3, 0x10);
    assert!(s.flags.palette());
    assert_eq!((s.y, s.x, s.tile), (16, 8, 3));
}

#[test]
fn core_cb_rotate_hl_acts_on_memory() {
    let mut m = MMU::new();
    let mut r = Registers::new();
    r.set_hl(0xC010);
    let l_before = r.l;
    assert!(m.write_byte(0xC010, 0x85).is_ok());
    // RLC (HL)
    decode_and_execute_cb(&mut r, &mut m, 0x06);
    assert_eq!(m.read_byte(0xC010).unwrap(), 0x0B);
    assert_eq!(r.l, l_before);
    assert!(r.get_flag(Flag::C));
    assert!(!r.get_flag(Flag::Z));
    // SWAP (HL)
    decode_and_execute_cb(&mut r, &mut m, 0x36);
    assert_eq!(m.read_byte(0xC010).unwrap(), 0xB0);
    assert!(!r.get_flag(Flag::C));
    // SRL (HL) twice down to zero from 0x01
    assert!(m.write_byte(0xC010, 0x01).is_ok());
    decode_and_execute_cb(&mut r, &mut m, 0x3E);
    assert_eq!(m.read_byte(0xC010).unwrap(), 0x00);
    assert!(r.get_flag(Flag::Z));
    assert!(r.get_flag(Flag::C));
}

#[test]
fn core_vram_starts_zero_whatever_the_buffer() {
    let buf = [0xAAu8; 0x3000];
    let v = VRAM::new_with_buffer(Some(&buf));
    assert!(v.data.iter().all(|&b| b == 0));
    assert_eq!(v.data.len(), 0x2000);
}

#[test]
fn core_timer_div_counts_every_256_cycles() {
    let mut m = MMU::new();
    m.timer_tick(512);
    assert_eq!(m.io[0x04], 2);
    assert_eq!(m.timer_cycles, 0);
    m.timer_tick(300);
    assert_eq!(m.io[0x04], 3);
    assert_eq!(m.timer_cycles, 44);
}
