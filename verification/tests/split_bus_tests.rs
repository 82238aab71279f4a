use gbemu::gb::bus_apu::BusAPU;
use gbemu::gb::bus_io::BusIO;
use gbemu::gb::bus_mem::BusMem;

fn parts() -> (BusMem, BusIO, BusAPU) {
    (BusMem::new(), BusIO::new(), BusAPU::new())
}

#[test]
fn split_bus_wram_round_trip() {
    let (mut m, mut io, mut apu) = parts();
    m.write(0xC123, 0x5A, &mut io, &mut apu);
    assert_eq!(m.read(0xC123, &io, &apu), 0x5A);
    m.write(0xFF80, 0x11, &mut io, &mut apu);
    assert_eq!(m.read(0xFF80, &io, &apu), 0x11);
}

#[test]
fn split_bus_without_cartridge_rom_area_is_ram() {
    let (mut m, mut io, mut apu) = parts();
    m.write(0x0100, 0x3C, &mut io, &mut apu);
    assert_eq!(m.read(0x0100, &io, &apu), 0x3C);
}

#[test]
fn split_bus_cartridge_rom_is_read_only() {
    let (mut m, mut io, mut apu) = parts();
    let mut rom = vec![0u8; 0x8000];
    rom[0x0150] = 0xAB;
    m.load_rom(rom);
    assert_eq!(m.rom_banks, 2);
    m.write(0x0150, 0x00, &mut io, &mut apu);
    assert_eq!(m.read(0x0150, &io, &apu), 0xAB);
}

#[test]
fn split_bus_mbc1_bank_switch() {
    let (mut m, mut io, mut apu) = parts();
    let mut rom = vec![0u8; 0x4000 * 4];
    rom[0x0147] = 0x01;
    rom[0x4000 * 2 + 0x10] = 0x22;
    rom[0x4000 * 3 + 0x10] = 0x33;
    rom[0x4000 + 0x10] = 0x11;
    m.load_rom(rom);
    assert_eq!(m.read(0x4010, &io, &apu), 0x11);
    m.write(0x2000, 0x03, &mut io, &mut apu);
    assert_eq!(m.read(0x4010, &io, &apu), 0x33);
    m.write(0x2000, 0x02, &mut io, &mut apu);
    assert_eq!(m.read(0x4010, &io, &apu), 0x22);
}

#[test]
fn split_bus_external_ram_needs_enable() {
    let (mut m, mut io, mut apu) = parts();
    let mut rom = vec![0u8; 0x8000];
    rom[0x0147] = 0x03;
    rom[0x0149] = 0x02;
    m.load_rom(rom);
    assert_eq!(m.ext_ram.len(), 0x2000);
    m.write(0xA010, 0x77, &mut io, &mut apu);
    assert_eq!(m.read(0xA010, &io, &apu), 0xFF);
    m.write(0x0000, 0x0A, &mut io, &mut apu);
    m.write(0xA010, 0x77, &mut io, &mut apu);
    assert_eq!(m.read(0xA010, &io, &apu), 0x77);
    m.write(0x0000, 0x00, &mut io, &mut apu);
    assert_eq!(m.read(0xA010, &io, &apu), 0xFF);
}

#[test]
fn split_bus_div_write_resets_and_clocks_timer() {
    let (mut m, mut io, mut apu) = parts();
    m.write(0xFF07, 0x05, &mut io, &mut apu);
    io.div_total = 1 << 4;
    io.div = 0x42;
    io.tima = 0x10;
    m.write(0xFF04, 0x99, &mut io, &mut apu);
    assert_eq!(io.div, 0);
    assert_eq!(io.div_total, 0);
    assert_eq!(io.tima, 0x11);
    assert_eq!(m.read(0xFF04, &io, &apu), 0);
}

#[test]
fn split_bus_div_write_without_edge_keeps_tima() {
    let (mut m, mut io, mut apu) = parts();
    m.write(0xFF07, 0x05, &mut io, &mut apu);
    io.div_total = 1 << 5;
    io.tima = 0x10;
    m.write(0xFF04, 0x00, &mut io, &mut apu);
    assert_eq!(io.tima, 0x10);
}

#[test]
fn split_bus_serial_transfer_requests_interrupt() {
    let (mut m, mut io, mut apu) = parts();
    m.write(0xFF01, b'H', &mut io, &mut apu);
    assert_eq!(m.read(0xFF01, &io, &apu), b'H');
    m.write(0xFF02, 0x81, &mut io, &mut apu);
    assert_eq!(io.sc, 0x01);
    assert_eq!(io.ifl & 0x08, 0x08);
    assert_eq!(m.read(0xFF02, &io, &apu), 0x7D);
    assert_eq!(m.read(0xFF0F, &io, &apu), 0xE8);
}

#[test]
fn split_bus_joypad_selection() {
    let (mut m, mut io, mut apu) = parts();
    io.set_joypad_rows(0x0E, 0x07);
    m.write(0xFF00, 0x20, &mut io, &mut apu);
    assert_eq!(m.read(0xFF00, &io, &apu), 0xE0 | 0x0E);
    m.write(0xFF00, 0x10, &mut io, &mut apu);
    assert_eq!(m.read(0xFF00, &io, &apu), 0xD0 | 0x07);
    m.write(0xFF00, 0x30, &mut io, &mut apu);
    assert_eq!(m.read(0xFF00, &io, &apu), 0xFF);
}

#[test]
fn split_bus_stat_reports_coincidence_and_mode() {
    let (mut m, mut io, mut apu) = parts();
    m.write(0xFF41, 0xFF, &mut io, &mut apu);
    assert_eq!(io.stat_w, 0x78);
    io.ly = 5;
    m.write(0xFF45, 5, &mut io, &mut apu);
    io.ppu_mode = 3;
    assert_eq!(m.read(0xFF41, &io, &apu), 0x80 | 0x78 | 0x04 | 0x03);
    m.write(0xFF44, 0x12, &mut io, &mut apu);
    assert_eq!(io.ly, 0);
}

#[test]
fn split_bus_dma_start() {
    let (mut m, mut io, mut apu) = parts();
    assert!(!io.is_dma_active());
    m.write(0xFF46, 0xC1, &mut io, &mut apu);
    assert!(io.is_dma_active());
    assert_eq!(io.dma_src_base, 0xC100);
}

#[test]
fn split_bus_sound_power_mirror() {
    let (mut m, mut io, mut apu) = parts();
    m.write(0xFF26, 0x80, &mut io, &mut apu);
    assert_eq!(m.read(0xFF26, &io, &apu), 0xF0 | 0x80);
    m.write(0xFF12, 0xF3, &mut io, &mut apu);
    assert_eq!(m.read(0xFF12, &io, &apu), 0xF3);
    assert_eq!(m.ram.read(0xFF12), 0xF3);
    m.write(0xFF26, 0x00, &mut io, &mut apu);
    assert_eq!(m.read(0xFF26, &io, &apu), 0xF0);
    assert_eq!(m.ram.read(0xFF12), 0x00);
    assert_eq!(m.ram.read(0xFF26), 0xF0);
}

#[test]
fn split_bus_apu_register_dispatch() {
    let mut apu = BusAPU::new();
    apu.write_apu_reg(0xFF26, 0x80);
    apu.write_apu_reg(0xFF24, 0x77);
    assert_eq!(apu.read_apu_reg(0xFF24), 0x77);
    apu.write_apu_reg(0xFF30, 0xAB);
    assert_eq!(apu.read_apu_reg(0xFF30), 0xAB);
    assert_eq!(apu.read_apu_reg(0xFF15), 0xFF);
}

#[test]
fn split_bus_joypad_press_requests_interrupt() {
    let mut io = BusIO::new();
    io.update_joypad(0x0F, 0x0F);
    assert_eq!(io.get_if_raw(), 0xE0);
    io.update_joypad(0x0E, 0x0F);
    assert_eq!(io.get_if_raw(), 0xF0);
    // A key held since the previous rows is no new press.
    io.set_if_raw(0x00);
    io.update_joypad(0x0E, 0x0F);
    assert_eq!(io.get_if_raw(), 0xE0);
    // Releasing it requests nothing; pressing it again does.
    io.update_joypad(0x0F, 0x0F);
    assert_eq!(io.get_if_raw(), 0xE0);
    io.update_joypad(0x0F, 0x07);
    assert_eq!(io.get_if_raw(), 0xF0);
    assert_eq!(io.get_ie_raw(), 0);
}

#[test]
fn split_bus_blank_frame() {
    let io = BusIO::new();
    assert_eq!(io.framebuffer().len(), 23040);
    assert!(io.framebuffer().iter().all(|&b| b == 0));
}

#[test]
fn split_bus_step_counts_div_and_timer() {
    let (mut m, mut io, mut apu) = parts();
    io.tac = 0x05;
    io.step(256, &mut m, &mut apu);
    assert_eq!(io.div, 1);
    assert_eq!(io.div_total, 0);
    assert_eq!(io.tima, 16);
    io.tima = 0xFF;
    io.tma = 0x42;
    io.step(16, &mut m, &mut apu);
    assert_eq!(io.tima, 0x42);
    assert_eq!(io.tima_reload_delay, 0);
    assert_eq!(io.ifl & 0x04, 0x04);
}

#[test]
fn split_bus_step_runs_oam_dma() {
    let (mut m, mut io, mut apu) = parts();
    for i in 0..160u16 {
        m.ram.write(0xC100 + i, (i as u8) ^ 0x5A);
    }
    io.dma_active = true;
    io.dma_src_base = 0xC100;
    io.step(40, &mut m, &mut apu);
    assert_eq!(io.dma_pos, 10);
    assert!(io.dma_active);
    io.step(600, &mut m, &mut apu);
    assert_eq!(io.dma_pos, 160);
    assert!(!io.dma_active);
    for i in 0..160u16 {
        assert_eq!(m.ram.read(0xFE00 + i), (i as u8) ^ 0x5A);
    }
}

#[test]
fn split_bus_step_draws_background_line() {
    let (mut m, mut io, mut apu) = parts();
    m.ram.write(0x8000, 0xFF);
    m.ram.write(0x8001, 0x00);
    io.lcdc = 0x91;
    io.bgp = 0xE4;
    io.step(456, &mut m, &mut apu);
    assert_eq!(io.ly, 1);
    assert!(io.framebuffer()[0..160].iter().all(|&s| s == 1));
    assert!(io.framebuffer()[160..320].iter().all(|&s| s == 0));
    io.step(456 * 143, &mut m, &mut apu);
    assert_eq!(io.ly, 144);
    assert_eq!(io.ppu_mode, 0);
    assert_eq!(io.ifl & 0x01, 0x01);
    io.step(4, &mut m, &mut apu);
    assert_eq!(io.ppu_mode, 1);
}

#[test]
fn split_bus_step_with_lcd_off_holds_ly() {
    let (mut m, mut io, mut apu) = parts();
    io.ly = 77;
    io.step(1000, &mut m, &mut apu);
    assert_eq!(io.ly, 0);
    assert_eq!(io.ppu_line_cycle, 0);
}

#[test]
fn split_bus_sprite_over_background() {
    let (mut m, mut io, mut apu) = parts();
    m.ram.write(0x8010, 0x80);
    m.ram.write(0x8011, 0x80);
    m.ram.write(0xFE00, 16);
    m.ram.write(0xFE01, 8 + 5);
    m.ram.write(0xFE02, 1);
    m.ram.write(0xFE03, 0);
    io.lcdc = 0x93;
    io.bgp = 0xE4;
    io.obp0 = 0xE4;
    io.step(456, &mut m, &mut apu);
    assert_eq!(io.framebuffer()[5], 3);
    assert_eq!(io.framebuffer()[4], 0);
    assert_eq!(io.framebuffer()[6], 0);
}

#[test]
fn split_bus_window_covers_right_half() {
    let (mut m, mut io, mut apu) = parts();
    for i in 0..32u16 {
        m.ram.write(0x9C00 + i, 1);
    }
    m.ram.write(0x8010, 0xFF);
    m.ram.write(0x8011, 0xFF);
    io.lcdc = 0xF1;
    io.bgp = 0xE4;
    io.wx = 7 + 80;
    io.wy = 0;
    io.step(456, &mut m, &mut apu);
    assert!(io.framebuffer()[0..80].iter().all(|&s| s == 0));
    assert!(io.framebuffer()[80..160].iter().all(|&s| s == 3));
    assert_eq!(io.win_tilemap_base, 0x9C00);
    assert_eq!(io.win_line, 1);
}

#[test]
fn split_bus_vram_and_oam_round_trip_leave_neighbours() {
    let (mut m, mut io, mut apu) = parts();
    m.write(0x8001, 0x42, &mut io, &mut apu);
    m.write(0xFE00, 0x24, &mut io, &mut apu);
    assert_eq!(m.read(0x8001, &io, &apu), 0x42);
    assert_eq!(m.read(0xFE00, &io, &apu), 0x24);
    assert_eq!(m.read(0x8000, &io, &apu), 0x00);
    assert_eq!(m.read(0xFE01, &io, &apu), 0x00);
}

fn put_sprite(m: &mut BusMem, entry: u16, y: u8, x: u8, tile: u8, flags: u8) {
    let base = 0xFE00 + entry * 4;
    m.ram.write(base, y);
    m.ram.write(base + 1, x);
    m.ram.write(base + 2, tile);
    m.ram.write(base + 3, flags);
}

#[test]
fn split_bus_sprite_smaller_x_wins_overlap() {
    let (mut m, mut io, mut apu) = parts();
    // Tile 1: color 3 on every column of row 0; tile 2: color 1.
    m.ram.write(0x8010, 0xFF);
    m.ram.write(0x8011, 0xFF);
    m.ram.write(0x8020, 0xFF);
    m.ram.write(0x8021, 0x00);
    put_sprite(&mut m, 0, 16, 8 + 10, 1, 0);
    put_sprite(&mut m, 1, 16, 8 + 6, 2, 0);
    io.lcdc = 0x82;
    io.obp0 = 0xE4;
    io.step(456, &mut m, &mut apu);
    let fb = io.framebuffer();
    assert!(fb[6..14].iter().all(|&s| s == 1));
    assert!(fb[14..18].iter().all(|&s| s == 3));
    assert_eq!(fb[5], 0);
    assert_eq!(fb[18], 0);
}

#[test]
fn split_bus_sprite_same_x_lower_oam_wins() {
    let (mut m, mut io, mut apu) = parts();
    m.ram.write(0x8010, 0xFF);
    m.ram.write(0x8011, 0xFF);
    m.ram.write(0x8020, 0xFF);
    m.ram.write(0x8021, 0x00);
    put_sprite(&mut m, 0, 16, 8 + 20, 2, 0);
    put_sprite(&mut m, 1, 16, 8 + 20, 1, 0);
    io.lcdc = 0x82;
    io.obp0 = 0xE4;
    io.step(456, &mut m, &mut apu);
    assert!(io.framebuffer()[20..28].iter().all(|&s| s == 1));
}

#[test]
fn split_bus_sprite_priority_hides_behind_background() {
    let (mut m, mut io, mut apu) = parts();
    // Background tile 0 row 0: color 1 everywhere; sprite tile 1: color 3.
    m.ram.write(0x8000, 0xFF);
    m.ram.write(0x8010, 0xFF);
    m.ram.write(0x8011, 0xFF);
    put_sprite(&mut m, 0, 16, 8 + 0, 1, 0x80);
    put_sprite(&mut m, 1, 16, 8 + 40, 1, 0x10);
    io.lcdc = 0x93;
    io.bgp = 0xE4;
    io.obp1 = 0x00;
    io.step(456, &mut m, &mut apu);
    let fb = io.framebuffer();
    // Behind background color 1: the background shade shows.
    assert!(fb[0..8].iter().all(|&s| s == 1));
    // The second sprite uses OBP1, which maps every color to shade 0.
    assert!(fb[40..48].iter().all(|&s| s == 0));
    assert_eq!(fb[48], 1);
}

#[test]
fn split_bus_at_most_ten_sprites_per_line() {
    let (mut m, mut io, mut apu) = parts();
    m.ram.write(0x8010, 0xFF);
    m.ram.write(0x8011, 0xFF);
    for e in 0..11u16 {
        put_sprite(&mut m, e, 16, 8 + (e as u8) * 10, 1, 0);
    }
    io.lcdc = 0x82;
    io.obp0 = 0xE4;
    io.step(456, &mut m, &mut apu);
    let fb = io.framebuffer();
    assert!(fb[90..98].iter().all(|&s| s == 3));
    assert!(fb[100..108].iter().all(|&s| s == 0));
}

#[test]
fn split_bus_tall_sprite_flipped() {
    let (mut m, mut io, mut apu) = parts();
    // 8x16 sprite with tile pair 2/3, flipped vertically: line 0 shows row 7 of tile 3.
    m.ram.write(0x8030 + 14, 0x80);
    m.ram.write(0x8030 + 15, 0x00);
    put_sprite(&mut m, 0, 16, 8, 2, 0x40);
    io.lcdc = 0x86;
    io.obp0 = 0xE4;
    io.step(456, &mut m, &mut apu);
    let fb = io.framebuffer();
    assert_eq!(fb[0], 1);
    assert!(fb[1..8].iter().all(|&s| s == 0));
}
