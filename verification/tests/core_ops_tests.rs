use gbemu::emu_core::cpu::arithmetic;
use gbemu::emu_core::cpu::bit;
use gbemu::emu_core::cpu::cb;
use gbemu::emu_core::cpu::control;
use gbemu::emu_core::cpu::cpu::CPU;
use gbemu::emu_core::cpu::cycles;
use gbemu::emu_core::cpu::instruction::{AluRegOp, SimpleAluInstruction};
use gbemu::emu_core::cpu::jump;
use gbemu::emu_core::cpu::logic;
use gbemu::emu_core::cpu::register_utils::RegTarget;
use gbemu::emu_core::cpu::timer;
use gbemu::emu_core::cpu::undocumented;
use gbemu::emu_core::error::{Error, InstructionError};
use gbemu::emu_core::mmu::mmu::MMU;

const Z: u8 = 0x80;
const N: u8 = 0x40;
const H: u8 = 0x20;
const C: u8 = 0x10;

fn cpu() -> CPU {
    let mut c = CPU::new(MMU::new());
    c.registers.flags.value = 0;
    c.registers.h = 0xC0;
    c.registers.l = 0x10;
    c
}

fn flags(c: &CPU) -> u8 {
    c.registers.flags.value
}

#[test]
fn core_cpu_boot_state() {
    let c = CPU::new(MMU::new());
    assert_eq!(c.registers.a, 0x01);
    assert_eq!(c.registers.pc, 0x0100);
    assert_eq!(c.registers.sp, 0xFFFE);
    assert!(!c.ime && !c.halted && !c.stopped && !c.ime_scheduled);
}

#[test]
fn core_cpu_fetch_and_store() {
    let mut c = cpu();
    c.registers.pc = 0xC100;
    c.write_byte(0xC100, 0x34).unwrap();
    c.write_byte(0xC101, 0x12).unwrap();
    assert_eq!(c.fetch_word().ok(), Some(0x1234));
    assert_eq!(c.registers.pc, 0xC102);
    c.set_reg_value(RegTarget::HL, 0x99);
    assert_eq!(c.read_byte(0xC010).ok(), Some(0x99));
    c.set_reg_value(RegTarget::D, 0x42);
    assert_eq!(c.registers.d, 0x42);
    assert_eq!(CPU::opcode_len(0x3E), 3);
    assert_eq!(CPU::opcode_len(0xCB), 2);
    assert_eq!(CPU::opcode_len(0x00), 1);
}

#[test]
fn core_rl_through_carry() {
    let mut c = cpu();
    c.registers.b = 0x80;
    assert_eq!(bit::rl(&mut c, RegTarget::B), 2);
    assert_eq!(c.registers.b, 0x00);
    assert_eq!(flags(&c), Z | C);
    c.write_byte(0xC010, 0x41).unwrap();
    assert_eq!(bit::rl(&mut c, RegTarget::HL), 4);
    assert_eq!(c.read_byte(0xC010).ok(), Some(0x83));
    assert_eq!(flags(&c), 0);
}

#[test]
fn core_rr_sla_sra_srl() {
    let mut c = cpu();
    c.registers.flags.value = C;
    c.registers.a = 0x01;
    bit::rr(&mut c, RegTarget::A);
    assert_eq!(c.registers.a, 0x80);
    assert_eq!(flags(&c), C);
    c.registers.e = 0xC1;
    bit::sla(&mut c, RegTarget::E);
    assert_eq!(c.registers.e, 0x82);
    assert_eq!(flags(&c), C);
    c.registers.h = 0x81;
    bit::sra(&mut c, RegTarget::H);
    assert_eq!(c.registers.h, 0xC0);
    assert_eq!(flags(&c), C);
    c.registers.c = 0x01;
    bit::srl(&mut c, RegTarget::C);
    assert_eq!(c.registers.c, 0x00);
    assert_eq!(flags(&c), Z | C);
}

#[test]
fn core_fixed_cb_ops() {
    let mut c = cpu();
    c.registers.l = 0xF1;
    assert_eq!(bit::op_cb_35(&mut c), 2);
    assert_eq!(c.registers.l, 0x1F);
    c.registers.flags.value = C;
    c.registers.c = 0x40;
    bit::op_cb_11(&mut c);
    assert_eq!(c.registers.c, 0x81);
    assert_eq!(flags(&c), 0);
    c.registers.a = 0x03;
    bit::op_cb_3_f(&mut c);
    assert_eq!(c.registers.a, 0x01);
    assert_eq!(flags(&c), C);
    c.registers.d = 0x02;
    bit::op_cb_1_a(&mut c);
    assert_eq!(c.registers.d, 0x81);
}

#[test]
fn core_bit_and_set() {
    let mut c = cpu();
    c.registers.flags.value = C;
    c.registers.a = 0x80;
    assert_eq!(bit::bit(&mut c, 7, RegTarget::A), 2);
    assert_eq!(flags(&c), H | C);
    assert_eq!(bit::bit(&mut c, 0, RegTarget::HL), 3);
    assert_eq!(flags(&c), Z | H | C);
    assert_eq!(bit::set(&mut c, 3, RegTarget::HL), 4);
    assert_eq!(c.read_byte(0xC010).ok(), Some(0x08));
    assert!(matches!(bit::dispatch(&mut c, 0x12), Ok(4)));
}

#[test]
fn core_cb_memory_ops() {
    let mut c = cpu();
    c.write_byte(0xC010, 0x81).unwrap();
    assert_eq!(cb::set(&mut c, RegTarget::C), 16);
    assert_eq!(c.read_byte(0xC010).ok(), Some(0x83));
    assert_eq!(cb::res(&mut c, RegTarget::B), 16);
    assert_eq!(c.read_byte(0xC010).ok(), Some(0x82));
    assert_eq!(cb::bit(&mut c, RegTarget::C), 8);
    assert_eq!(flags(&c) & (Z | H), H);
    assert_eq!(cb::cb_misc(&mut c, RegTarget::A), 16);
    assert_eq!(c.read_byte(0xC010).ok(), Some(0x05));
    assert_eq!(flags(&c), C);
}

#[test]
fn core_cb_dispatch_errors() {
    let mut c = cpu();
    assert!(matches!(
        cb::dispatch(&mut c, 0x40),
        Err(Error::Instruction(InstructionError::InvalidRegister(0x40)))
    ));
    assert!(matches!(
        cb::dispatch(&mut c, 0x05),
        Err(Error::Instruction(InstructionError::InvalidOpcode(0x05)))
    ));
}

#[test]
fn core_arith_helpers() {
    let mut c = cpu();
    c.registers.b = 0x00;
    assert_eq!(arithmetic::dec_r(&mut c, RegTarget::B), 4);
    assert_eq!(c.registers.b, 0xFF);
    c.registers.a = 0xF0;
    c.registers.c = 0x20;
    arithmetic::add_a_r(&mut c, RegTarget::C, false);
    assert_eq!(c.registers.a, 0x10);
    assert_eq!(flags(&c), 0);
    c.registers.flags.value = C;
    c.registers.a = 0x0F;
    c.registers.d = 0x00;
    arithmetic::adc_a_r(&mut c, RegTarget::D);
    assert_eq!(c.registers.a, 0x10);
    assert_eq!(flags(&c), H);
    c.registers.flags.value = C;
    c.registers.a = 0x10;
    c.registers.e = 0x0F;
    arithmetic::sbc_a_r(&mut c, RegTarget::E);
    assert_eq!(c.registers.a, 0x00);
    assert_eq!(flags(&c), Z | N | H);
    c.registers.a = 0x05;
    arithmetic::sub_a_r(&mut c, RegTarget::A, false);
    assert_eq!(c.registers.a, 0x00);
}

#[test]
fn core_daa_after_addition() {
    let mut c = cpu();
    c.registers.a = 0x15 + 0x27;
    c.registers.flags.value = 0;
    assert_eq!(arithmetic::daa(&mut c), 4);
    assert_eq!(c.registers.a, 0x42);
    c.registers.a = 0x9A;
    c.registers.flags.value = 0;
    arithmetic::daa(&mut c);
    assert_eq!(c.registers.a, 0x00);
    assert_eq!(flags(&c), Z | C);
}

#[test]
fn core_immediate_add_sub() {
    let mut c = cpu();
    c.registers.pc = 0xC200;
    c.write_byte(0xC200, 0x01).unwrap();
    c.write_byte(0xC201, 0x02).unwrap();
    c.registers.a = 0xFF;
    arithmetic::add_a_n(&mut c, false);
    assert_eq!(c.registers.a, 0x00);
    assert_eq!(flags(&c), Z | H | C);
    arithmetic::sub_a_n(&mut c, false);
    assert_eq!(c.registers.a, 0xFE);
    assert_eq!(flags(&c), N | H | C);
    assert_eq!(c.registers.pc, 0xC202);
}

#[test]
fn core_arith_dispatch() {
    let mut c = cpu();
    c.registers.a = 0x3A;
    c.registers.b = 0xC6;
    assert!(matches!(arithmetic::dispatch(&mut c, 0x80), Ok(4)));
    assert_eq!(c.registers.a, 0x00);
    assert_eq!(flags(&c), Z | H | C);
    assert!(matches!(arithmetic::dispatch(&mut c, 0x37), Ok(4)));
    assert_eq!(flags(&c), Z | C);
    assert!(matches!(arithmetic::dispatch(&mut c, 0x3F), Ok(4)));
    assert_eq!(flags(&c), Z);
    assert!(matches!(arithmetic::dispatch(&mut c, 0x2F), Ok(4)));
    assert_eq!(c.registers.a, 0xFF);
    assert_eq!(flags(&c), Z | N | H);
    c.write_byte(0xC010, 0x01).unwrap();
    c.registers.flags.value = C;
    assert!(matches!(arithmetic::dispatch(&mut c, 0x8E), Ok(8)));
    assert_eq!(c.registers.a, 0x01);
    assert!(matches!(arithmetic::dispatch(&mut c, 0xBE), Ok(4)));
    assert_eq!(flags(&c), Z | N);
    c.registers.pc = 0x0200;
    c.mmu.memory[0x0201] = 0x0F;
    assert!(matches!(arithmetic::dispatch(&mut c, 0xE6), Ok(8)));
    assert_eq!(c.registers.a, 0x01);
    assert_eq!(c.registers.pc, 0x0201);
    assert!(matches!(
        arithmetic::dispatch(&mut c, 0x00),
        Err(Error::Instruction(InstructionError::InvalidOpcode(0x00)))
    ));
}

#[test]
fn core_logic_ops() {
    let mut c = cpu();
    c.registers.a = 0x5A;
    assert!(matches!(c.xor_a_r(RegTarget::A), Ok(1)));
    assert_eq!(c.registers.a, 0);
    assert_eq!(flags(&c), Z);
    assert!(matches!(
        c.cp_a_r(RegTarget::Immediate),
        Err(Error::Instruction(InstructionError::InvalidRegister(8)))
    ));
    c.registers.a = 0x10;
    c.write_byte(0xC010, 0x20).unwrap();
    assert!(matches!(c.cp_a_r(RegTarget::HL), Ok(2)));
    assert_eq!(flags(&c), N | C);
    c.registers.pc = 0xC300;
    c.write_byte(0xC300, 0x0F).unwrap();
    assert!(matches!(c.or_a_n(), Ok(2)));
    assert_eq!(c.registers.a, 0x1F);
    c.registers.b = 0x0F;
    c.registers.flags.value = C;
    assert_eq!(logic::inc_b(&mut c), 1);
    assert_eq!(c.registers.b, 0x10);
    assert_eq!(flags(&c), H | C);
    c.registers.c = 0x10;
    logic::dec_c(&mut c);
    assert_eq!(c.registers.c, 0x0F);
    assert_eq!(flags(&c), N | H | C);
    c.registers.a = 0x08;
    c.registers.b = 0x08;
    logic::add_a_b(&mut c);
    assert_eq!(c.registers.a, 0x10);
    assert_eq!(flags(&c), H);
}

#[test]
fn core_control_and_undocumented() {
    let mut c = cpu();
    c.registers.flags.value = 0xF0;
    assert_eq!(c.nop(), 4);
    assert_eq!(flags(&c), 0);
    c.registers.flags.value = 0xF0;
    assert!(matches!(undocumented::dispatch(&mut c, 0xFC), Ok(4)));
    assert_eq!(flags(&c), 0);
    assert!(matches!(
        undocumented::dispatch(&mut c, 0x01),
        Err(Error::Instruction(InstructionError::InvalidOpcode(0x01)))
    ));
    assert!(matches!(timer::dispatch(&mut c, 0x05), Ok(4)));
    assert!(matches!(timer::dispatch(&mut c, 0x07), Err(_)));
    assert!(matches!(jump::dispatch(&mut c, 0x00), Err(_)));
    assert!(matches!(control::dispatch(&mut c, 0x00), Ok(4)));
    assert_eq!(cycles::get_cycles(&c), 4);
    assert_eq!(cycles::LD_HL_N, 12);
}

#[test]
fn core_load_ops() {
    let mut c = cpu();
    c.registers.pc = 0xC400;
    c.write_byte(0xC400, 0x77).unwrap();
    c.write_byte(0xC401, 0xFE).unwrap();
    c.write_byte(0xC402, 0x00).unwrap();
    c.write_byte(0xC403, 0xC5).unwrap();
    assert!(matches!(c.ld_r_n(RegTarget::E), Ok(2)));
    assert_eq!(c.registers.e, 0x77);
    c.registers.sp = 0xFFF8;
    assert!(matches!(c.ld_hl_sp_r8(), Ok(3)));
    assert_eq!(c.registers.get_hl(), 0xFFF6);
    c.registers.sp = 0xBEEF;
    assert!(matches!(c.ld_nn_sp(), Ok(4)));
    assert_eq!(c.read_byte(0xC500).ok(), Some(0xEF));
    assert_eq!(c.read_byte(0xC501).ok(), Some(0xBE));
    c.registers.h = 0xC6;
    c.registers.l = 0xFF;
    c.registers.a = 0x42;
    assert!(matches!(c.ld_hli_a(), Ok(2)));
    assert_eq!(c.read_byte(0xC6FF).ok(), Some(0x42));
    assert_eq!(c.registers.get_hl(), 0xC700);
    c.registers.b = 0x99;
    assert!(matches!(c.ld_hl_r(RegTarget::B), Ok(2)));
    assert_eq!(c.read_byte(0xC700).ok(), Some(0x99));
}

#[test]
fn core_rotate_and_swap_laws_on_values() {
    let mut c = cpu();
    for v in [0x00u8, 0x01, 0x80, 0xA5, 0xFF] {
        for carry in [false, true] {
            c.registers.a = v;
            c.registers.flags.value = if carry { C } else { 0 };
            bit::rl(&mut c, RegTarget::A);
            bit::rr(&mut c, RegTarget::A);
            assert_eq!(c.registers.a, v);
            assert_eq!(flags(&c) & C != 0, carry);
        }
        c.registers.l = v;
        bit::op_cb_35(&mut c);
        bit::op_cb_35(&mut c);
        assert_eq!(c.registers.l, v);
    }
}

#[test]
fn core_daa_decimal_sums() {
    let mut c = cpu();
    for (x, y, sum, carry) in [(0x45u8, 0x38u8, 0x83u8, false), (0x99, 0x01, 0x00, true), (0x50, 0x50, 0x00, true), (0x09, 0x09, 0x18, false)] {
        c.registers.a = x;
        c.registers.b = y;
        logic::add_a_b(&mut c);
        arithmetic::daa(&mut c);
        assert_eq!(c.registers.a, sum);
        assert_eq!(flags(&c) & C != 0, carry);
    }
}

#[test]
fn core_execute_simple_alu_register_memory_and_immediate() {
    let mut c = CPU::new(MMU::new());
    c.registers.a = 0x3A;
    c.registers.b = 0xC6;
    c.execute_simple_alu(SimpleAluInstruction::RegOp(AluRegOp::Add, RegTarget::B));
    assert_eq!(c.registers.a, 0x00);
    assert_eq!(c.registers.flags.value & 0xF0, 0xB0);
    assert_eq!(c.registers.pc, 0x0101);
    // INC (HL) on work RAM: 0x0F -> 0x10 with half carry, carry cleared.
    c.registers.h = 0xC0;
    c.registers.l = 0x20;
    assert!(c.write_byte(0xC020, 0x0F).is_ok());
    c.execute_simple_alu(SimpleAluInstruction::RegOp(AluRegOp::Inc, RegTarget::HL));
    assert_eq!(c.read_byte(0xC020).unwrap(), 0x10);
    assert_eq!(c.registers.flags.value & 0xF0, 0x20);
    assert_eq!(c.registers.pc, 0x0102);
    // CP n against the byte after the opcode; A is kept.
    c.registers.a = 0x42;
    c.registers.pc = 0xC030;
    assert!(c.write_byte(0xC031, 0x42).is_ok());
    c.execute_simple_alu(SimpleAluInstruction::ImmOp(AluRegOp::Cp));
    assert_eq!(c.registers.a, 0x42);
    assert_eq!(c.registers.flags.value & 0xF0, 0xC0);
    assert_eq!(c.registers.pc, 0xC032);
}
