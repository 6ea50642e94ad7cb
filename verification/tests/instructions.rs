use chip8_core::cpu::CPU;
use chip8_core::model::{CompatLevel, StepOutcome};
use chip8_core::screen::Screen;

fn boot() -> CPU {
    CPU::new(Screen::new(64, 32, 10))
}

fn load(cpu: &mut CPU, addr: u16, words: &[u16]) {
    for (i, w) in words.iter().enumerate() {
        let a = addr + 2 * i as u16;
        cpu.write_mem(a, (w >> 8) as u8).unwrap();
        cpu.write_mem(a + 1, (w & 0xFF) as u8).unwrap();
    }
}

#[test]
fn set_imm_sets_register_and_advances_pc() {
    let mut cpu = boot();
    load(&mut cpu, 0x200, &[0x6A42]);
    assert_eq!(cpu.step(), StepOutcome::Executed);
    assert_eq!(cpu.get_register(0xA), 0x42);
    assert_eq!(cpu.get_pc(), 0x202);
}

#[test]
fn add_imm_wraps_and_leaves_vf() {
    let mut cpu = boot();
    load(&mut cpu, 0x200, &[0x60FE, 0x7005]);
    cpu.step();
    cpu.step();
    assert_eq!(cpu.get_register(0), (0xFEu16 + 0x05) as u8);
    assert_eq!(cpu.get_register(0xF), 0);
    assert_eq!(cpu.get_pc(), 0x204);
}

#[test]
fn add_regs_carry_flag() {
    let mut cpu = boot();
    load(&mut cpu, 0x200, &[0x60FF, 0x6101, 0x8014]);
    cpu.step();
    cpu.step();
    cpu.step();
    assert_eq!(cpu.get_register(0), 0x00);
    assert_eq!(cpu.get_register(0xF), 1);

    let mut cpu = boot();
    load(&mut cpu, 0x200, &[0x6001, 0x6101, 0x8014]);
    cpu.step();
    cpu.step();
    cpu.step();
    assert_eq!(cpu.get_register(0), 0x02);
    assert_eq!(cpu.get_register(0xF), 0);
}

#[test]
fn sub_regs_borrow_flag() {
    let mut cpu = boot();
    load(&mut cpu, 0x200, &[0x6005, 0x6103, 0x8015]);
    cpu.step();
    cpu.step();
    cpu.step();
    assert_eq!(cpu.get_register(0), 0x02);
    assert_eq!(cpu.get_register(0xF), 1);

    let mut cpu = boot();
    load(&mut cpu, 0x200, &[0x6003, 0x6105, 0x8015]);
    cpu.step();
    cpu.step();
    cpu.step();
    assert_eq!(cpu.get_register(0), 0xFE);
    assert_eq!(cpu.get_register(0xF), 0);
}

#[test]
fn sub_reversed_borrow_flag() {
    let mut cpu = boot();
    load(&mut cpu, 0x200, &[0x6003, 0x6105, 0x8017]);
    cpu.step();
    cpu.step();
    cpu.step();
    assert_eq!(cpu.get_register(0), 0x02);
    assert_eq!(cpu.get_register(0xF), 1);
}

#[test]
fn shift_right_quirk_chip8() {
    for prior in [0x00u8, 0x7F, 0xFF] {
        let mut cpu = boot();
        cpu.set_compat(CompatLevel::Chip8);
        load(&mut cpu, 0x200, &[0x6000 | prior as u16, 0x6103, 0x8016]);
        cpu.step();
        cpu.step();
        cpu.step();
        assert_eq!(cpu.get_register(0), 0x01);
        assert_eq!(cpu.get_register(0xF), 1);
    }
}

#[test]
fn shift_right_quirk_chip48() {
    let mut cpu = boot();
    cpu.set_compat(CompatLevel::Chip48);
    load(&mut cpu, 0x200, &[0x600F, 0x6103, 0x8016]);
    cpu.step();
    cpu.step();
    cpu.step();
    assert_eq!(cpu.get_register(0), 0x07);
    assert_eq!(cpu.get_register(0xF), 1);
}

#[test]
fn shift_left_sets_high_bit_flag() {
    let mut cpu = boot();
    load(&mut cpu, 0x200, &[0x6081, 0x801E]);
    cpu.step();
    cpu.step();
    assert_eq!(cpu.get_register(0), 0x02);
    assert_eq!(cpu.get_register(0xF), 1);
}

#[test]
fn logic_ops_reset_vf_only_on_chip8() {
    let mut cpu = boot();
    cpu.set_compat(CompatLevel::Chip8);
    load(&mut cpu, 0x200, &[0x6F05, 0x600C, 0x610A, 0x8011]);
    cpu.step();
    cpu.step();
    cpu.step();
    cpu.step();
    assert_eq!(cpu.get_register(0), 0x0C | 0x0A);
    assert_eq!(cpu.get_register(0xF), 0);

    let mut cpu = boot();
    cpu.set_compat(CompatLevel::Chip48);
    load(&mut cpu, 0x200, &[0x6F05, 0x600C, 0x610A, 0x8012]);
    cpu.step();
    cpu.step();
    cpu.step();
    cpu.step();
    assert_eq!(cpu.get_register(0), 0x0C & 0x0A);
    assert_eq!(cpu.get_register(0xF), 5);
}

#[test]
fn skip_if_equal_immediate() {
    let mut cpu = boot();
    load(&mut cpu, 0x200, &[0x6007, 0x3007]);
    cpu.step();
    cpu.step();
    assert_eq!(cpu.get_pc(), 0x206);

    let mut cpu = boot();
    load(&mut cpu, 0x200, &[0x6007, 0x3008]);
    cpu.step();
    cpu.step();
    assert_eq!(cpu.get_pc(), 0x204);
}

#[test]
fn skip_if_unequal_immediate() {
    let mut cpu = boot();
    load(&mut cpu, 0x200, &[0x6007, 0x4008]);
    cpu.step();
    cpu.step();
    assert_eq!(cpu.get_pc(), 0x206);
}

#[test]
fn skip_on_register_compare() {
    let mut cpu = boot();
    load(&mut cpu, 0x200, &[0x6009, 0x6109, 0x5010]);
    cpu.step();
    cpu.step();
    cpu.step();
    assert_eq!(cpu.get_pc(), 0x208);

    let mut cpu = boot();
    load(&mut cpu, 0x200, &[0x6009, 0x6108, 0x9010]);
    cpu.step();
    cpu.step();
    cpu.step();
    assert_eq!(cpu.get_pc(), 0x208);
}

#[test]
fn jump_with_offset_quirk() {
    let mut cpu = boot();
    cpu.set_compat(CompatLevel::Chip8);
    load(&mut cpu, 0x200, &[0x6004, 0xB300]);
    cpu.step();
    cpu.step();
    assert_eq!(cpu.get_pc(), 0x304);

    let mut cpu = boot();
    cpu.set_compat(CompatLevel::Chip48);
    load(&mut cpu, 0x200, &[0x6302, 0xB345]);
    cpu.step();
    cpu.step();
    assert_eq!(cpu.get_pc(), 0x347);
}

#[test]
fn random_byte_is_masked() {
    let mut cpu = boot();
    load(&mut cpu, 0x200, &[0xC0F0]);
    cpu.step();
    assert_eq!(cpu.get_register(0) & 0x0F, 0);
}

#[test]
fn key_state_skips() {
    let mut cpu = boot();
    cpu.key_down(5);
    load(&mut cpu, 0x200, &[0x6005, 0xE09E]);
    cpu.step();
    cpu.step();
    assert_eq!(cpu.get_pc(), 0x206);

    let mut cpu = boot();
    cpu.key_down(5);
    cpu.key_up(5);
    load(&mut cpu, 0x200, &[0x6005, 0xE0A1]);
    cpu.step();
    cpu.step();
    assert_eq!(cpu.get_pc(), 0x206);
}

#[test]
fn font_address_lookup() {
    let mut cpu = boot();
    load(&mut cpu, 0x200, &[0x600B, 0xF029]);
    cpu.step();
    cpu.step();
    assert_eq!(cpu.get_ir(), 0x050 + 0x0B * 5);
}

#[test]
fn bcd_decomposition() {
    let mut cpu = boot();
    load(&mut cpu, 0x200, &[0x60EA, 0xA300, 0xF033]);
    cpu.step();
    cpu.step();
    cpu.step();
    assert_eq!(cpu.read_mem(0x300).unwrap(), 2);
    assert_eq!(cpu.read_mem(0x301).unwrap(), 3);
    assert_eq!(cpu.read_mem(0x302).unwrap(), 4);
}

#[test]
fn store_and_load_register_range() {
    let mut cpu = boot();
    load(
        &mut cpu,
        0x200,
        &[0x6011, 0x6122, 0x6233, 0x6344, 0xA400, 0xF355, 0x6000, 0x6100, 0x6200, 0x6300, 0xF365],
    );
    for _ in 0..6 {
        cpu.step();
    }
    assert_eq!(cpu.read_mem(0x400).unwrap(), 0x11);
    assert_eq!(cpu.read_mem(0x403).unwrap(), 0x44);
    assert_eq!(cpu.get_ir(), 0x400);
    for _ in 0..5 {
        cpu.step();
    }
    assert_eq!(cpu.get_register(0), 0x11);
    assert_eq!(cpu.get_register(3), 0x44);
    assert_eq!(cpu.get_ir(), 0x400);
}

#[test]
fn store_range_advances_index_on_chip8() {
    let mut cpu = boot();
    cpu.set_compat(CompatLevel::Chip8);
    load(&mut cpu, 0x200, &[0x6011, 0xA400, 0xF155]);
    cpu.step();
    cpu.step();
    cpu.step();
    assert_eq!(cpu.get_ir(), 0x402);
}

#[test]
fn index_add_overflow_quirk() {
    let mut cpu = boot();
    cpu.set_compat(CompatLevel::Chip48);
    load(&mut cpu, 0x200, &[0xAFFF, 0x6002, 0xF01E]);
    cpu.step();
    cpu.step();
    cpu.step();
    assert_eq!(cpu.get_register(0xF), 1);
    assert_eq!(cpu.get_ir(), 0x002);

    let mut cpu = boot();
    cpu.set_compat(CompatLevel::Chip8);
    load(&mut cpu, 0x200, &[0xAFFF, 0x6002, 0xF01E]);
    cpu.step();
    cpu.step();
    cpu.step();
    assert_eq!(cpu.get_register(0xF), 0);
    assert_eq!(cpu.get_ir(), 0x1001);
}

#[test]
fn unimplemented_opcode_is_reported_and_skipped() {
    let mut cpu = boot();
    load(&mut cpu, 0x200, &[0xF0FF]);
    assert_eq!(cpu.step(), StepOutcome::Unimplemented(0xF0FF));
    assert_eq!(cpu.get_pc(), 0x202);
    assert!(!cpu.is_halted());
}
