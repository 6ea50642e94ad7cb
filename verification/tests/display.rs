use chip8_core::cpu::CPU;
use chip8_core::model::CompatLevel;
use chip8_core::screen::Screen;

fn boot() -> CPU {
    CPU::new(Screen::new(64, 32, 10))
}

fn load(cpu: &mut CPU, addr: u16, words: &[u16]) {
    for (i, w) in words.iter().enumerate() {
        let a = addr + 2 * i as u16;
        cpu.write_mem(a, (w >> 8) as u8).unwrap();
        cpu.write_mem(a + 1, (w & 0xFF) as u8).unwrap();
    }
}

#[test]
fn screen_dimensions_scale() {
    let s = Screen::new(64, 32, 10);
    assert_eq!(s.get_width(), 640);
    assert_eq!(s.get_height(), 320);
}

#[test]
fn pixel_coordinates_wrap() {
    let mut s = Screen::new(64, 32, 1);
    s.set_pixel(70, 35, 1);
    assert_eq!(s.get_pixel(70 - 64, 35 - 32), 1);
    assert_eq!(s.get_pixel(70, 35), 1);
    assert_eq!(s.get_pixel(0, 0), 0);
}

#[test]
fn screen_clear_blanks_everything() {
    let mut s = Screen::new(64, 32, 1);
    s.set_pixel(3, 4, 1);
    s.set_pixel(63, 31, 1);
    s.clear();
    assert_eq!(s.get_pixel(3, 4), 0);
    assert_eq!(s.get_pixel(63, 31), 0);
}

#[test]
fn clear_screen_instruction() {
    let mut cpu = boot();
    cpu.screen.set_pixel(10, 10, 1);
    load(&mut cpu, 0x200, &[0x00E0]);
    cpu.step();
    assert_eq!(cpu.screen.get_pixel(10, 10), 0);
}

#[test]
fn sprite_draw_sets_pixels_and_flags_no_collision() {
    let mut cpu = boot();
    cpu.write_mem(0x300, 0x3C).unwrap();
    cpu.write_mem(0x301, 0x42).unwrap();
    load(&mut cpu, 0x200, &[0xA300, 0x6005, 0x6103, 0xD012]);
    for _ in 0..4 {
        cpu.step();
    }
    // row 0x3C = 00111100 starting at x = 5
    assert_eq!(cpu.screen.get_pixel(5, 3), 0);
    assert_eq!(cpu.screen.get_pixel(7, 3), 1);
    assert_eq!(cpu.screen.get_pixel(10, 3), 1);
    assert_eq!(cpu.screen.get_pixel(11, 3), 0);
    // row 0x42 = 01000010 on the next row
    assert_eq!(cpu.screen.get_pixel(6, 4), 1);
    assert_eq!(cpu.screen.get_pixel(11, 4), 1);
    assert_eq!(cpu.screen.get_pixel(7, 4), 0);
    assert_eq!(cpu.get_register(0xF), 0);
}

#[test]
fn sprite_redraw_restores_pixels_and_reports_collision() {
    let mut cpu = boot();
    cpu.write_mem(0x300, 0x3C).unwrap();
    cpu.write_mem(0x301, 0x42).unwrap();
    load(&mut cpu, 0x200, &[0xA300, 0x6005, 0x6103, 0xD012, 0xD012]);
    for _ in 0..4 {
        cpu.step();
    }
    assert_eq!(cpu.get_register(0xF), 0);
    cpu.step();
    assert_eq!(cpu.get_register(0xF), 1);
    for x in 0..64 {
        for y in 0..32 {
            assert_eq!(cpu.screen.get_pixel(x, y), 0);
        }
    }
}

#[test]
fn sprite_wraps_under_xochip() {
    let mut cpu = boot();
    cpu.set_compat(CompatLevel::XOChip);
    cpu.write_mem(0x300, 0xFF).unwrap();
    load(&mut cpu, 0x200, &[0xA300, 0x603C, 0x6100, 0xD011]);
    for _ in 0..4 {
        cpu.step();
    }
    for x in [60u8, 61, 62, 63, 0, 1, 2, 3] {
        assert_eq!(cpu.screen.get_pixel(x, 0), 1);
    }
    assert_eq!(cpu.screen.get_pixel(4, 0), 0);
}

#[test]
fn sprite_clips_under_chip48() {
    let mut cpu = boot();
    cpu.set_compat(CompatLevel::Chip48);
    cpu.write_mem(0x300, 0xFF).unwrap();
    load(&mut cpu, 0x200, &[0xA300, 0x603C, 0x6100, 0xD011]);
    for _ in 0..4 {
        cpu.step();
    }
    for x in [60u8, 61, 62, 63] {
        assert_eq!(cpu.screen.get_pixel(x, 0), 1);
    }
    for x in [0u8, 1, 2, 3] {
        assert_eq!(cpu.screen.get_pixel(x, 0), 0);
    }
}

#[test]
fn sprite_position_taken_modulo_grid() {
    let mut cpu = boot();
    cpu.write_mem(0x300, 0x80).unwrap();
    load(&mut cpu, 0x200, &[0xA300, 0x6040, 0x6120, 0xD011]);
    for _ in 0..4 {
        cpu.step();
    }
    // (64 mod 64, 32 mod 32) lands at the origin
    assert_eq!(cpu.screen.get_pixel(0, 0), 1);
}
