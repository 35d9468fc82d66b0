use chip8::cpu::Cpu;
use chip8::display::{
    Display, DrawResult, DISPLAY_HEIGHT, DISPLAY_PIXELS, DISPLAY_WIDTH, PIXEL_OFF, PIXEL_ON,
};
use chip8::fault::Fault;
use chip8::machine::CycleOutcome;

fn lit_pixels(display: &Display) -> Vec<(usize, usize)> {
    let mut lit = Vec::new();
    for y in 0..DISPLAY_HEIGHT {
        for x in 0..DISPLAY_WIDTH {
            if display.pixel(x, y) {
                lit.push((x, y));
            }
        }
    }
    lit
}

#[test]
fn dimensions() {
    assert_eq!(DISPLAY_WIDTH, 64);
    assert_eq!(DISPLAY_HEIGHT, 32);
    assert_eq!(DISPLAY_PIXELS, 64 * 32);
    assert_eq!(PIXEL_ON, 0xFFFFFF);
    assert_eq!(PIXEL_OFF, 0);
}

#[test]
fn new_display_is_dark() {
    let display = Display::new();
    assert!(lit_pixels(&display).is_empty());
}

#[test]
fn draw_sets_bits_most_significant_first() {
    let mut display = Display::new();
    let res = display.draw(3, 2, &vec![0b1010_0001]);
    assert_eq!(res, DrawResult { collision: false, updated: true });
    assert_eq!(lit_pixels(&display), vec![(3, 2), (5, 2), (10, 2)]);
}

#[test]
fn draw_puts_rows_below_each_other() {
    let mut display = Display::new();
    display.draw(0, 0, &vec![0x80, 0x40, 0x20]);
    assert_eq!(lit_pixels(&display), vec![(0, 0), (1, 1), (2, 2)]);
}

#[test]
fn first_draw_on_blank_does_not_collide() {
    let mut display = Display::new();
    let res = display.draw(10, 5, &vec![0xF0, 0x90, 0x90, 0x90, 0xF0]);
    assert_eq!(res, DrawResult { collision: false, updated: true });
    assert_eq!(lit_pixels(&display).len(), 14);
}

#[test]
fn second_draw_of_same_sprite_clears_it_and_collides() {
    let mut display = Display::new();
    let sprite = vec![0xF0, 0x90, 0x90, 0x90, 0xF0];
    display.draw(10, 5, &sprite);
    let res = display.draw(10, 5, &sprite);
    assert_eq!(res, DrawResult { collision: true, updated: true });
    assert!(lit_pixels(&display).is_empty());
}

#[test]
fn second_draw_restores_whatever_was_there() {
    let mut display = Display::new();
    display.draw(8, 4, &vec![0xAA, 0x55]);
    let before = lit_pixels(&display);
    let sprite = vec![0xFF, 0x0F];
    display.draw(10, 4, &sprite);
    assert_ne!(lit_pixels(&display), before);
    display.draw(10, 4, &sprite);
    assert_eq!(lit_pixels(&display), before);
}

#[test]
fn overlapping_draw_collides_and_xors() {
    let mut display = Display::new();
    display.draw(0, 0, &vec![0b1100_0000]);
    let res = display.draw(1, 0, &vec![0b1100_0000]);
    assert!(res.collision);
    assert_eq!(lit_pixels(&display), vec![(0, 0), (2, 0)]);
}

#[test]
fn adjacent_draw_does_not_collide() {
    let mut display = Display::new();
    display.draw(0, 0, &vec![0b1100_0000]);
    let res = display.draw(2, 0, &vec![0b1100_0000]);
    assert!(!res.collision);
    assert_eq!(lit_pixels(&display), vec![(0, 0), (1, 0), (2, 0), (3, 0)]);
}

#[test]
fn zero_bits_over_lit_pixels_do_not_collide() {
    let mut display = Display::new();
    display.draw(0, 0, &vec![0xFF]);
    let res = display.draw(0, 0, &vec![0x00]);
    assert_eq!(res, DrawResult { collision: false, updated: false });
    assert_eq!(lit_pixels(&display).len(), 8);
}

#[test]
fn all_zero_sprite_does_not_refresh() {
    let mut display = Display::new();
    let res = display.draw(5, 5, &vec![0x00, 0x00, 0x00]);
    assert_eq!(res, DrawResult { collision: false, updated: false });
    assert!(lit_pixels(&display).is_empty());
}

#[test]
fn empty_sprite_does_nothing() {
    let mut display = Display::new();
    let res = display.draw(5, 5, &vec![]);
    assert_eq!(res, DrawResult { collision: false, updated: false });
    assert!(lit_pixels(&display).is_empty());
}

#[test]
fn sprite_wraps_around_the_right_edge() {
    let mut display = Display::new();
    display.draw(60, 0, &vec![0xFF]);
    assert_eq!(
        lit_pixels(&display),
        vec![(0, 0), (1, 0), (2, 0), (3, 0), (60, 0), (61, 0), (62, 0), (63, 0)]
    );
}

#[test]
fn sprite_wraps_around_the_bottom_edge() {
    let mut display = Display::new();
    display.draw(0, 30, &vec![0x80, 0x80, 0x80, 0x80]);
    assert_eq!(lit_pixels(&display), vec![(0, 0), (0, 1), (0, 30), (0, 31)]);
}

#[test]
fn coordinates_are_taken_modulo_the_grid() {
    let mut a = Display::new();
    let mut b = Display::new();
    a.draw(64 + 7, 32 * 3 + 9, &vec![0xC3]);
    b.draw(7, 9, &vec![0xC3]);
    assert_eq!(lit_pixels(&a), lit_pixels(&b));
    let mut c = Display::new();
    c.draw(usize::MAX, usize::MAX, &vec![0x80, 0x80]);
    // usize::MAX is 63 mod 64 and 31 mod 32.
    assert_eq!(lit_pixels(&c), vec![(63, 0), (63, 31)]);
}

#[test]
fn sprite_longer_than_the_grid_collides_with_itself() {
    let mut display = Display::new();
    let mut sprite = vec![0u8; 33];
    sprite[0] = 0x80;
    sprite[32] = 0x80;
    let res = display.draw(0, 0, &sprite);
    assert_eq!(res, DrawResult { collision: true, updated: true });
    assert!(lit_pixels(&display).is_empty());
}

#[test]
fn clear_turns_everything_dark() {
    let mut display = Display::new();
    display.draw(0, 0, &vec![0xFF, 0xFF]);
    display.clear();
    assert!(lit_pixels(&display).is_empty());
}

#[test]
fn buffer_is_row_major_with_sink_colours() {
    let mut display = Display::new();
    display.draw(2, 1, &vec![0xA0]);
    let buffer = display.pixels_to_buffer();
    assert_eq!(buffer.len(), 2048);
    for (k, colour) in buffer.iter().enumerate() {
        let expected = if k == 64 + 2 || k == 64 + 4 { 0xFFFFFF } else { 0x000000 };
        assert_eq!(*colour, expected, "pixel {}", k);
    }
}

#[test]
fn drw_instruction_sets_collision_flag() {
    // LD V0, 10; LD V1, 5; LD I, font 0; DRW V0, V1, 5; DRW V0, V1, 5
    let mut cpu = Cpu::new();
    assert_eq!(
        cpu.load_rom(&[0x60, 0x0A, 0x61, 0x05, 0xA0, 0x00, 0xD0, 0x15, 0xD0, 0x15]),
        Ok(())
    );
    for _ in 0..3 {
        assert!(cpu.execute_cycle().is_ok());
    }
    assert_eq!(
        cpu.execute_cycle(),
        Ok(CycleOutcome::Completed { refresh: true, beep: false })
    );
    assert_eq!(cpu.v()[0xF], 0);
    assert_eq!(lit_pixels(cpu.display()).len(), 14);
    assert!(cpu.display().pixel(10, 5));
    assert!(cpu.display().pixel(13, 9));
    assert!(!cpu.display().pixel(14, 5));
    assert_eq!(
        cpu.execute_cycle(),
        Ok(CycleOutcome::Completed { refresh: true, beep: false })
    );
    assert_eq!(cpu.v()[0xF], 1);
    assert!(lit_pixels(cpu.display()).is_empty());
}

#[test]
fn drw_instruction_clears_a_stale_flag() {
    // LD VF, 7; LD I, font 0; DRW V0, V0, 5
    let mut cpu = Cpu::new();
    assert_eq!(cpu.load_rom(&[0x6F, 0x07, 0xA0, 0x00, 0xD0, 0x05]), Ok(()));
    for _ in 0..3 {
        assert!(cpu.execute_cycle().is_ok());
    }
    assert_eq!(cpu.v()[0xF], 0);
}

#[test]
fn drw_instruction_wraps_at_x_60() {
    // LD V0, 60; LD V1, 0; LD I, 0x300 (zero); store 0xFF there first.
    // LD V2, 0xFF; LD I, 0x300; LD [I], V2 stores V0..V2, so use V0 for the byte:
    // LD V0, 0xFF; LD I, 0x300; LD [I], V0; LD V0, 60; LD V1, 0; DRW V0, V1, 1
    let mut cpu = Cpu::new();
    assert_eq!(
        cpu.load_rom(&[
            0x60, 0xFF, 0xA3, 0x00, 0xF0, 0x55, 0x60, 0x3C, 0x61, 0x00, 0xD0, 0x11,
        ]),
        Ok(())
    );
    for _ in 0..6 {
        assert!(cpu.execute_cycle().is_ok());
    }
    assert_eq!(
        lit_pixels(cpu.display()),
        vec![(0, 0), (1, 0), (2, 0), (3, 0), (60, 0), (61, 0), (62, 0), (63, 0)]
    );
    assert_eq!(cpu.v()[0xF], 0);
}

#[test]
fn drw_instruction_with_no_rows() {
    // LD VF, 1; DRW V0, V0, 0: nothing is read or drawn, the flag is cleared.
    let mut cpu = Cpu::new();
    assert_eq!(cpu.load_rom(&[0x6F, 0x01, 0xD0, 0x00]), Ok(()));
    assert!(cpu.execute_cycle().is_ok());
    assert_eq!(
        cpu.execute_cycle(),
        Ok(CycleOutcome::Completed { refresh: false, beep: false })
    );
    assert_eq!(cpu.v()[0xF], 0);
    assert!(lit_pixels(cpu.display()).is_empty());
}

#[test]
fn drw_instruction_reading_past_memory_faults() {
    // LD I, 0xFFF; DRW V0, V0, 2
    let mut cpu = Cpu::new();
    assert_eq!(cpu.load_rom(&[0xAF, 0xFF, 0xD0, 0x02]), Ok(()));
    assert!(cpu.execute_cycle().is_ok());
    assert_eq!(cpu.execute_cycle(), Err(Fault::MemoryOutOfBounds { index: 0xFFF }));
    assert_eq!(cpu.pc(), 0x202);
    // One row still fits.
    let mut cpu = Cpu::new();
    assert_eq!(cpu.load_rom(&[0xAF, 0xFF, 0xD0, 0x01]), Ok(()));
    assert!(cpu.execute_cycle().is_ok());
    assert_eq!(
        cpu.execute_cycle(),
        Ok(CycleOutcome::Completed { refresh: false, beep: false })
    );
}
