use chip8::cpu::{read_word, Cpu};
use chip8::fault::Fault;
use chip8::machine::{
    CycleOutcome, FONTSET, FRAME_RATE, MEMORY_SIZE, PROGRAM_START, STACK_SIZE, V_SIZE,
};

#[test]
fn new_machine_is_reset() {
    let cpu = Cpu::new();
    assert_eq!(cpu.pc(), 0x200);
    assert_eq!(cpu.i(), 0);
    assert_eq!(cpu.sp(), 0);
    assert_eq!(cpu.delay_timer(), 0);
    assert_eq!(cpu.sound_timer(), 0);
    assert_eq!(cpu.v(), &[0u8; 16]);
    assert_eq!(&cpu.memory()[..80], &FONTSET[..]);
    assert!(cpu.memory()[80..].iter().all(|b| *b == 0));
    assert!(cpu.display().pixels_to_buffer().iter().all(|p| *p == 0));
    for key in 0..16 {
        assert!(!cpu.keypad().is_key_pressed(key));
    }
}

#[test]
fn constants() {
    assert_eq!(MEMORY_SIZE, 4096);
    assert_eq!(PROGRAM_START, 0x200);
    assert_eq!(STACK_SIZE, 16);
    assert_eq!(V_SIZE, 16);
    assert_eq!(FRAME_RATE, 150);
    assert_eq!(&FONTSET[0..5], &[0xF0, 0x90, 0x90, 0x90, 0xF0]);
    assert_eq!(&FONTSET[75..80], &[0xF0, 0x80, 0xF0, 0x80, 0x80]);
}

#[test]
fn rom_is_loaded_verbatim_at_program_start() {
    let mut cpu = Cpu::new();
    let rom: Vec<u8> = (0..=255u8).collect();
    assert_eq!(cpu.load_rom(&rom), Ok(()));
    assert_eq!(&cpu.memory()[0x200..0x300], &rom[..]);
    assert_eq!(cpu.memory()[0x1FF], 0);
    assert_eq!(cpu.memory()[0x300], 0);
    assert_eq!(&cpu.memory()[..80], &FONTSET[..]);
    assert_eq!(cpu.pc(), 0x200);
}

#[test]
fn empty_rom_loads() {
    let mut cpu = Cpu::new();
    assert_eq!(cpu.load_rom(&[]), Ok(()));
    assert!(cpu.memory()[80..].iter().all(|b| *b == 0));
}

#[test]
fn largest_rom_fills_memory_to_the_end() {
    let mut cpu = Cpu::new();
    let rom = vec![0xAB; 4096 - 0x200];
    assert_eq!(cpu.load_rom(&rom), Ok(()));
    assert_eq!(cpu.memory()[0x200], 0xAB);
    assert_eq!(cpu.memory()[0xFFF], 0xAB);
    assert_eq!(cpu.memory()[0x1FF], 0);
}

#[test]
fn rom_that_does_not_fit_is_refused() {
    let mut cpu = Cpu::new();
    let rom = vec![0xAB; 4096 - 0x200 + 1];
    assert_eq!(cpu.load_rom(&rom), Err(Fault::RomTooLarge { len: 3585 }));
    // Nothing was copied.
    assert!(cpu.memory()[0x200..].iter().all(|b| *b == 0));
}

#[test]
fn read_word_is_big_endian() {
    let mut memory = [0u8; 4096];
    memory[0x200] = 0x12;
    memory[0x201] = 0x34;
    memory[4094] = 0xAB;
    memory[4095] = 0xCD;
    assert_eq!(read_word(memory, 0x200), 0x1234);
    assert_eq!(read_word(memory, 0x201), 0x3400);
    assert_eq!(read_word(memory, 4094), 0xABCD);
    assert_eq!(read_word(memory, 0), 0);
}

#[test]
fn cls_then_jump_lands_exactly_on_target() {
    // CLS; JP 0x204; LD V0, 0x2A
    let mut cpu = Cpu::new();
    assert_eq!(cpu.load_rom(&[0x00, 0xE0, 0x12, 0x04, 0x60, 0x2A]), Ok(()));
    assert_eq!(
        cpu.execute_cycle(),
        Ok(CycleOutcome::Completed { refresh: false, beep: false })
    );
    assert_eq!(cpu.pc(), 0x202);
    assert!(cpu.display().pixels_to_buffer().iter().all(|p| *p == 0));
    assert_eq!(
        cpu.execute_cycle(),
        Ok(CycleOutcome::Completed { refresh: false, beep: false })
    );
    assert_eq!(cpu.pc(), 0x204);
    assert_eq!(
        cpu.execute_cycle(),
        Ok(CycleOutcome::Completed { refresh: false, beep: false })
    );
    assert_eq!(cpu.pc(), 0x206);
    assert_eq!(cpu.v()[0], 0x2A);
}

#[test]
fn cls_clears_what_was_drawn() {
    // LD I, font 0; DRW V0, V0, 5; CLS
    let mut cpu = Cpu::new();
    assert_eq!(cpu.load_rom(&[0xA0, 0x00, 0xD0, 0x05, 0x00, 0xE0]), Ok(()));
    assert!(cpu.execute_cycle().is_ok());
    assert_eq!(
        cpu.execute_cycle(),
        Ok(CycleOutcome::Completed { refresh: true, beep: false })
    );
    assert!(cpu.display().pixel(0, 0));
    assert_eq!(
        cpu.execute_cycle(),
        Ok(CycleOutcome::Completed { refresh: false, beep: false })
    );
    assert!(cpu.display().pixels_to_buffer().iter().all(|p| *p == 0));
}
