use chip8::cpu::Cpu;
use chip8::fault::Fault;
use chip8::keypad::{Keypad, KEY_COUNT, KEY_LAYOUT};
use chip8::machine::CycleOutcome;

fn snapshot(physical: &[usize]) -> [bool; 16] {
    let mut down = [false; 16];
    for p in physical {
        down[*p] = true;
    }
    down
}

#[test]
fn layout_is_the_usual_block() {
    assert_eq!(KEY_COUNT, 16);
    assert_eq!(
        KEY_LAYOUT,
        [0x1, 0x2, 0x3, 0xC, 0x4, 0x5, 0x6, 0xD, 0x7, 0x8, 0x9, 0xE, 0xA, 0x0, 0xB, 0xF]
    );
    let mut codes = KEY_LAYOUT.to_vec();
    codes.sort();
    assert_eq!(codes, (0..16).collect::<Vec<u8>>());
}

#[test]
fn new_keypad_has_no_key_pressed() {
    let keypad = Keypad::new();
    for key in 0..16 {
        assert!(!keypad.is_key_pressed(key));
    }
}

#[test]
fn update_maps_physical_keys_to_codes() {
    let mut keypad = Keypad::new();
    // Physical key 3 ('4') is code C, physical key 13 ('x') is code 0.
    keypad.update_keys(&snapshot(&[3, 13]));
    for key in 0..16u8 {
        assert_eq!(keypad.is_key_pressed(key), key == 0xC || key == 0x0, "key {}", key);
    }
}

#[test]
fn update_follows_every_position_of_the_layout() {
    for p in 0..16 {
        let mut keypad = Keypad::new();
        keypad.update_keys(&snapshot(&[p]));
        for key in 0..16u8 {
            assert_eq!(keypad.is_key_pressed(key), key == KEY_LAYOUT[p]);
        }
    }
}

#[test]
fn update_releases_keys_too() {
    let mut keypad = Keypad::new();
    keypad.update_keys(&[true; 16]);
    for key in 0..16 {
        assert!(keypad.is_key_pressed(key));
    }
    keypad.update_keys(&snapshot(&[0]));
    for key in 0..16u8 {
        assert_eq!(keypad.is_key_pressed(key), key == 0x1);
    }
}

#[test]
fn wait_returns_lowest_pressed_code() {
    let mut keypad = Keypad::new();
    // Codes D (physical 7), 4 (physical 4) and 9 (physical 10).
    keypad.update_keys(&snapshot(&[7, 4, 10]));
    let mut vx = 0xEE;
    assert!(keypad.wait_for_key_press(&mut vx));
    assert_eq!(vx, 0x4);
}

#[test]
fn wait_finds_code_zero_and_code_fifteen() {
    let mut keypad = Keypad::new();
    keypad.update_keys(&snapshot(&[13, 15]));
    let mut vx = 0xEE;
    assert!(keypad.wait_for_key_press(&mut vx));
    assert_eq!(vx, 0x0);
    keypad.update_keys(&snapshot(&[15]));
    assert!(keypad.wait_for_key_press(&mut vx));
    assert_eq!(vx, 0xF);
}

#[test]
fn wait_with_no_key_leaves_the_register_alone() {
    let keypad = Keypad::new();
    let mut vx = 0xEE;
    assert!(!keypad.wait_for_key_press(&mut vx));
    assert_eq!(vx, 0xEE);
}

#[test]
fn machine_waits_for_a_key_without_moving() {
    // LD V0, 3; LD DT, V0; LD V5, K
    let mut cpu = Cpu::new();
    assert_eq!(cpu.load_rom(&[0x60, 0x03, 0xF0, 0x15, 0xF5, 0x0A, 0x61, 0x01]), Ok(()));
    assert!(cpu.execute_cycle().is_ok());
    assert!(cpu.execute_cycle().is_ok());
    assert_eq!(cpu.delay_timer(), 2);
    for _ in 0..5 {
        assert_eq!(cpu.execute_cycle(), Ok(CycleOutcome::AwaitingKey));
        assert_eq!(cpu.pc(), 0x204);
        assert_eq!(cpu.delay_timer(), 2);
        assert_eq!(cpu.v()[5], 0);
    }
    // Codes 9 and B come down; the lower one is stored.
    cpu.update_keys(&snapshot(&[14, 10]));
    assert_eq!(
        cpu.execute_cycle(),
        Ok(CycleOutcome::Completed { refresh: false, beep: false })
    );
    assert_eq!(cpu.v()[5], 0x9);
    assert_eq!(cpu.pc(), 0x206);
    assert_eq!(cpu.delay_timer(), 1);
}

#[test]
fn machine_update_keys_changes_only_the_keypad() {
    let mut cpu = Cpu::new();
    assert_eq!(cpu.load_rom(&[0x60, 0x03]), Ok(()));
    assert!(cpu.execute_cycle().is_ok());
    cpu.update_keys(&snapshot(&[0]));
    assert!(cpu.keypad().is_key_pressed(0x1));
    assert!(!cpu.keypad().is_key_pressed(0x2));
    assert_eq!(cpu.pc(), 0x202);
    assert_eq!(cpu.v()[0], 3);
    assert_eq!(cpu.memory()[0x200], 0x60);
}

#[test]
fn skip_if_key_pressed() {
    // LD V0, 0xC; SKP V0
    let mut cpu = Cpu::new();
    assert_eq!(cpu.load_rom(&[0x60, 0x0C, 0xE0, 0x9E]), Ok(()));
    cpu.update_keys(&snapshot(&[3]));
    assert!(cpu.execute_cycle().is_ok());
    assert!(cpu.execute_cycle().is_ok());
    assert_eq!(cpu.pc(), 0x206);
    let mut cpu = Cpu::new();
    assert_eq!(cpu.load_rom(&[0x60, 0x0C, 0xE0, 0x9E]), Ok(()));
    cpu.update_keys(&snapshot(&[2]));
    assert!(cpu.execute_cycle().is_ok());
    assert!(cpu.execute_cycle().is_ok());
    assert_eq!(cpu.pc(), 0x204);
}

#[test]
fn skip_if_key_not_pressed() {
    // LD V0, 0xC; SKNP V0
    let mut cpu = Cpu::new();
    assert_eq!(cpu.load_rom(&[0x60, 0x0C, 0xE0, 0xA1]), Ok(()));
    cpu.update_keys(&snapshot(&[3]));
    assert!(cpu.execute_cycle().is_ok());
    assert!(cpu.execute_cycle().is_ok());
    assert_eq!(cpu.pc(), 0x204);
    let mut cpu = Cpu::new();
    assert_eq!(cpu.load_rom(&[0x60, 0x0C, 0xE0, 0xA1]), Ok(()));
    assert!(cpu.execute_cycle().is_ok());
    assert!(cpu.execute_cycle().is_ok());
    assert_eq!(cpu.pc(), 0x206);
}

#[test]
fn key_test_with_a_value_that_is_no_key_faults() {
    let mut cpu = Cpu::new();
    assert_eq!(cpu.load_rom(&[0x60, 0x10, 0xE0, 0x9E]), Ok(()));
    assert!(cpu.execute_cycle().is_ok());
    assert_eq!(cpu.execute_cycle(), Err(Fault::InvalidKey { key: 0x10 }));
    assert_eq!(cpu.pc(), 0x202);
    let mut cpu = Cpu::new();
    assert_eq!(cpu.load_rom(&[0x60, 0xFF, 0xE0, 0xA1]), Ok(()));
    assert!(cpu.execute_cycle().is_ok());
    assert_eq!(cpu.execute_cycle(), Err(Fault::InvalidKey { key: 0xFF }));
}
