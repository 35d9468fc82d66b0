//! The mathematical model of the machine: its state as plain sequences and
//! numbers, and the meaning of every instruction and of a whole cycle as
//! functions on that state. The interpreter is proved against this model.

use vstd::prelude::*;
use crate::display::{blank_grid, draw_sprite, grid_wf, has_ink, Grid};
use crate::fault::Fault;
use crate::instruction::{decoded, Instruction};
use crate::keypad::{lowest_pressed, KEY_COUNT};

verus! {

/// Size of the memory in bytes.
pub const MEMORY_SIZE: usize = 4096;

/// Number of return addresses that the call stack holds.
pub const STACK_SIZE: usize = 16;

/// Number of general-purpose registers.
pub const V_SIZE: usize = 16;

/// The register that doubles as carry, borrow and collision flag.
pub const FLAG_REGISTER: u8 = 0xF;

/// Address at which programs are loaded and start.
pub const PROGRAM_START: usize = 0x200;

/// The greatest address at which a two-byte instruction word still lies
/// within memory.
pub const LAST_INSTRUCTION: u16 = 4094;

/// Number of bytes of one font sprite.
pub const FONT_SPRITE_SIZE: u16 = 5;

/// Cycles per second that the host is meant to run. The timers count cycles,
/// so this is also the rate at which they run down.
pub const FRAME_RATE: u64 = 150;

/// The built-in font: sixteen sprites of five bytes, for the digits 0 to F,
/// which lie at the bottom of memory.
pub const FONTSET: [u8; 80] = [
    0xF0, 0x90, 0x90, 0x90, 0xF0,
    0x20, 0x60, 0x20, 0x20, 0x70,
    0xF0, 0x10, 0xF0, 0x80, 0xF0,
    0xF0, 0x10, 0xF0, 0x10, 0xF0,
    0x90, 0x90, 0xF0, 0x10, 0x10,
    0xF0, 0x80, 0xF0, 0x10, 0xF0,
    0xF0, 0x80, 0xF0, 0x90, 0xF0,
    0xF0, 0x10, 0x20, 0x40, 0x40,
    0xF0, 0x90, 0xF0, 0x90, 0xF0,
    0xF0, 0x90, 0xF0, 0x10, 0xF0,
    0xF0, 0x90, 0xF0, 0x90, 0x90,
    0xE0, 0x90, 0xE0, 0x90, 0xE0,
    0xF0, 0x80, 0x80, 0x80, 0xF0,
    0xE0, 0x90, 0x90, 0x90, 0xE0,
    0xF0, 0x80, 0xF0, 0x80, 0xF0,
    0xF0, 0x80, 0xF0, 0x80, 0x80,
];

/// What an instruction asks of the program counter once it has run.
#[derive(Clone, Copy, Debug, PartialEq, Eq, Structural)]
pub enum NiEnum {
    /// Go on with the next instruction.
    Next,
    /// Skip the next instruction.
    Skip,
    /// Continue at the given address.
    Jump(u16),
}

/// How an instruction ended, short of a fault.
#[derive(Clone, Copy, Debug, PartialEq, Eq, Structural)]
pub enum Step {
    /// It ran. `refresh` tells that it drew on the display, which has to be
    /// presented again.
    Advance { directive: NiEnum, refresh: bool },
    /// It waits for a key and none is held down: nothing has changed, and the
    /// same instruction is to be run again once the keypad has been refreshed.
    AwaitKey,
}

/// How a cycle ended, short of a fault.
#[derive(Clone, Copy, Debug, PartialEq, Eq, Structural)]
pub enum CycleOutcome {
    /// An instruction ran, the timers ticked and the program counter moved.
    /// `refresh` asks the host to present the display again, `beep` to sound
    /// the tone.
    Completed { refresh: bool, beep: bool },
    /// The machine waits for a key. Nothing has changed, not even the timers;
    /// the host refreshes the keypad and runs the cycle again.
    AwaitingKey,
}

/// The state of the machine.
#[verifier::ext_equal]
pub struct MachineState {
    /// The memory, `MEMORY_SIZE` bytes.
    pub memory: Seq<u8>,
    /// The registers V0 to VF.
    pub v: Seq<u8>,
    /// The index register.
    pub i: u16,
    /// The program counter.
    pub pc: u16,
    /// The slots of the call stack, `STACK_SIZE` of them. The first `sp`
    /// hold the return addresses of the calls in progress, the innermost
    /// last; the others hold what earlier calls have left there, and zero
    /// at first.
    pub stack: Seq<u16>,
    /// The stack pointer: the number of calls in progress.
    pub sp: u8,
    /// The delay timer.
    pub delay_timer: u8,
    /// The sound timer.
    pub sound_timer: u8,
    /// The keypad: one flag per key code.
    pub keys: Seq<bool>,
    /// The display.
    pub display: Grid,
}

/// A number reduced to a byte, as 8-bit arithmetic does.
pub open spec fn wrap(n: int) -> u8 {
    (n % 0x100) as u8
}

/// A condition as the flag register holds it.
pub open spec fn flag(b: bool) -> u8 {
    if b {
        1
    } else {
        0
    }
}

/// The directive of a conditional skip.
pub open spec fn skip_if(b: bool) -> NiEnum {
    if b {
        NiEnum::Skip
    } else {
        NiEnum::Next
    }
}

/// The big-endian 16-bit word at address `a`.
pub open spec fn word_at(memory: Seq<u8>, a: int) -> u16 {
    (memory[a] * 0x100 + memory[a + 1]) as u16
}

/// The three decimal digits of a byte, hundreds first.
pub open spec fn bcd(b: u8) -> (u8, u8, u8) {
    (b / 100, b / 10 % 10, b % 10)
}

/// The state left by an instruction that ran, and its directive.
pub open spec fn ran(s: MachineState, directive: NiEnum) -> (MachineState, Result<Step, Fault>) {
    (s, Ok(Step::Advance { directive, refresh: false }))
}

/// The state left by a conditional step: the new state and `Next` if the
/// step went through, the old state and the fault if it did not.
pub open spec fn ran_or_halted(
    s: MachineState,
    t: Result<MachineState, Fault>,
    directive: NiEnum,
) -> (MachineState, Result<Step, Fault>) {
    match t {
        Ok(t) => ran(t, directive),
        Err(fault) => (s, Err(fault)),
    }
}

impl MachineState {
    /// The dimensions are right, the stack pointer stays within the stack,
    /// and every return address is one at which an instruction was fetched.
    pub open spec fn wf(self) -> bool {
        &&& self.memory.len() == MEMORY_SIZE
        &&& self.v.len() == V_SIZE
        &&& self.stack.len() == STACK_SIZE
        &&& self.sp <= STACK_SIZE
        &&& forall|k: int| 0 <= k < self.sp ==> self.stack[k] <= LAST_INSTRUCTION
        &&& self.keys.len() == KEY_COUNT
        &&& grid_wf(self.display)
    }

    /// The machine as it is switched on: the font at the bottom of a memory
    /// that is zero elsewhere, the program counter at `PROGRAM_START`, and
    /// everything else zero, empty, dark or released.
    pub open spec fn initial() -> MachineState {
        MachineState {
            memory: Seq::new(
                MEMORY_SIZE as nat,
                |a: int|
                    if a < 80 {
                        FONTSET[a]
                    } else {
                        0u8
                    },
            ),
            v: Seq::new(V_SIZE as nat, |k: int| 0u8),
            i: 0,
            pc: PROGRAM_START as u16,
            stack: Seq::new(STACK_SIZE as nat, |k: int| 0u16),
            sp: 0,
            delay_timer: 0,
            sound_timer: 0,
            keys: Seq::new(KEY_COUNT as nat, |k: int| false),
            display: blank_grid(),
        }
    }

    /// The state with the program `rom` in memory from `PROGRAM_START` on,
    /// or the fault if it does not fit.
    pub open spec fn with_rom(self, rom: Seq<u8>) -> Result<MachineState, Fault> {
        if rom.len() > MEMORY_SIZE - PROGRAM_START {
            Err(Fault::RomTooLarge { len: rom.len() as usize })
        } else {
            Ok(
                MachineState {
                    memory: Seq::new(
                        MEMORY_SIZE as nat,
                        |a: int|
                            if PROGRAM_START <= a < PROGRAM_START + rom.len() {
                                rom[a - PROGRAM_START]
                            } else {
                                self.memory[a]
                            },
                    ),
                    ..self
                },
            )
        }
    }

    /// The state with register `x` set to `b`.
    pub open spec fn set_v(self, x: u8, b: u8) -> MachineState {
        MachineState { v: self.v.update(x as int, b), ..self }
    }

    /// The state with the flag register set to tell `b`.
    pub open spec fn set_flag(self, b: bool) -> MachineState {
        self.set_v(FLAG_REGISTER, flag(b))
    }

    /// CLS: the display goes dark.
    pub open spec fn cls(self) -> MachineState {
        MachineState { display: blank_grid(), ..self }
    }

    /// RET: the stack pointer goes down by one, and the return address to
    /// which it then points, which stays in its slot, becomes the
    /// program counter, from which the machine then steps on to the
    /// instruction after the call.
    pub open spec fn ret(self) -> Result<MachineState, Fault> {
        if self.sp == 0 {
            Err(Fault::StackUnderflow)
        } else {
            Ok(MachineState { pc: self.stack[self.sp - 1], sp: (self.sp - 1) as u8, ..self })
        }
    }

    /// CALL: the program counter goes into the slot at the stack pointer,
    /// which goes up by one. No other slot changes.
    pub open spec fn call(self) -> Result<MachineState, Fault> {
        if self.sp >= STACK_SIZE {
            Err(Fault::StackOverflow)
        } else {
            Ok(
                MachineState {
                    stack: self.stack.update(self.sp as int, self.pc),
                    sp: (self.sp + 1) as u8,
                    ..self
                },
            )
        }
    }

    /// ADD Vx, byte: wrapping, the flag register is not touched.
    pub open spec fn add_byte(self, x: u8, kk: u8) -> MachineState {
        self.set_v(x, wrap(self.v[x as int] + kk))
    }

    /// ADD Vx, Vy: wrapping; VF is 1 exactly if the sum did not fit a byte.
    /// The flag is written last, so it wins where `x` is the flag register.
    pub open spec fn add_register(self, x: u8, y: u8) -> MachineState {
        let sum = self.v[x as int] + self.v[y as int];
        self.set_v(x, wrap(sum)).set_flag(sum > 0xFF)
    }

    /// SUB Vx, Vy: wrapping; VF is 1 exactly if there was no borrow, that
    /// is if `Vx >= Vy` before. The flag is written last.
    pub open spec fn sub_register(self, x: u8, y: u8) -> MachineState {
        let vx = self.v[x as int];
        let vy = self.v[y as int];
        self.set_v(x, wrap(vx - vy)).set_flag(vx >= vy)
    }

    /// SUBN Vx, Vy: `Vx` becomes `Vy - Vx`, wrapping; VF is 1 exactly if
    /// there was no borrow, that is if `Vy >= Vx` before. The flag is written
    /// last.
    pub open spec fn subn_register(self, x: u8, y: u8) -> MachineState {
        let vx = self.v[x as int];
        let vy = self.v[y as int];
        self.set_v(x, wrap(vy - vx)).set_flag(vy >= vx)
    }

    /// SHR Vx: `Vx` is halved; VF gets the lowest bit that `Vx` had. The
    /// flag is written first, so the result wins where `x` is the flag
    /// register.
    pub open spec fn shr_register(self, x: u8) -> MachineState {
        let vx = self.v[x as int];
        self.set_flag(vx % 2 == 1).set_v(x, vx / 2)
    }

    /// SHL Vx: `Vx` is doubled, wrapping; VF gets the highest bit that `Vx`
    /// had. The flag is written first, so the result wins where `x` is the
    /// flag register.
    pub open spec fn shl_register(self, x: u8) -> MachineState {
        let vx = self.v[x as int];
        self.set_flag(vx >= 0x80).set_v(x, wrap(vx * 2))
    }

    /// JP V0, addr: the directive is a jump to `addr + V0`.
    pub open spec fn jump_v0(self, addr: u16) -> NiEnum {
        NiEnum::Jump((addr + self.v[0]) as u16)
    }

    /// RND Vx, byte: `Vx` becomes the byte drawn, `random`, masked with
    /// `kk`.
    pub open spec fn random_byte(self, x: u8, kk: u8, random: u8) -> MachineState {
        self.set_v(x, random & kk)
    }

    /// The `n` bytes of memory from the index register on, as DRW reads its
    /// sprite.
    pub open spec fn sprite(self, n: u8) -> Seq<u8> {
        Seq::new(n as nat, |k: int| self.memory[self.i + k])
    }

    /// Whether `count` bytes from the index register on lie within memory.
    /// No bytes at all always do.
    pub open spec fn in_memory(self, count: int) -> bool {
        count == 0 || self.i + count <= MEMORY_SIZE
    }

    /// DRW Vx, Vy, n: the sprite is drawn at column `Vx`, row `Vy`, and VF
    /// tells whether it turned a lit pixel off.
    pub open spec fn draw(self, x: u8, y: u8, n: u8) -> Result<MachineState, Fault> {
        if !self.in_memory(n as int) {
            Err(Fault::MemoryOutOfBounds { index: self.i })
        } else {
            let (display, collision) = draw_sprite(
                self.display,
                self.v[x as int] as int,
                self.v[y as int] as int,
                self.sprite(n),
            );
            Ok(MachineState { display, ..self }.set_flag(collision))
        }
    }

    /// ADD I, Vx: the index register may come to lie beyond memory, but not
    /// beyond its sixteen bits.
    pub open spec fn add_i(self, x: u8) -> Result<MachineState, Fault> {
        if self.i + self.v[x as int] > u16::MAX {
            Err(Fault::IndexOverflow { index: self.i })
        } else {
            Ok(MachineState { i: (self.i + self.v[x as int]) as u16, ..self })
        }
    }

    /// LD F, Vx: the index register points at the font sprite number `Vx`.
    pub open spec fn load_sprite(self, x: u8) -> MachineState {
        MachineState { i: (self.v[x as int] * FONT_SPRITE_SIZE) as u16, ..self }
    }

    /// LD B, Vx: the hundreds, tens and ones of `Vx` go to memory at the
    /// index register and the two bytes after it.
    pub open spec fn load_bcd(self, x: u8) -> Result<MachineState, Fault> {
        if !self.in_memory(3) {
            Err(Fault::MemoryOutOfBounds { index: self.i })
        } else {
            let (hundreds, tens, ones) = bcd(self.v[x as int]);
            Ok(
                MachineState {
                    memory: self.memory.update(self.i as int, hundreds).update(
                        self.i + 1,
                        tens,
                    ).update(self.i + 2, ones),
                    ..self
                },
            )
        }
    }

    /// LD [I], Vx: the registers V0 to Vx, inclusive, go to memory from the
    /// index register on. The index register stays.
    pub open spec fn load_registers(self, x: u8) -> Result<MachineState, Fault> {
        if !self.in_memory(x + 1) {
            Err(Fault::MemoryOutOfBounds { index: self.i })
        } else {
            Ok(
                MachineState {
                    memory: Seq::new(
                        MEMORY_SIZE as nat,
                        |a: int|
                            if self.i <= a <= self.i + x {
                                self.v[a - self.i]
                            } else {
                                self.memory[a]
                            },
                    ),
                    ..self
                },
            )
        }
    }

    /// LD Vx, [I]: the registers V0 to Vx, inclusive, are read from memory
    /// from the index register on. The index register stays.
    pub open spec fn load_registers2(self, x: u8) -> Result<MachineState, Fault> {
        if !self.in_memory(x + 1) {
            Err(Fault::MemoryOutOfBounds { index: self.i })
        } else {
            Ok(
                MachineState {
                    v: Seq::new(
                        V_SIZE as nat,
                        |k: int|
                            if k <= x {
                                self.memory[self.i + k]
                            } else {
                                self.v[k]
                            },
                    ),
                    ..self
                },
            )
        }
    }

    /// The directive of SKP (`wanted` true) or SKNP (`wanted` false): skip
    /// exactly if key `Vx` is held down, or is not. A `Vx` that names no key
    /// is a fault.
    pub open spec fn key_skip(self, x: u8, wanted: bool) -> Result<NiEnum, Fault> {
        let key = self.v[x as int];
        if key >= KEY_COUNT {
            Err(Fault::InvalidKey { key })
        } else {
            Ok(skip_if(self.keys[key as int] == wanted))
        }
    }

    /// What running one instruction makes of the state, and how it ends.
    /// `random` is the byte that RND draws; no other instruction looks at it.
    /// A fault, and a wait for a key, leave the state as it was.
    pub open spec fn execute(self, ins: Instruction, random: u8) -> (
        MachineState,
        Result<Step, Fault>,
    ) {
        let v = self.v;
        match ins {
            Instruction::Cls => ran(self.cls(), NiEnum::Next),
            Instruction::Ret => ran_or_halted(self, self.ret(), NiEnum::Next),
            Instruction::Jp { addr } => ran(self, NiEnum::Jump(addr)),
            Instruction::Call { addr } => ran_or_halted(self, self.call(), NiEnum::Jump(addr)),
            Instruction::SeByte { x, kk } => ran(self, skip_if(v[x as int] == kk)),
            Instruction::SneByte { x, kk } => ran(self, skip_if(v[x as int] != kk)),
            Instruction::SeReg { x, y } => ran(self, skip_if(v[x as int] == v[y as int])),
            Instruction::LdByte { x, kk } => ran(self.set_v(x, kk), NiEnum::Next),
            Instruction::AddByte { x, kk } => ran(self.add_byte(x, kk), NiEnum::Next),
            Instruction::LdReg { x, y } => ran(self.set_v(x, v[y as int]), NiEnum::Next),
            Instruction::Or { x, y } => ran(self.set_v(x, v[x as int] | v[y as int]), NiEnum::Next),
            Instruction::And { x, y } => ran(
                self.set_v(x, v[x as int] & v[y as int]),
                NiEnum::Next,
            ),
            Instruction::Xor { x, y } => ran(
                self.set_v(x, v[x as int] ^ v[y as int]),
                NiEnum::Next,
            ),
            Instruction::AddReg { x, y } => ran(self.add_register(x, y), NiEnum::Next),
            Instruction::SubReg { x, y } => ran(self.sub_register(x, y), NiEnum::Next),
            Instruction::Shr { x, y } => ran(self.shr_register(x), NiEnum::Next),
            Instruction::Subn { x, y } => ran(self.subn_register(x, y), NiEnum::Next),
            Instruction::Shl { x, y } => ran(self.shl_register(x), NiEnum::Next),
            Instruction::SneReg { x, y } => ran(self, skip_if(v[x as int] != v[y as int])),
            Instruction::LdI { addr } => ran(MachineState { i: addr, ..self }, NiEnum::Next),
            Instruction::JpV0 { addr } => ran(self, self.jump_v0(addr)),
            Instruction::Rnd { x, kk } => ran(self.random_byte(x, kk, random), NiEnum::Next),
            Instruction::Drw { x, y, n } => match self.draw(x, y, n) {
                Ok(t) => (
                    t,
                    Ok(Step::Advance { directive: NiEnum::Next, refresh: has_ink(self.sprite(n)) }),
                ),
                Err(fault) => (self, Err(fault)),
            },
            Instruction::Skp { x } => match self.key_skip(x, true) {
                Ok(directive) => ran(self, directive),
                Err(fault) => (self, Err(fault)),
            },
            Instruction::Sknp { x } => match self.key_skip(x, false) {
                Ok(directive) => ran(self, directive),
                Err(fault) => (self, Err(fault)),
            },
            Instruction::LdVxDt { x } => ran(self.set_v(x, self.delay_timer), NiEnum::Next),
            Instruction::LdVxK { x } => match lowest_pressed(self.keys) {
                Some(key) => ran(self.set_v(x, key), NiEnum::Next),
                None => (self, Ok(Step::AwaitKey)),
            },
            Instruction::LdDtVx { x } => ran(
                MachineState { delay_timer: v[x as int], ..self },
                NiEnum::Next,
            ),
            Instruction::LdStVx { x } => ran(
                MachineState { sound_timer: v[x as int], ..self },
                NiEnum::Next,
            ),
            Instruction::AddI { x } => ran_or_halted(self, self.add_i(x), NiEnum::Next),
            Instruction::LdF { x } => ran(self.load_sprite(x), NiEnum::Next),
            Instruction::LdB { x } => ran_or_halted(self, self.load_bcd(x), NiEnum::Next),
            Instruction::StoreRegs { x } => ran_or_halted(
                self,
                self.load_registers(x),
                NiEnum::Next,
            ),
            Instruction::LoadRegs { x } => ran_or_halted(
                self,
                self.load_registers2(x),
                NiEnum::Next,
            ),
        }
    }

    /// The instruction word at the program counter, if the program counter
    /// leaves room for one.
    pub open spec fn fetch(self) -> Option<u16> {
        if self.pc <= LAST_INSTRUCTION {
            Some(word_at(self.memory, self.pc as int))
        } else {
            None
        }
    }

    /// Whether the timer tick that follows finds the sound timer at exactly
    /// one, which is what sounds the tone.
    pub open spec fn beeps(self) -> bool {
        self.sound_timer == 1
    }

    /// The timer tick: each timer that is not zero goes down by one.
    pub open spec fn tick(self) -> MachineState {
        MachineState {
            delay_timer: if self.delay_timer > 0 {
                (self.delay_timer - 1) as u8
            } else {
                0
            },
            sound_timer: if self.sound_timer > 0 {
                (self.sound_timer - 1) as u8
            } else {
                0
            },
            ..self
        }
    }

    /// The state with the program counter moved as the directive says.
    pub open spec fn follow(self, directive: NiEnum) -> MachineState {
        MachineState {
            pc: match directive {
                NiEnum::Next => (self.pc + 2) as u16,
                NiEnum::Skip => (self.pc + 4) as u16,
                NiEnum::Jump(addr) => addr,
            },
            ..self
        }
    }

    /// One whole cycle: fetch, decode, execute, then the timer tick, then
    /// the move of the program counter. `random` is the byte that RND draws.
    /// A fault, and a wait for a key, leave the state as it was.
    pub open spec fn cycle(self, random: u8) -> (MachineState, Result<CycleOutcome, Fault>) {
        match self.fetch() {
            None => (self, Err(Fault::ProgramCounterOutOfBounds { pc: self.pc })),
            Some(op) => match decoded(op) {
                None => (self, Err(Fault::UnsupportedOpcode { opcode: op })),
                Some(ins) => match self.execute(ins, random) {
                    (_, Err(fault)) => (self, Err(fault)),
                    (_, Ok(Step::AwaitKey)) => (self, Ok(CycleOutcome::AwaitingKey)),
                    (t, Ok(Step::Advance { directive, refresh })) => (
                        t.tick().follow(directive),
                        Ok(CycleOutcome::Completed { refresh, beep: t.beeps() }),
                    ),
                },
            },
        }
    }

    /// Whether the instruction at the program counter draws a random byte.
    pub open spec fn draws_random(self) -> bool {
        match self.fetch() {
            Some(op) => decoded(op) matches Some(Instruction::Rnd { .. }),
            None => false,
        }
    }
}

} // verus!
