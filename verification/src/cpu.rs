//! The interpreter: memory, registers, stack and timers, and the
//! fetch-decode-execute cycle that drives them.

use vstd::prelude::*;
use rand::Rng;
use crate::display::{grid_wf, Display};
use crate::fault::Fault;
use crate::instruction::{decode, decoded, Instruction};
use crate::keypad::{reflects, Keypad, KEY_COUNT};
use crate::machine::{
    skip_if, word_at, CycleOutcome, MachineState, NiEnum, Step, FLAG_REGISTER, FONTSET,
    FONT_SPRITE_SIZE, LAST_INSTRUCTION, MEMORY_SIZE, PROGRAM_START, STACK_SIZE, V_SIZE,
};

verus! {

/// The machine. Its state is only ever changed by the operations below, each
/// of which is specified on the model of the state, `MachineState`, that the
/// view gives.
pub struct Cpu {
    i: u16,
    pc: u16,
    memory: [u8; MEMORY_SIZE],
    v: [u8; V_SIZE],
    keypad: Keypad,
    display: Display,
    stack: [u16; STACK_SIZE],
    sp: u8,
    delay_timer: u8,
    sound_timer: u8,
}

impl View for Cpu {
    type V = MachineState;

    closed spec fn view(&self) -> MachineState {
        MachineState {
            memory: self.memory@,
            v: self.v@,
            i: self.i,
            pc: self.pc,
            stack: self.stack@,
            sp: self.sp,
            delay_timer: self.delay_timer,
            sound_timer: self.sound_timer,
            keys: self.keypad@,
            display: self.display@,
        }
    }
}

/// Reads the big-endian 16-bit word at `index`.
pub fn read_word(memory: [u8; MEMORY_SIZE], index: u16) -> (w: u16)
    requires
        index < MEMORY_SIZE - 1,
    ensures
        w == word_at(memory@, index as int),
{
    let first_byte = memory[index as usize] as u16;
    let second_byte = memory[(index + 1) as usize] as u16;
    assert((first_byte << 8) | second_byte == first_byte * 0x100 + second_byte) by (bit_vector)
        requires
            first_byte < 0x100,
            second_byte < 0x100,
    ;
    (first_byte << 8) | second_byte
}

/// Draws a byte from the thread-local generator of the `rand` crate, which
/// `rand::thread_rng` hands out, with `Rng::gen_range` on the closed range
/// `0..=255`, that is on every byte. The range is not empty, which is all
/// that `gen_range` asks of it. Nothing is claimed of the byte that comes
/// back: it can be any.
#[verifier::external_body]
fn random_source() -> (r: u8) {
    rand::thread_rng().gen_range(0..=255)
}

impl Cpu {
    /// The invariant of the machine, which is that of its model: the stack
    /// pointer stays within the stack, and the return addresses below it are
    /// addresses at which an instruction was fetched. `new` establishes it
    /// and every operation keeps it.
    pub open spec fn wf(&self) -> bool {
        self@.wf()
    }

    /// The parts of the model that are arrays in the machine have the
    /// arrays' lengths, whatever the machine holds.
    proof fn lemma_view_dimensions(&self)
        ensures
            self@.memory.len() == MEMORY_SIZE,
            self@.v.len() == V_SIZE,
            self@.stack.len() == STACK_SIZE,
            self@.keys.len() == KEY_COUNT,
            grid_wf(self@.display),
    {
        self.display.lemma_view_wf();
        self.keypad.lemma_view_len();
    }

    /// The machine as it is switched on.
    pub fn new() -> (cpu: Cpu)
        ensures
            cpu.wf(),
            cpu@ == MachineState::initial(),
    {
        let mut memory = [0u8; MEMORY_SIZE];
        let mut a: usize = 0;
        while a < 80
            invariant
                a <= 80,
                forall|b: int| 0 <= b < a ==> memory[b] == FONTSET[b],
                forall|b: int| a <= b < MEMORY_SIZE ==> memory[b] == 0,
            decreases 80 - a,
        {
            memory[a] = FONTSET[a];
            a += 1;
        }
        let cpu = Cpu {
            i: 0,
            pc: PROGRAM_START as u16,
            memory: memory,
            v: [0; V_SIZE],
            keypad: Keypad::new(),
            display: Display::new(),
            stack: [0; STACK_SIZE],
            sp: 0,
            delay_timer: 0,
            sound_timer: 0,
        };
        proof {
            assert(cpu@.memory =~= MachineState::initial().memory);
            assert(cpu@.v =~= MachineState::initial().v);
            assert(cpu@.stack =~= MachineState::initial().stack);
            cpu.lemma_view_dimensions();
        }
        cpu
    }

    /// The index register.
    pub fn i(&self) -> (i: u16)
        ensures
            i == self@.i,
    {
        self.i
    }

    /// The program counter.
    pub fn pc(&self) -> (pc: u16)
        ensures
            pc == self@.pc,
    {
        self.pc
    }

    /// The memory.
    pub fn memory(&self) -> (memory: &[u8; MEMORY_SIZE])
        ensures
            memory@ == self@.memory,
    {
        &self.memory
    }

    /// The registers V0 to VF.
    pub fn v(&self) -> (v: &[u8; V_SIZE])
        ensures
            v@ == self@.v,
    {
        &self.v
    }

    /// The keypad.
    pub fn keypad(&self) -> (keypad: &Keypad)
        ensures
            keypad@ == self@.keys,
    {
        &self.keypad
    }

    /// The display.
    pub fn display(&self) -> (display: &Display)
        ensures
            display@ == self@.display,
    {
        &self.display
    }

    /// The slots of the stack: the return addresses of the calls in progress
    /// from the bottom up, and above them whatever earlier calls have left.
    pub fn stack(&self) -> (stack: &[u16; STACK_SIZE])
        ensures
            stack@ == self@.stack,
    {
        &self.stack
    }

    /// The stack pointer: the number of calls in progress.
    pub fn sp(&self) -> (sp: u8)
        ensures
            sp == self@.sp,
    {
        self.sp
    }

    /// The delay timer.
    pub fn delay_timer(&self) -> (t: u8)
        ensures
            t == self@.delay_timer,
    {
        self.delay_timer
    }

    /// The sound timer.
    pub fn sound_timer(&self) -> (t: u8)
        ensures
            t == self@.sound_timer,
    {
        self.sound_timer
    }

    /// Copies the program `rom` into memory from `PROGRAM_START` on, byte
    /// for byte. A program that does not fit is refused and nothing is
    /// copied.
    pub fn load_rom(&mut self, rom: &[u8]) -> (res: Result<(), Fault>)
        requires
            old(self).wf(),
        ensures
            final(self).wf(),
            (match old(self)@.with_rom(rom@) {
                Ok(t) => final(self)@ == t && res == Ok::<(), Fault>(()),
                Err(fault) => final(self)@ == old(self)@ && res == Err::<(), Fault>(fault),
            }),
    {
        proof {
            self.lemma_view_dimensions();
        }
        if rom.len() > MEMORY_SIZE - PROGRAM_START {
            return Err(Fault::RomTooLarge { len: rom.len() });
        }
        let mut k: usize = 0;
        while k < rom.len()
            invariant
                k <= rom.len() <= MEMORY_SIZE - PROGRAM_START,
                self.wf(),
                self@ == (MachineState {
                    memory: Seq::new(
                        MEMORY_SIZE as nat,
                        |a: int|
                            if PROGRAM_START <= a < PROGRAM_START + k {
                                rom@[a - PROGRAM_START]
                            } else {
                                old(self)@.memory[a]
                            },
                    ),
                    ..old(self)@
                }),
            decreases rom.len() - k,
        {
            self.memory[PROGRAM_START + k] = rom[k];
            k += 1;
        }
        proof {
            self.lemma_view_dimensions();
        }
        Ok(())
    }

    /// Refreshes the keypad from a snapshot of the host's physical keys,
    /// given in the order of `KEY_LAYOUT`. Nothing else changes.
    pub fn update_keys(&mut self, down: &[bool; KEY_COUNT])
        requires
            old(self).wf(),
        ensures
            final(self).wf(),
            reflects(final(self)@.keys, down@),
            final(self)@ == (MachineState { keys: final(self)@.keys, ..old(self)@ }),
    {
        self.keypad.update_keys(down);
        proof {
            self.lemma_view_dimensions();
        }
    }

    /// Runs one cycle: fetches and runs the instruction at the program
    /// counter, lets the timers tick and moves the program counter. The byte
    /// that a RND instruction needs is drawn from the `rand` crate and can be
    /// any byte; no other instruction draws one.
    pub fn execute_cycle(&mut self) -> (res: Result<CycleOutcome, Fault>)
        requires
            old(self).wf(),
        ensures
            final(self).wf(),
            exists|random: u8| (final(self)@, res) == #[trigger] old(self)@.cycle(random),
            !old(self)@.draws_random() ==> (final(self)@, res) == old(self)@.cycle(0),
    {
        let random: u8 = if self.draws_random() {
            random_source()
        } else {
            0
        };
        self.execute_cycle_with(random)
    }

    /// Runs one cycle as `execute_cycle` does, with `random` as the byte
    /// that a RND instruction draws.
    pub fn execute_cycle_with(&mut self, random: u8) -> (res: Result<CycleOutcome, Fault>)
        requires
            old(self).wf(),
        ensures
            final(self).wf(),
            (final(self)@, res) == old(self)@.cycle(random),
    {
        proof {
            self.lemma_view_dimensions();
        }
        if self.pc > LAST_INSTRUCTION {
            return Err(Fault::ProgramCounterOutOfBounds { pc: self.pc });
        }
        let op: u16 = read_word(self.memory, self.pc);
        let step = self.process_opcode(op, random)?;
        match step {
            Step::AwaitKey => Ok(CycleOutcome::AwaitingKey),
            Step::Advance { directive, refresh } => {
                let mut beep = false;
                if self.delay_timer > 0 {
                    self.delay_timer -= 1;
                }
                if self.sound_timer > 0 {
                    if self.sound_timer == 1 {
                        beep = true;
                    }
                    self.sound_timer -= 1;
                }
                match directive {
                    NiEnum::Next => self.pc += 2,
                    NiEnum::Skip => self.pc += 4,
                    NiEnum::Jump(addr) => self.pc = addr,
                }
                proof {
                    self.lemma_view_dimensions();
                }
                Ok(CycleOutcome::Completed { refresh, beep })
            },
        }
    }

    /// Whether the instruction at the program counter is a RND.
    fn draws_random(&self) -> (b: bool)
        ensures
            b == self@.draws_random(),
    {
        if self.pc > LAST_INSTRUCTION {
            return false;
        }
        match decode(read_word(self.memory, self.pc)) {
            Ok(Instruction::Rnd { .. }) => true,
            _ => false,
        }
    }

    /// Decodes the instruction word `op` and runs the instruction.
    fn process_opcode(&mut self, op: u16, random: u8) -> (res: Result<Step, Fault>)
        requires
            old(self).wf(),
            old(self)@.pc <= LAST_INSTRUCTION,
        ensures
            final(self).wf(),
            (final(self)@, res) == (match decoded(op) {
                Some(ins) => old(self)@.execute(ins, random),
                None => (old(self)@, Err(Fault::UnsupportedOpcode { opcode: op })),
            }),
            final(self)@.pc <= LAST_INSTRUCTION,
    {
        let ins = decode(op)?;
        let directive = match ins {
            Instruction::Cls => {
                self.display.clear();
                NiEnum::Next
            },
            Instruction::Ret => self.ret()?,
            Instruction::Jp { addr } => self.addr(addr),
            Instruction::Call { addr } => self.call(addr)?,
            Instruction::SeByte { x, kk } => self.skip_if_equal_byte(x, kk),
            Instruction::SneByte { x, kk } => self.skip_if_not_equal_byte(x, kk),
            Instruction::SeReg { x, y } => self.skip_if_equal_register(x, y),
            Instruction::LdByte { x, kk } => self.load_byte(x, kk),
            Instruction::AddByte { x, kk } => self.add_byte(x, kk),
            Instruction::LdReg { x, y } => self.load_register(x, y),
            Instruction::Or { x, y } => self.or_register(x, y),
            Instruction::And { x, y } => self.and_register(x, y),
            Instruction::Xor { x, y } => self.xor_register(x, y),
            Instruction::AddReg { x, y } => self.add_register(x, y),
            Instruction::SubReg { x, y } => self.sub_register(x, y),
            Instruction::Shr { x, y } => self.shr_register(x),
            Instruction::Subn { x, y } => self.subn_register(x, y),
            Instruction::Shl { x, y } => self.shl_register(x),
            Instruction::SneReg { x, y } => self.skip_if_not_equal_register(x, y),
            Instruction::LdI { addr } => self.load_i(addr),
            Instruction::JpV0 { addr } => self.jump_v0(addr),
            Instruction::Rnd { x, kk } => self.random_byte(x, kk, random),
            Instruction::Drw { x, y, n } => {
                return self.draw(x, y, n);
            },
            Instruction::Skp { x } => self.skip_if_key_pressed(x)?,
            Instruction::Sknp { x } => self.skip_if_key_not_pressed(x)?,
            Instruction::LdVxDt { x } => self.load_delay_timer(x),
            Instruction::LdVxK { x } => {
                return Ok(self.wait_for_key_press(x));
            },
            Instruction::LdDtVx { x } => self.set_delay_timer(x),
            Instruction::LdStVx { x } => self.set_sound_timer(x),
            Instruction::AddI { x } => self.add_i(x)?,
            Instruction::LdF { x } => self.load_sprite(x),
            Instruction::LdB { x } => self.load_bcd(x)?,
            Instruction::StoreRegs { x } => self.load_registers(x)?,
            Instruction::LoadRegs { x } => self.load_registers2(x)?,
        };
        Ok(Step::Advance { directive, refresh: false })
    }

    /// RET: takes the innermost return address off the stack and makes it
    /// the program counter.
    fn ret(&mut self) -> (res: Result<NiEnum, Fault>)
        requires
            old(self).wf(),
        ensures
            final(self).wf(),
            (match old(self)@.ret() {
                Ok(t) => final(self)@ == t && res == Ok::<NiEnum, Fault>(NiEnum::Next),
                Err(fault) => final(self)@ == old(self)@ && res == Err::<NiEnum, Fault>(fault),
            }),
            final(self)@.pc <= LAST_INSTRUCTION || final(self)@.pc == old(self)@.pc,
    {
        if self.sp == 0 {
            return Err(Fault::StackUnderflow);
        }
        self.sp -= 1;
        self.pc = self.stack[self.sp as usize];
        Ok(NiEnum::Next)
    }

    /// JP addr: asks for a jump to `addr`.
    fn addr(&self, addr: u16) -> (ni: NiEnum)
        ensures
            ni == NiEnum::Jump(addr),
    {
        NiEnum::Jump(addr)
    }

    /// CALL addr: puts the program counter on the stack and asks for a jump
    /// to `addr`.
    fn call(&mut self, addr: u16) -> (res: Result<NiEnum, Fault>)
        requires
            old(self).wf(),
            old(self)@.pc <= LAST_INSTRUCTION,
        ensures
            final(self).wf(),
            (match old(self)@.call() {
                Ok(t) => final(self)@ == t && res == Ok::<NiEnum, Fault>(NiEnum::Jump(addr)),
                Err(fault) => final(self)@ == old(self)@ && res == Err::<NiEnum, Fault>(fault),
            }),
    {
        if self.sp as usize >= STACK_SIZE {
            return Err(Fault::StackOverflow);
        }
        self.stack[self.sp as usize] = self.pc;
        self.sp += 1;
        Ok(NiEnum::Jump(addr))
    }

    /// SE Vx, byte: asks for a skip if `Vx == kk`.
    fn skip_if_equal_byte(&self, x: u8, kk: u8) -> (ni: NiEnum)
        requires
            x < V_SIZE,
        ensures
            ni == skip_if(self@.v[x as int] == kk),
    {
        if self.v[x as usize] == kk {
            NiEnum::Skip
        } else {
            NiEnum::Next
        }
    }

    /// SNE Vx, byte: asks for a skip if `Vx != kk`.
    fn skip_if_not_equal_byte(&self, x: u8, kk: u8) -> (ni: NiEnum)
        requires
            x < V_SIZE,
        ensures
            ni == skip_if(self@.v[x as int] != kk),
    {
        if self.v[x as usize] != kk {
            NiEnum::Skip
        } else {
            NiEnum::Next
        }
    }

    /// SE Vx, Vy: asks for a skip if `Vx == Vy`.
    fn skip_if_equal_register(&self, x: u8, y: u8) -> (ni: NiEnum)
        requires
            x < V_SIZE,
            y < V_SIZE,
        ensures
            ni == skip_if(self@.v[x as int] == self@.v[y as int]),
    {
        if self.v[x as usize] == self.v[y as usize] {
            NiEnum::Skip
        } else {
            NiEnum::Next
        }
    }

    /// LD Vx, byte: sets `Vx` to `kk`.
    fn load_byte(&mut self, x: u8, kk: u8) -> (ni: NiEnum)
        requires
            old(self).wf(),
            x < V_SIZE,
        ensures
            final(self).wf(),
            final(self)@ == old(self)@.set_v(x, kk),
            ni == NiEnum::Next,
    {
        self.v[x as usize] = kk;
        NiEnum::Next
    }

    /// ADD Vx, byte: adds `kk` to `Vx`, wrapping, and leaves the flag alone.
    fn add_byte(&mut self, x: u8, kk: u8) -> (ni: NiEnum)
        requires
            old(self).wf(),
            x < V_SIZE,
        ensures
            final(self).wf(),
            final(self)@ == old(self)@.add_byte(x, kk),
            ni == NiEnum::Next,
    {
        self.v[x as usize] = self.v[x as usize].wrapping_add(kk);
        NiEnum::Next
    }

    /// LD Vx, Vy: sets `Vx` to `Vy`.
    fn load_register(&mut self, x: u8, y: u8) -> (ni: NiEnum)
        requires
            old(self).wf(),
            x < V_SIZE,
            y < V_SIZE,
        ensures
            final(self).wf(),
            final(self)@ == old(self)@.set_v(x, old(self)@.v[y as int]),
            ni == NiEnum::Next,
    {
        self.v[x as usize] = self.v[y as usize];
        NiEnum::Next
    }

    /// OR Vx, Vy: sets `Vx` to `Vx | Vy`.
    fn or_register(&mut self, x: u8, y: u8) -> (ni: NiEnum)
        requires
            old(self).wf(),
            x < V_SIZE,
            y < V_SIZE,
        ensures
            final(self).wf(),
            final(self)@ == old(self)@.set_v(x, old(self)@.v[x as int] | old(self)@.v[y as int]),
            ni == NiEnum::Next,
    {
        self.v[x as usize] = self.v[x as usize] | self.v[y as usize];
        NiEnum::Next
    }

    /// AND Vx, Vy: sets `Vx` to `Vx & Vy`.
    fn and_register(&mut self, x: u8, y: u8) -> (ni: NiEnum)
        requires
            old(self).wf(),
            x < V_SIZE,
            y < V_SIZE,
        ensures
            final(self).wf(),
            final(self)@ == old(self)@.set_v(x, old(self)@.v[x as int] & old(self)@.v[y as int]),
            ni == NiEnum::Next,
    {
        self.v[x as usize] = self.v[x as usize] & self.v[y as usize];
        NiEnum::Next
    }

    /// XOR Vx, Vy: sets `Vx` to `Vx ^ Vy`.
    fn xor_register(&mut self, x: u8, y: u8) -> (ni: NiEnum)
        requires
            old(self).wf(),
            x < V_SIZE,
            y < V_SIZE,
        ensures
            final(self).wf(),
            final(self)@ == old(self)@.set_v(x, old(self)@.v[x as int] ^ old(self)@.v[y as int]),
            ni == NiEnum::Next,
    {
        self.v[x as usize] = self.v[x as usize] ^ self.v[y as usize];
        NiEnum::Next
    }

    /// ADD Vx, Vy: adds `Vy` to `Vx`, wrapping, then sets VF to the carry.
    fn add_register(&mut self, x: u8, y: u8) -> (ni: NiEnum)
        requires
            old(self).wf(),
            x < V_SIZE,
            y < V_SIZE,
        ensures
            final(self).wf(),
            final(self)@ == old(self)@.add_register(x, y),
            ni == NiEnum::Next,
    {
        let vx = self.v[x as usize];
        let vy = self.v[y as usize];
        let result = vx.wrapping_add(vy);
        let overflow = result < vx;
        self.v[x as usize] = result;
        self.v[FLAG_REGISTER as usize] = if overflow {
            1
        } else {
            0
        };
        NiEnum::Next
    }

    /// SUB Vx, Vy: subtracts `Vy` from `Vx`, wrapping, then sets VF to 1 if
    /// nothing was borrowed and to 0 otherwise.
    fn sub_register(&mut self, x: u8, y: u8) -> (ni: NiEnum)
        requires
            old(self).wf(),
            x < V_SIZE,
            y < V_SIZE,
        ensures
            final(self).wf(),
            final(self)@ == old(self)@.sub_register(x, y),
            ni == NiEnum::Next,
    {
        let vx = self.v[x as usize];
        let vy = self.v[y as usize];
        let result = vx.wrapping_sub(vy);
        let overflow = vx < vy;
        self.v[x as usize] = result;
        self.v[FLAG_REGISTER as usize] = if overflow {
            0
        } else {
            1
        };
        NiEnum::Next
    }

    /// SHR Vx: sets VF to the lowest bit of `Vx`, then halves `Vx`.
    fn shr_register(&mut self, x: u8) -> (ni: NiEnum)
        requires
            old(self).wf(),
            x < V_SIZE,
        ensures
            final(self).wf(),
            final(self)@ == old(self)@.shr_register(x),
            ni == NiEnum::Next,
    {
        let vx = self.v[x as usize];
        assert(vx & 0x1 == vx % 2 && vx >> 1 == vx / 2) by (bit_vector);
        self.v[FLAG_REGISTER as usize] = vx & 0x1;
        self.v[x as usize] = vx >> 1;
        NiEnum::Next
    }

    /// SUBN Vx, Vy: sets `Vx` to `Vy - Vx`, wrapping, then sets VF to 1 if
    /// nothing was borrowed and to 0 otherwise.
    fn subn_register(&mut self, x: u8, y: u8) -> (ni: NiEnum)
        requires
            old(self).wf(),
            x < V_SIZE,
            y < V_SIZE,
        ensures
            final(self).wf(),
            final(self)@ == old(self)@.subn_register(x, y),
            ni == NiEnum::Next,
    {
        let vx = self.v[x as usize];
        let vy = self.v[y as usize];
        let result = vy.wrapping_sub(vx);
        let overflow = vy < vx;
        self.v[x as usize] = result;
        self.v[FLAG_REGISTER as usize] = if overflow {
            0
        } else {
            1
        };
        NiEnum::Next
    }

    /// SHL Vx: sets VF to the highest bit of `Vx`, then doubles `Vx`,
    /// wrapping.
    fn shl_register(&mut self, x: u8) -> (ni: NiEnum)
        requires
            old(self).wf(),
            x < V_SIZE,
        ensures
            final(self).wf(),
            final(self)@ == old(self)@.shl_register(x),
            ni == NiEnum::Next,
    {
        let vx = self.v[x as usize];
        assert((vx & 0x80) >> 7 == (if vx >= 0x80 {
            1u8
        } else {
            0u8
        }) && vx << 1 == (vx * 2) % 0x100) by (bit_vector);
        self.v[FLAG_REGISTER as usize] = (vx & 0x80) >> 7;
        self.v[x as usize] = vx << 1;
        NiEnum::Next
    }

    /// SNE Vx, Vy: asks for a skip if `Vx != Vy`.
    fn skip_if_not_equal_register(&self, x: u8, y: u8) -> (ni: NiEnum)
        requires
            x < V_SIZE,
            y < V_SIZE,
        ensures
            ni == skip_if(self@.v[x as int] != self@.v[y as int]),
    {
        if self.v[x as usize] != self.v[y as usize] {
            NiEnum::Skip
        } else {
            NiEnum::Next
        }
    }

    /// LD I, addr: sets the index register to `addr`.
    fn load_i(&mut self, addr: u16) -> (ni: NiEnum)
        requires
            old(self).wf(),
        ensures
            final(self).wf(),
            final(self)@ == (MachineState { i: addr, ..old(self)@ }),
            ni == NiEnum::Next,
    {
        self.i = addr;
        NiEnum::Next
    }

    /// JP V0, addr: asks for a jump to `addr + V0`.
    fn jump_v0(&self, addr: u16) -> (ni: NiEnum)
        requires
            addr < 0x1000,
        ensures
            ni == self@.jump_v0(addr),
    {
        NiEnum::Jump(addr + self.v[0] as u16)
    }

    /// RND Vx, byte: sets `Vx` to `random & kk`, where `random` is the byte
    /// drawn.
    fn random_byte(&mut self, x: u8, kk: u8, random: u8) -> (ni: NiEnum)
        requires
            old(self).wf(),
            x < V_SIZE,
        ensures
            final(self).wf(),
            final(self)@ == old(self)@.random_byte(x, kk, random),
            ni == NiEnum::Next,
    {
        self.v[x as usize] = random & kk;
        NiEnum::Next
    }

    /// DRW Vx, Vy, n: reads `n` sprite rows from memory at the index
    /// register, draws them at column `Vx`, row `Vy`, and sets VF to 1 if the
    /// draw turned a lit pixel off and to 0 otherwise. Nothing is drawn if
    /// the rows do not all lie within memory.
    fn draw(&mut self, x: u8, y: u8, n: u8) -> (res: Result<Step, Fault>)
        requires
            old(self).wf(),
            x < V_SIZE,
            y < V_SIZE,
        ensures
            final(self).wf(),
            (final(self)@, res) == old(self)@.execute(Instruction::Drw { x, y, n }, 0),
            final(self)@.pc == old(self)@.pc,
    {
        let vx = self.v[x as usize];
        let vy = self.v[y as usize];
        if n > 0 && self.i as usize + n as usize > MEMORY_SIZE {
            return Err(Fault::MemoryOutOfBounds { index: self.i });
        }
        let mut sprite: Vec<u8> = Vec::new();
        let mut k: u8 = 0;
        while k < n
            invariant
                k <= n,
                n == 0 || self.i + n <= MEMORY_SIZE,
                sprite@ == Seq::new(k as nat, |j: int| self.memory[self.i + j]),
            decreases n - k,
        {
            sprite.push(self.memory[self.i as usize + k as usize]);
            assert(sprite@ =~= Seq::new((k + 1) as nat, |j: int| self.memory[self.i + j]));
            k += 1;
        }
        assert(sprite@ =~= old(self)@.sprite(n));
        let drawn = self.display.draw(vx as usize, vy as usize, &sprite);
        proof {
            self.lemma_view_dimensions();
        }
        self.v[FLAG_REGISTER as usize] = if drawn.collision {
            1
        } else {
            0
        };
        Ok(Step::Advance { directive: NiEnum::Next, refresh: drawn.updated })
    }

    /// SKP Vx: asks for a skip if key `Vx` is held down.
    fn skip_if_key_pressed(&self, x: u8) -> (res: Result<NiEnum, Fault>)
        requires
            x < V_SIZE,
        ensures
            res == self@.key_skip(x, true),
    {
        let vx = self.v[x as usize];
        if vx as usize >= KEY_COUNT {
            return Err(Fault::InvalidKey { key: vx });
        }
        if self.keypad.is_key_pressed(vx) {
            Ok(NiEnum::Skip)
        } else {
            Ok(NiEnum::Next)
        }
    }

    /// SKNP Vx: asks for a skip if key `Vx` is not held down.
    fn skip_if_key_not_pressed(&self, x: u8) -> (res: Result<NiEnum, Fault>)
        requires
            x < V_SIZE,
        ensures
            res == self@.key_skip(x, false),
    {
        let vx = self.v[x as usize];
        if vx as usize >= KEY_COUNT {
            return Err(Fault::InvalidKey { key: vx });
        }
        if !self.keypad.is_key_pressed(vx) {
            Ok(NiEnum::Skip)
        } else {
            Ok(NiEnum::Next)
        }
    }

    /// LD Vx, DT: sets `Vx` to the delay timer.
    fn load_delay_timer(&mut self, x: u8) -> (ni: NiEnum)
        requires
            old(self).wf(),
            x < V_SIZE,
        ensures
            final(self).wf(),
            final(self)@ == old(self)@.set_v(x, old(self)@.delay_timer),
            ni == NiEnum::Next,
    {
        self.v[x as usize] = self.delay_timer;
        NiEnum::Next
    }

    /// LD Vx, K: sets `Vx` to the smallest code among the keys held down, or
    /// reports that the machine has to wait because none is.
    fn wait_for_key_press(&mut self, x: u8) -> (step: Step)
        requires
            old(self).wf(),
            x < V_SIZE,
        ensures
            final(self).wf(),
            (final(self)@, Ok::<Step, Fault>(step)) == old(self)@.execute(
                Instruction::LdVxK { x },
                0,
            ),
            final(self)@.pc == old(self)@.pc,
    {
        let mut key: u8 = self.v[x as usize];
        if self.keypad.wait_for_key_press(&mut key) {
            self.v[x as usize] = key;
            Step::Advance { directive: NiEnum::Next, refresh: false }
        } else {
            Step::AwaitKey
        }
    }

    /// LD DT, Vx: sets the delay timer to `Vx`.
    fn set_delay_timer(&mut self, x: u8) -> (ni: NiEnum)
        requires
            old(self).wf(),
            x < V_SIZE,
        ensures
            final(self).wf(),
            final(self)@ == (MachineState { delay_timer: old(self)@.v[x as int], ..old(self)@ }),
            ni == NiEnum::Next,
    {
        self.delay_timer = self.v[x as usize];
        NiEnum::Next
    }

    /// LD ST, Vx: sets the sound timer to `Vx`.
    fn set_sound_timer(&mut self, x: u8) -> (ni: NiEnum)
        requires
            old(self).wf(),
            x < V_SIZE,
        ensures
            final(self).wf(),
            final(self)@ == (MachineState { sound_timer: old(self)@.v[x as int], ..old(self)@ }),
            ni == NiEnum::Next,
    {
        self.sound_timer = self.v[x as usize];
        NiEnum::Next
    }

    /// ADD I, Vx: adds `Vx` to the index register, unless the sum does not
    /// fit in it.
    fn add_i(&mut self, x: u8) -> (res: Result<NiEnum, Fault>)
        requires
            old(self).wf(),
            x < V_SIZE,
        ensures
            final(self).wf(),
            (match old(self)@.add_i(x) {
                Ok(t) => final(self)@ == t && res == Ok::<NiEnum, Fault>(NiEnum::Next),
                Err(fault) => final(self)@ == old(self)@ && res == Err::<NiEnum, Fault>(fault),
            }),
    {
        let vx = self.v[x as usize] as u16;
        if vx > u16::MAX - self.i {
            return Err(Fault::IndexOverflow { index: self.i });
        }
        self.i += vx;
        Ok(NiEnum::Next)
    }

    /// LD F, Vx: sets the index register to the address of the font sprite
    /// number `Vx`.
    fn load_sprite(&mut self, x: u8) -> (ni: NiEnum)
        requires
            old(self).wf(),
            x < V_SIZE,
        ensures
            final(self).wf(),
            final(self)@ == old(self)@.load_sprite(x),
            ni == NiEnum::Next,
    {
        let vx = self.v[x as usize];
        self.i = vx as u16 * FONT_SPRITE_SIZE;
        NiEnum::Next
    }

    /// LD B, Vx: writes the hundreds, tens and ones of `Vx` to memory at the
    /// index register, unless the three bytes do not all lie within memory.
    fn load_bcd(&mut self, x: u8) -> (res: Result<NiEnum, Fault>)
        requires
            old(self).wf(),
            x < V_SIZE,
        ensures
            final(self).wf(),
            (match old(self)@.load_bcd(x) {
                Ok(t) => final(self)@ == t && res == Ok::<NiEnum, Fault>(NiEnum::Next),
                Err(fault) => final(self)@ == old(self)@ && res == Err::<NiEnum, Fault>(fault),
            }),
    {
        let vx = self.v[x as usize];
        if self.i as usize + 3 > MEMORY_SIZE {
            return Err(Fault::MemoryOutOfBounds { index: self.i });
        }
        let hundreds = vx / 100;
        let tens = (vx % 100) / 10;
        let ones = vx % 10;
        self.memory[self.i as usize] = hundreds;
        self.memory[(self.i + 1) as usize] = tens;
        self.memory[(self.i + 2) as usize] = ones;
        Ok(NiEnum::Next)
    }

    /// LD [I], Vx: writes V0 to Vx, inclusive, to memory from the index
    /// register on, unless they do not all fit there.
    fn load_registers(&mut self, x: u8) -> (res: Result<NiEnum, Fault>)
        requires
            old(self).wf(),
            x < V_SIZE,
        ensures
            final(self).wf(),
            (match old(self)@.load_registers(x) {
                Ok(t) => final(self)@ == t && res == Ok::<NiEnum, Fault>(NiEnum::Next),
                Err(fault) => final(self)@ == old(self)@ && res == Err::<NiEnum, Fault>(fault),
            }),
    {
        if self.i as usize + x as usize + 1 > MEMORY_SIZE {
            return Err(Fault::MemoryOutOfBounds { index: self.i });
        }
        let mut k: u8 = 0;
        while k < x + 1
            invariant
                k <= x + 1,
                x < V_SIZE,
                self.wf(),
                self.i + x + 1 <= MEMORY_SIZE,
                self@ == (MachineState {
                    memory: Seq::new(
                        MEMORY_SIZE as nat,
                        |a: int|
                            if self.i <= a < self.i + k {
                                self.v[a - self.i]
                            } else {
                                old(self)@.memory[a]
                            },
                    ),
                    ..old(self)@
                }),
            decreases x + 1 - k,
        {
            self.memory[(self.i + k as u16) as usize] = self.v[k as usize];
            k += 1;
        }
        Ok(NiEnum::Next)
    }

    /// LD Vx, [I]: reads V0 to Vx, inclusive, from memory from the index
    /// register on, unless the bytes do not all lie within memory.
    fn load_registers2(&mut self, x: u8) -> (res: Result<NiEnum, Fault>)
        requires
            old(self).wf(),
            x < V_SIZE,
        ensures
            final(self).wf(),
            (match old(self)@.load_registers2(x) {
                Ok(t) => final(self)@ == t && res == Ok::<NiEnum, Fault>(NiEnum::Next),
                Err(fault) => final(self)@ == old(self)@ && res == Err::<NiEnum, Fault>(fault),
            }),
    {
        if self.i as usize + x as usize + 1 > MEMORY_SIZE {
            return Err(Fault::MemoryOutOfBounds { index: self.i });
        }
        let mut k: u8 = 0;
        while k < x + 1
            invariant
                k <= x + 1,
                x < V_SIZE,
                self.wf(),
                self.i + x + 1 <= MEMORY_SIZE,
                self@ == (MachineState {
                    v: Seq::new(
                        V_SIZE as nat,
                        |j: int|
                            if j < k {
                                self.memory[self.i + j]
                            } else {
                                old(self)@.v[j]
                            },
                    ),
                    ..old(self)@
                }),
            decreases x + 1 - k,
        {
            self.v[k as usize] = self.memory[(self.i + k as u16) as usize];
            k += 1;
        }
        Ok(NiEnum::Next)
    }
}

} // verus!
