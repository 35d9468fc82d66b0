//! What holds of the machine in general, proved of its model.

use vstd::prelude::*;
use crate::fault::Fault;
use crate::instruction::{decoded, lemma_decoded_encodes_back, Instruction};
use crate::machine::{
    bcd, word_at, CycleOutcome, MachineState, NiEnum, Step, LAST_INSTRUCTION, STACK_SIZE, V_SIZE,
};
use crate::sprite_laws::lemma_draw_rows_pointwise;

verus! {

/// Running an instruction keeps the machine well-formed, and leaves the
/// program counter at an address from which the step to the next instruction
/// stays within sixteen bits.
pub proof fn lemma_execute_preserves_wf(s: MachineState, ins: Instruction, random: u8)
    requires
        s.wf(),
        s.pc <= LAST_INSTRUCTION,
        ins.operands_fit(),
    ensures
        s.execute(ins, random).0.wf(),
        s.execute(ins, random).0.pc <= LAST_INSTRUCTION,
{
    match ins {
        Instruction::Drw { x, y, n } => {
            if s.draw(x, y, n) is Ok {
                lemma_draw_rows_pointwise(
                    s.display,
                    s.v[x as int] as int,
                    s.v[y as int] as int,
                    s.sprite(n),
                    n as nat,
                );
            }
        },
        _ => {},
    }
}

/// A cycle keeps the machine well-formed: in particular the stack pointer
/// stays between 0 and `STACK_SIZE`.
pub proof fn lemma_cycle_preserves_wf(s: MachineState, random: u8)
    requires
        s.wf(),
    ensures
        s.cycle(random).0.wf(),
{
    if let Some(op) = s.fetch() {
        if let Some(ins) = decoded(op) {
            lemma_decoded_encodes_back(op);
            lemma_execute_preserves_wf(s, ins, random);
        }
    }
}

/// A cycle that ends in a fault, or that waits for a key, changes nothing.
pub proof fn lemma_cycle_changes_nothing_unless_completed(s: MachineState, random: u8)
    ensures
        !(s.cycle(random).1 matches Ok(CycleOutcome::Completed { .. })) ==> s.cycle(random).0 == s,
{
}

/// Only a RND instruction looks at the random byte.
pub proof fn lemma_cycle_ignores_random(s: MachineState, r1: u8, r2: u8)
    requires
        !s.draws_random(),
    ensures
        s.cycle(r1) == s.cycle(r2),
{
}

/// A return straight after a call leads to the instruction after the call,
/// with the stack pointer where it was before the call. Of the slots of the
/// stack the call has written one, the one at the stack pointer, and the
/// return has written none.
pub proof fn lemma_call_then_ret(s: MachineState, addr: u16, r1: u8, r2: u8)
    requires
        s.wf(),
        s.fetch() matches Some(op) && decoded(op) == Some(Instruction::Call { addr }),
        s.sp < STACK_SIZE,
        addr <= LAST_INSTRUCTION,
        decoded(word_at(s.memory, addr as int)) == Some(Instruction::Ret),
    ensures
        ({
            let (called, first) = s.cycle(r1);
            let (returned, second) = called.cycle(r2);
            &&& first matches Ok(CycleOutcome::Completed { .. })
            &&& called.pc == addr
            &&& called.sp == s.sp + 1
            &&& called.stack == s.stack.update(s.sp as int, s.pc)
            &&& second matches Ok(CycleOutcome::Completed { .. })
            &&& returned.pc == s.pc + 2
            &&& returned.sp == s.sp
            &&& returned.stack == called.stack
        }),
{
    let called = s.cycle(r1).0;
    assert(called.stack == s.stack.update(s.sp as int, s.pc));
    assert(called.memory == s.memory);
}

/// A call goes through exactly while fewer than `STACK_SIZE` calls are in
/// progress, and then writes the slot at the stack pointer and no other; one
/// more is a stack overflow, which changes nothing.
pub proof fn lemma_call_depth(s: MachineState, addr: u16, random: u8)
    ensures
        s.sp < STACK_SIZE ==> s.execute(Instruction::Call { addr }, random) == (
            MachineState {
                stack: s.stack.update(s.sp as int, s.pc),
                sp: (s.sp + 1) as u8,
                ..s
            },
            Ok::<Step, Fault>(Step::Advance { directive: NiEnum::Jump(addr), refresh: false }),
        ),
        s.sp >= STACK_SIZE ==> s.execute(Instruction::Call { addr }, random) == (
            s,
            Err::<Step, Fault>(Fault::StackOverflow),
        ),
{
}

/// A return with a call in progress changes the stack pointer and the
/// program counter and nothing else: every slot of the stack keeps what it
/// holds, the one that the return reads too.
pub proof fn lemma_ret_keeps_slots(s: MachineState, random: u8)
    requires
        s.sp > 0,
    ensures
        s.execute(Instruction::Ret, random) == (
            MachineState { pc: s.stack[s.sp - 1], sp: (s.sp - 1) as u8, ..s },
            Ok::<Step, Fault>(Step::Advance { directive: NiEnum::Next, refresh: false }),
        ),
{
}

/// A return with no call in progress is a stack underflow, which changes
/// nothing.
pub proof fn lemma_ret_on_empty_stack(s: MachineState, random: u8)
    requires
        s.sp == 0,
    ensures
        s.execute(Instruction::Ret, random) == (s, Err::<Step, Fault>(Fault::StackUnderflow)),
{
}

/// Only a call writes to the stack: after a cycle every slot holds what it
/// held before, except the slot at the old stack pointer where the cycle ran
/// a call.
pub proof fn lemma_cycle_keeps_slots(s: MachineState, random: u8, k: int)
    requires
        s.wf(),
        0 <= k < STACK_SIZE,
    ensures
        s.cycle(random).0.stack.len() == STACK_SIZE,
        s.cycle(random).0.stack[k] != s.stack[k] ==> k == s.sp && s.cycle(random).0.stack[k]
            == s.pc && (s.fetch() matches Some(op) && decoded(op) matches Some(
            Instruction::Call { .. },
        )),
{
    lemma_cycle_preserves_wf(s, random);
}

/// Storing V0 to Vx at the index register and loading V0 to Vx from the same
/// address gives back the values stored, whatever has become of the
/// registers in between.
pub proof fn lemma_store_then_load(s: MachineState, t: MachineState, x: u8)
    requires
        s.wf(),
        t.wf(),
        x < V_SIZE,
        s.load_registers(x) matches Ok(stored) && stored.memory == t.memory,
        s.i == t.i,
    ensures
        t.load_registers2(x) matches Ok(loaded) && (forall|k: int|
            0 <= k <= x ==> loaded.v[k] == s.v[k]),
{
}

/// Loading V0 to Vx straight after storing them changes nothing.
pub proof fn lemma_store_then_load_at_once(s: MachineState, x: u8)
    requires
        s.wf(),
        x < V_SIZE,
        s.load_registers(x) is Ok,
    ensures
        s.load_registers(x) matches Ok(stored) && stored.load_registers2(x) == Ok::<
            MachineState,
            Fault,
        >(stored),
{
    let stored = s.load_registers(x)->Ok_0;
    let loaded = stored.load_registers2(x)->Ok_0;
    assert(loaded.v =~= stored.v);
}

/// The three digits that LD B stores are decimal digits and make up the
/// value of the register.
pub proof fn lemma_bcd_digits(b: u8)
    ensures
        ({
            let (hundreds, tens, ones) = bcd(b);
            &&& hundreds <= 2 && tens <= 9 && ones <= 9
            &&& b == hundreds * 100 + tens * 10 + ones
        }),
{
}

} // verus!
