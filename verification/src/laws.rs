use crate::instruction::{FaultKind, Instruction, STACK_SIZE};
use crate::semantics::{std_call_effect, step_spec, MachineView, Status};
use vstd::prelude::*;

verus! {

/// The failure policy: a step that does not go on running — a halt or a
/// fault — leaves the machine exactly as it was and writes nothing, so the
/// caller sees the state in which the fault struck.
pub proof fn lemma_stopped_step_preserves_state(m: MachineView, i: Instruction)
    ensures
        !(step_spec(m, i).status is Running) ==> step_spec(m, i).m == m && step_spec(m, i).out
            == Seq::<u8>::empty(),
{
    match i {
        Instruction::StdCall(id) => {
            assert(!(std_call_effect(m, id).status is Running) ==> std_call_effect(m, id).m == m
                && std_call_effect(m, id).out == Seq::<u8>::empty());
        },
        _ => {},
    }
}

/// Faults arise exactly at their conditions, in every state: a push faults
/// with `StackOverflow` exactly when the stack is at capacity, a pop faults
/// with `StackUnderflow` exactly when it is empty, and a division faults with
/// `DivisionByZero` exactly when the divisor — the second byte from the top —
/// is zero.
pub proof fn lemma_fault_conditions(m: MachineView, v: u8)
    ensures
        step_spec(m, Instruction::Push(v)).status == Status::Faulted(FaultKind::StackOverflow)
            <==> m.stack.len() >= STACK_SIZE,
        step_spec(m, Instruction::Pop).status == Status::Faulted(FaultKind::StackUnderflow)
            <==> m.stack.len() == 0,
        m.stack.len() >= 2 ==> (step_spec(m, Instruction::Div).status == Status::Faulted(
            FaultKind::DivisionByZero,
        ) <==> m.stack[m.stack.len() - 2] == 0),
{
}

/// The stack is last-in, first-out: from any state with room, `Push(v)` goes
/// on running and leaves `v` on top, and an immediate `Pop` removes exactly
/// that byte, restoring the stack to what it was. The value popped is always
/// the last one pushed and not yet popped.
pub proof fn lemma_push_then_pop(m: MachineView, v: u8)
    requires
        m.stack.len() < STACK_SIZE,
    ensures
        ({
            let pushed = step_spec(m, Instruction::Push(v));
            let popped = step_spec(pushed.m, Instruction::Pop);
            pushed.status is Running && pushed.m.stack.last() == v && popped.status is Running
                && popped.m.stack == m.stack
        }),
{
    let pushed = step_spec(m, Instruction::Push(v));
    assert(step_spec(pushed.m, Instruction::Pop).m.stack =~= m.stack);
}

/// The overflow flag belongs to `Add` and `Sub` alone: `Add` sets it exactly
/// when the sum of the two popped bytes wrapped past 255, `Sub` exactly when
/// the first popped byte was smaller than the second, and every other
/// instruction — faulting or not — leaves the flag untouched.
pub proof fn lemma_overflow_flag(m: MachineView, i: Instruction)
    ensures
        ({
            let e = step_spec(m, i);
            match i {
                Instruction::Add => e.status is Running ==> (e.m.overflow <==> m.stack.last()
                    + m.stack[m.stack.len() - 2] > 255),
                Instruction::Sub => e.status is Running ==> (e.m.overflow <==> m.stack.last()
                    < m.stack[m.stack.len() - 2]),
                _ => e.m.overflow == m.overflow,
            }
        }),
{
}

/// A comparison jump restores both popped operands in their original order:
/// whether or not the branch is taken — and even when the comparison faults
/// for want of operands — the stack after `JmpEq` or `JmpNeq` is exactly the
/// stack before.
pub proof fn lemma_compare_restores_stack(m: MachineView, t: usize)
    ensures
        step_spec(m, Instruction::JmpEq(t)).m.stack == m.stack,
        step_spec(m, Instruction::JmpNeq(t)).m.stack == m.stack,
{
}

} // verus!
