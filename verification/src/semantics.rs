use crate::instruction::{std_func_of, FaultKind, Instruction, StdFunc, STACK_SIZE};
use vstd::prelude::*;

verus! {

/// The mathematical state of the machine: the logical stack from bottom to
/// top, the program cursor, and the arithmetic-overflow flag.
#[verifier::ext_equal]
pub struct MachineView {
    pub stack: Seq<u8>,
    pub pc: nat,
    pub overflow: bool,
}

/// Whether execution goes on, stopped at a terminator, or faulted.
pub enum Status {
    Running,
    Halted,
    Faulted(FaultKind),
}

/// What one step (or a whole run) does: the state after, the bytes written,
/// and whether execution goes on.
#[verifier::ext_equal]
pub struct Effect {
    pub m: MachineView,
    pub out: Seq<u8>,
    pub status: Status,
}

/// The instruction a program holds at `pc`; every index past the end reads as
/// `Interupt`, so a program may omit its trailing terminator.
pub open spec fn fetch(prog: Seq<Instruction>, pc: nat) -> Instruction {
    if pc < prog.len() {
        prog[pc as int]
    } else {
        Instruction::Interupt
    }
}

/// The bytes a text lays onto the stack, one per character.
pub open spec fn str_bytes(s: Seq<char>) -> Seq<u8> {
    Seq::new(s.len(), |i: int| s[i] as u8)
}

/// The decimal digits of `n`, as ASCII bytes, most significant first.
pub open spec fn decimal_digits(n: nat) -> Seq<u8>
    decreases n,
{
    if n < 10 {
        seq![(48 + n) as u8]
    } else {
        decimal_digits(n / 10).push((48 + n % 10) as u8)
    }
}

/// The bytes that printing the character with code point `v` writes: the byte
/// itself below 128, else its two-byte UTF-8 encoding.
pub open spec fn char_output(v: u8) -> Seq<u8> {
    if v < 128 {
        seq![v]
    } else {
        seq![(192 + v / 64) as u8, (128 + v % 64) as u8]
    }
}

/// Effect of the print-string routine on a stack: bytes are popped and written
/// as characters until a zero byte is popped or the stack empties. Yields the
/// stack that is left and the bytes written.
pub open spec fn print_string_effect(stack: Seq<u8>) -> (Seq<u8>, Seq<u8>)
    decreases stack.len(),
{
    if stack.len() == 0 {
        (stack, Seq::<u8>::empty())
    } else if stack.last() == 0 {
        (stack.drop_last(), Seq::<u8>::empty())
    } else {
        let rest = print_string_effect(stack.drop_last());
        (rest.0, char_output(stack.last()) + rest.1)
    }
}

/// Sum of two bytes, wrapping.
pub open spec fn wrap_add(a: u8, b: u8) -> u8 {
    (((a + b) % 256) as u8)
}

/// Difference of two bytes, wrapping.
pub open spec fn wrap_sub(a: u8, b: u8) -> u8 {
    (((a - b + 256) % 256) as u8)
}

/// Product of two bytes, wrapping.
pub open spec fn wrap_mul(a: u8, b: u8) -> u8 {
    (((a * b) % 256) as u8)
}

/// An effect that reports a fault and leaves the machine as it was.
pub open spec fn fault_effect(m: MachineView, k: FaultKind) -> Effect {
    Effect { m, out: Seq::<u8>::empty(), status: Status::Faulted(k) }
}

/// An effect that goes on running with the given state and written bytes.
pub open spec fn step_to(stack: Seq<u8>, pc: nat, overflow: bool, out: Seq<u8>) -> Effect {
    Effect { m: MachineView { stack, pc, overflow }, out, status: Status::Running }
}

/// Effect of a built-in routine, dispatched by id. Ids outside the built-in
/// set fault rather than being reinterpreted.
pub open spec fn std_call_effect(m: MachineView, id: usize) -> Effect {
    match std_func_of(id) {
        None => fault_effect(m, FaultKind::InvalidStandardCallId),
        Some(StdFunc::PrintU8) => if m.stack.len() < 1 {
            fault_effect(m, FaultKind::StackUnderflow)
        } else {
            step_to(
                m.stack.drop_last(),
                m.pc + 1,
                m.overflow,
                decimal_digits(m.stack.last() as nat),
            )
        },
        Some(StdFunc::PrintChar) => if m.stack.len() < 1 {
            fault_effect(m, FaultKind::StackUnderflow)
        } else {
            step_to(m.stack.drop_last(), m.pc + 1, m.overflow, char_output(m.stack.last()))
        },
        Some(StdFunc::PrintString) => step_to(
            print_string_effect(m.stack).0,
            m.pc + 1,
            m.overflow,
            print_string_effect(m.stack).1,
        ),
        Some(StdFunc::Duplicate) => if m.stack.len() < 1 {
            fault_effect(m, FaultKind::StackUnderflow)
        } else if m.stack.len() >= STACK_SIZE {
            fault_effect(m, FaultKind::StackOverflow)
        } else {
            step_to(m.stack.push(m.stack.last()), m.pc + 1, m.overflow, Seq::<u8>::empty())
        },
    }
}

/// The effect of one instruction on a machine state: the whole instruction
/// semantics. A faulting instruction leaves the state as it was; every
/// continuing instruction except a redirect advances the cursor by one.
pub open spec fn step_spec(m: MachineView, i: Instruction) -> Effect {
    match i {
        Instruction::Push(v) => if m.stack.len() >= STACK_SIZE {
            fault_effect(m, FaultKind::StackOverflow)
        } else {
            step_to(m.stack.push(v), m.pc + 1, m.overflow, Seq::<u8>::empty())
        },
        Instruction::PushStr(s) => if m.stack.len() + s@.len() + 1 > STACK_SIZE {
            fault_effect(m, FaultKind::StackOverflow)
        } else {
            step_to(
                m.stack + seq![0u8] + str_bytes(s@).reverse(),
                m.pc + 1,
                m.overflow,
                Seq::<u8>::empty(),
            )
        },
        Instruction::Pop => if m.stack.len() < 1 {
            fault_effect(m, FaultKind::StackUnderflow)
        } else {
            step_to(m.stack.drop_last(), m.pc + 1, m.overflow, Seq::<u8>::empty())
        },
        Instruction::Add => if m.stack.len() < 2 {
            fault_effect(m, FaultKind::StackUnderflow)
        } else {
            let a = m.stack.last();
            let b = m.stack[m.stack.len() - 2];
            step_to(
                m.stack.drop_last().drop_last().push(wrap_add(a, b)),
                m.pc + 1,
                a + b > 255,
                Seq::<u8>::empty(),
            )
        },
        Instruction::Sub => if m.stack.len() < 2 {
            fault_effect(m, FaultKind::StackUnderflow)
        } else {
            let a = m.stack.last();
            let b = m.stack[m.stack.len() - 2];
            step_to(
                m.stack.drop_last().drop_last().push(wrap_sub(a, b)),
                m.pc + 1,
                a < b,
                Seq::<u8>::empty(),
            )
        },
        Instruction::Mul => if m.stack.len() < 2 {
            fault_effect(m, FaultKind::StackUnderflow)
        } else {
            let a = m.stack.last();
            let b = m.stack[m.stack.len() - 2];
            step_to(
                m.stack.drop_last().drop_last().push(wrap_mul(a, b)),
                m.pc + 1,
                m.overflow,
                Seq::<u8>::empty(),
            )
        },
        Instruction::Div => if m.stack.len() < 2 {
            fault_effect(m, FaultKind::StackUnderflow)
        } else if m.stack[m.stack.len() - 2] == 0 {
            fault_effect(m, FaultKind::DivisionByZero)
        } else {
            let a = m.stack.last();
            let b = m.stack[m.stack.len() - 2];
            step_to(
                m.stack.drop_last().drop_last().push(((a as int / b as int) as u8)),
                m.pc + 1,
                m.overflow,
                Seq::<u8>::empty(),
            )
        },
        Instruction::JmpEq(t) => if m.stack.len() < 2 {
            fault_effect(m, FaultKind::StackUnderflow)
        } else {
            let a = m.stack.last();
            let b = m.stack[m.stack.len() - 2];
            step_to(
                m.stack,
                if a == b {
                    t as nat
                } else {
                    m.pc + 1
                },
                m.overflow,
                Seq::<u8>::empty(),
            )
        },
        Instruction::JmpNeq(t) => if m.stack.len() < 2 {
            fault_effect(m, FaultKind::StackUnderflow)
        } else {
            let a = m.stack.last();
            let b = m.stack[m.stack.len() - 2];
            step_to(
                m.stack,
                if a != b {
                    t as nat
                } else {
                    m.pc + 1
                },
                m.overflow,
                Seq::<u8>::empty(),
            )
        },
        Instruction::Jmp(t) => step_to(m.stack, t as nat, m.overflow, Seq::<u8>::empty()),
        Instruction::StdCall(id) => std_call_effect(m, id),
        Instruction::Interupt => Effect { m, out: Seq::<u8>::empty(), status: Status::Halted },
    }
}

/// The effect of one step of the fetch-decode-execute loop: the instruction
/// under the cursor, applied to the state.
pub open spec fn step_effect(m: MachineView, prog: Seq<Instruction>) -> Effect {
    step_spec(m, fetch(prog, m.pc))
}

/// The machine after `n` steps of the loop, with everything written along the
/// way. Once a step halts or faults, further steps change nothing.
pub open spec fn run_n(m: MachineView, prog: Seq<Instruction>, n: nat) -> Effect
    decreases n,
{
    if n == 0 {
        Effect { m, out: Seq::<u8>::empty(), status: Status::Running }
    } else {
        let e = run_n(m, prog, (n - 1) as nat);
        match e.status {
            Status::Running => {
                let e2 = step_effect(e.m, prog);
                Effect { m: e2.m, out: e.out + e2.out, status: e2.status }
            },
            Status::Halted => e,
            Status::Faulted(_) => e,
        }
    }
}

/// After `n` steps from `m0` the machine still runs, stands at `m1`, and has
/// written `o`.
pub open spec fn run_running(
    m0: MachineView,
    prog: Seq<Instruction>,
    n: nat,
    m1: MachineView,
    o: Seq<u8>,
) -> bool {
    run_n(m0, prog, n) == (Effect { m: m1, out: o, status: Status::Running })
}

/// After `n` steps from `m0` the machine has halted at `m1`, having written `o`.
pub open spec fn run_halts(
    m0: MachineView,
    prog: Seq<Instruction>,
    n: nat,
    m1: MachineView,
    o: Seq<u8>,
) -> bool {
    run_n(m0, prog, n) == (Effect { m: m1, out: o, status: Status::Halted })
}

/// After `n` steps from `m0` the machine has faulted with `k` at `m1`, having
/// written `o`.
pub open spec fn run_faults(
    m0: MachineView,
    prog: Seq<Instruction>,
    n: nat,
    m1: MachineView,
    o: Seq<u8>,
    k: FaultKind,
) -> bool {
    run_n(m0, prog, n) == (Effect { m: m1, out: o, status: Status::Faulted(k) })
}

/// A run that still goes on extends by exactly one step of the loop.
pub proof fn lemma_run_step(m0: MachineView, prog: Seq<Instruction>, n: nat)
    requires
        run_n(m0, prog, n).status is Running,
    ensures
        ({
            let e = run_n(m0, prog, n);
            let e2 = step_effect(e.m, prog);
            run_n(m0, prog, n + 1) == (Effect {
                m: e2.m,
                out: e.out + e2.out,
                status: e2.status,
            })
        }),
{
    assert(run_n(m0, prog, n + 1) =~= ({
        let e = run_n(m0, prog, n);
        let e2 = step_effect(e.m, prog);
        Effect { m: e2.m, out: e.out + e2.out, status: e2.status }
    }));
}

} // verus!
