use crate::instruction::{Fault, FaultKind, Instruction, StdFunc, STACK_SIZE};
use crate::program::Program;
use crate::render::dec_usize;
use crate::semantics::{
    char_output, decimal_digits, fetch, lemma_run_step, print_string_effect, run_faults, run_halts,
    run_n, run_running, step_effect, str_bytes, Effect, MachineView, Status,
};
use vstd::prelude::*;

verus! {

/// The mutable execution context: a fixed 128-byte stack with a cursor one
/// past its logical top, the program cursor, and the arithmetic-overflow
/// flag. Its view is the logical state: the stack up to the cursor.
pub struct VM {
    stack: Vec<u8>,
    stack_pointer: usize,
    program_pointer: usize,
    overflow: bool,
}

impl View for VM {
    type V = MachineView;

    closed spec fn view(&self) -> MachineView {
        MachineView {
            stack: self.stack@.subrange(0, self.stack_pointer as int),
            pc: self.program_pointer as nat,
            overflow: self.overflow,
        }
    }
}

impl VM {
    /// The storage always spans the full capacity and the cursor stays
    /// within it. Established by `new`, preserved by every operation.
    pub closed spec fn wf(&self) -> bool {
        self.stack@.len() == STACK_SIZE && self.stack_pointer <= STACK_SIZE
    }

    /// A fresh machine: empty logical stack, both cursors at zero, flag clear.
    pub fn new() -> (r: VM)
        ensures
            r.wf(),
            r@.stack == Seq::<u8>::empty(),
            r@.pc == 0,
            r@.overflow == false,
    {
        let r = VM { stack: vec![0u8; STACK_SIZE], stack_pointer: 0, program_pointer: 0, overflow: false };
        proof {
            assert(r@.stack =~= Seq::<u8>::empty());
        }
        r
    }

    /// Write a byte at the cursor and advance it; the caller has checked room.
    fn push_raw(&mut self, value: u8)
        requires
            old(self).wf(),
            old(self)@.stack.len() < STACK_SIZE,
        ensures
            final(self).wf(),
            final(self)@.stack == old(self)@.stack.push(value),
            final(self)@.pc == old(self)@.pc,
            final(self)@.overflow == old(self)@.overflow,
    {
        self.stack.set(self.stack_pointer, value);
        self.stack_pointer = self.stack_pointer + 1;
        proof {
            assert(self@.stack =~= old(self)@.stack.push(value));
        }
    }

    /// Step the cursor back and read the byte there; the caller has checked
    /// the stack is not empty.
    fn pop_raw(&mut self) -> (r: u8)
        requires
            old(self).wf(),
            old(self)@.stack.len() > 0,
        ensures
            final(self).wf(),
            r == old(self)@.stack.last(),
            final(self)@.stack == old(self)@.stack.drop_last(),
            final(self)@.pc == old(self)@.pc,
            final(self)@.overflow == old(self)@.overflow,
    {
        self.stack_pointer = self.stack_pointer - 1;
        let r = self.stack[self.stack_pointer];
        proof {
            assert(self@.stack =~= old(self)@.stack.drop_last());
        }
        r
    }

    /// Checked push: refused with `StackOverflow`, and the machine left as it
    /// was, exactly when the stack is at capacity.
    pub fn stack_push(&mut self, value: u8) -> (r: Result<(), FaultKind>)
        requires
            old(self).wf(),
        ensures
            final(self).wf(),
            old(self)@.stack.len() < STACK_SIZE ==> (r == Ok::<(), FaultKind>(())
                && final(self)@.stack == old(self)@.stack.push(value)
                && final(self)@.pc == old(self)@.pc
                && final(self)@.overflow == old(self)@.overflow),
            old(self)@.stack.len() >= STACK_SIZE ==> (r == Err::<(), FaultKind>(FaultKind::StackOverflow)
                && final(self)@ == old(self)@),
    {
        if self.stack_pointer >= STACK_SIZE {
            return Err(FaultKind::StackOverflow);
        }
        self.push_raw(value);
        Ok(())
    }

    /// Checked pop: yields the top byte, the last one pushed and not yet
    /// popped; refused with `StackUnderflow`, and the machine left as it was,
    /// exactly when the stack is empty.
    pub fn stack_pop(&mut self) -> (r: Result<u8, FaultKind>)
        requires
            old(self).wf(),
        ensures
            final(self).wf(),
            old(self)@.stack.len() > 0 ==> (r == Ok::<u8, FaultKind>(old(self)@.stack.last())
                && final(self)@.stack == old(self)@.stack.drop_last()
                && final(self)@.pc == old(self)@.pc
                && final(self)@.overflow == old(self)@.overflow),
            old(self)@.stack.len() == 0 ==> (r == Err::<u8, FaultKind>(FaultKind::StackUnderflow)
                && final(self)@ == old(self)@),
    {
        if self.stack_pointer == 0 {
            return Err(FaultKind::StackUnderflow);
        }
        let v = self.pop_raw();
        Ok(v)
    }

    /// The logical stack size: how many bytes are on the stack.
    pub fn stack_pointer(&self) -> (r: usize)
        requires
            self.wf(),
        ensures
            r as nat == self@.stack.len(),
    {
        self.stack_pointer
    }

    /// The index of the next instruction to execute.
    pub fn program_pointer(&self) -> (r: usize)
        ensures
            r as nat == self@.pc,
    {
        self.program_pointer
    }

    /// The arithmetic-overflow flag, as the most recent `Add` or `Sub` left it.
    pub fn overflow(&self) -> (r: bool)
        ensures
            r == self@.overflow,
    {
        self.overflow
    }

    /// The byte at position `i` of the logical stack, counted from the bottom.
    pub fn stack_at(&self, i: usize) -> (r: u8)
        requires
            self.wf(),
            i < self@.stack.len(),
        ensures
            r == self@.stack[i as int],
    {
        self.stack[i]
    }

    /// A fault report for the instruction under the cursor.
    fn fault_at(&self, kind: FaultKind, instruction: Instruction) -> (r: Fault)
        ensures
            r.kind == kind,
            r.position as nat == self@.pc,
            r.instruction == instruction,
    {
        Fault { kind, position: self.program_pointer, instruction }
    }

    /// The print-string routine: pop and write characters until a zero byte
    /// is popped or the stack empties. Never faults.
    fn run_print_string(&mut self, out: &mut Vec<u8>)
        requires
            old(self).wf(),
        ensures
            final(self).wf(),
            final(self)@.stack == print_string_effect(old(self)@.stack).0,
            final(self)@.pc == old(self)@.pc,
            final(self)@.overflow == old(self)@.overflow,
            final(out)@ == old(out)@ + print_string_effect(old(self)@.stack).1,
    {
        let ghost s0: Seq<u8> = self@.stack;
        let ghost o0: Seq<u8> = out@;
        let ghost pc0: nat = self@.pc;
        let ghost ov0: bool = self@.overflow;
        proof {
            assert(out@.skip(o0.len() as int) =~= Seq::<u8>::empty());
        }
        loop
            invariant_except_break
                self.wf(),
                self@.pc == pc0,
                self@.overflow == ov0,
                out@.len() >= o0.len(),
                out@.subrange(0, o0.len() as int) == o0,
                print_string_effect(s0).0 == print_string_effect(self@.stack).0,
                print_string_effect(s0).1 == out@.skip(o0.len() as int) + print_string_effect(
                    self@.stack,
                ).1,
            ensures
                self.wf(),
                self@.pc == pc0,
                self@.overflow == ov0,
                out@.len() >= o0.len(),
                out@.subrange(0, o0.len() as int) == o0,
                self@.stack == print_string_effect(s0).0,
                out@.skip(o0.len() as int) == print_string_effect(s0).1,
            decreases self@.stack.len(),
        {
            let ghost cur: Seq<u8> = self@.stack;
            let ghost emitted: Seq<u8> = out@.skip(o0.len() as int);
            if self.stack_pointer == 0 {
                proof {
                    assert(print_string_effect(s0).1 =~= emitted);
                }
                break ;
            }
            let v = self.pop_raw();
            if v == 0 {
                proof {
                    assert(print_string_effect(cur).0 == cur.drop_last());
                    assert(print_string_effect(s0).1 =~= emitted);
                }
                break ;
            }
            emit_char(out, v);
            proof {
                assert(out@.skip(o0.len() as int) =~= emitted + char_output(v));
                assert(out@.subrange(0, o0.len() as int) =~= o0);
                assert(print_string_effect(s0).1 =~= (emitted + char_output(v))
                    + print_string_effect(self@.stack).1);
            }
        }
        proof {
            assert(out@ =~= o0 + out@.skip(o0.len() as int));
            assert(out@ =~= old(out)@ + print_string_effect(old(self)@.stack).1);
        }
    }

    /// Execute exactly one instruction: fetch at the program cursor, decode,
    /// apply. Bytes the instruction prints are appended to `out`. Yields
    /// `Ok(false)` exactly when the instruction was the terminator,
    /// `Ok(true)` when execution goes on, and the fault report when the
    /// instruction faulted — the machine is then left as it stood.
    pub fn execute_one(&mut self, program: &Program, out: &mut Vec<u8>) -> (r: Result<bool, Fault>)
        requires
            old(self).wf(),
        ensures
            final(self).wf(),
            final(self)@ == step_effect(old(self)@, program@).m,
            final(out)@ == old(out)@ + step_effect(old(self)@, program@).out,
            (match step_effect(old(self)@, program@).status {
                Status::Running => r == Ok::<bool, Fault>(true),
                Status::Halted => r == Ok::<bool, Fault>(false),
                Status::Faulted(k) => r matches Err(f) && f.kind == k && f.position as nat == old(
                    self,
                )@.pc && f.instruction == fetch(program@, old(self)@.pc),
            }),
    {
        let instruction = program.get(self.program_pointer);
        match instruction {
            Instruction::Push(value) => {
                if self.stack_pointer >= STACK_SIZE {
                    proof {
                        assert(out@ =~= old(out)@ + step_effect(old(self)@, program@).out);
                    }
                    return Err(self.fault_at(FaultKind::StackOverflow, instruction));
                }
                self.push_raw(value);
                self.program_pointer = self.program_pointer + 1;
                proof {
                    assert(self@ =~= step_effect(old(self)@, program@).m);
                    assert(out@ =~= old(out)@ + step_effect(old(self)@, program@).out);
                }
                Ok(true)
            },
            Instruction::PushStr(s) => {
                let n = s.unicode_len();
                if n >= STACK_SIZE || self.stack_pointer + n + 1 > STACK_SIZE {
                    proof {
                        assert(out@ =~= old(out)@ + step_effect(old(self)@, program@).out);
                    }
                    return Err(self.fault_at(FaultKind::StackOverflow, instruction));
                }
                let ghost s_pre: Seq<u8> = self@.stack;
                self.push_raw(0);
                proof {
                    assert(self@.stack =~= s_pre + seq![0u8] + str_bytes(s@).skip(
                        n as int,
                    ).reverse());
                }
                let mut i: usize = n;
                while i > 0
                    invariant
                        self.wf(),
                        i <= n,
                        n as nat == s@.len(),
                        s_pre.len() + n + 1 <= STACK_SIZE,
                        self@.stack.len() == s_pre.len() + 1 + (n - i),
                        self@.stack == s_pre + seq![0u8] + str_bytes(s@).skip(i as int).reverse(),
                        self@.pc == old(self)@.pc,
                        self@.overflow == old(self)@.overflow,
                    decreases i,
                {
                    i = i - 1;
                    let c = s.get_char(i);
                    self.push_raw(c as u8);
                    proof {
                        assert(str_bytes(s@).skip(i as int).reverse() =~= str_bytes(s@).skip(
                            i as int + 1,
                        ).reverse().push(str_bytes(s@)[i as int]));
                        assert(self@.stack =~= s_pre + seq![0u8] + str_bytes(s@).skip(
                            i as int,
                        ).reverse());
                    }
                }
                self.program_pointer = self.program_pointer + 1;
                proof {
                    assert(str_bytes(s@).skip(0) =~= str_bytes(s@));
                    assert(self@ =~= step_effect(old(self)@, program@).m);
                    assert(out@ =~= old(out)@ + step_effect(old(self)@, program@).out);
                }
                Ok(true)
            },
            Instruction::Pop => {
                if self.stack_pointer == 0 {
                    proof {
                        assert(out@ =~= old(out)@ + step_effect(old(self)@, program@).out);
                    }
                    return Err(self.fault_at(FaultKind::StackUnderflow, instruction));
                }
                let _ = self.pop_raw();
                self.program_pointer = self.program_pointer + 1;
                proof {
                    assert(self@ =~= step_effect(old(self)@, program@).m);
                    assert(out@ =~= old(out)@ + step_effect(old(self)@, program@).out);
                }
                Ok(true)
            },
            Instruction::Add => {
                if self.stack_pointer < 2 {
                    proof {
                        assert(out@ =~= old(out)@ + step_effect(old(self)@, program@).out);
                    }
                    return Err(self.fault_at(FaultKind::StackUnderflow, instruction));
                }
                let lhs = self.pop_raw();
                let rhs = self.pop_raw();
                let total: u16 = lhs as u16 + rhs as u16;
                self.push_raw((total % 256) as u8);
                self.overflow = total > 255;
                self.program_pointer = self.program_pointer + 1;
                proof {
                    assert(self@ =~= step_effect(old(self)@, program@).m);
                    assert(out@ =~= old(out)@ + step_effect(old(self)@, program@).out);
                }
                Ok(true)
            },
            Instruction::Sub => {
                if self.stack_pointer < 2 {
                    proof {
                        assert(out@ =~= old(out)@ + step_effect(old(self)@, program@).out);
                    }
                    return Err(self.fault_at(FaultKind::StackUnderflow, instruction));
                }
                let lhs = self.pop_raw();
                let rhs = self.pop_raw();
                let total: u16 = lhs as u16 + 256 - rhs as u16;
                self.push_raw((total % 256) as u8);
                self.overflow = lhs < rhs;
                self.program_pointer = self.program_pointer + 1;
                proof {
                    assert(self@ =~= step_effect(old(self)@, program@).m);
                    assert(out@ =~= old(out)@ + step_effect(old(self)@, program@).out);
                }
                Ok(true)
            },
            Instruction::Mul => {
                if self.stack_pointer < 2 {
                    proof {
                        assert(out@ =~= old(out)@ + step_effect(old(self)@, program@).out);
                    }
                    return Err(self.fault_at(FaultKind::StackUnderflow, instruction));
                }
                let lhs = self.pop_raw();
                let rhs = self.pop_raw();
                proof {
                    assert((lhs as int) * (rhs as int) <= 255 * 255) by (nonlinear_arith)
                        requires
                            lhs as int <= 255,
                            rhs as int <= 255,
                    ;
                }
                let total: u32 = lhs as u32 * rhs as u32;
                self.push_raw((total % 256) as u8);
                self.program_pointer = self.program_pointer + 1;
                proof {
                    assert(self@ =~= step_effect(old(self)@, program@).m);
                    assert(out@ =~= old(out)@ + step_effect(old(self)@, program@).out);
                }
                Ok(true)
            },
            Instruction::Div => {
                if self.stack_pointer < 2 {
                    proof {
                        assert(out@ =~= old(out)@ + step_effect(old(self)@, program@).out);
                    }
                    return Err(self.fault_at(FaultKind::StackUnderflow, instruction));
                }
                if self.stack[self.stack_pointer - 2] == 0 {
                    proof {
                        assert(out@ =~= old(out)@ + step_effect(old(self)@, program@).out);
                    }
                    return Err(self.fault_at(FaultKind::DivisionByZero, instruction));
                }
                let lhs = self.pop_raw();
                let rhs = self.pop_raw();
                self.push_raw(lhs / rhs);
                self.program_pointer = self.program_pointer + 1;
                proof {
                    assert(self@ =~= step_effect(old(self)@, program@).m);
                    assert(out@ =~= old(out)@ + step_effect(old(self)@, program@).out);
                }
                Ok(true)
            },
            Instruction::JmpEq(t) => {
                if self.stack_pointer < 2 {
                    proof {
                        assert(out@ =~= old(out)@ + step_effect(old(self)@, program@).out);
                    }
                    return Err(self.fault_at(FaultKind::StackUnderflow, instruction));
                }
                let a = self.stack[self.stack_pointer - 1];
                let b = self.stack[self.stack_pointer - 2];
                if a == b {
                    self.program_pointer = t;
                } else {
                    self.program_pointer = self.program_pointer + 1;
                }
                proof {
                    assert(self@ =~= step_effect(old(self)@, program@).m);
                    assert(out@ =~= old(out)@ + step_effect(old(self)@, program@).out);
                }
                Ok(true)
            },
            Instruction::JmpNeq(t) => {
                if self.stack_pointer < 2 {
                    proof {
                        assert(out@ =~= old(out)@ + step_effect(old(self)@, program@).out);
                    }
                    return Err(self.fault_at(FaultKind::StackUnderflow, instruction));
                }
                let a = self.stack[self.stack_pointer - 1];
                let b = self.stack[self.stack_pointer - 2];
                if a != b {
                    self.program_pointer = t;
                } else {
                    self.program_pointer = self.program_pointer + 1;
                }
                proof {
                    assert(self@ =~= step_effect(old(self)@, program@).m);
                    assert(out@ =~= old(out)@ + step_effect(old(self)@, program@).out);
                }
                Ok(true)
            },
            Instruction::Jmp(t) => {
                self.program_pointer = t;
                proof {
                    assert(self@ =~= step_effect(old(self)@, program@).m);
                    assert(out@ =~= old(out)@ + step_effect(old(self)@, program@).out);
                }
                Ok(true)
            },
            Instruction::StdCall(id) => {
                match StdFunc::from_id(id) {
                    None => {
                        proof {
                            assert(out@ =~= old(out)@ + step_effect(old(self)@, program@).out);
                        }
                        Err(self.fault_at(FaultKind::InvalidStandardCallId, instruction))
                    },
                    Some(StdFunc::PrintU8) => {
                        if self.stack_pointer == 0 {
                            proof {
                                assert(out@ =~= old(out)@ + step_effect(old(self)@, program@).out);
                            }
                            return Err(self.fault_at(FaultKind::StackUnderflow, instruction));
                        }
                        let v = self.pop_raw();
                        let mut digits = dec_usize(v as usize);
                        out.append(&mut digits);
                        self.program_pointer = self.program_pointer + 1;
                        proof {
                            assert(decimal_digits(v as usize as nat) == decimal_digits(v as nat));
                            assert(self@ =~= step_effect(old(self)@, program@).m);
                            assert(out@ =~= old(out)@ + step_effect(old(self)@, program@).out);
                        }
                        Ok(true)
                    },
                    Some(StdFunc::PrintChar) => {
                        if self.stack_pointer == 0 {
                            proof {
                                assert(out@ =~= old(out)@ + step_effect(old(self)@, program@).out);
                            }
                            return Err(self.fault_at(FaultKind::StackUnderflow, instruction));
                        }
                        let v = self.pop_raw();
                        emit_char(out, v);
                        self.program_pointer = self.program_pointer + 1;
                        proof {
                            assert(self@ =~= step_effect(old(self)@, program@).m);
                            assert(out@ =~= old(out)@ + step_effect(old(self)@, program@).out);
                        }
                        Ok(true)
                    },
                    Some(StdFunc::PrintString) => {
                        self.run_print_string(out);
                        self.program_pointer = self.program_pointer + 1;
                        proof {
                            assert(self@ =~= step_effect(old(self)@, program@).m);
                            assert(out@ =~= old(out)@ + step_effect(old(self)@, program@).out);
                        }
                        Ok(true)
                    },
                    Some(StdFunc::Duplicate) => {
                        if self.stack_pointer == 0 {
                            proof {
                                assert(out@ =~= old(out)@ + step_effect(old(self)@, program@).out);
                            }
                            return Err(self.fault_at(FaultKind::StackUnderflow, instruction));
                        }
                        if self.stack_pointer >= STACK_SIZE {
                            proof {
                                assert(out@ =~= old(out)@ + step_effect(old(self)@, program@).out);
                            }
                            return Err(self.fault_at(FaultKind::StackOverflow, instruction));
                        }
                        let v = self.stack[self.stack_pointer - 1];
                        self.push_raw(v);
                        self.program_pointer = self.program_pointer + 1;
                        proof {
                            assert(self@ =~= step_effect(old(self)@, program@).m);
                            assert(out@ =~= old(out)@ + step_effect(old(self)@, program@).out);
                        }
                        Ok(true)
                    },
                }
            },
            Instruction::Interupt => {
                proof {
                    assert(out@ =~= old(out)@ + step_effect(old(self)@, program@).out);
                }
                Ok(false)
            },
        }
    }

    /// Drive the machine for at most `max_steps` instructions, appending
    /// everything it prints to `out`. `Ok(true)` means some number of steps
    /// reached the terminator (or ran off the end of the program); `Ok(false)`
    /// means the budget ran out with the machine still running — exactly
    /// `max_steps` steps were taken; `Err` carries the fault report, and the
    /// machine stands exactly where the fault struck.
    pub fn execute(&mut self, program: &Program, out: &mut Vec<u8>, max_steps: u64) -> (r: Result<
        bool,
        Fault,
    >)
        requires
            old(self).wf(),
        ensures
            final(self).wf(),
            final(out)@.len() >= old(out)@.len(),
            final(out)@.subrange(0, old(out)@.len() as int) == old(out)@,
            (match r {
                Ok(true) => exists|n: nat|
                    n <= max_steps && run_halts(
                        old(self)@,
                        program@,
                        n,
                        final(self)@,
                        final(out)@.skip(old(out)@.len() as int),
                    ),
                Ok(false) => run_running(
                    old(self)@,
                    program@,
                    max_steps as nat,
                    final(self)@,
                    final(out)@.skip(old(out)@.len() as int),
                ),
                Err(f) => (exists|n: nat|
                    n <= max_steps && run_faults(
                        old(self)@,
                        program@,
                        n,
                        final(self)@,
                        final(out)@.skip(old(out)@.len() as int),
                        f.kind,
                    )) && f.position as nat == final(self)@.pc && f.instruction == fetch(
                    program@,
                    final(self)@.pc,
                ),
            }),
    {
        let ghost m0: MachineView = self@;
        let ghost o0: Seq<u8> = out@;
        let ghost mut steps: nat = 0;
        let mut remaining: u64 = max_steps;
        proof {
            assert(out@.skip(o0.len() as int) =~= Seq::<u8>::empty());
            assert(run_n(m0, program@, 0) =~= (Effect {
                m: self@,
                out: out@.skip(o0.len() as int),
                status: Status::Running,
            }));
        }
        loop
            invariant
                self.wf(),
                out@.len() >= o0.len(),
                out@.subrange(0, o0.len() as int) == o0,
                run_running(m0, program@, steps, self@, out@.skip(o0.len() as int)),
                steps + remaining as nat == max_steps as nat,
                m0 == old(self)@,
                o0 == old(out)@,
            decreases remaining,
        {
            if remaining == 0 {
                return Ok(false);
            }
            remaining = remaining - 1;
            let ghost pre: MachineView = self@;
            let ghost pre_out: Seq<u8> = out@;
            let step = self.execute_one(program, out);
            proof {
                lemma_run_step(m0, program@, steps);
                steps = steps + 1;
                assert(out@.skip(o0.len() as int) =~= pre_out.skip(o0.len() as int) + step_effect(
                    pre,
                    program@,
                ).out);
                assert(run_n(m0, program@, steps) =~= (Effect {
                    m: self@,
                    out: out@.skip(o0.len() as int),
                    status: step_effect(pre, program@).status,
                }));
                assert(out@.subrange(0, o0.len() as int) =~= o0);
            }
            match step {
                Ok(true) => {},
                Ok(false) => {
                    proof {
                        assert(run_halts(m0, program@, steps, self@, out@.skip(o0.len() as int)));
                    }
                    return Ok(true);
                },
                Err(f) => {
                    proof {
                        assert(run_faults(
                            m0,
                            program@,
                            steps,
                            self@,
                            out@.skip(o0.len() as int),
                            f.kind,
                        ));
                    }
                    return Err(f);
                },
            }
        }
    }
}

/// Write the bytes that printing the character with code point `v` writes.
fn emit_char(out: &mut Vec<u8>, v: u8)
    ensures
        final(out)@ == old(out)@ + char_output(v),
{
    if v < 128 {
        out.push(v);
        proof {
            assert(out@ =~= old(out)@ + char_output(v));
        }
    } else {
        out.push(192 + v / 64);
        out.push(128 + v % 64);
        proof {
            assert(out@ =~= old(out)@ + char_output(v));
        }
    }
}

} // verus!
