use crate::machine::VM;
use crate::semantics::{decimal_digits, MachineView};
use vstd::prelude::*;

verus! {

/// The decimal digits of `n` as ASCII bytes, most significant first, no
/// leading zeros; `0` renders as the single digit `0`.
pub fn dec_usize(n: usize) -> (r: Vec<u8>)
    ensures
        r@ == decimal_digits(n as nat),
    decreases n,
{
    if n < 10 {
        let mut r: Vec<u8> = Vec::new();
        r.push(48 + n as u8);
        proof {
            assert(r@ =~= decimal_digits(n as nat));
        }
        r
    } else {
        let mut r = dec_usize(n / 10);
        r.push(48 + (n % 10) as u8);
        proof {
            assert(r@ =~= decimal_digits(n as nat));
        }
        r
    }
}

/// The ASCII byte of one hexadecimal digit, lower case.
pub open spec fn hex_digit_of(n: u8) -> u8 {
    if n < 10 {
        (48 + n) as u8
    } else {
        (87 + n) as u8
    }
}

/// One stack byte in the dump: two hexadecimal digits and a space.
pub open spec fn hex_of_byte(v: u8) -> Seq<u8> {
    seq![hex_digit_of((v / 16) as u8), hex_digit_of((v % 16) as u8), 32u8]
}

/// The dump of a stack from position `i` on: sixteen bytes to a row, a
/// newline after each full row and after the last byte.
pub open spec fn dump_from(s: Seq<u8>, i: nat) -> Seq<u8>
    decreases s.len() - i,
{
    if i >= s.len() {
        Seq::<u8>::empty()
    } else {
        hex_of_byte(s[i as int]) + (if (i + 1) % 16 == 0 || i + 1 == s.len() {
            seq![10u8]
        } else {
            Seq::<u8>::empty()
        }) + dump_from(s, i + 1)
    }
}

/// The two header lines of the debug text: `pc` with the program cursor and
/// `sp` with the logical stack size, each in decimal.
pub open spec fn header_spec(m: MachineView) -> Seq<u8> {
    seq![112u8, 99u8, 32u8] + decimal_digits(m.pc) + seq![10u8] + seq![115u8, 112u8, 32u8]
        + decimal_digits(m.stack.len()) + seq![10u8]
}

/// The whole debug text: the header, then the stack bytes in hexadecimal rows.
pub open spec fn render_spec(m: MachineView) -> Seq<u8> {
    header_spec(m) + dump_from(m.stack, 0)
}

/// The ASCII byte of a hexadecimal digit, lower case.
fn hex_digit(n: u8) -> (r: u8)
    requires
        n < 16,
    ensures
        r == hex_digit_of(n),
{
    if n < 10 {
        48 + n
    } else {
        87 + n
    }
}

impl VM {
    /// Debug text of the machine state: the program cursor, the logical stack
    /// size, and the stack contents up to that size as fixed-width
    /// hexadecimal rows. Reads the state and never changes it.
    pub fn render(&self) -> (r: Vec<u8>)
        requires
            self.wf(),
        ensures
            r@ == render_spec(self@),
    {
        let mut r: Vec<u8> = Vec::new();
        r.push(112);
        r.push(99);
        r.push(32);
        let mut pc_digits = dec_usize(self.program_pointer());
        r.append(&mut pc_digits);
        r.push(10);
        r.push(115);
        r.push(112);
        r.push(32);
        let sp = self.stack_pointer();
        let mut sp_digits = dec_usize(sp);
        r.append(&mut sp_digits);
        r.push(10);
        proof {
            assert(r@ =~= header_spec(self@));
        }
        let mut i: usize = 0;
        while i < sp
            invariant
                self.wf(),
                sp as nat == self@.stack.len(),
                i <= sp,
                r@ + dump_from(self@.stack, i as nat) == render_spec(self@),
            decreases sp - i,
        {
            let v = self.stack_at(i);
            r.push(hex_digit(v / 16));
            r.push(hex_digit(v % 16));
            r.push(32);
            if (i + 1) % 16 == 0 || i + 1 == sp {
                r.push(10);
            }
            proof {
                assert(r@ + dump_from(self@.stack, i as nat + 1) =~= render_spec(self@));
            }
            i = i + 1;
        }
        proof {
            assert(r@ =~= render_spec(self@));
        }
        r
    }
}

} // verus!
