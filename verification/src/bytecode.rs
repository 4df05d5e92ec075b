//! The byte-level operand stack of the flat bytecode experiments: a fixed
//! byte buffer with a stack pointer. Arithmetic opcodes widen to sixteen
//! bits and push both result bytes, low byte first; comparisons, logic
//! and bit operations push one byte.

use vstd::prelude::*;

use crate::types::Fault;

verus! {

/// The buffer size of the byte stack.
pub const STACK_SIZE: usize = 1024;

/// A byte stack: a fixed buffer and the count of live bytes.
pub struct Stack {
    data: Vec<u8>,
    sp: usize,
}

/// Well-formedness: the buffer has its fixed size and the live count fits
/// in it. The constructor establishes it and every method keeps it.
pub closed spec fn stack_wf(s: Stack) -> bool {
    s.data@.len() == STACK_SIZE && s.sp <= STACK_SIZE
}

/// The live bytes of a stack, bottom first.
pub closed spec fn stack_bytes(s: Stack) -> Seq<u8> {
    s.data@.take(s.sp as int)
}

/// The two little-endian bytes of a sixteen-bit value: low byte first.
pub open spec fn two_bytes(v: u16) -> Seq<u8> {
    seq![(v % 256) as u8, (v / 256) as u8]
}

/// Whether an opcode is one the byte stack can apply.
pub open spec fn is_byte_op(op: u8) -> bool {
    2 <= op <= 20
}

/// What an opcode with left operand `b` and right operand `a` pushes:
/// addition, subtraction, multiplication and division push both bytes of
/// the sixteen-bit result; the remainder, the comparisons, the logic and
/// the bit operations push one byte, with `1` for a true comparison and
/// `0` for a false one.
pub open spec fn op_bytes(op: u8, b: u8, a: u8) -> Seq<u8> {
    if op == 2 {
        two_bytes((b + a) as u16)
    } else if op == 3 {
        two_bytes((b - a) as u16)
    } else if op == 4 {
        two_bytes((b * a) as u16)
    } else if op == 5 {
        two_bytes((b as u16 / a as u16))
    } else if op == 6 {
        seq![(b as u16 % a as u16) as u8]
    } else if op == 7 {
        seq![
            if b == a {
                1u8
            } else {
                0u8
            },
        ]
    } else if op == 8 {
        seq![
            if b != a {
                1u8
            } else {
                0u8
            },
        ]
    } else if op == 9 {
        seq![
            if b < a {
                1u8
            } else {
                0u8
            },
        ]
    } else if op == 10 {
        seq![
            if b > a {
                1u8
            } else {
                0u8
            },
        ]
    } else if op == 11 {
        seq![
            if b <= a {
                1u8
            } else {
                0u8
            },
        ]
    } else if op == 12 {
        seq![
            if b >= a {
                1u8
            } else {
                0u8
            },
        ]
    } else if op == 14 {
        seq![
            if b != 0 && a != 0 {
                1u8
            } else {
                0u8
            },
        ]
    } else if op == 15 {
        seq![
            if b != 0 || a != 0 {
                1u8
            } else {
                0u8
            },
        ]
    } else if op == 16 {
        seq![
            if (b != 0) != (a != 0) {
                1u8
            } else {
                0u8
            },
        ]
    } else if op == 17 {
        seq![b & a]
    } else if op == 18 {
        seq![b | a]
    } else if op == 19 {
        seq![b ^ a]
    } else {
        seq![!b]
    }
}

impl Stack {
    /// A fresh, empty byte stack.
    pub fn new() -> (r: Self)
        ensures
            stack_wf(r),
            stack_bytes(r) == Seq::<u8>::empty(),
            r.len_spec() == 0,
    {
        let mut data: Vec<u8> = Vec::new();
        let mut i: usize = 0;
        while i < STACK_SIZE
            invariant
                data@.len() == i,
                i <= STACK_SIZE,
            decreases STACK_SIZE - i,
        {
            data.push(0);
            i += 1;
        }
        let r = Stack { data, sp: 0 };
        proof {
            assert(stack_bytes(r) =~= Seq::<u8>::empty());
        }
        r
    }

    /// The live byte count, in the specifications.
    pub closed spec fn len_spec(&self) -> usize {
        self.sp
    }

    /// The number of live bytes on the stack.
    pub fn len(&self) -> (r: usize)
        ensures
            r == self.len_spec(),
    {
        self.sp
    }

    /// The byte at a live index, counted from the bottom.
    pub fn get(&self, index: usize) -> (r: u8)
        requires
            stack_wf(*self),
            index < self.len_spec(),
        ensures
            r == stack_bytes(*self)[index as int],
    {
        self.data[index]
    }

    /// Pushes one byte.
    pub fn push_byte(&mut self, b: u8)
        requires
            stack_wf(*old(self)),
            old(self).len_spec() < STACK_SIZE,
        ensures
            stack_wf(*final(self)),
            stack_bytes(*final(self)) == stack_bytes(*old(self)).push(b),
            final(self).len_spec() == old(self).len_spec() + 1,
    {
        let at = self.sp;
        self.data[at] = b;
        self.sp = at + 1;
        proof {
            assert(stack_bytes(*self) =~= stack_bytes(*old(self)).push(b));
        }
    }

    /// Pops one byte.
    pub fn pop_byte(&mut self) -> (r: u8)
        requires
            stack_wf(*old(self)),
            old(self).len_spec() >= 1,
        ensures
            stack_wf(*final(self)),
            r == stack_bytes(*old(self)).last(),
            stack_bytes(*final(self)) == stack_bytes(*old(self)).drop_last(),
            final(self).len_spec() == old(self).len_spec() - 1,
    {
        let at = self.sp - 1;
        let r = self.data[at];
        self.sp = at;
        proof {
            assert(stack_bytes(*self) =~= stack_bytes(*old(self)).drop_last());
        }
        r
    }

    /// Applies one byte opcode, as `op_bytes` states it: the negation
    /// opcode replaces the top byte by its logical negation; every other
    /// opcode pops the right then the left operand and pushes the
    /// opcode's bytes. The operands that the machine cannot take — a
    /// subtraction that would go below zero, a zero divisor — are left
    /// out.
    pub fn do_operation(&mut self, operation: u8) -> (r: Result<(), Fault>)
        requires
            stack_wf(*old(self)),
            is_byte_op(operation),
            operation == 13 ==> old(self).len_spec() >= 1,
            operation != 13 ==> old(self).len_spec() >= 2,
            operation == 3 ==> stack_bytes(*old(self))[old(self).len_spec() - 2] >= stack_bytes(
                *old(self),
            ).last(),
            (operation == 5 || operation == 6) ==> stack_bytes(*old(self)).last() != 0,
        ensures
            stack_wf(*final(self)),
            r is Ok,
            operation == 13 ==> stack_bytes(*final(self)) == stack_bytes(*old(self)).drop_last().push(
                if stack_bytes(*old(self)).last() == 0 {
                    1u8
                } else {
                    0u8
                },
            ),
            operation != 13 ==> stack_bytes(*final(self)) == stack_bytes(
                *old(self),
            ).drop_last().drop_last() + op_bytes(
                operation,
                stack_bytes(*old(self))[old(self).len_spec() - 2],
                stack_bytes(*old(self)).last(),
            ),
    {
        let a = self.pop_byte();
        if operation == 13 {
            self.push_byte(
                if a == 0 {
                    1
                } else {
                    0
                },
            );
            return Ok(());
        }
        let b = self.pop_byte();
        if operation == 2 {
            let v: u16 = b as u16 + a as u16;
            self.push_byte((v % 256) as u8);
            self.push_byte((v / 256) as u8);
            proof {
                assert(stack_bytes(*self) =~= stack_bytes(*old(self)).drop_last().drop_last()
                    + op_bytes(operation, b, a));
            }
        } else if operation == 3 {
            let v: u16 = (b - a) as u16;
            self.push_byte((v % 256) as u8);
            self.push_byte((v / 256) as u8);
            proof {
                assert(stack_bytes(*self) =~= stack_bytes(*old(self)).drop_last().drop_last()
                    + op_bytes(operation, b, a));
            }
        } else if operation == 4 {
            proof {
                assert((b as int) * (a as int) <= 255 * 255) by (nonlinear_arith)
                    requires
                        b <= 255,
                        a <= 255,
                ;
            }
            let v: u16 = b as u16 * a as u16;
            self.push_byte((v % 256) as u8);
            self.push_byte((v / 256) as u8);
            proof {
                assert(stack_bytes(*self) =~= stack_bytes(*old(self)).drop_last().drop_last()
                    + op_bytes(operation, b, a));
            }
        } else if operation == 5 {
            let v: u16 = b as u16 / a as u16;
            self.push_byte((v % 256) as u8);
            self.push_byte((v / 256) as u8);
            proof {
                assert(stack_bytes(*self) =~= stack_bytes(*old(self)).drop_last().drop_last()
                    + op_bytes(operation, b, a));
            }
        } else {
            let one = match operation {
                6 => (b as u16 % a as u16) as u8,
                7 => if b == a {
                    1
                } else {
                    0
                },
                8 => if b != a {
                    1
                } else {
                    0
                },
                9 => if b < a {
                    1
                } else {
                    0
                },
                10 => if b > a {
                    1
                } else {
                    0
                },
                11 => if b <= a {
                    1
                } else {
                    0
                },
                12 => if b >= a {
                    1
                } else {
                    0
                },
                14 => if b != 0 && a != 0 {
                    1
                } else {
                    0
                },
                15 => if b != 0 || a != 0 {
                    1
                } else {
                    0
                },
                16 => if (b != 0) != (a != 0) {
                    1
                } else {
                    0
                },
                17 => b & a,
                18 => b | a,
                19 => b ^ a,
                _ => !b,
            };
            self.push_byte(one);
            proof {
                assert(stack_bytes(*self) =~= stack_bytes(*old(self)).drop_last().drop_last()
                    + op_bytes(operation, b, a));
            }
        }
        Ok(())
    }
}

} // verus!
