//! Properties of the instruction set that relate several instructions or
//! hold of every state.

use vstd::prelude::*;
use crate::opcode::{family_of, nnn_of, nn_of, n_of, x_of, y_of, lemma_fields_arithmetic};
use crate::cpu::{Machine, Outcome, MEMORY_SIZE, transition, cycle, fetched};

verus! {

/// The instruction words that the dispatcher reports as not implemented:
/// family 0x0 but for clear and return, family 0x8 outside modes 0x0 to
/// 0x3, families 0x9, 0xD and 0xE, and family 0xF outside its six modes.
pub open spec fn is_unimplemented(op: u16) -> bool {
    let f = family_of(op);
    ||| f == 0x0 && op != 0x00E0 && op != 0x00EE
    ||| f == 0x8 && n_of(op) > 0x3
    ||| f == 0x9
    ||| f == 0xD
    ||| f == 0xE
    ||| f == 0xF && nn_of(op) != 0x07 && nn_of(op) != 0x15 && nn_of(op) != 0x18
        && nn_of(op) != 0x1E && nn_of(op) != 0x55 && nn_of(op) != 0x65
}

/// A jump sets the counter to its address, whatever the counter was.
pub proof fn lemma_jump(m: Machine, op: u16, random: u8)
    requires
        family_of(op) == 0x1,
    ensures
        transition(m, op, random) == (Machine { counter: nnn_of(op) as usize, ..m }, Outcome::Executed),
{
}

/// A call pushes the counter and jumps to its address; a return right
/// after it restores the state from before the call.
pub proof fn lemma_call_then_return(m: Machine, op: u16, r1: u8, r2: u8)
    requires
        family_of(op) == 0x2,
    ensures
        ({
            let (t, o1) = transition(m, op, r1);
            let (u, o2) = transition(t, 0x00EE, r2);
            &&& o1 == Outcome::Executed
            &&& t.stack == m.stack.push(m.counter)
            &&& t.counter == nnn_of(op)
            &&& o2 == Outcome::Executed
            &&& u == m
        }),
{
    let (t, o1) = transition(m, op, r1);
    lemma_fields_arithmetic(0x00EE);
    assert(family_of(0x00EE) == 0x0);
    assert(t.stack.drop_last() == m.stack);
}

/// In the fetch-execute cycle, a call at `C` to `0x300` pushes `C` and goes
/// on at `0x302`, since the cycle advances the counter after the jump; a
/// return fetched there goes back to `C + 2`, the instruction after the call.
pub proof fn lemma_call_then_return_in_cycle(m: Machine, r1: u8, r2: u8)
    requires
        m.memory.len() == MEMORY_SIZE,
        m.counter + 1 < MEMORY_SIZE,
        fetched(m) == 0x2300,
        m.memory[0x302] == 0x00,
        m.memory[0x303] == 0xEE,
    ensures
        ({
            let (t, o1) = cycle(m, r1);
            let (u, o2) = cycle(t, r2);
            &&& o1 == Outcome::Executed
            &&& t.stack == m.stack.push(m.counter)
            &&& t.counter == 0x302
            &&& o2 == Outcome::Executed
            &&& u == (Machine { counter: (m.counter + 2) as usize, ..m })
        }),
{
    lemma_fields_arithmetic(0x2300);
    assert(family_of(0x2300) == 0x2 && nnn_of(0x2300) == 0x300);
    lemma_fields_arithmetic(0x00EE);
    assert(family_of(0x00EE) == 0x0);
    let (t, o1) = cycle(m, r1);
    assert(fetched(t) == 0x00EE);
    assert(t.stack.drop_last() == m.stack);
}

/// A skip whose condition holds makes the next fetch four bytes past the
/// skip instruction's own address.
pub proof fn lemma_skip_taken(m: Machine, random: u8)
    requires
        m.memory.len() == MEMORY_SIZE,
        m.registers.len() == 16,
        m.counter + 1 < MEMORY_SIZE,
        fetched(m) == 0x3210,
        m.registers[2] == 0x10,
    ensures
        cycle(m, random) == (Machine { counter: (m.counter + 4) as usize, ..m }, Outcome::Executed),
{
    lemma_fields_arithmetic(0x3210);
    assert(family_of(0x3210) == 0x3 && nn_of(0x3210) == 0x10);
    lemma_fields_arithmetic(0x3210);
    assert(x_of(0x3210) == 2);
}

/// Adding to a register wraps around modulo 256 and touches nothing else.
pub proof fn lemma_add_wraps(m: Machine, random: u8)
    requires
        m.registers.len() == 16,
        m.registers[0] == 0xFF,
    ensures
        transition(m, 0x7001, random) == (
            Machine { registers: m.registers.update(0, 0), ..m },
            Outcome::Executed,
        ),
{
    lemma_fields_arithmetic(0x7001);
    assert(family_of(0x7001) == 0x7 && nn_of(0x7001) == 1);
    lemma_fields_arithmetic(0x7001);
    assert(x_of(0x7001) == 0);
}

/// OR, AND and XOR of `0b1010` and `0b0110` into the first register.
pub proof fn lemma_bitwise(m: Machine, random: u8)
    requires
        m.registers.len() == 16,
        m.registers[1] == 0b1010,
        m.registers[2] == 0b0110,
    ensures
        transition(m, 0x8121, random) == (
            Machine { registers: m.registers.update(1, 0b1110), ..m },
            Outcome::Executed,
        ),
        transition(m, 0x8122, random) == (
            Machine { registers: m.registers.update(1, 0b0010), ..m },
            Outcome::Executed,
        ),
        transition(m, 0x8123, random) == (
            Machine { registers: m.registers.update(1, 0b1100), ..m },
            Outcome::Executed,
        ),
{
    lemma_fields_arithmetic(0x8121);
    assert(family_of(0x8121) == 0x8 && n_of(0x8121) == 1);
    lemma_fields_arithmetic(0x8122);
    assert(family_of(0x8122) == 0x8 && n_of(0x8122) == 2);
    lemma_fields_arithmetic(0x8123);
    assert(family_of(0x8123) == 0x8 && n_of(0x8123) == 3);
    lemma_fields_arithmetic(0x8121);
    assert(x_of(0x8121) == 1 && y_of(0x8121) == 2);
    lemma_fields_arithmetic(0x8122);
    assert(x_of(0x8122) == 1 && y_of(0x8122) == 2);
    lemma_fields_arithmetic(0x8123);
    assert(x_of(0x8123) == 1 && y_of(0x8123) == 2);
    let a: u8 = 0b1010;
    let b: u8 = 0b0110;
    assert(a | b == 0b1110 && a & b == 0b0010 && a ^ b == 0b1100) by (bit_vector)
        requires a == 0b1010 && b == 0b0110;
}

/// Storing `V0 ..= V3` at the index and loading them back, whatever the
/// registers held in between, restores them; the other registers keep what
/// they held in between.
pub proof fn lemma_store_then_load(m: Machine, between: Seq<u8>, r1: u8, r2: u8)
    requires
        m.registers.len() == 16,
        m.memory.len() == MEMORY_SIZE,
        between.len() == 16,
        m.index + 3 < MEMORY_SIZE,
    ensures
        ({
            let (t, o1) = transition(m, 0xF355, r1);
            let (u, o2) = transition(Machine { registers: between, ..t }, 0xF365, r2);
            &&& o1 == Outcome::Executed
            &&& t.memory.subrange(m.index as int, m.index + 4) == m.registers.subrange(0, 4)
            &&& o2 == Outcome::Executed
            &&& u.registers.subrange(0, 4) == m.registers.subrange(0, 4)
            &&& u.registers.subrange(4, 16) == between.subrange(4, 16)
        }),
{
    lemma_fields_arithmetic(0xF355);
    assert(family_of(0xF355) == 0xF && nn_of(0xF355) == 0x55);
    lemma_fields_arithmetic(0xF365);
    assert(family_of(0xF365) == 0xF && nn_of(0xF365) == 0x65);
    lemma_fields_arithmetic(0xF355);
    lemma_fields_arithmetic(0xF365);
    assert(x_of(0xF355) == 3 && x_of(0xF365) == 3);
    let (t, o1) = transition(m, 0xF355, r1);
    let (u, o2) = transition(Machine { registers: between, ..t }, 0xF365, r2);
    assert(t.memory.subrange(m.index as int, m.index + 4) =~= m.registers.subrange(0, 4));
    assert(u.registers.subrange(0, 4) =~= m.registers.subrange(0, 4));
    assert(u.registers.subrange(4, 16) =~= between.subrange(4, 16));
}

/// An instruction reports that it is not implemented exactly when it is one
/// of the unimplemented words, and then it changes nothing; in the cycle
/// only the counter moves on.
pub proof fn lemma_unimplemented(m: Machine, op: u16, random: u8)
    ensures
        is_unimplemented(op) <==> transition(m, op, random).1 == Outcome::NotImplemented,
        is_unimplemented(op) ==> transition(m, op, random).0 == m,
        m.counter + 1 < MEMORY_SIZE && is_unimplemented(fetched(m)) ==> cycle(m, random) == (
            Machine { counter: (m.counter + 2) as usize, ..m },
            Outcome::NotImplemented,
        ),
{
    lemma_fields_arithmetic(op);
    lemma_fields_arithmetic(fetched(m));
}

} // verus!
