//! Field extraction from 16-bit instruction words.

use vstd::prelude::*;

verus! {

/// A 16-bit instruction word, fetched big-endian from memory.
pub type Opcode = u16;

/// The top four bits of an instruction: its family.
pub open spec fn family_of(op: u16) -> u16 {
    (op & 0xF000) >> 12
}

/// The low twelve bits: an address.
pub open spec fn nnn_of(op: u16) -> u16 {
    op & 0x0FFF
}

/// The low eight bits: an immediate byte.
pub open spec fn nn_of(op: u16) -> u8 {
    (op & 0x00FF) as u8
}

/// The low four bits: an immediate nibble, or a mode.
pub open spec fn n_of(op: u16) -> u8 {
    (op & 0x000F) as u8
}

/// Bits 8 to 11: the first register selector.
pub open spec fn x_of(op: u16) -> u8 {
    ((op & 0x0F00) >> 8) as u8
}

/// Bits 4 to 7: the second register selector.
pub open spec fn y_of(op: u16) -> u8 {
    ((op & 0x00F0) >> 4) as u8
}

/// The family of an instruction word, in `0 ..= 15`.
pub fn family(op: Opcode) -> (r: u16)
    ensures
        r == (op & 0xF000) >> 12,
        r == family_of(op),
        r < 16,
{
    let r = (op & 0xF000) >> 12;
    assert((op & 0xF000) >> 12 < 16) by (bit_vector);
    r
}

/// The address field `nnn`: `op & 0x0FFF`.
pub fn nnn(op: Opcode) -> (r: u16)
    ensures
        r == op & 0x0FFF,
        r == nnn_of(op),
        r <= 0x0FFF,
{
    let r = op & 0x0FFF;
    assert(op & 0x0FFF <= 0x0FFF) by (bit_vector);
    r
}

/// The immediate byte `nn`: `op & 0x00FF`.
pub fn nn(op: Opcode) -> (r: u8)
    ensures
        r as u16 == op & 0x00FF,
        r == nn_of(op),
{
    assert(op & 0x00FF <= 0xFF) by (bit_vector);
    (op & 0x00FF) as u8
}

/// The immediate nibble `n`: `op & 0x000F`.
pub fn n(op: Opcode) -> (r: u8)
    ensures
        r as u16 == op & 0x000F,
        r == n_of(op),
        r < 16,
{
    assert(op & 0x000F <= 0xF) by (bit_vector);
    (op & 0x000F) as u8
}

/// The first register selector `x`: `(op & 0x0F00) >> 8`.
pub fn x(op: Opcode) -> (r: u8)
    ensures
        r as u16 == (op & 0x0F00) >> 8,
        r == x_of(op),
        r < 16,
{
    assert((op & 0x0F00) >> 8 <= 0xF) by (bit_vector);
    ((op & 0x0F00) >> 8) as u8
}

/// The second register selector `y`: `(op & 0x00F0) >> 4`.
pub fn y(op: Opcode) -> (r: u8)
    ensures
        r as u16 == (op & 0x00F0) >> 4,
        r == y_of(op),
        r < 16,
{
    assert((op & 0x00F0) >> 4 <= 0xF) by (bit_vector);
    ((op & 0x00F0) >> 4) as u8
}

/// The fields as arithmetic on the instruction word.
pub proof fn lemma_fields_arithmetic(op: u16)
    ensures
        family_of(op) == op / 0x1000,
        nnn_of(op) == op % 0x1000,
        nn_of(op) == op % 0x100,
        n_of(op) == op % 0x10,
        x_of(op) == (op / 0x100) % 0x10,
        y_of(op) == (op / 0x10) % 0x10,
{
    assert((op & 0xF000) >> 12 == op / 0x1000) by (bit_vector);
    assert(op & 0x0FFF == op % 0x1000) by (bit_vector);
    assert(op & 0x00FF == op % 0x100) by (bit_vector);
    assert(op & 0x000F == op % 0x10) by (bit_vector);
    assert((op & 0x0F00) >> 8 == (op / 0x100) % 0x10) by (bit_vector);
    assert((op & 0x00F0) >> 4 == (op / 0x10) % 0x10) by (bit_vector);
}

} // verus!
