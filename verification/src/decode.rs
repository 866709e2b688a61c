use vstd::prelude::*;

verus! {

/// Top nibble of an instruction word: the opcode family.
pub open spec fn op_family(w: u16) -> u8 {
    (w >> 12) as u8
}

/// Second nibble: the register index `x`.
pub open spec fn op_x(w: u16) -> u8 {
    ((w >> 8) & 0xF) as u8
}

/// Third nibble: the register index `y`.
pub open spec fn op_y(w: u16) -> u8 {
    ((w >> 4) & 0xF) as u8
}

/// Bottom nibble: the suffix that disambiguates several families.
pub open spec fn op_n(w: u16) -> u8 {
    (w & 0xF) as u8
}

/// Bottom byte: the 8-bit immediate `kk`.
pub open spec fn op_kk(w: u16) -> u8 {
    (w & 0xFF) as u8
}

/// Bottom three nibbles: the 12-bit address operand.
pub open spec fn op_addr(w: u16) -> u16 {
    w & 0xFFF
}

pub proof fn lemma_decode_bounds(w: u16)
    by (bit_vector)
    ensures
        op_family(w) < 16,
        op_x(w) < 16,
        op_y(w) < 16,
        op_n(w) < 16,
        op_addr(w) < 0x1000,
        op_kk(w) == ((op_y(w) as u16) << 4 | (op_n(w) as u16)) as u8,
{
}

/// An instruction word split into its four nibbles (most significant
/// first) and the derived operands shared by every opcode family.
pub struct Decoded {
    /// Top nibble: the opcode family.
    pub family: u8,
    /// Register index from the second nibble.
    pub x: u8,
    /// Register index from the third nibble.
    pub y: u8,
    /// Bottom nibble.
    pub n: u8,
    /// Bottom byte: 8-bit immediate.
    pub kk: u8,
    /// Bottom three nibbles: 12-bit address.
    pub addr: u16,
}

/// Split a 16-bit instruction word into nibble fields and derived
/// operands.  Pure: no opcode handler re-derives these on its own.
pub fn decode(word: u16) -> (d: Decoded)
    ensures
        d.family == op_family(word),
        d.x == op_x(word),
        d.y == op_y(word),
        d.n == op_n(word),
        d.kk == op_kk(word),
        d.addr == op_addr(word),
        d.family < 16 && d.x < 16 && d.y < 16 && d.n < 16 && d.addr < 0x1000,
{
    proof {
        lemma_decode_bounds(word);
    }
    Decoded {
        family: (word >> 12) as u8,
        x: ((word >> 8) & 0xF) as u8,
        y: ((word >> 4) & 0xF) as u8,
        n: (word & 0xF) as u8,
        kk: (word & 0xFF) as u8,
        addr: word & 0xFFF,
    }
}

} // verus!
