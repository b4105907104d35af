//! The register file: eight general-purpose registers, the program counter,
//! and the condition register, each a 16-bit word.

use vstd::prelude::*;

verus! {

pub const R_R0: usize = 0;
pub const R_R1: usize = 1;
pub const R_R2: usize = 2;
pub const R_R3: usize = 3;
pub const R_R4: usize = 4;
pub const R_R5: usize = 5;
pub const R_R6: usize = 6;
pub const R_R7: usize = 7;
pub const R_PC: usize = 8;
pub const R_COND: usize = 9;
pub const R_COUNT: usize = 10;

pub const FL_POS: u16 = 1;
pub const FL_ZRO: u16 = 2;
pub const FL_NEG: u16 = 4;

/// The register file, viewed as a sequence of ten words indexed by
/// `R_R0` through `R_COND`.
pub struct Registers {
    slots: Vec<u16>,
}

impl View for Registers {
    type V = Seq<u16>;

    closed spec fn view(&self) -> Seq<u16> {
        self.slots@
    }
}

impl Registers {
    pub open spec fn wf(&self) -> bool {
        self@.len() == R_COUNT
    }

    /// A register file with every register zeroed.
    pub fn init() -> (r: Registers)
        ensures
            r.wf(),
            forall|i: int| 0 <= i < R_COUNT ==> r@[i] == 0,
    {
        let mut slots: Vec<u16> = Vec::new();
        let mut i: usize = 0;
        while i < R_COUNT
            invariant
                slots@.len() == i,
                i <= R_COUNT,
                forall|j: int| 0 <= j < i ==> slots@[j] == 0,
            decreases R_COUNT - i,
        {
            slots.push(0);
            i = i + 1;
        }
        Registers { slots }
    }

    /// The word held in register `i`.
    pub fn get(&self, i: usize) -> (v: u16)
        requires
            self.wf(),
            i < R_COUNT,
        ensures
            v == self@[i as int],
    {
        self.slots[i]
    }

    /// Writes the word `v` into register `i`.
    pub fn set(&mut self, i: usize, v: u16)
        requires
            old(self).wf(),
            i < R_COUNT,
        ensures
            final(self).wf(),
            final(self)@ == old(self)@.update(i as int, v),
    {
        self.slots[i] = v;
    }
}

/// The condition flag that a just-written register value produces: zero
/// gives Z, a set sign bit gives N, anything else gives P.
pub open spec fn flag_for(v: u16) -> u16 {
    if v == 0 {
        FL_ZRO
    } else if v >= 0x8000 {
        FL_NEG
    } else {
        FL_POS
    }
}

/// Recomputes the condition register from the value of register `r`, which
/// was just written.
pub fn update_flags(reg_ref: &mut Registers, r: usize)
    requires
        old(reg_ref).wf(),
        r < R_COUNT,
    ensures
        final(reg_ref).wf(),
        final(reg_ref)@ == old(reg_ref)@.update(R_COND as int, flag_for(old(reg_ref)@[r as int])),
{
    let v = reg_ref.get(r);
    assert((v >> 15 == 1) == (v >= 0x8000)) by (bit_vector);
    if v == 0 {
        reg_ref.set(R_COND, FL_ZRO);
    } else if v >> 15 == 1 {
        reg_ref.set(R_COND, FL_NEG);
    } else {
        reg_ref.set(R_COND, FL_POS);
    }
}

/// The condition register is one-hot: any flag update leaves exactly one of
/// the P, Z and N flags set, whatever value was written.
pub proof fn lemma_flags_one_hot(v: u16)
    ensures
        flag_for(v) == FL_POS || flag_for(v) == FL_ZRO || flag_for(v) == FL_NEG,
        FL_POS & FL_ZRO == 0,
        FL_POS & FL_NEG == 0,
        FL_ZRO & FL_NEG == 0,
{
    assert(1u16 & 2 == 0 && 1u16 & 4 == 0 && 2u16 & 4 == 0) by (bit_vector);
}

} // verus!
