//! The 65 536-word memory, its two memory-mapped keyboard registers, the
//! zero register at the top address, and the image loader.

use vstd::prelude::*;
use crate::bits::{be_word, get16};

verus! {

pub const MEM_SIZE: usize = 65536;

/// Keyboard status register: bit 15 says a byte is ready.
pub const MR_KBSR: u16 = 0xFE00;

/// Keyboard data register: holds the most recently polled byte.
pub const MR_KBDR: u16 = 0xFE02;

/// The zero register: every read returns 0 and every write is discarded.
pub const R_ZERO: u16 = 0xFFFF;

/// The memory: one word for each 16-bit address.
pub struct Memory {
    words: Vec<u16>,
}

impl View for Memory {
    type V = Seq<u16>;

    closed spec fn view(&self) -> Seq<u16> {
        self.words@
    }
}

impl Memory {
    pub open spec fn wf(&self) -> bool {
        self@.len() == MEM_SIZE
    }

    /// The word at `address`, as plain storage: none of the mapped-register
    /// effects.
    pub fn word_at(&self, address: usize) -> (v: u16)
        requires
            self.wf(),
            address < MEM_SIZE,
        ensures
            v == self@[address as int],
    {
        self.words[address]
    }

    /// A memory with every word zeroed.
    pub fn init() -> (m: Memory)
        ensures
            m.wf(),
            forall|a: int| 0 <= a < MEM_SIZE ==> m@[a] == 0,
    {
        let words: Vec<u16> = vec![0u16; MEM_SIZE];
        Memory { words }
    }
}

/// What a store leaves in memory: the word lands at `a`, except that the
/// zero register is forced to 0.
pub open spec fn mem_write_spec(m: Seq<u16>, a: int, val: u16) -> Seq<u16>
    recommends
        0 <= a < m.len(),
{
    if a == R_ZERO as int {
        m.update(a, 0)
    } else {
        m.update(a, val)
    }
}

/// Writes `val` at `address`; a write to the zero register is discarded.
pub fn mem_write(mem_ref: &mut Memory, address: usize, val: u16)
    requires
        old(mem_ref).wf(),
        address < MEM_SIZE,
    ensures
        final(mem_ref).wf(),
        final(mem_ref)@ == mem_write_spec(old(mem_ref)@, address as int, val),
{
    if address == R_ZERO as usize {
        mem_ref.words[address] = 0;
    } else {
        mem_ref.words[address] = val;
    }
}

/// What a load does, given the host keyboard bytes `input` of which the
/// first `pos` are already consumed. Reading the keyboard status register
/// polls: with a byte available, KBSR gets its ready bit and KBDR the byte;
/// with none, KBSR is cleared. Reading the zero register forces it to 0.
/// The result is the memory after those effects, the word read, and the new
/// count of consumed bytes.
pub open spec fn mem_read_spec(m: Seq<u16>, a: u16, input: Seq<u8>, pos: int) -> (Seq<
    u16,
>, u16, int)
    recommends
        m.len() == MEM_SIZE,
        0 <= pos <= input.len(),
{
    let m1 = if a == MR_KBSR {
        if pos < input.len() {
            m.update(MR_KBSR as int, 0x8000).update(MR_KBDR as int, input[pos] as u16)
        } else {
            m.update(MR_KBSR as int, 0)
        }
    } else {
        m
    };
    let p1 = if a == MR_KBSR && pos < input.len() {
        pos + 1
    } else {
        pos
    };
    let m2 = if a == R_ZERO {
        m1.update(R_ZERO as int, 0)
    } else {
        m1
    };
    (m2, m2[a as int], p1)
}

/// Reads the word at `address`, performing the keyboard-poll and
/// zero-register effects; returns the word and the new count of consumed
/// input bytes.
pub fn mem_read(mem_ref: &mut Memory, address: u16, input: &Vec<u8>, pos: usize) -> (r: (
    u16,
    usize,
))
    requires
        old(mem_ref).wf(),
        pos <= input@.len(),
    ensures
        final(mem_ref).wf(),
        (final(mem_ref)@, r.0, r.1 as int) == mem_read_spec(old(mem_ref)@, address, input@, pos as int),
        pos <= r.1 <= input@.len(),
{
    let mut p = pos;
    if address == MR_KBSR {
        if p < input.len() {
            let b = input[p];
            mem_ref.words[MR_KBSR as usize] = 0x8000;
            mem_ref.words[MR_KBDR as usize] = b as u16;
            p = p + 1;
        } else {
            mem_ref.words[MR_KBSR as usize] = 0;
        }
    }
    if address == R_ZERO {
        mem_ref.words[R_ZERO as usize] = 0;
    }
    (mem_ref.words[address as usize], p)
}

/// The value `mem_read` would return at `address`, without its effects.
pub open spec fn mem_peek_spec(m: Seq<u16>, a: u16, input: Seq<u8>, pos: int) -> u16 {
    mem_read_spec(m, a, input, pos).1
}

/// Computes what a load at `address` would return, changing nothing.
pub fn mem_peek(mem_ref: &Memory, address: u16, input: &Vec<u8>, pos: usize) -> (v: u16)
    requires
        mem_ref.wf(),
        pos <= input@.len(),
    ensures
        v == mem_peek_spec(mem_ref@, address, input@, pos as int),
{
    if address == MR_KBSR {
        if pos < input.len() {
            0x8000
        } else {
            0
        }
    } else if address == R_ZERO {
        0
    } else {
        mem_ref.words[address as usize]
    }
}

/// Any store to the zero register is lost: a load from 0xFFFF after any
/// write there returns 0.
pub proof fn lemma_zero_register(m: Seq<u16>, val: u16, input: Seq<u8>, pos: int)
    requires
        m.len() == MEM_SIZE,
        0 <= pos <= input.len(),
    ensures
        mem_read_spec(mem_write_spec(m, R_ZERO as int, val), R_ZERO, input, pos).1 == 0,
{
}

/// A keyboard poll with no byte available clears KBSR, returns the cleared
/// status, and leaves KBDR as it was.
pub proof fn lemma_kbsr_poll_empty(m: Seq<u16>, input: Seq<u8>, pos: int)
    requires
        m.len() == MEM_SIZE,
        pos == input.len(),
    ensures
        mem_read_spec(m, MR_KBSR, input, pos).0[MR_KBSR as int] == 0,
        mem_read_spec(m, MR_KBSR, input, pos).1 == 0,
        mem_read_spec(m, MR_KBSR, input, pos).0[MR_KBDR as int] == m[MR_KBDR as int],
        mem_read_spec(m, MR_KBSR, input, pos).2 == pos,
{
}

/// How many payload words an image of `bytes` holds: one for every byte
/// pair after the two base bytes, a trailing odd byte counting as a word.
pub open spec fn image_words(bytes: Seq<u8>) -> int
    recommends
        bytes.len() >= 2,
{
    (bytes.len() - 1) / 2
}

/// Payload word `j` of an image: the big-endian pair at bytes `2j + 2` and
/// `2j + 3`, a missing low byte read as 0.
pub open spec fn image_word(bytes: Seq<u8>, j: int) -> u16
    recommends
        bytes.len() >= 2,
        0 <= j < image_words(bytes),
{
    if 3 + 2 * j < bytes.len() {
        be_word(bytes, 2 + 2 * j)
    } else {
        ((bytes[2 + 2 * j] as u16) * 256) as u16
    }
}

/// Memory after loading an image: its payload words stand from the base
/// address up, truncated at the top of memory; every other word is kept.
pub open spec fn load_image_spec(m: Seq<u16>, bytes: Seq<u8>) -> Seq<u16>
    recommends
        m.len() == MEM_SIZE,
        bytes.len() >= 2,
{
    let base = be_word(bytes, 0) as int;
    Seq::new(
        m.len(),
        |a: int|
            if base <= a < base + image_words(bytes) {
                image_word(bytes, a - base)
            } else {
                m[a]
            },
    )
}

/// Copies an image into memory: the first big-endian word names the base
/// address, each following big-endian word lands at the next address, and
/// words past the top of memory are dropped.
pub fn load_image(mem: &mut Memory, bytes: &Vec<u8>)
    requires
        old(mem).wf(),
        2 <= bytes@.len(),
    ensures
        final(mem).wf(),
        final(mem)@ == load_image_spec(old(mem)@, bytes@),
{
    let ghost m0 = mem@;
    let base = get16(bytes.as_slice(), 0) as usize;
    let n_words = (bytes.len() - 1) / 2;
    let mut j: usize = 0;
    while j < n_words && base + j < MEM_SIZE
        invariant
            mem@.len() == MEM_SIZE,
            bytes@.len() >= 2,
            base == be_word(bytes@, 0),
            n_words == image_words(bytes@),
            0 <= j <= n_words,
            base + j <= MEM_SIZE,
            forall|a: int|
                base <= a < base + j ==> mem@[a] == image_word(bytes@, a - base),
            forall|a: int|
                0 <= a < MEM_SIZE && !(base <= a < base + j) ==> mem@[a] == m0[a],
        decreases n_words - j,
    {
        let word: u16 = if 3 + 2 * j < bytes.len() {
            get16(bytes.as_slice(), 2 + 2 * j)
        } else {
            let hi: u16 = bytes[2 + 2 * j] as u16;
            assert(hi << 8 == hi * 256) by (bit_vector)
                requires
                    hi <= 0xFF,
            ;
            hi << 8
        };
        mem.words[base + j] = word;
        j = j + 1;
    }
    assert(mem@ =~= load_image_spec(m0, bytes@));
}

/// After a load with base `B`, payload word `j` stands at address `B + j`,
/// for every word that fits under the top of memory.
pub proof fn lemma_load_image_places_words(m: Seq<u16>, bytes: Seq<u8>, j: int)
    requires
        m.len() == MEM_SIZE,
        bytes.len() >= 2,
        0 <= j < image_words(bytes),
        be_word(bytes, 0) + j < MEM_SIZE,
    ensures
        load_image_spec(m, bytes)[be_word(bytes, 0) + j] == image_word(bytes, j),
{
}

/// Loading the same image twice leaves the same memory as loading it once.
pub proof fn lemma_load_image_idempotent(m: Seq<u16>, bytes: Seq<u8>)
    requires
        m.len() == MEM_SIZE,
        bytes.len() >= 2,
    ensures
        load_image_spec(load_image_spec(m, bytes), bytes) == load_image_spec(m, bytes),
{
    assert(load_image_spec(load_image_spec(m, bytes), bytes) =~= load_image_spec(m, bytes));
}

} // verus!
