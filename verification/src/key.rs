//! Generation-checked identifiers of arena slots.

use vstd::prelude::*;

verus! {

/// Number of distinct slot indices, and the weight of the generation in the
/// 64-bit form of a key.
pub const INDEX_SPAN: u64 = 0x1_0000_0000;

/// Index that no slot ever has; it marks the null key.
pub const NULL_INDEX: u32 = 0xFFFF_FFFF;

/// Identifier of one record in one arena: the slot's index and the generation
/// the slot had when the record was filed.
///
/// A key carries no lifetime: holding one does not keep its record alive.
#[derive(Clone, Copy, PartialEq, Eq, Structural, Debug, Hash)]
pub struct Key {
    pub index: u32,
    pub generation: u32,
}

impl Key {
    /// The 64-bit form of a key: generation in the upper half, index in the lower.
    pub open spec fn bits(self) -> u64 {
        (self.generation as u64 * INDEX_SPAN + self.index as u64) as u64
    }

    /// The key whose 64-bit form is `bits`.
    pub open spec fn of_bits(bits: u64) -> Key {
        Key { index: (bits % INDEX_SPAN) as u32, generation: (bits / INDEX_SPAN) as u32 }
    }

    /// Whether the key has the shape of one that an arena hands out:
    /// an odd generation and an index below the null index.
    pub open spec fn issuable(self) -> bool {
        self.generation % 2 == 1 && self.index != NULL_INDEX
    }

    /// Whether this is the null key.
    pub open spec fn spec_is_null(self) -> bool {
        self.index == NULL_INDEX
    }

    /// The null key: the sentinel for "no parent".
    pub fn null() -> (key: Key)
        ensures
            key == (Key { index: NULL_INDEX, generation: 1 }),
            key.spec_is_null(),
        no_unwind
    {
        Key { index: NULL_INDEX, generation: 1 }
    }

    /// Whether this is a null key.
    pub fn is_null(&self) -> (null: bool)
        ensures
            null == self.spec_is_null(),
    {
        self.index == NULL_INDEX
    }

    /// The 64-bit form of the key, for handing it across a foreign interface.
    pub fn as_ffi(&self) -> (bits: u64)
        ensures
            bits == self.bits(),
            Key::of_bits(bits) == *self,
        no_unwind
    {
        self.generation as u64 * INDEX_SPAN + self.index as u64
    }

    /// The key with the given 64-bit form, its generation made odd.
    pub fn from_ffi(bits: u64) -> (key: Key)
        ensures
            key.index == Key::of_bits(bits).index,
            key.generation == if Key::of_bits(bits).generation % 2 == 1 {
                Key::of_bits(bits).generation
            } else {
                (Key::of_bits(bits).generation + 1) as u32
            },
            key.generation % 2 == 1,
    {
        let index = (bits % INDEX_SPAN) as u32;
        let generation = (bits / INDEX_SPAN) as u32;
        if generation % 2 == 1 {
            Key { index, generation }
        } else {
            Key { index, generation: generation + 1 }
        }
    }
}

/// Distinct keys have distinct 64-bit forms, and decoding undoes encoding.
pub proof fn lemma_bits_round_trip(key: Key)
    ensures
        Key::of_bits(key.bits()) == key,
{
}

/// Encoding undoes decoding.
pub proof fn lemma_of_bits_round_trip(bits: u64)
    ensures
        Key::of_bits(bits).bits() == bits,
{
}

} // verus!
