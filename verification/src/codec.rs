//! Bit-range accessors for 64-bit hardware descriptor words.
//!
//! Both descriptor-table entry kinds are packed into one 64-bit word whose
//! bits are carved into named fields. The accessors here read and write one
//! such field: a write touches exactly the declared bit range and leaves
//! every other bit of the word as it was.

use vstd::prelude::*;

verus! {

/// Mask selecting the `width`-bit field that starts at bit `lo`.
pub open spec fn field_mask(lo: u64, width: u64) -> u64 {
    (((1u64 << width) - 1) as u64) << lo
}

/// The value of the `width`-bit field of `w` that starts at bit `lo`.
pub open spec fn get_field(w: u64, lo: u64, width: u64) -> u64 {
    (w >> lo) & (((1u64 << width) - 1) as u64)
}

/// Reads the `width`-bit field of `w` that starts at bit `lo`.
pub fn read_field(w: u64, lo: u64, width: u64) -> (r: u64)
    requires
        1 <= width <= 16,
        lo + width <= 64,
    ensures
        r == get_field(w, lo, width),
{
    proof {
        assert(1u64 << width >= 1) by (bit_vector)
            requires
                width < 64,
        ;
    }
    (w >> lo) & ((1u64 << width) - 1)
}

/// Writes `v` into the `width`-bit field of `w` that starts at bit `lo`.
/// The caller must already have narrowed `v` to the field's width: an
/// out-of-range value would corrupt the neighbouring fields, so it is
/// ruled out here rather than truncated silently.
pub fn write_field(w: u64, lo: u64, width: u64, v: u64) -> (r: u64)
    requires
        1 <= width <= 16,
        lo + width <= 64,
        v < (1u64 << width),
    ensures
        r == ((w & !field_mask(lo, width)) | (v << lo)),
        get_field(r, lo, width) == v,
        r & !field_mask(lo, width) == w & !field_mask(lo, width),
{
    proof {
        assert(1u64 << width >= 1) by (bit_vector)
            requires
                width < 64,
        ;
        assert({
            let m = (((1u64 << width) - 1) as u64) << lo;
            let r = (w & !m) | (v << lo);
            ((r >> lo) & (((1u64 << width) - 1) as u64)) == v && (r & !m) == (w & !m)
        }) by (bit_vector)
            requires
                1 <= width <= 16,
                lo + width <= 64,
                v < (1u64 << width),
        ;
    }
    (w & !(((1u64 << width) - 1) << lo)) | (v << lo)
}

/// The value handed to a descriptor-table register beside the table's base
/// address: the table's length in bytes minus one, each entry being one
/// 64-bit word.
pub fn table_size_minus_one(entry_count: usize) -> (r: u16)
    requires
        1 <= entry_count,
        entry_count <= 8192,
    ensures
        r as int == entry_count * 8 - 1,
{
    ((entry_count * 8) - 1) as u16
}

} // verus!
