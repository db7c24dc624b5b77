//! Global Descriptor Table entries and the fixed boot-time table.
//!
//! A GDT entry packs a 32-bit segment base, a 20-bit limit, an access byte
//! and a flags nibble into one 64-bit descriptor word. The boot table holds
//! four entries in a fixed, load-bearing order: selectors elsewhere are the
//! entry index times eight, so the order is part of the table's contract.

use vstd::prelude::*;
use crate::codec::get_field;
use crate::codec::write_field;
use crate::codec::read_field;

verus! {

/// Access byte: the descriptor is valid for use.
pub const ACCESS_PRESENT: u8 = 0x80;
/// Access byte: ring-3 descriptor privilege level.
pub const ACCESS_USER_RING: u8 = 0x60;
/// Access byte: executable code segment.
pub const ACCESS_CODE_SEGMENT: u8 = 0x18;
/// Access byte: non-executable data segment.
pub const ACCESS_DATA_SEGMENT: u8 = 0x10;
/// Access byte: a data segment that grows downwards.
pub const ACCESS_DIRECTION_DOWN: u8 = 0x04;
/// Access byte: code executable from a lower privilege level.
pub const ACCESS_CONFORMING: u8 = 0x04;
/// Access byte: readable code segment.
pub const ACCESS_CODE_READABLE: u8 = 0x02;
/// Access byte: writable data segment.
pub const ACCESS_DATA_WRITABLE: u8 = 0x02;
/// Access byte: the processor has touched the segment.
pub const ACCESS_ACCESSED: u8 = 0x01;

/// Flags nibble: the limit counts 4 KiB pages instead of bytes.
pub const FLAG_PAGE_GRANULARITY: u8 = 0x08;
/// Flags nibble: 32-bit protected-mode segment.
pub const FLAG_PROTECTED_MODE: u8 = 0x04;
/// Flags nibble: 64-bit code segment.
pub const FLAG_LONG_MODE: u8 = 0x02;

/// Number of entries in the boot-time GDT.
pub const GDT_ENTRIES_COUNT: usize = 4;

/// The largest encodable segment limit: the limit field is 20 bits wide.
pub const GDT_LIMIT_MAX: u32 = 0xFFFFF;

/// Error returned when a GDT entry is malformed.
#[derive(Clone, Copy, Debug, PartialEq, Eq, Structural)]
pub enum GdtError {
    InvalidLimit,
}

/// One segment descriptor: a 64-bit word carved into
/// limit bits 15..0, base bits 31..16 and 39..32, the access byte at
/// bits 47..40, limit bits 51..48, the flags nibble at bits 55..52,
/// and base bits 63..56.
#[derive(Clone, Copy, Debug, PartialEq, Eq, Structural)]
pub struct GdtEntry {
    pub bits: u64,
}

/// The segment base encoded in a descriptor word: three sub-fields
/// reassembled into a 32-bit address.
pub open spec fn base_of(w: u64) -> u64 {
    get_field(w, 16, 16) | (get_field(w, 32, 8) << 16) | (get_field(w, 56, 8) << 24)
}

/// The segment limit encoded in a descriptor word: a 16-bit low part and a
/// 4-bit high part reassembled into a 20-bit value.
pub open spec fn limit_of(w: u64) -> u64 {
    get_field(w, 0, 16) | (get_field(w, 48, 4) << 16)
}

/// The access byte encoded in a descriptor word.
pub open spec fn access_of(w: u64) -> u64 {
    get_field(w, 40, 8)
}

/// The flags nibble encoded in a descriptor word.
pub open spec fn flags_of(w: u64) -> u64 {
    get_field(w, 52, 4)
}

impl GdtEntry {
    /// Creates a descriptor from already-validated logical fields.
    ///
    /// Succeeds exactly when `limit` fits the 20-bit limit field; the
    /// present bit is forced into the access byte of every entry built
    /// here.
    pub fn new(base: u64, limit: u32, access: u8, flags: u8) -> (r: Result<GdtEntry, GdtError>)
        requires
            flags < 16,
        ensures
            limit <= GDT_LIMIT_MAX <==> r is Ok,
            r matches Ok(e) ==> base_of(e.bits) == base & 0xFFFF_FFFF,
            r matches Ok(e) ==> (base <= 0xFFFF_FFFF ==> base_of(e.bits) == base),
            r matches Ok(e) ==> limit_of(e.bits) == limit,
            r matches Ok(e) ==> access_of(e.bits) == (access | ACCESS_PRESENT) as u64,
            r matches Ok(e) ==> flags_of(e.bits) == flags as u64,
            r matches Err(er) ==> er == GdtError::InvalidLimit,
    {
        let mut entry = GdtEntry { bits: 0 };
        entry.set_base(base);
        match entry.set_limit(limit) {
            Ok(()) => {}
            Err(e) => {
                return Err(e);
            }
        }
        entry.set_access(access | ACCESS_PRESENT);
        entry.set_flags(flags);
        Ok(entry)
    }

    /// Splits `base` into its low 16 bits, middle 8 bits and high 8 bits
    /// and stores them in the three base sub-fields, leaving the limit,
    /// access and flags fields as they were.
    pub fn set_base(&mut self, base: u64)
        ensures
            base_of(final(self).bits) == base & 0xFFFF_FFFF,
            base <= 0xFFFF_FFFF ==> base_of(final(self).bits) == base,
            limit_of(final(self).bits) == limit_of(old(self).bits),
            access_of(final(self).bits) == access_of(old(self).bits),
            flags_of(final(self).bits) == flags_of(old(self).bits),
    {
        proof {
            assert(base & 0xFFFF < (1u64 << 16) && (base >> 16) & 0xFF < (1u64 << 8) && (base
                >> 24) & 0xFF < (1u64 << 8)) by (bit_vector);
        }
        let b0 = write_field(self.bits, 16, 16, base & 0xFFFF);
        let b1 = write_field(b0, 32, 8, (base >> 16) & 0xFF);
        let b2 = write_field(b1, 56, 8, (base >> 24) & 0xFF);
        proof {
            let w = self.bits;
            assert(base_of(b2) == base & 0xFFFF_FFFF && (base <= 0xFFFF_FFFF ==> base_of(b2)
                == base) && limit_of(b2) == limit_of(w) && access_of(b2) == access_of(w)
                && flags_of(b2) == flags_of(w)) by (bit_vector)
                requires
                    b0 == ((w & !crate::codec::field_mask(16, 16)) | ((base & 0xFFFF) << 16)),
                    b1 == ((b0 & !crate::codec::field_mask(32, 8)) | (((base >> 16) & 0xFF) << 32)),
                    b2 == ((b1 & !crate::codec::field_mask(56, 8)) | (((base >> 24) & 0xFF) << 56)),
            ;
        }
        self.bits = b2;
    }

    /// Splits `limit` into its low 16 bits and high 4 bits and stores them
    /// in the two limit sub-fields, leaving the base, access and flags
    /// fields as they were. Fails, changing nothing, exactly when `limit`
    /// does not fit the 20-bit field.
    pub fn set_limit(&mut self, limit: u32) -> (r: Result<(), GdtError>)
        ensures
            limit <= GDT_LIMIT_MAX <==> r is Ok,
            r is Ok ==> limit_of(final(self).bits) == limit,
            r is Ok ==> base_of(final(self).bits) == base_of(old(self).bits),
            r is Ok ==> access_of(final(self).bits) == access_of(old(self).bits),
            r is Ok ==> flags_of(final(self).bits) == flags_of(old(self).bits),
            r matches Err(er) ==> er == GdtError::InvalidLimit && *final(self) == *old(self),
    {
        if limit > GDT_LIMIT_MAX {
            Err(GdtError::InvalidLimit)
        } else {
            proof {
                assert((limit as u64) & 0xFFFF < (1u64 << 16) && ((limit as u64) >> 16) & 0xF < (
                1u64 << 4)) by (bit_vector);
            }
            let b0 = write_field(self.bits, 0, 16, (limit as u64) & 0xFFFF);
            let b1 = write_field(b0, 48, 4, ((limit as u64) >> 16) & 0xF);
            proof {
                let w = self.bits;
                let l = limit as u64;
                assert(limit_of(b1) == l && base_of(b1) == base_of(w) && access_of(b1)
                    == access_of(w) && flags_of(b1) == flags_of(w)) by (bit_vector)
                    requires
                        l <= 0xFFFFF,
                        b0 == ((w & !crate::codec::field_mask(0, 16)) | ((l & 0xFFFF) << 0)),
                        b1 == ((b0 & !crate::codec::field_mask(48, 4)) | (((l >> 16) & 0xF) << 48)),
                ;
            }
            self.bits = b1;
            Ok(())
        }
    }

    /// Stores the access byte, leaving the base, limit and flags fields as
    /// they were.
    pub fn set_access(&mut self, access: u8)
        ensures
            access_of(final(self).bits) == access as u64,
            base_of(final(self).bits) == base_of(old(self).bits),
            limit_of(final(self).bits) == limit_of(old(self).bits),
            flags_of(final(self).bits) == flags_of(old(self).bits),
    {
        proof {
            assert((access as u64) < (1u64 << 8)) by (bit_vector);
        }
        let b0 = write_field(self.bits, 40, 8, access as u64);
        proof {
            let w = self.bits;
            assert(access_of(b0) == access as u64 && base_of(b0) == base_of(w) && limit_of(b0)
                == limit_of(w) && flags_of(b0) == flags_of(w)) by (bit_vector)
                requires
                    b0 == ((w & !crate::codec::field_mask(40, 8)) | ((access as u64) << 40)),
            ;
        }
        self.bits = b0;
    }

    /// Stores the flags nibble, leaving the base, limit and access fields
    /// as they were. The caller hands a value already narrowed to the
    /// 4-bit field.
    pub fn set_flags(&mut self, flags: u8)
        requires
            flags < 16,
        ensures
            flags_of(final(self).bits) == flags as u64,
            base_of(final(self).bits) == base_of(old(self).bits),
            limit_of(final(self).bits) == limit_of(old(self).bits),
            access_of(final(self).bits) == access_of(old(self).bits),
    {
        proof {
            assert((flags as u64) < (1u64 << 4)) by (bit_vector)
                requires
                    flags < 16,
            ;
        }
        let b0 = write_field(self.bits, 52, 4, flags as u64);
        proof {
            let w = self.bits;
            assert(flags_of(b0) == flags as u64 && base_of(b0) == base_of(w) && limit_of(b0)
                == limit_of(w) && access_of(b0) == access_of(w)) by (bit_vector)
                requires
                    flags < 16,
                    b0 == ((w & !crate::codec::field_mask(52, 4)) | ((flags as u64) << 52)),
            ;
        }
        self.bits = b0;
    }

    /// The segment base decoded from the descriptor word.
    pub fn base(&self) -> (r: u64)
        ensures
            r == base_of(self.bits),
    {
        read_field(self.bits, 16, 16) | (read_field(self.bits, 32, 8) << 16) | (read_field(
            self.bits, 56, 8) << 24)
    }

    /// The segment limit decoded from the descriptor word.
    pub fn limit(&self) -> (r: u64)
        ensures
            r == limit_of(self.bits),
    {
        read_field(self.bits, 0, 16) | (read_field(self.bits, 48, 4) << 16)
    }

    /// The access byte decoded from the descriptor word.
    pub fn access(&self) -> (r: u64)
        ensures
            r == access_of(self.bits),
    {
        read_field(self.bits, 40, 8)
    }

    /// The flags nibble decoded from the descriptor word.
    pub fn flags(&self) -> (r: u64)
        ensures
            r == flags_of(self.bits),
    {
        read_field(self.bits, 52, 4)
    }
}

/// Encoding a base and decoding the three base sub-fields gives back every
/// 32-bit base exactly.
pub proof fn lemma_base_round_trip(e: GdtEntry, base: u64)
    requires
        base <= 0xFFFF_FFFF,
        base_of(e.bits) == base & 0xFFFF_FFFF,
    ensures
        base_of(e.bits) == base,
{
    assert(base <= 0xFFFF_FFFF ==> base & 0xFFFF_FFFF == base) by (bit_vector);
}

/// Builds the boot-time table: the required null descriptor, a flat code
/// segment and a flat data segment spanning the full 4 GiB range with page
/// granularity, and a task-state-segment placeholder. The order is fixed:
/// selectors are computed as the entry index times eight.
pub fn build_gdt_table() -> (r: Vec<GdtEntry>)
    ensures
        r@.len() == GDT_ENTRIES_COUNT,
        base_of(r@[0].bits) == 0 && limit_of(r@[0].bits) == 0,
        access_of(r@[0].bits) == ACCESS_PRESENT as u64,
        flags_of(r@[0].bits) == FLAG_PROTECTED_MODE as u64,
        base_of(r@[1].bits) == 0 && limit_of(r@[1].bits) == GDT_LIMIT_MAX as u64,
        access_of(r@[1].bits) == (ACCESS_PRESENT | ACCESS_CODE_SEGMENT | ACCESS_CODE_READABLE)
            as u64,
        flags_of(r@[1].bits) == (FLAG_PROTECTED_MODE | FLAG_PAGE_GRANULARITY) as u64,
        base_of(r@[2].bits) == 0 && limit_of(r@[2].bits) == GDT_LIMIT_MAX as u64,
        access_of(r@[2].bits) == (ACCESS_PRESENT | ACCESS_DATA_SEGMENT | ACCESS_DATA_WRITABLE)
            as u64,
        flags_of(r@[2].bits) == (FLAG_PROTECTED_MODE | FLAG_PAGE_GRANULARITY) as u64,
        base_of(r@[3].bits) == 0 && limit_of(r@[3].bits) == 0,
        access_of(r@[3].bits) == (ACCESS_PRESENT | ACCESS_ACCESSED) as u64,
        flags_of(r@[3].bits) == FLAG_PROTECTED_MODE as u64,
{
    proof {
        assert((0u8 | 0x80) == 0x80 && ((0x18u8 | 0x02) | 0x80) == ((0x80u8 | 0x18) | 0x02)
            && ((0x10u8 | 0x02) | 0x80) == ((0x80u8 | 0x10) | 0x02) && (0x01u8 | 0x80) == (0x80u8
            | 0x01) && (0x04u8 | 0x08) < 16) by (bit_vector);
    }
    let null_entry = match GdtEntry::new(0, 0, 0, FLAG_PROTECTED_MODE) {
        Ok(e) => e,
        Err(_) => unreached(),
    };
    let code_entry = match GdtEntry::new(
        0,
        GDT_LIMIT_MAX,
        ACCESS_CODE_SEGMENT | ACCESS_CODE_READABLE,
        FLAG_PROTECTED_MODE | FLAG_PAGE_GRANULARITY,
    ) {
        Ok(e) => e,
        Err(_) => unreached(),
    };
    let data_entry = match GdtEntry::new(
        0,
        GDT_LIMIT_MAX,
        ACCESS_DATA_SEGMENT | ACCESS_DATA_WRITABLE,
        FLAG_PROTECTED_MODE | FLAG_PAGE_GRANULARITY,
    ) {
        Ok(e) => e,
        Err(_) => unreached(),
    };
    let tss_entry = match GdtEntry::new(0, 0, ACCESS_ACCESSED, FLAG_PROTECTED_MODE) {
        Ok(e) => e,
        Err(_) => unreached(),
    };
    let mut table: Vec<GdtEntry> = Vec::new();
    table.push(null_entry);
    table.push(code_entry);
    table.push(data_entry);
    table.push(tss_entry);
    table
}

} // verus!
