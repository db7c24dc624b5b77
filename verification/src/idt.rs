//! Interrupt Descriptor Table entries and the fixed boot-time table.
//!
//! An IDT entry packs a 32-bit handler offset, a gate-type tag, a
//! storage-segment bit, a two-bit privilege ring and a present bit into one
//! 64-bit descriptor word. At this boot stage the table holds 32 zeroed
//! entries: every gate is absent until a later stage wires a handler and
//! flips the present bit.

use vstd::prelude::*;
use crate::codec::get_field;
use crate::codec::field_mask;
use crate::codec::write_field;
use crate::codec::read_field;

verus! {

/// Number of entries in the boot-time IDT.
pub const IDT_ENTRIES_COUNT: usize = 32;

/// Error returned when a descriptor word holds a malformed field.
#[derive(Clone, Copy, Debug, PartialEq, Eq, Structural)]
pub enum IdtError {
    InvalidGateType,
}

/// Kind of interrupt gate, stored as a 4-bit tag in the descriptor word.
#[derive(Clone, Copy, Debug, PartialEq, Eq, Structural)]
pub enum GateType {
    TaskGate32,
    InterruptGate16,
    TrapGate16,
    InterruptGate32,
    TrapGate32,
}

/// The 4-bit hardware tag of each gate type.
pub open spec fn gate_tag(g: GateType) -> u64 {
    match g {
        GateType::TaskGate32 => 0x5,
        GateType::InterruptGate16 => 0x6,
        GateType::TrapGate16 => 0x7,
        GateType::InterruptGate32 => 0xE,
        GateType::TrapGate32 => 0xF,
    }
}

impl GateType {
    /// The 4-bit hardware tag of this gate type.
    pub fn tag(self) -> (r: u8)
        ensures
            r as u64 == gate_tag(self),
            r <= 0xF,
    {
        match self {
            GateType::TaskGate32 => 0x5,
            GateType::InterruptGate16 => 0x6,
            GateType::TrapGate16 => 0x7,
            GateType::InterruptGate32 => 0xE,
            GateType::TrapGate32 => 0xF,
        }
    }

    /// Decodes a 4-bit tag read back from a descriptor word. A tag outside
    /// the closed gate-type set can only come from corruption or an
    /// encoding fault, and is reported rather than guessed at.
    pub fn from_tag(value: u8) -> (r: Result<GateType, IdtError>)
        ensures
            r is Ok <==> (value == 0x5 || value == 0x6 || value == 0x7 || value == 0xE || value
                == 0xF),
            r matches Ok(g) ==> gate_tag(g) == value as u64,
            r matches Err(er) ==> er == IdtError::InvalidGateType,
    {
        match value {
            0x5 => Ok(GateType::TaskGate32),
            0x6 => Ok(GateType::InterruptGate16),
            0x7 => Ok(GateType::TrapGate16),
            0xE => Ok(GateType::InterruptGate32),
            0xF => Ok(GateType::TrapGate32),
            _ => Err(IdtError::InvalidGateType),
        }
    }
}

/// One interrupt gate: a 64-bit word carved into offset bits 15..0, a
/// segment selector at bits 31..16, a reserved byte at bits 39..32, the
/// gate-type tag at bits 43..40, the storage-segment bit at 44, the
/// privilege ring at bits 46..45, the present bit at 47, and offset bits
/// 63..48.
#[derive(Clone, Copy, Debug, PartialEq, Eq, Structural)]
pub struct IdtEntry {
    pub bits: u64,
}

/// The handler offset encoded in a descriptor word: a 16-bit low half and
/// a 16-bit high half reassembled into a 32-bit address.
pub open spec fn offset_of(w: u64) -> u64 {
    get_field(w, 0, 16) | (get_field(w, 48, 16) << 16)
}

/// The segment selector encoded in a descriptor word.
pub open spec fn selector_of(w: u64) -> u64 {
    get_field(w, 16, 16)
}

/// The reserved byte of a descriptor word.
pub open spec fn reserved_of(w: u64) -> u64 {
    get_field(w, 32, 8)
}

/// The kind tag of a gate, encoded in a descriptor word.
pub open spec fn gate_type_of(w: u64) -> u64 {
    get_field(w, 40, 4)
}

/// The storage-segment bit of a descriptor word: clear only for task
/// gates.
pub open spec fn storage_segment_of(w: u64) -> bool {
    get_field(w, 44, 1) == 1
}

/// The privilege ring encoded in a descriptor word.
pub open spec fn privilege_of(w: u64) -> u64 {
    get_field(w, 45, 2)
}

/// The present bit of a descriptor word.
pub open spec fn present_of(w: u64) -> bool {
    get_field(w, 47, 1) == 1
}

/// The descriptor word with its present bit set to `p` and every other
/// bit as it was.
pub open spec fn with_present(w: u64, p: bool) -> u64 {
    (w & !field_mask(47, 1)) | ((if p {
        1u64
    } else {
        0u64
    }) << 47)
}

impl IdtEntry {
    /// Creates a gate for the given handler address: the address is split
    /// into its two 16-bit halves, the kind tag and the privilege
    /// ring are stored, the storage-segment bit is set for every kind but
    /// a task gate, and the entry begins absent (present bit clear).
    #[allow(unused_variables)]
    pub fn new(base: u32, selector: u8, gate_type: GateType, privilege: u8) -> (r: IdtEntry)
        requires
            privilege < 4,
        ensures
            offset_of(r.bits) == base as u64,
            selector_of(r.bits) == 0,
            reserved_of(r.bits) == 0,
            gate_type_of(r.bits) == gate_tag(gate_type),
            storage_segment_of(r.bits) == !(gate_type is TaskGate32),
            privilege_of(r.bits) == privilege as u64,
            !present_of(r.bits),
    {
        let b = base as u64;
        let tag = gate_type.tag();
        let ss: u64 = if let GateType::TaskGate32 = gate_type {
            0
        } else {
            1
        };
        let bits = (b & 0xFFFF) | ((tag as u64) << 40) | (ss << 44) | ((privilege as u64) << 45)
            | (((b >> 16) & 0xFFFF) << 48);
        proof {
            assert(offset_of(bits) == b && selector_of(bits) == 0 && reserved_of(bits) == 0
                && gate_type_of(bits) == tag as u64 && get_field(bits, 44, 1) == ss
                && privilege_of(bits) == privilege as u64 && get_field(bits, 47, 1) == 0) by (
            bit_vector)
                requires
                    b <= 0xFFFF_FFFF,
                    tag <= 0xF,
                    ss <= 1,
                    privilege < 4,
                    bits == ((b & 0xFFFF) | ((tag as u64) << 40) | (ss << 44) | ((privilege
                        as u64) << 45) | (((b >> 16) & 0xFFFF) << 48)),
            ;
        }
        IdtEntry { bits }
    }

    /// Marks this entry present, leaving every other field untouched.
    pub fn enable(&mut self)
        ensures
            final(self).bits == with_present(old(self).bits, true),
            present_of(final(self).bits),
            offset_of(final(self).bits) == offset_of(old(self).bits),
            selector_of(final(self).bits) == selector_of(old(self).bits),
            reserved_of(final(self).bits) == reserved_of(old(self).bits),
            gate_type_of(final(self).bits) == gate_type_of(old(self).bits),
            storage_segment_of(final(self).bits) == storage_segment_of(old(self).bits),
            privilege_of(final(self).bits) == privilege_of(old(self).bits),
    {
        proof {
            assert(1u64 < (1u64 << 1)) by (bit_vector);
        }
        let b0 = write_field(self.bits, 47, 1, 1);
        proof {
            let w = self.bits;
            assert(get_field(b0, 47, 1) == 1 && offset_of(b0) == offset_of(w) && selector_of(b0)
                == selector_of(w) && reserved_of(b0) == reserved_of(w) && gate_type_of(b0)
                == gate_type_of(w) && get_field(b0, 44, 1) == get_field(w, 44, 1)
                && privilege_of(b0) == privilege_of(w)) by (bit_vector)
                requires
                    b0 == ((w & !field_mask(47, 1)) | (1u64 << 47)),
            ;
        }
        self.bits = b0;
    }

    /// Marks this entry absent, leaving every other field untouched.
    pub fn disable(&mut self)
        ensures
            final(self).bits == with_present(old(self).bits, false),
            !present_of(final(self).bits),
            offset_of(final(self).bits) == offset_of(old(self).bits),
            selector_of(final(self).bits) == selector_of(old(self).bits),
            reserved_of(final(self).bits) == reserved_of(old(self).bits),
            gate_type_of(final(self).bits) == gate_type_of(old(self).bits),
            storage_segment_of(final(self).bits) == storage_segment_of(old(self).bits),
            privilege_of(final(self).bits) == privilege_of(old(self).bits),
    {
        proof {
            assert(0u64 < (1u64 << 1)) by (bit_vector);
        }
        let b0 = write_field(self.bits, 47, 1, 0);
        proof {
            let w = self.bits;
            assert(get_field(b0, 47, 1) == 0 && offset_of(b0) == offset_of(w) && selector_of(b0)
                == selector_of(w) && reserved_of(b0) == reserved_of(w) && gate_type_of(b0)
                == gate_type_of(w) && get_field(b0, 44, 1) == get_field(w, 44, 1)
                && privilege_of(b0) == privilege_of(w)) by (bit_vector)
                requires
                    b0 == ((w & !field_mask(47, 1)) | (0u64 << 47)),
            ;
        }
        self.bits = b0;
    }

    /// The handler offset decoded from the descriptor word.
    pub fn offset(&self) -> (r: u64)
        ensures
            r == offset_of(self.bits),
    {
        read_field(self.bits, 0, 16) | (read_field(self.bits, 48, 16) << 16)
    }

    /// The kind tag of a gate, decoded from the descriptor word.
    pub fn gate_type_tag(&self) -> (r: u64)
        ensures
            r == gate_type_of(self.bits),
    {
        read_field(self.bits, 40, 4)
    }

    /// The storage-segment bit decoded from the descriptor word.
    pub fn storage_segment(&self) -> (r: bool)
        ensures
            r == storage_segment_of(self.bits),
    {
        read_field(self.bits, 44, 1) == 1
    }

    /// The privilege ring decoded from the descriptor word.
    pub fn privilege(&self) -> (r: u64)
        ensures
            r == privilege_of(self.bits),
    {
        read_field(self.bits, 45, 2)
    }

    /// The present bit decoded from the descriptor word.
    pub fn present(&self) -> (r: bool)
        ensures
            r == present_of(self.bits),
    {
        read_field(self.bits, 47, 1) == 1
    }
}

/// Enabling and then disabling a gate whose present bit is clear gives
/// back exactly the word it was constructed as: the present bit ends
/// clear and every other field is unchanged.
pub proof fn lemma_enable_then_disable(w: u64)
    requires
        !present_of(w),
    ensures
        with_present(with_present(w, true), false) == w,
{
    assert((((w & !field_mask(47, 1)) | (1u64 << 47)) & !field_mask(47, 1)) | (0u64 << 47) == w)
        by (bit_vector)
        requires
            get_field(w, 47, 1) != 1,
    ;
}

/// Builds the boot-time table: 32 zeroed entries, every gate absent until
/// a later stage installs a handler.
pub fn build_idt_table() -> (r: Vec<IdtEntry>)
    ensures
        r@.len() == IDT_ENTRIES_COUNT,
        forall|i: int| 0 <= i < r@.len() ==> r@[i].bits == 0,
        forall|i: int| 0 <= i < r@.len() ==> !present_of(#[trigger] r@[i].bits),
{
    proof {
        assert(get_field(0u64, 47, 1) == 0) by (bit_vector);
    }
    let mut table: Vec<IdtEntry> = Vec::new();
    let mut i: usize = 0;
    while i < IDT_ENTRIES_COUNT
        invariant
            i <= IDT_ENTRIES_COUNT,
            table@.len() == i,
            forall|j: int| 0 <= j < table@.len() ==> table@[j].bits == 0,
        decreases IDT_ENTRIES_COUNT - i,
    {
        table.push(IdtEntry { bits: 0 });
        i = i + 1;
    }
    table
}

} // verus!
