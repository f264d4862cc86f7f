//! Per-instruction caches that remember where an attribute or enum case was
//! last found, and how often the cache missed.
use crate::shape::{ShapeId, SlotId};
use crate::text::{decimal, push_decimal, push_text};
use vstd::prelude::*;

verus! {

/// The cache of an attribute read.
#[derive(Clone, Copy, Debug, PartialEq, Eq, Structural)]
pub struct ReadAttributeSidecar {
    pub misses: u8,
    pub shape_id: ShapeId,
    pub slot_id: SlotId,
}

impl ReadAttributeSidecar {
    pub const MAXIMUM_ALLOWED_MISSES: u8 = 16;
}

/// The cache of an enum case lookup.
#[derive(Clone, Copy, Debug, PartialEq, Eq, Structural)]
pub struct NewEnumValSidecar {
    pub misses: u8,
    pub shape_id: ShapeId,
    pub slot_id: SlotId,
}

impl NewEnumValSidecar {
    pub const MAXIMUM_ALLOWED_MISSES: u8 = 16;
}

/// The cache attached to one instruction.
#[derive(Clone, Copy, Debug, PartialEq, Eq, Structural)]
pub enum OpcodeSidecar {
    ReadAttribute(ReadAttributeSidecar),
    NewEnumVal(NewEnumValSidecar),
}

/// How a cache is shown.
pub open spec fn sidecar_text(sidecar: OpcodeSidecar) -> Seq<char> {
    match sidecar {
        OpcodeSidecar::ReadAttribute(sc) => "[sidecar misses="@ + decimal(sc.misses as nat) + " shape_id="@
            + decimal(sc.shape_id.0 as nat) + " slot_id="@ + decimal(sc.slot_id.0 as nat) + "]"@,
        OpcodeSidecar::NewEnumVal(sc) => "[enum_case misses="@ + decimal(sc.misses as nat) + " shape_id="@
            + decimal(sc.shape_id.0 as nat) + " slot_id="@ + decimal(sc.slot_id.0 as nat) + "]"@,
    }
}

/// Appends how `sidecar` is shown.
pub fn sidecar_prettyprint(sidecar: OpcodeSidecar, buffer: String) -> (r: String)
    ensures
        r@ == buffer@ + sidecar_text(sidecar),
{
    let mut buffer = buffer;
    let ghost b0 = buffer@;
    let (label, misses, shape_id, slot_id) = match sidecar {
        OpcodeSidecar::ReadAttribute(sc) => ("[sidecar misses=", sc.misses, sc.shape_id, sc.slot_id),
        OpcodeSidecar::NewEnumVal(sc) => ("[enum_case misses=", sc.misses, sc.shape_id, sc.slot_id),
    };
    push_text(&mut buffer, label);
    push_decimal(&mut buffer, misses as u64);
    push_text(&mut buffer, " shape_id=");
    push_decimal(&mut buffer, shape_id.0 as u64);
    push_text(&mut buffer, " slot_id=");
    push_decimal(&mut buffer, slot_id.0 as u64);
    push_text(&mut buffer, "]");
    proof {
        assert(buffer@ =~= b0 + sidecar_text(sidecar));
    }
    buffer
}

} // verus!
