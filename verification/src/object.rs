//! Attribute storage for objects: the values of an object's attributes sit in
//! slots, laid out by the object's shape.
use crate::shape::{
    lemma_transition_resolves, lemma_transition_keeps_slots, lemma_transition_wf,
    resolve_slot_spec, shapes_wf, slot_index, transition_spec, ShapeId, Shapes, SlotId, SlotTable,
    TransitionTable, MAX_SHAPES, EMPTY_SHAPE_INDEX,
};
use crate::errors::VmErrorReason;
use crate::symbol::Symbol;
use crate::text::{decimal, push_decimal, push_text};
use vstd::prelude::*;

verus! {

/// Whether an object of shape `shape` holding `values` agrees with the shape table.
pub open spec fn box_consistent<V>(st: SlotTable, shape: ShapeId, values: Seq<V>) -> bool {
    shape.0 < st.len() && values.len() == st[shape.0 as int].len()
}

/// The value of attribute `name` of an object of shape `shape` holding `values`.
pub open spec fn attribute_spec<V>(st: SlotTable, shape: ShapeId, values: Seq<V>, name: Symbol) -> Option<V> {
    match resolve_slot_spec(st, shape, name) {
        Some(slot) => if slot.0 < values.len() {
            Some(values[slot.0 as int])
        } else {
            None
        },
        None => None,
    }
}

/// The tables, shape and values after writing `val` to attribute `name`.
pub open spec fn write_spec<V>(st: SlotTable, tt: TransitionTable, shape: ShapeId, values: Seq<V>, name: Symbol, val: V) -> (SlotTable, TransitionTable, ShapeId, Seq<V>) {
    let (st2, tt2, sid, slot) = transition_spec(st, tt, shape, name);
    let v2 = if slot.0 == values.len() {
        values.push(val)
    } else {
        values.update(slot.0 as int, val)
    };
    (st2, tt2, sid, v2)
}

/// Reading an attribute after writing it gives the value written; the other
/// attributes keep their values; and the object stays consistent with the tables.
pub proof fn lemma_write_then_read<V>(st: SlotTable, tt: TransitionTable, shape: ShapeId, values: Seq<V>, name: Symbol, val: V, other: Symbol)
    requires
        shapes_wf(st, tt),
        box_consistent(st, shape, values),
        st.len() < MAX_SHAPES,
    ensures
        ({
            let (st2, tt2, sid, v2) = write_spec(st, tt, shape, values, name, val);
            &&& box_consistent(st2, sid, v2)
            &&& attribute_spec(st2, sid, v2, name) == Some(val)
            &&& other != name ==> attribute_spec(st2, sid, v2, other) == attribute_spec(st, shape, values, other)
        }),
{
    lemma_transition_wf(st, tt, shape, name);
    lemma_transition_resolves(st, tt, shape, name);
    let (st2, tt2, sid, slot) = transition_spec(st, tt, shape, name);
    let slots = st[shape.0 as int];
    if other != name && resolve_slot_spec(st, shape, other) is Some {
        lemma_transition_keeps_slots(st, tt, shape, name, other);
        let p = resolve_slot_spec(st, shape, other)->Some_0;
        let c = choose|k: int| 0 <= k < slots.len() && slots[k] == other;
        assert(0 <= c < slots.len() && slots[c] == other);
        if slot_index(slots, name) is Some {
            let q = choose|k: int| 0 <= k < slots.len() && slots[k] == name;
            assert(0 <= q < slots.len() && slots[q] == name);
        }
    }
    if other != name && resolve_slot_spec(st, shape, other) is None {
        let s2 = st2[sid.0 as int];
        if slot_index(s2, other) is Some {
            let c = choose|k: int| 0 <= k < s2.len() && s2[k] == other;
            assert(0 <= c < s2.len() && s2[c] == other);
            if slot_index(slots, name) is Some {
                assert(slots[c] == other);
                assert(exists|k: int| 0 <= k < slots.len() && slots[k] == other);
            } else {
                if c < slots.len() {
                    assert(slots[c] == other);
                    assert(exists|k: int| 0 <= k < slots.len() && slots[k] == other);
                }
            }
        }
    }
}

/// Writing through the shape table never disturbs an object that was
/// consistent with it: it stays consistent and its attributes keep their values.
pub proof fn lemma_write_keeps_other_objects<V, W>(st: SlotTable, tt: TransitionTable, shape: ShapeId, values: Seq<V>, name: Symbol, other_shape: ShapeId, other_values: Seq<W>, attr: Symbol)
    requires
        shapes_wf(st, tt),
        box_consistent(st, shape, values),
        box_consistent(st, other_shape, other_values),
        st.len() < MAX_SHAPES,
    ensures
        ({
            let (st2, tt2, sid, slot) = transition_spec(st, tt, shape, name);
            &&& box_consistent(st2, other_shape, other_values)
            &&& attribute_spec(st2, other_shape, other_values, attr) == attribute_spec(st, other_shape, other_values, attr)
        }),
{
    lemma_transition_wf(st, tt, shape, name);
}

/// How a symbol is shown: `Symbol(n)`.
pub open spec fn symbol_text(s: Symbol) -> Seq<char> {
    "Symbol("@ + decimal(s.0 as nat) + ")"@
}

/// The attribute slots of one object.
pub struct ObjectBox<V> {
    shape: ShapeId,
    slots: Vec<V>,
}

impl<V> ObjectBox<V> {
    /// The shape of the object.
    pub closed spec fn shape_id(&self) -> ShapeId {
        self.shape
    }

    /// The values in the object's slots.
    pub closed spec fn values(&self) -> Seq<V> {
        self.slots@
    }

    /// An object with no attribute.
    pub fn new() -> (r: ObjectBox<V>)
        ensures
            r.shape_id() == ShapeId(EMPTY_SHAPE_INDEX),
            r.values() == Seq::<V>::empty(),
    {
        ObjectBox { shape: ShapeId(EMPTY_SHAPE_INDEX), slots: Vec::new() }
    }

    /// Sets attribute `name` to `val`, moving the object to the shape that has it.
    pub fn write(&mut self, shapes: &mut Shapes, name: Symbol, val: V)
        requires
            box_consistent(old(shapes).slot_table(), old(self).shape_id(), old(self).values()),
            old(shapes).slot_table().len() < MAX_SHAPES,
        ensures
            (final(shapes).slot_table(), final(shapes).transition_table(), final(self).shape_id(), final(self).values())
                == write_spec(
                old(shapes).slot_table(),
                old(shapes).transition_table(),
                old(self).shape_id(),
                old(self).values(),
                name,
                val,
            ),
            box_consistent(final(shapes).slot_table(), final(self).shape_id(), final(self).values()),
    {
        shapes.check_wf();
        let (shape_id, slot_id) = shapes.transition(self.shape, name);
        proof {
            lemma_transition_wf(old(shapes).slot_table(), old(shapes).transition_table(), old(self).shape_id(), name);
        }
        self.shape = shape_id;
        let slot = slot_id.0 as usize;
        if slot == self.slots.len() {
            self.slots.push(val);
        } else {
            self.slots.set(slot, val);
        }
    }

    /// The value of attribute `name`, if the object has it.
    pub fn read(&self, shapes: &Shapes, name: Symbol) -> (r: Option<&V>)
        ensures
            r is Some <==> attribute_spec(shapes.slot_table(), self.shape_id(), self.values(), name) is Some,
            r matches Some(v) ==> attribute_spec(shapes.slot_table(), self.shape_id(), self.values(), name) == Some(*v),
    {
        let slot_id = shapes.resolve_slot(self.shape, name)?;
        let i = slot_id.0 as usize;
        if i < self.slots.len() {
            Some(&self.slots[i])
        } else {
            None
        }
    }

    /// The value in slot `slot_id`, provided the object still has shape `sid`.
    pub fn read_slot(&self, slot_id: SlotId, sid: ShapeId) -> (r: Option<&V>)
        ensures
            (sid == self.shape_id() && slot_id.0 < self.values().len()) <==> r is Some,
            r matches Some(v) ==> *v == self.values()[slot_id.0 as int],
    {
        if self.shape != sid {
            return None;
        }
        let i = slot_id.0 as usize;
        if i < self.slots.len() {
            Some(&self.slots[i])
        } else {
            None
        }
    }

    /// The value of attribute `name` with the shape and slot it was found at.
    pub fn resolve_to_slot(&self, shapes: &Shapes, name: Symbol) -> (r: Option<(&V, ShapeId, SlotId)>)
        ensures
            r is Some <==> attribute_spec(shapes.slot_table(), self.shape_id(), self.values(), name) is Some,
            r matches Some(t) ==> attribute_spec(shapes.slot_table(), self.shape_id(), self.values(), name) == Some(*t.0)
                && t.1 == self.shape_id() && resolve_slot_spec(shapes.slot_table(), self.shape_id(), name) == Some(t.2),
    {
        let sid = self.shape;
        let slot_id = shapes.resolve_slot(sid, name)?;
        let i = slot_id.0 as usize;
        if i < self.slots.len() {
            Some((&self.slots[i], sid, slot_id))
        } else {
            None
        }
    }

    /// The names of the object's attributes, in slot order.
    pub fn list_attributes(&self, shapes: &Shapes) -> (r: Vec<Symbol>)
        ensures
            self.shape_id().0 < shapes.slot_table().len() ==> r@ == shapes.slot_table()[self.shape_id().0 as int],
            self.shape_id().0 >= shapes.slot_table().len() ==> r@ == Seq::<Symbol>::empty(),
    {
        match shapes.slots_of(self.shape) {
            Some(v) => v,
            None => Vec::new(),
        }
    }

    /// The value of attribute `name`, converted by `f`: a missing attribute is
    /// reported by the symbol's text `Symbol(n)`, and a value that `f` does not
    /// accept is of the wrong type.
    pub fn extract_field<U, F: FnOnce(&V) -> Option<U>>(&self, shapes: &Shapes, name: Symbol, f: F) -> (r: Result<U, VmErrorReason>)
        requires
            attribute_spec(shapes.slot_table(), self.shape_id(), self.values(), name) matches Some(v) ==> f.requires((&v,)),
        ensures
            attribute_spec(shapes.slot_table(), self.shape_id(), self.values(), name) is None ==> (r matches Err(
                VmErrorReason::NoSuchIdentifier(t),
            ) && t@ == symbol_text(name)),
            attribute_spec(shapes.slot_table(), self.shape_id(), self.values(), name) matches Some(v) ==> ((r matches Ok(u)
                ==> f.ensures((&v,), Some(u))) && (r matches Err(e) ==> e is UnexpectedType && f.ensures((&v,), None))),
    {
        let val = match self.read(shapes, name) {
            Some(v) => v,
            None => {
                let mut t = String::new();
                push_text(&mut t, "Symbol(");
                push_decimal(&mut t, name.0 as u64);
                push_text(&mut t, ")");
                proof {
                    assert(t@ =~= symbol_text(name));
                }
                return Err(VmErrorReason::NoSuchIdentifier(t));
            },
        };
        match f(val) {
            Some(u) => Ok(u),
            None => Err(VmErrorReason::UnexpectedType),
        }
    }

    /// Whether the object holds a value for attribute `name`.
    pub fn contains(&self, shapes: &Shapes, name: Symbol) -> (r: bool)
        ensures
            r == (attribute_spec(shapes.slot_table(), self.shape_id(), self.values(), name) is Some),
    {
        let slot_count = self.slots.len();
        if let Some(slot_id) = shapes.resolve_slot(self.shape, name) {
            (slot_id.0 as usize) < slot_count
        } else {
            false
        }
    }
}

} // verus!
