//! Enumerations of the virtual machine: named cases, found by name through
//! the shape table, each with or without a payload.
use crate::shape::{
    distinct_symbols, lemma_slot_index_at, lemma_transition_resolves, lemma_transition_wf,
    resolve_slot_spec, shapes_wf, slot_index, transition_spec, ShapeId, Shapes, SlotTable,
    TransitionTable, EMPTY_SHAPE_INDEX, MAX_SHAPES,
};
use crate::mixins::{MixinIncluder, Mixins};
use crate::object::{attribute_spec, box_consistent, lemma_write_keeps_other_objects, write_spec, ObjectBox};
use crate::symbol::Symbol;
use vstd::prelude::*;

verus! {

/// One case of an enumeration: its name, and the type its payload must have
/// if it takes one.
pub struct EnumCase<T> {
    pub name: Symbol,
    pub payload_type: Option<T>,
}

impl<T: Clone> Clone for EnumCase<T> {
    fn clone(&self) -> (r: Self)
        ensures
            r.name == self.name,
            r.payload_type is Some <==> self.payload_type is Some,
    {
        let payload_type = match &self.payload_type {
            Some(t) => Some(t.clone()),
            None => None,
        };
        EnumCase { name: self.name, payload_type }
    }
}

/// The names of `cases`, in order.
pub open spec fn case_names<T>(cases: Seq<EnumCase<T>>) -> Seq<Symbol> {
    cases.map_values(|c: EnumCase<T>| c.name)
}

/// Whether the cases of an enumeration agree with its shape: the shape's slots
/// are the case names, in order.
pub open spec fn cases_consistent<T>(st: SlotTable, shape: ShapeId, cases: Seq<EnumCase<T>>) -> bool {
    shape.0 < st.len() && st[shape.0 as int] == case_names(cases)
}

/// The index of the case named `name`, if there is one.
pub open spec fn case_index_spec<T>(cases: Seq<EnumCase<T>>, name: Symbol) -> Option<int> {
    slot_index(case_names(cases), name)
}

/// The cases after adding `case`: it replaces a case of the same name, or
/// comes last.
pub open spec fn add_case_spec<T>(cases: Seq<EnumCase<T>>, case: EnumCase<T>) -> Seq<EnumCase<T>> {
    match case_index_spec(cases, case.name) {
        Some(i) => cases.update(i, case),
        None => cases.push(case),
    }
}

/// In a consistent enumeration the case names are distinct, so the case found
/// by a name is the one at that position.
pub proof fn lemma_case_index_at<T>(cases: Seq<EnumCase<T>>, i: int)
    requires
        distinct_symbols(case_names(cases)),
        0 <= i < cases.len(),
    ensures
        case_index_spec(cases, cases[i].name) == Some(i),
{
    lemma_slot_index_at(case_names(cases), cases[i].name, i);
}

/// After a case is added, its name finds it, and every other name finds the
/// case it found before, at the same index.
pub proof fn lemma_add_case_then_find<T>(cases: Seq<EnumCase<T>>, case: EnumCase<T>, other: Symbol)
    requires
        distinct_symbols(case_names(cases)),
    ensures
        ({
            let c2 = add_case_spec(cases, case);
            &&& distinct_symbols(case_names(c2))
            &&& case_index_spec(c2, case.name) matches Some(i) && c2[i] == case
            &&& other != case.name ==> case_index_spec(c2, other) == case_index_spec(cases, other)
        }),
{
    let names = case_names(cases);
    let c2 = add_case_spec(cases, case);
    let n2 = case_names(c2);
    match case_index_spec(cases, case.name) {
        Some(p) => {
            let q = choose|k: int| 0 <= k < names.len() && names[k] == case.name;
            assert(0 <= q < names.len() && names[q] == case.name);
            assert(n2 =~= names);
            lemma_slot_index_at(n2, case.name, p);
        },
        None => {
            assert(n2 =~= names.push(case.name));
            assert(distinct_symbols(n2)) by {
                assert forall|i: int, j: int| 0 <= i < n2.len() && 0 <= j < n2.len() && i != j implies n2[i] != n2[j] by {
                    if i == names.len() as int && n2[j] == case.name {
                        assert(names[j] == case.name);
                    }
                    if j == names.len() as int && n2[i] == case.name {
                        assert(names[i] == case.name);
                    }
                }
            }
            lemma_slot_index_at(n2, case.name, names.len() as int);
        },
    }
    if other != case.name {
        if exists|k: int| 0 <= k < names.len() && names[k] == other {
            let k = choose|k: int| 0 <= k < names.len() && names[k] == other;
            assert(0 <= k < names.len() && names[k] == other);
            lemma_slot_index_at(names, other, k);
            assert(n2[k] == other);
            lemma_slot_index_at(n2, other, k);
        } else {
            if exists|k: int| 0 <= k < n2.len() && n2[k] == other {
                let k = choose|k: int| 0 <= k < n2.len() && n2[k] == other;
                assert(0 <= k < n2.len() && n2[k] == other);
                if k < names.len() {
                    assert(names[k] == other);
                }
            }
        }
    }
}

/// A value of an enumeration: the enumeration it belongs to, the index of its
/// case and its payload.
pub struct EnumValue<P, T> {
    case: usize,
    payload: Option<P>,
    container: Ghost<Enum<T>>,
}

impl<P, T> EnumValue<P, T> {
    /// The enumeration the value belongs to.
    pub closed spec fn container_enum(&self) -> Enum<T> {
        self.container@
    }

    /// The index of the value's case.
    pub closed spec fn case_index(&self) -> nat {
        self.case as nat
    }

    /// The value's payload.
    pub closed spec fn payload_spec(&self) -> Option<P> {
        self.payload
    }

    /// The index of the value's case.
    pub fn get_case_index(&self) -> (r: usize)
        ensures
            r == self.case_index(),
    {
        self.case
    }

    /// The value's payload, if its case takes one.
    pub fn get_payload(&self) -> (r: Option<&P>)
        ensures
            r is Some <==> self.payload_spec() is Some,
            r matches Some(p) ==> self.payload_spec() == Some(*p),
    {
        match &self.payload {
            Some(p) => Some(p),
            None => None,
        }
    }
}

/// An enumeration type: its name, its cases, its own attributes (such as
/// methods and nested types) and the mixins it includes.
pub struct Enum<T> {
    name: String,
    cases: Vec<EnumCase<T>>,
    case_shape: ShapeId,
    entries: ObjectBox<T>,
    mixins: MixinIncluder,
}

impl<T> Enum<T> {
    /// The cases, in order.
    pub closed spec fn cases(&self) -> Seq<EnumCase<T>> {
        self.cases@
    }

    /// The shape whose slots are the case names.
    pub closed spec fn shape_id(&self) -> ShapeId {
        self.case_shape
    }

    /// The name of the enumeration.
    pub closed spec fn name_spec(&self) -> Seq<char> {
        self.name@
    }

    /// The shape of the enumeration's own attributes.
    pub closed spec fn entry_shape(&self) -> ShapeId {
        self.entries.shape_id()
    }

    /// The values of the enumeration's own attributes, in slot order.
    pub closed spec fn entry_values(&self) -> Seq<T> {
        self.entries.values()
    }

    /// The mixins the enumeration includes, in the order of inclusion.
    pub closed spec fn included(&self) -> Seq<usize> {
        self.mixins@
    }

    /// The value of the enumeration's own attribute `name`, in the slot table `st`.
    pub open spec fn entry_value(&self, st: SlotTable, name: Symbol) -> Option<T> {
        attribute_spec(st, self.entry_shape(), self.entry_values(), name)
    }

    /// Whether the enumeration agrees with the shape table `shapes`: in its
    /// cases and in its own attributes.
    pub open spec fn consistent_with(&self, shapes: &Shapes) -> bool {
        &&& cases_consistent(shapes.slot_table(), self.shape_id(), self.cases())
        &&& box_consistent(shapes.slot_table(), self.entry_shape(), self.entry_values())
    }

    /// An enumeration named `name`, with no case yet.
    pub fn new(name: &str) -> (r: Self)
        ensures
            r.name_spec() == name@,
            r.cases() == Seq::<EnumCase<T>>::empty(),
            r.shape_id() == ShapeId(EMPTY_SHAPE_INDEX),
            r.entry_shape() == ShapeId(EMPTY_SHAPE_INDEX),
            r.entry_values() == Seq::<T>::empty(),
            r.included() == Seq::<usize>::empty(),
    {
        Enum {
            name: name.to_owned(),
            cases: Vec::new(),
            case_shape: ShapeId(EMPTY_SHAPE_INDEX),
            entries: ObjectBox::new(),
            mixins: MixinIncluder::new(),
        }
    }

    /// The name of the enumeration.
    pub fn name(&self) -> (r: &str)
        ensures
            r@ == self.name_spec(),
    {
        self.name.as_str()
    }

    /// Adds `case`, replacing a case of the same name; returns its index.
    pub fn add_case(&mut self, shapes: &mut Shapes, case: EnumCase<T>) -> (r: usize)
        requires
            old(self).consistent_with(old(shapes)),
            old(shapes).slot_table().len() < MAX_SHAPES,
        ensures
            final(self).cases() == add_case_spec(old(self).cases(), case),
            final(self).name_spec() == old(self).name_spec(),
            final(self).consistent_with(final(shapes)),
            final(self).entry_shape() == old(self).entry_shape(),
            final(self).entry_values() == old(self).entry_values(),
            final(self).included() == old(self).included(),
            forall|a: Symbol| #[trigger] final(self).entry_value(final(shapes).slot_table(), a) == old(self).entry_value(
                old(shapes).slot_table(),
                a,
            ),
            case_index_spec(final(self).cases(), case.name) == Some(r as int),
            ({
                let (st2, tt2, sid, slot) = transition_spec(
                    old(shapes).slot_table(),
                    old(shapes).transition_table(),
                    old(self).shape_id(),
                    case.name,
                );
                &&& final(shapes).slot_table() == st2
                &&& final(shapes).transition_table() == tt2
                &&& final(self).shape_id() == sid
            }),
    {
        shapes.check_wf();
        let ghost st = shapes.slot_table();
        let ghost tt = shapes.transition_table();
        let ghost cur = self.case_shape;
        let ghost old_cases = self.cases@;
        let ghost name = case.name;
        proof {
            lemma_transition_wf(st, tt, cur, name);
            lemma_transition_resolves(st, tt, cur, name);
            assert(distinct_symbols(st[cur.0 as int]));
            assert(box_consistent(st, cur, old_cases));
            assert forall|a: Symbol| #[trigger] attribute_spec(transition_spec(st, tt, cur, name).0, self.entries.shape_id(), self.entries.values(), a)
                == attribute_spec(st, self.entries.shape_id(), self.entries.values(), a) by {
                lemma_write_keeps_other_objects(st, tt, cur, old_cases, name, self.entries.shape_id(), self.entries.values(), a);
            }
            lemma_write_keeps_other_objects(st, tt, cur, old_cases, name, self.entries.shape_id(), self.entries.values(), name);
        }
        let (shape_id, slot_id) = shapes.transition(self.case_shape, case.name);
        self.case_shape = shape_id;
        let slot = slot_id.0 as usize;
        proof {
            lemma_add_case_then_find(old_cases, case, name);
            match slot_index(st[cur.0 as int], name) {
                Some(p) => {
                    let q = choose|k: int| 0 <= k < st[cur.0 as int].len() && st[cur.0 as int][k] == name;
                    assert(0 <= q < st[cur.0 as int].len());
                },
                None => {},
            }
        }
        if slot < self.cases.len() {
            self.cases.set(slot, case);
            proof {
                assert(case_names(self.cases@) =~= case_names(old_cases));
            }
        } else {
            self.cases.push(case);
            proof {
                assert(case_names(self.cases@) =~= case_names(old_cases).push(name));
            }
        }
        slot
    }

    /// The index of the case named `name`, if there is one.
    pub fn get_idx_of_case_by_symbol(&self, shapes: &Shapes, name: Symbol) -> (r: Option<usize>)
        requires
            self.consistent_with(shapes),
        ensures
            r is Some <==> case_index_spec(self.cases(), name) is Some,
            r matches Some(i) ==> case_index_spec(self.cases(), name) == Some(i as int),
    {
        shapes.check_wf();
        proof {
            let names = shapes.slot_table()[self.case_shape.0 as int];
            if slot_index(names, name) is Some {
                let k = choose|k: int| 0 <= k < names.len() && names[k] == name;
                assert(0 <= k < names.len());
            }
        }
        match shapes.resolve_slot(self.case_shape, name) {
            Some(s) => Some(s.0 as usize),
            None => None,
        }
    }

    /// The case at index `idx`, if there is one.
    pub fn get_case_by_idx(&self, idx: usize) -> (r: Option<&EnumCase<T>>)
        ensures
            idx < self.cases().len() ==> r == Some(&self.cases()[idx as int]),
            idx >= self.cases().len() ==> r is None,
    {
        if idx < self.cases.len() {
            Some(&self.cases[idx])
        } else {
            None
        }
    }

    /// A value of case `cidx` carrying `payload`, provided the case exists and
    /// takes a payload exactly when one is given.
    pub fn make_value<P>(&self, cidx: usize, payload: Option<P>) -> (r: Option<EnumValue<P, T>>)
        ensures
            r is Some <==> (cidx < self.cases().len() && (self.cases()[cidx as int].payload_type is Some
                <==> payload is Some)),
            r matches Some(v) ==> v.case_index() == cidx && v.payload_spec() == payload && v.container_enum() == *self,
    {
        if cidx < self.cases.len() {
            let wants = self.cases[cidx].payload_type.is_some();
            if wants == payload.is_some() {
                return Some(EnumValue { case: cidx, payload, container: Ghost(*self) });
            }
        }
        None
    }

    /// Sets the enumeration's own attribute `name` to `val`.
    pub fn store_named_value(&mut self, shapes: &mut Shapes, name: Symbol, val: T)
        requires
            old(self).consistent_with(old(shapes)),
            old(shapes).slot_table().len() < MAX_SHAPES,
        ensures
            final(self).consistent_with(final(shapes)),
            final(self).name_spec() == old(self).name_spec(),
            final(self).cases() == old(self).cases(),
            final(self).shape_id() == old(self).shape_id(),
            final(self).included() == old(self).included(),
            (
                final(shapes).slot_table(),
                final(shapes).transition_table(),
                final(self).entry_shape(),
                final(self).entry_values(),
            ) == write_spec(
                old(shapes).slot_table(),
                old(shapes).transition_table(),
                old(self).entry_shape(),
                old(self).entry_values(),
                name,
                val,
            ),
    {
        shapes.check_wf();
        proof {
            let st = shapes.slot_table();
            assert(box_consistent(st, self.case_shape, self.cases@));
            lemma_write_keeps_other_objects(
                st,
                shapes.transition_table(),
                self.entries.shape_id(),
                self.entries.values(),
                name,
                self.case_shape,
                self.cases@,
                name,
            );
            lemma_transition_wf(st, shapes.transition_table(), self.entries.shape_id(), name);
        }
        self.entries.write(shapes, name, val);
    }

    /// The value of attribute `name`: the enumeration's own, else that of the
    /// mixins it includes, the one included last first.
    pub fn load_named_value<'a>(&'a self, shapes: &Shapes, table: &'a Mixins<T>, name: Symbol) -> (r: Option<&'a T>)
        ensures
            self.entry_value(shapes.slot_table(), name) is Some ==> (r matches Some(v) && self.entry_value(
                shapes.slot_table(),
                name,
            ) == Some(*v)),
            self.entry_value(shapes.slot_table(), name) is None ==> (r is Some <==> table.lookup_list(
                shapes.slot_table(),
                self.included(),
                self.included().len() as int,
                name,
                table.len_spec(),
            ) is Some),
            self.entry_value(shapes.slot_table(), name) is None && r is Some ==> table.lookup_list(
                shapes.slot_table(),
                self.included(),
                self.included().len() as int,
                name,
                table.len_spec(),
            ) == Some(*r->Some_0),
    {
        match self.entries.read(shapes, name) {
            Some(v) => Some(v),
            None => self.mixins.load_named_value(table, shapes, name),
        }
    }

    /// Makes the enumeration include mixin `mixin`, after all it included before.
    pub fn include_mixin(&mut self, mixin: usize)
        ensures
            final(self).included() == old(self).included().push(mixin),
            final(self).name_spec() == old(self).name_spec(),
            final(self).cases() == old(self).cases(),
            final(self).shape_id() == old(self).shape_id(),
            final(self).entry_shape() == old(self).entry_shape(),
            final(self).entry_values() == old(self).entry_values(),
    {
        self.mixins.push(mixin);
    }

    /// Whether one of the mixins the enumeration includes is, or includes, `mixin`.
    pub fn isa_mixin(&self, table: &Mixins<T>, mixin: usize) -> (r: bool)
        ensures
            r == table.any_isa(self.included(), self.included().len() as int, mixin, table.len_spec()),
    {
        self.mixins.contains(table, mixin)
    }
}

impl<T: Clone> Enum<T> {
    /// Adds each of `cases` in order.
    pub fn add_cases(&mut self, shapes: &mut Shapes, cases: &[EnumCase<T>])
        requires
            old(self).consistent_with(old(shapes)),
            old(shapes).slot_table().len() + cases@.len() < MAX_SHAPES,
        ensures
            final(self).consistent_with(final(shapes)),
            final(self).name_spec() == old(self).name_spec(),
            final(shapes).slot_table().len() <= old(shapes).slot_table().len() + cases@.len(),
            forall|i: int| 0 <= i < cases@.len() ==> case_index_spec(final(self).cases(), #[trigger] cases@[i].name) is Some,
            final(self).cases().len() <= old(self).cases().len() + cases@.len(),
    {
        let mut i: usize = 0;
        while i < cases.len()
            invariant
                i <= cases@.len(),
                self.consistent_with(shapes),
                self.name_spec() == old(self).name_spec(),
                shapes.slot_table().len() <= old(shapes).slot_table().len() + i,
                old(shapes).slot_table().len() + cases@.len() < MAX_SHAPES,
                self.cases().len() <= old(self).cases().len() + i,
                forall|j: int| 0 <= j < i ==> case_index_spec(self.cases(), #[trigger] cases@[j].name) is Some,
            decreases cases@.len() - i,
        {
            let ghost before = self.cases();
            shapes.check_wf();
            proof {
                lemma_transition_wf(shapes.slot_table(), shapes.transition_table(), self.shape_id(), cases@[i as int].name);
                assert(distinct_symbols(case_names(before)));
            }
            let c = cases[i].clone();
            self.add_case(shapes, c);
            proof {
                assert forall|j: int| 0 <= j < i + 1 implies case_index_spec(self.cases(), #[trigger] cases@[j].name) is Some by {
                    lemma_add_case_then_find(before, c, cases@[j].name);
                }
            }
            i += 1;
        }
    }

    /// An enumeration named `name` with `cases`, added in order.
    pub fn new_with_cases(name: &str, cases: &[EnumCase<T>], shapes: &mut Shapes) -> (r: Self)
        requires
            old(shapes).slot_table().len() + cases@.len() < MAX_SHAPES,
        ensures
            r.consistent_with(final(shapes)),
            r.name_spec() == name@,
            forall|i: int| 0 <= i < cases@.len() ==> case_index_spec(r.cases(), #[trigger] cases@[i].name) is Some,
    {
        let mut e = Enum::new(name);
        shapes.check_wf();
        proof {
            assert(case_names(e.cases()) =~= Seq::<Symbol>::empty());
            assert(shapes.slot_table()[0] =~= Seq::<Symbol>::empty());
        }
        e.add_cases(shapes, cases);
        e
    }
}

} // verus!
