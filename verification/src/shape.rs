//! Object shapes: every object's attribute layout is a shape, and adding an
//! attribute moves the object along a shared transition to the next shape.
use crate::symbol::Symbol;
use vstd::prelude::*;

verus! {

/// The number of a shape in the shape table.
#[derive(Clone, Copy, Debug, PartialEq, Eq, Structural, Hash)]
pub struct ShapeId(pub u32);

/// The position of an attribute among the slots of a shape.
#[derive(Clone, Copy, Debug, PartialEq, Eq, Structural, Hash)]
pub struct SlotId(pub u32);

/// The number of the shape of an object that has no attribute.
pub const EMPTY_SHAPE_INDEX: u32 = 0;

/// The largest number of shapes a table holds.
pub const MAX_SHAPES: usize = 4294967295;

/// The slots of each shape, in slot order.
pub type SlotTable = Seq<Seq<Symbol>>;

/// The recorded transitions: from a shape, by a name, to a shape.
pub type TransitionTable = Seq<(ShapeId, Symbol, ShapeId)>;

/// Whether no symbol occurs twice in `s`.
pub open spec fn distinct_symbols(s: Seq<Symbol>) -> bool {
    forall|i: int, j: int| 0 <= i < s.len() && 0 <= j < s.len() && i != j ==> s[i] != s[j]
}

/// The slot at which `name` stands in `s`, if it does.
pub open spec fn slot_index(s: Seq<Symbol>, name: Symbol) -> Option<int> {
    if exists|i: int| 0 <= i < s.len() && s[i] == name {
        Some(choose|i: int| 0 <= i < s.len() && s[i] == name)
    } else {
        None
    }
}

/// The shape that the transition from `from` by `name` leads to, if recorded.
pub open spec fn transition_target(t: TransitionTable, from: ShapeId, name: Symbol) -> Option<ShapeId> {
    if exists|i: int| 0 <= i < t.len() && t[i].0 == from && t[i].1 == name {
        Some(t[choose|i: int| 0 <= i < t.len() && t[i].0 == from && t[i].1 == name].2)
    } else {
        None
    }
}

/// The well-formed shape tables: shape 0 has no slot, every shape's slots are
/// distinct, and every recorded transition adds its name as the last slot of
/// a shape that lacked it.
pub open spec fn shapes_wf(s: SlotTable, t: TransitionTable) -> bool {
    &&& 1 <= s.len() <= MAX_SHAPES
    &&& s[0].len() == 0
    &&& forall|k: int| 0 <= k < s.len() ==> distinct_symbols(#[trigger] s[k]) && s[k].len() < s.len()
    &&& forall|i: int| 0 <= i < t.len() ==> {
        let e = #[trigger] t[i];
        &&& e.0.0 < s.len()
        &&& e.2.0 < s.len()
        &&& slot_index(s[e.0.0 as int], e.1) is None
        &&& s[e.2.0 as int] == s[e.0.0 as int].push(e.1)
    }
    &&& forall|i: int, j: int|
        0 <= i < t.len() && 0 <= j < t.len() && i != j ==> !(#[trigger] t[i].0 == #[trigger] t[j].0 && t[i].1 == t[j].1)
}

/// The tables and the (shape, slot) reached by adding `name` to shape `cur`:
/// a name already present keeps its slot; otherwise the recorded transition is
/// followed, or a new shape is created with `name` as its last slot.
pub open spec fn transition_spec(s: SlotTable, t: TransitionTable, cur: ShapeId, name: Symbol) -> (SlotTable, TransitionTable, ShapeId, SlotId) {
    let slots = s[cur.0 as int];
    match slot_index(slots, name) {
        Some(p) => (s, t, cur, SlotId(p as u32)),
        None => match transition_target(t, cur, name) {
            Some(next) => (s, t, next, SlotId(slots.len() as u32)),
            None => (
                s.push(slots.push(name)),
                t.push((cur, name, ShapeId(s.len() as u32))),
                ShapeId(s.len() as u32),
                SlotId(slots.len() as u32),
            ),
        },
    }
}

/// The slot of `name` in shape `sid`.
pub open spec fn resolve_slot_spec(s: SlotTable, sid: ShapeId, name: Symbol) -> Option<SlotId> {
    if sid.0 < s.len() {
        match slot_index(s[sid.0 as int], name) {
            Some(p) => Some(SlotId(p as u32)),
            None => None,
        }
    } else {
        None
    }
}

/// The name stored at slot `slot` of shape `sid`.
pub open spec fn resolve_symbol_spec(s: SlotTable, sid: ShapeId, slot: SlotId) -> Option<Symbol> {
    if sid.0 < s.len() && slot.0 < s[sid.0 as int].len() {
        Some(s[sid.0 as int][slot.0 as int])
    } else {
        None
    }
}

/// In distinct slots, the slot of a name is its position.
pub proof fn lemma_slot_index_at(s: Seq<Symbol>, name: Symbol, i: int)
    requires
        distinct_symbols(s),
        0 <= i < s.len(),
        s[i] == name,
    ensures
        slot_index(s, name) == Some(i),
{
    let c = choose|k: int| 0 <= k < s.len() && s[k] == name;
    assert(0 <= c < s.len() && s[c] == name);
}

proof fn lemma_transition_target_at(t: TransitionTable, s: SlotTable, i: int)
    requires
        shapes_wf(s, t),
        0 <= i < t.len(),
    ensures
        transition_target(t, t[i].0, t[i].1) == Some(t[i].2),
{
    let from = t[i].0;
    let name = t[i].1;
    let c = choose|k: int| 0 <= k < t.len() && t[k].0 == from && t[k].1 == name;
    assert(0 <= c < t.len() && t[c].0 == from && t[c].1 == name);
    if c != i {
        assert(!(t[c].0 == t[i].0 && t[c].1 == t[i].1));
    }
}

proof fn lemma_target_slots(s: SlotTable, t: TransitionTable, cur: ShapeId, name: Symbol)
    requires
        shapes_wf(s, t),
        transition_target(t, cur, name) is Some,
    ensures
        ({
            let next = transition_target(t, cur, name)->Some_0;
            &&& next.0 < s.len()
            &&& cur.0 < s.len()
            &&& s[next.0 as int] == s[cur.0 as int].push(name)
        }),
{
    let c = choose|k: int| 0 <= k < t.len() && t[k].0 == cur && t[k].1 == name;
    assert(0 <= c < t.len() && t[c].0 == cur && t[c].1 == name);
    let e = t[c];
    assert(e.0.0 < s.len());
}

/// Adding a name keeps the tables well formed, leaves every existing shape's
/// slots as they were, and lands on a shape whose slots are the current ones
/// with the name added at the end if it was missing.
pub proof fn lemma_transition_wf(s: SlotTable, t: TransitionTable, cur: ShapeId, name: Symbol)
    requires
        shapes_wf(s, t),
        cur.0 < s.len(),
        s.len() < MAX_SHAPES,
    ensures
        ({
            let (s2, t2, sid, slot) = transition_spec(s, t, cur, name);
            &&& shapes_wf(s2, t2)
            &&& s2.len() >= s.len()
            &&& forall|k: int| 0 <= k < s.len() ==> s2[k] == s[k]
            &&& sid.0 < s2.len()
            &&& slot_index(s[cur.0 as int], name) is Some ==> s2[sid.0 as int] == s[cur.0 as int]
            &&& slot_index(s[cur.0 as int], name) is None ==> s2[sid.0 as int] == s[cur.0 as int].push(name)
        }),
{
    let slots = s[cur.0 as int];
    match slot_index(slots, name) {
        Some(p) => {},
        None => match transition_target(t, cur, name) {
            Some(next) => {
                lemma_target_slots(s, t, cur, name);
            },
            None => {
                let n = s.len();
                let ns = slots.push(name);
                let s2 = s.push(ns);
                let t2 = t.push((cur, name, ShapeId(n as u32)));
                assert(distinct_symbols(ns)) by {
                    assert forall|i: int, j: int| 0 <= i < ns.len() && 0 <= j < ns.len() && i != j implies ns[i] != ns[j] by {
                        if i == slots.len() as int && ns[j] == name {
                            assert(exists|k: int| 0 <= k < slots.len() && slots[k] == name);
                        }
                        if j == slots.len() as int && ns[i] == name {
                            assert(exists|k: int| 0 <= k < slots.len() && slots[k] == name);
                        }
                    }
                }
                assert forall|k: int| 0 <= k < s2.len() implies distinct_symbols(#[trigger] s2[k]) && s2[k].len() < s2.len() by {
                    if k < n {
                        assert(s2[k] == s[k]);
                    }
                }
                assert forall|i: int| 0 <= i < t2.len() implies {
                    let e = #[trigger] t2[i];
                    &&& e.0.0 < s2.len()
                    &&& e.2.0 < s2.len()
                    &&& slot_index(s2[e.0.0 as int], e.1) is None
                    &&& s2[e.2.0 as int] == s2[e.0.0 as int].push(e.1)
                } by {
                    if i < t.len() {
                        assert(t2[i] == t[i]);
                        let e = t[i];
                        assert(s2[e.0.0 as int] == s[e.0.0 as int]);
                        assert(s2[e.2.0 as int] == s[e.2.0 as int]);
                    }
                }
                assert forall|i: int, j: int|
                    0 <= i < t2.len() && 0 <= j < t2.len() && i != j implies !(#[trigger] t2[i].0 == #[trigger] t2[j].0
                        && t2[i].1 == t2[j].1) by {
                    if i == t.len() as int && j < t.len() && t2[j].0 == cur && t2[j].1 == name {
                        assert(exists|k: int| 0 <= k < t.len() && t[k].0 == cur && t[k].1 == name);
                    }
                    if j == t.len() as int && i < t.len() && t2[i].0 == cur && t2[i].1 == name {
                        assert(exists|k: int| 0 <= k < t.len() && t[k].0 == cur && t[k].1 == name);
                    }
                }
            },
        },
    }
}

/// Adding the same name to the same shape twice gives the same shape and
/// slot the second time, and makes no further shape; a name new to the shape
/// gets the slot after all the shape's slots.
pub proof fn lemma_transition_repeat(s: SlotTable, t: TransitionTable, cur: ShapeId, name: Symbol)
    requires
        shapes_wf(s, t),
        cur.0 < s.len(),
        s.len() < MAX_SHAPES,
    ensures
        ({
            let (s2, t2, sid, slot) = transition_spec(s, t, cur, name);
            &&& transition_spec(s2, t2, cur, name) == (s2, t2, sid, slot)
            &&& slot_index(s[cur.0 as int], name) is None ==> slot.0 == s[cur.0 as int].len()
        }),
{
    lemma_transition_wf(s, t, cur, name);
    let slots = s[cur.0 as int];
    let (s2, t2, sid, slot) = transition_spec(s, t, cur, name);
    assert(s2[cur.0 as int] == slots);
    if slot_index(slots, name) is None {
        assert(slots.len() < s.len());
        if transition_target(t, cur, name) is None {
            let last = t.len() as int;
            assert(t2[last].0 == cur && t2[last].1 == name);
            let c = choose|k: int| 0 <= k < t2.len() && t2[k].0 == cur && t2[k].1 == name;
            if c < last {
                assert(t2[c] == t[c]);
                assert(exists|k: int| 0 <= k < t.len() && t[k].0 == cur && t[k].1 == name);
            }
            assert(transition_target(t2, cur, name) == Some(sid));
        }
    }
}

/// After adding a name, the name resolves to the slot returned, that slot
/// resolves back to the name, and adding the same name again goes nowhere.
pub proof fn lemma_transition_resolves(s: SlotTable, t: TransitionTable, cur: ShapeId, name: Symbol)
    requires
        shapes_wf(s, t),
        cur.0 < s.len(),
        s.len() < MAX_SHAPES,
    ensures
        ({
            let (s2, t2, sid, slot) = transition_spec(s, t, cur, name);
            &&& resolve_slot_spec(s2, sid, name) == Some(slot)
            &&& resolve_symbol_spec(s2, sid, slot) == Some(name)
            &&& transition_spec(s2, t2, sid, name) == (s2, t2, sid, slot)
        }),
{
    lemma_transition_wf(s, t, cur, name);
    let (s2, t2, sid, slot) = transition_spec(s, t, cur, name);
    let slots = s[cur.0 as int];
    match slot_index(slots, name) {
        Some(p) => {
            let c = choose|k: int| 0 <= k < slots.len() && slots[k] == name;
            assert(0 <= c < slots.len() && slots[c] == name);
        },
        None => {
            let ns = s2[sid.0 as int];
            assert(ns == slots.push(name));
            assert(ns[slots.len() as int] == name);
            lemma_slot_index_at(ns, name, slots.len() as int);
        },
    }
}

/// Adding a name leaves the slot of every name the shape already had where it was.
pub proof fn lemma_transition_keeps_slots(s: SlotTable, t: TransitionTable, cur: ShapeId, name: Symbol, other: Symbol)
    requires
        shapes_wf(s, t),
        cur.0 < s.len(),
        s.len() < MAX_SHAPES,
        resolve_slot_spec(s, cur, other) is Some,
    ensures
        ({
            let (s2, t2, sid, slot) = transition_spec(s, t, cur, name);
            resolve_slot_spec(s2, sid, other) == resolve_slot_spec(s, cur, other)
        }),
{
    lemma_transition_wf(s, t, cur, name);
    let (s2, t2, sid, slot) = transition_spec(s, t, cur, name);
    let slots = s[cur.0 as int];
    if slot_index(slots, name) is None {
        let p = choose|k: int| 0 <= k < slots.len() && slots[k] == other;
        assert(0 <= p < slots.len() && slots[p] == other);
        lemma_slot_index_at(slots, other, p);
        let ns = s2[sid.0 as int];
        assert(ns[p] == other);
        lemma_slot_index_at(ns, other, p);
    }
}

/// The slots of one shape.
pub struct Shape {
    #[allow(unused)]
    id: ShapeId,
    reverse_slots: Vec<Symbol>,
}

impl Shape {
    /// The shape without slots.
    pub fn empty() -> (r: Shape)
        ensures
            r.slots() == Seq::<Symbol>::empty(),
            r.shape_id() == ShapeId(EMPTY_SHAPE_INDEX),
    {
        Shape { id: ShapeId(EMPTY_SHAPE_INDEX), reverse_slots: Vec::new() }
    }

    /// The identifier of the shape.
    pub closed spec fn shape_id(&self) -> ShapeId {
        self.id
    }

    /// The names of the slots, in slot order.
    pub closed spec fn slots(&self) -> Seq<Symbol> {
        self.reverse_slots@
    }
}

/// The table of all shapes and of the transitions between them.
pub struct Shapes {
    shapes: Vec<Shape>,
    transitions: Vec<(ShapeId, Symbol, ShapeId)>,
}

fn find_symbol(s: &Vec<Symbol>, name: Symbol) -> (r: Option<usize>)
    requires
        distinct_symbols(s@),
    ensures
        r matches Some(p) ==> slot_index(s@, name) == Some(p as int),
        r is None ==> slot_index(s@, name) is None,
{
    let mut i: usize = 0;
    while i < s.len()
        invariant
            i <= s@.len(),
            distinct_symbols(s@),
            forall|k: int| 0 <= k < i ==> s@[k] != name,
        decreases s@.len() - i,
    {
        if s[i] == name {
            proof {
                lemma_slot_index_at(s@, name, i as int);
            }
            return Some(i);
        }
        i += 1;
    }
    None
}

fn copy_symbols(s: &Vec<Symbol>) -> (r: Vec<Symbol>)
    ensures
        r@ == s@,
{
    let mut r: Vec<Symbol> = Vec::with_capacity(s.len());
    let mut i: usize = 0;
    while i < s.len()
        invariant
            i <= s@.len(),
            r@ == s@.subrange(0, i as int),
        decreases s@.len() - i,
    {
        r.push(s[i]);
        i += 1;
    }
    assert(s@.subrange(0, s@.len() as int) =~= s@);
    r
}

impl Shapes {
    /// The slots of every shape, by shape number.
    pub closed spec fn slot_table(&self) -> SlotTable {
        self.shapes@.map_values(|sh: Shape| sh.reverse_slots@)
    }

    /// The recorded transitions.
    pub closed spec fn transition_table(&self) -> TransitionTable {
        self.transitions@
    }

    #[verifier::type_invariant]
    closed spec fn inv(&self) -> bool {
        shapes_wf(self.slot_table(), self.transition_table())
    }

    /// A table holding only the empty shape.
    pub fn new() -> (r: Shapes)
        ensures
            r.slot_table() == seq![Seq::<Symbol>::empty()],
            r.transition_table() == Seq::<(ShapeId, Symbol, ShapeId)>::empty(),
            shapes_wf(r.slot_table(), r.transition_table()),
    {
        let mut shapes: Vec<Shape> = Vec::new();
        shapes.push(Shape::empty());
        let r = Shapes { shapes, transitions: Vec::new() };
        assert(r.slot_table() =~= seq![Seq::<Symbol>::empty()]);
        r
    }

    /// The tables are well formed.
    pub fn check_wf(&self)
        ensures
            shapes_wf(self.slot_table(), self.transition_table()),
    {
        proof {
            use_type_invariant(self);
        }
    }

    /// The number of shapes.
    pub fn len(&self) -> (r: usize)
        ensures
            r == self.slot_table().len(),
    {
        self.shapes.len()
    }

    /// Adds `name` to shape `cur_sid`, returning the shape reached and the slot of `name` there.
    pub fn transition(&mut self, cur_sid: ShapeId, name: Symbol) -> (r: (ShapeId, SlotId))
        requires
            cur_sid.0 < old(self).slot_table().len(),
            old(self).slot_table().len() < MAX_SHAPES,
        ensures
            (final(self).slot_table(), final(self).transition_table(), r.0, r.1) == transition_spec(
                old(self).slot_table(),
                old(self).transition_table(),
                cur_sid,
                name,
            ),
            shapes_wf(final(self).slot_table(), final(self).transition_table()),
    {
        proof {
            use_type_invariant(&*self);
            lemma_transition_wf(self.slot_table(), self.transition_table(), cur_sid, name);
        }
        let cur = cur_sid.0 as usize;
        let ghost st = self.slot_table();
        let ghost tt = self.transition_table();
        proof {
            assert(self.shapes@[cur as int].reverse_slots@ == st[cur as int]);
        }
        if let Some(p) = find_symbol(&self.shapes[cur].reverse_slots, name) {
            return (cur_sid, SlotId(p as u32));
        }
        let cur_len = self.shapes[cur].reverse_slots.len();
        let mut i: usize = 0;
        while i < self.transitions.len()
            invariant
                i <= tt.len(),
                self.transitions@ == tt,
                self.slot_table() == st,
                shapes_wf(st, tt),
                cur < st.len(),
                cur_sid.0 == cur,
                st[cur as int].len() == cur_len,
                slot_index(st[cur as int], name) is None,
                forall|k: int| 0 <= k < i ==> !(tt[k].0 == cur_sid && tt[k].1 == name),
            decreases tt.len() - i,
        {
            let (from, sym, to) = self.transitions[i];
            if from == cur_sid && sym == name {
                proof {
                    lemma_transition_target_at(tt, st, i as int);
                }
                return (to, SlotId(cur_len as u32));
            }
            i += 1;
        }
        proof {
            if exists|k: int| 0 <= k < tt.len() && tt[k].0 == cur_sid && tt[k].1 == name {
                let k = choose|k: int| 0 <= k < tt.len() && tt[k].0 == cur_sid && tt[k].1 == name;
                assert(!(tt[k].0 == cur_sid && tt[k].1 == name));
            }
        }
        let mut new_slots = copy_symbols(&self.shapes[cur].reverse_slots);
        new_slots.push(name);
        let new_sid = ShapeId(self.shapes.len() as u32);
        let new_shape = Shape { id: new_sid, reverse_slots: new_slots };
        let mut shapes: Vec<Shape> = Vec::new();
        shapes.push(Shape::empty());
        let mut transitions: Vec<(ShapeId, Symbol, ShapeId)> = Vec::new();
        proof {
            assert(shapes@.map_values(|sh: Shape| sh.reverse_slots@) =~= seq![Seq::<Symbol>::empty()]);
        }
        std::mem::swap(&mut transitions, &mut self.transitions);
        std::mem::swap(&mut shapes, &mut self.shapes);
        shapes.push(new_shape);
        transitions.push((cur_sid, name, new_sid));
        proof {
            assert(shapes@.map_values(|sh: Shape| sh.reverse_slots@) =~= st.push(st[cur as int].push(name)));
        }
        self.shapes = shapes;
        self.transitions = transitions;
        (new_sid, SlotId(cur_len as u32))
    }

    /// The slot of `name` in shape `sid`, if it has one.
    pub fn resolve_slot(&self, sid: ShapeId, name: Symbol) -> (r: Option<SlotId>)
        ensures
            r == resolve_slot_spec(self.slot_table(), sid, name),
    {
        proof {
            use_type_invariant(self);
        }
        let k = sid.0 as usize;
        if k < self.shapes.len() {
            proof {
                assert(self.shapes@[k as int].reverse_slots@ == self.slot_table()[k as int]);
            }
            match find_symbol(&self.shapes[k].reverse_slots, name) {
                Some(p) => Some(SlotId(p as u32)),
                None => None,
            }
        } else {
            None
        }
    }

    /// The name stored at slot `slot_id` of shape `sid`, if any.
    pub fn resolve_symbol(&self, sid: ShapeId, slot_id: SlotId) -> (r: Option<Symbol>)
        ensures
            r == resolve_symbol_spec(self.slot_table(), sid, slot_id),
    {
        let k = sid.0 as usize;
        if k < self.shapes.len() {
            proof {
                assert(self.shapes@[k as int].reverse_slots@ == self.slot_table()[k as int]);
            }
            let j = slot_id.0 as usize;
            if j < self.shapes[k].reverse_slots.len() {
                Some(self.shapes[k].reverse_slots[j])
            } else {
                None
            }
        } else {
            None
        }
    }

    /// The names of the slots of shape `sid`, in slot order.
    pub fn slots_of(&self, sid: ShapeId) -> (r: Option<Vec<Symbol>>)
        ensures
            sid.0 < self.slot_table().len() ==> (r matches Some(v) && v@ == self.slot_table()[sid.0 as int]),
            sid.0 >= self.slot_table().len() ==> r is None,
    {
        let k = sid.0 as usize;
        if k < self.shapes.len() {
            proof {
                assert(self.shapes@[k as int].reverse_slots@ == self.slot_table()[k as int]);
            }
            Some(copy_symbols(&self.shapes[k].reverse_slots))
        } else {
            None
        }
    }
}

} // verus!
