//! Mixins: named bundles of attributes that mixins and types include, and the
//! order in which an attribute is looked up through what was included.
//!
//! Mixins are held in one table and named by their position in it. A lookup
//! follows inclusions to a depth of at most the number of mixins, so it ends
//! even where inclusions loop; a path that meets no mixin twice never needs
//! more.
use crate::object::{attribute_spec, box_consistent, write_spec, ObjectBox};
use crate::shape::{Shapes, SlotTable, MAX_SHAPES};
use crate::symbol::Symbol;
use vstd::prelude::*;

verus! {

/// The mixins that a mixin or a type includes, in the order of inclusion.
pub struct MixinIncluder {
    mixins: Vec<usize>,
}

impl View for MixinIncluder {
    type V = Seq<usize>;

    closed spec fn view(&self) -> Seq<usize> {
        self.mixins@
    }
}

impl MixinIncluder {
    /// An includer that includes nothing.
    pub fn new() -> (r: MixinIncluder)
        ensures
            r@ == Seq::<usize>::empty(),
    {
        MixinIncluder { mixins: Vec::new() }
    }

    /// Includes mixin `mixin` after all those included before.
    pub fn push(&mut self, mixin: usize)
        ensures
            final(self)@ == old(self)@.push(mixin),
    {
        self.mixins.push(mixin);
    }

    /// Whether one of the included mixins is, or includes, mixin `mixin`.
    pub fn contains<V>(&self, table: &Mixins<V>, mixin: usize) -> (r: bool)
        ensures
            r == table.any_isa(self@, self@.len() as int, mixin, table.len_spec()),
    {
        table.any_isa_exec(&self.mixins, self.mixins.len(), mixin, table.len())
    }

    /// The value of attribute `name` in the included mixins, the mixin
    /// included last looked at first.
    pub fn load_named_value<'a, V>(&self, table: &'a Mixins<V>, shapes: &Shapes, name: Symbol) -> (r: Option<&'a V>)
        ensures
            r is Some <==> table.lookup_list(shapes.slot_table(), self@, self@.len() as int, name, table.len_spec()) is Some,
            r matches Some(v) ==> table.lookup_list(shapes.slot_table(), self@, self@.len() as int, name, table.len_spec())
                == Some(*v),
    {
        table.lookup_list_exec(shapes, &self.mixins, self.mixins.len(), name, table.len())
    }

    /// The names of the attributes of the included mixins, each once.
    pub fn list_attributes<V>(&self, table: &Mixins<V>, shapes: &Shapes) -> (r: Vec<Symbol>)
        ensures
            r@.no_duplicates(),
            forall|s: Symbol| #[trigger] r@.contains(s) <==> table.names_list(
                shapes.slot_table(),
                self@,
                self@.len() as int,
                table.len_spec(),
            ).contains(s),
    {
        let mut r: Vec<Symbol> = Vec::new();
        table.add_names_list(shapes, &self.mixins, self.mixins.len(), table.len(), &mut r);
        r
    }
}

/// The names of a shape's slots in `st`, none where the shape is unknown.
pub open spec fn shape_names(st: SlotTable, shape: crate::shape::ShapeId) -> Seq<Symbol> {
    if shape.0 < st.len() {
        st[shape.0 as int]
    } else {
        Seq::empty()
    }
}

/// One mixin: its name, its own attributes and what it includes.
struct MixinData<V> {
    name: String,
    entries: ObjectBox<V>,
    includer: MixinIncluder,
}

/// A table of mixins: the name, the own attributes and the inclusions of each.
pub struct Mixins<V> {
    items: Vec<MixinData<V>>,
}

impl<V> Mixins<V> {

    /// The number of mixins in the table.
    pub closed spec fn len_spec(&self) -> nat {
        self.items@.len()
    }

    /// The name of mixin `id`.
    pub closed spec fn name_spec(&self, id: int) -> Seq<char> {
        self.items@[id].name@
    }

    /// The mixins that mixin `id` includes, in the order of inclusion.
    pub closed spec fn includes(&self, id: int) -> Seq<usize> {
        self.items@[id].includer@
    }

    /// The shape of mixin `id`'s own attributes.
    pub closed spec fn shape_of(&self, id: int) -> crate::shape::ShapeId {
        self.items@[id].entries.shape_id()
    }

    /// The values of mixin `id`'s own attributes, in slot order.
    pub closed spec fn values_of(&self, id: int) -> Seq<V> {
        self.items@[id].entries.values()
    }

    /// The value of mixin `id`'s own attribute `name`.
    pub open spec fn own_value(&self, st: SlotTable, id: int, name: Symbol) -> Option<V> {
        attribute_spec(st, self.shape_of(id), self.values_of(id), name)
    }

    /// The value of attribute `name` of mixin `id`: its own, else that of the
    /// mixins it includes, the one included last first, to depth `fuel`.
    pub open spec fn lookup_within(&self, st: SlotTable, id: int, name: Symbol, fuel: nat) -> Option<V>
        decreases fuel, 0int, 0int,
    {
        if fuel == 0 || !(0 <= id < self.len_spec()) {
            None
        } else {
            match self.own_value(st, id, name) {
                Some(v) => Some(v),
                None => self.lookup_list(st, self.includes(id), self.includes(id).len() as int, name, (fuel - 1) as nat),
            }
        }
    }

    /// The value of attribute `name` in the first `k` mixins of `ms`, the
    /// later ones looked at first.
    pub open spec fn lookup_list(&self, st: SlotTable, ms: Seq<usize>, k: int, name: Symbol, fuel: nat) -> Option<V>
        decreases fuel, 1int, k,
    {
        if k <= 0 || k > ms.len() {
            None
        } else {
            match self.lookup_within(st, ms[k - 1] as int, name, fuel) {
                Some(v) => Some(v),
                None => self.lookup_list(st, ms, k - 1, name, fuel),
            }
        }
    }

    /// Whether mixin `a` is mixin `b` or includes it, to depth `fuel`.
    pub open spec fn isa_within(&self, a: int, b: usize, fuel: nat) -> bool
        decreases fuel, 0int, 0int,
    {
        if fuel == 0 {
            false
        } else if a == b {
            true
        } else if !(0 <= a < self.len_spec()) {
            false
        } else {
            self.any_isa(self.includes(a), self.includes(a).len() as int, b, (fuel - 1) as nat)
        }
    }

    /// Whether one of the first `k` mixins of `ms` is mixin `b` or includes it.
    pub open spec fn any_isa(&self, ms: Seq<usize>, k: int, b: usize, fuel: nat) -> bool
        decreases fuel, 1int, k,
    {
        if k <= 0 || k > ms.len() {
            false
        } else {
            self.isa_within(ms[k - 1] as int, b, fuel) || self.any_isa(ms, k - 1, b, fuel)
        }
    }

    /// The names of the attributes of mixin `id` and of what it includes.
    pub open spec fn names_within(&self, st: SlotTable, id: int, fuel: nat) -> Set<Symbol>
        decreases fuel, 0int, 0int,
    {
        if fuel == 0 || !(0 <= id < self.len_spec()) {
            Set::empty()
        } else {
            shape_names(st, self.shape_of(id)).to_set().union(
                self.names_list(st, self.includes(id), self.includes(id).len() as int, (fuel - 1) as nat),
            )
        }
    }

    /// The names of the attributes of the first `k` mixins of `ms`.
    pub open spec fn names_list(&self, st: SlotTable, ms: Seq<usize>, k: int, fuel: nat) -> Set<Symbol>
        decreases fuel, 1int, k,
    {
        if k <= 0 || k > ms.len() {
            Set::empty()
        } else {
            self.names_within(st, ms[k - 1] as int, fuel).union(self.names_list(st, ms, k - 1, fuel))
        }
    }

    /// An empty table.
    pub fn new() -> (r: Mixins<V>)
        ensures
            r.len_spec() == 0,
    {
        Mixins { items: Vec::new() }
    }

    /// The number of mixins in the table.
    pub fn len(&self) -> (r: usize)
        ensures
            r == self.len_spec(),
    {
        self.items.len()
    }

    /// Adds a mixin named `name` with no attribute and no inclusion, and
    /// gives its position.
    pub fn create(&mut self, name: &str) -> (r: usize)
        ensures
            r == old(self).len_spec(),
            final(self).len_spec() == old(self).len_spec() + 1,
            final(self).name_spec(r as int) == name@,
            final(self).includes(r as int) == Seq::<usize>::empty(),
            final(self).values_of(r as int) == Seq::<V>::empty(),
            final(self).shape_of(r as int) == crate::shape::ShapeId(crate::shape::EMPTY_SHAPE_INDEX),
            forall|j: int| 0 <= j < old(self).len_spec() ==> {
                &&& final(self).name_spec(j) == old(self).name_spec(j)
                &&& final(self).includes(j) == old(self).includes(j)
                &&& final(self).shape_of(j) == old(self).shape_of(j)
                &&& final(self).values_of(j) == old(self).values_of(j)
            },
    {
        let id = self.items.len();
        self.items.push(MixinData { name: name.to_owned(), entries: ObjectBox::new(), includer: MixinIncluder::new() });
        id
    }

    /// The name of mixin `id`.
    pub fn name(&self, id: usize) -> (r: &str)
        requires
            id < self.len_spec(),
        ensures
            r@ == self.name_spec(id as int),
    {
        self.items[id].name.as_str()
    }

    /// Makes mixin `id` include mixin `other`, after all it included before.
    pub fn include_mixin(&mut self, id: usize, other: usize)
        requires
            id < old(self).len_spec(),
        ensures
            final(self).len_spec() == old(self).len_spec(),
            final(self).includes(id as int) == old(self).includes(id as int).push(other),
            inclusions_grow(&*old(self), &*final(self)),
            forall|j: int| 0 <= j < old(self).len_spec() && j != id ==> final(self).includes(j) == old(self).includes(j),
            forall|j: int| 0 <= j < old(self).len_spec() ==> {
                &&& final(self).name_spec(j) == old(self).name_spec(j)
                &&& final(self).shape_of(j) == old(self).shape_of(j)
                &&& final(self).values_of(j) == old(self).values_of(j)
            },
    {
        let mut item = self.items.remove(id);
        item.includer.push(other);
        self.items.insert(id, item);
        proof {
            assert(self.items@ =~= old(self).items@.update(id as int, item));
        }
    }

    /// Sets mixin `id`'s own attribute `name` to `val`.
    pub fn write_entry(&mut self, shapes: &mut Shapes, id: usize, name: Symbol, val: V)
        requires
            id < old(self).len_spec(),
            box_consistent(old(shapes).slot_table(), old(self).shape_of(id as int), old(self).values_of(id as int)),
            old(shapes).slot_table().len() < MAX_SHAPES,
        ensures
            final(self).len_spec() == old(self).len_spec(),
            (
                final(shapes).slot_table(),
                final(shapes).transition_table(),
                final(self).shape_of(id as int),
                final(self).values_of(id as int),
            ) == write_spec(
                old(shapes).slot_table(),
                old(shapes).transition_table(),
                old(self).shape_of(id as int),
                old(self).values_of(id as int),
                name,
                val,
            ),
            forall|j: int| 0 <= j < old(self).len_spec() ==> {
                &&& final(self).name_spec(j) == old(self).name_spec(j)
                &&& final(self).includes(j) == old(self).includes(j)
            },
            forall|j: int| 0 <= j < old(self).len_spec() && j != id ==> {
                &&& final(self).shape_of(j) == old(self).shape_of(j)
                &&& final(self).values_of(j) == old(self).values_of(j)
            },
    {
        let mut item = self.items.remove(id);
        item.entries.write(shapes, name, val);
        self.items.insert(id, item);
        proof {
            assert(self.items@ =~= old(self).items@.update(id as int, item));
        }
    }

    /// Whether mixin `id` is mixin `other` or includes it.
    pub fn isa_mixin(&self, id: usize, other: usize) -> (r: bool)
        ensures
            r == self.isa_within(id as int, other, self.len_spec()),
    {
        self.isa_exec(id, other, self.len())
    }

    /// The value of mixin `id`'s attribute `name`: its own, else that of the
    /// mixins it includes, the one included last first.
    pub fn load_named_value<'a>(&'a self, shapes: &Shapes, id: usize, name: Symbol) -> (r: Option<&'a V>)
        ensures
            r is Some <==> self.lookup_within(shapes.slot_table(), id as int, name, self.len_spec()) is Some,
            r matches Some(v) ==> self.lookup_within(shapes.slot_table(), id as int, name, self.len_spec()) == Some(*v),
    {
        self.lookup_exec(shapes, id, name, self.len())
    }

    /// The names of mixin `id`'s own attributes, in slot order.
    pub fn named_values(&self, shapes: &Shapes, id: usize) -> (r: Vec<Symbol>)
        requires
            id < self.len_spec(),
        ensures
            r@ == shape_names(shapes.slot_table(), self.shape_of(id as int)),
    {
        self.items[id].entries.list_attributes(shapes)
    }

    /// The names of the attributes of mixin `id` and of all it includes, each once.
    pub fn list_attributes(&self, shapes: &Shapes, id: usize) -> (r: Vec<Symbol>)
        ensures
            r@.no_duplicates(),
            forall|s: Symbol| #[trigger] r@.contains(s) <==> self.names_within(
                shapes.slot_table(),
                id as int,
                self.len_spec(),
            ).contains(s),
    {
        let mut r: Vec<Symbol> = Vec::new();
        self.add_names_exec(shapes, id, self.len(), &mut r);
        r
    }

    fn isa_exec(&self, a: usize, b: usize, fuel: usize) -> (r: bool)
        ensures
            r == self.isa_within(a as int, b, fuel as nat),
        decreases fuel, 0int, 0int,
    {
        if fuel == 0 {
            false
        } else if a == b {
            true
        } else if a >= self.items.len() {
            false
        } else {
            let ms = &self.items[a].includer.mixins;
            self.any_isa_exec(ms, ms.len(), b, fuel - 1)
        }
    }

    fn any_isa_exec(&self, ms: &Vec<usize>, k: usize, b: usize, fuel: usize) -> (r: bool)
        ensures
            r == self.any_isa(ms@, k as int, b, fuel as nat),
        decreases fuel, 1int, k,
    {
        if k == 0 || k > ms.len() {
            false
        } else if self.isa_exec(ms[k - 1], b, fuel) {
            true
        } else {
            self.any_isa_exec(ms, k - 1, b, fuel)
        }
    }

    fn lookup_exec<'a>(&'a self, shapes: &Shapes, id: usize, name: Symbol, fuel: usize) -> (r: Option<&'a V>)
        ensures
            r is Some <==> self.lookup_within(shapes.slot_table(), id as int, name, fuel as nat) is Some,
            r matches Some(v) ==> self.lookup_within(shapes.slot_table(), id as int, name, fuel as nat) == Some(*v),
        decreases fuel, 0int, 0int,
    {
        if fuel == 0 || id >= self.items.len() {
            return None;
        }
        match self.items[id].entries.read(shapes, name) {
            Some(v) => Some(v),
            None => {
                let ms = &self.items[id].includer.mixins;
                self.lookup_list_exec(shapes, ms, ms.len(), name, fuel - 1)
            },
        }
    }

    fn lookup_list_exec<'a>(&'a self, shapes: &Shapes, ms: &Vec<usize>, k: usize, name: Symbol, fuel: usize) -> (r: Option<&'a V>)
        ensures
            r is Some <==> self.lookup_list(shapes.slot_table(), ms@, k as int, name, fuel as nat) is Some,
            r matches Some(v) ==> self.lookup_list(shapes.slot_table(), ms@, k as int, name, fuel as nat) == Some(*v),
        decreases fuel, 1int, k,
    {
        if k == 0 || k > ms.len() {
            return None;
        }
        match self.lookup_exec(shapes, ms[k - 1], name, fuel) {
            Some(v) => Some(v),
            None => self.lookup_list_exec(shapes, ms, k - 1, name, fuel),
        }
    }

    fn add_names_exec(&self, shapes: &Shapes, id: usize, fuel: usize, out: &mut Vec<Symbol>)
        requires
            old(out)@.no_duplicates(),
        ensures
            final(out)@.no_duplicates(),
            forall|s: Symbol| #[trigger] final(out)@.contains(s) <==> (old(out)@.contains(s) || self.names_within(
                shapes.slot_table(),
                id as int,
                fuel as nat,
            ).contains(s)),
        decreases fuel, 0int, 0int,
    {
        if fuel == 0 || id >= self.items.len() {
            return;
        }
        let own = self.items[id].entries.list_attributes(shapes);
        let ghost before = out@;
        let mut i: usize = 0;
        while i < own.len()
            invariant
                i <= own@.len(),
                own@ == shape_names(shapes.slot_table(), self.shape_of(id as int)),
                out@.no_duplicates(),
                forall|s: Symbol| #[trigger] out@.contains(s) <==> (before.contains(s) || in_prefix(own@, i as int, s)),
            decreases own@.len() - i,
        {
            add_symbol(out, own[i]);
            proof {
                assert forall|s: Symbol| #[trigger] out@.contains(s) <==> (before.contains(s) || in_prefix(own@, i + 1, s)) by {
                    if in_prefix(own@, i + 1, s) {
                        let j = choose|j: int| 0 <= j < i + 1 && #[trigger] own@[j] == s;
                        if j < i {
                            assert(in_prefix(own@, i as int, s));
                        }
                    }
                    if in_prefix(own@, i as int, s) {
                        let j = choose|j: int| 0 <= j < i && #[trigger] own@[j] == s;
                        assert(in_prefix(own@, i + 1, s));
                    }
                    if s == own@[i as int] {
                        assert(in_prefix(own@, i + 1, s));
                    }
                }
            }
            i += 1;
        }
        proof {
            assert forall|s: Symbol| in_prefix(own@, own@.len() as int, s) <==> own@.to_set().contains(s) by {
                if own@.to_set().contains(s) {
                    assert(own@.contains(s));
                    let j = choose|j: int| 0 <= j < own@.len() && own@[j] == s;
                    assert(in_prefix(own@, own@.len() as int, s));
                }
                if in_prefix(own@, own@.len() as int, s) {
                    let j = choose|j: int| 0 <= j < own@.len() && #[trigger] own@[j] == s;
                    assert(own@.contains(s));
                }
            }
        }
        let ms = &self.items[id].includer.mixins;
        self.add_names_list(shapes, ms, ms.len(), fuel - 1, out);
        proof {
            assert forall|s: Symbol| #[trigger] out@.contains(s) <==> (before.contains(s) || self.names_within(
                shapes.slot_table(),
                id as int,
                fuel as nat,
            ).contains(s)) by {
                assert(own@.contains(s) <==> own@.to_set().contains(s));
            }
        }
    }

    fn add_names_list(&self, shapes: &Shapes, ms: &Vec<usize>, k: usize, fuel: usize, out: &mut Vec<Symbol>)
        requires
            old(out)@.no_duplicates(),
        ensures
            final(out)@.no_duplicates(),
            forall|s: Symbol| #[trigger] final(out)@.contains(s) <==> (old(out)@.contains(s) || self.names_list(
                shapes.slot_table(),
                ms@,
                k as int,
                fuel as nat,
            ).contains(s)),
        decreases fuel, 1int, k,
    {
        if k == 0 || k > ms.len() {
            return;
        }
        self.add_names_exec(shapes, ms[k - 1], fuel, out);
        self.add_names_list(shapes, ms, k - 1, fuel, out);
    }
}

/// A list that holds mixin `b` among its first `k` items, at a depth left,
/// has an item that is or includes `b`.
proof fn lemma_any_isa_of_member<V>(table: &Mixins<V>, ms: Seq<usize>, k: int, b: usize, fuel: nat)
    requires
        fuel > 0,
        0 <= k <= ms.len(),
        exists|j: int| 0 <= j < k && ms[j] == b,
    ensures
        table.any_isa(ms, k, b, fuel),
    decreases k,
{
    if ms[k - 1] != b {
        let j = choose|j: int| 0 <= j < k && ms[j] == b;
        lemma_any_isa_of_member(table, ms, k - 1, b, fuel);
    } else {
        assert(table.isa_within(ms[k - 1] as int, b, fuel));
    }
}

/// A mixin is what it includes: once mixin `a` includes mixin `b`, `a` is a `b`.
pub proof fn lemma_included_is_a<V>(table: &Mixins<V>, a: usize, b: usize)
    requires
        a < table.len_spec(),
        b < table.len_spec(),
        table.includes(a as int).contains(b),
    ensures
        table.isa_within(a as int, b, table.len_spec()),
{
    if a != b {
        let ms = table.includes(a as int);
        let j = choose|j: int| 0 <= j < ms.len() && ms[j] == b;
        lemma_any_isa_of_member(table, ms, ms.len() as int, b, (table.len_spec() - 1) as nat);
    }
}

/// Every attribute that reading finds through mixin `id` is among the names
/// that listing its attributes gives.
pub proof fn lemma_found_is_listed<V>(table: &Mixins<V>, st: SlotTable, id: int, name: Symbol, fuel: nat)
    requires
        table.lookup_within(st, id, name, fuel) is Some,
    ensures
        table.names_within(st, id, fuel).contains(name),
    decreases fuel, 0int, 0int,
{
    if table.own_value(st, id, name) is Some {
        let names = shape_names(st, table.shape_of(id));
        let i = choose|i: int| 0 <= i < names.len() && names[i] == name;
        assert(names.contains(name));
    } else {
        let ms = table.includes(id);
        lemma_found_in_list_is_listed(table, st, ms, ms.len() as int, name, (fuel - 1) as nat);
    }
}

/// Every attribute that reading finds through the first `k` mixins of `ms` is
/// among the names that listing them gives.
pub proof fn lemma_found_in_list_is_listed<V>(table: &Mixins<V>, st: SlotTable, ms: Seq<usize>, k: int, name: Symbol, fuel: nat)
    requires
        table.lookup_list(st, ms, k, name, fuel) is Some,
    ensures
        table.names_list(st, ms, k, fuel).contains(name),
    decreases fuel, 1int, k,
{
    if table.lookup_within(st, ms[k - 1] as int, name, fuel) is Some {
        lemma_found_is_listed(table, st, ms[k - 1] as int, name, fuel);
    } else {
        lemma_found_in_list_is_listed(table, st, ms, k - 1, name, fuel);
    }
}

/// Whether each mixin of `after` includes what it included in `before`, and
/// possibly more after it.
pub open spec fn inclusions_grow<V>(before: &Mixins<V>, after: &Mixins<V>) -> bool {
    &&& after.len_spec() == before.len_spec()
    &&& forall|j: int| 0 <= j < before.len_spec() ==> #[trigger] before.includes(j).is_prefix_of(after.includes(j))
}

/// Including mixins takes nothing away: a mixin that was a `b` stays one.
pub proof fn lemma_isa_kept<V>(before: &Mixins<V>, after: &Mixins<V>, a: int, b: usize, fuel: nat)
    requires
        inclusions_grow(before, after),
        before.isa_within(a, b, fuel),
    ensures
        after.isa_within(a, b, fuel),
    decreases fuel, 0int, 0int,
{
    if a != b {
        let ms = before.includes(a);
        let ms2 = after.includes(a);
        assert(ms.is_prefix_of(ms2));
        lemma_any_isa_kept(before, after, ms, ms2, ms.len() as int, b, (fuel - 1) as nat);
        lemma_any_isa_longer(after, ms2, ms.len() as int, ms2.len() as int, b, (fuel - 1) as nat);
    }
}

/// `any_isa` over a prefix of a list stays true after inclusions grow.
proof fn lemma_any_isa_kept<V>(before: &Mixins<V>, after: &Mixins<V>, ms: Seq<usize>, ms2: Seq<usize>, k: int, b: usize, fuel: nat)
    requires
        inclusions_grow(before, after),
        ms.is_prefix_of(ms2),
        before.any_isa(ms, k, b, fuel),
    ensures
        after.any_isa(ms2, k, b, fuel),
    decreases fuel, 1int, k,
{
    assert(ms2[k - 1] == ms[k - 1]);
    if before.isa_within(ms[k - 1] as int, b, fuel) {
        lemma_isa_kept(before, after, ms[k - 1] as int, b, fuel);
    } else {
        lemma_any_isa_kept(before, after, ms, ms2, k - 1, b, fuel);
    }
}

/// `any_isa` over the first `k` items implies it over the first `k2 >= k`.
proof fn lemma_any_isa_longer<V>(table: &Mixins<V>, ms: Seq<usize>, k: int, k2: int, b: usize, fuel: nat)
    requires
        k <= k2 <= ms.len(),
        table.any_isa(ms, k, b, fuel),
    ensures
        table.any_isa(ms, k2, b, fuel),
    decreases k2 - k,
{
    if k < k2 {
        lemma_any_isa_longer(table, ms, k, k2 - 1, b, fuel);
    }
}

/// Whether mixin `x` includes mixin `y` itself.
pub open spec fn includes_directly<V>(table: &Mixins<V>, x: usize, y: usize) -> bool {
    x < table.len_spec() && table.includes(x as int).contains(y)
}

/// Whether `path` leads from its first mixin to its last, each mixin on it
/// including the next.
pub open spec fn is_chain<V>(table: &Mixins<V>, path: Seq<usize>) -> bool {
    &&& path.len() >= 1
    &&& forall|i: int, j: int| #![trigger path[i], path[j]] 0 <= i && j == i + 1 && j < path.len() ==> includes_directly(table, path[i], path[j])
}

/// A list one of whose first `k` items is a `b` at depth `fuel` has an item
/// that is or includes `b`.
proof fn lemma_any_isa_of_witness<V>(table: &Mixins<V>, ms: Seq<usize>, k: int, j: int, b: usize, fuel: nat)
    requires
        0 <= j < k <= ms.len(),
        table.isa_within(ms[j] as int, b, fuel),
    ensures
        table.any_isa(ms, k, b, fuel),
    decreases k,
{
    if j < k - 1 {
        lemma_any_isa_of_witness(table, ms, k - 1, j, b, fuel);
    }
}

/// A list whose first `k` items hold one that is a `b` names one such item.
proof fn lemma_witness_of_any_isa<V>(table: &Mixins<V>, ms: Seq<usize>, k: int, b: usize, fuel: nat) -> (j: int)
    requires
        table.any_isa(ms, k, b, fuel),
    ensures
        0 <= j < k <= ms.len(),
        table.isa_within(ms[j] as int, b, fuel),
    decreases k,
{
    if table.isa_within(ms[k - 1] as int, b, fuel) {
        k - 1
    } else {
        lemma_witness_of_any_isa(table, ms, k - 1, b, fuel)
    }
}

/// A mixin that is a `b` at depth `fuel` starts a chain to `b` of at most
/// `fuel` mixins.
proof fn lemma_chain_of_isa<V>(table: &Mixins<V>, a: usize, b: usize, fuel: nat) -> (path: Seq<usize>)
    requires
        table.isa_within(a as int, b, fuel),
    ensures
        is_chain(table, path),
        path[0] == a,
        path.last() == b,
        path.len() <= fuel,
    decreases fuel,
{
    if a == b {
        seq![a]
    } else {
        let ms = table.includes(a as int);
        let j = lemma_witness_of_any_isa(table, ms, ms.len() as int, b, (fuel - 1) as nat);
        let rest = lemma_chain_of_isa(table, ms[j], b, (fuel - 1) as nat);
        let path = seq![a] + rest;
        assert(ms.contains(ms[j]));
        assert forall|x: int, y: int| #![trigger path[x], path[y]] 0 <= x && y == x + 1 && y < path.len() implies includes_directly(
            table,
            path[x],
            path[y],
        ) by {
            if x == 0 {
                assert(path[y] == rest[0]);
            } else {
                assert(path[x] == rest[x - 1] && path[y] == rest[y - 1]);
            }
        }
        path
    }
}

/// A chain from `a` to `b` of at most `fuel` mixins makes `a` a `b` at depth `fuel`.
proof fn lemma_isa_of_chain<V>(table: &Mixins<V>, path: Seq<usize>, fuel: nat)
    requires
        is_chain(table, path),
        path.len() <= fuel,
    ensures
        table.isa_within(path[0] as int, path.last(), fuel),
    decreases path.len(),
{
    let a = path[0];
    let b = path.last();
    if path.len() > 1 && a != b {
        let rest = path.drop_first();
        assert forall|x: int, y: int| #![trigger rest[x], rest[y]] 0 <= x && y == x + 1 && y < rest.len() implies includes_directly(
            table,
            rest[x],
            rest[y],
        ) by {
            assert(rest[x] == path[x + 1] && rest[y] == path[y + 1]);
        }
        lemma_isa_of_chain(table, rest, (fuel - 1) as nat);
        assert(includes_directly(table, path[0], path[1]));
        let ms = table.includes(a as int);
        let j = choose|j: int| 0 <= j < ms.len() && ms[j] == path[1];
        assert(rest.last() == b);
        lemma_any_isa_of_witness(table, ms, ms.len() as int, j, b, (fuel - 1) as nat);
    }
}

/// A chain with no mixin on it twice that leads where `path` leads.
proof fn lemma_shortest_chain<V>(table: &Mixins<V>, path: Seq<usize>) -> (p: Seq<usize>)
    requires
        is_chain(table, path),
    ensures
        is_chain(table, p),
        p.no_duplicates(),
        p[0] == path[0],
        p.last() == path.last(),
        forall|i: int| 0 <= i < p.len() ==> path.contains(#[trigger] p[i]),
    decreases path.len(),
{
    if path.no_duplicates() {
        path
    } else {
        let (i0, j0) = choose|i: int, j: int| 0 <= i < path.len() && 0 <= j < path.len() && i != j && path[i] == path[j];
        let i = if i0 < j0 { i0 } else { j0 };
        let j = if i0 < j0 { j0 } else { i0 };
        let q = path.subrange(0, i) + path.subrange(j, path.len() as int);
        assert(q.len() == i + path.len() - j);
        assert forall|k: int| 0 <= k < q.len() implies #[trigger] q[k] == (if k < i { path[k] } else { path[k - i + j] }) by {}
        assert forall|x: int, y: int| #![trigger q[x], q[y]] 0 <= x && y == x + 1 && y < q.len() implies includes_directly(
            table,
            q[x],
            q[y],
        ) by {
            if y < i {
                assert(includes_directly(table, path[x], path[y]));
            } else if x >= i {
                assert(includes_directly(table, path[x - i + j], path[y - i + j]));
            } else {
                assert(x == i - 1 && path[y - i + j] == path[j]);
                assert(includes_directly(table, path[x], path[i]));
            }
        }
        assert(q[0] == path[0]);
        assert(q.last() == path.last());
        let p = lemma_shortest_chain(table, q);
        assert forall|k: int| 0 <= k < p.len() implies path.contains(#[trigger] p[k]) by {
            let m = choose|m: int| 0 <= m < q.len() && q[m] == p[k];
            if m < i {
                assert(path[m] == p[k]);
            } else {
                assert(path[m - i + j] == p[k]);
            }
        }
        p
    }
}

/// Distinct positions below `n` are at most `n`.
proof fn lemma_distinct_below(s: Seq<usize>, n: nat)
    requires
        s.no_duplicates(),
        forall|i: int| 0 <= i < s.len() ==> #[trigger] s[i] < n,
    ensures
        s.len() <= n,
{
    let f = |x: usize| x as int;
    assert(vstd::relations::injective(f));
    s.lemma_no_duplicates_injective(f);
    let si = s.map_values(f);
    si.unique_seq_to_set();
    vstd::set_lib::lemma_int_range(0, n as int);
    assert forall|v: int| si.to_set().contains(v) implies vstd::set_lib::set_int_range(0, n as int).contains(v) by {
        assert(si.contains(v));
        let k = choose|k: int| 0 <= k < si.len() && si[k] == v;
        assert(s[k] < n);
    }
    vstd::set_lib::lemma_len_subset(si.to_set(), vstd::set_lib::set_int_range(0, n as int));
}

/// A mixin is a `b` exactly when a chain of inclusions leads from it to `b`:
/// looking no deeper than the number of mixins misses no chain.
pub proof fn lemma_isa_iff_chain<V>(table: &Mixins<V>, a: usize, b: usize)
    requires
        a < table.len_spec(),
        b < table.len_spec(),
    ensures
        table.isa_within(a as int, b, table.len_spec()) <==> exists|path: Seq<usize>| #[trigger] is_chain(table, path)
            && path[0] == a && path.last() == b,
{
    let n = table.len_spec();
    if table.isa_within(a as int, b, n) {
        let path = lemma_chain_of_isa(table, a, b, n);
    }
    if exists|path: Seq<usize>| #[trigger] is_chain(table, path) && path[0] == a && path.last() == b {
        let path = choose|path: Seq<usize>| #[trigger] is_chain(table, path) && path[0] == a && path.last() == b;
        let p = lemma_shortest_chain(table, path);
        assert forall|i: int| 0 <= i < p.len() implies #[trigger] p[i] < n by {
            if i < p.len() - 1 {
                assert(includes_directly(table, p[i], p[i + 1]));
            }
        }
        lemma_distinct_below(p, n);
        lemma_isa_of_chain(table, p, n);
    }
}

/// Whether `s` stands among the first `i` items of `v`.
pub open spec fn in_prefix(v: Seq<Symbol>, i: int, s: Symbol) -> bool {
    exists|j: int| 0 <= j < i && #[trigger] v[j] == s
}

/// Appends `s` to `out` unless it is there already.
fn add_symbol(out: &mut Vec<Symbol>, s: Symbol)
    requires
        old(out)@.no_duplicates(),
    ensures
        final(out)@.no_duplicates(),
        forall|t: Symbol| #[trigger] final(out)@.contains(t) <==> (old(out)@.contains(t) || t == s),
{
    let mut i: usize = 0;
    while i < out.len()
        invariant
            i <= out@.len(),
            out@ == old(out)@,
            old(out)@.no_duplicates(),
            forall|j: int| 0 <= j < i ==> out@[j] != s,
        decreases out@.len() - i,
    {
        if out[i] == s {
            proof {
                assert forall|t: Symbol| #[trigger] out@.contains(t) <==> (old(out)@.contains(t) || t == s) by {
                    if t == s {
                        assert(out@[i as int] == t);
                    }
                }
            }
            return;
        }
        i += 1;
    }
    let ghost prev = out@;
    out.push(s);
    proof {
        assert forall|t: Symbol| #[trigger] out@.contains(t) <==> (prev.contains(t) || t == s) by {
            if prev.contains(t) {
                let j = choose|j: int| 0 <= j < prev.len() && prev[j] == t;
                assert(out@[j] == t);
            }
            if t == s {
                assert(out@[prev.len() as int] == t);
            }
            if out@.contains(t) {
                let j = choose|j: int| 0 <= j < out@.len() && out@[j] == t;
                if j < prev.len() {
                    assert(prev[j] == t);
                }
            }
        }
    }
}

} // verus!
