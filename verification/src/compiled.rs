//! Compiled modules: constants and compiled code objects.
use crate::symbol::{resolve_spec, Interner, Symbol};
use crate::dump::StringResolver;
use crate::text::{int_decimal, push_int_decimal, push_text};
use vstd::prelude::*;

verus! {

/// Where in the source the instructions of a body come from: each entry
/// pairs an instruction's position in the body with the text of its source
/// location.
pub struct LineTable {
    pub entries: Vec<(u16, String)>,
}

/// The source location that `entries[i..]` give for instruction `idx`: the
/// first entry for it.
pub open spec fn line_entry_from(entries: Seq<(u16, String)>, i: int, idx: u16) -> Option<Seq<char>>
    decreases entries.len() - i,
{
    if i < 0 || i >= entries.len() {
        None
    } else if entries[i].0 == idx {
        Some(entries[i].1@)
    } else {
        line_entry_from(entries, i + 1, idx)
    }
}

/// The source location that `entries` give for instruction `idx`.
pub open spec fn line_entry(entries: Seq<(u16, String)>, idx: u16) -> Option<Seq<char>> {
    line_entry_from(entries, 0, idx)
}

/// The text views of the entries of a line table.
pub open spec fn line_entries_view(entries: Seq<(u16, String)>) -> Seq<(u16, Seq<char>)> {
    entries.map_values(|e: (u16, String)| (e.0, e.1@))
}

impl LineTable {
    /// A table without entries.
    pub fn new() -> (r: LineTable)
        ensures
            r.entries@ == Seq::<(u16, String)>::empty(),
    {
        LineTable { entries: Vec::new() }
    }

    /// The source location of instruction `idx`, if the table has one.
    pub fn get(&self, idx: u16) -> (r: Option<&str>)
        ensures
            r is Some <==> line_entry(self.entries@, idx) is Some,
            r matches Some(t) ==> line_entry(self.entries@, idx) == Some(t@),
    {
        let mut i: usize = 0;
        while i < self.entries.len()
            invariant
                i <= self.entries@.len(),
                line_entry_from(self.entries@, 0, idx) == line_entry_from(self.entries@, i as int, idx),
            decreases self.entries@.len() - i,
        {
            if self.entries[i].0 == idx {
                return Some(self.entries[i].1.as_str());
            }
            i += 1;
        }
        None
    }

    /// A table with the same entries.
    pub fn duplicate(&self) -> (r: LineTable)
        ensures
            line_entries_view(r.entries@) == line_entries_view(self.entries@),
    {
        let mut out: Vec<(u16, String)> = Vec::new();
        let mut i: usize = 0;
        while i < self.entries.len()
            invariant
                i <= self.entries@.len(),
                out@.len() == i,
                line_entries_view(out@) == line_entries_view(self.entries@.subrange(0, i as int)),
            decreases self.entries@.len() - i,
        {
            let text = self.entries[i].1.clone();
            let ghost before = out@;
            out.push((self.entries[i].0, text));
            proof {
                let a = line_entries_view(out@);
                let b = line_entries_view(self.entries@.subrange(0, i + 1));
                assert(a.len() == b.len());
                assert forall|j: int| 0 <= j < a.len() implies a[j] == b[j] by {
                    if j < i {
                        assert(a[j] == line_entries_view(before)[j]);
                        assert(line_entries_view(before)[j] == line_entries_view(self.entries@.subrange(0, i as int))[j]);
                    }
                }
                assert(a =~= b);
            }
            i += 1;
        }
        proof {
            assert(self.entries@.subrange(0, self.entries@.len() as int) =~= self.entries@);
        }
        LineTable { entries: out }
    }
}

/// A compiled function body.
pub struct CompiledCodeObject {
    pub name: String,
    pub body: Vec<u8>,
    pub required_argc: u8,
    pub default_argc: u8,
    pub frame_size: u8,
    pub line_table: LineTable,
}

/// A constant of a compiled module.
pub enum ConstantValue {
    Integer(i64),
    String(String),
    CompiledCodeObject(CompiledCodeObject),
}

/// The constants of a compiled module, by index.
pub struct ConstantValues {
    pub values: Vec<ConstantValue>,
}

/// A compiled module.
pub struct CompiledModule {
    pub constants: ConstantValues,
}

/// The text of string constant `idx` among `values`.
pub open spec fn string_constant(values: Seq<ConstantValue>, idx: u16) -> Option<Seq<char>> {
    if (idx as int) < values.len() {
        match values[idx as int] {
            ConstantValue::String(s) => Some(s@),
            _ => None,
        }
    } else {
        None
    }
}

/// The text that a listing shows for a constant: an integer in decimal, a
/// string as it is, a compiled code object by its name.
pub open spec fn constant_display(c: ConstantValue) -> Seq<char> {
    match c {
        ConstantValue::Integer(n) => int_decimal(n as int),
        ConstantValue::String(s) => s@,
        ConstantValue::CompiledCodeObject(co) => co.name@,
    }
}

/// The text of constant `idx` among `values`, if there is one.
pub open spec fn constant_display_at(values: Seq<ConstantValue>, idx: u16) -> Option<Seq<char>> {
    if (idx as int) < values.len() {
        Some(constant_display(values[idx as int]))
    } else {
        None
    }
}

impl CompiledModule {
    /// The constant at index `idx`, if any.
    pub fn load_indexed_const(&self, idx: u16) -> (r: Option<&ConstantValue>)
        ensures
            (idx as int) < self.constants.values@.len() <==> r is Some,
            r matches Some(c) ==> *c == self.constants.values@[idx as int],
    {
        let i = idx as usize;
        if i < self.constants.values.len() {
            Some(&self.constants.values[i])
        } else {
            None
        }
    }
}

impl StringResolver for CompiledModule {
    open spec fn constant_view(&self, idx: u16) -> Option<Seq<char>> {
        string_constant(self.constants.values@, idx)
    }

    open spec fn symbol_view(&self, idx: u32) -> Option<Seq<char>> {
        None
    }

    open spec fn const_text_view(&self, idx: u16) -> Option<Seq<char>> {
        constant_display_at(self.constants.values@, idx)
    }

    fn push_constant_text(&self, buffer: &mut String, idx: u16) -> (r: bool) {
        let i = idx as usize;
        if i < self.constants.values.len() {
            match &self.constants.values[i] {
                ConstantValue::Integer(n) => push_int_decimal(buffer, *n),
                ConstantValue::String(s) => push_text(buffer, s.as_str()),
                ConstantValue::CompiledCodeObject(co) => push_text(buffer, co.name.as_str()),
            }
            true
        } else {
            false
        }
    }

    fn resolve_compile_time_constant(&self, idx: u16) -> (r: Option<&str>) {
        let i = idx as usize;
        if i < self.constants.values.len() {
            match &self.constants.values[i] {
                ConstantValue::String(s) => Some(s.as_str()),
                _ => None,
            }
        } else {
            None
        }
    }

    fn resolve_run_time_symbol(&self, idx: u32) -> (r: Option<&str>) {
        None
    }
}

/// Resolves names while printing instructions that the virtual machine has
/// loaded: constants come from the module, symbols from the interner.
pub struct RuntimeOpcodePrinter<'a> {
    pub globals: Option<&'a Interner>,
    pub module: Option<&'a CompiledModule>,
}

impl<'a> StringResolver for RuntimeOpcodePrinter<'a> {
    open spec fn constant_view(&self, idx: u16) -> Option<Seq<char>> {
        match self.module {
            Some(m) => string_constant(m.constants.values@, idx),
            None => None,
        }
    }

    open spec fn const_text_view(&self, idx: u16) -> Option<Seq<char>> {
        match self.module {
            Some(m) => constant_display_at(m.constants.values@, idx),
            None => None,
        }
    }

    fn push_constant_text(&self, buffer: &mut String, idx: u16) -> (r: bool) {
        match self.module {
            Some(m) => m.push_constant_text(buffer, idx),
            None => false,
        }
    }

    open spec fn symbol_view(&self, idx: u32) -> Option<Seq<char>> {
        match self.globals {
            Some(g) => resolve_spec(g.names(), Symbol(idx)),
            None => None,
        }
    }

    fn resolve_compile_time_constant(&self, idx: u16) -> (r: Option<&str>) {
        match self.module {
            Some(m) => m.resolve_compile_time_constant(idx),
            None => None,
        }
    }

    fn resolve_run_time_symbol(&self, idx: u32) -> (r: Option<&str>) {
        match self.globals {
            Some(g) => g.resolve(Symbol(idx)),
            None => None,
        }
    }
}

} // verus!
