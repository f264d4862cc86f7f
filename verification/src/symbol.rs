//! Interning of attribute and identifier names as numbered symbols.
use vstd::prelude::*;

verus! {

/// An interned name: its number is its position in the interner.
#[derive(Clone, Copy, Debug, PartialEq, Eq, Structural, Hash)]
pub struct Symbol(pub u32);

/// Errors raised by interning.
#[derive(Clone, Copy, Debug, PartialEq, Eq, Structural)]
pub enum InternError {
    TooManySymbols,
}

/// The largest number of names an interner holds.
pub const MAX_SYMBOLS: usize = 4294967295;

/// Whether no name occurs twice in `names`.
pub open spec fn distinct_names(names: Seq<Seq<char>>) -> bool {
    forall|i: int, j: int| 0 <= i < names.len() && 0 <= j < names.len() && i != j ==> names[i] != names[j]
}

/// The interned names that an interner may hold.
pub open spec fn valid_names(names: Seq<Seq<char>>) -> bool {
    distinct_names(names) && names.len() <= MAX_SYMBOLS
}

/// The symbol of `s` among `names`, if it is interned.
pub open spec fn symbol_of(names: Seq<Seq<char>>, s: Seq<char>) -> Option<Symbol> {
    if exists|i: int| 0 <= i < names.len() && names[i] == s {
        Some(Symbol((choose|i: int| 0 <= i < names.len() && names[i] == s) as u32))
    } else {
        None
    }
}

/// The names and the outcome after interning `s`: an interned name keeps its
/// symbol; a new name gets the next number, unless the numbers are used up.
pub open spec fn intern_spec(names: Seq<Seq<char>>, s: Seq<char>) -> (Seq<Seq<char>>, Result<Symbol, InternError>) {
    match symbol_of(names, s) {
        Some(sym) => (names, Ok(sym)),
        None => if names.len() >= MAX_SYMBOLS {
            (names, Err(InternError::TooManySymbols))
        } else {
            (names.push(s), Ok(Symbol(names.len() as u32)))
        },
    }
}

/// The name that `sym` stands for among `names`.
pub open spec fn resolve_spec(names: Seq<Seq<char>>, sym: Symbol) -> Option<Seq<char>> {
    if sym.0 < names.len() {
        Some(names[sym.0 as int])
    } else {
        None
    }
}

/// In distinct names, the symbol of a name is its position.
pub proof fn lemma_symbol_of_at(names: Seq<Seq<char>>, s: Seq<char>, i: int)
    requires
        distinct_names(names),
        names.len() <= MAX_SYMBOLS,
        0 <= i < names.len(),
        names[i] == s,
    ensures
        symbol_of(names, s) == Some(Symbol(i as u32)),
{
    let c = choose|k: int| 0 <= k < names.len() && names[k] == s;
    assert(0 <= c < names.len() && names[c] == s);
    assert(c == i);
}

/// A table of interned names.
pub struct Interner {
    strings: Vec<String>,
}

impl Interner {
    /// The interned names, in the order of their symbols.
    pub closed spec fn names(&self) -> Seq<Seq<char>> {
        self.strings@.map_values(|s: String| s@)
    }

    #[verifier::type_invariant]
    closed spec fn inv(&self) -> bool {
        valid_names(self.names())
    }

    /// An interner that holds no name.
    pub fn new_empty() -> (r: Interner)
        ensures
            r.names() == Seq::<Seq<char>>::empty(),
    {
        let r = Interner { strings: Vec::new() };
        assert(r.names() =~= Seq::<Seq<char>>::empty());
        r
    }

    /// The symbol of `s`, interning it first when it is new.
    pub fn intern(&mut self, s: &str) -> (r: Result<Symbol, InternError>)
        ensures
            (final(self).names(), r) == intern_spec(old(self).names(), s@),
            valid_names(old(self).names()),
    {
        proof {
            use_type_invariant(&*self);
        }
        match self.lookup(s) {
            Some(sym) => {
                return Ok(sym);
            },
            None => {},
        }
        let id = self.strings.len();
        if id >= MAX_SYMBOLS {
            return Err(InternError::TooManySymbols);
        }
        let owned = s.to_owned();
        proof {
            let names = self.names();
            assert forall|i: int| 0 <= i < names.len() implies names[i] != s@ by {
                if names[i] == s@ {
                    assert(exists|k: int| 0 <= k < names.len() && names[k] == s@);
                }
            }
            assert(self.strings@.push(owned).map_values(|x: String| x@) =~= names.push(s@));
            assert(Seq::<String>::empty().map_values(|x: String| x@) =~= Seq::<Seq<char>>::empty());
        }
        let mut strings: Vec<String> = Vec::new();
        std::mem::swap(&mut strings, &mut self.strings);
        strings.push(owned);
        self.strings = strings;
        Ok(Symbol(id as u32))
    }

    /// The symbol of `s`, if it is interned.
    pub fn lookup(&self, s: &str) -> (r: Option<Symbol>)
        ensures
            r == symbol_of(self.names(), s@),
            valid_names(self.names()),
    {
        proof {
            use_type_invariant(self);
        }
        let owned = s.to_owned();
        let mut i: usize = 0;
        while i < self.strings.len()
            invariant
                i <= self.strings@.len(),
                owned@ == s@,
                valid_names(self.names()),
                self.names().len() == self.strings@.len(),
                forall|k: int| 0 <= k < i ==> self.names()[k] != s@,
            decreases self.strings@.len() - i,
        {
            if self.strings[i] == owned {
                proof {
                    assert(self.names()[i as int] == self.strings@[i as int]@);
                    lemma_symbol_of_at(self.names(), s@, i as int);
                }
                return Some(Symbol(i as u32));
            }
            proof {
                assert(self.names()[i as int] == self.strings@[i as int]@);
            }
            i += 1;
        }
        proof {
            if exists|k: int| 0 <= k < self.names().len() && self.names()[k] == s@ {
                let k = choose|k: int| 0 <= k < self.names().len() && self.names()[k] == s@;
                assert(self.names()[k] != s@);
            }
        }
        None
    }

    /// The name that `sym` stands for, if any.
    pub fn resolve(&self, sym: Symbol) -> (r: Option<&str>)
        ensures
            r is Some <==> resolve_spec(self.names(), sym) is Some,
            r matches Some(x) ==> resolve_spec(self.names(), sym) == Some(x@),
    {
        let i = sym.0 as usize;
        if i < self.strings.len() {
            Some(self.strings[i].as_str())
        } else {
            None
        }
    }

    /// The number of interned names.
    pub fn len(&self) -> (r: usize)
        ensures
            r == self.names().len(),
    {
        self.strings.len()
    }
}

/// After interning succeeds, the symbol resolves to the interned name.
pub proof fn lemma_intern_then_resolve(names: Seq<Seq<char>>, s: Seq<char>)
    requires
        valid_names(names),
    ensures
        intern_spec(names, s).1 matches Ok(sym) ==> resolve_spec(intern_spec(names, s).0, sym) == Some(s),
{
    if let Some(sym) = symbol_of(names, s) {
        let c = choose|i: int| 0 <= i < names.len() && names[i] == s;
        assert(0 <= c < names.len() && names[c] == s);
    }
}

/// After interning succeeds, looking the name up gives the same symbol.
pub proof fn lemma_intern_then_lookup(names: Seq<Seq<char>>, s: Seq<char>)
    requires
        valid_names(names),
    ensures
        intern_spec(names, s).1 matches Ok(sym) ==> symbol_of(intern_spec(names, s).0, s) == Some(sym),
        valid_names(intern_spec(names, s).0),
{
    match symbol_of(names, s) {
        Some(sym) => {},
        None => {
            if names.len() < MAX_SYMBOLS {
                let n = names.push(s);
                assert forall|i: int| 0 <= i < names.len() implies names[i] != s by {
                    if names[i] == s {
                        assert(exists|k: int| 0 <= k < names.len() && names[k] == s);
                    }
                }
                assert(distinct_names(n));
                lemma_symbol_of_at(n, s, names.len() as int);
            }
        },
    }
}

/// Interning a name a second time changes nothing and gives the same outcome.
pub proof fn lemma_intern_idempotent(names: Seq<Seq<char>>, s: Seq<char>)
    requires
        valid_names(names),
    ensures
        intern_spec(names, s).1 is Ok ==> intern_spec(intern_spec(names, s).0, s) == intern_spec(names, s),
{
    lemma_intern_then_lookup(names, s);
}

/// Interning never changes what an existing symbol stands for.
pub proof fn lemma_intern_preserves_symbols(names: Seq<Seq<char>>, s: Seq<char>, sym: Symbol)
    requires
        valid_names(names),
        resolve_spec(names, sym) is Some,
    ensures
        resolve_spec(intern_spec(names, s).0, sym) == resolve_spec(names, sym),
{
}

/// Distinct names get distinct symbols.
pub proof fn lemma_distinct_names_distinct_symbols(names: Seq<Seq<char>>, s: Seq<char>, t: Seq<char>)
    requires
        valid_names(names),
        s != t,
        symbol_of(names, s) is Some,
        symbol_of(names, t) is Some,
    ensures
        symbol_of(names, s) != symbol_of(names, t),
{
    let a = choose|i: int| 0 <= i < names.len() && names[i] == s;
    let b = choose|i: int| 0 <= i < names.len() && names[i] == t;
    assert(0 <= a < names.len() && names[a] == s);
    assert(0 <= b < names.len() && names[b] == t);
}

/// The symbol numbers that every interner starts with, one per builtin name.
pub const INTERNED_OP_IMPL_CALL: u32 = 0;
pub const INTERNED_OP_IMPL_EQUALS: u32 = 1;
pub const INTERNED_OP_IMPL_READ_INDEX: u32 = 2;
pub const INTERNED_OP_IMPL_WRITE_INDEX: u32 = 3;
pub const INTERNED_OP_IMPL_ADD: u32 = 4;
pub const INTERNED_OP_IMPL_RADD: u32 = 5;
pub const INTERNED_OP_IMPL_SUB: u32 = 6;
pub const INTERNED_OP_IMPL_RSUB: u32 = 7;
pub const INTERNED_OP_IMPL_MUL: u32 = 8;
pub const INTERNED_OP_IMPL_RMUL: u32 = 9;
pub const INTERNED_OP_IMPL_DIV: u32 = 10;
pub const INTERNED_OP_IMPL_RDIV: u32 = 11;
pub const INTERNED_OP_IMPL_REM: u32 = 12;
pub const INTERNED_OP_IMPL_RREM: u32 = 13;
pub const INTERNED_OP_IMPL_LSHIFT: u32 = 14;
pub const INTERNED_OP_IMPL_RLSHIFT: u32 = 15;
pub const INTERNED_OP_IMPL_RSHIFT: u32 = 16;
pub const INTERNED_OP_IMPL_RRSHIFT: u32 = 17;
pub const INTERNED_OP_IMPL_BWAND: u32 = 18;
pub const INTERNED_OP_IMPL_RBWAND: u32 = 19;
pub const INTERNED_OP_IMPL_BWOR: u32 = 20;
pub const INTERNED_OP_IMPL_RBWOR: u32 = 21;
pub const INTERNED_OP_IMPL_XOR: u32 = 22;
pub const INTERNED_OP_IMPL_RXOR: u32 = 23;
pub const INTERNED_OP_IMPL_LT: u32 = 24;
pub const INTERNED_OP_IMPL_GT: u32 = 25;
pub const INTERNED_OP_IMPL_LTEQ: u32 = 26;
pub const INTERNED_OP_IMPL_GTEQ: u32 = 27;
pub const INTERNED_OP_IMPL_NEG: u32 = 28;
pub const INTERNED_OP_PRETTYPRINT: u32 = 29;
pub const INTERNED_ATTR_BACKTRACE: u32 = 30;
pub const INTERNED_ATTR_IMPL: u32 = 31;
pub const INTERNED_ATTR_NEXT: u32 = 32;
pub const INTERNED_ATTR_MSG: u32 = 33;
pub const INTERNED_ATTR_ARGC_MISMATCH: u32 = 34;
pub const INTERNED_ATTR_STDOUT: u32 = 35;
pub const INTERNED_ATTR_STDERR: u32 = 36;
pub const INTERNED_ATTR_EXPECTED: u32 = 37;
pub const INTERNED_ATTR_ACTUAL: u32 = 38;
pub const INTERNED_CASE_VARARGS: u32 = 39;
pub const INTERNED_CASE_BOUNDED: u32 = 40;

/// The names that a new interner holds, in symbol order: the operator hooks,
/// the builtin attributes and the builtin enum cases.
pub open spec fn builtin_symbol_names() -> Seq<Seq<char>> {
    seq![
        "_op_impl_call"@,
        "_op_impl_equals"@,
        "_op_impl_read_index"@,
        "_op_impl_write_index"@,
        "_op_impl_add"@,
        "_op_impl_radd"@,
        "_op_impl_sub"@,
        "_op_impl_rsub"@,
        "_op_impl_mul"@,
        "_op_impl_rmul"@,
        "_op_impl_div"@,
        "_op_impl_rdiv"@,
        "_op_impl_rem"@,
        "_op_impl_rrem"@,
        "_op_impl_lshift"@,
        "_op_impl_rlshift"@,
        "_op_impl_rshift"@,
        "_op_impl_rrshift"@,
        "_op_impl_bwand"@,
        "_op_impl_rbwand"@,
        "_op_impl_bwor"@,
        "_op_impl_rbwor"@,
        "_op_impl_xor"@,
        "_op_impl_rxor"@,
        "_op_impl_lt"@,
        "_op_impl_gt"@,
        "_op_impl_lteq"@,
        "_op_impl_gteq"@,
        "_op_impl_neg"@,
        "prettyprint"@,
        "backtrace"@,
        "__impl"@,
        "next"@,
        "msg"@,
        "ArgcMismatch"@,
        "stdout"@,
        "stderr"@,
        "expected"@,
        "actual"@,
        "Varargs"@,
        "Bounded"@,
    ]
}

/// The number of builtin names.
pub const BUILTIN_SYMBOL_COUNT: usize = 41;

proof fn lemma_builtin_names_distinct()
    ensures
        distinct_names(builtin_symbol_names()),
        builtin_symbol_names().len() == BUILTIN_SYMBOL_COUNT,
{
    reveal_strlit("_op_impl_call");
    reveal_strlit("_op_impl_equals");
    reveal_strlit("_op_impl_read_index");
    reveal_strlit("_op_impl_write_index");
    reveal_strlit("_op_impl_add");
    reveal_strlit("_op_impl_radd");
    reveal_strlit("_op_impl_sub");
    reveal_strlit("_op_impl_rsub");
    reveal_strlit("_op_impl_mul");
    reveal_strlit("_op_impl_rmul");
    reveal_strlit("_op_impl_div");
    reveal_strlit("_op_impl_rdiv");
    reveal_strlit("_op_impl_rem");
    reveal_strlit("_op_impl_rrem");
    reveal_strlit("_op_impl_lshift");
    reveal_strlit("_op_impl_rlshift");
    reveal_strlit("_op_impl_rshift");
    reveal_strlit("_op_impl_rrshift");
    reveal_strlit("_op_impl_bwand");
    reveal_strlit("_op_impl_rbwand");
    reveal_strlit("_op_impl_bwor");
    reveal_strlit("_op_impl_rbwor");
    reveal_strlit("_op_impl_xor");
    reveal_strlit("_op_impl_rxor");
    reveal_strlit("_op_impl_lt");
    reveal_strlit("_op_impl_gt");
    reveal_strlit("_op_impl_lteq");
    reveal_strlit("_op_impl_gteq");
    reveal_strlit("_op_impl_neg");
    reveal_strlit("prettyprint");
    reveal_strlit("backtrace");
    reveal_strlit("__impl");
    reveal_strlit("next");
    reveal_strlit("msg");
    reveal_strlit("ArgcMismatch");
    reveal_strlit("stdout");
    reveal_strlit("stderr");
    reveal_strlit("expected");
    reveal_strlit("actual");
    reveal_strlit("Varargs");
    reveal_strlit("Bounded");
    let s = builtin_symbol_names();
    assert forall|i: int, j: int| 0 <= i < s.len() && 0 <= j < s.len() && i != j implies s[i] != s[j] by {
        assert(s[i].len() != s[j].len() || s[i][3] != s[j][3] || s[i][9] != s[j][9] || s[i][10] != s[j][10]);
    }
}

fn builtin_symbol_name(i: usize) -> (r: &'static str)
    requires
        i < BUILTIN_SYMBOL_COUNT,
    ensures
        r@ == builtin_symbol_names()[i as int],
{
    if i == 0 {
        "_op_impl_call"
    } else if i == 1 {
        "_op_impl_equals"
    } else if i == 2 {
        "_op_impl_read_index"
    } else if i == 3 {
        "_op_impl_write_index"
    } else if i == 4 {
        "_op_impl_add"
    } else if i == 5 {
        "_op_impl_radd"
    } else if i == 6 {
        "_op_impl_sub"
    } else if i == 7 {
        "_op_impl_rsub"
    } else if i == 8 {
        "_op_impl_mul"
    } else if i == 9 {
        "_op_impl_rmul"
    } else if i == 10 {
        "_op_impl_div"
    } else if i == 11 {
        "_op_impl_rdiv"
    } else if i == 12 {
        "_op_impl_rem"
    } else if i == 13 {
        "_op_impl_rrem"
    } else if i == 14 {
        "_op_impl_lshift"
    } else if i == 15 {
        "_op_impl_rlshift"
    } else if i == 16 {
        "_op_impl_rshift"
    } else if i == 17 {
        "_op_impl_rrshift"
    } else if i == 18 {
        "_op_impl_bwand"
    } else if i == 19 {
        "_op_impl_rbwand"
    } else if i == 20 {
        "_op_impl_bwor"
    } else if i == 21 {
        "_op_impl_rbwor"
    } else if i == 22 {
        "_op_impl_xor"
    } else if i == 23 {
        "_op_impl_rxor"
    } else if i == 24 {
        "_op_impl_lt"
    } else if i == 25 {
        "_op_impl_gt"
    } else if i == 26 {
        "_op_impl_lteq"
    } else if i == 27 {
        "_op_impl_gteq"
    } else if i == 28 {
        "_op_impl_neg"
    } else if i == 29 {
        "prettyprint"
    } else if i == 30 {
        "backtrace"
    } else if i == 31 {
        "__impl"
    } else if i == 32 {
        "next"
    } else if i == 33 {
        "msg"
    } else if i == 34 {
        "ArgcMismatch"
    } else if i == 35 {
        "stdout"
    } else if i == 36 {
        "stderr"
    } else if i == 37 {
        "expected"
    } else if i == 38 {
        "actual"
    } else if i == 39 {
        "Varargs"
    } else {
        "Bounded"
    }
}

impl Default for Interner {
    /// An interner holding the builtin names, each at its fixed symbol.
    fn default() -> (r: Self)
        ensures
            r.names() == builtin_symbol_names(),
    {
        let mut this = Interner::new_empty();
        proof {
            lemma_builtin_names_distinct();
        }
        let mut i: usize = 0;
        while i < BUILTIN_SYMBOL_COUNT
            invariant
                i <= BUILTIN_SYMBOL_COUNT,
                this.names() == builtin_symbol_names().subrange(0, i as int),
                distinct_names(builtin_symbol_names()),
                builtin_symbol_names().len() == BUILTIN_SYMBOL_COUNT,
            decreases BUILTIN_SYMBOL_COUNT - i,
        {
            let name = builtin_symbol_name(i);
            proof {
                let names = this.names();
                if exists|k: int| 0 <= k < names.len() && names[k] == name@ {
                    let k = choose|k: int| 0 <= k < names.len() && names[k] == name@;
                    assert(builtin_symbol_names()[k] == builtin_symbol_names()[i as int]);
                }
            }
            let _ = this.intern(name);
            proof {
                assert(this.names() =~= builtin_symbol_names().subrange(0, i + 1));
            }
            i += 1;
        }
        proof {
            assert(builtin_symbol_names().subrange(0, BUILTIN_SYMBOL_COUNT as int) =~= builtin_symbol_names());
        }
        this
    }
}

} // verus!
