//! The methods of the `String` builtin type.
use crate::errors::VmErrorReason;
use crate::text::{push_char, push_text};
use vstd::utf8::{decode_utf8, encode_utf8, valid_utf8};
use vstd::prelude::*;

verus! {

/// Whether `t` occurs in `s` starting at position `i`.
pub open spec fn occurs_at(s: Seq<char>, t: Seq<char>, i: int) -> bool {
    0 <= i && i + t.len() <= s.len() && s.subrange(i, i + t.len()) == t
}

/// Whether `s` starts with `t`.
pub open spec fn has_prefix_spec(s: Seq<char>, t: Seq<char>) -> bool {
    occurs_at(s, t, 0)
}

/// Whether `s` ends with `t`.
pub open spec fn has_suffix_spec(s: Seq<char>, t: Seq<char>) -> bool {
    occurs_at(s, t, s.len() - t.len())
}

/// Whether `t` occurs anywhere in `s`.
pub open spec fn contains_spec(s: Seq<char>, t: Seq<char>) -> bool {
    exists|i: int| occurs_at(s, t, i)
}

/// The characters of a string, in order.
pub fn chars_of(s: &str) -> (r: Vec<char>)
    ensures
        r@ == s@,
{
    let n = s.unicode_len();
    let mut r: Vec<char> = Vec::with_capacity(n);
    let mut i: usize = 0;
    while i < n
        invariant
            n == s@.len(),
            i <= n,
            r@ == s@.subrange(0, i as int),
        decreases n - i,
    {
        let c = s.get_char(i);
        r.push(c);
        proof {
            assert(s@.subrange(0, i as int + 1) =~= s@.subrange(0, i as int).push(c));
        }
        i += 1;
    }
    proof {
        assert(s@.subrange(0, n as int) =~= s@);
    }
    r
}

/// A string holding the characters `cs`.
pub fn string_from_chars(cs: &[char]) -> (r: String)
    ensures
        r@ == cs@,
{
    let mut r = String::new();
    let mut i: usize = 0;
    while i < cs.len()
        invariant
            i <= cs@.len(),
            r@ == cs@.subrange(0, i as int),
        decreases cs@.len() - i,
    {
        push_char(&mut r, cs[i]);
        proof {
            assert(cs@.subrange(0, i as int + 1) =~= cs@.subrange(0, i as int).push(cs@[i as int]));
        }
        i += 1;
    }
    proof {
        assert(cs@.subrange(0, cs@.len() as int) =~= cs@);
    }
    r
}

/// Whether `t` occurs in `s` at position `i`, checked character by character.
fn occurs_at_exec(s: &[char], t: &[char], i: usize) -> (r: bool)
    ensures
        r == occurs_at(s@, t@, i as int),
{
    if i > s.len() || t.len() > s.len() - i {
        return false;
    }
    let mut k: usize = 0;
    while k < t.len()
        invariant
            k <= t@.len(),
            i + t@.len() <= s@.len(),
            s@.len() <= usize::MAX,
            forall|j: int| 0 <= j < k ==> s@[i + j] == t@[j],
        decreases t@.len() - k,
    {
        if s[i + k] != t[k] {
            proof {
                assert(s@.subrange(i as int, i + t@.len())[k as int] != t@[k as int]);
            }
            return false;
        }
        k += 1;
    }
    proof {
        assert(s@.subrange(i as int, i + t@.len()) =~= t@);
    }
    true
}

/// Whether `this` starts with `prefix`.
pub fn has_prefix(this: &str, prefix: &str) -> (r: bool)
    ensures
        r == has_prefix_spec(this@, prefix@),
{
    let s = chars_of(this);
    let t = chars_of(prefix);
    occurs_at_exec(s.as_slice(), t.as_slice(), 0)
}

/// Whether `this` ends with `suffix`.
pub fn has_suffix(this: &str, suffix: &str) -> (r: bool)
    ensures
        r == has_suffix_spec(this@, suffix@),
{
    let s = chars_of(this);
    let t = chars_of(suffix);
    if t.len() > s.len() {
        return false;
    }
    occurs_at_exec(s.as_slice(), t.as_slice(), s.len() - t.len())
}

/// The first position at or after `start` where `t` occurs in `s`.
fn find_from(s: &[char], t: &[char], start: usize) -> (r: Option<usize>)
    requires
        start <= s@.len(),
    ensures
        r matches Some(i) ==> start <= i && occurs_at(s@, t@, i as int) && forall|j: int| start <= j < i ==> !occurs_at(s@, t@, j),
        r is None ==> forall|j: int| start <= j ==> !occurs_at(s@, t@, j),
{
    if t.len() > s.len() {
        return None;
    }
    let last = s.len() - t.len();
    if start > last {
        return None;
    }
    let mut i = start;
    loop
        invariant
            start <= i <= last,
            last == s@.len() - t@.len(),
            forall|j: int| start <= j < i ==> !occurs_at(s@, t@, j),
        decreases last - i,
    {
        if occurs_at_exec(s, t, i) {
            return Some(i);
        }
        if i == last {
            return None;
        }
        i += 1;
    }
}

/// Whether `this` contains `that`.
pub fn contains(this: &str, that: &str) -> (r: bool)
    ensures
        r == contains_spec(this@, that@),
{
    let s = chars_of(this);
    let t = chars_of(that);
    match find_from(s.as_slice(), t.as_slice(), 0) {
        Some(i) => true,
        None => {
            proof {
                if exists|i: int| occurs_at(s@, t@, i) {
                    let i = choose|i: int| occurs_at(s@, t@, i);
                    assert(!occurs_at(s@, t@, i));
                }
            }
            false
        },
    }
}

/// The first position at which `t` occurs in `s`.
pub open spec fn first_occurrence(s: Seq<char>, t: Seq<char>) -> Option<int> {
    if exists|i: int| occurs_at(s, t, i) && forall|j: int| 0 <= j < i ==> !occurs_at(s, t, j) {
        Some(choose|i: int| occurs_at(s, t, i) && forall|j: int| 0 <= j < i ==> !occurs_at(s, t, j))
    } else {
        None
    }
}

/// Each character of `s` as a one-character string.
pub open spec fn singletons(s: Seq<char>) -> Seq<Seq<char>> {
    s.map(|i: int, c: char| seq![c])
}

/// The pieces of `s` between the occurrences of `sep`, scanning from the left
/// for non-overlapping occurrences; an empty separator splits before and after
/// every character.
pub open spec fn split_spec(s: Seq<char>, sep: Seq<char>) -> Seq<Seq<char>>
    decreases s.len(),
{
    if sep.len() == 0 {
        seq![Seq::<char>::empty()] + singletons(s) + seq![Seq::<char>::empty()]
    } else {
        match first_occurrence(s, sep) {
            Some(i) => if 0 <= i && i + sep.len() <= s.len() {
                seq![s.subrange(0, i)] + split_spec(s.subrange(i + sep.len(), s.len() as int), sep)
            } else {
                seq![s]
            },
            None => seq![s],
        }
    }
}

/// The pieces joined together with `sep` between consecutive pieces.
pub open spec fn join_spec(parts: Seq<Seq<char>>, sep: Seq<char>) -> Seq<char>
    decreases parts.len(),
{
    if parts.len() == 0 {
        Seq::empty()
    } else if parts.len() == 1 {
        parts[0]
    } else {
        join_spec(parts.drop_last(), sep) + sep + parts.last()
    }
}

/// `s` with every non-overlapping occurrence of `from`, scanned from the
/// left, replaced by `to`.
pub open spec fn replace_spec(s: Seq<char>, from: Seq<char>, to: Seq<char>) -> Seq<char> {
    join_spec(split_spec(s, from), to)
}

proof fn lemma_occurs_in_suffix(s: Seq<char>, t: Seq<char>, pos: int, j: int)
    requires
        0 <= pos <= s.len(),
        0 <= j,
    ensures
        occurs_at(s.subrange(pos, s.len() as int), t, j) <==> occurs_at(s, t, pos + j),
{
    let r = s.subrange(pos, s.len() as int);
    if j + t.len() <= r.len() {
        assert(r.subrange(j, j + t.len()) =~= s.subrange(pos + j, pos + j + t.len()));
    }
}

proof fn lemma_first_occurrence_is(s: Seq<char>, t: Seq<char>, i: int)
    requires
        occurs_at(s, t, i),
        forall|j: int| 0 <= j < i ==> !occurs_at(s, t, j),
    ensures
        first_occurrence(s, t) == Some(i),
{
    let c = choose|k: int| occurs_at(s, t, k) && forall|j: int| 0 <= j < k ==> !occurs_at(s, t, j);
    assert(occurs_at(s, t, c) && forall|j: int| 0 <= j < c ==> !occurs_at(s, t, j));
    if c < i {
        assert(!occurs_at(s, t, c));
    }
    if i < c {
        assert(!occurs_at(s, t, i));
    }
}

proof fn lemma_no_occurrence(s: Seq<char>, t: Seq<char>)
    requires
        forall|j: int| 0 <= j ==> !occurs_at(s, t, j),
    ensures
        first_occurrence(s, t) is None,
{
    if exists|i: int| occurs_at(s, t, i) && forall|j: int| 0 <= j < i ==> !occurs_at(s, t, j) {
        let c = choose|i: int| occurs_at(s, t, i) && forall|j: int| 0 <= j < i ==> !occurs_at(s, t, j);
        assert(occurs_at(s, t, c));
    }
}

fn copy_chars(s: &[char], from: usize, to: usize) -> (r: Vec<char>)
    requires
        from <= to <= s@.len(),
    ensures
        r@ == s@.subrange(from as int, to as int),
{
    let mut r: Vec<char> = Vec::new();
    let mut i = from;
    while i < to
        invariant
            from <= i <= to,
            to <= s@.len(),
            r@ == s@.subrange(from as int, i as int),
        decreases to - i,
    {
        r.push(s[i]);
        proof {
            assert(s@.subrange(from as int, i + 1) =~= s@.subrange(from as int, i as int).push(s@[i as int]));
        }
        i += 1;
    }
    r
}

/// The views of a sequence of character vectors.
pub open spec fn char_vecs_view(v: Seq<Vec<char>>) -> Seq<Seq<char>> {
    v.map_values(|x: Vec<char>| x@)
}

/// The views of a sequence of strings.
pub open spec fn strings_view(v: Seq<String>) -> Seq<Seq<char>> {
    v.map_values(|x: String| x@)
}

/// Splits the characters `s` at the occurrences of `sep`.
#[verifier::spinoff_prover]
#[verifier::rlimit(40)]
pub fn split_chars(s: &[char], sep: &[char]) -> (r: Vec<Vec<char>>)
    ensures
        char_vecs_view(r@) == split_spec(s@, sep@),
{
    let mut parts: Vec<Vec<char>> = Vec::new();
    if sep.len() == 0 {
        parts.push(Vec::new());
        let mut i: usize = 0;
        while i < s.len()
            invariant
                i <= s@.len(),
                sep@.len() == 0,
                char_vecs_view(parts@) == seq![Seq::<char>::empty()] + singletons(s@.subrange(0, i as int)),
            decreases s@.len() - i,
        {
            let mut one: Vec<char> = Vec::new();
            one.push(s[i]);
            let ghost before = parts@;
            parts.push(one);
            proof {
                assert(singletons(s@.subrange(0, i + 1)) =~= singletons(s@.subrange(0, i as int)).push(seq![s@[i as int]]));
                assert(char_vecs_view(parts@) =~= char_vecs_view(before).push(seq![s@[i as int]]));
            }
            i += 1;
        }
        let ghost before = parts@;
        parts.push(Vec::new());
        proof {
            assert(s@.subrange(0, s@.len() as int) =~= s@);
            assert(char_vecs_view(parts@) =~= char_vecs_view(before).push(Seq::<char>::empty()));
            assert(char_vecs_view(parts@) =~= split_spec(s@, sep@));
        }
        return parts;
    }
    let mut pos: usize = 0;
    let n = s.len();
    proof {
        assert(s@.subrange(0, s@.len() as int) =~= s@);
        assert(char_vecs_view(parts@) + split_spec(s@, sep@) =~= split_spec(s@, sep@));
    }
    loop
        invariant
            pos <= s@.len(),
            n == s@.len(),
            sep@.len() > 0,
            char_vecs_view(parts@) + split_spec(s@.subrange(pos as int, s@.len() as int), sep@) == split_spec(s@, sep@),
        decreases s@.len() - pos,
    {
        let ghost rest = s@.subrange(pos as int, s@.len() as int);
        let ghost before = parts@;
        match find_from(s, sep, pos) {
            Some(i) => {
                proof {
                    lemma_occurs_in_suffix(s@, sep@, pos as int, i - pos);
                    assert forall|j: int| 0 <= j < i - pos implies !occurs_at(rest, sep@, j) by {
                        lemma_occurs_in_suffix(s@, sep@, pos as int, j);
                    }
                    lemma_first_occurrence_is(rest, sep@, i - pos);
                    assert(rest.subrange(0, i - pos) =~= s@.subrange(pos as int, i as int));
                    assert(rest.subrange(i - pos + sep@.len(), rest.len() as int) =~= s@.subrange(i + sep@.len(), s@.len() as int));
                }
                let piece = copy_chars(s, pos, i);
                let ghost old_pos = pos;
                parts.push(piece);
                pos = i + sep.len();
                proof {
                    let p1 = s@.subrange(old_pos as int, i as int);
                    assert(char_vecs_view(parts@) =~= char_vecs_view(before).push(p1));
                    assert(split_spec(rest, sep@) == seq![p1] + split_spec(s@.subrange(pos as int, s@.len() as int), sep@));
                    assert(char_vecs_view(before).push(p1) + split_spec(s@.subrange(pos as int, s@.len() as int), sep@)
                        =~= char_vecs_view(before) + (seq![p1] + split_spec(s@.subrange(pos as int, s@.len() as int), sep@)));
                }
            },
            None => {
                proof {
                    assert forall|j: int| 0 <= j implies !occurs_at(rest, sep@, j) by {
                        lemma_occurs_in_suffix(s@, sep@, pos as int, j);
                    }
                    lemma_no_occurrence(rest, sep@);
                }
                let piece = copy_chars(s, pos, n);
                parts.push(piece);
                proof {
                    assert(char_vecs_view(parts@) =~= char_vecs_view(before).push(rest));
                    assert(char_vecs_view(parts@) =~= char_vecs_view(before) + seq![rest]);
                }
                return parts;
            },
        }
    }
}


/// Strings holding the character sequences `parts`.
fn strings_from_char_vecs(parts: &Vec<Vec<char>>) -> (r: Vec<String>)
    ensures
        strings_view(r@) == char_vecs_view(parts@),
{
    let mut r: Vec<String> = Vec::new();
    let mut i: usize = 0;
    while i < parts.len()
        invariant
            i <= parts@.len(),
            strings_view(r@) == char_vecs_view(parts@.subrange(0, i as int)),
        decreases parts@.len() - i,
    {
        let s = string_from_chars(parts[i].as_slice());
        let ghost before = r@;
        r.push(s);
        proof {
            assert(strings_view(r@) =~= strings_view(before).push(s@));
            assert(char_vecs_view(parts@.subrange(0, i + 1)) =~= char_vecs_view(
                parts@.subrange(0, i as int),
            ).push(parts@[i as int]@));
        }
        i += 1;
    }
    proof {
        assert(parts@.subrange(0, parts@.len() as int) =~= parts@);
    }
    r
}

/// The pieces of `this` between the occurrences of `marker` (the `split`
/// method of `String`).
pub fn split(this: &str, marker: &str) -> (r: Vec<String>)
    ensures
        strings_view(r@) == split_spec(this@, marker@),
{
    let s = chars_of(this);
    let t = chars_of(marker);
    let parts = split_chars(s.as_slice(), t.as_slice());
    strings_from_char_vecs(&parts)
}

/// Each character of `this` as a string of its own (the `chars` method of
/// `String`).
pub fn chars(this: &str) -> (r: Vec<String>)
    ensures
        strings_view(r@) == singletons(this@),
{
    let s = chars_of(this);
    let mut r: Vec<String> = Vec::new();
    let mut i: usize = 0;
    while i < s.len()
        invariant
            i <= s@.len(),
            strings_view(r@) == singletons(s@.subrange(0, i as int)),
        decreases s@.len() - i,
    {
        let mut one = String::new();
        push_char(&mut one, s[i]);
        let ghost before = r@;
        r.push(one);
        proof {
            assert(one@ =~= seq![s@[i as int]]);
            assert(strings_view(r@) =~= strings_view(before).push(seq![s@[i as int]]));
            assert(singletons(s@.subrange(0, i + 1)) =~= singletons(s@.subrange(0, i as int)).push(
                seq![s@[i as int]],
            ));
        }
        i += 1;
    }
    proof {
        assert(s@.subrange(0, s@.len() as int) =~= s@);
    }
    r
}

fn append_chars(r: &mut Vec<char>, s: &[char])
    ensures
        final(r)@ == old(r)@ + s@,
{
    let mut i: usize = 0;
    while i < s.len()
        invariant
            i <= s@.len(),
            r@ == old(r)@ + s@.subrange(0, i as int),
        decreases s@.len() - i,
    {
        r.push(s[i]);
        proof {
            assert(s@.subrange(0, i + 1) =~= s@.subrange(0, i as int).push(s@[i as int]));
        }
        i += 1;
    }
    proof {
        assert(s@.subrange(0, s@.len() as int) =~= s@);
    }
}

fn join_chars(parts: &Vec<Vec<char>>, sep: &[char]) -> (r: Vec<char>)
    ensures
        r@ == join_spec(char_vecs_view(parts@), sep@),
{
    let mut r: Vec<char> = Vec::new();
    let mut i: usize = 0;
    while i < parts.len()
        invariant
            i <= parts@.len(),
            r@ == join_spec(char_vecs_view(parts@.subrange(0, i as int)), sep@),
        decreases parts@.len() - i,
    {
        let ghost before = char_vecs_view(parts@.subrange(0, i as int));
        let ghost after = char_vecs_view(parts@.subrange(0, i + 1));
        proof {
            assert(after =~= before.push(parts@[i as int]@));
            assert(after.drop_last() =~= before);
        }
        if i > 0 {
            append_chars(&mut r, sep);
        }
        append_chars(&mut r, parts[i].as_slice());
        i += 1;
    }
    proof {
        assert(parts@.subrange(0, parts@.len() as int) =~= parts@);
    }
    r
}

/// `this` with every occurrence of `current` replaced by `wanted` (the
/// `replace` method of `String`).
pub fn replace(this: &str, current: &str, wanted: &str) -> (r: String)
    ensures
        r@ == replace_spec(this@, current@, wanted@),
{
    let s = chars_of(this);
    let t = chars_of(current);
    let w = chars_of(wanted);
    let parts = split_chars(s.as_slice(), t.as_slice());
    let joined = join_chars(&parts, w.as_slice());
    string_from_chars(joined.as_slice())
}


/// The number of characters of `this` (the `len` method of `String`).
pub fn string_len(this: &str) -> (r: i64)
    ensures
        r == this@.len() as i64,
{
    let n = this.unicode_len();
    n as i64
}

/// The UTF-8 encoding of `chars`, each byte taken as an integer.
pub open spec fn byte_values(chars: Seq<char>) -> Seq<i64> {
    encode_utf8(chars).map_values(|b: u8| b as i64)
}

/// The bytes of the UTF-8 encoding of `this`, as integers (the `bytes`
/// method of `String`).
pub fn bytes(this: &str) -> (r: Vec<i64>)
    ensures
        r@ == byte_values(this@),
{
    let b = this.as_bytes();
    let mut r: Vec<i64> = Vec::new();
    let mut i: usize = 0;
    while i < b.len()
        invariant
            i <= b@.len(),
            b@ == encode_utf8(this@),
            r@ == b@.subrange(0, i as int).map_values(|x: u8| x as i64),
        decreases b@.len() - i,
    {
        r.push(b[i] as i64);
        proof {
            assert(b@.subrange(0, i + 1).map_values(|x: u8| x as i64) =~= b@.subrange(0, i as int).map_values(
                |x: u8| x as i64,
            ).push(b@[i as int] as i64));
        }
        i += 1;
    }
    proof {
        assert(b@.subrange(0, b@.len() as int) =~= b@);
    }
    r
}

/// The code point of the first character of `this` (the `encoding` method of
/// `String`); an empty string has none.
pub fn encoding(this: &str) -> (r: Result<i64, VmErrorReason>)
    ensures
        r is Ok <==> this@.len() > 0,
        r matches Ok(v) ==> v == this@[0] as u32,
        r matches Err(e) ==> e is UnexpectedType,
{
    if this.unicode_len() == 0 {
        return Err(VmErrorReason::UnexpectedType);
    }
    let c = this.get_char(0);
    let v = c as u32;
    Ok(v as i64)
}

/// The character of `this` at `index`, as a string of its own (the `_get_at`
/// method of `String`); the index is taken as a `usize`, so a negative one is
/// out of bounds.
pub fn get_at(this: &str, index: i64) -> (r: Result<String, VmErrorReason>)
    ensures
        (index as usize) < this@.len() ==> (r matches Ok(s) && s@ == seq![this@[(index as usize) as int]]),
        (index as usize) >= this@.len() ==> (r matches Err(VmErrorReason::IndexOutOfBounds(i)) && i == index as usize),
{
    let i = index as usize;
    if i < this.unicode_len() {
        let c = this.get_char(i);
        let mut one = String::new();
        push_char(&mut one, c);
        proof {
            assert(one@ =~= seq![this@[i as int]]);
        }
        Ok(one)
    } else {
        Err(VmErrorReason::IndexOutOfBounds(i))
    }
}

/// The bytes that integers stand for: each keeps its low eight bits.
pub open spec fn low_bytes(values: Seq<i64>) -> Seq<u8> {
    values.map_values(|v: i64| v as u8)
}

/// Turns bytes into a string (`String::from_utf8`): `None` where they are not
/// valid UTF-8, else the characters that they encode.
#[verifier::external_body]
fn utf8_to_string(bytes: Vec<u8>) -> (r: Option<String>)
    ensures
        r is Some <==> valid_utf8(bytes@),
        r matches Some(s) ==> s@ == decode_utf8(bytes@),
{
    match String::from_utf8(bytes) {
        Ok(s) => Some(s),
        Err(_) => None,
    }
}

/// The string that the integers `values` encode in UTF-8, each integer taken
/// as a byte by its low eight bits (the `new_with_bytes` method of
/// `String`); `None` where the bytes are not valid UTF-8.
pub fn from_bytes(values: &[i64]) -> (r: Option<String>)
    ensures
        r is Some <==> valid_utf8(low_bytes(values@)),
        r matches Some(s) ==> s@ == decode_utf8(low_bytes(values@)),
{
    let mut b: Vec<u8> = Vec::new();
    let mut i: usize = 0;
    while i < values.len()
        invariant
            i <= values@.len(),
            b@ == low_bytes(values@.subrange(0, i as int)),
        decreases values@.len() - i,
    {
        b.push(values[i] as u8);
        proof {
            assert(low_bytes(values@.subrange(0, i + 1)) =~= low_bytes(values@.subrange(0, i as int)).push(
                values@[i as int] as u8,
            ));
        }
        i += 1;
    }
    proof {
        assert(values@.subrange(0, values@.len() as int) =~= values@);
    }
    utf8_to_string(b)
}



/// Whether every item is an integer.
pub open spec fn all_integers(items: Seq<Option<i64>>) -> bool {
    forall|i: int| 0 <= i < items.len() ==> #[trigger] items[i] is Some
}

/// The integers that the items hold, in order.
pub open spec fn integer_items(items: Seq<Option<i64>>) -> Seq<i64> {
    items.map_values(|x: Option<i64>| x->Some_0)
}

/// What building a string from byte values gives a program.
pub enum StringFromBytes {
    /// The string that the bytes encode.
    Text(String),
    /// An `EncodingError` of the `String` type, thrown with message `msg`.
    EncodingError { msg: String },
}

/// Builds a string from the items of a list (the `new_with_bytes` method of
/// `String`): each item must be an integer, taken as a byte by its low eight
/// bits. Bytes that are not valid UTF-8 throw the `String` type's
/// `EncodingError` with the message `invalid utf8`; `encoding_error` tells
/// what the type holds under that name: nothing (`None`), or a value that is
/// a struct type (`Some(true)`) or is not (`Some(false)`).
pub fn new_with_bytes(items: &[Option<i64>], encoding_error: Option<bool>) -> (r: Result<StringFromBytes, VmErrorReason>)
    ensures
        !all_integers(items@) ==> (r matches Err(e) && e is UnexpectedType),
        all_integers(items@) && valid_utf8(low_bytes(integer_items(items@))) ==> (r matches Ok(
            StringFromBytes::Text(s),
        ) && s@ == decode_utf8(low_bytes(integer_items(items@)))),
        all_integers(items@) && !valid_utf8(low_bytes(integer_items(items@))) ==> match encoding_error {
            None => r matches Err(VmErrorReason::NoSuchIdentifier(t)) && t@ == "EncodingError"@,
            Some(is_struct) => if is_struct {
                r matches Ok(StringFromBytes::EncodingError { msg }) && msg@ == "invalid utf8"@
            } else {
                r matches Err(e) && e is UnexpectedVmState
            },
        },
{
    let mut values: Vec<i64> = Vec::new();
    let mut i: usize = 0;
    while i < items.len()
        invariant
            i <= items@.len(),
            values@.len() == i,
            forall|k: int| 0 <= k < i ==> #[trigger] items@[k] is Some && values@[k] == items@[k]->Some_0,
        decreases items@.len() - i,
    {
        match items[i] {
            Some(v) => values.push(v),
            None => {
                return Err(VmErrorReason::UnexpectedType);
            },
        }
        i += 1;
    }
    proof {
        assert(values@ =~= integer_items(items@));
    }
    match from_bytes(values.as_slice()) {
        Some(s) => Ok(StringFromBytes::Text(s)),
        None => match encoding_error {
            None => Err(VmErrorReason::NoSuchIdentifier("EncodingError".to_owned())),
            Some(is_struct) => if is_struct {
                Ok(StringFromBytes::EncodingError { msg: "invalid utf8".to_owned() })
            } else {
                Err(VmErrorReason::UnexpectedVmState)
            },
        },
    }
}

/// Building a string from its bytes gives it back: the byte values that
/// `bytes` gives are valid UTF-8 for `from_bytes`, and decode to the same
/// characters.
pub proof fn lemma_bytes_then_from_bytes(chars: Seq<char>)
    ensures
        valid_utf8(low_bytes(byte_values(chars))),
        decode_utf8(low_bytes(byte_values(chars))) == chars,
{
    let e = encode_utf8(chars);
    assert(low_bytes(byte_values(chars)) =~= e);
    vstd::utf8::encode_utf8_valid_utf8(chars);
    vstd::utf8::encode_utf8_decode_utf8(chars);
}

/// Whether `c` has the Unicode `White_Space` property.
pub open spec fn is_white_space(c: char) -> bool {
    let v = c as u32;
    ||| 0x9 <= v <= 0xd
    ||| v == 0x20
    ||| v == 0x85
    ||| v == 0xa0
    ||| v == 0x1680
    ||| 0x2000 <= v <= 0x200a
    ||| v == 0x2028
    ||| v == 0x2029
    ||| v == 0x202f
    ||| v == 0x205f
    ||| v == 0x3000
}

/// Whether `c` has the Unicode `White_Space` property.
pub fn white_space(c: char) -> (r: bool)
    ensures
        r == is_white_space(c),
{
    let v = c as u32;
    (0x9 <= v && v <= 0xd) || v == 0x20 || v == 0x85 || v == 0xa0 || v == 0x1680 || (0x2000 <= v
        && v <= 0x200a) || v == 0x2028 || v == 0x2029 || v == 0x202f || v == 0x205f || v == 0x3000
}

/// `this` without its leading white space (the `trim_head` method of
/// `String`).
pub fn trim_head(this: &str) -> (r: String)
    ensures
        r@ == trim_start_spec(this@),
{
    let s = chars_of(this);
    let n = s.len();
    let mut i: usize = 0;
    proof {
        assert(s@.subrange(0, n as int) =~= s@);
    }
    while i < n && white_space(s[i])
        invariant
            i <= n,
            n == s@.len(),
            s@ == this@,
            trim_start_spec(s@) == trim_start_spec(s@.subrange(i as int, n as int)),
        decreases n - i,
    {
        proof {
            assert(s@.subrange(i as int, n as int).drop_first() =~= s@.subrange(i + 1, n as int));
        }
        i += 1;
    }
    let rest = copy_chars(s.as_slice(), i, n);
    string_from_chars(rest.as_slice())
}

/// `this` without its trailing white space (the `trim_tail` method of
/// `String`).
pub fn trim_tail(this: &str) -> (r: String)
    ensures
        r@ == trim_end_spec(this@),
{
    let s = chars_of(this);
    let n = s.len();
    let mut j: usize = n;
    proof {
        assert(s@.subrange(0, n as int) =~= s@);
    }
    while j > 0 && white_space(s[j - 1])
        invariant
            j <= n,
            n == s@.len(),
            s@ == this@,
            trim_end_spec(s@) == trim_end_spec(s@.subrange(0, j as int)),
        decreases j,
    {
        proof {
            assert(s@.subrange(0, j as int).drop_last() =~= s@.subrange(0, j - 1));
        }
        j -= 1;
    }
    let head = copy_chars(s.as_slice(), 0, j);
    string_from_chars(head.as_slice())
}

/// The upper-case form of a string under the Unicode case mapping that
/// `str::to_uppercase` applies.
pub uninterp spec fn uppercase_of(s: Seq<char>) -> Seq<char>;

/// The lower-case form of a string under the Unicode case mapping that
/// `str::to_lowercase` applies.
pub uninterp spec fn lowercase_of(s: Seq<char>) -> Seq<char>;

/// `str::to_uppercase`; its result is named `uppercase_of`, and the Unicode
/// case tables behind it are not restated.
#[verifier::external_body]
fn to_uppercase_text(s: &str) -> (r: String)
    ensures
        r@ == uppercase_of(s@),
{
    s.to_uppercase()
}

/// `str::to_lowercase`; its result is named `lowercase_of`, and the Unicode
/// case tables behind it are not restated.
#[verifier::external_body]
fn to_lowercase_text(s: &str) -> (r: String)
    ensures
        r@ == lowercase_of(s@),
{
    s.to_lowercase()
}

/// `this` in upper case (the `uppercase` method of `String`).
pub fn uppercase(this: &str) -> (r: String)
    ensures
        r@ == uppercase_of(this@),
{
    to_uppercase_text(this)
}

/// `this` in lower case (the `lowercase` method of `String`).
pub fn lowercase(this: &str) -> (r: String)
    ensures
        r@ == lowercase_of(this@),
{
    to_lowercase_text(this)
}


/// `s` without its leading white space.
pub open spec fn trim_start_spec(s: Seq<char>) -> Seq<char>
    decreases s.len(),
{
    if s.len() > 0 && is_white_space(s[0]) {
        trim_start_spec(s.drop_first())
    } else {
        s
    }
}

/// `s` without its trailing white space.
pub open spec fn trim_end_spec(s: Seq<char>) -> Seq<char>
    decreases s.len(),
{
    if s.len() > 0 && is_white_space(s.last()) {
        trim_end_spec(s.drop_last())
    } else {
        s
    }
}

/// `s` without white space at either end.
pub open spec fn trim_spec(s: Seq<char>) -> Seq<char> {
    trim_end_spec(trim_start_spec(s))
}

/// A character is white space exactly when it is one of the code points that
/// Unicode gives the `White_Space` property (as `char::is_whitespace` tests):
/// tab, line feed, vertical tab, form feed, carriage return, space, next
/// line, no-break space, Ogham space mark, the spaces from en quad to hair
/// space, line and paragraph separators, narrow no-break space, medium
/// mathematical space and ideographic space.
pub proof fn lemma_white_space_code_points(c: char)
    ensures
        is_white_space(c) <==> {
            let v = c as u32;
            v == 0x09 || v == 0x0a || v == 0x0b || v == 0x0c || v == 0x0d || v == 0x20 || v == 0x85 || v == 0xa0
                || v == 0x1680 || v == 0x2000 || v == 0x2001 || v == 0x2002 || v == 0x2003 || v == 0x2004 || v
                == 0x2005 || v == 0x2006 || v == 0x2007 || v == 0x2008 || v == 0x2009 || v == 0x200a || v == 0x2028
                || v == 0x2029 || v == 0x202f || v == 0x205f || v == 0x3000
        },
{
}

/// Trimming the end keeps a leading part of the text: every character it
/// drops is white space, and what is left does not end in white space.
pub proof fn lemma_trim_end_drops_white_space(s: Seq<char>)
    ensures
        trim_end_spec(s).len() <= s.len(),
        trim_end_spec(s) == s.subrange(0, trim_end_spec(s).len() as int),
        forall|i: int| trim_end_spec(s).len() <= i < s.len() ==> is_white_space(#[trigger] s[i]),
        trim_end_spec(s).len() > 0 ==> !is_white_space(trim_end_spec(s).last()),
    decreases s.len(),
{
    if s.len() > 0 && is_white_space(s.last()) {
        let d = s.drop_last();
        lemma_trim_end_drops_white_space(d);
        let t = trim_end_spec(d);
        assert(t == d.subrange(0, t.len() as int));
        assert(d.subrange(0, t.len() as int) =~= s.subrange(0, t.len() as int));
        assert forall|i: int| t.len() <= i < s.len() implies is_white_space(#[trigger] s[i]) by {
            if i < d.len() {
                assert(s[i] == d[i]);
            }
        }
    } else {
        assert(s.subrange(0, s.len() as int) =~= s);
    }
}

/// Trimming the start keeps a trailing part of the text: every character it
/// drops is white space, and what is left does not start with white space.
pub proof fn lemma_trim_start_drops_white_space(s: Seq<char>)
    ensures
        trim_start_spec(s).len() <= s.len(),
        trim_start_spec(s) == s.subrange(s.len() - trim_start_spec(s).len(), s.len() as int),
        forall|i: int| 0 <= i < s.len() - trim_start_spec(s).len() ==> is_white_space(#[trigger] s[i]),
        trim_start_spec(s).len() > 0 ==> !is_white_space(trim_start_spec(s)[0]),
    decreases s.len(),
{
    if s.len() > 0 && is_white_space(s[0]) {
        let d = s.drop_first();
        lemma_trim_start_drops_white_space(d);
        let t = trim_start_spec(d);
        assert(d.subrange(d.len() - t.len(), d.len() as int) =~= s.subrange(s.len() - t.len(), s.len() as int));
        assert forall|i: int| 0 <= i < s.len() - t.len() implies is_white_space(#[trigger] s[i]) by {
            if i > 0 {
                assert(s[i] == d[i - 1]);
            }
        }
    } else {
        assert(s.subrange(0, s.len() as int) =~= s);
    }
}

/// Trimming both ends keeps a middle part of the text with no white space at
/// either end, and drops only white space.
pub proof fn lemma_trim_drops_white_space(s: Seq<char>)
    ensures
        ({
            let t = trim_spec(s);
            let a = s.len() - trim_start_spec(s).len();
            &&& 0 <= a && a + t.len() <= s.len()
            &&& t == s.subrange(a, a + t.len())
            &&& forall|i: int| 0 <= i < a ==> is_white_space(#[trigger] s[i])
            &&& forall|i: int| a + t.len() <= i < s.len() ==> is_white_space(#[trigger] s[i])
            &&& t.len() > 0 ==> !is_white_space(t[0]) && !is_white_space(t.last())
        }),
{
    let u = trim_start_spec(s);
    lemma_trim_start_drops_white_space(s);
    lemma_trim_end_drops_white_space(u);
    let t = trim_end_spec(u);
    let a = s.len() - u.len();
    assert(t =~= s.subrange(a, a + t.len()));
    assert forall|i: int| a + t.len() <= i < s.len() implies is_white_space(#[trigger] s[i]) by {
        assert(s[i] == u[i - a]);
    }
    if t.len() > 0 {
        assert(t[0] == u[0]);
    }
}

/// `this` without white space at either end.
pub fn trim(this: &str) -> (r: String)
    ensures
        r@ == trim_spec(this@),
{
    let s = chars_of(this);
    let n = s.len();
    let mut i: usize = 0;
    proof {
        assert(s@.subrange(0, n as int) =~= s@);
    }
    while i < n && white_space(s[i])
        invariant
            i <= n,
            n == s@.len(),
            trim_start_spec(s@) == trim_start_spec(s@.subrange(i as int, n as int)),
        decreases n - i,
    {
        proof {
            assert(s@.subrange(i as int, n as int).drop_first() =~= s@.subrange(i + 1, n as int));
        }
        i += 1;
    }
    let ghost t = s@.subrange(i as int, n as int);
    proof {
        assert(trim_start_spec(t) == t);
    }
    let mut j: usize = n;
    proof {
        assert(t.subrange(0, (j - i) as int) =~= t);
    }
    while j > i && white_space(s[j - 1])
        invariant
            i <= j <= n,
            n == s@.len(),
            t == s@.subrange(i as int, n as int),
            trim_end_spec(t) == trim_end_spec(t.subrange(0, (j - i) as int)),
        decreases j,
    {
        proof {
            assert(t.subrange(0, (j - i) as int).drop_last() =~= t.subrange(0, (j - 1 - i) as int));
            assert(t.subrange(0, (j - i) as int).last() == s@[j - 1]);
        }
        j -= 1;
    }
    proof {
        assert(t.subrange(0, (j - i) as int) =~= s@.subrange(i as int, j as int));
    }
    let kept = copy_chars(s.as_slice(), i, j);
    string_from_chars(kept.as_slice())
}

/// `c` in upper case if it is an ASCII letter, else `c` itself.
pub open spec fn ascii_upper_char(c: char) -> char {
    if 'a' <= c <= 'z' {
        ((c as u32) - 32) as char
    } else {
        c
    }
}

/// `this` with its ASCII letters in upper case (`str::to_ascii_uppercase`).
pub fn ascii_uppercase(this: &str) -> (r: String)
    ensures
        r@ == this@.map_values(|c: char| ascii_upper_char(c)),
{
    let s = chars_of(this);
    let mut r = String::new();
    let mut i: usize = 0;
    while i < s.len()
        invariant
            i <= s@.len(),
            s@ == this@,
            r@ == s@.subrange(0, i as int).map_values(|c: char| ascii_upper_char(c)),
        decreases s@.len() - i,
    {
        let c = s[i];
        let u = if 'a' <= c && c <= 'z' {
            ((c as u8) - 32) as char
        } else {
            c
        };
        proof {
            assert(u == ascii_upper_char(c));
        }
        push_char(&mut r, u);
        proof {
            assert(s@.subrange(0, i + 1).map_values(|c: char| ascii_upper_char(c)) =~= s@.subrange(0, i as int).map_values(
                |c: char| ascii_upper_char(c),
            ).push(u));
        }
        i += 1;
    }
    proof {
        assert(s@.subrange(0, s@.len() as int) =~= s@);
    }
    r
}


/// `p` without a carriage return at its end.
pub open spec fn strip_cr(p: Seq<char>) -> Seq<char> {
    if p.len() > 0 && p.last() == '\r' {
        p.drop_last()
    } else {
        p
    }
}

/// `pieces` with each piece but the last stripped of a final carriage return.
pub open spec fn strip_ended_pieces(pieces: Seq<Seq<char>>) -> Seq<Seq<char>> {
    pieces.map(|i: int, p: Seq<char>| if i + 1 < pieces.len() { strip_cr(p) } else { p })
}

/// The lines of `text`, as `str::lines` gives them: the pieces between line
/// feeds, each that a line feed ends without a carriage return before it, and
/// no empty last line after a final line feed.
pub open spec fn lines_spec(text: Seq<char>) -> Seq<Seq<char>> {
    let pieces = split_spec(text, seq!['\n']);
    let n = pieces.len();
    let stripped = strip_ended_pieces(pieces);
    if n > 0 && pieces[n - 1].len() == 0 {
        stripped.drop_last()
    } else {
        stripped
    }
}

fn strip_cr_exec(p: &str) -> (r: String)
    ensures
        r@ == strip_cr(p@),
{
    let s = chars_of(p);
    let n = s.len();
    if n > 0 && s[n - 1] == '\r' {
        let kept = copy_chars(s.as_slice(), 0, n - 1);
        proof {
            assert(kept@ =~= p@.drop_last());
        }
        string_from_chars(kept.as_slice())
    } else {
        p.to_owned()
    }
}

/// The lines of `text` (`str::lines`).
pub fn lines(text: &str) -> (r: Vec<String>)
    ensures
        strings_view(r@) == lines_spec(text@),
{
    let pieces = split(text, "\n");
    proof {
        reveal_strlit("\n");
        assert("\n"@ =~= seq!['\n']);
    }
    let ghost all = split_spec(text@, seq!['\n']);
    let n = pieces.len();
    let ghost stripped = strip_ended_pieces(all);
    let mut r: Vec<String> = Vec::new();
    let mut i: usize = 0;
    proof {
        assert(strings_view(r@) =~= stripped.subrange(0, 0));
    }
    while i < n
        invariant
            i <= n,
            n == pieces@.len(),
            strings_view(pieces@) == all,
            all == split_spec(text@, seq!['\n']),
            all.len() == n,
            (i == n && n > 0) ==> all[n - 1].len() > 0,
            stripped == strip_ended_pieces(all),
            strings_view(r@) == stripped.subrange(0, i as int),
        decreases n - i,
    {
        let ghost before = r@;
        proof {
            assert(strings_view(pieces@)[i as int] == pieces@[i as int]@);
        }
        if i + 1 < n {
            let line = strip_cr_exec(pieces[i].as_str());
            proof {
                assert(stripped[i as int] == line@);
            }
            r.push(line);
            proof {
                assert(strings_view(r@) =~= strings_view(before).push(line@));
            }
        } else {
            if pieces[i].unicode_len() == 0 {
                proof {
                    assert(stripped.subrange(0, i as int) =~= stripped.drop_last());
                    assert(all[n - 1].len() == 0);
                }
                return r;
            }
            let line = pieces[i].clone();
            proof {
                assert(stripped[i as int] == line@);
            }
            r.push(line);
            proof {
                assert(strings_view(r@) =~= strings_view(before).push(line@));
            }
        }
        proof {
            assert(strings_view(r@) =~= stripped.subrange(0, i + 1));
        }
        i += 1;
    }
    proof {
        assert(stripped.subrange(0, n as int) =~= stripped);
        if n > 0 {
            assert(strings_view(pieces@)[n - 1] == pieces@[n - 1]@);
        }
    }
    r
}


proof fn lemma_join_prepend(a: Seq<char>, ys: Seq<Seq<char>>, sep: Seq<char>)
    requires
        ys.len() > 0,
    ensures
        join_spec(seq![a] + ys, sep) == a + sep + join_spec(ys, sep),
    decreases ys.len(),
{
    let xs = seq![a] + ys;
    assert(join_spec(xs, sep) == join_spec(xs.drop_last(), sep) + sep + xs.last());
    assert(xs.last() == ys.last());
    if ys.len() == 1 {
        assert(xs.drop_last() =~= seq![a]);
        assert(join_spec(seq![a], sep) == a);
        assert(join_spec(ys, sep) == ys[0]);
    } else {
        lemma_join_prepend(a, ys.drop_last(), sep);
        assert(xs.drop_last() =~= seq![a] + ys.drop_last());
        assert(join_spec(ys, sep) == join_spec(ys.drop_last(), sep) + sep + ys.last());
        assert(a + sep + join_spec(ys.drop_last(), sep) + sep + ys.last() =~= a + sep + (join_spec(ys.drop_last(), sep)
            + sep + ys.last()));
    }
}

proof fn lemma_join_singletons(s: Seq<char>)
    ensures
        join_spec(seq![Seq::<char>::empty()] + singletons(s), Seq::<char>::empty()) == s,
    decreases s.len(),
{
    let xs = seq![Seq::<char>::empty()] + singletons(s);
    if s.len() == 0 {
        assert(xs =~= seq![Seq::<char>::empty()]);
    } else {
        lemma_join_singletons(s.drop_last());
        assert(xs.drop_last() =~= seq![Seq::<char>::empty()] + singletons(s.drop_last()));
        assert(xs.last() == seq![s.last()]);
        assert(s.drop_last() + Seq::<char>::empty() + seq![s.last()] =~= s);
    }
}

/// Splitting a text at a separator and joining the pieces with the same
/// separator gives the text back.
pub proof fn lemma_split_join(s: Seq<char>, sep: Seq<char>)
    ensures
        join_spec(split_spec(s, sep), sep) == s,
    decreases s.len(),
{
    if sep.len() == 0 {
        let xs = seq![Seq::<char>::empty()] + singletons(s) + seq![Seq::<char>::empty()];
        lemma_join_singletons(s);
        assert(split_spec(s, sep) == xs);
        assert(join_spec(xs, sep) == join_spec(xs.drop_last(), sep) + sep + xs.last());
        assert(xs.drop_last() =~= seq![Seq::<char>::empty()] + singletons(s));
        assert(sep =~= Seq::<char>::empty());
        assert(join_spec(xs.drop_last(), sep) == s);
        assert(xs.last() == Seq::<char>::empty());
        assert(s + sep + Seq::<char>::empty() =~= s);
    } else {
        match first_occurrence(s, sep) {
            Some(i) => {
                if 0 <= i && i + sep.len() <= s.len() {
                    let rest = s.subrange(i + sep.len(), s.len() as int);
                    lemma_split_join(rest, sep);
                    let tail = split_spec(rest, sep);
                    lemma_split_nonempty(rest, sep);
                    lemma_join_prepend(s.subrange(0, i), tail, sep);
                    assert(split_spec(s, sep) == seq![s.subrange(0, i)] + tail);
                    assert(occurs_at(s, sep, i));
                    assert(s.subrange(i, i + sep.len()) == sep);
                    assert(s.subrange(0, i) + sep + rest =~= s);
                } else {
                    assert(split_spec(s, sep) == seq![s]);
                    assert(join_spec(seq![s], sep) == s);
                }
            },
            None => {
                assert(split_spec(s, sep) == seq![s]);
                assert(join_spec(seq![s], sep) == s);
            },
        }
    }
}

proof fn lemma_split_nonempty(s: Seq<char>, sep: Seq<char>)
    ensures
        split_spec(s, sep).len() > 0,
    decreases s.len(),
{
    if sep.len() > 0 {
        match first_occurrence(s, sep) {
            Some(i) => {
                if 0 <= i && i + sep.len() <= s.len() {
                    lemma_split_nonempty(s.subrange(i + sep.len(), s.len() as int), sep);
                }
            },
            None => {},
        }
    }
}

/// Replacing every occurrence of a text by itself leaves a string unchanged.
pub proof fn lemma_replace_same(s: Seq<char>, t: Seq<char>)
    ensures
        replace_spec(s, t, t) == s,
{
    lemma_split_join(s, t);
}

} // verus!
