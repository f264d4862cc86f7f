//! Regular expressions for programs: compiling a pattern, testing for a
//! match, listing the matches and replacing them, on top of the `regex` crate.
use vstd::prelude::*;
use vstd::utf8::encode_utf8;

verus! {

#[verifier::external_type_specification]
#[verifier::external_body]
pub struct ExRegex(regex::Regex);

/// Whether `regex::Regex::new` accepts `pattern`.
pub uninterp spec fn regex_compiles(pattern: Seq<char>) -> bool;

/// The text of the error that `regex::Regex::new` reports for `pattern`.
pub uninterp spec fn regex_error_text(pattern: Seq<char>) -> Seq<char>;

/// Whether the regex of `pattern` matches somewhere in `haystack`
/// (`regex::Regex::is_match`).
pub uninterp spec fn regex_is_match(pattern: Seq<char>, haystack: Seq<char>) -> bool;

/// The successive non-overlapping matches of the regex of `pattern` in
/// `haystack` (`regex::Regex::find_iter`): each its start and length in bytes
/// and the text matched.
pub uninterp spec fn regex_find_all(pattern: Seq<char>, haystack: Seq<char>) -> Seq<(int, int, Seq<char>)>;

/// `haystack` with every match of the regex of `pattern` replaced by
/// `replacement`, in which `$name` and `${name}` stand for capture groups
/// (`regex::Regex::replace_all`).
pub uninterp spec fn regex_replace_all(pattern: Seq<char>, haystack: Seq<char>, replacement: Seq<char>) -> Seq<char>;

/// The text of capture group 1 in the first match of the regex of `pattern` in
/// `haystack`, if there is a match and the group took part in it
/// (`regex::Regex::captures`, then `get(1)`).
pub uninterp spec fn regex_first_group(pattern: Seq<char>, haystack: Seq<char>) -> Option<Seq<char>>;

/// A compiled regular expression together with the pattern it was compiled
/// from.
pub struct CompiledRegex {
    pattern: String,
    compiled: regex::Regex,
}

/// One match: where it starts and how long it is, in bytes of the UTF-8
/// encoding of the haystack, and the text it matched.
pub struct RegexMatch {
    pub start: i64,
    pub len: i64,
    pub value: String,
}

/// Whether the match `m` is the one that `found` describes.
pub open spec fn match_agrees(m: RegexMatch, found: (int, int, Seq<char>)) -> bool {
    &&& m.start == found.0 as i64
    &&& m.len == found.1 as i64
    &&& m.value@ == found.2
}

/// `regex::Regex::new`: the regex of `pattern`, or the text of the error it
/// reports. Whether it compiles and the text are named, not restated.
#[verifier::external_body]
fn compile(pattern: &str) -> (r: Result<regex::Regex, String>)
    ensures
        r is Ok <==> regex_compiles(pattern@),
        r matches Err(m) ==> m@ == regex_error_text(pattern@),
{
    match regex::Regex::new(pattern) {
        Ok(re) => Ok(re),
        Err(e) => Err(e.to_string()),
    }
}

/// `regex::Regex::is_match` on the regex compiled from `re`'s pattern; the
/// answer is named.
#[verifier::external_body]
fn is_match_in(re: &CompiledRegex, haystack: &str) -> (r: bool)
    ensures
        r == regex_is_match(re.pattern_spec(), haystack@),
{
    re.compiled.is_match(haystack)
}

/// Whether the matches `found` come left to right without overlapping: each
/// ends no later than the next one starts.
pub open spec fn successive_matches(found: Seq<(usize, usize, String)>) -> bool {
    forall|i: int, j: int| #![trigger found[i], found[j]] 0 <= i && j == i + 1 && j < found.len() ==> found[i].0 + found[i].1 <= found[j].0
}

/// `regex::Regex::find_iter`, each match taken as its start, its length and
/// its text (`Match::start`, `Match::len`, `Match::as_str`); the list is named.
/// As the crate documents, the matches are successive and do not overlap, and
/// each match's text is the part of the haystack at its byte offsets, which
/// lie within a `str` and so below `isize::MAX`.
#[verifier::external_body]
fn find_all_in(re: &CompiledRegex, haystack: &str) -> (r: Vec<(usize, usize, String)>)
    ensures
        r@.len() == regex_find_all(re.pattern_spec(), haystack@).len(),
        successive_matches(r@),
        forall|i: int| 0 <= i < r@.len() ==> #[trigger] r@[i].0 + r@[i].1 <= isize::MAX,
        forall|i: int|
            0 <= i < r@.len() ==> {
                let f = #[trigger] regex_find_all(re.pattern_spec(), haystack@)[i];
                &&& r@[i].0 == f.0
                &&& r@[i].1 == f.1
                &&& r@[i].2@ == f.2
                &&& 0 <= f.0 && f.0 + f.1 <= encode_utf8(haystack@).len()
                &&& encode_utf8(f.2) == encode_utf8(haystack@).subrange(f.0, f.0 + f.1)
            },
{
    re.compiled.find_iter(haystack).map(|m| (m.start(), m.len(), m.as_str().to_owned())).collect()
}

/// `regex::Regex::replace_all`, the replacement expanding references to
/// capture groups; the result is named,
/// and, as the crate documents, a haystack without a match comes back
/// unchanged.
#[verifier::external_body]
fn replace_all_in(re: &CompiledRegex, haystack: &str, replacement: &str) -> (r: String)
    ensures
        r@ == regex_replace_all(re.pattern_spec(), haystack@, replacement@),
        regex_find_all(re.pattern_spec(), haystack@).len() == 0 ==> r@ == haystack@,
{
    re.compiled.replace_all(haystack, replacement).into_owned()
}

/// `regex::Regex::captures`, then group 1 of the match as text; the result is
/// named.
#[verifier::external_body]
fn first_group_in(re: &CompiledRegex, haystack: &str) -> (r: Option<String>)
    ensures
        r is Some <==> regex_first_group(re.pattern_spec(), haystack@) is Some,
        r matches Some(s) ==> regex_first_group(re.pattern_spec(), haystack@) == Some(s@),
{
    re.compiled.captures(haystack).and_then(|c| c.get(1)).map(|m| m.as_str().to_owned())
}

impl CompiledRegex {
    /// The pattern the regex was compiled from.
    pub closed spec fn pattern_spec(&self) -> Seq<char> {
        self.pattern@
    }

    /// Compiles `pattern`; a pattern the crate refuses gives the text of its
    /// error.
    pub fn new(pattern: &str) -> (r: Result<CompiledRegex, String>)
        ensures
            r is Ok <==> regex_compiles(pattern@),
            r matches Ok(re) ==> re.pattern_spec() == pattern@,
            r matches Err(m) ==> m@ == regex_error_text(pattern@),
    {
        match compile(pattern) {
            Ok(compiled) => Ok(CompiledRegex { pattern: pattern.to_owned(), compiled }),
            Err(m) => Err(m),
        }
    }

    /// The pattern the regex was compiled from.
    pub fn pattern(&self) -> (r: &str)
        ensures
            r@ == self.pattern_spec(),
    {
        self.pattern.as_str()
    }

    /// Whether the regex matches somewhere in `haystack` (the `any_match`
    /// method of the `Regex` struct).
    pub fn any_match(&self, haystack: &str) -> (r: bool)
        ensures
            r == regex_is_match(self.pattern_spec(), haystack@),
    {
        is_match_in(self, haystack)
    }

    /// The matches of the regex in `haystack`, in order (the `matches` method
    /// of the `Regex` struct).
    pub fn matches(&self, haystack: &str) -> (r: Vec<RegexMatch>)
        ensures
            r@.len() == regex_find_all(self.pattern_spec(), haystack@).len(),
            forall|i: int|
                0 <= i < r@.len() ==> match_agrees(#[trigger] r@[i], regex_find_all(self.pattern_spec(), haystack@)[i]),
            forall|i: int| 0 <= i < r@.len() ==> 0 <= #[trigger] r@[i].start && 0 <= r@[i].len,
            forall|i: int|
                0 <= i < r@.len() ==> {
                    &&& #[trigger] r@[i].start + r@[i].len <= encode_utf8(haystack@).len()
                    &&& encode_utf8(r@[i].value@) == encode_utf8(haystack@).subrange(
                        r@[i].start as int,
                        r@[i].start + r@[i].len,
                    )
                },
            forall|i: int, j: int|
                #![trigger r@[i], r@[j]]
                0 <= i && j == i + 1 && j < r@.len() ==> r@[i].start + r@[i].len <= r@[j].start,
    {
        let found = find_all_in(self, haystack);
        let ghost all = regex_find_all(self.pattern_spec(), haystack@);
        let mut r: Vec<RegexMatch> = Vec::new();
        let mut i: usize = 0;
        while i < found.len()
            invariant
                i <= found@.len(),
                found@.len() == all.len(),
                forall|k: int| 0 <= k < found@.len() ==> {
                    &&& found@[k].0 == (#[trigger] all[k]).0
                    &&& found@[k].1 == all[k].1
                    &&& found@[k].2@ == all[k].2
                },
                r@.len() == i,
                forall|k: int| 0 <= k < i ==> match_agrees(#[trigger] r@[k], all[k]),
                forall|k: int| 0 <= k < found@.len() ==> #[trigger] found@[k].0 + found@[k].1 <= isize::MAX,
                successive_matches(found@),
                forall|k: int| 0 <= k < i ==> #[trigger] r@[k].start == all[k].0 && r@[k].len == all[k].1,
            decreases found@.len() - i,
        {
            let (start, len, value) = &found[i];
            let m = RegexMatch { start: *start as i64, len: *len as i64, value: value.clone() };
            proof {
                assert(found@[i as int].0 == all[i as int].0);
                assert(found@[i as int].0 + found@[i as int].1 <= isize::MAX);
            }
            r.push(m);
            i += 1;
        }
        proof {
            assert forall|a: int, b: int| #![trigger r@[a], r@[b]] 0 <= a && b == a + 1 && b < r@.len() implies r@[a].start
                + r@[a].len <= r@[b].start by {
                assert(found@[a].0 + found@[a].1 <= found@[b].0);
            }
            assert forall|a: int| 0 <= a < r@.len() implies 0 <= #[trigger] r@[a].start && 0 <= r@[a].len by {
                assert(r@[a].start == all[a].0);
            }
            assert forall|a: int| 0 <= a < r@.len() implies {
                &&& #[trigger] r@[a].start + r@[a].len <= encode_utf8(haystack@).len()
                &&& encode_utf8(r@[a].value@) == encode_utf8(haystack@).subrange(r@[a].start as int, r@[a].start + r@[a].len)
            } by {
                let f = all[a];
                assert(0 <= f.0 && f.0 + f.1 <= encode_utf8(haystack@).len());
                assert(encode_utf8(f.2) == encode_utf8(haystack@).subrange(f.0, f.0 + f.1));
                assert(r@[a].start == f.0 && r@[a].len == f.1 && r@[a].value@ == f.2);
            }
        }
        r
    }

    /// `haystack` with every match of the regex replaced by `new_value` (the
    /// `replace` method of the `Regex` struct).
    pub fn replace(&self, haystack: &str, new_value: &str) -> (r: String)
        ensures
            r@ == regex_replace_all(self.pattern_spec(), haystack@, new_value@),
            regex_find_all(self.pattern_spec(), haystack@).len() == 0 ==> r@ == haystack@,
    {
        replace_all_in(self, haystack, new_value)
    }

    /// The text of capture group 1 of the first match in `haystack`, if any.
    pub fn first_group(&self, haystack: &str) -> (r: Option<String>)
        ensures
            r is Some <==> regex_first_group(self.pattern_spec(), haystack@) is Some,
            r matches Some(s) ==> regex_first_group(self.pattern_spec(), haystack@) == Some(s@),
    {
        first_group_in(self, haystack)
    }
}

} // verus!
