//! The decisions of the test runner: what a test's result is, when a test is
//! run again or skipped, how results are grouped, ordered and reported.
use crate::regex_ops::{regex_first_group, regex_is_match, CompiledRegex};
use crate::strings::{ascii_upper_char, lines_spec, split_spec, strings_view, trim_spec};
use crate::text::{decimal, padded_decimal, push_decimal, push_padded_decimal, push_text};
use vstd::prelude::*;

verus! {

/// How a test came out.
pub enum TestCaseOutcome {
    Pass,
    Fail(String),
    XFail(String),
}

impl TestCaseOutcome {
    /// The mark shown in front of a result.
    pub fn result_emoji(&self) -> (r: &'static str)
        ensures
            self is Pass ==> r@ == "\u{2705}"@,
            self is Fail ==> r@ == "\u{274c}"@,
            self is XFail ==> r@ == "\u{26a0}\u{fe0f} "@,
    {
        match self {
            TestCaseOutcome::Pass => "\u{2705}",
            TestCaseOutcome::Fail(_) => "\u{274c}",
            TestCaseOutcome::XFail(_) => "\u{26a0}\u{fe0f} ",
        }
    }

    /// The reason of a failure in brackets; nothing for another outcome.
    pub fn display_error_reason(&self) -> (r: String)
        ensures
            r@ == reason_text(*self),
    {
        let mut r = String::new();
        match self {
            TestCaseOutcome::Fail(reason) => {
                push_text(&mut r, "[");
                push_text(&mut r, reason.as_str());
                push_text(&mut r, "]");
                proof {
                    reveal_strlit("[");
                    reveal_strlit("]");
                }
            },
            _ => {},
        }
        r
    }

    /// Whether the test failed.
    pub fn is_fail(&self) -> (r: bool)
        ensures
            r == (self is Fail),
    {
        match self {
            TestCaseOutcome::Fail(_) => true,
            _ => false,
        }
    }
}

/// The bracketed reason of a failure, empty for another outcome.
pub open spec fn reason_text(o: TestCaseOutcome) -> Seq<char> {
    match o {
        TestCaseOutcome::Fail(reason) => seq!['['] + reason@ + seq![']'],
        _ => Seq::empty(),
    }
}

/// How long a test took: whole seconds and the nanoseconds beyond them.
#[derive(Clone, Copy, Debug, PartialEq, Eq, Structural)]
pub struct TestDuration {
    pub secs: u64,
    pub nanos: u32,
}

/// Whether duration `a` is no longer than duration `b`.
pub open spec fn duration_le(a: TestDuration, b: TestDuration) -> bool {
    a.secs < b.secs || (a.secs == b.secs && a.nanos <= b.nanos)
}

/// The text of a duration: seconds, a point and three digits of milliseconds.
pub open spec fn duration_text(d: TestDuration) -> Seq<char> {
    decimal(d.secs as nat) + seq!['.'] + padded_decimal((d.nanos / 1000000) as nat, 3)
}

fn push_duration(s: &mut String, d: TestDuration)
    ensures
        final(s)@ == old(s)@ + duration_text(d),
{
    push_decimal(s, d.secs);
    push_text(s, ".");
    push_padded_decimal(s, (d.nanos / 1000000) as u64, 3);
    proof {
        reveal_strlit(".");
        assert(final(s)@ =~= old(s)@ + duration_text(d));
    }
}

/// The result of one test: its name, how long it took and how it came out.
pub struct TestCaseResult {
    pub test: String,
    pub duration: TestDuration,
    pub result: TestCaseOutcome,
}

/// The line that reports a result: its mark, the test, the reason of a
/// failure, and the time taken.
pub open spec fn result_line(r: TestCaseResult) -> Seq<char> {
    let mark = match r.result {
        TestCaseOutcome::Pass => "\u{2705}"@,
        TestCaseOutcome::Fail(_) => "\u{274c}"@,
        TestCaseOutcome::XFail(_) => "\u{26a0}\u{fe0f} "@,
    };
    mark + seq![' '] + r.test@ + seq![' '] + reason_text(r.result) + " [in "@ + duration_text(r.duration)
        + " seconds]"@
}

impl TestCaseResult {
    /// A passed test.
    pub fn pass(test: &str, duration: TestDuration) -> (r: Self)
        ensures
            r.test@ == test@,
            r.duration == duration,
            r.result is Pass,
    {
        TestCaseResult { test: test.to_owned(), duration, result: TestCaseOutcome::Pass }
    }

    /// A failed test, with the reason.
    pub fn fail(test: &str, duration: TestDuration, reason: String) -> (r: Self)
        ensures
            r.test@ == test@,
            r.duration == duration,
            r.result matches TestCaseOutcome::Fail(x) && x@ == reason@,
    {
        TestCaseResult { test: test.to_owned(), duration, result: TestCaseOutcome::Fail(reason) }
    }

    /// A test that failed as it was expected to, with the reason.
    pub fn xfail(test: &str, duration: TestDuration, reason: String) -> (r: Self)
        ensures
            r.test@ == test@,
            r.duration == duration,
            r.result matches TestCaseOutcome::XFail(x) && x@ == reason@,
    {
        TestCaseResult { test: test.to_owned(), duration, result: TestCaseOutcome::XFail(reason) }
    }

    /// The line that reports this result.
    pub fn line(&self) -> (r: String)
        ensures
            r@ == result_line(*self),
    {
        let mut s = String::new();
        push_text(&mut s, self.result.result_emoji());
        push_text(&mut s, " ");
        push_text(&mut s, self.test.as_str());
        push_text(&mut s, " ");
        let reason = self.result.display_error_reason();
        push_text(&mut s, reason.as_str());
        push_text(&mut s, " [in ");
        push_duration(&mut s, self.duration);
        push_text(&mut s, " seconds]");
        proof {
            reveal_strlit(" ");
            assert(s@ =~= result_line(*self));
        }
        s
    }
}


/// Whether `tags` holds the tag `t`.
pub open spec fn has_tag(tags: Seq<String>, t: Seq<char>) -> bool {
    exists|i: int| 0 <= i < tags.len() && tags[i]@ == t
}

/// Whether `tags` holds the tag `t`.
pub fn contains_tag(tags: &[String], t: &str) -> (r: bool)
    ensures
        r == has_tag(tags@, t@),
{
    let wanted = t.to_owned();
    let mut i: usize = 0;
    while i < tags.len()
        invariant
            i <= tags@.len(),
            wanted@ == t@,
            forall|k: int| 0 <= k < i ==> tags@[k]@ != t@,
        decreases tags@.len() - i,
    {
        if tags[i] == wanted {
            return true;
        }
        i += 1;
    }
    false
}

/// Whether a test whose run came out as `first` is run once more: it failed
/// and is tagged as flaky (under either spelling).
pub fn should_retry(tags: &[String], first: &TestCaseResult) -> (r: bool)
    ensures
        r == (first.result is Fail && (has_tag(tags@, "FLAKEY"@) || has_tag(tags@, "FLAKY"@))),
{
    let flaky = contains_tag(tags, "FLAKEY") || contains_tag(tags, "FLAKY");
    flaky && first.result.is_fail()
}

/// The result reported for the test at `path`, given the result of its last
/// run and the time taken by all its runs: a test tagged XFAIL that passes is
/// reported failed, one that fails is reported as an expected failure with
/// the same reason; any other result stands. (A run itself never comes out
/// as an expected failure.)
pub fn expected_outcome(tags: &[String], path: &str, wall: TestDuration, outcome: TestCaseResult) -> (r: TestCaseResult)
    requires
        has_tag(tags@, "XFAIL"@) ==> !(outcome.result is XFail),
    ensures
        !has_tag(tags@, "XFAIL"@) ==> r == outcome,
        has_tag(tags@, "XFAIL"@) && outcome.result is Pass ==> (r.test@ == path@ && r.duration == wall
            && (r.result matches TestCaseOutcome::Fail(x) && x@ == "unexpected pass (XFAIL)"@)),
        has_tag(tags@, "XFAIL"@) && outcome.result is Fail ==> (r.test@ == path@ && r.duration == wall
            && (r.result matches TestCaseOutcome::XFail(x) && x@ == outcome.result->Fail_0@)),
{
    if !contains_tag(tags, "XFAIL") {
        return outcome;
    }
    match outcome.result {
        TestCaseOutcome::Pass => TestCaseResult::fail(path, wall, "unexpected pass (XFAIL)".to_owned()),
        TestCaseOutcome::Fail(reason) => TestCaseResult::xfail(path, wall, reason),
        TestCaseOutcome::XFail(reason) => TestCaseResult::xfail(path, wall, reason),
    }
}

/// Whether a run of the suite that stops at the first failure goes on after
/// the test that came out as `result`.
pub fn keep_going(fail_fast: bool, result: &TestCaseResult) -> (r: bool)
    ensures
        r == !(fail_fast && result.result is Fail),
{
    !(fail_fast && result.result.is_fail())
}

/// Whether some regex of `patterns` matches somewhere in `text`.
pub open spec fn matched_by_any(text: Seq<char>, patterns: Seq<CompiledRegex>) -> bool {
    exists|i: int| 0 <= i < patterns.len() && regex_is_match(#[trigger] patterns[i].pattern_spec(), text)
}

/// Whether the test whose file is named `file_name` is skipped: some skip
/// pattern matches the name. A path without a name, or one that is not valid
/// text, is never skipped.
pub fn should_skip_file_name(file_name: Option<&str>, skip_regex: &[CompiledRegex]) -> (r: bool)
    ensures
        r == (file_name matches Some(f) && matched_by_any(f@, skip_regex@)),
{
    let f = match file_name {
        Some(f) => f,
        None => {
            return false;
        },
    };
    let mut i: usize = 0;
    while i < skip_regex.len()
        invariant
            i <= skip_regex@.len(),
            file_name == Some(f),
            forall|k: int| 0 <= k < i ==> !regex_is_match(#[trigger] skip_regex@[k].pattern_spec(), f@),
        decreases skip_regex@.len() - i,
    {
        if skip_regex[i].any_match(f) {
            proof {
                assert(regex_is_match(skip_regex@[i as int].pattern_spec(), f@));
                assert(matched_by_any(f@, skip_regex@));
            }
            return true;
        }
        i += 1;
    }
    false
}


/// Whether text `a` comes no later than text `b`: character by character, by
/// code point, a text coming before every longer text that it begins.
pub open spec fn text_le(a: Seq<char>, b: Seq<char>) -> bool
    decreases a.len(),
{
    if a.len() == 0 {
        true
    } else if b.len() == 0 {
        false
    } else if a[0] != b[0] {
        a[0] < b[0]
    } else {
        text_le(a.drop_first(), b.drop_first())
    }
}

/// Any two texts are ordered one way or the other.
pub proof fn lemma_text_le_total(a: Seq<char>, b: Seq<char>)
    ensures
        text_le(a, b) || text_le(b, a),
    decreases a.len(),
{
    if a.len() > 0 && b.len() > 0 && a[0] == b[0] {
        lemma_text_le_total(a.drop_first(), b.drop_first());
    }
}

/// The order of texts is transitive.
pub proof fn lemma_text_le_transitive(a: Seq<char>, b: Seq<char>, c: Seq<char>)
    requires
        text_le(a, b),
        text_le(b, c),
    ensures
        text_le(a, c),
    decreases a.len(),
{
    if a.len() > 0 && b.len() > 0 && c.len() > 0 && a[0] == b[0] && b[0] == c[0] {
        lemma_text_le_transitive(a.drop_first(), b.drop_first(), c.drop_first());
    }
}

/// Whether `a` comes before `b` in text order.
pub fn text_le_exec(a: &str, b: &str) -> (r: bool)
    ensures
        r == text_le(a@, b@),
{
    let x = crate::strings::chars_of(a);
    let y = crate::strings::chars_of(b);
    let mut i: usize = 0;
    proof {
        assert(x@.subrange(0, x@.len() as int) =~= x@);
        assert(y@.subrange(0, y@.len() as int) =~= y@);
    }
    while i < x.len() && i < y.len()
        invariant
            i <= x@.len(),
            i <= y@.len(),
            text_le(a@, b@) == text_le(x@.subrange(i as int, x@.len() as int), y@.subrange(i as int, y@.len() as int)),
            x@ == a@,
            y@ == b@,
        decreases x@.len() - i,
    {
        let ghost xs = x@.subrange(i as int, x@.len() as int);
        let ghost ys = y@.subrange(i as int, y@.len() as int);
        if x[i] != y[i] {
            proof {
                assert(xs[0] == x@[i as int]);
                assert(ys[0] == y@[i as int]);
            }
            return x[i] < y[i];
        }
        proof {
            assert(xs.drop_first() =~= x@.subrange(i + 1, x@.len() as int));
            assert(ys.drop_first() =~= y@.subrange(i + 1, y@.len() as int));
        }
        i += 1;
    }
    x.len() <= y.len()
}

/// How the results of a report are ordered.
#[derive(Clone, Copy, Debug, PartialEq, Eq, Structural)]
pub enum SortBy {
    Name,
    Duration,
}

/// Whether result `a` comes no later than result `b` when sorting by `by`.
pub open spec fn result_le(by: SortBy, a: TestCaseResult, b: TestCaseResult) -> bool {
    match by {
        SortBy::Name => text_le(a.test@, b.test@),
        SortBy::Duration => duration_le(a.duration, b.duration),
    }
}

fn result_le_exec(by: SortBy, a: &TestCaseResult, b: &TestCaseResult) -> (r: bool)
    ensures
        r == result_le(by, *a, *b),
{
    match by {
        SortBy::Name => text_le_exec(a.test.as_str(), b.test.as_str()),
        SortBy::Duration => a.duration.secs < b.duration.secs || (a.duration.secs == b.duration.secs
            && a.duration.nanos <= b.duration.nanos),
    }
}

/// Where `x` goes among the sorted `s`: after the last value that comes no
/// later than it.
pub open spec fn insert_pos(by: SortBy, s: Seq<TestCaseResult>, x: TestCaseResult) -> nat
    decreases s.len(),
{
    if s.len() == 0 {
        0
    } else if result_le(by, s.last(), x) {
        s.len()
    } else {
        insert_pos(by, s.drop_last(), x)
    }
}

/// The results `s` sorted by `by`, results that tie keeping their order
/// (as a stable sort leaves them).
pub open spec fn stable_sort(by: SortBy, s: Seq<TestCaseResult>) -> Seq<TestCaseResult>
    decreases s.len(),
{
    if s.len() == 0 {
        s
    } else {
        let sorted = stable_sort(by, s.drop_last());
        sorted.insert(insert_pos(by, sorted, s.last()) as int, s.last())
    }
}

proof fn lemma_insert_pos_bound(by: SortBy, s: Seq<TestCaseResult>, x: TestCaseResult)
    ensures
        insert_pos(by, s, x) <= s.len(),
        insert_pos(by, s, x) > 0 ==> result_le(by, s[insert_pos(by, s, x) - 1], x),
        forall|i: int| insert_pos(by, s, x) <= i < s.len() ==> !result_le(by, #[trigger] s[i], x),
    decreases s.len(),
{
    if s.len() > 0 && !result_le(by, s.last(), x) {
        lemma_insert_pos_bound(by, s.drop_last(), x);
        assert forall|i: int| insert_pos(by, s, x) <= i < s.len() implies !result_le(by, #[trigger] s[i], x) by {
            if i < s.len() - 1 {
                assert(s[i] == s.drop_last()[i]);
            }
        }
    }
}

/// Sorting by duration puts shorter tests first by their whole duration,
/// seconds and then nanoseconds: for any two results, the earlier one has
/// fewer seconds, or as many and no more nanoseconds. Tests within the same
/// second are ordered too.
pub proof fn lemma_sorted_by_duration(s: Seq<TestCaseResult>)
    ensures
        stable_sort(SortBy::Duration, s).len() == s.len(),
        forall|i: int, j: int|
            #![trigger stable_sort(SortBy::Duration, s)[i], stable_sort(SortBy::Duration, s)[j]]
            0 <= i < j < s.len() ==> {
                let a = stable_sort(SortBy::Duration, s)[i].duration;
                let b = stable_sort(SortBy::Duration, s)[j].duration;
                b.secs > a.secs || (b.secs == a.secs && b.nanos >= a.nanos)
            },
{
    lemma_sort_orders(SortBy::Duration, s);
    let t = stable_sort(SortBy::Duration, s);
    t.to_multiset_ensures();
    s.to_multiset_ensures();
    assert forall|i: int, j: int| 0 <= i < j < s.len() implies {
        let a = #[trigger] t[i].duration;
        let b = #[trigger] t[j].duration;
        b.secs > a.secs || (b.secs == a.secs && b.nanos >= a.nanos)
    } by {
        assert(result_le(SortBy::Duration, t[i], t[j]));
    }
}

/// Whether `a` comes no later than `b` in dictionary order by code point:
/// `a` begins `b`, or at the first position where they differ `a` has the
/// smaller character.
pub open spec fn dictionary_before(a: Seq<char>, b: Seq<char>) -> bool {
    ||| (a.len() <= b.len() && forall|j: int| 0 <= j < a.len() ==> #[trigger] a[j] == b[j])
    ||| exists|k: int|
        0 <= k < a.len() && k < b.len() && (forall|j: int| 0 <= j < k ==> #[trigger] a[j] == b[j]) && a[k] < b[k]
}

/// The order in which results are sorted by name is dictionary order by code
/// point.
pub proof fn lemma_text_le_is_dictionary_order(a: Seq<char>, b: Seq<char>)
    ensures
        text_le(a, b) <==> dictionary_before(a, b),
    decreases a.len(),
{
    if a.len() == 0 {
    } else if b.len() == 0 {
    } else if a[0] != b[0] {
        if dictionary_before(a, b) {
            if !(a.len() <= b.len() && forall|j: int| 0 <= j < a.len() ==> #[trigger] a[j] == b[j]) {
                let k = choose|k: int|
                    0 <= k < a.len() && k < b.len() && (forall|j: int| 0 <= j < k ==> #[trigger] a[j] == b[j]) && a[k] < b[k];
                if k > 0 {
                    assert(a[0] == b[0]);
                }
            }
        }
        if a[0] < b[0] {
            assert(dictionary_before(a, b)) by {
                assert(0 <= 0int < a.len() && 0int < b.len() && (forall|j: int| 0 <= j < 0int ==> #[trigger] a[j] == b[j])
                    && a[0] < b[0]);
            }
        }
    } else {
        let a1 = a.drop_first();
        let b1 = b.drop_first();
        lemma_text_le_is_dictionary_order(a1, b1);
        if dictionary_before(a1, b1) {
            if a1.len() <= b1.len() && forall|j: int| 0 <= j < a1.len() ==> #[trigger] a1[j] == b1[j] {
                assert forall|j: int| 0 <= j < a.len() implies #[trigger] a[j] == b[j] by {
                    if j > 0 {
                        assert(a[j] == a1[j - 1] && b[j] == b1[j - 1]);
                    }
                }
            } else {
                let k = choose|k: int|
                    0 <= k < a1.len() && k < b1.len() && (forall|j: int| 0 <= j < k ==> #[trigger] a1[j] == b1[j]) && a1[k] < b1[k];
                assert forall|j: int| 0 <= j < k + 1 implies #[trigger] a[j] == b[j] by {
                    if j > 0 {
                        assert(a[j] == a1[j - 1] && b[j] == b1[j - 1]);
                    }
                }
                assert(a[k + 1] == a1[k] && b[k + 1] == b1[k]);
            }
        }
        if dictionary_before(a, b) {
            if a.len() <= b.len() && forall|j: int| 0 <= j < a.len() ==> #[trigger] a[j] == b[j] {
                assert forall|j: int| 0 <= j < a1.len() implies #[trigger] a1[j] == b1[j] by {
                    assert(a[j + 1] == b[j + 1]);
                }
            } else {
                let k = choose|k: int|
                    0 <= k < a.len() && k < b.len() && (forall|j: int| 0 <= j < k ==> #[trigger] a[j] == b[j]) && a[k] < b[k];
                assert(k > 0);
                assert forall|j: int| 0 <= j < k - 1 implies #[trigger] a1[j] == b1[j] by {
                    assert(a[j + 1] == b[j + 1]);
                }
                assert(a1[k - 1] == a[k] && b1[k - 1] == b[k]);
            }
        }
    }
}

/// Sorting by name puts the results in dictionary order of their names, by
/// code point.
pub proof fn lemma_sorted_by_name(s: Seq<TestCaseResult>)
    ensures
        stable_sort(SortBy::Name, s).len() == s.len(),
        forall|i: int, j: int|
            #![trigger stable_sort(SortBy::Name, s)[i], stable_sort(SortBy::Name, s)[j]]
            0 <= i < j < s.len() ==> dictionary_before(
                stable_sort(SortBy::Name, s)[i].test@,
                stable_sort(SortBy::Name, s)[j].test@,
            ),
{
    lemma_sort_orders(SortBy::Name, s);
    let t = stable_sort(SortBy::Name, s);
    t.to_multiset_ensures();
    s.to_multiset_ensures();
    assert forall|i: int, j: int| 0 <= i < j < s.len() implies dictionary_before(#[trigger] t[i].test@, #[trigger] t[j].test@) by {
        assert(result_le(SortBy::Name, t[i], t[j]));
        lemma_text_le_is_dictionary_order(t[i].test@, t[j].test@);
    }
}

/// Sorts `v` by `by`, stably.
pub fn sort_results(by: SortBy, v: Vec<TestCaseResult>) -> (r: Vec<TestCaseResult>)
    ensures
        r@ == stable_sort(by, v@),
{
    let ghost orig = v@;
    let mut rest = v;
    let mut out: Vec<TestCaseResult> = Vec::new();
    let mut k: usize = 0;
    let n = rest.len();
    proof {
        assert(orig.subrange(0, 0) =~= Seq::<TestCaseResult>::empty());
        assert(orig.subrange(0, orig.len() as int) =~= orig);
    }
    while rest.len() > 0
        invariant
            k <= orig.len(),
            n == orig.len(),
            rest@.len() == orig.len() - k,
            rest@ == orig.subrange(k as int, orig.len() as int),
            out@ == stable_sort(by, orig.subrange(0, k as int)),
        decreases rest@.len(),
    {
        let x = rest.remove(0);
        let mut j: usize = out.len();
        proof {
            assert(out@.subrange(0, out@.len() as int) =~= out@);
        }
        while j > 0 && !result_le_exec(by, &out[j - 1], &x)
            invariant
                j <= out@.len(),
                insert_pos(by, out@, x) == insert_pos(by, out@.subrange(0, j as int), x),
            decreases j,
        {
            proof {
                assert(out@.subrange(0, j as int).drop_last() =~= out@.subrange(0, j - 1));
            }
            j -= 1;
        }
        proof {
            assert(out@.subrange(0, out@.len() as int) =~= out@);
            if j == 0 {
                assert(out@.subrange(0, 0) =~= Seq::<TestCaseResult>::empty());
            }
            let pre = orig.subrange(0, k + 1);
            assert(pre.drop_last() =~= orig.subrange(0, k as int));
            assert(pre.last() == x);
        }
        out.insert(j, x);
        k += 1;
        proof {
            assert(rest@ =~= orig.subrange(k as int, orig.len() as int));
        }
    }
    proof {
        assert(orig.subrange(0, k as int) =~= orig);
    }
    out
}

/// Whether `s` is in order under `by`.
pub open spec fn results_sorted(by: SortBy, s: Seq<TestCaseResult>) -> bool {
    forall|i: int, j: int| 0 <= i < j < s.len() ==> result_le(by, #[trigger] s[i], #[trigger] s[j])
}

proof fn lemma_result_le_total(by: SortBy, a: TestCaseResult, b: TestCaseResult)
    ensures
        result_le(by, a, b) || result_le(by, b, a),
{
    if by == SortBy::Name {
        lemma_text_le_total(a.test@, b.test@);
    }
}

proof fn lemma_result_le_transitive(by: SortBy, a: TestCaseResult, b: TestCaseResult, c: TestCaseResult)
    requires
        result_le(by, a, b),
        result_le(by, b, c),
    ensures
        result_le(by, a, c),
{
    if by == SortBy::Name {
        lemma_text_le_transitive(a.test@, b.test@, c.test@);
    }
}

/// Sorting gives the same results, each as often, in order.
pub proof fn lemma_sort_orders(by: SortBy, s: Seq<TestCaseResult>)
    ensures
        stable_sort(by, s).to_multiset() == s.to_multiset(),
        results_sorted(by, stable_sort(by, s)),
    decreases s.len(),
{
    if s.len() > 0 {
        let rest = s.drop_last();
        let x = s.last();
        lemma_sort_orders(by, rest);
        let sorted = stable_sort(by, rest);
        let p = insert_pos(by, sorted, x) as int;
        lemma_insert_pos_bound(by, sorted, x);
        let r = sorted.insert(p, x);
        assert(r =~= sorted.subrange(0, p) + seq![x] + sorted.subrange(p, sorted.len() as int));
        vstd::seq_lib::lemma_multiset_commutative(sorted.subrange(0, p) + seq![x], sorted.subrange(p, sorted.len() as int));
        vstd::seq_lib::lemma_multiset_commutative(sorted.subrange(0, p), seq![x]);
        vstd::seq_lib::lemma_multiset_commutative(sorted.subrange(0, p), sorted.subrange(p, sorted.len() as int));
        assert(sorted =~= sorted.subrange(0, p) + sorted.subrange(p, sorted.len() as int));
        assert(s =~= rest.push(x));
        vstd::seq_lib::lemma_multiset_commutative(rest, seq![x]);
        assert(rest.push(x) =~= rest + seq![x]);
        assert forall|i: int, j: int| 0 <= i < j < r.len() implies result_le(by, #[trigger] r[i], #[trigger] r[j]) by {
            if j < p {
                assert(r[i] == sorted[i] && r[j] == sorted[j]);
            } else if j == p {
                assert(r[j] == x);
                assert(r[i] == sorted[i]);
                if i < p - 1 {
                    assert(result_le(by, sorted[i], sorted[p - 1]));
                    lemma_result_le_transitive(by, sorted[i], sorted[p - 1], x);
                }
            } else if i == p {
                assert(r[i] == x);
                assert(r[j] == sorted[j - 1]);
                assert(!result_le(by, sorted[j - 1], x));
                lemma_result_le_total(by, sorted[j - 1], x);
            } else if i < p {
                assert(r[i] == sorted[i] && r[j] == sorted[j - 1]);
            } else {
                assert(r[i] == sorted[i - 1] && r[j] == sorted[j - 1]);
            }
        }
    } else {
        assert(stable_sort(by, s) == s);
    }
}


/// The results of a run of the suite, grouped by how they came out, with the
/// time the run took.
pub struct SuiteReport {
    passes: Vec<TestCaseResult>,
    fails: Vec<TestCaseResult>,
    xfails: Vec<TestCaseResult>,
    duration: TestDuration,
}

/// The lines reporting `rs`, each ended by a newline.
pub open spec fn lines_text(rs: Seq<TestCaseResult>) -> Seq<char>
    decreases rs.len(),
{
    if rs.len() == 0 {
        Seq::empty()
    } else {
        lines_text(rs.drop_last()) + result_line(rs.last()) + seq!['\n']
    }
}

fn push_lines(s: &mut String, rs: &Vec<TestCaseResult>)
    ensures
        final(s)@ == old(s)@ + lines_text(rs@),
{
    let mut i: usize = 0;
    proof {
        assert(rs@.subrange(0, 0) =~= Seq::<TestCaseResult>::empty());
        assert(old(s)@ + lines_text(Seq::<TestCaseResult>::empty()) =~= old(s)@);
    }
    while i < rs.len()
        invariant
            i <= rs@.len(),
            s@ == old(s)@ + lines_text(rs@.subrange(0, i as int)),
        decreases rs@.len() - i,
    {
        let line = rs[i].line();
        push_text(s, line.as_str());
        push_text(s, "\n");
        proof {
            reveal_strlit("\n");
            let pre = rs@.subrange(0, i + 1);
            assert(pre.drop_last() =~= rs@.subrange(0, i as int));
            assert(s@ =~= old(s)@ + lines_text(pre));
        }
        i += 1;
    }
    proof {
        assert(rs@.subrange(0, rs@.len() as int) =~= rs@);
    }
}

impl SuiteReport {
    /// The passed tests.
    pub closed spec fn passes_spec(&self) -> Seq<TestCaseResult> {
        self.passes@
    }

    /// The failed tests.
    pub closed spec fn fails_spec(&self) -> Seq<TestCaseResult> {
        self.fails@
    }

    /// The tests that failed as expected.
    pub closed spec fn xfails_spec(&self) -> Seq<TestCaseResult> {
        self.xfails@
    }

    /// The time the run took.
    pub closed spec fn duration_spec(&self) -> TestDuration {
        self.duration
    }

    /// A report with no result yet.
    pub fn new(duration: TestDuration) -> (r: Self)
        ensures
            r.passes_spec() == Seq::<TestCaseResult>::empty(),
            r.fails_spec() == Seq::<TestCaseResult>::empty(),
            r.xfails_spec() == Seq::<TestCaseResult>::empty(),
            r.duration_spec() == duration,
    {
        SuiteReport { passes: Vec::new(), fails: Vec::new(), xfails: Vec::new(), duration }
    }

    /// Sets the time the run took.
    pub fn set_duration(&mut self, duration: TestDuration)
        ensures
            final(self).duration_spec() == duration,
            final(self).passes_spec() == old(self).passes_spec(),
            final(self).fails_spec() == old(self).fails_spec(),
            final(self).xfails_spec() == old(self).xfails_spec(),
    {
        self.duration = duration;
    }

    /// The number of failed tests.
    pub fn num_fails(&self) -> (r: usize)
        ensures
            r == self.fails_spec().len(),
    {
        self.fails.len()
    }

    /// The number of passed tests.
    pub fn num_passes(&self) -> (r: usize)
        ensures
            r == self.passes_spec().len(),
    {
        self.passes.len()
    }

    /// The number of tests that failed as expected.
    pub fn num_xfails(&self) -> (r: usize)
        ensures
            r == self.xfails_spec().len(),
    {
        self.xfails.len()
    }

    /// The number of tests reported.
    pub fn len(&self) -> (r: usize)
        requires
            self.fails_spec().len() + self.passes_spec().len() + self.xfails_spec().len() <= usize::MAX,
        ensures
            r == self.fails_spec().len() + self.passes_spec().len() + self.xfails_spec().len(),
    {
        self.num_fails() + self.num_passes() + self.num_xfails()
    }

    /// Records a passed test.
    pub fn pass(&mut self, result: TestCaseResult)
        ensures
            final(self).passes_spec() == old(self).passes_spec().push(result),
            final(self).fails_spec() == old(self).fails_spec(),
            final(self).xfails_spec() == old(self).xfails_spec(),
            final(self).duration_spec() == old(self).duration_spec(),
    {
        self.passes.push(result);
    }

    /// Records a failed test.
    pub fn fail(&mut self, result: TestCaseResult)
        ensures
            final(self).fails_spec() == old(self).fails_spec().push(result),
            final(self).passes_spec() == old(self).passes_spec(),
            final(self).xfails_spec() == old(self).xfails_spec(),
            final(self).duration_spec() == old(self).duration_spec(),
    {
        self.fails.push(result);
    }

    /// Records a test that failed as expected.
    pub fn xfail(&mut self, result: TestCaseResult)
        ensures
            final(self).xfails_spec() == old(self).xfails_spec().push(result),
            final(self).passes_spec() == old(self).passes_spec(),
            final(self).fails_spec() == old(self).fails_spec(),
            final(self).duration_spec() == old(self).duration_spec(),
    {
        self.xfails.push(result);
    }

    /// Records a result in the group its outcome belongs to.
    pub fn record(&mut self, result: TestCaseResult)
        ensures
            result.result is Pass ==> final(self).passes_spec() == old(self).passes_spec().push(result)
                && final(self).fails_spec() == old(self).fails_spec() && final(self).xfails_spec() == old(self).xfails_spec(),
            result.result is Fail ==> final(self).fails_spec() == old(self).fails_spec().push(result)
                && final(self).passes_spec() == old(self).passes_spec() && final(self).xfails_spec() == old(self).xfails_spec(),
            result.result is XFail ==> final(self).xfails_spec() == old(self).xfails_spec().push(result)
                && final(self).passes_spec() == old(self).passes_spec() && final(self).fails_spec() == old(self).fails_spec(),
            final(self).duration_spec() == old(self).duration_spec(),
    {
        match &result.result {
            TestCaseOutcome::Pass => self.pass(result),
            TestCaseOutcome::Fail(_) => self.fail(result),
            TestCaseOutcome::XFail(_) => self.xfail(result),
        }
    }

    /// Sorts each group of results by `by`, stably.
    pub fn sort(&mut self, by: SortBy)
        ensures
            final(self).passes_spec() == stable_sort(by, old(self).passes_spec()),
            final(self).fails_spec() == stable_sort(by, old(self).fails_spec()),
            final(self).xfails_spec() == stable_sort(by, old(self).xfails_spec()),
            final(self).duration_spec() == old(self).duration_spec(),
    {
        let mut passes: Vec<TestCaseResult> = Vec::new();
        std::mem::swap(&mut passes, &mut self.passes);
        self.passes = sort_results(by, passes);
        let mut fails: Vec<TestCaseResult> = Vec::new();
        std::mem::swap(&mut fails, &mut self.fails);
        self.fails = sort_results(by, fails);
        let mut xfails: Vec<TestCaseResult> = Vec::new();
        std::mem::swap(&mut xfails, &mut self.xfails);
        self.xfails = sort_results(by, xfails);
    }

    /// Whether the run succeeded: no test failed.
    pub fn succeeded(&self) -> (r: bool)
        ensures
            r == (self.fails_spec().len() == 0),
    {
        self.fails.len() == 0
    }

    /// The report: a line per passed test, then per expected failure, then per
    /// failure, and a summary line with the counts and the time taken.
    pub fn text(&self) -> (r: String)
        requires
            self.fails_spec().len() + self.passes_spec().len() + self.xfails_spec().len() <= usize::MAX,
        ensures
            r@ == report_text(*self),
    {
        let mut s = String::new();
        push_lines(&mut s, &self.passes);
        push_lines(&mut s, &self.xfails);
        push_lines(&mut s, &self.fails);
        push_decimal(&mut s, self.len() as u64);
        push_text(&mut s, " tests total - ");
        push_decimal(&mut s, self.num_passes() as u64);
        push_text(&mut s, " passed, ");
        push_decimal(&mut s, self.num_fails() as u64);
        push_text(&mut s, " failed, ");
        push_decimal(&mut s, self.num_xfails() as u64);
        push_text(&mut s, " xfailed - in ");
        push_duration(&mut s, self.duration);
        push_text(&mut s, " seconds");
        proof {
            assert(s@ =~= report_text(*self));
        }
        s
    }
}

/// The text of a report.
pub open spec fn report_text(r: SuiteReport) -> Seq<char> {
    let total = r.fails_spec().len() + r.passes_spec().len() + r.xfails_spec().len();
    lines_text(r.passes_spec()) + lines_text(r.xfails_spec()) + lines_text(r.fails_spec()) + decimal(total as nat)
        + " tests total - "@ + decimal(r.passes_spec().len()) + " passed, "@ + decimal(r.fails_spec().len())
        + " failed, "@ + decimal(r.xfails_spec().len()) + " xfailed - in "@ + duration_text(r.duration_spec())
        + " seconds"@
}

/// Groups `results` by how they came out, keeping their order within each
/// group, into a report of a run that took `duration`.
pub fn report_from_results(results: Vec<TestCaseResult>, duration: TestDuration) -> (r: SuiteReport)
    ensures
        r.passes_spec() == results@.filter(|x: TestCaseResult| x.result is Pass),
        r.fails_spec() == results@.filter(|x: TestCaseResult| x.result is Fail),
        r.xfails_spec() == results@.filter(|x: TestCaseResult| x.result is XFail),
        r.duration_spec() == duration,
{
    let ghost orig = results@;
    let mut report = SuiteReport::new(duration);
    let mut rest = results;
    let mut k: usize = 0;
    let n = rest.len();
    proof {
        assert(orig.subrange(0, 0) =~= Seq::<TestCaseResult>::empty());
        assert(orig.subrange(0, orig.len() as int) =~= orig);
    }
    while rest.len() > 0
        invariant
            k <= orig.len(),
            n == orig.len(),
            rest@.len() == orig.len() - k,
            rest@ == orig.subrange(k as int, orig.len() as int),
            report.passes_spec() == orig.subrange(0, k as int).filter(|x: TestCaseResult| x.result is Pass),
            report.fails_spec() == orig.subrange(0, k as int).filter(|x: TestCaseResult| x.result is Fail),
            report.xfails_spec() == orig.subrange(0, k as int).filter(|x: TestCaseResult| x.result is XFail),
            report.duration_spec() == duration,
        decreases rest@.len(),
    {
        let x = rest.remove(0);
        proof {
            let pre = orig.subrange(0, k + 1);
            assert(pre.drop_last() =~= orig.subrange(0, k as int));
            assert(pre.last() == x);
            reveal(Seq::filter);
        }
        report.record(x);
        k += 1;
        proof {
            assert(rest@ =~= orig.subrange(k as int, orig.len() as int));
        }
    }
    proof {
        assert(orig.subrange(0, k as int) =~= orig);
    }
    report
}


/// The pattern of a line that lists tags: `### TAGS:` and the list, in any
/// case, white space allowed around.
pub open spec fn tags_pattern() -> Seq<char> {
    "(?i)^\\s*###\\s*TAGS:\\s*(.+)\\s*$"@
}

/// The regex that finds the tags listed on a line.
pub fn tags_regex() -> (r: Result<CompiledRegex, String>)
    ensures
        r is Ok <==> crate::regex_ops::regex_compiles(tags_pattern()),
        r matches Ok(re) ==> re.pattern_spec() == tags_pattern(),
{
    CompiledRegex::new("(?i)^\\s*###\\s*TAGS:\\s*(.+)\\s*$")
}

/// The tag that a listed piece stands for: trimmed, in ASCII upper case.
pub open spec fn tag_of_piece(piece: Seq<char>) -> Seq<char> {
    trim_spec(piece).map_values(|c: char| ascii_upper_char(c))
}

/// The pieces listed on `line`: the list that the regex of `pattern` captures
/// there, split at commas, each taken as a tag.
pub open spec fn line_tags(pattern: Seq<char>, line: Seq<char>) -> Seq<Seq<char>> {
    match regex_first_group(pattern, line) {
        Some(list) => split_spec(list, seq![',']).map_values(|p: Seq<char>| tag_of_piece(p)),
        None => Seq::empty(),
    }
}

/// Whether `t` is a tag of `text`: it is not empty and some line lists it.
pub open spec fn is_tag_of(pattern: Seq<char>, text: Seq<char>, t: Seq<char>) -> bool {
    t.len() > 0 && exists|i: int, j: int|
        0 <= i < lines_spec(text).len() && 0 <= j < line_tags(pattern, lines_spec(text)[i]).len()
            && #[trigger] line_tags(pattern, lines_spec(text)[i])[j] == t
}

/// Whether `t` occurs in `v`.
pub open spec fn contains_text(v: Seq<Seq<char>>, t: Seq<char>) -> bool {
    exists|k: int| 0 <= k < v.len() && v[k] == t
}

/// Whether no text occurs twice in `v`.
pub open spec fn distinct_texts(v: Seq<Seq<char>>) -> bool {
    forall|a: int, b: int| 0 <= a < v.len() && 0 <= b < v.len() && a != b ==> v[a] != v[b]
}

fn add_unique(tags: &mut Vec<String>, t: String)
    requires
        distinct_texts(strings_view(old(tags)@)),
    ensures
        distinct_texts(strings_view(final(tags)@)),
        forall|x: Seq<char>| contains_text(strings_view(final(tags)@), x) <==> (contains_text(strings_view(old(tags)@), x)
            || x == t@),
{
    let ghost before = strings_view(tags@);
    let mut i: usize = 0;
    while i < tags.len()
        invariant
            i <= tags@.len(),
            before == strings_view(tags@),
            distinct_texts(before),
            forall|k: int| 0 <= k < i ==> before[k] != t@,
        decreases tags@.len() - i,
    {
        if tags[i] == t {
            proof {
                assert(before[i as int] == t@);
            }
            return;
        }
        i += 1;
    }
    let ghost tv = t@;
    tags.push(t);
    proof {
        assert(strings_view(tags@) =~= before.push(tv));
        assert forall|x: Seq<char>| contains_text(strings_view(tags@), x) <==> (contains_text(before, x) || x == tv) by {
            if contains_text(before, x) {
                let k = choose|k: int| 0 <= k < before.len() && before[k] == x;
                assert(strings_view(tags@)[k] == x);
            }
            if x == tv {
                assert(strings_view(tags@)[before.len() as int] == x);
            }
            if contains_text(strings_view(tags@), x) {
                let k = choose|k: int| 0 <= k < strings_view(tags@).len() && strings_view(tags@)[k] == x;
                if k < before.len() {
                    assert(before[k] == x);
                }
            }
        }
    }
}

fn add_line_tags(tags: &mut Vec<String>, pieces: &Vec<String>)
    requires
        distinct_texts(strings_view(old(tags)@)),
    ensures
        distinct_texts(strings_view(final(tags)@)),
        forall|x: Seq<char>| contains_text(strings_view(final(tags)@), x) <==> (contains_text(strings_view(old(tags)@), x)
            || (x.len() > 0 && exists|j: int| 0 <= j < pieces@.len() && #[trigger] tag_of_piece(pieces@[j]@) == x)),
{
    let mut i: usize = 0;
    while i < pieces.len()
        invariant
            i <= pieces@.len(),
            distinct_texts(strings_view(tags@)),
            forall|x: Seq<char>| contains_text(strings_view(tags@), x) <==> (contains_text(strings_view(old(tags)@), x)
                || (x.len() > 0 && exists|j: int| 0 <= j < i && #[trigger] tag_of_piece(pieces@[j]@) == x)),
        decreases pieces@.len() - i,
    {
        let t = crate::strings::trim(pieces[i].as_str());
        let u = crate::strings::ascii_uppercase(t.as_str());
        let ghost mid = strings_view(tags@);
        proof {
            assert(u@ == tag_of_piece(pieces@[i as int]@));
        }
        if t.unicode_len() > 0 {
            add_unique(tags, u);
        }
        proof {
            assert forall|x: Seq<char>| contains_text(strings_view(tags@), x) <==> (contains_text(strings_view(old(tags)@), x)
                || (x.len() > 0 && exists|j: int| 0 <= j < i + 1 && #[trigger] tag_of_piece(pieces@[j]@) == x)) by {
                if x.len() > 0 && exists|j: int| 0 <= j < i + 1 && #[trigger] tag_of_piece(pieces@[j]@) == x {
                    let j = choose|j: int| 0 <= j < i + 1 && #[trigger] tag_of_piece(pieces@[j]@) == x;
                    if j < i {
                        assert(exists|j: int| 0 <= j < i && #[trigger] tag_of_piece(pieces@[j]@) == x);
                    }
                }
                if x.len() > 0 && exists|j: int| 0 <= j < i && #[trigger] tag_of_piece(pieces@[j]@) == x {
                    let j = choose|j: int| 0 <= j < i && #[trigger] tag_of_piece(pieces@[j]@) == x;
                    assert(0 <= j < i + 1 && tag_of_piece(pieces@[j]@) == x);
                }
            }
        }
        i += 1;
    }
}

/// The tags that `text` lists, each once, found with the regex `tags_re`
/// (by the runner, the one of `tags_regex`).
pub fn parse_tags(text: &str, tags_re: &CompiledRegex) -> (r: Vec<String>)
    ensures
        distinct_texts(strings_view(r@)),
        forall|t: Seq<char>| contains_text(strings_view(r@), t) <==> is_tag_of(tags_re.pattern_spec(), text@, t),
{
    let ls = crate::strings::lines(text);
    let ghost p = tags_re.pattern_spec();
    let ghost all = lines_spec(text@);
    let mut tags: Vec<String> = Vec::new();
    let mut i: usize = 0;
    while i < ls.len()
        invariant
            i <= ls@.len(),
            strings_view(ls@) == all,
            all == lines_spec(text@),
            p == tags_re.pattern_spec(),
            distinct_texts(strings_view(tags@)),
            forall|x: Seq<char>| contains_text(strings_view(tags@), x) <==> (x.len() > 0 && exists|a: int, j: int|
                0 <= a < i && 0 <= j < line_tags(p, all[a]).len() && #[trigger] line_tags(p, all[a])[j] == x),
        decreases ls@.len() - i,
    {
        let ghost line = all[i as int];
        let ghost before = strings_view(tags@);
        proof {
            assert(strings_view(ls@)[i as int] == ls@[i as int]@);
        }
        match tags_re.first_group(ls[i].as_str()) {
            Some(list) => {
                let pieces = crate::strings::split(list.as_str(), ",");
                proof {
                    reveal_strlit(",");
                    assert(","@ =~= seq![',']);
                    assert forall|j: int| 0 <= j < pieces@.len() implies tag_of_piece(#[trigger] pieces@[j]@) == line_tags(p, line)[j] by {
                        assert(strings_view(pieces@)[j] == pieces@[j]@);
                    }
                }
                add_line_tags(&mut tags, &pieces);
                proof {
                    assert forall|x: Seq<char>| contains_text(strings_view(tags@), x) <==> (x.len() > 0 && exists|a: int, j: int|
                        0 <= a < i + 1 && 0 <= j < line_tags(p, all[a]).len() && #[trigger] line_tags(p, all[a])[j] == x) by {
                        if x.len() > 0 && exists|a: int, j: int|
                            0 <= a < i + 1 && 0 <= j < line_tags(p, all[a]).len() && #[trigger] line_tags(p, all[a])[j] == x {
                            let (a, j) = choose|a: int, j: int|
                                0 <= a < i + 1 && 0 <= j < line_tags(p, all[a]).len() && #[trigger] line_tags(p, all[a])[j] == x;
                            if a == i {
                                assert(tag_of_piece(pieces@[j]@) == x);
                            }
                        }
                        if x.len() > 0 && exists|j: int| 0 <= j < pieces@.len() && #[trigger] tag_of_piece(pieces@[j]@) == x {
                            let j = choose|j: int| 0 <= j < pieces@.len() && #[trigger] tag_of_piece(pieces@[j]@) == x;
                            assert(line_tags(p, all[i as int])[j] == x);
                        }
                    }
                }
            },
            None => {
                proof {
                    assert(line_tags(p, line).len() == 0);
                    assert forall|x: Seq<char>| contains_text(strings_view(tags@), x) <==> (x.len() > 0 && exists|a: int, j: int|
                        0 <= a < i + 1 && 0 <= j < line_tags(p, all[a]).len() && #[trigger] line_tags(p, all[a])[j] == x) by {
                        if x.len() > 0 && exists|a: int, j: int|
                            0 <= a < i + 1 && 0 <= j < line_tags(p, all[a]).len() && #[trigger] line_tags(p, all[a])[j] == x {
                            let (a, j) = choose|a: int, j: int|
                                0 <= a < i + 1 && 0 <= j < line_tags(p, all[a]).len() && #[trigger] line_tags(p, all[a])[j] == x;
                            assert(a != i);
                        }
                    }
                }
            },
        }
        i += 1;
    }
    tags
}


/// Every result lands in exactly one group of a report: the groups together
/// hold as many results as were run.
pub proof fn lemma_groups_partition(results: Seq<TestCaseResult>)
    ensures
        results.filter(|x: TestCaseResult| x.result is Pass).len() + results.filter(|x: TestCaseResult| x.result is Fail).len()
            + results.filter(|x: TestCaseResult| x.result is XFail).len() == results.len(),
    decreases results.len(),
{
    reveal(Seq::filter);
    if results.len() > 0 {
        lemma_groups_partition(results.drop_last());
    }
}

} // verus!
