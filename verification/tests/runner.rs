use haxby::regex_ops::CompiledRegex;
use haxby::test_runner::{
    contains_tag, expected_outcome, keep_going, parse_tags, report_from_results, should_retry, should_skip_file_name,
    sort_results, tags_regex, text_le_exec, SortBy, SuiteReport, TestCaseOutcome, TestCaseResult, TestDuration,
};

fn d(secs: u64, ms: u32) -> TestDuration {
    TestDuration { secs, nanos: ms * 1_000_000 }
}

#[test]
fn result_lines() {
    let p = TestCaseResult::pass("basic.aria", d(1, 5));
    assert_eq!(p.line(), "\u{2705} basic.aria  [in 1.005 seconds]");
    let f = TestCaseResult::fail("math.aria", d(0, 250), "assertion failed".to_owned());
    assert_eq!(f.line(), "\u{274c} math.aria [assertion failed] [in 0.250 seconds]");
    let x = TestCaseResult::xfail("todo.aria", d(12, 0), "later".to_owned());
    assert_eq!(x.line(), "\u{26a0}\u{fe0f}  todo.aria  [in 12.000 seconds]");
    assert_eq!(TestCaseOutcome::Fail("r".to_owned()).display_error_reason(), "[r]");
    assert_eq!(TestCaseOutcome::Pass.result_emoji(), "\u{2705}");
}

#[test]
fn flaky_tests_retry_only_after_failing() {
    let tags = vec!["FLAKY".to_owned()];
    let failed = TestCaseResult::fail("t", d(0, 1), "x".to_owned());
    let passed = TestCaseResult::pass("t", d(0, 1));
    assert!(should_retry(&tags, &failed));
    assert!(!should_retry(&tags, &passed));
    assert!(should_retry(&["FLAKEY".to_owned()], &failed));
    assert!(!should_retry(&["XFAIL".to_owned()], &failed));
    assert!(contains_tag(&tags, "FLAKY"));
    assert!(!contains_tag(&tags, "flaky"));
}

#[test]
fn expected_failures_invert_the_outcome() {
    let tags = vec!["XFAIL".to_owned()];
    let r = expected_outcome(&tags, "a.aria", d(2, 0), TestCaseResult::pass("a.aria", d(1, 0)));
    assert!(matches!(r.result, TestCaseOutcome::Fail(ref m) if m == "unexpected pass (XFAIL)"));
    assert_eq!(r.duration, d(2, 0));
    let r = expected_outcome(&tags, "a.aria", d(2, 0), TestCaseResult::fail("a.aria", d(1, 0), "boom".to_owned()));
    assert!(matches!(r.result, TestCaseOutcome::XFail(ref m) if m == "boom"));
    let r = expected_outcome(&[], "a.aria", d(2, 0), TestCaseResult::pass("a.aria", d(1, 0)));
    assert!(matches!(r.result, TestCaseOutcome::Pass));
    assert_eq!(r.duration, d(1, 0));
    assert!(keep_going(false, &TestCaseResult::fail("t", d(0, 0), String::new())));
    assert!(!keep_going(true, &TestCaseResult::fail("t", d(0, 0), String::new())));
    assert!(keep_going(true, &TestCaseResult::pass("t", d(0, 0))));
}

#[test]
fn tags_are_read_from_marked_lines() {
    let re = tags_regex().unwrap();
    let text = "### TAGS: flaky, Slow ,,\nfunc main() {}\n  ###tags:XFAIL\r\n# TAGS: ignored\n";
    let mut tags = parse_tags(text, &re);
    tags.sort();
    assert_eq!(tags, vec!["FLAKY", "SLOW", "XFAIL"]);
    assert!(parse_tags("nothing here", &re).is_empty());
    let twice = parse_tags("### TAGS: a\n### TAGS: A, b", &re);
    assert_eq!(twice.len(), 2);
}

#[test]
fn skip_patterns_match_file_names() {
    let skip = vec![CompiledRegex::new("^slow_").unwrap(), CompiledRegex::new("net").unwrap()];
    assert!(should_skip_file_name(Some("slow_sort.aria"), &skip));
    assert!(should_skip_file_name(Some("network.aria"), &skip));
    assert!(!should_skip_file_name(Some("fast.aria"), &skip));
    assert!(!should_skip_file_name(None, &skip));
    assert!(!should_skip_file_name(Some("slow_sort.aria"), &[]));
}

#[test]
fn sorting_is_stable_and_ordered() {
    let rs = vec![
        TestCaseResult::pass("b", d(3, 0)),
        TestCaseResult::pass("a", d(1, 0)),
        TestCaseResult::pass("c", d(1, 0)),
        TestCaseResult::pass("ab", d(0, 500)),
    ];
    let by_name: Vec<String> = sort_results(SortBy::Name, rs).into_iter().map(|r| r.test).collect();
    assert_eq!(by_name, vec!["a", "ab", "b", "c"]);
    let rs = vec![
        TestCaseResult::pass("b", d(3, 0)),
        TestCaseResult::pass("a", d(1, 0)),
        TestCaseResult::pass("c", d(1, 0)),
        TestCaseResult::pass("ab", d(0, 500)),
    ];
    let by_time: Vec<String> = sort_results(SortBy::Duration, rs).into_iter().map(|r| r.test).collect();
    assert_eq!(by_time, vec!["ab", "a", "c", "b"]);
    assert!(text_le_exec("abc", "abd"));
    assert!(text_le_exec("ab", "abc"));
    assert!(!text_le_exec("b", "abc"));
}

#[test]
fn reports_group_count_and_print() {
    let results = vec![
        TestCaseResult::fail("z", d(0, 1), "bad".to_owned()),
        TestCaseResult::pass("p", d(0, 2)),
        TestCaseResult::xfail("x", d(0, 3), "known".to_owned()),
        TestCaseResult::pass("a", d(0, 4)),
    ];
    let mut report = report_from_results(results, d(1, 0));
    assert_eq!(report.num_passes(), 2);
    assert_eq!(report.num_fails(), 1);
    assert_eq!(report.num_xfails(), 1);
    assert_eq!(report.len(), 4);
    assert!(!report.succeeded());
    report.sort(SortBy::Name);
    let expected = [
        "\u{2705} a  [in 0.004 seconds]\n",
        "\u{2705} p  [in 0.002 seconds]\n",
        "\u{26a0}\u{fe0f}  x  [in 0.003 seconds]\n",
        "\u{274c} z [bad] [in 0.001 seconds]\n",
        "4 tests total - 2 passed, 1 failed, 1 xfailed - in 1.000 seconds",
    ]
    .concat();
    assert_eq!(report.text(), expected);
    let mut empty = SuiteReport::new(d(0, 0));
    assert!(empty.succeeded());
    empty.record(TestCaseResult::pass("only", d(0, 0)));
    assert_eq!(empty.num_passes(), 1);
    empty.set_duration(d(5, 0));
    assert!(empty.text().ends_with("in 5.000 seconds"));
}
