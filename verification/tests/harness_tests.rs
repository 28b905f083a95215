use kdl_test::{
    contains_name, evaluate, json_eq, load, DecoderExe, Expectation, InvalidTestCase, Json,
    LoadError, RunSummary, TestFile, TestFiles, TestVerdict, ValidTestCase,
};

fn canonical_empty_doc() -> Json {
    Json::Array(Vec::new())
}

fn file(path: &str, data: &[u8], json: Option<Json>) -> TestFile {
    TestFile { path: String::from(path), data: data.to_vec(), json }
}

#[test]
fn invalid_fixture_fails_on_decoder_success() {
    let case = InvalidTestCase { name: String::from("invalid/x.kdl"), input: vec![b'x'] };
    let verdict = case.get_result(true, String::from("[]"));
    assert!(matches!(verdict, TestVerdict::ExpectedFailure { .. }));
}

#[test]
fn invalid_fixture_passes_on_decoder_failure() {
    let case = InvalidTestCase { name: String::from("invalid/x.kdl"), input: vec![b'x'] };
    let verdict = case.get_result(false, String::new());
    assert!(matches!(verdict, TestVerdict::Pass));
}

#[test]
fn valid_fixture_passes_on_matching_output() {
    let case = ValidTestCase {
        name: String::from("valid/x.kdl"),
        input: Vec::new(),
        expected: canonical_empty_doc(),
    };
    let verdict = case.get_result(
        true,
        String::from("[]"),
        String::new(),
        Some(canonical_empty_doc()),
    );
    assert!(matches!(verdict, TestVerdict::Pass));
}

#[test]
fn valid_fixture_fails_on_mismatch() {
    let case = ValidTestCase {
        name: String::from("valid/x.kdl"),
        input: Vec::new(),
        expected: canonical_empty_doc(),
    };
    let actual = Json::Array(vec![Json::Null]);
    let verdict = case.get_result(true, String::from("[null]"), String::new(), Some(actual));
    match verdict {
        TestVerdict::Mismatch { expected, actual } => {
            assert!(json_eq(&expected, &canonical_empty_doc()));
            assert!(json_eq(&actual, &Json::Array(vec![Json::Null])));
        }
        other => panic!("expected a mismatch, got {:?}", other),
    }
}

#[test]
fn valid_fixture_fails_on_decoder_failure() {
    let case = ValidTestCase {
        name: String::from("valid/x.kdl"),
        input: Vec::new(),
        expected: canonical_empty_doc(),
    };
    let verdict = case.get_result(false, String::new(), String::from("boom"), None);
    match verdict {
        TestVerdict::ExpectedSuccess { stderr } => assert_eq!(stderr, "boom"),
        other => panic!("expected failure report, got {:?}", other),
    }
}

#[test]
fn valid_fixture_fails_on_unreadable_output() {
    let case = ValidTestCase {
        name: String::from("valid/x.kdl"),
        input: Vec::new(),
        expected: canonical_empty_doc(),
    };
    let verdict = case.get_result(true, String::from("not json"), String::new(), None);
    assert!(matches!(verdict, TestVerdict::UnreadableOutput { .. }));
}

#[test]
fn evaluate_judges_failure_expectation() {
    let verdict = evaluate(Expectation::Failure, false, String::new(), String::new(), None);
    assert!(matches!(verdict, TestVerdict::Pass));
    let verdict = evaluate(Expectation::Failure, true, String::from("out"), String::new(), None);
    assert!(matches!(verdict, TestVerdict::ExpectedFailure { .. }));
}

#[test]
fn load_pairs_fixtures() {
    let files = TestFiles::new(vec![
        file("valid/a.kdl", b"a 1", None),
        file("valid/a.json", b"[]", Some(canonical_empty_doc())),
        file("invalid/b.kdl", b"(((", None),
        file("notes.txt", b"skip me", None),
    ]);
    let (valid, invalid) = load(&files).unwrap();
    assert_eq!(valid.len(), 1);
    assert_eq!(valid[0].name, "valid/a.kdl");
    assert_eq!(valid[0].input, b"a 1".to_vec());
    assert!(json_eq(&valid[0].expected, &canonical_empty_doc()));
    assert_eq!(invalid.len(), 1);
    assert_eq!(invalid[0].name, "invalid/b.kdl");
    assert_eq!(invalid[0].input, b"(((".to_vec());
}

#[test]
fn load_reports_missing_expected_file() {
    let files = TestFiles::new(vec![file("valid/a.kdl", b"a 1", None)]);
    match load(&files).unwrap_err() {
        LoadError::MissingExpected { path } => assert_eq!(path, "valid/a.json"),
        other => panic!("wrong error: {:?}", other),
    }
}

#[test]
fn load_reports_unparsable_expected_file() {
    let files = TestFiles::new(vec![
        file("valid/a.kdl", b"a 1", None),
        file("valid/a.json", b"not json", None),
    ]);
    match load(&files).unwrap_err() {
        LoadError::InvalidJson { path } => assert_eq!(path, "valid/a.json"),
        other => panic!("wrong error: {:?}", other),
    }
}

#[test]
fn indented_prefixes_each_line() {
    assert_eq!(kdl_test::indented(String::from("a\nb")), "    a\n    b");
    assert_eq!(kdl_test::indented(String::from("a\r\nb")), "    a\n    b");
    assert_eq!(kdl_test::indented(String::from("a\n")), "    a");
    assert_eq!(kdl_test::indented(String::from("")), "");
    assert_eq!(kdl_test::indented(String::from("one")), "    one");
    assert_eq!(kdl_test::indented(String::from("a\n\nb")), "    a\n    \n    b");
}

#[test]
fn skip_list_lookup() {
    let skips = vec![String::from("valid/a.kdl"), String::from("invalid/b.kdl")];
    assert!(contains_name(&skips, "valid/a.kdl"));
    assert!(!contains_name(&skips, "valid/c.kdl"));
    assert!(!contains_name(&Vec::new(), "valid/a.kdl"));
}

#[test]
fn run_summary_counts() {
    let mut summary = RunSummary::new();
    summary.record(true);
    summary.record(false);
    summary.record(true);
    summary.record_skip();
    assert_eq!(summary.passes, 2);
    assert_eq!(summary.failures, 1);
    assert_eq!(summary.skipped, 1);
    assert!(summary.failed());

    let clean = RunSummary::new();
    assert!(!clean.failed());
}

#[test]
fn decoder_exe_keeps_path() {
    let exe = DecoderExe::new(String::from("/usr/bin/decoder"));
    assert_eq!(exe.path(), "/usr/bin/decoder");
}

#[test]
fn test_files_iteration_order() {
    let files = TestFiles::new(vec![
        file("valid/a.kdl", b"", None),
        file("invalid/b.kdl", b"", None),
    ]);
    let listed = files.iter_files();
    assert_eq!(listed.len(), 2);
    assert_eq!(listed[0].path, "valid/a.kdl");
    assert_eq!(listed[1].path, "invalid/b.kdl");
}
