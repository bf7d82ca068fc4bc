use fate_ci::collect::{aggregate_report, collect_results, Artifact, TestResults};
use fate_ci::util::{
    classify_artifact, is_err_file, is_report_file, to_test_name, ArtifactEntry, ArtifactError,
    ArtifactKind,
};

fn art(name: &str, body: &str) -> Artifact {
    Artifact { file_name: name.to_string(), body: body.to_string() }
}

fn entry(results: &TestResults, i: usize) -> (String, Option<String>, Option<String>) {
    let e = results.get(i);
    (e.name.clone(), e.report.clone(), e.error.clone())
}

#[test]
fn test_name_strips_extension() {
    assert_eq!(to_test_name("x.rep"), "x");
    assert_eq!(to_test_name("x.err"), "x");
    assert_eq!(to_test_name("archive.tar.gz"), "archive.tar");
    assert_eq!(to_test_name("noext"), "noext");
    assert_eq!(to_test_name(".hidden"), ".hidden");
    assert_eq!(to_test_name("a."), "a");
}

fn text_entry(name: &str) -> ArtifactEntry {
    ArtifactEntry { name: name.to_string(), name_is_text: true }
}

#[test]
fn artifact_kinds_by_extension() {
    let rep = text_entry("h264.rep");
    let err = text_entry("h264.err");
    let other = text_entry("h264.txt");
    let short = text_entry("rep");
    let not_text = ArtifactEntry { name: "h\u{FFFD}.rep".to_string(), name_is_text: false };
    assert!(is_report_file(&rep));
    assert!(!is_err_file(&rep));
    assert!(is_err_file(&err));
    assert!(!is_report_file(&err));
    assert!(!is_report_file(&other) && !is_err_file(&other));
    assert!(!is_report_file(&short));
    assert!(!is_report_file(&not_text) && !is_err_file(&not_text));
}

#[test]
fn classification_of_artifacts() {
    assert_eq!(classify_artifact(&text_entry("a.rep")), Ok(ArtifactKind::Report));
    assert_eq!(classify_artifact(&text_entry("a.err")), Ok(ArtifactKind::Error));
    assert_eq!(classify_artifact(&text_entry("a.log")), Ok(ArtifactKind::Other));
}

#[test]
fn artifact_name_not_text_is_an_error() {
    let bad_rep = ArtifactEntry { name: "\u{FFFD}x.rep".to_string(), name_is_text: false };
    let bad_err = ArtifactEntry { name: "\u{FFFD}x.err".to_string(), name_is_text: false };
    let bad_other = ArtifactEntry { name: "\u{FFFD}x.log".to_string(), name_is_text: false };
    assert_eq!(classify_artifact(&bad_rep), Err(ArtifactError::NameNotText));
    assert_eq!(classify_artifact(&bad_err), Err(ArtifactError::NameNotText));
    assert_eq!(classify_artifact(&bad_other), Ok(ArtifactKind::Other));
}

#[test]
fn report_and_error_of_one_test_merge() {
    let reports = vec![art("x.rep", "partial")];
    let errors = vec![art("x.err", "boom")];
    let r = collect_results(&reports, &errors);
    assert_eq!(r.len(), 1);
    assert_eq!(
        entry(&r, 0),
        ("x".to_string(), Some("partial".to_string()), Some("boom".to_string()))
    );
}

#[test]
fn each_name_once_with_its_kinds() {
    let reports = vec![art("a.rep", "A"), art("c.rep", "C")];
    let errors = vec![art("b.err", "B!"), art("c.err", "C!")];
    let r = collect_results(&reports, &errors);
    assert_eq!(r.len(), 3);
    assert_eq!(entry(&r, 0), ("a".to_string(), Some("A".to_string()), None));
    assert_eq!(entry(&r, 1), ("c".to_string(), Some("C".to_string()), Some("C!".to_string())));
    assert_eq!(entry(&r, 2), ("b".to_string(), None, Some("B!".to_string())));
}

#[test]
fn no_artifacts_no_outcomes() {
    let r = collect_results(&vec![], &vec![]);
    assert_eq!(r.len(), 0);
    assert_eq!(aggregate_report(&r), "");
}

#[test]
fn collecting_twice_gives_the_same() {
    let reports = vec![art("a.rep", "A"), art("b.rep", "B")];
    let errors = vec![art("b.err", "E")];
    let first = collect_results(&reports, &errors);
    let second = collect_results(&reports, &errors);
    assert_eq!(first.len(), second.len());
    for i in 0..first.len() {
        assert_eq!(entry(&first, i), entry(&second, i));
    }
}

#[test]
fn report_joins_report_bodies() {
    let reports = vec![art("a.rep", "alpha\n"), art("b.rep", "beta\n")];
    let r = collect_results(&reports, &vec![art("c.err", "ignored")]);
    assert_eq!(aggregate_report(&r), "alpha\nbeta\n");
}

#[test]
fn later_report_of_same_name_replaces() {
    let reports = vec![art("a.rep", "old"), art("a.rep", "new")];
    let r = collect_results(&reports, &vec![]);
    assert_eq!(r.len(), 1);
    assert_eq!(entry(&r, 0), ("a".to_string(), Some("new".to_string()), None));
}

#[test]
fn results_built_by_hand() {
    let mut r = TestResults::new();
    r.add_error("t".to_string(), "e".to_string());
    r.add_report("t".to_string(), "r".to_string());
    assert_eq!(r.len(), 1);
    assert_eq!(entry(&r, 0), ("t".to_string(), Some("r".to_string()), None));
    assert_eq!(r.find(&"t".to_string()), Some(0));
    assert_eq!(r.find(&"u".to_string()), None);
}
