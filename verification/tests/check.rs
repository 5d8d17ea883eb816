use licensebat::check::{filenames, run, select, Arrival, Check, CheckError};
use licensebat::collector::{Npm, ParseError, Request};
use licensebat::dependency::RetrievedDependency;
use licensebat::policy::{DependencyRule, LicenseRule, Outcome, Policy};
use licensebat::retriever;
use licensebat::retriever::npm::Response;

fn names(list: &[&str]) -> Vec<String> {
    list.iter().map(|name| name.to_string()).collect()
}

fn npm() -> Vec<Npm<retriever::Npm>> {
    vec![Npm::default()]
}

fn allow_mit() -> Policy {
    Policy {
        dependencies: vec![],
        licenses: vec![LicenseRule { license: "MIT".to_string(), outcome: Outcome::Allow }],
        default_outcome: Outcome::Deny,
    }
}

fn body(index: usize, text: &str) -> Arrival {
    Arrival { index, response: Response::Body(text.to_string()) }
}

fn failure(index: usize, text: &str) -> Arrival {
    Arrival { index, response: Response::Failure(text.to_string()) }
}

fn position(requests: &[Request], name: &str) -> usize {
    requests.iter().position(|request| request.dependency.name == name).unwrap()
}

const ONE: &str = "{\"dependencies\": {\"left-pad\": {\"version\": \"1.3.0\"}}}";

const THREE: &str = "{\"dependencies\": {
    \"left-pad\": {\"version\": \"1.3.0\"},
    \"foo\": {\"version\": \"2.0.0\"},
    \"bare\": {\"version\": \"0.1.0\"}
}}";

#[test]
fn select_takes_the_first_name_that_is_in_the_path() {
    let registered = names(&["package-lock.json", "yarn.lock", "Cargo.lock", "lock"]);
    assert_eq!(select(&registered, "package-lock.json"), Some(0));
    assert_eq!(select(&registered, "web/yarn.lock"), Some(1));
    assert_eq!(select(&registered, "/srv/app/Cargo.lock"), Some(2));
    assert_eq!(select(&registered, "pubspec.lock"), Some(3));
    assert_eq!(select(&registered, "Gemfile"), None);
    assert_eq!(select(&Vec::new(), "package-lock.json"), None);
}

#[test]
fn select_picks_the_only_name_that_matches_wherever_it_stands() {
    for at in 0..4 {
        let mut registered = names(&["yarn.lock", "Cargo.lock", "pubspec.lock"]);
        registered.insert(at, "package-lock.json".to_string());
        assert_eq!(select(&registered, "./package-lock.json"), Some(at));
    }
}

#[test]
fn select_gives_the_same_answer_each_time() {
    let registered = names(&["yarn.lock", "package-lock.json"]);
    for _ in 0..3 {
        assert_eq!(select(&registered, "a/package-lock.json"), Some(1));
    }
}

#[test]
fn filenames_lists_the_lockfile_of_each_collector() {
    assert_eq!(filenames(&npm()), names(&["package-lock.json"]));
    assert_eq!(filenames(&vec![Npm::default(), Npm::default()]), names(&["package-lock.json"; 2]));
    assert_eq!(filenames(&Vec::<Npm<retriever::Npm>>::new()), Vec::<String>::new());
}

#[test]
fn run_selects_the_collector_by_the_path() {
    let policy = allow_mit();
    let arrivals = vec![body(0, "{\"license\": \"MIT\"}")];
    let report = run(&npm(), &policy, "app/package-lock.json", ONE, &arrivals).unwrap();
    assert_eq!(report.len(), 1);
    assert_eq!(report[0].dependency_type, "npm");
}

#[test]
fn run_reports_a_resolved_dependency() {
    let arrivals = vec![body(0, "{\"license\": \"MIT\", \"versions\": {\"1.3.0\": {}}}")];
    let report = run(&npm(), &allow_mit(), "package-lock.json", ONE, &arrivals).unwrap();
    assert_eq!(
        report,
        vec![RetrievedDependency {
            name: "left-pad".to_string(),
            version: "1.3.0".to_string(),
            url: Some("https://www.npmjs.com/package/left-pad/v/1.3.0".to_string()),
            dependency_type: "npm".to_string(),
            validated: true,
            is_valid: true,
            is_ignored: false,
            error: None,
            licenses: Some(vec!["MIT".to_string()]),
            comment: None,
        }]
    );
}

#[test]
fn run_reports_a_failed_registry_call_in_the_record() {
    let source = "{\"dependencies\": {\"foo\": {\"version\": \"2.0.0\"}}}";
    let arrivals = vec![failure(0, "error sending request: operation timed out")];
    let report = run(&npm(), &allow_mit(), "package-lock.json", source, &arrivals).unwrap();
    assert_eq!(report.len(), 1);
    assert_eq!(report[0].name, "foo");
    assert_eq!(report[0].version, "2.0.0");
    assert_eq!(report[0].error, Some("error sending request: operation timed out".to_string()));
    assert!(!report[0].error.as_ref().unwrap().is_empty());
    assert!(!report[0].is_valid);
    assert_eq!(report[0].licenses, None);
    assert!(report[0].validated);
}

#[test]
fn run_stops_on_a_path_that_no_collector_recognizes() {
    let arrivals = vec![body(0, "{\"license\": \"MIT\"}")];
    assert_eq!(
        run(&npm(), &allow_mit(), "Gemfile.lock", ONE, &arrivals),
        Err(CheckError::UnsupportedLockfile)
    );
    assert_eq!(
        run(&Vec::<Npm<retriever::Npm>>::new(), &allow_mit(), "package-lock.json", ONE, &arrivals),
        Err(CheckError::UnsupportedLockfile)
    );
    assert!(matches!(
        Check::start(&npm(), &allow_mit(), "Gemfile.lock", ONE),
        Err(CheckError::UnsupportedLockfile)
    ));
}

#[test]
fn run_stops_on_a_lockfile_that_cannot_be_read() {
    assert_eq!(
        run(&npm(), &allow_mit(), "package-lock.json", "{", &vec![]),
        Err(CheckError::Parse(ParseError::NotJson(
            "EOF while parsing an object at line 1 column 1".to_string()
        )))
    );
    assert_eq!(
        run(&npm(), &allow_mit(), "package-lock.json", "{}", &vec![]),
        Err(CheckError::Parse(ParseError::NoDependencies))
    );
    assert_eq!(
        run(&npm(), &allow_mit(), "package-lock.json", "{\"dependencies\": {\"a\": {}}}", &vec![]),
        Err(CheckError::Parse(ParseError::NoVersion("a".to_string())))
    );
}

#[test]
fn unsupported_path_wins_over_unreadable_content() {
    assert_eq!(run(&npm(), &allow_mit(), "yarn.lock", "{", &vec![]), Err(CheckError::UnsupportedLockfile));
}

#[test]
fn run_keeps_the_order_of_arrival() {
    let collectors = npm();
    let policy = allow_mit();
    let check = Check::start(&collectors, &policy, "package-lock.json", THREE).unwrap();
    let left_pad = position(check.requests_to_make(), "left-pad");
    let foo = position(check.requests_to_make(), "foo");
    let bare = position(check.requests_to_make(), "bare");
    let arrivals = vec![
        failure(foo, "timed out"),
        body(bare, "{\"versions\": {\"0.1.0\": {}}}"),
        body(left_pad, "{\"license\": \"MIT\"}"),
    ];
    let report = run(&collectors, &policy, "package-lock.json", THREE, &arrivals).unwrap();
    let names: Vec<&str> = report.iter().map(|record| record.name.as_str()).collect();
    assert_eq!(names, vec!["foo", "bare", "left-pad"]);
    assert!(report.iter().all(|record| record.validated));
    assert_eq!(report[0].error, Some("timed out".to_string()));
    assert_eq!(report[1].licenses, Some(vec!["NO-LICENSE".to_string()]));
    assert!(report[1].comment.is_some());
    assert!(!report[1].is_valid);
    assert!(report[2].is_valid);
}

#[test]
fn run_counts_the_first_answer_for_each_request_only() {
    let arrivals = vec![
        body(7, "{\"license\": \"MIT\"}"),
        body(0, "{\"license\": \"ISC\"}"),
        body(0, "{\"license\": \"MIT\"}"),
        failure(1, "late"),
    ];
    let report = run(&npm(), &allow_mit(), "package-lock.json", ONE, &arrivals).unwrap();
    assert_eq!(report.len(), 1);
    assert_eq!(report[0].licenses, Some(vec!["ISC".to_string()]));
    assert!(!report[0].is_valid);
}

#[test]
fn run_without_answers_reports_nothing() {
    assert_eq!(run(&npm(), &allow_mit(), "package-lock.json", THREE, &vec![]), Ok(vec![]));
}

#[test]
fn run_applies_an_override_by_identity() {
    let policy = Policy {
        dependencies: vec![DependencyRule {
            name: "left-pad".to_string(),
            version: "1.3.0".to_string(),
            outcome: Outcome::Ignore,
        }],
        licenses: vec![LicenseRule { license: "WTFPL".to_string(), outcome: Outcome::Deny }],
        default_outcome: Outcome::Allow,
    };
    let arrivals = vec![body(0, "{\"license\": \"WTFPL\"}")];
    let report = run(&npm(), &policy, "package-lock.json", ONE, &arrivals).unwrap();
    assert!(report[0].is_ignored);
    assert!(!report[0].is_valid);
    assert!(report[0].validated);
}

#[test]
fn check_takes_answers_one_by_one() {
    let collectors = npm();
    let policy = allow_mit();
    let mut check = Check::start(&collectors, &policy, "./package-lock.json", THREE).unwrap();
    assert_eq!(check.requests_to_make().len(), 3);
    assert_eq!(check.answered(), 0);
    assert!(!check.is_complete());

    assert!(check.deliver(&body(1, "{\"license\": \"MIT\"}")));
    assert!(!check.deliver(&body(1, "{\"license\": \"MIT\"}")));
    assert!(!check.deliver(&body(3, "{\"license\": \"MIT\"}")));
    assert_eq!(check.answered(), 1);
    assert!(!check.is_complete());

    assert!(check.deliver(&failure(2, "refused")));
    assert!(check.deliver(&body(0, "{}")));
    assert_eq!(check.answered(), 3);
    assert!(check.is_complete());
    assert!(!check.deliver(&body(0, "{}")));

    let names: Vec<String> = check.requests_to_make().iter().map(|r| r.dependency.name.clone()).collect();
    let report = check.finish();
    assert_eq!(report.len(), 3);
    assert_eq!(report[0].name, names[1]);
    assert_eq!(report[1].name, names[2]);
    assert_eq!(report[2].name, names[0]);
    assert!(report.iter().all(|record| record.validated));
}

#[test]
fn check_lists_the_address_of_each_request() {
    let collectors = npm();
    let policy = allow_mit();
    let check = Check::start(&collectors, &policy, "package-lock.json", ONE).unwrap();
    assert_eq!(check.requests_to_make()[0].url, "https://registry.npmjs.org/left-pad");
    assert_eq!(check.requests_to_make()[0].dependency.version, "1.3.0");
}

#[test]
fn empty_lockfile_is_complete_at_once() {
    let collectors = npm();
    let policy = allow_mit();
    let check = Check::start(&collectors, &policy, "package-lock.json", "{\"dependencies\": {}}").unwrap();
    assert!(check.is_complete());
    assert_eq!(check.finish(), vec![]);
}

#[test]
fn check_error_says_what_stopped_the_run() {
    assert_eq!(
        CheckError::DependencyFile("No such file or directory (os error 2)".to_string()).message(),
        "Error reading dependency file: No such file or directory (os error 2)"
    );
    assert_eq!(CheckError::UnsupportedLockfile.message(), "No collector found for dependency file");
    assert_eq!(
        CheckError::Parse(ParseError::NotJson("expected value at line 1 column 1".to_string())).message(),
        "Error parsing dependency file: expected value at line 1 column 1"
    );
    assert_eq!(
        CheckError::Parse(ParseError::NoDependencies).message(),
        "Error parsing dependency file: no dependencies"
    );
    assert_eq!(
        CheckError::Parse(ParseError::NoVersion("left-pad".to_string())).message(),
        "Error parsing dependency file: no version for left-pad"
    );
}
