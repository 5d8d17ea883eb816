use licensebat::collector::common::{retrieve_from_npm, NPM};
use licensebat::collector::npm::{read_lockfile, PACKAGE_LOCK};
use licensebat::collector::{Collector, FileCollector, Npm, ParseError, Request};
use licensebat::dependency::Dependency;
use licensebat::json::parse;
use licensebat::retriever;
use licensebat::retriever::npm::Response;

fn collector() -> Npm<retriever::Npm> {
    Npm::new(retriever::Npm::new())
}

fn dependency(name: &str, version: &str) -> Dependency {
    Dependency { name: name.to_string(), version: version.to_string() }
}

fn request(name: &str, version: &str) -> Request {
    Request {
        dependency: dependency(name, version),
        url: format!("https://registry.npmjs.org/{}", name),
    }
}

fn sorted(mut requests: Vec<Request>) -> Vec<Request> {
    requests.sort_by(|a, b| a.dependency.name.cmp(&b.dependency.name));
    requests
}

const LOCKFILE: &str = "{
  \"name\": \"demo\",
  \"lockfileVersion\": 1,
  \"requires\": true,
  \"dependencies\": {
    \"left-pad\": {
      \"version\": \"1.3.0\",
      \"resolved\": \"https://registry.npmjs.org/left-pad/-/left-pad-1.3.0.tgz\",
      \"integrity\": \"sha512-XI5MPzVNApjAyhQzphX8BkYKLKKybHw==\"
    },
    \"@babel/core\": {
      \"version\": \"7.12.3\",
      \"dev\": true,
      \"requires\": {\"semver\": \"^5.4.1\"}
    },
    \"semver\": {
      \"version\": \"5.7.1\"
    }
  }
}";

#[test]
fn collector_names_its_ecosystem_and_lockfile() {
    assert_eq!(collector().get_name(), "npm");
    assert_eq!(collector().get_dependency_filename(), "package-lock.json");
    assert_eq!(NPM, "npm");
    assert_eq!(PACKAGE_LOCK, "package-lock.json");
    assert_eq!(Npm::default().get_name(), "npm");
}

#[test]
fn get_dependencies_lists_one_request_for_each_declared_dependency() {
    let requests = collector().get_dependencies(LOCKFILE).unwrap();
    assert_eq!(
        sorted(requests),
        vec![
            request("@babel/core", "7.12.3"),
            request("left-pad", "1.3.0"),
            request("semver", "5.7.1"),
        ]
    );
}

#[test]
fn get_dependencies_of_an_empty_lockfile_is_empty() {
    assert_eq!(collector().get_dependencies("{\"dependencies\": {}}"), Ok(vec![]));
}

#[test]
fn get_dependencies_rejects_what_is_not_json() {
    assert_eq!(
        collector().get_dependencies("left-pad@1.3.0"),
        Err(ParseError::NotJson("expected value at line 1 column 1".to_string()))
    );
    assert_eq!(
        collector().get_dependencies(""),
        Err(ParseError::NotJson("EOF while parsing a value at line 1 column 0".to_string()))
    );
}

#[test]
fn get_dependencies_rejects_a_document_without_dependencies() {
    for source in [
        "{}",
        "{\"name\": \"demo\"}",
        "[]",
        "null",
        "{\"dependencies\": []}",
        "{\"dependencies\": \"left-pad\"}",
        "{\"dependencies\": null}",
    ] {
        assert_eq!(collector().get_dependencies(source), Err(ParseError::NoDependencies), "{}", source);
    }
}

#[test]
fn get_dependencies_names_the_first_entry_without_a_version() {
    for source in [
        "{\"dependencies\": {\"a\": {\"version\": \"1.0.0\"}, \"b\": {}, \"c\": {}}}",
        "{\"dependencies\": {\"a\": {\"version\": \"1.0.0\"}, \"b\": {\"version\": 2}}}",
        "{\"dependencies\": {\"b\": \"1.0.0\"}}",
        "{\"dependencies\": {\"b\": {\"version\": null}}}",
    ] {
        assert_eq!(
            collector().get_dependencies(source),
            Err(ParseError::NoVersion("b".to_string())),
            "{}",
            source
        );
    }
}

#[test]
fn read_lockfile_keeps_the_order_of_the_entries() {
    let doc = parse("{\"dependencies\": {\"a\": {\"version\": \"1\"}, \"b\": {\"version\": \"2\"}}}").unwrap();
    let entries = doc.get("dependencies").unwrap().as_object().unwrap();
    let names: Vec<String> = entries.iter().map(|entry| entry.name.clone()).collect();
    let read: Vec<String> = read_lockfile(&doc).unwrap().into_iter().map(|dep| dep.name).collect();
    assert_eq!(read, names);
    assert_eq!(read.len(), 2);
}

#[test]
fn collector_from_document_takes_the_parse_result() {
    let npm = collector();
    assert_eq!(
        npm.from_document(parse("{\"dependencies\": {\"a\": {\"version\": \"1.0.0\"}}}")),
        Ok(vec![request("a", "1.0.0")])
    );
    assert_eq!(
        npm.from_document(Err("broken".to_string())),
        Err(ParseError::NotJson("broken".to_string()))
    );
}

#[test]
fn retrieve_from_npm_makes_one_request_for_each_dependency_in_order() {
    let deps = vec![dependency("b", "2.0.0"), dependency("a", "1.0.0"), dependency("b", "2.0.0")];
    assert_eq!(
        retrieve_from_npm(deps, &retriever::Npm::new()),
        vec![request("b", "2.0.0"), request("a", "1.0.0"), request("b", "2.0.0")]
    );
    assert_eq!(retrieve_from_npm(vec![], &retriever::Npm::new()), vec![]);
}

#[test]
fn retrieve_gives_the_record_of_the_request() {
    let record = collector().retrieve(
        &request("left-pad", "1.3.0"),
        &Response::Body("{\"license\": \"MIT\", \"versions\": {\"1.3.0\": {}}}".to_string()),
    );
    assert_eq!(record.name, "left-pad");
    assert_eq!(record.version, "1.3.0");
    assert_eq!(record.licenses, Some(vec!["MIT".to_string()]));
    assert!(record.is_valid);
}

#[test]
fn parse_error_says_what_is_wrong() {
    assert_eq!(
        ParseError::NotJson("expected value at line 1 column 1".to_string()).message(),
        "expected value at line 1 column 1"
    );
    assert_eq!(ParseError::NoDependencies.message(), "no dependencies");
    assert_eq!(ParseError::NoVersion("left-pad".to_string()).message(), "no version for left-pad");
}
