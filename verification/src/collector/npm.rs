//! The collector for `package-lock.json`.
//!
//! The lockfile is a JSON object. Its `dependencies` member maps the name of
//! each dependency to an entry whose `version` member is a string. Nothing else
//! in the document is read.

use vstd::prelude::*;
use crate::collector::common::{requests_for, retrieve_from_npm, NPM};
use crate::collector::{
    collected, Collector, FileCollector, ParseError, ParseErrorView, Request, RequestView,
};
use crate::dependency::{
    optional_text, views, Dependency, DependencyView, RetrievedDependency, RetrievedDependencyView,
};
use crate::json::{json_document, parse, Json, Member};
use crate::retriever::npm::{Response, ResponseView, Retriever};

verus! {

/// The name of the lockfile of npm.
pub const PACKAGE_LOCK: &'static str = "package-lock.json";

/// The version that a lockfile entry states.
pub open spec fn entry_version(entry: Member) -> Option<Seq<char>> {
    match entry.value.member("version"@) {
        Some(Json::Text(version)) => Some(version@),
        _ => None,
    }
}

/// The dependency that a lockfile entry declares.
pub open spec fn entry_dependency(entry: Member) -> DependencyView {
    DependencyView { name: entry.name@, version: entry_version(entry).unwrap() }
}

/// `at` is the first entry that states no version.
pub open spec fn is_first_without_version(entries: Seq<Member>, at: int) -> bool {
    &&& 0 <= at < entries.len()
    &&& entry_version(entries[at]) is None
    &&& forall|j: int| 0 <= j < at ==> entry_version(#[trigger] entries[j]) is Some
}

/// The dependencies that the entries declare, in their order; where an entry
/// states no version, the first such entry is the error.
pub open spec fn declared_entries(entries: Seq<Member>) -> Result<Seq<DependencyView>, ParseErrorView> {
    if exists|at: int| is_first_without_version(entries, at) {
        Err(
            ParseErrorView::NoVersion(
                entries[choose|at: int| is_first_without_version(entries, at)].name@,
            ),
        )
    } else {
        Ok(entries.map_values(|entry: Member| entry_dependency(entry)))
    }
}

/// The dependencies that a lockfile document declares.
pub open spec fn lockfile_dependencies(document: Json) -> Result<Seq<DependencyView>, ParseErrorView> {
    match document.member("dependencies"@) {
        Some(Json::Object(entries)) => declared_entries(entries@),
        _ => Err(ParseErrorView::NoDependencies),
    }
}

/// The dependencies that a parsed lockfile declares; a text that is not JSON is
/// an error with the parser's message.
pub open spec fn parsed_dependencies(document: Result<Json, Seq<char>>) -> Result<
    Seq<DependencyView>,
    ParseErrorView,
> {
    match document {
        Ok(document) => lockfile_dependencies(document),
        Err(message) => Err(ParseErrorView::NotJson(message)),
    }
}

/// The view of what reading a lockfile gives.
pub open spec fn read(result: Result<Vec<Dependency>, ParseError>) -> Result<
    Seq<DependencyView>,
    ParseErrorView,
> {
    match result {
        Ok(dependencies) => Ok(views(dependencies@)),
        Err(error) => Err(error@),
    }
}

/// At most one entry is the first that states no version.
pub proof fn lemma_first_without_version_is_unique(entries: Seq<Member>, a: int, b: int)
    requires
        is_first_without_version(entries, a),
        is_first_without_version(entries, b),
    ensures
        a == b,
{
    if a < b {
        assert(entry_version(entries[a]) is Some);
    } else if b < a {
        assert(entry_version(entries[b]) is Some);
    }
}

/// The version that a lockfile entry states.
fn version_of(entry: &Member) -> (r: Option<String>)
    ensures
        optional_text(r) == entry_version(*entry),
{
    match entry.value.get("version") {
        Some(Json::Text(version)) => Some(version.clone()),
        _ => None,
    }
}

/// Reads the dependencies that a lockfile document declares.
pub fn read_lockfile(document: &Json) -> (r: Result<Vec<Dependency>, ParseError>)
    ensures
        read(r) == lockfile_dependencies(*document),
{
    let entries = match document.get("dependencies") {
        Some(Json::Object(entries)) => entries,
        _ => {
            return Err(ParseError::NoDependencies);
        },
    };
    assert(lockfile_dependencies(*document) == declared_entries(entries@));
    let mut dependencies: Vec<Dependency> = Vec::new();
    let mut i: usize = 0;
    while i < entries.len()
        invariant
            lockfile_dependencies(*document) == declared_entries(entries@),
            i <= entries.len(),
            dependencies@.len() == i,
            forall|j: int| 0 <= j < i ==> entry_version(#[trigger] entries@[j]) is Some,
            forall|j: int| 0 <= j < i ==> (#[trigger] dependencies@[j])@ == entry_dependency(entries@[j]),
        decreases entries.len() - i,
    {
        match version_of(&entries[i]) {
            Some(version) => {
                dependencies.push(Dependency { name: entries[i].name.clone(), version });
            },
            None => {
                proof {
                    assert(is_first_without_version(entries@, i as int));
                    let chosen = choose|at: int| is_first_without_version(entries@, at);
                    lemma_first_without_version_is_unique(entries@, chosen, i as int);
                }
                return Err(ParseError::NoVersion(entries[i].name.clone()));
            },
        }
        i += 1;
    }
    proof {
        assert forall|at: int| !is_first_without_version(entries@, at) by {
            if 0 <= at < entries@.len() {
                assert(entry_version(entries@[at]) is Some);
            }
        }
        assert(views(dependencies@) =~= entries@.map_values(|entry: Member| entry_dependency(entry)));
    }
    Ok(dependencies)
}

/// NPM dependency collector.
#[derive(Debug)]
pub struct Npm<R: Retriever> {
    pub retriever: R,
}

impl<R: Retriever> Npm<R> {
    pub fn new(retriever: R) -> (r: Self)
        ensures
            r.retriever == retriever,
    {
        Self { retriever }
    }

    /// The requests that a parsed lockfile calls for.
    pub fn from_document(&self, document: Result<Json, String>) -> (r: Result<Vec<Request>, ParseError>)
        ensures
            document matches Ok(lockfile) ==> collected(r) == self.requested(Ok(lockfile)),
            document matches Err(message) ==> collected(r) == self.requested(Err(message@)),
    {
        match document {
            Ok(lockfile) => match read_lockfile(&lockfile) {
                Ok(dependencies) => Ok(retrieve_from_npm(dependencies, &self.retriever)),
                Err(error) => Err(error),
            },
            Err(message) => Err(ParseError::NotJson(message)),
        }
    }

    /// The requests that a parsed lockfile calls for: one for each dependency
    /// that it declares, made by the collector's retriever.
    pub open spec fn requested(&self, document: Result<Json, Seq<char>>) -> Result<
        Seq<RequestView>,
        ParseErrorView,
    > {
        match parsed_dependencies(document) {
            Ok(dependencies) => Ok(requests_for(dependencies, self.retriever)),
            Err(error) => Err(error),
        }
    }
}

impl Default for Npm<crate::retriever::Npm> {
    fn default() -> (r: Self)
        ensures
            r.retriever == (crate::retriever::Npm {  }),
    {
        Self::new(crate::retriever::Npm::new())
    }
}

impl<R: Retriever> Collector for Npm<R> {
    open spec fn name(&self) -> Seq<char> {
        NPM@
    }

    fn get_name(&self) -> (r: String) {
        NPM.to_owned()
    }
}

impl<R: Retriever> FileCollector for Npm<R> {
    open spec fn dependency_filename(&self) -> Seq<char> {
        PACKAGE_LOCK@
    }

    open spec fn declared(&self, content: Seq<char>) -> Result<Seq<RequestView>, ParseErrorView> {
        self.requested(json_document(content))
    }

    open spec fn record_of(
        &self,
        dependency: DependencyView,
        response: ResponseView,
    ) -> RetrievedDependencyView {
        self.retriever.record_of(dependency.name, dependency.version, response)
    }

    proof fn lemma_record_of_is_retrieved(&self, dependency: DependencyView, response: ResponseView) {
        self.retriever.lemma_record_of_is_retrieved(dependency.name, dependency.version, response);
    }

    fn get_dependency_filename(&self) -> (r: String) {
        PACKAGE_LOCK.to_owned()
    }

    fn get_dependencies(&self, dependency_file_content: &str) -> (r: Result<
        Vec<Request>,
        ParseError,
    >) {
        self.from_document(parse(dependency_file_content))
    }

    fn retrieve(&self, request: &Request, response: &Response) -> (r: RetrievedDependency) {
        self.retriever.get_dependency(
            request.dependency.name.as_str(),
            request.dependency.version.as_str(),
            response,
        )
    }
}

} // verus!
