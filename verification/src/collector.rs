//! Collectors read the lockfile of one ecosystem and say which package
//! registry requests it calls for.

pub mod common;
pub mod npm;

pub use npm::Npm;

use vstd::prelude::*;
use vstd::string::StringExecFns;
use crate::dependency::{views, Dependency, DependencyView, RetrievedDependency, RetrievedDependencyView};
use crate::retriever::npm::{is_retrieved, Response, ResponseView};

verus! {

/// One retrieval that a lockfile calls for: the dependency, and the address at
/// which its registry describes it.
#[derive(Debug, PartialEq, Eq)]
pub struct Request {
    pub dependency: Dependency,
    pub url: String,
}

pub struct RequestView {
    pub dependency: DependencyView,
    pub url: Seq<char>,
}

impl View for Request {
    type V = RequestView;

    open spec fn view(&self) -> RequestView {
        RequestView { dependency: self.dependency@, url: self.url@ }
    }
}

/// Why a lockfile cannot be read.
#[derive(Debug, PartialEq, Eq)]
pub enum ParseError {
    /// The content is not JSON; the parser's message.
    NotJson(String),
    /// The document has no object under `dependencies`.
    NoDependencies,
    /// The entry of the named dependency has no string under `version`.
    NoVersion(String),
}

pub enum ParseErrorView {
    NotJson(Seq<char>),
    NoDependencies,
    NoVersion(Seq<char>),
}

impl View for ParseError {
    type V = ParseErrorView;

    open spec fn view(&self) -> ParseErrorView {
        match self {
            ParseError::NotJson(message) => ParseErrorView::NotJson(message@),
            ParseError::NoDependencies => ParseErrorView::NoDependencies,
            ParseError::NoVersion(name) => ParseErrorView::NoVersion(name@),
        }
    }
}

impl ParseErrorView {
    /// The error in words.
    pub open spec fn message(self) -> Seq<char> {
        match self {
            ParseErrorView::NotJson(message) => message,
            ParseErrorView::NoDependencies => "no dependencies"@,
            ParseErrorView::NoVersion(name) => "no version for "@ + name,
        }
    }
}

impl ParseError {
    /// The error in words.
    pub fn message(&self) -> (r: String)
        ensures
            r@ == self@.message(),
    {
        match self {
            ParseError::NotJson(message) => message.clone(),
            ParseError::NoDependencies => "no dependencies".to_owned(),
            ParseError::NoVersion(name) => {
                let mut text = "no version for ".to_owned();
                text.append(name.as_str());
                text
            },
        }
    }
}

/// The view of what a collector makes of a lockfile.
pub open spec fn collected(result: Result<Vec<Request>, ParseError>) -> Result<
    Seq<RequestView>,
    ParseErrorView,
> {
    match result {
        Ok(requests) => Ok(views(requests@)),
        Err(error) => Err(error@),
    }
}

/// Something that collects dependencies for one ecosystem.
pub trait Collector {
    /// The tag of the ecosystem.
    spec fn name(&self) -> Seq<char>;

    fn get_name(&self) -> (r: String)
        ensures
            r@ == self.name(),
    ;
}

/// A collector that reads the dependencies from a lockfile.
pub trait FileCollector: Collector {
    /// The name of the lockfile that the collector reads.
    spec fn dependency_filename(&self) -> Seq<char>;

    /// What a lockfile with this content calls for: one request for each
    /// dependency that it declares, or the reason why it cannot be read.
    spec fn declared(&self, content: Seq<char>) -> Result<Seq<RequestView>, ParseErrorView>;

    /// The record that `response` gives for `dependency`.
    spec fn record_of(
        &self,
        dependency: DependencyView,
        response: ResponseView,
    ) -> RetrievedDependencyView;

    /// Every record is what a retriever owes for its answer.
    proof fn lemma_record_of_is_retrieved(&self, dependency: DependencyView, response: ResponseView)
        ensures
            is_retrieved(
                self.record_of(dependency, response),
                dependency.name,
                dependency.version,
                response,
            ),
    ;

    fn get_dependency_filename(&self) -> (r: String)
        ensures
            r@ == self.dependency_filename(),
    ;

    /// Reads a lockfile. It fails only on a content that is not a lockfile of
    /// this ecosystem, never on what a dependency is.
    fn get_dependencies(&self, dependency_file_content: &str) -> (r: Result<
        Vec<Request>,
        ParseError,
    >)
        ensures
            collected(r) == self.declared(dependency_file_content@),
    ;

    /// The record of the dependency of `request`, given what its registry
    /// answered.
    fn retrieve(&self, request: &Request, response: &Response) -> (r: RetrievedDependency)
        ensures
            r@ == self.record_of(request@.dependency, response@),
    ;
}

} // verus!
