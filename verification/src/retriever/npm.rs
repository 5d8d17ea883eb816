//! The retriever for the npm registry.
//!
//! The registry describes a package in one JSON document. The license of one
//! version is looked for under `versions`, in the entry of that version, and,
//! where that entry names none, in the `license` member of the package itself.
//! The expression found is kept whole: it becomes the one identifier of the
//! record's license list, whether or not it joins several licenses.

use vstd::prelude::*;
use vstd::string::StringExecFns;
use crate::dependency::{
    optional_text, optional_texts, texts, Comment, CommentView, Dependency, DependencyView,
    RetrievedDependency, RetrievedDependencyView,
};
use crate::collector::common::NPM;
use crate::json::{json_document, parse, Json};

verus! {

/// Stands in the license list of a package whose registry names no license.
pub const NO_LICENSE: &'static str = "NO-LICENSE";

/// The note attached to a record without a license.
pub const NO_LICENSE_HINT: &'static str =
    "Consider **ignoring** this specific dependency. You can also accept the **NO-LICENSE** key to avoid these issues.";

/// What came back from a registry.
#[derive(Debug, PartialEq, Eq)]
pub enum Response {
    /// The body of the answer, as text.
    Body(String),
    /// The request failed; the description of the failure.
    Failure(String),
}

pub enum ResponseView {
    Body(Seq<char>),
    Failure(Seq<char>),
}

impl View for Response {
    type V = ResponseView;

    open spec fn view(&self) -> ResponseView {
        match self {
            Response::Body(text) => ResponseView::Body(text@),
            Response::Failure(description) => ResponseView::Failure(description@),
        }
    }
}

/// What a retriever owes for every answer, whatever its ecosystem: a record
/// about the dependency asked for, untouched by any policy, in which a failed
/// request shows as an error and a missing license as the sentinel with a note.
pub open spec fn is_retrieved(
    record: RetrievedDependencyView,
    dep_name: Seq<char>,
    dep_version: Seq<char>,
    response: ResponseView,
) -> bool {
    &&& record.is_about(dep_name, dep_version)
    &&& record.is_pending()
    &&& record.wf()
    &&& response matches ResponseView::Failure(description) ==> record.error == Some(description)
    &&& record.error is None && !record.is_valid ==> {
        &&& record.licenses == Some(seq![NO_LICENSE@])
        &&& record.comment is Some
    }
}

/// Turns the answer of one ecosystem's registry into a record. It cannot fail:
/// whatever went wrong is told in the record.
pub trait Retriever {
    /// The address at which the registry describes the package `dep_name`.
    spec fn url_of(&self, dep_name: Seq<char>) -> Seq<char>;

    /// The record that `response` gives for `dep_name` at `dep_version`.
    spec fn record_of(
        &self,
        dep_name: Seq<char>,
        dep_version: Seq<char>,
        response: ResponseView,
    ) -> RetrievedDependencyView;

    /// Every record is what a retriever owes for its answer.
    proof fn lemma_record_of_is_retrieved(
        &self,
        dep_name: Seq<char>,
        dep_version: Seq<char>,
        response: ResponseView,
    )
        ensures
            is_retrieved(
                self.record_of(dep_name, dep_version, response),
                dep_name,
                dep_version,
                response,
            ),
    ;

    /// The address to ask for the package `dep_name`.
    fn request_url(&self, dep_name: &str) -> (r: String)
        ensures
            r@ == self.url_of(dep_name@),
    ;

    /// The record of `dep_name` at `dep_version`, given what the registry
    /// answered.
    fn get_dependency(&self, dep_name: &str, dep_version: &str, response: &Response) -> (r:
        RetrievedDependency)
        ensures
            r@ == self.record_of(dep_name@, dep_version@, response@),
    ;
}

/// The license that a `license` member names: a string, or an object whose
/// `type` member is a string.
pub open spec fn license_name(field: Json) -> Option<Seq<char>> {
    match field {
        Json::Text(name) => Some(name@),
        Json::Object(_) => match field.member("type"@) {
            Some(Json::Text(name)) => Some(name@),
            _ => None,
        },
        _ => None,
    }
}

/// The `license` member of the entry of `version` under `versions`.
pub open spec fn version_license_field(metadata: Json, version: Seq<char>) -> Option<Json> {
    match metadata.member("versions"@) {
        Some(versions) => match versions.member(version) {
            Some(entry) => entry.member("license"@),
            None => None,
        },
        None => None,
    }
}

/// The license expression of `version` in a package's metadata. A string under
/// the version's own entry wins. Where that entry has no `license` member, or a
/// null one, the package's `license` member decides. Any other value under the
/// version's entry names no license.
pub open spec fn license_expression(metadata: Json, version: Seq<char>) -> Option<Seq<char>> {
    match version_license_field(metadata, version) {
        Some(Json::Text(name)) => Some(name@),
        Some(Json::Null) | None => match metadata.member("license"@) {
            Some(field) => license_name(field),
            None => None,
        },
        Some(_) => None,
    }
}

/// The license list of `version`: the expression, as its only element.
pub open spec fn resolved_licenses(metadata: Json, version: Seq<char>) -> Option<Seq<Seq<char>>> {
    match license_expression(metadata, version) {
        Some(expression) => Some(seq![expression]),
        None => None,
    }
}

/// The page of a package version on the npm site.
pub open spec fn package_page(name: Seq<char>, version: Seq<char>) -> Seq<char> {
    "https://www.npmjs.com/package/"@ + name + "/v/"@ + version
}

/// The address of a package's metadata in the npm registry.
pub open spec fn registry_url(name: Seq<char>) -> Seq<char> {
    "https://registry.npmjs.org/"@ + name
}

/// The record of a dependency, from the licenses that were resolved and the
/// error that stopped the retrieval, if any. An error leaves the record without
/// licenses. Without an error, an absent or empty list becomes the sentinel, with
/// a note. The record is valid if it has no error and at least one license was
/// resolved.
pub open spec fn built_record(
    dependency: DependencyView,
    licenses: Option<Seq<Seq<char>>>,
    error: Option<Seq<char>>,
) -> RetrievedDependencyView {
    let resolved = licenses is Some && licenses.unwrap().len() > 0;
    RetrievedDependencyView {
        name: dependency.name,
        version: dependency.version,
        url: Some(package_page(dependency.name, dependency.version)),
        dependency_type: NPM@,
        validated: false,
        is_valid: resolved && error is None,
        is_ignored: false,
        error: error,
        licenses: if error is Some {
            None
        } else if resolved {
            licenses
        } else {
            Some(seq![NO_LICENSE@])
        },
        comment: if error is None && !resolved {
            Some(CommentView { text: NO_LICENSE_HINT@, remove_when_valid: true })
        } else {
            None
        },
    }
}

/// The record that a parsed answer gives: the parser's message as the error, or
/// the licenses that the document names.
pub open spec fn record_of_document(
    dependency: DependencyView,
    document: Result<Json, Seq<char>>,
) -> RetrievedDependencyView {
    match document {
        Ok(metadata) => built_record(
            dependency,
            resolved_licenses(metadata, dependency.version),
            None,
        ),
        Err(message) => built_record(dependency, None, Some(message)),
    }
}

/// The record that the npm registry's answer gives.
pub open spec fn npm_record(dependency: DependencyView, response: ResponseView) -> RetrievedDependencyView {
    match response {
        ResponseView::Body(text) => record_of_document(dependency, json_document(text)),
        ResponseView::Failure(description) => built_record(dependency, None, Some(description)),
    }
}

/// A retrieval without an error that resolved at least one license gives a valid
/// record with exactly those licenses.
pub proof fn lemma_resolved_is_valid(dependency: DependencyView, licenses: Seq<Seq<char>>)
    requires
        licenses.len() > 0,
    ensures
        built_record(dependency, Some(licenses), None).is_valid,
        built_record(dependency, Some(licenses), None).error is None,
        built_record(dependency, Some(licenses), None).licenses == Some(licenses),
{
}

/// A retrieval that failed gives a record that tells the error, names no
/// license and is not valid, whatever licenses came with it.
pub proof fn lemma_failure_is_recorded(
    dependency: DependencyView,
    licenses: Option<Seq<Seq<char>>>,
    error: Seq<char>,
)
    ensures
        built_record(dependency, licenses, Some(error)).error == Some(error),
        built_record(dependency, licenses, Some(error)).licenses is None,
        !built_record(dependency, licenses, Some(error)).is_valid,
{
}

/// A retrieval without an error that resolved no license gives a record with
/// the sentinel as its only license and a note; it has no error and is not
/// valid.
pub proof fn lemma_missing_license_is_marked(dependency: DependencyView)
    ensures
        built_record(dependency, None, None).licenses == Some(seq![NO_LICENSE@]),
        built_record(dependency, None, None).comment is Some,
        built_record(dependency, None, None).error is None,
        !built_record(dependency, None, None).is_valid,
{
}

/// What each kind of answer from the npm registry gives. A failed request and
/// a body that is not JSON give an error, no license and an invalid record. A
/// document that names a license for the version gives a valid record with
/// that license. A document that names none gives the sentinel and a note.
pub proof fn lemma_npm_record_by_answer(dependency: DependencyView, response: ResponseView)
    ensures
        is_retrieved(npm_record(dependency, response), dependency.name, dependency.version, response),
        response matches ResponseView::Failure(description) ==> {
            &&& npm_record(dependency, response).error == Some(description)
            &&& npm_record(dependency, response).licenses is None
            &&& !npm_record(dependency, response).is_valid
        },
        response matches ResponseView::Body(text) ==> match json_document(text) {
            Err(message) => {
                &&& npm_record(dependency, response).error == Some(message)
                &&& npm_record(dependency, response).licenses is None
                &&& !npm_record(dependency, response).is_valid
            },
            Ok(metadata) => match license_expression(metadata, dependency.version) {
                Some(expression) => {
                    &&& npm_record(dependency, response).error is None
                    &&& npm_record(dependency, response).licenses == Some(seq![expression])
                    &&& npm_record(dependency, response).is_valid
                },
                None => {
                    &&& npm_record(dependency, response).error is None
                    &&& npm_record(dependency, response).licenses == Some(seq![NO_LICENSE@])
                    &&& npm_record(dependency, response).comment is Some
                    &&& !npm_record(dependency, response).is_valid
                },
            },
        },
{
}

/// The license that a `license` member names.
pub fn license_of(field: &Json) -> (r: Option<String>)
    ensures
        optional_text(r) == license_name(*field),
{
    match field {
        Json::Text(name) => Some(name.clone()),
        Json::Object(_) => match field.get("type") {
            Some(Json::Text(name)) => Some(name.clone()),
            _ => None,
        },
        _ => None,
    }
}

/// The `license` member of the entry of `version`.
fn version_license<'a>(metadata: &'a Json, version: &str) -> (r: Option<&'a Json>)
    ensures
        r is Some == version_license_field(*metadata, version@) is Some,
        r is Some ==> *r.unwrap() == version_license_field(*metadata, version@).unwrap(),
{
    match metadata.get("versions") {
        Some(versions) => match versions.get(version) {
            Some(entry) => entry.get("license"),
            None => None,
        },
        None => None,
    }
}

/// Resolves the licenses of `version` from a package's metadata.
pub fn resolve_licenses(metadata: &Json, version: &str) -> (r: Option<Vec<String>>)
    ensures
        optional_texts(r) == resolved_licenses(*metadata, version@),
{
    let expression = match version_license(metadata, version) {
        Some(Json::Text(name)) => Some(name.clone()),
        Some(Json::Null) | None => match metadata.get("license") {
            Some(field) => license_of(field),
            None => None,
        },
        Some(_) => None,
    };
    match expression {
        Some(name) => {
            let mut list: Vec<String> = Vec::new();
            list.push(name);
            assert(texts(list@) =~= seq![name@]);
            Some(list)
        },
        None => None,
    }
}

/// Builds the record of `dependency` from the licenses that were resolved and
/// the error that stopped the retrieval, if any.
pub fn build_retrieved_dependency(
    dependency: &Dependency,
    licenses: Option<Vec<String>>,
    error: Option<String>,
) -> (r: RetrievedDependency)
    ensures
        r@ == built_record(dependency@, optional_texts(licenses), optional_text(error)),
{
    let mut url = "https://www.npmjs.com/package/".to_owned();
    url.append(dependency.name.as_str());
    url.append("/v/");
    url.append(dependency.version.as_str());
    let resolved = match &licenses {
        Some(list) => list.len() > 0,
        None => false,
    };
    let failed = error.is_some();
    let kept = if failed {
        None
    } else if resolved {
        licenses
    } else {
        let mut list: Vec<String> = Vec::new();
        list.push(NO_LICENSE.to_owned());
        assert(texts(list@) =~= seq![NO_LICENSE@]);
        Some(list)
    };
    let comment = if !failed && !resolved {
        Some(Comment::removable(NO_LICENSE_HINT))
    } else {
        None
    };
    RetrievedDependency {
        name: dependency.name.clone(),
        version: dependency.version.clone(),
        url: Some(url),
        dependency_type: NPM.to_owned(),
        validated: false,
        is_valid: resolved && !failed,
        is_ignored: false,
        error,
        licenses: kept,
        comment,
    }
}

/// The retriever for the npm registry.
#[derive(Debug)]
pub struct Npm {}

impl Default for Npm {
    fn default() -> (r: Self)
        ensures
            r == (Npm {  }),
    {
        Npm::new()
    }
}

impl Npm {
    pub fn new() -> (r: Npm)
        ensures
            r == (Npm {  }),
    {
        Npm {  }
    }

    /// The record that a parsed answer gives for `dependency`.
    pub fn from_document(dependency: &Dependency, document: Result<Json, String>) -> (r:
        RetrievedDependency)
        ensures
            document matches Ok(metadata) ==> r@ == record_of_document(dependency@, Ok(metadata)),
            document matches Err(message) ==> r@ == record_of_document(dependency@, Err(message@)),
    {
        match document {
            Ok(metadata) => {
                let licenses = resolve_licenses(&metadata, dependency.version.as_str());
                build_retrieved_dependency(dependency, licenses, None)
            },
            Err(message) => build_retrieved_dependency(dependency, None, Some(message)),
        }
    }
}

impl Retriever for Npm {
    open spec fn url_of(&self, dep_name: Seq<char>) -> Seq<char> {
        registry_url(dep_name)
    }

    open spec fn record_of(
        &self,
        dep_name: Seq<char>,
        dep_version: Seq<char>,
        response: ResponseView,
    ) -> RetrievedDependencyView {
        npm_record(DependencyView { name: dep_name, version: dep_version }, response)
    }

    proof fn lemma_record_of_is_retrieved(
        &self,
        dep_name: Seq<char>,
        dep_version: Seq<char>,
        response: ResponseView,
    ) {
        lemma_npm_record_by_answer(
            DependencyView { name: dep_name, version: dep_version },
            response,
        );
    }

    fn request_url(&self, dep_name: &str) -> (r: String) {
        let mut url = "https://registry.npmjs.org/".to_owned();
        url.append(dep_name);
        url
    }

    fn get_dependency(&self, dep_name: &str, dep_version: &str, response: &Response) -> (r:
        RetrievedDependency) {
        let dependency = Dependency { name: dep_name.to_owned(), version: dep_version.to_owned() };
        match response {
            Response::Body(text) => Npm::from_document(&dependency, parse(text.as_str())),
            Response::Failure(description) => build_retrieved_dependency(
                &dependency,
                None,
                Some(description.clone()),
            ),
        }
    }
}

} // verus!
