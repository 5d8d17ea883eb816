//! The records that flow through an audit: a declared dependency, and what is
//! known of it once its registry has been asked.

use vstd::prelude::*;

verus! {

/// The view of each item of a sequence.
pub open spec fn views<T: View>(items: Seq<T>) -> Seq<T::V> {
    items.map_values(|item: T| item@)
}

/// The characters of each string of a sequence.
pub open spec fn texts(items: Seq<String>) -> Seq<Seq<char>> {
    items.map_values(|s: String| s@)
}

/// The characters of an optional string.
pub open spec fn optional_text(item: Option<String>) -> Option<Seq<char>> {
    match item {
        Some(s) => Some(s@),
        None => None,
    }
}

/// The characters of each string of an optional list.
pub open spec fn optional_texts(items: Option<Vec<String>>) -> Option<Seq<Seq<char>>> {
    match items {
        Some(list) => Some(texts(list@)),
        None => None,
    }
}

/// A dependency as a lockfile declares it.
#[derive(Debug, PartialEq, Eq)]
pub struct Dependency {
    pub name: String,
    pub version: String,
}

pub struct DependencyView {
    pub name: Seq<char>,
    pub version: Seq<char>,
}

impl View for Dependency {
    type V = DependencyView;

    open spec fn view(&self) -> DependencyView {
        DependencyView { name: self.name@, version: self.version@ }
    }
}

/// A note for the reader of a report.
#[derive(Debug, PartialEq, Eq)]
pub struct Comment {
    pub text: String,
    /// The note has served its purpose once the dependency is accepted.
    pub remove_when_valid: bool,
}

pub struct CommentView {
    pub text: Seq<char>,
    pub remove_when_valid: bool,
}

impl View for Comment {
    type V = CommentView;

    open spec fn view(&self) -> CommentView {
        CommentView { text: self.text@, remove_when_valid: self.remove_when_valid }
    }
}

impl Comment {
    /// A note that a report may drop once the dependency is accepted.
    pub fn removable(text: &str) -> (r: Comment)
        ensures
            r@ == (CommentView { text: text@, remove_when_valid: true }),
    {
        Comment { text: text.to_owned(), remove_when_valid: true }
    }

    /// A note that stays whatever the policy decides.
    pub fn non_removable(text: &str) -> (r: Comment)
        ensures
            r@ == (CommentView { text: text@, remove_when_valid: false }),
    {
        Comment { text: text.to_owned(), remove_when_valid: false }
    }
}

/// The view of an optional note.
pub open spec fn optional_comment(item: Option<Comment>) -> Option<CommentView> {
    match item {
        Some(c) => Some(c@),
        None => None,
    }
}

/// What is known of one dependency after its registry has been asked.
#[derive(Debug, PartialEq, Eq)]
pub struct RetrievedDependency {
    pub name: String,
    pub version: String,
    /// A page about the package, for a human reader.
    pub url: Option<String>,
    /// The ecosystem that the dependency comes from.
    pub dependency_type: String,
    /// Whether the policy has been applied.
    pub validated: bool,
    pub is_valid: bool,
    pub is_ignored: bool,
    /// Why the registry could not be asked, or could not be understood.
    pub error: Option<String>,
    pub licenses: Option<Vec<String>>,
    pub comment: Option<Comment>,
}

pub struct RetrievedDependencyView {
    pub name: Seq<char>,
    pub version: Seq<char>,
    pub url: Option<Seq<char>>,
    pub dependency_type: Seq<char>,
    pub validated: bool,
    pub is_valid: bool,
    pub is_ignored: bool,
    pub error: Option<Seq<char>>,
    pub licenses: Option<Seq<Seq<char>>>,
    pub comment: Option<CommentView>,
}

impl View for RetrievedDependency {
    type V = RetrievedDependencyView;

    open spec fn view(&self) -> RetrievedDependencyView {
        RetrievedDependencyView {
            name: self.name@,
            version: self.version@,
            url: optional_text(self.url),
            dependency_type: self.dependency_type@,
            validated: self.validated,
            is_valid: self.is_valid,
            is_ignored: self.is_ignored,
            error: optional_text(self.error),
            licenses: optional_texts(self.licenses),
            comment: optional_comment(self.comment),
        }
    }
}

impl RetrievedDependencyView {
    /// What every record obeys, before and after the policy is applied: a record
    /// with an error is not valid and names no license, and a record without one
    /// names at least one license.
    pub open spec fn wf(self) -> bool {
        &&& self.error is Some ==> !self.is_valid
        &&& self.error is Some <==> self.licenses is None
        &&& self.licenses is Some ==> self.licenses.unwrap().len() > 0
    }

    /// The record as a retriever leaves it: no policy has touched it.
    pub open spec fn is_pending(self) -> bool {
        &&& !self.validated
        &&& !self.is_ignored
    }

    /// The record is about the dependency `name` at `version`.
    pub open spec fn is_about(self, name: Seq<char>, version: Seq<char>) -> bool {
        &&& self.name == name
        &&& self.version == version
    }
}

} // verus!
