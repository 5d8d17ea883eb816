//! What the collectors of the npm registry share.

use vstd::prelude::*;
use crate::collector::{Request, RequestView};
use crate::dependency::{views, Dependency, DependencyView};
use crate::retriever::npm::Retriever;

verus! {

/// The tag of the npm ecosystem.
pub const NPM: &'static str = "npm";

/// The request that `retriever` makes for `dependency`.
pub open spec fn request_for<R: Retriever>(dependency: DependencyView, retriever: R) -> RequestView {
    RequestView { dependency: dependency, url: retriever.url_of(dependency.name) }
}

/// One request for each dependency, in the order given.
pub open spec fn requests_for<R: Retriever>(
    dependencies: Seq<DependencyView>,
    retriever: R,
) -> Seq<RequestView> {
    dependencies.map_values(|dependency: DependencyView| request_for(dependency, retriever))
}

/// Starts one retrieval for each dependency: the requests that `retriever`
/// makes for them, in the order given.
pub fn retrieve_from_npm<R: Retriever>(deps: Vec<Dependency>, retriever: &R) -> (r: Vec<Request>)
    ensures
        views(r@) == requests_for(views(deps@), *retriever),
{
    let mut requests: Vec<Request> = Vec::new();
    let mut i: usize = 0;
    while i < deps.len()
        invariant
            i <= deps.len(),
            requests@.len() == i,
            forall|k: int| 0 <= k < i ==> (#[trigger] requests@[k])@ == request_for(deps@[k]@, *retriever),
        decreases deps.len() - i,
    {
        let url = retriever.request_url(deps[i].name.as_str());
        let dependency = Dependency { name: deps[i].name.clone(), version: deps[i].version.clone() };
        requests.push(Request { dependency, url });
        i += 1;
    }
    assert(views(requests@) =~= requests_for(views(deps@), *retriever));
    requests
}

} // verus!
