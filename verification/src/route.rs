//! The registration entry: what the registry keeps of one handler.

use crate::verb::Verb;
use vstd::prelude::*;

verus! {

/// One registration entry: the metadata taken from one handler declaration.
#[derive(Debug, PartialEq, Eq)]
pub struct RouteInfo {
    /// The scope that the handler was declared for.
    pub scope: String,
    /// The name of the handler.
    pub handler_name: String,
    /// The path of the route below its scope; empty for the scope's root.
    pub path: String,
    /// The method that the handler answers.
    pub verb: Verb,
}

/// What a registration entry holds, as mathematical values.
pub struct RouteView {
    pub scope: Seq<char>,
    pub handler_name: Seq<char>,
    pub path: Seq<char>,
    pub verb: Verb,
}

impl View for RouteInfo {
    type V = RouteView;

    open spec fn view(&self) -> RouteView {
        RouteView {
            scope: self.scope@,
            handler_name: self.handler_name@,
            path: self.path@,
            verb: self.verb,
        }
    }
}

impl DeepView for RouteInfo {
    type V = RouteView;

    open spec fn deep_view(&self) -> RouteView {
        self@
    }
}

impl Clone for RouteInfo {
    fn clone(&self) -> (copy: Self)
        ensures
            copy@ == self@,
    {
        RouteInfo {
            scope: self.scope.clone(),
            handler_name: self.handler_name.clone(),
            path: self.path.clone(),
            verb: self.verb,
        }
    }
}

/// A copy of a list of entries, in the same order.
pub fn clone_routes(routes: &Vec<RouteInfo>) -> (copy: Vec<RouteInfo>)
    ensures
        copy.deep_view() == routes.deep_view(),
{
    let mut copy: Vec<RouteInfo> = Vec::new();
    let mut i: usize = 0;
    while i < routes.len()
        invariant
            i <= routes.len(),
            copy.len() == i,
            forall|j: int| 0 <= j < i ==> copy[j]@ == routes[j]@,
        decreases routes.len() - i,
    {
        copy.push(routes[i].clone());
        i += 1;
    }
    assert(copy.deep_view() =~= routes.deep_view());
    copy
}

} // verus!
