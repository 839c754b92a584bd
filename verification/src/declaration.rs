//! The annotation processor: from one handler declaration to one entry in
//! the registry.

use crate::error::{ErrorView, RegistryError};
use crate::registry::{filed, well_formed, Registry};
use crate::route::{RouteInfo, RouteView};
use crate::verb::Verb;
use vstd::prelude::*;

verus! {

/// One annotation on a handler declaration: its name, and the path it
/// carries where its argument is a single string literal.
#[derive(Clone, Debug, PartialEq, Eq)]
pub struct Marker {
    pub name: String,
    pub path: Option<String>,
}

/// An annotation as mathematical values.
pub struct MarkerView {
    pub name: Seq<char>,
    pub path: Option<Seq<char>>,
}

/// The text of an optional string.
pub open spec fn text_of(text: Option<String>) -> Option<Seq<char>> {
    match text {
        Some(t) => Some(t@),
        None => None,
    }
}

impl View for Marker {
    type V = MarkerView;

    open spec fn view(&self) -> MarkerView {
        MarkerView { name: self.name@, path: text_of(self.path) }
    }
}

impl DeepView for Marker {
    type V = MarkerView;

    open spec fn deep_view(&self) -> MarkerView {
        self@
    }
}

/// A handler declaration as the annotation processor reads it: the name of
/// the handler and its annotations in the order in which they are written.
#[derive(Clone, Debug, PartialEq, Eq)]
pub struct Declaration {
    pub handler_name: String,
    pub markers: Vec<Marker>,
}

/// A declaration as mathematical values.
pub struct DeclarationView {
    pub handler_name: Seq<char>,
    pub markers: Seq<MarkerView>,
}

impl View for Declaration {
    type V = DeclarationView;

    open spec fn view(&self) -> DeclarationView {
        DeclarationView { handler_name: self.handler_name@, markers: self.markers.deep_view() }
    }
}

/// Whether an annotation is one of the five verb markers.
pub open spec fn is_verb_marker(marker: MarkerView) -> bool {
    Verb::recognized(marker.name) is Some
}

/// The annotation that decides the route of a declaration: its last verb
/// marker. Both the method and the path are taken from this one marker.
pub open spec fn deciding_marker(markers: Seq<MarkerView>) -> Option<MarkerView>
    decreases markers.len(),
{
    if markers.len() == 0 {
        None
    } else if is_verb_marker(markers.last()) {
        Some(markers.last())
    } else {
        deciding_marker(markers.drop_last())
    }
}

/// What processing a declaration yields: the entry to file, or the reason
/// why nothing is filed. The scope is looked at first: `None` stands for a
/// declaration that gives no scope, or none that is a string literal. Then
/// the deciding marker gives the method, and it must itself carry the path:
/// a path on any other annotation is not taken.
pub open spec fn extracted(scope: Option<Seq<char>>, declaration: DeclarationView) -> Result<
    RouteView,
    ErrorView,
> {
    match scope {
        None => Err(ErrorView::MissingScopeArgument { handler: declaration.handler_name }),
        Some(scope) => match deciding_marker(declaration.markers) {
            Some(MarkerView { name, path: Some(path) }) => Ok(
                RouteView {
                    scope,
                    handler_name: declaration.handler_name,
                    path,
                    verb: Verb::recognized(name)->0,
                },
            ),
            _ => Err(ErrorView::MissingRouteMetadata { handler: declaration.handler_name }),
        },
    }
}

/// A declaration without any verb marker has no deciding marker.
pub proof fn lemma_no_marker_no_metadata(markers: Seq<MarkerView>)
    requires
        forall|i: int| 0 <= i < markers.len() ==> !is_verb_marker(#[trigger] markers[i]),
    ensures
        deciding_marker(markers) is None,
    decreases markers.len(),
{
    if markers.len() > 0 {
        lemma_no_marker_no_metadata(markers.drop_last());
    }
}

/// The deciding marker is the verb marker behind which no other verb marker
/// stands.
pub proof fn lemma_last_marker_decides(markers: Seq<MarkerView>, at: int)
    requires
        0 <= at < markers.len(),
        is_verb_marker(markers[at]),
        forall|i: int| at < i < markers.len() ==> !is_verb_marker(#[trigger] markers[i]),
    ensures
        deciding_marker(markers) == Some(markers[at]),
    decreases markers.len(),
{
    if at < markers.len() - 1 {
        assert(!is_verb_marker(markers[markers.len() - 1]));
        lemma_last_marker_decides(markers.drop_last(), at);
    }
}

/// A declaration with exactly one verb marker is decided by that marker.
pub proof fn lemma_single_marker(markers: Seq<MarkerView>, at: int)
    requires
        0 <= at < markers.len(),
        is_verb_marker(markers[at]),
        forall|i: int| 0 <= i < markers.len() && i != at ==> !is_verb_marker(#[trigger] markers[i]),
    ensures
        deciding_marker(markers) == Some(markers[at]),
{
    lemma_last_marker_decides(markers, at);
}

/// The deciding marker is one of the declaration's verb markers.
pub proof fn lemma_deciding_marker_is_declared(markers: Seq<MarkerView>)
    requires
        deciding_marker(markers) is Some,
    ensures
        is_verb_marker(deciding_marker(markers)->0),
        exists|i: int| 0 <= i < markers.len() && #[trigger] markers[i] == deciding_marker(markers)->0,
    decreases markers.len(),
{
    if is_verb_marker(markers.last()) {
        assert(markers[markers.len() - 1] == deciding_marker(markers)->0);
    } else {
        lemma_deciding_marker_is_declared(markers.drop_last());
        let i = choose|i: int|
            0 <= i < markers.drop_last().len() && #[trigger] markers.drop_last()[i]
                == deciding_marker(markers)->0;
        assert(markers[i] == deciding_marker(markers)->0);
    }
}

/// A copy of an annotation.
fn clone_marker(marker: &Marker) -> (copy: Marker)
    ensures
        copy@ == marker@,
{
    Marker {
        name: marker.name.clone(),
        path: match &marker.path {
            Some(path) => Some(path.clone()),
            None => None,
        },
    }
}

/// Finds the deciding marker of a declaration and the method that it names.
fn find_deciding_marker(markers: &Vec<Marker>) -> (found: Option<(Verb, Marker)>)
    ensures
        match deciding_marker(markers.deep_view()) {
            Some(marker) => found matches Some((verb, m)) && m@ == marker && Verb::recognized(
                marker.name,
            ) == Some(verb),
            None => found is None,
        },
{
    let ghost all = markers.deep_view();
    let mut found: Option<(Verb, Marker)> = None;
    let mut i: usize = 0;
    while i < markers.len()
        invariant
            i <= markers.len(),
            all == markers.deep_view(),
            match deciding_marker(all.take(i as int)) {
                Some(marker) => found matches Some((verb, m)) && m@ == marker
                    && Verb::recognized(marker.name) == Some(verb),
                None => found is None,
            },
        decreases markers.len() - i,
    {
        let marker = &markers[i];
        proof {
            assert(all.take(i + 1).drop_last() =~= all.take(i as int));
            assert(all.take(i + 1).last() == marker@);
        }
        match Verb::from_marker(marker.name.as_str()) {
            Some(verb) => {
                found = Some((verb, clone_marker(marker)));
            },
            None => {},
        }
        i += 1;
    }
    assert(all.take(markers.len() as int) =~= all);
    found
}

/// Validates one declaration and builds the entry that it asks for.
///
/// The scope is mandatory: without it the result is `MissingScopeArgument`,
/// whatever the annotations say. The method is that of the declaration's
/// verb marker and the path is the one that this marker carries; a
/// declaration without a verb marker, or with one that carries no path,
/// gives `MissingRouteMetadata`. Both errors name the handler. An empty path
/// is valid and stands for the root of the scope.
///
/// A declaration is meant to carry one verb marker. Where it carries more,
/// the last of them decides alone: it gives the method and the path, and
/// where it carries no path the declaration is rejected, whatever the
/// markers before it carry.
pub fn extract_route(scope: Option<String>, declaration: &Declaration) -> (res: Result<
    RouteInfo,
    RegistryError,
>)
    ensures
        match extracted(text_of(scope), declaration@) {
            Ok(route) => res matches Ok(r) && r@ == route,
            Err(error) => res matches Err(e) && e@ == error,
        },
{
    let scope = match scope {
        Some(scope) => scope,
        None => {
            return Err(
                RegistryError::MissingScopeArgument { handler: declaration.handler_name.clone() },
            );
        },
    };
    match find_deciding_marker(&declaration.markers) {
        Some((verb, Marker { name: _, path: Some(path) })) => Ok(
            RouteInfo { scope, handler_name: declaration.handler_name.clone(), path, verb },
        ),
        _ => Err(RegistryError::MissingRouteMetadata { handler: declaration.handler_name.clone() }),
    }
}

/// Processes one handler declaration: validates it and files the entry that
/// it asks for under the declared scope.
///
/// On success exactly one entry is filed, behind all entries of that scope,
/// and the declaration is handed back as it came. On an error nothing is
/// filed: the registry is left as it was.
pub fn auto_register(registry: &mut Registry, scope: Option<String>, item: Declaration) -> (res:
    Result<Declaration, RegistryError>)
    ensures
        well_formed(final(registry)@),
        match extracted(text_of(scope), item@) {
            Ok(route) => {
                &&& res == Ok::<Declaration, RegistryError>(item)
                &&& final(registry)@ == filed(old(registry)@, route.scope, route)
            },
            Err(error) => {
                &&& res matches Err(e) && e@ == error
                &&& final(registry)@ == old(registry)@
            },
        },
        scope is None ==> res is Err && res.unwrap_err()@ == (ErrorView::MissingScopeArgument {
            handler: item@.handler_name,
        }),
        scope is Some && (forall|i: int|
            0 <= i < item@.markers.len() ==> !is_verb_marker(#[trigger] item@.markers[i])) ==> res
            is Err && res.unwrap_err()@ == (ErrorView::MissingRouteMetadata {
            handler: item@.handler_name,
        }),
        scope is Some && deciding_marker(item@.markers) is Some && deciding_marker(
            item@.markers,
        )->0.path is None ==> res is Err && res.unwrap_err()@ == (ErrorView::MissingRouteMetadata {
            handler: item@.handler_name,
        }),
{
    proof {
        use_type_invariant(&*registry);
        if forall|i: int|
            0 <= i < item@.markers.len() ==> !is_verb_marker(#[trigger] item@.markers[i]) {
            lemma_no_marker_no_metadata(item@.markers);
        }
    }
    match extract_route(scope, &item) {
        Ok(route) => {
            registry.insert(route.scope.clone(), route);
            Ok(item)
        },
        Err(error) => Err(error),
    }
}

} // verus!
