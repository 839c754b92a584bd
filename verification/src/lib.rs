//! A registry of route handlers and the two routines that are synthesized
//! from it.
//!
//! A build pass has two phases. First every handler declaration is processed
//! once, by [`auto_register`]: the declaration is validated and the route
//! that it asks for is filed in the [`Registry`] under the declared scope.
//! Then the routines are synthesized from what the registry holds:
//! [`generate_register_service`] gives the routine that registers the
//! handlers of one scope with the hosting framework, and
//! [`generate_list_routes`] gives the routine that lists every route as a
//! table. A routine is a value of its own: it holds what it needs and does
//! not follow the registry afterwards.
//!
//! Every error is fatal to the build pass: a declaration in error files
//! nothing, and nothing is synthesized from arguments in error.
//!
//! The module [`laws`] states what holds over whole sequences of
//! registrations.

pub mod declaration;
pub mod error;
pub mod laws;
pub mod listing;
pub mod registry;
pub mod route;
pub mod service;
pub mod verb;

pub use declaration::{
    auto_register, extract_route, Declaration, DeclarationView, Marker, MarkerView,
};
pub use error::{ArgumentFault, ErrorView, Invocation, LockAccess, RegistryError};
pub use listing::{
    generate_list_routes, ListingRoutine, RouteRow, RouteRowView, COLUMN_TITLES, LISTING_BANNER,
};
pub use registry::{Bucket, BucketView, Registry};
pub use route::{RouteInfo, RouteView};
pub use service::{
    generate_register_service, group_by_scope, parse_arguments, synthesize_registration, ArgValue,
    ArgValueView, RegistrationRoutine, ScopeBlock, ScopeBlockView, SynthArg, SynthArgView,
    SynthOptions, SynthOptionsView,
};
pub use verb::Verb;
