//! The service registration synthesizer: from the entries of one module key
//! to the routine that registers their handlers.

use crate::error::{ArgumentFault, ErrorView, RegistryError};
use crate::registry::{filed_all, routes_for, Bucket, BucketView, Registry};
use crate::route::{RouteInfo, RouteView};
use vstd::prelude::*;

verus! {

/// The value of one argument of the synthesizer, as far as it is read: a
/// string literal, a boolean literal, or anything else.
#[derive(Clone, Debug, PartialEq, Eq)]
pub enum ArgValue {
    Str(String),
    Bool(bool),
    Other,
}

/// An argument value as mathematical values.
pub enum ArgValueView {
    Str(Seq<char>),
    Bool(bool),
    Other,
}

impl View for ArgValue {
    type V = ArgValueView;

    open spec fn view(&self) -> ArgValueView {
        match self {
            ArgValue::Str(text) => ArgValueView::Str(text@),
            ArgValue::Bool(flag) => ArgValueView::Bool(*flag),
            ArgValue::Other => ArgValueView::Other,
        }
    }
}

/// One argument of the synthesizer: a bare value, or a value given to a name
/// as in `use_scope = true`.
#[derive(Clone, Debug, PartialEq, Eq)]
pub enum SynthArg {
    Positional(ArgValue),
    Named { name: String, value: ArgValue },
}

/// An argument as mathematical values.
pub enum SynthArgView {
    Positional(ArgValueView),
    Named { name: Seq<char>, value: ArgValueView },
}

impl View for SynthArg {
    type V = SynthArgView;

    open spec fn view(&self) -> SynthArgView {
        match self {
            SynthArg::Positional(value) => SynthArgView::Positional(value@),
            SynthArg::Named { name, value } => SynthArgView::Named { name: name@, value: value@ },
        }
    }
}

impl DeepView for SynthArg {
    type V = SynthArgView;

    open spec fn deep_view(&self) -> SynthArgView {
        self@
    }
}

/// What the arguments of the synthesizer ask for.
#[derive(Clone, Debug, PartialEq, Eq)]
pub struct SynthOptions {
    /// The scope whose registrations are gathered.
    pub module_key: String,
    /// Whether each group is registered under its own scope, or under the
    /// root.
    pub use_scope: bool,
}

/// The options as mathematical values.
pub struct SynthOptionsView {
    pub module_key: Seq<char>,
    pub use_scope: bool,
}

impl View for SynthOptions {
    type V = SynthOptionsView;

    open spec fn view(&self) -> SynthOptionsView {
        SynthOptionsView { module_key: self.module_key@, use_scope: self.use_scope }
    }
}

/// The name that the second argument gives a value to.
pub open spec fn use_scope_name() -> Seq<char> {
    "use_scope"@
}

/// How the arguments are read. The first must be a bare string literal: the
/// module key. The second may give `use_scope` a boolean literal; without it
/// the flag is off. Any other second argument, and all that follow, are not
/// looked at. A missing key is reported before a bad flag.
pub open spec fn parsed_arguments(args: Seq<SynthArgView>) -> Result<
    SynthOptionsView,
    ArgumentFault,
> {
    if args.len() == 0 {
        Err(ArgumentFault::MissingModuleKey)
    } else {
        match args[0] {
            SynthArgView::Positional(ArgValueView::Str(module_key)) => {
                if args.len() == 1 {
                    Ok(SynthOptionsView { module_key, use_scope: false })
                } else {
                    match args[1] {
                        SynthArgView::Named { name, value } => {
                            if name == use_scope_name() {
                                match value {
                                    ArgValueView::Bool(use_scope) => Ok(
                                        SynthOptionsView { module_key, use_scope },
                                    ),
                                    _ => Err(ArgumentFault::UseScopeNotBoolean),
                                }
                            } else {
                                Ok(SynthOptionsView { module_key, use_scope: false })
                            }
                        },
                        _ => Ok(SynthOptionsView { module_key, use_scope: false }),
                    }
                }
            },
            _ => Err(ArgumentFault::MissingModuleKey),
        }
    }
}

/// Reads the arguments of the synthesizer: see [`parsed_arguments`].
pub fn parse_arguments(args: &Vec<SynthArg>) -> (res: Result<SynthOptions, RegistryError>)
    ensures
        match parsed_arguments(args.deep_view()) {
            Ok(options) => res matches Ok(o) && o@ == options,
            Err(fault) => res matches Err(e) && e@ == (ErrorView::InvalidSynthesizerArguments {
                fault,
            }),
        },
{
    if args.len() == 0 {
        return Err(
            RegistryError::InvalidSynthesizerArguments { fault: ArgumentFault::MissingModuleKey },
        );
    }
    assert(args.deep_view()[0] == args[0]@);
    let module_key = match &args[0] {
        SynthArg::Positional(ArgValue::Str(key)) => key.clone(),
        _ => {
            return Err(
                RegistryError::InvalidSynthesizerArguments {
                    fault: ArgumentFault::MissingModuleKey,
                },
            );
        },
    };
    let mut use_scope = false;
    if args.len() > 1 {
        assert(args.deep_view()[1] == args[1]@);
        match &args[1] {
            SynthArg::Named { name, value } => {
                if *name == "use_scope".to_owned() {
                    match value {
                        ArgValue::Bool(flag) => {
                            use_scope = *flag;
                        },
                        _ => {
                            return Err(
                                RegistryError::InvalidSynthesizerArguments {
                                    fault: ArgumentFault::UseScopeNotBoolean,
                                },
                            );
                        },
                    }
                }
            },
            _ => {},
        }
    }
    Ok(SynthOptions { module_key, use_scope })
}

/// One block of the registration routine: a scope declared with `prefix`, and
/// in it one service registration for each of `handlers`, in that order.
#[derive(Clone, Debug, PartialEq, Eq)]
pub struct ScopeBlock {
    pub prefix: String,
    pub handlers: Vec<String>,
}

/// A block as mathematical values.
pub struct ScopeBlockView {
    pub prefix: Seq<char>,
    pub handlers: Seq<Seq<char>>,
}

impl View for ScopeBlock {
    type V = ScopeBlockView;

    open spec fn view(&self) -> ScopeBlockView {
        ScopeBlockView { prefix: self.prefix@, handlers: self.handlers.deep_view() }
    }
}

impl DeepView for ScopeBlock {
    type V = ScopeBlockView;

    open spec fn deep_view(&self) -> ScopeBlockView {
        self@
    }
}

/// The registration routine: its blocks in the order in which it runs them.
/// It holds all that it registers and reads no registry when it runs.
#[derive(Clone, Debug, PartialEq, Eq)]
pub struct RegistrationRoutine {
    pub blocks: Vec<ScopeBlock>,
}

impl View for RegistrationRoutine {
    type V = Seq<ScopeBlockView>;

    open spec fn view(&self) -> Seq<ScopeBlockView> {
        self.blocks.deep_view()
    }
}

/// The handler names of a list of entries, in the same order.
pub open spec fn handler_names(routes: Seq<RouteView>) -> Seq<Seq<char>> {
    routes.map_values(|route: RouteView| route.handler_name)
}

/// The entries regrouped by their own scope: groups in the order in which
/// their scopes first occur, and in each group its entries in their order.
pub open spec fn grouped(routes: Seq<RouteView>) -> Seq<BucketView> {
    filed_all(Seq::empty(), routes)
}

/// The block for one group: its handlers, under the group's scope where
/// `use_scope` is set and under the root, the empty prefix, where it is not.
pub open spec fn block_of(group: BucketView, use_scope: bool) -> ScopeBlockView {
    ScopeBlockView {
        prefix: if use_scope {
            group.scope
        } else {
            Seq::empty()
        },
        handlers: handler_names(group.routes),
    }
}

/// The blocks of the registration routine for a list of entries: one block
/// for each group of [`grouped`], in the order of the groups.
pub open spec fn registration_blocks(routes: Seq<RouteView>, use_scope: bool) -> Seq<
    ScopeBlockView,
> {
    grouped(routes).map_values(|group: BucketView| block_of(group, use_scope))
}

/// Regroups entries by their own scope.
pub fn group_by_scope(routes: &Vec<RouteInfo>) -> (groups: Vec<Bucket>)
    ensures
        groups.deep_view() == grouped(routes.deep_view()),
{
    let ghost all = routes.deep_view();
    let mut groups = Registry::new();
    let mut i: usize = 0;
    while i < routes.len()
        invariant
            i <= routes.len(),
            all == routes.deep_view(),
            groups@ == grouped(all.take(i as int)),
        decreases routes.len() - i,
    {
        let route = routes[i].clone();
        proof {
            assert(all.take(i + 1).drop_last() =~= all.take(i as int));
            assert(all.take(i + 1).last() == route@);
        }
        groups.insert(route.scope.clone(), route);
        i += 1;
    }
    assert(all.take(routes.len() as int) =~= all);
    groups.into_buckets()
}

/// The handler names of a list of entries.
fn names_of(routes: &Vec<RouteInfo>) -> (names: Vec<String>)
    ensures
        names.deep_view() == handler_names(routes.deep_view()),
{
    let mut names: Vec<String> = Vec::new();
    let mut i: usize = 0;
    while i < routes.len()
        invariant
            i <= routes.len(),
            names.len() == i,
            forall|j: int| 0 <= j < i ==> names[j]@ == routes[j]@.handler_name,
        decreases routes.len() - i,
    {
        names.push(routes[i].handler_name.clone());
        i += 1;
    }
    assert(names.deep_view() =~= handler_names(routes.deep_view()));
    names
}

/// Synthesizes the registration routine for the entries filed under
/// `module_key`.
///
/// The entries are read from the registry once and regrouped by their own
/// scope. Each group becomes one block that lists every handler of the group,
/// in the order in which the entries were filed; an entry that was filed
/// twice is listed twice. With `use_scope` a block is declared under its
/// group's scope, without it under the empty prefix. Where nothing is filed
/// under `module_key` the routine has no block.
pub fn synthesize_registration(registry: &Registry, module_key: &str, use_scope: bool) -> (routine:
    RegistrationRoutine)
    ensures
        routine@ == registration_blocks(routes_for(registry@, module_key@), use_scope),
        routes_for(registry@, module_key@).len() == 0 ==> routine@.len() == 0,
{
    let routes = registry.snapshot_for(module_key);
    let groups = group_by_scope(&routes);
    let mut blocks: Vec<ScopeBlock> = Vec::new();
    let mut i: usize = 0;
    while i < groups.len()
        invariant
            i <= groups.len(),
            blocks.len() == i,
            forall|j: int| 0 <= j < i ==> blocks[j]@ == block_of(groups[j]@, use_scope),
        decreases groups.len() - i,
    {
        let group = &groups[i];
        let prefix = if use_scope {
            group.scope.clone()
        } else {
            String::new()
        };
        blocks.push(ScopeBlock { prefix, handlers: names_of(&group.routes) });
        i += 1;
    }
    let routine = RegistrationRoutine { blocks };
    assert(routine@ =~= registration_blocks(routes_for(registry@, module_key@), use_scope));
    routine
}

/// Synthesizes the registration routine that the arguments ask for.
///
/// The arguments are validated first: without a module key, or with a
/// `use_scope` that is not a boolean literal, the result is
/// `InvalidSynthesizerArguments` and nothing is synthesized. Otherwise the
/// result is the routine of [`synthesize_registration`] for the module key
/// and the flag that were given. The registry is only read.
pub fn generate_register_service(registry: &Registry, input: &Vec<SynthArg>) -> (res: Result<
    RegistrationRoutine,
    RegistryError,
>)
    ensures
        match parsed_arguments(input.deep_view()) {
            Ok(options) => res matches Ok(routine) && routine@ == registration_blocks(
                routes_for(registry@, options.module_key),
                options.use_scope,
            ) && (routes_for(registry@, options.module_key).len() == 0 ==> routine@.len() == 0),
            Err(fault) => res matches Err(e) && e@ == (ErrorView::InvalidSynthesizerArguments {
                fault,
            }),
        },
{
    match parse_arguments(input) {
        Ok(options) => Ok(
            synthesize_registration(registry, options.module_key.as_str(), options.use_scope),
        ),
        Err(error) => Err(error),
    }
}

} // verus!
