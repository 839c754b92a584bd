//! The errors that stop a build pass, and their diagnostics.

use vstd::prelude::*;

verus! {

/// What is wrong with the arguments of the registration synthesizer.
#[derive(Clone, Copy, Debug, PartialEq, Eq, Structural)]
pub enum ArgumentFault {
    /// The first argument is absent, or is not a string literal.
    MissingModuleKey,
    /// `use_scope` is given a value that is not a boolean literal.
    UseScopeNotBoolean,
}

/// How the registry's lock was asked for.
#[derive(Clone, Copy, Debug, PartialEq, Eq, Structural)]
pub enum LockAccess {
    Read,
    Write,
}

/// The three invocations of a build pass.
#[derive(Clone, Copy, Debug, PartialEq, Eq, Structural)]
pub enum Invocation {
    /// Processing one handler declaration.
    AutoRegister,
    /// Synthesizing the registration routine.
    GenerateRegisterService,
    /// Synthesizing the listing routine.
    GenerateListRoutes,
}

impl Invocation {
    /// The name of the invocation, as diagnostics give it.
    pub open spec fn name_text(self) -> Seq<char> {
        match self {
            Invocation::AutoRegister => "auto_register"@,
            Invocation::GenerateRegisterService => "generate_register_service"@,
            Invocation::GenerateListRoutes => "generate_list_routes"@,
        }
    }

    /// How the invocation needs the registry: processing a declaration
    /// writes to it, the two synthesizers only read it.
    pub open spec fn access_needed(self) -> LockAccess {
        match self {
            Invocation::AutoRegister => LockAccess::Write,
            Invocation::GenerateRegisterService => LockAccess::Read,
            Invocation::GenerateListRoutes => LockAccess::Read,
        }
    }

    /// The name of the invocation.
    pub fn name(self) -> (text: &'static str)
        ensures
            text@ == self.name_text(),
    {
        match self {
            Invocation::AutoRegister => "auto_register",
            Invocation::GenerateRegisterService => "generate_register_service",
            Invocation::GenerateListRoutes => "generate_list_routes",
        }
    }

    /// The access to the registry that the invocation needs.
    pub fn access(self) -> (access: LockAccess)
        ensures
            access == self.access_needed(),
    {
        match self {
            Invocation::AutoRegister => LockAccess::Write,
            _ => LockAccess::Read,
        }
    }
}

/// Why a build pass stops. Every error is fatal: nothing is skipped, retried
/// or filed in part.
#[derive(Clone, Debug, PartialEq, Eq)]
pub enum RegistryError {
    /// The declaration of `handler` gives no scope, or none that is a string
    /// literal.
    MissingScopeArgument { handler: String },
    /// The declaration of `handler` has no recognized verb marker, or its
    /// verb marker carries no path that can be read.
    MissingRouteMetadata { handler: String },
    /// The registration synthesizer was called with arguments that it cannot
    /// use.
    InvalidSynthesizerArguments { fault: ArgumentFault },
    /// `invocation` could not take the lock around the registry.
    LockAcquisitionFailure { invocation: Invocation },
}

/// An error as mathematical values.
pub enum ErrorView {
    MissingScopeArgument { handler: Seq<char> },
    MissingRouteMetadata { handler: Seq<char> },
    InvalidSynthesizerArguments { fault: ArgumentFault },
    LockAcquisitionFailure { invocation: Invocation },
}

impl View for RegistryError {
    type V = ErrorView;

    open spec fn view(&self) -> ErrorView {
        match self {
            RegistryError::MissingScopeArgument { handler } => ErrorView::MissingScopeArgument {
                handler: handler@,
            },
            RegistryError::MissingRouteMetadata { handler } => ErrorView::MissingRouteMetadata {
                handler: handler@,
            },
            RegistryError::InvalidSynthesizerArguments {
                fault,
            } => ErrorView::InvalidSynthesizerArguments { fault: *fault },
            RegistryError::LockAcquisitionFailure {
                invocation,
            } => ErrorView::LockAcquisitionFailure { invocation: *invocation },
        }
    }
}

/// What a diagnostic says of the arguments of the registration synthesizer.
pub open spec fn fault_text(fault: ArgumentFault) -> Seq<char> {
    match fault {
        ArgumentFault::MissingModuleKey => {
            ": Expected the first argument to be a string literal representing the module key."@
        },
        ArgumentFault::UseScopeNotBoolean => ": The value of `use_scope` must be a boolean."@,
    }
}

/// What a diagnostic says of a lock that could not be taken.
pub open spec fn lock_text(access: LockAccess) -> Seq<char> {
    match access {
        LockAccess::Read => ": Failed to acquire read lock"@,
        LockAccess::Write => ": Failed to acquire write lock"@,
    }
}

/// The text of the diagnostic for an error. It names the handler or the
/// invocation at fault, and what has to be mended.
pub open spec fn message_text(error: ErrorView) -> Seq<char> {
    match error {
        ErrorView::MissingScopeArgument { handler } => {
            "Expected a prefix (e.g., \"/scope\") as the argument to auto_register on function '"@
                + handler + "'."@
        },
        ErrorView::MissingRouteMetadata { handler } => {
            "Could not extract the route path or verb from attributes on function '"@ + handler
                + "'. Ensure it has a valid Actix route macro like #[get(\"/path\")]."@
        },
        ErrorView::InvalidSynthesizerArguments { fault } => {
            Invocation::GenerateRegisterService.name_text() + fault_text(fault)
        },
        ErrorView::LockAcquisitionFailure { invocation } => {
            invocation.name_text() + lock_text(invocation.access_needed())
        },
    }
}

impl RegistryError {
    /// The diagnostic for this error.
    pub fn message(&self) -> (text: String)
        ensures
            text@ == message_text(self@),
    {
        match self {
            RegistryError::MissingScopeArgument { handler } => {
                let mut text =
                    "Expected a prefix (e.g., \"/scope\") as the argument to auto_register on function '".to_owned();
                text.append(handler.as_str());
                text.append("'.");
                text
            },
            RegistryError::MissingRouteMetadata { handler } => {
                let mut text =
                    "Could not extract the route path or verb from attributes on function '".to_owned();
                text.append(handler.as_str());
                text.append(
                    "'. Ensure it has a valid Actix route macro like #[get(\"/path\")].",
                );
                text
            },
            RegistryError::InvalidSynthesizerArguments { fault } => {
                let mut text = Invocation::GenerateRegisterService.name().to_owned();
                text.append(
                    match fault {
                        ArgumentFault::MissingModuleKey => {
                            ": Expected the first argument to be a string literal representing the module key."
                        },
                        ArgumentFault::UseScopeNotBoolean => {
                            ": The value of `use_scope` must be a boolean."
                        },
                    },
                );
                text
            },
            RegistryError::LockAcquisitionFailure { invocation } => {
                let mut text = invocation.name().to_owned();
                text.append(
                    match invocation.access() {
                        LockAccess::Read => ": Failed to acquire read lock",
                        LockAccess::Write => ": Failed to acquire write lock",
                    },
                );
                text
            },
        }
    }
}

} // verus!
