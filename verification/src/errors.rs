//! The error taxonomy of the container: every failure is returned to the
//! caller as a value; nothing terminates the process.  A failure deep in a
//! resolution is wrapped once per level, so the top-level caller receives
//! one error value holding the deepest cause and the dependency path.

use vstd::prelude::*;

use crate::dependency_history::DependencyHistory;
use crate::ptr::{SomePtrError, SomePtrErrorView};

verus! {

/// The mathematical value of a resolution error, shared by the blocking and
/// the thread-safe front-end.
pub enum ErrorView {
    /// No binding exists for the interface (and optional name).
    BindingNotFound { interface: Seq<char>, name: Option<Seq<char>> },
    /// No cast relationship was declared from the concrete type to the
    /// requested interface.
    CastFailed { from: Seq<char>, to: Seq<char> },
    /// Resolution revisited an interface: the attached history ends at the
    /// repeated entry.
    CycleDetected { dependency_history: Seq<Seq<char>> },
    /// The cast relationship exists but was not declared thread-safe, which
    /// the thread-safe front-end demands.
    InterfaceNotAsync { interface: Seq<char> },
    /// Resolving a dependency of the interface failed; the nested cause is
    /// kept whole.
    BindingResolveFailed { interface: Seq<char>, reason: Box<ErrorView> },
    /// A singleton was requested from an existing binding of the
    /// implementation, but that binding did not yield a singleton pointer.
    SingletonNotFound { ptr_error: SomePtrErrorView, implementation: Seq<char> },
}

/// The deepest cause of an error: what remains after unwrapping every
/// dependency-failure layer.
pub open spec fn root_cause_of(e: ErrorView) -> ErrorView
    decreases e,
{
    match e {
        ErrorView::BindingResolveFailed { interface, reason } => root_cause_of(*reason),
        _ => e,
    }
}

/// Error type of the blocking container's resolution.
#[derive(Debug)]
pub enum DIContainerError {
    /// No binding exists for the interface (and optional name).
    BindingNotFound { interface: String, name: Option<String> },
    /// No cast relationship was declared from `from` to `to`.
    CastFailed { from: String, to: String },
    /// Resolution revisited an interface; the history shows where the cycle
    /// closes.
    CycleDetected { dependency_history: DependencyHistory },
    /// The cast relationship was not declared thread-safe; only the
    /// thread-safe front-end produces this.
    InterfaceNotAsync { interface: String },
    /// Resolving a dependency of `interface` failed for the nested reason.
    BindingResolveFailed { interface: String, reason: Box<DIContainerError> },
    /// The existing binding of `implementation` did not yield a singleton
    /// pointer.
    SingletonNotFound { ptr_error: SomePtrError, implementation: String },
}

/// The value of a [`DIContainerError`].
pub open spec fn container_error_view(e: DIContainerError) -> ErrorView
    decreases e,
{
    match e {
        DIContainerError::BindingNotFound { interface, name } => ErrorView::BindingNotFound {
            interface: interface@,
            name: match name {
                Option::None => Option::None,
                Option::Some(n) => Option::Some(n@),
            },
        },
        DIContainerError::CastFailed { from, to } => ErrorView::CastFailed {
            from: from@,
            to: to@,
        },
        DIContainerError::CycleDetected { dependency_history } => ErrorView::CycleDetected {
            dependency_history: dependency_history@,
        },
        DIContainerError::InterfaceNotAsync { interface } => ErrorView::InterfaceNotAsync {
            interface: interface@,
        },
        DIContainerError::BindingResolveFailed { interface, reason } => (
        ErrorView::BindingResolveFailed {
            interface: interface@,
            reason: Box::new(container_error_view(*reason)),
        }),
        DIContainerError::SingletonNotFound { ptr_error, implementation } => (
        ErrorView::SingletonNotFound {
            ptr_error: ptr_error@,
            implementation: implementation@,
        }),
    }
}

impl View for DIContainerError {
    type V = ErrorView;

    open spec fn view(&self) -> ErrorView {
        container_error_view(*self)
    }
}

impl DIContainerError {
    /// The deepest cause: the error that remains after unwrapping every
    /// dependency-failure layer.
    pub fn root_cause(&self) -> (r: &DIContainerError)
        ensures
            r@ == root_cause_of(self@),
        decreases *self,
    {
        match self {
            DIContainerError::BindingResolveFailed { interface: _, reason } => reason.root_cause(),
            _ => self,
        }
    }
}

/// Error type of the thread-safe container's resolution; it mirrors
/// [`DIContainerError`] value for value.
#[derive(Debug)]
pub enum AsyncDIContainerError {
    /// No binding exists for the interface (and optional name).
    BindingNotFound { interface: String, name: Option<String> },
    /// No cast relationship was declared from `from` to `to`.
    CastFailed { from: String, to: String },
    /// Resolution revisited an interface; the history shows where the cycle
    /// closes.
    CycleDetected { dependency_history: DependencyHistory },
    /// The cast relationship was not declared thread-safe.
    InterfaceNotAsync { interface: String },
    /// Resolving a dependency of `interface` failed for the nested reason.
    BindingResolveFailed { interface: String, reason: Box<AsyncDIContainerError> },
    /// The existing binding of `implementation` did not yield a singleton
    /// pointer.
    SingletonPtrNotFound { ptr_error: SomePtrError, implementation: String },
}

/// The value of an [`AsyncDIContainerError`].
pub open spec fn async_error_view(e: AsyncDIContainerError) -> ErrorView
    decreases e,
{
    match e {
        AsyncDIContainerError::BindingNotFound { interface, name } => ErrorView::BindingNotFound {
            interface: interface@,
            name: match name {
                Option::None => Option::None,
                Option::Some(n) => Option::Some(n@),
            },
        },
        AsyncDIContainerError::CastFailed { from, to } => ErrorView::CastFailed {
            from: from@,
            to: to@,
        },
        AsyncDIContainerError::CycleDetected { dependency_history } => ErrorView::CycleDetected {
            dependency_history: dependency_history@,
        },
        AsyncDIContainerError::InterfaceNotAsync { interface } => ErrorView::InterfaceNotAsync {
            interface: interface@,
        },
        AsyncDIContainerError::BindingResolveFailed { interface, reason } => (
        ErrorView::BindingResolveFailed {
            interface: interface@,
            reason: Box::new(async_error_view(*reason)),
        }),
        AsyncDIContainerError::SingletonPtrNotFound { ptr_error, implementation } => (
        ErrorView::SingletonNotFound {
            ptr_error: ptr_error@,
            implementation: implementation@,
        }),
    }
}

impl View for AsyncDIContainerError {
    type V = ErrorView;

    open spec fn view(&self) -> ErrorView {
        async_error_view(*self)
    }
}

impl AsyncDIContainerError {
    /// The deepest cause: the error that remains after unwrapping every
    /// dependency-failure layer.
    pub fn root_cause(&self) -> (r: &AsyncDIContainerError)
        ensures
            r@ == root_cause_of(self@),
        decreases *self,
    {
        match self {
            AsyncDIContainerError::BindingResolveFailed { interface: _, reason } => (
            reason.root_cause()),
            _ => self,
        }
    }

    /// Re-labels a blocking resolution error as a thread-safe one; the value
    /// is kept whole.
    pub fn from_container_error(e: DIContainerError) -> (r: AsyncDIContainerError)
        ensures
            r@ == e@,
        decreases e,
    {
        match e {
            DIContainerError::BindingNotFound { interface, name } => (
            AsyncDIContainerError::BindingNotFound { interface, name }),
            DIContainerError::CastFailed { from, to } => AsyncDIContainerError::CastFailed {
                from,
                to,
            },
            DIContainerError::CycleDetected { dependency_history } => (
            AsyncDIContainerError::CycleDetected { dependency_history }),
            DIContainerError::InterfaceNotAsync { interface } => (
            AsyncDIContainerError::InterfaceNotAsync { interface }),
            DIContainerError::BindingResolveFailed { interface, reason } => (
            AsyncDIContainerError::BindingResolveFailed {
                interface,
                reason: Box::new(AsyncDIContainerError::from_container_error(*reason)),
            }),
            DIContainerError::SingletonNotFound { ptr_error, implementation } => (
            AsyncDIContainerError::SingletonPtrNotFound { ptr_error, implementation }),
        }
    }
}

/// The value of a binding-builder error.
pub enum BuilderErrorView {
    BindingAlreadyExists(Seq<char>),
}

/// Error type of the blocking binding builder.
#[derive(Debug)]
pub enum BindingBuilderError {
    /// A binding already exists for the interface.
    BindingAlreadyExists(String),
}

impl View for BindingBuilderError {
    type V = BuilderErrorView;

    open spec fn view(&self) -> BuilderErrorView {
        match self {
            BindingBuilderError::BindingAlreadyExists(i) => BuilderErrorView::BindingAlreadyExists(
                i@,
            ),
        }
    }
}

/// Error type of the thread-safe binding builder.
#[derive(Debug)]
pub enum AsyncBindingBuilderError {
    /// A binding already exists for the interface.
    BindingAlreadyExists(String),
}

impl View for AsyncBindingBuilderError {
    type V = BuilderErrorView;

    open spec fn view(&self) -> BuilderErrorView {
        match self {
            AsyncBindingBuilderError::BindingAlreadyExists(i) => (
            BuilderErrorView::BindingAlreadyExists(i@)),
        }
    }
}

/// The value of a scope-configurator error.
pub enum ScopeErrorView {
    SingletonResolveFailed(ErrorView),
}

/// Error type of the blocking scope configurator.
#[derive(Debug)]
pub enum BindingScopeConfiguratorError {
    /// Resolving the singleton failed for the given reason.
    SingletonResolveFailed(DIContainerError),
}

impl View for BindingScopeConfiguratorError {
    type V = ScopeErrorView;

    open spec fn view(&self) -> ScopeErrorView {
        match self {
            BindingScopeConfiguratorError::SingletonResolveFailed(e) => (
            ScopeErrorView::SingletonResolveFailed(e@)),
        }
    }
}

/// Error type of the thread-safe scope configurator.
#[derive(Debug)]
pub enum AsyncBindingScopeConfiguratorError {
    /// Resolving the singleton failed for the given reason.
    SingletonResolveFailed(AsyncDIContainerError),
}

impl View for AsyncBindingScopeConfiguratorError {
    type V = ScopeErrorView;

    open spec fn view(&self) -> ScopeErrorView {
        match self {
            AsyncBindingScopeConfiguratorError::SingletonResolveFailed(e) => (
            ScopeErrorView::SingletonResolveFailed(e@)),
        }
    }
}

/// The value of a when-configurator error.
pub enum WhenErrorView {
    BindingNotFound(Seq<char>),
}

/// Error type of the blocking when-configurator.
#[derive(Debug)]
pub enum BindingWhenConfiguratorError {
    /// No binding for the interface exists to be named.
    BindingNotFound(String),
}

impl View for BindingWhenConfiguratorError {
    type V = WhenErrorView;

    open spec fn view(&self) -> WhenErrorView {
        match self {
            BindingWhenConfiguratorError::BindingNotFound(i) => WhenErrorView::BindingNotFound(i@),
        }
    }
}

/// Error type of the thread-safe when-configurator.
#[derive(Debug)]
pub enum AsyncBindingWhenConfiguratorError {
    /// No binding for the interface exists to be named.
    BindingNotFound(String),
}

impl View for AsyncBindingWhenConfiguratorError {
    type V = WhenErrorView;

    open spec fn view(&self) -> WhenErrorView {
        match self {
            AsyncBindingWhenConfiguratorError::BindingNotFound(i) => (
            WhenErrorView::BindingNotFound(i@)),
        }
    }
}

} // verus!
