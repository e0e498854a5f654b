//! The thread-safe container front-end.  It shares the blocking front-end's
//! data model and resolution engine, but every cast relationship it resolves
//! through must have been declared thread-safe, so that the instances it
//! hands out may be shared across tasks; a relationship declared without
//! that fails resolution instead of silently coercing.  Once a singleton's
//! provider is installed, every later resolution observes the one already
//! built instance: the construction happens entirely inside the scope
//! configurator call, never lazily on first resolution.

use vstd::prelude::*;

use crate::binding_storage::BindingStorage;
use crate::caster::CasterRegistry;
use crate::dependency_history::DependencyHistory;
use crate::errors::{
    AsyncBindingBuilderError, AsyncBindingScopeConfiguratorError, AsyncBindingWhenConfiguratorError,
    AsyncDIContainerError,
};
use crate::injectable::Injectable;
use crate::key::{name_view, InterfaceKey, KeyView};
use crate::provider::{key_views, Provider, ProviderView};
use crate::ptr::{InstancePtr, SomePtr, SomePtrView};
use crate::resolver::{resolve_deps, resolve_deps_spec, resolve_key, resolve_spec};

verus! {

/// The thread-safe dependency-injection container: a binding registry, a
/// caster registry and the slot store holding every instance it has
/// constructed.  Its bindings are set up in one phase; afterwards resolved
/// instances may be shared across tasks, every cast relationship used having
/// been declared thread-safe.
pub struct AsyncDIContainer<T> {
    bindings: BindingStorage,
    casters: CasterRegistry,
    instances: Vec<T>,
}

impl<T> AsyncDIContainer<T> {
    /// The binding registry's value: which provider each key is bound to.
    pub closed spec fn bindings_view(self) -> Map<KeyView, ProviderView> {
        self.bindings@
    }

    /// The caster registry's value: which cast relationships are declared,
    /// and which of them thread-safe.
    pub closed spec fn casters_view(self) -> Map<(Seq<char>, Seq<char>), bool> {
        self.casters@
    }

    /// The slot store's value: every instance the container has constructed,
    /// in creation order.
    pub closed spec fn instances_view(self) -> Seq<T> {
        self.instances@
    }

    /// An empty container: no bindings, no cast relationships, no instances.
    pub fn new() -> (r: Self)
        ensures
            r.bindings_view() == Map::<KeyView, ProviderView>::empty(),
            r.casters_view() == Map::<(Seq<char>, Seq<char>), bool>::empty(),
            r.instances_view() == Seq::<T>::empty(),
    {
        AsyncDIContainer {
            bindings: BindingStorage::new(),
            casters: CasterRegistry::new(),
            instances: Vec::new(),
        }
    }

    /// Declares that a value of the concrete type `implementation` may be
    /// handed out as the interface `interface`; `threadsafe` says whether
    /// the relationship is marked for use by this front-end.  Resolving
    /// through a relationship not marked thread-safe fails rather than
    /// silently coercing.  Must run before any resolution that retrieves an
    /// `implementation` instance through that interface.
    pub fn declare_interface(&mut self, implementation: &str, interface: &str, threadsafe: bool)
        ensures
            final(self).casters_view() == old(self).casters_view().insert(
                (implementation@, interface@),
                threadsafe,
            ),
            final(self).bindings_view() == old(self).bindings_view(),
            final(self).instances_view() == old(self).instances_view(),
    {
        self.casters.register(implementation, interface, threadsafe);
    }

    /// Read access to the caster registry.
    pub fn caster_registry(&self) -> (r: &CasterRegistry)
        ensures
            r@ == self.casters_view(),
    {
        &self.casters
    }

    /// Begins a binding for `interface`.
    pub fn bind(&self, interface: &str) -> (r: AsyncBindingBuilder)
        ensures
            r.interface_view() == interface@,
    {
        AsyncBindingBuilder { interface: interface.to_owned() }
    }

    /// Inserts or overwrites the binding of a key.  Intentionally unchecked,
    /// so that scope configurators can finalize a binding after validating
    /// it themselves.
    pub fn set_binding(&mut self, key: InterfaceKey, provider: Provider)
        ensures
            final(self).bindings_view() == old(self).bindings_view().insert(key@, provider@),
            final(self).casters_view() == old(self).casters_view(),
            final(self).instances_view() == old(self).instances_view(),
    {
        self.bindings.set_binding(key, provider);
    }

    /// Removes the binding of a key and hands back its provider, or `None`
    /// when no binding existed.
    pub fn remove_binding(&mut self, key: &InterfaceKey) -> (r: Option<Provider>)
        ensures
            final(self).bindings_view() == old(self).bindings_view().remove(key@),
            final(self).casters_view() == old(self).casters_view(),
            final(self).instances_view() == old(self).instances_view(),
            match r {
                Option::Some(p) => old(self).bindings_view().dom().contains(key@) && p@ == old(
                    self,
                ).bindings_view()[key@],
                Option::None => !old(self).bindings_view().dom().contains(key@),
            },
    {
        self.bindings.remove_binding(key)
    }

    /// Read access to the provider bound to a key, if any.
    pub fn get_binding(&self, key: &InterfaceKey) -> (r: Option<&Provider>)
        ensures
            match r {
                Option::Some(p) => self.bindings_view().dom().contains(key@) && p@
                    == self.bindings_view()[key@],
                Option::None => !self.bindings_view().dom().contains(key@),
            },
    {
        self.bindings.get_binding(key)
    }

    /// Whether a binding exists for a key.
    pub fn has_binding(&self, key: &InterfaceKey) -> (r: bool)
        ensures
            r == self.bindings_view().dom().contains(key@),
    {
        self.bindings.has_binding(key)
    }

    /// Read access to the instance a handle designates, or `None` for a
    /// handle outside the store.
    pub fn instance(&self, ptr: &InstancePtr) -> (r: Option<&T>)
        ensures
            match r {
                Option::Some(v) => ptr@.slot < self.instances_view().len() && *v
                    == self.instances_view()[ptr@.slot],
                Option::None => ptr@.slot >= self.instances_view().len(),
            },
    {
        let slot = ptr.slot();
        if slot < self.instances.len() {
            Option::Some(&self.instances[slot])
        } else {
            Option::None
        }
    }

    /// Overwrites the instance a handle designates; `false` when the handle
    /// lies outside the store.  Every handle sharing the slot observes the
    /// new value.
    pub fn set_instance(&mut self, ptr: &InstancePtr, value: T) -> (r: bool)
        ensures
            final(self).bindings_view() == old(self).bindings_view(),
            final(self).casters_view() == old(self).casters_view(),
            if ptr@.slot < old(self).instances_view().len() {
                r && final(self).instances_view() == old(self).instances_view().update(
                    ptr@.slot,
                    value,
                )
            } else {
                !r && final(self).instances_view() == old(self).instances_view()
            },
    {
        let slot = ptr.slot();
        if slot < self.instances.len() {
            let place = &mut self.instances[slot];
            *place = value;
            true
        } else {
            false
        }
    }

    /// The number of instances the container has constructed.
    pub fn instance_count(&self) -> (r: usize)
        ensures
            r == self.instances_view().len(),
    {
        self.instances.len()
    }
}

impl<T: Injectable> AsyncDIContainer<T> {
    /// Resolves the binding of `interface` under `name` (`None` for the
    /// default binding), starting a fresh dependency history.  The outcome —
    /// pointer kind, slot and every error — is exactly what
    /// [`resolve_spec`] yields on the container's current registries with
    /// thread safety demanded of every cast; the bindings and cast
    /// declarations are never changed, and instances already in the store
    /// stay in place.
    pub fn get(&mut self, interface: &str, name: Option<&str>) -> (r: Result<
        SomePtr,
        AsyncDIContainerError,
    >)
        ensures
            final(self).bindings_view() == old(self).bindings_view(),
            final(self).casters_view() == old(self).casters_view(),
            ({
                let m = resolve_spec(
                    old(self).bindings_view(),
                    old(self).casters_view(),
                    true,
                    old(self).instances_view().len() as nat,
                    KeyView { interface: interface@, name: name_view(name) },
                    Seq::empty(),
                );
                &&& final(self).instances_view().len() == old(self).instances_view().len()
                    + m.created
                &&& final(self).instances_view().subrange(
                    0,
                    old(self).instances_view().len() as int,
                ) == old(self).instances_view()
                &&& match (r, m.outcome) {
                    (Result::Ok(p), Result::Ok(pv)) => p@ == pv,
                    (Result::Err(e), Result::Err(ev)) => e@ == ev,
                    _ => false,
                }
            }),
    {
        let key = InterfaceKey::new(interface, name);
        match resolve_key(
            &self.bindings,
            &self.casters,
            true,
            &mut self.instances,
            &key,
            DependencyHistory::new(),
        ) {
            Result::Ok(p) => Result::Ok(p),
            Result::Err(e) => Result::Err(AsyncDIContainerError::from_container_error(e)),
        }
    }
}

/// Begins a binding: holds the interface until an implementation is chosen.
#[derive(Debug)]
pub struct AsyncBindingBuilder {
    interface: String,
}

impl AsyncBindingBuilder {
    /// The interface being bound.
    pub closed spec fn interface_view(self) -> Seq<char> {
        self.interface@
    }

    /// Binds the interface to the concrete type `implementation`, whose
    /// declared constructor dependencies are `dependencies`.  The binding
    /// starts out in transient scope, the default; a scope configurator is
    /// returned to change that.  Fails, changing nothing, when the interface
    /// already has a default binding.
    pub fn to<T: Injectable>(
        self,
        container: &mut AsyncDIContainer<T>,
        implementation: &str,
        dependencies: Vec<InterfaceKey>,
    ) -> (r: Result<AsyncBindingScopeConfigurator, AsyncBindingBuilderError>)
        ensures
            final(container).casters_view() == old(container).casters_view(),
            final(container).instances_view() == old(container).instances_view(),
            ({
                let key = KeyView { interface: self.interface_view(), name: Option::None };
                if old(container).bindings_view().dom().contains(key) {
                    &&& r matches Result::Err(AsyncBindingBuilderError::BindingAlreadyExists(i))
                        && i@ == self.interface_view()
                    &&& final(container).bindings_view() == old(container).bindings_view()
                } else {
                    &&& r matches Result::Ok(cfg) && cfg.interface_view() == self.interface_view()
                        && cfg.implementation_view() == implementation@
                        && cfg.dependencies_view() == key_views(dependencies@)
                    &&& final(container).bindings_view() == old(container).bindings_view().insert(
                        key,
                        ProviderView::Transient {
                            implementation: implementation@,
                            dependencies: key_views(dependencies@),
                        },
                    )
                }
            }),
    {
        let key = InterfaceKey::unnamed(self.interface.as_str());
        if container.has_binding(&key) {
            return Result::Err(AsyncBindingBuilderError::BindingAlreadyExists(self.interface));
        }
        let configurator = AsyncBindingScopeConfigurator {
            interface: self.interface,
            implementation: implementation.to_owned(),
            dependencies,
        };
        configurator.set_in_transient_scope(container);
        Result::Ok(configurator)
    }

    /// Binds the interface to a stored callable of the concrete type
    /// `factory_type`: the callable goes into the slot store now, and every
    /// resolution hands back the same handle to it, never invoking it.
    /// Fails, changing nothing, when the interface already has a default
    /// binding.
    pub fn to_factory<T: Injectable>(
        self,
        container: &mut AsyncDIContainer<T>,
        factory_type: &str,
        factory: T,
    ) -> (r: Result<AsyncBindingWhenConfigurator, AsyncBindingBuilderError>)
        ensures
            final(container).casters_view() == old(container).casters_view(),
            ({
                let key = KeyView { interface: self.interface_view(), name: Option::None };
                if old(container).bindings_view().dom().contains(key) {
                    &&& r matches Result::Err(AsyncBindingBuilderError::BindingAlreadyExists(i))
                        && i@ == self.interface_view()
                    &&& final(container).bindings_view() == old(container).bindings_view()
                    &&& final(container).instances_view() == old(container).instances_view()
                } else {
                    &&& r matches Result::Ok(cfg) && cfg.interface_view() == self.interface_view()
                    &&& final(container).bindings_view() == old(container).bindings_view().insert(
                        key,
                        ProviderView::Factory {
                            implementation: factory_type@,
                            slot: old(container).instances_view().len() as int,
                        },
                    )
                    &&& final(container).instances_view() == old(container).instances_view().push(
                        factory,
                    )
                }
            }),
    {
        let key = InterfaceKey::unnamed(self.interface.as_str());
        if container.has_binding(&key) {
            return Result::Err(AsyncBindingBuilderError::BindingAlreadyExists(self.interface));
        }
        let slot = container.instances.len();
        container.instances.push(factory);
        container.set_binding(
            key,
            Provider::Factory { implementation: factory_type.to_owned(), slot },
        );
        Result::Ok(AsyncBindingWhenConfigurator { interface: self.interface })
    }

    /// Binds the interface to a value produced afresh on every resolution:
    /// the concrete type's constructor is invoked with no dependencies each
    /// time the interface is resolved.  Fails, changing nothing, when the
    /// interface already has a default binding.
    pub fn to_dynamic_value<T: Injectable>(
        self,
        container: &mut AsyncDIContainer<T>,
        implementation: &str,
    ) -> (r: Result<AsyncBindingWhenConfigurator, AsyncBindingBuilderError>)
        ensures
            final(container).casters_view() == old(container).casters_view(),
            final(container).instances_view() == old(container).instances_view(),
            ({
                let key = KeyView { interface: self.interface_view(), name: Option::None };
                if old(container).bindings_view().dom().contains(key) {
                    &&& r matches Result::Err(AsyncBindingBuilderError::BindingAlreadyExists(i))
                        && i@ == self.interface_view()
                    &&& final(container).bindings_view() == old(container).bindings_view()
                } else {
                    &&& r matches Result::Ok(cfg) && cfg.interface_view() == self.interface_view()
                    &&& final(container).bindings_view() == old(container).bindings_view().insert(
                        key,
                        ProviderView::Transient {
                            implementation: implementation@,
                            dependencies: Seq::empty(),
                        },
                    )
                }
            }),
    {
        let key = InterfaceKey::unnamed(self.interface.as_str());
        if container.has_binding(&key) {
            return Result::Err(AsyncBindingBuilderError::BindingAlreadyExists(self.interface));
        }
        let dependencies: Vec<InterfaceKey> = Vec::new();
        proof {
            assert(key_views(dependencies@) =~= Seq::<KeyView>::empty());
        }
        container.set_binding(
            key,
            Provider::Transient { implementation: implementation.to_owned(), dependencies },
        );
        Result::Ok(AsyncBindingWhenConfigurator { interface: self.interface })
    }
}

/// Scope configurator for a binding: carries the interface, the chosen
/// implementation and its declared dependencies until a lifetime scope is
/// picked.
#[derive(Debug)]
pub struct AsyncBindingScopeConfigurator {
    interface: String,
    implementation: String,
    dependencies: Vec<InterfaceKey>,
}

impl AsyncBindingScopeConfigurator {
    /// The interface being bound.
    pub closed spec fn interface_view(self) -> Seq<char> {
        self.interface@
    }

    /// The concrete type the interface is bound to.
    pub closed spec fn implementation_view(self) -> Seq<char> {
        self.implementation@
    }

    /// The implementation's declared constructor dependencies.
    pub closed spec fn dependencies_view(self) -> Seq<KeyView> {
        key_views(self.dependencies@)
    }

    pub(crate) fn new(
        interface: String,
        implementation: String,
        dependencies: Vec<InterfaceKey>,
    ) -> (r: Self)
        ensures
            r.interface_view() == interface@,
            r.implementation_view() == implementation@,
            r.dependencies_view() == key_views(dependencies@),
    {
        AsyncBindingScopeConfigurator { interface, implementation, dependencies }
    }

    /// Configures the binding to be in transient scope: one new instance per
    /// resolution.  This is the default.
    pub fn in_transient_scope<T: Injectable>(self, container: &mut AsyncDIContainer<T>) -> (r:
        AsyncBindingWhenConfigurator)
        ensures
            final(container).casters_view() == old(container).casters_view(),
            final(container).instances_view() == old(container).instances_view(),
            final(container).bindings_view() == old(container).bindings_view().insert(
                KeyView { interface: self.interface_view(), name: Option::None },
                ProviderView::Transient {
                    implementation: self.implementation_view(),
                    dependencies: self.dependencies_view(),
                },
            ),
            r.interface_view() == self.interface_view(),
    {
        self.set_in_transient_scope(container);
        AsyncBindingWhenConfigurator { interface: self.interface }
    }

    /// Configures the binding to be in singleton scope: the implementation
    /// is resolved now — its full dependency subgraph constructed eagerly,
    /// under a history already holding this interface — and every later
    /// resolution returns the one shared instance.  Fails, leaving the
    /// bindings unchanged, when a dependency fails to resolve.
    pub fn in_singleton_scope<T: Injectable>(self, container: &mut AsyncDIContainer<T>) -> (r: Result<
        AsyncBindingWhenConfigurator,
        AsyncBindingScopeConfiguratorError,
    >)
        ensures
            final(container).casters_view() == old(container).casters_view(),
            ({
                let m = resolve_deps_spec(
                    old(container).bindings_view(),
                    old(container).casters_view(),
                    true,
                    old(container).instances_view().len() as nat,
                    self.dependencies_view(),
                    seq![self.interface_view()],
                );
                &&& final(container).instances_view().subrange(
                    0,
                    old(container).instances_view().len() as int,
                ) == old(container).instances_view()
                &&& match (r, m.outcome) {
                    (Result::Err(e), Result::Err(ev)) => {
                        &&& e matches AsyncBindingScopeConfiguratorError::SingletonResolveFailed(inner)
                            && inner@ == ev
                        &&& final(container).bindings_view() == old(container).bindings_view()
                        &&& final(container).instances_view().len() == old(
                            container,
                        ).instances_view().len() + m.created
                    },
                    (Result::Ok(cfg), Result::Ok(ptrs)) => {
                        &&& cfg.interface_view() == self.interface_view()
                        &&& final(container).instances_view().len() == old(
                            container,
                        ).instances_view().len() + m.created + 1
                        &&& final(container).bindings_view() == old(
                            container,
                        ).bindings_view().insert(
                            KeyView { interface: self.interface_view(), name: Option::None },
                            ProviderView::Singleton {
                                implementation: self.implementation_view(),
                                slot: (old(container).instances_view().len() + m.created) as int,
                            },
                        )
                    },
                    _ => false,
                }
            }),
    {
        let mut history = DependencyHistory::new();
        history.push(self.interface.as_str());
        proof {
            assert(history@ =~= seq![self.interface_view()]);
            assert(key_views(self.dependencies@).skip(0) =~= key_views(self.dependencies@));
        }
        match resolve_deps(
            &container.bindings,
            &container.casters,
            true,
            &mut container.instances,
            &self.dependencies,
            0,
            &history,
        ) {
            Result::Err(e) => Result::Err(
                AsyncBindingScopeConfiguratorError::SingletonResolveFailed(
                    AsyncDIContainerError::from_container_error(e),
                ),
            ),
            Result::Ok(dep_ptrs) => {
                let value = T::construct(self.implementation.as_str(), dep_ptrs);
                let slot = container.instances.len();
                container.instances.push(value);
                proof {
                    assert(container.instances@.subrange(
                        0,
                        old(container).instances_view().len() as int,
                    ) =~= old(container).instances_view());
                }
                container.set_binding(
                    InterfaceKey::unnamed(self.interface.as_str()),
                    Provider::Singleton { implementation: self.implementation, slot },
                );
                Result::Ok(AsyncBindingWhenConfigurator { interface: self.interface })
            },
        }
    }

    /// Configures the binding to be in singleton scope, reusing the instance
    /// of the implementation's own existing binding: the two interfaces then
    /// share one instance.  Fails, leaving the bindings unchanged, when the
    /// implementation has no default binding or its binding does not yield a
    /// singleton pointer — in particular when it is transient.
    pub fn in_singleton_scope_from_existing<T: Injectable>(
        self,
        container: &mut AsyncDIContainer<T>,
    ) -> (r: Result<AsyncBindingWhenConfigurator, AsyncBindingScopeConfiguratorError>)
        ensures
            final(container).casters_view() == old(container).casters_view(),
            ({
                let m = resolve_spec(
                    old(container).bindings_view(),
                    old(container).casters_view(),
                    true,
                    old(container).instances_view().len() as nat,
                    KeyView { interface: self.implementation_view(), name: Option::None },
                    Seq::empty(),
                );
                &&& final(container).instances_view().subrange(
                    0,
                    old(container).instances_view().len() as int,
                ) == old(container).instances_view()
                &&& final(container).instances_view().len() == old(
                    container,
                ).instances_view().len() + m.created
                &&& match m.outcome {
                    Result::Err(ev) => {
                        &&& r matches Result::Err(
                            AsyncBindingScopeConfiguratorError::SingletonResolveFailed(inner),
                        ) && inner@ == ev
                        &&& final(container).bindings_view() == old(container).bindings_view()
                    },
                    Result::Ok(pv) => match pv {
                        SomePtrView::Singleton(p) => {
                            &&& r matches Result::Ok(cfg) && cfg.interface_view()
                                == self.interface_view()
                            &&& final(container).bindings_view() == old(
                                container,
                            ).bindings_view().insert(
                                KeyView { interface: self.interface_view(), name: Option::None },
                                ProviderView::Singleton {
                                    implementation: self.implementation_view(),
                                    slot: p.slot,
                                },
                            )
                        },
                        _ => {
                            &&& r matches Result::Err(
                                AsyncBindingScopeConfiguratorError::SingletonResolveFailed(inner),
                            ) && inner@ matches crate::errors::ErrorView::SingletonNotFound {
                                ptr_error,
                                implementation,
                            } && implementation == self.implementation_view()
                            &&& final(container).bindings_view() == old(container).bindings_view()
                        },
                    },
                }
            }),
    {
        match container.get(self.implementation.as_str(), Option::None) {
            Result::Err(e) => Result::Err(AsyncBindingScopeConfiguratorError::SingletonResolveFailed(e)),
            Result::Ok(some_ptr) => match some_ptr.singleton() {
                Result::Err(ptr_error) => Result::Err(
                    AsyncBindingScopeConfiguratorError::SingletonResolveFailed(
                        AsyncDIContainerError::SingletonPtrNotFound {
                            ptr_error,
                            implementation: self.implementation,
                        },
                    ),
                ),
                Result::Ok(p) => {
                    let slot = p.slot();
                    container.set_binding(
                        InterfaceKey::unnamed(self.interface.as_str()),
                        Provider::Singleton { implementation: self.implementation, slot },
                    );
                    Result::Ok(AsyncBindingWhenConfigurator { interface: self.interface })
                },
            },
        }
    }

    pub(crate) fn set_in_transient_scope<T: Injectable>(&self, container: &mut AsyncDIContainer<T>)
        ensures
            final(container).casters_view() == old(container).casters_view(),
            final(container).instances_view() == old(container).instances_view(),
            final(container).bindings_view() == old(container).bindings_view().insert(
                KeyView { interface: self.interface_view(), name: Option::None },
                ProviderView::Transient {
                    implementation: self.implementation_view(),
                    dependencies: self.dependencies_view(),
                },
            ),
    {
        let mut dependencies: Vec<InterfaceKey> = Vec::new();
        let mut i: usize = 0;
        while i < self.dependencies.len()
            invariant
                i <= self.dependencies.len(),
                dependencies@.len() == i,
                forall|j: int| 0 <= j < i ==> dependencies@[j]@ == self.dependencies@[j]@,
            decreases self.dependencies.len() - i,
        {
            dependencies.push(self.dependencies[i].clone());
            i = i + 1;
        }
        proof {
            assert(key_views(dependencies@) =~= key_views(self.dependencies@));
        }
        container.set_binding(
            InterfaceKey::unnamed(self.interface.as_str()),
            Provider::Transient { implementation: self.implementation.clone(), dependencies },
        );
    }
}

/// When-configurator for a binding: what remains after the scope is chosen.
#[derive(Debug)]
pub struct AsyncBindingWhenConfigurator {
    interface: String,
}

impl AsyncBindingWhenConfigurator {
    /// The interface whose binding is being configured.
    pub closed spec fn interface_view(self) -> Seq<char> {
        self.interface@
    }

    pub(crate) fn new(interface: String) -> (r: Self)
        ensures
            r.interface_view() == interface@,
    {
        AsyncBindingWhenConfigurator { interface }
    }

    /// Moves the interface's default binding under the given name: the
    /// unnamed entry is removed and reinserted under the named key, so
    /// resolving without the name afterwards finds nothing unless a new
    /// default binding is established.  Fails, changing nothing, when no
    /// default binding exists.
    pub fn when_named<T: Injectable>(self, container: &mut AsyncDIContainer<T>, name: &str) -> (r:
        Result<(), AsyncBindingWhenConfiguratorError>)
        ensures
            final(container).casters_view() == old(container).casters_view(),
            final(container).instances_view() == old(container).instances_view(),
            ({
                let key = KeyView { interface: self.interface_view(), name: Option::None };
                let named = KeyView { interface: self.interface_view(), name: Option::Some(name@) };
                if old(container).bindings_view().dom().contains(key) {
                    &&& r matches Result::Ok(u)
                    &&& final(container).bindings_view() == old(container).bindings_view().remove(
                        key,
                    ).insert(named, old(container).bindings_view()[key])
                } else {
                    &&& r matches Result::Err(AsyncBindingWhenConfiguratorError::BindingNotFound(i))
                        && i@ == self.interface_view()
                    &&& final(container).bindings_view() == old(container).bindings_view()
                }
            }),
    {
        let key = InterfaceKey::unnamed(self.interface.as_str());
        match container.remove_binding(&key) {
            Option::None => {
                proof {
                    assert(old(container).bindings_view().remove(key@) =~= old(
                        container,
                    ).bindings_view());
                }
                Result::Err(AsyncBindingWhenConfiguratorError::BindingNotFound(self.interface))
            },
            Option::Some(provider) => {
                let named = InterfaceKey::new(self.interface.as_str(), Option::Some(name));
                container.set_binding(named, provider);
                Result::Ok(())
            },
        }
    }
}

} // verus!
