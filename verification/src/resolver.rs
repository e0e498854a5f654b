//! The resolution engine: looks a key's provider up, recurses into its
//! dependencies while extending the dependency history, and returns a
//! correctly scoped pointer.
//!
//! The behaviour of the executable resolver is pinned down by the recursive
//! specification [`resolve_spec`]: the exact error of every failure, the
//! scope kind and slot of every success, and how many fresh instances a
//! resolution appends to the slot store.  The constructed instance values
//! themselves are whatever [`Injectable::construct`] returns; everything
//! else is determined.

use vstd::prelude::*;
use vstd::set_lib::lemma_len_subset;

use crate::binding_storage::BindingStorage;
use crate::caster::CasterRegistry;
use crate::dependency_history::DependencyHistory;
use crate::errors::{DIContainerError, ErrorView};
use crate::injectable::Injectable;
use crate::key::{InterfaceKey, KeyView};
use crate::provider::{key_views, Provider, ProviderView};
use crate::ptr::{InstancePtr, PtrView, SomePtr, SomePtrView};

verus! {

/// What one resolution yields: its outcome and how many fresh instances it
/// appended to the slot store (instances created on the way to a failure
/// stay in the store; no binding is ever left behind by a failure).
pub struct ResolutionView {
    pub outcome: Result<SomePtrView, ErrorView>,
    pub created: nat,
}

/// What resolving a dependency list yields.
pub struct DepsResolutionView {
    pub outcome: Result<Seq<SomePtrView>, ErrorView>,
    pub created: nat,
}

/// The bound keys whose interface the history has not visited yet: an upper
/// bound on how deep resolution can still recurse.
pub open spec fn unvisited_keys(
    bindings: Map<KeyView, ProviderView>,
    history: Seq<Seq<char>>,
) -> Set<KeyView> {
    bindings.dom().filter(|k: KeyView| !history.contains(k.interface))
}

/// Visiting a bound, not-yet-visited interface strictly shrinks the
/// unvisited set.
pub proof fn lemma_unvisited_decreases(
    bindings: Map<KeyView, ProviderView>,
    history: Seq<Seq<char>>,
    key: KeyView,
)
    requires
        bindings.dom().finite(),
        bindings.dom().contains(key),
        !history.contains(key.interface),
    ensures
        unvisited_keys(bindings, history.push(key.interface)).len() < unvisited_keys(
            bindings,
            history,
        ).len(),
{
    let before = unvisited_keys(bindings, history);
    let after = unvisited_keys(bindings, history.push(key.interface));
    bindings.dom().lemma_len_filter(|k: KeyView| !history.contains(k.interface));
    bindings.dom().lemma_len_filter(
        |k: KeyView| !history.push(key.interface).contains(k.interface),
    );
    assert(before.contains(key));
    assert forall|k: KeyView| after.contains(k) implies before.remove(key).contains(k) by {
        assert(!history.contains(k.interface)) by {
            if history.contains(k.interface) {
                let i = choose|i: int| 0 <= i < history.len() && history[i] == k.interface;
                assert(history.push(key.interface)[i] == k.interface);
            }
        }
        assert(k != key) by {
            assert(history.push(key.interface)[history.len() as int] == key.interface);
            if k == key {
                assert(history.push(key.interface).contains(k.interface));
            }
        }
    }
    lemma_len_subset(after, before.remove(key));
    assert(before.remove(key).len() < before.len());
}

/// Whether every slot stored in a provider lies inside a store of `n`
/// instances.  The binding flow keeps this true of the registry against the
/// growing store: scope configurators install a singleton's slot only after
/// pushing its instance, and a factory's only after pushing the callable.
pub open spec fn provider_slots_within(bindings: Map<KeyView, ProviderView>, n: nat) -> bool {
    forall|k: KeyView|
        bindings.dom().contains(k) ==> match bindings[k] {
            ProviderView::Transient { implementation, dependencies } => true,
            ProviderView::Singleton { implementation, slot } => 0 <= slot < n,
            ProviderView::Factory { implementation, slot } => 0 <= slot < n,
        }
}

/// Whether a value of the concrete type `from` may be handed out as the
/// interface `to`: the cast relationship must have been declared, and for
/// the thread-safe front-end it must have been declared thread-safe.
pub open spec fn cast_check(
    casters: Map<(Seq<char>, Seq<char>), bool>,
    need_threadsafe: bool,
    from: Seq<char>,
    to: Seq<char>,
) -> Result<(), ErrorView> {
    if !casters.dom().contains((from, to)) {
        Result::Err(ErrorView::CastFailed { from, to })
    } else if need_threadsafe && !casters[(from, to)] {
        Result::Err(ErrorView::InterfaceNotAsync { interface: to })
    } else {
        Result::Ok(())
    }
}

/// What resolving `key` against the given registries yields.
///
/// In order: a key whose interface the history already holds fails with the
/// cycle, the history extended by the repeated entry; an unbound key fails
/// with the missing binding; a bound key whose cast relationship is missing
/// or, for the thread-safe front-end, not thread-safe fails with the cast
/// error.  Then a singleton or factory binding yields its stored slot under
/// the requested interface and creates nothing; a transient binding resolves
/// its dependencies under the extended history, wrapping any failure as a
/// dependency failure of this interface, and on success creates one fresh
/// instance in the next free slot.
pub open spec fn resolve_spec(
    bindings: Map<KeyView, ProviderView>,
    casters: Map<(Seq<char>, Seq<char>), bool>,
    need_threadsafe: bool,
    base: nat,
    key: KeyView,
    history: Seq<Seq<char>>,
) -> ResolutionView
    decreases unvisited_keys(bindings, history).len(), 0nat, 0nat,
        when bindings.dom().finite()
{
    if history.contains(key.interface) {
        ResolutionView {
            outcome: Result::Err(
                ErrorView::CycleDetected { dependency_history: history.push(key.interface) },
            ),
            created: 0,
        }
    } else if !bindings.dom().contains(key) {
        ResolutionView {
            outcome: Result::Err(
                ErrorView::BindingNotFound { interface: key.interface, name: key.name },
            ),
            created: 0,
        }
    } else {
        match bindings[key] {
            ProviderView::Singleton { implementation, slot } => (match cast_check(
                casters,
                need_threadsafe,
                implementation,
                key.interface,
            ) {
                Result::Err(e) => ResolutionView { outcome: Result::Err(e), created: 0 },
                Result::Ok(u) => ResolutionView {
                    outcome: Result::Ok(
                        SomePtrView::Singleton(PtrView { slot, interface: key.interface }),
                    ),
                    created: 0,
                },
            }),
            ProviderView::Factory { implementation, slot } => (match cast_check(
                casters,
                need_threadsafe,
                implementation,
                key.interface,
            ) {
                Result::Err(e) => ResolutionView { outcome: Result::Err(e), created: 0 },
                Result::Ok(u) => ResolutionView {
                    outcome: Result::Ok(
                        SomePtrView::Factory(PtrView { slot, interface: key.interface }),
                    ),
                    created: 0,
                },
            }),
            ProviderView::Transient { implementation, dependencies } => (match cast_check(
                casters,
                need_threadsafe,
                implementation,
                key.interface,
            ) {
                Result::Err(e) => ResolutionView { outcome: Result::Err(e), created: 0 },
                Result::Ok(u) => {
                    proof {
                        lemma_unvisited_decreases(bindings, history, key);
                    }
                    let deps = resolve_deps_spec(
                        bindings,
                        casters,
                        need_threadsafe,
                        base,
                        dependencies,
                        history.push(key.interface),
                    );
                    match deps.outcome {
                        Result::Err(e) => ResolutionView {
                            outcome: Result::Err(
                                ErrorView::BindingResolveFailed {
                                    interface: key.interface,
                                    reason: Box::new(e),
                                },
                            ),
                            created: deps.created,
                        },
                        Result::Ok(ptrs) => ResolutionView {
                            outcome: Result::Ok(
                                SomePtrView::Transient(
                                    PtrView {
                                        slot: (base + deps.created) as int,
                                        interface: key.interface,
                                    },
                                ),
                            ),
                            created: deps.created + 1,
                        },
                    }
                },
            }),
        }
    }
}

/// What resolving a dependency list, left to right, yields: the pointers of
/// all dependencies when every one resolves, or the first failure, which
/// propagates unwrapped; instances created by the dependencies already
/// resolved stay counted either way.
pub open spec fn resolve_deps_spec(
    bindings: Map<KeyView, ProviderView>,
    casters: Map<(Seq<char>, Seq<char>), bool>,
    need_threadsafe: bool,
    base: nat,
    deps: Seq<KeyView>,
    history: Seq<Seq<char>>,
) -> DepsResolutionView
    decreases unvisited_keys(bindings, history).len(), 1nat, deps.len(),
        when bindings.dom().finite()
{
    if deps.len() == 0 {
        DepsResolutionView { outcome: Result::Ok(Seq::empty()), created: 0 }
    } else {
        let head = resolve_spec(bindings, casters, need_threadsafe, base, deps[0], history);
        match head.outcome {
            Result::Err(e) => DepsResolutionView {
                outcome: Result::Err(e),
                created: head.created,
            },
            Result::Ok(p) => {
                let rest = resolve_deps_spec(
                    bindings,
                    casters,
                    need_threadsafe,
                    base + head.created,
                    deps.drop_first(),
                    history,
                );
                match rest.outcome {
                    Result::Err(e) => DepsResolutionView {
                        outcome: Result::Err(e),
                        created: head.created + rest.created,
                    },
                    Result::Ok(ps) => DepsResolutionView {
                        outcome: Result::Ok(seq![p] + ps),
                        created: head.created + rest.created,
                    },
                }
            },
        }
    }
}

/// Whether the cast from `from` to `to` is admissible, with the exact error
/// when it is not.
fn check_cast(casters: &CasterRegistry, need_threadsafe: bool, from: &str, to: &str) -> (r: Result<
    (),
    DIContainerError,
>)
    ensures
        match (r, cast_check(casters@, need_threadsafe, from@, to@)) {
            (Result::Ok(u), Result::Ok(v)) => true,
            (Result::Err(e), Result::Err(ev)) => e@ == ev,
            _ => false,
        },
{
    match casters.lookup(from, to) {
        Option::None => Result::Err(
            DIContainerError::CastFailed { from: from.to_owned(), to: to.to_owned() },
        ),
        Option::Some(threadsafe) => {
            if need_threadsafe && !threadsafe {
                Result::Err(DIContainerError::InterfaceNotAsync { interface: to.to_owned() })
            } else {
                Result::Ok(())
            }
        },
    }
}

/// Resolves one key: the executable counterpart of [`resolve_spec`], whose
/// outcome it returns value for value; the instances it creates are appended
/// to `instances`, everything already there staying in place.
pub fn resolve_key<T: Injectable>(
    bindings: &BindingStorage,
    casters: &CasterRegistry,
    need_threadsafe: bool,
    instances: &mut Vec<T>,
    key: &InterfaceKey,
    history: DependencyHistory,
) -> (r: Result<SomePtr, DIContainerError>)
    ensures
        ({
            let m = resolve_spec(
                bindings@,
                casters@,
                need_threadsafe,
                old(instances)@.len() as nat,
                key@,
                history@,
            );
            &&& final(instances)@.len() == old(instances)@.len() + m.created
            &&& final(instances)@.subrange(0, old(instances)@.len() as int) == old(instances)@
            &&& match (r, m.outcome) {
                (Result::Ok(p), Result::Ok(pv)) => p@ == pv,
                (Result::Err(e), Result::Err(ev)) => e@ == ev,
                _ => false,
            }
        }),
    decreases unvisited_keys(bindings@, history@).len(), 0nat, 0nat,
{
    proof {
        bindings.lemma_dom_finite();
    }
    let interface = key.interface();
    if history.contains(interface) {
        let mut path = history;
        path.push(interface);
        proof {
            assert(final(instances)@.subrange(0, old(instances)@.len() as int) =~= old(
                instances,
            )@);
        }
        return Result::Err(DIContainerError::CycleDetected { dependency_history: path });
    }
    match bindings.get_binding(key) {
        Option::None => {
            proof {
                assert(instances@.subrange(0, old(instances)@.len() as int) =~= old(instances)@);
            }
            Result::Err(
                DIContainerError::BindingNotFound {
                    interface: interface.to_owned(),
                    name: key.cloned_name(),
                },
            )
        },
        Option::Some(provider) => match provider {
            Provider::Singleton { implementation, slot } => {
                proof {
                    assert(instances@.subrange(0, old(instances)@.len() as int) =~= old(
                        instances,
                    )@);
                }
                match check_cast(casters, need_threadsafe, implementation.as_str(), interface) {
                    Result::Err(e) => Result::Err(e),
                    Result::Ok(u) => Result::Ok(
                        SomePtr::Singleton(InstancePtr::new(*slot, interface)),
                    ),
                }
            },
            Provider::Factory { implementation, slot } => {
                proof {
                    assert(instances@.subrange(0, old(instances)@.len() as int) =~= old(
                        instances,
                    )@);
                }
                match check_cast(casters, need_threadsafe, implementation.as_str(), interface) {
                    Result::Err(e) => Result::Err(e),
                    Result::Ok(u) => Result::Ok(
                        SomePtr::Factory(InstancePtr::new(*slot, interface)),
                    ),
                }
            },
            Provider::Transient { implementation, dependencies } => {
                match check_cast(casters, need_threadsafe, implementation.as_str(), interface) {
                    Result::Err(e) => {
                        proof {
                            assert(instances@.subrange(0, old(instances)@.len() as int) =~= old(
                                instances,
                            )@);
                        }
                        Result::Err(e)
                    },
                    Result::Ok(u) => {
                        let mut extended = history;
                        extended.push(interface);
                        proof {
                            lemma_unvisited_decreases(bindings@, history@, key@);
                            assert(key_views(dependencies@).skip(0) =~= key_views(dependencies@));
                        }
                        match resolve_deps(
                            bindings,
                            casters,
                            need_threadsafe,
                            instances,
                            dependencies,
                            0,
                            &extended,
                        ) {
                            Result::Err(e) => Result::Err(
                                DIContainerError::BindingResolveFailed {
                                    interface: interface.to_owned(),
                                    reason: Box::new(e),
                                },
                            ),
                            Result::Ok(dep_ptrs) => {
                                let ghost mid = instances@;
                                let value = T::construct(implementation.as_str(), dep_ptrs);
                                let slot = instances.len();
                                instances.push(value);
                                proof {
                                    assert(instances@.subrange(0, old(instances)@.len() as int)
                                        =~= mid.subrange(0, old(instances)@.len() as int));
                                }
                                Result::Ok(SomePtr::Transient(InstancePtr::new(slot, interface)))
                            },
                        }
                    },
                }
            },
        },
    }
}

/// Resolves the dependency keys from position `from` on, left to right: the
/// executable counterpart of [`resolve_deps_spec`].
pub(crate) fn resolve_deps<T: Injectable>(
    bindings: &BindingStorage,
    casters: &CasterRegistry,
    need_threadsafe: bool,
    instances: &mut Vec<T>,
    deps: &Vec<InterfaceKey>,
    from: usize,
    history: &DependencyHistory,
) -> (r: Result<Vec<SomePtr>, DIContainerError>)
    requires
        from <= deps@.len(),
    ensures
        ({
            let m = resolve_deps_spec(
                bindings@,
                casters@,
                need_threadsafe,
                old(instances)@.len() as nat,
                key_views(deps@).skip(from as int),
                history@,
            );
            &&& final(instances)@.len() == old(instances)@.len() + m.created
            &&& final(instances)@.subrange(0, old(instances)@.len() as int) == old(instances)@
            &&& match (r, m.outcome) {
                (Result::Ok(ps), Result::Ok(pvs)) => ps@.map_values(|p: SomePtr| p@) == pvs,
                (Result::Err(e), Result::Err(ev)) => e@ == ev,
                _ => false,
            }
        }),
    decreases unvisited_keys(bindings@, history@).len(), 1nat, deps@.len() - from,
{
    proof {
        bindings.lemma_dom_finite();
    }
    if from == deps.len() {
        let empty: Vec<SomePtr> = Vec::new();
        proof {
            assert(instances@.subrange(0, old(instances)@.len() as int) =~= old(instances)@);
            assert(empty@.map_values(|p: SomePtr| p@) =~= Seq::<SomePtrView>::empty());
            assert(key_views(deps@).skip(from as int) =~= Seq::<KeyView>::empty());
        }
        return Result::Ok(empty);
    }
    proof {
        assert(key_views(deps@).skip(from as int)[0] == deps@[from as int]@);
    }
    match resolve_key(bindings, casters, need_threadsafe, instances, &deps[from], history.clone()) {
        Result::Err(e) => Result::Err(e),
        Result::Ok(head) => {
            let ghost mid = instances@;
            proof {
                assert(key_views(deps@).skip(from as int).drop_first() =~= key_views(deps@).skip(
                    from + 1 as int,
                ));
            }
            match resolve_deps(
                bindings,
                casters,
                need_threadsafe,
                instances,
                deps,
                from + 1,
                history,
            ) {
                Result::Err(e) => {
                    proof {
                        assert(instances@.subrange(0, old(instances)@.len() as int) =~= mid
                            .subrange(0, old(instances)@.len() as int));
                    }
                    Result::Err(e)
                },
                Result::Ok(rest) => {
                    let mut out = rest;
                    out.insert(0, head);
                    proof {
                        assert(instances@.subrange(0, old(instances)@.len() as int) =~= mid
                            .subrange(0, old(instances)@.len() as int));
                        let m = resolve_deps_spec(
                            bindings@,
                            casters@,
                            need_threadsafe,
                            old(instances)@.len() as nat,
                            key_views(deps@).skip(from as int),
                            history@,
                        );
                        match m.outcome {
                            Result::Ok(pvs) => {
                                assert(out@.map_values(|p: SomePtr| p@) =~= pvs);
                            },
                            Result::Err(u) => {
                            },
                        }
                    }
                    Result::Ok(out)
                },
            }
        },
    }
}

} // verus!
