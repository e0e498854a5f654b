//! The laws of the container, proved once and for all over the resolution
//! model: what every front-end call therefore guarantees, since each call's
//! contract says its outcome is exactly the model's.

use vstd::prelude::*;

use crate::caster::{arc_cast_spec, rc_cast_spec};
use crate::errors::{root_cause_of, ErrorView};
use crate::key::KeyView;
use crate::provider::ProviderView;
use crate::ptr::{PtrView, SomePtrView};
use crate::resolver::{
    cast_check, lemma_unvisited_decreases, provider_slots_within, resolve_deps_spec, resolve_spec,
    unvisited_keys,
};

verus! {

/// A successful resolution returns a pointer of the scope kind the key is
/// bound to, and only a bound key resolves at all.
pub proof fn law_resolved_kind_matches_binding(
    bindings: Map<KeyView, ProviderView>,
    casters: Map<(Seq<char>, Seq<char>), bool>,
    need_threadsafe: bool,
    base: nat,
    key: KeyView,
    history: Seq<Seq<char>>,
)
    requires
        bindings.dom().finite(),
        resolve_spec(bindings, casters, need_threadsafe, base, key, history).outcome is Ok,
    ensures
        bindings.dom().contains(key),
        ({
            let m = resolve_spec(bindings, casters, need_threadsafe, base, key, history);
            match m.outcome {
                Result::Ok(p) => match bindings[key] {
                    ProviderView::Transient { .. } => p is Transient,
                    ProviderView::Singleton { .. } => p is Singleton,
                    ProviderView::Factory { .. } => p is Factory,
                },
                Result::Err(e) => false,
            }
        }),
{
}

/// Two consecutive resolutions of one transient binding yield pointers to
/// distinct slots: one new instance per resolution, never a shared one.  The
/// second resolution starts where the first left the store.
pub proof fn law_transient_gets_distinct(
    bindings: Map<KeyView, ProviderView>,
    casters: Map<(Seq<char>, Seq<char>), bool>,
    need_threadsafe: bool,
    base: nat,
    key: KeyView,
)
    requires
        bindings.dom().finite(),
        bindings.dom().contains(key),
        bindings[key] is Transient,
        resolve_spec(bindings, casters, need_threadsafe, base, key, Seq::empty()).outcome is Ok,
        resolve_spec(
            bindings,
            casters,
            need_threadsafe,
            base + resolve_spec(bindings, casters, need_threadsafe, base, key, Seq::empty()).created,
            key,
            Seq::empty(),
        ).outcome is Ok,
    ensures
        ({
            let first = resolve_spec(bindings, casters, need_threadsafe, base, key, Seq::empty());
            let second = resolve_spec(
                bindings,
                casters,
                need_threadsafe,
                base + first.created,
                key,
                Seq::empty(),
            );
            match (first.outcome, second.outcome) {
                (Result::Ok(SomePtrView::Transient(p1)), Result::Ok(SomePtrView::Transient(p2))) => (
                p1.slot != p2.slot),
                _ => false,
            }
        }),
{
    let first = resolve_spec(bindings, casters, need_threadsafe, base, key, Seq::empty());
    let second = resolve_spec(
        bindings,
        casters,
        need_threadsafe,
        base + first.created,
        key,
        Seq::empty(),
    );
    assert(first.created >= 1);
    assert(match first.outcome {
        Result::Ok(SomePtrView::Transient(p1)) => p1.slot == base + first.created - 1,
        _ => false,
    });
    assert(match second.outcome {
        Result::Ok(SomePtrView::Transient(p2)) => p2.slot == base + first.created + second.created
            - 1,
        _ => false,
    });
}

/// Every resolution of one singleton binding yields the same pointer — the
/// slot stored in the provider — and leaves the store untouched, whatever
/// was resolved in between.  Repeated or interleaved resolutions therefore
/// all alias one underlying instance.
pub proof fn law_singleton_gets_alias(
    bindings: Map<KeyView, ProviderView>,
    casters: Map<(Seq<char>, Seq<char>), bool>,
    need_threadsafe: bool,
    base1: nat,
    base2: nat,
    key: KeyView,
)
    requires
        bindings.dom().finite(),
        bindings.dom().contains(key),
        bindings[key] is Singleton,
    ensures
        ({
            let first = resolve_spec(bindings, casters, need_threadsafe, base1, key, Seq::empty());
            let second = resolve_spec(bindings, casters, need_threadsafe, base2, key, Seq::empty());
            &&& first.created == 0
            &&& first.outcome == second.outcome
            &&& match first.outcome {
                Result::Ok(p) => match (p, bindings[key]) {
                    (
                        SomePtrView::Singleton(p1),
                        ProviderView::Singleton { implementation, slot },
                    ) => p1.slot == slot && p1.interface == key.interface,
                    _ => false,
                },
                Result::Err(e) => true,
            }
        }),
{
}

/// Every pointer a successful resolution returns designates an instance that
/// is in the store when the resolution ends, provided every slot the
/// registry stores was in the store to begin with — as the binding flow
/// keeps true.  Reading through a returned handle therefore always finds an
/// instance.
pub proof fn law_resolution_stays_in_store(
    bindings: Map<KeyView, ProviderView>,
    casters: Map<(Seq<char>, Seq<char>), bool>,
    need_threadsafe: bool,
    base: nat,
    key: KeyView,
    history: Seq<Seq<char>>,
)
    requires
        bindings.dom().finite(),
        provider_slots_within(bindings, base),
    ensures
        ({
            let m = resolve_spec(bindings, casters, need_threadsafe, base, key, history);
            match m.outcome {
                Result::Ok(p) => {
                    let inner = match p {
                        SomePtrView::Transient(q) => q,
                        SomePtrView::Singleton(q) => q,
                        SomePtrView::Factory(q) => q,
                    };
                    0 <= inner.slot < base + m.created
                },
                Result::Err(e) => true,
            }
        }),
{
    if !history.contains(key.interface) && bindings.dom().contains(key) {
        assert(match bindings[key] {
            ProviderView::Transient { implementation, dependencies } => true,
            ProviderView::Singleton { implementation, slot } => 0 <= slot < base,
            ProviderView::Factory { implementation, slot } => 0 <= slot < base,
        });
    }
}

/// Every resolution of one factory binding yields the same handle — the slot
/// of the stored callable — and leaves the store untouched: resolving a
/// factory retrieves the callable itself and never invokes construction.
pub proof fn law_factory_returns_stored_callable(
    bindings: Map<KeyView, ProviderView>,
    casters: Map<(Seq<char>, Seq<char>), bool>,
    need_threadsafe: bool,
    base1: nat,
    base2: nat,
    key: KeyView,
)
    requires
        bindings.dom().finite(),
        bindings.dom().contains(key),
        bindings[key] is Factory,
    ensures
        ({
            let first = resolve_spec(bindings, casters, need_threadsafe, base1, key, Seq::empty());
            let second = resolve_spec(bindings, casters, need_threadsafe, base2, key, Seq::empty());
            &&& first.created == 0
            &&& first.outcome == second.outcome
            &&& match first.outcome {
                Result::Ok(p) => match (p, bindings[key]) {
                    (SomePtrView::Factory(p1), ProviderView::Factory { implementation, slot }) => (
                    p1.slot == slot && p1.interface == key.interface),
                    _ => false,
                },
                Result::Err(e) => true,
            }
        }),
{
}

/// Whether an error holds a demand for thread safety anywhere in its chain
/// of causes.
pub open spec fn mentions_not_async(e: ErrorView) -> bool
    decreases e,
{
    match e {
        ErrorView::InterfaceNotAsync { interface } => true,
        ErrorView::BindingResolveFailed { interface, reason } => mentions_not_async(*reason),
        _ => false,
    }
}

/// A resolution that does not demand thread safety — as the blocking
/// front-end's never does — cannot fail for want of it: no error it returns
/// holds a thread-safety demand anywhere in its chain of causes.
pub proof fn law_blocking_never_demands_threadsafety(
    bindings: Map<KeyView, ProviderView>,
    casters: Map<(Seq<char>, Seq<char>), bool>,
    base: nat,
    key: KeyView,
    history: Seq<Seq<char>>,
)
    requires
        bindings.dom().finite(),
    ensures
        match resolve_spec(bindings, casters, false, base, key, history).outcome {
            Result::Err(e) => !mentions_not_async(e),
            Result::Ok(p) => true,
        },
    decreases unvisited_keys(bindings, history).len(), 0nat, 0nat,
{
    if !history.contains(key.interface) && bindings.dom().contains(key) {
        match bindings[key] {
            ProviderView::Transient { implementation, dependencies } => {
                if cast_check(casters, false, implementation, key.interface) is Ok {
                    lemma_unvisited_decreases(bindings, history, key);
                    law_blocking_deps_never_demand_threadsafety(
                        bindings,
                        casters,
                        base,
                        dependencies,
                        history.push(key.interface),
                    );
                }
            },
            ProviderView::Singleton { implementation, slot } => {
            },
            ProviderView::Factory { implementation, slot } => {
            },
        }
    }
}

/// As [`law_blocking_never_demands_threadsafety`], for a dependency list.
proof fn law_blocking_deps_never_demand_threadsafety(
    bindings: Map<KeyView, ProviderView>,
    casters: Map<(Seq<char>, Seq<char>), bool>,
    base: nat,
    deps: Seq<KeyView>,
    history: Seq<Seq<char>>,
)
    requires
        bindings.dom().finite(),
    ensures
        match resolve_deps_spec(bindings, casters, false, base, deps, history).outcome {
            Result::Err(e) => !mentions_not_async(e),
            Result::Ok(ps) => true,
        },
    decreases unvisited_keys(bindings, history).len(), 1nat, deps.len(),
{
    if deps.len() > 0 {
        law_blocking_never_demands_threadsafety(bindings, casters, base, deps[0], history);
        let head = resolve_spec(bindings, casters, false, base, deps[0], history);
        if head.outcome is Ok {
            law_blocking_deps_never_demand_threadsafety(
                bindings,
                casters,
                base + head.created,
                deps.drop_first(),
                history,
            );
        }
    }
}

/// Binding two interfaces to each other — a direct cycle — and resolving the
/// first fails with a detected cycle whose reported path holds the first
/// interface exactly twice, the closing repeat standing last with nothing
/// after it; the failure is wrapped once per level, so the deepest cause is
/// the cycle itself, and no instance is created.
pub proof fn law_direct_cycle_detected(
    bindings: Map<KeyView, ProviderView>,
    casters: Map<(Seq<char>, Seq<char>), bool>,
    need_threadsafe: bool,
    base: nat,
    a: KeyView,
    b: KeyView,
)
    requires
        bindings.dom().finite(),
        bindings.dom().contains(a),
        bindings.dom().contains(b),
        bindings[a] matches ProviderView::Transient { implementation: _, dependencies: deps_a }
            && deps_a == seq![b],
        bindings[b] matches ProviderView::Transient { implementation: _, dependencies: deps_b }
            && deps_b == seq![a],
        a.interface != b.interface,
        cast_check(
            casters,
            need_threadsafe,
            bindings[a]->Transient_implementation,
            a.interface,
        ) is Ok,
        cast_check(
            casters,
            need_threadsafe,
            bindings[b]->Transient_implementation,
            b.interface,
        ) is Ok,
    ensures
        ({
            let m = resolve_spec(bindings, casters, need_threadsafe, base, a, Seq::empty());
            let path = seq![a.interface, b.interface, a.interface];
            &&& m.outcome == Result::<SomePtrView, ErrorView>::Err(
                ErrorView::BindingResolveFailed {
                    interface: a.interface,
                    reason: Box::new(
                        ErrorView::BindingResolveFailed {
                            interface: b.interface,
                            reason: Box::new(
                                ErrorView::CycleDetected { dependency_history: path },
                            ),
                        },
                    ),
                },
            )
            &&& m.created == 0
            &&& match m.outcome {
                Result::Err(e) => root_cause_of(e) == (ErrorView::CycleDetected {
                    dependency_history: path,
                }),
                Result::Ok(p) => false,
            }
            &&& path.len() == 3 && path[0] == a.interface && path[2] == a.interface && path[1]
                != a.interface
        }),
{
    let h0 = Seq::<Seq<char>>::empty();
    let h1 = h0.push(a.interface);
    let h2 = h1.push(b.interface);
    let path = seq![a.interface, b.interface, a.interface];
    assert(!h0.contains(a.interface));
    assert(!h1.contains(b.interface)) by {
        if h1.contains(b.interface) {
            let i = choose|i: int| 0 <= i < h1.len() && h1[i] == b.interface;
            assert(h1[i] == a.interface);
        }
    }
    assert(h2.contains(a.interface)) by {
        assert(h2[0] == a.interface);
    }
    assert(h2.push(a.interface) =~= path);
    let cyc = ErrorView::CycleDetected { dependency_history: path };
    let r3 = resolve_spec(bindings, casters, need_threadsafe, base, a, h2);
    assert(r3.outcome == Result::<SomePtrView, ErrorView>::Err(cyc) && r3.created == 0);
    let deps_b = bindings[b]->Transient_dependencies;
    assert(deps_b =~= seq![a]);
    let d2 = resolve_deps_spec(bindings, casters, need_threadsafe, base, deps_b, h2);
    assert(d2.outcome == Result::<Seq<SomePtrView>, ErrorView>::Err(cyc) && d2.created == 0) by {
        assert(deps_b[0] == a);
        assert(deps_b.len() == 1);
    }
    let rf_b = ErrorView::BindingResolveFailed { interface: b.interface, reason: Box::new(cyc) };
    let r2 = resolve_spec(bindings, casters, need_threadsafe, base, b, h1);
    assert(r2.outcome == Result::<SomePtrView, ErrorView>::Err(rf_b) && r2.created == 0) by {
        assert(h1.push(b.interface) == h2);
    }
    let deps_a = bindings[a]->Transient_dependencies;
    assert(deps_a =~= seq![b]);
    let d1 = resolve_deps_spec(bindings, casters, need_threadsafe, base, deps_a, h1);
    assert(d1.outcome == Result::<Seq<SomePtrView>, ErrorView>::Err(rf_b) && d1.created == 0) by {
        assert(deps_a[0] == b);
        assert(deps_a.len() == 1);
    }
    let rf_a = ErrorView::BindingResolveFailed { interface: a.interface, reason: Box::new(rf_b) };
    let m = resolve_spec(bindings, casters, need_threadsafe, base, a, h0);
    assert(m.outcome == Result::<SomePtrView, ErrorView>::Err(rf_a) && m.created == 0) by {
        assert(h0.push(a.interface) == h1);
    }
    assert(root_cause_of(rf_a) == root_cause_of(rf_b));
    assert(root_cause_of(rf_b) == root_cause_of(cyc));
    assert(root_cause_of(cyc) == cyc);
    assert(path.len() == 3 && path[0] == a.interface && path[1] == b.interface && path[2]
        == a.interface);
}

/// Casting a handle through a declared relationship keeps the slot: the cast
/// handle aliases the very instance of the original handle, under either
/// casting discipline, so nothing is copied and every mutation through one
/// handle is observable through the other.
pub proof fn law_cast_preserves_instance<T>(
    casters: Map<(Seq<char>, Seq<char>), bool>,
    p: PtrView,
    to: Seq<char>,
    instances: Seq<T>,
)
    ensures
        match rc_cast_spec(casters, p, to) {
            Result::Ok(q) => q.slot == p.slot && q.interface == to && (0 <= p.slot
                < instances.len() ==> instances[q.slot] == instances[p.slot]),
            Result::Err(e) => true,
        },
        match arc_cast_spec(casters, p, to) {
            Result::Ok(q) => q.slot == p.slot && q.interface == to && (0 <= p.slot
                < instances.len() ==> instances[q.slot] == instances[p.slot]),
            Result::Err(e) => true,
        },
{
}

/// After a default binding is moved under a name — removed and reinserted
/// under the named key, as `when_named` does — resolving the interface
/// without the name fails with the missing binding, unless a new default
/// binding was established; the named binding itself stays reachable.
pub proof fn law_rename_unbinds_default(
    bindings: Map<KeyView, ProviderView>,
    casters: Map<(Seq<char>, Seq<char>), bool>,
    need_threadsafe: bool,
    base: nat,
    interface: Seq<char>,
    name: Seq<char>,
)
    requires
        bindings.dom().finite(),
        bindings.dom().contains(KeyView { interface, name: Option::None }),
    ensures
        ({
            let unnamed = KeyView { interface, name: Option::None };
            let named = KeyView { interface, name: Option::Some(name) };
            let renamed = bindings.remove(unnamed).insert(named, bindings[unnamed]);
            let m = resolve_spec(renamed, casters, need_threadsafe, base, unnamed, Seq::empty());
            &&& m.outcome == Result::<SomePtrView, ErrorView>::Err(
                ErrorView::BindingNotFound { interface, name: Option::None },
            )
            &&& m.created == 0
            &&& renamed.dom().contains(named) && renamed[named] == bindings[unnamed]
        }),
{
    let unnamed = KeyView { interface, name: Option::None };
    let named = KeyView { interface, name: Option::Some(name) };
    let renamed = bindings.remove(unnamed).insert(named, bindings[unnamed]);
    assert(!renamed.dom().contains(unnamed));
    assert(!Seq::<Seq<char>>::empty().contains(unnamed.interface));
}

} // verus!
