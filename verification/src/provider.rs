//! Providers: the strategy a binding uses to yield an instance.

use vstd::prelude::*;

use crate::key::{InterfaceKey, KeyView};

verus! {

/// The mathematical value of a [`Provider`].
pub enum ProviderView {
    Transient { implementation: Seq<char>, dependencies: Seq<KeyView> },
    Singleton { implementation: Seq<char>, slot: int },
    Factory { implementation: Seq<char>, slot: int },
}

/// The values of a sequence of keys.
pub open spec fn key_views(keys: Seq<InterfaceKey>) -> Seq<KeyView> {
    keys.map_values(|k: InterfaceKey| k@)
}

/// The strategy producing an instance for a bound interface.
///
/// A provider never outlives the registry entry that owns it: replacing a
/// binding drops the previous provider.  The slot of a singleton or factory
/// provider designates the instance in the container's slot store.
#[derive(Debug)]
pub enum Provider {
    /// One new instance per resolution: the implementation's declared
    /// dependencies are resolved recursively, then the instance is built.
    Transient { implementation: String, dependencies: Vec<InterfaceKey> },
    /// One shared instance, constructed eagerly when the binding was scoped;
    /// every resolution returns a handle to the same slot.
    Singleton { implementation: String, slot: usize },
    /// A stored callable; resolution returns the callable itself rather than
    /// an instance.
    Factory { implementation: String, slot: usize },
}

impl View for Provider {
    type V = ProviderView;

    open spec fn view(&self) -> ProviderView {
        match self {
            Provider::Transient { implementation, dependencies } => ProviderView::Transient {
                implementation: implementation@,
                dependencies: key_views(dependencies@),
            },
            Provider::Singleton { implementation, slot } => ProviderView::Singleton {
                implementation: implementation@,
                slot: *slot as int,
            },
            Provider::Factory { implementation, slot } => ProviderView::Factory {
                implementation: implementation@,
                slot: *slot as int,
            },
        }
    }
}

} // verus!
