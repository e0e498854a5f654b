//! Resolved pointers: handles to instances in a container's slot store.

use vstd::prelude::*;

verus! {

/// The mathematical value of an [`InstancePtr`]: the slot it designates and
/// the interface it is typed to.
pub struct PtrView {
    pub slot: int,
    pub interface: Seq<char>,
}

/// A handle to one instance in a container's slot store, typed to an
/// interface.  Two handles with the same slot alias the same underlying
/// instance, whatever interface each is typed to; casting re-types a handle
/// without touching the slot, so it never copies the instance.
#[derive(Debug)]
pub struct InstancePtr {
    slot: usize,
    interface: String,
}

impl View for InstancePtr {
    type V = PtrView;

    closed spec fn view(&self) -> PtrView {
        PtrView { slot: self.slot as int, interface: self.interface@ }
    }
}

impl Clone for InstancePtr {
    fn clone(&self) -> (r: Self)
        ensures
            r@ == self@,
    {
        InstancePtr { slot: self.slot, interface: self.interface.clone() }
    }
}

impl InstancePtr {
    /// A handle to the instance in `slot`, typed to `interface`.
    pub fn new(slot: usize, interface: &str) -> (r: Self)
        ensures
            r@ == (PtrView { slot: slot as int, interface: interface@ }),
    {
        InstancePtr { slot, interface: interface.to_owned() }
    }

    /// The slot this handle designates.
    pub fn slot(&self) -> (r: usize)
        ensures
            r == self@.slot,
    {
        self.slot
    }

    /// The interface this handle is typed to.
    pub fn interface(&self) -> (r: &str)
        ensures
            r@ == self@.interface,
    {
        self.interface.as_str()
    }
}

/// The scope-mismatch error: a resolved pointer was asserted to be of one
/// scope kind but is of another.
#[derive(Debug)]
pub enum SomePtrError {
    WrongPtrType { expected: &'static str, found: &'static str },
}

/// The mathematical value of a [`SomePtrError`].
pub struct SomePtrErrorView {
    pub expected: Seq<char>,
    pub found: Seq<char>,
}

impl View for SomePtrError {
    type V = SomePtrErrorView;

    closed spec fn view(&self) -> SomePtrErrorView {
        match self {
            SomePtrError::WrongPtrType { expected, found } => SomePtrErrorView {
                expected: expected@,
                found: found@,
            },
        }
    }
}

/// The mathematical value of a [`SomePtr`].
pub enum SomePtrView {
    Transient(PtrView),
    Singleton(PtrView),
    Factory(PtrView),
}

/// The scope kind of a resolved-pointer value, as a string for error
/// reports.
pub open spec fn kind_of(p: SomePtrView) -> Seq<char> {
    match p {
        SomePtrView::Transient(_) => "transient"@,
        SomePtrView::Singleton(_) => "singleton"@,
        SomePtrView::Factory(_) => "factory"@,
    }
}

/// What a successful resolution returns: an instance handle tagged with the
/// lifetime scope it was resolved under.  The accessors assert the expected
/// scope kind and fail with a scope mismatch rather than silently coercing.
#[derive(Debug)]
pub enum SomePtr {
    /// A fresh instance owned by the caller: one new instance per resolution.
    Transient(InstancePtr),
    /// A shared handle to the one instance of a singleton binding.
    Singleton(InstancePtr),
    /// A handle to a stored callable; resolving a factory binding returns the
    /// callable itself, never invokes it.
    Factory(InstancePtr),
}

impl View for SomePtr {
    type V = SomePtrView;

    open spec fn view(&self) -> SomePtrView {
        match self {
            SomePtr::Transient(p) => SomePtrView::Transient(p@),
            SomePtr::Singleton(p) => SomePtrView::Singleton(p@),
            SomePtr::Factory(p) => SomePtrView::Factory(p@),
        }
    }
}

impl Clone for SomePtr {
    fn clone(&self) -> (r: Self)
        ensures
            r@ == self@,
    {
        match self {
            SomePtr::Transient(p) => SomePtr::Transient(p.clone()),
            SomePtr::Singleton(p) => SomePtr::Singleton(p.clone()),
            SomePtr::Factory(p) => SomePtr::Factory(p.clone()),
        }
    }
}

impl SomePtr {
    /// The handle inside, whatever the scope kind.
    pub fn ptr(&self) -> (r: &InstancePtr)
        ensures
            r@ == (match self@ {
                SomePtrView::Transient(p) => p,
                SomePtrView::Singleton(p) => p,
                SomePtrView::Factory(p) => p,
            }),
    {
        match self {
            SomePtr::Transient(p) => p,
            SomePtr::Singleton(p) => p,
            SomePtr::Factory(p) => p,
        }
    }

    /// Asserts that this pointer came from a transient binding.
    pub fn transient(self) -> (r: Result<InstancePtr, SomePtrError>)
        ensures
            match self {
                SomePtr::Transient(p) => r == Ok::<InstancePtr, SomePtrError>(p),
                _ => r matches Err(e) && e@ == (SomePtrErrorView {
                    expected: "transient"@,
                    found: kind_of(self@),
                }),
            },
    {
        match self {
            SomePtr::Transient(p) => Ok(p),
            SomePtr::Singleton(_) => Err(
                SomePtrError::WrongPtrType { expected: "transient", found: "singleton" },
            ),
            SomePtr::Factory(_) => Err(
                SomePtrError::WrongPtrType { expected: "transient", found: "factory" },
            ),
        }
    }

    /// Asserts that this pointer came from a singleton binding.
    pub fn singleton(self) -> (r: Result<InstancePtr, SomePtrError>)
        ensures
            match self {
                SomePtr::Singleton(p) => r == Ok::<InstancePtr, SomePtrError>(p),
                _ => r matches Err(e) && e@ == (SomePtrErrorView {
                    expected: "singleton"@,
                    found: kind_of(self@),
                }),
            },
    {
        match self {
            SomePtr::Singleton(p) => Ok(p),
            SomePtr::Transient(_) => Err(
                SomePtrError::WrongPtrType { expected: "singleton", found: "transient" },
            ),
            SomePtr::Factory(_) => Err(
                SomePtrError::WrongPtrType { expected: "singleton", found: "factory" },
            ),
        }
    }

    /// Asserts that this pointer came from a factory binding.
    pub fn factory(self) -> (r: Result<InstancePtr, SomePtrError>)
        ensures
            match self {
                SomePtr::Factory(p) => r == Ok::<InstancePtr, SomePtrError>(p),
                _ => r matches Err(e) && e@ == (SomePtrErrorView {
                    expected: "factory"@,
                    found: kind_of(self@),
                }),
            },
    {
        match self {
            SomePtr::Factory(p) => Ok(p),
            SomePtr::Transient(_) => Err(
                SomePtrError::WrongPtrType { expected: "factory", found: "transient" },
            ),
            SomePtr::Singleton(_) => Err(
                SomePtrError::WrongPtrType { expected: "factory", found: "singleton" },
            ),
        }
    }
}

} // verus!
