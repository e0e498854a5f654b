//! Interface keys: the lookup identity of a binding.

use vstd::prelude::*;

verus! {

/// The mathematical value of an [`InterfaceKey`]: the interface's
/// type-identity string together with the optional binding name.
pub struct KeyView {
    pub interface: Seq<char>,
    pub name: Option<Seq<char>>,
}

/// The value of an optional name argument.
pub open spec fn name_view(name: Option<&str>) -> Option<Seq<char>> {
    match name {
        Option::None => Option::None,
        Option::Some(n) => Option::Some(n@),
    }
}

/// A stable, unique identifier for an abstract interface type plus an
/// optional binding name.  Two bindings for the same interface type are
/// distinct only if their names differ; the unnamed key is the default
/// binding.  A key is immutable once constructed.
#[derive(Debug)]
pub struct InterfaceKey {
    interface: String,
    name: Option<String>,
}

impl View for InterfaceKey {
    type V = KeyView;

    closed spec fn view(&self) -> KeyView {
        KeyView {
            interface: self.interface@,
            name: match self.name {
                Option::None => Option::None,
                Option::Some(n) => Option::Some(n@),
            },
        }
    }
}

impl Clone for InterfaceKey {
    fn clone(&self) -> (r: Self)
        ensures
            r@ == self@,
    {
        InterfaceKey {
            interface: self.interface.clone(),
            name: match &self.name {
                Option::None => Option::None,
                Option::Some(n) => Option::Some(n.clone()),
            },
        }
    }
}

impl InterfaceKey {
    /// The key of the binding of `interface` under `name`; pass `None` for
    /// the default (unnamed) binding.
    pub fn new(interface: &str, name: Option<&str>) -> (r: Self)
        ensures
            r@ == (KeyView { interface: interface@, name: name_view(name) }),
    {
        InterfaceKey {
            interface: interface.to_owned(),
            name: match name {
                Option::None => Option::None,
                Option::Some(n) => Option::Some(n.to_owned()),
            },
        }
    }

    /// The key of the default (unnamed) binding of `interface`.
    pub fn unnamed(interface: &str) -> (r: Self)
        ensures
            r@ == (KeyView { interface: interface@, name: Option::None }),
    {
        InterfaceKey::new(interface, Option::None)
    }

    /// The interface's type-identity string.
    pub fn interface(&self) -> (r: &str)
        ensures
            r@ == self@.interface,
    {
        self.interface.as_str()
    }

    /// The binding name, cloned out of the key.
    pub fn cloned_name(&self) -> (r: Option<String>)
        ensures
            (match r {
                Option::None => Option::<Seq<char>>::None,
                Option::Some(n) => Option::Some(n@),
            }) == self@.name,
    {
        match &self.name {
            Option::None => Option::None,
            Option::Some(n) => Option::Some(n.clone()),
        }
    }

    /// Whether two keys identify the same binding.
    pub fn key_eq(&self, other: &InterfaceKey) -> (r: bool)
        ensures
            r == (self@ == other@),
    {
        let interfaces_equal = self.interface == other.interface;
        let names_equal = match (&self.name, &other.name) {
            (Option::None, Option::None) => true,
            (Option::Some(a), Option::Some(b)) => *a == *b,
            _ => false,
        };
        interfaces_equal && names_equal
    }
}

} // verus!
