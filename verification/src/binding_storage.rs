//! The binding registry: a mapping from interface keys to providers, keys
//! unique, no ordering guaranteed.

use vstd::prelude::*;

use crate::key::{InterfaceKey, KeyView};
use crate::provider::{Provider, ProviderView};

verus! {

/// One registry entry.
#[derive(Debug)]
pub struct Binding {
    pub key: InterfaceKey,
    pub provider: Provider,
}

/// The mapping that a sequence of entries denotes; a later entry for the
/// same key wins, though the registry never keeps two.
pub open spec fn entries_map(s: Seq<Binding>) -> Map<KeyView, ProviderView>
    decreases s.len(),
{
    if s.len() == 0 {
        Map::empty()
    } else {
        entries_map(s.drop_last()).insert(s.last().key@, s.last().provider@)
    }
}

/// No two entries share a key.
pub open spec fn unique_keys(s: Seq<Binding>) -> bool {
    forall|i: int, j: int| 0 <= i < j < s.len() ==> s[i].key@ != s[j].key@
}

/// The domain of the denoted mapping is finite and is exactly the set of
/// keys occurring in the entries.
pub proof fn lemma_entries_map_dom(s: Seq<Binding>)
    ensures
        entries_map(s).dom().finite(),
        forall|k: KeyView|
            entries_map(s).dom().contains(k) <==> exists|i: int| 0 <= i < s.len() && s[i].key@ == k,
    decreases s.len(),
{
    if s.len() == 0 {
    } else {
        lemma_entries_map_dom(s.drop_last());
        assert forall|k: KeyView| entries_map(s).dom().contains(k) implies exists|i: int|
            0 <= i < s.len() && s[i].key@ == k by {
            if k == s.last().key@ {
                assert(s[s.len() - 1].key@ == k);
            } else {
                let i = choose|i: int| 0 <= i < s.drop_last().len() && s.drop_last()[i].key@ == k;
                assert(s[i].key@ == k);
            }
        }
        assert forall|k: KeyView| (exists|i: int| 0 <= i < s.len() && s[i].key@ == k) implies (
        entries_map(s).dom().contains(k)) by {
            let i = choose|i: int| 0 <= i < s.len() && s[i].key@ == k;
            if i < s.len() - 1 {
                assert(s.drop_last()[i].key@ == k);
            }
        }
    }
}

/// Under unique keys, the entry holding a key determines the mapping there.
pub proof fn lemma_entries_map_at(s: Seq<Binding>, i: int)
    requires
        unique_keys(s),
        0 <= i < s.len(),
    ensures
        entries_map(s).dom().contains(s[i].key@),
        entries_map(s)[s[i].key@] == s[i].provider@,
    decreases s.len(),
{
    if i == s.len() - 1 {
    } else {
        assert(unique_keys(s.drop_last()));
        assert(s.drop_last()[i] == s[i]);
        lemma_entries_map_at(s.drop_last(), i);
        assert(s[i].key@ != s.last().key@);
    }
}

/// A key occurring in no entry is outside the mapping's domain.
pub proof fn lemma_entries_map_absent(s: Seq<Binding>, k: KeyView)
    requires
        forall|i: int| 0 <= i < s.len() ==> s[i].key@ != k,
    ensures
        !entries_map(s).dom().contains(k),
{
    lemma_entries_map_dom(s);
}

/// Removing the entry holding a key removes exactly that key from the
/// mapping.
pub proof fn lemma_entries_map_remove(s: Seq<Binding>, i: int)
    requires
        unique_keys(s),
        0 <= i < s.len(),
    ensures
        entries_map(s.remove(i)) == entries_map(s).remove(s[i].key@),
        unique_keys(s.remove(i)),
    decreases s.len(),
{
    let k = s[i].key@;
    assert forall|x: int, y: int| 0 <= x < y < s.remove(i).len() implies s.remove(i)[x].key@ != (
    s.remove(i)[y].key@) by {
        assert(s.remove(i)[x] == (if x < i {
            s[x]
        } else {
            s[x + 1]
        }));
        assert(s.remove(i)[y] == (if y < i {
            s[y]
        } else {
            s[y + 1]
        }));
    }
    if i == s.len() - 1 {
        assert(s.remove(i) =~= s.drop_last());
        assert forall|j: int| 0 <= j < s.drop_last().len() implies s.drop_last()[j].key@ != k by {
            assert(s.drop_last()[j] == s[j]);
        }
        lemma_entries_map_absent(s.drop_last(), k);
        assert(entries_map(s.drop_last()) =~= entries_map(s).remove(k));
    } else {
        assert(s.remove(i).drop_last() =~= s.drop_last().remove(i));
        assert(unique_keys(s.drop_last()));
        assert(s.drop_last()[i] == s[i]);
        lemma_entries_map_remove(s.drop_last(), i);
        assert(s.remove(i).last() == s.last());
        assert(entries_map(s.remove(i)) == entries_map(s.drop_last()).remove(k).insert(
            s.last().key@,
            s.last().provider@,
        ));
        assert(k != s.last().key@);
        assert(entries_map(s.drop_last()).remove(k).insert(s.last().key@, s.last().provider@)
            =~= entries_map(s.drop_last()).insert(s.last().key@, s.last().provider@).remove(k));
    }
}

/// The binding registry: the container's mutable state.  Created empty;
/// entries are inserted or replaced by [`BindingStorage::set_binding`] and
/// removed by [`BindingStorage::remove_binding`].
#[derive(Debug)]
pub struct BindingStorage {
    entries: Vec<Binding>,
}

impl View for BindingStorage {
    type V = Map<KeyView, ProviderView>;

    closed spec fn view(&self) -> Map<KeyView, ProviderView> {
        entries_map(self.entries@)
    }
}

impl BindingStorage {
    #[verifier::type_invariant]
    spec fn wf(self) -> bool {
        unique_keys(self.entries@)
    }

    /// An empty registry.
    pub fn new() -> (r: Self)
        ensures
            r@ == Map::<KeyView, ProviderView>::empty(),
    {
        BindingStorage { entries: Vec::new() }
    }

    /// The registry's domain is finite.
    pub proof fn lemma_dom_finite(&self)
        ensures
            self@.dom().finite(),
    {
        lemma_entries_map_dom(self.entries@);
    }

    /// Read access to the provider bound to a key, if any.
    pub fn get_binding(&self, key: &InterfaceKey) -> (r: Option<&Provider>)
        ensures
            match r {
                Option::Some(p) => self@.dom().contains(key@) && p@ == self@[key@],
                Option::None => !self@.dom().contains(key@),
            },
    {
        proof {
            use_type_invariant(self);
        }
        let mut i: usize = 0;
        while i < self.entries.len()
            invariant
                i <= self.entries.len(),
                unique_keys(self.entries@),
                forall|j: int| 0 <= j < i ==> self.entries@[j].key@ != key@,
            decreases self.entries.len() - i,
        {
            if self.entries[i].key.key_eq(key) {
                proof {
                    lemma_entries_map_at(self.entries@, i as int);
                }
                return Option::Some(&self.entries[i].provider);
            }
            i = i + 1;
        }
        proof {
            lemma_entries_map_absent(self.entries@, key@);
        }
        Option::None
    }

    /// Whether a binding exists for a key.
    pub fn has_binding(&self, key: &InterfaceKey) -> (r: bool)
        ensures
            r == self@.dom().contains(key@),
    {
        self.get_binding(key).is_some()
    }

    /// Removes the binding of a key and hands back its provider, or `None`
    /// when no binding existed.
    pub fn remove_binding(&mut self, key: &InterfaceKey) -> (r: Option<Provider>)
        ensures
            final(self)@ == old(self)@.remove(key@),
            match r {
                Option::Some(p) => old(self)@.dom().contains(key@) && p@ == old(self)@[key@],
                Option::None => !old(self)@.dom().contains(key@),
            },
    {
        proof {
            use_type_invariant(&*self);
        }
        let ghost pre = self.entries@;
        let mut entries: Vec<Binding> = Vec::new();
        core::mem::swap(&mut self.entries, &mut entries);
        let mut at: usize = 0;
        let mut present = false;
        let mut i: usize = 0;
        while i < entries.len()
            invariant_except_break
                !present,
                forall|j: int| 0 <= j < i ==> pre[j].key@ != key@,
            invariant
                i <= entries.len(),
                entries@ == pre,
                unique_keys(pre),
                present ==> at < entries.len() && pre[at as int].key@ == key@,
            ensures
                present ==> at < entries.len() && pre[at as int].key@ == key@,
                !present ==> forall|j: int| 0 <= j < pre.len() ==> pre[j].key@ != key@,
            decreases entries.len() - i,
        {
            if entries[i].key.key_eq(key) {
                at = i;
                present = true;
                break ;
            }
            i = i + 1;
        }
        let found: Option<Provider> = if present {
            proof {
                lemma_entries_map_at(pre, at as int);
                lemma_entries_map_remove(pre, at as int);
            }
            let removed = entries.remove(at);
            Option::Some(removed.provider)
        } else {
            proof {
                lemma_entries_map_absent(pre, key@);
                assert(entries_map(pre).remove(key@) =~= entries_map(pre));
            }
            Option::None
        };
        core::mem::swap(&mut self.entries, &mut entries);
        found
    }

    /// Inserts or overwrites the binding of a key.  Intentionally unchecked:
    /// scope configurators finalize a binding after validating it
    /// themselves.
    pub fn set_binding(&mut self, key: InterfaceKey, provider: Provider)
        ensures
            final(self)@ == old(self)@.insert(key@, provider@),
    {
        let _ = self.remove_binding(&key);
        proof {
            use_type_invariant(&*self);
            lemma_entries_map_dom(self.entries@);
        }
        let ghost pre = self.entries@;
        let ghost pre_map = self@;
        let mut entries: Vec<Binding> = Vec::new();
        core::mem::swap(&mut self.entries, &mut entries);
        entries.push(Binding { key, provider });
        proof {
            assert forall|j: int| 0 <= j < pre.len() implies pre[j].key@ != key@ by {
                if pre[j].key@ == key@ {
                    assert(entries_map(pre).dom().contains(key@));
                }
            }
            assert(unique_keys(entries@)) by {
                assert(forall|j: int| 0 <= j < entries@.len() - 1 ==> entries@[j] == pre[j]);
            }
            assert(entries@.drop_last() =~= pre);
            assert(entries_map(entries@) == pre_map.insert(entries@.last().key@,
                entries@.last().provider@));
            assert(old(self)@.remove(key@).insert(key@, provider@) =~= old(self)@.insert(
                key@,
                provider@,
            ));
        }
        core::mem::swap(&mut self.entries, &mut entries);
    }
}

} // verus!
