//! Dependency history: the ordered trail of interface type identities
//! visited during one resolution call, used to detect and report cycles.

use vstd::prelude::*;

verus! {

/// The values of a sequence of strings.
pub open spec fn seq_views(items: Seq<String>) -> Seq<Seq<char>> {
    items.map_values(|s: String| s@)
}

/// The escape sequence that turns bold terminal output on.
pub open spec fn bold_mode() -> Seq<char> {
    "\x1b[1m"@
}

/// The escape sequence that turns bold terminal output off.
pub open spec fn reset_bold_mode() -> Seq<char> {
    "\x1b[22m"@
}

/// The first entry (scanning left to right) that repeats an earlier entry,
/// starting the scan at position `i`.
pub open spec fn first_dupe_from(items: Seq<Seq<char>>, i: int) -> Option<Seq<char>>
    decreases items.len() - i,
{
    if i < 0 || i >= items.len() {
        Option::None
    } else if items.subrange(0, i).contains(items[i]) {
        Option::Some(items[i])
    } else {
        first_dupe_from(items, i + 1)
    }
}

/// The first entry that repeats an earlier entry, if any: the entry where a
/// dependency cycle closes.
pub open spec fn first_dupe(items: Seq<Seq<char>>) -> Option<Seq<char>> {
    first_dupe_from(items, 0)
}

/// One rendered entry: the entry where the cycle closes is highlighted in
/// bold wherever it occurs.
pub open spec fn render_item(item: Seq<char>, dupe: Option<Seq<char>>) -> Seq<char> {
    if dupe == Option::Some(item) {
        bold_mode() + item + reset_bold_mode()
    } else {
        item
    }
}

/// The rendered entries from position `i` on, separated by arrows.
pub open spec fn render_from(items: Seq<Seq<char>>, dupe: Option<Seq<char>>, i: int) -> Seq<char>
    decreases items.len() - i,
{
    if i < 0 || i >= items.len() {
        Seq::empty()
    } else {
        render_item(items[i], dupe) + (if i != items.len() - 1 {
            " -> "@
        } else {
            Seq::<char>::empty()
        }) + render_from(items, dupe, i + 1)
    }
}

/// The rendered history: the entries separated by arrows, the entry where a
/// cycle closes highlighted, and a trailing ellipsis when there is a cycle.
pub open spec fn format_spec(items: Seq<Seq<char>>) -> Seq<char> {
    render_from(items, first_dupe(items), 0) + (if first_dupe(items) is Some {
        " -> ..."@
    } else {
        Seq::<char>::empty()
    })
}

/// An ordered trail of interface type-identity strings visited during one
/// top-level resolution call.  It is extended on the way down the dependency
/// graph and discarded when the call ends, or attached to the returned error
/// on failure.
#[derive(Debug)]
pub struct DependencyHistory {
    inner: Vec<String>,
}

impl View for DependencyHistory {
    type V = Seq<Seq<char>>;

    closed spec fn view(&self) -> Seq<Seq<char>> {
        seq_views(self.inner@)
    }
}

impl Clone for DependencyHistory {
    fn clone(&self) -> (r: Self)
        ensures
            r@ == self@,
    {
        let mut copied: Vec<String> = Vec::new();
        let mut i: usize = 0;
        while i < self.inner.len()
            invariant
                i <= self.inner.len(),
                copied@.len() == i,
                forall|k: int| 0 <= k < i ==> copied@[k]@ == self.inner@[k]@,
            decreases self.inner.len() - i,
        {
            copied.push(self.inner[i].clone());
            i = i + 1;
        }
        proof {
            assert(seq_views(copied@) =~= seq_views(self.inner@));
        }
        DependencyHistory { inner: copied }
    }
}

impl DependencyHistory {
    /// A fresh, empty history; every top-level resolution call starts with
    /// one.
    pub fn new() -> (r: Self)
        ensures
            r@ == Seq::<Seq<char>>::empty(),
    {
        proof {
            assert(seq_views(Seq::<String>::empty()) =~= Seq::<Seq<char>>::empty());
        }
        DependencyHistory { inner: Vec::new() }
    }

    /// Appends the type identity of a dependency that resolution is about to
    /// enter.
    pub fn push(&mut self, dependency: &str)
        ensures
            final(self)@ == old(self)@.push(dependency@),
    {
        self.inner.push(dependency.to_owned());
        proof {
            assert(self@ =~= old(self)@.push(dependency@));
        }
    }

    /// Whether the given type identity was already visited: the cycle test.
    pub fn contains(&self, dependency: &str) -> (r: bool)
        ensures
            r == self@.contains(dependency@),
    {
        let needle = dependency.to_owned();
        let mut i: usize = 0;
        while i < self.inner.len()
            invariant
                i <= self.inner.len(),
                needle@ == dependency@,
                forall|j: int| 0 <= j < i ==> self@[j] != dependency@,
            decreases self.inner.len() - i,
        {
            if self.inner[i] == needle {
                proof {
                    assert(self@[i as int] == dependency@);
                }
                return true;
            }
            i = i + 1;
        }
        false
    }

    /// The number of entries.
    pub fn len(&self) -> (r: usize)
        ensures
            r == self@.len(),
    {
        self.inner.len()
    }

    /// Renders the history for error reports: the entries joined by arrows,
    /// with every occurrence of the entry where a cycle closes set in bold
    /// and a trailing ellipsis when such an entry exists.
    pub fn format(&self) -> (r: String)
        ensures
            r@ == format_spec(self@),
    {
        let ghost items = self@;
        let mut opt_dupe: Option<String> = Option::None;
        let mut i: usize = 0;
        while i < self.inner.len()
            invariant_except_break
                opt_dupe is None,
                first_dupe(items) == first_dupe_from(items, i as int),
            invariant
                i <= self.inner.len(),
                items == seq_views(self.inner@),
            ensures
                match opt_dupe {
                    Option::Some(d) => first_dupe(items) == Option::Some(d@),
                    Option::None => first_dupe(items) is None,
                },
            decreases self.inner.len() - i,
        {
            if self.prefix_contains(i) {
                opt_dupe = Option::Some(self.inner[i].clone());
                proof {
                    assert(items[i as int] == self.inner@[i as int]@);
                }
                break ;
            }
            i = i + 1;
        }
        let ghost dupe = first_dupe(items);
        let mut out = String::new();
        let mut j: usize = 0;
        while j < self.inner.len()
            invariant
                j <= self.inner.len(),
                items == seq_views(self.inner@),
                out@ + render_from(items, dupe, j as int) == render_from(items, dupe, 0),
                match opt_dupe {
                    Option::Some(d) => dupe == Option::Some(d@),
                    Option::None => dupe is None,
                },
            decreases self.inner.len() - j,
        {
            let item_is_dupe = match &opt_dupe {
                Option::Some(d) => self.inner[j] == *d,
                Option::None => false,
            };
            if item_is_dupe {
                out.append("\x1b[1m");
                out.append(self.inner[j].as_str());
                out.append("\x1b[22m");
            } else {
                out.append(self.inner[j].as_str());
            }
            if j != self.inner.len() - 1 {
                out.append(" -> ");
            }
            proof {
                assert(out@ + render_from(items, dupe, j + 1 as int) == render_from(
                    items,
                    dupe,
                    0,
                )) by {
                    assert(render_from(items, dupe, j as int) == render_item(items[j as int], dupe)
                        + (if j != items.len() - 1 {
                        " -> "@
                    } else {
                        Seq::<char>::empty()
                    }) + render_from(items, dupe, j + 1 as int));
                    assert(out@ + render_from(items, dupe, j + 1 as int) =~= render_from(
                        items,
                        dupe,
                        0,
                    ));
                }
            }
            j = j + 1;
        }
        proof {
            assert(render_from(items, dupe, items.len() as int) =~= Seq::<char>::empty());
            assert(out@ =~= render_from(items, dupe, 0));
        }
        if opt_dupe.is_some() {
            out.append(" -> ...");
        }
        proof {
            assert(out@ =~= format_spec(items));
        }
        out
    }

    /// Whether the entry at `at` already occurs among the entries before it.
    fn prefix_contains(&self, at: usize) -> (r: bool)
        requires
            at < self@.len(),
        ensures
            r == self@.subrange(0, at as int).contains(self@[at as int]),
    {
        let mut i: usize = 0;
        while i < at
            invariant
                i <= at,
                at < self@.len(),
                forall|j: int| 0 <= j < i ==> self@[j] != self@[at as int],
            decreases at - i,
        {
            if self.inner[i] == self.inner[at] {
                proof {
                    assert(self@.subrange(0, at as int)[i as int] == self@[at as int]);
                }
                return true;
            }
            i = i + 1;
        }
        proof {
            assert forall|j: int| 0 <= j < at implies self@.subrange(0, at as int)[j]
                != self@[at as int] by {
                assert(self@.subrange(0, at as int)[j] == self@[j]);
            }
        }
        false
    }
}

impl Default for DependencyHistory {
    fn default() -> (r: Self)
        ensures
            r@ == Seq::<Seq<char>>::empty(),
    {
        DependencyHistory::new()
    }
}

/// Marker bounding which types may stand in for a dependency history.
pub trait Sealed {

}

impl Sealed for DependencyHistory {

}

} // verus!
