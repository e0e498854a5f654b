//! The caster registry: the table of declared cast relationships, mapping a
//! (concrete type, interface type) pair to whether the relationship was
//! declared thread-safe.  Casting reinterprets a handle under another
//! interface; it never copies the underlying instance.

use vstd::prelude::*;

use crate::ptr::{InstancePtr, PtrView};

verus! {

/// One declared cast relationship.
#[derive(Debug)]
pub struct CasterEntry {
    pub from: String,
    pub to: String,
    pub threadsafe: bool,
}

/// The mapping that a sequence of cast entries denotes.
pub open spec fn casters_map(s: Seq<CasterEntry>) -> Map<(Seq<char>, Seq<char>), bool>
    decreases s.len(),
{
    if s.len() == 0 {
        Map::empty()
    } else {
        casters_map(s.drop_last()).insert(
            (s.last().from@, s.last().to@),
            s.last().threadsafe,
        )
    }
}

/// No two entries declare the same relationship.
pub open spec fn unique_pairs(s: Seq<CasterEntry>) -> bool {
    forall|i: int, j: int|
        0 <= i < j < s.len() ==> (s[i].from@, s[i].to@) != (s[j].from@, s[j].to@)
}

/// The domain of the denoted mapping is finite and is exactly the set of
/// pairs occurring in the entries.
pub proof fn lemma_casters_map_dom(s: Seq<CasterEntry>)
    ensures
        casters_map(s).dom().finite(),
        forall|k: (Seq<char>, Seq<char>)|
            casters_map(s).dom().contains(k) <==> exists|i: int|
                0 <= i < s.len() && (s[i].from@, s[i].to@) == k,
    decreases s.len(),
{
    if s.len() == 0 {
    } else {
        lemma_casters_map_dom(s.drop_last());
        assert forall|k: (Seq<char>, Seq<char>)| casters_map(s).dom().contains(k) implies exists|
            i: int,
        | 0 <= i < s.len() && (s[i].from@, s[i].to@) == k by {
            if k == (s.last().from@, s.last().to@) {
                assert((s[s.len() - 1].from@, s[s.len() - 1].to@) == k);
            } else {
                let i = choose|i: int|
                    0 <= i < s.drop_last().len() && (s.drop_last()[i].from@, s.drop_last()[i].to@)
                        == k;
                assert((s[i].from@, s[i].to@) == k);
            }
        }
        assert forall|k: (Seq<char>, Seq<char>)|
            (exists|i: int| 0 <= i < s.len() && (s[i].from@, s[i].to@) == k) implies (casters_map(
            s,
        ).dom().contains(k)) by {
            let i = choose|i: int| 0 <= i < s.len() && (s[i].from@, s[i].to@) == k;
            if i < s.len() - 1 {
                assert((s.drop_last()[i].from@, s.drop_last()[i].to@) == k);
            }
        }
    }
}

/// Under unique pairs, the entry declaring a relationship determines the
/// mapping there.
pub proof fn lemma_casters_map_at(s: Seq<CasterEntry>, i: int)
    requires
        unique_pairs(s),
        0 <= i < s.len(),
    ensures
        casters_map(s).dom().contains((s[i].from@, s[i].to@)),
        casters_map(s)[(s[i].from@, s[i].to@)] == s[i].threadsafe,
    decreases s.len(),
{
    if i == s.len() - 1 {
    } else {
        assert(unique_pairs(s.drop_last()));
        assert(s.drop_last()[i] == s[i]);
        lemma_casters_map_at(s.drop_last(), i);
        assert((s[i].from@, s[i].to@) != (s.last().from@, s.last().to@));
    }
}

/// A relationship declared by no entry is outside the mapping's domain.
pub proof fn lemma_casters_map_absent(s: Seq<CasterEntry>, k: (Seq<char>, Seq<char>))
    requires
        forall|i: int| 0 <= i < s.len() ==> (s[i].from@, s[i].to@) != k,
    ensures
        !casters_map(s).dom().contains(k),
{
    lemma_casters_map_dom(s);
}

/// The table of declared cast relationships.  It is populated while the
/// bindings are set up and only read during resolution.
#[derive(Debug)]
pub struct CasterRegistry {
    entries: Vec<CasterEntry>,
}

impl View for CasterRegistry {
    type V = Map<(Seq<char>, Seq<char>), bool>;

    closed spec fn view(&self) -> Map<(Seq<char>, Seq<char>), bool> {
        casters_map(self.entries@)
    }
}

impl CasterRegistry {
    #[verifier::type_invariant]
    spec fn wf(self) -> bool {
        unique_pairs(self.entries@)
    }

    /// An empty registry.
    pub fn new() -> (r: Self)
        ensures
            r@ == Map::<(Seq<char>, Seq<char>), bool>::empty(),
    {
        CasterRegistry { entries: Vec::new() }
    }

    /// The registry's domain is finite.
    pub proof fn lemma_dom_finite(&self)
        ensures
            self@.dom().finite(),
    {
        lemma_casters_map_dom(self.entries@);
    }

    /// Declares that a value of the concrete type `from` may be
    /// reinterpreted as the interface `to`; `threadsafe` records whether the
    /// relationship may be used by the thread-safe front-end.
    pub fn register(&mut self, from: &str, to: &str, threadsafe: bool)
        ensures
            final(self)@ == old(self)@.insert((from@, to@), threadsafe),
    {
        proof {
            use_type_invariant(&*self);
        }
        let ghost pre = self.entries@;
        let mut entries: Vec<CasterEntry> = Vec::new();
        core::mem::swap(&mut self.entries, &mut entries);
        let mut at: usize = 0;
        let mut present = false;
        let mut i: usize = 0;
        while i < entries.len()
            invariant_except_break
                !present,
                forall|j: int| 0 <= j < i ==> (pre[j].from@, pre[j].to@) != (from@, to@),
            invariant
                i <= entries.len(),
                entries@ == pre,
                unique_pairs(pre),
                present ==> at < entries.len() && (pre[at as int].from@, pre[at as int].to@) == (
                from@, to@),
            ensures
                present ==> at < entries.len() && (pre[at as int].from@, pre[at as int].to@) == (
                from@, to@),
                !present ==> forall|j: int|
                    0 <= j < pre.len() ==> (pre[j].from@, pre[j].to@) != (from@, to@),
            decreases entries.len() - i,
        {
            if string_eq(&entries[i].from, from) && string_eq(&entries[i].to, to) {
                at = i;
                present = true;
                break ;
            }
            i = i + 1;
        }
        if present {
            proof {
                lemma_casters_map_at(pre, at as int);
                lemma_casters_remove(pre, at as int);
            }
            let _ = entries.remove(at);
        } else {
            proof {
                lemma_casters_map_absent(pre, (from@, to@));
                assert(casters_map(pre).remove((from@, to@)) =~= casters_map(pre));
            }
        }
        let ghost mid = entries@;
        proof {
            lemma_casters_map_dom(mid);
            assert forall|j: int| 0 <= j < mid.len() implies (mid[j].from@, mid[j].to@) != (
            from@, to@) by {
                if (mid[j].from@, mid[j].to@) == (from@, to@) {
                    assert(casters_map(mid).dom().contains((from@, to@)));
                }
            }
        }
        entries.push(CasterEntry { from: from.to_owned(), to: to.to_owned(), threadsafe });
        proof {
            assert(unique_pairs(entries@)) by {
                assert(forall|j: int| 0 <= j < entries@.len() - 1 ==> entries@[j] == mid[j]);
            }
            assert(entries@.drop_last() =~= mid);
            assert(casters_map(mid).insert((from@, to@), threadsafe) =~= old(self)@.insert(
                (from@, to@),
                threadsafe,
            ));
        }
        core::mem::swap(&mut self.entries, &mut entries);
    }

    /// Looks a relationship up: `Some` holds whether it was declared
    /// thread-safe; `None` means it was never declared.
    pub fn lookup(&self, from: &str, to: &str) -> (r: Option<bool>)
        ensures
            match r {
                Option::Some(b) => self@.dom().contains((from@, to@)) && b == self@[(from@, to@)],
                Option::None => !self@.dom().contains((from@, to@)),
            },
    {
        proof {
            use_type_invariant(self);
        }
        let mut i: usize = 0;
        while i < self.entries.len()
            invariant
                i <= self.entries.len(),
                unique_pairs(self.entries@),
                forall|j: int|
                    0 <= j < i ==> (self.entries@[j].from@, self.entries@[j].to@) != (from@, to@),
            decreases self.entries.len() - i,
        {
            if string_eq(&self.entries[i].from, from) && string_eq(&self.entries[i].to, to) {
                proof {
                    lemma_casters_map_at(self.entries@, i as int);
                }
                return Option::Some(self.entries[i].threadsafe);
            }
            i = i + 1;
        }
        proof {
            lemma_casters_map_absent(self.entries@, (from@, to@));
        }
        Option::None
    }
}

/// Removing the entry declaring a relationship removes exactly that pair
/// from the mapping.
proof fn lemma_casters_remove(s: Seq<CasterEntry>, i: int)
    requires
        unique_pairs(s),
        0 <= i < s.len(),
    ensures
        casters_map(s.remove(i)) == casters_map(s).remove((s[i].from@, s[i].to@)),
        unique_pairs(s.remove(i)),
    decreases s.len(),
{
    let k = (s[i].from@, s[i].to@);
    assert forall|x: int, y: int|
        0 <= x < y < s.remove(i).len() implies (s.remove(i)[x].from@, s.remove(i)[x].to@) != (
    s.remove(i)[y].from@, s.remove(i)[y].to@) by {
        assert(s.remove(i)[x] == (if x < i {
            s[x]
        } else {
            s[x + 1]
        }));
        assert(s.remove(i)[y] == (if y < i {
            s[y]
        } else {
            s[y + 1]
        }));
    }
    if i == s.len() - 1 {
        assert(s.remove(i) =~= s.drop_last());
        assert forall|j: int|
            0 <= j < s.drop_last().len() implies (s.drop_last()[j].from@, s.drop_last()[j].to@)
            != k by {
            assert(s.drop_last()[j] == s[j]);
        }
        lemma_casters_map_absent(s.drop_last(), k);
        assert(casters_map(s.drop_last()) =~= casters_map(s).remove(k));
    } else {
        assert(s.remove(i).drop_last() =~= s.drop_last().remove(i));
        assert(unique_pairs(s.drop_last()));
        assert(s.drop_last()[i] == s[i]);
        lemma_casters_remove(s.drop_last(), i);
        assert(s.remove(i).last() == s.last());
        assert(casters_map(s.remove(i)) == casters_map(s.drop_last()).remove(k).insert(
            (s.last().from@, s.last().to@),
            s.last().threadsafe,
        ));
        assert(k != (s.last().from@, s.last().to@));
        assert(casters_map(s.drop_last()).remove(k).insert(
            (s.last().from@, s.last().to@),
            s.last().threadsafe,
        ) =~= casters_map(s.drop_last()).insert(
            (s.last().from@, s.last().to@),
            s.last().threadsafe,
        ).remove(k));
    }
}

/// Whether a stored string equals a borrowed one.
fn string_eq(a: &String, b: &str) -> (r: bool)
    ensures
        r == (a@ == b@),
{
    let owned = b.to_owned();
    *a == owned
}

/// The error a failed cast reports.
#[derive(Debug)]
pub enum CastError {
    /// No cast relationship was declared from `from` to `to`.
    CastFailed { from: String, to: String },
    /// The relationship exists but was not declared thread-safe.
    NotArcCastable(String),
}

/// The mathematical value of a [`CastError`].
pub enum CastErrorView {
    CastFailed { from: Seq<char>, to: Seq<char> },
    NotArcCastable(Seq<char>),
}

impl View for CastError {
    type V = CastErrorView;

    closed spec fn view(&self) -> CastErrorView {
        match self {
            CastError::CastFailed { from, to } => CastErrorView::CastFailed {
                from: from@,
                to: to@,
            },
            CastError::NotArcCastable(to) => CastErrorView::NotArcCastable(to@),
        }
    }
}

/// What casting a shared handle yields: the same slot under the new
/// interface when the relationship was declared, the exact error otherwise.
pub open spec fn rc_cast_spec(
    casters: Map<(Seq<char>, Seq<char>), bool>,
    p: PtrView,
    to: Seq<char>,
) -> Result<PtrView, CastErrorView> {
    if casters.dom().contains((p.interface, to)) {
        Result::Ok(PtrView { slot: p.slot, interface: to })
    } else {
        Result::Err(CastErrorView::CastFailed { from: p.interface, to })
    }
}

/// What casting a thread-safe shared handle yields: as [`rc_cast_spec`], but
/// the relationship must also have been declared thread-safe.
pub open spec fn arc_cast_spec(
    casters: Map<(Seq<char>, Seq<char>), bool>,
    p: PtrView,
    to: Seq<char>,
) -> Result<PtrView, CastErrorView> {
    if !casters.dom().contains((p.interface, to)) {
        Result::Err(CastErrorView::CastFailed { from: p.interface, to })
    } else if !casters[(p.interface, to)] {
        Result::Err(CastErrorView::NotArcCastable(to))
    } else {
        Result::Ok(PtrView { slot: p.slot, interface: to })
    }
}

/// Casting for handles shared within one thread.
pub trait CastRc: Sized + View<V = PtrView> {
    /// Reinterprets this handle under the interface `to`: the slot is kept,
    /// so the result aliases the same instance and no data is copied.
    fn cast(self, casters: &CasterRegistry, to: &str) -> (r: Result<Self, CastError>)
        ensures
            match (r, rc_cast_spec(casters@, self@, to@)) {
                (Result::Ok(q), Result::Ok(pv)) => q@ == pv,
                (Result::Err(e), Result::Err(ev)) => e@ == ev,
                _ => false,
            },
    ;
}

/// Casting for handles shared across threads: the relationship must have
/// been declared thread-safe.
pub trait CastArc: Sized + View<V = PtrView> {
    /// Reinterprets this handle under the interface `to`: the slot is kept,
    /// so the result aliases the same instance and no data is copied.
    fn cast(self, casters: &CasterRegistry, to: &str) -> (r: Result<Self, CastError>)
        ensures
            match (r, arc_cast_spec(casters@, self@, to@)) {
                (Result::Ok(q), Result::Ok(pv)) => q@ == pv,
                (Result::Err(e), Result::Err(ev)) => e@ == ev,
                _ => false,
            },
    ;
}

impl CastRc for InstancePtr {
    fn cast(self, casters: &CasterRegistry, to: &str) -> (r: Result<Self, CastError>) {
        match casters.lookup(self.interface(), to) {
            Option::Some(_) => Result::Ok(InstancePtr::new(self.slot(), to)),
            Option::None => Result::Err(
                CastError::CastFailed { from: self.interface().to_owned(), to: to.to_owned() },
            ),
        }
    }
}

impl CastArc for InstancePtr {
    fn cast(self, casters: &CasterRegistry, to: &str) -> (r: Result<Self, CastError>) {
        match casters.lookup(self.interface(), to) {
            Option::Some(true) => Result::Ok(InstancePtr::new(self.slot(), to)),
            Option::Some(false) => Result::Err(CastError::NotArcCastable(to.to_owned())),
            Option::None => Result::Err(
                CastError::CastFailed { from: self.interface().to_owned(), to: to.to_owned() },
            ),
        }
    }
}

} // verus!
