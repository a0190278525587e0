//! The source paths that were already archived in this process.

use vstd::prelude::*;
use vstd::hash_set::StringHashSet;

verus! {

/// The number of paths that the ledger holds at most.
pub const LEDGER_CAP: usize = 1000;

/// The paths that a ledger holds after `path` was marked in one that held
/// `before`: those of `before` and `path`, unless that is more than the
/// cap, in which case none.
pub open spec fn marked(before: Set<Seq<char>>, path: Seq<char>) -> Set<Seq<char>> {
    if before.insert(path).len() > LEDGER_CAP {
        Set::empty()
    } else {
        before.insert(path)
    }
}

/// A bounded set of canonical source paths. It is emptied as a whole when
/// it would grow beyond its cap.
pub struct DedupLedger {
    paths: StringHashSet,
}

impl View for DedupLedger {
    type V = Set<Seq<char>>;

    closed spec fn view(&self) -> Set<Seq<char>> {
        self.paths@
    }
}

impl DedupLedger {
    #[verifier::type_invariant]
    spec fn well_formed(self) -> bool {
        self.paths@.finite() && self.paths@.len() <= LEDGER_CAP
    }

    /// An empty ledger.
    pub fn new() -> (ledger: Self)
        ensures
            ledger@ == Set::<Seq<char>>::empty(),
    {
        DedupLedger { paths: StringHashSet::new() }
    }

    /// The number of paths held, never more than the cap.
    pub fn len(&self) -> (n: usize)
        ensures
            n == self@.len(),
            self@.finite(),
            n <= LEDGER_CAP,
    {
        proof {
            use_type_invariant(self);
        }
        self.paths.len()
    }

    /// Whether `path` was marked and the ledger was not emptied since.
    pub fn seen(&self, path: &str) -> (r: bool)
        ensures
            r == self@.contains(path@),
    {
        self.paths.contains(path)
    }

    /// Records `path` as handled.
    pub fn mark(&mut self, path: String)
        ensures
            final(self)@ == marked(old(self)@, path@),
    {
        proof {
            use_type_invariant(&*self);
        }
        let mut paths = StringHashSet::new();
        std::mem::swap(&mut self.paths, &mut paths);
        paths.insert(path);
        if paths.len() > LEDGER_CAP {
            paths.clear();
        }
        std::mem::swap(&mut self.paths, &mut paths);
    }
}

/// Marking keeps a ledger within its cap.
pub proof fn lemma_marked_is_bounded(before: Set<Seq<char>>, path: Seq<char>)
    requires
        before.finite(),
    ensures
        marked(before, path).finite(),
        marked(before, path).len() <= LEDGER_CAP,
{
}

/// Marking empties the ledger exactly when the path would make it larger
/// than the cap. Otherwise the path and all that was held before are held
/// after.
pub proof fn lemma_cleared_exactly_on_overflow(before: Set<Seq<char>>, path: Seq<char>)
    requires
        before.finite(),
    ensures
        marked(before, path) == Set::<Seq<char>>::empty() <==> before.insert(path).len()
            > LEDGER_CAP,
        before.insert(path).len() <= LEDGER_CAP ==> marked(before, path).contains(path)
            && before.subset_of(marked(before, path)),
        before.insert(path).len() > LEDGER_CAP <==> before.len() == LEDGER_CAP && !before.contains(path)
            || before.len() > LEDGER_CAP,
{
    assert(before.insert(path).contains(path));
    if marked(before, path) == Set::<Seq<char>>::empty() {
        assert(!marked(before, path).contains(path));
    }
}

} // verus!
