//! The evaluations that were dispatched and whose results are still owed.

use std::collections::VecDeque;
use vstd::prelude::*;

verus! {

/// The ids grow strictly from the front to the back.
pub open spec fn ascending<C>(s: Seq<(u64, C)>) -> bool {
    forall|i: int, j: int| 0 <= i < j < s.len() ==> s[i].0 < s[j].0
}

/// No entry is older than `floor`.
pub open spec fn at_or_above<C>(s: Seq<(u64, C)>, floor: u64) -> bool {
    forall|i: int| 0 <= i < s.len() ==> (#[trigger] s[i]).0 >= floor
}

/// Some entry was submitted under `id`.
pub open spec fn holds<C>(s: Seq<(u64, C)>, id: u64) -> bool {
    exists|i: int| 0 <= i < s.len() && (#[trigger] s[i]).0 == id
}

/// What is left of `s` once every entry older than `id` is discarded.
pub open spec fn retained<C>(s: Seq<(u64, C)>, id: u64) -> Seq<(u64, C)> {
    s.filter(|e: (u64, C)| e.0 >= id)
}

/// In an ascending sequence the entries older than a given id are a prefix:
/// if `n` entries are older and the rest are not, discarding the older ones
/// leaves the sequence from `n` on.
pub proof fn lemma_retained_is_suffix<C>(s: Seq<(u64, C)>, id: u64, n: int)
    requires
        0 <= n <= s.len(),
        forall|i: int| 0 <= i < n ==> (#[trigger] s[i]).0 < id,
        forall|i: int| n <= i < s.len() ==> (#[trigger] s[i]).0 >= id,
    ensures
        retained(s, id) == s.skip(n),
    decreases s.len(),
{
    reveal(Seq::filter);
    let keep = |e: (u64, C)| e.0 >= id;
    if s.len() == 0 {
        assert(s.filter(keep) =~= s.skip(n));
    } else {
        let front = s.drop_last();
        if n == s.len() {
            lemma_retained_is_suffix(front, id, n - 1);
            assert(!keep(s.last()));
            assert(front.filter(keep) == front.skip(n - 1));
            assert(front.skip(n - 1) =~= s.skip(n));
        } else {
            lemma_retained_is_suffix(front, id, n);
            assert(keep(s.last()));
            assert(front.skip(n).push(s.last()) =~= s.skip(n));
        }
    }
}

/// Retiring up to the id of a pending entry brings exactly that entry to the
/// front, with what was recorded at its submission, and leaves the entries
/// submitted after it behind it, untouched.
pub proof fn lemma_retire_then_pop_finds_entry<C>(s: Seq<(u64, C)>, k: int)
    requires
        ascending(s),
        0 <= k < s.len(),
    ensures
        retained(s, s[k].0) == s.skip(k),
        retained(s, s[k].0).len() > 0,
        retained(s, s[k].0)[0] == s[k],
        retained(s, s[k].0).drop_first() == s.skip(k + 1),
{
    lemma_retained_is_suffix(s, s[k].0, k);
    assert(s.skip(k).drop_first() =~= s.skip(k + 1));
}

/// What the ledger holds once the result under `id` has been matched: the
/// entries submitted after it.
pub open spec fn after_match<C>(s: Seq<(u64, C)>, id: u64) -> Seq<(u64, C)> {
    retained(s, id).drop_first()
}

/// Of the evaluations dispatched under growing ids, handling the result of
/// one makes every older one stale and leaves every newer one pending, in
/// order and with its context: a late result for an older id is below the new
/// floor, and a newer id is neither below it nor gone from the ledger.
pub proof fn lemma_monotonic_staleness<C>(s: Seq<(u64, C)>, k: int, j: int)
    requires
        ascending(s),
        0 <= k < s.len(),
        0 <= j < s.len(),
    ensures
        j < k ==> s[j].0 < s[k].0 && !holds(after_match(s, s[k].0), s[j].0),
        j > k ==> s[j].0 > s[k].0 && after_match(s, s[k].0)[j - k - 1] == s[j],
        ascending(after_match(s, s[k].0)),
        after_match(s, s[k].0).len() == s.len() - k - 1,
{
    lemma_retire_then_pop_finds_entry(s, k);
    let rest = after_match(s, s[k].0);
    assert forall|a: int, b: int| 0 <= a < b < rest.len() implies rest[a].0 < rest[b].0 by {
        assert(rest[a] == s[a + k + 1] && rest[b] == s[b + k + 1]);
    }
    if j < k {
        assert forall|i: int| 0 <= i < rest.len() implies (#[trigger] rest[i]).0 != s[j].0 by {
            assert(rest[i] == s[i + k + 1]);
        }
    }
}

/// Number of entries at the front of `s` that are older than `id`.
pub open spec fn older_count<C>(s: Seq<(u64, C)>, id: u64) -> nat
    decreases s.len(),
{
    if s.len() == 0 || s[0].0 >= id {
        0
    } else {
        1 + older_count(s.drop_first(), id)
    }
}

/// In an ascending sequence the entries older than `id` are exactly the
/// first `older_count` ones.
pub proof fn lemma_older_are_in_front<C>(s: Seq<(u64, C)>, id: u64)
    requires
        ascending(s),
    ensures
        older_count(s, id) <= s.len(),
        forall|i: int| 0 <= i < older_count(s, id) ==> (#[trigger] s[i]).0 < id,
        forall|i: int| older_count(s, id) <= i < s.len() ==> (#[trigger] s[i]).0 >= id,
        retained(s, id) == s.skip(older_count(s, id) as int),
    decreases s.len(),
{
    if s.len() > 0 && s[0].0 < id {
        let rest = s.drop_first();
        assert forall|i: int, j: int| 0 <= i < j < rest.len() implies rest[i].0 < rest[j].0 by {
            assert(rest[i] == s[i + 1] && rest[j] == s[j + 1]);
        }
        lemma_older_are_in_front(rest, id);
        assert forall|i: int| 0 <= i < older_count(s, id) implies (#[trigger] s[i]).0 < id by {
            if i > 0 {
                assert(s[i] == rest[i - 1]);
            }
        }
        assert forall|i: int| older_count(s, id) <= i < s.len() implies (#[trigger] s[i]).0 >= id by {
            assert(s[i] == rest[i - 1]);
        }
    }
    lemma_retained_is_suffix(s, id, older_count(s, id) as int);
}

/// What is wrong when a result arrives under an id that the ledger does not
/// hold: either nothing is left once the older entries are retired, or the
/// entry that is then in front was submitted under another id.
#[derive(Clone, Copy, Debug, PartialEq, Eq, Structural)]
pub enum LedgerFault {
    InvalidGenerationId,
    MismatchInExecutionId { found: u64 },
}

/// What is wrong with a result under `id`, if anything: what is found in
/// front once the entries older than `id` are retired.
pub open spec fn fault_of<C>(s: Seq<(u64, C)>, id: u64) -> Option<LedgerFault> {
    let rest = retained(s, id);
    if rest.len() == 0 {
        Some(LedgerFault::InvalidGenerationId)
    } else if rest[0].0 != id {
        Some(LedgerFault::MismatchInExecutionId { found: rest[0].0 })
    } else {
        None
    }
}

/// Taking the entry in front after retiring up to `id` finds exactly the
/// entry that was submitted under `id`, or nothing was submitted under it:
/// whatever was pushed, retired and taken before, as long as the ids grew.
/// If an entry was submitted under `id`, retiring brings it to the front
/// with what was recorded at its submission; if none was, what is in front
/// afterwards, if anything, carries a newer id, so that no context of
/// another evaluation can be taken for this one.
pub proof fn lemma_pop_after_retire<C>(s: Seq<(u64, C)>, id: u64)
    requires
        ascending(s),
    ensures
        holds(s, id) <==> fault_of(s, id) is None,
        forall|k: int| 0 <= k < s.len() && (#[trigger] s[k]).0 == id ==> retained(s, id).len() > 0 && retained(s, id)[0] == s[k],
        fault_of(s, id) matches Some(LedgerFault::MismatchInExecutionId { found }) ==> found > id && holds(s, found),
        fault_of(s, id) == Some(LedgerFault::InvalidGenerationId) ==> forall|i: int| 0 <= i < s.len() ==> (#[trigger] s[i]).0 < id,
{
    lemma_older_are_in_front(s, id);
    let n = older_count(s, id) as int;
    let rest = retained(s, id);
    if rest.len() > 0 {
        assert(rest[0] == s[n]);
    }
    assert forall|k: int| 0 <= k < s.len() && (#[trigger] s[k]).0 == id implies rest.len() > 0 && rest[0] == s[k] by {
        if k > n {
            assert(s[n].0 < s[k].0);
        }
    }
}

/// The queue of dispatched evaluations, oldest first. Ids only grow along the
/// queue, and `floor` is the id up to which results have been handled: no
/// entry is older, and a result that is older arrives too late.
pub struct PendingLedger<C> {
    entries: VecDeque<(u64, C)>,
    floor: u64,
}

impl<C> View for PendingLedger<C> {
    type V = Seq<(u64, C)>;

    closed spec fn view(&self) -> Seq<(u64, C)> {
        self.entries@
    }
}

impl<C> PendingLedger<C> {
    #[verifier::type_invariant]
    spec fn well_formed(self) -> bool {
        ascending(self.entries@) && at_or_above(self.entries@, self.floor)
    }

    /// The id below which every entry has been retired.
    pub closed spec fn floor(&self) -> u64 {
        self.floor
    }

    /// A result under `id` arrives too late: a newer one was handled before.
    pub open spec fn stale(&self, id: u64) -> bool {
        id < self.floor()
    }

    /// A ledger with nothing pending.
    pub fn new() -> (r: Self)
        ensures
            r@ == Seq::<(u64, C)>::empty(),
            r.floor() == 0,
    {
        PendingLedger { entries: VecDeque::new(), floor: 0 }
    }

    /// Number of evaluations whose result is still owed.
    pub fn len(&self) -> (r: usize)
        ensures
            r == self@.len(),
            ascending(self@),
            at_or_above(self@, self.floor()),
    {
        proof {
            use_type_invariant(self);
        }
        self.entries.len()
    }

    /// The id up to which results have been handled.
    pub fn retired_below(&self) -> (r: u64)
        ensures
            r == self.floor(),
    {
        self.floor
    }

    /// Whether a result under `id` arrives too late.
    pub fn is_stale(&self, id: u64) -> (r: bool)
        ensures
            r == self.stale(id),
    {
        id < self.floor
    }

    /// Records a dispatched evaluation at the back of the queue. The caller
    /// issues ids in increasing order.
    pub fn push(&mut self, id: u64, context: C)
        requires
            !old(self).stale(id),
            forall|i: int| 0 <= i < old(self)@.len() ==> (#[trigger] old(self)@[i]).0 < id,
        ensures
            final(self)@ == old(self)@.push((id, context)),
            final(self).floor() == old(self).floor(),
    {
        proof {
            use_type_invariant(&*self);
        }
        let mut entries: VecDeque<(u64, C)> = VecDeque::new();
        core::mem::swap(&mut self.entries, &mut entries);
        entries.push_back((id, context));
        proof {
            let grown = entries@;
            assert forall|i: int, j: int| 0 <= i < j < grown.len() implies grown[i].0 < grown[j].0 by {
                if j < grown.len() - 1 {
                    assert(grown[i] == old(self)@[i] && grown[j] == old(self)@[j]);
                } else {
                    assert(grown[i] == old(self)@[i]);
                }
            }
            assert forall|i: int| 0 <= i < grown.len() implies (#[trigger] grown[i]).0 >= self.floor by {
                if i < grown.len() - 1 {
                    assert(grown[i] == old(self)@[i]);
                }
            }
        }
        core::mem::swap(&mut self.entries, &mut entries);
    }

    /// Whether an evaluation under `id` is pending.
    pub fn contains(&self, id: u64) -> (r: bool)
        ensures
            r == holds(self@, id),
    {
        let mut i: usize = 0;
        while i < self.entries.len()
            invariant
                0 <= i <= self.entries@.len(),
                forall|k: int| 0 <= k < i ==> (#[trigger] self.entries@[k]).0 != id,
            decreases self.entries@.len() - i,
        {
            if self.entries[i].0 == id {
                return true;
            }
            i += 1;
        }
        false
    }

    /// What is wrong with a result under `id`, if anything: see
    /// [`fault_of`]. The ledger is left as it is.
    pub fn fault(&self, id: u64) -> (r: Option<LedgerFault>)
        ensures
            r == fault_of(self@, id),
            r is None <==> holds(self@, id),
    {
        proof {
            use_type_invariant(self);
            lemma_older_are_in_front(self@, id);
            lemma_pop_after_retire(self@, id);
        }
        let mut i: usize = 0;
        while i < self.entries.len() && self.entries[i].0 < id
            invariant
                i <= self.entries@.len(),
                i <= older_count(self.entries@, id),
                forall|k: int| older_count(self.entries@, id) <= k < self.entries@.len() ==> (#[trigger] self.entries@[k]).0 >= id,
            decreases self.entries@.len() - i,
        {
            i += 1;
        }
        assert(i == older_count(self.entries@, id));
        if i == self.entries.len() {
            Some(LedgerFault::InvalidGenerationId)
        } else {
            assert(self.entries@.skip(i as int)[0] == self.entries@[i as int]);
            let found = self.entries[i].0;
            if found == id {
                None
            } else {
                Some(LedgerFault::MismatchInExecutionId { found })
            }
        }
    }

    /// Discards every entry that is strictly older than `id`, unopened, and
    /// returns how many there were. From now on results older than `id` are
    /// stale.
    pub fn retire_up_to(&mut self, id: u64) -> (discarded: usize)
        ensures
            final(self)@ == retained(old(self)@, id),
            final(self)@ == old(self)@.skip(discarded as int),
            discarded <= old(self)@.len(),
            final(self).floor() == if id > old(self).floor() { id } else { old(self).floor() },
    {
        proof {
            use_type_invariant(&*self);
        }
        let ghost before = self.entries@;
        let mut entries: VecDeque<(u64, C)> = VecDeque::new();
        core::mem::swap(&mut self.entries, &mut entries);
        assert(before.len() <= usize::MAX) by {
            assert(entries@.len() == entries.len());
        }
        let mut discarded: usize = 0;
        while entries.len() > 0 && entries[0].0 < id
            invariant
                discarded <= before.len(),
                before.len() <= usize::MAX,
                entries@ == before.skip(discarded as int),
                forall|i: int| 0 <= i < discarded ==> (#[trigger] before[i]).0 < id,
            decreases entries@.len(),
        {
            entries.pop_front();
            discarded += 1;
            assert(entries@ =~= before.skip(discarded as int));
        }
        proof {
            assert forall|i: int| discarded <= i < before.len() implies (#[trigger] before[i]).0 >= id by {
                assert(entries@[0] == before[discarded as int]);
                assert(entries@[i - discarded] == before[i]);
            }
            lemma_retained_is_suffix(before, id, discarded as int);
        }
        if id > self.floor {
            self.floor = id;
        }
        core::mem::swap(&mut self.entries, &mut entries);
        discarded
    }

    /// Removes the entry at the front, which was submitted under `id`, and
    /// returns what was recorded with it.
    pub fn pop_matching(&mut self, id: u64) -> (context: C)
        requires
            old(self)@.len() > 0,
            old(self)@[0].0 == id,
        ensures
            context == old(self)@[0].1,
            final(self)@ == old(self)@.drop_first(),
            final(self).floor() == old(self).floor(),
    {
        proof {
            use_type_invariant(&*self);
        }
        let mut entries: VecDeque<(u64, C)> = VecDeque::new();
        core::mem::swap(&mut self.entries, &mut entries);
        let front = entries.pop_front();
        assert(entries@ =~= old(self).entries@.drop_first());
        core::mem::swap(&mut self.entries, &mut entries);
        match front {
            Some(entry) => entry.1,
            None => vstd::pervasive::unreached(),
        }
    }
}

} // verus!
