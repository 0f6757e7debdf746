use vstd::prelude::*;

use std::collections::VecDeque;

use crate::entry::{entry_size, result_view, Entry, EntryView};
use crate::error::DecoderError;
use crate::static_table::{get_static, static_entry};

verus! {

/// Sum of the sizes of the entries of `s`.
pub open spec fn sum_sizes(s: Seq<EntryView>) -> nat
    decreases s.len(),
{
    if s.len() == 0 {
        0
    } else {
        sum_sizes(s.drop_last()) + entry_size(s.last())
    }
}

/// What is left of `s` (newest first) once its oldest entries have been
/// dropped until the sizes of the rest sum to at most `limit`.
pub open spec fn evict(s: Seq<EntryView>, limit: nat) -> Seq<EntryView>
    decreases s.len(),
{
    if s.len() == 0 || sum_sizes(s) <= limit {
        s
    } else {
        evict(s.drop_last(), limit)
    }
}

/// The entries after `e` is inserted into a table of capacity `max` that
/// held `s`: an entry larger than the capacity empties the table and is not
/// kept; otherwise old entries make room and `e` comes first.
pub open spec fn inserted(s: Seq<EntryView>, max: nat, e: EntryView) -> Seq<EntryView> {
    if entry_size(e) > max {
        Seq::empty()
    } else {
        seq![e] + evict(s, (max - entry_size(e)) as nat)
    }
}

/// The entry at index `k` of the space in which the static table (1 to 61)
/// is followed by the dynamic entries `s`, newest first.
pub open spec fn lookup(s: Seq<EntryView>, k: int) -> Result<EntryView, DecoderError> {
    if k <= 0 {
        Err(DecoderError::InvalidTableIndex)
    } else if k <= 61 {
        Ok(static_entry(k))
    } else if k - 62 < s.len() {
        Ok(s[k - 62])
    } else {
        Err(DecoderError::InvalidTableIndex)
    }
}

pub proof fn lemma_sum_prepend(e: EntryView, s: Seq<EntryView>)
    ensures
        sum_sizes(seq![e] + s) == entry_size(e) + sum_sizes(s),
    decreases s.len(),
{
    if s.len() > 0 {
        assert((seq![e] + s).drop_last() =~= seq![e] + s.drop_last());
        lemma_sum_prepend(e, s.drop_last());
    } else {
        assert((seq![e] + s).drop_last() =~= s);
    }
}

/// Eviction keeps the newest entries, in their order, and leaves at most
/// `limit`.
pub proof fn lemma_evict_prefix(s: Seq<EntryView>, limit: nat)
    ensures
        evict(s, limit).len() <= s.len(),
        evict(s, limit) == s.subrange(0, evict(s, limit).len() as int),
        sum_sizes(evict(s, limit)) <= limit,
    decreases s.len(),
{
    if s.len() == 0 {
        assert(s.subrange(0, 0) =~= s);
    } else if sum_sizes(s) <= limit {
        assert(s.subrange(0, s.len() as int) =~= s);
    } else {
        lemma_evict_prefix(s.drop_last(), limit);
        let r = evict(s.drop_last(), limit);
        assert(r =~= s.subrange(0, r.len() as int));
    }
}

/// With no room at all, eviction leaves nothing: every entry has a
/// positive size, so a capacity of 0 empties the table.
pub proof fn lemma_evict_zero(s: Seq<EntryView>)
    ensures
        evict(s, 0).len() == 0,
    decreases s.len(),
{
    if s.len() > 0 {
        assert(sum_sizes(s) > 0);
        lemma_evict_zero(s.drop_last());
    }
}

/// Indexes 1 to 61 name the static table; right after an entry that fits is
/// inserted, index 62 names it.
pub proof fn lemma_lookup_static_and_newest(s: Seq<EntryView>, max: nat, e: EntryView, k: int)
    requires
        1 <= k <= 61,
        entry_size(e) <= max,
    ensures
        lookup(s, k) == Ok::<EntryView, DecoderError>(static_entry(k)),
        lookup(inserted(s, max, e), 62) == Ok::<EntryView, DecoderError>(e),
{
}

/// Index 0 and the first index past the dynamic entries name nothing.
pub proof fn lemma_lookup_out_of_range(s: Seq<EntryView>)
    ensures
        lookup(s, 0) == Err::<EntryView, DecoderError>(DecoderError::InvalidTableIndex),
        lookup(s, 61 + s.len() as int + 1) == Err::<EntryView, DecoderError>(
            DecoderError::InvalidTableIndex,
        ),
{
}

/// Inserting an entry that fits keeps the table within its capacity, puts the
/// entry first, and keeps the entries that stay in their order, newest
/// first, having dropped only the oldest.
pub proof fn lemma_insert_keeps_order(s: Seq<EntryView>, max: nat, e: EntryView)
    requires
        entry_size(e) <= max,
    ensures
        sum_sizes(inserted(s, max, e)) <= max,
        exists|n: int|
            0 <= n <= s.len() && #[trigger] inserted(s, max, e) == seq![e] + s.subrange(0, n),
{
    let limit = (max - entry_size(e)) as nat;
    lemma_evict_prefix(s, limit);
    lemma_sum_prepend(e, evict(s, limit));
    let n = evict(s, limit).len() as int;
    assert(inserted(s, max, e) == seq![e] + s.subrange(0, n));
}

/// Inserting an entry larger than the capacity empties the table and keeps
/// nothing of the entry.
pub proof fn lemma_insert_oversized_clears(s: Seq<EntryView>, max: nat, e: EntryView)
    requires
        entry_size(e) > max,
    ensures
        inserted(s, max, e).len() == 0,
{
}

/// The dynamic table: a bounded list of entries, newest first.
pub struct Table {
    entries: VecDeque<Entry>,
    size: usize,
    max_size: usize,
}

impl View for Table {
    type V = Seq<EntryView>;

    /// The entries, newest first.
    closed spec fn view(&self) -> Seq<EntryView> {
        self.entries@.map_values(|e: Entry| e@)
    }
}

impl Table {
    /// The size that the table accounts for its entries.
    pub closed spec fn spec_size(&self) -> nat {
        self.size as nat
    }

    /// The capacity of the table.
    pub closed spec fn spec_max_size(&self) -> nat {
        self.max_size as nat
    }

    /// The accounted size is the sum of the entries' sizes and within the
    /// capacity.
    pub open spec fn wf(&self) -> bool {
        &&& self.spec_size() == sum_sizes(self@)
        &&& self.spec_size() <= self.spec_max_size()
    }

    /// An empty table of capacity `max_size`.
    pub fn new(max_size: usize) -> (r: Table)
        ensures
            r.wf(),
            r@ == Seq::<EntryView>::empty(),
            r.spec_max_size() == max_size,
    {
        let r = Table { entries: VecDeque::new(), size: 0, max_size };
        assert(r@ =~= Seq::<EntryView>::empty());
        r
    }

    pub fn max_size(&self) -> (r: usize)
        ensures
            r == self.spec_max_size(),
    {
        self.max_size
    }

    pub fn size(&self) -> (r: usize)
        ensures
            r == self.spec_size(),
    {
        self.size
    }

    /// The entry at `index` of the merged index space: 1 to 61 for the static
    /// table, then the dynamic entries, newest first.
    pub fn get(&self, index: usize) -> (r: Result<Entry, DecoderError>)
        ensures
            result_view(r) == lookup(self@, index as int),
    {
        if index == 0 {
            return Err(DecoderError::InvalidTableIndex);
        }
        if index <= 61 {
            return Ok(get_static(index));
        }
        if index - 62 < self.entries.len() {
            let e = self.entries[index - 62].duplicate();
            Ok(e)
        } else {
            Err(DecoderError::InvalidTableIndex)
        }
    }

    /// Drops the oldest entries until the accounted size is at most `limit`.
    fn evict_to(&mut self, limit: usize)
        requires
            old(self).spec_size() == sum_sizes(old(self)@),
        ensures
            final(self)@ == evict(old(self)@, limit as nat),
            final(self).spec_size() == sum_sizes(final(self)@),
            final(self).spec_size() <= limit,
            final(self).spec_size() <= old(self).spec_size(),
            final(self).spec_max_size() == old(self).spec_max_size(),
    {
        while self.size > limit
            invariant
                self.size == sum_sizes(self@),
                self.size <= old(self).size,
                self.max_size == old(self).max_size,
                evict(self@, limit as nat) == evict(old(self)@, limit as nat),
            decreases self.entries@.len(),
        {
            let ghost before = self@;
            assert(before.len() > 0);
            let last = self.entries.pop_back();
            match last {
                Some(e) => {
                    assert(self@ =~= before.drop_last());
                    assert(e@ == before.last());
                    let len = e.size();
                    match len {
                        Some(n) => {
                            self.size = self.size - n;
                        },
                        None => {
                            assert(false);
                        },
                    }
                },
                None => {
                    assert(false);
                },
            }
        }
    }

    /// Makes room for an entry of size `size` beside the ones kept.
    fn reserve(&mut self, size: usize)
        requires
            old(self).wf(),
            size <= old(self).spec_max_size(),
        ensures
            final(self)@ == evict(old(self)@, (old(self).spec_max_size() - size) as nat),
            final(self).spec_size() == sum_sizes(final(self)@),
            final(self).spec_size() + size <= final(self).spec_max_size(),
            final(self).spec_max_size() == old(self).spec_max_size(),
    {
        let limit = self.max_size - size;
        self.evict_to(limit);
    }

    /// Brings the accounted size back within the capacity.
    fn consolidate(&mut self)
        requires
            old(self).spec_size() == sum_sizes(old(self)@),
        ensures
            final(self)@ == evict(old(self)@, old(self).spec_max_size()),
            final(self).wf(),
            final(self).spec_max_size() == old(self).spec_max_size(),
    {
        let limit = self.max_size;
        self.evict_to(limit);
    }

    /// Inserts `entry` as the newest entry, dropping old ones to make room;
    /// an entry larger than the capacity empties the table instead.
    pub fn insert(&mut self, entry: Entry)
        requires
            old(self).wf(),
        ensures
            final(self).wf(),
            final(self)@ == inserted(old(self)@, old(self).spec_max_size(), entry@),
            final(self).spec_max_size() == old(self).spec_max_size(),
    {
        let len = entry.size();
        let fits = match len {
            Some(n) => n <= self.max_size,
            None => false,
        };
        if fits {
            let n = len.unwrap();
            self.reserve(n);
            let ghost kept = self@;
            self.size = self.size + n;
            self.entries.push_front(entry);
            proof {
                assert(self@ =~= seq![entry@] + kept);
                lemma_sum_prepend(entry@, kept);
            }
        } else {
            self.entries.clear();
            self.size = 0;
            assert(self@ =~= Seq::<EntryView>::empty());
        }
    }

    /// Sets the capacity to `size`, dropping the oldest entries that no
    /// longer fit.
    pub fn set_max_size(&mut self, size: usize)
        requires
            old(self).wf(),
        ensures
            final(self).wf(),
            final(self)@ == evict(old(self)@, size as nat),
            final(self).spec_max_size() == size,
    {
        self.max_size = size;
        self.consolidate();
    }
}

} // verus!
