//! Per-epoch aggregate stake totals: the stake history sysvar.

use vstd::prelude::*;

verus! {

/// Aggregate totals over every stake in the system for one epoch.
#[derive(Clone, Copy, Debug, PartialEq, Eq, Structural, Hash)]
pub struct StakeHistoryEntry {
    /// Sum of effective stake in this epoch.
    pub effective: u64,
    /// Sum of stake still warming in this epoch.
    pub activating: u64,
    /// Sum of stake still cooling in this epoch.
    pub deactivating: u64,
}

impl Default for StakeHistoryEntry {
    fn default() -> (r: StakeHistoryEntry)
        ensures
            r == (StakeHistoryEntry { effective: 0u64, activating: 0u64, deactivating: 0u64 }),
    {
        StakeHistoryEntry { effective: 0, activating: 0, deactivating: 0 }
    }
}

/// First entry in `s` keyed by `epoch`, if any.
pub open spec fn seq_lookup(s: Seq<(u64, StakeHistoryEntry)>, epoch: u64) -> Option<StakeHistoryEntry>
    decreases s.len(),
{
    if s.len() == 0 {
        None
    } else if s[0].0 == epoch {
        Some(s[0].1)
    } else {
        seq_lookup(s.drop_first(), epoch)
    }
}

/// An ordered mapping from epoch to that epoch's aggregate entry.
///
/// Entries are kept sorted by epoch with no duplicate keys; the abstract
/// value is the finite map from epoch to entry.
#[derive(Clone, Debug, PartialEq, Eq)]
pub struct StakeHistory {
    entries: Vec<(u64, StakeHistoryEntry)>,
}

impl StakeHistory {
    /// Representation invariant: epochs strictly increase.
    pub closed spec fn wf(self) -> bool {
        forall|i: int, j: int|
            0 <= i < j < self.entries@.len() ==> self.entries@[i].0 < self.entries@[j].0
    }

    /// The abstract map from epoch to entry.
    pub closed spec fn view(self) -> Map<u64, StakeHistoryEntry> {
        Map::new(
            |epoch: u64| seq_lookup(self.entries@, epoch) is Some,
            |epoch: u64| seq_lookup(self.entries@, epoch)->Some_0,
        )
    }

    /// An empty history.
    pub fn new() -> (r: StakeHistory)
        ensures
            r.wf(),
            r@ == Map::<u64, StakeHistoryEntry>::empty(),
    {
        let r = StakeHistory { entries: Vec::new() };
        proof {
            assert(r@ =~= Map::<u64, StakeHistoryEntry>::empty());
        }
        r
    }

    /// Point lookup.
    pub fn get(&self, epoch: u64) -> (r: Option<StakeHistoryEntry>)
        ensures
            r == if self@.contains_key(epoch) {
                Some(self@[epoch])
            } else {
                None::<StakeHistoryEntry>
            },
    {
        let n = self.entries.len();
        let mut i: usize = 0;
        proof {
            assert(self.entries@.skip(0) =~= self.entries@);
        }
        while i < n
            invariant
                0 <= i <= n,
                n == self.entries@.len(),
                seq_lookup(self.entries@, epoch) == seq_lookup(self.entries@.skip(i as int), epoch),
            decreases n - i,
        {
            let (e, entry) = self.entries[i];
            proof {
                assert(self.entries@.skip(i as int)[0] == self.entries@[i as int]);
                assert(self.entries@.skip(i as int).drop_first() =~= self.entries@.skip(i as int + 1));
            }
            if e == epoch {
                return Some(entry);
            }
            i = i + 1;
        }
        proof {
            assert(self.entries@.skip(n as int) =~= Seq::<(u64, StakeHistoryEntry)>::empty());
        }
        None
    }

    /// Insert or overwrite the entry for `epoch`.
    pub fn add(&mut self, epoch: u64, entry: StakeHistoryEntry)
        requires
            old(self).wf(),
        ensures
            final(self).wf(),
            final(self)@ == old(self)@.insert(epoch, entry),
    {
        let n = self.entries.len();
        let mut i: usize = 0;
        // find the first index whose key is >= epoch
        while i < n && self.entries[i].0 < epoch
            invariant
                0 <= i <= n,
                n == self.entries@.len(),
                forall|k: int| 0 <= k < i ==> self.entries@[k].0 < epoch,
            decreases n - i,
        {
            i = i + 1;
        }
        let ghost pre = self.entries@;
        proof {
            assert(i == n || pre[i as int].0 >= epoch);
        }
        if i < n && self.entries[i].0 == epoch {
            self.entries[i] = (epoch, entry);
            proof {
                lemma_lookup_at_sorted(pre, i as int, epoch);
                lemma_lookup_at_sorted(self.entries@, i as int, epoch);
                assert forall|e: u64| e != epoch implies
                    seq_lookup(self.entries@, e) == seq_lookup(pre, e) by {
                    lemma_lookup_skips_update(pre, self.entries@, i as int, e);
                }
                assert(self@ =~= old(self)@.insert(epoch, entry));
            }
        } else {
            self.entries.insert(i, (epoch, entry));
            proof {
                assert forall|a: int, b: int| 0 <= a < b < self.entries@.len() implies
                    self.entries@[a].0 < self.entries@[b].0 by {
                    if b < i {
                        assert(pre[a].0 < pre[b].0);
                    } else if a > i {
                        assert(pre[a - 1].0 < pre[b - 1].0);
                    } else if b == i {
                        assert(self.entries@[a] == pre[a]);
                    } else if a == i {
                        assert(self.entries@[b] == pre[b - 1]);
                        assert(pre[b - 1].0 >= epoch);
                        assert(pre[b - 1].0 != epoch);
                    } else {
                        assert(a < i < b);
                        assert(self.entries@[a] == pre[a]);
                        assert(self.entries@[b] == pre[b - 1]);
                        assert(pre[a].0 < epoch);
                        if (i as int) < pre.len() {
                            assert(pre[i as int].0 >= epoch);
                            assert(pre[i as int].0 <= pre[b - 1].0);
                        }
                    }
                }
                lemma_lookup_at_sorted(self.entries@, i as int, epoch);
                assert forall|e: u64| e != epoch implies
                    seq_lookup(self.entries@, e) == seq_lookup(pre, e) by {
                    lemma_lookup_skips_insert(pre, self.entries@, i as int, e);
                }
                assert(self@ =~= old(self)@.insert(epoch, entry));
            }
        }
    }
}

impl Default for StakeHistory {
    fn default() -> (r: StakeHistory)
        ensures
            r.wf(),
            r@ == Map::<u64, StakeHistoryEntry>::empty(),
    {
        StakeHistory::new()
    }
}

/// If position `i` holds key `epoch` and everything before it holds smaller
/// keys, the lookup lands on position `i`.
proof fn lemma_lookup_at_sorted(s: Seq<(u64, StakeHistoryEntry)>, i: int, epoch: u64)
    requires
        0 <= i < s.len(),
        s[i].0 == epoch,
        forall|k: int| 0 <= k < i ==> s[k].0 < epoch,
    ensures
        seq_lookup(s, epoch) == Some(s[i].1),
    decreases i,
{
    if i == 0 {
    } else {
        assert(s.drop_first()[i - 1] == s[i]);
        assert forall|k: int| 0 <= k < i - 1 implies s.drop_first()[k].0 < epoch by {
            assert(s.drop_first()[k] == s[k + 1]);
        }
        lemma_lookup_at_sorted(s.drop_first(), i - 1, epoch);
    }
}

/// Replacing position `i` does not change lookups for other keys, provided
/// neither the old nor the new element at `i` carries the key.
proof fn lemma_lookup_skips_update(
    pre: Seq<(u64, StakeHistoryEntry)>,
    post: Seq<(u64, StakeHistoryEntry)>,
    i: int,
    e: u64,
)
    requires
        pre.len() == post.len(),
        0 <= i < pre.len(),
        forall|k: int| 0 <= k < pre.len() && k != i ==> post[k] == pre[k],
        pre[i].0 != e,
        post[i].0 != e,
    ensures
        seq_lookup(post, e) == seq_lookup(pre, e),
    decreases pre.len(),
{
    if pre.len() == 0 {
    } else if i == 0 {
        lemma_lookup_skips_update_tail(pre.drop_first(), post.drop_first(), e);
    } else {
        if pre[0].0 == e {
            assert(post[0] == pre[0]);
        } else {
            assert(post[0] == pre[0]);
            assert forall|k: int| 0 <= k < pre.drop_first().len() && k != i - 1 implies
                post.drop_first()[k] == pre.drop_first()[k] by {
                assert(post.drop_first()[k] == post[k + 1]);
                assert(pre.drop_first()[k] == pre[k + 1]);
            }
            assert(pre.drop_first()[i - 1] == pre[i]);
            assert(post.drop_first()[i - 1] == post[i]);
            lemma_lookup_skips_update(pre.drop_first(), post.drop_first(), i - 1, e);
        }
    }
}

/// Two equal sequences look up equally; spelled out because `drop_first`
/// produces fresh sequence values.
proof fn lemma_lookup_skips_update_tail(
    pre: Seq<(u64, StakeHistoryEntry)>,
    post: Seq<(u64, StakeHistoryEntry)>,
    e: u64,
)
    requires
        pre =~= post,
    ensures
        seq_lookup(post, e) == seq_lookup(pre, e),
{
    assert(pre == post);
}

/// Inserting at position `i` an element whose key is not `e` does not change
/// the lookup for `e`.
proof fn lemma_lookup_skips_insert(
    pre: Seq<(u64, StakeHistoryEntry)>,
    post: Seq<(u64, StakeHistoryEntry)>,
    i: int,
    e: u64,
)
    requires
        post.len() == pre.len() + 1,
        0 <= i <= pre.len(),
        forall|k: int| 0 <= k < i ==> post[k] == pre[k],
        forall|k: int| i < k < post.len() ==> post[k] == pre[k - 1],
        post[i].0 != e,
    ensures
        seq_lookup(post, e) == seq_lookup(pre, e),
    decreases pre.len(),
{
    if i == 0 {
        assert(post.drop_first() =~= pre);
        lemma_lookup_skips_update_tail(pre, post.drop_first(), e);
    } else {
        assert(post[0] == pre[0]);
        if pre[0].0 == e {
        } else {
            assert forall|k: int| 0 <= k < i - 1 implies
                post.drop_first()[k] == pre.drop_first()[k] by {
                assert(post.drop_first()[k] == post[k + 1]);
                assert(pre.drop_first()[k] == pre[k + 1]);
            }
            assert forall|k: int| i - 1 < k < post.drop_first().len() implies
                post.drop_first()[k] == pre.drop_first()[k - 1] by {
                assert(post.drop_first()[k] == post[k + 1]);
                assert(pre.drop_first()[k - 1] == pre[k]);
            }
            assert(post.drop_first()[i - 1] == post[i]);
            lemma_lookup_skips_insert(pre.drop_first(), post.drop_first(), i - 1, e);
        }
    }
}

} // verus!
