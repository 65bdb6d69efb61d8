use vstd::prelude::*;
use crate::rewards::find_rank;
use crate::types::Rank;

verus! {

/// The owner-curated rank entries, looked up by item id.
#[derive(Clone, Debug, PartialEq, Eq)]
pub struct RankTable {
    pub entries: Vec<Rank>,
}

/// The table after a batch of upserts: the last entry of the batch for an
/// item wins; items that the batch does not name keep their entry.
pub open spec fn lookup_after(entries: Seq<Rank>, batch: Seq<Rank>, token_id: Seq<char>) -> Option<Rank>
    decreases batch.len(),
{
    if batch.len() == 0 {
        find_rank(entries, token_id)
    } else if batch.last().token_id@ == token_id {
        Some(batch.last())
    } else {
        lookup_after(entries, batch.drop_last(), token_id)
    }
}

proof fn lemma_find_rank_update(s: Seq<Rank>, k: int, r: Rank, token_id: Seq<char>)
    requires
        0 <= k < s.len(),
        s[k].token_id@ == r.token_id@,
        forall|j: int| 0 <= j < k ==> s[j].token_id@ != r.token_id@,
    ensures
        find_rank(s.update(k, r), token_id) == if token_id == r.token_id@ {
            Some(r)
        } else {
            find_rank(s, token_id)
        },
    decreases s.len(),
{
    let u = s.update(k, r);
    if k == 0 {
        assert(u.drop_first() =~= s.drop_first());
    } else {
        assert(u.drop_first() =~= s.drop_first().update(k - 1, r));
        lemma_find_rank_update(s.drop_first(), k - 1, r, token_id);
    }
}

proof fn lemma_find_rank_push(s: Seq<Rank>, r: Rank, token_id: Seq<char>)
    requires
        forall|j: int| 0 <= j < s.len() ==> s[j].token_id@ != r.token_id@,
    ensures
        find_rank(s.push(r), token_id) == if token_id == r.token_id@ {
            Some(r)
        } else {
            find_rank(s, token_id)
        },
    decreases s.len(),
{
    let u = s.push(r);
    if s.len() > 0 {
        assert(u.drop_first() =~= s.drop_first().push(r));
        lemma_find_rank_push(s.drop_first(), r, token_id);
    } else {
        assert(u.drop_first() =~= s);
    }
}

impl RankTable {
    /// The rank entry of an item, if any.
    pub open spec fn lookup_spec(&self, token_id: Seq<char>) -> Option<Rank> {
        find_rank(self.entries@, token_id)
    }

    /// An empty table.
    pub fn new() -> (r: RankTable)
        ensures
            r.entries@ == Seq::<Rank>::empty(),
            forall|t: Seq<char>| r.lookup_spec(t) is None,
    {
        RankTable { entries: Vec::new() }
    }

    /// The index of the entry that `lookup_spec` reports, if any.
    fn position(&self, token_id: &String) -> (r: Option<usize>)
        ensures
            match r {
                Some(k) => {
                    &&& k < self.entries@.len()
                    &&& self.entries@[k as int].token_id@ == token_id@
                    &&& forall|j: int| 0 <= j < k ==> self.entries@[j].token_id@ != token_id@
                    &&& self.lookup_spec(token_id@) == Some(self.entries@[k as int])
                },
                None => {
                    &&& forall|j: int| 0 <= j < self.entries@.len() ==> self.entries@[j].token_id@ != token_id@
                    &&& self.lookup_spec(token_id@) is None
                },
            },
    {
        let ghost s = self.entries@;
        let mut i: usize = 0;
        assert(s.subrange(0, s.len() as int) =~= s);
        while i < self.entries.len()
            invariant
                i <= s.len(),
                s == self.entries@,
                find_rank(s, token_id@) == find_rank(s.subrange(i as int, s.len() as int), token_id@),
                forall|j: int| 0 <= j < i ==> s[j].token_id@ != token_id@,
            decreases s.len() - i,
        {
            let ghost rest = s.subrange(i as int, s.len() as int);
            assert(rest[0] == s[i as int]);
            if self.entries[i].token_id == *token_id {
                return Some(i);
            }
            assert(rest.drop_first() =~= s.subrange(i + 1, s.len() as int));
            i = i + 1;
        }
        None
    }

    /// The rank entry of an item, if any.
    pub fn lookup(&self, token_id: &String) -> (r: Option<&Rank>)
        ensures
            match r {
                Some(e) => self.lookup_spec(token_id@) == Some(*e),
                None => self.lookup_spec(token_id@) is None,
            },
    {
        match self.position(token_id) {
            Some(k) => Some(&self.entries[k]),
            None => None,
        }
    }

    /// Sets the entry of `rank.token_id` to `rank`, replacing any earlier one
    /// wholesale; the entries of other items stay as they were.
    pub fn upsert(&mut self, rank: Rank)
        ensures
            forall|t: Seq<char>| #[trigger] final(self).lookup_spec(t) == if t == rank.token_id@ {
                Some(rank)
            } else {
                old(self).lookup_spec(t)
            },
    {
        let ghost s = self.entries@;
        let ghost r = rank;
        match self.position(&rank.token_id) {
            Some(k) => {
                self.entries.set(k, rank);
                assert forall|t: Seq<char>| #[trigger] self.lookup_spec(t) == if t == r.token_id@ {
                    Some(r)
                } else {
                    find_rank(s, t)
                } by {
                    lemma_find_rank_update(s, k as int, r, t);
                }
            },
            None => {
                self.entries.push(rank);
                assert forall|t: Seq<char>| #[trigger] self.lookup_spec(t) == if t == r.token_id@ {
                    Some(r)
                } else {
                    find_rank(s, t)
                } by {
                    lemma_find_rank_push(s, r, t);
                }
            },
        }
    }

    /// Upserts each entry of `batch` in order.
    pub fn upsert_all(&mut self, batch: Vec<Rank>)
        ensures
            forall|t: Seq<char>| #[trigger] final(self).lookup_spec(t) == lookup_after(old(self).entries@, batch@, t),
    {
        let ghost s = self.entries@;
        let ghost b = batch@;
        let mut batch = batch;
        let mut i: usize = 0;
        let n = batch.len();
        while batch.len() > 0
            invariant
                batch@ == b.subrange(i as int, b.len() as int),
                i <= b.len(),
                n == b.len(),
                forall|t: Seq<char>| #[trigger] self.lookup_spec(t) == lookup_after(s, b.subrange(0, i as int), t),
            decreases batch@.len(),
        {
            let rank = batch.remove(0);
            let ghost before = *self;
            let ghost r = rank;
            assert(r == b[i as int]);
            self.upsert(rank);
            assert forall|t: Seq<char>| #[trigger] self.lookup_spec(t) == lookup_after(s, b.subrange(0, i + 1), t) by {
                assert(b.subrange(0, i + 1).drop_last() =~= b.subrange(0, i as int));
                assert(before.lookup_spec(t) == lookup_after(s, b.subrange(0, i as int), t));
            }
            assert(batch@ =~= b.subrange(i + 1, b.len() as int));
            i = i + 1;
        }
        assert(b.subrange(0, i as int) =~= b);
    }
}

} // verus!
