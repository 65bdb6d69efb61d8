use vstd::prelude::*;
use crate::types::History;

verus! {

/// An append-only, order-preserving log, read by count and by page.
#[derive(Clone, Debug, PartialEq, Eq)]
pub struct HistoryLog<T> {
    pub entries: Vec<T>,
}

/// The first index of a page, clamped to the log's length.
pub open spec fn page_start(len: int, start_page: u32, page_size: u32) -> int {
    if start_page as int * page_size as int <= len {
        start_page as int * page_size as int
    } else {
        len
    }
}

/// One past the last index of a page, clamped to the log's length.
pub open spec fn page_end(len: int, start_page: u32, page_size: u32) -> int {
    if start_page as int * page_size as int + page_size as int <= len {
        start_page as int * page_size as int + page_size as int
    } else {
        len
    }
}

/// The entries of page `start_page` (counted from zero) of `page_size`
/// entries each; a page past the end is empty.
pub open spec fn page_of<T>(s: Seq<T>, start_page: u32, page_size: u32) -> Seq<T> {
    s.subrange(
        page_start(s.len() as int, start_page, page_size),
        page_end(s.len() as int, start_page, page_size),
    )
}

impl<T> HistoryLog<T> {
    /// The log's length fits the `u32` that `count` reports.
    pub open spec fn wf(&self) -> bool {
        self.entries@.len() <= u32::MAX
    }

    /// An empty log.
    pub fn new() -> (r: HistoryLog<T>)
        ensures
            r.entries@ == Seq::<T>::empty(),
            r.wf(),
    {
        HistoryLog { entries: Vec::new() }
    }

    /// Appends one entry at the end.
    pub fn push(&mut self, entry: T)
        requires
            old(self).entries@.len() < u32::MAX,
        ensures
            final(self).entries@ == old(self).entries@.push(entry),
            final(self).wf(),
    {
        self.entries.push(entry);
    }

    /// How many entries the log holds.
    pub fn count(&self) -> (r: u32)
        requires
            self.wf(),
        ensures
            r == self.entries@.len(),
    {
        self.entries.len() as u32
    }

    /// Page `start_page` of `page_size` entries, in the order of appending.
    pub fn page(&self, start_page: u32, page_size: u32) -> (r: &[T])
        ensures
            r@ == page_of(self.entries@, start_page, page_size),
    {
        let len = self.entries.len();
        assert(start_page as int * page_size as int <= 0xffff_ffff * 0xffff_ffff) by (nonlinear_arith)
            requires
                start_page <= 0xffff_ffffu32,
                page_size <= 0xffff_ffffu32,
        ;
        let first: u64 = start_page as u64 * page_size as u64;
        let last: u64 = first + page_size as u64;
        let lo: usize = if first <= len as u64 { first as usize } else { len };
        let hi: usize = if last <= len as u64 { last as usize } else { len };
        vstd::slice::slice_subrange(self.entries.as_slice(), lo, hi)
    }
}

/// A page past the end of a log is empty.
pub proof fn lemma_page_past_end_is_empty<T>(s: Seq<T>, start_page: u32, page_size: u32)
    requires
        start_page as int * page_size as int >= s.len(),
    ensures
        page_of(s, start_page, page_size).len() == 0,
{
}

/// Page `p` of size `n` holds the entries from `p * n` up to `p * n + n` of the append order.
pub proof fn lemma_page_entries<T>(s: Seq<T>, start_page: u32, page_size: u32, k: int)
    requires
        0 <= k < page_size,
        start_page as int * page_size as int + k < s.len(),
    ensures
        page_of(s, start_page, page_size).len() > k,
        page_of(s, start_page, page_size)[k] == s[start_page as int * page_size as int + k],
{
}

/// The claim history of one submitter.
#[derive(Clone, Debug, PartialEq, Eq)]
pub struct UserLog {
    pub owner: String,
    pub log: HistoryLog<History>,
}

/// The first partition that belongs to the given submitter.
pub open spec fn find_user(s: Seq<UserLog>, owner: Seq<char>) -> Option<UserLog>
    decreases s.len(),
{
    if s.len() == 0 {
        None
    } else if s[0].owner@ == owner {
        Some(s[0])
    } else {
        find_user(s.drop_first(), owner)
    }
}

proof fn lemma_find_user_update(s: Seq<UserLog>, k: int, u: UserLog, owner: Seq<char>)
    requires
        0 <= k < s.len(),
        s[k].owner@ == u.owner@,
        forall|j: int| 0 <= j < k ==> s[j].owner@ != u.owner@,
    ensures
        find_user(s.update(k, u), owner) == if owner == u.owner@ {
            Some(u)
        } else {
            find_user(s, owner)
        },
    decreases s.len(),
{
    let v = s.update(k, u);
    if k == 0 {
        assert(v.drop_first() =~= s.drop_first());
    } else {
        assert(v.drop_first() =~= s.drop_first().update(k - 1, u));
        lemma_find_user_update(s.drop_first(), k - 1, u, owner);
    }
}

proof fn lemma_find_user_push(s: Seq<UserLog>, u: UserLog, owner: Seq<char>)
    requires
        forall|j: int| 0 <= j < s.len() ==> s[j].owner@ != u.owner@,
    ensures
        find_user(s.push(u), owner) == if owner == u.owner@ {
            Some(u)
        } else {
            find_user(s, owner)
        },
    decreases s.len(),
{
    let v = s.push(u);
    if s.len() > 0 {
        assert(v.drop_first() =~= s.drop_first().push(u));
        lemma_find_user_push(s.drop_first(), u, owner);
    } else {
        assert(v.drop_first() =~= s);
    }
}

/// The claim histories of all submitters, one partition each.
#[derive(Clone, Debug, PartialEq, Eq)]
pub struct UserHistories {
    pub parts: Vec<UserLog>,
}

impl UserHistories {
    /// The claim history of one submitter; empty for one who never claimed.
    pub open spec fn entries_of(&self, owner: Seq<char>) -> Seq<History> {
        match find_user(self.parts@, owner) {
            Some(u) => u.log.entries@,
            None => Seq::empty(),
        }
    }

    /// Every partition's length fits a `u32`.
    pub open spec fn wf(&self) -> bool {
        forall|i: int| 0 <= i < self.parts@.len() ==> (#[trigger] self.parts@[i]).log.wf()
    }

    /// No claim history at all.
    pub fn new() -> (r: UserHistories)
        ensures
            r.wf(),
            forall|o: Seq<char>| #[trigger] r.entries_of(o) == Seq::<History>::empty(),
    {
        UserHistories { parts: Vec::new() }
    }

    fn position(&self, owner: &String) -> (r: Option<usize>)
        ensures
            match r {
                Some(k) => {
                    &&& k < self.parts@.len()
                    &&& self.parts@[k as int].owner@ == owner@
                    &&& forall|j: int| 0 <= j < k ==> self.parts@[j].owner@ != owner@
                    &&& find_user(self.parts@, owner@) == Some(self.parts@[k as int])
                },
                None => {
                    &&& forall|j: int| 0 <= j < self.parts@.len() ==> self.parts@[j].owner@ != owner@
                    &&& find_user(self.parts@, owner@) is None
                },
            },
    {
        let ghost s = self.parts@;
        let mut i: usize = 0;
        assert(s.subrange(0, s.len() as int) =~= s);
        while i < self.parts.len()
            invariant
                i <= s.len(),
                s == self.parts@,
                find_user(s, owner@) == find_user(s.subrange(i as int, s.len() as int), owner@),
                forall|j: int| 0 <= j < i ==> s[j].owner@ != owner@,
            decreases s.len() - i,
        {
            let ghost rest = s.subrange(i as int, s.len() as int);
            assert(rest[0] == s[i as int]);
            if self.parts[i].owner == *owner {
                return Some(i);
            }
            assert(rest.drop_first() =~= s.subrange(i + 1, s.len() as int));
            i = i + 1;
        }
        None
    }

    /// How many claims the submitter has made.
    pub fn count(&self, owner: &String) -> (r: u32)
        requires
            self.wf(),
        ensures
            r == self.entries_of(owner@).len(),
    {
        match self.position(owner) {
            Some(k) => self.parts[k].log.count(),
            None => 0,
        }
    }

    /// One page of the submitter's claim history.
    pub fn page(&self, owner: &String, start_page: u32, page_size: u32) -> (r: &[History])
        ensures
            r@ == page_of(self.entries_of(owner@), start_page, page_size),
    {
        match self.position(owner) {
            Some(k) => self.parts[k].log.page(start_page, page_size),
            None => {
                let empty: &[History] = &[];
                assert(empty@ =~= page_of(Seq::<History>::empty(), start_page, page_size));
                empty
            },
        }
    }

    /// Appends `new` to the submitter's claim history; the others stay as they were.
    pub fn append_all(&mut self, owner: &String, new: Vec<History>)
        requires
            old(self).wf(),
            old(self).entries_of(owner@).len() + new@.len() <= u32::MAX,
        ensures
            final(self).wf(),
            final(self).entries_of(owner@) == old(self).entries_of(owner@) + new@,
            forall|o: Seq<char>| o != owner@ ==> #[trigger] final(self).entries_of(o) == old(self).entries_of(o),
    {
        let ghost s = self.parts@;
        let ghost extra = new@;
        let pos = self.position(owner);
        let mut log = match pos {
            Some(k) => self.parts.remove(k).log,
            None => HistoryLog::new(),
        };
        let ghost before = log.entries@;
        assert(before == old(self).entries_of(owner@));
        let mut new = new;
        let mut i: usize = 0;
        while new.len() > 0
            invariant
                new@ == extra.subrange(i as int, extra.len() as int),
                i <= extra.len(),
                log.entries@ == before + extra.subrange(0, i as int),
                before.len() + extra.len() <= u32::MAX,
            decreases new@.len(),
        {
            let h = new.remove(0);
            assert(h == extra[i as int]);
            log.push(h);
            assert(log.entries@ =~= before + extra.subrange(0, i + 1));
            assert(new@ =~= extra.subrange(i + 1, extra.len() as int));
            i = i + 1;
        }
        assert(extra.subrange(0, i as int) =~= extra);
        let part = UserLog { owner: owner.clone(), log };
        let ghost u = part;
        match pos {
            Some(k) => {
                self.parts.insert(k, part);
                assert(self.parts@ =~= s.update(k as int, u));
                assert forall|o: Seq<char>| #[trigger] find_user(self.parts@, o) == if o == u.owner@ {
                    Some(u)
                } else {
                    find_user(s, o)
                } by {
                    lemma_find_user_update(s, k as int, u, o);
                }
            },
            None => {
                self.parts.push(part);
                assert forall|o: Seq<char>| #[trigger] find_user(self.parts@, o) == if o == u.owner@ {
                    Some(u)
                } else {
                    find_user(s, o)
                } by {
                    lemma_find_user_push(s, u, o);
                }
            },
        }
        assert forall|j: int| 0 <= j < self.parts@.len() implies (#[trigger] self.parts@[j]).log.wf() by {
            if self.parts@[j] != u {
                assert(s.contains(self.parts@[j]));
            }
        }
    }
}

} // verus!
