use vstd::prelude::*;

verus! {

/// The page size used when a query names none.
pub const DEFAULT_LIMIT: u32 = 10;

/// The largest page size a query can ask for.
pub const MAX_LIMIT: u32 = 30;

/// A record kept in a `History`: it carries the id under which it is stored.
pub trait Entry: Sized {
    spec fn entry_id(&self) -> u64;

    fn id(&self) -> (r: u64)
        ensures
            r == self.entry_id(),
    ;

    fn duplicate(&self) -> (r: Self)
        ensures
            r == *self,
    ;
}

/// The records are kept in ascending order of key, each key once.
pub open spec fn keys_sorted<E>(s: Seq<(u64, E)>) -> bool {
    forall|i: int, j: int| 0 <= i < j < s.len() ==> s[i].0 < s[j].0
}

/// The records are stored under the keys 1, 2, 3, ... in this order, with no gap,
/// and each carries its key as its id.
pub open spec fn numbered<E: Entry>(s: Seq<(u64, E)>) -> bool {
    forall|i: int| 0 <= i < s.len() ==> (#[trigger] s[i]).0 == i + 1 && s[i].1.entry_id() == i + 1
}

/// The number of leading records whose key is at most `x`; in a sorted history,
/// the index of the first record whose key is greater than `x`.
pub open spec fn count_upto<E>(s: Seq<(u64, E)>, x: int) -> nat
    decreases s.len(),
{
    if s.len() == 0 || s[0].0 > x {
        0
    } else {
        1 + count_upto(s.drop_first(), x)
    }
}

/// `s` with the record `v` stored under `k`: the record already under `k`
/// replaced, or a new one put in its place in key order.
pub open spec fn insert_record<E>(s: Seq<(u64, E)>, k: u64, v: E) -> Seq<(u64, E)> {
    let c = count_upto(s, k - 1);
    if c < s.len() && s[c as int].0 == k {
        s.update(c as int, (k, v))
    } else {
        s.insert(c as int, (k, v))
    }
}

/// Whether a record under this key comes after the (exclusive) start of a page.
pub open spec fn id_after(id: u64, start_after: Option<u64>) -> bool {
    match start_after {
        None => true,
        Some(s) => id > s,
    }
}

/// The largest key that does not come after `start_after`.
pub open spec fn start_bound(start_after: Option<u64>) -> int {
    match start_after {
        None => -1,
        Some(s) => s as int,
    }
}

pub open spec fn after_pred<E>(start_after: Option<u64>) -> spec_fn((u64, E)) -> bool {
    |e: (u64, E)| id_after(e.0, start_after)
}

/// The records whose key comes after `start_after`, in the order they are stored.
pub open spec fn entries_after<E>(s: Seq<(u64, E)>, start_after: Option<u64>) -> Seq<(u64, E)> {
    s.filter(after_pred(start_after))
}

/// At most `limit` of the records after `start_after`, the first ones.
pub open spec fn page_records<E>(s: Seq<(u64, E)>, start_after: Option<u64>, limit: nat) -> Seq<
    (u64, E),
> {
    let after = entries_after(s, start_after);
    if limit < after.len() {
        after.take(limit as int)
    } else {
        after
    }
}

/// The records of `page_records`, without their keys.
pub open spec fn page_of<E>(s: Seq<(u64, E)>, start_after: Option<u64>, limit: nat) -> Seq<E> {
    page_records(s, start_after, limit).map_values(|e: (u64, E)| e.1)
}

/// The page size that a query asking for `limit` gets: the default when it names
/// none, and never more than the maximum.
pub open spec fn effective_limit(limit: Option<u32>) -> nat {
    let l = match limit {
        Some(l) => l,
        None => DEFAULT_LIMIT,
    };
    if l < MAX_LIMIT {
        l as nat
    } else {
        MAX_LIMIT as nat
    }
}

/// Page size of a history query: `limit`, or the default, capped at the maximum.
pub fn page_limit(limit: Option<u32>) -> (r: usize)
    ensures
        r == effective_limit(limit),
{
    let l = match limit {
        Some(l) => l,
        None => DEFAULT_LIMIT,
    };
    if l < MAX_LIMIT {
        l as usize
    } else {
        MAX_LIMIT as usize
    }
}


/// In a sorted history, the records before `count_upto(s, x)` have keys at most
/// `x` and the ones from there on have greater keys.
pub proof fn lemma_count_upto<E>(s: Seq<(u64, E)>, x: int)
    requires
        keys_sorted(s),
    ensures
        count_upto(s, x) <= s.len(),
        forall|i: int| 0 <= i < count_upto(s, x) ==> (#[trigger] s[i]).0 <= x,
        forall|i: int| count_upto(s, x) <= i < s.len() ==> (#[trigger] s[i]).0 > x,
    decreases s.len(),
{
    if s.len() == 0 {
    } else if s[0].0 > x {
        assert forall|i: int| 0 <= i < s.len() implies (#[trigger] s[i]).0 > x by {
            if i > 0 {
                assert(s[0].0 < s[i].0);
            }
        }
    } else {
        let t = s.drop_first();
        assert(keys_sorted(t)) by {
            assert forall|i: int, j: int| 0 <= i < j < t.len() implies t[i].0 < t[j].0 by {
                assert(t[i] == s[i + 1] && t[j] == s[j + 1]);
            }
        }
        lemma_count_upto(t, x);
        assert forall|i: int| 0 <= i < count_upto(s, x) implies (#[trigger] s[i]).0 <= x by {
            if i > 0 {
                assert(s[i] == t[i - 1]);
            }
        }
        assert forall|i: int| count_upto(s, x) <= i < s.len() implies (#[trigger] s[i]).0 > x by {
            assert(s[i] == t[i - 1]);
        }
    }
}

/// In a sorted history, an index where keys at most `x` end is `count_upto(s, x)`.
pub proof fn lemma_count_upto_at<E>(s: Seq<(u64, E)>, x: int, i: int)
    requires
        keys_sorted(s),
        0 <= i <= s.len(),
        forall|j: int| 0 <= j < i ==> (#[trigger] s[j]).0 <= x,
        i < s.len() ==> s[i].0 > x,
    ensures
        count_upto(s, x) == i,
{
    lemma_count_upto(s, x);
    let c = count_upto(s, x) as int;
    if c < i {
        assert(s[c].0 <= x);
    }
    if i < c {
        assert(s[i].0 <= x);
    }
}

proof fn lemma_after_prefix<E>(s: Seq<(u64, E)>, start_after: Option<u64>, n: int)
    requires
        keys_sorted(s),
        0 <= n <= s.len(),
    ensures
        s.take(n).filter(after_pred(start_after)) =~= s.subrange(
            if count_upto(s, start_bound(start_after)) < n {
                count_upto(s, start_bound(start_after)) as int
            } else {
                n
            },
            n,
        ),
    decreases n,
{
    lemma_count_upto(s, start_bound(start_after));
    if n == 0 {
        reveal(Seq::filter);
    } else {
        lemma_after_prefix(s, start_after, n - 1);
        let prev = s.take(n - 1);
        assert(s.take(n) =~= prev.push(s[n - 1]));
        prev.lemma_filter_push(s[n - 1], after_pred(start_after));
    }
}

/// In a sorted history, the records after `start_after` are the run from
/// `count_upto` of its bound to the end.
pub proof fn lemma_after_sorted<E>(s: Seq<(u64, E)>, start_after: Option<u64>)
    requires
        keys_sorted(s),
    ensures
        count_upto(s, start_bound(start_after)) <= s.len(),
        entries_after(s, start_after) =~= s.subrange(
            count_upto(s, start_bound(start_after)) as int,
            s.len() as int,
        ),
{
    lemma_count_upto(s, start_bound(start_after));
    lemma_after_prefix(s, start_after, s.len() as int);
    assert(s.take(s.len() as int) =~= s);
}

/// A page is the run of records right after `start_after`: the stored records
/// from the first one whose key comes after `start_after`, `limit` of them or
/// all that remain; so their keys come after `start_after` and ascend.
pub proof fn law_page_is_next_run<E>(s: Seq<(u64, E)>, start_after: Option<u64>, limit: nat)
    requires
        keys_sorted(s),
    ensures
        ({
            let c = count_upto(s, start_bound(start_after)) as int;
            page_records(s, start_after, limit) == s.subrange(
                c,
                if c + limit < s.len() {
                    c + limit
                } else {
                    s.len() as int
                },
            )
        }),
        forall|j: int|
            0 <= j < page_records(s, start_after, limit).len() ==> id_after(
                (#[trigger] page_records(s, start_after, limit)[j]).0,
                start_after,
            ),
        keys_sorted(page_records(s, start_after, limit)),
{
    lemma_after_sorted(s, start_after);
    let c = count_upto(s, start_bound(start_after)) as int;
    let p = page_records(s, start_after, limit);
    let hi = if c + limit < s.len() {
        c + limit
    } else {
        s.len() as int
    };
    assert(p =~= s.subrange(c, hi));
    assert forall|j: int| 0 <= j < p.len() implies id_after((#[trigger] p[j]).0, start_after) by {
        assert(p[j] == s[c + j]);
    }
    assert forall|i: int, j: int| 0 <= i < j < p.len() implies p[i].0 < p[j].0 by {
        assert(p[i] == s[c + i] && p[j] == s[c + j]);
    }
}

/// Paging on from where a full page ends: a page of `n` records after `start`,
/// followed by a page of `m` records after the last key of that page, holds the
/// same records as one page of `n + m` records after `start`.
pub proof fn law_pages_tile<E>(s: Seq<(u64, E)>, start_after: Option<u64>, n: nat, m: nat)
    requires
        keys_sorted(s),
        n > 0,
        page_records(s, start_after, n).len() == n,
    ensures
        page_records(s, start_after, n) + page_records(
            s,
            Some(page_records(s, start_after, n).last().0),
            m,
        ) == page_records(s, start_after, n + m),
{
    let first = page_records(s, start_after, n);
    let k = first.last().0;
    lemma_after_sorted(s, start_after);
    lemma_after_sorted(s, Some(k));
    let c = count_upto(s, start_bound(start_after)) as int;
    assert(first =~= s.subrange(c, c + n));
    assert(k == s[c + n - 1].0);
    assert forall|j: int| 0 <= j < c + n implies (#[trigger] s[j]).0 <= k by {
        if j < c + n - 1 {
            assert(s[j].0 < s[c + n - 1].0);
        }
    }
    if c + n < s.len() {
        assert(s[c + n - 1].0 < s[c + n].0);
    }
    lemma_count_upto_at(s, k as int, c + n);
    assert(first + page_records(s, Some(k), m) =~= page_records(s, start_after, n + m));
}

/// A page holds as many records as were asked for, capped at 30 (10 when no
/// limit is given), or all the records after `start_after` when fewer follow;
/// so it never holds more than was asked for, and holds exactly that many when
/// enough records follow.
pub proof fn law_page_size<E>(s: Seq<(u64, E)>, start_after: Option<u64>, limit: Option<u32>)
    ensures
        ({
            let asked: int = match limit {
                Some(l) => if l < 30 {
                    l as int
                } else {
                    30
                },
                None => 10,
            };
            let available = entries_after(s, start_after).len();
            page_of(s, start_after, effective_limit(limit)).len() == if asked < available {
                asked
            } else {
                available as int
            }
        }),
{
}

/// A page read from the window of storage it covers is the same page: paging
/// the first `limit` records after `start_after` again with the same bounds
/// gives them all back.
pub proof fn law_page_of_window<E>(s: Seq<(u64, E)>, start_after: Option<u64>, limit: nat)
    requires
        keys_sorted(s),
    ensures
        page_records(page_records(s, start_after, limit), start_after, limit) == page_records(
            s,
            start_after,
            limit,
        ),
{
    law_page_is_next_run(s, start_after, limit);
    let w = page_records(s, start_after, limit);
    lemma_after_sorted(w, start_after);
    lemma_count_upto_at(w, start_bound(start_after), 0);
    assert(page_records(w, start_after, limit) =~= w);
}

/// Saving a record is a map update: afterwards the record is stored under its
/// key, the keys still ascend, and every other stored pair is unchanged, with
/// none added.
pub proof fn law_save_is_map_update<E>(s: Seq<(u64, E)>, k: u64, v: E)
    requires
        keys_sorted(s),
    ensures
        keys_sorted(insert_record(s, k, v)),
        insert_record(s, k, v).contains((k, v)),
        forall|i: int|
            0 <= i < s.len() && (#[trigger] s[i]).0 != k ==> insert_record(s, k, v).contains(s[i]),
        forall|j: int|
            0 <= j < insert_record(s, k, v).len() && (#[trigger] insert_record(s, k, v)[j]).0 != k
                ==> s.contains(insert_record(s, k, v)[j]),
{
    lemma_count_upto(s, k - 1);
    let c = count_upto(s, k - 1) as int;
    let t = insert_record(s, k, v);
    let replaced = c < s.len() && s[c].0 == k;
    assert(t[c] == (k, v));
    assert forall|i: int, j: int| 0 <= i < j < t.len() implies t[i].0 < t[j].0 by {
        if replaced {
            if i != c && j != c {
                assert(t[i] == s[i] && t[j] == s[j]);
            } else if i == c {
                assert(t[j] == s[j]);
                assert(s[c].0 < s[j].0);
            } else {
                assert(t[i] == s[i]);
                assert(s[i].0 < s[c].0);
            }
        } else {
            if j < c {
                assert(t[i] == s[i] && t[j] == s[j]);
            } else if i > c {
                assert(t[i] == s[i - 1] && t[j] == s[j - 1]);
            } else if i == c {
                assert(t[j] == s[j - 1]);
                if j - 1 > c {
                    assert(s[c].0 < s[j - 1].0);
                }
            } else if j == c {
                assert(t[i] == s[i]);
            } else {
                assert(t[i] == s[i] && t[j] == s[j - 1]);
            }
        }
    }
    assert forall|i: int| 0 <= i < s.len() && (#[trigger] s[i]).0 != k implies t.contains(s[i]) by {
        if replaced || i < c {
            assert(t[i] == s[i]);
        } else {
            assert(t[i + 1] == s[i]);
        }
    }
    assert forall|j: int| 0 <= j < t.len() && (#[trigger] t[j]).0 != k implies s.contains(t[j]) by {
        if replaced || j < c {
            assert(t[j] == s[j]);
        } else {
            assert(t[j] == s[j - 1]);
        }
    }
}

/// The records of one kind that a contract has stored, keyed by id, in
/// ascending order of id.
pub struct History<E: Entry> {
    entries: Vec<(u64, E)>,
}

impl<E: Entry> View for History<E> {
    type V = Seq<(u64, E)>;

    closed spec fn view(&self) -> Seq<(u64, E)> {
        self.entries@
    }
}

impl<E: Entry> History<E> {
    #[verifier::type_invariant]
    spec fn sorted(self) -> bool {
        keys_sorted(self.entries@)
    }

    /// An empty history.
    pub fn new() -> (h: Self)
        ensures
            h@ == Seq::<(u64, E)>::empty(),
    {
        History { entries: Vec::new() }
    }

    /// A history holding `entries`, when their keys ascend strictly.
    pub fn from_entries(entries: Vec<(u64, E)>) -> (r: Option<Self>)
        ensures
            r is Some <==> keys_sorted(entries@),
            r matches Some(h) ==> h@ == entries@,
    {
        let n = entries.len();
        let mut i: usize = 1;
        if n == 0 {
            return Some(History { entries });
        }
        while i < n
            invariant
                n == entries@.len(),
                1 <= i <= n,
                forall|a: int, b: int| 0 <= a < b < i ==> entries@[a].0 < entries@[b].0,
            decreases n - i,
        {
            if entries[i - 1].0 >= entries[i].0 {
                return None;
            }
            proof {
                assert forall|a: int, b: int| 0 <= a < b < i + 1 implies entries@[a].0
                    < entries@[b].0 by {
                    if b == i && a < i - 1 {
                        assert(entries@[a].0 < entries@[i - 1].0);
                    }
                }
            }
            i = i + 1;
        }
        Some(History { entries })
    }

    /// The number of records.
    pub fn len(&self) -> (n: usize)
        ensures
            n == self@.len(),
            keys_sorted(self@),
    {
        proof {
            use_type_invariant(self);
        }
        self.entries.len()
    }

    /// The record stored under `key`, if any.
    pub fn get(&self, key: u64) -> (r: Option<&E>)
        ensures
            r is None <==> forall|i: int| 0 <= i < self@.len() ==> (#[trigger] self@[i]).0 != key,
            r matches Some(e) ==> exists|i: int|
                0 <= i < self@.len() && (#[trigger] self@[i]).0 == key && self@[i].1 == *e,
    {
        let n = self.entries.len();
        let mut i: usize = 0;
        while i < n
            invariant
                n == self.entries@.len(),
                0 <= i <= n,
                forall|j: int| 0 <= j < i ==> (#[trigger] self.entries@[j]).0 != key,
            decreases n - i,
        {
            if self.entries[i].0 == key {
                let r = &self.entries[i].1;
                proof {
                    assert(self@[i as int].0 == key);
                }
                return Some(r);
            }
            i = i + 1;
        }
        None
    }

    /// Stores `v` under `key`, replacing the record already stored there.
    pub fn save(&mut self, key: u64, v: E)
        ensures
            final(self)@ == insert_record(old(self)@, key, v),
            keys_sorted(final(self)@),
    {
        proof {
            use_type_invariant(&*self);
        }
        let mut entries = Vec::new();
        std::mem::swap(&mut entries, &mut self.entries);
        let ghost s = entries@;
        let ghost gv = v;
        let n = entries.len();
        let mut c: usize = 0;
        while c < n && entries[c].0 < key
            invariant
                n == entries@.len(),
                s == entries@,
                keys_sorted(s),
                0 <= c <= n,
                forall|j: int| 0 <= j < c ==> (#[trigger] s[j]).0 <= key - 1,
            decreases n - c,
        {
            c = c + 1;
        }
        proof {
            lemma_count_upto_at(s, key - 1, c as int);
        }
        if c < n && entries[c].0 == key {
            entries.remove(c);
            entries.insert(c, (key, v));
            proof {
                assert(entries@ =~= s.update(c as int, (key, v)));
            }
        } else {
            entries.insert(c, (key, v));
        }
        proof {
            law_save_is_map_update(s, key, gv);
        }
        self.entries = entries;
    }

    /// The first `limit` records whose key is greater than `start_after`, in
    /// ascending order of key.
    pub fn page(&self, start_after: Option<u64>, limit: usize) -> (r: Vec<E>)
        ensures
            r@ == page_of(self@, start_after, limit as nat),
    {
        proof {
            use_type_invariant(self);
            lemma_after_sorted(self.entries@, start_after);
        }
        let ghost s = self.entries@;
        let len = self.entries.len();
        let (bounded, st): (bool, u64) = match start_after {
            None => (false, 0),
            Some(st) => (true, st),
        };
        let mut lo: usize = 0;
        while lo < len && bounded && self.entries[lo].0 <= st
            invariant
                bounded <==> start_after is Some,
                bounded ==> start_after == Some(st),
                len == s.len(),
                s == self.entries@,
                keys_sorted(s),
                0 <= lo <= len,
                forall|j: int| 0 <= j < lo ==> (#[trigger] s[j]).0 <= start_bound(start_after),
            decreases len - lo,
        {
            lo = lo + 1;
        }
        proof {
            lemma_count_upto_at(s, start_bound(start_after), lo as int);
        }
        let hi: usize = if limit < len - lo {
            lo + limit
        } else {
            len
        };
        let mut out: Vec<E> = Vec::new();
        let mut i: usize = lo;
        while i < hi
            invariant
                len == s.len(),
                s == self.entries@,
                lo <= i <= hi <= len,
                out@ =~= s.subrange(lo as int, i as int).map_values(|e: (u64, E)| e.1),
            decreases hi - i,
        {
            out.push(self.entries[i].1.duplicate());
            i = i + 1;
        }
        proof {
            let after = entries_after(s, start_after);
            assert(after.len() == len - lo);
            assert(page_records(s, start_after, limit as nat) =~= s.subrange(lo as int, hi as int));
        }
        out
    }
}

} // verus!
