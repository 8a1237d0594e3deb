//! Participant registry: the records of an offering keyed by canonical
//! address, in byte order, with cursor-based pagination in both directions.
use vstd::prelude::*;
use crate::bytes::{compare_bytes, opt_bytes, lemma_lex_asymmetric, lemma_lex_irreflexive, lemma_lex_transitive, lex_lt, KeyOrder};
use crate::common::OrderBy;

verus! {

/// Page size when the caller gives none.
pub const DEFAULT_LIMIT: u32 = 1024;

/// The stored record of one address.
#[derive(Clone, Debug, PartialEq, Eq)]
pub struct ParticipantEntry {
    pub address: Vec<u8>,
    pub is_joined: bool,
}

/// All participant records, strictly ascending by address bytes.
#[derive(Clone, Debug)]
pub struct ParticipantRegistry {
    entries: Vec<ParticipantEntry>,
}

/// Addresses strictly ascending.
pub open spec fn sorted_entries(s: Seq<ParticipantEntry>) -> bool {
    forall|i: int, j: int| 0 <= i < j < s.len() ==> lex_lt(#[trigger] s[i].address@, #[trigger] s[j].address@)
}

/// A key sequence strictly ascending.
pub open spec fn sorted_keys(q: Seq<Seq<u8>>) -> bool {
    forall|i: int, j: int| 0 <= i < j < q.len() ==> lex_lt(#[trigger] q[i], #[trigger] q[j])
}

/// `k` lies strictly after the cursor (every key does without one).
pub open spec fn after_cursor(k: Seq<u8>, cursor: Option<Seq<u8>>) -> bool {
    match cursor {
        Some(c) => lex_lt(c, k),
        None => true,
    }
}

/// `k` lies strictly before the cursor (every key does without one).
pub open spec fn before_cursor(k: Seq<u8>, cursor: Option<Seq<u8>>) -> bool {
    match cursor {
        Some(c) => lex_lt(k, c),
        None => true,
    }
}

/// Joined addresses after the cursor, ascending.
pub open spec fn asc_keys(s: Seq<ParticipantEntry>, cursor: Option<Seq<u8>>) -> Seq<Seq<u8>>
    decreases s.len(),
{
    if s.len() == 0 {
        Seq::empty()
    } else {
        let prev = asc_keys(s.drop_last(), cursor);
        if s.last().is_joined && after_cursor(s.last().address@, cursor) {
            prev.push(s.last().address@)
        } else {
            prev
        }
    }
}

/// Joined addresses before the cursor, descending.
pub open spec fn desc_keys(s: Seq<ParticipantEntry>, cursor: Option<Seq<u8>>) -> Seq<Seq<u8>>
    decreases s.len(),
{
    if s.len() == 0 {
        Seq::empty()
    } else {
        let rest = desc_keys(s.drop_first(), cursor);
        if s[0].is_joined && before_cursor(s[0].address@, cursor) {
            rest.push(s[0].address@)
        } else {
            rest
        }
    }
}

/// At most `limit` of `q`, from its start.
pub open spec fn first_n(q: Seq<Seq<u8>>, limit: int) -> Seq<Seq<u8>> {
    if q.len() <= limit {
        q
    } else {
        q.take(limit)
    }
}

/// The page a listing returns; without a direction the scan descends.
pub open spec fn page_spec(
    s: Seq<ParticipantEntry>,
    cursor: Option<Seq<u8>>,
    limit: Option<u32>,
    order_by: Option<OrderBy>,
) -> Seq<Seq<u8>> {
    let n = match limit {
        Some(l) => l as int,
        None => DEFAULT_LIMIT as int,
    };
    match order_by {
        Some(OrderBy::Asc) => first_n(asc_keys(s, cursor), n),
        _ => first_n(desc_keys(s, cursor), n),
    }
}

/// Whether `q` is a prefix of `r`.
pub open spec fn is_prefix(q: Seq<Seq<u8>>, r: Seq<Seq<u8>>) -> bool {
    q.len() <= r.len() && r.take(q.len() as int) == q
}

proof fn lemma_asc_prefix(s: Seq<ParticipantEntry>, cursor: Option<Seq<u8>>, i: int, j: int)
    requires
        0 <= i <= j <= s.len(),
    ensures
        is_prefix(asc_keys(s.take(i), cursor), asc_keys(s.take(j), cursor)),
    decreases j - i,
{
    if i < j {
        lemma_asc_prefix(s, cursor, i, j - 1);
        assert(s.take(j).drop_last() =~= s.take(j - 1));
        let a = asc_keys(s.take(i), cursor);
        let b = asc_keys(s.take(j - 1), cursor);
        let c = asc_keys(s.take(j), cursor);
        assert(c.take(a.len() as int) =~= b.take(a.len() as int));
    } else {
        let a = asc_keys(s.take(i), cursor);
        assert(a.take(a.len() as int) =~= a);
    }
}

proof fn lemma_desc_prefix(s: Seq<ParticipantEntry>, cursor: Option<Seq<u8>>, i: int, j: int)
    requires
        0 <= j <= i <= s.len(),
    ensures
        is_prefix(
            desc_keys(s.subrange(i, s.len() as int), cursor),
            desc_keys(s.subrange(j, s.len() as int), cursor),
        ),
    decreases i - j,
{
    if j < i {
        lemma_desc_prefix(s, cursor, i, j + 1);
        assert(s.subrange(j, s.len() as int).drop_first() =~= s.subrange(j + 1, s.len() as int));
        let a = desc_keys(s.subrange(i, s.len() as int), cursor);
        let b = desc_keys(s.subrange(j + 1, s.len() as int), cursor);
        let c = desc_keys(s.subrange(j, s.len() as int), cursor);
        assert(c.take(a.len() as int) =~= b.take(a.len() as int));
    } else {
        let a = desc_keys(s.subrange(i, s.len() as int), cursor);
        assert(a.take(a.len() as int) =~= a);
    }
}

/// The predicate "strictly above `x`".
pub open spec fn above(x: Seq<u8>) -> spec_fn(Seq<u8>) -> bool {
    |y: Seq<u8>| lex_lt(x, y)
}

/// Every listed address belongs to a joined record and lies after the cursor.
proof fn lemma_asc_members(s: Seq<ParticipantEntry>, cursor: Option<Seq<u8>>)
    ensures
        forall|k: int|
            0 <= k < asc_keys(s, cursor).len() ==> after_cursor(#[trigger] asc_keys(s, cursor)[k], cursor)
                && exists|i: int| 0 <= i < s.len() && s[i].address@ == asc_keys(s, cursor)[k] && s[i].is_joined,
    decreases s.len(),
{
    if s.len() > 0 {
        let p = s.drop_last();
        lemma_asc_members(p, cursor);
        let a = asc_keys(s, cursor);
        assert forall|k: int| 0 <= k < a.len() implies after_cursor(#[trigger] a[k], cursor) && exists|i: int|
            0 <= i < s.len() && s[i].address@ == a[k] && s[i].is_joined by {
            if k < asc_keys(p, cursor).len() {
                let i = choose|i: int| 0 <= i < p.len() && p[i].address@ == asc_keys(p, cursor)[k] && p[i].is_joined;
                assert(s[i] == p[i]);
            } else {
                assert(s[s.len() - 1] == s.last());
            }
        }
    }
}

/// Every joined address after the cursor is listed.
proof fn lemma_asc_complete(s: Seq<ParticipantEntry>, cursor: Option<Seq<u8>>)
    ensures
        forall|i: int|
            0 <= i < s.len() && (#[trigger] s[i]).is_joined && after_cursor(s[i].address@, cursor)
                ==> asc_keys(s, cursor).contains(s[i].address@),
    decreases s.len(),
{
    if s.len() > 0 {
        let p = s.drop_last();
        lemma_asc_complete(p, cursor);
        let a = asc_keys(s, cursor);
        let b = asc_keys(p, cursor);
        assert forall|i: int|
            0 <= i < s.len() && (#[trigger] s[i]).is_joined && after_cursor(s[i].address@, cursor) implies a.contains(
            s[i].address@,
        ) by {
            if i < s.len() - 1 {
                assert(p[i] == s[i]);
                let k = choose|k: int| 0 <= k < b.len() && b[k] == s[i].address@;
                assert(a[k] == b[k]);
            } else {
                assert(a[a.len() - 1] == s.last().address@);
            }
        }
    }
}

/// Listings of a sorted registry ascend strictly.
proof fn lemma_asc_sorted(s: Seq<ParticipantEntry>, cursor: Option<Seq<u8>>)
    requires
        sorted_entries(s),
    ensures
        sorted_keys(asc_keys(s, cursor)),
    decreases s.len(),
{
    if s.len() > 0 {
        let p = s.drop_last();
        assert(sorted_entries(p)) by {
            assert forall|i: int, j: int| 0 <= i < j < p.len() implies lex_lt(
                #[trigger] p[i].address@,
                #[trigger] p[j].address@,
            ) by {
                assert(p[i] == s[i] && p[j] == s[j]);
            }
        }
        lemma_asc_sorted(p, cursor);
        lemma_asc_members(p, cursor);
        let a = asc_keys(p, cursor);
        assert forall|k: int| 0 <= k < a.len() implies lex_lt(#[trigger] a[k], s.last().address@) by {
            let i = choose|i: int| 0 <= i < p.len() && p[i].address@ == a[k] && p[i].is_joined;
            assert(p[i] == s[i]);
            assert(lex_lt(s[i].address@, s[s.len() - 1].address@));
        }
    }
}

/// Listing after an address `x` that itself lies after the cursor keeps
/// exactly the listed addresses above `x`.
proof fn lemma_asc_restart(s: Seq<ParticipantEntry>, cursor: Option<Seq<u8>>, x: Seq<u8>)
    requires
        after_cursor(x, cursor),
    ensures
        asc_keys(s, Some(x)) == asc_keys(s, cursor).filter(above(x)),
    decreases s.len(),
{
    if s.len() > 0 {
        lemma_asc_restart(s.drop_last(), cursor, x);
        let k = s.last().address@;
        if let Some(c) = cursor {
            if lex_lt(x, k) {
                lemma_lex_transitive(c, x, k);
            }
        }
        let full = asc_keys(s, cursor);
        let prev = asc_keys(s.drop_last(), cursor);
        reveal(Seq::filter);
        if s.last().is_joined && after_cursor(k, cursor) {
            assert(full.drop_last() =~= prev);
            assert(full.last() == k);
            assert(full.filter(above(x)) == if above(x)(k) {
                prev.filter(above(x)).push(k)
            } else {
                prev.filter(above(x))
            });
        } else {
            assert(full == prev);
        }
    }
}

/// In a strictly ascending sequence, the elements above the one at `k - 1`
/// are those from `k` on.
proof fn lemma_sorted_above(q: Seq<Seq<u8>>, k: int, i: int)
    requires
        sorted_keys(q),
        1 <= k <= q.len(),
        0 <= i <= q.len(),
    ensures
        q.take(i).filter(above(q[k - 1])) == if i <= k {
            Seq::<Seq<u8>>::empty()
        } else {
            q.subrange(k, i)
        },
    decreases i,
{
    let f = above(q[k - 1]);
    reveal(Seq::filter);
    if i == 0 {
        assert(q.take(0) =~= Seq::<Seq<u8>>::empty());
    } else {
        lemma_sorted_above(q, k, i - 1);
        let t = q.take(i);
        assert(t.drop_last() =~= q.take(i - 1));
        assert(t.last() == q[i - 1]);
        assert(t.filter(f) == if f(q[i - 1]) {
            q.take(i - 1).filter(f).push(q[i - 1])
        } else {
            q.take(i - 1).filter(f)
        });
        if i - 1 < k - 1 {
            lemma_lex_asymmetric(q[i - 1], q[k - 1]);
        } else if i - 1 == k - 1 {
            lemma_lex_irreflexive(q[k - 1]);
        } else {
            assert(lex_lt(q[k - 1], q[i - 1]));
            if i - 1 == k {
                assert(q.subrange(k, i) =~= seq![q[k]]);
            } else {
                assert(q.subrange(k, i) =~= q.subrange(k, i - 1).push(q[i - 1]));
            }
        }
    }
}

/// The listing resumed after its `k`-th address is what follows that address.
proof fn lemma_asc_rest(s: Seq<ParticipantEntry>, cursor: Option<Seq<u8>>, k: int)
    requires
        sorted_entries(s),
        1 <= k <= asc_keys(s, cursor).len(),
    ensures
        asc_keys(s, Some(asc_keys(s, cursor)[k - 1])) == asc_keys(s, cursor).subrange(
            k,
            asc_keys(s, cursor).len() as int,
        ),
{
    let full = asc_keys(s, cursor);
    lemma_asc_sorted(s, cursor);
    lemma_asc_members(s, cursor);
    lemma_asc_restart(s, cursor, full[k - 1]);
    lemma_sorted_above(full, k, full.len() as int);
    assert(full.take(full.len() as int) =~= full);
}

/// The pages of an ascending scan with one limit: each starts right after
/// the last address of the one before, and the scan stops at the first page
/// shorter than the limit.
pub open spec fn ascending_pages(s: Seq<ParticipantEntry>, cursor: Option<Seq<u8>>, limit: u32) -> Seq<
    Seq<Seq<u8>>,
>
    decreases asc_keys(s, cursor).len(),
    when sorted_entries(s) && limit >= 1
    via ascending_pages_decreases
{
    let page = page_spec(s, cursor, Some(limit), Some(OrderBy::Asc));
    if page.len() < limit {
        seq![page]
    } else {
        seq![page] + ascending_pages(s, Some(page.last()), limit)
    }
}

#[via_fn]
proof fn ascending_pages_decreases(s: Seq<ParticipantEntry>, cursor: Option<Seq<u8>>, limit: u32) {
    let full = asc_keys(s, cursor);
    let page = page_spec(s, cursor, Some(limit), Some(OrderBy::Asc));
    if sorted_entries(s) && limit >= 1 && page.len() >= limit {
        let k = limit as int;
        assert(page =~= full.take(k));
        assert(page.last() == full[k - 1]);
        lemma_asc_rest(s, cursor, k);
    }
}

/// Paging through the ascending listing with one limit, each page resumed
/// after the last address of the one before, returns every joined address
/// after the starting cursor exactly once and in ascending order, in pages
/// of at most `limit` addresses of which only the last is shorter.
pub proof fn lemma_ascending_pages_cover(s: Seq<ParticipantEntry>, cursor: Option<Seq<u8>>, limit: u32)
    requires
        sorted_entries(s),
        limit >= 1,
    ensures
        ascending_pages(s, cursor, limit).flatten() == asc_keys(s, cursor),
        ascending_pages(s, cursor, limit).len() >= 1,
        forall|i: int|
            0 <= i < ascending_pages(s, cursor, limit).len() ==> (#[trigger] ascending_pages(
                s,
                cursor,
                limit,
            )[i]).len() <= limit,
        forall|i: int|
            0 <= i < ascending_pages(s, cursor, limit).len() - 1 ==> (#[trigger] ascending_pages(
                s,
                cursor,
                limit,
            )[i]).len() == limit,
    decreases asc_keys(s, cursor).len(),
{
    let full = asc_keys(s, cursor);
    let page = page_spec(s, cursor, Some(limit), Some(OrderBy::Asc));
    let pages = ascending_pages(s, cursor, limit);
    if page.len() < limit {
        assert(page == full);
        assert(pages == seq![page]);
        assert(pages.drop_first() =~= Seq::<Seq<Seq<u8>>>::empty());
        assert(pages.drop_first().flatten() =~= Seq::<Seq<u8>>::empty());
        assert(pages.flatten() =~= page + Seq::<Seq<u8>>::empty());
        assert(pages.flatten() =~= page);
    } else {
        let k = limit as int;
        assert(page =~= full.take(k));
        assert(page.last() == full[k - 1]);
        lemma_asc_rest(s, cursor, k);
        let next = Some(page.last());
        lemma_ascending_pages_cover(s, next, limit);
        let rest = ascending_pages(s, next, limit);
        assert(pages == seq![page] + rest);
        assert(pages.first() == page);
        assert(pages.drop_first() =~= rest);
        assert(page + full.subrange(k, full.len() as int) =~= full);
        assert forall|i: int| 0 <= i < pages.len() implies (#[trigger] pages[i]).len() <= limit by {
            if i > 0 {
                assert(pages[i] == rest[i - 1]);
            }
        }
        assert forall|i: int| 0 <= i < pages.len() - 1 implies (#[trigger] pages[i]).len() == limit by {
            if i > 0 {
                assert(pages[i] == rest[i - 1]);
            }
        }
    }
}

/// Ascending pages chain: a page of joined addresses followed by the
/// listing that starts right after its last address gives the whole
/// listing from the first page's cursor, and no address is listed twice.
pub proof fn lemma_ascending_pages_chain(
    s: Seq<ParticipantEntry>,
    cursor: Option<Seq<u8>>,
    limit: u32,
    rest_limit: u32,
)
    requires
        sorted_entries(s),
        limit >= 1,
        rest_limit >= asc_keys(s, cursor).len(),
    ensures
        ({
            let page = page_spec(s, cursor, Some(limit), Some(OrderBy::Asc));
            let all = page_spec(s, cursor, Some(rest_limit), Some(OrderBy::Asc));
            &&& all == asc_keys(s, cursor)
            &&& page.len() > 0 ==> page + page_spec(s, Some(page.last()), Some(rest_limit), Some(OrderBy::Asc))
                == all
        }),
        forall|i: int, j: int|
            0 <= i < j < asc_keys(s, cursor).len() ==> asc_keys(s, cursor)[i] != asc_keys(s, cursor)[j],
{
    let full = asc_keys(s, cursor);
    lemma_asc_sorted(s, cursor);
    assert forall|i: int, j: int| 0 <= i < j < full.len() implies full[i] != full[j] by {
        lemma_lex_irreflexive(full[i]);
    }
    let page = page_spec(s, cursor, Some(limit), Some(OrderBy::Asc));
    if page.len() > 0 {
        let k = page.len() as int;
        assert(page =~= full.take(k));
        let x = full[k - 1];
        assert(page.last() == x);
        lemma_asc_members(s, cursor);
        lemma_asc_restart(s, cursor, x);
        lemma_sorted_above(full, k, full.len() as int);
        assert(full.take(full.len() as int) =~= full);
        let rest = asc_keys(s, Some(x));
        assert(rest == full.subrange(k, full.len() as int));
        assert(page + rest =~= full);
    }
}

/// The ascending listing from a cursor holds exactly the joined addresses
/// after that cursor.
pub proof fn lemma_ascending_listing_exact(s: Seq<ParticipantEntry>, cursor: Option<Seq<u8>>)
    ensures
        forall|a: Seq<u8>|
            asc_keys(s, cursor).contains(a) <==> exists|i: int|
                0 <= i < s.len() && (#[trigger] s[i]).address@ == a && s[i].is_joined && after_cursor(a, cursor),
{
    lemma_asc_members(s, cursor);
    lemma_asc_complete(s, cursor);
    assert forall|a: Seq<u8>| asc_keys(s, cursor).contains(a) implies exists|i: int|
        0 <= i < s.len() && (#[trigger] s[i]).address@ == a && s[i].is_joined && after_cursor(a, cursor) by {
        let k = choose|k: int| 0 <= k < asc_keys(s, cursor).len() && asc_keys(s, cursor)[k] == a;
        assert(after_cursor(asc_keys(s, cursor)[k], cursor));
    }
}

impl ParticipantRegistry {
    pub closed spec fn entries(&self) -> Seq<ParticipantEntry> {
        self.entries@
    }

    /// The registry's invariant: addresses strictly ascending.
    pub open spec fn wf(&self) -> bool {
        sorted_entries(self.entries())
    }

    /// A registry without records.
    pub fn new() -> (r: ParticipantRegistry)
        ensures
            r.wf(),
            r.entries() == Seq::<ParticipantEntry>::empty(),
    {
        ParticipantRegistry { entries: Vec::new() }
    }

    /// The records as a storage scan yields them; `None` unless their
    /// addresses are strictly ascending.
    pub fn from_entries(entries: Vec<ParticipantEntry>) -> (r: Option<ParticipantRegistry>)
        ensures
            r is Some <==> sorted_entries(entries@),
            r matches Some(g) ==> g.wf() && g.entries() == entries@,
    {
        let n = entries.len();
        if n == 0 {
            return Some(ParticipantRegistry { entries });
        }
        let mut i: usize = 0;
        while i + 1 < n
            invariant
                n == entries@.len(),
                n > 0,
                i < n,
                forall|a: int, b: int|
                    0 <= a < b <= i ==> lex_lt(#[trigger] entries@[a].address@, #[trigger] entries@[b].address@),
            decreases n - i,
        {
            let ord = compare_bytes(entries[i].address.as_slice(), entries[i + 1].address.as_slice());
            if ord != KeyOrder::Less {
                proof {
                    assert(!lex_lt(entries@[i as int].address@, entries@[i + 1].address@));
                }
                return None;
            }
            proof {
                assert forall|a: int, b: int| 0 <= a < b <= i + 1 implies lex_lt(
                    #[trigger] entries@[a].address@,
                    #[trigger] entries@[b].address@,
                ) by {
                    if b == i + 1 && a < i {
                        lemma_lex_transitive(
                            entries@[a].address@,
                            entries@[i as int].address@,
                            entries@[b].address@,
                        );
                    }
                }
            }
            i = i + 1;
        }
        Some(ParticipantRegistry { entries })
    }

    /// Whether `address` joined; an absent record reads as not joined.
    pub fn read_participant(&self, address: &[u8]) -> (r: bool)
        ensures
            r == exists|i: int|
                0 <= i < self.entries().len() && (#[trigger] self.entries()[i]).address@ == address@
                    && self.entries()[i].is_joined,
    {
        let mut i: usize = 0;
        while i < self.entries.len()
            invariant
                i <= self.entries@.len(),
                forall|j: int|
                    0 <= j < i ==> !((#[trigger] self.entries@[j]).address@ == address@ && self.entries@[j].is_joined),
            decreases self.entries@.len() - i,
        {
            if self.entries[i].is_joined && compare_bytes(self.entries[i].address.as_slice(), address)
                == KeyOrder::Equal {
                assert(self.entries()[i as int] == self.entries@[i as int]);
                return true;
            }
            i = i + 1;
        }
        false
    }

    /// One page of joined addresses. Ascending, it starts strictly after
    /// `start_after`; otherwise it descends from strictly before it. At most
    /// `limit` addresses (1024 without one) are returned.
    pub fn read_participants(
        &self,
        start_after: Option<Vec<u8>>,
        limit: Option<u32>,
        order_by: Option<OrderBy>,
    ) -> (r: Vec<Vec<u8>>)
        ensures
            r@.map_values(|v: Vec<u8>| v@) == page_spec(
                self.entries(),
                opt_bytes(start_after),
                limit,
                order_by,
            ),
    {
        let n: usize = match limit {
            Some(l) => l as usize,
            None => DEFAULT_LIMIT as usize,
        };
        let ghost cursor = opt_bytes(start_after);
        let ghost s = self.entries@;
        let mut out: Vec<Vec<u8>> = Vec::new();
        match order_by {
            Some(OrderBy::Asc) => {
                let mut i: usize = 0;
                while i < self.entries.len() && out.len() < n
                    invariant
                        s == self.entries@,
                        cursor == opt_bytes(start_after),
                        i <= s.len(),
                        out@.len() <= n,
                        out@.map_values(|v: Vec<u8>| v@) == asc_keys(s.take(i as int), cursor),
                    decreases s.len() - i,
                {
                    let e = &self.entries[i];
                    let inside = match &start_after {
                        Some(c) => compare_bytes(c.as_slice(), e.address.as_slice()) == KeyOrder::Less,
                        None => true,
                    };
                    assert(inside == after_cursor(e.address@, cursor));
                    let keep = e.is_joined && inside;
                    proof {
                        assert(s.take(i + 1).drop_last() =~= s.take(i as int));
                        assert(s.take(i + 1).last() == s[i as int]);
                        assert(keep == (s[i as int].is_joined && after_cursor(s[i as int].address@, cursor)));
                    }
                    let ghost prev = out@;
                    if keep {
                        let a = e.address.clone();
                        assert(a@ == s[i as int].address@);
                        out.push(a);
                        assert(out@.map_values(|v: Vec<u8>| v@) =~= prev.map_values(|v: Vec<u8>| v@).push(
                            s[i as int].address@,
                        ));
                    }
                    proof {
                        assert(out@.map_values(|v: Vec<u8>| v@) =~= asc_keys(s.take(i + 1), cursor));
                    }
                    i = i + 1;
                }
                proof {
                    lemma_asc_prefix(s, cursor, i as int, s.len() as int);
                    assert(s.take(s.len() as int) =~= s);
                    let full = asc_keys(s, cursor);
                    let got = asc_keys(s.take(i as int), cursor);
                    if i == s.len() {
                        assert(got == full);
                    } else {
                        assert(got.len() == n);
                        assert(full.take(n as int) =~= got);
                    }
                }
            },
            _ => {
                let mut i: usize = self.entries.len();
                while i > 0 && out.len() < n
                    invariant
                        s == self.entries@,
                        cursor == opt_bytes(start_after),
                        i <= s.len(),
                        out@.len() <= n,
                        out@.map_values(|v: Vec<u8>| v@) == desc_keys(s.subrange(i as int, s.len() as int), cursor),
                    decreases i,
                {
                    let e = &self.entries[i - 1];
                    let inside = match &start_after {
                        Some(c) => compare_bytes(e.address.as_slice(), c.as_slice()) == KeyOrder::Less,
                        None => true,
                    };
                    assert(inside == before_cursor(e.address@, cursor));
                    let keep = e.is_joined && inside;
                    proof {
                        assert(s.subrange(i - 1, s.len() as int).drop_first() =~= s.subrange(
                            i as int,
                            s.len() as int,
                        ));
                        assert(s.subrange(i - 1, s.len() as int)[0] == s[i - 1]);
                        assert(keep == (s[i - 1].is_joined && before_cursor(s[i - 1].address@, cursor)));
                    }
                    let ghost prev = out@;
                    if keep {
                        let a = e.address.clone();
                        assert(a@ == s[i - 1].address@);
                        out.push(a);
                        assert(out@.map_values(|v: Vec<u8>| v@) =~= prev.map_values(|v: Vec<u8>| v@).push(
                            s[i - 1].address@,
                        ));
                    }
                    proof {
                        assert(out@.map_values(|v: Vec<u8>| v@) =~= desc_keys(
                            s.subrange(i - 1, s.len() as int),
                            cursor,
                        ));
                    }
                    i = i - 1;
                }
                proof {
                    lemma_desc_prefix(s, cursor, i as int, 0);
                    assert(s.subrange(0, s.len() as int) =~= s);
                    let full = desc_keys(s, cursor);
                    let got = desc_keys(s.subrange(i as int, s.len() as int), cursor);
                    if i == 0 {
                        assert(got == full);
                    } else {
                        assert(got.len() == n);
                        assert(full.take(n as int) =~= got);
                    }
                }
            },
        }
        out
    }
}

} // verus!
