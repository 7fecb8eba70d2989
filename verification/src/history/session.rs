//! Persisted conversations that a user can list and resume.
//!
//! A session is a log of turns, `<id>.jsonl`, and an entry in the directory's index, which holds its
//! name and timestamps. The index lives apart from the logs, so that touching a timestamp never
//! rewrites a log.
use vstd::prelude::*;
use vstd::string::*;

use super::{HistoryTurn, Role};
use crate::clock::UnixMillis;

verus! {

/// Name of the index inside the sessions directory.
pub const INDEX_FILE: &'static str = "index.json";

/// Name and timestamps of one session.
#[derive(Debug, PartialEq, Eq)]
pub struct SessionMeta {
    /// Label, or `None` for an unnamed session.
    pub name: Option<String>,
    /// When the session was created.
    pub created_at: UnixMillis,
    /// When the session was last loaded.
    pub last_opened: UnixMillis,
    /// When the session was last written to.
    pub last_updated: UnixMillis,
}

/// A [`SessionMeta`] with its name as a sequence of characters.
pub struct MetaView {
    /// Label, or `None` for an unnamed session.
    pub name: Option<Seq<char>>,
    /// When the session was created.
    pub created_at: UnixMillis,
    /// When the session was last loaded.
    pub last_opened: UnixMillis,
    /// When the session was last written to.
    pub last_updated: UnixMillis,
}

/// The characters of an optional text.
pub open spec fn opt_text(s: Option<String>) -> Option<Seq<char>> {
    match s {
        Some(t) => Some(t@),
        None => None,
    }
}

impl View for SessionMeta {
    type V = MetaView;

    open spec fn view(&self) -> MetaView {
        MetaView {
            name: opt_text(self.name),
            created_at: self.created_at,
            last_opened: self.last_opened,
            last_updated: self.last_updated,
        }
    }
}

impl MetaView {
    /// Metadata of a session created now.
    pub open spec fn fresh(now: UnixMillis) -> MetaView {
        MetaView { name: None, created_at: now, last_opened: now, last_updated: now }
    }
}

impl Clone for SessionMeta {
    fn clone(&self) -> (r: Self)
        ensures
            r == *self,
    {
        let name: Option<String> = match &self.name {
            Some(n) => Some(n.clone()),
            None => None,
        };
        SessionMeta {
            name,
            created_at: self.created_at,
            last_opened: self.last_opened,
            last_updated: self.last_updated,
        }
    }
}

impl SessionMeta {
    /// Metadata of a session created now.
    pub fn fresh(now: UnixMillis) -> (r: Self)
        ensures
            r@ == MetaView::fresh(now),
    {
        SessionMeta { name: None, created_at: now, last_opened: now, last_updated: now }
    }
}

/// One session: identity, metadata and turns.
#[derive(Debug, PartialEq, Eq)]
pub struct Session {
    /// Session id; the stem of the log's file name and the key in the index.
    pub id: String,
    /// Name and timestamps.
    pub meta: SessionMeta,
    /// Turns in chronological order.
    pub turns: Vec<HistoryTurn>,
}

/// A row of a session list.
#[derive(Debug, PartialEq, Eq)]
pub struct SessionSummary {
    /// Session id.
    pub id: String,
    /// Name and timestamps.
    pub meta: SessionMeta,
}

/// A [`SessionSummary`] with its texts as sequences of characters.
pub struct SummaryView {
    /// Session id.
    pub id: Seq<char>,
    /// Name and timestamps.
    pub meta: MetaView,
}

impl View for SessionSummary {
    type V = SummaryView;

    open spec fn view(&self) -> SummaryView {
        SummaryView { id: self.id@, meta: self.meta@ }
    }
}

impl Clone for SessionSummary {
    fn clone(&self) -> (r: Self)
        ensures
            r == *self,
    {
        SessionSummary { id: self.id.clone(), meta: self.meta.clone() }
    }
}

/// The sessions of a directory by id.
///
/// Entries are kept in the order of their ids, and no id occurs twice.
#[derive(Debug)]
pub struct SessionIndex {
    entries: Vec<SessionSummary>,
}

/// Ids grow from each entry to the next.
pub open spec fn ids_grow(entries: Seq<SummaryView>) -> bool {
    forall|i: int, j: int|
        0 <= i < j < entries.len() ==> crate::text::text_before(
            #[trigger] entries[i].id,
            #[trigger] entries[j].id,
        )
}

/// Whether some entry has this id.
pub open spec fn has_id(entries: Seq<SummaryView>, id: Seq<char>) -> bool {
    exists|i: int| 0 <= i < entries.len() && #[trigger] entries[i].id == id
}

/// The entries as a map from id to metadata.
pub open spec fn as_map(entries: Seq<SummaryView>) -> Map<Seq<char>, MetaView> {
    Map::new(
        |id: Seq<char>| has_id(entries, id),
        |id: Seq<char>|
            entries[choose|i: int| 0 <= i < entries.len() && #[trigger] entries[i].id == id].meta,
    )
}

/// The order of a session list: the last written to first; of two written to at the same time, the
/// one whose id stands first.
pub open spec fn listed_before(a: SummaryView, b: SummaryView) -> bool {
    ||| a.meta.last_updated > b.meta.last_updated
    ||| a.meta.last_updated == b.meta.last_updated && crate::text::text_before(a.id, b.id)
}

/// A list of exactly the sessions of `m`, in the order of a session list.
pub open spec fn is_listing(rows: Seq<SummaryView>, m: Map<Seq<char>, MetaView>) -> bool {
    &&& forall|j: int|
        0 <= j < rows.len() ==> m.contains_key((#[trigger] rows[j]).id) && m[rows[j].id]
            == rows[j].meta
    &&& forall|id: Seq<char>| #[trigger] m.contains_key(id) ==> has_id(rows, id)
    &&& forall|i: int, j: int|
        0 <= i < j < rows.len() ==> listed_before(#[trigger] rows[i], #[trigger] rows[j])
}

proof fn lemma_entry_in_map(entries: Seq<SummaryView>, i: int)
    requires
        ids_grow(entries),
        0 <= i < entries.len(),
    ensures
        as_map(entries).contains_key(entries[i].id),
        as_map(entries)[entries[i].id] == entries[i].meta,
{
    let id = entries[i].id;
    assert(has_id(entries, id));
    let k = choose|k: int| 0 <= k < entries.len() && #[trigger] entries[k].id == id;
    crate::text::lemma_text_order(entries[i].id, entries[k].id, id);
    if k < i {
        assert(crate::text::text_before(entries[k].id, entries[i].id));
    } else if i < k {
        assert(crate::text::text_before(entries[i].id, entries[k].id));
    }
}

impl View for SessionIndex {
    type V = Map<Seq<char>, MetaView>;

    closed spec fn view(&self) -> Map<Seq<char>, MetaView> {
        as_map(crate::text::views(self.entries@))
    }
}

impl SessionIndex {
    /// Entries are in the order of their ids, without repetition.
    pub closed spec fn wf(&self) -> bool {
        ids_grow(crate::text::views(self.entries@))
    }

    /// An index without sessions.
    pub fn new() -> (r: Self)
        ensures
            r.wf(),
            r@ == Map::<Seq<char>, MetaView>::empty(),
    {
        let r = SessionIndex { entries: Vec::new() };
        assert(r@ =~= Map::empty());
        r
    }

    /// The metadata of a session.
    pub fn get(&self, id: &str) -> (r: Option<SessionMeta>)
        requires
            self.wf(),
        ensures
            r is Some == self@.contains_key(id@),
            r is Some ==> r->0@ == self@[id@],
    {
        let ghost all = crate::text::views(self.entries@);
        let mut i: usize = 0;
        while i < self.entries.len()
            invariant
                i <= self.entries.len(),
                all == crate::text::views(self.entries@),
                ids_grow(all),
                self@ == as_map(all),
                forall|k: int| 0 <= k < i ==> #[trigger] all[k].id != id@,
            decreases self.entries.len() - i,
        {
            let e: &SessionSummary = &self.entries[i];
            assert(all[i as int] == e@);
            if crate::text::same(e.id.as_str(), id) {
                proof {
                    lemma_entry_in_map(all, i as int);
                }
                return Some(e.meta.clone());
            }
            i = i + 1;
        }
        assert(!has_id(all, id@));
        None
    }

    /// Set the metadata of a session, leaving every other entry as it is.
    pub fn insert(&mut self, id: &str, meta: SessionMeta)
        requires
            old(self).wf(),
        ensures
            final(self).wf(),
            final(self)@ == old(self)@.insert(id@, meta@),
    {
        let ghost all = crate::text::views(self.entries@);
        let mut i: usize = 0;
        while i < self.entries.len() && crate::text::is_before(
            self.entries[i].id.as_str(),
            id,
        )
            invariant
                i <= self.entries.len(),
                *self == *old(self),
                all == crate::text::views(self.entries@),
                forall|k: int|
                    0 <= k < i ==> crate::text::text_before(#[trigger] all[k].id, id@),
            decreases self.entries.len() - i,
        {
            assert(all[i as int] == self.entries@[i as int]@);
            i = i + 1;
        }
        let row: SessionSummary = SessionSummary { id: id.to_owned(), meta };
        if i < self.entries.len() && crate::text::same(self.entries[i].id.as_str(), id) {
            proof {
                assert(all[i as int] == self.entries@[i as int]@);
            }
            self.entries.set(i, row);
            proof {
                let new = crate::text::views(self.entries@);
                assert(new =~= all.update(i as int, row@));
                assert forall|a: int, b: int|
                    0 <= a < b < new.len() implies crate::text::text_before(
                    #[trigger] new[a].id,
                    #[trigger] new[b].id,
                ) by {
                    assert(new[a].id == all[a].id);
                    assert(new[b].id == all[b].id);
                }
                lemma_replaced(all, new, i as int, id@, row@.meta);
            }
        } else {
            proof {
                assert forall|k: int| i <= k < all.len() implies crate::text::text_before(
                    id@,
                    #[trigger] all[k].id,
                ) by {
                    assert(all[i as int] == self.entries@[i as int]@);
                    crate::text::lemma_text_order(id@, all[i as int].id, all[k].id);
                    if k > i {
                        assert(crate::text::text_before(all[i as int].id, all[k].id));
                    }
                }
            }
            self.entries.insert(i, row);
            proof {
                let new = crate::text::views(self.entries@);
                assert(new =~= all.insert(i as int, row@));
                lemma_inserted(all, new, i as int, id@, row@.meta);
            }
        }
    }

    /// Every session, the last written to first.
    pub fn list(&self) -> (r: Vec<SessionSummary>)
        requires
            self.wf(),
        ensures
            is_listing(crate::text::views(r@), self@),
    {
        let ghost all = crate::text::views(self.entries@);
        let mut out: Vec<SessionSummary> = Vec::new();
        let mut n: usize = 0;
        while n < self.entries.len()
            invariant
                n <= self.entries.len(),
                all == crate::text::views(self.entries@),
                ids_grow(all),
                forall|j: int|
                    0 <= j < out@.len() ==> is_among(
                        all.take(n as int),
                        #[trigger] crate::text::views(out@)[j],
                    ),
                forall|k: int|
                    0 <= k < n ==> has_id(
                        crate::text::views(out@),
                        (#[trigger] all[k]).id,
                    ),
                forall|i: int, j: int|
                    0 <= i < j < out@.len() ==> listed_before(
                        #[trigger] crate::text::views(out@)[i],
                        #[trigger] crate::text::views(out@)[j],
                    ),
            decreases self.entries.len() - n,
        {
            let e: &SessionSummary = &self.entries[n];
            let ghost rows = crate::text::views(out@);
            let mut at: usize = 0;
            while at < out.len() && out[at].meta.last_updated >= e.meta.last_updated
                invariant
                    at <= out.len(),
                    rows == crate::text::views(out@),
                    e@ == all[n as int],
                    forall|j: int|
                        0 <= j < at ==> (#[trigger] rows[j]).meta.last_updated
                            >= e.meta.last_updated,
                decreases out.len() - at,
            {
                assert(rows[at as int] == out@[at as int]@);
                at = at + 1;
            }
            proof {
                assert(at < out@.len() ==> rows[at as int] == out@[at as int]@);
            }
            out.insert(at, e.clone());
            proof {
                let new = crate::text::views(out@);
                assert(new =~= rows.insert(at as int, e@));
                lemma_row_inserted(all, rows, new, n as int, at as int);
            }
            n = n + 1;
        }
        proof {
            let rows = crate::text::views(out@);
            assert forall|j: int| 0 <= j < rows.len() implies as_map(all).contains_key(
                (#[trigger] rows[j]).id,
            ) && as_map(all)[rows[j].id] == rows[j].meta by {
                assert(is_among(all.take(n as int), rows[j]));
                let k = choose|k: int|
                    0 <= k < all.take(n as int).len() && #[trigger] all.take(n as int)[k]
                        == rows[j];
                lemma_entry_in_map(all, k);
            }
            assert forall|id: Seq<char>| #[trigger] as_map(all).contains_key(id) implies has_id(
                rows,
                id,
            ) by {
                assert(has_id(all, id));
                let k = choose|k: int| 0 <= k < all.len() && #[trigger] all[k].id == id;
                assert(has_id(rows, all[k].id));
            }
        }
        out
    }
}

proof fn lemma_replaced(
    old_rows: Seq<SummaryView>,
    new_rows: Seq<SummaryView>,
    at: int,
    id: Seq<char>,
    meta: MetaView,
)
    requires
        ids_grow(old_rows),
        ids_grow(new_rows),
        0 <= at < old_rows.len(),
        old_rows[at].id == id,
        new_rows == old_rows.update(at, SummaryView { id, meta }),
    ensures
        as_map(new_rows) == as_map(old_rows).insert(id, meta),
{
    let a = as_map(new_rows);
    let b = as_map(old_rows).insert(id, meta);
    assert forall|x: Seq<char>| a.contains_key(x) == b.contains_key(x) by {
        if has_id(new_rows, x) {
            let k = choose|k: int| 0 <= k < new_rows.len() && #[trigger] new_rows[k].id == x;
            assert(old_rows[k].id == x);
        }
        if has_id(old_rows, x) {
            let k = choose|k: int| 0 <= k < old_rows.len() && #[trigger] old_rows[k].id == x;
            assert(new_rows[k].id == x);
        }
        if x == id {
            assert(new_rows[at].id == x);
        }
    }
    assert forall|x: Seq<char>| a.contains_key(x) implies #[trigger] a[x] == b[x] by {
        let k = choose|k: int| 0 <= k < new_rows.len() && #[trigger] new_rows[k].id == x;
        lemma_entry_in_map(new_rows, k);
        lemma_entry_in_map(old_rows, k);
        lemma_entry_in_map(new_rows, at);
        assert(new_rows[at].id == id);
    }
    assert(a =~= b);
}

proof fn lemma_inserted(
    old_rows: Seq<SummaryView>,
    new_rows: Seq<SummaryView>,
    at: int,
    id: Seq<char>,
    meta: MetaView,
)
    requires
        ids_grow(old_rows),
        0 <= at <= old_rows.len(),
        forall|k: int| 0 <= k < at ==> crate::text::text_before(#[trigger] old_rows[k].id, id),
        forall|k: int|
            at <= k < old_rows.len() ==> crate::text::text_before(id, #[trigger] old_rows[k].id),
        new_rows == old_rows.insert(at, SummaryView { id, meta }),
    ensures
        ids_grow(new_rows),
        as_map(new_rows) == as_map(old_rows).insert(id, meta),
{
    assert forall|i: int, j: int| 0 <= i < j < new_rows.len() implies crate::text::text_before(
        #[trigger] new_rows[i].id,
        #[trigger] new_rows[j].id,
    ) by {
        let oi = if i < at {
            i
        } else {
            i - 1
        };
        let oj = if j < at {
            j
        } else {
            j - 1
        };
        if i == at {
            assert(new_rows[j] == old_rows[oj]);
        } else if j == at {
            assert(new_rows[i] == old_rows[oi]);
        } else {
            assert(new_rows[i] == old_rows[oi]);
            assert(new_rows[j] == old_rows[oj]);
        }
    }
    let a = as_map(new_rows);
    let b = as_map(old_rows).insert(id, meta);
    assert(new_rows[at] == (SummaryView { id, meta }));
    lemma_entry_in_map(new_rows, at);
    assert forall|x: Seq<char>| a.contains_key(x) == b.contains_key(x) by {
        if has_id(new_rows, x) && x != id {
            let k = choose|k: int| 0 <= k < new_rows.len() && #[trigger] new_rows[k].id == x;
            let o = if k < at {
                k
            } else {
                k - 1
            };
            assert(old_rows[o].id == x);
        }
        if has_id(old_rows, x) {
            let k = choose|k: int| 0 <= k < old_rows.len() && #[trigger] old_rows[k].id == x;
            let n = if k < at {
                k
            } else {
                k + 1
            };
            assert(new_rows[n] == old_rows[k]);
            assert(new_rows[n].id == x);
        }
    }
    assert forall|x: Seq<char>| a.contains_key(x) implies #[trigger] a[x] == b[x] by {
        if x != id {
            let k = choose|k: int| 0 <= k < new_rows.len() && #[trigger] new_rows[k].id == x;
            let o = if k < at {
                k
            } else {
                k - 1
            };
            assert(new_rows[k] == old_rows[o]);
            lemma_entry_in_map(new_rows, k);
            lemma_entry_in_map(old_rows, o);
        }
    }
    assert(a =~= b);
}

/// Whether `row` is one of `rows`.
pub open spec fn is_among(rows: Seq<SummaryView>, row: SummaryView) -> bool {
    exists|k: int| 0 <= k < rows.len() && #[trigger] rows[k] == row
}

proof fn lemma_row_inserted(
    all: Seq<SummaryView>,
    rows: Seq<SummaryView>,
    new: Seq<SummaryView>,
    n: int,
    at: int,
)
    requires
        ids_grow(all),
        0 <= n < all.len(),
        0 <= at <= rows.len(),
        new == rows.insert(at, all[n]),
        forall|j: int| 0 <= j < rows.len() ==> is_among(all.take(n), #[trigger] rows[j]),
        forall|k: int| 0 <= k < n ==> has_id(rows, (#[trigger] all[k]).id),
        forall|i: int, j: int|
            0 <= i < j < rows.len() ==> listed_before(#[trigger] rows[i], #[trigger] rows[j]),
        forall|j: int|
            0 <= j < at ==> (#[trigger] rows[j]).meta.last_updated >= all[n].meta.last_updated,
        at < rows.len() ==> rows[at].meta.last_updated < all[n].meta.last_updated,
    ensures
        forall|j: int| 0 <= j < new.len() ==> is_among(all.take(n + 1), #[trigger] new[j]),
        forall|k: int| 0 <= k < n + 1 ==> has_id(new, (#[trigger] all[k]).id),
        forall|i: int, j: int|
            0 <= i < j < new.len() ==> listed_before(#[trigger] new[i], #[trigger] new[j]),
{
    assert(new[at] == all[n]);
    assert forall|j: int| 0 <= j < new.len() implies is_among(
        all.take(n + 1),
        #[trigger] new[j],
    ) by {
        lemma_still_among(all, rows, new, n, at, j);
    }
    assert forall|k: int| 0 <= k < n + 1 implies has_id(new, (#[trigger] all[k]).id) by {
        if k == n {
            assert(new[at].id == all[k].id);
        } else {
            let j = choose|j: int| 0 <= j < rows.len() && #[trigger] rows[j].id == all[k].id;
            let m = if j < at {
                j
            } else {
                j + 1
            };
            assert(new[m] == rows[j]);
            assert(new[m].id == all[k].id);
        }
    }
    assert forall|i: int, j: int| 0 <= i < j < new.len() implies listed_before(
        #[trigger] new[i],
        #[trigger] new[j],
    ) by {
        lemma_still_listed(all, rows, new, n, at, i, j);
    }
}

proof fn lemma_still_among(
    all: Seq<SummaryView>,
    rows: Seq<SummaryView>,
    new: Seq<SummaryView>,
    n: int,
    at: int,
    j: int,
)
    requires
        0 <= n < all.len(),
        0 <= at <= rows.len(),
        new == rows.insert(at, all[n]),
        forall|j: int| 0 <= j < rows.len() ==> is_among(all.take(n), #[trigger] rows[j]),
        0 <= j < new.len(),
    ensures
        is_among(all.take(n + 1), new[j]),
{
    if j == at {
        assert(all.take(n + 1)[n] == new[j]);
    } else {
        let o = if j < at {
            j
        } else {
            j - 1
        };
        assert(new[j] == rows[o]);
        let k = choose|k: int| 0 <= k < all.take(n).len() && #[trigger] all.take(n)[k] == rows[o];
        assert(all.take(n + 1)[k] == new[j]);
    }
}

proof fn lemma_still_listed(
    all: Seq<SummaryView>,
    rows: Seq<SummaryView>,
    new: Seq<SummaryView>,
    n: int,
    at: int,
    i: int,
    j: int,
)
    requires
        ids_grow(all),
        0 <= n < all.len(),
        0 <= at <= rows.len(),
        new == rows.insert(at, all[n]),
        forall|j: int| 0 <= j < rows.len() ==> is_among(all.take(n), #[trigger] rows[j]),
        forall|i: int, j: int|
            0 <= i < j < rows.len() ==> listed_before(#[trigger] rows[i], #[trigger] rows[j]),
        forall|j: int|
            0 <= j < at ==> (#[trigger] rows[j]).meta.last_updated >= all[n].meta.last_updated,
        at < rows.len() ==> rows[at].meta.last_updated < all[n].meta.last_updated,
        0 <= i < j < new.len(),
    ensures
        listed_before(new[i], new[j]),
{
    let oi = if i < at {
        i
    } else {
        i - 1
    };
    let oj = if j < at {
        j
    } else {
        j - 1
    };
    if i == at {
        assert(new[j] == rows[oj]);
        if oj > at {
            assert(listed_before(rows[at], rows[oj]));
        }
    } else if j == at {
        assert(new[i] == rows[oi]);
        let k = choose|k: int| 0 <= k < all.take(n).len() && #[trigger] all.take(n)[k] == rows[oi];
        assert(crate::text::text_before(all[k].id, all[n].id));
    } else {
        assert(new[i] == rows[oi]);
        assert(new[j] == rows[oj]);
    }
}

/// Two lists of the same sessions are the same list.
pub proof fn law_listing_is_unique(
    a: Seq<SummaryView>,
    b: Seq<SummaryView>,
    m: Map<Seq<char>, MetaView>,
)
    requires
        is_listing(a, m),
        is_listing(b, m),
    ensures
        a == b,
    decreases a.len(),
{
    if a.len() == 0 {
        if b.len() > 0 {
            assert(m.contains_key(b[0].id));
            assert(has_id(a, b[0].id));
        }
        assert(a =~= b);
    } else {
        assert(m.contains_key(a[0].id));
        assert(has_id(b, a[0].id));
        let k = choose|k: int| 0 <= k < b.len() && #[trigger] b[k].id == a[0].id;
        assert(b[k] == a[0]);
        assert(m.contains_key(b[0].id));
        assert(has_id(a, b[0].id));
        let l = choose|l: int| 0 <= l < a.len() && #[trigger] a[l].id == b[0].id;
        assert(a[l] == b[0]);
        crate::text::lemma_text_order(a[0].id, b[0].id, a[0].id);
        if k > 0 {
            assert(listed_before(b[0], b[k]));
            if l > 0 {
                assert(listed_before(a[0], a[l]));
            }
        }
        let n = m.remove(a[0].id);
        lemma_listing_tail(a, m);
        lemma_listing_tail(b, m);
        law_listing_is_unique(a.drop_first(), b.drop_first(), n);
        assert(a =~= seq![a[0]] + a.drop_first());
        assert(b =~= seq![a[0]] + a.drop_first());
    }
}

proof fn lemma_listing_tail(a: Seq<SummaryView>, m: Map<Seq<char>, MetaView>)
    requires
        is_listing(a, m),
        a.len() > 0,
    ensures
        is_listing(a.drop_first(), m.remove(a[0].id)),
{
    let t = a.drop_first();
    let n = m.remove(a[0].id);
    assert forall|j: int| 0 <= j < t.len() implies n.contains_key((#[trigger] t[j]).id)
        && n[t[j].id] == t[j].meta by {
        assert(t[j] == a[j + 1]);
        assert(listed_before(a[0], a[j + 1]));
        crate::text::lemma_text_order(a[0].id, a[j + 1].id, a[0].id);
        assert(m.contains_key(a[j + 1].id));
        assert(m.contains_key(a[0].id));
    }
    assert forall|id: Seq<char>| #[trigger] n.contains_key(id) implies has_id(t, id) by {
        assert(m.contains_key(id));
        assert(has_id(a, id));
        let k = choose|k: int| 0 <= k < a.len() && #[trigger] a[k].id == id;
        assert(t[k - 1] == a[k]);
        assert(t[k - 1].id == id);
    }
    assert forall|i: int, j: int| 0 <= i < j < t.len() implies listed_before(
        #[trigger] t[i],
        #[trigger] t[j],
    ) by {
        assert(t[i] == a[i + 1]);
        assert(t[j] == a[j + 1]);
    }
}

/// A lower-case hexadecimal digit.
pub open spec fn is_lower_hex(c: char) -> bool {
    '0' <= c <= '9' || 'a' <= c <= 'f'
}

/// A UUID as text: 32 hexadecimal digits in five groups.
pub open spec fn is_uuid(s: Seq<char>) -> bool {
    &&& s.len() == 36
    &&& forall|i: int|
        0 <= i < 36 ==> if i == 8 || i == 13 || i == 18 || i == 23 {
            #[trigger] s[i] == '-'
        } else {
            is_lower_hex(s[i])
        }
}

/// `uuid::Uuid::new_v4` written with `to_string`: a random id. Of every outcome it holds that the
/// text has the hyphenated lower-case form of a UUID; which digits stand in it is left to chance.
#[verifier::external_body]
fn random_id() -> (r: String)
    ensures
        is_uuid(r@),
{
    uuid::Uuid::new_v4().to_string()
}

/// Where the log of a session lives.
pub fn log_path(dir: &str, id: &str) -> (r: String)
    ensures
        r@ == super::file::path_in(dir@, id@ + ".jsonl"@),
{
    let name: String = crate::text::join2(id, ".jsonl");
    super::file::join_path(dir, name.as_str())
}

/// Where the index of a directory lives.
pub fn index_path(dir: &str) -> (r: String)
    ensures
        r@ == super::file::path_in(dir@, INDEX_FILE@),
{
    super::file::join_path(dir, INDEX_FILE)
}

/// The session that a conversation is being written to.
#[derive(Debug)]
pub struct SessionStore {
    dir: String,
    id: String,
    meta: SessionMeta,
}

/// Metadata after a turn was appended at `now`: the time of the last write moves, and a session
/// without a name takes the first thing that its user says.
pub open spec fn touched(meta: MetaView, turn: super::TurnView, now: UnixMillis) -> MetaView {
    MetaView {
        name: if meta.name is None && turn.role == Role::User {
            Some(turn.text)
        } else {
            meta.name
        },
        last_updated: now,
        ..meta
    }
}

/// Metadata after a session was opened at `now`; one that the index does not know is new.
pub open spec fn opened(
    index: Map<Seq<char>, MetaView>,
    id: Seq<char>,
    now: UnixMillis,
) -> MetaView {
    if index.contains_key(id) {
        MetaView { last_opened: now, ..index[id] }
    } else {
        MetaView::fresh(now)
    }
}

/// A session was resumed at `now`: it is the one with the id and keeps the name and the times that the
/// index had for it, all but the time of its opening; one that the index does not know has no name and
/// is as old as its opening. The index has it so, and every other session as before.
pub open spec fn resumes(
    before: Map<Seq<char>, MetaView>,
    after: Map<Seq<char>, MetaView>,
    id: Seq<char>,
    now: UnixMillis,
    session: SummaryView,
) -> bool {
    &&& session.id == id
    &&& session.meta.last_opened == now
    &&& before.contains_key(id) ==> session.meta.name == before[id].name
    &&& before.contains_key(id) ==> session.meta.created_at == before[id].created_at
    &&& before.contains_key(id) ==> session.meta.last_updated == before[id].last_updated
    &&& !before.contains_key(id) ==> session.meta.name is None
    &&& !before.contains_key(id) ==> session.meta.created_at == now
    &&& !before.contains_key(id) ==> session.meta.last_updated == now
    &&& after.contains_key(id)
    &&& after[id] == session.meta
    &&& forall|other: Seq<char>|
        other != id ==> (#[trigger] after.contains_key(other) == before.contains_key(other)
            && after[other] == before[other])
}

/// A session was begun at `now`: it has no name and is as old as that. The index has it so, and every
/// other session as before.
pub open spec fn begins(
    before: Map<Seq<char>, MetaView>,
    after: Map<Seq<char>, MetaView>,
    now: UnixMillis,
    session: SummaryView,
) -> bool {
    &&& session.meta.name is None
    &&& session.meta.created_at == now
    &&& session.meta.last_opened == now
    &&& session.meta.last_updated == now
    &&& after.contains_key(session.id)
    &&& after[session.id] == session.meta
    &&& forall|other: Seq<char>|
        other != session.id ==> (#[trigger] after.contains_key(other) == before.contains_key(other)
            && after[other] == before[other])
}

/// A turn was written to a session at `now`: the time of its last write moves and no other, and a name
/// is taken only where there is none, from what the user says. The index has it so, and every other
/// session as before.
pub open spec fn writes(
    before: Map<Seq<char>, MetaView>,
    after: Map<Seq<char>, MetaView>,
    turn: super::TurnView,
    now: UnixMillis,
    old_session: SummaryView,
    session: SummaryView,
) -> bool {
    &&& session.id == old_session.id
    &&& session.meta.last_updated == now
    &&& session.meta.created_at == old_session.meta.created_at
    &&& session.meta.last_opened == old_session.meta.last_opened
    &&& old_session.meta.name is Some ==> session.meta.name == old_session.meta.name
    &&& old_session.meta.name is None && turn.role == Role::User ==> session.meta.name == Some(
        turn.text,
    )
    &&& old_session.meta.name is None && turn.role != Role::User ==> session.meta.name is None
    &&& after.contains_key(session.id)
    &&& after[session.id] == session.meta
    &&& forall|other: Seq<char>|
        other != session.id ==> (#[trigger] after.contains_key(other) == before.contains_key(other)
            && after[other] == before[other])
}

impl SessionStore {
    /// The sessions directory.
    pub closed spec fn dir(&self) -> Seq<char> {
        self.dir@
    }

    /// The current session.
    pub closed spec fn summary(&self) -> SummaryView {
        SummaryView { id: self.id@, meta: self.meta@ }
    }

    /// Start a session with the given id and enter it into the index.
    pub fn create_with_id(
        dir: &str,
        id: String,
        index: &mut SessionIndex,
        now: UnixMillis,
    ) -> (r: Self)
        requires
            old(index).wf(),
        ensures
            final(index).wf(),
            final(index)@ == old(index)@.insert(id@, MetaView::fresh(now)),
            r.dir() == dir@,
            r.summary() == (SummaryView { id: id@, meta: MetaView::fresh(now) }),
            begins(old(index)@, final(index)@, now, r.summary()),
    {
        let meta: SessionMeta = SessionMeta::fresh(now);
        index.insert(id.as_str(), meta.clone());
        SessionStore { dir: dir.to_owned(), id, meta }
    }

    /// Start a session with a new random id and enter it into the index.
    pub fn create_new(dir: &str, index: &mut SessionIndex, now: UnixMillis) -> (r: Self)
        requires
            old(index).wf(),
        ensures
            is_uuid(r.summary().id),
            final(index).wf(),
            final(index)@ == old(index)@.insert(r.summary().id, MetaView::fresh(now)),
            r.dir() == dir@,
            r.summary().meta == MetaView::fresh(now),
            begins(old(index)@, final(index)@, now, r.summary()),
    {
        let id: String = random_id();
        SessionStore::create_with_id(dir, id, index, now)
    }

    /// Resume a session by id and note when it was opened. An id that the index does not know gets
    /// a new entry, so that a stray log can still be opened.
    pub fn load(dir: &str, id: &str, index: &mut SessionIndex, now: UnixMillis) -> (r: Self)
        requires
            old(index).wf(),
        ensures
            final(index).wf(),
            final(index)@ == old(index)@.insert(id@, opened(old(index)@, id@, now)),
            r.dir() == dir@,
            r.summary() == (SummaryView { id: id@, meta: opened(old(index)@, id@, now) }),
            resumes(old(index)@, final(index)@, id@, now, r.summary()),
            r.summary().id == id@,
            r.summary().meta.last_opened == now,
            old(index)@.contains_key(id@) ==> r.summary().meta.name == old(index)@[id@].name,
            old(index)@.contains_key(id@) ==> r.summary().meta.created_at
                == old(index)@[id@].created_at,
            old(index)@.contains_key(id@) ==> r.summary().meta.last_updated
                == old(index)@[id@].last_updated,
    {
        let mut meta: SessionMeta = match index.get(id) {
            Some(m) => m,
            None => SessionMeta::fresh(now),
        };
        meta.last_opened = now;
        index.insert(id, meta.clone());
        SessionStore { dir: dir.to_owned(), id: id.to_owned(), meta }
    }

    /// Leave the current session and start a new one in the same directory.
    pub fn start_new(&mut self, index: &mut SessionIndex, now: UnixMillis) -> (r: SessionSummary)
        requires
            old(index).wf(),
        ensures
            is_uuid(r@.id),
            final(index).wf(),
            final(index)@ == old(index)@.insert(r@.id, MetaView::fresh(now)),
            final(self).dir() == old(self).dir(),
            final(self).summary() == r@,
            r@.meta == MetaView::fresh(now),
            begins(old(index)@, final(index)@, now, r@),
    {
        let next: SessionStore = SessionStore::create_new(self.dir.as_str(), index, now);
        *self = next;
        self.current_summary()
    }

    /// Leave the current session and resume another one of the same directory.
    pub fn switch_to(&mut self, id: &str, index: &mut SessionIndex, now: UnixMillis) -> (r:
        SessionSummary)
        requires
            old(index).wf(),
        ensures
            final(index).wf(),
            final(index)@ == old(index)@.insert(id@, opened(old(index)@, id@, now)),
            final(self).dir() == old(self).dir(),
            final(self).summary() == r@,
            r@ == (SummaryView { id: id@, meta: opened(old(index)@, id@, now) }),
            resumes(old(index)@, final(index)@, id@, now, r@),
            r@.id == id@,
            r@.meta.last_opened == now,
            old(index)@.contains_key(id@) ==> r@.meta.name == old(index)@[id@].name,
            old(index)@.contains_key(id@) ==> r@.meta.created_at == old(index)@[id@].created_at,
            old(index)@.contains_key(id@) ==> r@.meta.last_updated == old(index)@[id@].last_updated,
    {
        let next: SessionStore = SessionStore::load(self.dir.as_str(), id, index, now);
        *self = next;
        self.current_summary()
    }

    /// Every session of an index, the last written to first.
    pub fn list(index: &SessionIndex) -> (r: Vec<SessionSummary>)
        requires
            index.wf(),
        ensures
            is_listing(crate::text::views(r@), index@),
    {
        index.list()
    }

    /// Summary of the current session.
    pub fn current_summary(&self) -> (r: SessionSummary)
        ensures
            r@ == self.summary(),
    {
        SessionSummary { id: self.id.clone(), meta: self.meta.clone() }
    }

    /// The current session with the turns of its log.
    pub fn current(&self, turns: Vec<HistoryTurn>) -> (r: Session)
        ensures
            r.id@ == self.summary().id,
            r.meta@ == self.summary().meta,
            r.turns == turns,
    {
        Session { id: self.id.clone(), meta: self.meta.clone(), turns }
    }

    /// Where the current session's log lives.
    pub fn current_log(&self) -> (r: String)
        ensures
            r@ == super::file::path_in(self.dir(), self.summary().id + ".jsonl"@),
    {
        log_path(self.dir.as_str(), self.id.as_str())
    }

    /// Set or clear the current session's name.
    pub fn rename(&mut self, name: Option<String>, index: &mut SessionIndex)
        requires
            old(index).wf(),
        ensures
            final(self).dir() == old(self).dir(),
            final(self).summary() == (SummaryView {
                id: old(self).summary().id,
                meta: MetaView { name: opt_text(name), ..old(self).summary().meta },
            }),
            final(index).wf(),
            final(index)@ == old(index)@.insert(
                final(self).summary().id,
                final(self).summary().meta,
            ),
    {
        self.meta.name = name;
        index.insert(self.id.as_str(), self.meta.clone());
    }

    /// Note in the index that a turn was appended to the current session's log at `now`.
    pub fn append(&mut self, turn: &HistoryTurn, index: &mut SessionIndex, now: UnixMillis)
        requires
            old(index).wf(),
        ensures
            final(self).dir() == old(self).dir(),
            final(self).summary() == (SummaryView {
                id: old(self).summary().id,
                meta: touched(old(self).summary().meta, turn@, now),
            }),
            final(index).wf(),
            final(index)@ == old(index)@.insert(
                final(self).summary().id,
                final(self).summary().meta,
            ),
            writes(
                old(index)@,
                final(index)@,
                turn@,
                now,
                old(self).summary(),
                final(self).summary(),
            ),
    {
        self.meta.last_updated = now;
        if self.meta.name.is_none() && turn.role == Role::User {
            self.meta.name = Some(turn.text.clone());
        }
        index.insert(self.id.as_str(), self.meta.clone());
    }
}

/// Writing to a session moves it to the top of the list, where the time of the write is later than
/// that of any other session's last write.
pub proof fn law_written_session_leads(
    index: Map<Seq<char>, MetaView>,
    rows: Seq<SummaryView>,
    id: Seq<char>,
    meta: MetaView,
)
    requires
        is_listing(rows, index.insert(id, meta)),
        forall|other: Seq<char>|
            #[trigger] index.contains_key(other) && other != id ==> index[other].last_updated
                < meta.last_updated,
    ensures
        rows.len() > 0,
        rows[0] == (SummaryView { id, meta }),
{
    let m = index.insert(id, meta);
    assert(m.contains_key(id));
    assert(has_id(rows, id));
    let k = choose|k: int| 0 <= k < rows.len() && #[trigger] rows[k].id == id;
    if k > 0 {
        assert(listed_before(rows[0], rows[k]));
        assert(m.contains_key(rows[0].id));
        crate::text::lemma_text_order(rows[0].id, rows[k].id, id);
        if rows[0].id != id {
            assert(index.contains_key(rows[0].id));
        }
    }
}

/// Resuming a session keeps its name and its times, but for when it was opened; beginning one, and
/// resuming one that is not known, gives it no name and the present time.
pub proof fn law_resumed_session_is_the_same(
    index: Map<Seq<char>, MetaView>,
    id: Seq<char>,
    now: UnixMillis,
)
    ensures
        index.contains_key(id) ==> opened(index, id, now).name == index[id].name,
        index.contains_key(id) ==> opened(index, id, now).created_at == index[id].created_at,
        index.contains_key(id) ==> opened(index, id, now).last_updated == index[id].last_updated,
        opened(index, id, now).last_opened == now,
        !index.contains_key(id) ==> opened(index, id, now) == (MetaView {
            name: None,
            created_at: now,
            last_opened: now,
            last_updated: now,
        }),
        MetaView::fresh(now) == (MetaView {
            name: None,
            created_at: now,
            last_opened: now,
            last_updated: now,
        }),
{
}

/// A name once taken stays through every turn, a session is named by the first turn of its user, and
/// only the time of the last write follows the turns.
pub proof fn law_first_words_name_a_session(
    meta: MetaView,
    first: super::TurnView,
    second: super::TurnView,
    now: UnixMillis,
    later: UnixMillis,
)
    requires
        meta.name is None,
        first.role == Role::User,
    ensures
        touched(meta, first, now).name == Some(first.text),
        touched(touched(meta, first, now), second, later).name == Some(first.text),
        touched(touched(meta, first, now), second, later).last_updated == later,
        touched(meta, first, now).created_at == meta.created_at,
        touched(meta, first, now).last_opened == meta.last_opened,
        second.role != Role::User ==> touched(meta, second, now).name is None,
{
}

/// A list of sessions holds each session once, with what the index has for it, and none other: the last
/// written to stands first, and of two written to at the same time the one with the smaller id.
pub proof fn law_listing_is_by_the_last_write(
    rows: Seq<SummaryView>,
    index: Map<Seq<char>, MetaView>,
    i: int,
    j: int,
)
    requires
        is_listing(rows, index),
        0 <= i < j < rows.len(),
    ensures
        rows[i].meta.last_updated >= rows[j].meta.last_updated,
        rows[i].meta.last_updated == rows[j].meta.last_updated ==> crate::text::text_before(
            rows[i].id,
            rows[j].id,
        ),
        rows[i].id != rows[j].id,
        index.contains_key(rows[i].id),
        index[rows[i].id] == rows[i].meta,
        forall|id: Seq<char>| #[trigger] index.contains_key(id) ==> has_id(rows, id),
{
    assert(listed_before(rows[i], rows[j]));
    crate::text::lemma_text_order(rows[i].id, rows[j].id, rows[i].id);
    assert(index[rows[j].id] == rows[j].meta);
}

/// A session's id is thirty-two digits and letters from a to f, in groups of eight, four, four, four and
/// twelve with a hyphen between two.
pub proof fn law_form_of_an_id(id: Seq<char>, i: int)
    requires
        is_uuid(id),
        0 <= i < id.len(),
    ensures
        id.len() == 36,
        i == 8 || i == 13 || i == 18 || i == 23 ==> id[i] == '-',
        !(i == 8 || i == 13 || i == 18 || i == 23) ==> '0' <= id[i] <= '9' || 'a' <= id[i] <= 'f',
{
}

/// The order of a list of sessions: by the time of the last write, the later first, and else by id; of
/// two different sessions exactly one comes first.
pub proof fn law_order_of_a_list(a: SummaryView, b: SummaryView)
    ensures
        a.meta.last_updated > b.meta.last_updated ==> listed_before(a, b),
        a.meta.last_updated < b.meta.last_updated ==> !listed_before(a, b),
        a.meta.last_updated == b.meta.last_updated ==> listed_before(a, b) == crate::text::text_before(
            a.id,
            b.id,
        ),
        a.id != b.id ==> listed_before(a, b) != listed_before(b, a),
{
    crate::text::lemma_text_order(a.id, b.id, a.id);
}

} // verus!
