//! A soft-delete table and the listing rules every resource shares: rows
//! marked deleted are left out, an optional search term is matched
//! case-insensitively against the row's text columns, an optional boolean
//! filter is applied, the result is put in the resource's fixed order and a
//! page window is cut from it.

use vstd::prelude::*;
use crate::models::opt_view;
use crate::paging::{apply_window, page_window, lemma_next_page_continues, take_window, window_spec, PageError, PageRule, Window};
use crate::text::{string_of, chars_of, contains_chars, is_substring, lower_of, lowercase};

verus! {

/// One stored row, as the listing rules see it.
pub struct Record {
    pub id: u64,
    /// The manual order key (resources ordered by id ignore it).
    pub rank: i64,
    /// The resource's boolean attribute (published, relevant, ...).
    pub flag: bool,
    /// The text columns that a search looks at.
    pub columns: Vec<String>,
    /// Unix time of the soft delete; `None` while the row is active.
    pub deleted_at: Option<i64>,
}

pub struct RecordView {
    pub id: u64,
    pub rank: i64,
    pub flag: bool,
    pub columns: Seq<Seq<char>>,
    pub deleted_at: Option<i64>,
}

impl View for Record {
    type V = RecordView;

    open spec fn view(&self) -> RecordView {
        RecordView {
            id: self.id,
            rank: self.rank,
            flag: self.flag,
            columns: self.columns@.map_values(|c: String| c@),
            deleted_at: self.deleted_at,
        }
    }
}

/// No key of `s` comes strictly before an earlier one in descending
/// (rank, id) order.
pub open spec fn descending(s: Seq<(i64, u64)>) -> bool {
    forall|i: int, j: int| 0 <= i < j < s.len() ==> !precedes(#[trigger] s[j], #[trigger] s[i])
}

proof fn lemma_insert_pos_spec(s: Seq<(i64, u64)>, x: (i64, u64))
    ensures
        insert_pos(s, x) <= s.len(),
        forall|k: int| 0 <= k < insert_pos(s, x) ==> !precedes(x, #[trigger] s[k]),
        insert_pos(s, x) < s.len() ==> precedes(x, s[insert_pos(s, x) as int]),
    decreases s.len(),
{
    if s.len() > 0 && !precedes(x, s[0]) {
        lemma_insert_pos_spec(s.drop_first(), x);
        assert forall|k: int| 0 <= k < insert_pos(s, x) implies !precedes(x, #[trigger] s[k]) by {
            if k > 0 {
                assert(s[k] == s.drop_first()[k - 1]);
            }
        }
    }
}

/// Sorting puts keys in descending order of rank, and rows of equal rank
/// in descending order of id.
pub proof fn lemma_rank_sorted_descending(s: Seq<(i64, u64)>)
    ensures
        descending(rank_sorted(s)),
    decreases s.len(),
{
    if s.len() > 0 {
        let rest = s.drop_last();
        lemma_rank_sorted_descending(rest);
        let sorted = rank_sorted(rest);
        let x = s.last();
        let p = insert_pos(sorted, x) as int;
        lemma_insert_pos_spec(sorted, x);
        let ins = sorted.insert(p, x);
        assert forall|i: int, j: int| 0 <= i < j < ins.len() implies !precedes(
            #[trigger] ins[j],
            #[trigger] ins[i],
        ) by {
            if j < p {
                assert(ins[i] == sorted[i] && ins[j] == sorted[j]);
            } else if j == p {
                assert(ins[i] == sorted[i]);
            } else if i < p {
                assert(ins[i] == sorted[i] && ins[j] == sorted[j - 1]);
            } else if i == p {
                assert(ins[j] == sorted[j - 1]);
                if j - 1 > p {
                    assert(!precedes(sorted[j - 1], sorted[p]));
                }
            } else {
                assert(ins[i] == sorted[i - 1] && ins[j] == sorted[j - 1]);
            }
        }
    }
}

/// The fixed order of a resource's listings.
#[derive(Debug, Clone, Copy, PartialEq, Eq, Structural)]
pub enum Order {
    /// Newest first: descending id.
    IdDesc,
    /// Descending manual order key, ties broken by descending id.
    RankDesc,
}

/// A listing request in resolved form.
pub struct ListQuery {
    pub window: Window,
    /// A non-empty search term; `None` searches nothing.
    pub search: Option<String>,
    /// Keep only rows whose flag equals this.
    pub flag: Option<bool>,
    pub order: Order,
}

pub open spec fn search_view(q: &ListQuery) -> Option<Seq<char>> {
    match q.search {
        Some(s) => Some(s@),
        None => None,
    }
}

#[derive(Debug, Clone, Copy, PartialEq, Eq, Structural)]
pub enum RepoError {
    /// No row has the given id.
    NotFound,
    /// Every id has been used.
    IdsExhausted,
}

/// Some text column of the row contains the term, ignoring case.
pub open spec fn column_matches(columns: Seq<Seq<char>>, term: Seq<char>) -> bool {
    exists|i: int| 0 <= i < columns.len() && is_substring(lower_of(term), #[trigger] lower_of(columns[i]))
}

/// The row takes part in a listing for `q`.
pub open spec fn visible(r: RecordView, q: &ListQuery) -> bool {
    &&& r.deleted_at is None
    &&& (q.flag matches Some(f) ==> r.flag == f)
    &&& (search_view(q) matches Some(t) ==> column_matches(r.columns, t))
}

/// The rows of `rows` that take part, in storage order.
pub open spec fn selected(rows: Seq<RecordView>, q: &ListQuery) -> Seq<RecordView>
    decreases rows.len(),
{
    if rows.len() == 0 {
        Seq::empty()
    } else {
        let rest = selected(rows.drop_last(), q);
        if visible(rows.last(), q) {
            rest.push(rows.last())
        } else {
            rest
        }
    }
}

/// `a` comes before `b` in descending (rank, id) order.
pub open spec fn precedes(a: (i64, u64), b: (i64, u64)) -> bool {
    a.0 > b.0 || (a.0 == b.0 && a.1 > b.1)
}

/// Where `x` goes in a list kept in descending (rank, id) order.
pub open spec fn insert_pos(s: Seq<(i64, u64)>, x: (i64, u64)) -> nat
    decreases s.len(),
{
    if s.len() == 0 {
        0
    } else if precedes(x, s[0]) {
        0
    } else {
        1 + insert_pos(s.drop_first(), x)
    }
}

/// `s` sorted into descending (rank, id) order, one key at a time.
pub open spec fn rank_sorted(s: Seq<(i64, u64)>) -> Seq<(i64, u64)>
    decreases s.len(),
{
    if s.len() == 0 {
        s
    } else {
        let sorted = rank_sorted(s.drop_last());
        sorted.insert(insert_pos(sorted, s.last()) as int, s.last())
    }
}

pub open spec fn key_of(r: RecordView) -> (i64, u64) {
    (r.rank, r.id)
}

/// The ids of the selected rows in the resource's order.
pub open spec fn ordered_ids(sel: Seq<RecordView>, order: Order) -> Seq<u64> {
    match order {
        Order::IdDesc => sel.map_values(|r: RecordView| r.id).reverse(),
        Order::RankDesc => rank_sorted(sel.map_values(|r: RecordView| key_of(r))).map_values(
            |k: (i64, u64)| k.1,
        ),
    }
}

/// The ids that a listing for `q` returns.
pub open spec fn listed(rows: Seq<RecordView>, q: &ListQuery) -> Seq<u64> {
    take_window(ordered_ids(selected(rows, q), q.order), q.window)
}

/// Ids strictly increase along the rows, so each id names one row.
pub open spec fn ids_increasing(rows: Seq<RecordView>) -> bool {
    forall|i: int, j: int| 0 <= i < j < rows.len() ==> rows[i].id < rows[j].id
}

pub open spec fn has_id(rows: Seq<RecordView>, id: u64) -> bool {
    exists|i: int| 0 <= i < rows.len() && #[trigger] rows[i].id == id
}

/// The rows with the row `id` given the deletion mark `d`.
pub open spec fn with_deleted_at(rows: Seq<RecordView>, id: u64, d: Option<i64>) -> Seq<RecordView> {
    rows.map_values(|r: RecordView| if r.id == id { RecordView { deleted_at: d, ..r } } else { r })
}

/// The rows with the row `id` given new contents.
pub open spec fn with_contents(
    rows: Seq<RecordView>,
    id: u64,
    rank: i64,
    flag: bool,
    columns: Seq<Seq<char>>,
) -> Seq<RecordView> {
    rows.map_values(
        |r: RecordView|
            if r.id == id {
                RecordView { rank: rank, flag: flag, columns: columns, ..r }
            } else {
                r
            },
    )
}

fn precedes_exec(a: (i64, u64), b: (i64, u64)) -> (r: bool)
    ensures
        r == precedes(a, b),
{
    a.0 > b.0 || (a.0 == b.0 && a.1 > b.1)
}

proof fn lemma_insert_pos(s: Seq<(i64, u64)>, x: (i64, u64), j: int)
    requires
        0 <= j <= s.len(),
        forall|k: int| 0 <= k < j ==> !precedes(x, #[trigger] s[k]),
        j == s.len() || precedes(x, s[j]),
    ensures
        insert_pos(s, x) == j,
    decreases j,
{
    if j > 0 {
        assert(!precedes(x, s[0]));
        assert forall|k: int| 0 <= k < j - 1 implies !precedes(x, #[trigger] s.drop_first()[k]) by {
            assert(s.drop_first()[k] == s[k + 1]);
        }
        lemma_insert_pos(s.drop_first(), x, j - 1);
    }
}

/// Sorts keys into descending (rank, id) order.
fn sort_by_rank(keys: &Vec<(i64, u64)>) -> (r: Vec<(i64, u64)>)
    ensures
        r@ == rank_sorted(keys@),
{
    let mut out: Vec<(i64, u64)> = Vec::new();
    let mut i: usize = 0;
    while i < keys.len()
        invariant
            i <= keys.len(),
            out@ == rank_sorted(keys@.subrange(0, i as int)),
        decreases keys.len() - i,
    {
        let x = keys[i];
        let mut j: usize = 0;
        while j < out.len() && !precedes_exec(x, out[j])
            invariant
                j <= out.len(),
                forall|k: int| 0 <= k < j ==> !precedes(x, #[trigger] out@[k]),
            decreases out.len() - j,
        {
            j = j + 1;
        }
        proof {
            lemma_insert_pos(out@, x, j as int);
            assert(keys@.subrange(0, i + 1).drop_last() =~= keys@.subrange(0, i as int));
        }
        out.insert(j, x);
        i = i + 1;
    }
    assert(keys@.subrange(0, keys.len() as int) =~= keys@);
    out
}

/// Whether some column of `r` contains `term`, both lower-cased.
fn columns_match(r: &Record, term: &Vec<char>, Ghost(raw): Ghost<Seq<char>>) -> (b: bool)
    requires
        term@ == lower_of(raw),
    ensures
        b == column_matches(r@.columns, raw),
{
    let mut i: usize = 0;
    while i < r.columns.len()
        invariant
            i <= r.columns.len(),
            term@ == lower_of(raw),
            forall|j: int| 0 <= j < i ==> !is_substring(lower_of(raw), #[trigger] lower_of(r@.columns[j])),
        decreases r.columns.len() - i,
    {
        let low = lowercase(r.columns[i].as_str());
        let hay = chars_of(low.as_str());
        if contains_chars(&hay, term) {
            assert(r@.columns[i as int] == r.columns@[i as int]@);
            return true;
        }
        assert(r@.columns[i as int] == r.columns@[i as int]@);
        i = i + 1;
    }
    false
}

/// The lower-cased search term of a query, as characters.
fn lowered_term(q: &ListQuery) -> (r: Option<Vec<char>>)
    ensures
        match search_view(q) {
            Some(t) => (r matches Some(v) && v@ == lower_of(t)),
            None => r is None,
        },
{
    match &q.search {
        Some(s) => {
            let low = lowercase(s.as_str());
            Some(chars_of(low.as_str()))
        },
        None => None,
    }
}

fn is_visible(r: &Record, q: &ListQuery, term: &Option<Vec<char>>) -> (b: bool)
    requires
        match search_view(q) {
            Some(t) => (*term matches Some(v) && v@ == lower_of(t)),
            None => term is None,
        },
    ensures
        b == visible(r@, q),
{
    if r.deleted_at.is_some() {
        return false;
    }
    match q.flag {
        Some(f) => {
            if r.flag != f {
                return false;
            }
        },
        None => {},
    }
    match term {
        Some(v) => columns_match(r, v, Ghost(search_view(q)->Some_0)),
        None => true,
    }
}

proof fn lemma_selected_has_no_deleted(rows: Seq<RecordView>, q: &ListQuery)
    ensures
        forall|k: int| 0 <= k < selected(rows, q).len() ==> visible(#[trigger] selected(rows, q)[k], q),
        forall|k: int|
            0 <= k < selected(rows, q).len() ==> exists|i: int|
                0 <= i < rows.len() && rows[i] == #[trigger] selected(rows, q)[k],
    decreases rows.len(),
{
    if rows.len() > 0 {
        lemma_selected_has_no_deleted(rows.drop_last(), q);
        let rest = selected(rows.drop_last(), q);
        assert forall|k: int| 0 <= k < selected(rows, q).len() implies exists|i: int|
            0 <= i < rows.len() && rows[i] == #[trigger] selected(rows, q)[k] by {
            if k < rest.len() {
                let i = choose|i: int| 0 <= i < rows.drop_last().len() && rows.drop_last()[i] == rest[k];
                assert(rows[i] == selected(rows, q)[k]);
            } else {
                assert(rows[rows.len() - 1] == selected(rows, q)[k]);
            }
        }
    }
}

proof fn lemma_rank_sorted_members(s: Seq<(i64, u64)>)
    ensures
        rank_sorted(s).len() == s.len(),
        forall|x: (i64, u64)| rank_sorted(s).contains(x) <==> s.contains(x),
    decreases s.len(),
{
    if s.len() > 0 {
        let rest = s.drop_last();
        lemma_rank_sorted_members(rest);
        let sorted = rank_sorted(rest);
        let p = insert_pos(sorted, s.last()) as int;
        lemma_insert_pos_bound(sorted, s.last());
        let ins = sorted.insert(p, s.last());
        assert forall|x: (i64, u64)| ins.contains(x) <==> s.contains(x) by {
            if ins.contains(x) {
                let k = choose|k: int| 0 <= k < ins.len() && ins[k] == x;
                if k < p {
                    assert(sorted[k] == x);
                    assert(rest.contains(x));
                    let m = choose|m: int| 0 <= m < rest.len() && rest[m] == x;
                    assert(s[m] == x);
                } else if k == p {
                    assert(s[s.len() - 1] == x);
                } else {
                    assert(sorted[k - 1] == x);
                    assert(rest.contains(x));
                    let m = choose|m: int| 0 <= m < rest.len() && rest[m] == x;
                    assert(s[m] == x);
                }
            }
            if s.contains(x) {
                let m = choose|m: int| 0 <= m < s.len() && s[m] == x;
                if m == s.len() - 1 {
                    assert(ins[p] == x);
                } else {
                    assert(rest[m] == x);
                    assert(rest.contains(x));
                    assert(sorted.contains(x));
                    let k = choose|k: int| 0 <= k < sorted.len() && sorted[k] == x;
                    if k < p {
                        assert(ins[k] == x);
                    } else {
                        assert(ins[k + 1] == x);
                    }
                }
            }
        }
    }
}

proof fn lemma_insert_pos_bound(s: Seq<(i64, u64)>, x: (i64, u64))
    ensures
        insert_pos(s, x) <= s.len(),
    decreases s.len(),
{
    if s.len() > 0 {
        lemma_insert_pos_bound(s.drop_first(), x);
    }
}

/// Every id in a listing belongs to a row that takes part in it.
proof fn lemma_listed_ids_visible(rows: Seq<RecordView>, q: &ListQuery, id: u64)
    requires
        listed(rows, q).contains(id),
    ensures
        exists|i: int| 0 <= i < rows.len() && rows[i].id == id && visible(#[trigger] rows[i], q),
{
    let sel = selected(rows, q);
    let ids = ordered_ids(sel, q.order);
    let w = take_window(ids, q.window);
    let k = choose|k: int| 0 <= k < w.len() && w[k] == id;
    let start = if q.window.offset < ids.len() { q.window.offset as int } else { ids.len() as int };
    assert(w[k] == ids[start + k]);
    assert(ids.contains(id));
    lemma_selected_has_no_deleted(rows, q);
    let m: int = match q.order {
        Order::IdDesc => {
            let j = choose|j: int| 0 <= j < ids.len() && ids[j] == id;
            let m = sel.len() - 1 - j;
            assert(sel[m].id == id);
            m
        },
        Order::RankDesc => {
            let keys = sel.map_values(|r: RecordView| key_of(r));
            lemma_rank_sorted_members(keys);
            let j = choose|j: int| 0 <= j < ids.len() && ids[j] == id;
            let kx = rank_sorted(keys)[j];
            assert(kx.1 == id);
            assert(rank_sorted(keys).contains(kx));
            assert(keys.contains(kx));
            let m = choose|m: int| 0 <= m < keys.len() && keys[m] == kx;
            assert(sel[m].id == id);
            m
        },
    };
    assert(0 <= m < sel.len() && sel[m].id == id);
    assert(visible(sel[m], q));
    let i = choose|i: int| 0 <= i < rows.len() && rows[i] == sel[m];
    assert(rows[i].id == id && visible(rows[i], q));
}

proof fn lemma_selected_contains(rows: Seq<RecordView>, q: &ListQuery, i: int)
    requires
        0 <= i < rows.len(),
        visible(rows[i], q),
    ensures
        selected(rows, q).contains(rows[i]),
    decreases rows.len(),
{
    if i < rows.len() - 1 {
        lemma_selected_contains(rows.drop_last(), q, i);
        let rest = selected(rows.drop_last(), q);
        let k = choose|k: int| 0 <= k < rest.len() && rest[k] == rows[i];
        assert(selected(rows, q)[k] == rows[i]);
    } else {
        let sel = selected(rows, q);
        assert(sel[sel.len() - 1] == rows[i]);
    }
}

proof fn lemma_nothing_selected(rows: Seq<RecordView>, q: &ListQuery)
    requires
        forall|i: int| 0 <= i < rows.len() ==> !visible(#[trigger] rows[i], q),
    ensures
        selected(rows, q) == Seq::<RecordView>::empty(),
    decreases rows.len(),
{
    if rows.len() > 0 {
        assert(!visible(rows[rows.len() - 1], q));
        lemma_nothing_selected(rows.drop_last(), q);
    }
}

/// Soft delete is idempotent: deleting a row that is already deleted
/// finds it again and succeeds, and leaves the rows exactly as a single
/// delete at the later time would (the same rows when both times are
/// equal); the row stays out of every listing.
pub proof fn lemma_soft_delete_idempotent(
    rows: Seq<RecordView>,
    id: u64,
    first: i64,
    second: i64,
    q: &ListQuery,
)
    requires
        ids_increasing(rows),
        has_id(rows, id),
    ensures
        has_id(with_deleted_at(rows, id, Some(first)), id),
        with_deleted_at(with_deleted_at(rows, id, Some(first)), id, Some(second)) == with_deleted_at(
            rows,
            id,
            Some(second),
        ),
        !listed(with_deleted_at(with_deleted_at(rows, id, Some(first)), id, Some(second)), q).contains(id),
{
    let once = with_deleted_at(rows, id, Some(first));
    let twice = with_deleted_at(once, id, Some(second));
    let i = choose|i: int| 0 <= i < rows.len() && #[trigger] rows[i].id == id;
    assert(once[i].id == id);
    assert(twice =~= with_deleted_at(rows, id, Some(second)));
    if listed(twice, q).contains(id) {
        lemma_listed_ids_visible(twice, q, id);
        let j = choose|j: int| 0 <= j < twice.len() && twice[j].id == id && visible(#[trigger] twice[j], q);
        assert(twice[j].deleted_at == Some(second));
    }
}

/// The row `id` meets the search and filter of `q` (deletion aside).
pub open spec fn meets_filters(rows: Seq<RecordView>, id: u64, q: &ListQuery) -> bool {
    forall|i: int|
        0 <= i < rows.len() && #[trigger] rows[i].id == id ==> {
            &&& (q.flag matches Some(f) ==> rows[i].flag == f)
            &&& (search_view(q) matches Some(t) ==> column_matches(rows[i].columns, t))
        }
}

/// Restoring a soft-deleted row clears its mark, and the row is back in
/// every listing whose search and filter it meets: it stands in the ordered
/// result, and a page window that covers its position lists it.
pub proof fn lemma_restore_relists(rows: Seq<RecordView>, id: u64, now: i64, q: &ListQuery)
    requires
        ids_increasing(rows),
        has_id(rows, id),
        meets_filters(rows, id, q),
    ensures
        has_id(with_deleted_at(rows, id, Some(now)), id),
        forall|i: int|
            0 <= i < rows.len() && rows[i].id == id ==> (#[trigger] with_deleted_at(
                with_deleted_at(rows, id, Some(now)),
                id,
                None,
            )[i]).deleted_at is None,
        ({
            let ids = ordered_ids(
                selected(with_deleted_at(with_deleted_at(rows, id, Some(now)), id, None), q),
                q.order,
            );
            &&& ids.contains(id)
            &&& forall|j: int|
                0 <= j < ids.len() && ids[j] == id && q.window.offset <= j && (q.window.limit matches Some(l)
                    ==> j < q.window.offset + l) ==> listed(
                    with_deleted_at(with_deleted_at(rows, id, Some(now)), id, None),
                    q,
                ).contains(id)
        }),
{
    let once = with_deleted_at(rows, id, Some(now));
    let back = with_deleted_at(once, id, None);
    let i = choose|i: int| 0 <= i < rows.len() && #[trigger] rows[i].id == id;
    assert(once[i].id == id);
    assert(back[i].id == id && back[i].deleted_at is None);
    assert(rows[i].id == id);
    assert(back[i].flag == rows[i].flag && back[i].columns == rows[i].columns);
    assert(visible(back[i], q));
    lemma_selected_contains(back, q, i);
    let sel = selected(back, q);
    let k = choose|k: int| 0 <= k < sel.len() && sel[k] == back[i];
    let ids = ordered_ids(sel, q.order);
    match q.order {
        Order::IdDesc => {
            assert(ids[sel.len() - 1 - k] == id);
        },
        Order::RankDesc => {
            let keys = sel.map_values(|r: RecordView| key_of(r));
            lemma_rank_sorted_members(keys);
            assert(keys[k] == (back[i].rank, id));
            assert(keys.contains((back[i].rank, id)));
            let j = choose|j: int| 0 <= j < rank_sorted(keys).len() && rank_sorted(keys)[j] == (
            back[i].rank, id);
            assert(ids[j] == id);
        },
    }
    assert forall|j: int|
        0 <= j < ids.len() && ids[j] == id && q.window.offset <= j && (q.window.limit matches Some(l) ==> j
            < q.window.offset + l) implies listed(back, q).contains(id) by {
        let w = take_window(ids, q.window);
        assert(w[j - q.window.offset] == ids[j]);
    }
}

/// A search term that matches no row's text columns gives an empty
/// listing.
pub proof fn lemma_unmatched_search_lists_nothing(rows: Seq<RecordView>, q: &ListQuery)
    requires
        search_view(q) is Some,
        forall|i: int| 0 <= i < rows.len() ==> !column_matches(#[trigger] rows[i].columns, search_view(q)->Some_0),
    ensures
        listed(rows, q) == Seq::<u64>::empty(),
{
    assert forall|i: int| 0 <= i < rows.len() implies !visible(#[trigger] rows[i], q) by {
        assert(!column_matches(rows[i].columns, search_view(q)->Some_0));
    }
    lemma_nothing_selected(rows, q);
    let sel = selected(rows, q);
    lemma_rank_sorted_members(sel.map_values(|r: RecordView| key_of(r)));
    assert(ordered_ids(sel, q.order).len() == 0);
    assert(listed(rows, q) =~= Seq::<u64>::empty());
}

/// Consecutive pages of one listing: for the same rows, search, filter and
/// order, page `p + 1` continues page `p` with no row skipped and none
/// repeated.
pub proof fn lemma_listing_pages_continue(
    rows: Seq<RecordView>,
    q1: &ListQuery,
    q2: &ListQuery,
    page: i32,
    limit: i32,
    rule: PageRule,
)
    requires
        1 <= page < i32::MAX,
        limit > 0,
        q1.search == q2.search,
        q1.flag == q2.flag,
        q1.order == q2.order,
        window_spec(Some(page), Some(limit), rule) == Ok::<Window, PageError>(q1.window),
        window_spec(Some((page + 1) as i32), Some(limit), rule) == Ok::<Window, PageError>(q2.window),
    ensures
        q2.window.offset == q1.window.offset + limit,
        ({
            let ids = ordered_ids(selected(rows, q1), q1.order);
            listed(rows, q1) + listed(rows, q2) == ids.subrange(
                if q1.window.offset < ids.len() {
                    q1.window.offset as int
                } else {
                    ids.len() as int
                },
                if q1.window.offset + 2 * limit < ids.len() {
                    q1.window.offset + 2 * limit
                } else {
                    ids.len() as int
                },
            )
        }),
{
    assert(selected(rows, q1) == selected(rows, q2)) by {
        lemma_same_selection(rows, q1, q2);
    }
    lemma_next_page_continues(ordered_ids(selected(rows, q1), q1.order), page, limit, rule);
}

/// Listing is deterministic: over the same rows, two requests with the
/// same window, search, filter and order list the same ids in the same
/// order.
pub proof fn lemma_listing_repeats(rows: Seq<RecordView>, q1: &ListQuery, q2: &ListQuery)
    requires
        q1.window == q2.window,
        q1.search == q2.search,
        q1.flag == q2.flag,
        q1.order == q2.order,
    ensures
        listed(rows, q1) == listed(rows, q2),
{
    lemma_same_selection(rows, q1, q2);
}

proof fn lemma_same_selection(rows: Seq<RecordView>, q1: &ListQuery, q2: &ListQuery)
    requires
        q1.search == q2.search,
        q1.flag == q2.flag,
    ensures
        selected(rows, q1) == selected(rows, q2),
    decreases rows.len(),
{
    if rows.len() > 0 {
        lemma_same_selection(rows.drop_last(), q1, q2);
    }
}

/// An absent or empty search text searches nothing.
pub open spec fn search_spec(search: Option<Seq<char>>) -> Option<Seq<char>> {
    match search {
        Some(t) => if t.len() == 0 {
            None
        } else {
            Some(t)
        },
        None => None,
    }
}

/// `r` is the query with window `w`, `search`, `flag` and `order`, or the
/// window's error.
pub open spec fn query_result(
    r: Result<ListQuery, PageError>,
    w: Result<Window, PageError>,
    search: Option<Seq<char>>,
    flag: Option<bool>,
    order: Order,
) -> bool {
    match w {
        Err(e) => r == Err::<ListQuery, PageError>(e),
        Ok(w) => (r matches Ok(q) && q.window == w && search_view(&q) == search && q.flag == flag
            && q.order == order),
    }
}

/// Resolves a listing request: its page window, its search term (empty
/// means none), a boolean filter and the resource's order.
pub fn build_query(
    page: Option<i32>,
    limit: Option<i32>,
    rule: PageRule,
    search: &Option<String>,
    flag: Option<bool>,
    order: Order,
) -> (r: Result<ListQuery, PageError>)
    ensures
        query_result(r, window_spec(page, limit, rule), search_spec(opt_view(*search)), flag, order),
{
    let window = match page_window(page, limit, rule) {
        Ok(w) => w,
        Err(e) => return Err(e),
    };
    let term = match search {
        Some(t) => if t.as_str().is_empty() {
            None
        } else {
            Some(t.clone())
        },
        None => None,
    };
    Ok(ListQuery { window, search: term, flag, order })
}

/// A character that `LIKE` patterns treat specially.
pub open spec fn like_special(c: char) -> bool {
    c == '%' || c == '_' || c == '\\'
}

/// `s` with each `%`, `_` and `\` preceded by `\`, so that a `LIKE`
/// pattern matches it literally.
pub open spec fn escape_like(s: Seq<char>) -> Seq<char>
    decreases s.len(),
{
    if s.len() == 0 {
        s
    } else {
        let rest = escape_like(s.drop_last());
        if like_special(s.last()) {
            rest.push('\\').push(s.last())
        } else {
            rest.push(s.last())
        }
    }
}

/// The `ILIKE` pattern that matches text containing `term`.
pub open spec fn like_pattern_spec(term: Seq<char>) -> Seq<char> {
    seq!['%'] + escape_like(term) + seq!['%']
}

impl ListQuery {
    /// The `ILIKE` pattern a database applies to each searched column:
    /// the escaped term between `%` wildcards.
    pub fn like_pattern(&self) -> (r: Option<String>)
        ensures
            match search_view(self) {
                Some(t) => (r matches Some(p) && p@ == like_pattern_spec(t)),
                None => r is None,
            },
    {
        match &self.search {
            None => None,
            Some(t) => {
                let v = chars_of(t.as_str());
                let mut out: Vec<char> = Vec::new();
                out.push('%');
                let mut i: usize = 0;
                while i < v.len()
                    invariant
                        i <= v.len(),
                        out@ == seq!['%'] + escape_like(v@.subrange(0, i as int)),
                    decreases v.len() - i,
                {
                    let c = v[i];
                    assert(v@.subrange(0, i + 1).drop_last() =~= v@.subrange(0, i as int));
                    if c == '%' || c == '_' || c == '\\' {
                        out.push('\\');
                    }
                    out.push(c);
                    i = i + 1;
                    assert(out@ =~= seq!['%'] + escape_like(v@.subrange(0, i as int)));
                }
                out.push('%');
                assert(v@.subrange(0, v.len() as int) =~= v@);
                assert(out@ =~= like_pattern_spec(t@));
                Some(string_of(&out))
            },
        }
    }
}

/// In rows with increasing ids, the row at `index` is the only one with its
/// id, and replacing it by a row with the same id keeps ids increasing.
proof fn lemma_id_at(index: int, id: u64, rows: Seq<RecordView>, new_rec: RecordView)
    requires
        ids_increasing(rows),
        0 <= index < rows.len(),
        rows[index].id == id,
        new_rec.id == id,
    ensures
        ids_increasing(rows.update(index, new_rec)),
        forall|j: int| 0 <= j < rows.len() && j != index ==> rows[j].id != id,
{
    assert forall|j: int| 0 <= j < rows.len() && j != index implies rows[j].id != id by {
        if j < index {
            assert(rows[j].id < rows[index].id);
        } else {
            assert(rows[index].id < rows[j].id);
        }
    }
}

pub struct Table {
    rows: Vec<Record>,
    next_id: u64,
}

impl View for Table {
    type V = Seq<RecordView>;

    closed spec fn view(&self) -> Seq<RecordView> {
        self.rows@.map_values(|r: Record| r@)
    }
}

impl Table {
    /// Ids strictly increase in storage order and stay below the next id.
    pub closed spec fn wf(&self) -> bool {
        &&& ids_increasing(self@)
        &&& forall|i: int| 0 <= i < self@.len() ==> #[trigger] self@[i].id < self.next_id
        &&& self.next_id >= 1
    }

    /// The id the next created row gets.
    pub closed spec fn next_id(&self) -> u64 {
        self.next_id
    }

    /// In a well-formed table ids strictly increase in storage order (so
    /// newest rows come last), and all are below the next id.
    pub proof fn lemma_wf_ids(&self)
        requires
            self.wf(),
        ensures
            ids_increasing(self@),
            forall|i: int| 0 <= i < self@.len() ==> #[trigger] self@[i].id < self.next_id(),
            self.next_id() >= 1,
    {
    }

    pub fn new() -> (t: Table)
        ensures
            t.wf(),
            t@ == Seq::<RecordView>::empty(),
            t.next_id() == 1,
    {
        let t = Table { rows: Vec::new(), next_id: 1 };
        assert(t@ =~= Seq::<RecordView>::empty());
        t
    }

    fn position(&self, id: u64) -> (r: Option<usize>)
        requires
            self.wf(),
        ensures
            match r {
                Some(i) => i < self@.len() && self@[i as int].id == id,
                None => !has_id(self@, id),
            },
    {
        let mut i: usize = 0;
        while i < self.rows.len()
            invariant
                i <= self.rows.len(),
                self@.len() == self.rows@.len(),
                forall|j: int| 0 <= j < i ==> self@[j].id != id,
            decreases self.rows.len() - i,
        {
            assert(self@[i as int] == self.rows@[i as int]@);
            if self.rows[i].id == id {
                return Some(i);
            }
            i = i + 1;
        }
        None
    }

    /// Adds an active row and gives its id, which is larger than every id
    /// before it.
    pub fn create(&mut self, rank: i64, flag: bool, columns: Vec<String>) -> (r: Result<u64, RepoError>)
        requires
            old(self).wf(),
        ensures
            final(self).wf(),
            old(self).next_id() < u64::MAX ==> r == Ok::<u64, RepoError>(old(self).next_id()),
            match r {
                Ok(id) => {
                    &&& final(self).next_id() == old(self).next_id() + 1
                    &&& !has_id(old(self)@, id)
                    &&& final(self)@ == old(self)@.push(
                        RecordView {
                            id,
                            rank,
                            flag,
                            columns: columns@.map_values(|c: String| c@),
                            deleted_at: None,
                        },
                    )
                },
                Err(e) => e == RepoError::IdsExhausted && final(self)@ == old(self)@,
            },
    {
        if self.next_id == u64::MAX {
            return Err(RepoError::IdsExhausted);
        }
        let id = self.next_id;
        let rec = Record { id, rank, flag, columns, deleted_at: None };
        self.rows.push(rec);
        self.next_id = id + 1;
        assert(self@ =~= old(self)@.push(rec@));
        Ok(id)
    }

    /// Replaces row `index` by `rec`.
    fn replace_at(&mut self, index: usize, rec: Record)
        requires
            index < old(self)@.len(),
        ensures
            final(self)@ == old(self)@.update(index as int, rec@),
            final(self).next_id == old(self).next_id,
    {
        let _ = self.rows.remove(index);
        self.rows.insert(index, rec);
        assert(self@ =~= old(self)@.update(index as int, rec@));
    }

    /// Takes row `index` out, leaving a blank in its place.
    fn take_at(&mut self, index: usize) -> (r: Record)
        requires
            index < old(self)@.len(),
        ensures
            r@ == old(self)@[index as int],
            final(self)@.len() == old(self)@.len(),
            forall|j: int| 0 <= j < old(self)@.len() && j != index ==> final(self)@[j] == old(self)@[j],
            final(self).next_id == old(self).next_id,
    {
        let blank = Record { id: 0, rank: 0, flag: false, columns: Vec::new(), deleted_at: None };
        let r = self.rows.remove(index);
        self.rows.insert(index, blank);
        assert(r@ == old(self).rows@[index as int]@);
        assert forall|j: int| 0 <= j < old(self)@.len() && j != index implies self@[j] == old(self)@[j] by {
            assert(self.rows@[j] == old(self).rows@[j]);
        }
        r
    }

    /// Sets the deletion mark of row `id`.
    fn mark(&mut self, id: u64, d: Option<i64>) -> (r: Result<(), RepoError>)
        requires
            old(self).wf(),
        ensures
            final(self).wf(),
            final(self).next_id() == old(self).next_id(),
            has_id(old(self)@, id) ==> r is Ok && final(self)@ == with_deleted_at(old(self)@, id, d),
            !has_id(old(self)@, id) ==> r == Err::<(), RepoError>(RepoError::NotFound) && final(self)@
                == old(self)@,
    {
        match self.position(id) {
            None => Err(RepoError::NotFound),
            Some(i) => {
                let ghost before = self@;
                let rec = self.take_at(i);
                let new_rec = Record { deleted_at: d, ..rec };
                proof {
                    lemma_id_at(i as int, id, before, new_rec@);
                }
                self.replace_at(i, new_rec);
                proof {
                    assert(self@ =~= with_deleted_at(before, id, d));
                    assert forall|j: int| 0 <= j < self@.len() implies #[trigger] self@[j].id < self.next_id by {
                        assert(self@[j].id == before[j].id);
                    }
                }
                Ok(())
            },
        }
    }

    /// Soft-deletes row `id` at time `now`; a row already deleted gets the
    /// new time.
    pub fn soft_delete(&mut self, id: u64, now: i64) -> (r: Result<(), RepoError>)
        requires
            old(self).wf(),
        ensures
            final(self).wf(),
            final(self).next_id() == old(self).next_id(),
            has_id(old(self)@, id) ==> r is Ok && final(self)@ == with_deleted_at(old(self)@, id, Some(now)),
            !has_id(old(self)@, id) ==> r == Err::<(), RepoError>(RepoError::NotFound) && final(self)@
                == old(self)@,
    {
        self.mark(id, Some(now))
    }

    /// Clears the deletion mark of row `id`.
    pub fn restore(&mut self, id: u64) -> (r: Result<(), RepoError>)
        requires
            old(self).wf(),
        ensures
            final(self).wf(),
            final(self).next_id() == old(self).next_id(),
            has_id(old(self)@, id) ==> r is Ok && final(self)@ == with_deleted_at(old(self)@, id, None),
            !has_id(old(self)@, id) ==> r == Err::<(), RepoError>(RepoError::NotFound) && final(self)@
                == old(self)@,
    {
        self.mark(id, None)
    }

    /// Updates row `id` in place; its id and deletion mark stay.
    pub fn update(&mut self, id: u64, rank: i64, flag: bool, columns: Vec<String>) -> (r: Result<(), RepoError>)
        requires
            old(self).wf(),
        ensures
            final(self).wf(),
            final(self).next_id() == old(self).next_id(),
            has_id(old(self)@, id) ==> r is Ok && final(self)@ == with_contents(
                old(self)@,
                id,
                rank,
                flag,
                columns@.map_values(|c: String| c@),
            ),
            !has_id(old(self)@, id) ==> r == Err::<(), RepoError>(RepoError::NotFound) && final(self)@
                == old(self)@,
    {
        match self.position(id) {
            None => Err(RepoError::NotFound),
            Some(i) => {
                let ghost before = self@;
                let ghost cols = columns@.map_values(|c: String| c@);
                let rec = self.take_at(i);
                let new_rec = Record { rank, flag, columns, ..rec };
                proof {
                    lemma_id_at(i as int, id, before, new_rec@);
                }
                self.replace_at(i, new_rec);
                proof {
                    assert(self@ =~= with_contents(before, id, rank, flag, cols));
                    assert forall|j: int| 0 <= j < self@.len() implies #[trigger] self@[j].id < self.next_id by {
                        assert(self@[j].id == before[j].id);
                    }
                }
                Ok(())
            },
        }
    }

    /// The active row `id`, if there is one.
    pub fn get(&self, id: u64) -> (r: Option<&Record>)
        requires
            self.wf(),
        ensures
            match r {
                Some(rec) => rec@.id == id && rec@.deleted_at is None && exists|i: int|
                    0 <= i < self@.len() && self@[i] == rec@,
                None => forall|i: int|
                    0 <= i < self@.len() && #[trigger] self@[i].id == id ==> self@[i].deleted_at is Some,
            },
    {
        match self.position(id) {
            None => None,
            Some(i) => {
                assert(self@[i as int] == self.rows@[i as int]@);
                proof {
                    lemma_id_at(i as int, id, self@, self@[i as int]);
                }
                if self.rows[i].deleted_at.is_some() {
                    None
                } else {
                    Some(&self.rows[i])
                }
            },
        }
    }

    /// The ids of one page of a listing.
    pub fn list(&self, q: &ListQuery) -> (r: Vec<u64>)
        ensures
            r@ == listed(self@, q),
    {
        let term = lowered_term(q);
        let mut keys: Vec<(i64, u64)> = Vec::new();
        let mut i: usize = 0;
        while i < self.rows.len()
            invariant
                i <= self.rows.len(),
                self@.len() == self.rows@.len(),
                match search_view(q) {
                    Some(t) => (term matches Some(v) && v@ == lower_of(t)),
                    None => term is None,
                },
                keys@ == selected(self@.subrange(0, i as int), q).map_values(|r: RecordView| key_of(r)),
            decreases self.rows.len() - i,
        {
            assert(self@[i as int] == self.rows@[i as int]@);
            assert(self@.subrange(0, i + 1).drop_last() =~= self@.subrange(0, i as int));
            if is_visible(&self.rows[i], q, &term) {
                keys.push((self.rows[i].rank, self.rows[i].id));
            }
            i = i + 1;
            assert(keys@ =~= selected(self@.subrange(0, i as int), q).map_values(|r: RecordView| key_of(r)));
        }
        assert(self@.subrange(0, self.rows.len() as int) =~= self@);
        let ghost sel = selected(self@, q);
        let mut ids: Vec<u64> = Vec::new();
        match q.order {
            Order::IdDesc => {
                let mut k: usize = keys.len();
                while k > 0
                    invariant
                        k <= keys.len(),
                        keys@ == sel.map_values(|r: RecordView| key_of(r)),
                        ids@ == sel.map_values(|r: RecordView| r.id).reverse().subrange(
                            0,
                            (keys.len() - k) as int,
                        ),
                    decreases k,
                {
                    k = k - 1;
                    ids.push(keys[k].1);
                    assert(ids@ =~= sel.map_values(|r: RecordView| r.id).reverse().subrange(
                        0,
                        (keys.len() - k) as int,
                    ));
                }
                assert(ids@ =~= sel.map_values(|r: RecordView| r.id).reverse());
            },
            Order::RankDesc => {
                let sorted = sort_by_rank(&keys);
                let mut k: usize = 0;
                while k < sorted.len()
                    invariant
                        k <= sorted.len(),
                        ids@ == sorted@.subrange(0, k as int).map_values(|x: (i64, u64)| x.1),
                    decreases sorted.len() - k,
                {
                    ids.push(sorted[k].1);
                    k = k + 1;
                    assert(ids@ =~= sorted@.subrange(0, k as int).map_values(|x: (i64, u64)| x.1));
                }
                assert(sorted@.subrange(0, sorted.len() as int) =~= sorted@);
            },
        }
        apply_window(&ids, q.window)
    }
}

} // verus!
