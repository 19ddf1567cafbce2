//! Cursor pagination over collections ordered by `(updated_at, id)`.
//!
//! A page is the first `limit` rows whose id exceeds the cursor, taken in
//! store order. Because the cursor is the last returned identifier rather
//! than a row offset, rows inserted or deleted before the cursor do not
//! shift later pages. The tables keep their rows sorted by
//! `(updated_at, id)`, with the id as a deterministic tiebreak when
//! timestamps collide, so "greater than cursor" pagination is well defined.

use vstd::prelude::*;
use vstd::seq_lib::group_seq_lib_default;

verus! {

broadcast use group_seq_lib_default;

/// A row that a paginated table can hold: it exposes the 128-bit value of
/// its identifier and its update timestamp, and can be copied exactly so
/// that pages return owned rows.
pub trait StoredRow: Sized {
    /// The 128-bit value of the row's identifier.
    spec fn row_id(&self) -> u128;

    /// The row's update timestamp, in seconds.
    spec fn row_updated(&self) -> i64;

    fn id_value(&self) -> (r: u128)
        ensures
            r == self.row_id(),
    ;

    fn updated_value(&self) -> (r: i64)
        ensures
            r == self.row_updated(),
    ;

    fn copy_row(&self) -> (r: Self)
        ensures
            r == *self,
    ;
}

/// The store order: ascending `updated_at`, with ascending id as tiebreak.
pub open spec fn key_before<R: StoredRow>(a: R, b: R) -> bool {
    a.row_updated() < b.row_updated()
        || (a.row_updated() == b.row_updated() && a.row_id() < b.row_id())
}

/// Whether the rows stand in strictly ascending `(updated_at, id)` order.
pub open spec fn rows_sorted<R: StoredRow>(s: Seq<R>) -> bool {
    forall|i: int, j: int| 0 <= i < j < s.len() ==> key_before(#[trigger] s[i], #[trigger] s[j])
}

/// Whether no two rows share an id value.
pub open spec fn ids_unique<R: StoredRow>(s: Seq<R>) -> bool {
    forall|i: int, j: int| 0 <= i < j < s.len() ==> (#[trigger] s[i]).row_id() != (#[trigger] s[j]).row_id()
}

/// Whether every row has a nonzero id, so that the zero sentinel orders
/// before all of them.
pub open spec fn ids_nonzero<R: StoredRow>(s: Seq<R>) -> bool {
    forall|i: int| 0 <= i < s.len() ==> (#[trigger] s[i]).row_id() != 0
}

/// The predicate that a cursor applies: the row's id lies strictly past it.
pub open spec fn after_cursor<R: StoredRow>(cursor: u128) -> spec_fn(R) -> bool {
    |r: R| r.row_id() > cursor
}

/// The rows that lie strictly past the cursor, in store order.
pub open spec fn rows_after_cursor<R: StoredRow>(s: Seq<R>, cursor: u128) -> Seq<R> {
    s.filter(after_cursor(cursor))
}

/// The page that a cursor and a limit select: the first `limit` rows past
/// the cursor, in store order.
pub open spec fn page_spec<R: StoredRow>(s: Seq<R>, limit: int, cursor: u128) -> Seq<R> {
    let f = rows_after_cursor(s, cursor);
    if f.len() <= limit {
        f
    } else {
        f.take(limit)
    }
}

/// Exec comparison in the store order.
pub fn before<R: StoredRow>(a: &R, b: &R) -> (r: bool)
    ensures
        r == key_before(*a, *b),
{
    let au = a.updated_value();
    let bu = b.updated_value();
    au < bu || (au == bu && a.id_value() < b.id_value())
}

/// One page of a collection: the first `limit` rows whose id exceeds the
/// cursor, in store order.
pub fn page<R: StoredRow>(rows: &Vec<R>, limit: usize, cursor: u128) -> (out: Vec<R>)
    ensures
        out@ == page_spec(rows@, limit as int, cursor),
{
    let ghost pred = after_cursor::<R>(cursor);
    let mut out: Vec<R> = Vec::new();
    let mut i: usize = 0;
    while i < rows.len() && out.len() < limit
        invariant
            i <= rows@.len(),
            pred == after_cursor::<R>(cursor),
            out@ == rows@.take(i as int).filter(pred),
            out@.len() <= limit,
        decreases rows@.len() - i,
    {
        if rows[i].id_value() > cursor {
            out.push(rows[i].copy_row());
        }
        proof {
            lemma_filter_take_step(rows@, pred, i as int);
        }
        i += 1;
    }
    proof {
        let f = rows_after_cursor(rows@, cursor);
        let rest = rows@.skip(i as int);
        assert(rows@ =~= rows@.take(i as int) + rest);
        assert(f == out@ + rest.filter(pred));
        if i == rows@.len() {
            assert(rest =~= Seq::<R>::empty());
            assert(rest.filter(pred) == Seq::<R>::empty()) by {
                reveal_with_fuel(Seq::filter, 3);
            }
            assert(f =~= out@);
        } else {
            assert(out@.len() == limit);
            if f.len() <= limit {
                assert(rest.filter(pred).len() == 0);
                assert(f =~= out@);
            } else {
                assert(f.take(limit as int) =~= out@);
            }
        }
    }
    out
}

/// Inserts a row at its position in the store order and returns that
/// position. The row's id must not already be present.
pub fn insert_sorted<R: StoredRow>(rows: &mut Vec<R>, row: R) -> (i: usize)
    requires
        rows_sorted(old(rows)@),
        forall|j: int| 0 <= j < old(rows)@.len() ==> (#[trigger] old(rows)@[j]).row_id() != row.row_id(),
    ensures
        i <= old(rows)@.len(),
        final(rows)@ == old(rows)@.insert(i as int, row),
        rows_sorted(final(rows)@),
        ids_unique(old(rows)@) ==> ids_unique(final(rows)@),
        ids_nonzero(old(rows)@) && row.row_id() != 0 ==> ids_nonzero(final(rows)@),
{
    let ghost s = rows@;
    let mut i: usize = 0;
    while i < rows.len() && !before(&row, &rows[i])
        invariant
            i <= s.len(),
            rows@ == s,
            forall|j: int| 0 <= j < i ==> !key_before(row, #[trigger] s[j]),
        decreases s.len() - i,
    {
        i += 1;
    }
    rows.insert(i, row);
    proof {
        let t = rows@;
        assert(t =~= s.take(i as int) + seq![row] + s.skip(i as int));
        assert forall|a: int, b: int| 0 <= a < b < t.len() implies key_before(t[a], t[b]) by {
            if a < i && b == i {
                assert(t[a] == s[a]);
                assert(!key_before(row, s[a]));
                assert(s[a].row_id() != row.row_id());
                assert(key_before(s[a], row));
            } else if a == i && b > i {
                assert(t[b] == s[b - 1]);
                assert(key_before(row, s[i as int]));
                if b - 1 > i {
                    assert(key_before(s[i as int], s[b - 1]));
                }
            } else if a < i && b > i {
                assert(t[a] == s[a] && t[b] == s[b - 1]);
            } else if b < i {
                assert(t[a] == s[a] && t[b] == s[b]);
            } else {
                assert(a > i);
                assert(t[a] == s[a - 1] && t[b] == s[b - 1]);
            }
        }
        assert(ids_unique(s) ==> ids_unique(t)) by {
            if ids_unique(s) {
                assert forall|a: int, b: int| 0 <= a < b < t.len() implies t[a].row_id() != t[b].row_id() by {
                    if a < i && b == i {
                        assert(t[a] == s[a]);
                    } else if a == i && b > i {
                        assert(t[b] == s[b - 1]);
                    } else if a < i && b > i {
                        assert(t[a] == s[a] && t[b] == s[b - 1]);
                    } else {
                        assert((a < i && b < i) || (a > i && b > i));
                    }
                }
            }
        }
        assert(ids_nonzero(s) && row.row_id() != 0 ==> ids_nonzero(t)) by {
            if ids_nonzero(s) && row.row_id() != 0 {
                assert forall|a: int| 0 <= a < t.len() implies t[a].row_id() != 0 by {
                    if a < i {
                        assert(t[a] == s[a]);
                    } else if a > i {
                        assert(t[a] == s[a - 1]);
                    }
                }
            }
        }
    }
    i
}

/// The first row with the given id value, if any.
pub open spec fn find_by_id<R: StoredRow>(s: Seq<R>, idv: u128) -> Option<R>
    decreases s.len(),
{
    if s.len() == 0 {
        None
    } else if s[0].row_id() == idv {
        Some(s[0])
    } else {
        find_by_id(s.skip(1), idv)
    }
}

pub proof fn lemma_find_step<R: StoredRow>(s: Seq<R>, idv: u128, i: int)
    requires
        0 <= i <= s.len(),
        forall|j: int| 0 <= j < i ==> (#[trigger] s[j]).row_id() != idv,
    ensures
        find_by_id(s, idv) == find_by_id(s.skip(i), idv),
    decreases i,
{
    if i > 0 {
        assert(s.len() > 0);
        assert(s[0].row_id() != idv);
        assert(find_by_id(s, idv) == find_by_id(s.skip(1), idv));
        assert(s.skip(1).skip(i - 1) =~= s.skip(i));
        assert(forall|j: int| 0 <= j < i - 1 ==> (#[trigger] s.skip(1)[j]).row_id() != idv);
        lemma_find_step(s.skip(1), idv, i - 1);
    } else {
        assert(s.skip(0) =~= s);
    }
}

/// The index of the first row with the given id value, if any.
pub fn find_index_by_id<R: StoredRow>(rows: &Vec<R>, idv: u128) -> (r: Option<usize>)
    ensures
        match r {
            Some(i) => i < rows@.len() && rows@[i as int].row_id() == idv
                && find_by_id(rows@, idv) == Some(rows@[i as int]),
            None => find_by_id(rows@, idv) is None,
        },
{
    let mut i: usize = 0;
    while i < rows.len()
        invariant
            i <= rows@.len(),
            forall|j: int| 0 <= j < i ==> (#[trigger] rows@[j]).row_id() != idv,
        decreases rows@.len() - i,
    {
        if rows[i].id_value() == idv {
            proof {
                lemma_find_step(rows@, idv, i as int);
                assert(rows@.skip(i as int)[0] == rows@[i as int]);
            }
            return Some(i);
        }
        i += 1;
    }
    proof {
        lemma_find_step(rows@, idv, rows@.len() as int);
        assert(rows@.skip(rows@.len() as int) =~= Seq::<R>::empty());
    }
    None
}

/// The predicate that keeps every row but the one with the given id.
pub open spec fn not_id<R: StoredRow>(idv: u128) -> spec_fn(R) -> bool {
    |r: R| r.row_id() != idv
}

/// The rows with the given id value left out.
pub open spec fn without_id<R: StoredRow>(s: Seq<R>, idv: u128) -> Seq<R> {
    s.filter(not_id(idv))
}

/// A fresh copy of the rows with the given id value left out.
pub fn remove_by_id<R: StoredRow>(rows: &Vec<R>, idv: u128) -> (out: Vec<R>)
    ensures
        out@ == without_id(rows@, idv),
{
    let ghost pred = not_id::<R>(idv);
    let mut out: Vec<R> = Vec::new();
    let mut i: usize = 0;
    while i < rows.len()
        invariant
            i <= rows@.len(),
            pred == not_id::<R>(idv),
            out@ == rows@.take(i as int).filter(pred),
        decreases rows@.len() - i,
    {
        if rows[i].id_value() != idv {
            out.push(rows[i].copy_row());
        }
        proof {
            lemma_filter_take_step(rows@, pred, i as int);
        }
        i += 1;
    }
    proof {
        assert(rows@.take(rows@.len() as int) =~= rows@);
    }
    out
}

/// Every element that a filter keeps is an element of the original rows.
pub proof fn lemma_filter_elements<R>(s: Seq<R>, pred: spec_fn(R) -> bool)
    ensures
        forall|x: R| #[trigger] s.filter(pred).contains(x) ==> s.contains(x),
    decreases s.len(),
{
    reveal_with_fuel(Seq::filter, 2);
    if s.len() > 0 {
        let d = s.drop_last();
        lemma_filter_elements(d, pred);
        assert forall|x: R| #[trigger] s.filter(pred).contains(x) implies s.contains(x) by {
            if d.filter(pred).contains(x) {
                let m = choose|m: int| 0 <= m < d.len() && d[m] == x;
                assert(s[m] == x);
            } else {
                assert(x == s.last());
                assert(s[s.len() - 1] == x);
            }
        }
    }
}

/// Filtering keeps the store order.
pub proof fn lemma_filter_sorted<R: StoredRow>(s: Seq<R>, pred: spec_fn(R) -> bool)
    requires
        rows_sorted(s),
    ensures
        rows_sorted(s.filter(pred)),
    decreases s.len(),
{
    reveal_with_fuel(Seq::filter, 2);
    if s.len() > 0 {
        let d = s.drop_last();
        assert(rows_sorted(d)) by {
            assert(forall|i: int| 0 <= i < d.len() ==> d[i] == s[i]);
        }
        lemma_filter_sorted(d, pred);
        lemma_filter_elements(d, pred);
        if pred(s.last()) {
            let f = d.filter(pred);
            assert forall|a: int, b: int| 0 <= a < b < f.push(s.last()).len()
                implies key_before(f.push(s.last())[a], f.push(s.last())[b]) by {
                if b == f.len() {
                    assert(f.contains(f[a]));
                    assert(d.contains(f[a]));
                    let m = choose|m: int| 0 <= m < d.len() && d[m] == f[a];
                    assert(key_before(s[m], s.last()));
                } else {
                    assert(key_before(f[a], f[b]));
                }
            }
        }
    }
}

/// Filtering keeps ids unique.
pub proof fn lemma_filter_ids_unique<R: StoredRow>(s: Seq<R>, pred: spec_fn(R) -> bool)
    requires
        ids_unique(s),
    ensures
        ids_unique(s.filter(pred)),
    decreases s.len(),
{
    reveal_with_fuel(Seq::filter, 2);
    if s.len() > 0 {
        let d = s.drop_last();
        assert(ids_unique(d)) by {
            assert(forall|i: int| 0 <= i < d.len() ==> d[i] == s[i]);
        }
        lemma_filter_ids_unique(d, pred);
        lemma_filter_elements(d, pred);
        if pred(s.last()) {
            let f = d.filter(pred);
            assert forall|a: int, b: int| 0 <= a < b < f.push(s.last()).len()
                implies f.push(s.last())[a].row_id() != f.push(s.last())[b].row_id() by {
                if b == f.len() {
                    assert(f.contains(f[a]));
                    assert(d.contains(f[a]));
                    let m = choose|m: int| 0 <= m < d.len() && d[m] == f[a];
                    assert(s[m].row_id() != s.last().row_id());
                } else {
                    assert(f[a].row_id() != f[b].row_id());
                }
            }
        }
    }
}

/// Filtering keeps ids nonzero.
pub proof fn lemma_filter_ids_nonzero<R: StoredRow>(s: Seq<R>, pred: spec_fn(R) -> bool)
    requires
        ids_nonzero(s),
    ensures
        ids_nonzero(s.filter(pred)),
{
    lemma_filter_elements(s, pred);
    let f = s.filter(pred);
    assert forall|i: int| 0 <= i < f.len() implies f[i].row_id() != 0 by {
        assert(f.contains(f[i]));
        assert(s.contains(f[i]));
        let m = choose|m: int| 0 <= m < s.len() && s[m] == f[i];
    }
}

/// A search misses exactly when no row carries the id.
pub proof fn lemma_find_none<R: StoredRow>(s: Seq<R>, idv: u128)
    ensures
        (find_by_id(s, idv) is None) <==> (forall|j: int| 0 <= j < s.len() ==> (#[trigger] s[j]).row_id() != idv),
    decreases s.len(),
{
    if s.len() > 0 {
        let d = s.skip(1);
        lemma_find_none(d, idv);
        if s[0].row_id() != idv {
            assert(find_by_id(s, idv) == find_by_id(d, idv));
            if forall|j: int| 0 <= j < d.len() ==> (#[trigger] d[j]).row_id() != idv {
                assert forall|j: int| 0 <= j < s.len() implies (#[trigger] s[j]).row_id() != idv by {
                    if j > 0 {
                        assert(d[j - 1] == s[j]);
                    }
                }
            } else {
                let j = choose|j: int| 0 <= j < d.len() && (#[trigger] d[j]).row_id() == idv;
                assert(s[j + 1].row_id() == idv);
            }
        }
    }
}

/// What a successful search hands back: a stored row that carries the id.
pub proof fn lemma_find_some<R: StoredRow>(s: Seq<R>, idv: u128)
    requires
        find_by_id(s, idv) is Some,
    ensures
        s.contains(find_by_id(s, idv).unwrap()),
        find_by_id(s, idv).unwrap().row_id() == idv,
    decreases s.len(),
{
    if s.len() > 0 && s[0].row_id() != idv {
        let d = s.skip(1);
        lemma_find_some(d, idv);
        let r = find_by_id(d, idv).unwrap();
        let m = choose|m: int| 0 <= m < d.len() && d[m] == r;
        assert(s[m + 1] == r);
    }
}

/// A property that every row has survives any filtering.
pub proof fn lemma_filter_keeps_all<R>(
    s: Seq<R>,
    pred: spec_fn(R) -> bool,
    prop: spec_fn(R) -> bool,
)
    requires
        forall|j: int| 0 <= j < s.len() ==> prop(#[trigger] s[j]),
    ensures
        forall|j: int| 0 <= j < s.filter(pred).len() ==> prop(#[trigger] s.filter(pred)[j]),
{
    lemma_filter_elements(s, pred);
    let f = s.filter(pred);
    assert forall|j: int| 0 <= j < f.len() implies prop(f[j]) by {
        assert(f.contains(f[j]));
        assert(s.contains(f[j]));
        let m = choose|m: int| 0 <= m < s.len() && s[m] == f[j];
    }
}

/// A property that every row has also holds after an insertion of a row
/// that has it.
/// One step of filtering a growing prefix: the filtered prefix after one
/// more row is the filtered prefix so far, with the row appended when the
/// predicate keeps it. The loops that build a filtered table lean on this
/// for their invariant.
pub proof fn lemma_filter_take_step<R>(s: Seq<R>, pred: spec_fn(R) -> bool, i: int)
    requires
        0 <= i < s.len(),
    ensures
        s.take(i + 1).filter(pred) == (if pred(s[i]) {
            s.take(i).filter(pred).push(s[i])
        } else {
            s.take(i).filter(pred)
        }),
{
    let prefix = s.take(i);
    let single = seq![s[i]];
    assert(s.take(i + 1) =~= prefix + single);
    reveal_with_fuel(Seq::filter, 3);
    assert(single.drop_last() =~= Seq::<R>::empty());
    assert((prefix + single).filter(pred) == prefix.filter(pred) + single.filter(pred));
    if pred(s[i]) {
        assert(single.filter(pred) =~= single);
        assert(prefix.filter(pred) + single =~= prefix.filter(pred).push(s[i]));
    } else {
        assert(single.filter(pred) =~= Seq::<R>::empty());
        assert(prefix.filter(pred) + single.filter(pred) =~= prefix.filter(pred));
    }
}

pub proof fn lemma_insert_keeps_all<R>(
    s: Seq<R>,
    i: int,
    x: R,
    prop: spec_fn(R) -> bool,
)
    requires
        0 <= i <= s.len(),
        forall|j: int| 0 <= j < s.len() ==> prop(#[trigger] s[j]),
        prop(x),
    ensures
        forall|j: int| 0 <= j < s.insert(i, x).len() ==> prop(#[trigger] s.insert(i, x)[j]),
{
    let t = s.insert(i, x);
    assert(t =~= s.take(i) + seq![x] + s.skip(i));
    assert forall|j: int| 0 <= j < t.len() implies prop(t[j]) by {
        if j < i {
            assert(t[j] == s[j]);
        } else if j > i {
            assert(t[j] == s[j - 1]);
        }
    }
}

/// The page size that a request selects: ten when the limit is absent or
/// not positive, the given limit otherwise, held under a machine bound so
/// that it fits a vector length on every target.
pub open spec fn limit_spec(limit: Option<i64>) -> int {
    match limit {
        None => 10,
        Some(l) => if l <= 0 {
            10
        } else if l > 0x7fff_ffff {
            0x7fff_ffff
        } else {
            l as int
        },
    }
}

/// The page size as a vector length.
pub fn limit_to_usize(limit: Option<i64>) -> (r: usize)
    ensures
        r == limit_spec(limit),
{
    match limit {
        None => 10,
        Some(l) => {
            if l <= 0 {
                10
            } else if l > 0x7fff_ffff {
                0x7fff_ffff
            } else {
                l as usize
            }
        },
    }
}

/// Whether ids grow along the store order, so that the id order and the
/// `(updated_at, id)` order agree. A walk that threads the last returned id
/// as the next cursor covers the whole collection exactly when this holds.
pub open spec fn ids_ascending<R: StoredRow>(s: Seq<R>) -> bool {
    forall|i: int, j: int| 0 <= i < j < s.len() ==> (#[trigger] s[i]).row_id() < (#[trigger] s[j]).row_id()
}

/// Pagination idempotence: the page that a scope, limit and cursor select is
/// a function of the rows alone, so fetching it twice with no intervening
/// writes returns identical items; the total, being the length of the scoped
/// rows, repeats in the same way.
pub proof fn lemma_page_repeatable<R: StoredRow>(
    rows: Seq<R>,
    limit: int,
    cursor: u128,
    first: Seq<R>,
    second: Seq<R>,
)
    requires
        first == page_spec(rows, limit, cursor),
        second == page_spec(rows, limit, cursor),
    ensures
        first == second,
{
}

/// A filter whose predicate holds of every row keeps them all.
pub proof fn lemma_filter_all_true<R: StoredRow>(s: Seq<R>, pred: spec_fn(R) -> bool)
    requires
        forall|i: int| 0 <= i < s.len() ==> pred(#[trigger] s[i]),
    ensures
        s.filter(pred) == s,
    decreases s.len(),
{
    reveal_with_fuel(Seq::filter, 2);
    if s.len() > 0 {
        let d = s.drop_last();
        lemma_filter_all_true(d, pred);
        assert(pred(s.last()));
        assert(s.filter(pred) =~= s);
    }
}

proof fn lemma_suffix_filter<R: StoredRow>(s: Seq<R>, pred: spec_fn(R) -> bool, t: int)
    requires
        0 <= t <= s.len(),
        forall|j: int| 0 <= j < s.len() ==> (pred(#[trigger] s[j]) <==> j >= t),
    ensures
        s.filter(pred) == s.skip(t),
    decreases t,
{
    if t == 0 {
        lemma_filter_all_true(s, pred);
        assert(s.skip(0) =~= s);
    } else {
        let d = s.skip(1);
        assert(s =~= seq![s[0]] + d);
        assert((seq![s[0]] + d).filter(pred) == seq![s[0]].filter(pred) + d.filter(pred));
        reveal_with_fuel(Seq::filter, 3);
        assert(seq![s[0]].drop_last() =~= Seq::<R>::empty());
        assert(!pred(s[0]));
        assert(seq![s[0]].filter(pred) =~= Seq::<R>::empty());
        assert(forall|j: int| 0 <= j < d.len() ==> (pred(#[trigger] d[j]) <==> j >= t - 1));
        lemma_suffix_filter(d, pred, t - 1);
        assert(s.skip(1).skip(t - 1) =~= s.skip(t));
        assert(s.filter(pred) =~= s.skip(t));
    }
}

/// The index where the rows past a cursor begin, in a store whose ids grow
/// along the store order.
spec fn first_past<R: StoredRow>(s: Seq<R>, cursor: u128) -> int
    decreases s.len(),
{
    if s.len() == 0 {
        0
    } else if s[0].row_id() > cursor {
        0
    } else {
        1 + first_past(s.skip(1), cursor)
    }
}

proof fn lemma_first_past<R: StoredRow>(s: Seq<R>, cursor: u128)
    requires
        ids_ascending(s),
    ensures
        0 <= first_past(s, cursor) <= s.len(),
        forall|j: int| 0 <= j < s.len() ==> ((#[trigger] s[j]).row_id() > cursor <==> j >= first_past(s, cursor)),
    decreases s.len(),
{
    if s.len() > 0 {
        if s[0].row_id() > cursor {
            assert forall|j: int| 0 <= j < s.len() implies (#[trigger] s[j]).row_id() > cursor by {
                if j > 0 {
                    assert(s[0].row_id() < s[j].row_id());
                }
            }
        } else {
            let d = s.skip(1);
            assert(forall|a: int, b: int| 0 <= a < b < d.len() ==> (#[trigger] d[a]).row_id() < (#[trigger] d[b]).row_id());
            lemma_first_past(d, cursor);
            assert forall|j: int| 0 <= j < s.len() implies
                ((#[trigger] s[j]).row_id() > cursor <==> j >= first_past(s, cursor)) by {
                if j > 0 {
                    assert(s[j] == d[j - 1]);
                }
            }
        }
    }
}

/// A page is a contiguous slice of the scoped collection, starting just
/// after the cursor: when ids grow along the store order, the rows past the
/// cursor form a suffix, and the page is that suffix cut to the limit. In
/// particular the page's ids strictly increase.
pub proof fn lemma_page_is_slice<R: StoredRow>(s: Seq<R>, limit: int, cursor: u128)
    requires
        ids_ascending(s),
        limit >= 0,
    ensures
        exists|t: int| 0 <= t <= s.len() && page_spec(s, limit, cursor) == s.skip(t).take(
            page_spec(s, limit, cursor).len() as int,
        ),
        ids_ascending(page_spec(s, limit, cursor)),
{
    lemma_first_past(s, cursor);
    let t = first_past(s, cursor);
    assert(forall|j: int| 0 <= j < s.len() ==> (after_cursor::<R>(cursor)(#[trigger] s[j]) <==> j >= t));
    lemma_suffix_filter(s, after_cursor::<R>(cursor), t);
    let f = rows_after_cursor(s, cursor);
    let p = page_spec(s, limit, cursor);
    assert(f == s.skip(t));
    if f.len() <= limit {
        assert(p == f);
        assert(p == s.skip(t).take(p.len() as int)) by {
            assert(f.take(f.len() as int) =~= f);
        }
    } else {
        assert(p == f.take(limit));
        assert(p.len() == limit);
    }
    assert forall|a: int, b: int| 0 <= a < b < p.len()
        implies (#[trigger] p[a]).row_id() < (#[trigger] p[b]).row_id() by {
        assert(p[a] == s[t + a] && p[b] == s[t + b]);
    }
    assert(0 <= t <= s.len() && p == s.skip(t).take(p.len() as int));
}

/// The pages that a walk yields: starting from a cursor, fetch a page, and
/// while pages come back nonempty, thread the last returned id as the next
/// cursor. The fuel bounds the number of pages; a walk over a store of `n`
/// rows never needs more than `n` nonempty pages.
pub open spec fn walk_pages<R: StoredRow>(s: Seq<R>, limit: int, cursor: u128, fuel: nat) -> Seq<R>
    decreases fuel,
{
    if fuel == 0 {
        Seq::<R>::empty()
    } else {
        let p = page_spec(s, limit, cursor);
        if p.len() == 0 {
            Seq::<R>::empty()
        } else {
            p + walk_pages(s, limit, p.last().row_id(), (fuel - 1) as nat)
        }
    }
}

/// Every row a walk returns lies strictly past the cursor the walk started
/// from, whatever the store holds: a row whose id is at or before that
/// cursor is on no page of the walk.
pub proof fn lemma_walk_elements<R: StoredRow>(s: Seq<R>, limit: int, cursor: u128, fuel: nat)
    requires
        limit >= 0,
    ensures
        forall|x: R| #[trigger] walk_pages(s, limit, cursor, fuel).contains(x) ==> x.row_id() > cursor,
    decreases fuel,
{
    if fuel > 0 {
        let p = page_spec(s, limit, cursor);
        let f = rows_after_cursor(s, cursor);
        if p.len() > 0 {
            if f.len() <= limit {
                assert(p == f);
            } else {
                assert(p == f.take(limit));
            }
            let c2 = p.last().row_id();
            lemma_walk_elements(s, limit, c2, (fuel - 1) as nat);
            let w = walk_pages(s, limit, cursor, fuel);
            assert(w == p + walk_pages(s, limit, c2, (fuel - 1) as nat));
            assert forall|x: R| #[trigger] w.contains(x) implies x.row_id() > cursor by {
                let k = choose|k: int| 0 <= k < w.len() && w[k] == x;
                if k < p.len() {
                    assert(p[k] == f[k]);
                    assert(after_cursor::<R>(cursor)(f[k]));
                } else {
                    assert(walk_pages(s, limit, c2, (fuel - 1) as nat).contains(x));
                    assert(x.row_id() > c2);
                    assert(p[p.len() - 1] == f[p.len() - 1]);
                    assert(after_cursor::<R>(cursor)(f[p.len() - 1]));
                }
            }
        }
    }
}

/// Pagination covers exactly the tail past the cursor: in a store sorted by
/// `(updated_at, id)` whose ids grow along that order, walking pages from a
/// cursor yields precisely the rows whose id exceeds the cursor, once each,
/// in store order.
pub proof fn lemma_walk_from_cursor<R: StoredRow>(s: Seq<R>, limit: int, cursor: u128, fuel: nat)
    requires
        rows_sorted(s),
        ids_ascending(s),
        limit >= 1,
        fuel >= rows_after_cursor(s, cursor).len(),
    ensures
        walk_pages(s, limit, cursor, fuel) == rows_after_cursor(s, cursor),
    decreases fuel,
{
    let f = rows_after_cursor(s, cursor);
    lemma_first_past(s, cursor);
    let k = first_past(s, cursor);
    assert(forall|j: int| 0 <= j < s.len() ==> (after_cursor::<R>(cursor)(#[trigger] s[j]) <==> j >= k));
    lemma_suffix_filter(s, after_cursor::<R>(cursor), k);
    assert(f == s.skip(k));
    let p = page_spec(s, limit, cursor);
    if f.len() == 0 {
        assert(p.len() == 0);
    } else {
        let m: int = if f.len() <= limit { f.len() as int } else { limit };
        assert(p =~= f.take(m));
        assert(m >= 1);
        assert(p.len() == m);
        assert(p.last() == f[m - 1]);
        assert(f[m - 1] == s[k + m - 1]);
        let c2 = p.last().row_id();
        assert forall|j: int| 0 <= j < s.len() implies
            (after_cursor::<R>(c2)(#[trigger] s[j]) <==> j >= k + m) by {
            if j >= k + m {
                assert(s[k + m - 1].row_id() < s[j].row_id());
            } else if j < k + m - 1 {
                assert(s[j].row_id() < s[k + m - 1].row_id());
            }
        }
        lemma_suffix_filter(s, after_cursor::<R>(c2), k + m);
        assert(rows_after_cursor(s, c2) == s.skip(k + m));
        assert(s.skip(k + m) =~= f.skip(m));
        lemma_walk_from_cursor(s, limit, c2, (fuel - 1) as nat);
        assert(walk_pages(s, limit, cursor, fuel) == p + f.skip(m));
        assert(p + f.skip(m) =~= f);
    }
}

/// Pagination completeness: walking pages from the zero sentinel cursor
/// yields the full collection exactly once each, in `(updated_at, id)`
/// order. This holds of a store whose ids are nonzero and grow along the
/// store order; when an id out of order with the timestamps is present, a
/// walk can pass a row by, which is why the agreement is required.
pub proof fn lemma_walk_complete<R: StoredRow>(s: Seq<R>, limit: int, fuel: nat)
    requires
        rows_sorted(s),
        ids_ascending(s),
        ids_nonzero(s),
        limit >= 1,
        fuel >= s.len(),
    ensures
        walk_pages(s, limit, 0, fuel) == s,
    decreases fuel,
{
    assert(forall|i: int| 0 <= i < s.len() ==> after_cursor::<R>(0)(#[trigger] s[i]));
    lemma_filter_all_true(s, after_cursor::<R>(0));
    lemma_walk_from_cursor(s, limit, 0, fuel);
}

/// Insertion stability, early half: a row whose id is at or before the
/// cursor of an in-progress walk appears on no later page of that walk,
/// whatever rows are inserted or deleted around it.
pub proof fn lemma_early_row_hidden<R: StoredRow>(s: Seq<R>, limit: int, cursor: u128, fuel: nat, r: R)
    requires
        limit >= 0,
        r.row_id() <= cursor,
    ensures
        !walk_pages(s, limit, cursor, fuel).contains(r),
{
    lemma_walk_elements(s, limit, cursor, fuel);
}

/// Insertion stability, late half: a stored row whose id lies past the
/// cursor of an in-progress walk appears on a page of the continued walk,
/// provided the store keeps its ids growing along the store order.
pub proof fn lemma_late_row_appears<R: StoredRow>(s: Seq<R>, limit: int, cursor: u128, fuel: nat, i: int)
    requires
        rows_sorted(s),
        ids_ascending(s),
        limit >= 1,
        fuel >= rows_after_cursor(s, cursor).len(),
        0 <= i < s.len(),
        s[i].row_id() > cursor,
    ensures
        walk_pages(s, limit, cursor, fuel).contains(s[i]),
{
    lemma_walk_from_cursor(s, limit, cursor, fuel);
    assert(rows_after_cursor(s, cursor).contains(s[i]));
}

} // verus!
