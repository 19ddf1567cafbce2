//! The deal repository: create, read, update and delete over the deal
//! table, the deal-contact relation, and the scoped listings (by
//! organization and by task) built on the cursor pagination helper.

use vstd::prelude::*;
use vstd::seq_lib::group_seq_lib_default;
use vstd::seq_lib::group_to_multiset_ensures;

use crate::contact_operator::has_deal_link;
use crate::errors::ServiceError;
use crate::models::{Deal, DealContact, TaskDeal};
use crate::pagination::{
    find_by_id, find_index_by_id, insert_sorted, lemma_filter_all_true, lemma_filter_elements,
    lemma_filter_ids_nonzero, lemma_filter_ids_unique, lemma_filter_keeps_all, lemma_filter_sorted,
    lemma_find_none, lemma_find_some, lemma_find_step, lemma_insert_keeps_all, limit_spec,
    limit_to_usize, not_id, page, page_spec, remove_by_id, without_id, StoredRow,
};
use crate::prefixes::{IdKind, TypedId};
use crate::store::{
    deal_pairs_unique, only_deal_contacts_changed, only_deals_changed, same_deal_pair, Store,
};

verus! {

broadcast use group_seq_lib_default, group_to_multiset_ensures;

/// The predicate that scopes deals to one organization.
pub open spec fn deal_in_org(orgv: u128) -> spec_fn(Deal) -> bool {
    |d: Deal| d.org_id.value == orgv
}

/// The deals of one organization, in store order.
pub open spec fn deals_in_org(db: Store, orgv: u128) -> Seq<Deal> {
    db.deals@.filter(deal_in_org(orgv))
}

/// Whether the join table links a task to a deal.
pub open spec fn has_task_deal_link(links: Seq<TaskDeal>, taskv: u128, dealv: u128) -> bool {
    exists|j: int| 0 <= j < links.len()
        && (#[trigger] links[j]).task_id.value == taskv && links[j].deal_id.value == dealv
}

/// The predicate that scopes deals to one task through the join table.
pub open spec fn deal_linked_to_task(links: Seq<TaskDeal>, taskv: u128) -> spec_fn(Deal) -> bool {
    |d: Deal| has_task_deal_link(links, taskv, d.id.value)
}

/// The deals that the join table links to one task, in store order.
pub open spec fn deals_of_task(db: Store, taskv: u128) -> Seq<Deal> {
    db.deals@.filter(deal_linked_to_task(db.task_deals@, taskv))
}

/// Stores a deal row under its key. Succeeds exactly when the key is
/// nonzero and not yet present; a collision is a `Conflict` that leaves the
/// store as it was.
pub fn insert_deal(db: &mut Store, d: Deal) -> (r: Result<(), ServiceError>)
    requires
        old(db).wf(),
        d.id.kind == IdKind::Deal,
        d.org_id.kind == IdKind::Org,
    ensures
        final(db).wf(),
        only_deals_changed(*old(db), *final(db)),
        match r {
            Ok(()) => d.id.value != 0 && find_by_id(old(db).deals@, d.id.value) is None
                && final(db).deals@.to_multiset() == old(db).deals@.to_multiset().insert(d)
                && find_by_id(final(db).deals@, d.id.value) == Some(d),
            Err(e) => e == ServiceError::Conflict && *final(db) == *old(db)
                && (d.id.value == 0 || find_by_id(old(db).deals@, d.id.value) is Some),
        },
{
    let idv = d.id.value;
    if idv == 0 {
        return Err(ServiceError::Conflict);
    }
    match find_index_by_id(&db.deals, idv) {
        Some(_) => Err(ServiceError::Conflict),
        None => {
            proof {
                lemma_find_none(db.deals@, idv);
            }
            let ghost pre = db.deals@;
            let i = insert_sorted(&mut db.deals, d);
            proof {
                lemma_insert_keeps_all(pre, i as int, d, |r: Deal| r.wf());
                assert(forall|j: int| 0 <= j < db.deals@.len()
                    ==> (|r: Deal| r.wf())(#[trigger] db.deals@[j]));
                assert(db.deals@ =~= pre.take(i as int) + seq![d] + pre.skip(i as int));
                assert(forall|j: int| 0 <= j < i ==> (#[trigger] db.deals@[j]) == pre[j]);
                lemma_find_step(db.deals@, idv, i as int);
                assert(db.deals@.skip(i as int)[0] == d);
            }
            Ok(())
        },
    }
}

/// Creates a deal in an organization: stamps a fresh identifier and the
/// current time, and stores the row. Only a collision of the fresh
/// identifier with a stored one can fail this, so failure needs a nonempty
/// table; on that rare collision the store is unchanged and a `Conflict`
/// comes back.
pub fn create_deal_query(
    db: &mut Store,
    org_id: TypedId,
    name: Option<String>,
    size_bits: Option<u32>,
    active: bool,
) -> (r: Result<Deal, ServiceError>)
    requires
        old(db).wf(),
        org_id.kind == IdKind::Org,
    ensures
        final(db).wf(),
        only_deals_changed(*old(db), *final(db)),
        match r {
            Ok(d) => d.wf() && d.org_id == org_id && d.name == name && d.size_bits == size_bits
                && d.active == active && d.created_at == d.updated_at
                && find_by_id(old(db).deals@, d.id.value) is None
                && final(db).deals@.to_multiset() == old(db).deals@.to_multiset().insert(d)
                && find_by_id(final(db).deals@, d.id.value) == Some(d),
            Err(e) => e == ServiceError::Conflict && *final(db) == *old(db)
                && old(db).deals@.len() > 0,
        },
{
    let d = Deal::from_details(org_id, name, size_bits, active);
    let ghost idv = d.id.value;
    let out = d.copy_row();
    match insert_deal(db, d) {
        Ok(()) => Ok(out),
        Err(e) => {
            proof {
                assert(find_by_id(db.deals@, idv) is Some);
                assert(db.deals@.len() > 0);
            }
            Err(e)
        },
    }
}

/// The stored deal with the given identifier, or `NotFound`.
pub fn get_deal_by_id_query(db: &Store, deal_id: TypedId) -> (r: Result<Deal, ServiceError>)
    requires
        db.wf(),
        deal_id.kind == IdKind::Deal,
    ensures
        r == match find_by_id(db.deals@, deal_id.value) {
            Some(d) => Ok::<Deal, ServiceError>(d),
            None => Err::<Deal, ServiceError>(ServiceError::NotFound),
        },
{
    match find_index_by_id(&db.deals, deal_id.value) {
        Some(i) => Ok(db.deals[i].copy_row()),
        None => Err(ServiceError::NotFound),
    }
}

/// Deletes the deal with the given identifier. A missing row is `NotFound`,
/// never a silent success.
pub fn delete_deal_query(db: &mut Store, deal_id: TypedId) -> (r: Result<(), ServiceError>)
    requires
        old(db).wf(),
        deal_id.kind == IdKind::Deal,
    ensures
        final(db).wf(),
        only_deals_changed(*old(db), *final(db)),
        final(db).deals@ == without_id(old(db).deals@, deal_id.value),
        r == match find_by_id(old(db).deals@, deal_id.value) {
            Some(_) => Ok::<(), ServiceError>(()),
            None => Err::<(), ServiceError>(ServiceError::NotFound),
        },
{
    let idv = deal_id.value;
    match find_index_by_id(&db.deals, idv) {
        None => {
            proof {
                lemma_find_none(db.deals@, idv);
                lemma_filter_all_true(db.deals@, not_id::<Deal>(idv));
            }
            Err(ServiceError::NotFound)
        },
        Some(_) => {
            let ghost pre = db.deals@;
            let kept = remove_by_id(&db.deals, idv);
            db.deals = kept;
            proof {
                lemma_filter_sorted(pre, not_id::<Deal>(idv));
                lemma_filter_ids_unique(pre, not_id::<Deal>(idv));
                lemma_filter_ids_nonzero(pre, not_id::<Deal>(idv));
                lemma_filter_keeps_all(pre, not_id::<Deal>(idv), |r: Deal| r.wf());
                assert(forall|j: int| 0 <= j < db.deals@.len()
                    ==> (|r: Deal| r.wf())(#[trigger] db.deals@[j]));
            }
            Ok(())
        },
    }
}

/// Updates a deal by a partial field patch: a given name, size or active
/// flag replaces the stored one, the rest stays, and the update timestamp
/// is refreshed from the clock. A missing row is `NotFound`.
pub fn update_deal_query(
    db: &mut Store,
    deal_id: TypedId,
    name: Option<String>,
    size_bits: Option<u32>,
    active: Option<bool>,
) -> (r: Result<Deal, ServiceError>)
    requires
        old(db).wf(),
        deal_id.kind == IdKind::Deal,
    ensures
        final(db).wf(),
        only_deals_changed(*old(db), *final(db)),
        match r {
            Ok(d) => find_by_id(old(db).deals@, deal_id.value) is Some && {
                let o = find_by_id(old(db).deals@, deal_id.value).unwrap();
                &&& d.id == o.id
                &&& d.org_id == o.org_id
                &&& d.created_at == o.created_at
                &&& d.name == match name {
                    Some(n) => Some(n),
                    None => o.name,
                }
                &&& d.size_bits == match size_bits {
                    Some(s) => Some(s),
                    None => o.size_bits,
                }
                &&& d.active == match active {
                    Some(a) => a,
                    None => o.active,
                }
                &&& final(db).deals@.to_multiset()
                    == without_id(old(db).deals@, deal_id.value).to_multiset().insert(d)
                &&& find_by_id(final(db).deals@, deal_id.value) == Some(d)
            },
            Err(e) => e == ServiceError::NotFound && *final(db) == *old(db)
                && find_by_id(old(db).deals@, deal_id.value) is None,
        },
{
    let idv = deal_id.value;
    match find_index_by_id(&db.deals, idv) {
        None => Err(ServiceError::NotFound),
        Some(i) => {
            let old_row = db.deals[i].copy_row();
            proof {
                lemma_find_some(db.deals@, idv);
            }
            let now = crate::models::now_seconds();
            let d = Deal {
                id: old_row.id,
                org_id: old_row.org_id,
                name: match name {
                    Some(n) => Some(n),
                    None => match &old_row.name {
                        Some(n) => Some(n.clone()),
                        None => None,
                    },
                },
                size_bits: match size_bits {
                    Some(s) => Some(s),
                    None => old_row.size_bits,
                },
                active: match active {
                    Some(a) => a,
                    None => old_row.active,
                },
                created_at: old_row.created_at,
                updated_at: now,
            };
            let out = d.copy_row();
            let ghost pre = db.deals@;
            let kept = remove_by_id(&db.deals, idv);
            db.deals = kept;
            proof {
                lemma_filter_sorted(pre, not_id::<Deal>(idv));
                lemma_filter_ids_unique(pre, not_id::<Deal>(idv));
                lemma_filter_ids_nonzero(pre, not_id::<Deal>(idv));
                lemma_filter_keeps_all(pre, not_id::<Deal>(idv), |r: Deal| r.wf());
                assert(forall|j: int| 0 <= j < db.deals@.len()
                    ==> (|r: Deal| r.wf())(#[trigger] db.deals@[j]));
                assert forall|j: int| 0 <= j < db.deals@.len()
                    implies (#[trigger] db.deals@[j]).row_id() != idv by {
                    assert(pre.filter(not_id::<Deal>(idv))[j] == db.deals@[j]);
                    assert(not_id::<Deal>(idv)(db.deals@[j]));
                }
            }
            let ghost filtered = db.deals@;
            let j = insert_sorted(&mut db.deals, d);
            proof {
                lemma_insert_keeps_all(filtered, j as int, d, |r: Deal| r.wf());
                assert(forall|k: int| 0 <= k < db.deals@.len()
                    ==> (|r: Deal| r.wf())(#[trigger] db.deals@[k]));
                assert(db.deals@ =~= filtered.take(j as int) + seq![d] + filtered.skip(j as int));
                assert(forall|k: int| 0 <= k < j ==> (#[trigger] db.deals@[k]) == filtered[k]);
                lemma_find_step(db.deals@, idv, j as int);
                assert(db.deals@.skip(j as int)[0] == d);
            }
            Ok(out)
        },
    }
}

/// Exec filter of the deal table to one organization's rows.
fn deals_of_org_rows(deals: &Vec<Deal>, orgv: u128) -> (out: Vec<Deal>)
    ensures
        out@ == deals@.filter(deal_in_org(orgv)),
{
    let ghost pred = deal_in_org(orgv);
    let mut out: Vec<Deal> = Vec::new();
    let mut i: usize = 0;
    while i < deals.len()
        invariant
            i <= deals@.len(),
            pred == deal_in_org(orgv),
            out@ == deals@.take(i as int).filter(pred),
        decreases deals@.len() - i,
    {
        if deals[i].org_id.value == orgv {
            out.push(deals[i].copy_row());
        }
        proof {
            crate::pagination::lemma_filter_take_step(deals@, pred, i as int);
        }
        i += 1;
    }
    proof {
        assert(deals@.take(deals@.len() as int) =~= deals@);
    }
    out
}

/// Whether the join table holds a row for the given (task, deal) pair.
fn task_deal_links_contain(links: &Vec<TaskDeal>, taskv: u128, dealv: u128) -> (r: bool)
    ensures
        r == has_task_deal_link(links@, taskv, dealv),
{
    let mut i: usize = 0;
    while i < links.len()
        invariant
            i <= links@.len(),
            forall|j: int| 0 <= j < i ==> !((#[trigger] links@[j]).task_id.value == taskv
                && links@[j].deal_id.value == dealv),
        decreases links@.len() - i,
    {
        if links[i].task_id.value == taskv && links[i].deal_id.value == dealv {
            return true;
        }
        i += 1;
    }
    false
}

/// Exec filter of the deal table to the rows the join table links to a
/// task.
fn deals_of_task_rows(deals: &Vec<Deal>, links: &Vec<TaskDeal>, taskv: u128) -> (out: Vec<Deal>)
    ensures
        out@ == deals@.filter(deal_linked_to_task(links@, taskv)),
{
    let ghost pred = deal_linked_to_task(links@, taskv);
    let mut out: Vec<Deal> = Vec::new();
    let mut i: usize = 0;
    while i < deals.len()
        invariant
            i <= deals@.len(),
            pred == deal_linked_to_task(links@, taskv),
            out@ == deals@.take(i as int).filter(pred),
        decreases deals@.len() - i,
    {
        if task_deal_links_contain(links, taskv, deals[i].id_value()) {
            out.push(deals[i].copy_row());
        }
        proof {
            crate::pagination::lemma_filter_take_step(deals@, pred, i as int);
        }
        i += 1;
    }
    proof {
        assert(deals@.take(deals@.len() as int) =~= deals@);
    }
    out
}

/// One page of an organization's deals, with the total count of the scope.
pub fn list_deals_by_org_id_query(
    db: &Store,
    org_id: TypedId,
    limit: Option<i64>,
    offset: Option<TypedId>,
) -> (r: Result<(Vec<Deal>, u64), ServiceError>)
    requires
        db.wf(),
        org_id.kind == IdKind::Org,
        match offset {
            Some(o) => o.kind == IdKind::Deal,
            None => true,
        },
    ensures
        r is Ok,
        r.unwrap().0@ == page_spec(
            deals_in_org(*db, org_id.value),
            limit_spec(limit),
            match offset {
                Some(o) => o.value,
                None => 0,
            },
        ),
        r.unwrap().1 == deals_in_org(*db, org_id.value).len(),
{
    let cursor: u128 = match offset {
        Some(o) => o.value,
        None => 0,
    };
    let lim = limit_to_usize(limit);
    let scoped = deals_of_org_rows(&db.deals, org_id.value);
    let total: u64 = scoped.len() as u64;
    let items = page(&scoped, lim, cursor);
    Ok((items, total))
}

/// Pagination completeness at the repository level: the pages of an
/// organization's deals, walked from the zero sentinel cursor by threading
/// the last returned id, cover the scope exactly once each, in
/// `(updated_at, id)` order, provided the scope's ids grow along the store
/// order.
pub proof fn lemma_deal_org_walk_complete(db: Store, orgv: u128, limit: int, fuel: nat)
    requires
        db.wf(),
        crate::pagination::ids_ascending(deals_in_org(db, orgv)),
        limit >= 1,
        fuel >= deals_in_org(db, orgv).len(),
    ensures
        crate::pagination::walk_pages(deals_in_org(db, orgv), limit, 0, fuel)
            == deals_in_org(db, orgv),
{
    lemma_filter_sorted(db.deals@, deal_in_org(orgv));
    lemma_filter_ids_nonzero(db.deals@, deal_in_org(orgv));
    crate::pagination::lemma_walk_complete(deals_in_org(db, orgv), limit, fuel);
}

/// One page of the deals linked to a task, with the total count of the
/// scope. A missing task is `NotFound`.
pub fn list_deals_by_task_id_query(
    db: &Store,
    task_id: TypedId,
    offset: Option<TypedId>,
    limit: Option<i64>,
) -> (r: Result<(Vec<Deal>, u64), ServiceError>)
    requires
        db.wf(),
        task_id.kind == IdKind::Task,
        match offset {
            Some(o) => o.kind == IdKind::Deal,
            None => true,
        },
    ensures
        match r {
            Ok(page_total) => find_by_id(db.tasks@, task_id.value) is Some
                && page_total.0@ == page_spec(
                    deals_of_task(*db, task_id.value),
                    limit_spec(limit),
                    match offset {
                        Some(o) => o.value,
                        None => 0,
                    },
                )
                && page_total.1 == deals_of_task(*db, task_id.value).len(),
            Err(e) => e == ServiceError::NotFound && find_by_id(db.tasks@, task_id.value) is None,
        },
{
    if find_index_by_id(&db.tasks, task_id.value).is_none() {
        return Err(ServiceError::NotFound);
    }
    let cursor: u128 = match offset {
        Some(o) => o.value,
        None => 0,
    };
    let lim = limit_to_usize(limit);
    let scoped = deals_of_task_rows(&db.deals, &db.task_deals, task_id.value);
    let total: u64 = scoped.len() as u64;
    let items = page(&scoped, lim, cursor);
    Ok((items, total))
}

/// Attaches a contact to a deal. Succeeds exactly when both rows exist and
/// the pair is not linked yet; a duplicate pair or a missing referent is a
/// constraint violation, reported as `Conflict`, with the store unchanged.
pub fn create_contact_for_deal_query(
    db: &mut Store,
    deal_id: TypedId,
    contact_id: TypedId,
) -> (r: Result<DealContact, ServiceError>)
    requires
        old(db).wf(),
        deal_id.kind == IdKind::Deal,
        contact_id.kind == IdKind::Contact,
    ensures
        final(db).wf(),
        only_deal_contacts_changed(*old(db), *final(db)),
        match r {
            Ok(dc) => dc.wf() && dc.deal_id == deal_id && dc.contact_id == contact_id
                && find_by_id(old(db).deals@, deal_id.value) is Some
                && find_by_id(old(db).contacts@, contact_id.value) is Some
                && !has_deal_link(old(db).deal_contacts@, deal_id.value, contact_id.value)
                && final(db).deal_contacts@ == old(db).deal_contacts@.push(dc),
            Err(e) => e == ServiceError::Conflict && *final(db) == *old(db)
                && (find_by_id(old(db).deals@, deal_id.value) is None
                    || find_by_id(old(db).contacts@, contact_id.value) is None
                    || has_deal_link(old(db).deal_contacts@, deal_id.value, contact_id.value)),
        },
{
    if find_index_by_id(&db.deals, deal_id.value).is_none() {
        return Err(ServiceError::Conflict);
    }
    if find_index_by_id(&db.contacts, contact_id.value).is_none() {
        return Err(ServiceError::Conflict);
    }
    if crate::contact_operator::links_contain(&db.deal_contacts, deal_id.value, contact_id.value) {
        return Err(ServiceError::Conflict);
    }
    let dc = DealContact::from_details(deal_id, contact_id);
    let out = dc.copy();
    let ghost pre = db.deal_contacts@;
    db.deal_contacts.push(dc);
    proof {
        assert forall|a: int, b: int| 0 <= a < b < db.deal_contacts@.len()
            implies !same_deal_pair(#[trigger] db.deal_contacts@[a], #[trigger] db.deal_contacts@[b]) by {
            if b == pre.len() {
                assert(db.deal_contacts@[a] == pre[a]);
                assert(!(pre[a].deal_id.value == deal_id.value && pre[a].contact_id.value == contact_id.value));
            } else {
                assert(db.deal_contacts@[a] == pre[a] && db.deal_contacts@[b] == pre[b]);
            }
        }
        assert(forall|j: int| 0 <= j < pre.len() ==> (#[trigger] db.deal_contacts@[j]) == pre[j]);
    }
    Ok(out)
}

/// The predicate that keeps every join row but those of one (deal, contact)
/// pair.
pub open spec fn not_deal_pair(dealv: u128, contactv: u128) -> spec_fn(DealContact) -> bool {
    |dc: DealContact| !(dc.deal_id.value == dealv && dc.contact_id.value == contactv)
}

proof fn lemma_filter_pairs_unique(s: Seq<DealContact>, pred: spec_fn(DealContact) -> bool)
    requires
        deal_pairs_unique(s),
    ensures
        deal_pairs_unique(s.filter(pred)),
    decreases s.len(),
{
    reveal_with_fuel(Seq::filter, 2);
    if s.len() > 0 {
        let d = s.drop_last();
        assert(deal_pairs_unique(d)) by {
            assert(forall|i: int| 0 <= i < d.len() ==> d[i] == s[i]);
        }
        lemma_filter_pairs_unique(d, pred);
        lemma_filter_elements(d, pred);
        if pred(s.last()) {
            let f = d.filter(pred);
            assert forall|a: int, b: int| 0 <= a < b < f.push(s.last()).len()
                implies !same_deal_pair(f.push(s.last())[a], f.push(s.last())[b]) by {
                if b == f.len() {
                    assert(f.contains(f[a]));
                    assert(d.contains(f[a]));
                    let m = choose|m: int| 0 <= m < d.len() && d[m] == f[a];
                    assert(!same_deal_pair(s[m], s.last()));
                } else {
                    assert(!same_deal_pair(f[a], f[b]));
                }
            }
        }
    }
}

/// Detaches a contact from a deal: every join row of the pair leaves the
/// store. Removing a pair that is not linked succeeds and changes nothing,
/// as a parameterized delete on the join table does.
pub fn delete_contact_from_deal_query(
    db: &mut Store,
    deal_id: TypedId,
    contact_id: TypedId,
) -> (r: Result<(), ServiceError>)
    requires
        old(db).wf(),
        deal_id.kind == IdKind::Deal,
        contact_id.kind == IdKind::Contact,
    ensures
        final(db).wf(),
        only_deal_contacts_changed(*old(db), *final(db)),
        final(db).deal_contacts@
            == old(db).deal_contacts@.filter(not_deal_pair(deal_id.value, contact_id.value)),
        r is Ok,
{
    let ghost pred = not_deal_pair(deal_id.value, contact_id.value);
    let ghost pre = db.deal_contacts@;
    let mut kept: Vec<DealContact> = Vec::new();
    let mut i: usize = 0;
    while i < db.deal_contacts.len()
        invariant
            i <= db.deal_contacts@.len(),
            db.deal_contacts@ == pre,
            pred == not_deal_pair(deal_id.value, contact_id.value),
            kept@ == pre.take(i as int).filter(pred),
        decreases pre.len() - i,
    {
        let dc = &db.deal_contacts[i];
        if !(dc.deal_id.value == deal_id.value && dc.contact_id.value == contact_id.value) {
            kept.push(db.deal_contacts[i].copy());
        }
        proof {
            crate::pagination::lemma_filter_take_step(pre, pred, i as int);
        }
        i += 1;
    }
    proof {
        assert(pre.take(pre.len() as int) =~= pre);
    }
    db.deal_contacts = kept;
    proof {
        lemma_filter_pairs_unique(pre, pred);
        lemma_filter_keeps_all(pre, pred, |dc: DealContact| dc.wf());
        assert(forall|j: int| 0 <= j < db.deal_contacts@.len()
            ==> (|dc: DealContact| dc.wf())(#[trigger] db.deal_contacts@[j]));
    }
    Ok(())
}

} // verus!
