//! The contact repository: create, read, update and delete over the contact
//! table, and the two scoped listings (by organization and by deal) built on
//! the cursor pagination helper.

use vstd::prelude::*;
use vstd::seq_lib::group_seq_lib_default;
use vstd::seq_lib::group_to_multiset_ensures;

use crate::errors::ServiceError;
use crate::models::{Contact, DealContact};
use crate::pagination::{
    find_by_id, find_index_by_id, insert_sorted, lemma_filter_all_true, lemma_filter_ids_nonzero,
    lemma_filter_ids_unique, lemma_filter_keeps_all, lemma_filter_sorted, lemma_find_none,
    lemma_find_some, limit_spec, limit_to_usize, not_id, page, page_spec, remove_by_id, without_id,
    StoredRow,
};
use crate::prefixes::{IdKind, TypedId};
use crate::store::{only_contacts_changed, Store};

verus! {

broadcast use group_seq_lib_default, group_to_multiset_ensures;

/// The predicate that scopes contacts to one organization.
pub open spec fn contact_in_org(orgv: u128) -> spec_fn(Contact) -> bool {
    |c: Contact| c.org_id.value == orgv
}

/// The contacts of one organization, in store order.
pub open spec fn contacts_in_org(db: Store, orgv: u128) -> Seq<Contact> {
    db.contacts@.filter(contact_in_org(orgv))
}

/// Whether the join table links a deal to a contact.
pub open spec fn has_deal_link(links: Seq<DealContact>, dealv: u128, contactv: u128) -> bool {
    exists|j: int| 0 <= j < links.len()
        && (#[trigger] links[j]).deal_id.value == dealv && links[j].contact_id.value == contactv
}

/// The predicate that scopes contacts to one deal through the join table.
pub open spec fn contact_linked_to_deal(links: Seq<DealContact>, dealv: u128) -> spec_fn(Contact) -> bool {
    |c: Contact| has_deal_link(links, dealv, c.id.value)
}

/// The contacts that the join table links to one deal, in store order.
pub open spec fn contacts_of_deal(db: Store, dealv: u128) -> Seq<Contact> {
    db.contacts@.filter(contact_linked_to_deal(db.deal_contacts@, dealv))
}

/// Whether the join table holds a row for the given (deal, contact) pair.
pub fn links_contain(links: &Vec<DealContact>, dealv: u128, contactv: u128) -> (r: bool)
    ensures
        r == has_deal_link(links@, dealv, contactv),
{
    let mut i: usize = 0;
    while i < links.len()
        invariant
            i <= links@.len(),
            forall|j: int| 0 <= j < i ==> !((#[trigger] links@[j]).deal_id.value == dealv
                && links@[j].contact_id.value == contactv),
        decreases links@.len() - i,
    {
        if links[i].deal_id.value == dealv && links[i].contact_id.value == contactv {
            return true;
        }
        i += 1;
    }
    false
}

/// Stores a contact row under its key. Succeeds exactly when the key is
/// nonzero and not yet present; a collision is a `Conflict` that leaves the
/// store as it was.
pub fn insert_contact(db: &mut Store, c: Contact) -> (r: Result<(), ServiceError>)
    requires
        old(db).wf(),
        c.id.kind == IdKind::Contact,
        c.org_id.kind == IdKind::Org,
    ensures
        final(db).wf(),
        only_contacts_changed(*old(db), *final(db)),
        match r {
            Ok(()) => c.id.value != 0 && find_by_id(old(db).contacts@, c.id.value) is None
                && final(db).contacts@.to_multiset() == old(db).contacts@.to_multiset().insert(c)
                && find_by_id(final(db).contacts@, c.id.value) == Some(c),
            Err(e) => e == ServiceError::Conflict && *final(db) == *old(db)
                && (c.id.value == 0 || find_by_id(old(db).contacts@, c.id.value) is Some),
        },
{
    let idv = c.id.value;
    if idv == 0 {
        return Err(ServiceError::Conflict);
    }
    match find_index_by_id(&db.contacts, idv) {
        Some(_) => Err(ServiceError::Conflict),
        None => {
            proof {
                lemma_find_none(db.contacts@, idv);
            }
            let ghost pre = db.contacts@;
            let i = insert_sorted(&mut db.contacts, c);
            proof {
                lemma_insert_contact_wf(pre, i as int, c);
                assert(db.contacts@ =~= pre.take(i as int) + seq![c] + pre.skip(i as int));
                assert(forall|j: int| 0 <= j < i ==> (#[trigger] db.contacts@[j]) == pre[j]);
                crate::pagination::lemma_find_step(db.contacts@, idv, i as int);
                assert(db.contacts@.skip(i as int)[0] == c);
            }
            Ok(())
        },
    }
}

proof fn lemma_insert_contact_wf(s: Seq<Contact>, i: int, c: Contact)
    requires
        0 <= i <= s.len(),
        forall|j: int| 0 <= j < s.len() ==> (#[trigger] s[j]).wf(),
        c.wf(),
    ensures
        forall|j: int| 0 <= j < s.insert(i, c).len() ==> (#[trigger] s.insert(i, c)[j]).wf(),
{
    crate::pagination::lemma_insert_keeps_all(s, i, c, |r: Contact| r.wf());
    assert(forall|j: int| 0 <= j < s.insert(i, c).len()
        ==> (|r: Contact| r.wf())(#[trigger] s.insert(i, c)[j]));
}

/// Creates a contact in an organization: stamps a fresh identifier and the
/// current time, and stores the row. Only a collision of the fresh
/// identifier with a stored one can fail this, so failure needs a nonempty
/// table; on that rare collision the store is unchanged and a `Conflict`
/// comes back.
pub fn create_contact_query(
    db: &mut Store,
    org_id: TypedId,
    first_name: String,
    last_name: String,
) -> (r: Result<Contact, ServiceError>)
    requires
        old(db).wf(),
        org_id.kind == IdKind::Org,
    ensures
        final(db).wf(),
        only_contacts_changed(*old(db), *final(db)),
        match r {
            Ok(c) => c.wf() && c.org_id == org_id && c.first_name == first_name
                && c.last_name == last_name && c.created_at == c.updated_at
                && find_by_id(old(db).contacts@, c.id.value) is None
                && final(db).contacts@.to_multiset() == old(db).contacts@.to_multiset().insert(c)
                && find_by_id(final(db).contacts@, c.id.value) == Some(c),
            Err(e) => e == ServiceError::Conflict && *final(db) == *old(db)
                && old(db).contacts@.len() > 0,
        },
{
    let c = Contact::from_details(org_id, first_name, last_name);
    let ghost idv = c.id.value;
    let out = c.copy_row();
    match insert_contact(db, c) {
        Ok(()) => Ok(out),
        Err(e) => {
            proof {
                assert(find_by_id(db.contacts@, idv) is Some);
                assert(db.contacts@.len() > 0);
            }
            Err(e)
        },
    }
}

/// The stored contact with the given identifier, or `NotFound`.
pub fn get_contact_by_id_query(db: &Store, contact_id: TypedId) -> (r: Result<Contact, ServiceError>)
    requires
        db.wf(),
        contact_id.kind == IdKind::Contact,
    ensures
        r == match find_by_id(db.contacts@, contact_id.value) {
            Some(c) => Ok::<Contact, ServiceError>(c),
            None => Err::<Contact, ServiceError>(ServiceError::NotFound),
        },
{
    match find_index_by_id(&db.contacts, contact_id.value) {
        Some(i) => Ok(db.contacts[i].copy_row()),
        None => Err(ServiceError::NotFound),
    }
}

/// Deletes the contact with the given identifier. A missing row is
/// `NotFound`, never a silent success.
pub fn delete_contact_query(db: &mut Store, contact_id: TypedId) -> (r: Result<(), ServiceError>)
    requires
        old(db).wf(),
        contact_id.kind == IdKind::Contact,
    ensures
        final(db).wf(),
        only_contacts_changed(*old(db), *final(db)),
        final(db).contacts@ == without_id(old(db).contacts@, contact_id.value),
        r == match find_by_id(old(db).contacts@, contact_id.value) {
            Some(_) => Ok::<(), ServiceError>(()),
            None => Err::<(), ServiceError>(ServiceError::NotFound),
        },
{
    let idv = contact_id.value;
    match find_index_by_id(&db.contacts, idv) {
        None => {
            proof {
                lemma_find_none(db.contacts@, idv);
                lemma_filter_all_true(db.contacts@, not_id::<Contact>(idv));
            }
            Err(ServiceError::NotFound)
        },
        Some(_) => {
            let ghost pre = db.contacts@;
            let kept = remove_by_id(&db.contacts, idv);
            db.contacts = kept;
            proof {
                lemma_filter_sorted(pre, not_id::<Contact>(idv));
                lemma_filter_ids_unique(pre, not_id::<Contact>(idv));
                lemma_filter_ids_nonzero(pre, not_id::<Contact>(idv));
                lemma_filter_keeps_all(pre, not_id::<Contact>(idv), |r: Contact| r.wf());
                assert(forall|j: int| 0 <= j < db.contacts@.len()
                    ==> (|r: Contact| r.wf())(#[trigger] db.contacts@[j]));
            }
            Ok(())
        },
    }
}

/// Updates a contact by a partial field patch: a given first or last name
/// replaces the stored one, the rest stays, and the update timestamp is
/// refreshed from the clock. A missing row is `NotFound`.
pub fn update_contact_query(
    db: &mut Store,
    contact_id: TypedId,
    first_name: Option<String>,
    last_name: Option<String>,
) -> (r: Result<Contact, ServiceError>)
    requires
        old(db).wf(),
        contact_id.kind == IdKind::Contact,
    ensures
        final(db).wf(),
        only_contacts_changed(*old(db), *final(db)),
        match r {
            Ok(c) => find_by_id(old(db).contacts@, contact_id.value) is Some && {
                let o = find_by_id(old(db).contacts@, contact_id.value).unwrap();
                &&& c.id == o.id
                &&& c.org_id == o.org_id
                &&& c.created_at == o.created_at
                &&& c.first_name == match first_name {
                    Some(f) => f,
                    None => o.first_name,
                }
                &&& c.last_name == match last_name {
                    Some(l) => l,
                    None => o.last_name,
                }
                &&& final(db).contacts@.to_multiset()
                    == without_id(old(db).contacts@, contact_id.value).to_multiset().insert(c)
                &&& find_by_id(final(db).contacts@, contact_id.value) == Some(c)
            },
            Err(e) => e == ServiceError::NotFound && *final(db) == *old(db)
                && find_by_id(old(db).contacts@, contact_id.value) is None,
        },
{
    let idv = contact_id.value;
    match find_index_by_id(&db.contacts, idv) {
        None => Err(ServiceError::NotFound),
        Some(i) => {
            let old_row = db.contacts[i].copy_row();
            proof {
                lemma_find_some(db.contacts@, idv);
            }
            let now = crate::models::now_seconds();
            let c = Contact {
                id: old_row.id,
                org_id: old_row.org_id,
                first_name: match first_name {
                    Some(f) => f,
                    None => old_row.first_name.clone(),
                },
                last_name: match last_name {
                    Some(l) => l,
                    None => old_row.last_name.clone(),
                },
                created_at: old_row.created_at,
                updated_at: now,
            };
            let out = c.copy_row();
            let ghost pre = db.contacts@;
            let kept = remove_by_id(&db.contacts, idv);
            db.contacts = kept;
            proof {
                lemma_filter_sorted(pre, not_id::<Contact>(idv));
                lemma_filter_ids_unique(pre, not_id::<Contact>(idv));
                lemma_filter_ids_nonzero(pre, not_id::<Contact>(idv));
                lemma_filter_keeps_all(pre, not_id::<Contact>(idv), |r: Contact| r.wf());
                assert(forall|j: int| 0 <= j < db.contacts@.len()
                    ==> (|r: Contact| r.wf())(#[trigger] db.contacts@[j]));
                assert forall|j: int| 0 <= j < db.contacts@.len()
                    implies (#[trigger] db.contacts@[j]).row_id() != idv by {
                    assert(pre.filter(not_id::<Contact>(idv))[j] == db.contacts@[j]);
                    assert(not_id::<Contact>(idv)(db.contacts@[j]));
                }
            }
            let ghost filtered = db.contacts@;
            let j = insert_sorted(&mut db.contacts, c);
            proof {
                lemma_insert_contact_wf(filtered, j as int, c);
                assert(db.contacts@ =~= filtered.take(j as int) + seq![c] + filtered.skip(j as int));
                assert(forall|k: int| 0 <= k < j ==> (#[trigger] db.contacts@[k]) == filtered[k]);
                crate::pagination::lemma_find_step(db.contacts@, idv, j as int);
                assert(db.contacts@.skip(j as int)[0] == c);
            }
            Ok(out)
        },
    }
}

/// Exec filter of the contact table to one organization's rows.
fn contacts_of_org_rows(contacts: &Vec<Contact>, orgv: u128) -> (out: Vec<Contact>)
    ensures
        out@ == contacts@.filter(contact_in_org(orgv)),
{
    let ghost pred = contact_in_org(orgv);
    let mut out: Vec<Contact> = Vec::new();
    let mut i: usize = 0;
    while i < contacts.len()
        invariant
            i <= contacts@.len(),
            pred == contact_in_org(orgv),
            out@ == contacts@.take(i as int).filter(pred),
        decreases contacts@.len() - i,
    {
        if contacts[i].org_id.value == orgv {
            out.push(contacts[i].copy_row());
        }
        proof {
            crate::pagination::lemma_filter_take_step(contacts@, pred, i as int);
        }
        i += 1;
    }
    proof {
        assert(contacts@.take(contacts@.len() as int) =~= contacts@);
    }
    out
}

/// Exec filter of the contact table to the rows the join table links to a
/// deal.
fn contacts_of_deal_rows(contacts: &Vec<Contact>, links: &Vec<DealContact>, dealv: u128) -> (out: Vec<Contact>)
    ensures
        out@ == contacts@.filter(contact_linked_to_deal(links@, dealv)),
{
    let ghost pred = contact_linked_to_deal(links@, dealv);
    let mut out: Vec<Contact> = Vec::new();
    let mut i: usize = 0;
    while i < contacts.len()
        invariant
            i <= contacts@.len(),
            pred == contact_linked_to_deal(links@, dealv),
            out@ == contacts@.take(i as int).filter(pred),
        decreases contacts@.len() - i,
    {
        if links_contain(links, dealv, contacts[i].id_value()) {
            out.push(contacts[i].copy_row());
        }
        proof {
            crate::pagination::lemma_filter_take_step(contacts@, pred, i as int);
        }
        i += 1;
    }
    proof {
        assert(contacts@.take(contacts@.len() as int) =~= contacts@);
    }
    out
}

/// One page of an organization's contacts, with the total count of the
/// scope. The limit defaults to ten; the cursor defaults to the zero
/// sentinel, and bounds the page by "id strictly past the cursor".
pub fn get_contacts_by_org_id_query(
    db: &Store,
    org_id: TypedId,
    limit: Option<i64>,
    offset: Option<TypedId>,
) -> (r: Result<(Vec<Contact>, u64), ServiceError>)
    requires
        db.wf(),
        org_id.kind == IdKind::Org,
        match offset {
            Some(o) => o.kind == IdKind::Contact,
            None => true,
        },
    ensures
        r is Ok,
        r.unwrap().0@ == page_spec(
            contacts_in_org(*db, org_id.value),
            limit_spec(limit),
            match offset {
                Some(o) => o.value,
                None => 0,
            },
        ),
        r.unwrap().1 == contacts_in_org(*db, org_id.value).len(),
{
    let cursor: u128 = match offset {
        Some(o) => o.value,
        None => 0,
    };
    let lim = limit_to_usize(limit);
    let scoped = contacts_of_org_rows(&db.contacts, org_id.value);
    let total: u64 = scoped.len() as u64;
    let items = page(&scoped, lim, cursor);
    Ok((items, total))
}

/// Pagination completeness at the repository level: the pages of an
/// organization's contacts, walked from the zero sentinel cursor by
/// threading the last returned id, cover the scope exactly once each, in
/// `(updated_at, id)` order. This needs the scope's ids to grow along the
/// store order; a row whose id orders against its timestamp can be passed
/// by, which is why the agreement stands in the premises.
pub proof fn lemma_org_walk_complete(db: Store, orgv: u128, limit: int, fuel: nat)
    requires
        db.wf(),
        crate::pagination::ids_ascending(contacts_in_org(db, orgv)),
        limit >= 1,
        fuel >= contacts_in_org(db, orgv).len(),
    ensures
        crate::pagination::walk_pages(contacts_in_org(db, orgv), limit, 0, fuel)
            == contacts_in_org(db, orgv),
{
    lemma_filter_sorted(db.contacts@, contact_in_org(orgv));
    lemma_filter_ids_nonzero(db.contacts@, contact_in_org(orgv));
    crate::pagination::lemma_walk_complete(contacts_in_org(db, orgv), limit, fuel);
}

/// One page of the contacts linked to a deal, with the total count of the
/// scope. A missing deal is `NotFound`.
pub fn get_contacts_by_deal_id_query(
    db: &Store,
    deal_id: TypedId,
    limit: Option<i64>,
    offset: Option<TypedId>,
) -> (r: Result<(Vec<Contact>, u64), ServiceError>)
    requires
        db.wf(),
        deal_id.kind == IdKind::Deal,
        match offset {
            Some(o) => o.kind == IdKind::Contact,
            None => true,
        },
    ensures
        match r {
            Ok(page_total) => find_by_id(db.deals@, deal_id.value) is Some
                && page_total.0@ == page_spec(
                    contacts_of_deal(*db, deal_id.value),
                    limit_spec(limit),
                    match offset {
                        Some(o) => o.value,
                        None => 0,
                    },
                )
                && page_total.1 == contacts_of_deal(*db, deal_id.value).len(),
            Err(e) => e == ServiceError::NotFound && find_by_id(db.deals@, deal_id.value) is None,
        },
{
    if find_index_by_id(&db.deals, deal_id.value).is_none() {
        return Err(ServiceError::NotFound);
    }
    let cursor: u128 = match offset {
        Some(o) => o.value,
        None => 0,
    };
    let lim = limit_to_usize(limit);
    let scoped = contacts_of_deal_rows(&db.contacts, &db.deal_contacts, deal_id.value);
    let total: u64 = scoped.len() as u64;
    let items = page(&scoped, lim, cursor);
    Ok((items, total))
}

} // verus!
