//! The contact endpoints' core: validated payloads in, repository calls,
//! response bodies out. The HTTP layer hands these functions the caller's
//! organization (resolved by the identity middleware) and plain payloads.

use vstd::prelude::*;

use crate::contact_operator::{
    contacts_in_org, create_contact_query, delete_contact_query, get_contact_by_id_query,
    get_contacts_by_org_id_query, update_contact_query,
};
use crate::errors::ServiceError;
use crate::models::Contact;
use crate::pagination::{find_by_id, limit_spec, page_spec, without_id};
use crate::prefixes::{parse_id, IdKind, TypedId};
use crate::store::{only_contacts_changed, Store};

verus! {

/// The JSON payload that creates a contact.
#[derive(Debug, Clone)]
pub struct CreateContactReqPayload {
    pub first_name: String,
    pub last_name: String,
}

/// The JSON payload that patches a contact; an absent field keeps the
/// stored value.
#[derive(Debug, Clone)]
pub struct UpdateContactReqPayload {
    pub first_name: Option<String>,
    pub last_name: Option<String>,
}

/// The response body of the contact listing.
#[derive(Debug)]
pub struct ContactList {
    pub contacts: Vec<Contact>,
    pub total: u64,
}

/// The query parameters of the contact listing. The `offset` parameter
/// carries the cursor: the string form of the last returned contact
/// identifier, not a numeric offset.
#[derive(Debug, Clone)]
pub struct ListContactsQuery {
    pub limit: Option<i64>,
    pub offset: Option<String>,
}

/// Creates a contact in the caller's organization.
pub fn create_contact(
    db: &mut Store,
    org_id: TypedId,
    req_payload: CreateContactReqPayload,
) -> (r: Result<Contact, ServiceError>)
    requires
        old(db).wf(),
        org_id.kind == IdKind::Org,
    ensures
        final(db).wf(),
        only_contacts_changed(*old(db), *final(db)),
        match r {
            Ok(c) => c.wf() && c.org_id == org_id && c.first_name == req_payload.first_name
                && c.last_name == req_payload.last_name && c.created_at == c.updated_at
                && final(db).contacts@.to_multiset()
                    == old(db).contacts@.to_multiset().insert(c)
                && find_by_id(final(db).contacts@, c.id.value) == Some(c),
            Err(e) => e == ServiceError::Conflict && *final(db) == *old(db)
                && old(db).contacts@.len() > 0,
        },
{
    create_contact_query(db, org_id, req_payload.first_name, req_payload.last_name)
}

/// Deletes a contact by its path identifier; a missing row is `NotFound`.
pub fn delete_contact(db: &mut Store, contact_id: TypedId) -> (r: Result<(), ServiceError>)
    requires
        old(db).wf(),
        contact_id.kind == IdKind::Contact,
    ensures
        final(db).wf(),
        only_contacts_changed(*old(db), *final(db)),
        final(db).contacts@ == without_id(old(db).contacts@, contact_id.value),
        r == match find_by_id(old(db).contacts@, contact_id.value) {
            Some(_) => Ok::<(), ServiceError>(()),
            None => Err::<(), ServiceError>(ServiceError::NotFound),
        },
{
    delete_contact_query(db, contact_id)
}

/// The contact with the given path identifier, or `NotFound`.
pub fn get_contact(db: &Store, contact_id: TypedId) -> (r: Result<Contact, ServiceError>)
    requires
        db.wf(),
        contact_id.kind == IdKind::Contact,
    ensures
        r == match find_by_id(db.contacts@, contact_id.value) {
            Some(c) => Ok::<Contact, ServiceError>(c),
            None => Err::<Contact, ServiceError>(ServiceError::NotFound),
        },
{
    get_contact_by_id_query(db, contact_id)
}

/// Patches a contact by its path identifier; a missing row is `NotFound`.
pub fn update_contact(
    db: &mut Store,
    contact_id: TypedId,
    req_payload: UpdateContactReqPayload,
) -> (r: Result<Contact, ServiceError>)
    requires
        old(db).wf(),
        contact_id.kind == IdKind::Contact,
    ensures
        final(db).wf(),
        only_contacts_changed(*old(db), *final(db)),
        match r {
            Ok(c) => find_by_id(old(db).contacts@, contact_id.value) is Some && {
                let o = find_by_id(old(db).contacts@, contact_id.value).unwrap();
                &&& c.id == o.id
                &&& c.org_id == o.org_id
                &&& c.created_at == o.created_at
                &&& c.first_name == match req_payload.first_name {
                    Some(f) => f,
                    None => o.first_name,
                }
                &&& c.last_name == match req_payload.last_name {
                    Some(l) => l,
                    None => o.last_name,
                }
                &&& find_by_id(final(db).contacts@, contact_id.value) == Some(c)
            },
            Err(e) => e == ServiceError::NotFound && *final(db) == *old(db)
                && find_by_id(old(db).contacts@, contact_id.value) is None,
        },
{
    update_contact_query(db, contact_id, req_payload.first_name, req_payload.last_name)
}

/// The cursor value a listing query names: the parsed offset identifier, or
/// the zero sentinel when the offset is absent.
pub open spec fn query_cursor(offset: Option<String>, kind: IdKind) -> u128 {
    match offset {
        None => 0,
        Some(s) => match parse_id(s@, kind) {
            Ok(id) => id.value,
            Err(_) => 0,
        },
    }
}

/// Whether a listing query's offset parses for the expected kind (an absent
/// offset does).
pub open spec fn query_cursor_ok(offset: Option<String>, kind: IdKind) -> bool {
    match offset {
        None => true,
        Some(s) => parse_id(s@, kind) is Ok,
    }
}

/// One page of the caller's organization's contacts. The optional `offset`
/// carries the cursor in string form; a string that does not parse as a
/// contact identifier is `MalformedIdentifier`.
pub fn list_contacts(db: &Store, org_id: TypedId, query: ListContactsQuery) -> (r: Result<
    ContactList,
    ServiceError,
>)
    requires
        db.wf(),
        org_id.kind == IdKind::Org,
    ensures
        match r {
            Ok(list) => query_cursor_ok(query.offset, IdKind::Contact)
                && list.contacts@ == page_spec(
                    contacts_in_org(*db, org_id.value),
                    limit_spec(query.limit),
                    query_cursor(query.offset, IdKind::Contact),
                )
                && list.total == contacts_in_org(*db, org_id.value).len(),
            Err(e) => e == ServiceError::MalformedIdentifier
                && !query_cursor_ok(query.offset, IdKind::Contact),
        },
{
    let offset_str: Option<&str> = match &query.offset {
        Some(s) => Some(s.as_str()),
        None => None,
    };
    let offset = match TypedId::parse_optional(offset_str, IdKind::Contact) {
        Ok(o) => o,
        Err(e) => {
            return Err(e);
        },
    };
    match get_contacts_by_org_id_query(db, org_id, query.limit, offset) {
        Ok((contacts, total)) => Ok(ContactList { contacts, total }),
        Err(e) => Err(e),
    }
}

} // verus!
