//! The deal endpoints' core: validated payloads in, repository calls,
//! response bodies out, together with the deal-resource relation endpoints,
//! which parse the resource identifier out of the request path.

use vstd::prelude::*;

use crate::contact_handler::{query_cursor, query_cursor_ok};
use crate::contact_operator::{
    contacts_of_deal, get_contacts_by_deal_id_query, has_deal_link,
};
use crate::deal_operator::{
    create_contact_for_deal_query, create_deal_query, deals_in_org, delete_contact_from_deal_query,
    delete_deal_query, get_deal_by_id_query, list_deals_by_org_id_query, not_deal_pair,
    update_deal_query,
};
use crate::errors::ServiceError;
use crate::models::{Contact, Deal, DealContact};
use crate::pagination::{find_by_id, limit_spec, page_spec, without_id};
use crate::prefixes::{parse_id, IdKind, TypedId};
use crate::store::{only_deal_contacts_changed, only_deals_changed, Store};

verus! {

/// The JSON payload that creates a deal. The size carries the bit pattern
/// of a 32-bit IEEE 754 value; the boundary converts from and to the
/// floating-point form.
#[derive(Debug, Clone)]
pub struct CreateDealReqPayload {
    pub size_bits: Option<u32>,
    pub name: Option<String>,
    pub active: Option<bool>,
}

/// The JSON payload that patches a deal; an absent field keeps the stored
/// value.
#[derive(Debug, Clone)]
pub struct UpdateDealReqPayload {
    pub name: Option<String>,
    pub size_bits: Option<u32>,
    pub active: Option<bool>,
}

/// The kinds of resource that can be related to a deal.
#[derive(Debug, Clone, Copy, PartialEq, Eq, Structural)]
pub enum DealResType {
    Contact,
}

/// One resource related to a deal.
#[derive(Debug)]
pub enum DealResource {
    Contact(DealContact),
}

/// One page of resources related to a deal.
#[derive(Debug)]
pub enum DealResourceList {
    Contact(Vec<Contact>),
}

/// The query parameters of the resource listings. The `offset` parameter
/// carries the cursor: the string form of the last returned identifier.
#[derive(Debug, Clone)]
pub struct ListDealResourceQuery {
    pub limit: Option<i64>,
    pub offset: Option<String>,
}

/// The response body of the resource listing.
#[derive(Debug)]
pub struct DealResourceListWithPagination {
    pub data: DealResourceList,
    pub total: u64,
}

/// The response body of the deal listing.
#[derive(Debug)]
pub struct ListDealByOrgRespBody {
    pub deals: Vec<Deal>,
    pub total: u64,
}

/// Creates a deal in the caller's organization; an absent active flag
/// defaults to inactive.
pub fn create_deal(
    db: &mut Store,
    org_id: TypedId,
    req_payload: CreateDealReqPayload,
) -> (r: Result<Deal, ServiceError>)
    requires
        old(db).wf(),
        org_id.kind == IdKind::Org,
    ensures
        final(db).wf(),
        only_deals_changed(*old(db), *final(db)),
        match r {
            Ok(d) => d.wf() && d.org_id == org_id && d.name == req_payload.name
                && d.size_bits == req_payload.size_bits
                && d.active == match req_payload.active {
                    Some(a) => a,
                    None => false,
                }
                && d.created_at == d.updated_at
                && find_by_id(final(db).deals@, d.id.value) == Some(d),
            Err(e) => e == ServiceError::Conflict && *final(db) == *old(db)
                && old(db).deals@.len() > 0,
        },
{
    let active = match req_payload.active {
        Some(a) => a,
        None => false,
    };
    create_deal_query(db, org_id, req_payload.name, req_payload.size_bits, active)
}

/// Deletes a deal by its path identifier; a missing row is `NotFound`.
pub fn delete_deal(db: &mut Store, deal_id: TypedId) -> (r: Result<(), ServiceError>)
    requires
        old(db).wf(),
        deal_id.kind == IdKind::Deal,
    ensures
        final(db).wf(),
        only_deals_changed(*old(db), *final(db)),
        final(db).deals@ == without_id(old(db).deals@, deal_id.value),
        r == match find_by_id(old(db).deals@, deal_id.value) {
            Some(_) => Ok::<(), ServiceError>(()),
            None => Err::<(), ServiceError>(ServiceError::NotFound),
        },
{
    delete_deal_query(db, deal_id)
}

/// The deal with the given path identifier, or `NotFound`.
pub fn get_deal(db: &Store, deal_id: TypedId) -> (r: Result<Deal, ServiceError>)
    requires
        db.wf(),
        deal_id.kind == IdKind::Deal,
    ensures
        r == match find_by_id(db.deals@, deal_id.value) {
            Some(d) => Ok::<Deal, ServiceError>(d),
            None => Err::<Deal, ServiceError>(ServiceError::NotFound),
        },
{
    get_deal_by_id_query(db, deal_id)
}

/// Patches a deal by its path identifier; a missing row is `NotFound`.
pub fn update_deal(
    db: &mut Store,
    deal_id: TypedId,
    req_payload: UpdateDealReqPayload,
) -> (r: Result<Deal, ServiceError>)
    requires
        old(db).wf(),
        deal_id.kind == IdKind::Deal,
    ensures
        final(db).wf(),
        only_deals_changed(*old(db), *final(db)),
        match r {
            Ok(d) => find_by_id(old(db).deals@, deal_id.value) is Some && {
                let o = find_by_id(old(db).deals@, deal_id.value).unwrap();
                &&& d.id == o.id
                &&& d.org_id == o.org_id
                &&& d.created_at == o.created_at
                &&& d.name == match req_payload.name {
                    Some(n) => Some(n),
                    None => o.name,
                }
                &&& d.size_bits == match req_payload.size_bits {
                    Some(s) => Some(s),
                    None => o.size_bits,
                }
                &&& d.active == match req_payload.active {
                    Some(a) => a,
                    None => o.active,
                }
                &&& find_by_id(final(db).deals@, deal_id.value) == Some(d)
            },
            Err(e) => e == ServiceError::NotFound && *final(db) == *old(db)
                && find_by_id(old(db).deals@, deal_id.value) is None,
        },
{
    update_deal_query(db, deal_id, req_payload.name, req_payload.size_bits, req_payload.active)
}

/// Attaches a resource to a deal by the identifier string in the request
/// path. A string that does not parse for the resource's kind is
/// `MalformedIdentifier`; a missing row or an already linked pair is
/// `Conflict`.
pub fn create_deal_resource(
    db: &mut Store,
    deal_id: TypedId,
    resource: DealResType,
    resource_id: &str,
) -> (r: Result<DealResource, ServiceError>)
    requires
        old(db).wf(),
        deal_id.kind == IdKind::Deal,
    ensures
        final(db).wf(),
        only_deal_contacts_changed(*old(db), *final(db)),
        match r {
            Ok(res) => resource == DealResType::Contact
                && parse_id(resource_id@, IdKind::Contact) is Ok && match res {
                DealResource::Contact(dc) => {
                    let cid = parse_id(resource_id@, IdKind::Contact).unwrap();
                    &&& dc.wf()
                    &&& dc.deal_id == deal_id
                    &&& dc.contact_id == cid
                    &&& !has_deal_link(old(db).deal_contacts@, deal_id.value, cid.value)
                    &&& final(db).deal_contacts@ == old(db).deal_contacts@.push(dc)
                },
            },
            Err(e) => *final(db) == *old(db) && ((e == ServiceError::MalformedIdentifier
                && parse_id(resource_id@, IdKind::Contact) is Err) || (e == ServiceError::Conflict
                && parse_id(resource_id@, IdKind::Contact) is Ok && {
                let cid = parse_id(resource_id@, IdKind::Contact).unwrap();
                ||| find_by_id(old(db).deals@, deal_id.value) is None
                ||| find_by_id(old(db).contacts@, cid.value) is None
                ||| has_deal_link(old(db).deal_contacts@, deal_id.value, cid.value)
            })),
        },
{
    match resource {
        DealResType::Contact => {
            let contact_id = match TypedId::parse(resource_id, IdKind::Contact) {
                Ok(id) => id,
                Err(e) => {
                    return Err(e);
                },
            };
            match create_contact_for_deal_query(db, deal_id, contact_id) {
                Ok(dc) => Ok(DealResource::Contact(dc)),
                Err(e) => Err(e),
            }
        },
    }
}

/// One page of the resources related to a deal, with the total count of the
/// scope. A malformed cursor is `MalformedIdentifier`; a missing deal is
/// `NotFound`.
pub fn list_deal_resource(
    db: &Store,
    deal_id: TypedId,
    resource: DealResType,
    query: ListDealResourceQuery,
) -> (r: Result<DealResourceListWithPagination, ServiceError>)
    requires
        db.wf(),
        deal_id.kind == IdKind::Deal,
    ensures
        match r {
            Ok(out) => resource == DealResType::Contact
                && query_cursor_ok(query.offset, IdKind::Contact)
                && find_by_id(db.deals@, deal_id.value) is Some
                && out.total == contacts_of_deal(*db, deal_id.value).len()
                && match out.data {
                    DealResourceList::Contact(items) => items@ == page_spec(
                        contacts_of_deal(*db, deal_id.value),
                        limit_spec(query.limit),
                        query_cursor(query.offset, IdKind::Contact),
                    ),
                },
            Err(e) => (e == ServiceError::MalformedIdentifier
                && !query_cursor_ok(query.offset, IdKind::Contact)) || (e == ServiceError::NotFound
                && query_cursor_ok(query.offset, IdKind::Contact)
                && find_by_id(db.deals@, deal_id.value) is None),
        },
{
    match resource {
        DealResType::Contact => {
            let offset_str: Option<&str> = match &query.offset {
                Some(s) => Some(s.as_str()),
                None => None,
            };
            let offset = match TypedId::parse_optional(offset_str, IdKind::Contact) {
                Ok(o) => o,
                Err(e) => {
                    return Err(e);
                },
            };
            match get_contacts_by_deal_id_query(db, deal_id, query.limit, offset) {
                Ok((contacts, total)) => Ok(DealResourceListWithPagination {
                    data: DealResourceList::Contact(contacts),
                    total,
                }),
                Err(e) => Err(e),
            }
        },
    }
}

/// Detaches a resource from a deal by the identifier string in the request
/// path. A string that does not parse for the resource's kind is
/// `MalformedIdentifier`; detaching an unlinked pair succeeds and changes
/// nothing.
pub fn delete_deal_resource(
    db: &mut Store,
    deal_id: TypedId,
    resource: DealResType,
    resource_id: &str,
) -> (r: Result<(), ServiceError>)
    requires
        old(db).wf(),
        deal_id.kind == IdKind::Deal,
    ensures
        final(db).wf(),
        only_deal_contacts_changed(*old(db), *final(db)),
        match r {
            Ok(()) => resource == DealResType::Contact
                && parse_id(resource_id@, IdKind::Contact) is Ok
                && final(db).deal_contacts@ == old(db).deal_contacts@.filter(
                not_deal_pair(
                    deal_id.value,
                    parse_id(resource_id@, IdKind::Contact).unwrap().value,
                ),
            ),
            Err(e) => e == ServiceError::MalformedIdentifier && *final(db) == *old(db)
                && parse_id(resource_id@, IdKind::Contact) is Err,
        },
{
    match resource {
        DealResType::Contact => {
            let contact_id = match TypedId::parse(resource_id, IdKind::Contact) {
                Ok(id) => id,
                Err(e) => {
                    return Err(e);
                },
            };
            delete_contact_from_deal_query(db, deal_id, contact_id)
        },
    }
}

/// One page of the caller's organization's deals. The optional `offset`
/// carries the cursor in string form; a string that does not parse as a
/// deal identifier is `MalformedIdentifier`.
pub fn list_deal_by_org(db: &Store, org_id: TypedId, query: ListDealResourceQuery) -> (r: Result<
    ListDealByOrgRespBody,
    ServiceError,
>)
    requires
        db.wf(),
        org_id.kind == IdKind::Org,
    ensures
        match r {
            Ok(out) => query_cursor_ok(query.offset, IdKind::Deal)
                && out.deals@ == page_spec(
                    deals_in_org(*db, org_id.value),
                    limit_spec(query.limit),
                    query_cursor(query.offset, IdKind::Deal),
                )
                && out.total == deals_in_org(*db, org_id.value).len(),
            Err(e) => e == ServiceError::MalformedIdentifier
                && !query_cursor_ok(query.offset, IdKind::Deal),
        },
{
    let offset_str: Option<&str> = match &query.offset {
        Some(s) => Some(s.as_str()),
        None => None,
    };
    let offset = match TypedId::parse_optional(offset_str, IdKind::Deal) {
        Ok(o) => o,
        Err(e) => {
            return Err(e);
        },
    };
    match list_deals_by_org_id_query(db, org_id, query.limit, offset) {
        Ok((deals, total)) => Ok(ListDealByOrgRespBody { deals, total }),
        Err(e) => Err(e),
    }
}

} // verus!
