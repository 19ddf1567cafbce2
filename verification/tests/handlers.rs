use crm_core::deal_handler::{
    create_deal, create_deal_resource, delete_deal, delete_deal_resource, get_deal,
    list_deal_by_org, list_deal_resource, update_deal, CreateDealReqPayload, DealResType,
    DealResource, DealResourceList, ListDealResourceQuery, UpdateDealReqPayload,
};
use crm_core::contact_operator::create_contact_query;
use crm_core::errors::ServiceError;
use crm_core::prefixes::{IdKind, TypedId};
use crm_core::store::Store;

fn org_id(value: u128) -> TypedId {
    TypedId { kind: IdKind::Org, value }
}

#[test]
fn create_deal_defaults_inactive() {
    let mut db = Store::new();
    let d = create_deal(
        &mut db,
        org_id(4),
        CreateDealReqPayload { size_bits: None, name: Some("n".to_string()), active: None },
    )
    .unwrap();
    assert!(!d.active);
    assert_eq!(d.name.as_deref(), Some("n"));
    assert_eq!(d.created_at, d.updated_at);
}

#[test]
fn deal_handler_crud() {
    let mut db = Store::new();
    let d = create_deal(
        &mut db,
        org_id(4),
        CreateDealReqPayload { size_bits: Some(7), name: None, active: Some(true) },
    )
    .unwrap();
    let got = get_deal(&db, d.id).unwrap();
    assert!(got.active);
    let patched = update_deal(
        &mut db,
        d.id,
        UpdateDealReqPayload { name: Some("renamed".to_string()), size_bits: None, active: None },
    )
    .unwrap();
    assert_eq!(patched.name.as_deref(), Some("renamed"));
    assert_eq!(patched.size_bits, Some(7));
    assert!(patched.active);
    assert_eq!(delete_deal(&mut db, d.id), Ok(()));
    assert_eq!(get_deal(&db, d.id), Err(ServiceError::NotFound));
    assert_eq!(delete_deal(&mut db, d.id), Err(ServiceError::NotFound));
}

#[test]
fn deal_resource_endpoints() {
    let mut db = Store::new();
    let org = org_id(4);
    let d = create_deal(
        &mut db,
        org,
        CreateDealReqPayload { size_bits: None, name: None, active: None },
    )
    .unwrap();
    let c = create_contact_query(&mut db, org, "Mary".to_string(), "Shelley".to_string())
        .unwrap();
    let cid_str = c.id.format();

    // A malformed resource id in the path is a client error.
    let bad = create_deal_resource(&mut db, d.id, DealResType::Contact, "???");
    assert_eq!(bad.unwrap_err(), ServiceError::MalformedIdentifier);

    let DealResource::Contact(link) =
        create_deal_resource(&mut db, d.id, DealResType::Contact, &cid_str).unwrap();
    assert_eq!(link.deal_id.value, d.id.value);
    assert_eq!(link.contact_id.value, c.id.value);

    let listed = list_deal_resource(
        &db,
        d.id,
        DealResType::Contact,
        ListDealResourceQuery { limit: None, offset: None },
    )
    .unwrap();
    assert_eq!(listed.total, 1);
    let DealResourceList::Contact(items) = listed.data;
    assert_eq!(items.len(), 1);
    assert_eq!(items[0].id.value, c.id.value);

    // A malformed cursor is a client error; a missing deal is not-found.
    let bad_cursor = list_deal_resource(
        &db,
        d.id,
        DealResType::Contact,
        ListDealResourceQuery { limit: None, offset: Some("zzz".to_string()) },
    );
    assert_eq!(bad_cursor.unwrap_err(), ServiceError::MalformedIdentifier);
    let ghost_deal = TypedId { kind: IdKind::Deal, value: d.id.value.wrapping_add(1) };
    let missing = list_deal_resource(
        &db,
        ghost_deal,
        DealResType::Contact,
        ListDealResourceQuery { limit: None, offset: None },
    );
    assert_eq!(missing.unwrap_err(), ServiceError::NotFound);

    assert_eq!(
        delete_deal_resource(&mut db, d.id, DealResType::Contact, &cid_str),
        Ok(())
    );
    let listed = list_deal_resource(
        &db,
        d.id,
        DealResType::Contact,
        ListDealResourceQuery { limit: None, offset: None },
    )
    .unwrap();
    assert_eq!(listed.total, 0);
    assert_eq!(
        delete_deal_resource(&mut db, d.id, DealResType::Contact, "bogus"),
        Err(ServiceError::MalformedIdentifier)
    );
}

#[test]
fn list_deal_by_org_pages_with_cursor() {
    let mut db = Store::new();
    let org = org_id(4);
    for value in [1u128, 2, 3] {
        let deal = crm_core::models::Deal {
            id: TypedId { kind: IdKind::Deal, value },
            name: None,
            org_id: org,
            size_bits: None,
            active: true,
            created_at: 5,
            updated_at: 5,
        };
        crm_core::deal_operator::insert_deal(&mut db, deal).unwrap();
    }
    let first = list_deal_by_org(
        &db,
        org,
        ListDealResourceQuery { limit: Some(2), offset: None },
    )
    .unwrap();
    let first_ids: Vec<u128> = first.deals.iter().map(|d| d.id.value).collect();
    assert_eq!(first_ids, vec![1, 2]);
    assert_eq!(first.total, 3);
    let cursor = first.deals.last().unwrap().id.format();
    let second = list_deal_by_org(
        &db,
        org,
        ListDealResourceQuery { limit: Some(2), offset: Some(cursor) },
    )
    .unwrap();
    assert_eq!(second.total, 3);
    let second_ids: Vec<u128> = second.deals.iter().map(|d| d.id.value).collect();
    assert_eq!(second_ids, vec![3]);
    let bad = list_deal_by_org(
        &db,
        org,
        ListDealResourceQuery { limit: None, offset: Some("deal_short".to_string()) },
    );
    assert_eq!(bad.unwrap_err(), ServiceError::MalformedIdentifier);
}
