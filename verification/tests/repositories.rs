use crm_core::contact_handler::{
    list_contacts, CreateContactReqPayload, ListContactsQuery, UpdateContactReqPayload,
};
use crm_core::contact_operator::{
    create_contact_query, delete_contact_query, get_contact_by_id_query,
    get_contacts_by_deal_id_query, get_contacts_by_org_id_query, insert_contact,
    update_contact_query,
};
use crm_core::deal_operator::{
    create_contact_for_deal_query, create_deal_query, delete_contact_from_deal_query,
    delete_deal_query, get_deal_by_id_query, insert_deal, list_deals_by_org_id_query,
    list_deals_by_task_id_query, update_deal_query,
};
use crm_core::errors::ServiceError;
use crm_core::models::{ApiKey, Contact, Deal, Task, TaskUser, User};
use crm_core::prefixes::{IdKind, TypedId};
use crm_core::store::Store;
use crm_core::user_operator::{
    create_user_query, get_user_by_email_query, get_user_by_id_query,
    get_user_from_api_key_query, list_users_by_task_id_query,
};

fn contact(org: TypedId, value: u128, updated_at: i64, first: &str) -> Contact {
    Contact {
        id: TypedId { kind: IdKind::Contact, value },
        org_id: org,
        first_name: first.to_string(),
        last_name: "Doe".to_string(),
        created_at: updated_at,
        updated_at,
    }
}

fn org_id(value: u128) -> TypedId {
    TypedId { kind: IdKind::Org, value }
}

fn ids(items: &[Contact]) -> Vec<u128> {
    items.iter().map(|c| c.id.value).collect()
}

/// Three contacts with ids c1 < c2 < c3: the first page of two is [c1, c2]
/// with the whole scope counted, and the page after c2 is [c3] with the
/// same total.
#[test]
fn three_contacts_two_pages() {
    let mut db = Store::new();
    let org = org_id(900);
    for (value, name) in [(1u128, "a"), (2, "b"), (3, "c")] {
        insert_contact(&mut db, contact(org, value, 50, name)).unwrap();
    }
    let zero = TypedId::zero(IdKind::Contact);
    let (items, total) = get_contacts_by_org_id_query(&db, org, Some(2), Some(zero)).unwrap();
    assert_eq!(ids(&items), vec![1, 2]);
    assert_eq!(total, 3);
    let c2 = TypedId { kind: IdKind::Contact, value: 2 };
    let (items, total) = get_contacts_by_org_id_query(&db, org, Some(2), Some(c2)).unwrap();
    assert_eq!(ids(&items), vec![3]);
    assert_eq!(total, 3);
}

/// Fetching the same page twice with no intervening writes returns the same
/// items and total.
#[test]
fn page_fetch_is_repeatable() {
    let mut db = Store::new();
    let org = org_id(900);
    for value in [4u128, 9, 2, 7] {
        insert_contact(&mut db, contact(org, value, value as i64, "x")).unwrap();
    }
    let cursor = TypedId { kind: IdKind::Contact, value: 2 };
    let (first_items, first_total) =
        get_contacts_by_org_id_query(&db, org, Some(2), Some(cursor)).unwrap();
    let (second_items, second_total) =
        get_contacts_by_org_id_query(&db, org, Some(2), Some(cursor)).unwrap();
    assert_eq!(ids(&first_items), ids(&second_items));
    assert_eq!(first_total, second_total);
}

/// Walking pages from the zero sentinel, threading the last id as the next
/// cursor until a page comes back empty, yields the whole scope exactly
/// once each, in (updated_at, id) order.
#[test]
fn walk_covers_scope_exactly_once() {
    let mut db = Store::new();
    let org = org_id(31);
    // Ids grow with the timestamps, so the id order and the store order agree.
    for (value, upd) in [(10u128, 1i64), (11, 1), (12, 2), (13, 2), (14, 5), (15, 9), (16, 9)] {
        insert_contact(&mut db, contact(org, value, upd, "w")).unwrap();
    }
    let mut cursor = TypedId::zero(IdKind::Contact);
    let mut seen: Vec<u128> = Vec::new();
    loop {
        let (items, total) =
            get_contacts_by_org_id_query(&db, org, Some(3), Some(cursor)).unwrap();
        assert_eq!(total, 7);
        if items.is_empty() {
            break;
        }
        cursor = items.last().unwrap().id;
        seen.extend(ids(&items));
    }
    assert_eq!(seen, vec![10, 11, 12, 13, 14, 15, 16]);
}

/// A row inserted behind an in-progress walk's cursor stays off later
/// pages; one inserted past the last fetched row shows up on a later page.
#[test]
fn insertion_stability_during_walk() {
    let mut db = Store::new();
    let org = org_id(31);
    for (value, upd) in [(10u128, 1i64), (20, 2), (30, 3), (40, 4)] {
        insert_contact(&mut db, contact(org, value, upd, "w")).unwrap();
    }
    // First page of two: [10, 20]; the cursor is 20.
    let (items, _) = get_contacts_by_org_id_query(
        &db,
        org,
        Some(2),
        Some(TypedId::zero(IdKind::Contact)),
    )
    .unwrap();
    assert_eq!(ids(&items), vec![10, 20]);
    let cursor = items.last().unwrap().id;
    // A row ordered before the cursor row arrives, and one past the last
    // stored row arrives too.
    insert_contact(&mut db, contact(org, 15, 1, "early")).unwrap();
    insert_contact(&mut db, contact(org, 50, 9, "late")).unwrap();
    let mut seen: Vec<u128> = Vec::new();
    let mut c = cursor;
    loop {
        let (items, _) = get_contacts_by_org_id_query(&db, org, Some(2), Some(c)).unwrap();
        if items.is_empty() {
            break;
        }
        c = items.last().unwrap().id;
        seen.extend(ids(&items));
    }
    assert!(!seen.contains(&15));
    assert!(seen.contains(&50));
    assert_eq!(seen, vec![30, 40, 50]);
}

/// A cursor naming a row that was deleted still works as a plain bound.
#[test]
fn cursor_of_deleted_row_still_bounds() {
    let mut db = Store::new();
    let org = org_id(8);
    for value in [1u128, 2, 3] {
        insert_contact(&mut db, contact(org, value, 4, "d")).unwrap();
    }
    let c2 = TypedId { kind: IdKind::Contact, value: 2 };
    delete_contact_query(&mut db, c2).unwrap();
    let (items, total) = get_contacts_by_org_id_query(&db, org, Some(10), Some(c2)).unwrap();
    assert_eq!(ids(&items), vec![3]);
    assert_eq!(total, 2);
}

/// Deleting a deal that does not exist reports `NotFound`, not a silent
/// success.
#[test]
fn delete_missing_deal_is_not_found() {
    let mut db = Store::new();
    let ghost_deal = TypedId { kind: IdKind::Deal, value: 77 };
    assert_eq!(delete_deal_query(&mut db, ghost_deal), Err(ServiceError::NotFound));
}

#[test]
fn contact_crud_round_trip() {
    let mut db = Store::new();
    let org = org_id(5);
    let created = create_contact_query(&mut db, org, "Ada".to_string(), "Byron".to_string())
        .unwrap();
    assert_eq!(created.first_name, "Ada");
    assert_eq!(created.created_at, created.updated_at);
    assert_eq!(created.id.kind, IdKind::Contact);
    let fetched = get_contact_by_id_query(&db, created.id).unwrap();
    assert_eq!(fetched.id.value, created.id.value);
    assert_eq!(fetched.first_name, "Ada");
    let updated = update_contact_query(
        &mut db,
        created.id,
        Some("Augusta".to_string()),
        None,
    )
    .unwrap();
    assert_eq!(updated.first_name, "Augusta");
    assert_eq!(updated.last_name, "Byron");
    assert_eq!(updated.created_at, created.created_at);
    assert_eq!(updated.id.value, created.id.value);
    assert_eq!(delete_contact_query(&mut db, created.id), Ok(()));
    assert_eq!(
        get_contact_by_id_query(&db, created.id),
        Err(ServiceError::NotFound)
    );
    assert_eq!(
        update_contact_query(&mut db, created.id, None, None),
        Err(ServiceError::NotFound)
    );
    assert_eq!(
        delete_contact_query(&mut db, created.id),
        Err(ServiceError::NotFound)
    );
}

#[test]
fn insert_contact_rejects_collision_and_zero() {
    let mut db = Store::new();
    let org = org_id(5);
    insert_contact(&mut db, contact(org, 7, 1, "a")).unwrap();
    assert_eq!(
        insert_contact(&mut db, contact(org, 7, 2, "b")),
        Err(ServiceError::Conflict)
    );
    assert_eq!(
        insert_contact(&mut db, contact(org, 0, 2, "z")),
        Err(ServiceError::Conflict)
    );
    let (_, total) = get_contacts_by_org_id_query(&db, org, None, None).unwrap();
    assert_eq!(total, 1);
}

#[test]
fn deal_crud_and_update_patch() {
    let mut db = Store::new();
    let org = org_id(5);
    let deal = create_deal_query(&mut db, org, Some("Big".to_string()), Some(0x40a00000), true)
        .unwrap();
    assert_eq!(deal.name.as_deref(), Some("Big"));
    assert!(deal.active);
    let fetched = get_deal_by_id_query(&db, deal.id).unwrap();
    assert_eq!(fetched.size_bits, Some(0x40a00000));
    let updated = update_deal_query(&mut db, deal.id, None, None, Some(false)).unwrap();
    assert_eq!(updated.name.as_deref(), Some("Big"));
    assert_eq!(updated.size_bits, Some(0x40a00000));
    assert!(!updated.active);
    assert_eq!(delete_deal_query(&mut db, deal.id), Ok(()));
    assert_eq!(get_deal_by_id_query(&db, deal.id), Err(ServiceError::NotFound));
}

#[test]
fn deal_contact_relation() {
    let mut db = Store::new();
    let org = org_id(5);
    let deal = create_deal_query(&mut db, org, None, None, false).unwrap();
    let c = create_contact_query(&mut db, org, "Joan".to_string(), "Clarke".to_string())
        .unwrap();
    // A missing referent is a constraint violation.
    let ghost_contact = TypedId { kind: IdKind::Contact, value: 424242 };
    assert_eq!(
        create_contact_for_deal_query(&mut db, deal.id, ghost_contact),
        Err(ServiceError::Conflict)
    );
    let link = create_contact_for_deal_query(&mut db, deal.id, c.id).unwrap();
    assert_eq!(link.deal_id.value, deal.id.value);
    assert_eq!(link.contact_id.value, c.id.value);
    // Linking the same pair twice is a constraint violation.
    assert_eq!(
        create_contact_for_deal_query(&mut db, deal.id, c.id),
        Err(ServiceError::Conflict)
    );
    let (items, total) = get_contacts_by_deal_id_query(&db, deal.id, None, None).unwrap();
    assert_eq!(total, 1);
    assert_eq!(ids(&items), vec![c.id.value]);
    // Detaching is idempotent.
    assert_eq!(delete_contact_from_deal_query(&mut db, deal.id, c.id), Ok(()));
    assert_eq!(delete_contact_from_deal_query(&mut db, deal.id, c.id), Ok(()));
    let (items, total) = get_contacts_by_deal_id_query(&db, deal.id, None, None).unwrap();
    assert_eq!(total, 0);
    assert!(items.is_empty());
    // Listing under a missing deal is `NotFound`.
    delete_deal_query(&mut db, deal.id).unwrap();
    assert_eq!(
        get_contacts_by_deal_id_query(&db, deal.id, None, None),
        Err(ServiceError::NotFound)
    );
}

#[test]
fn deals_listed_by_org_and_task() {
    let mut db = Store::new();
    let org = org_id(5);
    for value in [3u128, 1, 2] {
        let deal = Deal {
            id: TypedId { kind: IdKind::Deal, value },
            name: None,
            org_id: org,
            size_bits: None,
            active: true,
            created_at: 9,
            updated_at: 9,
        };
        insert_deal(&mut db, deal).unwrap();
    }
    let (items, total) = list_deals_by_org_id_query(&db, org, None, None).unwrap();
    assert_eq!(total, 3);
    let got: Vec<u128> = items.iter().map(|d| d.id.value).collect();
    assert_eq!(got, vec![1, 2, 3]);
    // Listing by a missing task is `NotFound`.
    let ghost_task = TypedId { kind: IdKind::Task, value: 1 };
    assert_eq!(
        list_deals_by_task_id_query(&db, ghost_task, None, None),
        Err(ServiceError::NotFound)
    );
}

#[test]
fn user_queries() {
    let mut db = Store::new();
    let uid = TypedId { kind: IdKind::User, value: 42 };
    let user = create_user_query(
        &mut db,
        uid,
        "dev@example.com".to_string(),
        Some("Dev".to_string()),
    )
    .unwrap();
    assert_eq!(user.email, "dev@example.com");
    // A duplicate id is a constraint violation.
    assert_eq!(
        create_user_query(&mut db, uid, "other@example.com".to_string(), None),
        Err(ServiceError::Conflict)
    );
    assert_eq!(get_user_by_id_query(&db, &uid).unwrap().email, "dev@example.com");
    assert_eq!(
        get_user_by_email_query(&db, &"dev@example.com".to_string())
            .unwrap()
            .id
            .value,
        42
    );
    assert_eq!(
        get_user_by_email_query(&db, &"nobody@example.com".to_string()),
        Err(ServiceError::NotFound)
    );
    // Api-key lookup scans the stored hashes.
    let key = ApiKey::from_details(uid, "ci".to_string(), "hash-1".to_string());
    db.api_keys.push(key);
    assert_eq!(
        get_user_from_api_key_query(&db, &"hash-1".to_string()).unwrap().id.value,
        42
    );
    assert_eq!(
        get_user_from_api_key_query(&db, &"hash-2".to_string()),
        Err(ServiceError::NotFound)
    );
}

#[test]
fn users_listed_by_task() {
    let mut db = Store::new();
    let uid = TypedId { kind: IdKind::User, value: 9 };
    let user = User {
        id: uid,
        email: "a@b.c".to_string(),
        created_at: 1,
        updated_at: 1,
        name: None,
    };
    db.users.push(user);
    let task = Task::from_details(org_id(5), None, None, None);
    let task_id = task.id;
    db.tasks.push(task);
    db.task_users.push(TaskUser::from_details(task_id, uid));
    let (items, total) = list_users_by_task_id_query(&db, task_id, None, None).unwrap();
    assert_eq!(total, 1);
    assert_eq!(items[0].id.value, 9);
    let other_task = TypedId { kind: IdKind::Task, value: task_id.value.wrapping_add(1) };
    assert_eq!(
        list_users_by_task_id_query(&db, other_task, None, None),
        Err(ServiceError::NotFound)
    );
}

#[test]
fn list_contacts_handler_parses_cursor() {
    let mut db = Store::new();
    let org = org_id(66);
    for value in [1u128, 2, 3] {
        insert_contact(&mut db, contact(org, value, 7, "h")).unwrap();
    }
    let first = list_contacts(
        &db,
        org,
        ListContactsQuery { limit: Some(2), offset: None },
    )
    .unwrap();
    assert_eq!(ids(&first.contacts), vec![1, 2]);
    assert_eq!(first.total, 3);
    let cursor = first.contacts.last().unwrap().id.format();
    let second = list_contacts(
        &db,
        org,
        ListContactsQuery { limit: Some(2), offset: Some(cursor) },
    )
    .unwrap();
    assert_eq!(ids(&second.contacts), vec![3]);
    assert_eq!(second.total, 3);
    let bad = list_contacts(
        &db,
        org,
        ListContactsQuery { limit: None, offset: Some("not-an-id".to_string()) },
    );
    assert_eq!(bad.unwrap_err(), ServiceError::MalformedIdentifier);
}

#[test]
fn list_defaults_limit_to_ten() {
    let mut db = Store::new();
    let org = org_id(66);
    for value in 1u128..=12 {
        insert_contact(&mut db, contact(org, value, 7, "h")).unwrap();
    }
    let (items, total) = get_contacts_by_org_id_query(&db, org, None, None).unwrap();
    assert_eq!(items.len(), 10);
    assert_eq!(total, 12);
    let (items, _) = get_contacts_by_org_id_query(&db, org, Some(0), None).unwrap();
    assert_eq!(items.len(), 10);
    let (items, _) = get_contacts_by_org_id_query(&db, org, Some(-3), None).unwrap();
    assert_eq!(items.len(), 10);
}

#[test]
fn create_contact_handler_payload() {
    let mut db = Store::new();
    let org = org_id(66);
    let c = crm_core::contact_handler::create_contact(
        &mut db,
        org,
        CreateContactReqPayload { first_name: "Grace".to_string(), last_name: "Hopper".to_string() },
    )
    .unwrap();
    assert_eq!(c.first_name, "Grace");
    let renamed = crm_core::contact_handler::update_contact(
        &mut db,
        c.id,
        UpdateContactReqPayload { first_name: None, last_name: Some("Murray".to_string()) },
    )
    .unwrap();
    assert_eq!(renamed.first_name, "Grace");
    assert_eq!(renamed.last_name, "Murray");
}

/// Rows that share an update timestamp order by id, so pages are
/// deterministic under clock-granularity collisions.
#[test]
fn timestamp_tie_breaks_by_id() {
    let mut db = Store::new();
    let org = org_id(66);
    for value in [5u128, 3, 4] {
        insert_contact(&mut db, contact(org, value, 100, "t")).unwrap();
    }
    let (items, _) = get_contacts_by_org_id_query(&db, org, None, None).unwrap();
    assert_eq!(ids(&items), vec![3, 4, 5]);
}

/// Recently modified rows surface in update order when timestamps differ.
#[test]
fn ordering_is_updated_at_first() {
    let mut db = Store::new();
    let org = org_id(66);
    insert_contact(&mut db, contact(org, 9, 300, "late")).unwrap();
    insert_contact(&mut db, contact(org, 50, 100, "early")).unwrap();
    let (items, _) = get_contacts_by_org_id_query(&db, org, None, None).unwrap();
    assert_eq!(ids(&items), vec![50, 9]);
}
