use crm_core::client_api::{
    ListTaskResourceResponseOneOf2, TaskResourceListWithPagination, TaskResourceList,
    TaskResourceListOneOf, TaskResourceOneOf, User as WireUser,
};
use crm_core::models::{
    ApiKey, Company, Contact, Deal, DealContact, Email, Invitation, Link, Note, Org, OrgUserLink,
    Phone, Plan, Task, TaskDeal, TaskLink, TaskUser, User, UserRole,
};
use crm_core::prefixes::{IdKind, TypedId};

fn org() -> TypedId {
    TypedId { kind: IdKind::Org, value: 11 }
}

#[test]
fn factories_stamp_fresh_ids_and_timestamps() {
    let user = User::from_details("u@example.com".to_string(), Some("U".to_string()));
    assert_eq!(user.id.kind, IdKind::User);
    assert_ne!(user.id.value, 0);
    assert_eq!(user.created_at, user.updated_at);

    let uid = TypedId { kind: IdKind::User, value: 3 };
    let named = User::from_details_with_id(uid, "v@example.com".to_string(), None);
    assert_eq!(named.id.value, 3);

    let o = Org::from_details("Acme".to_string());
    assert_eq!(o.id.kind, IdKind::Org);
    let o2 = Org::from_details_with_id(org(), "Acme".to_string());
    assert_eq!(o2.id.value, 11);

    let deal = Deal::from_details(org(), Some("d".to_string()), Some(1), true);
    assert_eq!(deal.id.kind, IdKind::Deal);
    assert_eq!(deal.org_id.value, 11);
    assert!(deal.active);

    let contact = Contact::from_details(org(), "A".to_string(), "B".to_string());
    assert_eq!(contact.id.kind, IdKind::Contact);

    let dc = DealContact::from_details(deal.id, contact.id);
    assert_eq!(dc.id.kind, IdKind::DealContact);
    assert_eq!(dc.deal_id.value, deal.id.value);

    let link = OrgUserLink::from_details(uid, org(), UserRole::Admin);
    assert_eq!(link.id.kind, IdKind::OrgUser);
    assert_eq!(link.role, 1);

    let note = Note::from_title("t".to_string(), org());
    assert_eq!(note.id.kind, IdKind::Note);
    assert_eq!(note.body, "");

    let l = Link::from_details("https://example.com".to_string(), org());
    assert_eq!(l.id.kind, IdKind::Link);

    let e = Email::from_details("a@b.c".to_string(), org());
    assert_eq!(e.id.kind, IdKind::Email);

    let p = Phone::from_details(org(), "+1555".to_string());
    assert_eq!(p.id.kind, IdKind::Phone);

    let t = Task::from_details(org(), Some(9), Some("todo".to_string()), Some(contact.id));
    assert_eq!(t.id.kind, IdKind::Task);
    assert_eq!(t.deadline, Some(9));
    assert_eq!(t.contact_id.map(|c| c.value), Some(contact.id.value));

    let co = Company::from_name("Co".to_string(), org());
    assert_eq!(co.id.kind, IdKind::Company);

    let td = TaskDeal::from_details(t.id, deal.id);
    assert_eq!(td.id.kind, IdKind::TaskDeal);

    let tl = TaskLink::from_details(t.id, l.id);
    assert_eq!(tl.id.kind, IdKind::TaskLink);

    let tu = TaskUser::from_details(t.id, uid);
    assert_eq!(tu.id.kind, IdKind::TaskUser);

    let plan = Plan::from_details("stripe_x".to_string(), 4, 5, 40);
    assert_eq!(plan.num_users, 4);
    assert_eq!(plan.created_at, plan.updated_at);

    let inv = Invitation::from_details("i@example.com".to_string(), org(), 1);
    assert!(!inv.used);
    assert_eq!(inv.role, 1);

    let key = ApiKey::from_details(uid, "k".to_string(), "h".to_string());
    assert_eq!(key.user_id.value, 3);
    assert_eq!(key.blake3_hash, "h");
}

#[test]
fn wire_models_carry_fields() {
    let u = WireUser::new(
        "2021-01-01T00:00:00".to_string(),
        "developers@example.com".to_string(),
        "user_00000000000000000000000000000001".to_string(),
        "2021-01-01T00:00:00".to_string(),
    );
    assert_eq!(u.name, None);
    assert_eq!(u.email, "developers@example.com");

    let one_of_2 = ListTaskResourceResponseOneOf2::new(vec![u]);
    assert_eq!(one_of_2.user.len(), 1);

    let listing = TaskResourceList::TaskResourceListOneOf(Box::new(TaskResourceListOneOf {
        deal: Vec::new(),
    }));
    let with_pagination = TaskResourceListWithPagination::new(listing, 0);
    assert_eq!(with_pagination.total, 0);
    match *with_pagination.data {
        TaskResourceList::TaskResourceListOneOf(ref arm) => assert!(arm.deal.is_empty()),
        _ => panic!("unexpected arm"),
    }

    let task = Task::from_details(org(), None, None, None);
    let link = Link::from_details("https://example.com".to_string(), org());
    let tl = TaskLink::from_details(task.id, link.id);
    let value = tl.id.value;
    let resource = TaskResourceOneOf::new(tl);
    assert_eq!(resource.link.id.value, value);
}
