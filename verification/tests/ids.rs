use crm_core::errors::ServiceError;
use crm_core::prefixes::{IdKind, TypedId};

#[test]
fn format_zero_sentinel() {
    let z = TypedId::zero(IdKind::Contact);
    assert_eq!(z.kind, IdKind::Contact);
    assert_eq!(z.value, 0);
    assert_eq!(
        z.format(),
        "contact_00000000000000000000000000000000".to_string()
    );
}

#[test]
fn format_known_value() {
    let id = TypedId { kind: IdKind::Deal, value: 26 };
    assert_eq!(id.format(), "deal_0000000000000000000000000000001a".to_string());
    let big = TypedId { kind: IdKind::Org, value: u128::MAX };
    assert_eq!(big.format(), "org_ffffffffffffffffffffffffffffffff".to_string());
}

#[test]
fn parse_round_trip_fresh() {
    let id = TypedId::create(IdKind::Contact);
    assert_ne!(id.value, 0);
    assert_eq!(id.kind, IdKind::Contact);
    let s = id.format();
    assert_eq!(TypedId::parse(&s, IdKind::Contact), Ok(id));
}

#[test]
fn parse_round_trip_every_kind() {
    let kinds = [
        IdKind::User,
        IdKind::Org,
        IdKind::OrgUser,
        IdKind::Contact,
        IdKind::Deal,
        IdKind::DealContact,
        IdKind::Note,
        IdKind::Link,
        IdKind::Email,
        IdKind::Phone,
        IdKind::Task,
        IdKind::Company,
        IdKind::TaskDeal,
        IdKind::TaskLink,
        IdKind::TaskUser,
    ];
    for kind in kinds {
        let id = TypedId::create(kind);
        assert_eq!(TypedId::parse(&id.format(), kind), Ok(id));
    }
}

#[test]
fn parse_wrong_kind_fails() {
    let id = TypedId { kind: IdKind::Contact, value: 7 };
    let s = id.format();
    assert_eq!(
        TypedId::parse(&s, IdKind::Deal),
        Err(ServiceError::MalformedIdentifier)
    );
    // Prefixes that extend one another still fail both ways.
    let task = TypedId { kind: IdKind::Task, value: 7 }.format();
    let task_deal = TypedId { kind: IdKind::TaskDeal, value: 7 }.format();
    assert_eq!(
        TypedId::parse(&task, IdKind::TaskDeal),
        Err(ServiceError::MalformedIdentifier)
    );
    assert_eq!(
        TypedId::parse(&task_deal, IdKind::Task),
        Err(ServiceError::MalformedIdentifier)
    );
    let org = TypedId { kind: IdKind::Org, value: 7 }.format();
    assert_eq!(
        TypedId::parse(&org, IdKind::OrgUser),
        Err(ServiceError::MalformedIdentifier)
    );
}

#[test]
fn parse_malformed_value_fails() {
    let bad = [
        "contact",
        "contact_",
        "contact_123",
        "contact_0000000000000000000000000000001",
        "contact_000000000000000000000000000000111",
        "contact_0000000000000000000000000000001g",
        "contact_0000000000000000000000000000001A",
        "contact-00000000000000000000000000000011",
        "CONTACT_00000000000000000000000000000011",
        "",
        "_00000000000000000000000000000011",
    ];
    for s in bad {
        assert_eq!(
            TypedId::parse(s, IdKind::Contact),
            Err(ServiceError::MalformedIdentifier),
            "{s} should not parse"
        );
    }
}

#[test]
fn parse_valid_canonical() {
    let parsed = TypedId::parse("contact_000000000000000000000000000000ff", IdKind::Contact);
    assert_eq!(parsed, Ok(TypedId { kind: IdKind::Contact, value: 255 }));
}

#[test]
fn parse_optional_absent_is_no_cursor() {
    assert_eq!(TypedId::parse_optional(None, IdKind::Contact), Ok(None));
    let id = TypedId { kind: IdKind::Contact, value: 3 };
    let s = id.format();
    assert_eq!(
        TypedId::parse_optional(Some(&s), IdKind::Contact),
        Ok(Some(id))
    );
    assert_eq!(
        TypedId::parse_optional(Some("nonsense"), IdKind::Contact),
        Err(ServiceError::MalformedIdentifier)
    );
}

#[test]
fn create_is_fresh_per_call() {
    let a = TypedId::create(IdKind::User);
    let b = TypedId::create(IdKind::User);
    assert_ne!(a.value, 0);
    assert_ne!(b.value, 0);
    assert_ne!(a.value, b.value);
}

#[test]
fn status_codes() {
    assert_eq!(ServiceError::MalformedIdentifier.status_code(), 400);
    assert_eq!(ServiceError::NotFound.status_code(), 404);
    assert_eq!(ServiceError::Conflict.status_code(), 500);
    assert_eq!(ServiceError::InternalError.status_code(), 500);
}
