use crm_core::commands::{
    contacts_table_records, reduce_option, transform_option, PageChoice, PageWalk,
};
use crm_core::models::{Contact, UserRole};
use crm_core::prefixes::{IdKind, TypedId};
use crm_core::profiles::{
    save_profile, ActixTemplateConfiguration, ActixTemplateProfile, ActixTemplateProfileInner,
};
use crm_core::profiles::{next_org_step, OrgSelectError, OrgStep};
use crm_core::relations::{NoteRelation, Relation};

#[test]
fn transform_option_nests() {
    assert_eq!(transform_option::<i64>(None), None);
    assert_eq!(transform_option(Some(5i64)), Some(Some(5)));
}

#[test]
fn reduce_option_flattens() {
    assert_eq!(reduce_option(None), "".to_string());
    assert_eq!(reduce_option(Some(None)), "".to_string());
    assert_eq!(reduce_option(Some(Some("x".to_string()))), "x".to_string());
}

#[test]
fn page_walk_records_and_steps() {
    let mut walk = PageWalk::start();
    assert_eq!(walk.current_offset(), None);
    walk.record_page(Some("c1".to_string()));
    assert_eq!(walk.offsets, vec![None, Some("c1".to_string())]);
    // Stepping back from the first page stays on it.
    assert!(!walk.step(PageChoice::PreviousPage));
    assert_eq!(walk.page_num, 0);
    assert!(!walk.step(PageChoice::NextPage));
    assert_eq!(walk.page_num, 1);
    assert_eq!(walk.current_offset(), Some("c1".to_string()));
    // Stepping past the last recorded page stays on it.
    assert!(!walk.step(PageChoice::NextPage));
    assert_eq!(walk.page_num, 1);
    // Revisiting a page overwrites its follower's cursor in place.
    walk.record_page(Some("c2".to_string()));
    assert_eq!(walk.offsets, vec![None, Some("c1".to_string()), Some("c2".to_string())]);
    walk.step(PageChoice::PreviousPage);
    walk.record_page(Some("c9".to_string()));
    assert_eq!(walk.offsets, vec![None, Some("c9".to_string()), Some("c2".to_string())]);
    // An empty page records nothing.
    walk.record_page(None);
    assert_eq!(walk.offsets.len(), 3);
    assert!(walk.step(PageChoice::Stop));
}

#[test]
fn save_profile_appends_selected() {
    let mut profiles = ActixTemplateProfile::default();
    let settings = ActixTemplateConfiguration {
        api_key: "key-abc-123".to_string(),
        org_id: "org_1".to_string(),
        api_url: "http://localhost:8090".to_string(),
    };
    let saved = save_profile(&mut profiles, "work".to_string(), settings, false);
    assert!(saved);
    assert_eq!(profiles.inner.len(), 2);
    assert_eq!(profiles.inner[0].name, "default");
    assert!(!profiles.inner[0].selected);
    assert_eq!(profiles.inner[1].name, "work");
    assert!(profiles.inner[1].selected);
    assert_eq!(profiles.inner[1].settings.org_id, "org_1");
}

#[test]
fn save_profile_declined_overwrite_changes_nothing() {
    let mut profiles = ActixTemplateProfile::default();
    let settings = ActixTemplateConfiguration::default();
    let saved = save_profile(&mut profiles, "default".to_string(), settings, false);
    assert!(!saved);
    assert_eq!(profiles.inner.len(), 1);
    assert_eq!(profiles.inner[0].name, "default");
}

#[test]
fn save_profile_overwrites_and_dedups() {
    let mut profiles = ActixTemplateProfile { inner: Vec::new() };
    for name in ["a", "a", "b", "default"] {
        profiles.inner.push(ActixTemplateProfileInner {
            name: name.to_string(),
            settings: ActixTemplateConfiguration::default(),
            selected: name == "b",
        });
    }
    let settings = ActixTemplateConfiguration {
        api_key: "k".to_string(),
        org_id: "o".to_string(),
        api_url: "u".to_string(),
    };
    let saved = save_profile(&mut profiles, "default".to_string(), settings, true);
    assert!(saved);
    let names: Vec<&str> = profiles.inner.iter().map(|p| p.name.as_str()).collect();
    // The same-named profile left, the adjacent duplicate collapsed, and the
    // new profile arrived selected at the end.
    assert_eq!(names, vec!["a", "b", "default"]);
    assert!(!profiles.inner[0].selected);
    assert!(!profiles.inner[1].selected);
    assert!(profiles.inner[2].selected);
    assert_eq!(profiles.inner[2].settings.api_key, "k");
}

#[test]
fn contacts_table_records_shape() {
    let none: Vec<Contact> = Vec::new();
    let records = contacts_table_records(&none);
    assert_eq!(records.len(), 2);
    assert_eq!(records[0], vec!["ID", "First Name", "Last Name"]);
    assert_eq!(records[1], vec!["No Contacts found", "", ""]);

    let contacts = vec![Contact {
        id: TypedId { kind: IdKind::Contact, value: 1 },
        org_id: TypedId { kind: IdKind::Org, value: 2 },
        first_name: "Ada".to_string(),
        last_name: "Byron".to_string(),
        created_at: 0,
        updated_at: 0,
    }];
    let records = contacts_table_records(&contacts);
    assert_eq!(records.len(), 2);
    assert_eq!(
        records[1],
        vec![
            "contact_00000000000000000000000000000001".to_string(),
            "Ada".to_string(),
            "Byron".to_string(),
        ]
    );
}

#[test]
fn note_relation_paths() {
    assert_eq!(NoteRelation::Task.fn_get_extension_path(), "tasks");
    assert_eq!(NoteRelation::Contact.fn_get_extension_path(), "contacts");
}

#[test]
fn user_role_round_trips_through_i32() {
    assert_eq!(UserRole::from(2), UserRole::Owner);
    assert_eq!(UserRole::from(1), UserRole::Admin);
    assert_eq!(UserRole::from(0), UserRole::User);
    assert_eq!(UserRole::from(9), UserRole::User);
    assert_eq!(i32::from(UserRole::Owner), 2);
    assert_eq!(i32::from(UserRole::Admin), 1);
    assert_eq!(i32::from(UserRole::User), 0);
}

#[test]
fn login_org_selection_steps() {
    assert_eq!(
        next_org_step(Ok("org_1".to_string())),
        OrgStep::UseOrg("org_1".to_string())
    );
    assert_eq!(next_org_step(Err(OrgSelectError::NoOrgs)), OrgStep::CreateOrg);
    assert_eq!(next_org_step(Err(OrgSelectError::CancelInput)), OrgStep::Cancelled);
    assert_eq!(
        next_org_step(Err(OrgSelectError::OrgFetchFailure)),
        OrgStep::FetchFailed
    );
}

#[test]
fn default_configuration_points_at_local_server() {
    let c = ActixTemplateConfiguration::default();
    assert_eq!(c.api_key, "");
    assert_eq!(c.org_id, "");
    assert_eq!(c.api_url, "http://localhost:8090");
    let p = ActixTemplateProfileInner::default();
    assert_eq!(p.name, "default");
    assert!(!p.selected);
}
