use unitn_fair_admin::blacklist::{
    ban_student, ban_student_now, check_blacklist_update, require_entry, BannedStudent,
    BlacklistError,
};
use unitn_fair_admin::catalog::{
    name_uses, require_found, require_free, CatalogError, CatalogKind,
    ComponentUse, UseEnd,
};
use unitn_fair_admin::names::{find_name, NameEntry};
use unitn_fair_admin::clock::Instant;
use unitn_fair_admin::groups::{
    check_group_details, check_oral_exam_group, require_group, require_project, GroupLookupError,
    completion_fields, component_name_or_number, component_name_or_unknown, group_name_or_number,
    leader_or_placeholder, selected_deliverable, time_expired, time_expired_now, GroupLeaderInfo,
};
use unitn_fair_admin::text::{full_name, int_text, with_number};

fn at(secs: i64) -> Instant {
    Instant { secs, nanos: 0 }
}

fn student() -> BannedStudent {
    BannedStudent { university_id: 123456, first_name: "Mario".to_string(), last_name: "Rossi".to_string() }
}

#[test]
fn ban_keeps_the_student_and_description() {
    let e = ban_student(42, Some(student()), false, Some("Copied homework".to_string()), at(7)).unwrap();
    assert_eq!(e.university_id, 123456);
    assert_eq!(e.description, "Copied homework");
    assert_eq!(e.first_name, "Mario");
    assert_eq!(e.banned_at, at(7));
    let e = ban_student(42, Some(student()), false, None, at(7)).unwrap();
    assert_eq!(e.description, "");
    let e = ban_student_now(42, Some(student()), false, None).unwrap();
    assert!(e.banned_at.secs > 1_600_000_000);
}

#[test]
fn ban_refusals_in_order() {
    assert_eq!(ban_student(0, None, true, None, at(0)).err(), Some(BlacklistError::InvalidStudentId));
    assert_eq!(ban_student(1, None, true, None, at(0)).err(), Some(BlacklistError::StudentNotFound));
    assert_eq!(ban_student(1, Some(student()), true, None, at(0)).err(), Some(BlacklistError::AlreadyBlacklisted));
    assert_eq!(BlacklistError::AlreadyBlacklisted.status(), 409);
    assert_eq!(BlacklistError::InvalidStudentId.message(), "student_id must be greater than 0");
}

#[test]
fn blacklist_updates() {
    assert_eq!(check_blacklist_update(&None, &None, &None), Err(BlacklistError::NothingToUpdate));
    assert_eq!(check_blacklist_update(&None, &Some("M".to_string()), &None), Ok(()));
    assert_eq!(require_entry(false), Err(BlacklistError::EntryNotFound));
    assert_eq!(BlacklistError::EntryNotFound.message(), "Blacklist entry not found");
    assert_eq!(BlacklistError::NothingToUpdate.status(), 400);
}

#[test]
fn catalog_conflicts_and_missing_records() {
    assert_eq!(require_free(CatalogKind::GroupComponent, true), Err(CatalogError::Conflict(CatalogKind::GroupComponent)));
    assert_eq!(require_free(CatalogKind::GroupComponent, false), Ok(()));
    assert_eq!(CatalogError::Conflict(CatalogKind::StudentComponent).message(), "Component with this name already exists for the project");
    assert_eq!(CatalogError::Conflict(CatalogKind::GroupDeliverable).message(), "Deliverable with this name already exists for the project");
    assert_eq!(CatalogError::Conflict(CatalogKind::Relationship).message(), "Relationship already exists");
    assert_eq!(CatalogError::Conflict(CatalogKind::Relationship).status(), 409);
    assert_eq!(require_found(CatalogKind::GroupDeliverable, false), Err(CatalogError::NotFound(CatalogKind::GroupDeliverable)));
    assert_eq!(CatalogError::NotFound(CatalogKind::StudentComponent).message(), "Student component not found");
    assert_eq!(CatalogError::NotFound(CatalogKind::Relationship).status(), 404);
}

fn uses() -> Vec<ComponentUse> {
    vec![
        ComponentUse { id: 1, deliverable_id: 10, component_id: 100, quantity: 2 },
        ComponentUse { id: 2, deliverable_id: 10, component_id: 101, quantity: 5 },
        ComponentUse { id: 3, deliverable_id: 10, component_id: 102, quantity: 1 },
    ]
}

#[test]
fn uses_are_named_by_their_own_records() {
    let deliverables = vec![NameEntry { id: 10, name: "Rover".to_string() }];
    let components = vec![
        NameEntry { id: 102, name: "Wheel".to_string() },
        NameEntry { id: 100, name: "Motor".to_string() },
    ];
    let out = name_uses(&uses(), &components, UseEnd::Component);
    assert_eq!(out.len(), 2);
    assert_eq!(out[0].name, "Motor");
    assert_eq!(out[0].component_use.id, 1);
    assert_eq!(out[1].name, "Wheel");
    assert_eq!(out[1].component_use.id, 3);
    let out = name_uses(&uses(), &deliverables, UseEnd::Deliverable);
    assert_eq!(out.len(), 3);
    assert!(out.iter().all(|u| u.name == "Rover"));
    assert_eq!(out[1].component_use.quantity, 5);
}

#[test]
fn names_are_found_by_id() {
    let t = vec![NameEntry { id: 1, name: "a".to_string() }, NameEntry { id: 1, name: "b".to_string() }];
    assert_eq!(find_name(&t, 1), Some("a".to_string()));
    assert_eq!(find_name(&t, 2), None);
}

#[test]
fn numbers_and_names_as_text() {
    assert_eq!(int_text(0), "0");
    assert_eq!(int_text(42), "42");
    assert_eq!(int_text(-7), "-7");
    assert_eq!(int_text(i32::MIN), "-2147483648");
    assert_eq!(int_text(i32::MAX), "2147483647");
    assert_eq!(with_number("Group ", 12), "Group 12");
    assert_eq!(full_name("Mario", "Rossi"), "Mario Rossi");
}

#[test]
fn placeholder_names() {
    assert_eq!(component_name_or_unknown(None, 5), "Unknown Component 5");
    assert_eq!(component_name_or_unknown(Some("Motor".to_string()), 5), "Motor");
    assert_eq!(component_name_or_number(None, 6), "Component 6");
    assert_eq!(group_name_or_number(None, 3), "Group 3");
    assert_eq!(group_name_or_number(Some("Robots".to_string()), 3), "Robots");
    let d = selected_deliverable(Some(9), None).unwrap();
    assert_eq!(d.name, "Unknown Deliverable 9");
    assert_eq!(d.group_deliverable_id, 9);
    assert!(selected_deliverable(None, Some("x".to_string())).is_none());
    assert_eq!(selected_deliverable(Some(9), Some("Motor".to_string())).unwrap().name, "Motor");
    let l = leader_or_placeholder(None);
    assert_eq!((l.student_id, l.name.as_str(), l.email.as_str()), (0, "Unknown", "unknown@example.com"));
    let l = leader_or_placeholder(Some(GroupLeaderInfo { student_id: 3, name: "A B".to_string(), email: "a@b".to_string() }));
    assert_eq!(l.student_id, 3);
}

#[test]
fn deadline_expiry() {
    assert!(time_expired(&Some(at(10)), false, &at(11)));
    assert!(!time_expired(&Some(at(10)), true, &at(11)));
    assert!(!time_expired(&Some(at(10)), false, &at(10)));
    assert!(!time_expired(&None, false, &at(11)));
    assert!(time_expired_now(&Some(at(0)), false).1);
    assert_eq!(completion_fields(Some(at(3))), (true, Some(at(3))));
    assert_eq!(completion_fields(None), (false, None));
}

#[test]
fn group_pages_need_their_records() {
    assert_eq!(require_project(true), Ok(()));
    assert_eq!(require_project(false), Err(GroupLookupError::ProjectNotFound));
    assert_eq!(require_group(false), Err(GroupLookupError::GroupNotFound));
    assert_eq!(check_group_details(false, false), Err(GroupLookupError::GroupNotFound));
    assert_eq!(check_group_details(true, false), Err(GroupLookupError::ProjectNotFound));
    assert_eq!(check_group_details(true, true), Ok(()));
    assert_eq!(check_oral_exam_group(false, None, 4), Err(GroupLookupError::ProjectNotFound));
    assert_eq!(check_oral_exam_group(true, None, 4), Err(GroupLookupError::GroupNotFound));
    assert_eq!(check_oral_exam_group(true, Some(5), 4), Err(GroupLookupError::GroupNotFound));
    assert_eq!(check_oral_exam_group(true, Some(4), 4), Ok(()));
    assert_eq!(GroupLookupError::GroupNotFound.status(), 404);
    assert_eq!(GroupLookupError::GroupNotFound.message(), "Group not found");
    assert_eq!(GroupLookupError::ProjectNotFound.message(), "Project not found");
}
