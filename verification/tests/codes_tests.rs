use unitn_fair_admin::access::AdminRole;
use unitn_fair_admin::clock::Instant;
use unitn_fair_admin::security_codes::{
    accept_new_code, accept_replacement_code, changed_code, check_code_change,
    check_code_change_now, check_code_deletion, check_new_code, check_new_code_now,
    code_from_indices, generate_random_code, list_codes, list_codes_now, SecurityCode,
    SecurityCodeError,
};
use unitn_fair_admin::names::NameEntry;

fn at(secs: i64) -> Instant {
    Instant { secs, nanos: 0 }
}

fn well_formed(code: &str) -> bool {
    let chars: Vec<char> = code.chars().collect();
    chars.len() == 7
        && chars[3] == '-'
        && chars.iter().enumerate().all(|(i, c)| i == 3 || c.is_ascii_uppercase() || c.is_ascii_digit())
}

#[test]
fn codes_are_spelled_from_the_alphabet() {
    assert_eq!(code_from_indices(&vec![3, 29, 10, 25, 35, 0]), "D3K-Z9A");
    assert_eq!(code_from_indices(&vec![0, 0, 0, 0, 0, 0]), "AAA-AAA");
}

#[test]
fn random_codes_are_well_formed() {
    for _ in 0..200 {
        let c = generate_random_code();
        assert!(well_formed(&c), "{}", c);
    }
}

#[test]
fn drawn_codes_are_accepted_when_free() {
    assert!(accept_new_code(false));
    assert!(!accept_new_code(true));
    let a = "ABC-123".to_string();
    let b = "XYZ-999".to_string();
    assert!(accept_replacement_code(&a, &a, true));
    assert!(!accept_replacement_code(&a, &b, true));
    assert!(accept_replacement_code(&a, &b, false));
}

#[test]
fn new_code_expiration_must_be_later_than_a_day_ago() {
    let now = at(1_000_000);
    assert_eq!(check_new_code(0, &at(2_000_000), &now), Err(SecurityCodeError::ProjectIdMissing));
    assert_eq!(check_new_code(1, &at(1_000_000 - 86_400), &now), Err(SecurityCodeError::CreateExpirationTooEarly));
    assert_eq!(check_new_code(1, &Instant { secs: 1_000_000 - 86_400, nanos: 1 }, &now), Ok(()));
    assert_eq!(check_new_code(1, &at(1_000_000 - 3600), &now), Ok(()));
    assert_eq!(SecurityCodeError::CreateExpirationTooEarly.message(), "Expiration must be grater than one day");
    assert_eq!(SecurityCodeError::ProjectIdMissing.status(), 400);
}

#[test]
fn new_code_against_the_clock() {
    let (now, verdict) = check_new_code_now(4, &at(4_000_000_000));
    assert!(now.secs > 1_600_000_000);
    assert_eq!(verdict, Ok(()));
    let (_, verdict) = check_new_code_now(4, &at(0));
    assert_eq!(verdict, Err(SecurityCodeError::CreateExpirationTooEarly));
}

fn stored() -> SecurityCode {
    SecurityCode { security_code_id: 1, project_id: 10, code: "AAA-BBB".to_string(), expiration: at(5_000) }
}

#[test]
fn code_changes_are_checked_in_order() {
    let now = at(1_000_000);
    assert_eq!(check_code_change(&None, AdminRole::Root, false, &None, &now), Err(SecurityCodeError::NotFound));
    assert_eq!(check_code_change(&Some(stored()), AdminRole::Coordinator, false, &Some(at(0)), &now), Err(SecurityCodeError::AccessDenied));
    assert_eq!(check_code_change(&Some(stored()), AdminRole::Coordinator, true, &Some(at(0)), &now), Err(SecurityCodeError::UpdateExpirationTooEarly));
    assert_eq!(check_code_change(&Some(stored()), AdminRole::Professor, false, &None, &now), Ok(()));
    // an expiration must lie more than one day after now
    assert_eq!(check_code_change(&Some(stored()), AdminRole::Root, false, &Some(now), &now), Err(SecurityCodeError::UpdateExpirationTooEarly));
    assert_eq!(check_code_change(&Some(stored()), AdminRole::Root, false, &Some(at(1_086_400)), &now), Err(SecurityCodeError::UpdateExpirationTooEarly));
    assert_eq!(check_code_change(&Some(stored()), AdminRole::Root, false, &Some(Instant { secs: 1_086_400, nanos: 1 }), &now), Ok(()));
    assert_eq!(check_code_change_now(&Some(stored()), AdminRole::Root, false, &Some(at(4_000_000_000))).1, Ok(()));
    assert_eq!(SecurityCodeError::UpdateExpirationTooEarly.message(), "Expiration must be greater than one day");
    assert_eq!(SecurityCodeError::AccessDenied.status(), 403);
    assert_eq!(SecurityCodeError::NotFound.status(), 404);
}

#[test]
fn code_deletion_checks() {
    assert_eq!(check_code_deletion(&None, AdminRole::Root, true), Err(SecurityCodeError::NotFound));
    assert_eq!(check_code_deletion(&Some(stored()), AdminRole::Coordinator, false), Err(SecurityCodeError::AccessDenied));
    assert_eq!(check_code_deletion(&Some(stored()), AdminRole::Coordinator, true), Ok(()));
    assert_eq!(check_code_deletion(&Some(stored()), AdminRole::Root, false), Ok(()));
}

#[test]
fn changed_code_keeps_what_is_not_given() {
    let c = changed_code(stored(), None, Some(at(9_000)));
    assert_eq!(c.code, "AAA-BBB");
    assert_eq!(c.expiration, at(9_000));
    assert_eq!(c.project_id, 10);
    let c = changed_code(stored(), Some("ZZZ-111".to_string()), None);
    assert_eq!(c.code, "ZZZ-111");
    assert_eq!(c.expiration, at(5_000));
}

#[test]
fn listing_drops_expired_codes_and_names_each_by_its_project() {
    let codes = vec![
        SecurityCode { security_code_id: 1, project_id: 10, code: "OLD-OLD".to_string(), expiration: at(50) },
        SecurityCode { security_code_id: 2, project_id: 20, code: "NEW-NEW".to_string(), expiration: at(500) },
        SecurityCode { security_code_id: 3, project_id: 30, code: "NOW-NOW".to_string(), expiration: at(100) },
        SecurityCode { security_code_id: 4, project_id: 10, code: "TWO-TWO".to_string(), expiration: at(900) },
    ];
    let projects = vec![
        NameEntry { id: 10, name: "P10".to_string() },
        NameEntry { id: 20, name: "P20".to_string() },
        NameEntry { id: 30, name: "P30".to_string() },
    ];
    let out = list_codes(&codes, &projects, &at(100));
    assert_eq!(out.len(), 2);
    assert_eq!(out[0].security_code_id, 2);
    assert_eq!(out[0].project_name, "P20");
    assert_eq!(out[0].code, "NEW-NEW");
    assert_eq!(out[1].security_code_id, 4);
    assert_eq!(out[1].project_name, "P10");
    let out = list_codes(&codes, &vec![], &at(0));
    assert!(out.is_empty());
    let (_, out) = list_codes_now(&codes, &projects);
    assert!(out.is_empty());
}
