use unitn_fair_admin::access::{
    assign_row, assignment_answer, check_project_view, removal_message, remove_assignment_rows,
    CoordinatorAssignment, ProjectViewError,
};
use unitn_fair_admin::auth::{reset_status, reset_token_request, ResetFailed};
use unitn_fair_admin::access::{
    check_project_access, decide_assignment, decide_removal, visible_projects, AdminRole,
    CoordinatorError,
};
use unitn_fair_admin::auth::{
    authenticate, decide_login, plan_password_reset, reset_url, token_validity_seconds,
    AdminContact, AdminCredentials, WrongCredentials,
};
use unitn_fair_admin::projects::Project;

fn account(password: &str) -> AdminCredentials {
    AdminCredentials { admin_id: 4, admin_role_id: 2, password_hash: password_auth::generate_hash(password) }
}

#[test]
fn login_accepts_the_right_password() {
    let a = Some(account("password123"));
    assert_eq!(authenticate(&a, "password123"), Ok((4, 2)));
}

#[test]
fn login_refuses_in_the_same_way() {
    let a = Some(account("password123"));
    assert_eq!(authenticate(&a, "wrong"), Err(WrongCredentials));
    assert_eq!(authenticate(&None, "password123"), Err(WrongCredentials));
    let bad_hash = Some(AdminCredentials { admin_id: 1, admin_role_id: 1, password_hash: "not a hash".to_string() });
    assert_eq!(authenticate(&bad_hash, "x"), Err(WrongCredentials));
    assert_eq!(decide_login(&None, true), decide_login(&a, false));
    assert_eq!(WrongCredentials.status(), 401);
    assert_eq!(WrongCredentials.message(), "Incorrect email or password");
}

#[test]
fn token_validity_in_seconds() {
    assert_eq!(token_validity_seconds(1), 86_400);
    assert_eq!(token_validity_seconds(7), 604_800);
    assert_eq!(token_validity_seconds(0), 0);
    assert_eq!(token_validity_seconds(106_751_991_167), 9_223_372_036_828_800);
    assert_eq!(token_validity_seconds(-2), -172_800);
}

#[test]
fn reset_link_and_mail() {
    assert_eq!(reset_url("https://fair.example", "abc"), "https://fair.example/admin/password-reset?t=abc");
    assert!(plan_password_reset(&None, "secret", "https://x").unwrap().is_none());
    let admin = Some(AdminContact { email: "admin@unitn.it".to_string(), first_name: "Ada".to_string(), last_name: "Byron".to_string() });
    let mail = plan_password_reset(&admin, "super_secret_key", "https://x").unwrap().unwrap();
    assert_eq!(mail.email, "admin@unitn.it");
    assert_eq!(mail.name, "Ada Byron");
    let prefix = "https://x/admin/password-reset?t=";
    assert!(mail.reset_url.starts_with(prefix));
    let token = &mail.reset_url[prefix.len()..];
    assert!(!token.is_empty());
    assert_eq!(confirm_email::validate_token(token.to_string(), "super_secret_key".to_string()).unwrap(), "admin@unitn.it");
}

fn project(id: i32) -> Project {
    Project {
        project_id: id,
        name: format!("P{}", id),
        year: 2025,
        max_student_uploads: 1,
        max_group_size: 2,
        max_groups: 1,
        deliverable_selection_deadline: None,
        active: true,
        oral_exam_enabled: false,
    }
}

#[test]
fn coordinators_see_only_their_projects() {
    let all = vec![project(1), project(2), project(3)];
    let seen: Vec<i32> = visible_projects(AdminRole::Coordinator, all, &vec![3, 1, 8]).iter().map(|p| p.project_id).collect();
    assert_eq!(seen, vec![1, 3]);
    let all = vec![project(1), project(2)];
    assert_eq!(visible_projects(AdminRole::Professor, all, &vec![]).len(), 2);
    let all = vec![project(1)];
    assert!(visible_projects(AdminRole::Coordinator, all, &vec![]).is_empty());
}

#[test]
fn project_access() {
    assert!(check_project_access(AdminRole::Root, false).is_ok());
    assert!(check_project_access(AdminRole::Coordinator, true).is_ok());
    let denied = check_project_access(AdminRole::Coordinator, false).unwrap_err();
    assert_eq!(denied.status(), 403);
    assert_eq!(denied.message(), "Access denied - you are not assigned to this project");
}

#[test]
fn coordinator_assignment_rules() {
    assert_eq!(decide_assignment(false, Some(AdminRole::Coordinator), 0), Err(CoordinatorError::ProjectNotFound));
    assert_eq!(decide_assignment(true, None, 0), Err(CoordinatorError::AdminNotFound));
    assert_eq!(decide_assignment(true, Some(AdminRole::Professor), 0), Err(CoordinatorError::NotACoordinator));
    assert_eq!(decide_assignment(true, Some(AdminRole::Coordinator), 1), Err(CoordinatorError::ProjectHasCoordinator));
    assert_eq!(decide_assignment(true, Some(AdminRole::Coordinator), 0), Ok(()));
    assert_eq!(decide_removal(false, true), Err(CoordinatorError::ProjectNotFound));
    assert_eq!(decide_removal(true, false), Err(CoordinatorError::NotAssigned));
    assert_eq!(decide_removal(true, true), Ok(()));
    assert_eq!(CoordinatorError::ProjectHasCoordinator.status(), 400);
    assert_eq!(CoordinatorError::NotAssigned.status(), 404);
    assert_eq!(CoordinatorError::NotACoordinator.message(), "Only Coordinators can be assigned to projects");
}

#[test]
fn project_page_checks_existence_before_access() {
    assert_eq!(check_project_view(false, AdminRole::Coordinator, false), Err(ProjectViewError::ProjectNotFound));
    assert_eq!(check_project_view(true, AdminRole::Coordinator, false), Err(ProjectViewError::AccessDenied));
    assert_eq!(check_project_view(true, AdminRole::Coordinator, true), Ok(()));
    assert_eq!(check_project_view(true, AdminRole::Professor, false), Ok(()));
    assert_eq!(ProjectViewError::ProjectNotFound.status(), 404);
    assert_eq!(ProjectViewError::AccessDenied.status(), 403);
}

#[test]
fn assigning_then_removing_a_coordinator() {
    let rows = vec![CoordinatorAssignment { admin_id: 1, project_id: 10 }];
    let after = assign_row(&rows, 2, 20);
    assert_eq!(after.len(), 2);
    let back = remove_assignment_rows(&after, 2, 20);
    assert_eq!(back, rows);
    assert_eq!(remove_assignment_rows(&back, 2, 20), rows);
    let a = assignment_answer(55, 2, "Luca", "Bianchi", "luca@unitn.it", 20, "Drones");
    assert_eq!(a.message, "Coordinator assigned to project successfully");
    assert_eq!(a.coordinator_name, "Luca Bianchi");
    assert_eq!(a.project_name, "Drones");
    assert_eq!(a.coordinator_project_id, 55);
    assert_eq!(removal_message(), "Coordinator removed from project successfully");
}

#[test]
fn reset_answers_look_alike() {
    let admin = AdminContact { email: "a@unitn.it".to_string(), first_name: "A".to_string(), last_name: "B".to_string() };
    let (email, key) = reset_token_request(&admin, "secret");
    assert_eq!(email, "a@unitn.it");
    assert_eq!(key, "secret");
    assert_eq!(reset_status(&Ok(None), false), 204);
    let plan = plan_password_reset(&Some(admin), "secret", "https://x");
    assert_eq!(reset_status(&plan, true), 204);
    assert_eq!(reset_status(&plan, false), 500);
    assert_eq!(reset_status(&Err(ResetFailed), true), 500);
}
