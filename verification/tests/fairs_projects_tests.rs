use unitn_fair_admin::clock::Instant;
use unitn_fair_admin::fairs::{
    create_fair, purchases_fulfilled, require_fair, require_project_fair, update_fair,
    CreateFairRequest, Fair, FairError, UpdateFairRequest,
};
use unitn_fair_admin::projects::{
    create_project, create_project_in_year, delete_project_verdict, CreateProjectScheme,
    ProjectError, ProjectSettings, UpdateProjectScheme,
};

fn at(secs: i64) -> Instant {
    Instant { secs, nanos: 0 }
}

fn request() -> CreateFairRequest {
    CreateFairRequest {
        project_id: 1,
        details: "End-of-semester component fair".to_string(),
        start_date: at(100),
        end_date: at(200),
        min_purchases: 3,
    }
}

fn fair() -> Fair {
    Fair { fair_id: 9, project_id: 1, details: "d".to_string(), start_date: at(100), end_date: at(200), min_purchases: 3 }
}

fn no_change() -> UpdateFairRequest {
    UpdateFairRequest { details: None, start_date: None, end_date: None, min_purchases: None }
}

#[test]
fn valid_fair_is_created() {
    let f = create_fair(request(), false).unwrap();
    assert_eq!(f.fair_id, 0);
    assert_eq!(f.project_id, 1);
    assert_eq!(f.min_purchases, 3);
    assert_eq!(f.end_date, at(200));
}

#[test]
fn fair_creation_refusals_in_order() {
    let mut r = request();
    r.details = String::new();
    r.min_purchases = 0;
    assert_eq!(create_fair(r, true).err(), Some(FairError::DetailsMissing));
    let mut r = request();
    r.end_date = at(100);
    r.min_purchases = 0;
    assert_eq!(create_fair(r, true).err(), Some(FairError::EndNotAfterStart));
    let mut r = request();
    r.min_purchases = 0;
    assert_eq!(create_fair(r, true).err(), Some(FairError::MinPurchasesTooLow));
    assert_eq!(create_fair(request(), true).err(), Some(FairError::AlreadyExists));
}

#[test]
fn end_a_nanosecond_after_start_is_enough() {
    let mut r = request();
    r.start_date = Instant { secs: 100, nanos: 5 };
    r.end_date = Instant { secs: 100, nanos: 6 };
    assert!(create_fair(r, false).is_ok());
}

#[test]
fn fair_errors_answer() {
    assert_eq!(FairError::AlreadyExists.status(), 409);
    assert_eq!(FairError::NotFound.status(), 404);
    assert_eq!(FairError::NoFairForProject.status(), 404);
    assert_eq!(FairError::DetailsMissing.status(), 400);
    assert_eq!(FairError::DetailsMissing.message(), "Details field is mandatory");
    assert_eq!(FairError::DetailsEmpty.message(), "Details cannot be empty");
    assert_eq!(FairError::EndNotAfterStart.message(), "end_date must be after start_date");
    assert_eq!(FairError::NoFairForProject.message(), "No fair found for this project");
    assert_eq!(require_fair(false), Err(FairError::NotFound));
    assert_eq!(require_project_fair(false), Err(FairError::NoFairForProject));
    assert_eq!(require_fair(true), Ok(()));
}

#[test]
fn empty_update_keeps_the_fair() {
    let f = update_fair(Some(fair()), no_change()).unwrap();
    assert_eq!(f.fair_id, 9);
    assert_eq!(f.details, "d");
    assert_eq!(f.start_date, at(100));
    assert_eq!(f.min_purchases, 3);
}

#[test]
fn update_changes_given_fields() {
    let u = UpdateFairRequest { details: Some("new".to_string()), start_date: None, end_date: Some(at(500)), min_purchases: Some(7) };
    let f = update_fair(Some(fair()), u).unwrap();
    assert_eq!(f.details, "new");
    assert_eq!(f.end_date, at(500));
    assert_eq!(f.min_purchases, 7);
    assert_eq!(f.start_date, at(100));
}

#[test]
fn update_refusals() {
    assert_eq!(update_fair(None, no_change()).err(), Some(FairError::NotFound));
    let u = UpdateFairRequest { details: Some(String::new()), start_date: Some(at(900)), end_date: None, min_purchases: Some(0) };
    assert_eq!(update_fair(Some(fair()), u).err(), Some(FairError::DetailsEmpty));
    let u = UpdateFairRequest { details: None, start_date: Some(at(900)), end_date: None, min_purchases: Some(0) };
    assert_eq!(update_fair(Some(fair()), u).err(), Some(FairError::MinPurchasesTooLow));
    let u = UpdateFairRequest { details: None, start_date: Some(at(900)), end_date: None, min_purchases: None };
    assert_eq!(update_fair(Some(fair()), u).err(), Some(FairError::EndNotAfterStart));
}

#[test]
fn purchase_requirement() {
    assert!(purchases_fulfilled(Some(3), 3));
    assert!(!purchases_fulfilled(Some(2), 3));
    assert!(!purchases_fulfilled(None, 1));
    assert!(purchases_fulfilled(None, 0));
}

fn project_request() -> CreateProjectScheme {
    CreateProjectScheme {
        name: "Project Name".to_string(),
        max_student_uploads: 10,
        max_group_size: 4,
        max_groups: 15,
        deliverable_selection_deadline: None,
        active: true,
    }
}

#[test]
fn valid_project_is_created() {
    let p = create_project_in_year(project_request(), 2025).unwrap();
    assert_eq!(p.year, 2025);
    assert_eq!(p.name, "Project Name");
    assert_eq!(p.max_group_size, 4);
    assert!(p.active);
    let q = create_project(project_request()).unwrap();
    assert!(q.year >= 2024);
}

#[test]
fn project_refusals_in_order() {
    let mut r = project_request();
    r.name = String::new();
    r.max_groups = 0;
    assert_eq!(create_project_in_year(r, 2025).err(), Some(ProjectError::NameMissing));
    let mut r = project_request();
    r.max_student_uploads = 0;
    r.max_groups = 0;
    assert_eq!(create_project(r).err(), Some(ProjectError::MaxStudentUploadsTooLow));
    let mut r = project_request();
    r.max_group_size = 1;
    assert_eq!(create_project(r).err(), Some(ProjectError::MaxGroupSizeTooLow));
    let mut r = project_request();
    r.max_groups = 0;
    assert_eq!(create_project(r).err(), Some(ProjectError::MaxGroupsTooLow));
    assert_eq!(ProjectError::MaxGroupSizeTooLow.message(), "Max group size must be greater than 1");
    assert_eq!(ProjectError::NotFound.status(), 404);
    assert_eq!(ProjectError::NameMissing.status(), 400);
}

fn settings() -> ProjectSettings {
    ProjectSettings { name: "P".to_string(), max_student_uploads: 3, max_group_size: 4, active: true }
}

#[test]
fn project_update_sets_given_fields() {
    let u = UpdateProjectScheme { name: Some("Q".to_string()), max_student_uploads: None, max_group_size: Some(6), active: None };
    let s = u.apply_to(Some(settings())).unwrap();
    assert_eq!(s, ProjectSettings { name: "Q".to_string(), max_student_uploads: 3, max_group_size: 6, active: true });
    let again = UpdateProjectScheme { name: Some("Q".to_string()), max_student_uploads: None, max_group_size: Some(6), active: None };
    assert_eq!(again.apply_to(Some(s)).unwrap().max_group_size, 6);
}

#[test]
fn empty_project_update_and_missing_project() {
    let empty = UpdateProjectScheme { name: None, max_student_uploads: None, max_group_size: None, active: None };
    assert_eq!(empty.apply_to(Some(settings())).unwrap(), settings());
    let empty = UpdateProjectScheme { name: None, max_student_uploads: None, max_group_size: None, active: None };
    assert_eq!(empty.apply_to(None).err(), Some(ProjectError::NotFound));
    assert_eq!(delete_project_verdict(false), Err(ProjectError::NotFound));
    assert_eq!(delete_project_verdict(true), Ok(()));
}
