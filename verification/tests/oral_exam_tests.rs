use unitn_fair_admin::oral_exam::{list_oral_exam_groups, mark_student, mark_students, Completion, OralGroupRecord};
use unitn_fair_admin::clock::Instant;
use unitn_fair_admin::oral_exam::{completion_results, delete_note, upsert_note};
use unitn_fair_admin::oral_exam::{
    check_bulk_completion, count_completed, note_deletion_verdict, select_groups, set_oral_exam,
    BulkCompletionError, GroupRow, OralExamError,
};
use unitn_fair_admin::projects::Project;

fn groups(names: &[&str]) -> Vec<GroupRow> {
    names.iter().enumerate().map(|(i, n)| GroupRow { group_id: i as i32 + 1, name: n.to_string() }).collect()
}

fn ids(rows: &[GroupRow]) -> Vec<i32> {
    rows.iter().map(|g| g.group_id).collect()
}

#[test]
fn groups_are_listed_alphabetically() {
    let out = select_groups(groups(&["Zeta", "alpha", "Beta", "Alpha"]), None);
    let names: Vec<&str> = out.iter().map(|g| g.name.as_str()).collect();
    assert_eq!(names, vec!["Alpha", "Beta", "Zeta", "alpha"]);
}

#[test]
fn equal_names_keep_their_order() {
    let out = select_groups(groups(&["B", "A", "B", "A"]), None);
    assert_eq!(ids(&out), vec![2, 4, 1, 3]);
}

#[test]
fn search_ignores_case() {
    let out = select_groups(groups(&["Robots", "ROBOTICA", "Drones"]), Some("roBot".to_string()));
    assert_eq!(ids(&out), vec![2, 1]);
}

#[test]
fn search_with_no_hit_lists_nothing() {
    assert!(select_groups(groups(&["Robots"]), Some("xyz".to_string())).is_empty());
}

#[test]
fn empty_search_lists_everything() {
    assert_eq!(select_groups(groups(&["b", "a"]), Some(String::new())).len(), 2);
}

#[test]
fn listing_is_the_same_twice() {
    let a = select_groups(groups(&["Q", "p", "Q"]), Some("q".to_string()));
    let b = select_groups(groups(&["Q", "p", "Q"]), Some("q".to_string()));
    assert_eq!(ids(&a), ids(&b));
    assert_eq!(ids(&a), vec![1, 3]);
}

#[test]
fn unicode_names_sort_by_code_point() {
    let out = select_groups(groups(&["Éclair", "Zed", "Ábaco"]), Some("é".to_string()));
    assert_eq!(ids(&out), vec![1]);
    let all = select_groups(groups(&["Éclair", "Zed", "Ábaco"]), None);
    assert_eq!(ids(&all), vec![2, 3, 1]);
}

#[test]
fn completed_members_are_counted() {
    assert_eq!(count_completed(&vec![1, 2, 3], &vec![3, 1, 9]), 2);
    assert_eq!(count_completed(&vec![], &vec![1]), 0);
    assert_eq!(count_completed(&vec![4, 4], &vec![4]), 2);
}

#[test]
fn bulk_completion_checks_group_and_members() {
    let members = vec![1, 2, 3];
    assert_eq!(check_bulk_completion(None, 5, &members, &vec![1]), Err(BulkCompletionError::GroupNotFound));
    assert_eq!(check_bulk_completion(Some(6), 5, &members, &vec![1]), Err(BulkCompletionError::GroupNotFound));
    assert_eq!(check_bulk_completion(Some(5), 5, &members, &vec![1, 9, 8]), Err(BulkCompletionError::StudentNotInGroup(9)));
    assert_eq!(check_bulk_completion(Some(5), 5, &members, &vec![3, 1]), Ok(()));
    assert_eq!(check_bulk_completion(Some(5), 5, &members, &vec![]), Ok(()));
    assert_eq!(BulkCompletionError::GroupNotFound.status(), 404);
    assert_eq!(BulkCompletionError::StudentNotInGroup(9).status(), 400);
    assert_eq!(BulkCompletionError::StudentNotInGroup(9).message(), "Student not in group");
    assert_eq!(BulkCompletionError::GroupNotFound.message(), "Group not found");
}

fn stored_project() -> Project {
    Project {
        project_id: 3,
        name: "Robotics".to_string(),
        year: 2025,
        max_student_uploads: 2,
        max_group_size: 4,
        max_groups: 10,
        deliverable_selection_deadline: None,
        active: true,
        oral_exam_enabled: false,
    }
}

#[test]
fn oral_exams_are_switched_on_and_off() {
    let on = set_oral_exam(Some(stored_project()), true).unwrap();
    assert!(on.oral_exam_enabled);
    assert_eq!(on.project_id, 3);
    assert_eq!(on.name, "Robotics");
    assert_eq!(on.max_group_size, 4);
    let off = set_oral_exam(Some(on), false).unwrap();
    assert!(!off.oral_exam_enabled);
    let again = set_oral_exam(Some(stored_project()), false).unwrap();
    assert!(!again.oral_exam_enabled);
    let missing = set_oral_exam(None, true);
    assert!(matches!(missing, Err(OralExamError::ProjectNotFound)));
    assert_eq!(OralExamError::ProjectNotFound.status(), 404);
    assert_eq!(OralExamError::ProjectNotFound.message(), "Project not found");
}

#[test]
fn deleting_a_missing_note_is_refused() {
    assert_eq!(note_deletion_verdict(true), Ok(()));
    assert_eq!(note_deletion_verdict(false), Err(OralExamError::NoteNotFound));
    assert_eq!(OralExamError::NoteNotFound.status(), 404);
    assert_eq!(OralExamError::NoteNotFound.message(), "Note not found");
}

#[test]
fn notes_are_written_and_deleted() {
    let t = Instant { secs: 5, nanos: 0 };
    let notes = upsert_note(&vec![], 1, 3, "first", t);
    assert_eq!(notes.len(), 1);
    let notes = upsert_note(&notes, 1, 3, "second", t);
    assert_eq!(notes.len(), 1);
    assert_eq!(notes[0].text, "second");
    let notes = upsert_note(&notes, 2, 3, "other", t);
    assert_eq!(notes.len(), 2);
    let (left, found) = delete_note(&notes, 1, 3);
    assert!(found);
    assert_eq!(left.len(), 1);
    assert_eq!(left[0].student_id, 2);
    let (again, found) = delete_note(&left, 1, 3);
    assert!(!found);
    assert_eq!(again.len(), 1);
    assert_eq!(note_deletion_verdict(found), Err(OralExamError::NoteNotFound));
}

#[test]
fn bulk_results_follow_the_request() {
    let t = Instant { secs: 5, nanos: 0 };
    let out = completion_results(&vec![4, 2], 3, &vec![Some(t), Some(t)]);
    assert_eq!(out.len(), 2);
    assert_eq!(out[1].student_id, 2);
    assert!(out[1].completed);
    assert_eq!(out[1].completed_at, Some(t));
    let out = completion_results(&vec![4], 3, &vec![None]);
    assert!(!out[0].completed);
    assert_eq!(out[0].project_id, 3);
}

#[test]
fn a_search_keeps_the_order_of_the_full_listing() {
    let all = select_groups(groups(&["beta", "Alpha", "alphabet", "Gamma", "ALPS"]), None);
    let narrowed = select_groups(groups(&["beta", "Alpha", "alphabet", "Gamma", "ALPS"]), Some("alp".to_string()));
    let kept: Vec<i32> = ids(&all).into_iter().filter(|id| ids(&narrowed).contains(id)).collect();
    assert_eq!(ids(&narrowed), kept);
    assert_eq!(ids(&narrowed), vec![5, 2, 3]);
}

fn oral_project(enabled: bool) -> Project {
    Project {
        project_id: 3,
        name: "Robotics".to_string(),
        year: 2025,
        max_student_uploads: 2,
        max_group_size: 4,
        max_groups: 10,
        deliverable_selection_deadline: None,
        active: true,
        oral_exam_enabled: enabled,
    }
}

#[test]
fn oral_exam_list_counts_members_and_completions() {
    let records = vec![
        OralGroupRecord { group: GroupRow { group_id: 1, name: "Zeta".to_string() }, member_ids: vec![10, 11, 12] },
        OralGroupRecord { group: GroupRow { group_id: 2, name: "Alpha".to_string() }, member_ids: vec![20] },
        OralGroupRecord { group: GroupRow { group_id: 3, name: "Omega".to_string() }, member_ids: vec![] },
    ];
    let list = list_oral_exam_groups(&Some(oral_project(true)), 3, &records, None, &vec![10, 12, 99]).unwrap();
    assert_eq!(list.project_id, 3);
    assert!(list.oral_exam_enabled);
    let ids: Vec<i32> = list.groups.iter().map(|g| g.group_id).collect();
    assert_eq!(ids, vec![2, 3, 1]);
    assert_eq!(list.groups[2].member_count, 3);
    assert_eq!(list.groups[2].total_members, 3);
    assert_eq!(list.groups[2].completed_count, 2);
    assert_eq!(list.groups[0].completed_count, 0);
    let list = list_oral_exam_groups(&Some(oral_project(false)), 3, &records, Some("ETA".to_string()), &vec![]).unwrap();
    assert_eq!(list.groups.len(), 1);
    assert_eq!(list.groups[0].name, "Zeta");
    assert!(!list.oral_exam_enabled);
    assert!(matches!(list_oral_exam_groups(&None, 3, &records, None, &vec![]), Err(OralExamError::ProjectNotFound)));
}

#[test]
fn bulk_marking_is_marking_each_in_turn() {
    let c = |s: i32, p: i32| Completion { student_id: s, project_id: p };
    let store = vec![c(1, 3), c(2, 4)];
    let bulk = mark_students(&store, &vec![1, 5, 5], 3, true);
    let mut each = store.clone();
    for s in [1, 5, 5] {
        each = mark_student(&each, s, 3, true);
    }
    assert_eq!(bulk, each);
    assert_eq!(bulk, vec![c(1, 3), c(2, 4), c(5, 3)]);
    let undone = mark_students(&bulk, &vec![1, 5], 3, false);
    assert_eq!(undone, vec![c(2, 4)]);
    assert_eq!(mark_student(&undone, 2, 4, false), vec![]);
}
