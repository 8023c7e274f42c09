use unitn_fair_admin::membership::{facts_from_rows, has_leader, in_project, Placement};
use unitn_fair_admin::clock::Instant;
use unitn_fair_admin::membership::{
    apply_leadership_transfer, check_transfer_students, decide_add_member, find_member,
    member_changed_response, member_label, new_member_row, plan_leadership_transfer,
    plan_member_removal, role_label, rows_after_removal, selections_after_removal,
    transfer_response, AddMemberError, AddMemberFacts, GroupMember, RemoveMemberError,
    SelectionKey, StudentStatus, TransferError, GROUP_LEADER_ROLE, MEMBER_ROLE,
};

fn t0() -> Instant {
    Instant { secs: 1_700_000_000, nanos: 0 }
}

fn row(id: i32, student: i32, role: i32) -> GroupMember {
    GroupMember { group_member_id: id, group_id: 7, student_id: student, student_role_id: role, joined_at: t0() }
}

fn leaders(rows: &[GroupMember]) -> Vec<i32> {
    rows.iter().filter(|m| m.student_role_id == GROUP_LEADER_ROLE).map(|m| m.student_id).collect()
}

#[test]
fn transfer_demotes_old_leader_and_promotes_new_one() {
    let members = vec![row(1, 10, GROUP_LEADER_ROLE), row(2, 11, MEMBER_ROLE), row(3, 12, MEMBER_ROLE)];
    let plan = plan_leadership_transfer(&members, 12, false).unwrap();
    assert_eq!(plan.old_leader.student_id, 10);
    assert_eq!(plan.new_leader.student_id, 12);
    let after = apply_leadership_transfer(&members, &plan);
    assert_eq!(after.len(), 3);
    assert_eq!(leaders(&after), vec![12]);
    assert_eq!(after[0].student_role_id, MEMBER_ROLE);
}

#[test]
fn transfer_can_remove_old_leader() {
    let members = vec![row(1, 10, GROUP_LEADER_ROLE), row(2, 11, MEMBER_ROLE)];
    let plan = plan_leadership_transfer(&members, 11, true).unwrap();
    let after = apply_leadership_transfer(&members, &plan);
    assert_eq!(after.len(), 1);
    assert_eq!(after[0].student_id, 11);
    assert_eq!(after[0].student_role_id, GROUP_LEADER_ROLE);
}

#[test]
fn transfer_without_leader_is_refused_first() {
    let members = vec![row(1, 10, MEMBER_ROLE)];
    let r = plan_leadership_transfer(&members, 99, false);
    assert_eq!(r, Err(TransferError::NoCurrentLeader));
    assert_eq!(TransferError::NoCurrentLeader.status(), 400);
    assert_eq!(TransferError::NoCurrentLeader.message(), "Group has no leader");
}

#[test]
fn transfer_to_non_member_or_to_the_leader_is_refused() {
    let members = vec![row(1, 10, GROUP_LEADER_ROLE), row(2, 11, MEMBER_ROLE)];
    assert_eq!(plan_leadership_transfer(&members, 99, false), Err(TransferError::NewLeaderNotInGroup));
    assert_eq!(plan_leadership_transfer(&members, 10, false), Err(TransferError::NewLeaderNotInGroup));
    assert_eq!(TransferError::NewLeaderNotInGroup.status(), 404);
    assert_eq!(TransferError::NewLeaderNotInGroup.message(), "New leader not found in group");
}

#[test]
fn transfer_takes_the_last_leader_row() {
    let members = vec![row(1, 10, GROUP_LEADER_ROLE), row(2, 11, GROUP_LEADER_ROLE), row(3, 12, MEMBER_ROLE)];
    let plan = plan_leadership_transfer(&members, 12, false).unwrap();
    assert_eq!(plan.old_leader.group_member_id, 2);
}

#[test]
fn transfer_answer_reports_both_students() {
    let members = vec![row(1, 10, GROUP_LEADER_ROLE), row(2, 11, MEMBER_ROLE)];
    let plan = plan_leadership_transfer(&members, 11, true).unwrap();
    let r = transfer_response(&plan, "Ada", "Lovelace", "Alan", "Turing");
    assert_eq!(r.message, "Group leader updated successfully");
    assert_eq!(r.old_leader.student_id, 10);
    assert_eq!(r.old_leader.name, "Ada Lovelace");
    assert_eq!(r.old_leader.status, "removed_from_group");
    assert_eq!(r.new_leader.name, "Alan Turing");
    assert_eq!(r.new_leader.status, "promoted_to_leader");
    let plan2 = plan_leadership_transfer(&members, 11, false).unwrap();
    assert_eq!(transfer_response(&plan2, "A", "B", "C", "D").old_leader.status, "demoted_to_member");
}

#[test]
fn find_member_gives_the_first_row() {
    let members = vec![row(1, 10, MEMBER_ROLE), row(2, 11, MEMBER_ROLE), row(3, 11, GROUP_LEADER_ROLE)];
    assert_eq!(find_member(&members, 11).unwrap().group_member_id, 2);
    assert!(find_member(&members, 99).is_none());
}

#[test]
fn labels_of_roles() {
    assert_eq!(role_label(1), "Group Leader");
    assert_eq!(role_label(2), "Member");
    assert_eq!(role_label(5), "Unknown");
    assert_eq!(member_label(1), "Group Leader");
    assert_eq!(member_label(5), "Member");
}

#[test]
fn member_answers() {
    let r = member_changed_response(true, 5, "Mario", "Rossi", "m@r.it", GROUP_LEADER_ROLE);
    assert!(r.success);
    assert_eq!(r.message, "Member added successfully");
    let info = r.member.unwrap();
    assert_eq!(info.name, "Mario Rossi");
    assert_eq!(info.role, "Group Leader");
    assert_eq!(info.email, "m@r.it");
    let r = member_changed_response(false, 5, "Mario", "Rossi", "m@r.it", MEMBER_ROLE);
    assert_eq!(r.message, "Member removed successfully from the group");
    assert_eq!(r.member.unwrap().role, "Member");
}

fn facts() -> AddMemberFacts {
    AddMemberFacts {
        group_project_id: Some(3),
        student: Some(StudentStatus { student_id: 5, is_pending: false }),
        student_in_project: false,
        max_group_size: Some(4),
        member_count: 3,
        role_id: MEMBER_ROLE,
        group_has_leader: false,
    }
}

#[test]
fn add_member_accepts_below_the_limit() {
    assert_eq!(decide_add_member(&facts()), Ok(()));
    let m = new_member_row(7, 5, MEMBER_ROLE, t0());
    assert_eq!(m.group_id, 7);
    assert_eq!(m.student_id, 5);
}

#[test]
fn add_member_refusals_in_order() {
    let mut f = facts();
    f.member_count = 4;
    assert_eq!(decide_add_member(&f), Err(AddMemberError::GroupFull));
    f.max_group_size = None;
    assert_eq!(decide_add_member(&f), Err(AddMemberError::ProjectNotFound));
    f.student_in_project = true;
    assert_eq!(decide_add_member(&f), Err(AddMemberError::AlreadyInProjectGroup));
    f.student = Some(StudentStatus { student_id: 5, is_pending: true });
    assert_eq!(decide_add_member(&f), Err(AddMemberError::EmailNotConfirmed));
    f.student = None;
    assert_eq!(decide_add_member(&f), Err(AddMemberError::StudentNotFound));
    f.group_project_id = None;
    assert_eq!(decide_add_member(&f), Err(AddMemberError::GroupNotFound));
    let mut g = facts();
    g.role_id = GROUP_LEADER_ROLE;
    g.group_has_leader = true;
    assert_eq!(decide_add_member(&g), Err(AddMemberError::AlreadyHasLeader));
    g.role_id = MEMBER_ROLE;
    assert_eq!(decide_add_member(&g), Ok(()));
}

#[test]
fn add_member_error_answers() {
    assert_eq!(AddMemberError::GroupNotFound.status(), 404);
    assert_eq!(AddMemberError::StudentNotFound.status(), 404);
    assert_eq!(AddMemberError::ProjectNotFound.status(), 404);
    assert_eq!(AddMemberError::GroupFull.status(), 400);
    assert_eq!(AddMemberError::GroupFull.message(), "Group size limit exceeded");
    assert_eq!(AddMemberError::EmailNotConfirmed.message(), "Student email not confirmed");
    assert_eq!(AddMemberError::AlreadyInProjectGroup.message(), "Student already in project group");
    assert_eq!(AddMemberError::AlreadyHasLeader.message(), "Group already has a leader");
}

#[test]
fn a_second_leader_is_refused() {
    let mut f = facts();
    f.role_id = GROUP_LEADER_ROLE;
    f.group_has_leader = true;
    assert_eq!(decide_add_member(&f), Err(AddMemberError::AlreadyHasLeader));
    assert_eq!(AddMemberError::AlreadyHasLeader.status(), 400);
    f.group_has_leader = false;
    assert_eq!(decide_add_member(&f), Ok(()));
}

#[test]
fn removal_of_a_missing_member_is_refused() {
    let rows = vec![row(1, 10, GROUP_LEADER_ROLE), row(2, 11, MEMBER_ROLE)];
    assert_eq!(plan_member_removal(false, &rows, 11, true), Err(RemoveMemberError::GroupNotFound));
    assert_eq!(plan_member_removal(true, &rows, 12, true), Err(RemoveMemberError::MemberNotFound));
    assert_eq!(plan_member_removal(true, &rows, 11, false), Err(RemoveMemberError::StudentNotFound));
    assert_eq!(plan_member_removal(true, &rows, 11, true), Ok(row(2, 11, MEMBER_ROLE)));
    assert_eq!(RemoveMemberError::MemberNotFound.status(), 404);
    assert_eq!(RemoveMemberError::MemberNotFound.message(), "Member not found in this group");
    assert_eq!(RemoveMemberError::GroupNotFound.message(), "Group not found");
}

#[test]
fn removal_deletes_the_row_and_the_choice() {
    let rows = vec![row(1, 10, GROUP_LEADER_ROLE), row(2, 11, MEMBER_ROLE), row(3, 12, MEMBER_ROLE)];
    let after = rows_after_removal(&rows, 2);
    assert_eq!(after, vec![row(1, 10, GROUP_LEADER_ROLE), row(3, 12, MEMBER_ROLE)]);
    let sel = vec![
        SelectionKey { student_id: 11, project_id: 5, student_deliverable_id: 1 },
        SelectionKey { student_id: 11, project_id: 6, student_deliverable_id: 2 },
        SelectionKey { student_id: 12, project_id: 5, student_deliverable_id: 3 },
    ];
    let left = selections_after_removal(&sel, 11, 5);
    assert_eq!(left, vec![sel[1], sel[2]]);
}

#[test]
fn transfer_needs_both_students() {
    assert_eq!(check_transfer_students(true, true), Ok(()));
    assert_eq!(check_transfer_students(false, true), Err(TransferError::StudentNotFound));
    assert_eq!(check_transfer_students(true, false), Err(TransferError::StudentNotFound));
    assert_eq!(TransferError::StudentNotFound.status(), 404);
    assert_eq!(TransferError::StudentNotFound.message(), "Student not found");
}

#[test]
fn facts_are_read_off_the_rows() {
    let rows = vec![row(1, 10, GROUP_LEADER_ROLE), row(2, 11, MEMBER_ROLE)];
    assert!(has_leader(&rows));
    assert!(!has_leader(&vec![row(2, 11, MEMBER_ROLE)]));
    let places = vec![Placement { student_id: 30, group_id: 8, project_id: 5 }];
    assert!(in_project(&places, 30, 5));
    assert!(!in_project(&places, 30, 6));
    let st = StudentStatus { student_id: 30, is_pending: false };
    let f = facts_from_rows(Some(5), Some(st), &places, Some(4), &rows, GROUP_LEADER_ROLE);
    assert!(f.student_in_project);
    assert!(f.group_has_leader);
    assert_eq!(f.member_count, 2);
    assert_eq!(decide_add_member(&f), Err(AddMemberError::AlreadyInProjectGroup));
    let f = facts_from_rows(Some(6), Some(st), &places, Some(4), &rows, GROUP_LEADER_ROLE);
    assert_eq!(decide_add_member(&f), Err(AddMemberError::AlreadyHasLeader));
    let f = facts_from_rows(Some(6), Some(st), &places, Some(2), &rows, MEMBER_ROLE);
    assert_eq!(decide_add_member(&f), Err(AddMemberError::GroupFull));
    let f = facts_from_rows(Some(6), Some(st), &places, Some(3), &rows, MEMBER_ROLE);
    assert_eq!(decide_add_member(&f), Ok(()));
}
