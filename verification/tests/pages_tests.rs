use unitn_fair_admin::clock::Instant;
use unitn_fair_admin::groups::GroupLookupError;
use unitn_fair_admin::membership::{GroupMember, GROUP_LEADER_ROLE, MEMBER_ROLE};
use unitn_fair_admin::names::NameEntry;
use unitn_fair_admin::pages::{
    deliverable_selections, group_details, oral_exam_group_details, project_groups, ComplaintRecord,
    ComponentRecord, GroupChoiceRecord, GroupHeader, GroupRecord, ImplementationRecord, MemberRecord,
    NoteRecord, OralExamRecords, SaleRecord, StudentChoiceRecord, StudentRecord,
};

fn at(secs: i64) -> Instant {
    Instant { secs, nanos: 0 }
}

fn row(id: i32, student: i32, role: i32) -> GroupMember {
    GroupMember { group_member_id: id, group_id: 7, student_id: student, student_role_id: role, joined_at: at(0) }
}

fn student(id: i32, first: &str) -> StudentRecord {
    StudentRecord {
        student_id: id,
        first_name: first.to_string(),
        last_name: "Rossi".to_string(),
        email: format!("{}@unitn.it", first),
        university_id: 1000 + id,
    }
}

fn member(id: i32, student_id: i32, role: i32, st: Option<StudentRecord>) -> MemberRecord {
    MemberRecord {
        member: row(id, student_id, role),
        student: st,
        choice: None,
        upload_count: None,
        note: None,
        completed_at: None,
    }
}

fn members() -> Vec<MemberRecord> {
    let mut anna = member(1, 10, MEMBER_ROLE, Some(student(10, "Anna")));
    anna.choice = Some(StudentChoiceRecord {
        student_deliverable_id: 5,
        deliverable_name: Some("Report".to_string()),
        components: vec![
            Some(ComponentRecord { component_id: 50, name: "Intro".to_string(), project_id: 3 }),
            None,
            Some(ComponentRecord { component_id: 52, name: "Results".to_string(), project_id: 3 }),
        ],
    });
    anna.upload_count = Some(2);
    anna.note = Some(NoteRecord { text: "good".to_string(), updated_at: at(9) });
    anna.completed_at = Some(at(8));
    let ghost_leader = member(2, 11, GROUP_LEADER_ROLE, None);
    let mut bruno = member(3, 12, GROUP_LEADER_ROLE, Some(student(12, "Bruno")));
    bruno.choice = Some(StudentChoiceRecord { student_deliverable_id: 6, deliverable_name: None, components: vec![] });
    vec![anna, ghost_leader, bruno]
}

fn choice(name: Option<&str>) -> GroupChoiceRecord {
    GroupChoiceRecord {
        selection_id: 70,
        group_deliverable_id: 40,
        deliverable_name: name.map(|n| n.to_string()),
        details: vec![
            ImplementationRecord {
                id: 1,
                component_id: 60,
                component_name: Some("Engine".to_string()),
                markdown_description: "md".to_string(),
                repository_link: "git".to_string(),
                created_at: at(1),
                updated_at: at(2),
            },
            ImplementationRecord {
                id: 2,
                component_id: 61,
                component_name: None,
                markdown_description: "md2".to_string(),
                repository_link: "git2".to_string(),
                created_at: at(3),
                updated_at: at(4),
            },
        ],
    }
}

fn header(id: i32, name: &str) -> GroupHeader {
    GroupHeader { group_id: id, name: name.to_string(), project_id: 3 }
}

#[test]
fn group_detail_page() {
    let d = group_details(&Some(header(7, "Alpha")), &Some("Robotics".to_string()), &members(), &Some(choice(Some("Rover")))).unwrap();
    assert_eq!(d.group_id, 7);
    assert_eq!(d.project_name, "Robotics");
    assert_eq!(d.members.len(), 2);
    assert_eq!(d.members[0].first_name, "Anna");
    assert_eq!(d.members[0].role, "Member");
    let c = d.members[0].choice.as_ref().unwrap();
    assert_eq!(c.name, "Report");
    assert_eq!(c.components.len(), 2);
    assert_eq!(c.components[1].name, "Results");
    assert_eq!(d.members[1].role, "Group Leader");
    assert!(d.members[1].choice.is_none());
    let g = d.choice.unwrap();
    assert_eq!(g.name, "Rover");
    assert_eq!(g.details[0].component_name, "Engine");
    assert_eq!(g.details[1].component_name, "Unknown Component 61");
    let d = group_details(&Some(header(7, "Alpha")), &Some("R".to_string()), &vec![], &Some(choice(None))).unwrap();
    assert!(d.choice.is_none());
    assert!(matches!(group_details(&None, &None, &vec![], &None), Err(GroupLookupError::GroupNotFound)));
    assert!(matches!(group_details(&Some(header(7, "A")), &None, &vec![], &None), Err(GroupLookupError::ProjectNotFound)));
}

#[test]
fn project_group_list() {
    let groups = vec![
        GroupRecord { group: header(7, "Alpha"), members: members(), choice: None },
        GroupRecord { group: header(8, "Beta"), members: vec![member(9, 20, MEMBER_ROLE, Some(student(20, "Carla")))], choice: Some(choice(None)) },
        GroupRecord { group: header(9, "Gamma"), members: vec![], choice: Some(choice(Some("Rover"))) },
    ];
    let lines = project_groups(&Some(Some(at(100))), &groups, &at(200)).unwrap();
    assert_eq!(lines.len(), 3);
    assert_eq!(lines[0].member_count, 3);
    assert_eq!(lines[0].leader.student_id, 12);
    assert_eq!(lines[0].leader.name, "Bruno Rossi");
    assert!(lines[0].deliverable.is_none());
    assert!(lines[0].time_expired);
    assert_eq!(lines[1].leader.student_id, 0);
    assert_eq!(lines[1].leader.name, "Unknown");
    assert_eq!(lines[1].leader.email, "unknown@example.com");
    assert_eq!(lines[1].deliverable.as_ref().unwrap().name, "Unknown Deliverable 40");
    assert!(!lines[1].time_expired);
    assert_eq!(lines[2].deliverable.as_ref().unwrap().name, "Rover");
    let lines = project_groups(&Some(None), &groups, &at(200)).unwrap();
    assert!(!lines[0].time_expired);
    let lines = project_groups(&Some(Some(at(300))), &groups, &at(200)).unwrap();
    assert!(!lines[0].time_expired);
    assert!(matches!(project_groups(&None, &groups, &at(0)), Err(GroupLookupError::ProjectNotFound)));
}

#[test]
fn choices_of_a_project() {
    let groups = vec![
        GroupRecord { group: header(7, "Alpha"), members: vec![], choice: None },
        GroupRecord { group: header(8, "Beta"), members: vec![], choice: Some(choice(None)) },
        GroupRecord { group: header(9, "Gamma"), members: vec![], choice: Some(choice(Some("Rover"))) },
    ];
    let out = deliverable_selections(true, &groups).unwrap();
    assert_eq!(out.len(), 1);
    assert_eq!(out[0].group_id, 9);
    assert_eq!(out[0].group_name, "Gamma");
    assert_eq!(out[0].choice.selection_id, 70);
    assert_eq!(out[0].choice.details[1].component_name, "Unknown Component 61");
    assert!(matches!(deliverable_selections(false, &groups), Err(GroupLookupError::ProjectNotFound)));
}

fn oral_records(with_choice: bool) -> OralExamRecords {
    OralExamRecords {
        members: members(),
        choice: if with_choice { Some(choice(Some("Rover"))) } else { None },
        complaints_filed: vec![ComplaintRecord { complaint_id: 1, transaction_id: 11, from_group_id: 7, to_group_id: 8, text: "late".to_string(), created_at: at(5) }],
        complaints_received: vec![ComplaintRecord { complaint_id: 2, transaction_id: 12, from_group_id: 99, to_group_id: 7, text: "broken".to_string(), created_at: at(6) }],
        sales: vec![SaleRecord { transaction_id: 11, buyer_group_id: 8, component_id: 61, timestamp: at(7) }],
        group_names: vec![NameEntry { id: 7, name: "Alpha".to_string() }, NameEntry { id: 8, name: "Beta".to_string() }],
        component_names: vec![NameEntry { id: 60, name: "Engine".to_string() }],
    }
}

#[test]
fn oral_exam_page() {
    let d = oral_exam_group_details(3, &Some("Robotics".to_string()), &Some(header(7, "Alpha")), &oral_records(true)).unwrap();
    assert_eq!(d.members.len(), 2);
    assert!(!d.members[0].is_leader);
    assert_eq!(d.members[0].upload_count, Some(2));
    assert_eq!(d.members[0].note.as_deref(), Some("good"));
    assert_eq!(d.members[0].note_updated_at, Some(at(9)));
    assert!(d.members[0].completed);
    assert!(d.members[1].is_leader);
    assert!(!d.members[1].completed);
    assert_eq!(d.group_deliverable.as_ref().unwrap().details[1].component_name, "Component 61");
    assert_eq!(d.complaints_filed[0].other_group_id, 8);
    assert_eq!(d.complaints_filed[0].other_group_name, "Beta");
    assert_eq!(d.complaints_received[0].other_group_id, 99);
    assert_eq!(d.complaints_received[0].other_group_name, "Group 99");
    assert_eq!(d.fair_sales.len(), 1);
    assert_eq!(d.fair_sales[0].buyer_group_name, "Beta");
    assert_eq!(d.fair_sales[0].component_name, "Component 61");
    let d = oral_exam_group_details(3, &Some("Robotics".to_string()), &Some(header(7, "Alpha")), &oral_records(false)).unwrap();
    assert!(d.group_deliverable.is_none());
    assert!(d.fair_sales.is_empty());
    assert!(matches!(oral_exam_group_details(3, &None, &Some(header(7, "A")), &oral_records(true)), Err(GroupLookupError::ProjectNotFound)));
    assert!(matches!(oral_exam_group_details(4, &Some("R".to_string()), &Some(header(7, "A")), &oral_records(true)), Err(GroupLookupError::GroupNotFound)));
    assert!(matches!(oral_exam_group_details(3, &Some("R".to_string()), &None, &oral_records(true)), Err(GroupLookupError::GroupNotFound)));
}
