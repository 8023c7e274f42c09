use vstd::prelude::*;

use crate::oral_exam::contains_id;
use crate::projects::Project;
use crate::text::{full_name, spec_full_name};

verus! {

/// The role of an administrator.
#[derive(Clone, Copy, Debug, PartialEq, Eq, Structural)]
pub enum AdminRole {
    Root,
    Professor,
    Coordinator,
}

/// A coordinator may only act on a project assigned to them.
#[derive(Clone, Copy, Debug, PartialEq, Eq, Structural)]
pub struct AccessDenied;

impl AccessDenied {
    /// The HTTP status of the answer: 403.
    pub fn status(&self) -> (s: u16)
        ensures
            s == 403,
    {
        403
    }

    /// The message shown to the client.
    pub fn message(&self) -> (m: &'static str)
        ensures
            m@ == "Access denied - you are not assigned to this project"@,
    {
        "Access denied - you are not assigned to this project"
    }
}

/// Whether an administrator may act on a project: root and professors always, a
/// coordinator only on a project assigned to them (`is_assigned`, looked up for
/// coordinators only).
pub fn check_project_access(role: AdminRole, is_assigned: bool) -> (r: Result<(), AccessDenied>)
    ensures
        r is Ok <==> (role != AdminRole::Coordinator || is_assigned),
{
    match role {
        AdminRole::Coordinator => if is_assigned {
            Ok(())
        } else {
            Err(AccessDenied)
        },
        _ => Ok(()),
    }
}

/// The project is one of the ids.
pub open spec fn assigned_to(ids: Seq<i32>) -> spec_fn(Project) -> bool {
    |p: Project| ids.contains(p.project_id)
}

fn copy_project(p: &Project) -> (r: Project)
    ensures
        r == *p,
{
    Project {
        project_id: p.project_id,
        name: p.name.clone(),
        year: p.year,
        max_student_uploads: p.max_student_uploads,
        max_group_size: p.max_group_size,
        max_groups: p.max_groups,
        deliverable_selection_deadline: p.deliverable_selection_deadline,
        active: p.active,
        oral_exam_enabled: p.oral_exam_enabled,
    }
}

/// The projects an administrator sees in the project list: all of them, or for a
/// coordinator those assigned to them, in the stored order.
pub fn visible_projects(role: AdminRole, projects: Vec<Project>, assigned: &Vec<i32>) -> (out: Vec<
    Project,
>)
    ensures
        out@ == (if role == AdminRole::Coordinator {
            projects@.filter(assigned_to(assigned@))
        } else {
            projects@
        }),
{
    if role != AdminRole::Coordinator {
        return projects;
    }
    let ghost pred = assigned_to(assigned@);
    let mut out: Vec<Project> = Vec::new();
    let mut i: usize = 0;
    while i < projects.len()
        invariant
            i <= projects.len(),
            pred == assigned_to(assigned@),
            out@ == projects@.take(i as int).filter(pred),
        decreases projects.len() - i,
    {
        assert(projects@.take(i + 1).drop_last() =~= projects@.take(i as int));
        assert(projects@.take(i + 1).last() == projects@[i as int]);
        let ghost before = out@;
        let keep = contains_id(assigned, projects[i].project_id);
        if keep {
            out.push(copy_project(&projects[i]));
        }
        proof {
            let t = projects@.take(i + 1);
            reveal_with_fuel(Seq::<_>::filter, 1);
            assert(pred(t.last()) == keep);
            assert(t.filter(pred) == (if pred(t.last()) {
                t.drop_last().filter(pred).push(t.last())
            } else {
                t.drop_last().filter(pred)
            }));
        }
        i = i + 1;
    }
    assert(projects@.take(i as int) =~= projects@);
    out
}

// ── Coordinator assignments ──────────────────────────────────────────────
/// A coordinator assigned to a project.
#[derive(Clone, Copy, Debug, PartialEq, Eq, Structural)]
pub struct CoordinatorAssignment {
    pub admin_id: i32,
    pub project_id: i32,
}

/// How many coordinators are assigned to the project.
pub open spec fn coordinators_of(assignments: Seq<CoordinatorAssignment>, project_id: i32) -> nat
    decreases assignments.len(),
{
    if assignments.len() == 0 {
        0
    } else {
        coordinators_of(assignments.drop_last(), project_id) + if assignments.last().project_id
            == project_id {
            1nat
        } else {
            0nat
        }
    }
}

/// No project has more than one coordinator.
pub open spec fn one_coordinator_per_project(assignments: Seq<CoordinatorAssignment>) -> bool {
    forall|p: i32| #[trigger] coordinators_of(assignments, p) <= 1
}

/// Why a coordinator assignment is refused or cannot be removed.
#[derive(Clone, Copy, Debug, PartialEq, Eq, Structural)]
pub enum CoordinatorError {
    /// 404
    ProjectNotFound,
    /// 404
    AdminNotFound,
    /// 400: the administrator is not a coordinator.
    NotACoordinator,
    /// 400: the project has a coordinator already.
    ProjectHasCoordinator,
    /// 404: nothing to remove.
    NotAssigned,
}

impl CoordinatorError {
    /// The HTTP status of the answer.
    pub fn status(&self) -> (s: u16)
        ensures
            s == (match self {
                CoordinatorError::NotACoordinator => 400u16,
                CoordinatorError::ProjectHasCoordinator => 400u16,
                _ => 404u16,
            }),
    {
        match self {
            CoordinatorError::NotACoordinator => 400,
            CoordinatorError::ProjectHasCoordinator => 400,
            _ => 404,
        }
    }

    /// The message shown to the client.
    pub fn message(&self) -> (m: &'static str)
        ensures
            m@ == (match self {
                CoordinatorError::ProjectNotFound => "Project not found"@,
                CoordinatorError::AdminNotFound => "Admin not found"@,
                CoordinatorError::NotACoordinator => "Only Coordinators can be assigned to projects"@,
                CoordinatorError::ProjectHasCoordinator => "Project can only have one coordinator. Remove the existing coordinator first."@,
                CoordinatorError::NotAssigned => "Coordinator not assigned to this project"@,
            }),
    {
        match self {
            CoordinatorError::ProjectNotFound => "Project not found",
            CoordinatorError::AdminNotFound => "Admin not found",
            CoordinatorError::NotACoordinator => "Only Coordinators can be assigned to projects",
            CoordinatorError::ProjectHasCoordinator => "Project can only have one coordinator. Remove the existing coordinator first.",
            CoordinatorError::NotAssigned => "Coordinator not assigned to this project",
        }
    }
}

/// The verdict on assigning an administrator to a project. `project_exists`,
/// the administrator's role (`None` when there is no such administrator) and
/// the number of coordinators the project has are looked up in this order.
pub open spec fn assign_verdict(
    project_exists: bool,
    admin_role: Option<AdminRole>,
    existing_coordinators: nat,
) -> Result<(), CoordinatorError> {
    if !project_exists {
        Err(CoordinatorError::ProjectNotFound)
    } else if admin_role is None {
        Err(CoordinatorError::AdminNotFound)
    } else if admin_role != Some(AdminRole::Coordinator) {
        Err(CoordinatorError::NotACoordinator)
    } else if existing_coordinators > 0 {
        Err(CoordinatorError::ProjectHasCoordinator)
    } else {
        Ok(())
    }
}

/// Decides an assignment of a coordinator to a project.
pub fn decide_assignment(
    project_exists: bool,
    admin_role: Option<AdminRole>,
    existing_coordinators: usize,
) -> (r: Result<(), CoordinatorError>)
    ensures
        r == assign_verdict(project_exists, admin_role, existing_coordinators as nat),
{
    if !project_exists {
        return Err(CoordinatorError::ProjectNotFound);
    }
    match admin_role {
        None => Err(CoordinatorError::AdminNotFound),
        Some(AdminRole::Coordinator) => if existing_coordinators > 0 {
            Err(CoordinatorError::ProjectHasCoordinator)
        } else {
            Ok(())
        },
        Some(_) => Err(CoordinatorError::NotACoordinator),
    }
}

/// Decides the removal of a coordinator from a project.
pub fn decide_removal(project_exists: bool, is_assigned: bool) -> (r: Result<(), CoordinatorError>)
    ensures
        r == (if !project_exists {
            Err::<(), CoordinatorError>(CoordinatorError::ProjectNotFound)
        } else if !is_assigned {
            Err::<(), CoordinatorError>(CoordinatorError::NotAssigned)
        } else {
            Ok::<(), CoordinatorError>(())
        }),
{
    if !project_exists {
        Err(CoordinatorError::ProjectNotFound)
    } else if !is_assigned {
        Err(CoordinatorError::NotAssigned)
    } else {
        Ok(())
    }
}

proof fn lemma_push_count(assignments: Seq<CoordinatorAssignment>, a: CoordinatorAssignment, p: i32)
    ensures
        coordinators_of(assignments.push(a), p) == coordinators_of(assignments, p) + if a.project_id
            == p {
            1nat
        } else {
            0nat
        },
{
    assert(assignments.push(a).drop_last() =~= assignments);
}

/// Law: a project has at most one coordinator. An accepted assignment, made
/// against the project's current number of coordinators, keeps that so, and the
/// project then has exactly one.
pub proof fn assignment_keeps_one_coordinator(
    assignments: Seq<CoordinatorAssignment>,
    admin_id: i32,
    project_id: i32,
    admin_role: Option<AdminRole>,
)
    requires
        one_coordinator_per_project(assignments),
        assign_verdict(true, admin_role, coordinators_of(assignments, project_id)) is Ok,
    ensures
        one_coordinator_per_project(
            assignments.push(CoordinatorAssignment { admin_id, project_id }),
        ),
        coordinators_of(assignments.push(CoordinatorAssignment { admin_id, project_id }), project_id)
            == 1,
{
    let a = CoordinatorAssignment { admin_id, project_id };
    assert forall|p: i32| #[trigger] coordinators_of(assignments.push(a), p) <= 1 by {
        lemma_push_count(assignments, a, p);
        assert(coordinators_of(assignments, p) <= 1);
    }
    lemma_push_count(assignments, a, project_id);
}

// ── Viewing one project ──────────────────────────────────────────────────
/// Why a project's page cannot be shown.
#[derive(Clone, Copy, Debug, PartialEq, Eq, Structural)]
pub enum ProjectViewError {
    /// 404
    ProjectNotFound,
    /// 403: a coordinator not assigned to the project.
    AccessDenied,
}

impl ProjectViewError {
    /// The HTTP status of the answer.
    pub fn status(&self) -> (s: u16)
        ensures
            s == (match self {
                ProjectViewError::ProjectNotFound => 404u16,
                ProjectViewError::AccessDenied => 403u16,
            }),
    {
        match self {
            ProjectViewError::ProjectNotFound => 404,
            ProjectViewError::AccessDenied => 403,
        }
    }

    /// The message shown to the client.
    pub fn message(&self) -> (m: &'static str)
        ensures
            m@ == (match self {
                ProjectViewError::ProjectNotFound => "Project not found"@,
                ProjectViewError::AccessDenied => "Access denied - you are not assigned to this project"@,
            }),
    {
        match self {
            ProjectViewError::ProjectNotFound => "Project not found",
            ProjectViewError::AccessDenied => "Access denied - you are not assigned to this project",
        }
    }
}

/// Whether a project's page may be shown: the project must exist first, then
/// a coordinator must be assigned to it (`is_assigned`, looked up for
/// coordinators of an existing project only).
pub fn check_project_view(project_found: bool, role: AdminRole, is_assigned: bool) -> (r: Result<
    (),
    ProjectViewError,
>)
    ensures
        r == (if !project_found {
            Err::<(), ProjectViewError>(ProjectViewError::ProjectNotFound)
        } else if role == AdminRole::Coordinator && !is_assigned {
            Err::<(), ProjectViewError>(ProjectViewError::AccessDenied)
        } else {
            Ok::<(), ProjectViewError>(())
        }),
{
    if !project_found {
        return Err(ProjectViewError::ProjectNotFound);
    }
    match check_project_access(role, is_assigned) {
        Ok(()) => Ok(()),
        Err(_) => Err(ProjectViewError::AccessDenied),
    }
}

// ── Assignment rows and answers ──────────────────────────────────────────
/// The assignments once `admin_id` is assigned to `project_id`.
pub open spec fn after_assignment(rows: Seq<CoordinatorAssignment>, admin_id: i32, project_id: i32) -> Seq<
    CoordinatorAssignment,
> {
    rows.push(CoordinatorAssignment { admin_id, project_id })
}

/// The row is not the assignment of `admin_id` to `project_id`.
pub open spec fn other_assignment(admin_id: i32, project_id: i32) -> spec_fn(CoordinatorAssignment) -> bool {
    |a: CoordinatorAssignment| !(a.admin_id == admin_id && a.project_id == project_id)
}

/// `admin_id` is assigned to `project_id`.
pub open spec fn is_assigned_in(rows: Seq<CoordinatorAssignment>, admin_id: i32, project_id: i32) -> bool {
    exists|k: int| 0 <= k < rows.len() && #[trigger] rows[k] == CoordinatorAssignment { admin_id, project_id }
}

/// The assignments once an assignment is added.
pub fn assign_row(rows: &Vec<CoordinatorAssignment>, admin_id: i32, project_id: i32) -> (out: Vec<
    CoordinatorAssignment,
>)
    ensures
        out@ == after_assignment(rows@, admin_id, project_id),
{
    let mut out = rows.clone();
    out.push(CoordinatorAssignment { admin_id, project_id });
    out
}

/// The assignments once the assignment of `admin_id` to `project_id` is removed.
pub fn remove_assignment_rows(rows: &Vec<CoordinatorAssignment>, admin_id: i32, project_id: i32) -> (out:
    Vec<CoordinatorAssignment>)
    ensures
        out@ == rows@.filter(other_assignment(admin_id, project_id)),
{
    let ghost pred = other_assignment(admin_id, project_id);
    let mut out: Vec<CoordinatorAssignment> = Vec::new();
    let mut i: usize = 0;
    while i < rows.len()
        invariant
            i <= rows.len(),
            pred == other_assignment(admin_id, project_id),
            out@ == rows@.take(i as int).filter(pred),
        decreases rows.len() - i,
    {
        assert(rows@.take(i + 1).drop_last() =~= rows@.take(i as int));
        assert(rows@.take(i + 1).last() == rows@[i as int]);
        let keep = !(rows[i].admin_id == admin_id && rows[i].project_id == project_id);
        if keep {
            out.push(rows[i]);
        }
        proof {
            reveal_with_fuel(Seq::<_>::filter, 1);
            assert(pred(rows@[i as int]) == keep);
        }
        i = i + 1;
    }
    assert(rows@.take(i as int) =~= rows@);
    out
}

proof fn lemma_no_coordinator(rows: Seq<CoordinatorAssignment>, p: i32)
    requires
        coordinators_of(rows, p) == 0,
    ensures
        forall|k: int| 0 <= k < rows.len() ==> #[trigger] rows[k].project_id != p,
    decreases rows.len(),
{
    if rows.len() > 0 {
        lemma_no_coordinator(rows.drop_last(), p);
        assert forall|k: int| 0 <= k < rows.len() implies #[trigger] rows[k].project_id != p by {
            if k < rows.len() - 1 {
                assert(rows[k] == rows.drop_last()[k]);
            }
        }
    }
}

proof fn lemma_filter_keeps_all(rows: Seq<CoordinatorAssignment>, admin_id: i32, p: i32)
    requires
        forall|k: int| 0 <= k < rows.len() ==> #[trigger] rows[k].project_id != p,
    ensures
        rows.filter(other_assignment(admin_id, p)) == rows,
    decreases rows.len(),
{
    reveal_with_fuel(Seq::<_>::filter, 1);
    if rows.len() > 0 {
        assert forall|k: int| 0 <= k < rows.drop_last().len() implies #[trigger] rows.drop_last()[k].project_id
            != p by {
            assert(rows.drop_last()[k] == rows[k]);
        }
        lemma_filter_keeps_all(rows.drop_last(), admin_id, p);
        assert(rows[rows.len() - 1].project_id != p);
        assert(rows.drop_last().push(rows.last()) =~= rows);
    }
}

/// Law: assigning a coordinator to a project that has none and then removing
/// that assignment gives back the assignments as they were; between the two the
/// coordinator is assigned, and after the removal it is not, so a second
/// removal is refused ("Coordinator not assigned to this project").
pub proof fn assign_then_remove_restores(rows: Seq<CoordinatorAssignment>, admin_id: i32, project_id: i32)
    requires
        coordinators_of(rows, project_id) == 0,
    ensures
        is_assigned_in(after_assignment(rows, admin_id, project_id), admin_id, project_id),
        after_assignment(rows, admin_id, project_id).filter(other_assignment(admin_id, project_id)) == rows,
        !is_assigned_in(rows, admin_id, project_id),
{
    let a = CoordinatorAssignment { admin_id, project_id };
    let after = after_assignment(rows, admin_id, project_id);
    assert(after[rows.len() as int] == a);
    lemma_no_coordinator(rows, project_id);
    lemma_filter_keeps_all(rows, admin_id, project_id);
    reveal_with_fuel(Seq::<_>::filter, 1);
    assert(after.drop_last() =~= rows);
    assert(!other_assignment(admin_id, project_id)(after.last()));
}

/// The answer to an accepted assignment.
pub struct AssignmentAnswer {
    pub message: String,
    pub coordinator_project_id: i32,
    pub admin_id: i32,
    pub coordinator_name: String,
    pub coordinator_email: String,
    pub project_id: i32,
    pub project_name: String,
}

/// Builds the answer to an accepted assignment: the stored assignment's id, the
/// coordinator by id, "first last" and e-mail, and the project by id and name.
pub fn assignment_answer(
    coordinator_project_id: i32,
    admin_id: i32,
    first_name: &str,
    last_name: &str,
    email: &str,
    project_id: i32,
    project_name: &str,
) -> (r: AssignmentAnswer)
    ensures
        r.message@ == "Coordinator assigned to project successfully"@,
        r.coordinator_project_id == coordinator_project_id,
        r.admin_id == admin_id,
        r.coordinator_name@ == spec_full_name(first_name@, last_name@),
        r.coordinator_email@ == email@,
        r.project_id == project_id,
        r.project_name@ == project_name@,
{
    AssignmentAnswer {
        message: String::from_str("Coordinator assigned to project successfully"),
        coordinator_project_id,
        admin_id,
        coordinator_name: full_name(first_name, last_name),
        coordinator_email: String::from_str(email),
        project_id,
        project_name: String::from_str(project_name),
    }
}

/// The message answering an accepted removal.
pub fn removal_message() -> (m: &'static str)
    ensures
        m@ == "Coordinator removed from project successfully"@,
{
    "Coordinator removed from project successfully"
}

} // verus!
