use vstd::prelude::*;

use crate::clock::{current_instant, is_before, spec_before, Instant};
use crate::text::{decimal, with_number};

verus! {

/// The leader of a group as the project's group list shows it.
pub struct GroupLeaderInfo {
    pub student_id: i32,
    pub name: String,
    pub email: String,
}

/// The leader shown for a group: the first leader row whose student was found,
/// or a placeholder when there is none.
pub fn leader_or_placeholder(found: Option<GroupLeaderInfo>) -> (r: GroupLeaderInfo)
    ensures
        match found {
            Some(l) => r == l,
            None => r.student_id == 0 && r.name@ == "Unknown"@ && r.email@
                == "unknown@example.com"@,
        },
{
    match found {
        Some(l) => l,
        None => GroupLeaderInfo {
            student_id: 0,
            name: String::from_str("Unknown"),
            email: String::from_str("unknown@example.com"),
        },
    }
}

/// The deliverable a group chose, by id and name.
pub struct DeliverableInfo {
    pub group_deliverable_id: i32,
    pub name: String,
}

/// The deliverable shown for a group: none without a selection; with one, the
/// deliverable's name, or "Unknown Deliverable <id>" when it is gone.
pub fn selected_deliverable(selection: Option<i32>, name: Option<String>) -> (r: Option<
    DeliverableInfo,
>)
    ensures
        match selection {
            None => r is None,
            Some(id) => r matches Some(d) && d.group_deliverable_id == id && d.name@ == match name {
                Some(n) => n@,
                None => "Unknown Deliverable "@ + decimal(id as int),
            },
        },
{
    match selection {
        None => None,
        Some(id) => {
            let n = match name {
                Some(n) => n,
                None => with_number("Unknown Deliverable ", id),
            };
            Some(DeliverableInfo { group_deliverable_id: id, name: n })
        },
    }
}

/// A group missed the deliverable deadline: the project has one, it has passed,
/// and the group chose no deliverable.
pub open spec fn spec_time_expired(deadline: Option<Instant>, has_selection: bool, now: Instant) -> bool {
    match deadline {
        Some(d) => !has_selection && spec_before(d, now),
        None => false,
    }
}

/// Whether a group missed the deliverable deadline at time `now`.
pub fn time_expired(deadline: &Option<Instant>, has_selection: bool, now: &Instant) -> (r: bool)
    ensures
        r == spec_time_expired(*deadline, has_selection, *now),
{
    match deadline {
        Some(d) => !has_selection && is_before(d, now),
        None => false,
    }
}

/// Whether a group missed the deliverable deadline, by the clock; gives the time read.
pub fn time_expired_now(deadline: &Option<Instant>, has_selection: bool) -> (r: (Instant, bool))
    ensures
        r.1 == spec_time_expired(*deadline, has_selection, r.0),
{
    let now = current_instant();
    let expired = time_expired(deadline, has_selection, &now);
    (now, expired)
}

/// The name of a component in a group's selection details: its name, or
/// "Unknown Component <id>" when the component is gone.
pub fn component_name_or_unknown(name: Option<String>, component_id: i32) -> (r: String)
    ensures
        r@ == match name {
            Some(n) => n@,
            None => "Unknown Component "@ + decimal(component_id as int),
        },
{
    match name {
        Some(n) => n,
        None => with_number("Unknown Component ", component_id),
    }
}

/// The name of a component on the oral-exam page: its name, or "Component <id>".
pub fn component_name_or_number(name: Option<String>, component_id: i32) -> (r: String)
    ensures
        r@ == match name {
            Some(n) => n@,
            None => "Component "@ + decimal(component_id as int),
        },
{
    match name {
        Some(n) => n,
        None => with_number("Component ", component_id),
    }
}

/// The name of another group on the oral-exam page: its name, or "Group <id>".
pub fn group_name_or_number(name: Option<String>, group_id: i32) -> (r: String)
    ensures
        r@ == match name {
            Some(n) => n@,
            None => "Group "@ + decimal(group_id as int),
        },
{
    match name {
        Some(n) => n,
        None => with_number("Group ", group_id),
    }
}

/// Whether a student's oral exam is completed, and when: completed exactly when
/// a completion is recorded.
pub fn completion_fields(completed_at: Option<Instant>) -> (r: (bool, Option<Instant>))
    ensures
        r.0 == completed_at is Some,
        r.1 == completed_at,
{
    match completed_at {
        Some(t) => (true, Some(t)),
        None => (false, None),
    }
}

// ── Looking up groups and projects ───────────────────────────────────────
/// Why a page about a group or a project cannot be shown.
#[derive(Clone, Copy, Debug, PartialEq, Eq, Structural)]
pub enum GroupLookupError {
    /// 404
    GroupNotFound,
    /// 404
    ProjectNotFound,
}

impl GroupLookupError {
    /// The HTTP status of the answer: 404.
    pub fn status(&self) -> (s: u16)
        ensures
            s == 404,
    {
        404
    }

    /// The message shown to the client.
    pub fn message(&self) -> (m: &'static str)
        ensures
            m@ == (match self {
                GroupLookupError::GroupNotFound => "Group not found"@,
                GroupLookupError::ProjectNotFound => "Project not found"@,
            }),
    {
        match self {
            GroupLookupError::GroupNotFound => "Group not found",
            GroupLookupError::ProjectNotFound => "Project not found",
        }
    }
}

/// A page of a project (its groups, their deliverable selections): the project
/// must exist.
pub fn require_project(found: bool) -> (r: Result<(), GroupLookupError>)
    ensures
        r == (if found {
            Ok::<(), GroupLookupError>(())
        } else {
            Err::<(), GroupLookupError>(GroupLookupError::ProjectNotFound)
        }),
{
    if found {
        Ok(())
    } else {
        Err(GroupLookupError::ProjectNotFound)
    }
}

/// A page of a group (its complaints): the group must exist.
pub fn require_group(found: bool) -> (r: Result<(), GroupLookupError>)
    ensures
        r == (if found {
            Ok::<(), GroupLookupError>(())
        } else {
            Err::<(), GroupLookupError>(GroupLookupError::GroupNotFound)
        }),
{
    if found {
        Ok(())
    } else {
        Err(GroupLookupError::GroupNotFound)
    }
}

/// The detail page of a group: the group must exist, then its project
/// (`project_found` is looked up only for an existing group).
pub fn check_group_details(group_found: bool, project_found: bool) -> (r: Result<(), GroupLookupError>)
    ensures
        r == (if !group_found {
            Err::<(), GroupLookupError>(GroupLookupError::GroupNotFound)
        } else if !project_found {
            Err::<(), GroupLookupError>(GroupLookupError::ProjectNotFound)
        } else {
            Ok::<(), GroupLookupError>(())
        }),
{
    if !group_found {
        Err(GroupLookupError::GroupNotFound)
    } else if !project_found {
        Err(GroupLookupError::ProjectNotFound)
    } else {
        Ok(())
    }
}

/// The oral-exam page of a group of project `project_id`: the project must
/// exist, then the group (`group_project` is its project, `None` when there is
/// no such group), which must belong to that project.
pub fn check_oral_exam_group(project_found: bool, group_project: Option<i32>, project_id: i32) -> (r:
    Result<(), GroupLookupError>)
    ensures
        r == (if !project_found {
            Err::<(), GroupLookupError>(GroupLookupError::ProjectNotFound)
        } else if group_project != Some(project_id) {
            Err::<(), GroupLookupError>(GroupLookupError::GroupNotFound)
        } else {
            Ok::<(), GroupLookupError>(())
        }),
{
    if !project_found {
        return Err(GroupLookupError::ProjectNotFound);
    }
    match group_project {
        Some(p) => if p == project_id {
            Ok(())
        } else {
            Err(GroupLookupError::GroupNotFound)
        },
        None => Err(GroupLookupError::GroupNotFound),
    }
}

} // verus!
