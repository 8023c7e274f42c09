use vstd::prelude::*;

use crate::clock::Instant;
use chrono::Datelike;

verus! {

/// A project of the course, with the limits its groups and students work under.
pub struct Project {
    pub project_id: i32,
    pub name: String,
    pub year: i32,
    pub max_student_uploads: i32,
    pub max_group_size: i32,
    pub max_groups: i32,
    pub deliverable_selection_deadline: Option<Instant>,
    pub active: bool,
    pub oral_exam_enabled: bool,
}

/// A request to create a project.
pub struct CreateProjectScheme {
    pub name: String,
    pub max_student_uploads: i32,
    pub max_group_size: i32,
    pub max_groups: i32,
    pub deliverable_selection_deadline: Option<Instant>,
    pub active: bool,
}

/// Why a project request is refused.
#[derive(Clone, Copy, Debug, PartialEq, Eq, Structural)]
pub enum ProjectError {
    /// 400
    NameMissing,
    /// 400
    MaxStudentUploadsTooLow,
    /// 400
    MaxGroupSizeTooLow,
    /// 400
    MaxGroupsTooLow,
    /// 404
    NotFound,
}

impl ProjectError {
    /// The HTTP status of the answer.
    pub fn status(&self) -> (s: u16)
        ensures
            s == (match self {
                ProjectError::NotFound => 404u16,
                _ => 400u16,
            }),
    {
        match self {
            ProjectError::NotFound => 404,
            _ => 400,
        }
    }

    /// The message shown to the client.
    pub fn message(&self) -> (m: &'static str)
        ensures
            m@ == (match self {
                ProjectError::NameMissing => "Name field is mandatory"@,
                ProjectError::MaxStudentUploadsTooLow => "Max student uploads must be greater than 0"@,
                ProjectError::MaxGroupSizeTooLow => "Max group size must be greater than 1"@,
                ProjectError::MaxGroupsTooLow => "Max groups must be greater than 0"@,
                ProjectError::NotFound => "Project not found"@,
            }),
    {
        match self {
            ProjectError::NameMissing => "Name field is mandatory",
            ProjectError::MaxStudentUploadsTooLow => "Max student uploads must be greater than 0",
            ProjectError::MaxGroupSizeTooLow => "Max group size must be greater than 1",
            ProjectError::MaxGroupsTooLow => "Max groups must be greater than 0",
            ProjectError::NotFound => "Project not found",
        }
    }
}

/// The verdict on a request to create a project.
pub open spec fn create_project_verdict(req: CreateProjectScheme) -> Result<(), ProjectError> {
    if req.name@.len() == 0 {
        Err(ProjectError::NameMissing)
    } else if req.max_student_uploads < 1 {
        Err(ProjectError::MaxStudentUploadsTooLow)
    } else if req.max_group_size < 2 {
        Err(ProjectError::MaxGroupSizeTooLow)
    } else if req.max_groups < 1 {
        Err(ProjectError::MaxGroupsTooLow)
    } else {
        Ok(())
    }
}

/// The project a valid request creates in the given year (its id is given by the
/// database; oral exams start disabled).
pub open spec fn spec_new_project(req: CreateProjectScheme, year: i32) -> Project {
    Project {
        project_id: 0,
        name: req.name,
        year,
        max_student_uploads: req.max_student_uploads,
        max_group_size: req.max_group_size,
        max_groups: req.max_groups,
        deliverable_selection_deadline: req.deliverable_selection_deadline,
        active: req.active,
        oral_exam_enabled: false,
    }
}

/// Checks a request to create a project.
pub fn check_project_request(req: &CreateProjectScheme) -> (r: Result<(), ProjectError>)
    ensures
        r == create_project_verdict(*req),
{
    if req.name.as_str().is_empty() {
        Err(ProjectError::NameMissing)
    } else if req.max_student_uploads < 1 {
        Err(ProjectError::MaxStudentUploadsTooLow)
    } else if req.max_group_size < 2 {
        Err(ProjectError::MaxGroupSizeTooLow)
    } else if req.max_groups < 1 {
        Err(ProjectError::MaxGroupsTooLow)
    } else {
        Ok(())
    }
}

fn new_project(req: CreateProjectScheme, year: i32) -> (p: Project)
    ensures
        p == spec_new_project(req, year),
{
    Project {
        project_id: 0,
        name: req.name,
        year,
        max_student_uploads: req.max_student_uploads,
        max_group_size: req.max_group_size,
        max_groups: req.max_groups,
        deliverable_selection_deadline: req.deliverable_selection_deadline,
        active: req.active,
        oral_exam_enabled: false,
    }
}

/// Decides a request to create a project, stamped with the given year.
pub fn create_project_in_year(req: CreateProjectScheme, year: i32) -> (r: Result<Project, ProjectError>)
    ensures
        match create_project_verdict(req) {
            Err(e) => r == Err::<Project, ProjectError>(e),
            Ok(_) => r == Ok::<Project, ProjectError>(spec_new_project(req, year)),
        },
{
    match check_project_request(&req) {
        Err(e) => Err(e),
        Ok(()) => Ok(new_project(req, year)),
    }
}

/// Reads the current year on the machine's local clock with chrono's
/// `Local::now().year()`. Trusted; which year comes back is left open.
#[verifier::external_body]
fn current_local_year() -> (y: i32) {
    chrono::Local::now().year()
}

/// Decides a request to create a project, stamped with the current local year.
pub fn create_project(req: CreateProjectScheme) -> (r: Result<Project, ProjectError>)
    ensures
        match create_project_verdict(req) {
            Err(e) => r == Err::<Project, ProjectError>(e),
            Ok(_) => r matches Ok(p) && p == spec_new_project(req, p.year),
        },
{
    match check_project_request(&req) {
        Err(e) => Err(e),
        Ok(()) => Ok(new_project(req, current_local_year())),
    }
}

/// The settings of a project that an update may change.
#[derive(Debug, PartialEq, Eq)]
pub struct ProjectSettings {
    pub name: String,
    pub max_student_uploads: i32,
    pub max_group_size: i32,
    pub active: bool,
}

/// A partial update of a project: each field given replaces the stored one.
#[derive(Debug, PartialEq, Eq)]
pub struct UpdateProjectScheme {
    pub name: Option<String>,
    pub max_student_uploads: Option<i32>,
    pub max_group_size: Option<i32>,
    pub active: Option<bool>,
}

/// The settings after an update.
pub open spec fn spec_updated(s: ProjectSettings, u: UpdateProjectScheme) -> ProjectSettings {
    ProjectSettings {
        name: match u.name {
            Some(n) => n,
            None => s.name,
        },
        max_student_uploads: match u.max_student_uploads {
            Some(v) => v,
            None => s.max_student_uploads,
        },
        max_group_size: match u.max_group_size {
            Some(v) => v,
            None => s.max_group_size,
        },
        active: match u.active {
            Some(v) => v,
            None => s.active,
        },
    }
}

impl UpdateProjectScheme {
    /// Applies the update to the stored settings of a project (`None` when the
    /// project does not exist).
    pub fn apply_to(self, stored: Option<ProjectSettings>) -> (r: Result<ProjectSettings, ProjectError>)
        ensures
            match stored {
                None => r == Err::<ProjectSettings, ProjectError>(ProjectError::NotFound),
                Some(s) => r == Ok::<ProjectSettings, ProjectError>(spec_updated(s, self)),
            },
    {
        let s = match stored {
            None => { return Err(ProjectError::NotFound) },
            Some(s) => s,
        };
        let UpdateProjectScheme { name, max_student_uploads, max_group_size, active } = self;
        Ok(
            ProjectSettings {
                name: match name {
                    Some(n) => n,
                    None => s.name,
                },
                max_student_uploads: match max_student_uploads {
                    Some(v) => v,
                    None => s.max_student_uploads,
                },
                max_group_size: match max_group_size {
                    Some(v) => v,
                    None => s.max_group_size,
                },
                active: match active {
                    Some(v) => v,
                    None => s.active,
                },
            },
        )
    }
}

/// Law: an update sets each field it gives to the given value and leaves each
/// field it does not give as stored.
pub proof fn update_sets_given_fields(s: ProjectSettings, u: UpdateProjectScheme)
    ensures
        match u.name {
            Some(n) => spec_updated(s, u).name == n,
            None => spec_updated(s, u).name == s.name,
        },
        match u.max_student_uploads {
            Some(v) => spec_updated(s, u).max_student_uploads == v,
            None => spec_updated(s, u).max_student_uploads == s.max_student_uploads,
        },
        match u.max_group_size {
            Some(v) => spec_updated(s, u).max_group_size == v,
            None => spec_updated(s, u).max_group_size == s.max_group_size,
        },
        match u.active {
            Some(v) => spec_updated(s, u).active == v,
            None => spec_updated(s, u).active == s.active,
        },
{
}

/// Law: applying the same update a second time changes nothing more.
pub proof fn project_update_is_idempotent(s: ProjectSettings, u: UpdateProjectScheme)
    ensures
        spec_updated(spec_updated(s, u), u) == spec_updated(s, u),
{
}

/// Law: an update that gives no field leaves the settings as they were.
pub proof fn empty_project_update_changes_nothing(s: ProjectSettings)
    ensures
        spec_updated(
            s,
            UpdateProjectScheme {
                name: None,
                max_student_uploads: None,
                max_group_size: None,
                active: None,
            },
        ) == s,
{
}

/// The answer to deleting a project: `deleted` says whether a row went away.
pub fn delete_project_verdict(deleted: bool) -> (r: Result<(), ProjectError>)
    ensures
        r == (if deleted {
            Ok::<(), ProjectError>(())
        } else {
            Err::<(), ProjectError>(ProjectError::NotFound)
        }),
{
    if deleted {
        Ok(())
    } else {
        Err(ProjectError::NotFound)
    }
}

} // verus!
