use vstd::prelude::*;

use crate::clock::{is_before, spec_before, Instant};

verus! {

/// A component fair of a project.
pub struct Fair {
    pub fair_id: i32,
    pub project_id: i32,
    pub details: String,
    pub start_date: Instant,
    pub end_date: Instant,
    pub min_purchases: i32,
}

/// A fair as every accepted request leaves it: details given, the end after the
/// start, at least one purchase required.
pub open spec fn valid_fair(f: Fair) -> bool {
    f.details@.len() > 0 && spec_before(f.start_date, f.end_date) && f.min_purchases >= 1
}

/// A request to create a fair.
pub struct CreateFairRequest {
    pub project_id: i32,
    pub details: String,
    pub start_date: Instant,
    pub end_date: Instant,
    pub min_purchases: i32,
}

/// A partial update of a fair: only the fields given change.
pub struct UpdateFairRequest {
    pub details: Option<String>,
    pub start_date: Option<Instant>,
    pub end_date: Option<Instant>,
    pub min_purchases: Option<i32>,
}

/// Why a fair request is refused.
#[derive(Clone, Copy, Debug, PartialEq, Eq, Structural)]
pub enum FairError {
    /// 400: no details in a new fair.
    DetailsMissing,
    /// 400: an update that empties the details.
    DetailsEmpty,
    /// 400
    EndNotAfterStart,
    /// 400
    MinPurchasesTooLow,
    /// 409
    AlreadyExists,
    /// 404
    NotFound,
    /// 404: the project has no fair.
    NoFairForProject,
}

impl FairError {
    /// The HTTP status of the answer.
    pub fn status(&self) -> (s: u16)
        ensures
            s == (match self {
                FairError::AlreadyExists => 409u16,
                FairError::NotFound => 404u16,
                FairError::NoFairForProject => 404u16,
                _ => 400u16,
            }),
    {
        match self {
            FairError::AlreadyExists => 409,
            FairError::NotFound => 404,
            FairError::NoFairForProject => 404,
            _ => 400,
        }
    }

    /// The message shown to the client.
    pub fn message(&self) -> (m: &'static str)
        ensures
            m@ == (match self {
                FairError::DetailsMissing => "Details field is mandatory"@,
                FairError::DetailsEmpty => "Details cannot be empty"@,
                FairError::EndNotAfterStart => "end_date must be after start_date"@,
                FairError::MinPurchasesTooLow => "min_purchases must be at least 1"@,
                FairError::AlreadyExists => "A fair already exists for this project. Use the update endpoint to modify it."@,
                FairError::NotFound => "Fair not found"@,
                FairError::NoFairForProject => "No fair found for this project"@,
            }),
    {
        match self {
            FairError::DetailsMissing => "Details field is mandatory",
            FairError::DetailsEmpty => "Details cannot be empty",
            FairError::EndNotAfterStart => "end_date must be after start_date",
            FairError::MinPurchasesTooLow => "min_purchases must be at least 1",
            FairError::AlreadyExists => "A fair already exists for this project. Use the update endpoint to modify it.",
            FairError::NotFound => "Fair not found",
            FairError::NoFairForProject => "No fair found for this project",
        }
    }
}

/// The verdict on a request to create a fair; `fair_exists` says whether the
/// project already has one (looked up only for a well-formed request).
pub open spec fn create_fair_verdict(req: CreateFairRequest, fair_exists: bool) -> Result<(), FairError> {
    if req.details@.len() == 0 {
        Err(FairError::DetailsMissing)
    } else if !spec_before(req.start_date, req.end_date) {
        Err(FairError::EndNotAfterStart)
    } else if req.min_purchases < 1 {
        Err(FairError::MinPurchasesTooLow)
    } else if fair_exists {
        Err(FairError::AlreadyExists)
    } else {
        Ok(())
    }
}

/// Decides a request to create a fair, and gives the fair to store (its id is
/// given by the database).
pub fn create_fair(req: CreateFairRequest, fair_exists: bool) -> (r: Result<Fair, FairError>)
    ensures
        match create_fair_verdict(req, fair_exists) {
            Err(e) => r == Err::<Fair, FairError>(e),
            Ok(_) => r matches Ok(f) && f == (Fair {
                fair_id: 0,
                project_id: req.project_id,
                details: req.details,
                start_date: req.start_date,
                end_date: req.end_date,
                min_purchases: req.min_purchases,
            }),
        },
{
    if req.details.as_str().is_empty() {
        return Err(FairError::DetailsMissing);
    }
    if !is_before(&req.start_date, &req.end_date) {
        return Err(FairError::EndNotAfterStart);
    }
    if req.min_purchases < 1 {
        return Err(FairError::MinPurchasesTooLow);
    }
    if fair_exists {
        return Err(FairError::AlreadyExists);
    }
    Ok(
        Fair {
            fair_id: 0,
            project_id: req.project_id,
            details: req.details,
            start_date: req.start_date,
            end_date: req.end_date,
            min_purchases: req.min_purchases,
        },
    )
}

/// The fair with the given fields of the update put in.
pub open spec fn patched_fair(f: Fair, u: UpdateFairRequest) -> Fair {
    Fair {
        fair_id: f.fair_id,
        project_id: f.project_id,
        details: match u.details {
            Some(d) => d,
            None => f.details,
        },
        start_date: match u.start_date {
            Some(d) => d,
            None => f.start_date,
        },
        end_date: match u.end_date {
            Some(d) => d,
            None => f.end_date,
        },
        min_purchases: match u.min_purchases {
            Some(m) => m,
            None => f.min_purchases,
        },
    }
}

/// The verdict on an update of a fair, checks in the order they are made.
pub open spec fn update_fair_verdict(f: Fair, u: UpdateFairRequest) -> Result<(), FairError> {
    if u.details matches Some(d) && d@.len() == 0 {
        Err(FairError::DetailsEmpty)
    } else if u.min_purchases matches Some(m) && m < 1 {
        Err(FairError::MinPurchasesTooLow)
    } else if !spec_before(patched_fair(f, u).start_date, patched_fair(f, u).end_date) {
        Err(FairError::EndNotAfterStart)
    } else {
        Ok(())
    }
}

/// Applies a partial update to a stored fair (`None` when the fair does not
/// exist), and gives the fair to store.
pub fn update_fair(stored: Option<Fair>, u: UpdateFairRequest) -> (r: Result<Fair, FairError>)
    ensures
        match stored {
            None => r == Err::<Fair, FairError>(FairError::NotFound),
            Some(f) => match update_fair_verdict(f, u) {
                Err(e) => r == Err::<Fair, FairError>(e),
                Ok(_) => r == Ok::<Fair, FairError>(patched_fair(f, u)),
            },
        },
{
    let mut f = match stored {
        None => { return Err(FairError::NotFound) },
        Some(f) => f,
    };
    let ghost f0 = f;
    let ghost u0 = u;
    let UpdateFairRequest { details, start_date, end_date, min_purchases } = u;
    if let Some(d) = details {
        if d.as_str().is_empty() {
            return Err(FairError::DetailsEmpty);
        }
        f.details = d;
    }
    if let Some(s) = start_date {
        f.start_date = s;
    }
    if let Some(e) = end_date {
        f.end_date = e;
    }
    if let Some(m) = min_purchases {
        if m < 1 {
            return Err(FairError::MinPurchasesTooLow);
        }
        f.min_purchases = m;
    }
    assert(f == patched_fair(f0, u0));
    if !is_before(&f.start_date, &f.end_date) {
        return Err(FairError::EndNotAfterStart);
    }
    Ok(f)
}

/// Law: a fair created through the API is valid.
pub proof fn created_fair_is_valid(req: CreateFairRequest, fair_exists: bool, f: Fair)
    requires
        create_fair_verdict(req, fair_exists) is Ok,
        f == (Fair {
            fair_id: 0,
            project_id: req.project_id,
            details: req.details,
            start_date: req.start_date,
            end_date: req.end_date,
            min_purchases: req.min_purchases,
        }),
    ensures
        valid_fair(f),
{
}

/// Law: an accepted update keeps a valid fair valid, and keeps its id and project.
pub proof fn update_keeps_fair_valid(f: Fair, u: UpdateFairRequest)
    requires
        valid_fair(f),
        update_fair_verdict(f, u) is Ok,
    ensures
        valid_fair(patched_fair(f, u)),
        patched_fair(f, u).fair_id == f.fair_id,
        patched_fair(f, u).project_id == f.project_id,
{
}

/// Law: an update that gives no field is accepted on a valid fair and changes nothing.
pub proof fn empty_update_changes_nothing(f: Fair)
    requires
        valid_fair(f),
    ensures
        ({
            let u = UpdateFairRequest {
                details: None,
                start_date: None,
                end_date: None,
                min_purchases: None,
            };
            update_fair_verdict(f, u) is Ok && patched_fair(f, u) == f
        }),
{
}

/// A fair looked up by id (to read, disable or report on) must exist.
pub fn require_fair(found: bool) -> (r: Result<(), FairError>)
    ensures
        r == (if found {
            Ok::<(), FairError>(())
        } else {
            Err::<(), FairError>(FairError::NotFound)
        }),
{
    if found {
        Ok(())
    } else {
        Err(FairError::NotFound)
    }
}

/// A project's fair, looked up by project, must exist.
pub fn require_project_fair(found: bool) -> (r: Result<(), FairError>)
    ensures
        r == (if found {
            Ok::<(), FairError>(())
        } else {
            Err::<(), FairError>(FairError::NoFairForProject)
        }),
{
    if found {
        Ok(())
    } else {
        Err(FairError::NoFairForProject)
    }
}

/// Whether a group met the fair's purchase requirement: its number of distinct
/// purchases (none counted as zero) reaches the minimum.
pub fn purchases_fulfilled(distinct_purchases: Option<i64>, min_purchases: i32) -> (r: bool)
    ensures
        r == (match distinct_purchases {
            Some(n) => n >= min_purchases,
            None => 0 >= min_purchases,
        }),
{
    let n: i64 = match distinct_purchases {
        Some(n) => n,
        None => 0,
    };
    n >= min_purchases as i64
}

} // verus!
