use vstd::prelude::*;

use crate::clock::{current_instant, Instant};

verus! {

/// A banned student, kept by university id.
pub struct BlacklistEntry {
    pub blacklist_id: i32,
    pub university_id: i32,
    pub description: String,
    pub first_name: String,
    pub last_name: String,
    pub banned_at: Instant,
}

/// What banning needs of the student to ban.
pub struct BannedStudent {
    pub university_id: i32,
    pub first_name: String,
    pub last_name: String,
}

/// Why a blacklist request is refused.
#[derive(Clone, Copy, Debug, PartialEq, Eq, Structural)]
pub enum BlacklistError {
    /// 400
    InvalidStudentId,
    /// 404
    StudentNotFound,
    /// 409
    AlreadyBlacklisted,
    /// 400: an update must change something.
    NothingToUpdate,
    /// 404
    EntryNotFound,
}

impl BlacklistError {
    /// The HTTP status of the answer.
    pub fn status(&self) -> (s: u16)
        ensures
            s == (match self {
                BlacklistError::InvalidStudentId => 400u16,
                BlacklistError::StudentNotFound => 404u16,
                BlacklistError::AlreadyBlacklisted => 409u16,
                BlacklistError::NothingToUpdate => 400u16,
                BlacklistError::EntryNotFound => 404u16,
            }),
    {
        match self {
            BlacklistError::InvalidStudentId => 400,
            BlacklistError::StudentNotFound => 404,
            BlacklistError::AlreadyBlacklisted => 409,
            BlacklistError::NothingToUpdate => 400,
            BlacklistError::EntryNotFound => 404,
        }
    }

    /// The message shown to the client.
    pub fn message(&self) -> (m: &'static str)
        ensures
            m@ == (match self {
                BlacklistError::InvalidStudentId => "student_id must be greater than 0"@,
                BlacklistError::StudentNotFound => "Student not found"@,
                BlacklistError::AlreadyBlacklisted => "Student already blacklisted"@,
                BlacklistError::NothingToUpdate => "At least one field must be provided"@,
                BlacklistError::EntryNotFound => "Blacklist entry not found"@,
            }),
    {
        match self {
            BlacklistError::InvalidStudentId => "student_id must be greater than 0",
            BlacklistError::StudentNotFound => "Student not found",
            BlacklistError::AlreadyBlacklisted => "Student already blacklisted",
            BlacklistError::NothingToUpdate => "At least one field must be provided",
            BlacklistError::EntryNotFound => "Blacklist entry not found",
        }
    }
}

/// The entry a ban makes: the student's university id and names, the given
/// description or an empty one, the time of the ban.
pub open spec fn banned_entry(
    e: BlacklistEntry,
    s: BannedStudent,
    description: Option<String>,
    banned_at: Instant,
) -> bool {
    &&& e.blacklist_id == 0
    &&& e.university_id == s.university_id
    &&& e.first_name == s.first_name
    &&& e.last_name == s.last_name
    &&& e.banned_at == banned_at
    &&& match description {
        Some(d) => e.description == d,
        None => e.description@ == Seq::<char>::empty(),
    }
}

/// Decides a ban. The student is looked up by id (`None` when there is none)
/// and `already_banned` says whether the blacklist has their university id; the
/// entry keeps the student's university id and names, the description (empty
/// when none is given) and the time of the ban.
pub fn ban_student(
    student_id: i32,
    student: Option<BannedStudent>,
    already_banned: bool,
    description: Option<String>,
    banned_at: Instant,
) -> (r: Result<BlacklistEntry, BlacklistError>)
    ensures
        student_id <= 0 ==> r == Err::<BlacklistEntry, BlacklistError>(
            BlacklistError::InvalidStudentId,
        ),
        student_id > 0 && student is None ==> r == Err::<BlacklistEntry, BlacklistError>(
            BlacklistError::StudentNotFound,
        ),
        student_id > 0 && student is Some && already_banned ==> r == Err::<
            BlacklistEntry,
            BlacklistError,
        >(BlacklistError::AlreadyBlacklisted),
        student_id > 0 && student is Some && !already_banned ==> (r is Ok && banned_entry(
            r->Ok_0,
            student->0,
            description,
            banned_at,
        )),
{
    if student_id <= 0 {
        return Err(BlacklistError::InvalidStudentId);
    }
    let s = match student {
        None => { return Err(BlacklistError::StudentNotFound) },
        Some(s) => s,
    };
    if already_banned {
        return Err(BlacklistError::AlreadyBlacklisted);
    }
    let description = match description {
        Some(d) => d,
        None => String::new(),
    };
    Ok(
        BlacklistEntry {
            blacklist_id: 0,
            university_id: s.university_id,
            description,
            first_name: s.first_name,
            last_name: s.last_name,
            banned_at,
        },
    )
}

/// Decides a ban stamped with the current time; gives the time read.
pub fn ban_student_now(
    student_id: i32,
    student: Option<BannedStudent>,
    already_banned: bool,
    description: Option<String>,
) -> (r: Result<BlacklistEntry, BlacklistError>)
    ensures
        student_id <= 0 ==> r == Err::<BlacklistEntry, BlacklistError>(
            BlacklistError::InvalidStudentId,
        ),
        student_id > 0 && student is None ==> r == Err::<BlacklistEntry, BlacklistError>(
            BlacklistError::StudentNotFound,
        ),
        student_id > 0 && student is Some && already_banned ==> r == Err::<
            BlacklistEntry,
            BlacklistError,
        >(BlacklistError::AlreadyBlacklisted),
        student_id > 0 && student is Some && !already_banned ==> (r is Ok && banned_entry(
            r->Ok_0,
            student->0,
            description,
            r->Ok_0.banned_at,
        )),
{
    ban_student(student_id, student, already_banned, description, current_instant())
}

/// An update of a blacklist entry must give at least one field.
pub fn check_blacklist_update(
    description: &Option<String>,
    first_name: &Option<String>,
    last_name: &Option<String>,
) -> (r: Result<(), BlacklistError>)
    ensures
        r == (if description is None && first_name is None && last_name is None {
            Err::<(), BlacklistError>(BlacklistError::NothingToUpdate)
        } else {
            Ok::<(), BlacklistError>(())
        }),
{
    if description.is_none() && first_name.is_none() && last_name.is_none() {
        Err(BlacklistError::NothingToUpdate)
    } else {
        Ok(())
    }
}

/// An entry to update or delete must exist (`found`).
pub fn require_entry(found: bool) -> (r: Result<(), BlacklistError>)
    ensures
        r == (if found {
            Ok::<(), BlacklistError>(())
        } else {
            Err::<(), BlacklistError>(BlacklistError::EntryNotFound)
        }),
{
    if found {
        Ok(())
    } else {
        Err(BlacklistError::EntryNotFound)
    }
}

} // verus!
