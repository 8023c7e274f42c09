use vstd::prelude::*;

use crate::access::AdminRole;
use crate::clock::{
    at_least_a_day_before, current_instant, is_before, spec_at_least_a_day_before, spec_before,
    spec_within_a_day_after, within_a_day_after,
    Instant,
};
use crate::names::{find_name, name_in, NameEntry};
use rand::Rng;

verus! {

// ── Generating codes ─────────────────────────────────────────────────────
/// The characters a security code is drawn from.
pub open spec fn code_alphabet() -> Seq<char> {
    "ABCDEFGHIJKLMNOPQRSTUVWXYZ0123456789"@
}

/// A character of the code alphabet: an upper-case letter or a digit.
pub open spec fn is_code_char(c: char) -> bool {
    ('A' <= c && c <= 'Z') || ('0' <= c && c <= '9')
}

/// The shape of every security code: three characters, a dash, three characters,
/// each of them an upper-case letter or a digit (e.g. "D3K-Z9A").
pub open spec fn well_formed_code(s: Seq<char>) -> bool {
    &&& s.len() == 7
    &&& s[3] == '-'
    &&& forall|i: int| 0 <= i < 7 && i != 3 ==> is_code_char(#[trigger] s[i])
}

/// The code spelled by six positions in the alphabet.
pub open spec fn code_from(idx: Seq<usize>) -> Seq<char> {
    let a = code_alphabet();
    seq![
        a[idx[0] as int],
        a[idx[1] as int],
        a[idx[2] as int],
        '-',
        a[idx[3] as int],
        a[idx[4] as int],
        a[idx[5] as int],
    ]
}

/// The number of characters in the code alphabet.
pub const CODE_ALPHABET_LEN: usize = 36;

/// Spells the code of six positions in the alphabet: three characters, a dash,
/// three characters.
pub fn code_from_indices(idx: &Vec<usize>) -> (r: String)
    requires
        idx.len() == 6,
        forall|k: int| 0 <= k < 6 ==> idx[k] < CODE_ALPHABET_LEN,
    ensures
        r@ == code_from(idx@),
        well_formed_code(r@),
{
    let alphabet = "ABCDEFGHIJKLMNOPQRSTUVWXYZ0123456789";
    let dash = "-";
    proof {
        reveal_strlit("ABCDEFGHIJKLMNOPQRSTUVWXYZ0123456789");
        reveal_strlit("-");
    }
    let mut r = String::new();
    let mut k: usize = 0;
    while k < 6
        invariant
            k <= 6,
            idx.len() == 6,
            forall|j: int| 0 <= j < 6 ==> idx[j] < CODE_ALPHABET_LEN,
            alphabet@ == code_alphabet(),
            code_alphabet().len() == 36,
            dash@ == seq!['-'],
            r@ == code_from(idx@).take(if k <= 3 {
                k as int
            } else {
                k + 1
            }),
        decreases 6 - k,
    {
        if k == 3 {
            r.append(dash);
            assert(code_from(idx@).take(4) =~= code_from(idx@).take(3) + seq!['-']);
        }
        let i = idx[k];
        let piece = alphabet.substring_char(i, i + 1);
        r.append(piece);
        proof {
            let n = if k < 3 {
                k as int
            } else {
                k + 1
            };
            assert(piece@ =~= seq![code_alphabet()[i as int]]);
            assert(code_from(idx@).take(n + 1) =~= code_from(idx@).take(n) + seq![
                code_alphabet()[i as int],
            ]);
        }
        k = k + 1;
    }
    assert(code_from(idx@).take(7) =~= code_from(idx@));
    proof {
        assert forall|i: int| 0 <= i < 36 implies is_code_char(#[trigger] code_alphabet()[i]) by {}
    }
    r
}

/// Draws a number below `n` with rand's thread-local generator
/// (`rand::rng().random_range(0..n)`). Trusted: rand documents the result to
/// lie in the range; which number comes is left open.
#[verifier::external_body]
fn random_index(n: usize) -> (r: usize)
    requires
        n > 0,
    ensures
        r < n,
{
    rand::rng().random_range(0..n)
}

/// A fresh random code. Whatever the generator draws, the code is well formed.
pub fn generate_random_code() -> (r: String)
    ensures
        well_formed_code(r@),
{
    let mut idx: Vec<usize> = Vec::new();
    let mut k: usize = 0;
    while k < 6
        invariant
            k <= 6,
            idx.len() == k,
            forall|j: int| 0 <= j < k ==> idx[j] < CODE_ALPHABET_LEN,
        decreases 6 - k,
    {
        idx.push(random_index(CODE_ALPHABET_LEN));
        k = k + 1;
    }
    code_from_indices(&idx)
}

/// A drawn code may become a new code when no code has it yet.
pub fn accept_new_code(code_exists: bool) -> (r: bool)
    ensures
        r == !code_exists,
{
    !code_exists
}

/// A drawn code may replace a stored one when no code has it yet, or when it is
/// the stored code itself.
pub fn accept_replacement_code(candidate: &String, current: &String, code_exists: bool) -> (r: bool)
    ensures
        r == (!code_exists || candidate@ == current@),
{
    !code_exists || *candidate == *current
}

// ── Checking requests ────────────────────────────────────────────────────
/// A stored security code.
pub struct SecurityCode {
    pub security_code_id: i32,
    pub project_id: i32,
    pub code: String,
    pub expiration: Instant,
}

/// Why a security-code request is refused.
#[derive(Clone, Copy, Debug, PartialEq, Eq, Structural)]
pub enum SecurityCodeError {
    /// 400: a new code needs a positive project id.
    ProjectIdMissing,
    /// 400: a new code must expire later than one day ago.
    CreateExpirationTooEarly,
    /// 400: a changed expiration must be more than one day from now.
    UpdateExpirationTooEarly,
    /// 404
    NotFound,
    /// 403: a coordinator acting on a project not assigned to them.
    AccessDenied,
}

impl SecurityCodeError {
    /// The HTTP status of the answer.
    pub fn status(&self) -> (s: u16)
        ensures
            s == (match self {
                SecurityCodeError::NotFound => 404u16,
                SecurityCodeError::AccessDenied => 403u16,
                _ => 400u16,
            }),
    {
        match self {
            SecurityCodeError::NotFound => 404,
            SecurityCodeError::AccessDenied => 403,
            _ => 400,
        }
    }

    /// The message shown to the client (the create message keeps its spelling).
    pub fn message(&self) -> (m: &'static str)
        ensures
            m@ == (match self {
                SecurityCodeError::ProjectIdMissing => "Project id field is mandatory"@,
                SecurityCodeError::CreateExpirationTooEarly => "Expiration must be grater than one day"@,
                SecurityCodeError::UpdateExpirationTooEarly => "Expiration must be greater than one day"@,
                SecurityCodeError::NotFound => "Security code not found"@,
                SecurityCodeError::AccessDenied => "Access denied - you are not assigned to this project"@,
            }),
    {
        match self {
            SecurityCodeError::ProjectIdMissing => "Project id field is mandatory",
            SecurityCodeError::CreateExpirationTooEarly => "Expiration must be grater than one day",
            SecurityCodeError::UpdateExpirationTooEarly => "Expiration must be greater than one day",
            SecurityCodeError::NotFound => "Security code not found",
            SecurityCodeError::AccessDenied => "Access denied - you are not assigned to this project",
        }
    }
}

/// The verdict on a request for a new code at time `now`.
pub open spec fn new_code_verdict(project_id: i32, expiration: Instant, now: Instant) -> Result<
    (),
    SecurityCodeError,
> {
    if project_id <= 0 {
        Err(SecurityCodeError::ProjectIdMissing)
    } else if spec_at_least_a_day_before(expiration, now) {
        Err(SecurityCodeError::CreateExpirationTooEarly)
    } else {
        Ok(())
    }
}

/// Checks a request for a new code at time `now`: the project id must be
/// positive, and the expiration later than one day before now.
pub fn check_new_code(project_id: i32, expiration: &Instant, now: &Instant) -> (r: Result<
    (),
    SecurityCodeError,
>)
    ensures
        r == new_code_verdict(project_id, *expiration, *now),
{
    if project_id <= 0 {
        Err(SecurityCodeError::ProjectIdMissing)
    } else if at_least_a_day_before(expiration, now) {
        Err(SecurityCodeError::CreateExpirationTooEarly)
    } else {
        Ok(())
    }
}

/// Checks a request for a new code against the clock; gives the time it read.
pub fn check_new_code_now(project_id: i32, expiration: &Instant) -> (r: (
    Instant,
    Result<(), SecurityCodeError>,
))
    ensures
        r.1 == new_code_verdict(project_id, *expiration, r.0),
{
    let now = current_instant();
    let verdict = check_new_code(project_id, expiration, &now);
    (now, verdict)
}

/// The verdict on a change of a stored code (`None` when there is no such code).
/// `is_assigned` matters for coordinators only.
pub open spec fn code_change_verdict(
    stored: Option<SecurityCode>,
    role: AdminRole,
    is_assigned: bool,
    new_expiration: Option<Instant>,
    now: Instant,
) -> Result<(), SecurityCodeError> {
    if stored is None {
        Err(SecurityCodeError::NotFound)
    } else if role == AdminRole::Coordinator && !is_assigned {
        Err(SecurityCodeError::AccessDenied)
    } else if new_expiration matches Some(e) && spec_within_a_day_after(e, now) {
        Err(SecurityCodeError::UpdateExpirationTooEarly)
    } else {
        Ok(())
    }
}

/// Checks a change of a stored code at time `now`: the code must exist, a
/// coordinator must be assigned to its project, and a new expiration must lie
/// more than one day after `now`.
pub fn check_code_change(
    stored: &Option<SecurityCode>,
    role: AdminRole,
    is_assigned: bool,
    new_expiration: &Option<Instant>,
    now: &Instant,
) -> (r: Result<(), SecurityCodeError>)
    ensures
        r == code_change_verdict(*stored, role, is_assigned, *new_expiration, *now),
{
    if stored.is_none() {
        return Err(SecurityCodeError::NotFound);
    }
    if role == AdminRole::Coordinator && !is_assigned {
        return Err(SecurityCodeError::AccessDenied);
    }
    match new_expiration {
        Some(e) => if within_a_day_after(e, now) {
            Err(SecurityCodeError::UpdateExpirationTooEarly)
        } else {
            Ok(())
        },
        None => Ok(()),
    }
}

/// Checks a change of a stored code against the clock; gives the time it read.
pub fn check_code_change_now(
    stored: &Option<SecurityCode>,
    role: AdminRole,
    is_assigned: bool,
    new_expiration: &Option<Instant>,
) -> (r: (Instant, Result<(), SecurityCodeError>))
    ensures
        r.1 == code_change_verdict(*stored, role, is_assigned, *new_expiration, r.0),
{
    let now = current_instant();
    let verdict = check_code_change(stored, role, is_assigned, new_expiration, &now);
    (now, verdict)
}

/// Checks the deletion of a stored code: it must exist, and a coordinator must
/// be assigned to its project.
pub fn check_code_deletion(stored: &Option<SecurityCode>, role: AdminRole, is_assigned: bool) -> (r:
    Result<(), SecurityCodeError>)
    ensures
        r == (if stored is None {
            Err::<(), SecurityCodeError>(SecurityCodeError::NotFound)
        } else if role == AdminRole::Coordinator && !is_assigned {
            Err::<(), SecurityCodeError>(SecurityCodeError::AccessDenied)
        } else {
            Ok::<(), SecurityCodeError>(())
        }),
{
    if stored.is_none() {
        Err(SecurityCodeError::NotFound)
    } else if role == AdminRole::Coordinator && !is_assigned {
        Err(SecurityCodeError::AccessDenied)
    } else {
        Ok(())
    }
}

/// The code after a change: a new code when one was drawn, the new expiration
/// when one was given, the rest as stored.
pub fn changed_code(stored: SecurityCode, new_code: Option<String>, new_expiration: Option<Instant>) -> (r:
    SecurityCode)
    ensures
        r.security_code_id == stored.security_code_id,
        r.project_id == stored.project_id,
        r.code == (match new_code {
            Some(c) => c,
            None => stored.code,
        }),
        r.expiration == (match new_expiration {
            Some(e) => e,
            None => stored.expiration,
        }),
{
    SecurityCode {
        security_code_id: stored.security_code_id,
        project_id: stored.project_id,
        code: match new_code {
            Some(c) => c,
            None => stored.code,
        },
        expiration: match new_expiration {
            Some(e) => e,
            None => stored.expiration,
        },
    }
}

// ── Listing codes ────────────────────────────────────────────────────────
/// A security code with the name of a project, as the code list shows it.
pub struct SecurityCodeWithNames {
    pub security_code_id: i32,
    pub code: String,
    pub expiration: Instant,
    pub project_id: i32,
    pub project_name: String,
}

/// The code has not expired at time `now`.
pub open spec fn unexpired(now: Instant, c: SecurityCode) -> bool {
    spec_before(now, c.expiration)
}

/// What the code list shows of a code: id, code, expiration, project, project name.
pub open spec fn listed_view(c: SecurityCodeWithNames) -> (i32, Seq<char>, Instant, i32, Seq<char>) {
    (c.security_code_id, c.code@, c.expiration, c.project_id, c.project_name@)
}

/// The code list at time `now`: the codes not expired, in their order, each with
/// the name of its own project (a code whose project is not in `projects` is
/// left out).
pub open spec fn code_listing(codes: Seq<SecurityCode>, projects: Seq<NameEntry>, now: Instant) -> Seq<
    (i32, Seq<char>, Instant, i32, Seq<char>),
>
    decreases codes.len(),
{
    if codes.len() == 0 {
        Seq::empty()
    } else {
        let rest = code_listing(codes.drop_last(), projects, now);
        let c = codes.last();
        if unexpired(now, c) && name_in(projects, c.project_id) is Some {
            rest.push(
                (c.security_code_id, c.code@, c.expiration, c.project_id, name_in(projects, c.project_id)->0),
            )
        } else {
            rest
        }
    }
}

/// Lists the codes not expired at `now`, each with its project's name.
pub fn list_codes(codes: &Vec<SecurityCode>, projects: &Vec<NameEntry>, now: &Instant) -> (out: Vec<
    SecurityCodeWithNames,
>)
    ensures
        out@.map_values(|c: SecurityCodeWithNames| listed_view(c)) == code_listing(codes@, projects@, *now),
{
    let mut out: Vec<SecurityCodeWithNames> = Vec::new();
    let mut i: usize = 0;
    while i < codes.len()
        invariant
            i <= codes.len(),
            out@.map_values(|c: SecurityCodeWithNames| listed_view(c)) == code_listing(
                codes@.take(i as int),
                projects@,
                *now,
            ),
        decreases codes.len() - i,
    {
        assert(codes@.take(i + 1).drop_last() =~= codes@.take(i as int));
        assert(codes@.take(i + 1).last() == codes@[i as int]);
        let ghost before = out@;
        let c = &codes[i];
        if is_before(now, &c.expiration) {
            match find_name(projects, c.project_id) {
                Some(name) => {
                    out.push(
                        SecurityCodeWithNames {
                            security_code_id: c.security_code_id,
                            code: c.code.clone(),
                            expiration: c.expiration,
                            project_id: c.project_id,
                            project_name: name,
                        },
                    );
                    assert(out@.map_values(|c: SecurityCodeWithNames| listed_view(c)) =~= before.map_values(
                        |c: SecurityCodeWithNames| listed_view(c),
                    ).push(listed_view(out@[out.len() - 1])));
                },
                None => {},
            }
        }
        i = i + 1;
    }
    assert(codes@.take(i as int) =~= codes@);
    out
}

/// Lists the codes not expired now, as read from the clock; gives the time read.
pub fn list_codes_now(codes: &Vec<SecurityCode>, projects: &Vec<NameEntry>) -> (r: (
    Instant,
    Vec<SecurityCodeWithNames>,
))
    ensures
        r.1@.map_values(|c: SecurityCodeWithNames| listed_view(c)) == code_listing(codes@, projects@, r.0),
{
    let now = current_instant();
    let out = list_codes(codes, projects, &now);
    (now, out)
}

} // verus!
