use vstd::prelude::*;

use crate::clock::SECONDS_PER_DAY;
use crate::text::{full_name, spec_full_name};

verus! {

// ── Logging in ───────────────────────────────────────────────────────────
/// Whether `password_auth::verify_password` accepts the password for the PHC
/// hash: a function of the two texts alone.
pub uninterp spec fn password_verifies(password: Seq<char>, hash: Seq<char>) -> bool;

/// Calls `password_auth::verify_password`. Trusted: the answer is
/// `password_verifies` of the password and the hash; any error (a hash that
/// does not parse, or a wrong password) counts as a refusal.
#[verifier::external_body]
fn verify_password(password: &str, hash: &str) -> (ok: bool)
    ensures
        ok == password_verifies(password@, hash@),
{
    password_auth::verify_password(password, hash).is_ok()
}

/// What logging in needs of an administrator's account.
pub struct AdminCredentials {
    pub admin_id: i32,
    pub admin_role_id: i32,
    pub password_hash: String,
}

/// A refused login.
#[derive(Clone, Copy, Debug, PartialEq, Eq, Structural)]
pub struct WrongCredentials;

impl WrongCredentials {
    /// The HTTP status of the answer: 401.
    pub fn status(&self) -> (s: u16)
        ensures
            s == 401,
    {
        401
    }

    /// The message shown to the client, the same for an unknown e-mail and a
    /// wrong password.
    pub fn message(&self) -> (m: &'static str)
        ensures
            m@ == "Incorrect email or password"@,
    {
        "Incorrect email or password"
    }
}

/// The verdict on a login.
pub open spec fn login_verdict(account: Option<AdminCredentials>, password_ok: bool) -> Result<
    (i32, i32),
    WrongCredentials,
> {
    match account {
        None => Err(WrongCredentials),
        Some(a) => if password_ok {
            Ok((a.admin_id, a.admin_role_id))
        } else {
            Err(WrongCredentials)
        },
    }
}

/// The verdict on a login, given the account found by e-mail (if any) and
/// whether the password matched its hash: the id and role of the administrator,
/// for the token.
pub fn decide_login(account: &Option<AdminCredentials>, password_ok: bool) -> (r: Result<
    (i32, i32),
    WrongCredentials,
>)
    ensures
        r == login_verdict(*account, password_ok),
{
    match account {
        None => Err(WrongCredentials),
        Some(a) => if password_ok {
            Ok((a.admin_id, a.admin_role_id))
        } else {
            Err(WrongCredentials)
        },
    }
}

/// Law: a refused login looks the same whether no account has the e-mail or the
/// password is wrong, so the answer does not tell which addresses exist.
pub proof fn refusal_does_not_reveal_accounts(a: AdminCredentials)
    ensures
        login_verdict(None, true) == login_verdict(Some(a), false),
        login_verdict(None, false) == login_verdict(Some(a), false),
{
}

/// Logs in: the account found by e-mail must exist and its hash must accept the
/// password.
pub fn authenticate(account: &Option<AdminCredentials>, password: &str) -> (r: Result<
    (i32, i32),
    WrongCredentials,
>)
    ensures
        r == login_verdict(
            *account,
            match account {
                Some(a) => password_verifies(password@, a.password_hash@),
                None => false,
            },
        ),
{
    let ok = match account {
        None => false,
        Some(a) => verify_password(password, a.password_hash.as_str()),
    };
    decide_login(account, ok)
}

/// The largest number of whole seconds a chrono `Duration` holds (it holds up
/// to `i64::MAX` milliseconds, and as far below zero).
pub const MAX_DURATION_SECS: i64 = 9_223_372_036_854_775;

/// How long a login token stays valid, in seconds, for a validity in days:
/// `Duration::days(days).whole_seconds()`, for the validities that chrono can
/// hold as a `Duration` (it panics on the others).
pub fn token_validity_seconds(days: i64) -> (s: i64)
    requires
        -MAX_DURATION_SECS <= days * SECONDS_PER_DAY <= MAX_DURATION_SECS,
    ensures
        s == days * SECONDS_PER_DAY,
{
    days * SECONDS_PER_DAY
}

// ── Resetting a password ─────────────────────────────────────────────────
/// The error type of the `confirm_email` crate.
#[verifier::external_type_specification]
#[verifier::external_body]
pub struct ExConfirmEmailError(confirm_email::error::Error);

/// Calls `confirm_email::generate_token`. Trusted to return; the token holds the
/// address and an expiry one day ahead, encrypted with a random salt and nonce,
/// so nothing is stated of its text.
#[verifier::external_body]
fn generate_token(email: String, secret: String) -> (r: Result<String, confirm_email::error::Error>) {
    confirm_email::generate_token(email, secret)
}

/// The link a password-reset mail carries.
pub open spec fn spec_reset_url(base: Seq<char>, token: Seq<char>) -> Seq<char> {
    base + "/admin/password-reset?t="@ + token
}

/// The frontend link that resets a password with the token.
pub fn reset_url(base: &str, token: &str) -> (r: String)
    ensures
        r@ == spec_reset_url(base@, token@),
{
    let path = "/admin/password-reset?t=";
    let mut r = String::from_str(base);
    r.append(path);
    r.append(token);
    r
}

/// What an administrator asking for a new password is known by.
pub struct AdminContact {
    pub email: String,
    pub first_name: String,
    pub last_name: String,
}

/// A password-reset mail to send.
pub struct ResetMail {
    pub email: String,
    pub name: String,
    pub reset_url: String,
}

/// The mail for an administrator, with a token already made.
pub fn reset_mail(admin: &AdminContact, base: &str, token: &str) -> (m: ResetMail)
    ensures
        m.email@ == admin.email@,
        m.name@ == spec_full_name(admin.first_name@, admin.last_name@),
        m.reset_url@ == spec_reset_url(base@, token@),
{
    ResetMail {
        email: admin.email.clone(),
        name: full_name(admin.first_name.as_str(), admin.last_name.as_str()),
        reset_url: reset_url(base, token),
    }
}

/// A reset link could not be made (500).
#[derive(Clone, Copy, Debug, PartialEq, Eq, Structural)]
pub struct ResetFailed;

impl ResetFailed {
    /// The HTTP status of the answer: 500.
    pub fn status(&self) -> (s: u16)
        ensures
            s == 500,
    {
        500
    }

    /// The message shown to the client.
    pub fn message(&self) -> (m: &'static str)
        ensures
            m@ == "Password reset request failed"@,
    {
        "Password reset request failed"
    }
}

/// What the reset token is made from: the account's address and the secret.
pub fn reset_token_request(admin: &AdminContact, secret: &str) -> (r: (String, String))
    ensures
        r.0@ == admin.email@,
        r.1@ == secret@,
{
    (admin.email.clone(), String::from_str(secret))
}

/// Prepares the answer to a password-reset request. For an unknown address no
/// mail is sent (the answer does not tell addresses apart); for a known one, a
/// token is made from the account's address and the secret (see
/// `reset_token_request`), and the mail goes to that address with the reset link
/// carrying the token.
pub fn plan_password_reset(admin: &Option<AdminContact>, secret: &str, base: &str) -> (r: Result<
    Option<ResetMail>,
    ResetFailed,
>)
    ensures
        match admin {
            None => r matches Ok(None),
            Some(a) => match r {
                Ok(None) => false,
                Ok(Some(m)) => m.email@ == a.email@ && m.name@ == spec_full_name(
                    a.first_name@,
                    a.last_name@,
                ) && exists|t: Seq<char>| m.reset_url@ == spec_reset_url(base@, t),
                Err(_) => true,
            },
        },
{
    match admin {
        None => Ok(None),
        Some(a) => {
            let (email, key) = reset_token_request(a, secret);
            match generate_token(email, key) {
                Ok(token) => Ok(Some(reset_mail(a, base, token.as_str()))),
                Err(_) => Err(ResetFailed),
            }
        },
    }
}

/// The status of the answer to a reset request: 204 (no content) when no mail
/// was due or the mail went out (`mail_sent`), 500 when the link could not be
/// made or the mail could not be sent.
pub open spec fn spec_reset_status(plan: Result<Option<ResetMail>, ResetFailed>, mail_sent: bool) -> u16 {
    match plan {
        Err(_) => 500,
        Ok(None) => 204,
        Ok(Some(_)) => if mail_sent {
            204
        } else {
            500
        },
    }
}

/// The status of the answer to a reset request.
pub fn reset_status(plan: &Result<Option<ResetMail>, ResetFailed>, mail_sent: bool) -> (s: u16)
    ensures
        s == spec_reset_status(*plan, mail_sent),
{
    match plan {
        Err(_) => 500,
        Ok(None) => 204,
        Ok(Some(_)) => if mail_sent {
            204
        } else {
            500
        },
    }
}

/// Law: the answer to a reset request for an unknown address is the answer for
/// a known one whose mail went out, so the answer does not tell which addresses
/// have an account.
pub proof fn reset_answer_does_not_reveal_accounts(m: ResetMail, mail_sent: bool)
    ensures
        spec_reset_status(Ok(None), mail_sent) == spec_reset_status(Ok(Some(m)), true),
        spec_reset_status(Ok(None), mail_sent) == 204,
{
}

} // verus!
