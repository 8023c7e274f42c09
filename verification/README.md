# unitn_fair_admin

The rules behind the administration API of a university project course:
projects, groups and their members, fairs, security codes, the blacklist,
coordinator assignments, oral exams and the login and password-reset flow.

- `src/` is the library, written in Verus. The decisions of the API (which
  request is refused and with which status and message, what is stored, and
  how the pages are assembled from the records the database gives) are
  functions with contracts; `pages` builds the group pages from plain records.
  The properties that span several calls (one leader per group, one group per
  project for a student, one coordinator per project, fairs staying valid
  under updates, notes and assignments undone by deletion, listings being
  determined) are proved as lemmas next to the functions they speak of.
- `app/` is the HTTP side: JSON shapes of requests and answers, conversions
  between chrono times and the library's instants, the answer for each refusal,
  and the handlers and routes of the admin API. The handlers are written
  against a `Backend` trait that stands for the platform's database layer,
  mailer and token issuer, which are not part of this crate.
- `tests/` runs the library on concrete values.

Calls into chrono, rand, password-auth and confirm-email stand in `src/` behind
small trusted wrappers, each with a doc comment saying what is assumed of it.
