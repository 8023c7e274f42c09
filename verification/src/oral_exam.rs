use vstd::prelude::*;

use crate::ordering::{lemma_filter_sorted, lemma_sorted_unique, order_by_name, sorted_by_key};
use crate::clock::Instant;
use crate::projects::Project;
use crate::text::{chars_of, contains_text, lowercase, text_contains, to_lowercase};

verus! {

/// A group as the oral-exam listing sees it.
pub struct GroupRow {
    pub group_id: i32,
    pub name: String,
}

/// The names of the groups, as texts.
pub open spec fn names_of(groups: Seq<GroupRow>) -> Seq<Seq<char>> {
    groups.map_values(|g: GroupRow| g.name@)
}

/// A group name matches the optional search text: without a search, or with an
/// empty one, every group matches (the lower case of an empty text is empty,
/// and every text contains it); otherwise the lower-cased name must contain the
/// lower-cased search.
pub open spec fn search_hit(name: Seq<char>, search: Option<String>) -> bool {
    match search {
        None => true,
        Some(s) => s@.len() == 0 || text_contains(lowercase(name), lowercase(s@)),
    }
}

/// `p` lists the positions of exactly the groups that match the search, in the
/// order of a stable sort by name.
pub open spec fn is_listing_order(groups: Seq<GroupRow>, search: Option<String>, p: Seq<usize>) -> bool {
    &&& forall|y: usize|
        #![trigger p.contains(y)]
        #![trigger groups[y as int].name@]
        p.contains(y) <==> (y < groups.len() && search_hit(groups[y as int].name@, search))
    &&& sorted_by_key(names_of(groups), p)
}

/// `out` is the listing of `groups` for `search`: the matching groups, sorted by
/// name, groups of equal name in their order of input.
pub open spec fn is_listing(groups: Seq<GroupRow>, search: Option<String>, out: Seq<GroupRow>) -> bool {
    exists|p: Seq<usize>|
        #![trigger is_listing_order(groups, search, p)]
        is_listing_order(groups, search, p) && p.len() == out.len() && forall|k: int|
            0 <= k < out.len() ==> out[k] == groups[p[k] as int]
}

/// The positions of the groups the oral-exam list shows, in the order it shows
/// them: the groups whose name contains the search text, compared without
/// regard to case, sorted alphabetically by name (a stable sort).
pub fn listing_positions(groups: &Vec<GroupRow>, search: &Option<String>) -> (order: Vec<usize>)
    ensures
        is_listing_order(groups@, *search, order@),
        forall|j: int| 0 <= j < order.len() ==> order[j] < groups.len(),
{
    let needle: Option<Vec<char>> = match search {
        Some(s) => if s.as_str().is_empty() {
            None
        } else {
            Some(chars_of(to_lowercase(s.as_str()).as_str()))
        },
        None => None,
    };
    let mut names: Vec<Vec<char>> = Vec::new();
    let mut candidates: Vec<usize> = Vec::new();
    let mut i: usize = 0;
    while i < groups.len()
        invariant
            i <= groups.len(),
            names.len() == i,
            forall|k: int| 0 <= k < i ==> #[trigger] names@[k]@ == groups@[k].name@,
            match *search {
                None => needle is None,
                Some(s) => if s@.len() == 0 {
                    needle is None
                } else {
                    needle matches Some(n) && n@ == lowercase(s@)
                },
            },
            forall|k: int| 0 <= k < candidates.len() ==> candidates[k] < i,
            forall|a: int, b: int| 0 <= a < b < candidates.len() ==> candidates[a] < candidates[b],
            forall|y: usize|
                candidates@.contains(y) <==> (y < i && search_hit(
                    #[trigger] groups@[y as int].name@,
                    *search,
                )),
        decreases groups.len() - i,
    {
        let name_chars = chars_of(groups[i].name.as_str());
        let hit = match &needle {
            None => true,
            Some(n) => {
                let lowered = chars_of(to_lowercase(groups[i].name.as_str()).as_str());
                contains_text(&lowered, n)
            },
        };
        names.push(name_chars);
        let ghost before = candidates@;
        if hit {
            candidates.push(i);
        }
        proof {
            assert forall|y: usize|
                candidates@.contains(y) <==> (y < i + 1 && search_hit(
                    #[trigger] groups@[y as int].name@,
                    *search,
                )) by {
                if candidates@.contains(y) && y != i {
                    let k = choose|k: int| 0 <= k < candidates.len() && candidates@[k] == y;
                    if hit && k == before.len() {
                    } else {
                        assert(before[k] == y);
                    }
                }
                if y < i && search_hit(groups@[y as int].name@, *search) {
                    let k = choose|k: int| 0 <= k < before.len() && before[k] == y;
                    assert(candidates@[k] == y);
                }
                if y == i && hit {
                    assert(candidates@[candidates.len() - 1] == y);
                }
            }
        }
        i = i + 1;
    }
    assert(names@.map_values(|n: Vec<char>| n@) =~= names_of(groups@));
    let order = order_by_name(&names, &candidates);
    proof {
        assert forall|j: int| 0 <= j < order.len() implies order[j] < groups.len() by {
            assert(order@.contains(order@[j]));
        }
    }
    order
}

/// The groups of a project as the oral-exam list shows them: only those whose
/// name contains the search text, compared without regard to case, sorted
/// alphabetically by name (a stable sort).
pub fn select_groups(groups: Vec<GroupRow>, search: Option<String>) -> (out: Vec<GroupRow>)
    ensures
        is_listing(groups@, search, out@),
{
    let order = listing_positions(&groups, &search);
    let mut out: Vec<GroupRow> = Vec::new();
    let mut k: usize = 0;
    while k < order.len()
        invariant
            k <= order.len(),
            out.len() == k,
            forall|j: int| 0 <= j < order.len() ==> order[j] < groups.len(),
            forall|j: int| 0 <= j < k ==> out@[j] == groups@[order@[j] as int],
        decreases order.len() - k,
    {
        let g = &groups[order[k]];
        out.push(GroupRow { group_id: g.group_id, name: g.name.clone() });
        k = k + 1;
    }
    proof {
        assert(is_listing_order(groups@, search, order@));
    }
    out
}

/// Law: the oral-exam listing of a project's groups for a search is determined:
/// two listings of the same groups for the same search are the same list.
pub proof fn listing_is_determined(
    groups: Seq<GroupRow>,
    search: Option<String>,
    out1: Seq<GroupRow>,
    out2: Seq<GroupRow>,
)
    requires
        is_listing(groups, search, out1),
        is_listing(groups, search, out2),
    ensures
        out1 == out2,
{
    let p1 = choose|p: Seq<usize>|
        #![trigger is_listing_order(groups, search, p)]
        is_listing_order(groups, search, p) && p.len() == out1.len() && forall|k: int|
            0 <= k < out1.len() ==> out1[k] == groups[p[k] as int];
    let p2 = choose|p: Seq<usize>|
        #![trigger is_listing_order(groups, search, p)]
        is_listing_order(groups, search, p) && p.len() == out2.len() && forall|k: int|
            0 <= k < out2.len() ==> out2[k] == groups[p[k] as int];
    assert(is_listing_order(groups, search, p1));
    assert(is_listing_order(groups, search, p2));
    assert forall|y: usize| p1.contains(y) <==> p2.contains(y) by {
        assert(p1.contains(y) <==> (y < groups.len() && search_hit(groups[y as int].name@, search)));
        assert(p2.contains(y) <==> (y < groups.len() && search_hit(groups[y as int].name@, search)));
    }
    lemma_sorted_unique(names_of(groups), p1, p2);
    assert(out1 =~= out2);
}

/// Law: an empty search lists the same groups as no search at all.
pub proof fn empty_search_is_no_search(groups: Seq<GroupRow>, search: String, out: Seq<GroupRow>)
    requires
        search@.len() == 0,
    ensures
        is_listing(groups, Some(search), out) == is_listing(groups, None, out),
{
    assert forall|p: Seq<usize>| #[trigger] is_listing_order(groups, Some(search), p)
        == is_listing_order(groups, None, p) by {
        assert forall|y: usize| search_hit(#[trigger] groups[y as int].name@, Some(search))
            == search_hit(groups[y as int].name@, None) by {}
    }
    if is_listing(groups, Some(search), out) {
        let p = choose|p: Seq<usize>|
            #![trigger is_listing_order(groups, Some(search), p)]
            is_listing_order(groups, Some(search), p) && p.len() == out.len() && forall|k: int|
                0 <= k < out.len() ==> out[k] == groups[p[k] as int];
        assert(is_listing_order(groups, None, p));
    }
    if is_listing(groups, None, out) {
        let p = choose|p: Seq<usize>|
            #![trigger is_listing_order(groups, None, p)]
            is_listing_order(groups, None, p) && p.len() == out.len() && forall|k: int|
                0 <= k < out.len() ==> out[k] == groups[p[k] as int];
        assert(is_listing_order(groups, Some(search), p));
    }
}

/// The position holds a group that matches the search.
pub open spec fn hit_at(groups: Seq<GroupRow>, search: Option<String>) -> spec_fn(usize) -> bool {
    |y: usize| search_hit(groups[y as int].name@, search)
}

/// The group matches the search.
pub open spec fn hit_row(search: Option<String>) -> spec_fn(GroupRow) -> bool {
    |g: GroupRow| search_hit(g.name@, search)
}

proof fn lemma_filter_rows(groups: Seq<GroupRow>, p: Seq<usize>, search: Option<String>)
    ensures
        p.filter(hit_at(groups, search)).map_values(|y: usize| groups[y as int]) == p.map_values(
            |y: usize| groups[y as int],
        ).filter(hit_row(search)),
    decreases p.len(),
{
    reveal_with_fuel(Seq::<_>::filter, 1);
    if p.len() > 0 {
        lemma_filter_rows(groups, p.drop_last(), search);
        let m = p.map_values(|y: usize| groups[y as int]);
        assert(m.drop_last() =~= p.drop_last().map_values(|y: usize| groups[y as int]));
        assert(m.last() == groups[p.last() as int]);
        if hit_at(groups, search)(p.last()) {
            assert(p.filter(hit_at(groups, search)).map_values(|y: usize| groups[y as int])
                =~= p.drop_last().filter(hit_at(groups, search)).map_values(|y: usize| groups[y as int]).push(
                groups[p.last() as int],
            ));
        }
    }
}

/// Law: the listing for a search is the listing without a search, kept to the
/// groups that match: a search only leaves groups out, and keeps the order.
pub proof fn search_narrows_the_listing(
    groups: Seq<GroupRow>,
    search: String,
    narrowed: Seq<GroupRow>,
    all: Seq<GroupRow>,
)
    requires
        is_listing(groups, Some(search), narrowed),
        is_listing(groups, None, all),
    ensures
        narrowed == all.filter(hit_row(Some(search))),
{
    let ps = choose|p: Seq<usize>|
        #![trigger is_listing_order(groups, Some(search), p)]
        is_listing_order(groups, Some(search), p) && p.len() == narrowed.len() && forall|k: int|
            0 <= k < narrowed.len() ==> narrowed[k] == groups[p[k] as int];
    let pa = choose|p: Seq<usize>|
        #![trigger is_listing_order(groups, None, p)]
        is_listing_order(groups, None, p) && p.len() == all.len() && forall|k: int|
            0 <= k < all.len() ==> all[k] == groups[p[k] as int];
    assert(is_listing_order(groups, Some(search), ps));
    assert(is_listing_order(groups, None, pa));
    let keep = hit_at(groups, Some(search));
    let q = pa.filter(keep);
    lemma_filter_sorted(names_of(groups), pa, keep);
    assert forall|y: usize| q.contains(y) <==> ps.contains(y) by {
        if q.contains(y) {
            pa.lemma_filter_contains_rev(keep, y);
            let i = choose|i: int| 0 <= i < q.len() && q[i] == y;
            pa.lemma_filter_pred(keep, i);
            assert(pa.contains(y));
            assert(y < groups.len());
        }
        if ps.contains(y) {
            assert(y < groups.len() && search_hit(groups[y as int].name@, Some(search)));
            assert(search_hit(groups[y as int].name@, None));
            assert(pa.contains(y));
            let i = choose|i: int| 0 <= i < pa.len() && pa[i] == y;
            pa.lemma_filter_contains(keep, i);
        }
    }
    lemma_sorted_unique(names_of(groups), q, ps);
    lemma_filter_rows(groups, pa, Some(search));
    assert(all =~= pa.map_values(|y: usize| groups[y as int]));
    assert(narrowed =~= ps.map_values(|y: usize| groups[y as int]));
}

/// How many of the members (by student id) have completed the oral exam.
pub open spec fn completed_count(members: Seq<i32>, completed: Seq<i32>) -> nat
    decreases members.len(),
{
    if members.len() == 0 {
        0
    } else {
        completed_count(members.drop_last(), completed) + if completed.contains(members.last()) {
            1nat
        } else {
            0nat
        }
    }
}

/// Whether `x` occurs in `xs`.
pub fn contains_id(xs: &Vec<i32>, x: i32) -> (r: bool)
    ensures
        r == xs@.contains(x),
{
    let mut i: usize = 0;
    while i < xs.len()
        invariant
            i <= xs.len(),
            forall|j: int| 0 <= j < i ==> xs@[j] != x,
        decreases xs.len() - i,
    {
        if xs[i] == x {
            return true;
        }
        i = i + 1;
    }
    false
}

/// Counts the members of a group whose oral exam is marked completed.
pub fn count_completed(member_ids: &Vec<i32>, completed_ids: &Vec<i32>) -> (n: usize)
    ensures
        n == completed_count(member_ids@, completed_ids@),
        n <= member_ids.len(),
{
    let mut n: usize = 0;
    let mut i: usize = 0;
    while i < member_ids.len()
        invariant
            i <= member_ids.len(),
            n == completed_count(member_ids@.take(i as int), completed_ids@),
            n <= i,
        decreases member_ids.len() - i,
    {
        assert(member_ids@.take(i + 1).drop_last() =~= member_ids@.take(i as int));
        if contains_id(completed_ids, member_ids[i]) {
            n = n + 1;
        }
        i = i + 1;
    }
    assert(member_ids@.take(i as int) =~= member_ids@);
    n
}

/// A group of the project with the student ids of its members.
pub struct OralGroupRecord {
    pub group: GroupRow,
    pub member_ids: Vec<i32>,
}

/// A group's line in the oral-exam list.
pub struct OralExamGroupSummary {
    pub group_id: i32,
    pub name: String,
    pub member_count: i32,
    pub completed_count: i32,
    pub total_members: i32,
}

/// What a shown line holds.
pub open spec fn summary_view(s: OralExamGroupSummary) -> (i32, Seq<char>, i32, i32, i32) {
    (s.group_id, s.name@, s.member_count, s.completed_count, s.total_members)
}

/// The line of a group: its members counted (twice, as member count and as
/// total), and how many of them have completed the oral exam (as `i32`s).
pub open spec fn summary_of(r: OralGroupRecord, completed: Seq<i32>) -> (i32, Seq<char>, i32, i32, i32) {
    (
        r.group.group_id,
        r.group.name@,
        r.member_ids@.len() as i32,
        completed_count(r.member_ids@, completed) as i32,
        r.member_ids@.len() as i32,
    )
}

/// The groups of the records.
pub open spec fn rows_of(records: Seq<OralGroupRecord>) -> Seq<GroupRow> {
    records.map_values(|r: OralGroupRecord| r.group)
}

/// `out` is the oral-exam list of the records for the search: the lines of the
/// groups the listing shows, in its order.
pub open spec fn is_oral_group_list(
    records: Seq<OralGroupRecord>,
    search: Option<String>,
    completed: Seq<i32>,
    out: Seq<OralExamGroupSummary>,
) -> bool {
    exists|p: Seq<usize>|
        #![trigger is_listing_order(rows_of(records), search, p)]
        is_listing_order(rows_of(records), search, p) && p.len() == out.len() && forall|k: int|
            0 <= k < out.len() ==> summary_view(#[trigger] out[k]) == summary_of(records[p[k] as int], completed)
}

/// The oral-exam list of a project.
pub struct OralExamGroupList {
    pub project_id: i32,
    pub oral_exam_enabled: bool,
    pub groups: Vec<OralExamGroupSummary>,
}

fn group_summary(r: &OralGroupRecord, completed_ids: &Vec<i32>) -> (s: OralExamGroupSummary)
    ensures
        summary_view(s) == summary_of(*r, completed_ids@),
{
    let total: i32 = #[verifier::truncate] (r.member_ids.len() as i32);
    let done = count_completed(&r.member_ids, completed_ids);
    let done_count: i32 = #[verifier::truncate] (done as i32);
    OralExamGroupSummary {
        group_id: r.group.group_id,
        name: r.group.name.clone(),
        member_count: total,
        completed_count: done_count,
        total_members: total,
    }
}

/// Builds the oral-exam list of project `project_id` (`project` as found, `None`
/// when it does not exist): whether oral exams are enabled, and the lines of
/// the groups matching the search, sorted by name, each with its member count
/// and how many members completed the exam (`completed_ids`).
pub fn list_oral_exam_groups(
    project: &Option<Project>,
    project_id: i32,
    records: &Vec<OralGroupRecord>,
    search: Option<String>,
    completed_ids: &Vec<i32>,
) -> (r: Result<OralExamGroupList, OralExamError>)
    ensures
        match project {
            None => r == Err::<OralExamGroupList, OralExamError>(OralExamError::ProjectNotFound),
            Some(p) => r matches Ok(l) && l.project_id == project_id && l.oral_exam_enabled
                == p.oral_exam_enabled && is_oral_group_list(records@, search, completed_ids@, l.groups@),
        },
{
    let enabled = match project {
        None => { return Err(OralExamError::ProjectNotFound) },
        Some(p) => p.oral_exam_enabled,
    };
    let mut rows: Vec<GroupRow> = Vec::new();
    let mut i: usize = 0;
    while i < records.len()
        invariant
            i <= records.len(),
            rows@ == rows_of(records@.take(i as int)),
        decreases records.len() - i,
    {
        let g = &records[i].group;
        rows.push(GroupRow { group_id: g.group_id, name: g.name.clone() });
        assert(rows_of(records@.take(i + 1)) =~= rows_of(records@.take(i as int)).push(records@[i as int].group));
        i = i + 1;
    }
    assert(records@.take(i as int) =~= records@);
    let order = listing_positions(&rows, &search);
    let mut out: Vec<OralExamGroupSummary> = Vec::new();
    let mut k: usize = 0;
    while k < order.len()
        invariant
            k <= order.len(),
            rows.len() == records.len(),
            forall|j: int| 0 <= j < order.len() ==> order[j] < rows.len(),
            out.len() == k,
            forall|j: int|
                0 <= j < k ==> summary_view(#[trigger] out@[j]) == summary_of(records@[order@[j] as int], completed_ids@),
        decreases order.len() - k,
    {
        out.push(group_summary(&records[order[k]], completed_ids));
        k = k + 1;
    }
    assert(is_listing_order(rows_of(records@), search, order@));
    Ok(OralExamGroupList { project_id, oral_exam_enabled: enabled, groups: out })
}

/// Why a bulk completion request is refused.
#[derive(Clone, Copy, Debug, PartialEq, Eq, Structural)]
pub enum BulkCompletionError {
    /// The group does not exist, or belongs to another project (404).
    GroupNotFound,
    /// This student of the request is not a member of the group (400).
    StudentNotInGroup(i32),
}

impl BulkCompletionError {
    /// The HTTP status of the answer.
    pub fn status(&self) -> (s: u16)
        ensures
            s == (match self {
                BulkCompletionError::GroupNotFound => 404u16,
                BulkCompletionError::StudentNotInGroup(_) => 400u16,
            }),
    {
        match self {
            BulkCompletionError::GroupNotFound => 404,
            BulkCompletionError::StudentNotInGroup(_) => 400,
        }
    }

    /// The message shown to the client.
    pub fn message(&self) -> (m: &'static str)
        ensures
            m@ == (match self {
                BulkCompletionError::GroupNotFound => "Group not found"@,
                BulkCompletionError::StudentNotInGroup(_) => "Student not in group"@,
            }),
    {
        match self {
            BulkCompletionError::GroupNotFound => "Group not found",
            BulkCompletionError::StudentNotInGroup(_) => "Student not in group",
        }
    }
}

/// The first student of the request who is not a member, if any.
pub open spec fn first_outsider(students: Seq<i32>, members: Seq<i32>) -> Option<i32>
    decreases students.len(),
{
    if students.len() == 0 {
        None
    } else if !members.contains(students[0]) {
        Some(students[0])
    } else {
        first_outsider(students.drop_first(), members)
    }
}

/// Checks a request to mark several students of a group at once. `group_project`
/// is the project of the group, `None` when the group does not exist.
pub fn check_bulk_completion(
    group_project: Option<i32>,
    project_id: i32,
    member_ids: &Vec<i32>,
    student_ids: &Vec<i32>,
) -> (r: Result<(), BulkCompletionError>)
    ensures
        match group_project {
            None => r == Err::<(), BulkCompletionError>(BulkCompletionError::GroupNotFound),
            Some(p) => if p != project_id {
                r == Err::<(), BulkCompletionError>(BulkCompletionError::GroupNotFound)
            } else {
                match first_outsider(student_ids@, member_ids@) {
                    None => r == Ok::<(), BulkCompletionError>(()),
                    Some(s) => r == Err::<(), BulkCompletionError>(
                        BulkCompletionError::StudentNotInGroup(s),
                    ),
                }
            },
        },
{
    match group_project {
        None => { return Err(BulkCompletionError::GroupNotFound) },
        Some(p) => {
            if p != project_id {
                return Err(BulkCompletionError::GroupNotFound);
            }
        },
    }
    let mut i: usize = 0;
    assert(student_ids@.skip(0) =~= student_ids@);
    while i < student_ids.len()
        invariant
            group_project == Some(project_id),
            i <= student_ids.len(),
            first_outsider(student_ids@, member_ids@) == first_outsider(
                student_ids@.skip(i as int),
                member_ids@,
            ),
        decreases student_ids.len() - i,
    {
        assert(student_ids@.skip(i as int)[0] == student_ids@[i as int]);
        if !contains_id(member_ids, student_ids[i]) {
            return Err(BulkCompletionError::StudentNotInGroup(student_ids[i]));
        }
        assert(student_ids@.skip(i as int).drop_first() =~= student_ids@.skip(i + 1));
        i = i + 1;
    }
    Ok(())
}

/// The answer for one student whose oral exam was marked.
#[derive(Clone, Copy, Debug, PartialEq, Eq, Structural)]
pub struct CompletionResult {
    pub student_id: i32,
    pub project_id: i32,
    pub completed: bool,
    pub completed_at: Option<Instant>,
}

/// The answers of a bulk marking, one per student of the request, in order:
/// `completed_at[k]` is the completion stored for `student_ids[k]` once marked
/// (`None` when the students were marked incomplete).
pub fn completion_results(student_ids: &Vec<i32>, project_id: i32, completed_at: &Vec<Option<Instant>>) -> (out:
    Vec<CompletionResult>)
    requires
        completed_at.len() == student_ids.len(),
    ensures
        out.len() == student_ids.len(),
        forall|k: int|
            0 <= k < out.len() ==> #[trigger] out[k] == (CompletionResult {
                student_id: student_ids[k],
                project_id,
                completed: completed_at[k] is Some,
                completed_at: completed_at[k],
            }),
{
    let mut out: Vec<CompletionResult> = Vec::new();
    let mut i: usize = 0;
    while i < student_ids.len()
        invariant
            i <= student_ids.len(),
            completed_at.len() == student_ids.len(),
            out.len() == i,
            forall|k: int|
                0 <= k < i ==> #[trigger] out[k] == (CompletionResult {
                    student_id: student_ids[k],
                    project_id,
                    completed: completed_at[k] is Some,
                    completed_at: completed_at[k],
                }),
        decreases student_ids.len() - i,
    {
        let at = completed_at[i];
        out.push(
            CompletionResult { student_id: student_ids[i], project_id, completed: at.is_some(), completed_at: at },
        );
        i = i + 1;
    }
    out
}

// ── Marking students ─────────────────────────────────────────────────────
/// A student's oral exam in a project, marked completed.
#[derive(Clone, Copy, Debug, PartialEq, Eq, Structural)]
pub struct Completion {
    pub student_id: i32,
    pub project_id: i32,
}

/// Any other completion.
pub open spec fn other_completion(c: Completion) -> spec_fn(Completion) -> bool {
    |x: Completion| x != c
}

/// The completions after marking one student: a completion is recorded (once),
/// or taken away.
pub open spec fn mark_one(store: Seq<Completion>, student_id: i32, project_id: i32, completed: bool) -> Seq<
    Completion,
> {
    let c = Completion { student_id, project_id };
    if completed {
        if store.contains(c) {
            store
        } else {
            store.push(c)
        }
    } else {
        store.filter(other_completion(c))
    }
}

/// The completions after marking each listed student in turn.
pub open spec fn mark_each(store: Seq<Completion>, student_ids: Seq<i32>, project_id: i32, completed: bool) -> Seq<
    Completion,
>
    decreases student_ids.len(),
{
    if student_ids.len() == 0 {
        store
    } else {
        mark_one(
            mark_each(store, student_ids.drop_last(), project_id, completed),
            student_ids.last(),
            project_id,
            completed,
        )
    }
}

/// Marks one student's oral exam in a project completed or not completed.
pub fn mark_student(store: &Vec<Completion>, student_id: i32, project_id: i32, completed: bool) -> (out: Vec<
    Completion,
>)
    ensures
        out@ == mark_one(store@, student_id, project_id, completed),
{
    let c = Completion { student_id, project_id };
    let ghost pred = other_completion(c);
    let mut out: Vec<Completion> = Vec::new();
    let mut found = false;
    let mut i: usize = 0;
    while i < store.len()
        invariant
            i <= store.len(),
            pred == other_completion(c),
            completed ==> out@ == store@.take(i as int),
            !completed ==> out@ == store@.take(i as int).filter(pred),
            found == store@.take(i as int).contains(c),
        decreases store.len() - i,
    {
        assert(store@.take(i + 1).drop_last() =~= store@.take(i as int));
        assert(store@.take(i + 1).last() == store@[i as int]);
        let x = store[i];
        let same = x == c;
        if completed || !same {
            out.push(x);
        }
        if same {
            found = true;
        }
        proof {
            reveal_with_fuel(Seq::<_>::filter, 1);
            assert(pred(x) == !same);
            assert(store@.take(i + 1) =~= store@.take(i as int).push(x));
            if store@.take(i as int).contains(c) {
                let k = choose|k: int| 0 <= k < i && #[trigger] store@.take(i as int)[k] == c;
                assert(store@.take(i + 1)[k] == c);
            }
            if same {
                assert(store@.take(i + 1)[i as int] == c);
            }
            if store@.take(i + 1).contains(c) {
                let k = choose|k: int| 0 <= k < i + 1 && #[trigger] store@.take(i + 1)[k] == c;
                if k < i {
                    assert(store@.take(i as int)[k] == c);
                }
            }
        }
        i = i + 1;
    }
    assert(store@.take(i as int) =~= store@);
    if completed && !found {
        out.push(c);
    }
    out
}

/// Marks the listed students in turn, as a bulk marking does.
pub fn mark_students(store: &Vec<Completion>, student_ids: &Vec<i32>, project_id: i32, completed: bool) -> (out:
    Vec<Completion>)
    ensures
        out@ == mark_each(store@, student_ids@, project_id, completed),
{
    let mut out = store.clone();
    let mut i: usize = 0;
    assert(out@ =~= store@);
    while i < student_ids.len()
        invariant
            i <= student_ids.len(),
            out@ == mark_each(store@, student_ids@.take(i as int), project_id, completed),
        decreases student_ids.len() - i,
    {
        assert(student_ids@.take(i + 1).drop_last() =~= student_ids@.take(i as int));
        assert(student_ids@.take(i + 1).last() == student_ids@[i as int]);
        out = mark_student(&out, student_ids[i], project_id, completed);
        i = i + 1;
    }
    assert(student_ids@.take(i as int) =~= student_ids@);
    out
}

proof fn lemma_mark_one_contains(store: Seq<Completion>, student_id: i32, project_id: i32, completed: bool, x: Completion)
    ensures
        mark_one(store, student_id, project_id, completed).contains(x) == if x == (Completion {
            student_id,
            project_id,
        }) {
            completed
        } else {
            store.contains(x)
        },
{
    let c = Completion { student_id, project_id };
    if completed {
        if !store.contains(c) {
            if store.push(c).contains(x) {
                let k = choose|k: int| 0 <= k < store.len() + 1 && store.push(c)[k] == x;
                if k < store.len() {
                    assert(store[k] == x);
                }
            }
            if store.contains(x) {
                let k = choose|k: int| 0 <= k < store.len() && store[k] == x;
                assert(store.push(c)[k] == x);
            }
            assert(store.push(c)[store.len() as int] == c);
        }
    } else {
        let f = store.filter(other_completion(c));
        if f.contains(x) {
            store.lemma_filter_contains_rev(other_completion(c), x);
            let k = choose|k: int| 0 <= k < f.len() && f[k] == x;
            store.lemma_filter_pred(other_completion(c), k);
        }
        if store.contains(x) && x != c {
            let k = choose|k: int| 0 <= k < store.len() && store[k] == x;
            store.lemma_filter_contains(other_completion(c), k);
        }
    }
}

/// Law: a bulk marking leaves each listed student's exam in the project marked
/// as asked, and every other completion as it was.
pub proof fn bulk_marking_marks_each_listed_student(
    store: Seq<Completion>,
    student_ids: Seq<i32>,
    project_id: i32,
    completed: bool,
    x: Completion,
)
    ensures
        x.project_id == project_id && student_ids.contains(x.student_id) ==> mark_each(
            store,
            student_ids,
            project_id,
            completed,
        ).contains(x) == completed,
        !(x.project_id == project_id && student_ids.contains(x.student_id)) ==> mark_each(
            store,
            student_ids,
            project_id,
            completed,
        ).contains(x) == store.contains(x),
    decreases student_ids.len(),
{
    if student_ids.len() > 0 {
        let init = student_ids.drop_last();
        bulk_marking_marks_each_listed_student(store, init, project_id, completed, x);
        lemma_mark_one_contains(
            mark_each(store, init, project_id, completed),
            student_ids.last(),
            project_id,
            completed,
            x,
        );
        if init.contains(x.student_id) {
            let k = choose|k: int| 0 <= k < init.len() && init[k] == x.student_id;
            assert(student_ids[k] == x.student_id);
        }
        if student_ids.contains(x.student_id) && x.student_id != student_ids.last() {
            let k = choose|k: int| 0 <= k < student_ids.len() && student_ids[k] == x.student_id;
            assert(k < student_ids.len() - 1);
            assert(init[k] == x.student_id);
        }
        assert(student_ids[student_ids.len() - 1] == student_ids.last());
    }
}

// ── Enabling oral exams, notes ───────────────────────────────────────────
/// Why an oral-exam request on a project or a note is refused.
#[derive(Clone, Copy, Debug, PartialEq, Eq, Structural)]
pub enum OralExamError {
    /// 404
    ProjectNotFound,
    /// 404: there was no note to delete.
    NoteNotFound,
}

impl OralExamError {
    /// The HTTP status of the answer: 404.
    pub fn status(&self) -> (s: u16)
        ensures
            s == 404,
    {
        404
    }

    /// The message shown to the client.
    pub fn message(&self) -> (m: &'static str)
        ensures
            m@ == (match self {
                OralExamError::ProjectNotFound => "Project not found"@,
                OralExamError::NoteNotFound => "Note not found"@,
            }),
    {
        match self {
            OralExamError::ProjectNotFound => "Project not found",
            OralExamError::NoteNotFound => "Note not found",
        }
    }
}

/// The project with oral exams switched on or off, everything else unchanged.
pub open spec fn with_oral_exam(p: Project, enabled: bool) -> Project {
    Project { oral_exam_enabled: enabled, ..p }
}

/// Switches oral exams on or off for a stored project (`None` when the project
/// does not exist), and gives the project to store.
pub fn set_oral_exam(stored: Option<Project>, enabled: bool) -> (r: Result<Project, OralExamError>)
    ensures
        match stored {
            None => r == Err::<Project, OralExamError>(OralExamError::ProjectNotFound),
            Some(p) => r == Ok::<Project, OralExamError>(with_oral_exam(p, enabled)),
        },
{
    match stored {
        None => Err(OralExamError::ProjectNotFound),
        Some(p) => Ok(Project { oral_exam_enabled: enabled, ..p }),
    }
}

/// Law: switching oral exams sets the flag to the value asked for, whatever it
/// was, so of two switches the later one decides, and switching to the current
/// value changes nothing.
pub proof fn oral_exam_switch_is_last_wins(p: Project, first: bool, second: bool)
    ensures
        with_oral_exam(with_oral_exam(p, first), second) == with_oral_exam(p, second),
        with_oral_exam(p, p.oral_exam_enabled) == p,
        with_oral_exam(p, first).oral_exam_enabled == first,
{
}

/// The answer to deleting a student's note: `deleted` says whether there was one.
pub fn note_deletion_verdict(deleted: bool) -> (r: Result<(), OralExamError>)
    ensures
        r == (if deleted {
            Ok::<(), OralExamError>(())
        } else {
            Err::<(), OralExamError>(OralExamError::NoteNotFound)
        }),
{
    if deleted {
        Ok(())
    } else {
        Err(OralExamError::NoteNotFound)
    }
}

// ── The notes of the oral exams ──────────────────────────────────────────
/// An examiner's note on a student's oral exam in a project.
pub struct Note {
    pub student_id: i32,
    pub project_id: i32,
    pub text: String,
    pub updated_at: Instant,
}

/// What a stored note holds.
pub open spec fn note_view(n: Note) -> (i32, i32, Seq<char>, Instant) {
    (n.student_id, n.project_id, n.text@, n.updated_at)
}

/// The note is the one of `student_id` in `project_id`.
pub open spec fn note_of(n: (i32, i32, Seq<char>, Instant), student_id: i32, project_id: i32) -> bool {
    n.0 == student_id && n.1 == project_id
}

/// The student has a note in the project.
pub open spec fn has_note(notes: Seq<(i32, i32, Seq<char>, Instant)>, student_id: i32, project_id: i32) -> bool {
    exists|k: int| 0 <= k < notes.len() && note_of(#[trigger] notes[k], student_id, project_id)
}

/// The notes after writing a student's note: the student's note in the project
/// gets the text and time, or a new note is added when there is none.
pub open spec fn after_upsert(
    notes: Seq<(i32, i32, Seq<char>, Instant)>,
    student_id: i32,
    project_id: i32,
    text: Seq<char>,
    at: Instant,
) -> Seq<(i32, i32, Seq<char>, Instant)> {
    if has_note(notes, student_id, project_id) {
        notes.map_values(
            |n: (i32, i32, Seq<char>, Instant)|
                if note_of(n, student_id, project_id) {
                    (student_id, project_id, text, at)
                } else {
                    n
                },
        )
    } else {
        notes.push((student_id, project_id, text, at))
    }
}

/// The note is not the student's in the project.
pub open spec fn other_note(student_id: i32, project_id: i32) -> spec_fn(
    (i32, i32, Seq<char>, Instant),
) -> bool {
    |n: (i32, i32, Seq<char>, Instant)| !note_of(n, student_id, project_id)
}

fn copy_note(n: &Note) -> (r: Note)
    ensures
        note_view(r) == note_view(*n),
{
    Note { student_id: n.student_id, project_id: n.project_id, text: n.text.clone(), updated_at: n.updated_at }
}

/// Writes a student's note in a project.
pub fn upsert_note(notes: &Vec<Note>, student_id: i32, project_id: i32, text: &str, at: Instant) -> (out:
    Vec<Note>)
    ensures
        out@.map_values(|n: Note| note_view(n)) == after_upsert(
            notes@.map_values(|n: Note| note_view(n)),
            student_id,
            project_id,
            text@,
            at,
        ),
{
    let ghost vs = notes@.map_values(|n: Note| note_view(n));
    let ghost f = |n: (i32, i32, Seq<char>, Instant)|
        if note_of(n, student_id, project_id) {
            (student_id, project_id, text@, at)
        } else {
            n
        };
    let mut out: Vec<Note> = Vec::new();
    let mut found = false;
    let mut i: usize = 0;
    while i < notes.len()
        invariant
            i <= notes.len(),
            vs == notes@.map_values(|n: Note| note_view(n)),
            f == (|n: (i32, i32, Seq<char>, Instant)|
                if note_of(n, student_id, project_id) {
                    (student_id, project_id, text@, at)
                } else {
                    n
                }),
            out@.map_values(|n: Note| note_view(n)) == vs.take(i as int).map_values(f),
            found == has_note(vs.take(i as int), student_id, project_id),
        decreases notes.len() - i,
    {
        let ghost before = out@;
        let n = &notes[i];
        assert(vs[i as int] == note_view(*n));
        if n.student_id == student_id && n.project_id == project_id {
            out.push(Note { student_id, project_id, text: String::from_str(text), updated_at: at });
            found = true;
        } else {
            out.push(copy_note(n));
        }
        assert(out@.map_values(|n: Note| note_view(n)) =~= before.map_values(|n: Note| note_view(n)).push(
            f(vs[i as int]),
        ));
        assert(vs.take(i + 1).map_values(f) =~= vs.take(i as int).map_values(f).push(f(vs[i as int])));
        assert(has_note(vs.take(i + 1), student_id, project_id) == (has_note(vs.take(i as int), student_id, project_id)
            || note_of(vs[i as int], student_id, project_id))) by {
            if has_note(vs.take(i as int), student_id, project_id) {
                let k = choose|k: int| 0 <= k < i && note_of(#[trigger] vs.take(i as int)[k], student_id, project_id);
                assert(vs.take(i + 1)[k] == vs.take(i as int)[k]);
            }
            if note_of(vs[i as int], student_id, project_id) {
                assert(vs.take(i + 1)[i as int] == vs[i as int]);
            }
            if has_note(vs.take(i + 1), student_id, project_id) {
                let k = choose|k: int| 0 <= k < i + 1 && note_of(#[trigger] vs.take(i + 1)[k], student_id, project_id);
                if k < i {
                    assert(vs.take(i as int)[k] == vs.take(i + 1)[k]);
                }
            }
        }
        i = i + 1;
    }
    assert(vs.take(i as int) =~= vs);
    if !found {
        let ghost before = out@;
        out.push(Note { student_id, project_id, text: String::from_str(text), updated_at: at });
        assert(out@.map_values(|n: Note| note_view(n)) =~= before.map_values(|n: Note| note_view(n)).push(
            (student_id, project_id, text@, at),
        ));
        assert forall|k: int| 0 <= k < vs.len() implies f(vs[k]) == vs[k] by {
            assert(!note_of(vs[k], student_id, project_id));
        }
        assert(vs.map_values(f) =~= vs);
    }
    out
}

/// Deletes a student's note in a project; says whether there was one.
pub fn delete_note(notes: &Vec<Note>, student_id: i32, project_id: i32) -> (r: (Vec<Note>, bool))
    ensures
        r.0@.map_values(|n: Note| note_view(n)) == notes@.map_values(|n: Note| note_view(n)).filter(
            other_note(student_id, project_id),
        ),
        r.1 == has_note(notes@.map_values(|n: Note| note_view(n)), student_id, project_id),
{
    let ghost vs = notes@.map_values(|n: Note| note_view(n));
    let ghost pred = other_note(student_id, project_id);
    let mut out: Vec<Note> = Vec::new();
    let mut found = false;
    let mut i: usize = 0;
    while i < notes.len()
        invariant
            i <= notes.len(),
            vs == notes@.map_values(|n: Note| note_view(n)),
            pred == other_note(student_id, project_id),
            out@.map_values(|n: Note| note_view(n)) == vs.take(i as int).filter(pred),
            found == has_note(vs.take(i as int), student_id, project_id),
        decreases notes.len() - i,
    {
        let ghost before = out@;
        let n = &notes[i];
        assert(vs[i as int] == note_view(*n));
        assert(vs.take(i + 1).drop_last() =~= vs.take(i as int));
        assert(vs.take(i + 1).last() == vs[i as int]);
        let mine = n.student_id == student_id && n.project_id == project_id;
        if mine {
            found = true;
        } else {
            out.push(copy_note(n));
            assert(out@.map_values(|n: Note| note_view(n)) =~= before.map_values(|n: Note| note_view(n)).push(
                vs[i as int],
            ));
        }
        proof {
            reveal_with_fuel(Seq::<_>::filter, 1);
            assert(pred(vs[i as int]) == !mine);
        }
        assert(has_note(vs.take(i + 1), student_id, project_id) == (has_note(vs.take(i as int), student_id, project_id)
            || mine)) by {
            if has_note(vs.take(i as int), student_id, project_id) {
                let k = choose|k: int| 0 <= k < i && note_of(#[trigger] vs.take(i as int)[k], student_id, project_id);
                assert(vs.take(i + 1)[k] == vs.take(i as int)[k]);
            }
            if mine {
                assert(vs.take(i + 1)[i as int] == vs[i as int]);
            }
            if has_note(vs.take(i + 1), student_id, project_id) {
                let k = choose|k: int| 0 <= k < i + 1 && note_of(#[trigger] vs.take(i + 1)[k], student_id, project_id);
                if k < i {
                    assert(vs.take(i as int)[k] == vs.take(i + 1)[k]);
                }
            }
        }
        i = i + 1;
    }
    assert(vs.take(i as int) =~= vs);
    (out, found)
}

/// Law: after writing a student's note in a project with a text at a time, the
/// student's note in that project holds exactly that text and time, whether or
/// not a note was there before, and every note of anyone else, or of another
/// project, is there as before.
pub proof fn writing_a_note_sets_text_and_time(
    notes: Seq<(i32, i32, Seq<char>, Instant)>,
    student_id: i32,
    project_id: i32,
    text: Seq<char>,
    at: Instant,
)
    ensures
        after_upsert(notes, student_id, project_id, text, at).contains((student_id, project_id, text, at)),
        forall|k: int|
            0 <= k < after_upsert(notes, student_id, project_id, text, at).len() && note_of(
                #[trigger] after_upsert(notes, student_id, project_id, text, at)[k],
                student_id,
                project_id,
            ) ==> after_upsert(notes, student_id, project_id, text, at)[k] == (student_id, project_id, text, at),
        forall|n: (i32, i32, Seq<char>, Instant)|
            !note_of(n, student_id, project_id) ==> (after_upsert(notes, student_id, project_id, text, at).contains(n)
                <==> #[trigger] notes.contains(n)),
{
    let u = after_upsert(notes, student_id, project_id, text, at);
    let target = (student_id, project_id, text, at);
    if has_note(notes, student_id, project_id) {
        let k = choose|k: int| 0 <= k < notes.len() && note_of(#[trigger] notes[k], student_id, project_id);
        assert(u[k] == target);
        assert forall|n: (i32, i32, Seq<char>, Instant)| !note_of(n, student_id, project_id) implies (u.contains(n)
            <==> #[trigger] notes.contains(n)) by {
            if u.contains(n) {
                let j = choose|j: int| 0 <= j < u.len() && u[j] == n;
                assert(notes[j] == n);
            }
            if notes.contains(n) {
                let j = choose|j: int| 0 <= j < notes.len() && notes[j] == n;
                assert(u[j] == n);
            }
        }
    } else {
        assert(u[notes.len() as int] == target);
        assert forall|k: int| 0 <= k < u.len() && note_of(#[trigger] u[k], student_id, project_id) implies u[k]
            == target by {
            if k < notes.len() {
                assert(u[k] == notes[k]);
            }
        }
        assert forall|n: (i32, i32, Seq<char>, Instant)| !note_of(n, student_id, project_id) implies (u.contains(n)
            <==> #[trigger] notes.contains(n)) by {
            if u.contains(n) {
                let j = choose|j: int| 0 <= j < u.len() && u[j] == n;
                if j < notes.len() {
                    assert(notes[j] == n);
                }
            }
            if notes.contains(n) {
                let j = choose|j: int| 0 <= j < notes.len() && notes[j] == n;
                assert(u[j] == n);
            }
        }
    }
}

/// Law: once a student's note is written, deleting it finds it and leaves no
/// note of the student in the project, so deleting it again finds nothing
/// ("Note not found").
pub proof fn written_note_is_deleted_once(
    notes: Seq<(i32, i32, Seq<char>, Instant)>,
    student_id: i32,
    project_id: i32,
    text: Seq<char>,
    at: Instant,
)
    ensures
        has_note(after_upsert(notes, student_id, project_id, text, at), student_id, project_id),
        !has_note(
            after_upsert(notes, student_id, project_id, text, at).filter(other_note(student_id, project_id)),
            student_id,
            project_id,
        ),
{
    let u = after_upsert(notes, student_id, project_id, text, at);
    if has_note(notes, student_id, project_id) {
        let k = choose|k: int| 0 <= k < notes.len() && note_of(#[trigger] notes[k], student_id, project_id);
        assert(note_of(u[k], student_id, project_id));
    } else {
        assert(note_of(u[notes.len() as int], student_id, project_id));
    }
    let d = u.filter(other_note(student_id, project_id));
    if has_note(d, student_id, project_id) {
        let k = choose|k: int| 0 <= k < d.len() && note_of(#[trigger] d[k], student_id, project_id);
        assert(d.contains(d[k]));
        assert(other_note(student_id, project_id)(d[k]));
    }
}

} // verus!
