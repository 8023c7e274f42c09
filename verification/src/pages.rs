use vstd::prelude::*;

use crate::clock::{current_instant, Instant};
use crate::groups::{
    spec_time_expired, time_expired, DeliverableInfo, GroupLeaderInfo, GroupLookupError,
};
use crate::text::{full_name, spec_full_name};
use crate::membership::{spec_role_label, role_label, GroupMember, GROUP_LEADER_ROLE};
use crate::names::{find_name, name_in, NameEntry};
use crate::text::{decimal, with_number};

verus! {

// ── What the pages are built from ─────────────────────────────────────────
/// A student as the group pages show them.
pub struct StudentRecord {
    pub student_id: i32,
    pub first_name: String,
    pub last_name: String,
    pub email: String,
    pub university_id: i32,
}

/// A student deliverable component.
pub struct ComponentRecord {
    pub component_id: i32,
    pub name: String,
    pub project_id: i32,
}

/// A student's deliverable choice as stored: the deliverable's name (`None` when
/// the deliverable is gone) and, for each of its component rows, the component
/// (`None` when it is gone).
pub struct StudentChoiceRecord {
    pub student_deliverable_id: i32,
    pub deliverable_name: Option<String>,
    pub components: Vec<Option<ComponentRecord>>,
}

/// A student's oral-exam note.
pub struct NoteRecord {
    pub text: String,
    pub updated_at: Instant,
}

/// A membership row with what is looked up about its student: the student
/// (`None` when gone), their deliverable choice in the project, their upload
/// count, oral-exam note and completion time.
pub struct MemberRecord {
    pub member: GroupMember,
    pub student: Option<StudentRecord>,
    pub choice: Option<StudentChoiceRecord>,
    pub upload_count: Option<i32>,
    pub note: Option<NoteRecord>,
    pub completed_at: Option<Instant>,
}

/// A component implementation detail of a group's choice, with the component's
/// name (`None` when the component is gone).
pub struct ImplementationRecord {
    pub id: i32,
    pub component_id: i32,
    pub component_name: Option<String>,
    pub markdown_description: String,
    pub repository_link: String,
    pub created_at: Instant,
    pub updated_at: Instant,
}

/// A group's deliverable choice as stored: the deliverable's name (`None` when
/// the deliverable is gone) and the implementation details of the choice.
pub struct GroupChoiceRecord {
    pub selection_id: i32,
    pub group_deliverable_id: i32,
    pub deliverable_name: Option<String>,
    pub details: Vec<ImplementationRecord>,
}

/// A group: id, name and project.
pub struct GroupHeader {
    pub group_id: i32,
    pub name: String,
    pub project_id: i32,
}

// ── Names with a fallback ────────────────────────────────────────────────
/// The name, or the fallback text followed by the id.
pub open spec fn spec_name_or(name: Option<String>, prefix: Seq<char>, id: i32) -> Seq<char> {
    match name {
        Some(n) => n@,
        None => prefix + decimal(id as int),
    }
}

/// The name, or the fallback text followed by the id.
pub fn name_or(name: &Option<String>, prefix: &str, id: i32) -> (r: String)
    ensures
        r@ == spec_name_or(*name, prefix@, id),
{
    match name {
        Some(n) => n.clone(),
        None => with_number(prefix, id),
    }
}

/// The name found by id in the table, or the fallback text followed by the id.
pub open spec fn spec_table_name_or(table: Seq<NameEntry>, prefix: Seq<char>, id: i32) -> Seq<char> {
    match name_in(table, id) {
        Some(n) => n,
        None => prefix + decimal(id as int),
    }
}

/// The name found by id in the table, or the fallback text followed by the id.
pub fn table_name_or(table: &Vec<NameEntry>, prefix: &str, id: i32) -> (r: String)
    ensures
        r@ == spec_table_name_or(table@, prefix@, id),
{
    let found = find_name(table, id);
    name_or(&found, prefix, id)
}

// ── Student choices ──────────────────────────────────────────────────────
/// What a component shows: id, name, project.
pub open spec fn component_view(c: ComponentRecord) -> (i32, Seq<char>, i32) {
    (c.component_id, c.name@, c.project_id)
}

/// The components that are still there, in order.
pub open spec fn found_components(cs: Seq<Option<ComponentRecord>>) -> Seq<(i32, Seq<char>, i32)>
    decreases cs.len(),
{
    if cs.len() == 0 {
        Seq::empty()
    } else {
        let rest = found_components(cs.drop_last());
        match cs.last() {
            Some(c) => rest.push(component_view(c)),
            None => rest,
        }
    }
}

fn copy_component(c: &ComponentRecord) -> (r: ComponentRecord)
    ensures
        component_view(r) == component_view(*c),
{
    ComponentRecord { component_id: c.component_id, name: c.name.clone(), project_id: c.project_id }
}

/// The components of a choice that are still there.
pub fn components_found(cs: &Vec<Option<ComponentRecord>>) -> (out: Vec<ComponentRecord>)
    ensures
        out@.map_values(|c: ComponentRecord| component_view(c)) == found_components(cs@),
{
    let mut out: Vec<ComponentRecord> = Vec::new();
    let mut i: usize = 0;
    while i < cs.len()
        invariant
            i <= cs.len(),
            out@.map_values(|c: ComponentRecord| component_view(c)) == found_components(
                cs@.take(i as int),
            ),
        decreases cs.len() - i,
    {
        assert(cs@.take(i + 1).drop_last() =~= cs@.take(i as int));
        assert(cs@.take(i + 1).last() == cs@[i as int]);
        let ghost before = out@;
        match &cs[i] {
            Some(c) => {
                out.push(copy_component(c));
                assert(out@.map_values(|c: ComponentRecord| component_view(c)) =~= before.map_values(
                    |c: ComponentRecord| component_view(c),
                ).push(component_view(cs@[i as int]->0)));
            },
            None => {},
        }
        i = i + 1;
    }
    assert(cs@.take(i as int) =~= cs@);
    out
}

/// A student's deliverable choice as the pages show it.
pub struct StudentChoice {
    pub student_deliverable_id: i32,
    pub name: String,
    pub components: Vec<ComponentRecord>,
}

/// What a shown choice holds.
pub open spec fn choice_view(c: StudentChoice) -> (i32, Seq<char>, Seq<(i32, Seq<char>, i32)>) {
    (c.student_deliverable_id, c.name@, c.components@.map_values(|x: ComponentRecord| component_view(x)))
}

/// The shown choice: none without a choice or when its deliverable is gone;
/// else the deliverable with the components still there.
pub open spec fn spec_student_choice(r: Option<StudentChoiceRecord>) -> Option<
    (i32, Seq<char>, Seq<(i32, Seq<char>, i32)>),
> {
    match r {
        Some(c) => match c.deliverable_name {
            Some(n) => Some((c.student_deliverable_id, n@, found_components(c.components@))),
            None => None,
        },
        None => None,
    }
}

/// The view of an optional shown choice.
pub open spec fn opt_choice_view(c: Option<StudentChoice>) -> Option<
    (i32, Seq<char>, Seq<(i32, Seq<char>, i32)>),
> {
    match c {
        Some(x) => Some(choice_view(x)),
        None => None,
    }
}

/// Builds a student's shown choice.
pub fn student_choice(r: &Option<StudentChoiceRecord>) -> (out: Option<StudentChoice>)
    ensures
        opt_choice_view(out) == spec_student_choice(*r),
{
    match r {
        Some(c) => match &c.deliverable_name {
            Some(n) => Some(
                StudentChoice {
                    student_deliverable_id: c.student_deliverable_id,
                    name: n.clone(),
                    components: components_found(&c.components),
                },
            ),
            None => None,
        },
        None => None,
    }
}

// ── Group choices ────────────────────────────────────────────────────────
/// A component implementation detail as the pages show it.
pub struct ImplementationDetail {
    pub id: i32,
    pub component_id: i32,
    pub component_name: String,
    pub markdown_description: String,
    pub repository_link: String,
    pub created_at: Instant,
    pub updated_at: Instant,
}

/// What a shown detail holds.
pub open spec fn detail_view(d: ImplementationDetail) -> (i32, i32, Seq<char>, Seq<char>, Seq<char>, Instant, Instant) {
    (d.id, d.component_id, d.component_name@, d.markdown_description@, d.repository_link@, d.created_at, d.updated_at)
}

/// The shown details: each detail, its component named, or the fallback text
/// and the component's id when the component is gone.
pub open spec fn spec_details(ds: Seq<ImplementationRecord>, prefix: Seq<char>) -> Seq<
    (i32, i32, Seq<char>, Seq<char>, Seq<char>, Instant, Instant),
>
    decreases ds.len(),
{
    if ds.len() == 0 {
        Seq::empty()
    } else {
        let d = ds.last();
        spec_details(ds.drop_last(), prefix).push(
            (
                d.id,
                d.component_id,
                spec_name_or(d.component_name, prefix, d.component_id),
                d.markdown_description@,
                d.repository_link@,
                d.created_at,
                d.updated_at,
            ),
        )
    }
}

/// Builds the shown implementation details.
pub fn implementation_details(ds: &Vec<ImplementationRecord>, prefix: &str) -> (out: Vec<
    ImplementationDetail,
>)
    ensures
        out@.map_values(|d: ImplementationDetail| detail_view(d)) == spec_details(ds@, prefix@),
{
    let mut out: Vec<ImplementationDetail> = Vec::new();
    let mut i: usize = 0;
    while i < ds.len()
        invariant
            i <= ds.len(),
            out@.map_values(|d: ImplementationDetail| detail_view(d)) == spec_details(
                ds@.take(i as int),
                prefix@,
            ),
        decreases ds.len() - i,
    {
        assert(ds@.take(i + 1).drop_last() =~= ds@.take(i as int));
        assert(ds@.take(i + 1).last() == ds@[i as int]);
        let ghost before = out@;
        let d = &ds[i];
        out.push(
            ImplementationDetail {
                id: d.id,
                component_id: d.component_id,
                component_name: name_or(&d.component_name, prefix, d.component_id),
                markdown_description: d.markdown_description.clone(),
                repository_link: d.repository_link.clone(),
                created_at: d.created_at,
                updated_at: d.updated_at,
            },
        );
        assert(out@.map_values(|d: ImplementationDetail| detail_view(d)) =~= before.map_values(
            |d: ImplementationDetail| detail_view(d),
        ).push(detail_view(out@[out.len() - 1])));
        i = i + 1;
    }
    assert(ds@.take(i as int) =~= ds@);
    out
}

/// A group's deliverable choice as the pages show it.
pub struct GroupChoice {
    pub selection_id: i32,
    pub group_deliverable_id: i32,
    pub name: String,
    pub details: Vec<ImplementationDetail>,
}

/// What a shown group choice holds.
pub open spec fn group_choice_view(c: GroupChoice) -> (
    i32,
    i32,
    Seq<char>,
    Seq<(i32, i32, Seq<char>, Seq<char>, Seq<char>, Instant, Instant)>,
) {
    (c.selection_id, c.group_deliverable_id, c.name@, c.details@.map_values(|d: ImplementationDetail| detail_view(d)))
}

/// The shown group choice: none without a choice or when its deliverable is
/// gone; else the deliverable with its implementation details.
pub open spec fn spec_group_choice(r: Option<GroupChoiceRecord>, prefix: Seq<char>) -> Option<
    (i32, i32, Seq<char>, Seq<(i32, i32, Seq<char>, Seq<char>, Seq<char>, Instant, Instant)>),
> {
    match r {
        Some(c) => match c.deliverable_name {
            Some(n) => Some((c.selection_id, c.group_deliverable_id, n@, spec_details(c.details@, prefix))),
            None => None,
        },
        None => None,
    }
}

/// The view of an optional shown group choice.
pub open spec fn opt_group_choice_view(c: Option<GroupChoice>) -> Option<
    (i32, i32, Seq<char>, Seq<(i32, i32, Seq<char>, Seq<char>, Seq<char>, Instant, Instant)>),
> {
    match c {
        Some(x) => Some(group_choice_view(x)),
        None => None,
    }
}

/// Builds a group's shown choice; a gone component is named by `prefix` and its id.
pub fn group_choice(r: &Option<GroupChoiceRecord>, prefix: &str) -> (out: Option<GroupChoice>)
    ensures
        opt_group_choice_view(out) == spec_group_choice(*r, prefix@),
{
    match r {
        Some(c) => match &c.deliverable_name {
            Some(n) => Some(
                GroupChoice {
                    selection_id: c.selection_id,
                    group_deliverable_id: c.group_deliverable_id,
                    name: n.clone(),
                    details: implementation_details(&c.details, prefix),
                },
            ),
            None => None,
        },
        None => None,
    }
}

// ── A group's detail page ────────────────────────────────────────────────
/// A member as the group's detail page shows them.
pub struct MemberDetail {
    pub student_id: i32,
    pub first_name: String,
    pub last_name: String,
    pub email: String,
    pub university_id: i32,
    pub role: String,
    pub choice: Option<StudentChoice>,
}

/// What a shown member holds.
pub open spec fn member_view(m: MemberDetail) -> (
    i32,
    Seq<char>,
    Seq<char>,
    Seq<char>,
    i32,
    Seq<char>,
    Option<(i32, Seq<char>, Seq<(i32, Seq<char>, i32)>)>,
) {
    (m.student_id, m.first_name@, m.last_name@, m.email@, m.university_id, m.role@, opt_choice_view(m.choice))
}

/// The members shown: those whose student is still there, in order, each with
/// the label of their role and their deliverable choice.
pub open spec fn spec_members(ms: Seq<MemberRecord>) -> Seq<
    (
        i32,
        Seq<char>,
        Seq<char>,
        Seq<char>,
        i32,
        Seq<char>,
        Option<(i32, Seq<char>, Seq<(i32, Seq<char>, i32)>)>,
    ),
>
    decreases ms.len(),
{
    if ms.len() == 0 {
        Seq::empty()
    } else {
        let rest = spec_members(ms.drop_last());
        let m = ms.last();
        match m.student {
            Some(st) => rest.push(
                (
                    st.student_id,
                    st.first_name@,
                    st.last_name@,
                    st.email@,
                    st.university_id,
                    spec_role_label(m.member.student_role_id),
                    spec_student_choice(m.choice),
                ),
            ),
            None => rest,
        }
    }
}

/// Builds the members of a group's detail page.
pub fn member_details(ms: &Vec<MemberRecord>) -> (out: Vec<MemberDetail>)
    ensures
        out@.map_values(|m: MemberDetail| member_view(m)) == spec_members(ms@),
{
    let mut out: Vec<MemberDetail> = Vec::new();
    let mut i: usize = 0;
    while i < ms.len()
        invariant
            i <= ms.len(),
            out@.map_values(|m: MemberDetail| member_view(m)) == spec_members(ms@.take(i as int)),
        decreases ms.len() - i,
    {
        assert(ms@.take(i + 1).drop_last() =~= ms@.take(i as int));
        assert(ms@.take(i + 1).last() == ms@[i as int]);
        let ghost before = out@;
        let m = &ms[i];
        match &m.student {
            Some(st) => {
                out.push(
                    MemberDetail {
                        student_id: st.student_id,
                        first_name: st.first_name.clone(),
                        last_name: st.last_name.clone(),
                        email: st.email.clone(),
                        university_id: st.university_id,
                        role: String::from_str(role_label(m.member.student_role_id)),
                        choice: student_choice(&m.choice),
                    },
                );
                assert(out@.map_values(|m: MemberDetail| member_view(m)) =~= before.map_values(
                    |m: MemberDetail| member_view(m),
                ).push(member_view(out@[out.len() - 1])));
            },
            None => {},
        }
        i = i + 1;
    }
    assert(ms@.take(i as int) =~= ms@);
    out
}

/// A group's detail page.
pub struct GroupDetails {
    pub group_id: i32,
    pub name: String,
    pub project_id: i32,
    pub project_name: String,
    pub members: Vec<MemberDetail>,
    pub choice: Option<GroupChoice>,
}

/// Builds a group's detail page. The group must exist (`group`), then its
/// project (`project_name`, looked up only for an existing group). The page
/// shows the members whose student is there, with their roles and deliverable
/// choices, and the group's choice with its implementation details (a gone
/// component named "Unknown Component <id>").
pub fn group_details(
    group: &Option<GroupHeader>,
    project_name: &Option<String>,
    members: &Vec<MemberRecord>,
    choice: &Option<GroupChoiceRecord>,
) -> (r: Result<GroupDetails, GroupLookupError>)
    ensures
        match group {
            None => r == Err::<GroupDetails, GroupLookupError>(GroupLookupError::GroupNotFound),
            Some(g) => match project_name {
                None => r == Err::<GroupDetails, GroupLookupError>(GroupLookupError::ProjectNotFound),
                Some(pn) => r matches Ok(d) && d.group_id == g.group_id && d.name@ == g.name@
                    && d.project_id == g.project_id && d.project_name@ == pn@
                    && d.members@.map_values(|m: MemberDetail| member_view(m)) == spec_members(members@)
                    && opt_group_choice_view(d.choice) == spec_group_choice(*choice, "Unknown Component "@),
            },
        },
{
    let g = match group {
        None => { return Err(GroupLookupError::GroupNotFound) },
        Some(g) => g,
    };
    let pn = match project_name {
        None => { return Err(GroupLookupError::ProjectNotFound) },
        Some(pn) => pn,
    };
    Ok(
        GroupDetails {
            group_id: g.group_id,
            name: g.name.clone(),
            project_id: g.project_id,
            project_name: pn.clone(),
            members: member_details(members),
            choice: group_choice(choice, "Unknown Component "),
        },
    )
}

// ── The groups of a project ──────────────────────────────────────────────
/// A group with its rows and its deliverable choice.
pub struct GroupRecord {
    pub group: GroupHeader,
    pub members: Vec<MemberRecord>,
    pub choice: Option<GroupChoiceRecord>,
}

/// The student of the first leader row whose student is still there.
pub open spec fn first_leader(ms: Seq<MemberRecord>) -> Option<StudentRecord>
    decreases ms.len(),
{
    if ms.len() == 0 {
        None
    } else if ms[0].member.student_role_id == GROUP_LEADER_ROLE && ms[0].student is Some {
        ms[0].student
    } else {
        first_leader(ms.drop_first())
    }
}

/// The leader a group's line shows: the first leader row's student, or a placeholder.
pub open spec fn spec_leader(ms: Seq<MemberRecord>) -> (i32, Seq<char>, Seq<char>) {
    match first_leader(ms) {
        Some(st) => (st.student_id, spec_full_name(st.first_name@, st.last_name@), st.email@),
        None => (0, "Unknown"@, "unknown@example.com"@),
    }
}

/// What a shown leader holds.
pub open spec fn leader_view(l: GroupLeaderInfo) -> (i32, Seq<char>, Seq<char>) {
    (l.student_id, l.name@, l.email@)
}

/// Finds the leader a group's line shows.
pub fn group_leader(ms: &Vec<MemberRecord>) -> (r: GroupLeaderInfo)
    ensures
        leader_view(r) == spec_leader(ms@),
{
    let mut i: usize = 0;
    assert(ms@.skip(0) =~= ms@);
    while i < ms.len()
        invariant
            i <= ms.len(),
            first_leader(ms@) == first_leader(ms@.skip(i as int)),
        decreases ms.len() - i,
    {
        assert(ms@.skip(i as int)[0] == ms@[i as int]);
        let m = &ms[i];
        if m.member.student_role_id == GROUP_LEADER_ROLE {
            match &m.student {
                Some(st) => {
                    return GroupLeaderInfo {
                        student_id: st.student_id,
                        name: full_name(st.first_name.as_str(), st.last_name.as_str()),
                        email: st.email.clone(),
                    };
                },
                None => {},
            }
        }
        assert(ms@.skip(i as int).drop_first() =~= ms@.skip(i + 1));
        i = i + 1;
    }
    GroupLeaderInfo {
        student_id: 0,
        name: String::from_str("Unknown"),
        email: String::from_str("unknown@example.com"),
    }
}

/// The deliverable a group's line shows: none without a choice; else the
/// deliverable's name, or "Unknown Deliverable <id>" when it is gone.
pub open spec fn spec_line_deliverable(c: Option<GroupChoiceRecord>) -> Option<(i32, Seq<char>)> {
    match c {
        Some(x) => Some(
            (x.group_deliverable_id, spec_name_or(x.deliverable_name, "Unknown Deliverable "@, x.group_deliverable_id)),
        ),
        None => None,
    }
}

/// A group's line in the project's group list.
pub struct GroupInfo {
    pub group_id: i32,
    pub name: String,
    pub member_count: i32,
    pub leader: GroupLeaderInfo,
    pub deliverable: Option<DeliverableInfo>,
    pub time_expired: bool,
}

/// What a shown line holds.
pub open spec fn info_view(g: GroupInfo) -> (
    i32,
    Seq<char>,
    i32,
    (i32, Seq<char>, Seq<char>),
    Option<(i32, Seq<char>)>,
    bool,
) {
    (
        g.group_id,
        g.name@,
        g.member_count,
        leader_view(g.leader),
        match g.deliverable {
            Some(d) => Some((d.group_deliverable_id, d.name@)),
            None => None,
        },
        g.time_expired,
    )
}

/// The lines of the project's groups, in order: the member count (as an
/// `i32`), the leader, the chosen deliverable, and whether the group missed
/// the project's deadline at `now`.
pub open spec fn spec_group_lines(gs: Seq<GroupRecord>, deadline: Option<Instant>, now: Instant) -> Seq<
    (i32, Seq<char>, i32, (i32, Seq<char>, Seq<char>), Option<(i32, Seq<char>)>, bool),
>
    decreases gs.len(),
{
    if gs.len() == 0 {
        Seq::empty()
    } else {
        let g = gs.last();
        spec_group_lines(gs.drop_last(), deadline, now).push(
            (
                g.group.group_id,
                g.group.name@,
                g.members@.len() as i32,
                spec_leader(g.members@),
                spec_line_deliverable(g.choice),
                spec_time_expired(deadline, g.choice is Some, now),
            ),
        )
    }
}

fn group_line(g: &GroupRecord, deadline: &Option<Instant>, now: &Instant) -> (r: GroupInfo)
    ensures
        info_view(r) == (
            g.group.group_id,
            g.group.name@,
            g.members@.len() as i32,
            spec_leader(g.members@),
            spec_line_deliverable(g.choice),
            spec_time_expired(*deadline, g.choice is Some, *now),
        ),
{
    let deliverable = match &g.choice {
        Some(c) => Some(
            DeliverableInfo {
                group_deliverable_id: c.group_deliverable_id,
                name: name_or(&c.deliverable_name, "Unknown Deliverable ", c.group_deliverable_id),
            },
        ),
        None => None,
    };
    let count: i32 = #[verifier::truncate] (g.members.len() as i32);
    GroupInfo {
        group_id: g.group.group_id,
        name: g.group.name.clone(),
        member_count: count,
        leader: group_leader(&g.members),
        deliverable,
        time_expired: time_expired(deadline, g.choice.is_some(), now),
    }
}

/// Builds the group list of a project at time `now`; the project must exist.
pub fn project_groups(project_deadline: &Option<Option<Instant>>, groups: &Vec<GroupRecord>, now: &Instant) -> (r:
    Result<Vec<GroupInfo>, GroupLookupError>)
    ensures
        match project_deadline {
            None => r == Err::<Vec<GroupInfo>, GroupLookupError>(GroupLookupError::ProjectNotFound),
            Some(d) => r matches Ok(out) && out@.map_values(|g: GroupInfo| info_view(g))
                == spec_group_lines(groups@, *d, *now),
        },
{
    let deadline = match project_deadline {
        None => { return Err(GroupLookupError::ProjectNotFound) },
        Some(d) => d,
    };
    let mut out: Vec<GroupInfo> = Vec::new();
    let mut i: usize = 0;
    while i < groups.len()
        invariant
            i <= groups.len(),
            project_deadline == Some(*deadline),
            out@.map_values(|g: GroupInfo| info_view(g)) == spec_group_lines(
                groups@.take(i as int),
                *deadline,
                *now,
            ),
        decreases groups.len() - i,
    {
        assert(groups@.take(i + 1).drop_last() =~= groups@.take(i as int));
        assert(groups@.take(i + 1).last() == groups@[i as int]);
        let ghost before = out@;
        out.push(group_line(&groups[i], deadline, now));
        assert(out@.map_values(|g: GroupInfo| info_view(g)) =~= before.map_values(
            |g: GroupInfo| info_view(g),
        ).push(info_view(out@[out.len() - 1])));
        i = i + 1;
    }
    assert(groups@.take(i as int) =~= groups@);
    Ok(out)
}

/// Builds the group list of a project by the clock; gives the time read.
pub fn project_groups_now(project_deadline: &Option<Option<Instant>>, groups: &Vec<GroupRecord>) -> (r: (
    Instant,
    Result<Vec<GroupInfo>, GroupLookupError>,
))
    ensures
        match project_deadline {
            None => r.1 == Err::<Vec<GroupInfo>, GroupLookupError>(GroupLookupError::ProjectNotFound),
            Some(d) => r.1 matches Ok(out) && out@.map_values(|g: GroupInfo| info_view(g))
                == spec_group_lines(groups@, *d, r.0),
        },
{
    let now = current_instant();
    let lines = project_groups(project_deadline, groups, &now);
    (now, lines)
}

// ── The deliverable choices of a project's groups ────────────────────────
/// A group's choice as the project's list of choices shows it.
pub struct SelectionInfo {
    pub group_id: i32,
    pub group_name: String,
    pub choice: GroupChoice,
}

/// What a shown entry holds.
pub open spec fn selection_view(s: SelectionInfo) -> (
    i32,
    Seq<char>,
    (i32, i32, Seq<char>, Seq<(i32, i32, Seq<char>, Seq<char>, Seq<char>, Instant, Instant)>),
) {
    (s.group_id, s.group_name@, group_choice_view(s.choice))
}

/// The entries: the groups, in order, that made a choice whose deliverable is
/// still there, each with the choice and its implementation details (a gone
/// component named "Unknown Component <id>").
pub open spec fn spec_selections(gs: Seq<GroupRecord>) -> Seq<
    (
        i32,
        Seq<char>,
        (i32, i32, Seq<char>, Seq<(i32, i32, Seq<char>, Seq<char>, Seq<char>, Instant, Instant)>),
    ),
>
    decreases gs.len(),
{
    if gs.len() == 0 {
        Seq::empty()
    } else {
        let rest = spec_selections(gs.drop_last());
        let g = gs.last();
        match spec_group_choice(g.choice, "Unknown Component "@) {
            Some(c) => rest.push((g.group.group_id, g.group.name@, c)),
            None => rest,
        }
    }
}

/// Builds the list of the deliverable choices of a project's groups; the
/// project must exist.
pub fn deliverable_selections(project_found: bool, groups: &Vec<GroupRecord>) -> (r: Result<
    Vec<SelectionInfo>,
    GroupLookupError,
>)
    ensures
        !project_found ==> r == Err::<Vec<SelectionInfo>, GroupLookupError>(
            GroupLookupError::ProjectNotFound,
        ),
        project_found ==> (r matches Ok(out) && out@.map_values(|s: SelectionInfo| selection_view(s))
            == spec_selections(groups@)),
{
    if !project_found {
        return Err(GroupLookupError::ProjectNotFound);
    }
    let mut out: Vec<SelectionInfo> = Vec::new();
    let mut i: usize = 0;
    while i < groups.len()
        invariant
            i <= groups.len(),
            out@.map_values(|s: SelectionInfo| selection_view(s)) == spec_selections(
                groups@.take(i as int),
            ),
        decreases groups.len() - i,
    {
        assert(groups@.take(i + 1).drop_last() =~= groups@.take(i as int));
        assert(groups@.take(i + 1).last() == groups@[i as int]);
        let ghost before = out@;
        let g = &groups[i];
        match group_choice(&g.choice, "Unknown Component ") {
            Some(c) => {
                out.push(SelectionInfo { group_id: g.group.group_id, group_name: g.group.name.clone(), choice: c });
                assert(out@.map_values(|s: SelectionInfo| selection_view(s)) =~= before.map_values(
                    |s: SelectionInfo| selection_view(s),
                ).push(selection_view(out@[out.len() - 1])));
            },
            None => {},
        }
        i = i + 1;
    }
    assert(groups@.take(i as int) =~= groups@);
    Ok(out)
}

// ── A group's oral-exam page ─────────────────────────────────────────────
/// A member as the oral-exam page shows them.
pub struct OralMemberDetail {
    pub student_id: i32,
    pub first_name: String,
    pub last_name: String,
    pub email: String,
    pub university_id: i32,
    pub is_leader: bool,
    pub choice: Option<StudentChoice>,
    pub upload_count: Option<i32>,
    pub note: Option<String>,
    pub note_updated_at: Option<Instant>,
    pub completed: bool,
    pub completed_at: Option<Instant>,
}

/// The oral-exam part of a shown member: uploads, note, completion.
pub type OralExamView = (Option<i32>, Option<Seq<char>>, Option<Instant>, bool, Option<Instant>);

/// What a shown member holds.
pub open spec fn oral_member_view(m: OralMemberDetail) -> (
    i32,
    Seq<char>,
    Seq<char>,
    Seq<char>,
    i32,
    bool,
    Option<(i32, Seq<char>, Seq<(i32, Seq<char>, i32)>)>,
    OralExamView,
) {
    (
        m.student_id,
        m.first_name@,
        m.last_name@,
        m.email@,
        m.university_id,
        m.is_leader,
        opt_choice_view(m.choice),
        (
            m.upload_count,
            match m.note {
                Some(n) => Some(n@),
                None => None,
            },
            m.note_updated_at,
            m.completed,
            m.completed_at,
        ),
    )
}

/// The oral-exam part of a member as stored.
pub open spec fn spec_oral_part(m: MemberRecord) -> OralExamView {
    (
        m.upload_count,
        match m.note {
            Some(n) => Some(n.text@),
            None => None,
        },
        match m.note {
            Some(n) => Some(n.updated_at),
            None => None,
        },
        m.completed_at is Some,
        m.completed_at,
    )
}

/// The members shown: those whose student is still there, in order, each
/// marked leader or not, with their choice, uploads, note and completion.
pub open spec fn spec_oral_members(ms: Seq<MemberRecord>) -> Seq<
    (
        i32,
        Seq<char>,
        Seq<char>,
        Seq<char>,
        i32,
        bool,
        Option<(i32, Seq<char>, Seq<(i32, Seq<char>, i32)>)>,
        OralExamView,
    ),
>
    decreases ms.len(),
{
    if ms.len() == 0 {
        Seq::empty()
    } else {
        let rest = spec_oral_members(ms.drop_last());
        let m = ms.last();
        match m.student {
            Some(st) => rest.push(
                (
                    st.student_id,
                    st.first_name@,
                    st.last_name@,
                    st.email@,
                    st.university_id,
                    m.member.student_role_id == GROUP_LEADER_ROLE,
                    spec_student_choice(m.choice),
                    spec_oral_part(m),
                ),
            ),
            None => rest,
        }
    }
}

fn oral_member(m: &MemberRecord, st: &StudentRecord) -> (r: OralMemberDetail)
    requires
        m.student == Some(*st),
    ensures
        oral_member_view(r) == (
            st.student_id,
            st.first_name@,
            st.last_name@,
            st.email@,
            st.university_id,
            m.member.student_role_id == GROUP_LEADER_ROLE,
            spec_student_choice(m.choice),
            spec_oral_part(*m),
        ),
{
    let (note, note_updated_at) = match &m.note {
        Some(n) => (Some(n.text.clone()), Some(n.updated_at)),
        None => (None, None),
    };
    OralMemberDetail {
        student_id: st.student_id,
        first_name: st.first_name.clone(),
        last_name: st.last_name.clone(),
        email: st.email.clone(),
        university_id: st.university_id,
        is_leader: m.member.student_role_id == GROUP_LEADER_ROLE,
        choice: student_choice(&m.choice),
        upload_count: m.upload_count,
        note,
        note_updated_at,
        completed: m.completed_at.is_some(),
        completed_at: m.completed_at,
    }
}

/// Builds the members of a group's oral-exam page.
pub fn oral_members(ms: &Vec<MemberRecord>) -> (out: Vec<OralMemberDetail>)
    ensures
        out@.map_values(|m: OralMemberDetail| oral_member_view(m)) == spec_oral_members(ms@),
{
    let mut out: Vec<OralMemberDetail> = Vec::new();
    let mut i: usize = 0;
    while i < ms.len()
        invariant
            i <= ms.len(),
            out@.map_values(|m: OralMemberDetail| oral_member_view(m)) == spec_oral_members(
                ms@.take(i as int),
            ),
        decreases ms.len() - i,
    {
        assert(ms@.take(i + 1).drop_last() =~= ms@.take(i as int));
        assert(ms@.take(i + 1).last() == ms@[i as int]);
        let ghost before = out@;
        let m = &ms[i];
        match &m.student {
            Some(st) => {
                out.push(oral_member(m, st));
                assert(out@.map_values(|m: OralMemberDetail| oral_member_view(m)) =~= before.map_values(
                    |m: OralMemberDetail| oral_member_view(m),
                ).push(oral_member_view(out@[out.len() - 1])));
            },
            None => {},
        }
        i = i + 1;
    }
    assert(ms@.take(i as int) =~= ms@);
    out
}

/// A complaint between two groups.
pub struct ComplaintRecord {
    pub complaint_id: i32,
    pub transaction_id: i32,
    pub from_group_id: i32,
    pub to_group_id: i32,
    pub text: String,
    pub created_at: Instant,
}

/// A complaint as the oral-exam page shows it, with the other group.
pub struct ComplaintSummary {
    pub complaint_id: i32,
    pub transaction_id: i32,
    pub other_group_id: i32,
    pub other_group_name: String,
    pub text: String,
    pub created_at: Instant,
}

/// What a shown complaint holds.
pub open spec fn complaint_view(c: ComplaintSummary) -> (i32, i32, i32, Seq<char>, Seq<char>, Instant) {
    (c.complaint_id, c.transaction_id, c.other_group_id, c.other_group_name@, c.text@, c.created_at)
}

/// The other group of a complaint: the one it was filed against for a complaint
/// the group filed, the one that filed it for a complaint the group received.
pub open spec fn other_group(c: ComplaintRecord, filed: bool) -> i32 {
    if filed {
        c.to_group_id
    } else {
        c.from_group_id
    }
}

/// The shown complaints, in order, each with the other group named from
/// `names`, or "Group <id>" when that group is gone.
pub open spec fn spec_complaints(cs: Seq<ComplaintRecord>, names: Seq<NameEntry>, filed: bool) -> Seq<
    (i32, i32, i32, Seq<char>, Seq<char>, Instant),
>
    decreases cs.len(),
{
    if cs.len() == 0 {
        Seq::empty()
    } else {
        let c = cs.last();
        spec_complaints(cs.drop_last(), names, filed).push(
            (
                c.complaint_id,
                c.transaction_id,
                other_group(c, filed),
                spec_table_name_or(names, "Group "@, other_group(c, filed)),
                c.text@,
                c.created_at,
            ),
        )
    }
}

/// Builds the shown complaints that the group filed (`filed`) or received.
pub fn complaint_summaries(cs: &Vec<ComplaintRecord>, names: &Vec<NameEntry>, filed: bool) -> (out: Vec<
    ComplaintSummary,
>)
    ensures
        out@.map_values(|c: ComplaintSummary| complaint_view(c)) == spec_complaints(cs@, names@, filed),
{
    let mut out: Vec<ComplaintSummary> = Vec::new();
    let mut i: usize = 0;
    while i < cs.len()
        invariant
            i <= cs.len(),
            out@.map_values(|c: ComplaintSummary| complaint_view(c)) == spec_complaints(
                cs@.take(i as int),
                names@,
                filed,
            ),
        decreases cs.len() - i,
    {
        assert(cs@.take(i + 1).drop_last() =~= cs@.take(i as int));
        assert(cs@.take(i + 1).last() == cs@[i as int]);
        let ghost before = out@;
        let c = &cs[i];
        let other = if filed {
            c.to_group_id
        } else {
            c.from_group_id
        };
        out.push(
            ComplaintSummary {
                complaint_id: c.complaint_id,
                transaction_id: c.transaction_id,
                other_group_id: other,
                other_group_name: table_name_or(names, "Group ", other),
                text: c.text.clone(),
                created_at: c.created_at,
            },
        );
        assert(out@.map_values(|c: ComplaintSummary| complaint_view(c)) =~= before.map_values(
            |c: ComplaintSummary| complaint_view(c),
        ).push(complaint_view(out@[out.len() - 1])));
        i = i + 1;
    }
    assert(cs@.take(i as int) =~= cs@);
    out
}

/// A sale at the fair: a transaction in which another group bought a component
/// of this group's deliverable.
pub struct SaleRecord {
    pub transaction_id: i32,
    pub buyer_group_id: i32,
    pub component_id: i32,
    pub timestamp: Instant,
}

/// A sale as the oral-exam page shows it.
pub struct SaleSummary {
    pub transaction_id: i32,
    pub buyer_group_id: i32,
    pub buyer_group_name: String,
    pub component_name: String,
    pub timestamp: Instant,
}

/// What a shown sale holds.
pub open spec fn sale_view(s: SaleSummary) -> (i32, i32, Seq<char>, Seq<char>, Instant) {
    (s.transaction_id, s.buyer_group_id, s.buyer_group_name@, s.component_name@, s.timestamp)
}

/// The shown sales, in order: the buyer named from `groups` ("Group <id>" when
/// gone) and the component from `components` ("Component <id>" when gone).
pub open spec fn spec_sales(ss: Seq<SaleRecord>, groups: Seq<NameEntry>, components: Seq<NameEntry>) -> Seq<
    (i32, i32, Seq<char>, Seq<char>, Instant),
>
    decreases ss.len(),
{
    if ss.len() == 0 {
        Seq::empty()
    } else {
        let s = ss.last();
        spec_sales(ss.drop_last(), groups, components).push(
            (
                s.transaction_id,
                s.buyer_group_id,
                spec_table_name_or(groups, "Group "@, s.buyer_group_id),
                spec_table_name_or(components, "Component "@, s.component_id),
                s.timestamp,
            ),
        )
    }
}

/// Builds the shown sales.
pub fn sale_summaries(ss: &Vec<SaleRecord>, groups: &Vec<NameEntry>, components: &Vec<NameEntry>) -> (out:
    Vec<SaleSummary>)
    ensures
        out@.map_values(|s: SaleSummary| sale_view(s)) == spec_sales(ss@, groups@, components@),
{
    let mut out: Vec<SaleSummary> = Vec::new();
    let mut i: usize = 0;
    while i < ss.len()
        invariant
            i <= ss.len(),
            out@.map_values(|s: SaleSummary| sale_view(s)) == spec_sales(
                ss@.take(i as int),
                groups@,
                components@,
            ),
        decreases ss.len() - i,
    {
        assert(ss@.take(i + 1).drop_last() =~= ss@.take(i as int));
        assert(ss@.take(i + 1).last() == ss@[i as int]);
        let ghost before = out@;
        let s = &ss[i];
        out.push(
            SaleSummary {
                transaction_id: s.transaction_id,
                buyer_group_id: s.buyer_group_id,
                buyer_group_name: table_name_or(groups, "Group ", s.buyer_group_id),
                component_name: table_name_or(components, "Component ", s.component_id),
                timestamp: s.timestamp,
            },
        );
        assert(out@.map_values(|s: SaleSummary| sale_view(s)) =~= before.map_values(
            |s: SaleSummary| sale_view(s),
        ).push(sale_view(out@[out.len() - 1])));
        i = i + 1;
    }
    assert(ss@.take(i as int) =~= ss@);
    out
}

/// A group's oral-exam page.
pub struct OralExamGroupDetail {
    pub group_id: i32,
    pub name: String,
    pub project_id: i32,
    pub project_name: String,
    pub members: Vec<OralMemberDetail>,
    pub group_deliverable: Option<GroupChoice>,
    pub complaints_filed: Vec<ComplaintSummary>,
    pub complaints_received: Vec<ComplaintSummary>,
    pub fair_sales: Vec<SaleSummary>,
}

/// What is looked up for a group's oral-exam page besides the group itself.
pub struct OralExamRecords {
    pub members: Vec<MemberRecord>,
    pub choice: Option<GroupChoiceRecord>,
    pub complaints_filed: Vec<ComplaintRecord>,
    pub complaints_received: Vec<ComplaintRecord>,
    /// The sales of the group's chosen deliverable at the fair.
    pub sales: Vec<SaleRecord>,
    /// Group names, by group id.
    pub group_names: Vec<NameEntry>,
    /// Group component names, by component id.
    pub component_names: Vec<NameEntry>,
}

/// The page's content once the project and the group are found.
pub open spec fn oral_page_holds(d: OralExamGroupDetail, g: GroupHeader, project_id: i32, pn: String, r: OralExamRecords) -> bool {
    &&& d.group_id == g.group_id
    &&& d.name@ == g.name@
    &&& d.project_id == project_id
    &&& d.project_name@ == pn@
    &&& d.members@.map_values(|m: OralMemberDetail| oral_member_view(m)) == spec_oral_members(r.members@)
    &&& opt_group_choice_view(d.group_deliverable) == spec_group_choice(r.choice, "Component "@)
    &&& d.complaints_filed@.map_values(|c: ComplaintSummary| complaint_view(c)) == spec_complaints(
        r.complaints_filed@,
        r.group_names@,
        true,
    )
    &&& d.complaints_received@.map_values(|c: ComplaintSummary| complaint_view(c)) == spec_complaints(
        r.complaints_received@,
        r.group_names@,
        false,
    )
    &&& d.fair_sales@.map_values(|s: SaleSummary| sale_view(s)) == if spec_group_choice(
        r.choice,
        "Component "@,
    ) is Some {
        spec_sales(r.sales@, r.group_names@, r.component_names@)
    } else {
        Seq::empty()
    }
}

/// Builds a group's oral-exam page for project `project_id`: the project must
/// exist (`project_name`), then the group, which must belong to the project.
/// The page shows the members whose student is there; the group's chosen
/// deliverable with its implementation details (a gone component named
/// "Component <id>"); the complaints the group filed, each naming the group it
/// was filed against, and those it received, each naming the group that filed
/// it ("Group <id>" for a gone group); and, when the chosen deliverable is
/// shown, its sales at the fair.
pub fn oral_exam_group_details(
    project_id: i32,
    project_name: &Option<String>,
    group: &Option<GroupHeader>,
    records: &OralExamRecords,
) -> (r: Result<OralExamGroupDetail, GroupLookupError>)
    ensures
        match project_name {
            None => r == Err::<OralExamGroupDetail, GroupLookupError>(GroupLookupError::ProjectNotFound),
            Some(pn) => match group {
                Some(g) => if g.project_id == project_id {
                    r matches Ok(d) && oral_page_holds(d, *g, project_id, *pn, *records)
                } else {
                    r == Err::<OralExamGroupDetail, GroupLookupError>(GroupLookupError::GroupNotFound)
                },
                None => r == Err::<OralExamGroupDetail, GroupLookupError>(GroupLookupError::GroupNotFound),
            },
        },
{
    let pn = match project_name {
        None => { return Err(GroupLookupError::ProjectNotFound) },
        Some(pn) => pn,
    };
    let g = match group {
        None => { return Err(GroupLookupError::GroupNotFound) },
        Some(g) => g,
    };
    if g.project_id != project_id {
        return Err(GroupLookupError::GroupNotFound);
    }
    let group_deliverable = group_choice(&records.choice, "Component ");
    let fair_sales = if group_deliverable.is_some() {
        sale_summaries(&records.sales, &records.group_names, &records.component_names)
    } else {
        Vec::new()
    };
    let d = OralExamGroupDetail {
        group_id: g.group_id,
        name: g.name.clone(),
        project_id,
        project_name: pn.clone(),
        members: oral_members(&records.members),
        group_deliverable,
        complaints_filed: complaint_summaries(&records.complaints_filed, &records.group_names, true),
        complaints_received: complaint_summaries(&records.complaints_received, &records.group_names, false),
        fair_sales,
    };
    proof {
        if !(spec_group_choice(records.choice, "Component "@) is Some) {
            assert(d.fair_sales@.map_values(|s: SaleSummary| sale_view(s)) =~= Seq::empty());
        }
    }
    Ok(d)
}

// ── What the member lists show ───────────────────────────────────────────
/// A shown member of a group's detail page is the record's student: ids,
/// names, e-mail and university id as stored, marked "Group Leader" exactly
/// when the record's role is the leader's, with the record's deliverable
/// choice (none when there is none or its deliverable is gone).
pub open spec fn shows_record(d: MemberDetail, r: MemberRecord) -> bool {
    &&& r.student is Some
    &&& d.student_id == r.student->0.student_id
    &&& d.first_name@ == r.student->0.first_name@
    &&& d.last_name@ == r.student->0.last_name@
    &&& d.email@ == r.student->0.email@
    &&& d.university_id == r.student->0.university_id
    &&& (d.role@ == "Group Leader"@) == (r.member.student_role_id == GROUP_LEADER_ROLE)
    &&& match r.choice {
        Some(c) => match c.deliverable_name {
            Some(n) => d.choice matches Some(x) && x.student_deliverable_id == c.student_deliverable_id
                && x.name@ == n@,
            None => d.choice is None,
        },
        None => d.choice is None,
    }
}

/// The shown entry is the record's student, with the label of the record's role.
pub open spec fn entry_is_record(
    t: (i32, Seq<char>, Seq<char>, Seq<char>, i32, Seq<char>, Option<(i32, Seq<char>, Seq<(i32, Seq<char>, i32)>)>),
    r: MemberRecord,
) -> bool {
    &&& r.student is Some
    &&& t.0 == r.student->0.student_id
    &&& t.1 == r.student->0.first_name@
    &&& t.2 == r.student->0.last_name@
    &&& t.3 == r.student->0.email@
    &&& t.4 == r.student->0.university_id
    &&& t.5 == spec_role_label(r.member.student_role_id)
    &&& t.6 == spec_student_choice(r.choice)
}

proof fn lemma_members_from_records(ms: Seq<MemberRecord>)
    ensures
        forall|k: int|
            #![trigger spec_members(ms)[k]]
            0 <= k < spec_members(ms).len() ==> exists|j: int|
                0 <= j < ms.len() && entry_is_record(spec_members(ms)[k], #[trigger] ms[j]),
        forall|j: int|
            0 <= j < ms.len() && (#[trigger] ms[j]).student is Some ==> exists|k: int|
                0 <= k < spec_members(ms).len() && #[trigger] spec_members(ms)[k].0 == ms[j].student->0.student_id,
    decreases ms.len(),
{
    if ms.len() > 0 {
        let init = ms.drop_last();
        lemma_members_from_records(init);
        let rest = spec_members(init);
        let out = spec_members(ms);
        assert forall|k: int| #![trigger out[k]] 0 <= k < out.len() implies exists|j: int|
            0 <= j < ms.len() && entry_is_record(out[k], #[trigger] ms[j]) by {
            if k < rest.len() {
                assert(out[k] == rest[k]);
                let j = choose|j: int| 0 <= j < init.len() && entry_is_record(rest[k], #[trigger] init[j]);
                assert(init[j] == ms[j]);
                assert(entry_is_record(out[k], ms[j]));
            } else {
                let last = ms.len() - 1;
                assert(ms[last] == ms.last());
                assert(entry_is_record(out[k], ms[last]));
            }
        }
        assert forall|j: int| 0 <= j < ms.len() && (#[trigger] ms[j]).student is Some implies exists|k: int|
            0 <= k < out.len() && #[trigger] out[k].0 == ms[j].student->0.student_id by {
            if j < init.len() {
                assert(init[j] == ms[j]);
                assert(init[j].student is Some);
                let k = choose|k: int| 0 <= k < rest.len() && #[trigger] rest[k].0 == init[j].student->0.student_id;
                assert(out[k] == rest[k]);
                assert(out[k].0 == ms[j].student->0.student_id);
            } else {
                assert(ms[j] == ms.last());
                let k = rest.len() as int;
                assert(out[k].0 == ms[j].student->0.student_id);
            }
        }
    }
}

proof fn lemma_leader_label(role: i32)
    ensures
        (spec_role_label(role) == "Group Leader"@) == (role == GROUP_LEADER_ROLE),
{
    reveal_strlit("Group Leader");
    reveal_strlit("Member");
    reveal_strlit("Unknown");
    assert("Group Leader"@.len() == 12);
    assert("Member"@.len() == 6);
    assert("Unknown"@.len() == 7);
}

/// Law: a group's detail page shows each member whose student is there as that
/// student is stored (ids, names, e-mail, university id), marked leader exactly
/// when the member's row is the leader's, and leaves out no such member.
pub proof fn detail_page_shows_members_as_stored(ms: Seq<MemberRecord>, out: Seq<MemberDetail>)
    requires
        out.map_values(|m: MemberDetail| member_view(m)) == spec_members(ms),
    ensures
        forall|k: int| 0 <= k < out.len() ==> exists|j: int| 0 <= j < ms.len() && shows_record(#[trigger] out[k], ms[j]),
        forall|j: int|
            0 <= j < ms.len() && (#[trigger] ms[j]).student is Some ==> exists|k: int|
                0 <= k < out.len() && out[k].student_id == ms[j].student->0.student_id,
{
    lemma_members_from_records(ms);
    assert(out.len() == spec_members(ms).len());
    assert forall|k: int| 0 <= k < out.len() implies exists|j: int| 0 <= j < ms.len() && shows_record(#[trigger] out[k], ms[j]) by {
        assert(member_view(out[k]) == spec_members(ms)[k]);
        let j = choose|j: int| 0 <= j < ms.len() && entry_is_record(spec_members(ms)[k], #[trigger] ms[j]);
        lemma_leader_label(ms[j].member.student_role_id);
        assert(shows_record(out[k], ms[j]));
    }
    assert forall|j: int| 0 <= j < ms.len() && (#[trigger] ms[j]).student is Some implies exists|k: int|
        0 <= k < out.len() && out[k].student_id == ms[j].student->0.student_id by {
        let k = choose|k: int| 0 <= k < spec_members(ms).len() && #[trigger] spec_members(ms)[k].0 == ms[j].student->0.student_id;
        assert(member_view(out[k]) == spec_members(ms)[k]);
    }
}

/// A shown member of a group's oral-exam page is the record's student: ids,
/// names, e-mail and university id as stored, marked leader exactly when the
/// record's role is the leader's, with the record's upload count, examiner
/// note and its time, and completion: completed exactly when a completion is
/// recorded, at the recorded time; and with the record's deliverable choice
/// (none when there is none or its deliverable is gone).
pub open spec fn shows_oral_record(d: OralMemberDetail, r: MemberRecord) -> bool {
    &&& r.student is Some
    &&& d.student_id == r.student->0.student_id
    &&& d.first_name@ == r.student->0.first_name@
    &&& d.last_name@ == r.student->0.last_name@
    &&& d.email@ == r.student->0.email@
    &&& d.university_id == r.student->0.university_id
    &&& d.is_leader == (r.member.student_role_id == GROUP_LEADER_ROLE)
    &&& d.upload_count == r.upload_count
    &&& match r.note {
        Some(n) => d.note matches Some(x) && x@ == n.text@ && d.note_updated_at == Some(n.updated_at),
        None => d.note is None && d.note_updated_at is None,
    }
    &&& d.completed == r.completed_at is Some
    &&& d.completed_at == r.completed_at
    &&& match r.choice {
        Some(c) => match c.deliverable_name {
            Some(n) => d.choice matches Some(x) && x.student_deliverable_id == c.student_deliverable_id
                && x.name@ == n@,
            None => d.choice is None,
        },
        None => d.choice is None,
    }
}

/// The shown oral-exam entry is the record's student, with the record's
/// leadership, uploads, note and completion.
pub open spec fn oral_entry_is_record(
    t: (
        i32,
        Seq<char>,
        Seq<char>,
        Seq<char>,
        i32,
        bool,
        Option<(i32, Seq<char>, Seq<(i32, Seq<char>, i32)>)>,
        OralExamView,
    ),
    r: MemberRecord,
) -> bool {
    &&& r.student is Some
    &&& t.0 == r.student->0.student_id
    &&& t.1 == r.student->0.first_name@
    &&& t.2 == r.student->0.last_name@
    &&& t.3 == r.student->0.email@
    &&& t.4 == r.student->0.university_id
    &&& t.5 == (r.member.student_role_id == GROUP_LEADER_ROLE)
    &&& t.7.0 == r.upload_count
    &&& t.7.1 == (match r.note {
        Some(n) => Some(n.text@),
        None => None,
    })
    &&& t.7.2 == (match r.note {
        Some(n) => Some(n.updated_at),
        None => None,
    })
    &&& t.7.3 == r.completed_at is Some
    &&& t.7.4 == r.completed_at
    &&& t.6 == spec_student_choice(r.choice)
}

proof fn lemma_oral_members_from_records(ms: Seq<MemberRecord>)
    ensures
        forall|k: int|
            #![trigger spec_oral_members(ms)[k]]
            0 <= k < spec_oral_members(ms).len() ==> exists|j: int|
                0 <= j < ms.len() && oral_entry_is_record(spec_oral_members(ms)[k], #[trigger] ms[j]),
        forall|j: int|
            0 <= j < ms.len() && (#[trigger] ms[j]).student is Some ==> exists|k: int|
                0 <= k < spec_oral_members(ms).len() && #[trigger] spec_oral_members(ms)[k].0
                    == ms[j].student->0.student_id,
    decreases ms.len(),
{
    if ms.len() > 0 {
        let init = ms.drop_last();
        lemma_oral_members_from_records(init);
        let rest = spec_oral_members(init);
        let out = spec_oral_members(ms);
        assert forall|k: int| #![trigger out[k]] 0 <= k < out.len() implies exists|j: int|
            0 <= j < ms.len() && oral_entry_is_record(out[k], #[trigger] ms[j]) by {
            if k < rest.len() {
                assert(out[k] == rest[k]);
                let j = choose|j: int| 0 <= j < init.len() && oral_entry_is_record(rest[k], #[trigger] init[j]);
                assert(init[j] == ms[j]);
                assert(oral_entry_is_record(out[k], ms[j]));
            } else {
                let last = ms.len() - 1;
                assert(ms[last] == ms.last());
                assert(oral_entry_is_record(out[k], ms[last]));
            }
        }
        assert forall|j: int| 0 <= j < ms.len() && (#[trigger] ms[j]).student is Some implies exists|k: int|
            0 <= k < out.len() && #[trigger] out[k].0 == ms[j].student->0.student_id by {
            if j < init.len() {
                assert(init[j] == ms[j]);
                assert(init[j].student is Some);
                let k = choose|k: int| 0 <= k < rest.len() && #[trigger] rest[k].0 == init[j].student->0.student_id;
                assert(out[k] == rest[k]);
                assert(out[k].0 == ms[j].student->0.student_id);
            } else {
                assert(ms[j] == ms.last());
                let k = rest.len() as int;
                assert(out[k].0 == ms[j].student->0.student_id);
            }
        }
    }
}

/// Law: a group's oral-exam page shows each member whose student is there as
/// stored, with the record's uploads, examiner note and completion (completed
/// exactly when a completion is recorded, at the recorded time), and leaves out
/// no such member.
pub proof fn oral_page_shows_members_as_stored(ms: Seq<MemberRecord>, out: Seq<OralMemberDetail>)
    requires
        out.map_values(|m: OralMemberDetail| oral_member_view(m)) == spec_oral_members(ms),
    ensures
        forall|k: int| 0 <= k < out.len() ==> exists|j: int| 0 <= j < ms.len() && shows_oral_record(#[trigger] out[k], ms[j]),
        forall|j: int|
            0 <= j < ms.len() && (#[trigger] ms[j]).student is Some ==> exists|k: int|
                0 <= k < out.len() && out[k].student_id == ms[j].student->0.student_id,
{
    lemma_oral_members_from_records(ms);
    assert(out.len() == spec_oral_members(ms).len());
    assert forall|k: int| 0 <= k < out.len() implies exists|j: int| 0 <= j < ms.len() && shows_oral_record(#[trigger] out[k], ms[j]) by {
        assert(oral_member_view(out[k]) == spec_oral_members(ms)[k]);
        let j = choose|j: int| 0 <= j < ms.len() && oral_entry_is_record(spec_oral_members(ms)[k], #[trigger] ms[j]);
        assert(shows_oral_record(out[k], ms[j]));
    }
    assert forall|j: int| 0 <= j < ms.len() && (#[trigger] ms[j]).student is Some implies exists|k: int|
        0 <= k < out.len() && out[k].student_id == ms[j].student->0.student_id by {
        let k = choose|k: int|
            0 <= k < spec_oral_members(ms).len() && #[trigger] spec_oral_members(ms)[k].0 == ms[j].student->0.student_id;
        assert(oral_member_view(out[k]) == spec_oral_members(ms)[k]);
    }
}

} // verus!
