use vstd::prelude::*;

use crate::clock::Instant;
use crate::text::{full_name, spec_full_name};

verus! {

/// The role id of a group's leader.
pub const GROUP_LEADER_ROLE: i32 = 1;

/// The role id of an ordinary member.
pub const MEMBER_ROLE: i32 = 2;

/// One membership row: a student in a group, with a role.
#[derive(Clone, Copy, Debug, PartialEq, Eq, Structural)]
pub struct GroupMember {
    pub group_member_id: i32,
    pub group_id: i32,
    pub student_id: i32,
    pub student_role_id: i32,
    pub joined_at: Instant,
}

/// The label of a role in a group's detail page.
pub open spec fn spec_role_label(role_id: i32) -> Seq<char> {
    if role_id == GROUP_LEADER_ROLE {
        "Group Leader"@
    } else if role_id == MEMBER_ROLE {
        "Member"@
    } else {
        "Unknown"@
    }
}

/// "Group Leader", "Member" or "Unknown", by role id.
pub fn role_label(role_id: i32) -> (r: &'static str)
    ensures
        r@ == spec_role_label(role_id),
{
    if role_id == GROUP_LEADER_ROLE {
        "Group Leader"
    } else if role_id == MEMBER_ROLE {
        "Member"
    } else {
        "Unknown"
    }
}

/// The label used in answers to membership changes: a leader, or else a member.
pub fn member_label(role_id: i32) -> (r: &'static str)
    ensures
        r@ == (if role_id == GROUP_LEADER_ROLE {
            "Group Leader"@
        } else {
            "Member"@
        }),
{
    if role_id == GROUP_LEADER_ROLE {
        "Group Leader"
    } else {
        "Member"
    }
}

// ── Finding a member ──────────────────────────────────────────────────────
/// The first membership row of `student_id`, if any.
pub open spec fn first_row_of(members: Seq<GroupMember>, student_id: i32) -> Option<GroupMember>
    decreases members.len(),
{
    if members.len() == 0 {
        None
    } else if members[0].student_id == student_id {
        Some(members[0])
    } else {
        first_row_of(members.drop_first(), student_id)
    }
}

/// The membership row of a student in the group: the first one listed.
pub fn find_member(members: &Vec<GroupMember>, student_id: i32) -> (r: Option<GroupMember>)
    ensures
        r == first_row_of(members@, student_id),
{
    let mut i: usize = 0;
    assert(members@.skip(0) =~= members@);
    while i < members.len()
        invariant
            i <= members.len(),
            first_row_of(members@, student_id) == first_row_of(members@.skip(i as int), student_id),
        decreases members.len() - i,
    {
        assert(members@.skip(i as int)[0] == members@[i as int]);
        if members[i].student_id == student_id {
            return Some(members[i]);
        }
        assert(members@.skip(i as int).drop_first() =~= members@.skip(i + 1));
        i = i + 1;
    }
    None
}

// ── Transferring leadership ───────────────────────────────────────────────
/// The last leader row in the list: the one a scan over all rows keeps.
pub open spec fn last_leader(members: Seq<GroupMember>) -> Option<GroupMember>
    decreases members.len(),
{
    if members.len() == 0 {
        None
    } else if members.last().student_role_id == GROUP_LEADER_ROLE {
        Some(members.last())
    } else {
        last_leader(members.drop_last())
    }
}

/// The last non-leader row of `student_id` in the list.
pub open spec fn last_candidate(members: Seq<GroupMember>, student_id: i32) -> Option<GroupMember>
    decreases members.len(),
{
    if members.len() == 0 {
        None
    } else if members.last().student_role_id != GROUP_LEADER_ROLE && members.last().student_id
        == student_id {
        Some(members.last())
    } else {
        last_candidate(members.drop_last(), student_id)
    }
}

/// What a leadership transfer changes: the row of the current leader, the row of
/// the new one, and whether the old leader leaves the group or becomes a member.
#[derive(Clone, Copy, Debug, PartialEq, Eq, Structural)]
pub struct LeadershipPlan {
    pub old_leader: GroupMember,
    pub new_leader: GroupMember,
    pub remove_old_leader: bool,
}

/// Why a leadership transfer is refused.
#[derive(Clone, Copy, Debug, PartialEq, Eq, Structural)]
pub enum TransferError {
    /// No member of the group is its leader (400).
    NoCurrentLeader,
    /// The chosen student is not a non-leader member of the group (404).
    NewLeaderNotInGroup,
    /// The student of the current or of the new leader's row is gone (404).
    StudentNotFound,
}

impl TransferError {
    /// The HTTP status of the answer.
    pub fn status(&self) -> (s: u16)
        ensures
            s == (match self {
                TransferError::NoCurrentLeader => 400u16,
                TransferError::NewLeaderNotInGroup => 404u16,
                TransferError::StudentNotFound => 404u16,
            }),
    {
        match self {
            TransferError::NoCurrentLeader => 400,
            TransferError::NewLeaderNotInGroup => 404,
            TransferError::StudentNotFound => 404,
        }
    }

    /// The message shown to the client.
    pub fn message(&self) -> (m: &'static str)
        ensures
            m@ == (match self {
                TransferError::NoCurrentLeader => "Group has no leader"@,
                TransferError::NewLeaderNotInGroup => "New leader not found in group"@,
                TransferError::StudentNotFound => "Student not found"@,
            }),
    {
        match self {
            TransferError::NoCurrentLeader => "Group has no leader",
            TransferError::NewLeaderNotInGroup => "New leader not found in group",
            TransferError::StudentNotFound => "Student not found",
        }
    }
}

/// The verdict on a leadership transfer over the group's rows.
pub open spec fn spec_plan_transfer(
    members: Seq<GroupMember>,
    new_leader_student_id: i32,
    remove_old_leader: bool,
) -> Result<LeadershipPlan, TransferError> {
    match last_leader(members) {
        None => Err(TransferError::NoCurrentLeader),
        Some(old) => match last_candidate(members, new_leader_student_id) {
            None => Err(TransferError::NewLeaderNotInGroup),
            Some(new) => Ok(
                LeadershipPlan { old_leader: old, new_leader: new, remove_old_leader },
            ),
        },
    }
}

/// Decides a transfer of leadership: the current leader is the last leader row,
/// the new leader the last non-leader row of the chosen student.
pub fn plan_leadership_transfer(
    members: &Vec<GroupMember>,
    new_leader_student_id: i32,
    remove_old_leader: bool,
) -> (r: Result<LeadershipPlan, TransferError>)
    ensures
        r == spec_plan_transfer(members@, new_leader_student_id, remove_old_leader),
{
    let mut current: Option<GroupMember> = None;
    let mut chosen: Option<GroupMember> = None;
    let mut i: usize = 0;
    while i < members.len()
        invariant
            i <= members.len(),
            current == last_leader(members@.take(i as int)),
            chosen == last_candidate(members@.take(i as int), new_leader_student_id),
        decreases members.len() - i,
    {
        assert(members@.take(i + 1).drop_last() =~= members@.take(i as int));
        let m = members[i];
        if m.student_role_id == GROUP_LEADER_ROLE {
            current = Some(m);
        } else if m.student_id == new_leader_student_id {
            chosen = Some(m);
        }
        i = i + 1;
    }
    assert(members@.take(i as int) =~= members@);
    match current {
        None => Err(TransferError::NoCurrentLeader),
        Some(old) => match chosen {
            None => Err(TransferError::NewLeaderNotInGroup),
            Some(new) => Ok(LeadershipPlan { old_leader: old, new_leader: new, remove_old_leader }),
        },
    }
}

/// After a transfer is planned, the students of both rows are looked up: the
/// current leader's first, then the new leader's; both must exist.
pub fn check_transfer_students(current_found: bool, new_found: bool) -> (r: Result<(), TransferError>)
    ensures
        r == (if current_found && new_found {
            Ok::<(), TransferError>(())
        } else {
            Err::<(), TransferError>(TransferError::StudentNotFound)
        }),
{
    if current_found && new_found {
        Ok(())
    } else {
        Err(TransferError::StudentNotFound)
    }
}

/// The row leaves the group under the plan.
pub open spec fn leaves(m: GroupMember, plan: LeadershipPlan) -> bool {
    plan.remove_old_leader && m.group_member_id == plan.old_leader.group_member_id
}

/// The row with its role after the transfer: the old leader's row is demoted to
/// member first, then the new leader's row is promoted to leader.
pub open spec fn retitled(m: GroupMember, plan: LeadershipPlan) -> GroupMember {
    if m.group_member_id == plan.new_leader.group_member_id {
        GroupMember { student_role_id: GROUP_LEADER_ROLE, ..m }
    } else if m.group_member_id == plan.old_leader.group_member_id {
        GroupMember { student_role_id: MEMBER_ROLE, ..m }
    } else {
        m
    }
}

/// The rows of the group once the transfer is carried out.
pub open spec fn after_transfer(members: Seq<GroupMember>, plan: LeadershipPlan) -> Seq<GroupMember>
    decreases members.len(),
{
    if members.len() == 0 {
        members
    } else {
        let rest = after_transfer(members.drop_last(), plan);
        if leaves(members.last(), plan) {
            rest
        } else {
            rest.push(retitled(members.last(), plan))
        }
    }
}

/// The rows of the group once the transfer is carried out: the old leader removed
/// or demoted, the new leader promoted, every other row as it was.
pub fn apply_leadership_transfer(members: &Vec<GroupMember>, plan: &LeadershipPlan) -> (out: Vec<
    GroupMember,
>)
    ensures
        out@ == after_transfer(members@, *plan),
{
    let mut out: Vec<GroupMember> = Vec::new();
    let mut i: usize = 0;
    while i < members.len()
        invariant
            i <= members.len(),
            out@ == after_transfer(members@.take(i as int), *plan),
        decreases members.len() - i,
    {
        assert(members@.take(i + 1).drop_last() =~= members@.take(i as int));
        let m = members[i];
        let leaving = plan.remove_old_leader && m.group_member_id
            == plan.old_leader.group_member_id;
        if !leaving {
            let role = if m.group_member_id == plan.new_leader.group_member_id {
                GROUP_LEADER_ROLE
            } else if m.group_member_id == plan.old_leader.group_member_id {
                MEMBER_ROLE
            } else {
                m.student_role_id
            };
            out.push(GroupMember { student_role_id: role, ..m });
        }
        i = i + 1;
    }
    assert(members@.take(i as int) =~= members@);
    out
}

/// No two rows share a membership id.
pub open spec fn ids_unique(members: Seq<GroupMember>) -> bool {
    forall|a: int, b: int|
        0 <= a < b < members.len() ==> #[trigger] members[a].group_member_id
            != #[trigger] members[b].group_member_id
}

/// The row `group_member_id` is in the group, and it is the only leader row.
pub open spec fn sole_leader(members: Seq<GroupMember>, group_member_id: i32) -> bool {
    &&& exists|k: int| 0 <= k < members.len() && #[trigger] members[k].group_member_id == group_member_id
    &&& forall|k: int|
        0 <= k < members.len() ==> (#[trigger] members[k].student_role_id == GROUP_LEADER_ROLE
            <==> members[k].group_member_id == group_member_id)
}

proof fn lemma_last_leader_in(members: Seq<GroupMember>)
    ensures
        last_leader(members) matches Some(m) ==> members.contains(m) && m.student_role_id
            == GROUP_LEADER_ROLE,
    decreases members.len(),
{
    if members.len() > 0 && members.last().student_role_id != GROUP_LEADER_ROLE {
        lemma_last_leader_in(members.drop_last());
        if last_leader(members.drop_last()) is Some {
            let m = last_leader(members.drop_last())->0;
            let k = choose|k: int| 0 <= k < members.drop_last().len() && members.drop_last()[k] == m;
            assert(members[k] == m);
        }
    } else if members.len() > 0 {
        assert(members[members.len() - 1] == members.last());
    }
}

proof fn lemma_last_candidate_in(members: Seq<GroupMember>, student_id: i32)
    ensures
        last_candidate(members, student_id) matches Some(m) ==> members.contains(m)
            && m.student_role_id != GROUP_LEADER_ROLE && m.student_id == student_id,
    decreases members.len(),
{
    if members.len() > 0 {
        if members.last().student_role_id != GROUP_LEADER_ROLE && members.last().student_id
            == student_id {
            assert(members[members.len() - 1] == members.last());
        } else {
            lemma_last_candidate_in(members.drop_last(), student_id);
            if last_candidate(members.drop_last(), student_id) is Some {
                let m = last_candidate(members.drop_last(), student_id)->0;
                let k = choose|k: int|
                    0 <= k < members.drop_last().len() && members.drop_last()[k] == m;
                assert(members[k] == m);
            }
        }
    }
}

proof fn lemma_last_leader_exists(members: Seq<GroupMember>)
    requires
        exists|j: int| 0 <= j < members.len() && #[trigger] members[j].student_role_id == GROUP_LEADER_ROLE,
    ensures
        last_leader(members) is Some,
    decreases members.len(),
{
    let j = choose|j: int| 0 <= j < members.len() && #[trigger] members[j].student_role_id == GROUP_LEADER_ROLE;
    if members.last().student_role_id != GROUP_LEADER_ROLE {
        assert(j < members.len() - 1);
        assert(members.drop_last()[j] == members[j]);
        lemma_last_leader_exists(members.drop_last());
    }
}

proof fn lemma_last_candidate_exists(members: Seq<GroupMember>, student_id: i32)
    requires
        exists|j: int|
            0 <= j < members.len() && #[trigger] members[j].student_role_id != GROUP_LEADER_ROLE
                && members[j].student_id == student_id,
    ensures
        last_candidate(members, student_id) is Some,
    decreases members.len(),
{
    let j = choose|j: int|
        0 <= j < members.len() && #[trigger] members[j].student_role_id != GROUP_LEADER_ROLE
            && members[j].student_id == student_id;
    if !(members.last().student_role_id != GROUP_LEADER_ROLE && members.last().student_id == student_id) {
        assert(j < members.len() - 1);
        assert(members.drop_last()[j] == members[j]);
        lemma_last_candidate_exists(members.drop_last(), student_id);
    }
}

/// Law: a transfer is decided by what rows the group has, wherever they stand:
/// without a leader row it is refused as "Group has no leader"; with one, it is
/// refused as "New leader not found in group" exactly when the chosen student
/// has no non-leader row; otherwise it is accepted, the old leader being one of
/// the group's leader rows and the new leader one of the chosen student's
/// non-leader rows, with the choice to remove the old leader kept.
pub proof fn transfer_accepted_iff_leader_and_candidate(
    members: Seq<GroupMember>,
    new_leader_student_id: i32,
    remove_old_leader: bool,
)
    ensures
        !(exists|j: int| 0 <= j < members.len() && #[trigger] members[j].student_role_id == GROUP_LEADER_ROLE)
            ==> spec_plan_transfer(members, new_leader_student_id, remove_old_leader) == Err::<
            LeadershipPlan,
            TransferError,
        >(TransferError::NoCurrentLeader),
        (exists|j: int| 0 <= j < members.len() && #[trigger] members[j].student_role_id == GROUP_LEADER_ROLE)
            && !(exists|j: int|
            0 <= j < members.len() && #[trigger] members[j].student_role_id != GROUP_LEADER_ROLE
                && members[j].student_id == new_leader_student_id) ==> spec_plan_transfer(
            members,
            new_leader_student_id,
            remove_old_leader,
        ) == Err::<LeadershipPlan, TransferError>(TransferError::NewLeaderNotInGroup),
        (exists|j: int| 0 <= j < members.len() && #[trigger] members[j].student_role_id == GROUP_LEADER_ROLE)
            && (exists|j: int|
            0 <= j < members.len() && #[trigger] members[j].student_role_id != GROUP_LEADER_ROLE
                && members[j].student_id == new_leader_student_id) ==> (spec_plan_transfer(
            members,
            new_leader_student_id,
            remove_old_leader,
        ) matches Ok(plan) && members.contains(plan.old_leader) && plan.old_leader.student_role_id
            == GROUP_LEADER_ROLE && members.contains(plan.new_leader)
            && plan.new_leader.student_role_id != GROUP_LEADER_ROLE && plan.new_leader.student_id
            == new_leader_student_id && plan.remove_old_leader == remove_old_leader),
{
    lemma_last_leader_in(members);
    lemma_last_candidate_in(members, new_leader_student_id);
    if exists|j: int| 0 <= j < members.len() && #[trigger] members[j].student_role_id == GROUP_LEADER_ROLE {
        lemma_last_leader_exists(members);
    } else {
        if last_leader(members) is Some {
            let m = last_leader(members)->0;
            let k = choose|k: int| 0 <= k < members.len() && members[k] == m;
            assert(members[k].student_role_id == GROUP_LEADER_ROLE);
        }
    }
    if exists|j: int|
        0 <= j < members.len() && #[trigger] members[j].student_role_id != GROUP_LEADER_ROLE
            && members[j].student_id == new_leader_student_id {
        lemma_last_candidate_exists(members, new_leader_student_id);
    } else {
        if last_candidate(members, new_leader_student_id) is Some {
            let m = last_candidate(members, new_leader_student_id)->0;
            let k = choose|k: int| 0 <= k < members.len() && members[k] == m;
            assert(members[k].student_role_id != GROUP_LEADER_ROLE);
        }
    }
}

/// What the rows after a transfer are made of, and how many there are.
proof fn lemma_after_transfer(members: Seq<GroupMember>, plan: LeadershipPlan)
    ensures
        forall|k: int|
            0 <= k < after_transfer(members, plan).len() ==> exists|j: int|
                0 <= j < members.len() && !leaves(members[j], plan) && #[trigger] after_transfer(
                    members,
                    plan,
                )[k] == retitled(members[j], plan),
        forall|j: int|
            0 <= j < members.len() && !leaves(#[trigger] members[j], plan) ==> after_transfer(
                members,
                plan,
            ).contains(retitled(members[j], plan)),
        ids_unique(members) ==> ids_unique(after_transfer(members, plan)),
    decreases members.len(),
{
    if members.len() > 0 {
        let init = members.drop_last();
        let last = members.last();
        let rest = after_transfer(init, plan);
        lemma_after_transfer(init, plan);
        let out = after_transfer(members, plan);
        assert forall|k: int| 0 <= k < out.len() implies exists|j: int|
            0 <= j < members.len() && !leaves(members[j], plan) && #[trigger] out[k] == retitled(
                members[j],
                plan,
            ) by {
            if k < rest.len() {
                let j = choose|j: int|
                    0 <= j < init.len() && !leaves(init[j], plan) && #[trigger] rest[k] == retitled(
                        init[j],
                        plan,
                    );
                assert(members[j] == init[j]);
                assert(out[k] == rest[k]);
            } else {
                assert(members[members.len() - 1] == last);
            }
        }
        assert forall|j: int| 0 <= j < members.len() && !leaves(#[trigger] members[j], plan) implies out.contains(
            retitled(members[j], plan),
        ) by {
            if j < init.len() {
                assert(init[j] == members[j]);
                assert(rest.contains(retitled(init[j], plan)));
                let k = choose|k: int| 0 <= k < rest.len() && rest[k] == retitled(init[j], plan);
                assert(out[k] == rest[k]);
            } else {
                assert(members[j] == last);
                assert(out[out.len() - 1] == retitled(last, plan));
            }
        }
        if ids_unique(members) {
            assert(ids_unique(init)) by {
                assert forall|a: int, b: int| 0 <= a < b < init.len() implies #[trigger] init[a].group_member_id
                    != #[trigger] init[b].group_member_id by {
                    assert(init[a] == members[a] && init[b] == members[b]);
                }
            }
            if !leaves(last, plan) {
                assert forall|a: int, b: int| 0 <= a < b < out.len() implies #[trigger] out[a].group_member_id
                    != #[trigger] out[b].group_member_id by {
                    if b < rest.len() {
                        assert(out[a] == rest[a] && out[b] == rest[b]);
                    } else {
                        assert(out[a] == rest[a]);
                        let j = choose|j: int|
                            0 <= j < init.len() && !leaves(init[j], plan) && #[trigger] rest[a]
                                == retitled(init[j], plan);
                        assert(init[j] == members[j]);
                        assert(members[members.len() - 1] == last);
                    }
                }
            }
        }
    }
}

/// How many rows carry the membership id `id`.
pub open spec fn rows_with_id(members: Seq<GroupMember>, id: i32) -> nat
    decreases members.len(),
{
    if members.len() == 0 {
        0
    } else {
        rows_with_id(members.drop_last(), id) + if members.last().group_member_id == id {
            1nat
        } else {
            0nat
        }
    }
}

proof fn lemma_rows_with_id(members: Seq<GroupMember>, plan: LeadershipPlan)
    ensures
        after_transfer(members, plan).len() + (if plan.remove_old_leader {
            rows_with_id(members, plan.old_leader.group_member_id)
        } else {
            0
        }) == members.len(),
        ids_unique(members) ==> rows_with_id(members, plan.old_leader.group_member_id) <= 1,
        members.contains(plan.old_leader) ==> rows_with_id(members, plan.old_leader.group_member_id)
            >= 1,
    decreases members.len(),
{
    if members.len() > 0 {
        let init = members.drop_last();
        lemma_rows_with_id(init, plan);
        if ids_unique(members) {
            assert(ids_unique(init)) by {
                assert forall|a: int, b: int| 0 <= a < b < init.len() implies #[trigger] init[a].group_member_id
                    != #[trigger] init[b].group_member_id by {
                    assert(init[a] == members[a] && init[b] == members[b]);
                }
            }
            if members.last().group_member_id == plan.old_leader.group_member_id {
                lemma_rows_zero(init, members.last().group_member_id, members);
            }
        }
        if members.contains(plan.old_leader) {
            let k = choose|k: int| 0 <= k < members.len() && members[k] == plan.old_leader;
            if k < init.len() {
                assert(init[k] == plan.old_leader);
            }
        }
    }
}

proof fn lemma_rows_zero(init: Seq<GroupMember>, id: i32, members: Seq<GroupMember>)
    requires
        members.len() > 0,
        init == members.drop_last(),
        ids_unique(members),
        members.last().group_member_id == id,
    ensures
        rows_with_id(init, id) == 0,
{
    assert forall|k: int| 0 <= k < init.len() implies init[k].group_member_id != id by {
        assert(init[k] == members[k]);
        assert(members[members.len() - 1] == members.last());
    }
    lemma_rows_absent(init, id);
}

proof fn lemma_rows_absent(s: Seq<GroupMember>, id: i32)
    requires
        forall|k: int| 0 <= k < s.len() ==> s[k].group_member_id != id,
    ensures
        rows_with_id(s, id) == 0,
    decreases s.len(),
{
    if s.len() > 0 {
        assert forall|k: int| 0 <= k < s.drop_last().len() implies s.drop_last()[k].group_member_id
            != id by {
            assert(s.drop_last()[k] == s[k]);
        }
        lemma_rows_absent(s.drop_last(), id);
        assert(s[s.len() - 1] == s.last());
    }
}

/// Law: in a group whose membership ids are distinct and which has exactly one
/// leader, an accepted leadership transfer leaves exactly one leader, the chosen
/// student; the old leader stays as a member or leaves the group; every other
/// row stays as it was, and no row joins.
pub proof fn leadership_transfer_keeps_one_leader(
    members: Seq<GroupMember>,
    leader_row: i32,
    new_leader_student_id: i32,
    remove_old_leader: bool,
)
    requires
        ids_unique(members),
        sole_leader(members, leader_row),
        spec_plan_transfer(members, new_leader_student_id, remove_old_leader) is Ok,
    ensures
        ({
            let plan = spec_plan_transfer(members, new_leader_student_id, remove_old_leader)->Ok_0;
            let after = after_transfer(members, plan);
            &&& ids_unique(after)
            &&& sole_leader(after, plan.new_leader.group_member_id)
            &&& plan.new_leader.student_id == new_leader_student_id
            &&& after.len() == if remove_old_leader {
                members.len() - 1
            } else {
                members.len() as int
            }
            &&& after.contains(GroupMember { student_role_id: GROUP_LEADER_ROLE, ..plan.new_leader })
            &&& !remove_old_leader ==> after.contains(
                GroupMember { student_role_id: MEMBER_ROLE, ..plan.old_leader },
            )
            &&& remove_old_leader ==> forall|k: int|
                0 <= k < after.len() ==> #[trigger] after[k].group_member_id
                    != plan.old_leader.group_member_id
            &&& forall|j: int|
                0 <= j < members.len() && #[trigger] members[j].group_member_id
                    != plan.old_leader.group_member_id && members[j].group_member_id
                    != plan.new_leader.group_member_id ==> after.contains(members[j])
            &&& forall|k: int|
                0 <= k < after.len() ==> exists|j: int|
                    0 <= j < members.len() && #[trigger] after[k].group_member_id
                        == members[j].group_member_id && after[k].student_id
                        == members[j].student_id && after[k].group_id == members[j].group_id
        }),
{
    let plan = spec_plan_transfer(members, new_leader_student_id, remove_old_leader)->Ok_0;
    let after = after_transfer(members, plan);
    lemma_last_leader_in(members);
    lemma_last_candidate_in(members, new_leader_student_id);
    lemma_after_transfer(members, plan);
    lemma_rows_with_id(members, plan);
    let jo = choose|j: int| 0 <= j < members.len() && members[j] == plan.old_leader;
    let jn = choose|j: int| 0 <= j < members.len() && members[j] == plan.new_leader;
    // the old leader's row is the sole leader row
    assert(members[jo].student_role_id == GROUP_LEADER_ROLE);
    assert(plan.old_leader.group_member_id == leader_row);
    // the new leader's row is another row
    assert(members[jn].student_role_id != GROUP_LEADER_ROLE);
    assert(jn != jo);
    assert(plan.new_leader.group_member_id != plan.old_leader.group_member_id) by {
        if jn < jo {
            assert(members[jn].group_member_id != members[jo].group_member_id);
        } else {
            assert(members[jo].group_member_id != members[jn].group_member_id);
        }
    }
    assert(!leaves(members[jn], plan));
    assert(after.contains(retitled(members[jn], plan)));
    let kn = choose|k: int| 0 <= k < after.len() && after[k] == retitled(members[jn], plan);
    assert(after[kn].group_member_id == plan.new_leader.group_member_id);
    assert forall|k: int| 0 <= k < after.len() implies (#[trigger] after[k].student_role_id
        == GROUP_LEADER_ROLE <==> after[k].group_member_id == plan.new_leader.group_member_id) by {
        let j = choose|j: int|
            0 <= j < members.len() && !leaves(members[j], plan) && #[trigger] after[k] == retitled(
                members[j],
                plan,
            );
        assert(members[j].student_role_id == GROUP_LEADER_ROLE <==> members[j].group_member_id
            == leader_row);
    }
    assert(retitled(members[jn], plan) == GroupMember { student_role_id: GROUP_LEADER_ROLE, ..plan.new_leader });
    if !remove_old_leader {
        assert(!leaves(members[jo], plan));
        assert(after.contains(retitled(members[jo], plan)));
        assert(retitled(members[jo], plan) == GroupMember { student_role_id: MEMBER_ROLE, ..plan.old_leader });
    }
    assert forall|k: int| 0 <= k < after.len() implies exists|j: int|
        0 <= j < members.len() && #[trigger] after[k].group_member_id
            == members[j].group_member_id && after[k].student_id
            == members[j].student_id && after[k].group_id == members[j].group_id by {
        let j = choose|j: int|
            0 <= j < members.len() && !leaves(members[j], plan) && #[trigger] after[k] == retitled(
                members[j],
                plan,
            );
        assert(after[k].group_member_id == members[j].group_member_id);
    }
    if remove_old_leader {
        assert forall|k: int| 0 <= k < after.len() implies #[trigger] after[k].group_member_id
            != plan.old_leader.group_member_id by {
            let j = choose|j: int|
                0 <= j < members.len() && !leaves(members[j], plan) && #[trigger] after[k] == retitled(
                    members[j],
                    plan,
                );
        }
    }
    assert forall|j: int|
        0 <= j < members.len() && #[trigger] members[j].group_member_id
            != plan.old_leader.group_member_id && members[j].group_member_id
            != plan.new_leader.group_member_id implies after.contains(members[j]) by {
        assert(!leaves(members[j], plan));
        assert(retitled(members[j], plan) == members[j]);
    }
}

// ── Adding a member ───────────────────────────────────────────────────────
/// A student found by e-mail, and whether the address is still unconfirmed.
#[derive(Clone, Copy, Debug, PartialEq, Eq, Structural)]
pub struct StudentStatus {
    pub student_id: i32,
    pub is_pending: bool,
}

/// What is looked up, in this order, before a student is added to a group.
/// A fact that the checks never reach has no effect on the verdict.
#[derive(Clone, Copy, Debug, PartialEq, Eq, Structural)]
pub struct AddMemberFacts {
    /// The project of the group; `None` when the group does not exist.
    pub group_project_id: Option<i32>,
    /// The student found by e-mail; `None` when no student has the address.
    pub student: Option<StudentStatus>,
    /// The student is already in a group of the group's project.
    pub student_in_project: bool,
    /// The largest group size of the project; `None` when the project does not exist.
    pub max_group_size: Option<i32>,
    /// How many members the group has.
    pub member_count: i32,
    /// The role requested for the new member.
    pub role_id: i32,
    /// The group has a leader already (looked up for a leader role only).
    pub group_has_leader: bool,
}

/// Why a student cannot be added to a group.
#[derive(Clone, Copy, Debug, PartialEq, Eq, Structural)]
pub enum AddMemberError {
    /// 404
    GroupNotFound,
    /// 404
    StudentNotFound,
    /// 400
    EmailNotConfirmed,
    /// 400
    AlreadyInProjectGroup,
    /// 404
    ProjectNotFound,
    /// 400
    GroupFull,
    /// 400
    AlreadyHasLeader,
}

impl AddMemberError {
    /// The HTTP status of the answer.
    pub fn status(&self) -> (s: u16)
        ensures
            s == (match self {
                AddMemberError::GroupNotFound => 404u16,
                AddMemberError::StudentNotFound => 404u16,
                AddMemberError::ProjectNotFound => 404u16,
                _ => 400u16,
            }),
    {
        match self {
            AddMemberError::GroupNotFound => 404,
            AddMemberError::StudentNotFound => 404,
            AddMemberError::ProjectNotFound => 404,
            _ => 400,
        }
    }

    /// The message shown to the client.
    pub fn message(&self) -> (m: &'static str)
        ensures
            m@ == (match self {
                AddMemberError::GroupNotFound => "Group not found"@,
                AddMemberError::StudentNotFound => "Student not found"@,
                AddMemberError::EmailNotConfirmed => "Student email not confirmed"@,
                AddMemberError::AlreadyInProjectGroup => "Student already in project group"@,
                AddMemberError::ProjectNotFound => "Project not found"@,
                AddMemberError::GroupFull => "Group size limit exceeded"@,
                AddMemberError::AlreadyHasLeader => "Group already has a leader"@,
            }),
    {
        match self {
            AddMemberError::GroupNotFound => "Group not found",
            AddMemberError::StudentNotFound => "Student not found",
            AddMemberError::EmailNotConfirmed => "Student email not confirmed",
            AddMemberError::AlreadyInProjectGroup => "Student already in project group",
            AddMemberError::ProjectNotFound => "Project not found",
            AddMemberError::GroupFull => "Group size limit exceeded",
            AddMemberError::AlreadyHasLeader => "Group already has a leader",
        }
    }
}

/// The verdict on adding a student to a group, checks in the order they are made.
pub open spec fn add_member_verdict(f: AddMemberFacts) -> Result<(), AddMemberError> {
    if f.group_project_id is None {
        Err(AddMemberError::GroupNotFound)
    } else if f.student is None {
        Err(AddMemberError::StudentNotFound)
    } else if f.student matches Some(st) && st.is_pending {
        Err(AddMemberError::EmailNotConfirmed)
    } else if f.student_in_project {
        Err(AddMemberError::AlreadyInProjectGroup)
    } else if f.max_group_size is None {
        Err(AddMemberError::ProjectNotFound)
    } else if f.member_count >= f.max_group_size->0 {
        Err(AddMemberError::GroupFull)
    } else if f.role_id == GROUP_LEADER_ROLE && f.group_has_leader {
        Err(AddMemberError::AlreadyHasLeader)
    } else {
        Ok(())
    }
}

/// Decides whether a student may be added to a group.
pub fn decide_add_member(f: &AddMemberFacts) -> (r: Result<(), AddMemberError>)
    ensures
        r == add_member_verdict(*f),
{
    if f.group_project_id.is_none() {
        return Err(AddMemberError::GroupNotFound);
    }
    let student = match f.student {
        None => { return Err(AddMemberError::StudentNotFound) },
        Some(s) => s,
    };
    if student.is_pending {
        return Err(AddMemberError::EmailNotConfirmed);
    }
    if f.student_in_project {
        return Err(AddMemberError::AlreadyInProjectGroup);
    }
    let max = match f.max_group_size {
        None => { return Err(AddMemberError::ProjectNotFound) },
        Some(m) => m,
    };
    if f.member_count >= max {
        return Err(AddMemberError::GroupFull);
    }
    if f.role_id == GROUP_LEADER_ROLE && f.group_has_leader {
        return Err(AddMemberError::AlreadyHasLeader);
    }
    Ok(())
}

/// The row of a newly added member.
pub fn new_member_row(group_id: i32, student_id: i32, role_id: i32, joined_at: Instant) -> (m:
    GroupMember)
    ensures
        m == (GroupMember {
            group_member_id: 0,
            group_id,
            student_id,
            student_role_id: role_id,
            joined_at,
        }),
{
    GroupMember { group_member_id: 0, group_id, student_id, student_role_id: role_id, joined_at }
}

/// Law: a student is added only to a group below the project's size limit, so
/// the group never grows beyond it through this request.
pub proof fn add_member_respects_group_size(f: AddMemberFacts, members: Seq<GroupMember>, row: GroupMember)
    requires
        add_member_verdict(f) is Ok,
        f.member_count == members.len(),
    ensures
        members.push(row).len() <= f.max_group_size->0,
{
}

/// No two rows of the group are leader rows.
pub open spec fn at_most_one_leader(members: Seq<GroupMember>) -> bool {
    forall|a: int, b: int|
        0 <= a < b < members.len() ==> !(#[trigger] members[a].student_role_id == GROUP_LEADER_ROLE
            && #[trigger] members[b].student_role_id == GROUP_LEADER_ROLE)
}

/// Law: a group never gets a second leader by an added member. `f` holds what
/// was looked up about the group's rows `members`, and `row` is the row added.
pub proof fn add_member_keeps_at_most_one_leader(
    f: AddMemberFacts,
    members: Seq<GroupMember>,
    row: GroupMember,
)
    requires
        add_member_verdict(f) is Ok,
        f.role_id == GROUP_LEADER_ROLE ==> (f.group_has_leader <==> exists|k: int|
            0 <= k < members.len() && #[trigger] members[k].student_role_id == GROUP_LEADER_ROLE),
        row.student_role_id == f.role_id,
        at_most_one_leader(members),
    ensures
        at_most_one_leader(members.push(row)),
{
    let after = members.push(row);
    assert forall|a: int, b: int| 0 <= a < b < after.len() implies !(
    #[trigger] after[a].student_role_id == GROUP_LEADER_ROLE && #[trigger] after[b].student_role_id
        == GROUP_LEADER_ROLE) by {
        if b == members.len() && after[b].student_role_id == GROUP_LEADER_ROLE
            && after[a].student_role_id == GROUP_LEADER_ROLE {
            assert(members[a].student_role_id == GROUP_LEADER_ROLE);
        } else if b < members.len() {
            assert(after[a] == members[a] && after[b] == members[b]);
        }
    }
}

/// A student's place in a group of a project.
#[derive(Clone, Copy, Debug, PartialEq, Eq, Structural)]
pub struct Placement {
    pub student_id: i32,
    pub group_id: i32,
    pub project_id: i32,
}

/// No student is in two groups of one project.
pub open spec fn one_group_per_project(places: Seq<Placement>) -> bool {
    forall|a: int, b: int|
        0 <= a < b < places.len() && #[trigger] places[a].student_id == #[trigger] places[b].student_id
            ==> places[a].project_id != places[b].project_id
}

/// Law: an added member never ends up in two groups of one project. `f` holds
/// what was looked up, `places` are all memberships, and the new one is the
/// student's place in the group.
pub proof fn add_member_keeps_one_group_per_project(
    f: AddMemberFacts,
    places: Seq<Placement>,
    group_id: i32,
)
    requires
        add_member_verdict(f) is Ok,
        f.student_in_project == exists|k: int|
            0 <= k < places.len() && #[trigger] places[k].student_id == f.student->0.student_id
                && places[k].project_id == f.group_project_id->0,
        one_group_per_project(places),
    ensures
        one_group_per_project(
            places.push(
                Placement {
                    student_id: f.student->0.student_id,
                    group_id,
                    project_id: f.group_project_id->0,
                },
            ),
        ),
{
    let p = Placement { student_id: f.student->0.student_id, group_id, project_id: f.group_project_id->0 };
    let after = places.push(p);
    assert forall|a: int, b: int|
        0 <= a < b < after.len() && #[trigger] after[a].student_id == #[trigger] after[b].student_id
            implies after[a].project_id != after[b].project_id by {
        if b == places.len() {
            assert(after[a] == places[a]);
            if places[a].project_id == p.project_id {
                assert(places[a].student_id == f.student->0.student_id);
            }
        } else {
            assert(after[a] == places[a] && after[b] == places[b]);
        }
    }
}

// ── Gathering the facts from the stored rows ──────────────────────────────
/// The group has a leader row.
pub open spec fn spec_has_leader(members: Seq<GroupMember>) -> bool {
    exists|k: int| 0 <= k < members.len() && #[trigger] members[k].student_role_id == GROUP_LEADER_ROLE
}

/// The student is in a group of the project.
pub open spec fn spec_in_project(places: Seq<Placement>, student_id: i32, project_id: i32) -> bool {
    exists|k: int|
        0 <= k < places.len() && #[trigger] places[k].student_id == student_id && places[k].project_id
            == project_id
}

/// The facts an add-member request is decided on, read off the stored rows:
/// the group's project, the student found by e-mail, all memberships
/// (`places`), the project's size limit, the group's rows and the role asked.
pub open spec fn spec_facts(
    group_project_id: Option<i32>,
    student: Option<StudentStatus>,
    places: Seq<Placement>,
    max_group_size: Option<i32>,
    members: Seq<GroupMember>,
    role_id: i32,
) -> AddMemberFacts {
    AddMemberFacts {
        group_project_id,
        student,
        student_in_project: match (student, group_project_id) {
            (Some(st), Some(p)) => spec_in_project(places, st.student_id, p),
            _ => false,
        },
        max_group_size,
        member_count: members.len() as i32,
        role_id,
        group_has_leader: spec_has_leader(members),
    }
}

/// Whether the group has a leader row.
pub fn has_leader(members: &Vec<GroupMember>) -> (r: bool)
    ensures
        r == spec_has_leader(members@),
{
    let mut i: usize = 0;
    while i < members.len()
        invariant
            i <= members.len(),
            forall|k: int| 0 <= k < i ==> members@[k].student_role_id != GROUP_LEADER_ROLE,
        decreases members.len() - i,
    {
        if members[i].student_role_id == GROUP_LEADER_ROLE {
            assert(members@[i as int].student_role_id == GROUP_LEADER_ROLE);
            return true;
        }
        i = i + 1;
    }
    false
}

/// Whether the student is in a group of the project.
pub fn in_project(places: &Vec<Placement>, student_id: i32, project_id: i32) -> (r: bool)
    ensures
        r == spec_in_project(places@, student_id, project_id),
{
    let mut i: usize = 0;
    while i < places.len()
        invariant
            i <= places.len(),
            forall|k: int|
                0 <= k < i ==> !(places@[k].student_id == student_id && places@[k].project_id == project_id),
        decreases places.len() - i,
    {
        if places[i].student_id == student_id && places[i].project_id == project_id {
            assert(places@[i as int].student_id == student_id);
            return true;
        }
        i = i + 1;
    }
    false
}

/// Reads the facts of an add-member request off the stored rows.
pub fn facts_from_rows(
    group_project_id: Option<i32>,
    student: Option<StudentStatus>,
    places: &Vec<Placement>,
    max_group_size: Option<i32>,
    members: &Vec<GroupMember>,
    role_id: i32,
) -> (f: AddMemberFacts)
    ensures
        f == spec_facts(group_project_id, student, places@, max_group_size, members@, role_id),
{
    let student_in_project = match (student, group_project_id) {
        (Some(st), Some(p)) => in_project(places, st.student_id, p),
        _ => false,
    };
    let count: i32 = #[verifier::truncate] (members.len() as i32);
    AddMemberFacts {
        group_project_id,
        student,
        student_in_project,
        max_group_size,
        member_count: count,
        role_id,
        group_has_leader: has_leader(members),
    }
}

/// Law: adding a member, decided on the facts read off the stored rows, keeps
/// what holds of the stored rows: the group stays within the project's size
/// limit, has at most one leader, and no student is in two groups of one
/// project. `members` are the group's rows and `places` all memberships.
pub proof fn adding_a_member_keeps_the_invariants(
    group_id: i32,
    group_project_id: Option<i32>,
    student: Option<StudentStatus>,
    places: Seq<Placement>,
    max_group_size: Option<i32>,
    members: Seq<GroupMember>,
    role_id: i32,
    row: GroupMember,
)
    requires
        add_member_verdict(spec_facts(group_project_id, student, places, max_group_size, members, role_id)) is Ok,
        members.len() <= i32::MAX,
        row.student_role_id == role_id,
        at_most_one_leader(members),
        one_group_per_project(places),
    ensures
        members.push(row).len() <= max_group_size->0,
        at_most_one_leader(members.push(row)),
        one_group_per_project(
            places.push(
                Placement { student_id: student->0.student_id, group_id, project_id: group_project_id->0 },
            ),
        ),
{
    let f = spec_facts(group_project_id, student, places, max_group_size, members, role_id);
    assert(f.member_count == members.len());
    add_member_respects_group_size(f, members, row);
    add_member_keeps_at_most_one_leader(f, members, row);
    add_member_keeps_one_group_per_project(f, places, group_id);
}

// ── Removing a member ─────────────────────────────────────────────────────
/// Why a member cannot be removed.
#[derive(Clone, Copy, Debug, PartialEq, Eq, Structural)]
pub enum RemoveMemberError {
    /// 404
    GroupNotFound,
    /// 404: the student has no row in the group.
    MemberNotFound,
    /// 404: the member's student is gone.
    StudentNotFound,
}

impl RemoveMemberError {
    /// The HTTP status of the answer: 404.
    pub fn status(&self) -> (s: u16)
        ensures
            s == 404,
    {
        404
    }

    /// The message shown to the client.
    pub fn message(&self) -> (m: &'static str)
        ensures
            m@ == (match self {
                RemoveMemberError::GroupNotFound => "Group not found"@,
                RemoveMemberError::MemberNotFound => "Member not found in this group"@,
                RemoveMemberError::StudentNotFound => "Student not found"@,
            }),
    {
        match self {
            RemoveMemberError::GroupNotFound => "Group not found",
            RemoveMemberError::MemberNotFound => "Member not found in this group",
            RemoveMemberError::StudentNotFound => "Student not found",
        }
    }
}

/// Decides a removal: the group must exist, the student must have a row in it
/// (the first one listed is removed), and the student must exist
/// (`student_found`, looked up only once the row is found).
pub fn plan_member_removal(
    group_found: bool,
    members: &Vec<GroupMember>,
    student_id: i32,
    student_found: bool,
) -> (r: Result<GroupMember, RemoveMemberError>)
    ensures
        r == (if !group_found {
            Err::<GroupMember, RemoveMemberError>(RemoveMemberError::GroupNotFound)
        } else {
            match first_row_of(members@, student_id) {
                None => Err::<GroupMember, RemoveMemberError>(RemoveMemberError::MemberNotFound),
                Some(m) => if student_found {
                    Ok::<GroupMember, RemoveMemberError>(m)
                } else {
                    Err::<GroupMember, RemoveMemberError>(RemoveMemberError::StudentNotFound)
                },
            }
        }),
{
    if !group_found {
        return Err(RemoveMemberError::GroupNotFound);
    }
    match find_member(members, student_id) {
        None => Err(RemoveMemberError::MemberNotFound),
        Some(m) => if student_found {
            Ok(m)
        } else {
            Err(RemoveMemberError::StudentNotFound)
        },
    }
}

/// The row does not carry the membership id.
pub open spec fn other_row(id: i32) -> spec_fn(GroupMember) -> bool {
    |m: GroupMember| m.group_member_id != id
}

/// The group's rows once the row with membership id `id` is deleted.
pub fn rows_after_removal(members: &Vec<GroupMember>, id: i32) -> (out: Vec<GroupMember>)
    ensures
        out@ == members@.filter(other_row(id)),
{
    let ghost pred = other_row(id);
    let mut out: Vec<GroupMember> = Vec::new();
    let mut i: usize = 0;
    while i < members.len()
        invariant
            i <= members.len(),
            pred == other_row(id),
            out@ == members@.take(i as int).filter(pred),
        decreases members.len() - i,
    {
        assert(members@.take(i + 1).drop_last() =~= members@.take(i as int));
        assert(members@.take(i + 1).last() == members@[i as int]);
        let keep = members[i].group_member_id != id;
        if keep {
            out.push(members[i]);
        }
        proof {
            reveal_with_fuel(Seq::<_>::filter, 1);
            assert(pred(members@[i as int]) == keep);
        }
        i = i + 1;
    }
    assert(members@.take(i as int) =~= members@);
    out
}

/// A student's deliverable choice in a project.
#[derive(Clone, Copy, Debug, PartialEq, Eq, Structural)]
pub struct SelectionKey {
    pub student_id: i32,
    pub project_id: i32,
    pub student_deliverable_id: i32,
}

/// The choice is not the student's in the project.
pub open spec fn other_selection(student_id: i32, project_id: i32) -> spec_fn(SelectionKey) -> bool {
    |k: SelectionKey| !(k.student_id == student_id && k.project_id == project_id)
}

/// The students' deliverable choices once a removed member's choice in the
/// group's project is deleted with them.
pub fn selections_after_removal(selections: &Vec<SelectionKey>, student_id: i32, project_id: i32) -> (out:
    Vec<SelectionKey>)
    ensures
        out@ == selections@.filter(other_selection(student_id, project_id)),
{
    let ghost pred = other_selection(student_id, project_id);
    let mut out: Vec<SelectionKey> = Vec::new();
    let mut i: usize = 0;
    while i < selections.len()
        invariant
            i <= selections.len(),
            pred == other_selection(student_id, project_id),
            out@ == selections@.take(i as int).filter(pred),
        decreases selections.len() - i,
    {
        assert(selections@.take(i + 1).drop_last() =~= selections@.take(i as int));
        assert(selections@.take(i + 1).last() == selections@[i as int]);
        let keep = !(selections[i].student_id == student_id && selections[i].project_id
            == project_id);
        if keep {
            out.push(selections[i]);
        }
        proof {
            reveal_with_fuel(Seq::<_>::filter, 1);
            assert(pred(selections@[i as int]) == keep);
        }
        i = i + 1;
    }
    assert(selections@.take(i as int) =~= selections@);
    out
}

// ── Answers ───────────────────────────────────────────────────────────────
/// A member as the answers to membership changes describe it.
pub struct MemberInfo {
    pub student_id: i32,
    pub name: String,
    pub email: String,
    pub role: String,
}

/// The answer to adding or removing a member.
pub struct MemberResponse {
    pub success: bool,
    pub message: String,
    pub member: Option<MemberInfo>,
}

/// The answer after a member was added (`added`) or removed.
pub fn member_changed_response(
    added: bool,
    student_id: i32,
    first_name: &str,
    last_name: &str,
    email: &str,
    role_id: i32,
) -> (r: MemberResponse)
    ensures
        r.success,
        r.message@ == (if added {
            "Member added successfully"@
        } else {
            "Member removed successfully from the group"@
        }),
        r.member matches Some(info) && info.student_id == student_id && info.name@
            == spec_full_name(first_name@, last_name@) && info.email@ == email@ && info.role@ == (
        if role_id == GROUP_LEADER_ROLE {
            "Group Leader"@
        } else {
            "Member"@
        }),
{
    let message = if added {
        String::from_str("Member added successfully")
    } else {
        String::from_str("Member removed successfully from the group")
    };
    let role = String::from_str(member_label(role_id));
    MemberResponse {
        success: true,
        message,
        member: Some(
            MemberInfo {
                student_id,
                name: full_name(first_name, last_name),
                email: String::from_str(email),
                role,
            },
        ),
    }
}

/// One side of a leadership change, as the answer reports it.
pub struct LeaderChangeInfo {
    pub student_id: i32,
    pub name: String,
    pub status: String,
}

/// The answer to a leadership transfer.
pub struct TransferLeadershipResponse {
    pub message: String,
    pub old_leader: LeaderChangeInfo,
    pub new_leader: LeaderChangeInfo,
}

/// The answer after a transfer was carried out, with the names of the two students.
pub fn transfer_response(
    plan: &LeadershipPlan,
    old_first: &str,
    old_last: &str,
    new_first: &str,
    new_last: &str,
) -> (r: TransferLeadershipResponse)
    ensures
        r.message@ == "Group leader updated successfully"@,
        r.old_leader.student_id == plan.old_leader.student_id,
        r.old_leader.name@ == spec_full_name(old_first@, old_last@),
        r.old_leader.status@ == (if plan.remove_old_leader {
            "removed_from_group"@
        } else {
            "demoted_to_member"@
        }),
        r.new_leader.student_id == plan.new_leader.student_id,
        r.new_leader.name@ == spec_full_name(new_first@, new_last@),
        r.new_leader.status@ == "promoted_to_leader"@,
{
    let old_status = if plan.remove_old_leader {
        String::from_str("removed_from_group")
    } else {
        String::from_str("demoted_to_member")
    };
    TransferLeadershipResponse {
        message: String::from_str("Group leader updated successfully"),
        old_leader: LeaderChangeInfo {
            student_id: plan.old_leader.student_id,
            name: full_name(old_first, old_last),
            status: old_status,
        },
        new_leader: LeaderChangeInfo {
            student_id: plan.new_leader.student_id,
            name: full_name(new_first, new_last),
            status: String::from_str("promoted_to_leader"),
        },
    }
}

} // verus!
