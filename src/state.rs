use crate::check::{check_room, check_spec};
use crate::error::Error;
use crate::policy::{
    change_permitted, first_pos, has_key, is_first_key_pos, lemma_first_key_pos, lemma_has_key_first, role_defined,
    role_info, value_of, RoomPolicy,
};
use crate::order::{bytes_le, lemma_lex_lt_trans, lemma_lex_total, lex_lt, sort_bytes, sorted};
use crate::roles::{is_admin_role, protected_spec, role_protected_from, Capability, RoleIndex};
use vstd::prelude::*;

verus! {

/// A request to change the membership of a room.
#[derive(Debug, Clone, PartialEq, Eq, Hash)]
pub enum MimiProposal {
    /// Move `target` to `role`. Joining, leaving, kicking, banning, promoting
    /// and demoting are all expressed this way.
    ChangeRole { target: Vec<u8>, role: RoleIndex },
}

/// Members as the logic sees them: user identifier and held role.
pub type Members = Seq<(Seq<u8>, RoleIndex)>;

/// The state of a room: its policy and the role of each member.
/// A user that is not listed is an outsider.
#[derive(Debug, Clone, PartialEq, Eq, Hash)]
pub struct RoomState {
    /// The general rules for the room.
    pub policy: RoomPolicy,
    /// Each member's identifier and role, in increasing order of identifier.
    pub users: Vec<(Vec<u8>, RoleIndex)>,
}

/// The members listed in `u`.
pub open spec fn members_of(u: Seq<(Vec<u8>, RoleIndex)>) -> Members {
    u.map_values(|e: (Vec<u8>, RoleIndex)| (e.0@, e.1))
}

/// The roles held by the members `m`, in order.
pub open spec fn held_of(m: Members) -> Seq<RoleIndex> {
    m.map_values(|e: (Seq<u8>, RoleIndex)| e.1)
}

/// The identifiers of the members `m`, in order.
pub open spec fn ids_of(m: Members) -> Seq<Seq<u8>> {
    m.map_values(|e: (Seq<u8>, RoleIndex)| e.0)
}

/// The role of the user `id`: the role listed for it, or `Outsider`.
pub open spec fn role_of(m: Members, id: Seq<u8>) -> RoleIndex {
    if has_key(m, id) {
        value_of(m, id)
    } else {
        RoleIndex::Outsider
    }
}

/// The members are listed in strictly increasing order of id, so each once.
pub open spec fn ids_sorted(m: Members) -> bool {
    forall|i: int, j: int| 0 <= i < j < m.len() ==> lex_lt(#[trigger] m[i].0, #[trigger] m[j].0)
}

/// `j` is where `id` goes among `m`: before the first member whose id
/// comes after it, or at the end.
pub open spec fn is_insert_pos(m: Members, id: Seq<u8>, j: int) -> bool {
    &&& 0 <= j <= m.len()
    &&& forall|k: int| 0 <= k < j ==> !lex_lt(id, #[trigger] m[k].0)
    &&& (j < m.len() ==> lex_lt(id, m[j].0))
}

/// Where `id` goes among `m`.
pub open spec fn insert_pos(m: Members, id: Seq<u8>) -> int {
    choose|j: int| is_insert_pos(m, id, j)
}

/// There is one place where `id` goes, and `insert_pos` names it.
pub proof fn lemma_insert_pos(m: Members, id: Seq<u8>, j: int)
    requires
        is_insert_pos(m, id, j),
    ensures
        insert_pos(m, id) == j,
{
    let c = insert_pos(m, id);
    assert(is_insert_pos(m, id, c));
    if c < j {
        assert(!lex_lt(id, m[c].0));
    } else if c > j {
        assert(!lex_lt(id, m[j].0));
    }
}

/// `m` with the user `id` listed with `role`: in place if it is listed,
/// else at its place in the order of ids.
pub open spec fn set_role(m: Members, id: Seq<u8>, role: RoleIndex) -> Members {
    if has_key(m, id) {
        m.update(first_pos(m, id), (id, role))
    } else {
        m.insert(insert_pos(m, id), (id, role))
    }
}

/// `m` without the user `id`.
pub open spec fn drop_user(m: Members, id: Seq<u8>) -> Members {
    if has_key(m, id) {
        m.remove(first_pos(m, id))
    } else {
        m
    }
}

/// The outcome of `sender` asking to move `target` to `role`.
/// A banned sender is refused first; a move to the role already held has
/// nothing to do; a banned target can only have its ban lifted, which makes
/// it an outsider; otherwise the sender's role must permit the move.
/// Moving a user to `Outsider` removes it from the room.
pub open spec fn step_spec(
    p: RoomPolicy,
    m: Members,
    sender: Seq<u8>,
    target: Seq<u8>,
    role: RoleIndex,
) -> Result<Members, Error> {
    let sender_role = role_of(m, sender);
    let target_role = role_of(m, target);
    if sender_role == RoleIndex::Banned {
        Err(Error::Banned)
    } else if target_role == role {
        Err(Error::NothingToDo)
    } else if target_role == RoleIndex::Banned && role != RoleIndex::Outsider {
        Err(Error::Banned)
    } else if !role_defined(p, sender_role) {
        Err(Error::RoleNotDefined)
    } else if change_permitted(p, sender_role, target_role, role, sender == target) {
        if role == RoleIndex::Outsider {
            Ok(drop_user(m, target))
        } else {
            Ok(set_role(m, target, role))
        }
    } else {
        Err(Error::NotCapable)
    }
}

/// The target of a proposal.
pub open spec fn proposal_target(prop: MimiProposal) -> Seq<u8> {
    match prop {
        MimiProposal::ChangeRole { target, role } => target@,
    }
}

/// The role that a proposal asks for.
pub open spec fn proposal_role(prop: MimiProposal) -> RoleIndex {
    match prop {
        MimiProposal::ChangeRole { target, role } => role,
    }
}

/// The outcome of applying `props` in order; the first refusal ends the batch.
pub open spec fn batch_spec(
    p: RoomPolicy,
    m: Members,
    sender: Seq<u8>,
    props: Seq<MimiProposal>,
) -> Result<Members, Error>
    decreases props.len(),
{
    if props.len() == 0 {
        Ok(m)
    } else {
        match batch_spec(p, m, sender, props.drop_last()) {
            Ok(m2) => step_spec(
                p,
                m2,
                sender,
                proposal_target(props.last()),
                proposal_role(props.last()),
            ),
            Err(e) => Err(e),
        }
    }
}

/// The first violated rule of a room with members `m` under the policy
/// `p`: members not listed once each in order of id, else the first rule that `check_spec` finds.
pub open spec fn room_check(p: RoomPolicy, m: Members) -> Option<Error> {
    if !ids_sorted(m) {
        Some(Error::InvalidMemberList)
    } else {
        check_spec(p, held_of(m))
    }
}

/// The room rules hold of the members `m` under the policy `p`.
pub open spec fn members_consistent(p: RoomPolicy, m: Members) -> bool {
    room_check(p, m) is None
}

/// The room rules hold of `s`.
pub open spec fn room_consistent(s: RoomState) -> bool {
    members_consistent(s.policy, members_of(s.users@))
}

/// Whether two byte strings are equal.
pub(crate) fn bytes_eq(a: &[u8], b: &[u8]) -> (r: bool)
    ensures
        r == (a@ == b@),
{
    if a.len() != b.len() {
        return false;
    }
    let mut i: usize = 0;
    while i < a.len()
        invariant
            a@.len() == b@.len(),
            i <= a@.len(),
            forall|j: int| 0 <= j < i ==> a@[j] == b@[j],
        decreases a@.len() - i,
    {
        if a[i] != b[i] {
            return false;
        }
        i = i + 1;
    }
    proof {
        assert(a@ =~= b@);
    }
    true
}

/// The first position of the user `id` in `users`, if listed.
pub(crate) fn find_user(users: &Vec<(Vec<u8>, RoleIndex)>, id: &[u8]) -> (r: Option<usize>)
    ensures
        match r {
            Some(i) => is_first_key_pos(members_of(users@), id@, i as int),
            None => !has_key(members_of(users@), id@),
        },
{
    let ghost m = members_of(users@);
    let mut i: usize = 0;
    while i < users.len()
        invariant
            i <= users@.len(),
            m == members_of(users@),
            forall|j: int| 0 <= j < i ==> m[j].0 != id@,
        decreases users@.len() - i,
    {
        if bytes_eq(users[i].0.as_slice(), id) {
            return Some(i);
        }
        i = i + 1;
    }
    None
}

/// The role of the user `id` in `users`.
pub(crate) fn lookup_role(users: &Vec<(Vec<u8>, RoleIndex)>, id: &[u8]) -> (r: RoleIndex)
    ensures
        r == role_of(members_of(users@), id@),
{
    match find_user(users, id) {
        Some(i) => {
            proof {
                lemma_first_key_pos(members_of(users@), id@, i as int);
            }
            users[i].1
        },
        None => RoleIndex::Outsider,
    }
}

/// A copy of a byte string.
pub(crate) fn copy_bytes(v: &[u8]) -> (r: Vec<u8>)
    ensures
        r@ == v@,
{
    let mut r: Vec<u8> = Vec::new();
    let mut i: usize = 0;
    while i < v.len()
        invariant
            i <= v@.len(),
            r@ == v@.take(i as int),
        decreases v@.len() - i,
    {
        r.push(v[i]);
        i = i + 1;
        proof {
            assert(r@ =~= v@.take(i as int));
        }
    }
    proof {
        assert(v@.take(i as int) =~= v@);
    }
    r
}

/// A copy of a member list.
pub(crate) fn copy_users(u: &Vec<(Vec<u8>, RoleIndex)>) -> (r: Vec<(Vec<u8>, RoleIndex)>)
    ensures
        members_of(r@) == members_of(u@),
{
    let mut r: Vec<(Vec<u8>, RoleIndex)> = Vec::new();
    let mut i: usize = 0;
    while i < u.len()
        invariant
            i <= u@.len(),
            r@.len() == i,
            forall|j: int| 0 <= j < i ==> (#[trigger] r@[j]).0@ == u@[j].0@ && r@[j].1 == u@[j].1,
        decreases u@.len() - i,
    {
        let id = copy_bytes(u[i].0.as_slice());
        r.push((id, u[i].1));
        i = i + 1;
    }
    proof {
        assert(members_of(r@) =~= members_of(u@));
    }
    r
}

/// The roles held by the members of `u`, in order.
pub(crate) fn held_roles(u: &Vec<(Vec<u8>, RoleIndex)>) -> (r: Vec<RoleIndex>)
    ensures
        r@ == held_of(members_of(u@)),
{
    let mut r: Vec<RoleIndex> = Vec::new();
    let mut i: usize = 0;
    while i < u.len()
        invariant
            i <= u@.len(),
            r@ =~= held_of(members_of(u@)).take(i as int),
        decreases u@.len() - i,
    {
        r.push(u[i].1);
        i = i + 1;
        proof {
            assert(r@ =~= held_of(members_of(u@)).take(i as int));
        }
    }
    proof {
        assert(held_of(members_of(u@)).take(i as int) =~= held_of(members_of(u@)));
    }
    r
}

/// Whether `users` lists each user once, in strictly increasing order of id.
fn sorted_users(users: &Vec<(Vec<u8>, RoleIndex)>) -> (b: bool)
    ensures
        b == ids_sorted(members_of(users@)),
{
    let ghost m = members_of(users@);
    if users.len() == 0 {
        return true;
    }
    let mut i: usize = 1;
    while i < users.len()
        invariant
            1 <= i <= users@.len(),
            m == members_of(users@),
            forall|a: int, b: int| 0 <= a < b < i ==> lex_lt(#[trigger] m[a].0, #[trigger] m[b].0),
        decreases users@.len() - i,
    {
        let prev = users[i - 1].0.as_slice();
        let cur = users[i].0.as_slice();
        if !bytes_le(prev, cur) || bytes_eq(prev, cur) {
            proof {
                assert(!lex_lt(m[i - 1].0, m[i as int].0));
            }
            return false;
        }
        proof {
            assert forall|a: int, b: int| 0 <= a < b < i + 1 implies lex_lt(
                #[trigger] m[a].0,
                #[trigger] m[b].0,
            ) by {
                if b == i && a < i - 1 {
                    lemma_lex_lt_trans(m[a].0, m[i - 1].0, m[b].0);
                }
            }
        }
        i = i + 1;
    }
    true
}

/// Checks the members `users` against the policy `p`, as `room_check` says.
pub(crate) fn check_members(p: &RoomPolicy, users: &Vec<(Vec<u8>, RoleIndex)>) -> (r: Option<Error>)
    ensures
        r == room_check(*p, members_of(users@)),
{
    if !sorted_users(users) {
        return Some(Error::InvalidMemberList);
    }
    let held = held_roles(users);
    check_room(p, &held)
}

/// Where `id` goes among `users`.
fn find_insert_pos(users: &Vec<(Vec<u8>, RoleIndex)>, id: &[u8]) -> (j: usize)
    ensures
        is_insert_pos(members_of(users@), id@, j as int),
{
    let ghost m = members_of(users@);
    let mut j: usize = 0;
    while j < users.len()
        invariant
            j <= users@.len(),
            m == members_of(users@),
            forall|k: int| 0 <= k < j ==> !lex_lt(id@, #[trigger] m[k].0),
        decreases users@.len() - j,
    {
        let key = users[j].0.as_slice();
        if bytes_le(id, key) && !bytes_eq(id, key) {
            return j;
        }
        j = j + 1;
    }
    j
}

/// Applies one role change to `users`, as `step_spec` says.
fn apply_change(
    policy: &RoomPolicy,
    users: &mut Vec<(Vec<u8>, RoleIndex)>,
    sender: &[u8],
    target: &Vec<u8>,
    role: RoleIndex,
) -> (r: Result<(), Error>)
    ensures
        match step_spec(*policy, members_of(old(users)@), sender@, target@, role) {
            Ok(m) => r is Ok && members_of(final(users)@) == m,
            Err(e) => r == Err::<(), Error>(e),
        },
{
    let ghost m = members_of(users@);
    let sender_role = lookup_role(users, sender);
    let target_role = lookup_role(users, target.as_slice());
    if sender_role == RoleIndex::Banned {
        return Err(Error::Banned);
    }
    if target_role == role {
        return Err(Error::NothingToDo);
    }
    if target_role == RoleIndex::Banned && role != RoleIndex::Outsider {
        return Err(Error::Banned);
    }
    if policy.find_role(sender_role).is_none() {
        return Err(Error::RoleNotDefined);
    }
    let same_user = bytes_eq(sender, target.as_slice());
    if !policy.permits_change(sender_role, target_role, role, same_user) {
        return Err(Error::NotCapable);
    }
    let pos = find_user(users, target.as_slice());
    if role == RoleIndex::Outsider {
        if let Some(i) = pos {
            proof {
                lemma_first_key_pos(m, target@, i as int);
            }
            users.remove(i);
            proof {
                assert(members_of(users@) =~= m.remove(i as int));
            }
        }
    } else {
        match pos {
            Some(i) => {
                proof {
                    lemma_first_key_pos(m, target@, i as int);
                }
                let id = copy_bytes(target.as_slice());
                users.set(i, (id, role));
                proof {
                    assert(members_of(users@) =~= m.update(i as int, (target@, role)));
                }
            },
            None => {
                let j = find_insert_pos(users, target.as_slice());
                proof {
                    lemma_insert_pos(m, target@, j as int);
                }
                let id = copy_bytes(target.as_slice());
                users.insert(j, (id, role));
                proof {
                    assert(members_of(users@) =~= m.insert(j as int, (target@, role)));
                }
            },
        }
    }
    Ok(())
}

/// Applies `proposals` in order to `users`, as `batch_spec` says.
pub(crate) fn apply_batch(
    policy: &RoomPolicy,
    users: &mut Vec<(Vec<u8>, RoleIndex)>,
    sender: &[u8],
    proposals: &[MimiProposal],
) -> (r: Result<(), Error>)
    ensures
        match batch_spec(*policy, members_of(old(users)@), sender@, proposals@) {
            Ok(m) => r is Ok && members_of(final(users)@) == m,
            Err(e) => r == Err::<(), Error>(e),
        },
{
    let ghost m0 = members_of(users@);
    let mut i: usize = 0;
    while i < proposals.len()
        invariant
            i <= proposals@.len(),
            m0 == members_of(old(users)@),
            batch_spec(*policy, m0, sender@, proposals@.take(i as int)) == Ok::<Members, Error>(
                members_of(users@),
            ),
        decreases proposals@.len() - i,
    {
        proof {
            assert(proposals@.take(i + 1).drop_last() =~= proposals@.take(i as int));
        }
        let ghost before = members_of(users@);
        match &proposals[i] {
            MimiProposal::ChangeRole { target, role } => {
                let res = apply_change(policy, users, sender, target, *role);
                proof {
                    assert(proposals@.take(i + 1).last() == proposals@[i as int]);
                    assert(batch_spec(*policy, m0, sender@, proposals@.take(i + 1)) == step_spec(
                        *policy,
                        before,
                        sender@,
                        target@,
                        *role,
                    ));
                }
                if let Err(e) = res {
                    proof {
                        lemma_batch_stops(*policy, m0, sender@, proposals@, i + 1);
                        assert(batch_spec(*policy, m0, sender@, proposals@) == Err::<Members, Error>(e));
                    }
                    return Err(e);
                }
            },
        }
        i = i + 1;
    }
    proof {
        assert(proposals@.take(i as int) =~= proposals@);
    }
    Ok(())
}

/// Once a batch is refused, proposals after the refused one do not matter.
pub proof fn lemma_batch_stops(
    p: RoomPolicy,
    m: Members,
    sender: Seq<u8>,
    props: Seq<MimiProposal>,
    k: int,
)
    requires
        0 <= k <= props.len(),
        batch_spec(p, m, sender, props.take(k)) is Err,
    ensures
        batch_spec(p, m, sender, props) == batch_spec(p, m, sender, props.take(k)),
    decreases props.len() - k,
{
    if k == props.len() {
        assert(props.take(k) =~= props);
    } else {
        assert(props.take(k + 1).drop_last() =~= props.take(k));
        lemma_batch_stops(p, m, sender, props, k + 1);
    }
}

/// No role's change table has an entry for a role that is shielded from it.
pub open spec fn tables_respect_protection(p: RoomPolicy) -> bool {
    forall|i: int, t: RoleIndex|
        0 <= i < p.roles@.len() && protected_spec(p.roles@[i].0, t, false) ==> !#[trigger] has_key(
            p.roles@[i].1.authorized_role_changes@,
            t,
        )
}

/// Under a policy whose tables respect protection, nobody can change the
/// role of another user who is shielded from them.
pub proof fn lemma_protected_target_unchanged(
    p: RoomPolicy,
    m: Members,
    sender: Seq<u8>,
    target: Seq<u8>,
    role: RoleIndex,
)
    requires
        tables_respect_protection(p),
        sender != target,
        protected_spec(role_of(m, sender), role_of(m, target), false),
    ensures
        step_spec(p, m, sender, target, role) is Err,
{
    let sr = role_of(m, sender);
    if role_defined(p, sr) {
        lemma_has_key_first(p.roles@, sr);
        let i = first_pos(p.roles@, sr);
        assert(protected_spec(p.roles@[i].0, role_of(m, target), false));
        assert(!has_key(p.roles@[i].1.authorized_role_changes@, role_of(m, target)));
    }
}

/// After `set_role`, the user holds the role that was set.
pub proof fn lemma_set_role_of(m: Members, id: Seq<u8>, role: RoleIndex)
    ensures
        role_of(set_role(m, id, role), id) == role,
{
    let m2 = set_role(m, id, role);
    if has_key(m, id) {
        lemma_has_key_first(m, id);
        let i = first_pos(m, id);
        assert(is_first_key_pos(m2, id, i));
        lemma_first_key_pos(m2, id, i);
    } else {
        let j = insert_pos(m, id);
        lemma_insert_pos_exists(m, id);
        assert forall|k: int| 0 <= k < j implies m2[k].0 != id by {
            assert(m2[k] == m[k]);
        }
        assert(is_first_key_pos(m2, id, j));
        lemma_first_key_pos(m2, id, j);
    }
}

/// A step keeps the members in order of id.
pub proof fn lemma_step_keeps_order(
    p: RoomPolicy,
    m: Members,
    sender: Seq<u8>,
    target: Seq<u8>,
    role: RoleIndex,
)
    requires
        ids_sorted(m),
        step_spec(p, m, sender, target, role) is Ok,
    ensures
        ids_sorted(step_spec(p, m, sender, target, role)->Ok_0),
{
    let m2 = step_spec(p, m, sender, target, role)->Ok_0;
    if role == RoleIndex::Outsider {
        if has_key(m, target) {
            lemma_has_key_first(m, target);
            let i = first_pos(m, target);
            assert(m2 == m.remove(i));
            assert forall|a: int, b: int| 0 <= a < b < m2.len() implies lex_lt(
                #[trigger] m2[a].0,
                #[trigger] m2[b].0,
            ) by {
                let a0 = if a < i { a } else { a + 1 };
                let b0 = if b < i { b } else { b + 1 };
                assert(m2[a] == m[a0] && m2[b] == m[b0]);
            }
        }
    } else if has_key(m, target) {
        let i = first_pos(m, target);
        lemma_has_key_first(m, target);
        assert forall|a: int, b: int| 0 <= a < b < m2.len() implies lex_lt(
            #[trigger] m2[a].0,
            #[trigger] m2[b].0,
        ) by {
            assert(m2[a].0 == m[a].0 && m2[b].0 == m[b].0);
        }
    } else {
        let j = insert_pos(m, target);
        lemma_insert_pos_exists(m, target);
        assert(m2 == m.insert(j, (target, role)));
        assert forall|a: int, b: int| 0 <= a < b < m2.len() implies lex_lt(
            #[trigger] m2[a].0,
            #[trigger] m2[b].0,
        ) by {
            if b < j {
                assert(m2[a] == m[a] && m2[b] == m[b]);
            } else if b == j {
                assert(m2[a] == m[a]);
                assert(!lex_lt(target, m[a].0));
                assert(m[a].0 != target);
                lemma_lex_total(target, m[a].0);
            } else if a < j {
                assert(m2[a] == m[a] && m2[b] == m[b - 1]);
            } else if a == j {
                assert(m2[b] == m[b - 1]);
                if b - 1 > j {
                    lemma_lex_lt_trans(target, m[j].0, m[b - 1].0);
                }
            } else {
                assert(m2[a] == m[a - 1] && m2[b] == m[b - 1]);
            }
        }
    }
}

/// A batch keeps the members in order of id.
pub proof fn lemma_batch_keeps_order(p: RoomPolicy, m: Members, sender: Seq<u8>, props: Seq<MimiProposal>)
    requires
        ids_sorted(m),
        batch_spec(p, m, sender, props) is Ok,
    ensures
        ids_sorted(batch_spec(p, m, sender, props)->Ok_0),
    decreases props.len(),
{
    if props.len() > 0 {
        lemma_batch_keeps_order(p, m, sender, props.drop_last());
        let m1 = batch_spec(p, m, sender, props.drop_last())->Ok_0;
        lemma_step_keeps_order(p, m1, sender, proposal_target(props.last()), proposal_role(props.last()));
    }
}

proof fn lemma_insert_pos_from(m: Members, id: Seq<u8>, w: int)
    requires
        0 <= w < m.len(),
        lex_lt(id, m[w].0),
    ensures
        exists|j: int| is_insert_pos(m, id, j),
    decreases w,
{
    if exists|k: int| 0 <= k < w && lex_lt(id, #[trigger] m[k].0) {
        let k = choose|k: int| 0 <= k < w && lex_lt(id, #[trigger] m[k].0);
        lemma_insert_pos_from(m, id, k);
    } else {
        assert(is_insert_pos(m, id, w));
    }
}

/// Every id has a place among the members.
pub proof fn lemma_insert_pos_exists(m: Members, id: Seq<u8>)
    ensures
        is_insert_pos(m, id, insert_pos(m, id)),
{
    if exists|k: int| 0 <= k < m.len() && lex_lt(id, #[trigger] m[k].0) {
        let k = choose|k: int| 0 <= k < m.len() && lex_lt(id, #[trigger] m[k].0);
        lemma_insert_pos_from(m, id, k);
    } else {
        assert(is_insert_pos(m, id, m.len() as int));
    }
}

impl RoomState {
    /// The members of the room as the logic sees them.
    pub open spec fn members(&self) -> Members {
        members_of(self.users@)
    }

    /// The role of the user `user_id`; `Outsider` if it is not a member.
    pub fn user_role(&self, user_id: &[u8]) -> (r: RoleIndex)
        ensures
            r == role_of(self.members(), user_id@),
    {
        lookup_role(&self.users, user_id)
    }

    /// The capabilities that the role of `user_id` declares.
    pub fn user_capabilities(&self, user_id: &[u8]) -> (r: &[Capability])
        requires
            role_defined(self.policy, role_of(self.members(), user_id@)),
        ensures
            r@ == role_info(self.policy, role_of(self.members(), user_id@)).role_capabilities@,
    {
        let role = self.user_role(user_id);
        match self.policy.find_role(role) {
            Some(i) => self.policy.roles[i].1.role_capabilities.as_slice(),
            None => {
                proof {
                    assert(false);
                }
                &[]
            },
        }
    }

    /// Whether `user_id` may use `capability`: its role declares it, or its
    /// role is `Admin` or `Owner`, which may do everything.
    pub fn has_capability(&self, user_id: &[u8], capability: Capability) -> (b: bool)
        requires
            role_defined(self.policy, role_of(self.members(), user_id@)),
        ensures
            b == (is_admin_role(role_of(self.members(), user_id@)) || role_info(
                self.policy,
                role_of(self.members(), user_id@),
            ).role_capabilities@.contains(capability)),
    {
        let role = self.user_role(user_id);
        if role.is_admin() {
            proof {
                assert(is_admin_role(role_of(self.members(), user_id@)));
            }
            return true;
        }
        let caps = self.user_capabilities(user_id);
        let mut i: usize = 0;
        while i < caps.len()
            invariant
                i <= caps@.len(),
                caps@ == role_info(self.policy, role_of(self.members(), user_id@)).role_capabilities@,
                forall|j: int| 0 <= j < i ==> caps@[j] != capability,
            decreases caps@.len() - i,
        {
            if caps[i] == capability {
                proof {
                    assert(caps@[i as int] == capability);
                }
                return true;
            }
            i = i + 1;
        }
        false
    }

    /// The identifiers of the members, in lexicographic order.
    pub fn joined_users(&self) -> (r: Vec<Vec<u8>>)
        ensures
            sorted(r@.map_values(|x: Vec<u8>| x@)),
            r@.map_values(|x: Vec<u8>| x@).to_multiset() == ids_of(self.members()).to_multiset(),
    {
        let mut ids: Vec<Vec<u8>> = Vec::new();
        let mut i: usize = 0;
        while i < self.users.len()
            invariant
                i <= self.users@.len(),
                ids@.map_values(|x: Vec<u8>| x@) =~= ids_of(self.members()).take(i as int),
            decreases self.users@.len() - i,
        {
            let ghost before = ids@;
            let id = copy_bytes(self.users[i].0.as_slice());
            ids.push(id);
            proof {
                assert(ids@ == before.push(id));
                assert(ids@.map_values(|x: Vec<u8>| x@) =~= before.map_values(|x: Vec<u8>| x@).push(
                    id@,
                ));
                assert(ids_of(self.members()).take(i + 1) =~= ids_of(self.members()).take(
                    i as int,
                ).push(self.users@[i as int].0@));
            }
            i = i + 1;
        }
        proof {
            assert(ids_of(self.members()).take(i as int) =~= ids_of(self.members()));
        }
        sort_bytes(ids)
    }

    /// Whether `target` is shielded from actions of `actor`, by their roles.
    pub fn is_protected_from(&self, actor: &[u8], target: &[u8]) -> (b: bool)
        ensures
            b == protected_spec(
                role_of(self.members(), actor@),
                role_of(self.members(), target@),
                actor@ == target@,
            ),
    {
        let actor_role = self.user_role(actor);
        let target_role = self.user_role(target);
        role_protected_from(actor_role, target_role, bytes_eq(actor, target))
    }

    /// Applies `proposals` from `sender` in order. On success the members are
    /// those that `batch_spec` gives; the policy never changes.
    pub fn try_regular_proposals(&mut self, sender: &[u8], proposals: &[MimiProposal]) -> (r: Result<(), Error>)
        ensures
            final(self).policy == old(self).policy,
            match batch_spec(old(self).policy, old(self).members(), sender@, proposals@) {
                Ok(m) => r is Ok && final(self).members() == m && (ids_sorted(old(self).members())
                    ==> ids_sorted(m)),
                Err(e) => r == Err::<(), Error>(e),
            },
    {
        let r = apply_batch(&self.policy, &mut self.users, sender, proposals);
        proof {
            if r is Ok && ids_sorted(old(self).members()) {
                lemma_batch_keeps_order(old(self).policy, old(self).members(), sender@, proposals@);
            }
        }
        r
    }
}

} // verus!
