use crate::check::{check_spec, lemma_check_ignores_capabilities};
use crate::error::Error;
use crate::order::sorted;
use crate::policy::{lemma_canonical_of_canonical, same_policy, canonical_policy_of, canonicalize, capabilities_canonical, first_pos, has_key, lemma_has_key_first, role_defined, role_info, RoomPolicy};
use crate::roles::{is_admin_role, protected_spec, role_protected_from, Capability, RoleIndex};
use crate::state::{
    apply_batch, batch_spec, ids_sorted, bytes_eq, check_members, copy_bytes, copy_users, held_of, ids_of, members_of,
    lemma_set_role_of, members_consistent, proposal_role, proposal_target, role_of,
    room_check, room_consistent, set_role, step_spec, Members, MimiProposal, RoomState,
};
use vstd::prelude::*;

verus! {

/// The outcome of applying `props` from `sender` to a room with policy `p`
/// and members `m`, followed by the consistency check of the result.
pub open spec fn apply_spec(p: RoomPolicy, m: Members, sender: Seq<u8>, props: Seq<MimiProposal>) -> Result<
    Members,
    Error,
> {
    match batch_spec(p, m, sender, props) {
        Ok(m2) => match room_check(p, m2) {
            Some(e) => Err(e),
            None => Ok(m2),
        },
        Err(e) => Err(e),
    }
}

/// Whether an outsider may move itself to `r` to join: `r` is neither
/// `Outsider` nor `Banned`.
pub open spec fn joinable(r: RoleIndex) -> bool {
    r != RoleIndex::Outsider && r != RoleIndex::Banned
}

/// `i` is the first position in `s` of a role that one can join as.
pub open spec fn is_join_pos(s: Seq<RoleIndex>, i: int) -> bool {
    &&& 0 <= i < s.len()
    &&& joinable(s[i])
    &&& forall|j: int| 0 <= j < i ==> !joinable(s[j])
}

/// The role that an outsider joins as: the first role other than `Outsider`
/// and `Banned` among the `Outsider` role's own permitted changes.
pub open spec fn join_role(p: RoomPolicy) -> Option<RoleIndex> {
    let s = role_info(p, RoleIndex::Outsider).self_role_changes@;
    if exists|i: int| is_join_pos(s, i) {
        Some(s[choose|i: int| is_join_pos(s, i)])
    } else {
        None
    }
}

/// Whether a holder of `role` may use `cap`: the role declares it, or the
/// role is `Admin` or `Owner`, which may do everything.
pub open spec fn capable(p: RoomPolicy, role: RoleIndex, cap: Capability) -> bool {
    is_admin_role(role) || role_info(p, role).role_capabilities@.contains(cap)
}

/// Whether `actor` may take a timeline action that needs `cap`.
pub open spec fn authorize_spec(p: RoomPolicy, m: Members, actor: Seq<u8>, cap: Capability) -> Result<
    (),
    Error,
> {
    let role = role_of(m, actor);
    if role == RoleIndex::Banned {
        Err(Error::Banned)
    } else if capable(p, role, cap) {
        Ok(())
    } else {
        Err(Error::NotCapable)
    }
}

/// Whether a holder of `role` may act on messages of others: with the
/// capability `other`, or, where there is none, only as `Admin` or `Owner`.
pub open spec fn capable_on_others(p: RoomPolicy, role: RoleIndex, other: Option<Capability>) -> bool {
    match other {
        Some(c) => capable(p, role, c),
        None => is_admin_role(role),
    }
}

/// Whether `actor` may act on a message of `author`: with `own` on its own
/// messages; on those of others as `capable_on_others` says, and only if the
/// author is not shielded from the actor.
pub open spec fn message_action_spec(
    p: RoomPolicy,
    m: Members,
    actor: Seq<u8>,
    author: Seq<u8>,
    own: Capability,
    other: Option<Capability>,
) -> Result<(), Error> {
    let role = role_of(m, actor);
    if role == RoleIndex::Banned {
        Err(Error::Banned)
    } else if actor == author {
        if capable(p, role, own) {
            Ok(())
        } else {
            Err(Error::NotCapable)
        }
    } else if capable_on_others(p, role, other) && !protected_spec(role, role_of(m, author), false) {
        Ok(())
    } else {
        Err(Error::NotCapable)
    }
}

/// A room state that satisfies every rule of its policy.
/// It only changes through operations that check the rules again.
#[derive(Debug, PartialEq, Eq, Hash)]
pub struct VerifiedRoomState(RoomState);

impl View for VerifiedRoomState {
    type V = RoomState;

    closed spec fn view(&self) -> RoomState {
        self.0
    }
}

impl VerifiedRoomState {
    #[verifier::type_invariant]
    spec fn consistent(self) -> bool {
        room_consistent(self.0) && capabilities_canonical(self.0.policy)
    }

    /// Checks `state` against every rule of its policy and wraps it, with
    /// each role's capabilities sorted in the canonical order and listed
    /// once. Fails with the first violated rule.
    pub fn consistency_checks(state: RoomState) -> (r: Result<Self, Error>)
        ensures
            match room_check(state.policy, state.members()) {
                None => r matches Ok(v) && canonical_policy_of(v@.policy, state.policy) && v@.users
                    == state.users && room_consistent(v@) && capabilities_canonical(v@.policy),
                Some(e) => r == Err::<Self, Error>(e),
            },
    {
        match check_members(&state.policy, &state.users) {
            Some(e) => Err(e),
            None => {
                let RoomState { policy, users } = state;
                let ghost given = policy;
                let policy = canonicalize(policy);
                proof {
                    lemma_check_ignores_capabilities(policy, given, held_of(members_of(users@)));
                }
                Ok(VerifiedRoomState(RoomState { policy, users }))
            },
        }
    }

    /// A new room under `policy` whose only member is `owner`, holding the
    /// `Owner` role.
    pub fn new(owner: &[u8], policy: RoomPolicy) -> (r: Result<Self, Error>)
        ensures
            match check_spec(policy, seq![RoleIndex::Owner]) {
                None => r matches Ok(v) && canonical_policy_of(v@.policy, policy) && v@.members()
                    == seq![(owner@, RoleIndex::Owner)] && room_consistent(v@) && (
                    capabilities_canonical(policy) ==> same_policy(v@.policy, policy)),
                Some(e) => r == Err::<Self, Error>(e),
            },
    {
        let mut users: Vec<(Vec<u8>, RoleIndex)> = Vec::new();
        users.push((copy_bytes(owner), RoleIndex::Owner));
        let state = RoomState { policy, users };
        proof {
            assert(state.members() =~= seq![(owner@, RoleIndex::Owner)]);
            assert(held_of(state.members()) =~= seq![RoleIndex::Owner]);
            assert(ids_sorted(state.members()));
        }
        let r = Self::consistency_checks(state);
        proof {
            if r is Ok && capabilities_canonical(state.policy) {
                lemma_canonical_of_canonical(r->Ok_0@.policy, state.policy);
            }
        }
        r
    }

    /// The state of the room.
    pub fn state(&self) -> (r: &RoomState)
        ensures
            *r == self@,
    {
        &self.0
    }

    /// The identifiers of the members, in lexicographic order.
    pub fn joined_users(&self) -> (r: Vec<Vec<u8>>)
        ensures
            sorted(r@.map_values(|x: Vec<u8>| x@)),
            r@.map_values(|x: Vec<u8>| x@).to_multiset() == ids_of(self@.members()).to_multiset(),
    {
        self.0.joined_users()
    }

    /// The role of the user `user_id`; `Outsider` if it is not a member.
    pub fn user_role(&self, user_id: &[u8]) -> (r: RoleIndex)
        ensures
            r == role_of(self@.members(), user_id@),
    {
        self.0.user_role(user_id)
    }

    /// Whether `user_id` may use `capability`: its role declares it, or its
    /// role is `Admin` or `Owner`, which may do everything.
    pub fn has_capability(&self, user_id: &[u8], capability: Capability) -> (b: bool)
        ensures
            b == (is_admin_role(role_of(self@.members(), user_id@)) || role_info(
                self@.policy,
                role_of(self@.members(), user_id@),
            ).role_capabilities@.contains(capability)),
    {
        proof {
            use_type_invariant(self);
            lemma_roles_defined(self.0.policy, self.0.members(), user_id@);
        }
        self.0.has_capability(user_id, capability)
    }

    /// Whether `actor` may take a timeline action that needs `capability`
    /// (sending a message, uploading an image, ...). A banned actor is
    /// refused as such.
    pub fn authorize(&self, actor: &[u8], capability: Capability) -> (r: Result<(), Error>)
        ensures
            r == authorize_spec(self@.policy, self@.members(), actor@, capability),
    {
        if self.user_role(actor) == RoleIndex::Banned {
            return Err(Error::Banned);
        }
        if self.has_capability(actor, capability) {
            Ok(())
        } else {
            Err(Error::NotCapable)
        }
    }

    /// Whether `actor` may edit a message written by `author`: its own with
    /// `EditOwnMessage`, those of others only as `Admin` or `Owner` and only
    /// if the author is not shielded from it.
    pub fn authorize_edit(&self, actor: &[u8], author: &[u8]) -> (r: Result<(), Error>)
        ensures
            r == message_action_spec(
                self@.policy,
                self@.members(),
                actor@,
                author@,
                Capability::EditOwnMessage,
                None,
            ),
    {
        self.message_action(actor, author, Capability::EditOwnMessage, None)
    }

    /// Whether `actor` may delete a message written by `author`: its own with
    /// `DeleteOwnMessage`, those of others with `DeleteAnyMessage` and only if
    /// the author is not shielded from it.
    pub fn authorize_delete(&self, actor: &[u8], author: &[u8]) -> (r: Result<(), Error>)
        ensures
            r == message_action_spec(
                self@.policy,
                self@.members(),
                actor@,
                author@,
                Capability::DeleteOwnMessage,
                Some(Capability::DeleteAnyMessage),
            ),
    {
        self.message_action(actor, author, Capability::DeleteOwnMessage, Some(Capability::DeleteAnyMessage))
    }

    fn message_action(&self, actor: &[u8], author: &[u8], own: Capability, other: Option<Capability>) -> (r:
        Result<(), Error>)
        ensures
            r == message_action_spec(self@.policy, self@.members(), actor@, author@, own, other),
    {
        let role = self.user_role(actor);
        if role == RoleIndex::Banned {
            return Err(Error::Banned);
        }
        if bytes_eq(actor, author) {
            if self.has_capability(actor, own) {
                Ok(())
            } else {
                Err(Error::NotCapable)
            }
        } else if match other {
            Some(c) => self.has_capability(actor, c),
            None => role.is_admin(),
        } && !role_protected_from(
            role,
            self.user_role(author),
            false,
        ) {
            Ok(())
        } else {
            Err(Error::NotCapable)
        }
    }

    /// Whether `proposals` from `sender` would be accepted one by one; the room
    /// does not change.
    pub fn can_apply_regular_proposals(&self, sender: &[u8], proposals: &[MimiProposal]) -> (r:
        Result<(), Error>)
        ensures
            match batch_spec(self@.policy, self@.members(), sender@, proposals@) {
                Ok(_) => r is Ok,
                Err(e) => r == Err::<(), Error>(e),
            },
    {
        let mut users = copy_users(&self.0.users);
        apply_batch(&self.0.policy, &mut users, sender, proposals)
    }

    /// Applies `proposals` from `sender` in order and checks the result
    /// against the policy. The room changes only if every proposal is
    /// accepted and the result is consistent; otherwise it stays as it was.
    pub fn apply_regular_proposals(&mut self, sender: &[u8], proposals: &[MimiProposal]) -> (r:
        Result<(), Error>)
        ensures
            room_consistent(final(self)@),
            match apply_spec(old(self)@.policy, old(self)@.members(), sender@, proposals@) {
                Ok(m) => r is Ok && final(self)@.policy == old(self)@.policy && final(self)@.members()
                    == m && ids_sorted(m),
                Err(e) => r == Err::<(), Error>(e) && *final(self) == *old(self),
            },
    {
        proof {
            use_type_invariant(&*self);
        }
        let mut users = copy_users(&self.0.users);
        let res = apply_batch(&self.0.policy, &mut users, sender, proposals);
        if let Err(e) = res {
            return Err(e);
        }
        match check_members(&self.0.policy, &users) {
            Some(e) => Err(e),
            None => {
                self.0.users = users;
                Ok(())
            },
        }
    }

    /// Applies policy-changing proposals from `sender`. No such proposal
    /// changes anything yet, so the room stays as it is.
    pub fn apply_policy_proposals(&mut self, sender: &[u8], proposals: &[()]) -> (r: Result<(), Error>)
        ensures
            r is Ok,
            *final(self) == *old(self),
            room_consistent(final(self)@),
    {
        proof {
            use_type_invariant(&*self);
        }
        self.0.policy.try_policy_proposals(proposals)
    }

    /// The proposals that `user_id` submits to join the room as an outsider:
    /// moving itself to the role that `join_role` names. Fails with
    /// `NotCapable` when outsiders may not join by themselves.
    pub fn join_room_actions(&self, user_id: &[u8]) -> (r: Result<Vec<MimiProposal>, Error>)
        ensures
            match join_role(self@.policy) {
                Some(role) => r matches Ok(v) && v@.len() == 1 && proposal_target(v@[0]) == user_id@
                    && proposal_role(v@[0]) == role,
                None => r == Err::<Vec<MimiProposal>, Error>(Error::NotCapable),
            },
    {
        proof {
            use_type_invariant(self);
        }
        let pos = self.0.policy.find_role(RoleIndex::Outsider);
        let i = match pos {
            Some(i) => i,
            None => {
                proof {
                    assert(false);
                }
                return Err(Error::NotCapable);
            },
        };
        let changes = &self.0.policy.roles[i].1.self_role_changes;
        let ghost s = changes@;
        let mut j: usize = 0;
        while j < changes.len()
            invariant
                j <= s.len(),
                s == changes@,
                s == role_info(self@.policy, RoleIndex::Outsider).self_role_changes@,
                forall|k: int| 0 <= k < j ==> !joinable(s[k]),
            decreases s.len() - j,
        {
            let r = changes[j];
            if r != RoleIndex::Outsider && r != RoleIndex::Banned {
                proof {
                    assert(is_join_pos(s, j as int));
                    let c = choose|c: int| is_join_pos(s, c);
                    if c < j {
                        assert(!joinable(s[c]));
                    } else if c > j {
                        assert(!joinable(s[j as int]));
                    }
                }
                let mut v: Vec<MimiProposal> = Vec::new();
                v.push(MimiProposal::ChangeRole { target: copy_bytes(user_id), role: r });
                return Ok(v);
            }
            j = j + 1;
        }
        Err(Error::NotCapable)
    }
}

/// In a consistent room every user's role, listed or not, is defined.
pub proof fn lemma_roles_defined(p: RoomPolicy, m: Members, id: Seq<u8>)
    requires
        members_consistent(p, m),
    ensures
        role_defined(p, role_of(m, id)),
{
    if has_key(m, id) {
        lemma_has_key_first(m, id);
        let i = first_pos(m, id);
        assert(held_of(m)[i] == m[i].1);
    }
}

/// Joining is not repeated: an outsider that joins with the proposals of
/// `join_room_actions` and then submits the same proposals again is told
/// that there is nothing to do.
pub proof fn lemma_join_twice(
    p: RoomPolicy,
    m: Members,
    user: Seq<u8>,
    role: RoleIndex,
    props: Seq<MimiProposal>,
)
    requires
        role_of(m, user) == RoleIndex::Outsider,
        join_role(p) == Some(role),
        props.len() == 1,
        proposal_target(props[0]) == user,
        proposal_role(props[0]) == role,
        apply_spec(p, m, user, props) is Ok,
    ensures
        apply_spec(p, apply_spec(p, m, user, props)->Ok_0, user, props) == Err::<Members, Error>(
            Error::NothingToDo,
        ),
{
    let s = role_info(p, RoleIndex::Outsider).self_role_changes@;
    let c = choose|i: int| is_join_pos(s, i);
    assert(is_join_pos(s, c));
    assert(joinable(role));
    assert(props.drop_last() =~= Seq::<MimiProposal>::empty());
    assert(batch_spec(p, m, user, props.drop_last()) == Ok::<Members, Error>(m));
    assert(props.last() == props[0]);
    assert(batch_spec(p, m, user, props) == step_spec(p, m, user, user, role));
    let m2 = apply_spec(p, m, user, props)->Ok_0;
    assert(batch_spec(p, m, user, props) == Ok::<Members, Error>(m2));
    assert(m2 == set_role(m, user, role));
    lemma_set_role_of(m, user, role);
    assert(role_of(m2, user) == role);
    assert(batch_spec(p, m2, user, props.drop_last()) == Ok::<Members, Error>(m2));
    assert(batch_spec(p, m2, user, props) == step_spec(p, m2, user, user, role));
}

} // verus!
