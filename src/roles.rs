use vstd::prelude::*;

verus! {

/// Identifier of a role in a room policy.
///
/// The structural roles are ordered by trust:
/// `Outsider`, `Banned` < `Regular` < `Admin` < `Owner`.
/// Custom roles carry no rank.
#[derive(Debug, Clone, Copy, PartialEq, Eq, Structural, PartialOrd, Ord, Hash)]
pub enum RoleIndex {
    /// Outsiders are not in the room and are not trusted at all.
    Outsider,
    /// Banned users may not take part in the room.
    Banned,
    Regular,
    Admin,
    Owner,
    /// Custom roles defined by the policy.
    Custom(u32),
}

/// A permission that a role may grant.
#[derive(Debug, Clone, Copy, PartialEq, Eq, Structural, PartialOrd, Ord, Hash)]
pub enum Capability {
    SendMessage,
    ReceiveMessage,
    ReactToMessage,
    DeleteReaction,
    EditOwnMessage,
    DeleteOwnMessage,
    DeleteAnyMessage,
    UploadImage,
    UploadVideo,
    UploadAttachment,
    ChangeRoomName,
    ChangeRoomDescription,
    ChangeRoomAvatar,
    StartCall,
    JoinCall,
    ChangeRoleDefinitions,
}

/// Whether a role takes part in the trust order.
pub open spec fn has_rank(r: RoleIndex) -> bool {
    !(r is Custom)
}

/// Position of a structural role in the trust order.
pub open spec fn rank(r: RoleIndex) -> int {
    match r {
        RoleIndex::Outsider => 0,
        RoleIndex::Banned => 0,
        RoleIndex::Regular => 1,
        RoleIndex::Admin => 2,
        RoleIndex::Owner => 3,
        RoleIndex::Custom(_) => -1,
    }
}

/// Whether a role carries the implicit administrative override.
pub open spec fn is_admin_role(r: RoleIndex) -> bool {
    r == RoleIndex::Admin || r == RoleIndex::Owner
}

/// Whether a user holding `target` is shielded from an actor holding `actor`.
/// `same_user` tells whether actor and target are the same user.
pub open spec fn protected_spec(actor: RoleIndex, target: RoleIndex, same_user: bool) -> bool {
    if same_user {
        false
    } else if target == RoleIndex::Owner {
        true
    } else {
        target == RoleIndex::Admin && actor != RoleIndex::Owner
    }
}

impl RoleIndex {
    /// Whether this role carries the implicit administrative override
    /// (it satisfies every capability check).
    pub fn is_admin(&self) -> (b: bool)
        ensures
            b == is_admin_role(*self),
    {
        match self {
            RoleIndex::Admin | RoleIndex::Owner => true,
            _ => false,
        }
    }
}

/// Whether a user holding `target` is shielded from an actor holding `actor`.
/// Nobody is shielded from themselves; an Owner is shielded from everybody
/// else, and an Admin from everybody but an Owner.
pub fn role_protected_from(actor: RoleIndex, target: RoleIndex, same_user: bool) -> (b: bool)
    ensures
        b == protected_spec(actor, target, same_user),
{
    if same_user {
        false
    } else {
        match target {
            RoleIndex::Owner => true,
            RoleIndex::Admin => actor != RoleIndex::Owner,
            _ => false,
        }
    }
}

/// Protection is monotone in rank: if `a` is shielded from `b`, it is also
/// shielded from any `c` whose rank is strictly below that of `b`.
/// A user shielded from someone outranks every user of lower rank than that
/// someone, so `c` is a different user from `a` unless their roles agree.
pub proof fn lemma_protection_monotone(
    a: RoleIndex,
    b: RoleIndex,
    c: RoleIndex,
    a_is_b: bool,
    a_is_c: bool,
)
    requires
        protected_spec(b, a, a_is_b),
        has_rank(b),
        has_rank(c),
        rank(c) < rank(b),
        a_is_c ==> a == c,
    ensures
        protected_spec(c, a, a_is_c),
{
}

/// Position of a capability in the canonical order (the order of declaration).
pub open spec fn cap_rank(c: Capability) -> int {
    match c {
        Capability::SendMessage => 0,
        Capability::ReceiveMessage => 1,
        Capability::ReactToMessage => 2,
        Capability::DeleteReaction => 3,
        Capability::EditOwnMessage => 4,
        Capability::DeleteOwnMessage => 5,
        Capability::DeleteAnyMessage => 6,
        Capability::UploadImage => 7,
        Capability::UploadVideo => 8,
        Capability::UploadAttachment => 9,
        Capability::ChangeRoomName => 10,
        Capability::ChangeRoomDescription => 11,
        Capability::ChangeRoomAvatar => 12,
        Capability::StartCall => 13,
        Capability::JoinCall => 14,
        Capability::ChangeRoleDefinitions => 15,
    }
}

/// Every capability, in the canonical order.
pub open spec fn all_capabilities() -> Seq<Capability> {
    seq![
        Capability::SendMessage,
        Capability::ReceiveMessage,
        Capability::ReactToMessage,
        Capability::DeleteReaction,
        Capability::EditOwnMessage,
        Capability::DeleteOwnMessage,
        Capability::DeleteAnyMessage,
        Capability::UploadImage,
        Capability::UploadVideo,
        Capability::UploadAttachment,
        Capability::ChangeRoomName,
        Capability::ChangeRoomDescription,
        Capability::ChangeRoomAvatar,
        Capability::StartCall,
        Capability::JoinCall,
        Capability::ChangeRoleDefinitions,
    ]
}

/// The elements of `order` that `s` holds, in the order of `order`.
pub open spec fn keep_listed(order: Seq<Capability>, s: Seq<Capability>) -> Seq<Capability>
    decreases order.len(),
{
    if order.len() == 0 {
        Seq::empty()
    } else {
        let r = keep_listed(order.drop_last(), s);
        if s.contains(order.last()) {
            r.push(order.last())
        } else {
            r
        }
    }
}

/// `s` sorted in the canonical order, each capability once.
pub open spec fn canonical_caps(s: Seq<Capability>) -> Seq<Capability> {
    keep_listed(all_capabilities(), s)
}

/// Strictly increasing in the canonical order: sorted, without repetition.
pub open spec fn caps_sorted(s: Seq<Capability>) -> bool {
    forall|i: int, j: int| 0 <= i < j < s.len() ==> cap_rank(#[trigger] s[i]) < cap_rank(#[trigger] s[j])
}

proof fn lemma_keep_listed(order: Seq<Capability>, s: Seq<Capability>)
    requires
        caps_sorted(order),
    ensures
        forall|c: Capability|
            #[trigger] keep_listed(order, s).contains(c) <==> order.contains(c) && s.contains(c),
        caps_sorted(keep_listed(order, s)),
    decreases order.len(),
{
    if order.len() > 0 {
        let o = order.drop_last();
        assert(caps_sorted(o));
        lemma_keep_listed(o, s);
        let r = keep_listed(o, s);
        assert forall|c: Capability| order.contains(c) <==> o.contains(c) || c == order.last() by {
            if order.contains(c) {
                let k = choose|k: int| 0 <= k < order.len() && order[k] == c;
                if k < order.len() - 1 {
                    assert(o[k] == c);
                }
            }
            if o.contains(c) {
                let k = choose|k: int| 0 <= k < o.len() && o[k] == c;
                assert(order[k] == c);
            }
            if c == order.last() {
                assert(order[order.len() - 1] == c);
            }
        }
        assert forall|i: int| 0 <= i < r.len() implies cap_rank(#[trigger] r[i]) < cap_rank(order.last()) by {
            assert(r.contains(r[i]));
            let k = choose|k: int| 0 <= k < o.len() && o[k] == r[i];
            assert(order[k] == r[i]);
        }
        if s.contains(order.last()) {
            let r2 = r.push(order.last());
            assert forall|c: Capability| #[trigger] r2.contains(c) <==> r.contains(c) || c == order.last() by {
                if r2.contains(c) {
                    let k = choose|k: int| 0 <= k < r2.len() && r2[k] == c;
                    if k < r.len() {
                        assert(r[k] == c);
                    }
                }
                if r.contains(c) {
                    let k = choose|k: int| 0 <= k < r.len() && r[k] == c;
                    assert(r2[k] == c);
                }
                if c == order.last() {
                    assert(r2[r.len() as int] == c);
                }
            }
        }
    }
}

/// The canonical form holds exactly the capabilities of `s`, sorted and
/// each once.
pub proof fn lemma_canonical_caps(s: Seq<Capability>)
    ensures
        forall|c: Capability| #[trigger] canonical_caps(s).contains(c) <==> s.contains(c),
        caps_sorted(canonical_caps(s)),
{
    let all = all_capabilities();
    assert(caps_sorted(all));
    lemma_keep_listed(all, s);
    assert forall|c: Capability| all.contains(c) by {
        assert(all[cap_rank(c)] == c);
    }
}

proof fn lemma_sorted_same_elements(a: Seq<Capability>, b: Seq<Capability>)
    requires
        caps_sorted(a),
        caps_sorted(b),
        forall|c: Capability| a.contains(c) <==> b.contains(c),
    ensures
        a == b,
    decreases a.len(),
{
    if a.len() == 0 {
        if b.len() > 0 {
            assert(b.contains(b[0]));
        }
        assert(a =~= b);
    } else {
        assert(a.contains(a.last()));
        assert(b.len() > 0);
        assert(b.contains(b.last()));
        let ka = choose|k: int| 0 <= k < b.len() && b[k] == a.last();
        let kb = choose|k: int| 0 <= k < a.len() && a[k] == b.last();
        if ka < b.len() - 1 {
            assert(cap_rank(b[ka]) < cap_rank(b.last()));
        }
        if kb < a.len() - 1 {
            assert(cap_rank(a[kb]) < cap_rank(a.last()));
        }
        assert(a.last() == b.last());
        let a0 = a.drop_last();
        let b0 = b.drop_last();
        assert forall|c: Capability| a0.contains(c) <==> b0.contains(c) by {
            if a0.contains(c) {
                let k = choose|k: int| 0 <= k < a0.len() && a0[k] == c;
                assert(a.contains(c));
                assert(cap_rank(a[k]) < cap_rank(a.last()));
                let j = choose|j: int| 0 <= j < b.len() && b[j] == c;
                if j == b.len() - 1 {
                    assert(false);
                }
                assert(b0[j] == c);
            }
            if b0.contains(c) {
                let k = choose|k: int| 0 <= k < b0.len() && b0[k] == c;
                assert(b.contains(c));
                assert(cap_rank(b[k]) < cap_rank(b.last()));
                let j = choose|j: int| 0 <= j < a.len() && a[j] == c;
                if j == a.len() - 1 {
                    assert(false);
                }
                assert(a0[j] == c);
            }
        }
        lemma_sorted_same_elements(a0, b0);
        assert(a =~= a0.push(a.last()));
        assert(b =~= b0.push(b.last()));
    }
}

/// A list that is already sorted and without repetition is its own
/// canonical form.
pub proof fn lemma_canonical_of_sorted(s: Seq<Capability>)
    requires
        caps_sorted(s),
    ensures
        canonical_caps(s) == s,
{
    lemma_canonical_caps(s);
    lemma_sorted_same_elements(canonical_caps(s), s);
}

/// Every capability, in the canonical order.
pub fn capability_order() -> (r: Vec<Capability>)
    ensures
        r@ == all_capabilities(),
{
    vec![
        Capability::SendMessage,
        Capability::ReceiveMessage,
        Capability::ReactToMessage,
        Capability::DeleteReaction,
        Capability::EditOwnMessage,
        Capability::DeleteOwnMessage,
        Capability::DeleteAnyMessage,
        Capability::UploadImage,
        Capability::UploadVideo,
        Capability::UploadAttachment,
        Capability::ChangeRoomName,
        Capability::ChangeRoomDescription,
        Capability::ChangeRoomAvatar,
        Capability::StartCall,
        Capability::JoinCall,
        Capability::ChangeRoleDefinitions,
    ]
}

/// The capabilities of `v` in the canonical order, each once.
pub fn canonical_capabilities(v: &Vec<Capability>) -> (r: Vec<Capability>)
    ensures
        r@ == canonical_caps(v@),
{
    let order = capability_order();
    let mut r: Vec<Capability> = Vec::new();
    let mut i: usize = 0;
    while i < order.len()
        invariant
            i <= order@.len(),
            order@ == all_capabilities(),
            r@ == keep_listed(order@.take(i as int), v@),
        decreases order@.len() - i,
    {
        proof {
            assert(order@.take(i + 1).drop_last() =~= order@.take(i as int));
        }
        let c = order[i];
        let mut found = false;
        let mut j: usize = 0;
        while j < v.len()
            invariant
                j <= v@.len(),
                found == (exists|k: int| 0 <= k < j && v@[k] == c),
            decreases v@.len() - j,
        {
            if v[j] == c {
                found = true;
            }
            j = j + 1;
        }
        if found {
            r.push(c);
        }
        i = i + 1;
    }
    proof {
        assert(order@.take(i as int) =~= order@);
    }
    r
}

} // verus!
