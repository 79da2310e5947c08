use crate::roles::{has_rank, rank, canonical_capabilities, canonical_caps, caps_sorted, lemma_canonical_caps, lemma_canonical_of_sorted, Capability, RoleIndex};
use crate::tls::TlsString;
use vstd::prelude::*;

verus! {

/// The definition of a role for the room policy.
#[derive(Debug, Clone, PartialEq, Eq, Hash)]
pub struct RoleInfo {
    pub role_name: TlsString,
    pub role_description: TlsString,
    pub role_capabilities: Vec<Capability>,
    pub min_participants_constraint: u32,
    pub max_participants_constraint: Option<u32>,
    pub min_active_participants_constraint: u32,
    pub max_active_participants_constraint: Option<u32>,
    /// For each role that another user holds, the roles that a holder of this
    /// role may move that user to; in order of role identifier.
    pub authorized_role_changes: Vec<(RoleIndex, Vec<RoleIndex>)>,
    /// The roles that a holder of this role may move themselves to.
    pub self_role_changes: Vec<RoleIndex>,
}

/// How the membership of a room is managed.
#[derive(Debug, Clone, Copy, PartialEq, Eq, Structural, Hash)]
pub enum MembershipStyle {
    Reserved,
    Ordinary,
    FixedMembership,
    ParentDependent,
}

/// A value to indicate preference of a feature.
#[derive(Debug, Clone, Copy, PartialEq, Eq, Structural, Hash)]
pub enum Optionality {
    /// The decision is up to the user or client.
    Optional,
    /// The feature must be active.
    Required,
    /// The feature must be disabled.
    Forbidden,
}

/// How users may join through a link.
#[derive(Debug, Clone, PartialEq, Eq, Hash)]
pub struct LinkPolicy {
    pub on_request: bool,
    pub join_link: TlsString,
    pub multiuser: bool,
    pub expiration: u32,
    pub link_requests: TlsString,
}

/// Whether and how messages of the room may be logged.
#[derive(Debug, Clone, PartialEq, Eq, Hash)]
pub struct LoggingPolicy {
    pub logging: Optionality,
    pub logging_clients: Vec<TlsString>,
    pub machine_readable_policy: TlsString,
    pub human_readable_policy: TlsString,
}

/// Whether and how the room's history is shared with new members.
#[derive(Debug, Clone, PartialEq, Eq, Hash)]
pub struct HistoryPolicy {
    pub history_sharing: Optionality,
    pub who_can_share: Vec<RoleIndex>,
    pub automatically_share: bool,
    pub max_time_period: u32,
}

/// A bot that is allowed in the room.
#[derive(Debug, Clone, PartialEq, Eq, Hash)]
pub struct Bot {
    pub description: TlsString,
    pub homepage: TlsString,
    pub bot_role: RoleIndex,
    pub can_read: bool,
    pub can_write: bool,
    pub can_target_message_in_group: bool,
    pub per_user_content: bool,
}

/// A named policy record kept for forward compatibility.
#[derive(Debug, Clone, PartialEq, Eq, Hash)]
pub struct PolicyExtension {
    pub name: TlsString,
    pub value: Vec<u8>,
}

/// The set of rules that the room will follow.
#[derive(Debug, Clone, PartialEq, Eq, Hash)]
pub struct RoomPolicy {
    /// The roles of the room, each listed once, in order of role identifier.
    pub roles: Vec<(RoleIndex, RoleInfo)>,
    pub membership_style: MembershipStyle,
    pub multi_device: bool,
    pub parent_room_uri: TlsString,
    pub persistent_room: bool,
    pub delivery_notifications: Optionality,
    pub read_receipts: Optionality,
    pub semi_anonymous_ids: bool,
    pub discoverable: bool,
    pub link_policy: LinkPolicy,
    pub logging_policy: LoggingPolicy,
    pub history_sharing: HistoryPolicy,
    /// The allowed bots, keyed by name.
    pub allowed_bots: Vec<(TlsString, Bot)>,
    pub policy_extensions: Vec<PolicyExtension>,
}

/// `i` is the first position at which `s` has the key `k`.
pub open spec fn is_first_key_pos<K, V>(s: Seq<(K, V)>, k: K, i: int) -> bool {
    &&& 0 <= i < s.len()
    &&& s[i].0 == k
    &&& forall|j: int| 0 <= j < i ==> s[j].0 != k
}

/// Whether `s` has the key `k`.
pub open spec fn has_key<K, V>(s: Seq<(K, V)>, k: K) -> bool {
    exists|i: int| 0 <= i < s.len() && s[i].0 == k
}

/// The position of the first entry of `s` with key `k`.
pub open spec fn first_pos<K, V>(s: Seq<(K, V)>, k: K) -> int {
    choose|i: int| is_first_key_pos(s, k, i)
}

/// The value of the first entry of `s` with key `k`.
pub open spec fn value_of<K, V>(s: Seq<(K, V)>, k: K) -> V {
    s[first_pos(s, k)].1
}

/// Position of a role in the order of role identifiers: the structural
/// roles in the order of declaration, then the custom roles by number.
pub open spec fn role_key(r: RoleIndex) -> int {
    match r {
        RoleIndex::Outsider => 0,
        RoleIndex::Banned => 1,
        RoleIndex::Regular => 2,
        RoleIndex::Admin => 3,
        RoleIndex::Owner => 4,
        RoleIndex::Custom(n) => 5 + n,
    }
}

/// The keys of `s` are strictly increasing in the order of role identifiers,
/// so each is listed once.
pub open spec fn keys_sorted<V>(s: Seq<(RoleIndex, V)>) -> bool {
    forall|i: int, j: int| 0 <= i < j < s.len() ==> role_key(#[trigger] s[i].0) < role_key(#[trigger] s[j].0)
}

/// Every change that the table of a lower-ranked role permits, the table of
/// each higher-ranked role permits too.
pub open spec fn changes_grow_with_rank(p: RoomPolicy) -> bool {
    forall|a: int, b: int, i: int, x: RoleIndex|
        #![trigger p.roles@[a].1.authorized_role_changes@[i].1@.contains(x), p.roles@[b]]
        0 <= a < p.roles@.len() && 0 <= b < p.roles@.len() && has_rank(p.roles@[a].0) && has_rank(
            p.roles@[b].0,
        ) && rank(p.roles@[a].0) < rank(p.roles@[b].0) && 0 <= i
            < p.roles@[a].1.authorized_role_changes@.len()
            && p.roles@[a].1.authorized_role_changes@[i].1@.contains(x) ==> exists|j: int|
            0 <= j < p.roles@[b].1.authorized_role_changes@.len()
                && #[trigger] p.roles@[b].1.authorized_role_changes@[j].0
                == p.roles@[a].1.authorized_role_changes@[i].0
                && p.roles@[b].1.authorized_role_changes@[j].1@.contains(x)
}

/// Every role's change table lists each source role once, in order.
pub open spec fn tables_sorted(p: RoomPolicy) -> bool {
    forall|i: int| 0 <= i < p.roles@.len() ==> keys_sorted((#[trigger] p.roles@[i]).1.authorized_role_changes@)
}

/// Under a policy whose tables grow with rank, whatever a sender of lower
/// rank may do to another user, a sender of higher rank may do too. So a
/// user that a higher rank cannot move is shielded from every lower rank.
pub proof fn lemma_changes_monotone(
    p: RoomPolicy,
    lo: RoleIndex,
    hi: RoleIndex,
    from: RoleIndex,
    to: RoleIndex,
)
    requires
        changes_grow_with_rank(p),
        tables_sorted(p),
        role_defined(p, lo),
        role_defined(p, hi),
        has_rank(lo),
        has_rank(hi),
        rank(lo) < rank(hi),
        change_permitted(p, lo, from, to, false),
    ensures
        change_permitted(p, hi, from, to, false),
{
    lemma_has_key_first(p.roles@, lo);
    lemma_has_key_first(p.roles@, hi);
    let a = first_pos(p.roles@, lo);
    let b = first_pos(p.roles@, hi);
    let ta = p.roles@[a].1.authorized_role_changes@;
    let tb = p.roles@[b].1.authorized_role_changes@;
    lemma_has_key_first(ta, from);
    let i = first_pos(ta, from);
    assert(ta[i].1@.contains(to));
    assert(p.roles@[b] == p.roles@[b]);
    let j = choose|j: int| 0 <= j < tb.len() && #[trigger] tb[j].0 == ta[i].0 && tb[j].1@.contains(to);
    assert(keys_sorted(tb));
    assert forall|k: int| 0 <= k < j implies tb[k].0 != from by {
        assert(role_key(tb[k].0) < role_key(tb[j].0));
    }
    assert(is_first_key_pos(tb, from, j));
    lemma_first_key_pos(tb, from, j);
}

/// The position of `r` in the order of role identifiers.
pub fn role_order(r: RoleIndex) -> (k: u64)
    ensures
        k as int == role_key(r),
{
    match r {
        RoleIndex::Outsider => 0,
        RoleIndex::Banned => 1,
        RoleIndex::Regular => 2,
        RoleIndex::Admin => 3,
        RoleIndex::Owner => 4,
        RoleIndex::Custom(n) => 5 + n as u64,
    }
}

/// Whether the keys of `s` are strictly increasing.
pub fn sorted_keys<V>(s: &Vec<(RoleIndex, V)>) -> (b: bool)
    ensures
        b == keys_sorted(s@),
{
    let mut i: usize = 1;
    if s.len() == 0 {
        return true;
    }
    while i < s.len()
        invariant
            1 <= i <= s@.len(),
            forall|a: int, b: int| 0 <= a < b < i ==> role_key(#[trigger] s@[a].0) < role_key(#[trigger] s@[b].0),
        decreases s@.len() - i,
    {
        if role_order(s[i - 1].0) >= role_order(s[i].0) {
            proof {
                assert(role_key(s@[i - 1].0) >= role_key(s@[i as int].0));
            }
            return false;
        }
        proof {
            assert forall|a: int, b: int| 0 <= a < b < i + 1 implies role_key(#[trigger] s@[a].0) < role_key(
                #[trigger] s@[b].0,
            ) by {
                if b == i && a < i - 1 {
                    assert(role_key(s@[a].0) < role_key(s@[i - 1].0));
                }
            }
        }
        i = i + 1;
    }
    true
}

/// Whether the policy defines the role `r`.
pub open spec fn role_defined(p: RoomPolicy, r: RoleIndex) -> bool {
    has_key(p.roles@, r)
}

/// The definition of the role `r` in the policy.
pub open spec fn role_info(p: RoomPolicy, r: RoleIndex) -> RoleInfo {
    value_of(p.roles@, r)
}

/// The roles that a holder of `info` may move another user holding `from` to.
pub open spec fn other_changes(info: RoleInfo, from: RoleIndex) -> Seq<RoleIndex> {
    if has_key(info.authorized_role_changes@, from) {
        value_of(info.authorized_role_changes@, from)@
    } else {
        Seq::empty()
    }
}

/// Whether a holder of `actor` may move a user holding `from` to `to`;
/// `same_user` tells whether the two users are the same.
pub open spec fn change_permitted(
    p: RoomPolicy,
    actor: RoleIndex,
    from: RoleIndex,
    to: RoleIndex,
    same_user: bool,
) -> bool {
    if same_user {
        role_info(p, actor).self_role_changes@.contains(to)
    } else {
        other_changes(role_info(p, actor), from).contains(to)
    }
}

/// The first position of `k` in `s`, if any.
pub fn find_key<V>(s: &Vec<(RoleIndex, V)>, k: RoleIndex) -> (r: Option<usize>)
    ensures
        match r {
            Some(i) => is_first_key_pos(s@, k, i as int),
            None => !has_key(s@, k),
        },
{
    let mut i: usize = 0;
    while i < s.len()
        invariant
            i <= s@.len(),
            forall|j: int| 0 <= j < i ==> s@[j].0 != k,
        decreases s@.len() - i,
    {
        if s[i].0 == k {
            return Some(i);
        }
        i = i + 1;
    }
    None
}

/// The first position of a key is the one that `value_of` reads.
pub proof fn lemma_first_key_pos<K, V>(s: Seq<(K, V)>, k: K, i: int)
    requires
        is_first_key_pos(s, k, i),
    ensures
        has_key(s, k),
        first_pos(s, k) == i,
        value_of(s, k) == s[i].1,
{
    let c = first_pos(s, k);
    assert(is_first_key_pos(s, k, c));
    if c < i {
        assert(s[c].0 != k);
    } else if c > i {
        assert(s[i].0 != k);
    }
}

/// Some position holding key `k` is the first such position.
proof fn lemma_first_exists<K, V>(s: Seq<(K, V)>, k: K, w: int)
    requires
        0 <= w < s.len(),
        s[w].0 == k,
    ensures
        exists|i: int| is_first_key_pos(s, k, i),
    decreases w,
{
    if exists|j: int| 0 <= j < w && s[j].0 == k {
        let j = choose|j: int| 0 <= j < w && s[j].0 == k;
        lemma_first_exists(s, k, j);
    } else {
        assert(is_first_key_pos(s, k, w));
    }
}

/// A key that occurs has a first position, which `first_pos` names.
pub proof fn lemma_has_key_first<K, V>(s: Seq<(K, V)>, k: K)
    requires
        has_key(s, k),
    ensures
        is_first_key_pos(s, k, first_pos(s, k)),
{
    let w = choose|w: int| 0 <= w < s.len() && s[w].0 == k;
    lemma_first_exists(s, k, w);
}

/// Whether `v` holds `r`.
pub fn contains_role(v: &Vec<RoleIndex>, r: RoleIndex) -> (b: bool)
    ensures
        b == v@.contains(r),
{
    let mut i: usize = 0;
    while i < v.len()
        invariant
            i <= v@.len(),
            forall|j: int| 0 <= j < i ==> v@[j] != r,
        decreases v@.len() - i,
    {
        if v[i] == r {
            return true;
        }
        i = i + 1;
    }
    false
}

impl RoomPolicy {
    /// The position of the definition of `r`, if the policy defines it.
    pub fn find_role(&self, r: RoleIndex) -> (res: Option<usize>)
        ensures
            match res {
                Some(i) => is_first_key_pos(self.roles@, r, i as int) && role_defined(*self, r)
                    && role_info(*self, r) == self.roles@[i as int].1,
                None => !role_defined(*self, r),
            },
    {
        let res = find_key(&self.roles, r);
        if let Some(i) = res {
            proof {
                lemma_first_key_pos(self.roles@, r, i as int);
            }
        }
        res
    }

    /// Whether a holder of `actor` may move a user holding `from` to `to`;
    /// never if the policy does not define `actor`.
    pub fn permits_change(&self, actor: RoleIndex, from: RoleIndex, to: RoleIndex, same_user: bool) -> (b: bool)
        ensures
            b == (role_defined(*self, actor) && change_permitted(*self, actor, from, to, same_user)),
    {
        let pos = self.find_role(actor);
        match pos {
            None => false,
            Some(i) => {
                let info = &self.roles[i].1;
                if same_user {
                    contains_role(&info.self_role_changes, to)
                } else {
                    match find_key(&info.authorized_role_changes, from) {
                        None => false,
                        Some(j) => {
                            proof {
                                lemma_first_key_pos(info.authorized_role_changes@, from, j as int);
                            }
                            contains_role(&info.authorized_role_changes[j].1, to)
                        },
                    }
                }
            },
        }
    }
}

/// Two role definitions agree in everything but their capability lists.
pub open spec fn same_but_capabilities(a: RoleInfo, b: RoleInfo) -> bool {
    &&& a.role_name == b.role_name
    &&& a.role_description == b.role_description
    &&& a.min_participants_constraint == b.min_participants_constraint
    &&& a.max_participants_constraint == b.max_participants_constraint
    &&& a.min_active_participants_constraint == b.min_active_participants_constraint
    &&& a.max_active_participants_constraint == b.max_active_participants_constraint
    &&& a.authorized_role_changes == b.authorized_role_changes
    &&& a.self_role_changes == b.self_role_changes
}

/// `q` has the roles of `p`, in the same order, with the same definitions
/// but for the capability lists.
pub open spec fn same_rules(q: RoomPolicy, p: RoomPolicy) -> bool {
    &&& q.roles@.len() == p.roles@.len()
    &&& forall|i: int|
        0 <= i < p.roles@.len() ==> (#[trigger] q.roles@[i]).0 == p.roles@[i].0
            && same_but_capabilities(q.roles@[i].1, p.roles@[i].1)
}

/// `q` is `p` with each role's capabilities sorted in the canonical order
/// and listed once.
pub open spec fn canonical_policy_of(q: RoomPolicy, p: RoomPolicy) -> bool {
    &&& same_rules(q, p)
    &&& forall|i: int|
        0 <= i < p.roles@.len() ==> (#[trigger] q.roles@[i]).1.role_capabilities@ == canonical_caps(
            p.roles@[i].1.role_capabilities@,
        )
    &&& q.membership_style == p.membership_style
    &&& q.multi_device == p.multi_device
    &&& q.parent_room_uri == p.parent_room_uri
    &&& q.persistent_room == p.persistent_room
    &&& q.delivery_notifications == p.delivery_notifications
    &&& q.read_receipts == p.read_receipts
    &&& q.semi_anonymous_ids == p.semi_anonymous_ids
    &&& q.discoverable == p.discoverable
    &&& q.link_policy == p.link_policy
    &&& q.logging_policy == p.logging_policy
    &&& q.history_sharing == p.history_sharing
    &&& q.allowed_bots == p.allowed_bots
    &&& q.policy_extensions == p.policy_extensions
}

/// Each role's capabilities are sorted in the canonical order, each once.
pub open spec fn capabilities_canonical(p: RoomPolicy) -> bool {
    forall|i: int| 0 <= i < p.roles@.len() ==> caps_sorted((#[trigger] p.roles@[i]).1.role_capabilities@)
}

/// `q` and `p` are the same policy: the same roles with the same
/// definitions, capability lists included, and the same settings.
pub open spec fn same_policy(q: RoomPolicy, p: RoomPolicy) -> bool {
    &&& canonical_policy_of(q, p)
    &&& forall|i: int|
        0 <= i < p.roles@.len() ==> (#[trigger] q.roles@[i]).1.role_capabilities@
            == p.roles@[i].1.role_capabilities@
}

/// Putting a policy whose capability lists are already canonical into
/// canonical form changes nothing.
pub proof fn lemma_canonical_of_canonical(q: RoomPolicy, p: RoomPolicy)
    requires
        canonical_policy_of(q, p),
        capabilities_canonical(p),
    ensures
        same_policy(q, p),
{
    assert forall|i: int| 0 <= i < p.roles@.len() implies (#[trigger] q.roles@[i]).1.role_capabilities@
        == p.roles@[i].1.role_capabilities@ by {
        assert(caps_sorted(p.roles@[i].1.role_capabilities@));
        lemma_canonical_of_sorted(p.roles@[i].1.role_capabilities@);
    }
}

/// `p` with each role's capabilities sorted in the canonical order and
/// listed once.
pub fn canonicalize(p: RoomPolicy) -> (q: RoomPolicy)
    ensures
        canonical_policy_of(q, p),
        capabilities_canonical(q),
{
    let ghost p0 = p;
    let mut q = p;
    let mut roles: Vec<(RoleIndex, RoleInfo)> = Vec::new();
    std::mem::swap(&mut roles, &mut q.roles);
    let ghost orig = roles@;
    let total = roles.len();
    let mut out: Vec<(RoleIndex, RoleInfo)> = Vec::new();
    let mut k: usize = 0;
    while roles.len() > 0
        invariant
            orig == p0.roles@,
            total == orig.len(),
            k <= orig.len(),
            roles@ == orig.skip(k as int),
            out@.len() == k,
            forall|i: int|
                0 <= i < k ==> (#[trigger] out@[i]).0 == orig[i].0 && same_but_capabilities(
                    out@[i].1,
                    orig[i].1,
                ) && out@[i].1.role_capabilities@ == canonical_caps(orig[i].1.role_capabilities@),
        decreases roles@.len(),
    {
        proof {
            assert(roles@[0] == orig[k as int]);
        }
        let (index, mut info) = roles.remove(0);
        proof {
            assert(roles@ =~= orig.skip(k + 1));
        }
        info.role_capabilities = canonical_capabilities(&info.role_capabilities);
        out.push((index, info));
        k = k + 1;
    }
    proof {
        assert(k == orig.len());
    }
    q.roles = out;
    proof {
        assert forall|i: int| 0 <= i < q.roles@.len() implies caps_sorted(
            (#[trigger] q.roles@[i]).1.role_capabilities@,
        ) by {
            lemma_canonical_caps(orig[i].1.role_capabilities@);
        }
    }
    q
}

} // verus!
