use crate::error::Error;
use crate::policy::{
    contains_role, first_pos, is_first_key_pos, keys_sorted, role_key, sorted_keys,
    lemma_first_key_pos, lemma_has_key_first, role_defined, role_info, same_but_capabilities,
    same_rules, RoleInfo, RoomPolicy,
};
use crate::roles::RoleIndex;
use crate::tls::byte_len;
use vstd::prelude::*;

verus! {

/// The first error in `s`, scanning from the front.
pub open spec fn first_err(s: Seq<Option<Error>>) -> Option<Error>
    decreases s.len(),
{
    if s.len() == 0 {
        None
    } else {
        match first_err(s.drop_last()) {
            Some(e) => Some(e),
            None => s.last(),
        }
    }
}

/// Scanning one more element: the earlier error wins, else the new element.
pub proof fn lemma_first_err_step(s: Seq<Option<Error>>, i: int)
    requires
        0 <= i < s.len(),
    ensures
        first_err(s.take(i + 1)) == (match first_err(s.take(i)) {
            Some(e) => Some(e),
            None => s[i],
        }),
{
    assert(s.take(i + 1).drop_last() =~= s.take(i));
}

/// An error found in a prefix is the first error of the whole sequence.
pub proof fn lemma_first_err_prefix(s: Seq<Option<Error>>, k: int)
    requires
        0 <= k <= s.len(),
        first_err(s.take(k)) is Some,
    ensures
        first_err(s) == first_err(s.take(k)),
    decreases s.len() - k,
{
    if k == s.len() {
        assert(s.take(k) =~= s);
    } else {
        lemma_first_err_step(s, k);
        lemma_first_err_prefix(s, k + 1);
    }
}

/// A sequence with no error in any element.
pub proof fn lemma_first_err_none(s: Seq<Option<Error>>)
    requires
        forall|i: int| 0 <= i < s.len() ==> s[i] is None,
    ensures
        first_err(s) is None,
    decreases s.len(),
{
    if s.len() > 0 {
        lemma_first_err_none(s.drop_last());
    }
}

/// A declared change from `source` to `target` is malformed when the two
/// are the same role or when `target` is not defined.
pub open spec fn transition_error(p: RoomPolicy, source: RoleIndex, target: RoleIndex) -> Option<Error> {
    if source == target {
        Some(Error::InvalidRoleTransition { source_role: source, target_role: target })
    } else if !role_defined(p, target) {
        Some(Error::RoleNotDefined)
    } else {
        None
    }
}

/// The first malformed change among `targets`, all starting from `source`.
pub open spec fn transitions_error(p: RoomPolicy, source: RoleIndex, targets: Seq<RoleIndex>) -> Option<Error> {
    first_err(targets.map_values(|t: RoleIndex| transition_error(p, source, t)))
}

/// An entry of a role's change table is malformed when its source role is
/// not defined or one of its changes is malformed.
pub open spec fn table_entry_error(p: RoomPolicy, source: RoleIndex, targets: Seq<RoleIndex>) -> Option<Error> {
    if !role_defined(p, source) {
        Some(Error::RoleNotDefined)
    } else {
        transitions_error(p, source, targets)
    }
}

/// The minimum and maximum member counts of a role contradict each other.
pub open spec fn bad_bounds(info: RoleInfo) -> bool {
    ||| (info.max_participants_constraint matches Some(m) && m < info.min_participants_constraint)
    ||| (info.max_active_participants_constraint matches Some(m) && m
        < info.min_active_participants_constraint)
}

/// The longest role name or description, in bytes.
pub const MAX_STRING_LEN: usize = 1000;

/// What is wrong with the definition `info` of the role `index`, if anything.
pub open spec fn role_error(p: RoomPolicy, index: RoleIndex, info: RoleInfo) -> Option<Error> {
    if info.role_name.0@.len() == 0 || bad_bounds(info) {
        Some(Error::InvalidMinMaxConstraints)
    } else if byte_len(info.role_name.0@) > MAX_STRING_LEN || byte_len(info.role_description.0@)
        > MAX_STRING_LEN {
        Some(Error::StringTooLong)
    } else if !keys_sorted(info.authorized_role_changes@) {
        Some(Error::InvalidRoleDefinition)
    } else {
        match first_err(
            info.authorized_role_changes@.map_values(
                |e: (RoleIndex, Vec<RoleIndex>)| table_entry_error(p, e.0, e.1@),
            ),
        ) {
            Some(e) => Some(e),
            None => transitions_error(p, index, info.self_role_changes@),
        }
    }
}

/// The first malformed role definition of the policy.
pub open spec fn roles_error(p: RoomPolicy) -> Option<Error> {
    first_err(p.roles@.map_values(|e: (RoleIndex, RoleInfo)| role_error(p, e.0, e.1)))
}

/// The `Outsider` role is defined, named "Outsider", and admits nobody.
pub open spec fn outsider_role_ok(p: RoomPolicy) -> bool {
    &&& role_defined(p, RoleIndex::Outsider)
    &&& role_info(p, RoleIndex::Outsider).role_name.0@ == "Outsider"@
    &&& role_info(p, RoleIndex::Outsider).max_participants_constraint == Some(0u32)
}

/// The `Banned` role, if defined, is named "Banned" and admits no active member.
pub open spec fn banned_role_ok(p: RoomPolicy) -> bool {
    role_defined(p, RoleIndex::Banned) ==> {
        &&& role_info(p, RoleIndex::Banned).role_name.0@ == "Banned"@
        &&& role_info(p, RoleIndex::Banned).max_active_participants_constraint == Some(0u32)
    }
}

/// How many entries of `held` are `r`.
pub open spec fn count_role(held: Seq<RoleIndex>, r: RoleIndex) -> nat
    decreases held.len(),
{
    if held.len() == 0 {
        0
    } else {
        count_role(held.drop_last(), r) + if held.last() == r {
            1nat
        } else {
            0nat
        }
    }
}

/// The number of holders of `r` lies outside the bounds that `info` sets.
pub open spec fn count_out_of_bounds(info: RoleInfo, count: nat) -> bool {
    ||| (info.max_participants_constraint matches Some(m) && count > m)
    ||| count < info.min_participants_constraint
}

/// The first violated rule of a room whose members hold the roles `held`
/// under the policy `p`, or `None` if the room is consistent.
pub open spec fn check_spec(p: RoomPolicy, held: Seq<RoleIndex>) -> Option<Error> {
    if !keys_sorted(p.roles@) {
        Some(Error::InvalidRoleDefinition)
    } else if held.contains(RoleIndex::Outsider) {
        Some(Error::UserNotInRoom)
    } else if !outsider_role_ok(p) || !banned_role_ok(p) {
        Some(Error::SpecialRole)
    } else if roles_error(p) is Some {
        roles_error(p)
    } else if exists|i: int| 0 <= i < held.len() && !role_defined(p, #[trigger] held[i]) {
        Some(Error::RoleNotDefined)
    } else if exists|i: int|
        0 <= i < p.roles@.len() && count_out_of_bounds(
            #[trigger] p.roles@[i].1,
            count_role(held, p.roles@[i].0),
        ) {
        Some(Error::RoleMinMaxViolated)
    } else {
        None
    }
}

fn check_transition(p: &RoomPolicy, source: RoleIndex, target: RoleIndex) -> (r: Option<Error>)
    ensures
        r == transition_error(*p, source, target),
{
    if source == target {
        Some(Error::InvalidRoleTransition { source_role: source, target_role: target })
    } else if p.find_role(target).is_none() {
        Some(Error::RoleNotDefined)
    } else {
        None
    }
}

fn check_transitions(p: &RoomPolicy, source: RoleIndex, targets: &Vec<RoleIndex>) -> (r: Option<Error>)
    ensures
        r == transitions_error(*p, source, targets@),
{
    let ghost s = targets@.map_values(|t: RoleIndex| transition_error(*p, source, t));
    let mut i: usize = 0;
    while i < targets.len()
        invariant
            i <= targets@.len(),
            s == targets@.map_values(|t: RoleIndex| transition_error(*p, source, t)),
            first_err(s.take(i as int)) is None,
        decreases targets@.len() - i,
    {
        let e = check_transition(p, source, targets[i]);
        proof {
            lemma_first_err_step(s, i as int);
        }
        if e.is_some() {
            proof {
                lemma_first_err_prefix(s, i + 1);
            }
            return e;
        }
        i = i + 1;
    }
    proof {
        assert(s.take(i as int) =~= s);
    }
    None
}

fn check_table_entry(p: &RoomPolicy, source: RoleIndex, targets: &Vec<RoleIndex>) -> (r: Option<Error>)
    ensures
        r == table_entry_error(*p, source, targets@),
{
    if p.find_role(source).is_none() {
        Some(Error::RoleNotDefined)
    } else {
        check_transitions(p, source, targets)
    }
}

fn check_role(p: &RoomPolicy, index: RoleIndex, info: &RoleInfo) -> (r: Option<Error>)
    ensures
        r == role_error(*p, index, *info),
{
    let bad_max = match info.max_participants_constraint {
        Some(m) => m < info.min_participants_constraint,
        None => false,
    };
    let bad_active = match info.max_active_participants_constraint {
        Some(m) => m < info.min_active_participants_constraint,
        None => false,
    };
    if info.role_name.is_empty() || bad_max || bad_active {
        return Some(Error::InvalidMinMaxConstraints);
    }
    if info.role_name.byte_len() > MAX_STRING_LEN || info.role_description.byte_len() > MAX_STRING_LEN {
        return Some(Error::StringTooLong);
    }
    if !sorted_keys(&info.authorized_role_changes) {
        return Some(Error::InvalidRoleDefinition);
    }
    let table = &info.authorized_role_changes;
    let ghost s = table@.map_values(
        |e: (RoleIndex, Vec<RoleIndex>)| table_entry_error(*p, e.0, e.1@),
    );
    let mut i: usize = 0;
    while i < table.len()
        invariant
            i <= table@.len(),
            table == &info.authorized_role_changes,
            !(info.role_name.0@.len() == 0 || bad_bounds(*info)),
            byte_len(info.role_name.0@) <= MAX_STRING_LEN,
            byte_len(info.role_description.0@) <= MAX_STRING_LEN,
            keys_sorted(info.authorized_role_changes@),
            s == table@.map_values(
                |e: (RoleIndex, Vec<RoleIndex>)| table_entry_error(*p, e.0, e.1@),
            ),
            first_err(s.take(i as int)) is None,
        decreases table@.len() - i,
    {
        let e = check_table_entry(p, table[i].0, &table[i].1);
        proof {
            lemma_first_err_step(s, i as int);
        }
        if e.is_some() {
            proof {
                lemma_first_err_prefix(s, i + 1);
                assert(first_err(s) == e);
            }
            return e;
        }
        i = i + 1;
    }
    proof {
        assert(s.take(i as int) =~= s);
    }
    check_transitions(p, index, &info.self_role_changes)
}

fn check_roles(p: &RoomPolicy) -> (r: Option<Error>)
    ensures
        r == roles_error(*p),
{
    let ghost s = p.roles@.map_values(|e: (RoleIndex, RoleInfo)| role_error(*p, e.0, e.1));
    let mut i: usize = 0;
    while i < p.roles.len()
        invariant
            i <= p.roles@.len(),
            s == p.roles@.map_values(|e: (RoleIndex, RoleInfo)| role_error(*p, e.0, e.1)),
            first_err(s.take(i as int)) is None,
        decreases p.roles@.len() - i,
    {
        let e = check_role(p, p.roles[i].0, &p.roles[i].1);
        proof {
            lemma_first_err_step(s, i as int);
        }
        if e.is_some() {
            proof {
                lemma_first_err_prefix(s, i + 1);
            }
            return e;
        }
        i = i + 1;
    }
    proof {
        assert(s.take(i as int) =~= s);
    }
    None
}

fn special_roles_ok(p: &RoomPolicy) -> (b: bool)
    ensures
        b == (outsider_role_ok(*p) && banned_role_ok(*p)),
{
    match p.find_role(RoleIndex::Outsider) {
        None => {
            return false;
        },
        Some(i) => {
            let info = &p.roles[i].1;
            if !info.role_name.equals("Outsider") || info.max_participants_constraint != Some(0u32) {
                return false;
            }
        },
    }
    match p.find_role(RoleIndex::Banned) {
        None => true,
        Some(i) => {
            let info = &p.roles[i].1;
            info.role_name.equals("Banned") && info.max_active_participants_constraint == Some(0u32)
        },
    }
}

/// Number of entries of `held` equal to `r`.
fn count_holders(held: &Vec<RoleIndex>, r: RoleIndex) -> (n: usize)
    ensures
        n as nat == count_role(held@, r),
{
    let mut n: usize = 0;
    let mut i: usize = 0;
    while i < held.len()
        invariant
            i <= held@.len(),
            n <= i,
            n as nat == count_role(held@.take(i as int), r),
        decreases held@.len() - i,
    {
        proof {
            assert(held@.take(i + 1).drop_last() =~= held@.take(i as int));
        }
        if held[i] == r {
            n = n + 1;
        }
        i = i + 1;
    }
    proof {
        assert(held@.take(i as int) =~= held@);
    }
    n
}

/// Checks a room whose members hold the roles `held` against every rule of
/// the policy `p`, and returns the first violated rule.
pub fn check_room(p: &RoomPolicy, held: &Vec<RoleIndex>) -> (r: Option<Error>)
    ensures
        r == check_spec(*p, held@),
{
    if !sorted_keys(&p.roles) {
        return Some(Error::InvalidRoleDefinition);
    }
    if contains_role(held, RoleIndex::Outsider) {
        return Some(Error::UserNotInRoom);
    }
    if !special_roles_ok(p) {
        return Some(Error::SpecialRole);
    }
    let e = check_roles(p);
    if e.is_some() {
        return e;
    }
    let mut i: usize = 0;
    while i < held.len()
        invariant
            i <= held@.len(),
            keys_sorted(p.roles@),
            !held@.contains(RoleIndex::Outsider),
            outsider_role_ok(*p) && banned_role_ok(*p),
            roles_error(*p) is None,
            forall|j: int| 0 <= j < i ==> role_defined(*p, #[trigger] held@[j]),
        decreases held@.len() - i,
    {
        if p.find_role(held[i]).is_none() {
            proof {
                assert(!role_defined(*p, held@[i as int]));
            }
            return Some(Error::RoleNotDefined);
        }
        i = i + 1;
    }
    let mut k: usize = 0;
    while k < p.roles.len()
        invariant
            k <= p.roles@.len(),
            keys_sorted(p.roles@),
            !held@.contains(RoleIndex::Outsider),
            outsider_role_ok(*p) && banned_role_ok(*p),
            roles_error(*p) is None,
            forall|j: int| 0 <= j < held@.len() ==> role_defined(*p, #[trigger] held@[j]),
            forall|j: int|
                0 <= j < k ==> !count_out_of_bounds(
                    #[trigger] p.roles@[j].1,
                    count_role(held@, p.roles@[j].0),
                ),
        decreases p.roles@.len() - k,
    {
        let info = &p.roles[k].1;
        let count = count_holders(held, p.roles[k].0);
        let over = match info.max_participants_constraint {
            Some(m) => count > m as usize,
            None => false,
        };
        if over || count < info.min_participants_constraint as usize {
            proof {
                assert(count_out_of_bounds(p.roles@[k as int].1, count_role(held@, p.roles@[k as int].0)));
            }
            return Some(Error::RoleMinMaxViolated);
        }
        k = k + 1;
    }
    None
}


/// A sequence whose first error is `None` has no error at all.
pub proof fn lemma_first_err_all_none(s: Seq<Option<Error>>)
    requires
        first_err(s) is None,
    ensures
        forall|i: int| 0 <= i < s.len() ==> #[trigger] s[i] is None,
    decreases s.len(),
{
    if s.len() > 0 {
        lemma_first_err_all_none(s.drop_last());
        assert forall|i: int| 0 <= i < s.len() implies #[trigger] s[i] is None by {
            if i < s.len() - 1 {
                assert(s[i] == s.drop_last()[i]);
            }
        }
    }
}

/// What a well-formed role definition guarantees: a name, strings of
/// bounded length, bounds that
/// agree, each role change listed once, and every declared change going to
/// another defined role.
pub open spec fn role_well_formed(p: RoomPolicy, index: RoleIndex, info: RoleInfo) -> bool {
    &&& info.role_name.0@.len() > 0
    &&& byte_len(info.role_name.0@) <= MAX_STRING_LEN
    &&& byte_len(info.role_description.0@) <= MAX_STRING_LEN
    &&& !bad_bounds(info)
    &&& keys_sorted(info.authorized_role_changes@)
    &&& forall|t: RoleIndex|
        #[trigger] info.self_role_changes@.contains(t) ==> t != index && role_defined(p, t)
    &&& forall|k: int|
        0 <= k < info.authorized_role_changes@.len() ==> role_defined(
            p,
            #[trigger] info.authorized_role_changes@[k].0,
        )
    &&& forall|k: int, t: RoleIndex|
        0 <= k < info.authorized_role_changes@.len()
            && #[trigger] info.authorized_role_changes@[k].1@.contains(t) ==> t
            != info.authorized_role_changes@[k].0 && role_defined(p, t)
}

proof fn lemma_transitions_ok(p: RoomPolicy, source: RoleIndex, targets: Seq<RoleIndex>)
    requires
        transitions_error(p, source, targets) is None,
    ensures
        forall|t: RoleIndex| #[trigger] targets.contains(t) ==> t != source && role_defined(p, t),
{
    let s = targets.map_values(|t: RoleIndex| transition_error(p, source, t));
    lemma_first_err_all_none(s);
    assert forall|t: RoleIndex| #[trigger] targets.contains(t) implies t != source && role_defined(p, t) by {
        let k = choose|k: int| 0 <= k < targets.len() && targets[k] == t;
        assert(s[k] is None);
    }
}

/// A role definition without error is well formed.
pub proof fn lemma_role_well_formed(p: RoomPolicy, index: RoleIndex, info: RoleInfo)
    requires
        role_error(p, index, info) is None,
    ensures
        role_well_formed(p, index, info),
{
    let table = info.authorized_role_changes@;
    let s = table.map_values(|e: (RoleIndex, Vec<RoleIndex>)| table_entry_error(p, e.0, e.1@));
    lemma_first_err_all_none(s);
    lemma_transitions_ok(p, index, info.self_role_changes@);
    assert forall|k: int| 0 <= k < table.len() implies role_defined(p, #[trigger] table[k].0) by {
        assert(s[k] is None);
    }
    assert forall|k: int, t: RoleIndex|
        0 <= k < table.len() && #[trigger] table[k].1@.contains(t) implies t != table[k].0
        && role_defined(p, t) by {
        assert(s[k] is None);
        lemma_transitions_ok(p, table[k].0, table[k].1@);
    }
}

/// The rules that hold of a consistent room: the roles of the policy are
/// listed once and are well formed; the `Outsider` role is defined and
/// admits nobody; the `Banned` role admits no active member; nobody is
/// listed as an outsider (a user without a role is simply not listed);
/// every role held is defined; and each role has between its minimum and
/// maximum number of holders.
pub proof fn lemma_consistent_rules(p: RoomPolicy, held: Seq<RoleIndex>)
    requires
        check_spec(p, held) is None,
    ensures
        keys_sorted(p.roles@),
        outsider_role_ok(p),
        banned_role_ok(p),
        !held.contains(RoleIndex::Outsider),
        forall|i: int| 0 <= i < held.len() ==> role_defined(p, #[trigger] held[i]),
        forall|i: int|
            0 <= i < p.roles@.len() ==> role_well_formed(p, (#[trigger] p.roles@[i]).0, p.roles@[i].1),
        forall|i: int|
            0 <= i < p.roles@.len() ==> !count_out_of_bounds(
                (#[trigger] p.roles@[i]).1,
                count_role(held, p.roles@[i].0),
            ),
{
    let s = p.roles@.map_values(|e: (RoleIndex, RoleInfo)| role_error(p, e.0, e.1));
    lemma_first_err_all_none(s);
    assert forall|i: int| 0 <= i < p.roles@.len() implies role_well_formed(
        p,
        (#[trigger] p.roles@[i]).0,
        p.roles@[i].1,
    ) by {
        assert(s[i] is None);
        lemma_role_well_formed(p, p.roles@[i].0, p.roles@[i].1);
    }
}

/// A well-formed role definition has no error.
pub proof fn lemma_role_error_none(p: RoomPolicy, index: RoleIndex, info: RoleInfo)
    requires
        role_well_formed(p, index, info),
    ensures
        role_error(p, index, info) is None,
{
    let table = info.authorized_role_changes@;
    let s = table.map_values(|e: (RoleIndex, Vec<RoleIndex>)| table_entry_error(p, e.0, e.1@));
    assert forall|k: int| 0 <= k < s.len() implies s[k] is None by {
        assert(role_defined(p, table[k].0));
        lemma_transitions_none(p, table[k].0, table[k].1@);
    }
    lemma_first_err_none(s);
    lemma_transitions_none(p, index, info.self_role_changes@);
}

proof fn lemma_transitions_none(p: RoomPolicy, source: RoleIndex, targets: Seq<RoleIndex>)
    requires
        forall|t: RoleIndex| #[trigger] targets.contains(t) ==> t != source && role_defined(p, t),
    ensures
        transitions_error(p, source, targets) is None,
{
    let s = targets.map_values(|t: RoleIndex| transition_error(p, source, t));
    assert forall|k: int| 0 <= k < s.len() implies s[k] is None by {
        assert(targets.contains(targets[k]));
    }
    lemma_first_err_none(s);
}

/// The converse of `lemma_consistent_rules`: a room that obeys those rules
/// passes the check.
pub proof fn lemma_rules_consistent(p: RoomPolicy, held: Seq<RoleIndex>)
    requires
        keys_sorted(p.roles@),
        outsider_role_ok(p),
        banned_role_ok(p),
        !held.contains(RoleIndex::Outsider),
        forall|i: int| 0 <= i < held.len() ==> role_defined(p, #[trigger] held[i]),
        forall|i: int|
            0 <= i < p.roles@.len() ==> role_well_formed(p, (#[trigger] p.roles@[i]).0, p.roles@[i].1),
        forall|i: int|
            0 <= i < p.roles@.len() ==> !count_out_of_bounds(
                (#[trigger] p.roles@[i]).1,
                count_role(held, p.roles@[i].0),
            ),
    ensures
        check_spec(p, held) is None,
{
    let s = p.roles@.map_values(|e: (RoleIndex, RoleInfo)| role_error(p, e.0, e.1));
    assert forall|i: int| 0 <= i < s.len() implies s[i] is None by {
        assert(role_well_formed(p, p.roles@[i].0, p.roles@[i].1));
        lemma_role_error_none(p, p.roles@[i].0, p.roles@[i].1);
    }
    lemma_first_err_none(s);
}

/// Policies with the same roles and the same definitions but for the
/// capability lists define the same roles.
pub proof fn lemma_same_rules_defined(q: RoomPolicy, p: RoomPolicy)
    requires
        same_rules(q, p),
    ensures
        forall|r: RoleIndex| #[trigger] role_defined(q, r) == role_defined(p, r),
        forall|r: RoleIndex|
            role_defined(p, r) ==> same_but_capabilities(
                #[trigger] role_info(q, r),
                role_info(p, r),
            ),
{
    assert forall|r: RoleIndex| #[trigger] role_defined(q, r) == role_defined(p, r) by {
        if role_defined(p, r) {
            let i = choose|i: int| 0 <= i < p.roles@.len() && p.roles@[i].0 == r;
            assert(q.roles@[i].0 == r);
        }
        if role_defined(q, r) {
            let i = choose|i: int| 0 <= i < q.roles@.len() && q.roles@[i].0 == r;
            assert(q.roles@[i].0 == p.roles@[i].0);
        }
    }
    assert forall|r: RoleIndex| role_defined(p, r) implies same_but_capabilities(
        #[trigger] role_info(q, r),
        role_info(p, r),
    ) by {
        lemma_has_key_first(p.roles@, r);
        let i = first_pos(p.roles@, r);
        assert forall|j: int| 0 <= j < i implies q.roles@[j].0 != r by {
            assert(q.roles@[j].0 == p.roles@[j].0);
        }
        assert(q.roles@[i].0 == p.roles@[i].0);
        assert(is_first_key_pos(q.roles@, r, i));
        lemma_first_key_pos(q.roles@, r, i);
        lemma_first_key_pos(p.roles@, r, i);
    }
}

/// The rules do not read the capability lists: policies that differ only
/// there give the same result for every room.
pub proof fn lemma_check_ignores_capabilities(q: RoomPolicy, p: RoomPolicy, held: Seq<RoleIndex>)
    requires
        same_rules(q, p),
    ensures
        check_spec(q, held) == check_spec(p, held),
{
    lemma_same_rules_defined(q, p);
    assert forall|source: RoleIndex, targets: Seq<RoleIndex>|
        #[trigger] transitions_error(q, source, targets) == transitions_error(p, source, targets) by {
        assert(targets.map_values(|t: RoleIndex| transition_error(q, source, t)) =~= targets.map_values(
            |t: RoleIndex| transition_error(p, source, t),
        ));
    }
    assert forall|source: RoleIndex, targets: Seq<RoleIndex>|
        #[trigger] table_entry_error(q, source, targets) == table_entry_error(p, source, targets) by {
        assert(transitions_error(q, source, targets) == transitions_error(p, source, targets));
    }
    let sq = q.roles@.map_values(|e: (RoleIndex, RoleInfo)| role_error(q, e.0, e.1));
    let sp = p.roles@.map_values(|e: (RoleIndex, RoleInfo)| role_error(p, e.0, e.1));
    assert forall|i: int| 0 <= i < sq.len() implies sq[i] == sp[i] by {
        let a = q.roles@[i].1;
        let b = p.roles@[i].1;
        assert(q.roles@[i].0 == p.roles@[i].0 && same_but_capabilities(a, b));
        let ta = a.authorized_role_changes@.map_values(
            |e: (RoleIndex, Vec<RoleIndex>)| table_entry_error(q, e.0, e.1@),
        );
        let tb = b.authorized_role_changes@.map_values(
            |e: (RoleIndex, Vec<RoleIndex>)| table_entry_error(p, e.0, e.1@),
        );
        assert forall|k: int| 0 <= k < ta.len() implies ta[k] == tb[k] by {
            let e = a.authorized_role_changes@[k];
            assert(table_entry_error(q, e.0, e.1@) == table_entry_error(p, e.0, e.1@));
        }
        assert(ta =~= tb);
        assert(transitions_error(q, q.roles@[i].0, a.self_role_changes@) == transitions_error(
            p,
            p.roles@[i].0,
            b.self_role_changes@,
        ));
    }
    assert(sq =~= sp);
    assert(outsider_role_ok(q) == outsider_role_ok(p));
    assert(banned_role_ok(q) == banned_role_ok(p));
    assert((exists|i: int| 0 <= i < held.len() && !role_defined(q, #[trigger] held[i])) == (exists|
        i: int,
    |
        0 <= i < held.len() && !role_defined(p, #[trigger] held[i])));
    assert((exists|i: int|
        0 <= i < q.roles@.len() && count_out_of_bounds(
            #[trigger] q.roles@[i].1,
            count_role(held, q.roles@[i].0),
        )) == (exists|i: int|
        0 <= i < p.roles@.len() && count_out_of_bounds(
            #[trigger] p.roles@[i].1,
            count_role(held, p.roles@[i].0),
        ))) by {
        if exists|i: int|
            0 <= i < p.roles@.len() && count_out_of_bounds(
                #[trigger] p.roles@[i].1,
                count_role(held, p.roles@[i].0),
            ) {
            let i = choose|i: int|
                0 <= i < p.roles@.len() && count_out_of_bounds(
                    #[trigger] p.roles@[i].1,
                    count_role(held, p.roles@[i].0),
                );
            assert(count_out_of_bounds(q.roles@[i].1, count_role(held, q.roles@[i].0)));
        }
        if exists|i: int|
            0 <= i < q.roles@.len() && count_out_of_bounds(
                #[trigger] q.roles@[i].1,
                count_role(held, q.roles@[i].0),
            ) {
            let i = choose|i: int|
                0 <= i < q.roles@.len() && count_out_of_bounds(
                    #[trigger] q.roles@[i].1,
                    count_role(held, q.roles@[i].0),
                );
            assert(count_out_of_bounds(p.roles@[i].1, count_role(held, p.roles@[i].0)));
        }
    }
    assert(keys_sorted(q.roles@) == keys_sorted(p.roles@)) by {
        assert forall|i: int| 0 <= i < p.roles@.len() implies role_key(q.roles@[i].0) == role_key(
            p.roles@[i].0,
        ) by {
            assert(q.roles@[i].0 == p.roles@[i].0);
        }
    }
}

} // verus!
