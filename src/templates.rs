use crate::check::{check_spec, count_role, lemma_rules_consistent, role_well_formed};
use crate::error::Error;
use crate::policy::{
    capabilities_canonical, changes_grow_with_rank, tables_sorted,
    has_key, lemma_first_key_pos, other_changes, role_defined, role_info, HistoryPolicy, LinkPolicy,
    LoggingPolicy, MembershipStyle, Optionality, RoleInfo, RoomPolicy,
};
use crate::roles::{has_rank, protected_spec, rank, Capability, RoleIndex};
use crate::state::tables_respect_protection;
use crate::tls::TlsString;
use vstd::prelude::*;

verus! {

/// Seconds in ten days: how far back a public room shares its history.
pub const TEN_DAYS: u32 = 864000;

/// A role-change table as plain values.
pub open spec fn table_of(t: Seq<(RoleIndex, Vec<RoleIndex>)>) -> Seq<(RoleIndex, Seq<RoleIndex>)> {
    t.map_values(|e: (RoleIndex, Vec<RoleIndex>)| (e.0, e.1@))
}

/// `info` is the role definition with exactly these values and an empty
/// description.
pub open spec fn role_is(
    info: RoleInfo,
    name: Seq<char>,
    caps: Seq<Capability>,
    min: u32,
    max: Option<u32>,
    min_active: u32,
    max_active: Option<u32>,
    table: Seq<(RoleIndex, Seq<RoleIndex>)>,
    self_changes: Seq<RoleIndex>,
) -> bool {
    &&& info.role_name.0@ == name
    &&& info.role_description.0@.len() == 0
    &&& info.role_capabilities@ == caps
    &&& info.min_participants_constraint == min
    &&& info.max_participants_constraint == max
    &&& info.min_active_participants_constraint == min_active
    &&& info.max_active_participants_constraint == max_active
    &&& table_of(info.authorized_role_changes@) == table
    &&& info.self_role_changes@ == self_changes
}

/// The capabilities of every member role of the templates.
pub open spec fn member_caps() -> Seq<Capability> {
    seq![Capability::SendMessage, Capability::ReceiveMessage]
}

/// The template `Outsider` role: no capabilities, no holders, no table.
pub open spec fn outsider_role_is(info: RoleInfo, self_changes: Seq<RoleIndex>) -> bool {
    role_is(info, "Outsider"@, seq![], 0, Some(0), 0, Some(0), seq![], self_changes)
}

/// The template `Banned` role: no capabilities, no active holder, no changes.
pub open spec fn banned_role_is(info: RoleInfo) -> bool {
    role_is(info, "Banned"@, seq![], 0, None, 0, Some(0), seq![], seq![])
}

/// A template member role: sends and receives messages, no member bounds.
pub open spec fn member_role_is(
    info: RoleInfo,
    name: Seq<char>,
    table: Seq<(RoleIndex, Seq<RoleIndex>)>,
    self_changes: Seq<RoleIndex>,
) -> bool {
    role_is(info, name, member_caps(), 0, None, 0, None, table, self_changes)
}

/// The template `Owner` role: sends and receives messages, exactly one holder.
pub open spec fn owner_role_is(
    info: RoleInfo,
    table: Seq<(RoleIndex, Seq<RoleIndex>)>,
    self_changes: Seq<RoleIndex>,
) -> bool {
    role_is(info, "Owner"@, member_caps(), 1, Some(1), 1, Some(1), table, self_changes)
}

/// The settings that all templates share, apart from roles, membership
/// style and history sharing.
pub open spec fn template_settings(p: RoomPolicy) -> bool {
    &&& p.multi_device
    &&& p.parent_room_uri.0@.len() == 0
    &&& !p.persistent_room
    &&& p.delivery_notifications == Optionality::Optional
    &&& p.read_receipts == Optionality::Optional
    &&& p.semi_anonymous_ids
    &&& !p.discoverable
    &&& p.link_policy.on_request
    &&& p.link_policy.join_link.0@.len() == 0
    &&& p.link_policy.multiuser
    &&& p.link_policy.expiration == 0
    &&& p.link_policy.link_requests.0@.len() == 0
    &&& p.logging_policy.logging == Optionality::Forbidden
    &&& p.logging_policy.logging_clients@.len() == 0
    &&& p.logging_policy.machine_readable_policy.0@.len() == 0
    &&& p.logging_policy.human_readable_policy.0@.len() == 0
    &&& p.allowed_bots@.len() == 0
    &&& p.policy_extensions@.len() == 0
}

/// History is not shared.
pub open spec fn no_history_sharing(h: HistoryPolicy) -> bool {
    &&& h.history_sharing == Optionality::Forbidden
    &&& h.who_can_share@.len() == 0
    &&& !h.automatically_share
    &&& h.max_time_period == 0
}

/// A role definition with the given name, member bounds and role changes,
/// an empty description and no capabilities.
fn role(
    name: &str,
    min: u32,
    max: Option<u32>,
    min_active: u32,
    max_active: Option<u32>,
    authorized_role_changes: Vec<(RoleIndex, Vec<RoleIndex>)>,
    self_role_changes: Vec<RoleIndex>,
) -> (r: RoleInfo)
    ensures
        r.role_name.0@ == name@,
        r.role_description.0@.len() == 0,
        r.role_capabilities@.len() == 0,
        r.min_participants_constraint == min,
        r.max_participants_constraint == max,
        r.min_active_participants_constraint == min_active,
        r.max_active_participants_constraint == max_active,
        r.authorized_role_changes == authorized_role_changes,
        r.self_role_changes == self_role_changes,
{
    proof {
        reveal_strlit("");
    }
    RoleInfo {
        role_name: TlsString::new(name),
        role_description: TlsString::new(""),
        role_capabilities: Vec::new(),
        min_participants_constraint: min,
        max_participants_constraint: max,
        min_active_participants_constraint: min_active,
        max_active_participants_constraint: max_active,
        authorized_role_changes,
        self_role_changes,
    }
}

/// A member role: sends and receives messages, no member bounds.
fn member_role(
    name: &str,
    authorized_role_changes: Vec<(RoleIndex, Vec<RoleIndex>)>,
    self_role_changes: Vec<RoleIndex>,
) -> (r: RoleInfo)
    ensures
        r.role_name.0@ == name@,
        r.role_description.0@.len() == 0,
        r.role_capabilities@ == seq![Capability::SendMessage, Capability::ReceiveMessage],
        r.min_participants_constraint == 0,
        r.max_participants_constraint == None::<u32>,
        r.min_active_participants_constraint == 0,
        r.max_active_participants_constraint == None::<u32>,
        r.authorized_role_changes == authorized_role_changes,
        r.self_role_changes == self_role_changes,
{
    let mut r = role(name, 0, None, 0, None, authorized_role_changes, self_role_changes);
    r.role_capabilities = vec![Capability::SendMessage, Capability::ReceiveMessage];
    r
}

/// The owner role: sends and receives messages; exactly one holder.
fn owner_role(authorized_role_changes: Vec<(RoleIndex, Vec<RoleIndex>)>, self_role_changes: Vec<RoleIndex>) -> (r:
    RoleInfo)
    ensures
        r.role_name.0@ == "Owner"@,
        r.role_description.0@.len() == 0,
        r.role_capabilities@ == seq![Capability::SendMessage, Capability::ReceiveMessage],
        r.min_participants_constraint == 1,
        r.max_participants_constraint == Some(1u32),
        r.min_active_participants_constraint == 1,
        r.max_active_participants_constraint == Some(1u32),
        r.authorized_role_changes == authorized_role_changes,
        r.self_role_changes == self_role_changes,
{
    let mut r = role("Owner", 1, Some(1), 1, Some(1), authorized_role_changes, self_role_changes);
    r.role_capabilities = vec![Capability::SendMessage, Capability::ReceiveMessage];
    r
}

/// The outsider role: no capabilities, no holders.
fn outsider_role(self_role_changes: Vec<RoleIndex>) -> (r: RoleInfo)
    ensures
        r.role_name.0@ == "Outsider"@,
        r.role_description.0@.len() == 0,
        r.role_capabilities@.len() == 0,
        r.min_participants_constraint == 0,
        r.max_participants_constraint == Some(0u32),
        r.min_active_participants_constraint == 0,
        r.max_active_participants_constraint == Some(0u32),
        r.authorized_role_changes@.len() == 0,
        r.self_role_changes == self_role_changes,
{
    role("Outsider", 0, Some(0), 0, Some(0), Vec::new(), self_role_changes)
}

impl RoomPolicy {
    /// Applies policy-changing proposals. No such proposal changes anything
    /// yet, so the policy stays as it is.
    pub fn try_policy_proposals(&mut self, proposals: &[()]) -> (r: Result<(), Error>)
        ensures
            r is Ok,
            *final(self) == *old(self),
        no_unwind
    {
        Ok(())
    }

    /// The policy of an invite-only room: members can invite outsiders,
    /// admins can also promote and remove members, and the single owner can
    /// do all that and remove admins. Outsiders cannot join by themselves.
    pub fn default_private() -> (r: Self)
        ensures
            r.roles@.len() == 4,
            r.roles@[0].0 == RoleIndex::Outsider,
            r.roles@[1].0 == RoleIndex::Regular,
            r.roles@[2].0 == RoleIndex::Admin,
            r.roles@[3].0 == RoleIndex::Owner,
            r.membership_style == MembershipStyle::Ordinary,
            role_info(r, RoleIndex::Outsider).self_role_changes@.len() == 0,
            role_info(r, RoleIndex::Regular).self_role_changes@ == seq![RoleIndex::Outsider],
            other_changes(role_info(r, RoleIndex::Regular), RoleIndex::Outsider) == seq![
                RoleIndex::Regular,
            ],
            other_changes(role_info(r, RoleIndex::Owner), RoleIndex::Regular) == seq![
                RoleIndex::Outsider,
                RoleIndex::Admin,
                RoleIndex::Owner,
            ],
            role_info(r, RoleIndex::Owner).min_participants_constraint == 1,
            role_info(r, RoleIndex::Owner).max_participants_constraint == Some(1u32),
            check_spec(r, seq![RoleIndex::Owner]) is None,
            outsider_role_is(r.roles@[0].1, seq![]),
            member_role_is(
                r.roles@[1].1,
                "Regular user"@,
                seq![(RoleIndex::Outsider, seq![RoleIndex::Regular])],
                seq![RoleIndex::Outsider],
            ),
            member_role_is(
                r.roles@[2].1,
                "Admin"@,
                seq![
                    (RoleIndex::Outsider, seq![RoleIndex::Regular, RoleIndex::Admin]),
                    (RoleIndex::Regular, seq![RoleIndex::Outsider, RoleIndex::Admin]),
                ],
                seq![RoleIndex::Outsider, RoleIndex::Regular],
            ),
            owner_role_is(
                r.roles@[3].1,
                seq![
                    (RoleIndex::Outsider, seq![RoleIndex::Regular, RoleIndex::Admin, RoleIndex::Owner]),
                    (RoleIndex::Regular, seq![RoleIndex::Outsider, RoleIndex::Admin, RoleIndex::Owner]),
                    (RoleIndex::Admin, seq![RoleIndex::Outsider, RoleIndex::Regular]),
                ],
                seq![RoleIndex::Outsider, RoleIndex::Regular, RoleIndex::Admin],
            ),
            template_settings(r),
            no_history_sharing(r.history_sharing),
            tables_respect_protection(r),
            capabilities_canonical(r),
            changes_grow_with_rank(r),
            tables_sorted(r),
    {
        let regular = member_role(
            "Regular user",
            vec![(RoleIndex::Outsider, vec![RoleIndex::Regular])],
            vec![RoleIndex::Outsider],
        );
        let admin = member_role(
            "Admin",
            vec![
                (RoleIndex::Outsider, vec![RoleIndex::Regular, RoleIndex::Admin]),
                (RoleIndex::Regular, vec![RoleIndex::Outsider, RoleIndex::Admin]),
            ],
            vec![RoleIndex::Outsider, RoleIndex::Regular],
        );
        let owner = owner_role(
            vec![
                (RoleIndex::Outsider, vec![RoleIndex::Regular, RoleIndex::Admin, RoleIndex::Owner]),
                (RoleIndex::Regular, vec![RoleIndex::Outsider, RoleIndex::Admin, RoleIndex::Owner]),
                (RoleIndex::Admin, vec![RoleIndex::Outsider, RoleIndex::Regular]),
            ],
            vec![RoleIndex::Outsider, RoleIndex::Regular, RoleIndex::Admin],
        );
        let roles = vec![
            (RoleIndex::Outsider, outsider_role(Vec::new())),
            (RoleIndex::Regular, regular),
            (RoleIndex::Admin, admin),
            (RoleIndex::Owner, owner),
        ];
        let r = RoomPolicy {
            roles,
            membership_style: MembershipStyle::Ordinary,
            multi_device: true,
            parent_room_uri: TlsString::new(""),
            persistent_room: false,
            delivery_notifications: Optionality::Optional,
            read_receipts: Optionality::Optional,
            semi_anonymous_ids: true,
            discoverable: false,
            link_policy: LinkPolicy {
                on_request: true,
                join_link: TlsString::new(""),
                multiuser: true,
                expiration: 0,
                link_requests: TlsString::new(""),
            },
            logging_policy: LoggingPolicy {
                logging: Optionality::Forbidden,
                logging_clients: Vec::new(),
                machine_readable_policy: TlsString::new(""),
                human_readable_policy: TlsString::new(""),
            },
            history_sharing: HistoryPolicy {
                history_sharing: Optionality::Forbidden,
                who_can_share: Vec::new(),
                automatically_share: false,
                max_time_period: 0,
            },
            allowed_bots: Vec::new(),
            policy_extensions: Vec::new(),
        };
        proof {
            lemma_first_key_pos(r.roles@, RoleIndex::Outsider, 0);
            lemma_first_key_pos(r.roles@, RoleIndex::Regular, 1);
            lemma_first_key_pos(r.roles@, RoleIndex::Owner, 3);
            let reg = r.roles@[1].1.authorized_role_changes@;
            lemma_first_key_pos(reg, RoleIndex::Outsider, 0);
            let own = r.roles@[3].1.authorized_role_changes@;
            lemma_first_key_pos(own, RoleIndex::Regular, 1);
            lemma_first_key_pos(r.roles@, RoleIndex::Admin, 2);
            reveal_strlit("Regular user");
            vstd::utf8::is_ascii_chars_encode_utf8("Regular user"@);
            reveal_strlit("Admin");
            vstd::utf8::is_ascii_chars_encode_utf8("Admin"@);
            reveal_strlit("Owner");
            vstd::utf8::is_ascii_chars_encode_utf8("Owner"@);
            reveal_strlit("Outsider");
            vstd::utf8::is_ascii_chars_encode_utf8("Outsider"@);
            reveal_with_fuel(count_role, 2);
            let held = seq![RoleIndex::Owner];
            assert(!role_defined(r, RoleIndex::Banned));
            assert(!held.contains(RoleIndex::Outsider)) by {
                assert(held[0] != RoleIndex::Outsider);
            }
            assert(role_well_formed(r, r.roles@[0].0, r.roles@[0].1));
            assert(role_well_formed(r, r.roles@[1].0, r.roles@[1].1));
            assert(role_well_formed(r, r.roles@[2].0, r.roles@[2].1));
            assert(role_well_formed(r, r.roles@[3].0, r.roles@[3].1));
            lemma_rules_consistent(r, held);
            reveal_strlit("");
            assert(vstd::utf8::encode_utf8(Seq::<char>::empty()) =~= Seq::<u8>::empty());
            assert(r.roles@[0].1.role_capabilities@ =~= seq![]);
            assert(r.roles@[0].1.self_role_changes@ =~= seq![]);
            assert(r.roles@[1].1.self_role_changes@ =~= seq![RoleIndex::Outsider]);
            assert(r.roles@[2].1.self_role_changes@ =~= seq![RoleIndex::Outsider, RoleIndex::Regular]);
            assert(r.roles@[3].1.self_role_changes@ =~= seq![
                RoleIndex::Outsider,
                RoleIndex::Regular,
                RoleIndex::Admin,
            ]);
            assert(table_of(r.roles@[0].1.authorized_role_changes@) =~= seq![]);
            assert(table_of(r.roles@[1].1.authorized_role_changes@) =~~= seq![
                (RoleIndex::Outsider, seq![RoleIndex::Regular]),
            ]);
            assert(table_of(r.roles@[2].1.authorized_role_changes@) =~~= seq![
                (RoleIndex::Outsider, seq![RoleIndex::Regular, RoleIndex::Admin]),
                (RoleIndex::Regular, seq![RoleIndex::Outsider, RoleIndex::Admin]),
            ]);
            assert(table_of(r.roles@[3].1.authorized_role_changes@) =~~= seq![
                (RoleIndex::Outsider, seq![RoleIndex::Regular, RoleIndex::Admin, RoleIndex::Owner]),
                (RoleIndex::Regular, seq![RoleIndex::Outsider, RoleIndex::Admin, RoleIndex::Owner]),
                (RoleIndex::Admin, seq![RoleIndex::Outsider, RoleIndex::Regular]),
            ]);
            assert forall|i: int, t: RoleIndex|
                0 <= i < r.roles@.len() && protected_spec(r.roles@[i].0, t, false) implies !#[trigger] has_key(
                r.roles@[i].1.authorized_role_changes@,
                t,
            ) by {
                let tb = r.roles@[i].1.authorized_role_changes@;
                if has_key(tb, t) {
                    let kk = choose|kk: int| 0 <= kk < tb.len() && tb[kk].0 == t;
                    assert(table_of(tb)[kk].0 == t);
                if i == 0 {
                    assert(table_of(tb)[kk] == table_of(r.roles@[0].1.authorized_role_changes@)[kk]);
                } else if i == 1 {
                    assert(table_of(tb)[kk] == table_of(r.roles@[1].1.authorized_role_changes@)[kk]);
                } else if i == 2 {
                    assert(table_of(tb)[kk] == table_of(r.roles@[2].1.authorized_role_changes@)[kk]);
                } else if i == 3 {
                    assert(table_of(tb)[kk] == table_of(r.roles@[3].1.authorized_role_changes@)[kk]);
                }
    }
            }
            assert forall|a: int, b: int, i: int, x: RoleIndex|
                #![trigger r.roles@[a].1.authorized_role_changes@[i].1@.contains(x), r.roles@[b]]
                0 <= a < r.roles@.len() && 0 <= b < r.roles@.len() && has_rank(r.roles@[a].0)
                    && has_rank(r.roles@[b].0) && rank(r.roles@[a].0) < rank(r.roles@[b].0) && 0 <= i
                    < r.roles@[a].1.authorized_role_changes@.len()
                    && r.roles@[a].1.authorized_role_changes@[i].1@.contains(x) implies exists|j: int|
                0 <= j < r.roles@[b].1.authorized_role_changes@.len()
                    && #[trigger] r.roles@[b].1.authorized_role_changes@[j].0
                    == r.roles@[a].1.authorized_role_changes@[i].0
                    && r.roles@[b].1.authorized_role_changes@[j].1@.contains(x) by {
                let ta = r.roles@[a].1.authorized_role_changes@;
                let tb = r.roles@[b].1.authorized_role_changes@;
                let k = choose|k: int| 0 <= k < ta[i].1@.len() && ta[i].1@[k] == x;
                if a == 1 && b == 2 && i == 0 && k == 0 {
                    assert(table_of(ta)[i] == table_of(r.roles@[1].1.authorized_role_changes@)[0]);
                    assert(table_of(tb)[0] == table_of(r.roles@[2].1.authorized_role_changes@)[0]);
                    assert(tb[0].1@[0] == x);
                    assert(tb[0].1@.contains(x));
                } else if a == 1 && b == 3 && i == 0 && k == 0 {
                    assert(table_of(ta)[i] == table_of(r.roles@[1].1.authorized_role_changes@)[0]);
                    assert(table_of(tb)[0] == table_of(r.roles@[3].1.authorized_role_changes@)[0]);
                    assert(tb[0].1@[0] == x);
                    assert(tb[0].1@.contains(x));
                } else if a == 2 && b == 3 && i == 0 && k == 0 {
                    assert(table_of(ta)[i] == table_of(r.roles@[2].1.authorized_role_changes@)[0]);
                    assert(table_of(tb)[0] == table_of(r.roles@[3].1.authorized_role_changes@)[0]);
                    assert(tb[0].1@[0] == x);
                    assert(tb[0].1@.contains(x));
                } else if a == 2 && b == 3 && i == 0 && k == 1 {
                    assert(table_of(ta)[i] == table_of(r.roles@[2].1.authorized_role_changes@)[0]);
                    assert(table_of(tb)[0] == table_of(r.roles@[3].1.authorized_role_changes@)[0]);
                    assert(tb[0].1@[1] == x);
                    assert(tb[0].1@.contains(x));
                } else if a == 2 && b == 3 && i == 1 && k == 0 {
                    assert(table_of(ta)[i] == table_of(r.roles@[2].1.authorized_role_changes@)[1]);
                    assert(table_of(tb)[1] == table_of(r.roles@[3].1.authorized_role_changes@)[1]);
                    assert(tb[1].1@[0] == x);
                    assert(tb[1].1@.contains(x));
                } else if a == 2 && b == 3 && i == 1 && k == 1 {
                    assert(table_of(ta)[i] == table_of(r.roles@[2].1.authorized_role_changes@)[1]);
                    assert(table_of(tb)[1] == table_of(r.roles@[3].1.authorized_role_changes@)[1]);
                    assert(tb[1].1@[1] == x);
                    assert(tb[1].1@.contains(x));
                }
            }
        }
        r
    }

    /// The policy of a direct-message room: fixed membership, one owner and
    /// plain members, and nobody may change anybody's role.
    pub fn default_dm() -> (r: Self)
        ensures
            r.roles@.len() == 3,
            r.roles@[0].0 == RoleIndex::Outsider,
            r.roles@[1].0 == RoleIndex::Regular,
            r.roles@[2].0 == RoleIndex::Owner,
            r.membership_style == MembershipStyle::FixedMembership,
            check_spec(r, seq![RoleIndex::Owner]) is None,
            forall|i: int|
                0 <= i < 3 ==> (#[trigger] r.roles@[i]).1.self_role_changes@.len() == 0
                    && r.roles@[i].1.authorized_role_changes@.len() == 0,
            role_info(r, RoleIndex::Owner).min_participants_constraint == 1,
            role_info(r, RoleIndex::Owner).max_participants_constraint == Some(1u32),
            outsider_role_is(r.roles@[0].1, seq![]),
            member_role_is(r.roles@[1].1, "User"@, seq![], seq![]),
            owner_role_is(r.roles@[2].1, seq![], seq![]),
            template_settings(r),
            no_history_sharing(r.history_sharing),
            tables_respect_protection(r),
            capabilities_canonical(r),
            changes_grow_with_rank(r),
            tables_sorted(r),
    {
        let roles = vec![
            (RoleIndex::Outsider, outsider_role(Vec::new())),
            (RoleIndex::Regular, member_role("User", Vec::new(), Vec::new())),
            (RoleIndex::Owner, owner_role(Vec::new(), Vec::new())),
        ];
        let mut r = Self::default_private();
        r.roles = roles;
        r.membership_style = MembershipStyle::FixedMembership;
        proof {
            lemma_first_key_pos(r.roles@, RoleIndex::Outsider, 0);
            lemma_first_key_pos(r.roles@, RoleIndex::Regular, 1);
            lemma_first_key_pos(r.roles@, RoleIndex::Owner, 2);
            reveal_strlit("User");
            vstd::utf8::is_ascii_chars_encode_utf8("User"@);
            reveal_strlit("Owner");
            vstd::utf8::is_ascii_chars_encode_utf8("Owner"@);
            reveal_strlit("Outsider");
            vstd::utf8::is_ascii_chars_encode_utf8("Outsider"@);
            reveal_with_fuel(count_role, 2);
            let held = seq![RoleIndex::Owner];
            assert(!role_defined(r, RoleIndex::Banned));
            assert(!held.contains(RoleIndex::Outsider)) by {
                assert(held[0] != RoleIndex::Outsider);
            }
            assert(role_well_formed(r, r.roles@[0].0, r.roles@[0].1));
            assert(role_well_formed(r, r.roles@[1].0, r.roles@[1].1));
            assert(role_well_formed(r, r.roles@[2].0, r.roles@[2].1));
            lemma_rules_consistent(r, held);
            assert forall|i: int| 0 <= i < 3 implies table_of(
                (#[trigger] r.roles@[i]).1.authorized_role_changes@,
            ) =~= seq![] && r.roles@[i].1.self_role_changes@ =~= seq![] by {}
            assert(r.roles@[0].1.role_capabilities@ =~= seq![]);
            assert forall|i: int, t: RoleIndex|
                0 <= i < r.roles@.len() && protected_spec(r.roles@[i].0, t, false) implies !#[trigger] has_key(
                r.roles@[i].1.authorized_role_changes@,
                t,
            ) by {
                let tb = r.roles@[i].1.authorized_role_changes@;
                if has_key(tb, t) {
                    let kk = choose|kk: int| 0 <= kk < tb.len() && tb[kk].0 == t;
                    assert(table_of(tb)[kk].0 == t);
                if i == 0 {
                    assert(table_of(tb)[kk] == table_of(r.roles@[0].1.authorized_role_changes@)[kk]);
                } else if i == 1 {
                    assert(table_of(tb)[kk] == table_of(r.roles@[1].1.authorized_role_changes@)[kk]);
                } else if i == 2 {
                    assert(table_of(tb)[kk] == table_of(r.roles@[2].1.authorized_role_changes@)[kk]);
                }
    }
            }
            assert forall|a: int, b: int, i: int, x: RoleIndex|
                #![trigger r.roles@[a].1.authorized_role_changes@[i].1@.contains(x), r.roles@[b]]
                0 <= a < r.roles@.len() && 0 <= b < r.roles@.len() && has_rank(r.roles@[a].0)
                    && has_rank(r.roles@[b].0) && rank(r.roles@[a].0) < rank(r.roles@[b].0) && 0 <= i
                    < r.roles@[a].1.authorized_role_changes@.len()
                    && r.roles@[a].1.authorized_role_changes@[i].1@.contains(x) implies exists|j: int|
                0 <= j < r.roles@[b].1.authorized_role_changes@.len()
                    && #[trigger] r.roles@[b].1.authorized_role_changes@[j].0
                    == r.roles@[a].1.authorized_role_changes@[i].0
                    && r.roles@[b].1.authorized_role_changes@[j].1@.contains(x) by {
                let ta = r.roles@[a].1.authorized_role_changes@;
                let tb = r.roles@[b].1.authorized_role_changes@;
                let k = choose|k: int| 0 <= k < ta[i].1@.len() && ta[i].1@[k] == x;
            }
        }
        r
    }

    /// The policy of a public room: outsiders may join by themselves, admins
    /// and the owner may remove and ban users, and the history of the last
    /// ten days is shared with new members.
    pub fn default_public() -> (r: Self)
        ensures
            r.roles@.len() == 5,
            r.roles@[0].0 == RoleIndex::Outsider,
            r.roles@[1].0 == RoleIndex::Banned,
            r.roles@[2].0 == RoleIndex::Regular,
            r.roles@[3].0 == RoleIndex::Admin,
            r.roles@[4].0 == RoleIndex::Owner,
            r.membership_style == MembershipStyle::Ordinary,
            role_info(r, RoleIndex::Outsider).self_role_changes@ == seq![RoleIndex::Regular],
            role_info(r, RoleIndex::Banned).self_role_changes@.len() == 0,
            role_info(r, RoleIndex::Regular).self_role_changes@ == seq![RoleIndex::Outsider],
            other_changes(role_info(r, RoleIndex::Owner), RoleIndex::Regular) == seq![
                RoleIndex::Outsider,
                RoleIndex::Banned,
                RoleIndex::Admin,
                RoleIndex::Owner,
            ],
            other_changes(role_info(r, RoleIndex::Owner), RoleIndex::Banned) == seq![
                RoleIndex::Outsider,
            ],
            role_info(r, RoleIndex::Owner).min_participants_constraint == 1,
            role_info(r, RoleIndex::Owner).max_participants_constraint == Some(1u32),
            r.history_sharing.history_sharing == Optionality::Required,
            r.history_sharing.who_can_share@ == seq![RoleIndex::Admin, RoleIndex::Owner],
            r.history_sharing.max_time_period == TEN_DAYS,
            r.history_sharing.automatically_share,
            check_spec(r, seq![RoleIndex::Owner]) is None,
            outsider_role_is(r.roles@[0].1, seq![RoleIndex::Regular]),
            banned_role_is(r.roles@[1].1),
            member_role_is(
                r.roles@[2].1,
                "Regular user"@,
                seq![(RoleIndex::Outsider, seq![RoleIndex::Regular])],
                seq![RoleIndex::Outsider],
            ),
            member_role_is(
                r.roles@[3].1,
                "Admin"@,
                seq![
                    (RoleIndex::Outsider, seq![RoleIndex::Banned, RoleIndex::Regular, RoleIndex::Admin]),
                    (RoleIndex::Banned, seq![RoleIndex::Outsider]),
                    (RoleIndex::Regular, seq![RoleIndex::Outsider, RoleIndex::Banned, RoleIndex::Admin]),
                ],
                seq![RoleIndex::Outsider, RoleIndex::Regular],
            ),
            owner_role_is(
                r.roles@[4].1,
                seq![
                    (
                        RoleIndex::Outsider,
                        seq![RoleIndex::Banned, RoleIndex::Regular, RoleIndex::Admin, RoleIndex::Owner],
                    ),
                    (
                        RoleIndex::Banned,
                        seq![RoleIndex::Outsider],
                    ),
                    (
                        RoleIndex::Regular,
                        seq![RoleIndex::Outsider, RoleIndex::Banned, RoleIndex::Admin, RoleIndex::Owner],
                    ),
                    (RoleIndex::Admin, seq![RoleIndex::Outsider, RoleIndex::Banned, RoleIndex::Regular]),
                ],
                seq![RoleIndex::Outsider, RoleIndex::Regular, RoleIndex::Admin],
            ),
            template_settings(r),
            tables_respect_protection(r),
            capabilities_canonical(r),
            changes_grow_with_rank(r),
            tables_sorted(r),
    {
        let banned = role("Banned", 0, None, 0, Some(0), Vec::new(), Vec::new());
        let regular = member_role(
            "Regular user",
            vec![(RoleIndex::Outsider, vec![RoleIndex::Regular])],
            vec![RoleIndex::Outsider],
        );
        let admin = member_role(
            "Admin",
            vec![
                (RoleIndex::Outsider, vec![RoleIndex::Banned, RoleIndex::Regular, RoleIndex::Admin]),
                (RoleIndex::Banned, vec![RoleIndex::Outsider]),
                (RoleIndex::Regular, vec![RoleIndex::Outsider, RoleIndex::Banned, RoleIndex::Admin]),
            ],
            vec![RoleIndex::Outsider, RoleIndex::Regular],
        );
        let owner = owner_role(
            vec![
                (
                    RoleIndex::Outsider,
                    vec![RoleIndex::Banned, RoleIndex::Regular, RoleIndex::Admin, RoleIndex::Owner],
                ),
                (
                    RoleIndex::Banned,
                    vec![RoleIndex::Outsider],
                ),
                (
                    RoleIndex::Regular,
                    vec![RoleIndex::Outsider, RoleIndex::Banned, RoleIndex::Admin, RoleIndex::Owner],
                ),
                (RoleIndex::Admin, vec![RoleIndex::Outsider, RoleIndex::Banned, RoleIndex::Regular]),
            ],
            vec![RoleIndex::Outsider, RoleIndex::Regular, RoleIndex::Admin],
        );
        let roles = vec![
            (RoleIndex::Outsider, outsider_role(vec![RoleIndex::Regular])),
            (RoleIndex::Banned, banned),
            (RoleIndex::Regular, regular),
            (RoleIndex::Admin, admin),
            (RoleIndex::Owner, owner),
        ];
        let mut r = Self::default_private();
        r.roles = roles;
        r.history_sharing = HistoryPolicy {
            history_sharing: Optionality::Required,
            who_can_share: vec![RoleIndex::Admin, RoleIndex::Owner],
            automatically_share: true,
            max_time_period: TEN_DAYS,
        };
        proof {
            lemma_first_key_pos(r.roles@, RoleIndex::Outsider, 0);
            lemma_first_key_pos(r.roles@, RoleIndex::Banned, 1);
            lemma_first_key_pos(r.roles@, RoleIndex::Regular, 2);
            lemma_first_key_pos(r.roles@, RoleIndex::Owner, 4);
            let own = r.roles@[4].1.authorized_role_changes@;
            lemma_first_key_pos(own, RoleIndex::Banned, 1);
            lemma_first_key_pos(own, RoleIndex::Regular, 2);
            lemma_first_key_pos(r.roles@, RoleIndex::Admin, 3);
            reveal_strlit("Banned");
            vstd::utf8::is_ascii_chars_encode_utf8("Banned"@);
            reveal_strlit("Regular user");
            vstd::utf8::is_ascii_chars_encode_utf8("Regular user"@);
            reveal_strlit("Admin");
            vstd::utf8::is_ascii_chars_encode_utf8("Admin"@);
            reveal_strlit("Owner");
            vstd::utf8::is_ascii_chars_encode_utf8("Owner"@);
            reveal_strlit("Outsider");
            vstd::utf8::is_ascii_chars_encode_utf8("Outsider"@);
            reveal_with_fuel(count_role, 2);
            let held = seq![RoleIndex::Owner];
            assert(!held.contains(RoleIndex::Outsider)) by {
                assert(held[0] != RoleIndex::Outsider);
            }
            assert(role_well_formed(r, r.roles@[0].0, r.roles@[0].1));
            assert(role_well_formed(r, r.roles@[1].0, r.roles@[1].1));
            assert(role_well_formed(r, r.roles@[2].0, r.roles@[2].1));
            assert(role_well_formed(r, r.roles@[3].0, r.roles@[3].1));
            assert(role_well_formed(r, r.roles@[4].0, r.roles@[4].1));
            lemma_rules_consistent(r, held);
            assert(r.roles@[0].1.role_capabilities@ =~= seq![]);
            assert(r.roles@[1].1.role_capabilities@ =~= seq![]);
            assert(r.roles@[1].1.self_role_changes@ =~= seq![]);
            assert(r.roles@[0].1.self_role_changes@ =~= seq![RoleIndex::Regular]);
            assert(r.roles@[2].1.self_role_changes@ =~= seq![RoleIndex::Outsider]);
            assert(r.roles@[3].1.self_role_changes@ =~= seq![RoleIndex::Outsider, RoleIndex::Regular]);
            assert(r.roles@[4].1.self_role_changes@ =~= seq![
                RoleIndex::Outsider,
                RoleIndex::Regular,
                RoleIndex::Admin,
            ]);
            assert(table_of(r.roles@[0].1.authorized_role_changes@) =~= seq![]);
            assert(table_of(r.roles@[1].1.authorized_role_changes@) =~= seq![]);
            assert(table_of(r.roles@[2].1.authorized_role_changes@) =~~= seq![
                (RoleIndex::Outsider, seq![RoleIndex::Regular]),
            ]);
            assert(table_of(r.roles@[3].1.authorized_role_changes@) =~~= seq![
                (RoleIndex::Outsider, seq![RoleIndex::Banned, RoleIndex::Regular, RoleIndex::Admin]),
                (RoleIndex::Banned, seq![RoleIndex::Outsider]),
                (RoleIndex::Regular, seq![RoleIndex::Outsider, RoleIndex::Banned, RoleIndex::Admin]),
            ]);
            assert(table_of(r.roles@[4].1.authorized_role_changes@) =~~= seq![
                (
                    RoleIndex::Outsider,
                    seq![RoleIndex::Banned, RoleIndex::Regular, RoleIndex::Admin, RoleIndex::Owner],
                ),
                (
                    RoleIndex::Banned,
                        seq![RoleIndex::Outsider],
                ),
                (
                    RoleIndex::Regular,
                    seq![RoleIndex::Outsider, RoleIndex::Banned, RoleIndex::Admin, RoleIndex::Owner],
                ),
                (RoleIndex::Admin, seq![RoleIndex::Outsider, RoleIndex::Banned, RoleIndex::Regular]),
            ]);
            assert forall|i: int, t: RoleIndex|
                0 <= i < r.roles@.len() && protected_spec(r.roles@[i].0, t, false) implies !#[trigger] has_key(
                r.roles@[i].1.authorized_role_changes@,
                t,
            ) by {
                let tb = r.roles@[i].1.authorized_role_changes@;
                if has_key(tb, t) {
                    let kk = choose|kk: int| 0 <= kk < tb.len() && tb[kk].0 == t;
                    assert(table_of(tb)[kk].0 == t);
                if i == 0 {
                    assert(table_of(tb)[kk] == table_of(r.roles@[0].1.authorized_role_changes@)[kk]);
                } else if i == 1 {
                    assert(table_of(tb)[kk] == table_of(r.roles@[1].1.authorized_role_changes@)[kk]);
                } else if i == 2 {
                    assert(table_of(tb)[kk] == table_of(r.roles@[2].1.authorized_role_changes@)[kk]);
                } else if i == 3 {
                    assert(table_of(tb)[kk] == table_of(r.roles@[3].1.authorized_role_changes@)[kk]);
                } else if i == 4 {
                    assert(table_of(tb)[kk] == table_of(r.roles@[4].1.authorized_role_changes@)[kk]);
                }
    }
            }
            assert forall|a: int, b: int, i: int, x: RoleIndex|
                #![trigger r.roles@[a].1.authorized_role_changes@[i].1@.contains(x), r.roles@[b]]
                0 <= a < r.roles@.len() && 0 <= b < r.roles@.len() && has_rank(r.roles@[a].0)
                    && has_rank(r.roles@[b].0) && rank(r.roles@[a].0) < rank(r.roles@[b].0) && 0 <= i
                    < r.roles@[a].1.authorized_role_changes@.len()
                    && r.roles@[a].1.authorized_role_changes@[i].1@.contains(x) implies exists|j: int|
                0 <= j < r.roles@[b].1.authorized_role_changes@.len()
                    && #[trigger] r.roles@[b].1.authorized_role_changes@[j].0
                    == r.roles@[a].1.authorized_role_changes@[i].0
                    && r.roles@[b].1.authorized_role_changes@[j].1@.contains(x) by {
                let ta = r.roles@[a].1.authorized_role_changes@;
                let tb = r.roles@[b].1.authorized_role_changes@;
                let k = choose|k: int| 0 <= k < ta[i].1@.len() && ta[i].1@[k] == x;
                if a == 2 && b == 3 && i == 0 && k == 0 {
                    assert(table_of(ta)[i] == table_of(r.roles@[2].1.authorized_role_changes@)[0]);
                    assert(table_of(tb)[0] == table_of(r.roles@[3].1.authorized_role_changes@)[0]);
                    assert(tb[0].1@[1] == x);
                    assert(tb[0].1@.contains(x));
                } else if a == 2 && b == 4 && i == 0 && k == 0 {
                    assert(table_of(ta)[i] == table_of(r.roles@[2].1.authorized_role_changes@)[0]);
                    assert(table_of(tb)[0] == table_of(r.roles@[4].1.authorized_role_changes@)[0]);
                    assert(tb[0].1@[1] == x);
                    assert(tb[0].1@.contains(x));
                } else if a == 3 && b == 4 && i == 0 && k == 0 {
                    assert(table_of(ta)[i] == table_of(r.roles@[3].1.authorized_role_changes@)[0]);
                    assert(table_of(tb)[0] == table_of(r.roles@[4].1.authorized_role_changes@)[0]);
                    assert(tb[0].1@[0] == x);
                    assert(tb[0].1@.contains(x));
                } else if a == 3 && b == 4 && i == 0 && k == 1 {
                    assert(table_of(ta)[i] == table_of(r.roles@[3].1.authorized_role_changes@)[0]);
                    assert(table_of(tb)[0] == table_of(r.roles@[4].1.authorized_role_changes@)[0]);
                    assert(tb[0].1@[1] == x);
                    assert(tb[0].1@.contains(x));
                } else if a == 3 && b == 4 && i == 0 && k == 2 {
                    assert(table_of(ta)[i] == table_of(r.roles@[3].1.authorized_role_changes@)[0]);
                    assert(table_of(tb)[0] == table_of(r.roles@[4].1.authorized_role_changes@)[0]);
                    assert(tb[0].1@[2] == x);
                    assert(tb[0].1@.contains(x));
                } else if a == 3 && b == 4 && i == 1 && k == 0 {
                    assert(table_of(ta)[i] == table_of(r.roles@[3].1.authorized_role_changes@)[1]);
                    assert(table_of(tb)[1] == table_of(r.roles@[4].1.authorized_role_changes@)[1]);
                    assert(tb[1].1@[0] == x);
                    assert(tb[1].1@.contains(x));
                } else if a == 3 && b == 4 && i == 2 && k == 0 {
                    assert(table_of(ta)[i] == table_of(r.roles@[3].1.authorized_role_changes@)[2]);
                    assert(table_of(tb)[2] == table_of(r.roles@[4].1.authorized_role_changes@)[2]);
                    assert(tb[2].1@[0] == x);
                    assert(tb[2].1@.contains(x));
                } else if a == 3 && b == 4 && i == 2 && k == 1 {
                    assert(table_of(ta)[i] == table_of(r.roles@[3].1.authorized_role_changes@)[2]);
                    assert(table_of(tb)[2] == table_of(r.roles@[4].1.authorized_role_changes@)[2]);
                    assert(tb[2].1@[1] == x);
                    assert(tb[2].1@.contains(x));
                } else if a == 3 && b == 4 && i == 2 && k == 2 {
                    assert(table_of(ta)[i] == table_of(r.roles@[3].1.authorized_role_changes@)[2]);
                    assert(table_of(tb)[2] == table_of(r.roles@[4].1.authorized_role_changes@)[2]);
                    assert(tb[2].1@[2] == x);
                    assert(tb[2].1@.contains(x));
                }
            }
        }
        r
    }

    /// The policy of an announcement room: outsiders may join by themselves
    /// as visitors (the custom role 1), who receive messages but may not
    /// send them; regular members may send. Admins may admit, remove and ban
    /// users and move visitors and outsiders between each other; the owner may
    /// also promote anybody.
    pub fn default_announcement() -> (r: Self)
        ensures
            r.roles@.len() == 6,
            r.roles@[0].0 == RoleIndex::Outsider,
            r.roles@[1].0 == RoleIndex::Banned,
            r.roles@[2].0 == RoleIndex::Regular,
            r.roles@[3].0 == RoleIndex::Admin,
            r.roles@[4].0 == RoleIndex::Owner,
            r.roles@[5].0 == RoleIndex::Custom(1),
            r.membership_style == MembershipStyle::Ordinary,
            outsider_role_is(r.roles@[0].1, seq![RoleIndex::Custom(1)]),
            banned_role_is(r.roles@[1].1),
            member_role_is(r.roles@[2].1, "Regular user"@, seq![], seq![RoleIndex::Outsider]),
            member_role_is(
                r.roles@[3].1,
                "Admin"@,
                seq![
                    (RoleIndex::Outsider, seq![RoleIndex::Banned, RoleIndex::Custom(1)]),
                    (RoleIndex::Banned, seq![RoleIndex::Outsider]),
                    (RoleIndex::Regular, seq![RoleIndex::Outsider, RoleIndex::Banned, RoleIndex::Custom(1)]),
                    (RoleIndex::Custom(1), seq![RoleIndex::Outsider, RoleIndex::Banned, RoleIndex::Regular]),
                ],
                seq![RoleIndex::Outsider, RoleIndex::Regular],
            ),
            owner_role_is(
                r.roles@[4].1,
                seq![
                    (RoleIndex::Outsider, seq![RoleIndex::Banned, RoleIndex::Regular, RoleIndex::Admin, RoleIndex::Owner, RoleIndex::Custom(1)]),
                    (RoleIndex::Banned, seq![RoleIndex::Outsider]),
                    (RoleIndex::Regular, seq![RoleIndex::Outsider, RoleIndex::Banned, RoleIndex::Admin, RoleIndex::Owner, RoleIndex::Custom(1)]),
                    (RoleIndex::Admin, seq![RoleIndex::Outsider, RoleIndex::Banned, RoleIndex::Regular]),
                    (RoleIndex::Custom(1), seq![RoleIndex::Outsider, RoleIndex::Banned, RoleIndex::Regular, RoleIndex::Admin, RoleIndex::Owner]),
                ],
                seq![RoleIndex::Outsider, RoleIndex::Regular, RoleIndex::Admin],
            ),
            role_is(
                r.roles@[5].1,
                "Visitor"@,
                seq![Capability::ReceiveMessage],
                0,
                None,
                0,
                None,
                seq![],
                seq![RoleIndex::Outsider],
            ),
            template_settings(r),
            r.history_sharing.history_sharing == Optionality::Required,
            r.history_sharing.who_can_share@ == seq![RoleIndex::Admin, RoleIndex::Owner],
            r.history_sharing.automatically_share,
            r.history_sharing.max_time_period == TEN_DAYS,
            check_spec(r, seq![RoleIndex::Owner]) is None,
            tables_respect_protection(r),
            capabilities_canonical(r),
            changes_grow_with_rank(r),
            tables_sorted(r),
    {
        let banned = role("Banned", 0, None, 0, Some(0), Vec::new(), Vec::new());
        let regular = member_role("Regular user", Vec::new(), vec![RoleIndex::Outsider]);
        let admin = member_role(
            "Admin",
            vec![
                (RoleIndex::Outsider, vec![RoleIndex::Banned, RoleIndex::Custom(1)]),
                (RoleIndex::Banned, vec![RoleIndex::Outsider]),
                (RoleIndex::Regular, vec![RoleIndex::Outsider, RoleIndex::Banned, RoleIndex::Custom(1)]),
                (RoleIndex::Custom(1), vec![RoleIndex::Outsider, RoleIndex::Banned, RoleIndex::Regular]),
            ],
            vec![RoleIndex::Outsider, RoleIndex::Regular],
        );
        let owner = owner_role(
            vec![
                (RoleIndex::Outsider, vec![RoleIndex::Banned, RoleIndex::Regular, RoleIndex::Admin, RoleIndex::Owner, RoleIndex::Custom(1)]),
                (RoleIndex::Banned, vec![RoleIndex::Outsider]),
                (RoleIndex::Regular, vec![RoleIndex::Outsider, RoleIndex::Banned, RoleIndex::Admin, RoleIndex::Owner, RoleIndex::Custom(1)]),
                (RoleIndex::Admin, vec![RoleIndex::Outsider, RoleIndex::Banned, RoleIndex::Regular]),
                (RoleIndex::Custom(1), vec![RoleIndex::Outsider, RoleIndex::Banned, RoleIndex::Regular, RoleIndex::Admin, RoleIndex::Owner]),
            ],
            vec![RoleIndex::Outsider, RoleIndex::Regular, RoleIndex::Admin],
        );
        let mut visitor = role("Visitor", 0, None, 0, None, Vec::new(), vec![RoleIndex::Outsider]);
        visitor.role_capabilities = vec![Capability::ReceiveMessage];
        let roles = vec![
            (RoleIndex::Outsider, outsider_role(vec![RoleIndex::Custom(1)])),
            (RoleIndex::Banned, banned),
            (RoleIndex::Regular, regular),
            (RoleIndex::Admin, admin),
            (RoleIndex::Owner, owner),
            (RoleIndex::Custom(1), visitor),
        ];
        let mut r = Self::default_public();
        r.roles = roles;
        proof {
            lemma_first_key_pos(r.roles@, RoleIndex::Outsider, 0);
            lemma_first_key_pos(r.roles@, RoleIndex::Banned, 1);
            lemma_first_key_pos(r.roles@, RoleIndex::Regular, 2);
            lemma_first_key_pos(r.roles@, RoleIndex::Admin, 3);
            lemma_first_key_pos(r.roles@, RoleIndex::Owner, 4);
            lemma_first_key_pos(r.roles@, RoleIndex::Custom(1), 5);
            reveal_strlit("Banned");
            vstd::utf8::is_ascii_chars_encode_utf8("Banned"@);
            reveal_strlit("Regular user");
            vstd::utf8::is_ascii_chars_encode_utf8("Regular user"@);
            reveal_strlit("Admin");
            vstd::utf8::is_ascii_chars_encode_utf8("Admin"@);
            reveal_strlit("Owner");
            vstd::utf8::is_ascii_chars_encode_utf8("Owner"@);
            reveal_strlit("Outsider");
            vstd::utf8::is_ascii_chars_encode_utf8("Outsider"@);
            reveal_strlit("Visitor");
            vstd::utf8::is_ascii_chars_encode_utf8("Visitor"@);
            reveal_strlit("");
            assert(vstd::utf8::encode_utf8(Seq::<char>::empty()) =~= Seq::<u8>::empty());
            reveal_with_fuel(count_role, 2);
            let held = seq![RoleIndex::Owner];
            assert(!held.contains(RoleIndex::Outsider)) by {
                assert(held[0] != RoleIndex::Outsider);
            }
            assert(role_well_formed(r, r.roles@[0].0, r.roles@[0].1));
            assert(role_well_formed(r, r.roles@[1].0, r.roles@[1].1));
            assert(role_well_formed(r, r.roles@[2].0, r.roles@[2].1));
            assert(role_well_formed(r, r.roles@[3].0, r.roles@[3].1));
            assert(role_well_formed(r, r.roles@[4].0, r.roles@[4].1));
            assert(role_well_formed(r, r.roles@[5].0, r.roles@[5].1));
            lemma_rules_consistent(r, held);
            assert(r.roles@[0].1.role_capabilities@ =~= seq![]);
            assert(r.roles@[1].1.role_capabilities@ =~= seq![]);
            assert(r.roles@[5].1.role_capabilities@ =~= seq![Capability::ReceiveMessage]);
            assert(r.roles@[0].1.self_role_changes@ =~= seq![RoleIndex::Custom(1)]);
            assert(r.roles@[1].1.self_role_changes@ =~= seq![]);
            assert(r.roles@[2].1.self_role_changes@ =~= seq![RoleIndex::Outsider]);
            assert(r.roles@[3].1.self_role_changes@ =~= seq![RoleIndex::Outsider, RoleIndex::Regular]);
            assert(r.roles@[4].1.self_role_changes@ =~= seq![
                RoleIndex::Outsider,
                RoleIndex::Regular,
                RoleIndex::Admin,
            ]);
            assert(r.roles@[5].1.self_role_changes@ =~= seq![RoleIndex::Outsider]);
            assert(table_of(r.roles@[0].1.authorized_role_changes@) =~= seq![]);
            assert(table_of(r.roles@[1].1.authorized_role_changes@) =~= seq![]);
            assert(table_of(r.roles@[2].1.authorized_role_changes@) =~= seq![]);
            assert(table_of(r.roles@[5].1.authorized_role_changes@) =~= seq![]);
            assert(table_of(r.roles@[3].1.authorized_role_changes@) =~~= seq![
                    (RoleIndex::Outsider, seq![RoleIndex::Banned, RoleIndex::Custom(1)]),
                    (RoleIndex::Banned, seq![RoleIndex::Outsider]),
                    (RoleIndex::Regular, seq![RoleIndex::Outsider, RoleIndex::Banned, RoleIndex::Custom(1)]),
                    (RoleIndex::Custom(1), seq![RoleIndex::Outsider, RoleIndex::Banned, RoleIndex::Regular]),
                ]);
            assert(table_of(r.roles@[4].1.authorized_role_changes@) =~~= seq![
                    (RoleIndex::Outsider, seq![RoleIndex::Banned, RoleIndex::Regular, RoleIndex::Admin, RoleIndex::Owner, RoleIndex::Custom(1)]),
                    (RoleIndex::Banned, seq![RoleIndex::Outsider]),
                    (RoleIndex::Regular, seq![RoleIndex::Outsider, RoleIndex::Banned, RoleIndex::Admin, RoleIndex::Owner, RoleIndex::Custom(1)]),
                    (RoleIndex::Admin, seq![RoleIndex::Outsider, RoleIndex::Banned, RoleIndex::Regular]),
                    (RoleIndex::Custom(1), seq![RoleIndex::Outsider, RoleIndex::Banned, RoleIndex::Regular, RoleIndex::Admin, RoleIndex::Owner]),
                ]);
            assert forall|i: int, t: RoleIndex|
                0 <= i < r.roles@.len() && protected_spec(r.roles@[i].0, t, false) implies !#[trigger] has_key(
                r.roles@[i].1.authorized_role_changes@,
                t,
            ) by {
                let tb = r.roles@[i].1.authorized_role_changes@;
                if has_key(tb, t) {
                    let kk = choose|kk: int| 0 <= kk < tb.len() && tb[kk].0 == t;
                    assert(table_of(tb)[kk].0 == t);
                if i == 0 {
                    assert(table_of(tb)[kk] == table_of(r.roles@[0].1.authorized_role_changes@)[kk]);
                } else if i == 1 {
                    assert(table_of(tb)[kk] == table_of(r.roles@[1].1.authorized_role_changes@)[kk]);
                } else if i == 2 {
                    assert(table_of(tb)[kk] == table_of(r.roles@[2].1.authorized_role_changes@)[kk]);
                } else if i == 3 {
                    assert(table_of(tb)[kk] == table_of(r.roles@[3].1.authorized_role_changes@)[kk]);
                } else if i == 4 {
                    assert(table_of(tb)[kk] == table_of(r.roles@[4].1.authorized_role_changes@)[kk]);
                } else if i == 5 {
                    assert(table_of(tb)[kk] == table_of(r.roles@[5].1.authorized_role_changes@)[kk]);
                }
    }
            }
            assert forall|a: int, b: int, i: int, x: RoleIndex|
                #![trigger r.roles@[a].1.authorized_role_changes@[i].1@.contains(x), r.roles@[b]]
                0 <= a < r.roles@.len() && 0 <= b < r.roles@.len() && has_rank(r.roles@[a].0)
                    && has_rank(r.roles@[b].0) && rank(r.roles@[a].0) < rank(r.roles@[b].0) && 0 <= i
                    < r.roles@[a].1.authorized_role_changes@.len()
                    && r.roles@[a].1.authorized_role_changes@[i].1@.contains(x) implies exists|j: int|
                0 <= j < r.roles@[b].1.authorized_role_changes@.len()
                    && #[trigger] r.roles@[b].1.authorized_role_changes@[j].0
                    == r.roles@[a].1.authorized_role_changes@[i].0
                    && r.roles@[b].1.authorized_role_changes@[j].1@.contains(x) by {
                let ta = r.roles@[a].1.authorized_role_changes@;
                let tb = r.roles@[b].1.authorized_role_changes@;
                let k = choose|k: int| 0 <= k < ta[i].1@.len() && ta[i].1@[k] == x;
                if a == 3 && b == 4 && i == 0 && k == 0 {
                    assert(table_of(ta)[i] == table_of(r.roles@[3].1.authorized_role_changes@)[0]);
                    assert(table_of(tb)[0] == table_of(r.roles@[4].1.authorized_role_changes@)[0]);
                    assert(tb[0].1@[0] == x);
                    assert(tb[0].1@.contains(x));
                } else if a == 3 && b == 4 && i == 0 && k == 1 {
                    assert(table_of(ta)[i] == table_of(r.roles@[3].1.authorized_role_changes@)[0]);
                    assert(table_of(tb)[0] == table_of(r.roles@[4].1.authorized_role_changes@)[0]);
                    assert(tb[0].1@[4] == x);
                    assert(tb[0].1@.contains(x));
                } else if a == 3 && b == 4 && i == 1 && k == 0 {
                    assert(table_of(ta)[i] == table_of(r.roles@[3].1.authorized_role_changes@)[1]);
                    assert(table_of(tb)[1] == table_of(r.roles@[4].1.authorized_role_changes@)[1]);
                    assert(tb[1].1@[0] == x);
                    assert(tb[1].1@.contains(x));
                } else if a == 3 && b == 4 && i == 2 && k == 0 {
                    assert(table_of(ta)[i] == table_of(r.roles@[3].1.authorized_role_changes@)[2]);
                    assert(table_of(tb)[2] == table_of(r.roles@[4].1.authorized_role_changes@)[2]);
                    assert(tb[2].1@[0] == x);
                    assert(tb[2].1@.contains(x));
                } else if a == 3 && b == 4 && i == 2 && k == 1 {
                    assert(table_of(ta)[i] == table_of(r.roles@[3].1.authorized_role_changes@)[2]);
                    assert(table_of(tb)[2] == table_of(r.roles@[4].1.authorized_role_changes@)[2]);
                    assert(tb[2].1@[1] == x);
                    assert(tb[2].1@.contains(x));
                } else if a == 3 && b == 4 && i == 2 && k == 2 {
                    assert(table_of(ta)[i] == table_of(r.roles@[3].1.authorized_role_changes@)[2]);
                    assert(table_of(tb)[2] == table_of(r.roles@[4].1.authorized_role_changes@)[2]);
                    assert(tb[2].1@[4] == x);
                    assert(tb[2].1@.contains(x));
                } else if a == 3 && b == 4 && i == 3 && k == 0 {
                    assert(table_of(ta)[i] == table_of(r.roles@[3].1.authorized_role_changes@)[3]);
                    assert(table_of(tb)[4] == table_of(r.roles@[4].1.authorized_role_changes@)[4]);
                    assert(tb[4].1@[0] == x);
                    assert(tb[4].1@.contains(x));
                } else if a == 3 && b == 4 && i == 3 && k == 1 {
                    assert(table_of(ta)[i] == table_of(r.roles@[3].1.authorized_role_changes@)[3]);
                    assert(table_of(tb)[4] == table_of(r.roles@[4].1.authorized_role_changes@)[4]);
                    assert(tb[4].1@[1] == x);
                    assert(tb[4].1@.contains(x));
                } else if a == 3 && b == 4 && i == 3 && k == 2 {
                    assert(table_of(ta)[i] == table_of(r.roles@[3].1.authorized_role_changes@)[3]);
                    assert(table_of(tb)[4] == table_of(r.roles@[4].1.authorized_role_changes@)[4]);
                    assert(tb[4].1@[2] == x);
                    assert(tb[4].1@.contains(x));
                }
            }
        }
        r
    }
}

} // verus!
