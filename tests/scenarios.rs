use mimi_room_policy::{
    Capability, Error, MimiProposal, RoleIndex, RoleInfo, RoomPolicy, RoomState, TlsString,
    VerifiedRoomState,
};

fn change(target: &[u8], role: RoleIndex) -> Vec<MimiProposal> {
    vec![MimiProposal::ChangeRole { target: target.to_vec(), role }]
}

fn role_mut(policy: &mut RoomPolicy, role: RoleIndex) -> &mut RoleInfo {
    &mut policy.roles.iter_mut().find(|(r, _)| *r == role).unwrap().1
}

#[test]
fn announcement_room_visitor_promoted() {
    let alice = b"@alice".to_vec();
    let bob = b"@bob".to_vec();
    let mut room = VerifiedRoomState::new(&alice, RoomPolicy::default_announcement()).unwrap();
    assert_eq!(room.user_role(&bob), RoleIndex::Outsider);

    let join = room.join_room_actions(&bob).unwrap();
    room.apply_regular_proposals(&bob, &join).unwrap();
    assert_eq!(room.user_role(&bob), RoleIndex::Custom(1));
    assert_eq!(room.joined_users(), vec![alice.clone(), bob.clone()]);

    // A visitor cannot send messages.
    assert!(!room.has_capability(&bob, Capability::SendMessage));
    assert_eq!(room.authorize(&bob, Capability::SendMessage), Err(Error::NotCapable));

    room.apply_regular_proposals(&alice, &change(&bob, RoleIndex::Regular)).unwrap();
    assert!(room.has_capability(&bob, Capability::SendMessage));
    assert_eq!(room.authorize(&bob, Capability::SendMessage), Ok(()));
}

#[test]
fn invite_only_join_refused() {
    let alice = b"@alice".to_vec();
    let bob = b"@bob".to_vec();
    let mut room = VerifiedRoomState::new(&alice, RoomPolicy::default_private()).unwrap();
    let before = room.state().clone();

    assert_eq!(room.join_room_actions(&bob), Err(Error::NotCapable));
    assert_eq!(
        room.apply_regular_proposals(&bob, &change(&bob, RoleIndex::Regular)),
        Err(Error::NotCapable)
    );
    assert_eq!(room.state(), &before);
    assert_eq!(room.joined_users(), vec![alice]);
}

#[test]
fn public_room_ban_blocks_everything() {
    let alice = b"@alice".to_vec();
    let regular = b"@regular".to_vec();
    let mut room = VerifiedRoomState::new(&alice, RoomPolicy::default_public()).unwrap();
    let join = room.join_room_actions(&regular).unwrap();
    room.apply_regular_proposals(&regular, &join).unwrap();
    assert!(room.has_capability(&regular, Capability::SendMessage));
    assert_eq!(room.authorize(&regular, Capability::SendMessage), Ok(()));

    room.apply_regular_proposals(&alice, &change(&regular, RoleIndex::Banned)).unwrap();
    assert_eq!(room.authorize(&regular, Capability::SendMessage), Err(Error::Banned));
    assert_eq!(room.authorize_edit(&regular, &regular), Err(Error::Banned));
    assert_eq!(room.user_role(&regular), RoleIndex::Banned);
    assert!(!room.has_capability(&regular, Capability::SendMessage));

    // Any proposal from the banned user is refused as such.
    assert_eq!(
        room.apply_regular_proposals(&regular, &change(&regular, RoleIndex::Outsider)),
        Err(Error::Banned)
    );
    assert_eq!(room.apply_regular_proposals(&regular, &join), Err(Error::Banned));
    assert_eq!(room.can_apply_regular_proposals(&regular, &join), Err(Error::Banned));
}

#[test]
fn owner_leaving_is_rolled_back() {
    let alice = b"@alice".to_vec();
    let mut room = VerifiedRoomState::new(&alice, RoomPolicy::default_private()).unwrap();
    let before = room.state().clone();

    // Leaving is permitted to the owner ...
    assert_eq!(room.can_apply_regular_proposals(&alice, &change(&alice, RoleIndex::Outsider)), Ok(()));
    // ... but the room would have no owner, so nothing changes.
    assert_eq!(
        room.apply_regular_proposals(&alice, &change(&alice, RoleIndex::Outsider)),
        Err(Error::RoleMinMaxViolated)
    );
    assert_eq!(room.state(), &before);
    assert_eq!(room.user_role(&alice), RoleIndex::Owner);
}

#[test]
fn admin_protected_from_regular() {
    let alice = b"@alice".to_vec();
    let admin = b"@admin".to_vec();
    let regular = b"@regular".to_vec();
    let mut room = VerifiedRoomState::new(&alice, RoomPolicy::default_private()).unwrap();
    room.apply_regular_proposals(&alice, &change(&admin, RoleIndex::Admin)).unwrap();
    room.apply_regular_proposals(&alice, &change(&regular, RoleIndex::Regular)).unwrap();

    assert!(room.state().is_protected_from(&regular, &admin));
    assert!(!room.state().is_protected_from(&admin, &regular));
    assert!(room.state().is_protected_from(&admin, &alice));
    assert!(!room.state().is_protected_from(&alice, &admin));
    assert!(!room.state().is_protected_from(&admin, &admin));

    assert_eq!(room.authorize_edit(&regular, &admin), Err(Error::NotCapable));
    assert_eq!(room.authorize_edit(&admin, &regular), Ok(()));
    assert_eq!(room.authorize_edit(&admin, &alice), Err(Error::NotCapable));
    assert_eq!(room.authorize_edit(&alice, &admin), Ok(()));
    assert_eq!(room.authorize_delete(&regular, &admin), Err(Error::NotCapable));
    assert_eq!(room.authorize_delete(&admin, &regular), Ok(()));
    // Regular members declare no message-editing capability, not even on their own.
    assert_eq!(room.authorize_edit(&regular, &regular), Err(Error::NotCapable));
    assert_eq!(room.authorize_edit(&admin, &admin), Ok(()));

    assert_eq!(
        room.apply_regular_proposals(&regular, &change(&admin, RoleIndex::Outsider)),
        Err(Error::NotCapable)
    );
    room.apply_regular_proposals(&admin, &change(&regular, RoleIndex::Outsider)).unwrap();
    assert_eq!(room.user_role(&regular), RoleIndex::Outsider);
}

#[test]
fn join_twice_has_nothing_to_do() {
    let alice = b"@alice".to_vec();
    let bob = b"@bob".to_vec();
    let mut room = VerifiedRoomState::new(&alice, RoomPolicy::default_public()).unwrap();
    let join = room.join_room_actions(&bob).unwrap();
    assert_eq!(join, change(&bob, RoleIndex::Regular));
    assert_eq!(room.apply_regular_proposals(&bob, &join), Ok(()));
    assert_eq!(room.apply_regular_proposals(&bob, &join), Err(Error::NothingToDo));
}

#[test]
fn failed_batch_leaves_room_unchanged() {
    let alice = b"@alice".to_vec();
    let bob = b"@bob".to_vec();
    let carol = b"@carol".to_vec();
    let mut room = VerifiedRoomState::new(&alice, RoomPolicy::default_private()).unwrap();
    let before = room.state().clone();
    let batch = vec![
        MimiProposal::ChangeRole { target: bob.clone(), role: RoleIndex::Regular },
        MimiProposal::ChangeRole { target: carol.clone(), role: RoleIndex::Regular },
        MimiProposal::ChangeRole { target: bob.clone(), role: RoleIndex::Regular },
    ];
    assert_eq!(room.apply_regular_proposals(&alice, &batch), Err(Error::NothingToDo));
    assert_eq!(room.state(), &before);
    assert_eq!(room.apply_regular_proposals(&alice, &batch[..2]), Ok(()));
    assert_eq!(room.joined_users(), vec![alice, bob, carol]);
}

#[test]
fn batch_applies_in_order() {
    let alice = b"@alice".to_vec();
    let bob = b"@bob".to_vec();
    let mut room = VerifiedRoomState::new(&alice, RoomPolicy::default_public()).unwrap();
    let batch = vec![
        MimiProposal::ChangeRole { target: bob.clone(), role: RoleIndex::Regular },
        MimiProposal::ChangeRole { target: bob.clone(), role: RoleIndex::Admin },
        MimiProposal::ChangeRole { target: bob.clone(), role: RoleIndex::Regular },
    ];
    room.apply_regular_proposals(&alice, &batch).unwrap();
    assert_eq!(room.user_role(&bob), RoleIndex::Regular);
}

#[test]
fn owner_handover_in_one_batch() {
    let alice = b"@alice".to_vec();
    let bob = b"@bob".to_vec();
    let mut room = VerifiedRoomState::new(&alice, RoomPolicy::default_private()).unwrap();
    room.apply_regular_proposals(&alice, &change(&bob, RoleIndex::Regular)).unwrap();
    // Two owners at once are refused ...
    assert_eq!(
        room.apply_regular_proposals(&alice, &change(&bob, RoleIndex::Owner)),
        Err(Error::RoleMinMaxViolated)
    );
    // ... but promoting bob and stepping down together is fine.
    let batch = vec![
        MimiProposal::ChangeRole { target: bob.clone(), role: RoleIndex::Owner },
        MimiProposal::ChangeRole { target: alice.clone(), role: RoleIndex::Admin },
    ];
    room.apply_regular_proposals(&alice, &batch).unwrap();
    assert_eq!(room.user_role(&bob), RoleIndex::Owner);
    assert_eq!(room.user_role(&alice), RoleIndex::Admin);
}

#[test]
fn admin_override_on_capabilities() {
    let alice = b"@alice".to_vec();
    let room = VerifiedRoomState::new(&alice, RoomPolicy::default_private()).unwrap();
    assert!(room.has_capability(&alice, Capability::ChangeRoleDefinitions));
    assert!(!room.has_capability(b"@nobody", Capability::ReceiveMessage));
    assert_eq!(
        room.state().user_capabilities(&alice),
        &[Capability::SendMessage, Capability::ReceiveMessage][..]
    );
}

#[test]
fn policy_proposals_change_nothing() {
    let alice = b"@alice".to_vec();
    let mut room = VerifiedRoomState::new(&alice, RoomPolicy::default_dm()).unwrap();
    let before = room.state().clone();
    assert_eq!(room.apply_policy_proposals(&alice, &[(), ()]), Ok(()));
    assert_eq!(room.state(), &before);
}

#[test]
fn dm_room_nobody_changes_roles() {
    let alice = b"@alice".to_vec();
    let bob = b"@bob".to_vec();
    let mut room = VerifiedRoomState::new(&alice, RoomPolicy::default_dm()).unwrap();
    assert_eq!(room.join_room_actions(&bob), Err(Error::NotCapable));
    assert_eq!(
        room.apply_regular_proposals(&alice, &change(&bob, RoleIndex::Regular)),
        Err(Error::NotCapable)
    );
}

fn state_with(policy: RoomPolicy, users: Vec<(&[u8], RoleIndex)>) -> RoomState {
    RoomState { policy, users: users.into_iter().map(|(u, r)| (u.to_vec(), r)).collect() }
}

#[test]
fn check_reports_each_violation() {
    let ok = state_with(RoomPolicy::default_private(), vec![(b"a", RoleIndex::Owner)]);
    assert!(VerifiedRoomState::consistency_checks(ok).is_ok());

    let outsider = state_with(
        RoomPolicy::default_private(),
        vec![(b"a", RoleIndex::Owner), (b"b", RoleIndex::Outsider)],
    );
    assert_eq!(VerifiedRoomState::consistency_checks(outsider).err(), Some(Error::UserNotInRoom));

    let undefined = state_with(
        RoomPolicy::default_private(),
        vec![(b"a", RoleIndex::Owner), (b"b", RoleIndex::Banned)],
    );
    assert_eq!(VerifiedRoomState::consistency_checks(undefined).err(), Some(Error::RoleNotDefined));

    let no_owner = state_with(RoomPolicy::default_private(), vec![(b"a", RoleIndex::Regular)]);
    assert_eq!(
        VerifiedRoomState::consistency_checks(no_owner).err(),
        Some(Error::RoleMinMaxViolated)
    );

    let mut p = RoomPolicy::default_private();
    role_mut(&mut p, RoleIndex::Outsider).role_name = TlsString("Nobody".to_owned());
    assert_eq!(
        VerifiedRoomState::consistency_checks(state_with(p, vec![(b"a", RoleIndex::Owner)])).err(),
        Some(Error::SpecialRole)
    );

    let mut p = RoomPolicy::default_public();
    role_mut(&mut p, RoleIndex::Banned).max_active_participants_constraint = None;
    assert_eq!(
        VerifiedRoomState::consistency_checks(state_with(p, vec![(b"a", RoleIndex::Owner)])).err(),
        Some(Error::SpecialRole)
    );

    let mut p = RoomPolicy::default_private();
    role_mut(&mut p, RoleIndex::Admin).min_participants_constraint = 5;
    role_mut(&mut p, RoleIndex::Admin).max_participants_constraint = Some(2);
    assert_eq!(
        VerifiedRoomState::consistency_checks(state_with(p, vec![(b"a", RoleIndex::Owner)])).err(),
        Some(Error::InvalidMinMaxConstraints)
    );

    let mut p = RoomPolicy::default_private();
    role_mut(&mut p, RoleIndex::Regular).self_role_changes.push(RoleIndex::Regular);
    assert_eq!(
        VerifiedRoomState::consistency_checks(state_with(p, vec![(b"a", RoleIndex::Owner)])).err(),
        Some(Error::InvalidRoleTransition {
            source_role: RoleIndex::Regular,
            target_role: RoleIndex::Regular
        })
    );

    let mut p = RoomPolicy::default_private();
    role_mut(&mut p, RoleIndex::Admin)
        .authorized_role_changes
        .push((RoleIndex::Custom(7), vec![RoleIndex::Regular]));
    assert_eq!(
        VerifiedRoomState::consistency_checks(state_with(p, vec![(b"a", RoleIndex::Owner)])).err(),
        Some(Error::RoleNotDefined)
    );

    let mut p = RoomPolicy::default_private();
    role_mut(&mut p, RoleIndex::Regular).role_description = TlsString("x".repeat(1001));
    assert_eq!(
        VerifiedRoomState::consistency_checks(state_with(p, vec![(b"a", RoleIndex::Owner)])).err(),
        Some(Error::StringTooLong)
    );
    let mut p = RoomPolicy::default_private();
    role_mut(&mut p, RoleIndex::Regular).role_description = TlsString("x".repeat(1000));
    assert!(VerifiedRoomState::consistency_checks(state_with(p, vec![(b"a", RoleIndex::Owner)])).is_ok());

    let mut p = RoomPolicy::default_private();
    let dup = p.roles[1].clone();
    p.roles.push(dup);
    assert_eq!(
        VerifiedRoomState::consistency_checks(state_with(p, vec![(b"a", RoleIndex::Owner)])).err(),
        Some(Error::InvalidRoleDefinition)
    );

    assert_eq!(
        VerifiedRoomState::new(b"a", RoomPolicy::default_public()).map(|r| r.joined_users()),
        Ok(vec![b"a".to_vec()])
    );
}

#[test]
fn bool_wire_encoding() {
    let mut buf = Vec::new();
    assert_eq!(mimi_room_policy::tls::tls_serialize(&true, &mut buf), 1);
    assert_eq!(mimi_room_policy::tls::tls_serialize(&false, &mut buf), 1);
    assert_eq!(buf, vec![1, 0]);
    assert_eq!(mimi_room_policy::tls::tls_serialized_len(&true), 1);
    assert_eq!(mimi_room_policy::tls::tls_deserialize_bytes(&[1, 9]), Some((true, &[9u8][..])));
    assert_eq!(mimi_room_policy::tls::tls_deserialize_bytes(&[0]), Some((false, &[][..])));
    assert_eq!(mimi_room_policy::tls::tls_deserialize_bytes(&[7]), Some((true, &[][..])));
    assert_eq!(mimi_room_policy::tls::tls_deserialize_bytes(&[]), None);
}

#[test]
fn error_messages() {
    assert_eq!(Error::NotCapable.message(), "User did not have a required capability");
    assert_eq!(Error::Banned.message(), "User is banned");
}

#[test]
fn rooms_stay_consistent_after_changes() {
    let alice = b"@alice".to_vec();
    let bob = b"@bob".to_vec();
    let carol = b"@carol".to_vec();
    let mut room = VerifiedRoomState::new(&alice, RoomPolicy::default_public()).unwrap();
    let steps: Vec<(Vec<u8>, Vec<MimiProposal>, Result<(), Error>)> = vec![
        (bob.clone(), change(&bob, RoleIndex::Regular), Ok(())),
        (alice.clone(), change(&carol, RoleIndex::Admin), Ok(())),
        (carol.clone(), change(&bob, RoleIndex::Banned), Ok(())),
        (alice.clone(), change(&alice, RoleIndex::Outsider), Err(Error::RoleMinMaxViolated)),
        (carol.clone(), change(&bob, RoleIndex::Regular), Err(Error::Banned)),
        (bob.clone(), change(&bob, RoleIndex::Outsider), Err(Error::Banned)),
        (carol.clone(), change(&bob, RoleIndex::Outsider), Ok(())),
        (bob.clone(), change(&bob, RoleIndex::Regular), Ok(())),
        (bob.clone(), change(&bob, RoleIndex::Outsider), Ok(())),
    ];
    for (sender, batch, expected) in steps {
        assert_eq!(room.apply_regular_proposals(&sender, &batch), expected);
        let again = VerifiedRoomState::consistency_checks(room.state().clone());
        assert!(again.is_ok());
        assert!(room.state().users.iter().all(|(_, r)| *r != RoleIndex::Outsider));
        let owners = room.state().users.iter().filter(|(_, r)| *r == RoleIndex::Owner).count();
        assert_eq!(owners, 1);
        assert!(room.state().users.windows(2).all(|w| w[0].0 < w[1].0));
    }
    assert_eq!(room.user_role(&alice), RoleIndex::Owner);
    assert_eq!(room.user_role(&bob), RoleIndex::Outsider);
    assert_eq!(room.user_role(&carol), RoleIndex::Admin);
    assert_eq!(room.joined_users(), vec![alice, carol]);
}

#[test]
fn banned_user_cannot_be_given_a_role() {
    let alice = b"@alice".to_vec();
    let bob = b"@bob".to_vec();
    let mut room = VerifiedRoomState::new(&alice, RoomPolicy::default_public()).unwrap();
    room.apply_regular_proposals(&bob, &change(&bob, RoleIndex::Regular)).unwrap();
    room.apply_regular_proposals(&alice, &change(&bob, RoleIndex::Banned)).unwrap();
    for role in [RoleIndex::Regular, RoleIndex::Admin, RoleIndex::Owner] {
        assert_eq!(room.can_apply_regular_proposals(&alice, &change(&bob, role)), Err(Error::Banned));
    }
    assert_eq!(
        room.apply_regular_proposals(&alice, &change(&bob, RoleIndex::Banned)),
        Err(Error::NothingToDo)
    );
    // Lifting the ban makes bob an outsider, who may join again.
    room.apply_regular_proposals(&alice, &change(&bob, RoleIndex::Outsider)).unwrap();
    assert_eq!(room.user_role(&bob), RoleIndex::Outsider);
    room.apply_regular_proposals(&bob, &change(&bob, RoleIndex::Regular)).unwrap();
    assert_eq!(room.user_role(&bob), RoleIndex::Regular);
}

#[test]
fn members_kept_in_order_of_id() {
    let mut room = VerifiedRoomState::new(b"bob", RoomPolicy::default_public()).unwrap();
    room.apply_regular_proposals(b"alice", &change(b"alice", RoleIndex::Regular)).unwrap();
    room.apply_regular_proposals(b"carl", &change(b"carl", RoleIndex::Regular)).unwrap();
    let ids: Vec<Vec<u8>> = room.state().users.iter().map(|(u, _)| u.clone()).collect();
    assert_eq!(ids, vec![b"alice".to_vec(), b"bob".to_vec(), b"carl".to_vec()]);

    let mut other = VerifiedRoomState::new(b"bob", RoomPolicy::default_public()).unwrap();
    other.apply_regular_proposals(b"carl", &change(b"carl", RoleIndex::Regular)).unwrap();
    other.apply_regular_proposals(b"alice", &change(b"alice", RoleIndex::Regular)).unwrap();
    assert_eq!(room, other);
}

#[test]
fn check_rejects_unordered_lists() {
    let unordered = state_with(
        RoomPolicy::default_private(),
        vec![(b"b", RoleIndex::Owner), (b"a", RoleIndex::Regular)],
    );
    assert_eq!(
        VerifiedRoomState::consistency_checks(unordered).err(),
        Some(Error::InvalidMemberList)
    );

    let mut p = RoomPolicy::default_private();
    role_mut(&mut p, RoleIndex::Admin).authorized_role_changes.reverse();
    assert_eq!(
        VerifiedRoomState::consistency_checks(state_with(p, vec![(b"a", RoleIndex::Owner)])).err(),
        Some(Error::InvalidRoleDefinition)
    );

    let mut p = RoomPolicy::default_private();
    p.roles.swap(1, 2);
    assert_eq!(
        VerifiedRoomState::consistency_checks(state_with(p, vec![(b"a", RoleIndex::Owner)])).err(),
        Some(Error::InvalidRoleDefinition)
    );
}

#[test]
fn string_bound_counts_bytes() {
    let mut p = RoomPolicy::default_private();
    role_mut(&mut p, RoleIndex::Regular).role_description = TlsString("\u{e9}".repeat(501));
    assert_eq!(
        VerifiedRoomState::consistency_checks(state_with(p, vec![(b"a", RoleIndex::Owner)])).err(),
        Some(Error::StringTooLong)
    );
    let mut p = RoomPolicy::default_private();
    role_mut(&mut p, RoleIndex::Regular).role_description = TlsString("\u{e9}".repeat(500));
    assert!(VerifiedRoomState::consistency_checks(state_with(p, vec![(b"a", RoleIndex::Owner)])).is_ok());
}

#[test]
fn joined_users_sorted() {
    let mut room = VerifiedRoomState::new(b"m", RoomPolicy::default_public()).unwrap();
    for id in [&b"zed"[..], b"a", b"ab", b"b"] {
        let join = room.join_room_actions(id).unwrap();
        room.apply_regular_proposals(id, &join).unwrap();
    }
    assert_eq!(
        room.joined_users(),
        vec![b"a".to_vec(), b"ab".to_vec(), b"b".to_vec(), b"m".to_vec(), b"zed".to_vec()]
    );
}

#[test]
fn duplicate_user_rejected() {
    let dup = state_with(
        RoomPolicy::default_private(),
        vec![(b"a", RoleIndex::Regular), (b"a", RoleIndex::Owner)],
    );
    assert_eq!(VerifiedRoomState::consistency_checks(dup).err(), Some(Error::InvalidMemberList));
}

#[test]
fn check_sorts_and_dedupes_capabilities() {
    let mut p = RoomPolicy::default_private();
    role_mut(&mut p, RoleIndex::Regular).role_capabilities = vec![
        Capability::JoinCall,
        Capability::ReceiveMessage,
        Capability::SendMessage,
        Capability::ReceiveMessage,
    ];
    let room = VerifiedRoomState::consistency_checks(state_with(p, vec![(b"a", RoleIndex::Owner)]))
        .unwrap();
    let regular = &room.state().policy.roles.iter().find(|(r, _)| *r == RoleIndex::Regular).unwrap().1;
    assert_eq!(
        regular.role_capabilities,
        vec![Capability::SendMessage, Capability::ReceiveMessage, Capability::JoinCall]
    );
    assert_eq!(room.state().users, vec![(b"a".to_vec(), RoleIndex::Owner)]);
}

#[test]
fn templates_are_canonical() {
    for policy in [
        RoomPolicy::default_dm(),
        RoomPolicy::default_private(),
        RoomPolicy::default_public(),
        RoomPolicy::default_announcement(),
    ] {
        let room = VerifiedRoomState::new(b"a", policy.clone()).unwrap();
        assert_eq!(room.state().policy, policy);
    }
}

#[test]
fn error_message_each_variant() {
    assert_eq!(Error::InvalidMemberList.message(), "Members not listed once each in order");
    assert_eq!(Error::RoleMinMaxViolated.message(), "Role minimum or maximum member count violated");
    assert_eq!(
        Error::InvalidRoleTransition { source_role: RoleIndex::Admin, target_role: RoleIndex::Admin }
            .message(),
        "Invalid role transition"
    );
}
