use mimi_room_policy::{Capability, Error, MimiProposal, RoleIndex, RoomPolicy, VerifiedRoomState};

fn change(target: &[u8], role: RoleIndex) -> Vec<MimiProposal> {
    vec![MimiProposal::ChangeRole { target: target.to_vec(), role }]
}

#[test]
fn dm_room() {
    let alice = b"alice".to_vec();
    let bob = b"bob".to_vec();

    let room = VerifiedRoomState::new(&alice, RoomPolicy::default_dm()).unwrap();
    assert_eq!(room.user_role(&alice), RoleIndex::Owner);
    assert_eq!(room.user_role(&bob), RoleIndex::Outsider);
}

#[test]
fn invite_only_room() {
    let alice = b"alice".to_vec();
    let bob = b"bob".to_vec();

    // Alice creates an invite-only room
    let mut room = VerifiedRoomState::new(&alice, RoomPolicy::default_private()).unwrap();

    // Bob cannot join
    assert_eq!(
        room.apply_regular_proposals(&bob, &change(&bob, RoleIndex::Regular)),
        Err(Error::NotCapable)
    );

    // Bob cannot send messages
    assert!(!room.has_capability(&bob, Capability::SendMessage));

    // Alice can add Bob
    room.apply_regular_proposals(&alice, &change(&bob, RoleIndex::Regular)).unwrap();

    // Bob can now send messages
    assert!(room.has_capability(&bob, Capability::SendMessage));

    // Bob cannot kick Alice
    assert_eq!(
        room.apply_regular_proposals(&bob, &change(&alice, RoleIndex::Outsider)),
        Err(Error::NotCapable)
    );

    // Alice can kick bob
    room.apply_regular_proposals(&alice, &change(&bob, RoleIndex::Outsider)).unwrap();

    // Bob cannot send messages
    assert!(!room.has_capability(&bob, Capability::SendMessage));
}

#[test]
fn public_room() {
    let alice = b"alice".to_vec();
    let bob = b"bob".to_vec();

    // Alice creates a public room
    let mut room = VerifiedRoomState::new(&alice, RoomPolicy::default_public()).unwrap();

    // Bob can join
    room.apply_regular_proposals(&bob, &change(&bob, RoleIndex::Regular)).unwrap();

    // Alice can kick bob
    room.apply_regular_proposals(&alice, &change(&bob, RoleIndex::Outsider)).unwrap();

    // Bob can rejoin
    room.apply_regular_proposals(&bob, &change(&bob, RoleIndex::Regular)).unwrap();

    // Alice can ban bob
    room.apply_regular_proposals(&alice, &change(&bob, RoleIndex::Banned)).unwrap();

    // Bob cannot rejoin: a banned user is refused before anything else
    assert_eq!(
        room.apply_regular_proposals(&bob, &change(&bob, RoleIndex::Regular)),
        Err(Error::Banned)
    );
}
