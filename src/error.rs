use crate::roles::RoleIndex;
use vstd::prelude::*;

verus! {

/// Why an operation on a room was refused.
#[derive(Debug, Clone, Copy, PartialEq, Eq, Structural)]
pub enum Error {
    /// The operation would have no effect.
    NothingToDo,
    /// The target role is not part of the room policy.
    RoleNotDefined,
    /// The user is not in the room.
    UserNotInRoom,
    /// A user would have a role, but not the dependency roles.
    RoleDependencyViolated,
    /// Too few or too many users would have a role.
    RoleMinMaxViolated,
    /// The user does not have the required capability or the target is protected from the user.
    NotCapable,
    /// Could not create a new role, because a role with this index already exists.
    RoleAlreadyExists,
    /// The action could not be taken, because of special rules for the relevant role.
    SpecialRole,
    /// A string value could not be set, because it is too long.
    StringTooLong,
    /// A role could not be removed, because there are still users with this role.
    RoleInUse,
    /// The user was banned.
    Banned,
    /// A role definition is malformed (for instance, listed twice).
    InvalidRoleDefinition,
    /// A role's minimum member count exceeds its maximum.
    InvalidMinMaxConstraints,
    /// The members are not listed once each in increasing order of id.
    InvalidMemberList,
    /// A role change from a role to itself was declared.
    InvalidRoleTransition { source_role: RoleIndex, target_role: RoleIndex },
}

/// The description of each error.
pub open spec fn message_of(e: Error) -> Seq<char> {
    match e {
        Error::NothingToDo => "Nothing to do"@,
        Error::RoleNotDefined => "Role not defined"@,
        Error::UserNotInRoom => "User not in room"@,
        Error::RoleDependencyViolated => "Role dependency violated"@,
        Error::RoleMinMaxViolated => "Role minimum or maximum member count violated"@,
        Error::NotCapable => "User did not have a required capability"@,
        Error::RoleAlreadyExists => "Role already exists"@,
        Error::SpecialRole => "Role is special and must have special properties"@,
        Error::StringTooLong => "String too long"@,
        Error::RoleInUse => "Role in use"@,
        Error::Banned => "User is banned"@,
        Error::InvalidRoleDefinition => "Role definition invalid"@,
        Error::InvalidMinMaxConstraints => "Role definition for minimum or maximum member count invalid"@,
        Error::InvalidMemberList => "Members not listed once each in order"@,
        Error::InvalidRoleTransition { .. } => "Invalid role transition"@,
    }
}

impl Error {
    /// A short human-readable description of the error.
    pub fn message(&self) -> (s: String)
        ensures
            s@ == message_of(*self),
    {
        match self {
            Error::NothingToDo => "Nothing to do".to_owned(),
            Error::RoleNotDefined => "Role not defined".to_owned(),
            Error::UserNotInRoom => "User not in room".to_owned(),
            Error::RoleDependencyViolated => "Role dependency violated".to_owned(),
            Error::RoleMinMaxViolated => "Role minimum or maximum member count violated".to_owned(),
            Error::NotCapable => "User did not have a required capability".to_owned(),
            Error::RoleAlreadyExists => "Role already exists".to_owned(),
            Error::SpecialRole => "Role is special and must have special properties".to_owned(),
            Error::StringTooLong => "String too long".to_owned(),
            Error::RoleInUse => "Role in use".to_owned(),
            Error::Banned => "User is banned".to_owned(),
            Error::InvalidRoleDefinition => "Role definition invalid".to_owned(),
            Error::InvalidMinMaxConstraints => "Role definition for minimum or maximum member count invalid".to_owned(),
            Error::InvalidMemberList => "Members not listed once each in order".to_owned(),
            Error::InvalidRoleTransition { .. } => "Invalid role transition".to_owned(),
        }
    }
}

} // verus!
