//! Role and membership policy engine for group-chat rooms.
//!
//! A room is governed by a [`RoomPolicy`], which defines the roles that users
//! can hold, what each role may do, and which role changes each role may
//! perform. A [`VerifiedRoomState`] is a room whose membership has been checked
//! against every structural rule of its policy; it only ever changes through
//! batches of proposals that are applied atomically and checked again.

pub mod check;
mod error;
pub mod order;
pub mod policy;
pub mod roles;
pub mod room;
pub mod state;
pub mod templates;
pub mod tls;

pub use crate::error::Error;
pub use crate::roles::{Capability, RoleIndex};
pub use crate::policy::{
    Bot, HistoryPolicy, LinkPolicy, LoggingPolicy, MembershipStyle, Optionality,
    PolicyExtension, RoleInfo, RoomPolicy,
};
pub use crate::tls::{TlsStr, TlsString};
pub use crate::state::{MimiProposal, RoomState};
pub use crate::room::VerifiedRoomState;
