use vstd::prelude::*;

verus! {

/// Whether the reaction was added to or removed from the message.
#[derive(Clone, Copy, Debug, PartialEq, Eq, Structural)]
pub enum Direction {
    Added,
    Removed,
}

/// A reaction's symbol: either a standard Unicode symbol, or a custom-server
/// symbol (carried by its tag), which the pipeline rejects as unsupported.
#[derive(Clone, Debug)]
pub enum Emoji {
    Unicode(String),
    Custom(String),
}

/// One reaction event as delivered by the gateway. `guild_id` and `user_id`
/// may be absent; the pipeline aborts silently when either is missing.
#[derive(Clone, Debug)]
pub struct ReactionEvent {
    pub channel_id: u64,
    pub message_id: u64,
    pub guild_id: Option<u64>,
    pub user_id: Option<u64>,
    pub emoji: Emoji,
    pub direction: Direction,
}

/// A guild role: a display name backed by an identifier.
#[derive(Clone, Debug)]
pub struct Role {
    pub id: u64,
    pub name: String,
}

} // verus!
