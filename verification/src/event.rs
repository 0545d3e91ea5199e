//! The closed set of domain events the gateway delivers.
//!
//! Every incoming event is decoded at the binary's edge into one of these
//! variants; the cache synchronizer and the shard health tracker each consume
//! the kinds they care about and ignore the rest. Adding a kind is a
//! compile-time-checked decision: every consumer matches exhaustively.

use vstd::prelude::*;

use crate::records::{CachedChannel, CachedGuild, CachedRole, CachedUser, MemberInfo};

verus! {

/// The complete current state of one community, delivered when a shard
/// (re)gains visibility into it.
pub struct GuildSnapshot {
    pub guild: CachedGuild,
    pub channels: Vec<CachedChannel>,
    pub threads: Vec<CachedChannel>,
    pub roles: Vec<CachedRole>,
    pub members: Vec<MemberInfo>,
}

/// What the cache reads out of one message event: where it was sent, who
/// wrote it, the author's member roles when the event carries member data,
/// and whom it mentions.
pub struct MessageInfo {
    pub channel_id: u64,
    pub guild_id: Option<u64>,
    pub author: CachedUser,
    pub author_member_roles: Option<Vec<u64>>,
    pub mentions: Vec<CachedUser>,
}

/// One decoded gateway event.
#[allow(inconsistent_fields)]
pub enum DomainEvent {
    /// Full snapshot of a community.
    GuildCreate(GuildSnapshot),
    /// Partial community update: the community record alone changed.
    GuildUpdate(CachedGuild),
    /// The community was removed from the shard's view.
    GuildDelete { guild_id: u64 },
    ChannelCreate(CachedChannel),
    ChannelUpdate(CachedChannel),
    ChannelDelete { channel_id: u64 },
    ThreadCreate(CachedChannel),
    ThreadUpdate(CachedChannel),
    ThreadDelete { channel_id: u64 },
    /// The active threads of a community, delivered on gaining visibility.
    ThreadListSync { threads: Vec<CachedChannel> },
    RoleCreate { guild_id: u64, role: CachedRole },
    RoleUpdate { guild_id: u64, role: CachedRole },
    RoleDelete { guild_id: u64, role_id: u64 },
    /// A reaction was added; outside a community this touches the
    /// direct-message channel stub.
    ReactionAdd { channel_id: u64, guild_id: Option<u64> },
    MessageCreate(MessageInfo),
    MessageUpdate { channel_id: u64, guild_id: Option<u64> },
    MessageDelete { channel_id: u64, guild_id: Option<u64> },
    MessageDeleteBulk { channel_id: u64, guild_id: Option<u64> },
    MemberAdd { guild_id: u64, member: MemberInfo },
    MemberUpdate { guild_id: u64, member: MemberInfo },
    /// The shard's connection was established or re-established.
    ShardConnected,
    /// The shard resumed an earlier session.
    Resumed,
    /// The shard's connection closed.
    ShardDisconnected,
    /// A heartbeat was observed on the shard's connection.
    GatewayHeartbeat,
    /// Any event kind this layer does not consume.
    Other,
}

} // verus!
