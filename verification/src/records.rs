//! The cached entity records and their mathematical models.
//!
//! Each record mirrors what the store keeps for one entity. The codec that
//! turns a record into bytes is an external collaborator; the verified logic
//! works on these plain values, and the binary converts at its edge. Every
//! record type has a ghost model over `Seq` and plain integers; contracts are
//! stated over those models.

use vstd::prelude::*;

verus! {

/// Whom a permission overwrite addresses.
#[derive(Clone, Copy, PartialEq, Eq, Structural, Debug)]
pub enum OverwriteKind {
    Role,
    Member,
    /// An overwrite kind the upstream added later; carried through unchanged.
    Other,
}

/// One entry of a channel's ordered permission-overwrite list. Plain data;
/// the struct is its own model.
#[derive(Clone, Copy, PartialEq, Eq, Structural, Debug)]
pub struct PermissionOverwrite {
    pub subject_id: u64,
    pub kind: OverwriteKind,
    pub allow_bits: u64,
    pub deny_bits: u64,
}

impl DeepView for PermissionOverwrite {
    type V = PermissionOverwrite;

    open spec fn deep_view(&self) -> PermissionOverwrite {
        *self
    }
}

/// A community's subscription tier.
#[derive(Clone, Copy, PartialEq, Eq, Structural, Debug)]
pub enum GuildTier {
    Tier0,
    Tier1,
    Tier2,
    Tier3,
    /// A tier the upstream added later.
    Other,
}

/// The channel type tag of a direct-message channel.
pub const CHANNEL_KIND_PRIVATE: u8 = 1;

/// Cached record of a community.
pub struct CachedGuild {
    pub id: u64,
    pub name: String,
    pub owner_id: u64,
    pub tier: GuildTier,
}

/// Model of a community record.
pub ghost struct GuildModel {
    pub id: u64,
    pub name: Seq<char>,
    pub owner_id: u64,
    pub tier: GuildTier,
}

impl View for CachedGuild {
    type V = GuildModel;

    open spec fn view(&self) -> GuildModel {
        GuildModel { id: self.id, name: self.name@, owner_id: self.owner_id, tier: self.tier }
    }
}

impl DeepView for CachedGuild {
    type V = GuildModel;

    open spec fn deep_view(&self) -> GuildModel {
        self@
    }
}

/// Cached record of a channel. A thread is a channel with a parent; a
/// direct-message channel carries no community id.
pub struct CachedChannel {
    pub id: u64,
    pub guild_id: Option<u64>,
    pub name: Option<String>,
    pub parent_id: Option<u64>,
    pub kind: u8,
    pub position: i32,
    pub permission_overwrites: Vec<PermissionOverwrite>,
}

/// Model of a channel record.
pub ghost struct ChannelModel {
    pub id: u64,
    pub guild_id: Option<u64>,
    pub name: Option<Seq<char>>,
    pub parent_id: Option<u64>,
    pub kind: u8,
    pub position: i32,
    pub permission_overwrites: Seq<PermissionOverwrite>,
}

impl View for CachedChannel {
    type V = ChannelModel;

    open spec fn view(&self) -> ChannelModel {
        ChannelModel {
            id: self.id,
            guild_id: self.guild_id,
            name: match self.name {
                Some(n) => Some(n@),
                None => None,
            },
            parent_id: self.parent_id,
            kind: self.kind,
            position: self.position,
            permission_overwrites: self.permission_overwrites@,
        }
    }
}

impl DeepView for CachedChannel {
    type V = ChannelModel;

    open spec fn deep_view(&self) -> ChannelModel {
        self@
    }
}

/// The existence-only placeholder written for a direct-message channel that
/// was never cached: type "private", no name, parent or overwrites.
pub open spec fn stub_channel_model(channel_id: u64) -> ChannelModel {
    ChannelModel {
        id: channel_id,
        guild_id: None,
        name: None,
        parent_id: None,
        kind: CHANNEL_KIND_PRIVATE,
        position: 0,
        permission_overwrites: Seq::empty(),
    }
}

/// Builds the direct-message stub record for `channel_id`.
pub fn stub_channel(channel_id: u64) -> (r: CachedChannel)
    ensures
        r@ == stub_channel_model(channel_id),
{
    let r = CachedChannel {
        id: channel_id,
        guild_id: None,
        name: None,
        parent_id: None,
        kind: CHANNEL_KIND_PRIVATE,
        position: 0,
        permission_overwrites: Vec::new(),
    };
    assert(r@.permission_overwrites =~= Seq::<PermissionOverwrite>::empty());
    r
}

/// Cached record of a role.
pub struct CachedRole {
    pub id: u64,
    pub name: String,
    pub position: i32,
    pub permissions: u64,
    pub mentionable: bool,
}

/// Model of a role record.
pub ghost struct RoleModel {
    pub id: u64,
    pub name: Seq<char>,
    pub position: i32,
    pub permissions: u64,
    pub mentionable: bool,
}

impl View for CachedRole {
    type V = RoleModel;

    open spec fn view(&self) -> RoleModel {
        RoleModel {
            id: self.id,
            name: self.name@,
            position: self.position,
            permissions: self.permissions,
            mentionable: self.mentionable,
        }
    }
}

impl DeepView for CachedRole {
    type V = RoleModel;

    open spec fn deep_view(&self) -> RoleModel {
        self@
    }
}

/// Cached record of a user, gathered opportunistically from message
/// authorship and mentions.
pub struct CachedUser {
    pub id: u64,
    pub username: String,
    pub discriminator: String,
    pub bot: bool,
    pub avatar: Option<String>,
}

/// Model of a user record.
pub ghost struct UserModel {
    pub id: u64,
    pub username: Seq<char>,
    pub discriminator: Seq<char>,
    pub bot: bool,
    pub avatar: Option<Seq<char>>,
}

impl View for CachedUser {
    type V = UserModel;

    open spec fn view(&self) -> UserModel {
        UserModel {
            id: self.id,
            username: self.username@,
            discriminator: self.discriminator@,
            bot: self.bot,
            avatar: match self.avatar {
                Some(a) => Some(a@),
                None => None,
            },
        }
    }
}

impl DeepView for CachedUser {
    type V = UserModel;

    open spec fn deep_view(&self) -> UserModel {
        self@
    }
}

/// A community member as a snapshot or member event carries it: the user id
/// and the member's role ids. Only the bot's own entry is ever cached.
pub struct MemberInfo {
    pub user_id: u64,
    pub roles: Vec<u64>,
}

/// Model of a member entry.
pub ghost struct MemberModel {
    pub user_id: u64,
    pub roles: Seq<u64>,
}

impl View for MemberInfo {
    type V = MemberModel;

    open spec fn view(&self) -> MemberModel {
        MemberModel { user_id: self.user_id, roles: self.roles@ }
    }
}

impl DeepView for MemberInfo {
    type V = MemberModel;

    open spec fn deep_view(&self) -> MemberModel {
        self@
    }
}

} // verus!
