use gateway_cache::event::{DomainEvent, GuildSnapshot, MessageInfo};
use gateway_cache::records::{
    CachedChannel, CachedGuild, CachedRole, CachedUser, GuildTier, MemberInfo,
    CHANNEL_KIND_PRIVATE,
};
use gateway_cache::sync::{plan_dm_stub, CacheError, CacheSynchronizer};

const OWN_USER: u64 = 999;

fn guild(id: u64, name: &str) -> CachedGuild {
    CachedGuild { id, name: name.to_string(), owner_id: 7, tier: GuildTier::Tier0 }
}

fn channel(id: u64) -> CachedChannel {
    CachedChannel {
        id,
        guild_id: None,
        name: Some(format!("channel-{}", id)),
        parent_id: None,
        kind: 0,
        position: 0,
        permission_overwrites: Vec::new(),
    }
}

fn role(id: u64, name: &str) -> CachedRole {
    CachedRole { id, name: name.to_string(), position: 1, permissions: 8, mentionable: false }
}

fn user(id: u64, name: &str) -> CachedUser {
    CachedUser {
        id,
        username: name.to_string(),
        discriminator: "0001".to_string(),
        bot: false,
        avatar: None,
    }
}

fn snapshot_a() -> DomainEvent {
    DomainEvent::GuildCreate(GuildSnapshot {
        guild: guild(100, "community"),
        channels: vec![channel(1), channel(2)],
        threads: Vec::new(),
        roles: vec![role(10, "admin")],
        members: vec![
            MemberInfo { user_id: 42, roles: vec![10] },
            MemberInfo { user_id: OWN_USER, roles: vec![10] },
        ],
    })
}

#[test]
fn scenario_a_full_snapshot() {
    let mut sync = CacheSynchronizer::new(OWN_USER);
    assert!(sync.handle_event(snapshot_a()).is_ok());

    let c1 = sync.store.get_channel(1).expect("channel 1 cached");
    assert_eq!(c1.guild_id, Some(100));
    let c2 = sync.store.get_channel(2).expect("channel 2 cached");
    assert_eq!(c2.guild_id, Some(100));

    assert!(sync.store.channel_index_contains(100, 1));
    assert!(sync.store.channel_index_contains(100, 2));
    assert_eq!(sync.store.channel_index_len(100), 2);

    assert!(sync.store.role_index_contains(100, 10));
    assert_eq!(sync.store.role_index_len(100), 1);
    assert!(sync.store.get_role(10).is_some());
    assert!(sync.store.get_guild(100).is_some());

    let self_roles = sync.store.get_self_member(100).expect("self member cached");
    assert_eq!(self_roles.as_slice(), &[10]);
}

#[test]
fn scenario_b_channel_delete() {
    let mut sync = CacheSynchronizer::new(OWN_USER);
    sync.handle_event(snapshot_a()).unwrap();
    sync.handle_event(DomainEvent::ChannelDelete { channel_id: 2 }).unwrap();

    assert!(sync.store.get_channel(2).is_none());
    assert!(sync.store.channel_index_contains(100, 1));
    assert!(!sync.store.channel_index_contains(100, 2));
    assert_eq!(sync.store.channel_index_len(100), 1);
}

#[test]
fn scenario_c_guild_delete() {
    let mut sync = CacheSynchronizer::new(OWN_USER);
    sync.handle_event(snapshot_a()).unwrap();
    sync.handle_event(DomainEvent::GuildDelete { guild_id: 100 }).unwrap();

    assert!(sync.store.get_guild(100).is_none());
    assert!(!sync.store.channel_index_exists(100));
    assert!(!sync.store.role_index_exists(100));
}

#[test]
fn snapshot_idempotent_concrete() {
    let mut once = CacheSynchronizer::new(OWN_USER);
    once.handle_event(snapshot_a()).unwrap();
    let mut twice = CacheSynchronizer::new(OWN_USER);
    twice.handle_event(snapshot_a()).unwrap();
    twice.handle_event(snapshot_a()).unwrap();

    for store in [&once.store, &twice.store] {
        assert_eq!(store.channel_index_len(100), 2);
        assert_eq!(store.role_index_len(100), 1);
        assert!(store.get_channel(1).is_some());
        assert!(store.get_channel(2).is_some());
        assert!(store.get_role(10).is_some());
        assert!(store.get_guild(100).is_some());
    }
    assert_eq!(
        once.store.get_channel(1).unwrap().name,
        twice.store.get_channel(1).unwrap().name
    );
}

#[test]
fn snapshot_clears_stale_index_entries() {
    let mut sync = CacheSynchronizer::new(OWN_USER);
    sync.handle_event(snapshot_a()).unwrap();
    // A later snapshot of the same community carries only channel 3: the old
    // index generation must be gone entirely.
    sync.handle_event(DomainEvent::GuildCreate(GuildSnapshot {
        guild: guild(100, "community"),
        channels: vec![channel(3)],
        threads: Vec::new(),
        roles: Vec::new(),
        members: vec![MemberInfo { user_id: OWN_USER, roles: Vec::new() }],
    }))
    .unwrap();

    assert!(sync.store.channel_index_contains(100, 3));
    assert!(!sync.store.channel_index_contains(100, 1));
    assert!(!sync.store.channel_index_contains(100, 2));
    assert_eq!(sync.store.channel_index_len(100), 1);
    assert!(!sync.store.role_index_exists(100));
}

#[test]
fn deletion_of_uncached_channel_is_noop() {
    let mut sync = CacheSynchronizer::new(OWN_USER);
    let r = sync.handle_event(DomainEvent::ChannelDelete { channel_id: 555 });
    assert!(r.is_ok());
    assert!(sync.store.get_channel(555).is_none());
}

#[test]
fn deletion_of_uncached_role_is_noop() {
    let mut sync = CacheSynchronizer::new(OWN_USER);
    sync.handle_event(snapshot_a()).unwrap();
    let r = sync.handle_event(DomainEvent::RoleDelete { guild_id: 100, role_id: 77 });
    assert!(r.is_ok());
    assert!(sync.store.get_role(10).is_some());
    assert_eq!(sync.store.role_index_len(100), 1);
}

#[test]
fn scenario_e_dm_stub() {
    let mut sync = CacheSynchronizer::new(OWN_USER);
    sync.handle_event(DomainEvent::ReactionAdd { channel_id: 77, guild_id: None }).unwrap();

    let stub = sync.store.get_channel(77).expect("stub created");
    assert_eq!(stub.kind, CHANNEL_KIND_PRIVATE);
    assert_eq!(stub.guild_id, None);
    assert_eq!(stub.name, None);
    assert_eq!(stub.parent_id, None);
    assert!(stub.permission_overwrites.is_empty());

    // A second identical event plans no write at all: the existence check
    // short-circuits.
    let ops = plan_dm_stub(77, true);
    assert!(ops.is_empty());
    sync.handle_event(DomainEvent::ReactionAdd { channel_id: 77, guild_id: None }).unwrap();
    let stub2 = sync.store.get_channel(77).unwrap();
    assert_eq!(stub2.kind, CHANNEL_KIND_PRIVATE);
    assert_eq!(stub2.name, None);
}

#[test]
fn guild_reaction_is_ignored() {
    let mut sync = CacheSynchronizer::new(OWN_USER);
    sync.handle_event(DomainEvent::ReactionAdd { channel_id: 77, guild_id: Some(100) }).unwrap();
    assert!(sync.store.get_channel(77).is_none());
}

#[test]
fn message_caches_author_and_mentions() {
    let mut sync = CacheSynchronizer::new(OWN_USER);
    sync.handle_event(DomainEvent::MessageCreate(MessageInfo {
        channel_id: 30,
        guild_id: None,
        author: user(5, "alice"),
        author_member_roles: None,
        mentions: vec![user(6, "bob"), user(7, "carol")],
    }))
    .unwrap();

    assert_eq!(sync.store.get_user(5).unwrap().username, "alice");
    assert_eq!(sync.store.get_user(6).unwrap().username, "bob");
    assert_eq!(sync.store.get_user(7).unwrap().username, "carol");
    // A direct message also leaves a stub for its channel.
    assert_eq!(sync.store.get_channel(30).unwrap().kind, CHANNEL_KIND_PRIVATE);
}

#[test]
fn bot_message_with_member_updates_self_membership() {
    let mut sync = CacheSynchronizer::new(OWN_USER);
    sync.handle_event(DomainEvent::MessageCreate(MessageInfo {
        channel_id: 30,
        guild_id: Some(200),
        author: user(OWN_USER, "self"),
        author_member_roles: Some(vec![3, 4]),
        mentions: Vec::new(),
    }))
    .unwrap();
    assert_eq!(sync.store.get_self_member(200).unwrap().as_slice(), &[3, 4]);
}

#[test]
fn member_update_for_other_user_is_ignored() {
    let mut sync = CacheSynchronizer::new(OWN_USER);
    sync.handle_event(DomainEvent::MemberUpdate {
        guild_id: 200,
        member: MemberInfo { user_id: 42, roles: vec![1] },
    })
    .unwrap();
    assert!(sync.store.get_self_member(200).is_none());
}

#[test]
fn member_add_for_self_updates_membership() {
    let mut sync = CacheSynchronizer::new(OWN_USER);
    sync.handle_event(DomainEvent::MemberAdd {
        guild_id: 300,
        member: MemberInfo { user_id: OWN_USER, roles: vec![9, 12] },
    })
    .unwrap();
    assert_eq!(sync.store.get_self_member(300).unwrap().as_slice(), &[9, 12]);
}

#[test]
fn snapshot_without_self_member_fails_loudly() {
    let mut sync = CacheSynchronizer::new(OWN_USER);
    let r = sync.handle_event(DomainEvent::GuildCreate(GuildSnapshot {
        guild: guild(100, "community"),
        channels: vec![channel(1)],
        threads: Vec::new(),
        roles: Vec::new(),
        members: vec![MemberInfo { user_id: 42, roles: Vec::new() }],
    }));
    assert_eq!(r, Err(CacheError::MissingSelfMember));
    // Failing loudly means failing before any write.
    assert!(sync.store.get_guild(100).is_none());
    assert!(sync.store.get_channel(1).is_none());
}

#[test]
fn bot_dm_with_member_data_fails_loudly() {
    let mut sync = CacheSynchronizer::new(OWN_USER);
    let r = sync.handle_event(DomainEvent::MessageCreate(MessageInfo {
        channel_id: 30,
        guild_id: None,
        author: user(OWN_USER, "self"),
        author_member_roles: Some(vec![1]),
        mentions: Vec::new(),
    }));
    assert_eq!(r, Err(CacheError::MemberWithoutCommunity));
    assert!(sync.store.get_user(OWN_USER).is_none());
}

#[test]
fn thread_events_are_channel_records() {
    let mut sync = CacheSynchronizer::new(OWN_USER);
    let mut t = channel(400);
    t.guild_id = Some(100);
    t.parent_id = Some(1);
    sync.handle_event(DomainEvent::ThreadCreate(t)).unwrap();
    assert_eq!(sync.store.get_channel(400).unwrap().parent_id, Some(1));

    sync.handle_event(DomainEvent::ThreadListSync {
        threads: vec![
            CachedChannel { parent_id: Some(2), ..channel(401) },
            CachedChannel { parent_id: Some(2), ..channel(402) },
        ],
    })
    .unwrap();
    assert!(sync.store.get_channel(401).is_some());
    assert!(sync.store.get_channel(402).is_some());

    sync.handle_event(DomainEvent::ThreadDelete { channel_id: 401 }).unwrap();
    assert!(sync.store.get_channel(401).is_none());
}

#[test]
fn role_create_marks_index() {
    let mut sync = CacheSynchronizer::new(OWN_USER);
    sync.handle_event(DomainEvent::RoleCreate { guild_id: 500, role: role(20, "mod") }).unwrap();
    assert!(sync.store.get_role(20).is_some());
    assert!(sync.store.role_index_contains(500, 20));

    sync.handle_event(DomainEvent::RoleDelete { guild_id: 500, role_id: 20 }).unwrap();
    assert!(sync.store.get_role(20).is_none());
    assert!(!sync.store.role_index_exists(500));
}

#[test]
fn partial_guild_update_leaves_indices_alone() {
    let mut sync = CacheSynchronizer::new(OWN_USER);
    sync.handle_event(snapshot_a()).unwrap();
    sync.handle_event(DomainEvent::GuildUpdate(guild(100, "renamed"))).unwrap();
    assert_eq!(sync.store.get_guild(100).unwrap().name, "renamed");
    assert_eq!(sync.store.channel_index_len(100), 2);
    assert_eq!(sync.store.role_index_len(100), 1);
}

#[test]
fn unconsumed_events_are_noops() {
    let mut sync = CacheSynchronizer::new(OWN_USER);
    assert!(sync.handle_event(DomainEvent::Other).is_ok());
    assert!(sync.handle_event(DomainEvent::GatewayHeartbeat).is_ok());
    assert!(sync.store.get_guild(1).is_none());
}
