//! The cache synchronizer: one decoded event in, a bounded list of store
//! commands out.
//!
//! The meaning of every event kind is a spec function over `StoreModel`;
//! `apply_event` composes the self-membership resolution step with the
//! dispatch table of §store-effects. The executable planners produce the
//! command lists and are proved to realize exactly those effects, and
//! `CacheSynchronizer::handle_event` runs them against the in-memory image.

use vstd::prelude::*;

use crate::event::{DomainEvent, GuildSnapshot, MessageInfo};
use crate::store::CacheStore;
use crate::model::{index_add, index_remove, put_all, seq_keys, Keyed, StoreModel};
use crate::ops::{lemma_ops_effect_concat, lemma_ops_effect_push, op_wf, ops_effect, ops_wf,
    StoreOp};
use crate::records::{stub_channel_model, CachedChannel, CachedGuild, CachedRole, ChannelModel, MemberInfo,
    MemberModel, RoleModel, UserModel};

verus! {

/// Why applying an event failed. Both variants are invariant violations of
/// the upstream collaborator and are reported loudly, never swallowed.
#[derive(Clone, Copy, PartialEq, Eq, Structural, Debug)]
pub enum CacheError {
    /// A full community snapshot did not include the bot's own member entry.
    MissingSelfMember,
    /// A message authored by the bot carried member data but no community id.
    MemberWithoutCommunity,
}

/// The first member entry with the given user id, in list order.
pub open spec fn find_member(ms: Seq<MemberModel>, user_id: u64) -> Option<MemberModel>
    decreases ms.len(),
{
    if ms.len() == 0 {
        None
    } else if ms[0].user_id == user_id {
        Some(ms[0])
    } else {
        find_member(ms.drop_first(), user_id)
    }
}

/// The self-membership write an event implies, if any: the community and the
/// bot's role ids there.
pub open spec fn self_member_update(e: DomainEvent, own: u64) -> Option<(u64, Seq<u64>)> {
    match e {
        DomainEvent::GuildCreate(snap) => match find_member(snap.members.deep_view(), own) {
            Some(m) => Some((snap.guild.id, m.roles)),
            None => None,
        },
        DomainEvent::MessageCreate(m) => if m.author.id == own {
            match (m.author_member_roles, m.guild_id) {
                (Some(roles), Some(gid)) => Some((gid, roles@)),
                _ => None,
            }
        } else {
            None
        },
        DomainEvent::MemberAdd { guild_id, member } => if member.user_id == own {
            Some((guild_id, member.roles@))
        } else {
            None
        },
        DomainEvent::MemberUpdate { guild_id, member } => if member.user_id == own {
            Some((guild_id, member.roles@))
        } else {
            None
        },
        _ => None,
    }
}

/// The inputs on which applying an event fails: a snapshot without the bot's
/// own member entry, or a bot-authored message whose member data comes with
/// no community. Nothing else ever fails.
pub open spec fn event_error(e: DomainEvent, own: u64) -> bool {
    match e {
        DomainEvent::GuildCreate(snap) => find_member(snap.members.deep_view(), own) is None,
        DomainEvent::MessageCreate(m) => m.author.id == own && m.author_member_roles is Some
            && m.guild_id is None,
        _ => false,
    }
}

/// Channels of a snapshot are tagged with the community id before they are
/// written.
pub open spec fn tag_channels_model(cs: Seq<ChannelModel>, guild_id: u64) -> Seq<ChannelModel> {
    cs.map_values(|c: ChannelModel| ChannelModel { guild_id: Some(guild_id), ..c })
}

/// All channel records a snapshot writes: its channels, then its threads,
/// each tagged with the community id.
pub open spec fn snapshot_channels(snap: GuildSnapshot) -> Seq<ChannelModel> {
    tag_channels_model(snap.channels.deep_view(), snap.guild.id) + tag_channels_model(
        snap.threads.deep_view(),
        snap.guild.id,
    )
}

/// The channel ids a snapshot carries (channels and threads).
pub open spec fn snapshot_channel_ids(snap: GuildSnapshot) -> Set<u64> {
    seq_keys(snapshot_channels(snap))
}

/// The role ids a snapshot carries.
pub open spec fn snapshot_role_ids(snap: GuildSnapshot) -> Set<u64> {
    seq_keys(snap.roles.deep_view())
}

/// First phase of a snapshot: clear both indices, overwrite the community
/// record.
pub open spec fn snap_base_effect(s: StoreModel, g: crate::records::GuildModel) -> StoreModel {
    StoreModel {
        guilds: s.guilds.insert(g.id, g),
        guild_channels: s.guild_channels.remove(g.id),
        guild_roles: s.guild_roles.remove(g.id),
        ..s
    }
}

/// One channel burst of a snapshot: bulk-write the records and mark them in
/// the index; an empty burst writes nothing.
pub open spec fn chan_stage_effect(s: StoreModel, guild_id: u64, tagged: Seq<ChannelModel>) -> StoreModel {
    if tagged.len() == 0 {
        s
    } else {
        StoreModel {
            channels: put_all(s.channels, tagged),
            guild_channels: index_add(s.guild_channels, guild_id, seq_keys(tagged)),
            ..s
        }
    }
}

/// The role burst of a snapshot.
pub open spec fn role_stage_effect(s: StoreModel, guild_id: u64, rs: Seq<RoleModel>) -> StoreModel {
    if rs.len() == 0 {
        s
    } else {
        StoreModel {
            roles: put_all(s.roles, rs),
            guild_roles: index_add(s.guild_roles, guild_id, seq_keys(rs)),
            ..s
        }
    }
}

/// A full community snapshot: clear-then-write, so the indices end up exactly
/// at the snapshot's contents.
pub open spec fn apply_snapshot(s: StoreModel, snap: GuildSnapshot) -> StoreModel {
    let gid = snap.guild.id;
    let base = snap_base_effect(s, snap.guild@);
    let after_ch = chan_stage_effect(
        base,
        gid,
        tag_channels_model(snap.channels.deep_view(), gid),
    );
    let after_th = chan_stage_effect(
        after_ch,
        gid,
        tag_channels_model(snap.threads.deep_view(), gid),
    );
    role_stage_effect(after_th, gid, snap.roles.deep_view())
}

/// A direct-message channel touch: write the stub only when no record exists.
pub open spec fn dm_stub_effect(s: StoreModel, channel_id: u64) -> StoreModel {
    if s.channels.dom().contains(channel_id) {
        s
    } else {
        StoreModel { channels: s.channels.insert(channel_id, stub_channel_model(channel_id)), ..s }
    }
}

/// Opportunistic user writes, front to back.
pub open spec fn put_users_effect(s: StoreModel, us: Seq<UserModel>) -> StoreModel {
    StoreModel { users: put_all(s.users, us), ..s }
}

/// A message: a stub for a direct-message channel, then the author and every
/// mentioned user.
pub open spec fn message_effect(s: StoreModel, m: MessageInfo) -> StoreModel {
    let s1 = if m.guild_id is None {
        dm_stub_effect(s, m.channel_id)
    } else {
        s
    };
    put_users_effect(s1, seq![m.author@] + m.mentions.deep_view())
}

/// A channel or thread delete: read first; a miss changes nothing, a hit
/// deletes the record and, when it carried a community id, unmarks it there.
pub open spec fn remove_channel_effect(s: StoreModel, channel_id: u64) -> StoreModel {
    if !s.channels.dom().contains(channel_id) {
        s
    } else {
        let c = s.channels[channel_id];
        let s1 = StoreModel { channels: s.channels.remove(channel_id), ..s };
        match c.guild_id {
            Some(gid) => StoreModel {
                guild_channels: index_remove(s1.guild_channels, gid, channel_id),
                ..s1
            },
            None => s1,
        }
    }
}

/// The dispatch table: what each event kind, self-membership aside, does to
/// the cached projection.
pub open spec fn dispatch_effect(s: StoreModel, e: DomainEvent) -> StoreModel {
    match e {
        DomainEvent::GuildCreate(snap) => apply_snapshot(s, snap),
        DomainEvent::GuildUpdate(g) => StoreModel { guilds: s.guilds.insert(g.id, g@), ..s },
        DomainEvent::GuildDelete { guild_id } => StoreModel {
            guilds: s.guilds.remove(guild_id),
            guild_channels: s.guild_channels.remove(guild_id),
            guild_roles: s.guild_roles.remove(guild_id),
            ..s
        },
        DomainEvent::ChannelCreate(c) => StoreModel { channels: s.channels.insert(c.id, c@), ..s },
        DomainEvent::ChannelUpdate(c) => StoreModel { channels: s.channels.insert(c.id, c@), ..s },
        DomainEvent::ChannelDelete { channel_id } => remove_channel_effect(s, channel_id),
        DomainEvent::ThreadCreate(c) => StoreModel { channels: s.channels.insert(c.id, c@), ..s },
        DomainEvent::ThreadUpdate(c) => StoreModel { channels: s.channels.insert(c.id, c@), ..s },
        DomainEvent::ThreadDelete { channel_id } => remove_channel_effect(s, channel_id),
        DomainEvent::ThreadListSync { threads } => StoreModel {
            channels: put_all(s.channels, threads.deep_view()),
            ..s
        },
        DomainEvent::RoleCreate { guild_id, role } => StoreModel {
            roles: s.roles.insert(role.id, role@),
            guild_roles: index_add(s.guild_roles, guild_id, Set::empty().insert(role.id)),
            ..s
        },
        DomainEvent::RoleUpdate { guild_id, role } => StoreModel {
            roles: s.roles.insert(role.id, role@),
            guild_roles: index_add(s.guild_roles, guild_id, Set::empty().insert(role.id)),
            ..s
        },
        DomainEvent::RoleDelete { guild_id, role_id } => StoreModel {
            roles: s.roles.remove(role_id),
            guild_roles: index_remove(s.guild_roles, guild_id, role_id),
            ..s
        },
        DomainEvent::ReactionAdd { channel_id, guild_id } => match guild_id {
            None => dm_stub_effect(s, channel_id),
            Some(_) => s,
        },
        DomainEvent::MessageCreate(m) => message_effect(s, m),
        DomainEvent::MessageUpdate { channel_id, guild_id } => match guild_id {
            None => dm_stub_effect(s, channel_id),
            Some(_) => s,
        },
        DomainEvent::MessageDelete { channel_id, guild_id } => match guild_id {
            None => dm_stub_effect(s, channel_id),
            Some(_) => s,
        },
        DomainEvent::MessageDeleteBulk { channel_id, guild_id } => match guild_id {
            None => dm_stub_effect(s, channel_id),
            Some(_) => s,
        },
        DomainEvent::MemberAdd { .. } => s,
        DomainEvent::MemberUpdate { .. } => s,
        DomainEvent::ShardConnected => s,
        DomainEvent::Resumed => s,
        DomainEvent::ShardDisconnected => s,
        DomainEvent::GatewayHeartbeat => s,
        DomainEvent::Other => s,
    }
}

/// Applying one event: on a failing input the store is left untouched;
/// otherwise the self-membership write happens first, then the dispatch.
pub open spec fn apply_event(s: StoreModel, e: DomainEvent, own: u64) -> StoreModel {
    if event_error(e, own) {
        s
    } else {
        let s1 = match self_member_update(e, own) {
            Some(u) => StoreModel { self_members: s.self_members.insert(u.0, u.1), ..s },
            None => s,
        };
        dispatch_effect(s1, e)
    }
}

/// Applying a whole sequence of events, front to back.
pub open spec fn apply_events(s: StoreModel, es: Seq<DomainEvent>, own: u64) -> StoreModel
    decreases es.len(),
{
    if es.len() == 0 {
        s
    } else {
        apply_events(apply_event(s, es[0], own), es.drop_first(), own)
    }
}

/// Copies a list of ids.
fn copy_ids(v: &Vec<u64>) -> (r: Vec<u64>)
    ensures
        r@ == v@,
{
    let mut out: Vec<u64> = Vec::new();
    let mut i: usize = 0;
    while i < v.len()
        invariant
            i <= v@.len(),
            out@ == v@.take(i as int),
        decreases v@.len() - i,
    {
        out.push(v[i]);
        proof {
            assert(v@.take(i as int).push(v@[i as int]) =~= v@.take(i as int + 1));
        }
        i = i + 1;
    }
    proof {
        assert(v@.take(v@.len() as int) =~= v@);
    }
    out
}

/// Skipping entries that do not match leaves the first match unchanged.
proof fn lemma_find_member_skip(ms: Seq<MemberModel>, user_id: u64, i: int)
    requires
        0 <= i < ms.len(),
        ms[i].user_id != user_id,
    ensures
        find_member(ms.skip(i), user_id) == find_member(ms.skip(i + 1), user_id),
{
    assert(ms.skip(i).len() > 0);
    assert(ms.skip(i)[0] == ms[i]);
    assert(ms.skip(i).drop_first() =~= ms.skip(i + 1));
}

/// The index of the first member entry with the given user id.
fn find_self_member(members: &Vec<MemberInfo>, user_id: u64) -> (r: Option<usize>)
    ensures
        match r {
            Some(i) => i < members@.len() && find_member(members.deep_view(), user_id) == Some(
                members.deep_view()[i as int],
            ),
            None => find_member(members.deep_view(), user_id) is None,
        },
{
    let ghost deep = members.deep_view();
    let mut i: usize = 0;
    proof {
        assert(deep.skip(0) =~= deep);
    }
    while i < members.len()
        invariant
            i <= members@.len(),
            deep == members.deep_view(),
            find_member(deep, user_id) == find_member(deep.skip(i as int), user_id),
        decreases members@.len() - i,
    {
        if members[i].user_id == user_id {
            proof {
                assert(deep.skip(i as int)[0] == deep[i as int]);
                assert(deep[i as int] == members@[i as int]@);
                assert(deep.skip(i as int).len() > 0);
                assert(find_member(deep.skip(i as int), user_id) == Some(deep[i as int]));
            }
            return Some(i);
        }
        proof {
            assert(deep[i as int] == members@[i as int]@);
            lemma_find_member_skip(deep, user_id, i as int);
        }
        i = i + 1;
    }
    proof {
        assert(deep.skip(deep.len() as int) =~= Seq::<MemberModel>::empty());
    }
    None
}

/// Resolves the self-membership write an event implies, failing loudly on
/// the upstream invariant violations.
pub fn self_member_action(e: &DomainEvent, own: u64) -> (r: Result<
    Option<(u64, Vec<u64>)>,
    CacheError,
>)
    ensures
        match r {
            Ok(opt) => !event_error(*e, own) && (match (opt, self_member_update(*e, own)) {
                (Some(p), Some(q)) => p.0 == q.0 && p.1@ == q.1,
                (None, None) => true,
                _ => false,
            }),
            Err(err) => event_error(*e, own) && (match err {
                CacheError::MissingSelfMember => e is GuildCreate,
                CacheError::MemberWithoutCommunity => e is MessageCreate,
            }),
        },
{
    match e {
        DomainEvent::GuildCreate(snap) => match find_self_member(&snap.members, own) {
            Some(i) => Ok(Some((snap.guild.id, copy_ids(&snap.members[i].roles)))),
            None => Err(CacheError::MissingSelfMember),
        },
        DomainEvent::MessageCreate(m) => {
            if m.author.id == own {
                match &m.author_member_roles {
                    Some(roles) => match m.guild_id {
                        Some(gid) => Ok(Some((gid, copy_ids(roles)))),
                        None => Err(CacheError::MemberWithoutCommunity),
                    },
                    None => Ok(None),
                }
            } else {
                Ok(None)
            }
        },
        DomainEvent::MemberAdd { guild_id, member } => {
            if member.user_id == own {
                Ok(Some((*guild_id, copy_ids(&member.roles))))
            } else {
                Ok(None)
            }
        },
        DomainEvent::MemberUpdate { guild_id, member } => {
            if member.user_id == own {
                Ok(Some((*guild_id, copy_ids(&member.roles))))
            } else {
                Ok(None)
            }
        },
        _ => Ok(None),
    }
}

/// Tags every channel with the community id and collects the channel ids.
fn tag_channels(cs: Vec<CachedChannel>, guild_id: u64) -> (r: (Vec<CachedChannel>, Vec<u64>))
    ensures
        r.0.deep_view() == tag_channels_model(cs.deep_view(), guild_id),
        r.1@.len() == cs@.len(),
        r.1@.to_set() == seq_keys(r.0.deep_view()),
{
    let ghost orig = cs.deep_view();
    let ghost tagged_all = tag_channels_model(orig, guild_id);
    let mut rest = cs;
    let mut out: Vec<CachedChannel> = Vec::new();
    let mut ids: Vec<u64> = Vec::new();
    let ghost mut k: int = 0;
    proof {
        assert(rest.deep_view() =~= orig.skip(0));
        assert(out.deep_view() =~= tagged_all.take(0));
        assert(ids@ =~= Seq::<u64>::empty());
    }
    while rest.len() > 0
        invariant
            0 <= k <= orig.len(),
            k + rest.len() == orig.len(),
            tagged_all == tag_channels_model(orig, guild_id),
            tagged_all.len() == orig.len(),
            rest.deep_view() =~= orig.skip(k),
            out.deep_view() == tagged_all.take(k),
            ids@.len() == k,
            forall|j: int| 0 <= j < k ==> ids@[j] == tagged_all[j].id,
        decreases rest.len(),
    {
        let ghost prev = rest@;
        let ghost prev_deep = rest.deep_view();
        let mut c = rest.remove(0);
        proof {
            assert(rest.deep_view() =~= orig.skip(k + 1)) by {
                assert forall|j: int| 0 <= j < rest.deep_view().len() implies rest.deep_view()[j]
                    == orig.skip(k + 1)[j] by {
                    assert(rest@[j] == prev[j + 1]);
                    assert(prev_deep[j + 1] == orig.skip(k)[j + 1]);
                }
            }
            assert(c.deep_view() == orig[k]) by {
                assert(prev_deep[0] == orig.skip(k)[0]);
            }
        }
        c.guild_id = Some(guild_id);
        proof {
            assert(c@ == tagged_all[k]) by {
                assert(tagged_all[k] == (ChannelModel { guild_id: Some(guild_id), ..orig[k] }));
            }
        }
        ids.push(c.id);
        let ghost out_prev = out.deep_view();
        let ghost out_prev_v = out@;
        out.push(c);
        proof {
            assert(out_prev.len() == k);
            assert(out_prev_v.len() == k);
            assert(out@ == out_prev_v.push(c));
            assert(out.deep_view() =~= tagged_all.take(k + 1)) by {
                assert forall|j: int| 0 <= j < out.deep_view().len() implies out.deep_view()[j]
                    == tagged_all.take(k + 1)[j] by {
                    if j < k {
                        assert(out@[j] == out_prev_v[j]);
                        assert(out_prev[j] == tagged_all.take(k)[j]);
                    } else {
                        assert(out@[j] == c);
                    }
                }
            }
            assert(c.id == tagged_all[k].id);
            k = k + 1;
        }
    }
    proof {
        assert(tagged_all.take(k) =~= tagged_all);
        assert(ids@.to_set() =~= seq_keys(tagged_all)) by {
            assert forall|x: u64|
                ids@.to_set().contains(x) == seq_keys(tagged_all).contains(x) by {
                crate::model::lemma_seq_keys_contains(tagged_all, x);
                if ids@.contains(x) {
                    let j = choose|j: int| 0 <= j < ids@.len() && ids@[j] == x;
                    assert(tagged_all[j].key() == x);
                }
                if exists|i: int| 0 <= i < tagged_all.len() && tagged_all[i].key() == x {
                    let i = choose|i: int| 0 <= i < tagged_all.len() && tagged_all[i].key() == x;
                    assert(ids@[i] == x);
                    assert(ids@.contains(x));
                }
            }
        }
    }
    (out, ids)
}

/// Collects the role ids of a batch of role records.
fn role_ids_of(rs: &Vec<CachedRole>) -> (r: Vec<u64>)
    ensures
        r@.len() == rs@.len(),
        r@.to_set() == seq_keys(rs.deep_view()),
{
    let ghost deep = rs.deep_view();
    let mut ids: Vec<u64> = Vec::new();
    let mut i: usize = 0;
    while i < rs.len()
        invariant
            i <= rs@.len(),
            deep == rs.deep_view(),
            ids@.len() == i,
            forall|j: int| 0 <= j < i ==> ids@[j] == deep[j].id,
        decreases rs@.len() - i,
    {
        ids.push(rs[i].id);
        proof {
            assert(deep[i as int] == rs@[i as int]@);
        }
        i = i + 1;
    }
    proof {
        assert(ids@.to_set() =~= seq_keys(deep)) by {
            assert forall|x: u64| ids@.to_set().contains(x) == seq_keys(deep).contains(x) by {
                crate::model::lemma_seq_keys_contains(deep, x);
                if ids@.contains(x) {
                    let j = choose|j: int| 0 <= j < ids@.len() && ids@[j] == x;
                    assert(deep[j].key() == x);
                }
                if exists|i: int| 0 <= i < deep.len() && deep[i].key() == x {
                    let j = choose|j: int| 0 <= j < deep.len() && deep[j].key() == x;
                    assert(ids@[j] == x);
                    assert(ids@.contains(x));
                }
            }
        }
    }
    ids
}

/// The store commands for a full community snapshot: clear both indices,
/// overwrite the community record, then bulk-write channels, threads and
/// roles, marking each burst in its index.
pub fn plan_guild_create(snap: GuildSnapshot) -> (r: Vec<StoreOp>)
    ensures
        ops_wf(r@),
        forall|s: StoreModel| #[trigger] ops_effect(s, r@) == apply_snapshot(s, snap),
{
    let ghost snap_g = snap;
    let GuildSnapshot { guild, channels, threads, roles, members: _ } = snap;
    let gid = guild.id;
    let ghost guild_v = guild@;

    let mut ops: Vec<StoreOp> = Vec::new();
    ops.push(StoreOp::ClearChannelIndex(gid));
    ops.push(StoreOp::ClearRoleIndex(gid));
    ops.push(StoreOp::PutGuild(guild));
    let ghost base_ops = ops@;
    proof {
        assert forall|s: StoreModel| #[trigger] ops_effect(s, base_ops) == snap_base_effect(
            s,
            guild_v,
        ) by {
            let e0 = Seq::<StoreOp>::empty();
            let o1 = StoreOp::ClearChannelIndex(gid);
            let o2 = StoreOp::ClearRoleIndex(gid);
            assert(ops_effect(s, e0) == s);
            lemma_ops_effect_push(s, e0, o1);
            assert(e0.push(o1) =~= seq![o1]);
            lemma_ops_effect_push(s, seq![o1], o2);
            assert(seq![o1].push(o2) =~= seq![o1, o2]);
            lemma_ops_effect_push(s, seq![o1, o2], base_ops[2]);
            assert(seq![o1, o2].push(base_ops[2]) =~= base_ops);
            assert(ops_effect(s, base_ops) =~= snap_base_effect(s, guild_v));
        }
        assert(ops_wf(base_ops));
    }

    let mut ch_ops: Vec<StoreOp> = Vec::new();
    if channels.len() > 0 {
        let (tagged, ids) = tag_channels(channels, gid);
        ch_ops.push(StoreOp::PutChannels(tagged));
        ch_ops.push(StoreOp::AddChannelIndex(gid, ids));
    }
    let ghost ch_opsv = ch_ops@;
    let ghost ch_model = tag_channels_model(snap_g.channels.deep_view(), gid);
    proof {
        assert(ch_model.len() == snap_g.channels.deep_view().len());
        assert forall|s: StoreModel| #[trigger] ops_effect(s, ch_opsv) == chan_stage_effect(
            s,
            gid,
            ch_model,
        ) by {
            if ch_opsv.len() == 0 {
                assert(chan_stage_effect(s, gid, ch_model) == s);
            } else {
                let o1 = ch_opsv[0];
                let o2 = ch_opsv[1];
                assert(ops_effect(s, Seq::<StoreOp>::empty()) == s);
                lemma_ops_effect_push(s, Seq::<StoreOp>::empty(), o1);
                assert(Seq::<StoreOp>::empty().push(o1) =~= seq![o1]);
                lemma_ops_effect_push(s, seq![o1], o2);
                assert(seq![o1].push(o2) =~= ch_opsv);
                assert(ops_effect(s, ch_opsv) =~= chan_stage_effect(s, gid, ch_model));
            }
        }
        assert(ops_wf(ch_opsv));
    }
    ops.append(&mut ch_ops);

    let mut th_ops: Vec<StoreOp> = Vec::new();
    if threads.len() > 0 {
        let (tagged, ids) = tag_channels(threads, gid);
        th_ops.push(StoreOp::PutChannels(tagged));
        th_ops.push(StoreOp::AddChannelIndex(gid, ids));
    }
    let ghost th_opsv = th_ops@;
    let ghost th_model = tag_channels_model(snap_g.threads.deep_view(), gid);
    proof {
        assert(th_model.len() == snap_g.threads.deep_view().len());
        assert forall|s: StoreModel| #[trigger] ops_effect(s, th_opsv) == chan_stage_effect(
            s,
            gid,
            th_model,
        ) by {
            if th_opsv.len() == 0 {
                assert(chan_stage_effect(s, gid, th_model) == s);
            } else {
                let o1 = th_opsv[0];
                let o2 = th_opsv[1];
                assert(ops_effect(s, Seq::<StoreOp>::empty()) == s);
                lemma_ops_effect_push(s, Seq::<StoreOp>::empty(), o1);
                assert(Seq::<StoreOp>::empty().push(o1) =~= seq![o1]);
                lemma_ops_effect_push(s, seq![o1], o2);
                assert(seq![o1].push(o2) =~= th_opsv);
                assert(ops_effect(s, th_opsv) =~= chan_stage_effect(s, gid, th_model));
            }
        }
        assert(ops_wf(th_opsv));
    }
    ops.append(&mut th_ops);

    let mut ro_ops: Vec<StoreOp> = Vec::new();
    if roles.len() > 0 {
        let ids = role_ids_of(&roles);
        ro_ops.push(StoreOp::PutRoles(roles));
        ro_ops.push(StoreOp::AddRoleIndex(gid, ids));
    }
    let ghost ro_opsv = ro_ops@;
    let ghost ro_model = snap_g.roles.deep_view();
    proof {
        assert forall|s: StoreModel| #[trigger] ops_effect(s, ro_opsv) == role_stage_effect(
            s,
            gid,
            ro_model,
        ) by {
            if ro_opsv.len() == 0 {
                assert(role_stage_effect(s, gid, ro_model) == s);
            } else {
                let o1 = ro_opsv[0];
                let o2 = ro_opsv[1];
                assert(ops_effect(s, Seq::<StoreOp>::empty()) == s);
                lemma_ops_effect_push(s, Seq::<StoreOp>::empty(), o1);
                assert(Seq::<StoreOp>::empty().push(o1) =~= seq![o1]);
                lemma_ops_effect_push(s, seq![o1], o2);
                assert(seq![o1].push(o2) =~= ro_opsv);
                assert(ops_effect(s, ro_opsv) =~= role_stage_effect(s, gid, ro_model));
            }
        }
        assert(ops_wf(ro_opsv));
    }
    ops.append(&mut ro_ops);

    proof {
        assert(ops@ =~= ((base_ops + ch_opsv) + th_opsv) + ro_opsv);
        crate::ops::lemma_ops_wf_concat(base_ops, ch_opsv);
        crate::ops::lemma_ops_wf_concat(base_ops + ch_opsv, th_opsv);
        crate::ops::lemma_ops_wf_concat((base_ops + ch_opsv) + th_opsv, ro_opsv);
        assert forall|s: StoreModel| #[trigger] ops_effect(s, ops@) == apply_snapshot(s, snap_g) by {
            lemma_ops_effect_concat(s, (base_ops + ch_opsv) + th_opsv, ro_opsv);
            lemma_ops_effect_concat(s, base_ops + ch_opsv, th_opsv);
            lemma_ops_effect_concat(s, base_ops, ch_opsv);
            assert(ops_effect(s, ops@) == ops_effect(
                ops_effect(ops_effect(ops_effect(s, base_ops), ch_opsv), th_opsv),
                ro_opsv,
            )) by {
                assert(ops@ == ((base_ops + ch_opsv) + th_opsv) + ro_opsv);
            }
        }
    }
    ops
}

/// The store commands for a partial community update: the record alone.
pub fn plan_guild_update(g: CachedGuild) -> (r: Vec<StoreOp>)
    ensures
        ops_wf(r@),
        forall|s: StoreModel| #[trigger] ops_effect(s, r@) == (StoreModel {
            guilds: s.guilds.insert(g.id, g@),
            ..s
        }),
{
    let ghost gv = g@;
    let ghost gid = g.id;
    let mut ops: Vec<StoreOp> = Vec::new();
    ops.push(StoreOp::PutGuild(g));
    proof {
        assert forall|s: StoreModel| #[trigger] ops_effect(s, ops@) == (StoreModel {
            guilds: s.guilds.insert(gid, gv),
            ..s
        }) by {
            assert(ops_effect(s, Seq::<StoreOp>::empty()) == s);
            lemma_ops_effect_push(s, Seq::<StoreOp>::empty(), ops@[0]);
            assert(Seq::<StoreOp>::empty().push(ops@[0]) =~= ops@);
        }
    }
    ops
}

/// The store commands for a community removal: drop the record and both index
/// keys wholesale.
pub fn plan_guild_delete(guild_id: u64) -> (r: Vec<StoreOp>)
    ensures
        ops_wf(r@),
        forall|s: StoreModel| #[trigger] ops_effect(s, r@) == (StoreModel {
            guilds: s.guilds.remove(guild_id),
            guild_channels: s.guild_channels.remove(guild_id),
            guild_roles: s.guild_roles.remove(guild_id),
            ..s
        }),
{
    let mut ops: Vec<StoreOp> = Vec::new();
    ops.push(StoreOp::RemoveGuild(guild_id));
    ops.push(StoreOp::ClearChannelIndex(guild_id));
    ops.push(StoreOp::ClearRoleIndex(guild_id));
    proof {
        let o1 = StoreOp::RemoveGuild(guild_id);
        let o2 = StoreOp::ClearChannelIndex(guild_id);
        let o3 = StoreOp::ClearRoleIndex(guild_id);
        assert forall|s: StoreModel| #[trigger] ops_effect(s, ops@) == (StoreModel {
            guilds: s.guilds.remove(guild_id),
            guild_channels: s.guild_channels.remove(guild_id),
            guild_roles: s.guild_roles.remove(guild_id),
            ..s
        }) by {
            assert(ops_effect(s, Seq::<StoreOp>::empty()) == s);
            lemma_ops_effect_push(s, Seq::<StoreOp>::empty(), o1);
            assert(Seq::<StoreOp>::empty().push(o1) =~= seq![o1]);
            lemma_ops_effect_push(s, seq![o1], o2);
            assert(seq![o1].push(o2) =~= seq![o1, o2]);
            lemma_ops_effect_push(s, seq![o1, o2], o3);
            assert(seq![o1, o2].push(o3) =~= ops@);
        }
    }
    ops
}

/// The store command for a channel or thread create or update: upsert the
/// single record, no index touch.
pub fn plan_channel_upsert(c: CachedChannel) -> (r: Vec<StoreOp>)
    ensures
        ops_wf(r@),
        forall|s: StoreModel| #[trigger] ops_effect(s, r@) == (StoreModel {
            channels: s.channels.insert(c.id, c@),
            ..s
        }),
{
    let ghost cv = c@;
    let ghost cid = c.id;
    let mut ops: Vec<StoreOp> = Vec::new();
    ops.push(StoreOp::PutChannel(c));
    proof {
        assert forall|s: StoreModel| #[trigger] ops_effect(s, ops@) == (StoreModel {
            channels: s.channels.insert(cid, cv),
            ..s
        }) by {
            assert(ops_effect(s, Seq::<StoreOp>::empty()) == s);
            lemma_ops_effect_push(s, Seq::<StoreOp>::empty(), ops@[0]);
            assert(Seq::<StoreOp>::empty().push(ops@[0]) =~= ops@);
        }
    }
    ops
}

/// The store commands for a channel or thread delete, given what a read of
/// the channel table found. A miss plans nothing at all.
pub fn plan_remove_channel(channel_id: u64, existing: Option<&CachedChannel>) -> (r: Vec<StoreOp>)
    ensures
        ops_wf(r@),
        existing is None ==> r@.len() == 0,
        forall|s: StoreModel|
            (match existing {
                Some(c) => s.channels.dom().contains(channel_id) && s.channels[channel_id] == c@,
                None => !s.channels.dom().contains(channel_id),
            }) ==> #[trigger] ops_effect(s, r@) == remove_channel_effect(s, channel_id),
{
    let mut ops: Vec<StoreOp> = Vec::new();
    match existing {
        None => {},
        Some(c) => {
            ops.push(StoreOp::RemoveChannel(channel_id));
            match c.guild_id {
                Some(gid) => {
                    ops.push(StoreOp::RemoveChannelIndex(gid, channel_id));
                    proof {
                        let o1 = StoreOp::RemoveChannel(channel_id);
                        let o2 = StoreOp::RemoveChannelIndex(gid, channel_id);
                        assert forall|s: StoreModel|
                            (s.channels.dom().contains(channel_id) && s.channels[channel_id]
                                == c@) implies #[trigger] ops_effect(s, ops@)
                            == remove_channel_effect(s, channel_id) by {
                            assert(ops_effect(s, Seq::<StoreOp>::empty()) == s);
                            lemma_ops_effect_push(s, Seq::<StoreOp>::empty(), o1);
                            assert(Seq::<StoreOp>::empty().push(o1) =~= seq![o1]);
                            lemma_ops_effect_push(s, seq![o1], o2);
                            assert(seq![o1].push(o2) =~= ops@);
                        }
                    }
                },
                None => {
                    proof {
                        let o1 = StoreOp::RemoveChannel(channel_id);
                        assert forall|s: StoreModel|
                            (s.channels.dom().contains(channel_id) && s.channels[channel_id]
                                == c@) implies #[trigger] ops_effect(s, ops@)
                            == remove_channel_effect(s, channel_id) by {
                            assert(ops_effect(s, Seq::<StoreOp>::empty()) == s);
                            lemma_ops_effect_push(s, Seq::<StoreOp>::empty(), o1);
                            assert(Seq::<StoreOp>::empty().push(o1) =~= ops@);
                        }
                    }
                },
            }
        },
    }
    ops
}

/// The store command for a direct-message channel touch, given whether a
/// record already exists: the existence check short-circuits every write.
pub fn plan_dm_stub(channel_id: u64, exists: bool) -> (r: Vec<StoreOp>)
    ensures
        ops_wf(r@),
        exists ==> r@.len() == 0,
        forall|s: StoreModel|
            s.channels.dom().contains(channel_id) == exists ==> #[trigger] ops_effect(s, r@)
                == dm_stub_effect(s, channel_id),
{
    let mut ops: Vec<StoreOp> = Vec::new();
    if !exists {
        ops.push(StoreOp::PutChannel(crate::records::stub_channel(channel_id)));
        proof {
            assert forall|s: StoreModel|
                s.channels.dom().contains(channel_id) == exists implies #[trigger] ops_effect(
                s,
                ops@,
            ) == dm_stub_effect(s, channel_id) by {
                assert(ops_effect(s, Seq::<StoreOp>::empty()) == s);
                lemma_ops_effect_push(s, Seq::<StoreOp>::empty(), ops@[0]);
                assert(Seq::<StoreOp>::empty().push(ops@[0]) =~= ops@);
            }
        }
    }
    ops
}

/// The store commands for a role create or update: upsert the record and mark
/// it in the community's role index.
pub fn plan_role_upsert(guild_id: u64, role: CachedRole) -> (r: Vec<StoreOp>)
    ensures
        ops_wf(r@),
        forall|s: StoreModel| #[trigger] ops_effect(s, r@) == (StoreModel {
            roles: s.roles.insert(role.id, role@),
            guild_roles: index_add(s.guild_roles, guild_id, Set::empty().insert(role.id)),
            ..s
        }),
{
    let ghost rv = role@;
    let ghost rid = role.id;
    let mut ids: Vec<u64> = Vec::new();
    ids.push(role.id);
    let ghost idsv = ids@;
    let mut ops: Vec<StoreOp> = Vec::new();
    ops.push(StoreOp::PutRole(role));
    ops.push(StoreOp::AddRoleIndex(guild_id, ids));
    proof {
        assert(idsv =~= Seq::<u64>::empty().push(rid));
        assert(idsv.to_set() =~= Set::empty().insert(rid)) by {
            crate::model::lemma_to_set_push(Seq::<u64>::empty(), rid);
            assert(Seq::<u64>::empty().to_set() =~= Set::<u64>::empty()) by {
                assert forall|x: u64| !Seq::<u64>::empty().to_set().contains(x) by {}
            }
        }
        let o1 = ops@[0];
        let o2 = ops@[1];
        assert forall|s: StoreModel| #[trigger] ops_effect(s, ops@) == (StoreModel {
            roles: s.roles.insert(rid, rv),
            guild_roles: index_add(s.guild_roles, guild_id, Set::empty().insert(rid)),
            ..s
        }) by {
            assert(ops_effect(s, Seq::<StoreOp>::empty()) == s);
            lemma_ops_effect_push(s, Seq::<StoreOp>::empty(), o1);
            assert(Seq::<StoreOp>::empty().push(o1) =~= seq![o1]);
            lemma_ops_effect_push(s, seq![o1], o2);
            assert(seq![o1].push(o2) =~= ops@);
        }
    }
    ops
}

/// The store commands for a role delete: drop the record and unmark it.
pub fn plan_role_delete(guild_id: u64, role_id: u64) -> (r: Vec<StoreOp>)
    ensures
        ops_wf(r@),
        forall|s: StoreModel| #[trigger] ops_effect(s, r@) == (StoreModel {
            roles: s.roles.remove(role_id),
            guild_roles: index_remove(s.guild_roles, guild_id, role_id),
            ..s
        }),
{
    let mut ops: Vec<StoreOp> = Vec::new();
    ops.push(StoreOp::RemoveRole(role_id));
    ops.push(StoreOp::RemoveRoleIndex(guild_id, role_id));
    proof {
        let o1 = ops@[0];
        let o2 = ops@[1];
        assert forall|s: StoreModel| #[trigger] ops_effect(s, ops@) == (StoreModel {
            roles: s.roles.remove(role_id),
            guild_roles: index_remove(s.guild_roles, guild_id, role_id),
            ..s
        }) by {
            assert(ops_effect(s, Seq::<StoreOp>::empty()) == s);
            lemma_ops_effect_push(s, Seq::<StoreOp>::empty(), o1);
            assert(Seq::<StoreOp>::empty().push(o1) =~= seq![o1]);
            lemma_ops_effect_push(s, seq![o1], o2);
            assert(seq![o1].push(o2) =~= ops@);
        }
    }
    ops
}

/// The store command for a thread-list synchronization: bulk-write the
/// threads as channel records, untagged and without an index touch.
pub fn plan_thread_list_sync(threads: Vec<CachedChannel>) -> (r: Vec<StoreOp>)
    ensures
        ops_wf(r@),
        forall|s: StoreModel| #[trigger] ops_effect(s, r@) == (StoreModel {
            channels: put_all(s.channels, threads.deep_view()),
            ..s
        }),
{
    let ghost tv = threads.deep_view();
    let mut ops: Vec<StoreOp> = Vec::new();
    ops.push(StoreOp::PutChannels(threads));
    proof {
        assert forall|s: StoreModel| #[trigger] ops_effect(s, ops@) == (StoreModel {
            channels: put_all(s.channels, tv),
            ..s
        }) by {
            assert(ops_effect(s, Seq::<StoreOp>::empty()) == s);
            lemma_ops_effect_push(s, Seq::<StoreOp>::empty(), ops@[0]);
            assert(Seq::<StoreOp>::empty().push(ops@[0]) =~= ops@);
        }
    }
    ops
}

/// The store commands for a message: a stub when it is the first direct
/// message seen on its channel, then the author and every mention.
pub fn plan_message(m: MessageInfo, stub_exists: bool) -> (r: Vec<StoreOp>)
    ensures
        ops_wf(r@),
        forall|s: StoreModel|
            (m.guild_id is None ==> s.channels.dom().contains(m.channel_id) == stub_exists)
                ==> #[trigger] ops_effect(s, r@) == message_effect(s, m),
        r@.len() == (if m.guild_id is None && !stub_exists {
            1int
        } else {
            0int
        }) + 1 + m.mentions@.len(),
{
    let ghost mv = m;
    let MessageInfo { channel_id, guild_id, author, author_member_roles: _, mentions } = m;
    let ghost author_v = author@;
    let mut ops: Vec<StoreOp> = Vec::new();
    let stub = guild_id.is_none() && !stub_exists;
    if stub {
        ops.push(StoreOp::PutChannel(crate::records::stub_channel(channel_id)));
    }
    ops.push(StoreOp::PutUser(author));
    let ghost head_ops = ops@;
    proof {
        assert(ops_wf(head_ops)) by {
            assert forall|i: int| 0 <= i < head_ops.len() implies #[trigger] op_wf(
                head_ops[i],
            ) by {
                if stub {
                    assert(head_ops =~= Seq::<StoreOp>::empty().push(head_ops[0]).push(
                        head_ops[1],
                    ));
                } else {
                    assert(head_ops =~= Seq::<StoreOp>::empty().push(head_ops[0]));
                }
            }
        }
        assert forall|s: StoreModel|
            (mv.guild_id is None ==> s.channels.dom().contains(channel_id) == stub_exists)
                implies #[trigger] ops_effect(s, head_ops) == put_users_effect(
                (if mv.guild_id is None {
                    dm_stub_effect(s, channel_id)
                } else {
                    s
                }),
                seq![author_v] + mv.mentions.deep_view().take(0),
            ) by {
            let s1 = if mv.guild_id is None {
                dm_stub_effect(s, channel_id)
            } else {
                s
            };
            assert(seq![author_v] + mv.mentions.deep_view().take(0) =~= seq![author_v]);
            assert(put_all(s1.users, seq![author_v]) == s1.users.insert(author_v.key(), author_v))
                by {
                crate::model::lemma_put_all_push(s1.users, Seq::<UserModel>::empty(), author_v);
                assert(Seq::<UserModel>::empty().push(author_v) =~= seq![author_v]);
            }
            if stub {
                let o1 = head_ops[0];
                let o2 = head_ops[1];
                assert(ops_effect(s, Seq::<StoreOp>::empty()) == s);
                lemma_ops_effect_push(s, Seq::<StoreOp>::empty(), o1);
                assert(Seq::<StoreOp>::empty().push(o1) =~= seq![o1]);
                lemma_ops_effect_push(s, seq![o1], o2);
                assert(seq![o1].push(o2) =~= head_ops);
                assert(ops_effect(s, head_ops) =~= put_users_effect(s1, seq![author_v]));
            } else {
                let o1 = head_ops[0];
                assert(ops_effect(s, Seq::<StoreOp>::empty()) == s);
                lemma_ops_effect_push(s, Seq::<StoreOp>::empty(), o1);
                assert(Seq::<StoreOp>::empty().push(o1) =~= head_ops);
                assert(s1 == s);
                assert(ops_effect(s, head_ops) =~= put_users_effect(s1, seq![author_v]));
            }
        }
    }
    let ghost mentions_deep = mentions.deep_view();
    let mut rest = mentions;
    let ghost mut k: int = 0;
    proof {
        assert(rest.deep_view() =~= mentions_deep.skip(0));
        assert(mentions_deep == mv.mentions.deep_view());
    }
    while rest.len() > 0
        invariant
            0 <= k <= mentions_deep.len(),
            k + rest.len() == mentions_deep.len(),
            mentions_deep == mv.mentions.deep_view(),
            rest.deep_view() =~= mentions_deep.skip(k),
            ops@.len() == head_ops.len() + k,
            ops_wf(ops@),
            forall|s: StoreModel|
                (mv.guild_id is None ==> s.channels.dom().contains(mv.channel_id) == stub_exists)
                    ==> #[trigger] ops_effect(s, ops@) == put_users_effect(
                    (if mv.guild_id is None {
                        dm_stub_effect(s, mv.channel_id)
                    } else {
                        s
                    }),
                    seq![mv.author@] + mentions_deep.take(k),
                ),
        decreases rest.len(),
    {
        let ghost prev = rest@;
        let ghost prev_deep = rest.deep_view();
        let ghost ops_prev = ops@;
        let u = rest.remove(0);
        proof {
            assert(rest.deep_view() =~= mentions_deep.skip(k + 1)) by {
                assert forall|j: int| 0 <= j < rest.deep_view().len() implies rest.deep_view()[j]
                    == mentions_deep.skip(k + 1)[j] by {
                    assert(rest@[j] == prev[j + 1]);
                    assert(prev_deep[j + 1] == mentions_deep.skip(k)[j + 1]);
                }
            }
            assert(u.deep_view() == mentions_deep[k]) by {
                assert(prev_deep[0] == mentions_deep.skip(k)[0]);
            }
        }
        let ghost uv = u@;
        ops.push(StoreOp::PutUser(u));
        proof {
            assert(ops@ == ops_prev.push(StoreOp::PutUser(u)));
            crate::ops::lemma_ops_wf_push(ops_prev, StoreOp::PutUser(u));
            assert forall|s: StoreModel|
                (mv.guild_id is None ==> s.channels.dom().contains(mv.channel_id) == stub_exists)
                    implies #[trigger] ops_effect(s, ops@) == put_users_effect(
                    (if mv.guild_id is None {
                        dm_stub_effect(s, mv.channel_id)
                    } else {
                        s
                    }),
                    seq![mv.author@] + mentions_deep.take(k + 1),
                ) by {
                let s1 = if mv.guild_id is None {
                    dm_stub_effect(s, mv.channel_id)
                } else {
                    s
                };
                lemma_ops_effect_push(s, ops_prev, StoreOp::PutUser(u));
                let us = seq![mv.author@] + mentions_deep.take(k);
                crate::model::lemma_put_all_push(s1.users, us, uv);
                assert(us.push(uv) =~= seq![mv.author@] + mentions_deep.take(k + 1));
                assert(ops_effect(s, ops@) =~= put_users_effect(s1, us.push(uv)));
            }
            k = k + 1;
        }
    }
    proof {
        assert(mentions_deep.take(k) =~= mentions_deep);
    }
    ops
}

/// The cache synchronizer: owns the projection image and applies one decoded
/// event at a time.
pub struct CacheSynchronizer {
    /// The bot's own user id; self-membership is resolved against it.
    pub own_user_id: u64,
    /// The in-memory image of the cached projection.
    pub store: CacheStore,
}

impl CacheSynchronizer {
    /// A synchronizer over an empty projection.
    pub fn new(own_user_id: u64) -> (r: CacheSynchronizer)
        ensures
            r.own_user_id == own_user_id,
            r.store@ == crate::model::empty_store(),
            r.store@.wf(),
    {
        CacheSynchronizer { own_user_id, store: CacheStore::new() }
    }

    /// Applies one event: resolves the self-membership write first, then
    /// dispatches on the event kind. Fails exactly on the upstream invariant
    /// violations of `event_error`, leaving the projection untouched then.
    pub fn handle_event(&mut self, event: DomainEvent) -> (r: Result<(), CacheError>)
        requires
            old(self).store@.wf(),
        ensures
            final(self).own_user_id == old(self).own_user_id,
            final(self).store@.wf(),
            final(self).store@ == apply_event(
                old(self).store@,
                event,
                old(self).own_user_id,
            ),
            (r is Err) <==> event_error(event, old(self).own_user_id),
            match r {
                Ok(u) => true,
                Err(CacheError::MissingSelfMember) => event is GuildCreate,
                Err(CacheError::MemberWithoutCommunity) => event is MessageCreate,
            },
    {
        let ghost ev = event;
        let ghost s0 = self.store@;
        let ghost own = self.own_user_id;
        let sm = match self_member_action(&event, self.own_user_id) {
            Ok(x) => x,
            Err(e) => {
                return Err(e);
            },
        };
        match sm {
            Some(pair) => {
                self.store.apply_op(StoreOp::PutSelfMember(pair.0, pair.1));
            },
            None => {},
        }
        let ghost s1 = self.store@;
        proof {
            assert(s1 =~= (match self_member_update(ev, own) {
                Some(u) => StoreModel { self_members: s0.self_members.insert(u.0, u.1), ..s0 },
                None => s0,
            }));
        }
        match event {
            DomainEvent::GuildCreate(snap) => {
                let ops = plan_guild_create(snap);
                self.store.apply_ops(ops);
                proof {
                    assert(self.store@ =~= dispatch_effect(s1, ev));
                }
            },
            DomainEvent::GuildUpdate(g) => {
                let ops = plan_guild_update(g);
                self.store.apply_ops(ops);
                proof {
                    assert(self.store@ =~= dispatch_effect(s1, ev));
                }
            },
            DomainEvent::GuildDelete { guild_id } => {
                let ops = plan_guild_delete(guild_id);
                self.store.apply_ops(ops);
                proof {
                    assert(self.store@ =~= dispatch_effect(s1, ev));
                }
            },
            DomainEvent::ChannelCreate(c) => {
                let ops = plan_channel_upsert(c);
                self.store.apply_ops(ops);
                proof {
                    assert(self.store@ =~= dispatch_effect(s1, ev));
                }
            },
            DomainEvent::ChannelUpdate(c) => {
                let ops = plan_channel_upsert(c);
                self.store.apply_ops(ops);
                proof {
                    assert(self.store@ =~= dispatch_effect(s1, ev));
                }
            },
            DomainEvent::ChannelDelete { channel_id } => {
                let ops = plan_remove_channel(channel_id, self.store.get_channel(channel_id));
                self.store.apply_ops(ops);
                proof {
                    assert(self.store@ =~= dispatch_effect(s1, ev));
                }
            },
            DomainEvent::ThreadCreate(c) => {
                let ops = plan_channel_upsert(c);
                self.store.apply_ops(ops);
                proof {
                    assert(self.store@ =~= dispatch_effect(s1, ev));
                }
            },
            DomainEvent::ThreadUpdate(c) => {
                let ops = plan_channel_upsert(c);
                self.store.apply_ops(ops);
                proof {
                    assert(self.store@ =~= dispatch_effect(s1, ev));
                }
            },
            DomainEvent::ThreadDelete { channel_id } => {
                let ops = plan_remove_channel(channel_id, self.store.get_channel(channel_id));
                self.store.apply_ops(ops);
                proof {
                    assert(self.store@ =~= dispatch_effect(s1, ev));
                }
            },
            DomainEvent::ThreadListSync { threads } => {
                let ops = plan_thread_list_sync(threads);
                self.store.apply_ops(ops);
                proof {
                    assert(self.store@ =~= dispatch_effect(s1, ev));
                }
            },
            DomainEvent::RoleCreate { guild_id, role } => {
                let ops = plan_role_upsert(guild_id, role);
                self.store.apply_ops(ops);
                proof {
                    assert(self.store@ =~= dispatch_effect(s1, ev));
                }
            },
            DomainEvent::RoleUpdate { guild_id, role } => {
                let ops = plan_role_upsert(guild_id, role);
                self.store.apply_ops(ops);
                proof {
                    assert(self.store@ =~= dispatch_effect(s1, ev));
                }
            },
            DomainEvent::RoleDelete { guild_id, role_id } => {
                let ops = plan_role_delete(guild_id, role_id);
                self.store.apply_ops(ops);
                proof {
                    assert(self.store@ =~= dispatch_effect(s1, ev));
                }
            },
            DomainEvent::ReactionAdd { channel_id, guild_id } => {
                match guild_id {
                    None => {
                        let exists = self.store.channel_exists(channel_id);
                        let ops = plan_dm_stub(channel_id, exists);
                        self.store.apply_ops(ops);
                        proof {
                            assert(self.store@ =~= dispatch_effect(s1, ev));
                        }
                    },
                    Some(_) => {
                        proof {
                            assert(self.store@ =~= dispatch_effect(s1, ev));
                        }
                    },
                }
            },
            DomainEvent::MessageCreate(m) => {
                let exists = self.store.channel_exists(m.channel_id);
                let ops = plan_message(m, exists);
                self.store.apply_ops(ops);
                proof {
                    assert(self.store@ =~= dispatch_effect(s1, ev));
                }
            },
            DomainEvent::MessageUpdate { channel_id, guild_id } => {
                match guild_id {
                    None => {
                        let exists = self.store.channel_exists(channel_id);
                        let ops = plan_dm_stub(channel_id, exists);
                        self.store.apply_ops(ops);
                        proof {
                            assert(self.store@ =~= dispatch_effect(s1, ev));
                        }
                    },
                    Some(_) => {
                        proof {
                            assert(self.store@ =~= dispatch_effect(s1, ev));
                        }
                    },
                }
            },
            DomainEvent::MessageDelete { channel_id, guild_id } => {
                match guild_id {
                    None => {
                        let exists = self.store.channel_exists(channel_id);
                        let ops = plan_dm_stub(channel_id, exists);
                        self.store.apply_ops(ops);
                        proof {
                            assert(self.store@ =~= dispatch_effect(s1, ev));
                        }
                    },
                    Some(_) => {
                        proof {
                            assert(self.store@ =~= dispatch_effect(s1, ev));
                        }
                    },
                }
            },
            DomainEvent::MessageDeleteBulk { channel_id, guild_id } => {
                match guild_id {
                    None => {
                        let exists = self.store.channel_exists(channel_id);
                        let ops = plan_dm_stub(channel_id, exists);
                        self.store.apply_ops(ops);
                        proof {
                            assert(self.store@ =~= dispatch_effect(s1, ev));
                        }
                    },
                    Some(_) => {
                        proof {
                            assert(self.store@ =~= dispatch_effect(s1, ev));
                        }
                    },
                }
            },
            _ => {
                proof {
                    assert(self.store@ =~= dispatch_effect(s1, ev));
                }
            },
        }
        proof {
            assert(self.store@ == apply_event(s0, ev, own));
        }
        Ok(())
    }
}

} // verus!
