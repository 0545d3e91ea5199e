//! The crate's cross-cutting guarantees, stated and proved over the event
//! semantics: snapshot idempotence, index consistency after a snapshot, and
//! deletion safety. The admission-fairness bound lives in `admission`, health
//! monotonicity in `health`.

use vstd::prelude::*;

use crate::event::{DomainEvent, GuildSnapshot};
use crate::model::{lemma_put_all_concat, lemma_put_all_idempotent, lemma_seq_keys_concat,
    lemma_seq_keys_contains, put_all, seq_keys, StoreModel};
use crate::sync::{apply_event, apply_events, apply_snapshot, event_error, self_member_update,
    snapshot_channel_ids, snapshot_channels, snapshot_role_ids, tag_channels_model};

verus! {

/// Extending an event history by one event applies that event last.
pub proof fn lemma_apply_events_push(s: StoreModel, es: Seq<DomainEvent>, e: DomainEvent, own: u64)
    ensures
        apply_events(s, es.push(e), own) == apply_event(apply_events(s, es, own), e, own),
    decreases es.len(),
{
    if es.len() == 0 {
        assert(es.push(e)[0] == e);
        assert(apply_events(s, es.push(e), own) == apply_events(
            apply_event(s, e, own),
            es.push(e).drop_first(),
            own,
        ));
        assert(es.push(e).drop_first().len() == 0);
    } else {
        assert(es.push(e)[0] == es[0]);
        assert(es.push(e).drop_first() =~= es.drop_first().push(e));
        lemma_apply_events_push(apply_event(s, es[0], own), es.drop_first(), e, own);
    }
}

/// The normal form of a snapshot's effect, field by field: the community
/// record overwritten, the snapshot's channels and roles written over the
/// tables, and each index left at exactly the snapshot's ids — or absent when
/// the snapshot carries none.
pub proof fn lemma_apply_snapshot_fields(s: StoreModel, snap: GuildSnapshot)
    ensures
        ({
            let gid = snap.guild.id;
            let tch = tag_channels_model(snap.channels.deep_view(), gid);
            let tth = tag_channels_model(snap.threads.deep_view(), gid);
            let rs = snap.roles.deep_view();
            let t = apply_snapshot(s, snap);
            &&& t.guilds == s.guilds.insert(gid, snap.guild@)
            &&& t.channels == put_all(s.channels, tch + tth)
            &&& t.roles == put_all(s.roles, rs)
            &&& t.users == s.users
            &&& t.self_members == s.self_members
            &&& t.guild_channels == (if tch.len() == 0 && tth.len() == 0 {
                s.guild_channels.remove(gid)
            } else {
                s.guild_channels.insert(gid, seq_keys(tch + tth))
            })
            &&& t.guild_roles == (if rs.len() == 0 {
                s.guild_roles.remove(gid)
            } else {
                s.guild_roles.insert(gid, seq_keys(rs))
            })
        }),
{
    let gid = snap.guild.id;
    let tch = tag_channels_model(snap.channels.deep_view(), gid);
    let tth = tag_channels_model(snap.threads.deep_view(), gid);
    let rs = snap.roles.deep_view();
    let t = apply_snapshot(s, snap);

    lemma_put_all_concat(s.channels, tch, tth);
    if tch.len() == 0 {
        assert(tch + tth =~= tth);
    }
    if tth.len() == 0 {
        assert(tch + tth =~= tch);
    }
    assert(t.channels == put_all(s.channels, tch + tth));

    lemma_seq_keys_concat(tch, tth);
    if tch.len() == 0 {
        assert(seq_keys(tch) =~= Set::<u64>::empty()) by {
            assert forall|x: u64| !seq_keys(tch).contains(x) by {
                lemma_seq_keys_contains(tch, x);
            }
        }
    }
    if tth.len() == 0 {
        assert(seq_keys(tth) =~= Set::<u64>::empty()) by {
            assert forall|x: u64| !seq_keys(tth).contains(x) by {
                lemma_seq_keys_contains(tth, x);
            }
        }
    }
    if tch.len() == 0 && tth.len() == 0 {
        assert(t.guild_channels == s.guild_channels.remove(gid));
    } else if tch.len() > 0 && tth.len() == 0 {
        assert(t.guild_channels =~= s.guild_channels.insert(gid, seq_keys(tch + tth))) by {
            assert(Set::<u64>::empty().union(seq_keys(tch)) =~= seq_keys(tch));
            assert(seq_keys(tch + tth) =~= seq_keys(tch));
        }
    } else if tch.len() == 0 && tth.len() > 0 {
        assert(t.guild_channels =~= s.guild_channels.insert(gid, seq_keys(tch + tth))) by {
            assert(Set::<u64>::empty().union(seq_keys(tth)) =~= seq_keys(tth));
            assert(seq_keys(tch + tth) =~= seq_keys(tth));
        }
    } else {
        assert(t.guild_channels =~= s.guild_channels.insert(gid, seq_keys(tch + tth))) by {
            assert(Set::<u64>::empty().union(seq_keys(tch)).union(seq_keys(tth)) =~= seq_keys(
                tch,
            ).union(seq_keys(tth)));
        }
    }

    if rs.len() == 0 {
        assert(t.guild_roles == s.guild_roles.remove(gid));
    } else {
        assert(t.guild_roles =~= s.guild_roles.insert(gid, seq_keys(rs))) by {
            assert(Set::<u64>::empty().union(seq_keys(rs)) =~= seq_keys(rs));
        }
    }
}

/// A snapshot's effect is idempotent: applying it to its own result changes
/// nothing.
pub proof fn lemma_apply_snapshot_idempotent(s: StoreModel, snap: GuildSnapshot)
    ensures
        apply_snapshot(apply_snapshot(s, snap), snap) == apply_snapshot(s, snap),
{
    let gid = snap.guild.id;
    let tch = tag_channels_model(snap.channels.deep_view(), gid);
    let tth = tag_channels_model(snap.threads.deep_view(), gid);
    let rs = snap.roles.deep_view();
    let t = apply_snapshot(s, snap);
    let tt = apply_snapshot(t, snap);
    lemma_apply_snapshot_fields(s, snap);
    lemma_apply_snapshot_fields(t, snap);
    assert(tt.guilds =~= t.guilds);
    assert(tt.channels =~= t.channels) by {
        lemma_put_all_idempotent(s.channels, tch + tth);
    }
    assert(tt.roles =~= t.roles) by {
        lemma_put_all_idempotent(s.roles, rs);
    }
    assert(tt.guild_channels =~= t.guild_channels);
    assert(tt.guild_roles =~= t.guild_roles);
    assert(tt =~= t);
}

/// Idempotence: applying the same full-snapshot event twice yields the state
/// of applying it once — whether or not the snapshot is accepted.
pub proof fn lemma_snapshot_idempotent(s: StoreModel, e: DomainEvent, own: u64)
    requires
        e is GuildCreate,
    ensures
        apply_event(apply_event(s, e, own), e, own) == apply_event(s, e, own),
{
    if !event_error(e, own) {
        let snap = e->GuildCreate_0;
        let u = self_member_update(e, own)->Some_0;
        let s1 = StoreModel { self_members: s.self_members.insert(u.0, u.1), ..s };
        let once = apply_event(s, e, own);
        assert(once == apply_snapshot(s1, e->GuildCreate_0));
        lemma_apply_snapshot_fields(s1, snap);
        assert(once.self_members == s.self_members.insert(u.0, u.1));
        let s1x = StoreModel { self_members: once.self_members.insert(u.0, u.1), ..once };
        assert(s1x.self_members =~= once.self_members);
        assert(s1x =~= once);
        assert(apply_event(once, e, own) == apply_snapshot(once, snap));
        lemma_apply_snapshot_idempotent(s1, snap);
    }
}

/// Index consistency: after any sequence of events ending in an accepted full
/// snapshot of a community, that community's channel and role indices hold
/// exactly the ids the snapshot carried.
pub proof fn lemma_index_consistency(
    s: StoreModel,
    es: Seq<DomainEvent>,
    snap: GuildSnapshot,
    own: u64,
)
    requires
        !event_error(DomainEvent::GuildCreate(snap), own),
    ensures
        ({
            let fin = apply_events(s, es.push(DomainEvent::GuildCreate(snap)), own);
            &&& fin.channel_index(snap.guild.id) == snapshot_channel_ids(snap)
            &&& fin.role_index(snap.guild.id) == snapshot_role_ids(snap)
        }),
{
    let e = DomainEvent::GuildCreate(snap);
    let gid = snap.guild.id;
    let tch = tag_channels_model(snap.channels.deep_view(), gid);
    let tth = tag_channels_model(snap.threads.deep_view(), gid);
    let rs = snap.roles.deep_view();
    lemma_apply_events_push(s, es, e, own);
    let mid = apply_events(s, es, own);
    let fin = apply_event(mid, e, own);
    let u = self_member_update(e, own)->Some_0;
    let s1 = StoreModel { self_members: mid.self_members.insert(u.0, u.1), ..mid };
    assert(fin == apply_snapshot(s1, snap));
    lemma_apply_snapshot_fields(s1, snap);
    lemma_seq_keys_concat(tch, tth);
    assert(snapshot_channels(snap) == tch + tth);
    if tch.len() == 0 && tth.len() == 0 {
        assert(fin.channel_index(gid) =~= snapshot_channel_ids(snap)) by {
            assert forall|x: u64| !seq_keys(tch + tth).contains(x) by {
                lemma_seq_keys_contains(tch + tth, x);
            }
        }
    } else {
        assert(fin.channel_index(gid) == seq_keys(tch + tth));
    }
    if rs.len() == 0 {
        assert(fin.role_index(gid) =~= snapshot_role_ids(snap)) by {
            assert forall|x: u64| !seq_keys(rs).contains(x) by {
                lemma_seq_keys_contains(rs, x);
            }
        }
    } else {
        assert(fin.role_index(gid) == seq_keys(rs));
    }
}

/// Deletion safety for channels: deleting a channel id that was never cached
/// changes nothing, and the event is accepted.
pub proof fn lemma_channel_delete_uncached(s: StoreModel, channel_id: u64, own: u64)
    requires
        !s.channels.dom().contains(channel_id),
    ensures
        !event_error(DomainEvent::ChannelDelete { channel_id }, own),
        apply_event(s, DomainEvent::ChannelDelete { channel_id }, own) == s,
{
}

/// Deletion safety for roles: deleting a role id that was never cached — in
/// the role table or its community's index — changes nothing, and the event
/// is accepted.
pub proof fn lemma_role_delete_uncached(s: StoreModel, guild_id: u64, role_id: u64, own: u64)
    requires
        s.wf(),
        !s.roles.dom().contains(role_id),
        s.guild_roles.dom().contains(guild_id) ==> !s.guild_roles[guild_id].contains(role_id),
    ensures
        !event_error(DomainEvent::RoleDelete { guild_id, role_id }, own),
        apply_event(s, DomainEvent::RoleDelete { guild_id, role_id }, own) == s,
{
    let e = DomainEvent::RoleDelete { guild_id, role_id };
    let t = apply_event(s, e, own);
    assert(t.roles =~= s.roles);
    assert(t.guild_channels == s.guild_channels);
    if s.guild_roles.dom().contains(guild_id) {
        let ns = s.guild_roles[guild_id].remove(role_id);
        assert(ns =~= s.guild_roles[guild_id]);
        assert(!ns.is_empty()) by {
            assert(ns.len() > 0);
            if ns.is_empty() {
                assert(ns =~= Set::<u64>::empty());
                assert(ns.len() == 0) by {
                    assert(Set::<u64>::empty().len() == 0);
                }
            }
        }
        assert(t.guild_roles =~= s.guild_roles);
    } else {
        assert(t.guild_roles == s.guild_roles);
    }
    assert(t =~= s);
}

} // verus!
