//! In-memory image of the external store's cached projection.
//!
//! Every table the synchronizer touches lives here as a hash map, with the
//! `StoreModel` of `model` as its mathematical view. `apply_op` runs one store
//! command against this image with exactly the command's modelled effect, so
//! the verified logic, the tests and the binary's command translation all
//! agree on what a command does.

use vstd::prelude::*;

use std::collections::HashMap;
use std::collections::HashSet;

use crate::model::{index_add, index_remove, map_view, put_all, Keyed, StoreModel};
use crate::ops::{lemma_ops_effect_push, op_effect, op_wf, ops_effect, ops_wf, StoreOp};
use crate::records::{CachedChannel, CachedGuild, CachedRole, CachedUser};

verus! {

broadcast use vstd::std_specs::hash::group_hash_axioms;

/// The cached projection, table by table.
pub struct CacheStore {
    guilds: HashMap<u64, CachedGuild>,
    channels: HashMap<u64, CachedChannel>,
    roles: HashMap<u64, CachedRole>,
    users: HashMap<u64, CachedUser>,
    self_members: HashMap<u64, Vec<u64>>,
    guild_channels: HashMap<u64, HashSet<u64>>,
    guild_roles: HashMap<u64, HashSet<u64>>,
}

impl View for CacheStore {
    type V = StoreModel;

    closed spec fn view(&self) -> StoreModel {
        StoreModel {
            guilds: map_view(self.guilds@),
            channels: map_view(self.channels@),
            roles: map_view(self.roles@),
            users: map_view(self.users@),
            self_members: map_view(self.self_members@),
            guild_channels: map_view(self.guild_channels@),
            guild_roles: map_view(self.guild_roles@),
        }
    }
}

impl CacheStore {
    /// An empty projection, as a fresh store holds.
    pub fn new() -> (r: CacheStore)
        ensures
            r@ == crate::model::empty_store(),
            r@.wf(),
    {
        let r = CacheStore {
            guilds: HashMap::new(),
            channels: HashMap::new(),
            roles: HashMap::new(),
            users: HashMap::new(),
            self_members: HashMap::new(),
            guild_channels: HashMap::new(),
            guild_roles: HashMap::new(),
        };
        proof {
            assert(r@.guilds =~= crate::model::empty_store().guilds);
            assert(r@.channels =~= crate::model::empty_store().channels);
            assert(r@.roles =~= crate::model::empty_store().roles);
            assert(r@.users =~= crate::model::empty_store().users);
            assert(r@.self_members =~= crate::model::empty_store().self_members);
            assert(r@.guild_channels =~= crate::model::empty_store().guild_channels);
            assert(r@.guild_roles =~= crate::model::empty_store().guild_roles);
            assert(r@ =~= crate::model::empty_store());
        }
        r
    }

    /// Bulk-writes channel records, later entries winning on a repeated id.
    fn put_channels(&mut self, cs: Vec<CachedChannel>)
        ensures
            final(self)@ == op_effect(old(self)@, StoreOp::PutChannels(cs)),
    {
        let ghost orig = cs.deep_view();
        let ghost m0 = map_view(old(self).channels@);
        let mut rest = cs;
        let ghost mut k: int = 0;
        proof {
            assert(rest.deep_view() =~= orig.skip(0));
            assert(map_view(self.channels@) =~= put_all(m0, orig.take(0)));
        }
        while rest.len() > 0
            invariant
                0 <= k <= orig.len(),
                k + rest.len() == orig.len(),
                rest.deep_view() =~= orig.skip(k),
                map_view(self.channels@) == put_all(m0, orig.take(k)),
                self.guilds == old(self).guilds,
                self.roles == old(self).roles,
                self.users == old(self).users,
                self.self_members == old(self).self_members,
                self.guild_channels == old(self).guild_channels,
                self.guild_roles == old(self).guild_roles,
            decreases rest.len(),
        {
            let ghost prev = rest@;
            let ghost prev_deep = rest.deep_view();
            let c = rest.remove(0);
            proof {
                assert(rest.deep_view() =~= orig.skip(k + 1)) by {
                    assert forall|j: int| 0 <= j < rest.deep_view().len() implies rest.deep_view()[j]
                        == orig.skip(k + 1)[j] by {
                        assert(rest@[j] == prev[j + 1]);
                        assert(prev_deep[j + 1] == orig.skip(k)[j + 1]);
                    }
                }
                assert(c.deep_view() == orig[k]) by {
                    assert(prev_deep[0] == orig.skip(k)[0]);
                }
            }
            let ghost before = map_view(self.channels@);
            self.channels.insert(c.id, c);
            proof {
                assert(map_view(self.channels@) =~= before.insert(c.id, c@));
                crate::model::lemma_put_all_push(m0, orig.take(k), orig[k]);
                assert(orig.take(k).push(orig[k]) =~= orig.take(k + 1));
                assert(c@ == orig[k]);
                assert(orig[k].key() == orig[k].id);
                k = k + 1;
            }
        }
        proof {
            assert(orig.take(k) =~= orig);
        }
    }

    /// Bulk-writes role records.
    fn put_roles(&mut self, rs: Vec<CachedRole>)
        ensures
            final(self)@ == op_effect(old(self)@, StoreOp::PutRoles(rs)),
    {
        let ghost orig = rs.deep_view();
        let ghost m0 = map_view(old(self).roles@);
        let mut rest = rs;
        let ghost mut k: int = 0;
        proof {
            assert(rest.deep_view() =~= orig.skip(0));
            assert(map_view(self.roles@) =~= put_all(m0, orig.take(0)));
        }
        while rest.len() > 0
            invariant
                0 <= k <= orig.len(),
                k + rest.len() == orig.len(),
                rest.deep_view() =~= orig.skip(k),
                map_view(self.roles@) == put_all(m0, orig.take(k)),
                self.guilds == old(self).guilds,
                self.channels == old(self).channels,
                self.users == old(self).users,
                self.self_members == old(self).self_members,
                self.guild_channels == old(self).guild_channels,
                self.guild_roles == old(self).guild_roles,
            decreases rest.len(),
        {
            let ghost prev = rest@;
            let ghost prev_deep = rest.deep_view();
            let r = rest.remove(0);
            proof {
                assert(rest.deep_view() =~= orig.skip(k + 1)) by {
                    assert forall|j: int| 0 <= j < rest.deep_view().len() implies rest.deep_view()[j]
                        == orig.skip(k + 1)[j] by {
                        assert(rest@[j] == prev[j + 1]);
                        assert(prev_deep[j + 1] == orig.skip(k)[j + 1]);
                    }
                }
                assert(r.deep_view() == orig[k]) by {
                    assert(prev_deep[0] == orig.skip(k)[0]);
                }
            }
            let ghost before = map_view(self.roles@);
            self.roles.insert(r.id, r);
            proof {
                assert(map_view(self.roles@) =~= before.insert(r.id, r@));
                crate::model::lemma_put_all_push(m0, orig.take(k), orig[k]);
                assert(orig.take(k).push(orig[k]) =~= orig.take(k + 1));
                assert(r@ == orig[k]);
                assert(orig[k].key() == orig[k].id);
                k = k + 1;
            }
        }
        proof {
            assert(orig.take(k) =~= orig);
        }
    }

    /// Marks ids present in one community index.
    fn index_add_ids(idx: &mut HashMap<u64, HashSet<u64>>, guild_id: u64, ids: Vec<u64>)
        requires
            ids@.len() > 0,
            forall|g: u64| old(idx)@.dom().contains(g) ==> (#[trigger] old(idx)@[g]@).finite()
                && old(idx)@[g]@.len() > 0,
        ensures
            map_view(final(idx)@) == index_add(map_view(old(idx)@), guild_id, ids@.to_set()),
            forall|g: u64| final(idx)@.dom().contains(g) ==> (#[trigger] final(idx)@[g]@).finite()
                && final(idx)@[g]@.len() > 0,
    {
        let ghost cur = if map_view(old(idx)@).dom().contains(guild_id) {
            map_view(old(idx)@)[guild_id]
        } else {
            Set::<u64>::empty()
        };
        let mut set: HashSet<u64> = match idx.remove(&guild_id) {
            Some(s) => s,
            None => HashSet::new(),
        };
        assert(set@ =~= cur.union(ids@.take(0).to_set())) by {
            assert(ids@.take(0).to_set() =~= Set::<u64>::empty());
        }
        let mut i: usize = 0;
        while i < ids.len()
            invariant
                0 <= i <= ids@.len(),
                set@ == cur.union(ids@.take(i as int).to_set()),
                idx@ == old(idx)@.remove(guild_id),
                forall|g: u64| idx@.dom().contains(g) ==> (#[trigger] idx@[g]@).finite()
                    && idx@[g]@.len() > 0,
            decreases ids@.len() - i,
        {
            let ghost before = set@;
            set.insert(ids[i]);
            proof {
                crate::model::lemma_to_set_push(ids@.take(i as int), ids@[i as int]);
                assert(ids@.take(i as int).push(ids@[i as int]) =~= ids@.take(i as int + 1));
                assert(set@ =~= cur.union(ids@.take(i as int + 1).to_set()));
            }
            i = i + 1;
        }
        proof {
            assert(ids@.take(ids@.len() as int) =~= ids@);
            assert(set@ == cur.union(ids@.to_set()));
            assert(set@.finite() && set@.len() > 0) by {
                crate::model::lemma_ids_to_set_nonempty(ids@);
                assert(cur.finite()) by {
                    if map_view(old(idx)@).dom().contains(guild_id) {
                        assert(old(idx)@[guild_id]@.finite());
                    }
                }
                assert(set@.contains(ids@[0]));
                if set@.len() == 0 {
                    set@.lemma_len0_is_empty();
                }
            }
        }
        let ghost before_ins = idx@;
        idx.insert(guild_id, set);
        proof {
            assert(map_view(idx@) =~= index_add(map_view(old(idx)@), guild_id, ids@.to_set())) by {
                assert(idx@ == before_ins.insert(guild_id, set));
                assert forall|g: u64|
                    map_view(idx@).dom().contains(g) == index_add(
                        map_view(old(idx)@),
                        guild_id,
                        ids@.to_set(),
                    ).dom().contains(g) by {}
            }
        }
    }

    /// Drops one id from one community index, dropping the key when it is the
    /// last one.
    fn index_remove_id(idx: &mut HashMap<u64, HashSet<u64>>, guild_id: u64, id: u64)
        requires
            forall|g: u64| old(idx)@.dom().contains(g) ==> (#[trigger] old(idx)@[g]@).finite()
                && old(idx)@[g]@.len() > 0,
        ensures
            map_view(final(idx)@) == index_remove(map_view(old(idx)@), guild_id, id),
            forall|g: u64| final(idx)@.dom().contains(g) ==> (#[trigger] final(idx)@[g]@).finite()
                && final(idx)@[g]@.len() > 0,
    {
        match idx.remove(&guild_id) {
            None => {
                proof {
                    assert(idx@ =~= old(idx)@);
                    assert(map_view(idx@) =~= index_remove(map_view(old(idx)@), guild_id, id));
                }
            },
            Some(mut set) => {
                let ghost cur = old(idx)@[guild_id]@;
                set.remove(&id);
                assert(set@ == cur.remove(id));
                if set.is_empty() {
                    proof {
                        set@.lemma_len0_is_empty();
                        assert(cur.remove(id).is_empty());
                        assert(map_view(idx@) =~= index_remove(
                            map_view(old(idx)@),
                            guild_id,
                            id,
                        ));
                    }
                } else {
                    proof {
                        assert(set@.len() > 0);
                        assert(!cur.remove(id).is_empty()) by {
                            if cur.remove(id).is_empty() {
                                assert(cur.remove(id).len() == 0);
                            }
                        }
                    }
                    let ghost before_ins = idx@;
                    idx.insert(guild_id, set);
                    proof {
                        assert(map_view(idx@) =~= index_remove(
                            map_view(old(idx)@),
                            guild_id,
                            id,
                        ));
                    }
                }
            },
        }
    }

    /// Runs one store command against the projection.
    pub fn apply_op(&mut self, op: StoreOp)
        requires
            old(self)@.wf(),
            op_wf(op),
        ensures
            final(self)@ == op_effect(old(self)@, op),
            final(self)@.wf(),
    {
        match op {
            StoreOp::PutGuild(g) => {
                let ghost before = map_view(self.guilds@);
                let ghost gid = g.id;
                let ghost gv = g@;
                self.guilds.insert(g.id, g);
                proof {
                    assert(map_view(self.guilds@) =~= before.insert(gid, gv));
                    assert(self@ =~= op_effect(old(self)@, op));
                }
            },
            StoreOp::RemoveGuild(gid) => {
                self.guilds.remove(&gid);
                proof {
                    assert(map_view(self.guilds@) =~= map_view(old(self).guilds@).remove(gid));
                    assert(self@ =~= op_effect(old(self)@, op));
                }
            },
            StoreOp::PutChannels(cs) => {
                self.put_channels(cs);
            },
            StoreOp::PutChannel(c) => {
                let ghost before = map_view(self.channels@);
                let ghost cid = c.id;
                let ghost cv = c@;
                self.channels.insert(c.id, c);
                proof {
                    assert(map_view(self.channels@) =~= before.insert(cid, cv));
                    assert(self@ =~= op_effect(old(self)@, op));
                }
            },
            StoreOp::RemoveChannel(id) => {
                self.channels.remove(&id);
                proof {
                    assert(map_view(self.channels@) =~= map_view(old(self).channels@).remove(id));
                    assert(self@ =~= op_effect(old(self)@, op));
                }
            },
            StoreOp::PutRoles(rs) => {
                self.put_roles(rs);
            },
            StoreOp::PutRole(r) => {
                let ghost before = map_view(self.roles@);
                let ghost rid = r.id;
                let ghost rv = r@;
                self.roles.insert(r.id, r);
                proof {
                    assert(map_view(self.roles@) =~= before.insert(rid, rv));
                    assert(self@ =~= op_effect(old(self)@, op));
                }
            },
            StoreOp::RemoveRole(id) => {
                self.roles.remove(&id);
                proof {
                    assert(map_view(self.roles@) =~= map_view(old(self).roles@).remove(id));
                    assert(self@ =~= op_effect(old(self)@, op));
                }
            },
            StoreOp::PutUser(u) => {
                let ghost before = map_view(self.users@);
                let ghost uid = u.id;
                let ghost uv = u@;
                self.users.insert(u.id, u);
                proof {
                    assert(map_view(self.users@) =~= before.insert(uid, uv));
                    assert(self@ =~= op_effect(old(self)@, op));
                }
            },
            StoreOp::PutSelfMember(gid, roles) => {
                let ghost before = map_view(self.self_members@);
                let ghost rv = roles@;
                self.self_members.insert(gid, roles);
                proof {
                    assert(map_view(self.self_members@) =~= before.insert(gid, rv));
                    assert(self@ =~= op_effect(old(self)@, op));
                }
            },
            StoreOp::AddChannelIndex(gid, ids) => {
                proof {
                    assert forall|g: u64| self.guild_channels@.dom().contains(g) implies (
                    #[trigger] self.guild_channels@[g]@).finite()
                        && self.guild_channels@[g]@.len() > 0 by {
                        assert(self@.guild_channels.dom().contains(g));
                        assert(self@.guild_channels[g] == self.guild_channels@[g]@);
                    }
                }
                Self::index_add_ids(&mut self.guild_channels, gid, ids);
                proof {
                    assert(self@ =~= op_effect(old(self)@, op));
                }
            },
            StoreOp::RemoveChannelIndex(gid, id) => {
                proof {
                    assert forall|g: u64| self.guild_channels@.dom().contains(g) implies (
                    #[trigger] self.guild_channels@[g]@).finite()
                        && self.guild_channels@[g]@.len() > 0 by {
                        assert(self@.guild_channels.dom().contains(g));
                        assert(self@.guild_channels[g] == self.guild_channels@[g]@);
                    }
                }
                Self::index_remove_id(&mut self.guild_channels, gid, id);
                proof {
                    assert(self@ =~= op_effect(old(self)@, op));
                }
            },
            StoreOp::ClearChannelIndex(gid) => {
                self.guild_channels.remove(&gid);
                proof {
                    assert(map_view(self.guild_channels@) =~= map_view(
                        old(self).guild_channels@,
                    ).remove(gid));
                    assert(self@ =~= op_effect(old(self)@, op));
                }
            },
            StoreOp::AddRoleIndex(gid, ids) => {
                proof {
                    assert forall|g: u64| self.guild_roles@.dom().contains(g) implies (
                    #[trigger] self.guild_roles@[g]@).finite()
                        && self.guild_roles@[g]@.len() > 0 by {
                        assert(self@.guild_roles.dom().contains(g));
                        assert(self@.guild_roles[g] == self.guild_roles@[g]@);
                    }
                }
                Self::index_add_ids(&mut self.guild_roles, gid, ids);
                proof {
                    assert(self@ =~= op_effect(old(self)@, op));
                }
            },
            StoreOp::RemoveRoleIndex(gid, id) => {
                proof {
                    assert forall|g: u64| self.guild_roles@.dom().contains(g) implies (
                    #[trigger] self.guild_roles@[g]@).finite()
                        && self.guild_roles@[g]@.len() > 0 by {
                        assert(self@.guild_roles.dom().contains(g));
                        assert(self@.guild_roles[g] == self.guild_roles@[g]@);
                    }
                }
                Self::index_remove_id(&mut self.guild_roles, gid, id);
                proof {
                    assert(self@ =~= op_effect(old(self)@, op));
                }
            },
            StoreOp::ClearRoleIndex(gid) => {
                self.guild_roles.remove(&gid);
                proof {
                    assert(map_view(self.guild_roles@) =~= map_view(
                        old(self).guild_roles@,
                    ).remove(gid));
                    assert(self@ =~= op_effect(old(self)@, op));
                }
            },
        }
    }

    /// Runs a list of store commands front to back.
    pub fn apply_ops(&mut self, ops: Vec<StoreOp>)
        requires
            old(self)@.wf(),
            ops_wf(ops@),
        ensures
            final(self)@ == ops_effect(old(self)@, ops@),
            final(self)@.wf(),
    {
        let ghost orig = ops@;
        let ghost s0 = old(self)@;
        let mut rest = ops;
        let ghost mut k: int = 0;
        proof {
            assert(rest@ =~= orig.skip(0));
            assert(self@ == ops_effect(s0, orig.take(0)));
        }
        while rest.len() > 0
            invariant
                0 <= k <= orig.len(),
                k + rest.len() == orig.len(),
                rest@ =~= orig.skip(k),
                ops_wf(orig),
                self@ == ops_effect(s0, orig.take(k)),
                self@.wf(),
            decreases rest.len(),
        {
            let ghost prev = rest@;
            let op = rest.remove(0);
            proof {
                assert(op == orig.skip(k)[0]);
                assert(op == orig[k]);
                assert(op_wf(orig[k]));
                assert(rest@ =~= orig.skip(k + 1)) by {
                    assert(prev.remove(0) =~= orig.skip(k).drop_first());
                    assert(orig.skip(k).drop_first() =~= orig.skip(k + 1));
                }
            }
            self.apply_op(op);
            proof {
                lemma_ops_effect_push(s0, orig.take(k), orig[k]);
                assert(orig.take(k).push(orig[k]) =~= orig.take(k + 1));
                k = k + 1;
            }
        }
        proof {
            assert(orig.take(k) =~= orig);
        }
    }

    /// Looks a channel record up, as a field read on the channel table.
    pub fn get_channel(&self, id: u64) -> (r: Option<&CachedChannel>)
        ensures
            match r {
                Some(c) => self@.channels.dom().contains(id) && c@ == self@.channels[id],
                None => !self@.channels.dom().contains(id),
            },
    {
        self.channels.get(&id)
    }

    /// Whether a channel record exists, as a field-existence probe.
    pub fn channel_exists(&self, id: u64) -> (r: bool)
        ensures
            r == self@.channels.dom().contains(id),
    {
        self.channels.contains_key(&id)
    }

    /// Looks a community record up.
    pub fn get_guild(&self, id: u64) -> (r: Option<&CachedGuild>)
        ensures
            match r {
                Some(g) => self@.guilds.dom().contains(id) && g@ == self@.guilds[id],
                None => !self@.guilds.dom().contains(id),
            },
    {
        self.guilds.get(&id)
    }

    /// Looks a role record up.
    pub fn get_role(&self, id: u64) -> (r: Option<&CachedRole>)
        ensures
            match r {
                Some(x) => self@.roles.dom().contains(id) && x@ == self@.roles[id],
                None => !self@.roles.dom().contains(id),
            },
    {
        self.roles.get(&id)
    }

    /// Looks a user record up.
    pub fn get_user(&self, id: u64) -> (r: Option<&CachedUser>)
        ensures
            match r {
                Some(x) => self@.users.dom().contains(id) && x@ == self@.users[id],
                None => !self@.users.dom().contains(id),
            },
    {
        self.users.get(&id)
    }

    /// The bot's cached role ids for one community.
    pub fn get_self_member(&self, guild_id: u64) -> (r: Option<&Vec<u64>>)
        ensures
            match r {
                Some(x) => self@.self_members.dom().contains(guild_id) && x@
                    == self@.self_members[guild_id],
                None => !self@.self_members.dom().contains(guild_id),
            },
    {
        self.self_members.get(&guild_id)
    }

    /// Whether a community's channel-index key exists in the store.
    pub fn channel_index_exists(&self, guild_id: u64) -> (r: bool)
        ensures
            r == self@.guild_channels.dom().contains(guild_id),
    {
        self.guild_channels.contains_key(&guild_id)
    }

    /// Whether the channel index of a community holds a channel id.
    pub fn channel_index_contains(&self, guild_id: u64, channel_id: u64) -> (r: bool)
        ensures
            r == self@.channel_index(guild_id).contains(channel_id),
    {
        match self.guild_channels.get(&guild_id) {
            Some(s) => s.contains(&channel_id),
            None => false,
        }
    }

    /// How many channel ids a community's index holds.
    pub fn channel_index_len(&self, guild_id: u64) -> (r: usize)
        ensures
            r == self@.channel_index(guild_id).len(),
    {
        match self.guild_channels.get(&guild_id) {
            Some(s) => s.len(),
            None => {
                proof {
                    assert(self@.channel_index(guild_id) =~= Set::<u64>::empty());
                }
                0
            },
        }
    }

    /// Whether a community's role-index key exists in the store.
    pub fn role_index_exists(&self, guild_id: u64) -> (r: bool)
        ensures
            r == self@.guild_roles.dom().contains(guild_id),
    {
        self.guild_roles.contains_key(&guild_id)
    }

    /// Whether the role index of a community holds a role id.
    pub fn role_index_contains(&self, guild_id: u64, role_id: u64) -> (r: bool)
        ensures
            r == self@.role_index(guild_id).contains(role_id),
    {
        match self.guild_roles.get(&guild_id) {
            Some(s) => s.contains(&role_id),
            None => false,
        }
    }

    /// How many role ids a community's index holds.
    pub fn role_index_len(&self, guild_id: u64) -> (r: usize)
        ensures
            r == self@.role_index(guild_id).len(),
    {
        match self.guild_roles.get(&guild_id) {
            Some(s) => s.len(),
            None => {
                proof {
                    assert(self@.role_index(guild_id) =~= Set::<u64>::empty());
                }
                0
            },
        }
    }
}

} // verus!
