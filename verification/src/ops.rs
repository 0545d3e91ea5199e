//! The bounded store operations one event reduces to.
//!
//! The synchronizer turns each event into a short list of `StoreOp`s; each
//! variant corresponds to exactly one command against the external store (a
//! field write or delete in a hash table, a bulk field write, or a whole-key
//! delete). The unverified binary translates the list one-for-one into store
//! commands; the verified store model applies the same list in memory, so
//! everything proved of the model holds of what the binary sends.

use vstd::prelude::*;

use crate::model::{index_add, index_remove, put_all, StoreModel};
use crate::records::{CachedChannel, CachedGuild, CachedRole, CachedUser};

verus! {

/// One command against the external store.
pub enum StoreOp {
    /// Write a community record.
    PutGuild(CachedGuild),
    /// Delete a community record.
    RemoveGuild(u64),
    /// Bulk-write channel records.
    PutChannels(Vec<CachedChannel>),
    /// Write one channel record.
    PutChannel(CachedChannel),
    /// Delete one channel record.
    RemoveChannel(u64),
    /// Bulk-write role records.
    PutRoles(Vec<CachedRole>),
    /// Write one role record.
    PutRole(CachedRole),
    /// Delete one role record.
    RemoveRole(u64),
    /// Write one user record.
    PutUser(CachedUser),
    /// Overwrite the bot's membership record for a community.
    PutSelfMember(u64, Vec<u64>),
    /// Mark channel ids present in a community's channel index.
    AddChannelIndex(u64, Vec<u64>),
    /// Drop one channel id from a community's channel index.
    RemoveChannelIndex(u64, u64),
    /// Drop a community's whole channel index key.
    ClearChannelIndex(u64),
    /// Mark role ids present in a community's role index.
    AddRoleIndex(u64, Vec<u64>),
    /// Drop one role id from a community's role index.
    RemoveRoleIndex(u64, u64),
    /// Drop a community's whole role index key.
    ClearRoleIndex(u64),
}

/// A bulk index write must carry at least one id: the store cannot hold a
/// hash key without fields, and the synchronizer never asks it to.
pub open spec fn op_wf(op: StoreOp) -> bool {
    match op {
        StoreOp::AddChannelIndex(_, ids) => ids@.len() > 0,
        StoreOp::AddRoleIndex(_, ids) => ids@.len() > 0,
        _ => true,
    }
}

pub open spec fn ops_wf(ops: Seq<StoreOp>) -> bool {
    forall|i: int| 0 <= i < ops.len() ==> #[trigger] op_wf(ops[i])
}

/// What one store command does to the cached projection.
pub open spec fn op_effect(s: StoreModel, op: StoreOp) -> StoreModel {
    match op {
        StoreOp::PutGuild(g) => StoreModel { guilds: s.guilds.insert(g.id, g@), ..s },
        StoreOp::RemoveGuild(gid) => StoreModel { guilds: s.guilds.remove(gid), ..s },
        StoreOp::PutChannels(cs) => StoreModel { channels: put_all(s.channels, cs.deep_view()), ..s },
        StoreOp::PutChannel(c) => StoreModel { channels: s.channels.insert(c.id, c@), ..s },
        StoreOp::RemoveChannel(id) => StoreModel { channels: s.channels.remove(id), ..s },
        StoreOp::PutRoles(rs) => StoreModel { roles: put_all(s.roles, rs.deep_view()), ..s },
        StoreOp::PutRole(r) => StoreModel { roles: s.roles.insert(r.id, r@), ..s },
        StoreOp::RemoveRole(id) => StoreModel { roles: s.roles.remove(id), ..s },
        StoreOp::PutUser(u) => StoreModel { users: s.users.insert(u.id, u@), ..s },
        StoreOp::PutSelfMember(gid, roles) => StoreModel {
            self_members: s.self_members.insert(gid, roles@),
            ..s
        },
        StoreOp::AddChannelIndex(gid, ids) => StoreModel {
            guild_channels: index_add(s.guild_channels, gid, ids@.to_set()),
            ..s
        },
        StoreOp::RemoveChannelIndex(gid, id) => StoreModel {
            guild_channels: index_remove(s.guild_channels, gid, id),
            ..s
        },
        StoreOp::ClearChannelIndex(gid) => StoreModel {
            guild_channels: s.guild_channels.remove(gid),
            ..s
        },
        StoreOp::AddRoleIndex(gid, ids) => StoreModel {
            guild_roles: index_add(s.guild_roles, gid, ids@.to_set()),
            ..s
        },
        StoreOp::RemoveRoleIndex(gid, id) => StoreModel {
            guild_roles: index_remove(s.guild_roles, gid, id),
            ..s
        },
        StoreOp::ClearRoleIndex(gid) => StoreModel { guild_roles: s.guild_roles.remove(gid), ..s },
    }
}

/// What a list of store commands, run front to back, does.
pub open spec fn ops_effect(s: StoreModel, ops: Seq<StoreOp>) -> StoreModel
    decreases ops.len(),
{
    if ops.len() == 0 {
        s
    } else {
        ops_effect(op_effect(s, ops[0]), ops.drop_first())
    }
}

pub proof fn lemma_ops_wf_push(ops: Seq<StoreOp>, op: StoreOp)
    requires
        ops_wf(ops),
        op_wf(op),
    ensures
        ops_wf(ops.push(op)),
{
    assert forall|i: int| 0 <= i < ops.push(op).len() implies #[trigger] op_wf(ops.push(op)[i]) by {
        if i < ops.len() {
            assert(ops.push(op)[i] == ops[i]);
        }
    }
}

pub proof fn lemma_ops_wf_concat(a: Seq<StoreOp>, b: Seq<StoreOp>)
    requires
        ops_wf(a),
        ops_wf(b),
    ensures
        ops_wf(a + b),
{
    assert forall|i: int| 0 <= i < (a + b).len() implies #[trigger] op_wf((a + b)[i]) by {
        if i < a.len() {
            assert((a + b)[i] == a[i]);
        } else {
            assert((a + b)[i] == b[i - a.len()]);
        }
    }
}

/// Commands run in two bursts are the concatenated list run once.
pub proof fn lemma_ops_effect_concat(s: StoreModel, a: Seq<StoreOp>, b: Seq<StoreOp>)
    ensures
        ops_effect(s, a + b) == ops_effect(ops_effect(s, a), b),
    decreases a.len(),
{
    if a.len() == 0 {
        assert(a + b =~= b);
    } else {
        assert((a + b)[0] == a[0]);
        assert((a + b).drop_first() =~= a.drop_first() + b);
        lemma_ops_effect_concat(op_effect(s, a[0]), a.drop_first(), b);
    }
}

/// Appending one command runs it after the rest.
pub proof fn lemma_ops_effect_push(s: StoreModel, ops: Seq<StoreOp>, op: StoreOp)
    ensures
        ops_effect(s, ops.push(op)) == op_effect(ops_effect(s, ops), op),
{
    assert(ops.push(op) =~= ops + seq![op]);
    lemma_ops_effect_concat(s, ops, seq![op]);
    let once = ops_effect(s, ops);
    assert(ops_effect(once, seq![op]) == ops_effect(op_effect(once, op), seq![op].drop_first()));
    assert(seq![op].drop_first().len() == 0);
}

} // verus!
