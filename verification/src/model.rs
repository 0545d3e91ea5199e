//! The mathematical model of the cached projection.
//!
//! The external store keeps one hash table per entity kind plus two
//! per-community secondary indices. `StoreModel` is that state as mathematics:
//! maps from ids to record models, and sets of ids for the indices. An index
//! key mirrors the store exactly: a hash key that holds no field does not
//! exist, so an index entry is never an empty set.

use vstd::prelude::*;

use crate::records::{ChannelModel, GuildModel, RoleModel, UserModel};

verus! {

/// A record kind the store files under a numeric key of its own.
pub trait Keyed {
    /// The hash-table key this record is written under.
    spec fn key(self) -> u64;
}

impl Keyed for ChannelModel {
    open spec fn key(self) -> u64 {
        self.id
    }
}

impl Keyed for RoleModel {
    open spec fn key(self) -> u64 {
        self.id
    }
}

impl Keyed for UserModel {
    open spec fn key(self) -> u64 {
        self.id
    }
}

/// The whole cached projection, as the store holds it.
#[verifier::ext_equal]
pub ghost struct StoreModel {
    /// Community table: community id to its record.
    pub guilds: Map<u64, GuildModel>,
    /// Channel table: channel id to its record; threads included.
    pub channels: Map<u64, ChannelModel>,
    /// Role table: role id to its record.
    pub roles: Map<u64, RoleModel>,
    /// User table: user id to its record.
    pub users: Map<u64, UserModel>,
    /// Self-membership: community id to the bot's role ids there.
    pub self_members: Map<u64, Seq<u64>>,
    /// Community-to-channel index: community id to the channel ids present.
    pub guild_channels: Map<u64, Set<u64>>,
    /// Community-to-role index.
    pub guild_roles: Map<u64, Set<u64>>,
}

impl StoreModel {
    /// The store never keeps an index key without fields, and every index set
    /// is finite.
    pub open spec fn wf(self) -> bool {
        &&& forall|g: u64|
            self.guild_channels.dom().contains(g) ==> (#[trigger] self.guild_channels[g]).finite()
                && self.guild_channels[g].len() > 0
        &&& forall|g: u64|
            self.guild_roles.dom().contains(g) ==> (#[trigger] self.guild_roles[g]).finite()
                && self.guild_roles[g].len() > 0
    }

    /// The channel ids a community's index currently holds; empty when the
    /// index key is absent.
    pub open spec fn channel_index(self, guild_id: u64) -> Set<u64> {
        if self.guild_channels.dom().contains(guild_id) {
            self.guild_channels[guild_id]
        } else {
            Set::empty()
        }
    }

    /// The role ids a community's index currently holds.
    pub open spec fn role_index(self, guild_id: u64) -> Set<u64> {
        if self.guild_roles.dom().contains(guild_id) {
            self.guild_roles[guild_id]
        } else {
            Set::empty()
        }
    }
}

/// The store as a fresh process finds it in the model used by tests: empty.
pub open spec fn empty_store() -> StoreModel {
    StoreModel {
        guilds: Map::empty(),
        channels: Map::empty(),
        roles: Map::empty(),
        users: Map::empty(),
        self_members: Map::empty(),
        guild_channels: Map::empty(),
        guild_roles: Map::empty(),
    }
}

/// Marks a batch of ids present in one community's index, as a bulk field
/// write on the index's hash key does: the key comes to exist if it did not.
pub open spec fn index_add(idx: Map<u64, Set<u64>>, guild_id: u64, ids: Set<u64>) -> Map<
    u64,
    Set<u64>,
> {
    let cur = if idx.dom().contains(guild_id) {
        idx[guild_id]
    } else {
        Set::empty()
    };
    idx.insert(guild_id, cur.union(ids))
}

/// Removes one id from one community's index, as a field delete on the
/// index's hash key does: a key left without fields ceases to exist.
pub open spec fn index_remove(idx: Map<u64, Set<u64>>, guild_id: u64, id: u64) -> Map<
    u64,
    Set<u64>,
> {
    if !idx.dom().contains(guild_id) {
        idx
    } else {
        let ns = idx[guild_id].remove(id);
        if ns.is_empty() {
            idx.remove(guild_id)
        } else {
            idx.insert(guild_id, ns)
        }
    }
}

/// Lifts a map of executable values to a map of their models.
pub open spec fn map_view<T: View>(m: Map<u64, T>) -> Map<u64, T::V> {
    Map::new(|k: u64| m.dom().contains(k), |k: u64| m[k]@)
}

/// Writes every item of `items`, front to back, each under its own key; a
/// later item with the same key wins.
pub open spec fn put_all<T: Keyed>(m: Map<u64, T>, items: Seq<T>) -> Map<u64, T>
    decreases items.len(),
{
    if items.len() == 0 {
        m
    } else {
        put_all(m.insert(items[0].key(), items[0]), items.drop_first())
    }
}

/// The set of keys a batch of items occupies.
pub open spec fn seq_keys<T: Keyed>(items: Seq<T>) -> Set<u64> {
    items.map_values(|t: T| t.key()).to_set()
}

pub proof fn lemma_seq_keys_contains<T: Keyed>(items: Seq<T>, k: u64)
    ensures
        seq_keys(items).contains(k) <==> exists|i: int|
            0 <= i < items.len() && items[i].key() == k,
{
    let f = |t: T| t.key();
    if seq_keys(items).contains(k) {
        let j = choose|j: int| 0 <= j < items.map_values(f).len() && items.map_values(f)[j] == k;
        assert(items[j].key() == k);
    }
    if exists|i: int| 0 <= i < items.len() && items[i].key() == k {
        let i = choose|i: int| 0 <= i < items.len() && items[i].key() == k;
        assert(items.map_values(f)[i] == k);
        assert(items.map_values(f).contains(k));
    }
}

/// Writing a batch leaves every key outside the batch exactly as it was.
pub proof fn lemma_put_all_frame<T: Keyed>(m: Map<u64, T>, items: Seq<T>, k: u64)
    requires
        !seq_keys(items).contains(k),
    ensures
        put_all(m, items).dom().contains(k) == m.dom().contains(k),
        m.dom().contains(k) ==> put_all(m, items)[k] == m[k],
    decreases items.len(),
{
    lemma_seq_keys_contains(items, k);
    if items.len() > 0 {
        assert(items[0].key() != k);
        lemma_seq_keys_contains(items.drop_first(), k);
        assert forall|i: int| 0 <= i < items.drop_first().len() implies (
        #[trigger] items.drop_first()[i]).key() != k by {
            assert(items.drop_first()[i] == items[i + 1]);
        }
        lemma_put_all_frame(m.insert(items[0].key(), items[0]), items.drop_first(), k);
    }
}

/// On a key the batch occupies, the result does not depend on the prior map.
pub proof fn lemma_put_all_determined<T: Keyed>(m1: Map<u64, T>, m2: Map<u64, T>, items: Seq<T>, k: u64)
    requires
        seq_keys(items).contains(k),
    ensures
        put_all(m1, items).dom().contains(k),
        put_all(m2, items).dom().contains(k),
        put_all(m1, items)[k] == put_all(m2, items)[k],
    decreases items.len(),
{
    lemma_seq_keys_contains(items, k);
    let rest = items.drop_first();
    if seq_keys(rest).contains(k) {
        lemma_put_all_determined(
            m1.insert(items[0].key(), items[0]),
            m2.insert(items[0].key(), items[0]),
            rest,
            k,
        );
    } else {
        lemma_seq_keys_contains(rest, k);
        assert(items[0].key() == k) by {
            let i = choose|i: int| 0 <= i < items.len() && items[i].key() == k;
            if i > 0 {
                assert(rest[i - 1] == items[i]);
            }
        }
        lemma_put_all_frame(m1.insert(k, items[0]), rest, k);
        lemma_put_all_frame(m2.insert(k, items[0]), rest, k);
    }
}

/// The domain after a batch write is the old domain plus the batch's keys.
pub proof fn lemma_put_all_dom<T: Keyed>(m: Map<u64, T>, items: Seq<T>)
    ensures
        put_all(m, items).dom() =~= m.dom().union(seq_keys(items)),
    decreases items.len(),
{
    assert forall|k: u64| #[trigger]
        put_all(m, items).dom().contains(k) == (m.dom().contains(k) || seq_keys(
            items,
        ).contains(k)) by {
        lemma_seq_keys_contains(items, k);
        if seq_keys(items).contains(k) {
            lemma_put_all_determined(m, m, items, k);
        } else {
            lemma_put_all_frame(m, items, k);
        }
    }
}

/// Writing the same batch twice is the same as writing it once.
pub proof fn lemma_put_all_idempotent<T: Keyed>(m: Map<u64, T>, items: Seq<T>)
    ensures
        put_all(put_all(m, items), items) =~= put_all(m, items),
{
    let once = put_all(m, items);
    let twice = put_all(once, items);
    lemma_put_all_dom(m, items);
    lemma_put_all_dom(once, items);
    assert forall|k: u64| #[trigger] twice.dom().contains(k) implies once.dom().contains(k)
        && twice[k] == once[k] by {
        if seq_keys(items).contains(k) {
            lemma_put_all_determined(once, m, items, k);
        } else {
            lemma_put_all_frame(once, items, k);
        }
    }
}

/// A batch written in two pieces is the two pieces written in order.
pub proof fn lemma_put_all_concat<T: Keyed>(m: Map<u64, T>, a: Seq<T>, b: Seq<T>)
    ensures
        put_all(m, a + b) == put_all(put_all(m, a), b),
    decreases a.len(),
{
    if a.len() == 0 {
        assert(a + b =~= b);
    } else {
        assert((a + b)[0] == a[0]);
        assert((a + b).drop_first() =~= a.drop_first() + b);
        lemma_put_all_concat(m.insert(a[0].key(), a[0]), a.drop_first(), b);
    }
}

/// Extending a batch by one item at the back writes that item last.
pub proof fn lemma_put_all_push<T: Keyed>(m: Map<u64, T>, items: Seq<T>, x: T)
    ensures
        put_all(m, items.push(x)) == put_all(m, items).insert(x.key(), x),
{
    assert(items.push(x) =~= items + seq![x]);
    lemma_put_all_concat(m, items, seq![x]);
    let once = put_all(m, items);
    assert(put_all(once, seq![x]) == put_all(once.insert(x.key(), x), seq![x].drop_first()));
    assert(seq![x].drop_first().len() == 0);
}

/// The keys of two concatenated batches are the union of their keys.
pub proof fn lemma_seq_keys_concat<T: Keyed>(a: Seq<T>, b: Seq<T>)
    ensures
        seq_keys(a + b) =~= seq_keys(a).union(seq_keys(b)),
{
    assert forall|k: u64|
        seq_keys(a + b).contains(k) == (seq_keys(a).contains(k) || seq_keys(b).contains(k)) by {
        lemma_seq_keys_contains(a + b, k);
        lemma_seq_keys_contains(a, k);
        lemma_seq_keys_contains(b, k);
        if exists|i: int| 0 <= i < a.len() && a[i].key() == k {
            let i = choose|i: int| 0 <= i < a.len() && a[i].key() == k;
            assert((a + b)[i] == a[i]);
        }
        if exists|i: int| 0 <= i < b.len() && b[i].key() == k {
            let i = choose|i: int| 0 <= i < b.len() && b[i].key() == k;
            assert((a + b)[a.len() + i] == b[i]);
        }
        if exists|i: int| 0 <= i < (a + b).len() && (a + b)[i].key() == k {
            let i = choose|i: int| 0 <= i < (a + b).len() && (a + b)[i].key() == k;
            if i < a.len() {
                assert(a[i] == (a + b)[i]);
            } else {
                assert(b[i - a.len()] == (a + b)[i]);
            }
        }
    }
}

/// Appending one element to a sequence adds it to the sequence's set.
pub proof fn lemma_to_set_push<T>(s: Seq<T>, x: T)
    ensures
        s.push(x).to_set() =~= s.to_set().insert(x),
{
    assert forall|y: T| s.push(x).to_set().contains(y) implies s.to_set().insert(x).contains(
        y,
    ) by {
        let i = choose|i: int| 0 <= i < s.push(x).len() && s.push(x)[i] == y;
        if i < s.len() {
            assert(s[i] == y);
        }
    }
    assert forall|y: T| s.to_set().insert(x).contains(y) implies s.push(x).to_set().contains(
        y,
    ) by {
        if y == x {
            assert(s.push(x)[s.len() as int] == x);
        } else {
            let i = choose|i: int| 0 <= i < s.len() && s[i] == y;
            assert(s.push(x)[i] == y);
        }
    }
}

/// The id set of a non-empty id list is finite and non-empty.
pub proof fn lemma_ids_to_set_nonempty(ids: Seq<u64>)
    requires
        ids.len() > 0,
    ensures
        ids.to_set().finite(),
        ids.to_set().contains(ids[0]),
        ids.to_set().len() > 0,
        !ids.to_set().is_empty(),
    decreases ids.len(),
{
    broadcast use vstd::seq_lib::seq_to_set_is_finite;

    assert(ids.to_set().contains(ids[0]));
    if ids.to_set().len() == 0 {
        ids.to_set().lemma_len0_is_empty();
    }
}

} // verus!
