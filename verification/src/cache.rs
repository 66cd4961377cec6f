//! Which message of which channel each server tracks for availability
//! reactions.

use vstd::prelude::*;
use std::collections::HashMap;

verus! {

broadcast use vstd::std_specs::hash::group_hash_axioms;

/// The map that the stored scheduler rows make: each row, a server, its
/// channel and its reaction message, in that order, sets the entry of the
/// server, a later row of the same server replacing an earlier one.
pub open spec fn cache_from_rows(rows: Seq<(i64, i64, i64)>) -> Map<u64, (u64, u64)>
    decreases rows.len(),
{
    if rows.len() == 0 {
        Map::empty()
    } else {
        let last = rows.last();
        cache_from_rows(rows.drop_last()).insert(last.0 as u64, (last.1 as u64, last.2 as u64))
    }
}

/// For each server that ran the setup: the channel of its availability
/// message and that message.
pub struct SchedulerCache {
    pub cache: HashMap<u64, (u64, u64)>,
}

impl View for SchedulerCache {
    type V = Map<u64, (u64, u64)>;

    open spec fn view(&self) -> Map<u64, (u64, u64)> {
        self.cache@
    }
}

impl SchedulerCache {
    /// Builds the cache from the stored rows `(guild_id, channel_id,
    /// react_message_id)`, the identifiers taken as unsigned.
    pub fn new(rows: Vec<(i64, i64, i64)>) -> (cache: SchedulerCache)
        ensures
            cache@ == cache_from_rows(rows@),
    {
        let mut cache: HashMap<u64, (u64, u64)> = HashMap::new();
        let mut i: usize = 0;
        while i < rows.len()
            invariant
                i <= rows.len(),
                cache@ == cache_from_rows(rows@.take(i as int)),
            decreases rows.len() - i,
        {
            let row = rows[i];
            cache.insert(row.0 as u64, (row.1 as u64, row.2 as u64));
            assert(rows@.take(i as int + 1).drop_last() == rows@.take(i as int));
            i = i + 1;
        }
        assert(rows@.take(rows.len() as int) == rows@);
        SchedulerCache { cache }
    }

    /// Leaves the cache as it is.
    pub fn update(&mut self)
        ensures
            final(self)@ == old(self)@,
    {
    }

    /// Starts tracking the availability message `react_message_id` in the
    /// channel `channel_id` for the server `guild_id`, in place of any
    /// message tracked for it before: what a completed setup records.
    pub fn record_setup(&mut self, guild_id: u64, channel_id: u64, react_message_id: u64)
        ensures
            final(self)@ == old(self)@.insert(guild_id, (channel_id, react_message_id)),
    {
        self.cache.insert(guild_id, (channel_id, react_message_id));
    }

    /// The channel and reaction message tracked for the server `guild_id`.
    pub fn get(&self, guild_id: u64) -> (entry: Option<&(u64, u64)>)
        ensures
            match entry {
                Some(e) => self@.contains_key(guild_id) && *e == self@[guild_id],
                None => !self@.contains_key(guild_id),
            },
    {
        self.cache.get(&guild_id)
    }
}

/// A lookup gives back the last stored row of the server: where row `j` is
/// of server `guild_id` and no later row is, the cache holds row `j`'s
/// channel and message for it.
pub proof fn law_lookup_gives_last_row(rows: Seq<(i64, i64, i64)>, guild_id: u64, j: int)
    requires
        0 <= j < rows.len(),
        rows[j].0 as u64 == guild_id,
        forall|k: int| j < k < rows.len() ==> #[trigger] rows[k].0 as u64 != guild_id,
    ensures
        cache_from_rows(rows).contains_key(guild_id),
        cache_from_rows(rows)[guild_id] == (rows[j].1 as u64, rows[j].2 as u64),
    decreases rows.len(),
{
    if j < rows.len() - 1 {
        let shorter = rows.drop_last();
        assert forall|k: int| j < k < shorter.len() implies #[trigger] shorter[k].0 as u64 != guild_id by {
            assert(shorter[k] == rows[k]);
        }
        law_lookup_gives_last_row(shorter, guild_id, j);
        assert(rows[rows.len() - 1].0 as u64 != guild_id);
    }
}

/// A server that no stored row names is not in the cache.
pub proof fn law_unknown_server_is_absent(rows: Seq<(i64, i64, i64)>, guild_id: u64)
    requires
        forall|k: int| 0 <= k < rows.len() ==> #[trigger] rows[k].0 as u64 != guild_id,
    ensures
        !cache_from_rows(rows).contains_key(guild_id),
    decreases rows.len(),
{
    if rows.len() > 0 {
        let shorter = rows.drop_last();
        assert forall|k: int| 0 <= k < shorter.len() implies #[trigger] shorter[k].0 as u64 != guild_id by {
            assert(shorter[k] == rows[k]);
        }
        law_unknown_server_is_absent(shorter, guild_id);
        assert(rows[rows.len() - 1].0 as u64 != guild_id);
    }
}

/// An identifier stored as signed reads back as itself.
proof fn lemma_signed_round_trip(id: u64)
    ensures
        (id as i64) as u64 == id,
{
    assert((id as i64) as u64 == id) by (bit_vector);
}

/// Recording a setup in the running cache gives the cache that reloading
/// from the stored rows gives once the setup's row is stored after them: the
/// two ways of learning of a setup agree.
pub proof fn law_setup_agrees_with_reload(
    rows: Seq<(i64, i64, i64)>,
    guild_id: u64,
    channel_id: u64,
    react_message_id: u64,
)
    ensures
        cache_from_rows(rows.push((guild_id as i64, channel_id as i64, react_message_id as i64)))
            == cache_from_rows(rows).insert(guild_id, (channel_id, react_message_id)),
{
    let row = (guild_id as i64, channel_id as i64, react_message_id as i64);
    assert(rows.push(row).drop_last() =~= rows);
    lemma_signed_round_trip(guild_id);
    lemma_signed_round_trip(channel_id);
    lemma_signed_round_trip(react_message_id);
}

} // verus!
