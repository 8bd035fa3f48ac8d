//! Classification of voice-state transitions into join events.
//!
//! Only a transition that makes a user newly present and active in a
//! notifiable channel should trigger a fan-out; hopping between active
//! channels, or parking in the guild's AFK channel, must not.

use crate::store::PCData;
use vstd::prelude::*;

verus! {

/// What [`is_join_event`] decides, stated over the store's observations:
/// there must be a destination channel, it must not be marked AFK, and the
/// user must come from nowhere or from an AFK channel.
pub open spec fn spec_is_join_event(
    data: PCData,
    guild: u64,
    old_channel: Option<u64>,
    new_channel: Option<u64>,
) -> bool {
    match new_channel {
        None => false,
        Some(nc) => !data.spec_is_afk(guild, nc) && match old_channel {
            None => true,
            Some(oc) => data.spec_is_afk(guild, oc),
        },
    }
}

/// Decide whether a voice-state transition counts as a join worth
/// announcing, against the guild the destination channel belongs to:
///
/// 1. no destination channel (leaving, disconnecting): never a join;
/// 2. destination marked AFK: never a join;
/// 3. no previous channel (fresh connection): a join;
/// 4. previous channel marked AFK (returning from AFK): a join;
/// 5. otherwise (moving between active channels, or within one): no join.
pub fn is_join_event(
    data: &PCData,
    guild: u64,
    old_channel: Option<u64>,
    new_channel: Option<u64>,
) -> (r: bool)
    requires
        data.wf(),
    ensures
        r == spec_is_join_event(*data, guild, old_channel, new_channel),
{
    let nc: u64 = match new_channel {
        None => {
            return false;
        },
        Some(id) => id,
    };
    if data.is_afk_channel(guild, nc) {
        return false;
    }
    let oc: u64 = match old_channel {
        None => {
            return true;
        },
        Some(id) => id,
    };
    data.is_afk_channel(guild, oc)
}

/// Law: the classifier's truth table, for a guild with an AFK channel `afk`
/// and active (non-AFK) channels `a` and `b`. Every combination of previous
/// and destination channel drawn from {none, afk, a, b} decides as the five
/// rules of [`is_join_event`] state.
pub proof fn lemma_classifier_truth_table(data: PCData, guild: u64, afk: u64, a: u64, b: u64)
    requires
        data.spec_is_afk(guild, afk),
        !data.spec_is_afk(guild, a),
        !data.spec_is_afk(guild, b),
    ensures
        !spec_is_join_event(data, guild, None, None),
        !spec_is_join_event(data, guild, Some(afk), None),
        !spec_is_join_event(data, guild, Some(a), None),
        !spec_is_join_event(data, guild, Some(b), None),
        !spec_is_join_event(data, guild, None, Some(afk)),
        !spec_is_join_event(data, guild, Some(afk), Some(afk)),
        !spec_is_join_event(data, guild, Some(a), Some(afk)),
        !spec_is_join_event(data, guild, Some(b), Some(afk)),
        spec_is_join_event(data, guild, None, Some(a)),
        spec_is_join_event(data, guild, Some(afk), Some(a)),
        !spec_is_join_event(data, guild, Some(a), Some(a)),
        !spec_is_join_event(data, guild, Some(b), Some(a)),
        spec_is_join_event(data, guild, None, Some(b)),
        spec_is_join_event(data, guild, Some(afk), Some(b)),
        !spec_is_join_event(data, guild, Some(a), Some(b)),
        !spec_is_join_event(data, guild, Some(b), Some(b)),
{
}

} // verus!
