//! Fan-out rules: which subscribers are told about a join, and the message
//! texts.
//!
//! The caller resolves the platform's live state into plain snapshots — the
//! destination channel's member list, the guild's presence map, and one
//! entry per voice channel of the guild — and carries the answers back out
//! as private messages.

use crate::store::PCData;
use vstd::prelude::*;
use vstd::string::StringExecFns;

verus! {

/// A platform-reported availability state for a user.
#[derive(Debug, Clone, Copy, PartialEq, Eq, Structural)]
pub enum PresenceStatus {
    Online,
    Idle,
    DoNotDisturb,
    Invisible,
    Offline,
    /// Any status the platform reports that the rules do not recognize.
    Unknown,
}

/// One entry of a guild's presence snapshot: a user and their status. A
/// snapshot is a map, so each user appears at most once.
#[derive(Debug, Clone, Copy, PartialEq, Eq, Structural)]
pub struct PresenceEntry {
    pub user: u64,
    pub status: PresenceStatus,
}

/// A snapshot of one voice channel of the guild: its id, whether it counts
/// as the guild's AFK channel, and the users currently in it.
#[derive(Debug, Clone)]
pub struct VoiceChannelSnapshot {
    pub id: u64,
    pub afk: bool,
    pub members: Vec<u64>,
}

/// A status lets its user be notified exactly when it is Online or Idle.
pub open spec fn status_eligible(status: PresenceStatus) -> bool {
    match status {
        PresenceStatus::Online => true,
        PresenceStatus::Idle => true,
        _ => false,
    }
}

/// The snapshot has an entry for the user whose status allows notification.
pub open spec fn presence_eligible(presences: Seq<PresenceEntry>, user: u64) -> bool {
    exists|i: int|
        0 <= i < presences.len() && (#[trigger] presences[i]).user == user && status_eligible(
            presences[i].status,
        )
}

/// The user is in some voice channel of the guild that is not the AFK
/// channel — "already active elsewhere". An AFK-parked user does not count.
pub open spec fn busy_in_other_channel(channels: Seq<VoiceChannelSnapshot>, user: u64) -> bool {
    exists|i: int|
        0 <= i < channels.len() && !(#[trigger] channels[i]).afk && channels[i].members@.contains(
            user,
        )
}

/// A subscribed candidate receives a notification exactly when they are not
/// the joiner themselves, not already in the destination channel, not active
/// in another non-AFK voice channel of the guild, and present with an
/// eligible status.
pub open spec fn spec_eligible(
    candidate: u64,
    joiner: u64,
    members: Seq<u64>,
    presences: Seq<PresenceEntry>,
    channels: Seq<VoiceChannelSnapshot>,
) -> bool {
    &&& candidate != joiner
    &&& !members.contains(candidate)
    &&& !busy_in_other_channel(channels, candidate)
    &&& presence_eligible(presences, candidate)
}

/// Whether the status lets its user be notified.
pub fn status_allows(status: PresenceStatus) -> (r: bool)
    ensures
        r == status_eligible(status),
{
    match status {
        PresenceStatus::Online => true,
        PresenceStatus::Idle => true,
        _ => false,
    }
}

/// Whether the id occurs in the list.
fn member_of(v: &Vec<u64>, x: u64) -> (r: bool)
    ensures
        r == v@.contains(x),
{
    let mut i: usize = 0;
    while i < v.len()
        invariant
            i <= v@.len(),
            forall|j: int| 0 <= j < i ==> v@[j] != x,
        decreases v@.len() - i,
    {
        if v[i] == x {
            return true;
        }
        i = i + 1;
    }
    proof {
        assert(!v@.contains(x));
    }
    false
}

/// Whether the user is in some non-AFK voice channel of the snapshot.
fn busy_elsewhere(channels: &Vec<VoiceChannelSnapshot>, user: u64) -> (r: bool)
    ensures
        r == busy_in_other_channel(channels@, user),
{
    let mut i: usize = 0;
    while i < channels.len()
        invariant
            i <= channels@.len(),
            forall|j: int|
                0 <= j < i ==> ((#[trigger] channels@[j]).afk || !channels@[j].members@.contains(
                    user,
                )),
        decreases channels@.len() - i,
    {
        if !channels[i].afk {
            if member_of(&channels[i].members, user) {
                return true;
            }
        }
        i = i + 1;
    }
    false
}

/// Whether the snapshot holds an entry for the user whose status allows
/// notification.
fn presence_allows(presences: &Vec<PresenceEntry>, user: u64) -> (r: bool)
    requires
        forall|i: int, j: int|
            #![trigger presences@[i], presences@[j]]
            0 <= i < j < presences@.len() ==> presences@[i].user != presences@[j].user,
    ensures
        r == presence_eligible(presences@, user),
{
    let mut i: usize = 0;
    while i < presences.len()
        invariant
            i <= presences@.len(),
            forall|a: int, b: int|
                #![trigger presences@[a], presences@[b]]
                0 <= a < b < presences@.len() ==> presences@[a].user != presences@[b].user,
            forall|j: int| 0 <= j < i ==> (#[trigger] presences@[j]).user != user,
        decreases presences@.len() - i,
    {
        if presences[i].user == user {
            let ok = status_allows(presences[i].status);
            proof {
                if ok {
                    assert(presence_eligible(presences@, user)) by {
                        assert(presences@[i as int].user == user && status_eligible(
                            presences@[i as int].status,
                        ));
                    }
                } else if presence_eligible(presences@, user) {
                    let k = choose|k: int|
                        0 <= k < presences@.len() && (#[trigger] presences@[k]).user == user
                            && status_eligible(presences@[k].status);
                    if k < i as int {
                        assert(presences@[k].user != user);
                    } else if (i as int) < k {
                        assert(presences@[i as int].user != presences@[k].user);
                    }
                }
            }
            return ok;
        }
        i = i + 1;
    }
    false
}

/// Whether the candidate receives a notification for this join.
fn is_eligible(
    candidate: u64,
    joiner: u64,
    members: &Vec<u64>,
    presences: &Vec<PresenceEntry>,
    channels: &Vec<VoiceChannelSnapshot>,
) -> (r: bool)
    requires
        forall|i: int, j: int|
            #![trigger presences@[i], presences@[j]]
            0 <= i < j < presences@.len() ==> presences@[i].user != presences@[j].user,
    ensures
        r == spec_eligible(candidate, joiner, members@, presences@, channels@),
{
    if candidate == joiner {
        return false;
    }
    if member_of(members, candidate) {
        return false;
    }
    if busy_elsewhere(channels, candidate) {
        return false;
    }
    presence_allows(presences, candidate)
}

/// The subscribers of the destination channel that receive a notification
/// for this join, in the store's listing order; nothing when the guild or
/// the channel has no notification record.
///
/// `channel_members` is the destination channel's current member list,
/// `presences` the guild's presence map (one entry per user), and
/// `voice_channels` one snapshot per voice channel of the guild.
pub fn eligible_subscribers(
    data: &PCData,
    guild: u64,
    channel: u64,
    joiner: u64,
    channel_members: &Vec<u64>,
    presences: &Vec<PresenceEntry>,
    voice_channels: &Vec<VoiceChannelSnapshot>,
) -> (r: Option<Vec<u64>>)
    requires
        data.wf(),
        forall|i: int, j: int|
            #![trigger presences@[i], presences@[j]]
            0 <= i < j < presences@.len() ==> presences@[i].user != presences@[j].user,
    ensures
        match r {
            None => !data.has_notif_channel(guild, channel),
            Some(v) => data.has_notif_channel(guild, channel) && v@ == data.subscribers(
                guild,
                channel,
            ).filter(
                |u: u64| spec_eligible(u, joiner, channel_members@, presences@, voice_channels@),
            ),
        },
{
    let subs = match data.find_subscribed_users(guild, channel) {
        None => {
            return None;
        },
        Some(v) => v,
    };
    let ghost pred = |u: u64|
        spec_eligible(u, joiner, channel_members@, presences@, voice_channels@);
    let mut r: Vec<u64> = Vec::new();
    let mut i: usize = 0;
    while i < subs.len()
        invariant
            i <= subs@.len(),
            r@ == subs@.take(i as int).filter(pred),
            pred == (|u: u64| spec_eligible(
                u,
                joiner,
                channel_members@,
                presences@,
                voice_channels@,
            )),
            forall|a: int, b: int|
                #![trigger presences@[a], presences@[b]]
                0 <= a < b < presences@.len() ==> presences@[a].user != presences@[b].user,
        decreases subs@.len() - i,
    {
        let u = subs[i];
        let keep = is_eligible(u, joiner, channel_members, presences, voice_channels);
        if keep {
            r.push(u);
        }
        proof {
            let prefix = subs@.take(i as int);
            prefix.lemma_filter_push(u, pred);
            assert(subs@.take(i as int + 1) =~= prefix.push(u));
        }
        i = i + 1;
    }
    proof {
        assert(subs@.take(subs@.len() as int) =~= subs@);
    }
    Some(r)
}

/// The text of the private message a notified subscriber receives.
pub fn notification_text(joiner_name: &str, channel_name: &str, guild_name: &str) -> (r: String)
    ensures
        r@ == joiner_name@ + " joined "@ + channel_name@ + " on "@ + guild_name@ + "!"@,
{
    let mut s = String::new();
    s.append(joiner_name);
    s.append(" joined ");
    s.append(channel_name);
    s.append(" on ");
    s.append(guild_name);
    s.append("!");
    proof {
        assert(s@ =~= joiner_name@ + " joined "@ + channel_name@ + " on "@ + guild_name@ + "!"@);
    }
    s
}

/// The display names of the notified users, joined by a comma and a space;
/// empty when nobody was notified.
pub open spec fn comma_joined(names: Seq<String>) -> Seq<char>
    decreases names.len(),
{
    if names.len() == 0 {
        Seq::empty()
    } else if names.len() == 1 {
        names[0]@
    } else {
        names[0]@ + ", "@ + comma_joined(names.drop_first())
    }
}

/// Appending one name to a non-empty list appends a separator and the name.
proof fn lemma_comma_joined_push(names: Seq<String>, x: String)
    ensures
        comma_joined(names.push(x)) == if names.len() == 0 {
            x@
        } else {
            comma_joined(names) + ", "@ + x@
        },
    decreases names.len(),
{
    if names.len() == 0 {
        assert(names.push(x).len() == 1);
        assert(names.push(x)[0] == x);
    } else {
        assert(names.push(x).len() >= 2);
        assert(names.push(x)[0] == names[0]);
        assert(names.push(x).drop_first() =~= names.drop_first().push(x));
        lemma_comma_joined_push(names.drop_first(), x);
        if names.len() == 1 {
            assert(names.drop_first().len() == 0);
            assert(comma_joined(names.push(x)) == names[0]@ + ", "@ + x@);
            assert(comma_joined(names) == names[0]@);
        } else {
            assert(comma_joined(names.push(x)) == names[0]@ + ", "@ + (comma_joined(
                names.drop_first(),
            ) + ", "@ + x@));
            assert(comma_joined(names) + ", "@ + x@ == (names[0]@ + ", "@ + comma_joined(
                names.drop_first(),
            )) + ", "@ + x@);
            assert(names[0]@ + ", "@ + (comma_joined(names.drop_first()) + ", "@ + x@) =~= (
            names[0]@ + ", "@ + comma_joined(names.drop_first())) + ", "@ + x@);
        }
    }
}

/// The text of the summary message an admin with copies enabled receives
/// after their own join triggered a fan-out: the notified users' names, or
/// "nobody" when the fan-out reached no one.
pub fn summary_text(names: &Vec<String>) -> (r: String)
    ensures
        r@ == "Sent join notifications to "@ + (if names@.len() == 0 {
            "nobody"@
        } else {
            comma_joined(names@)
        }) + "!"@,
{
    let mut list = String::new();
    if names.len() == 0 {
        list.append("nobody");
        proof {
            assert(list@ =~= "nobody"@);
        }
    } else {
        let mut i: usize = 0;
        while i < names.len()
            invariant
                i <= names@.len(),
                list@ == comma_joined(names@.take(i as int)),
            decreases names@.len() - i,
        {
            if i > 0 {
                list.append(", ");
            }
            let ghost before = list@;
            list.append(names[i].as_str());
            proof {
                let prefix = names@.take(i as int);
                lemma_comma_joined_push(prefix, names@[i as int]);
                assert(names@.take(i as int + 1) =~= prefix.push(names@[i as int]));
                if i == 0 {
                    assert(list@ =~= names@[0]@);
                } else {
                    assert(list@ =~= comma_joined(prefix) + ", "@ + names@[i as int]@);
                }
            }
            i = i + 1;
        }
        proof {
            assert(names@.take(names@.len() as int) =~= names@);
        }
    }
    let mut s = String::new();
    s.append("Sent join notifications to ");
    s.append(list.as_str());
    s.append("!");
    proof {
        assert(s@ =~= "Sent join notifications to "@ + list@ + "!"@);
    }
    s
}

/// Law: the status filter admits exactly Online and Idle; DoNotDisturb,
/// Invisible, Offline, and unrecognized statuses are excluded.
pub proof fn lemma_status_filter()
    ensures
        status_eligible(PresenceStatus::Online),
        status_eligible(PresenceStatus::Idle),
        !status_eligible(PresenceStatus::DoNotDisturb),
        !status_eligible(PresenceStatus::Invisible),
        !status_eligible(PresenceStatus::Offline),
        !status_eligible(PresenceStatus::Unknown),
{
}

/// Law: a user whose every channel membership lies in AFK-marked channels is
/// not "busy elsewhere" — parking in the AFK channel never blocks a
/// notification.
pub proof fn lemma_afk_exemption(channels: Seq<VoiceChannelSnapshot>, user: u64)
    requires
        forall|i: int|
            0 <= i < channels.len() && (#[trigger] channels[i]).members@.contains(user)
                ==> channels[i].afk,
    ensures
        !busy_in_other_channel(channels, user),
{
}

} // verus!
