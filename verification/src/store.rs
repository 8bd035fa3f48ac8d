//! The hierarchical subscription store.
//!
//! A store holds one record per guild; each guild record holds its admins,
//! the channels marked as AFK, and the notification channels with their
//! subscriber lists. Admin ids, AFK-channel ids, notification-channel ids,
//! and subscriber ids are each unique within their collection
//! ([`PCData::wf`]). Guild and channel records are created lazily on first
//! write and never deleted, even when their sets become empty.

use vstd::prelude::*;

verus! {

/// One admin entry of a guild: the user's id and whether that admin wants a
/// summary copy whenever their own join triggers notifications.
#[derive(Debug, Clone)]
pub struct AdminUser {
    pub id: u64,
    pub send_notif_copies: bool,
}

/// A voice channel with at least one subscriber: whoever is listed wants a
/// private message when someone joins this channel.
#[derive(Debug, Clone)]
pub struct PCNotifChannel {
    pub id: u64,
    pub subscribed_users: Vec<u64>,
}

/// Everything the store keeps about one guild.
#[derive(Debug, Clone)]
pub struct PCGuild {
    pub id: u64,
    pub admins: Vec<AdminUser>,
    pub afk_channels: Vec<u64>,
    pub notif_channels: Vec<PCNotifChannel>,
}

/// The whole store: one record per guild, in no significant order.
#[derive(Debug, Clone)]
pub struct PCData {
    pub guilds: Vec<PCGuild>,
}

impl PCNotifChannel {
    /// No user is subscribed twice to the same channel.
    pub open spec fn wf(self) -> bool {
        forall|i: int, j: int|
            #![trigger self.subscribed_users@[i], self.subscribed_users@[j]]
            0 <= i < j < self.subscribed_users@.len()
                ==> self.subscribed_users@[i] != self.subscribed_users@[j]
    }
}

impl PCGuild {
    /// Admin ids, AFK-channel ids, and notification-channel ids are unique
    /// within the guild, and every notification channel is well formed.
    pub open spec fn wf(self) -> bool {
        &&& forall|i: int, j: int|
            #![trigger self.admins@[i], self.admins@[j]]
            0 <= i < j < self.admins@.len() ==> self.admins@[i].id != self.admins@[j].id
        &&& forall|i: int, j: int|
            #![trigger self.afk_channels@[i], self.afk_channels@[j]]
            0 <= i < j < self.afk_channels@.len()
                ==> self.afk_channels@[i] != self.afk_channels@[j]
        &&& forall|i: int, j: int|
            #![trigger self.notif_channels@[i], self.notif_channels@[j]]
            0 <= i < j < self.notif_channels@.len()
                ==> self.notif_channels@[i].id != self.notif_channels@[j].id
        &&& forall|i: int|
            0 <= i < self.notif_channels@.len() ==> (#[trigger] self.notif_channels@[i]).wf()
    }

    /// The guild has a notification channel with this id.
    pub open spec fn has_channel(self, channel: u64) -> bool {
        exists|i: int|
            0 <= i < self.notif_channels@.len() && (#[trigger] self.notif_channels@[i]).id
                == channel
    }

    /// The position of the notification channel with this id (meaningful only
    /// when `has_channel` holds and the guild is well formed).
    pub open spec fn channel_index(self, channel: u64) -> int {
        choose|i: int|
            0 <= i < self.notif_channels@.len() && (#[trigger] self.notif_channels@[i]).id
                == channel
    }

    /// The subscriber list of the channel with this id.
    pub open spec fn subscribers(self, channel: u64) -> Seq<u64> {
        self.notif_channels@[self.channel_index(channel)].subscribed_users@
    }

    /// The channel is marked AFK for this guild.
    pub open spec fn g_is_afk(self, channel: u64) -> bool {
        self.afk_channels@.contains(channel)
    }

    /// The user is subscribed to this guild's channel.
    pub open spec fn g_subscribed(self, channel: u64, user: u64) -> bool {
        exists|j: int|
            0 <= j < self.notif_channels@.len() && (#[trigger] self.notif_channels@[j]).id
                == channel && self.notif_channels@[j].subscribed_users@.contains(user)
    }

    /// The user is an admin of this guild.
    pub open spec fn g_is_admin(self, user: u64) -> bool {
        exists|j: int|
            0 <= j < self.admins@.len() && (#[trigger] self.admins@[j]).id == user
    }

    /// The user is an admin of this guild who asked for notification copies.
    pub open spec fn g_sends_copies(self, user: u64) -> bool {
        exists|j: int|
            0 <= j < self.admins@.len() && (#[trigger] self.admins@[j]).id == user
                && self.admins@[j].send_notif_copies
    }

    /// In a well-formed guild two positions holding the same channel id are
    /// the same position.
    pub proof fn lemma_channel_ids_unique(self, i: int, j: int)
        requires
            self.wf(),
            0 <= i < self.notif_channels@.len(),
            0 <= j < self.notif_channels@.len(),
            self.notif_channels@[i].id == self.notif_channels@[j].id,
        ensures
            i == j,
    {
        if i < j {
            assert(self.notif_channels@[i].id != self.notif_channels@[j].id);
        } else if j < i {
            assert(self.notif_channels@[j].id != self.notif_channels@[i].id);
        }
    }

    /// In a well-formed guild, a channel found at position `i` is the one
    /// `channel_index` points at.
    pub proof fn lemma_channel_index_is(self, channel: u64, i: int)
        requires
            self.wf(),
            0 <= i < self.notif_channels@.len(),
            self.notif_channels@[i].id == channel,
        ensures
            self.has_channel(channel),
            self.channel_index(channel) == i,
    {
        assert(self.has_channel(channel));
        let k = self.channel_index(channel);
        assert(0 <= k < self.notif_channels@.len() && self.notif_channels@[k].id == channel);
        if k < i {
            assert(self.notif_channels@[k].id != self.notif_channels@[i].id);
        } else if i < k {
            assert(self.notif_channels@[i].id != self.notif_channels@[k].id);
        }
    }
}

impl PCData {
    /// Guild ids are unique and every guild record is well formed.
    pub open spec fn wf(self) -> bool {
        &&& forall|i: int, j: int|
            #![trigger self.guilds@[i], self.guilds@[j]]
            0 <= i < j < self.guilds@.len() ==> self.guilds@[i].id != self.guilds@[j].id
        &&& forall|i: int| 0 <= i < self.guilds@.len() ==> (#[trigger] self.guilds@[i]).wf()
    }

    /// The store has a record for this guild.
    pub open spec fn has_guild(self, guild: u64) -> bool {
        exists|i: int|
            0 <= i < self.guilds@.len() && (#[trigger] self.guilds@[i]).id == guild
    }

    /// The position of the record for this guild (meaningful only when
    /// `has_guild` holds and the store is well formed).
    pub open spec fn guild_index(self, guild: u64) -> int {
        choose|i: int|
            0 <= i < self.guilds@.len() && (#[trigger] self.guilds@[i]).id == guild
    }

    /// The record for this guild.
    pub open spec fn spec_guild(self, guild: u64) -> PCGuild {
        self.guilds@[self.guild_index(guild)]
    }

    /// The channel is marked AFK for the guild.
    pub open spec fn spec_is_afk(self, guild: u64, channel: u64) -> bool {
        exists|i: int|
            0 <= i < self.guilds@.len() && (#[trigger] self.guilds@[i]).id == guild
                && self.guilds@[i].afk_channels@.contains(channel)
    }

    /// The guild has a notification channel with this id.
    pub open spec fn has_notif_channel(self, guild: u64, channel: u64) -> bool {
        exists|i: int, j: int|
            #![trigger self.guilds@[i].notif_channels@[j]]
            0 <= i < self.guilds@.len() && self.guilds@[i].id == guild && 0 <= j
                < self.guilds@[i].notif_channels@.len()
                && self.guilds@[i].notif_channels@[j].id == channel
    }

    /// The subscriber list of the guild's channel (meaningful only when
    /// `has_notif_channel` holds and the store is well formed).
    pub open spec fn subscribers(self, guild: u64, channel: u64) -> Seq<u64> {
        self.spec_guild(guild).subscribers(channel)
    }

    /// The user is subscribed to joins of this guild's channel.
    pub open spec fn spec_subscribed(self, guild: u64, channel: u64, user: u64) -> bool {
        exists|i: int, j: int|
            #![trigger self.guilds@[i].notif_channels@[j]]
            0 <= i < self.guilds@.len() && self.guilds@[i].id == guild && 0 <= j
                < self.guilds@[i].notif_channels@.len()
                && self.guilds@[i].notif_channels@[j].id == channel
                && self.guilds@[i].notif_channels@[j].subscribed_users@.contains(user)
    }

    /// The user is an admin of the guild.
    pub open spec fn spec_is_admin(self, user: u64, guild: u64) -> bool {
        exists|i: int, j: int|
            #![trigger self.guilds@[i].admins@[j]]
            0 <= i < self.guilds@.len() && self.guilds@[i].id == guild && 0 <= j
                < self.guilds@[i].admins@.len() && self.guilds@[i].admins@[j].id == user
    }

    /// The user is an admin of the guild and asked for notification copies.
    pub open spec fn spec_sends_copies(self, user: u64, guild: u64) -> bool {
        exists|i: int, j: int|
            #![trigger self.guilds@[i].admins@[j]]
            0 <= i < self.guilds@.len() && self.guilds@[i].id == guild && 0 <= j
                < self.guilds@[i].admins@.len() && self.guilds@[i].admins@[j].id == user
                && self.guilds@[i].admins@[j].send_notif_copies
    }

    /// In a well-formed store, a guild found at position `i` is the one
    /// `guild_index` points at.
    pub proof fn lemma_guild_index_is(self, guild: u64, i: int)
        requires
            self.wf(),
            0 <= i < self.guilds@.len(),
            self.guilds@[i].id == guild,
        ensures
            self.has_guild(guild),
            self.guild_index(guild) == i,
    {
        assert(self.has_guild(guild));
        let k = self.guild_index(guild);
        assert(0 <= k < self.guilds@.len() && self.guilds@[k].id == guild);
        if k < i {
            assert(self.guilds@[k].id != self.guilds@[i].id);
        } else if i < k {
            assert(self.guilds@[i].id != self.guilds@[k].id);
        }
    }

    /// In a well-formed store two positions holding the same guild id are
    /// the same position.
    pub proof fn lemma_guild_ids_unique(self, i: int, j: int)
        requires
            self.wf(),
            0 <= i < self.guilds@.len(),
            0 <= j < self.guilds@.len(),
            self.guilds@[i].id == self.guilds@[j].id,
        ensures
            i == j,
    {
        if i < j {
            assert(self.guilds@[i].id != self.guilds@[j].id);
        } else if j < i {
            assert(self.guilds@[j].id != self.guilds@[i].id);
        }
    }

    /// An empty store: no guilds, hence no subscriptions, marks, or admins.
    pub fn default() -> (r: PCData)
        ensures
            r.wf(),
            r.guilds@.len() == 0,
            forall|g: u64| !r.has_guild(g),
            forall|g: u64, c: u64| !r.spec_is_afk(g, c),
            forall|g: u64, c: u64| !r.has_notif_channel(g, c),
            forall|g: u64, c: u64, u: u64| !r.spec_subscribed(g, c, u),
            forall|u: u64, g: u64| !r.spec_is_admin(u, g),
            forall|u: u64, g: u64| !r.spec_sends_copies(u, g),
    {
        PCData { guilds: Vec::new() }
    }

    /// Whether the channel is currently marked AFK for the guild; false when
    /// the guild is unknown.
    pub fn is_afk_channel(&self, guild: u64, channel: u64) -> (r: bool)
        requires
            self.wf(),
        ensures
            r == self.spec_is_afk(guild, channel),
    {
        match find_guild_index(&self.guilds, guild) {
            None => false,
            Some(gi) => {
                let r = contains_u64(&self.guilds[gi].afk_channels, channel);
                proof {
                    if !r && self.spec_is_afk(guild, channel) {
                        let k = choose|i: int|
                            0 <= i < self.guilds@.len() && (#[trigger] self.guilds@[i]).id
                                == guild && self.guilds@[i].afk_channels@.contains(channel);
                        self.lemma_guild_index_is(guild, k);
                        self.lemma_guild_index_is(guild, gi as int);
                    }
                }
                r
            },
        }
    }

    /// Whether the user is an admin of the guild; false when the guild is
    /// unknown.
    pub fn is_admin(&self, user: u64, guild: u64) -> (r: bool)
        requires
            self.wf(),
        ensures
            r == self.spec_is_admin(user, guild),
    {
        match find_guild_index(&self.guilds, guild) {
            None => false,
            Some(gi) => {
                let r = find_admin_index(&self.guilds[gi].admins, user);
                proof {
                    if r is None && self.spec_is_admin(user, guild) {
                        let (k, j) = choose|i: int, j: int|
                            #![trigger self.guilds@[i].admins@[j]]
                            0 <= i < self.guilds@.len() && self.guilds@[i].id == guild && 0 <= j
                                < self.guilds@[i].admins@.len() && self.guilds@[i].admins@[j].id
                                == user;
                        self.lemma_guild_index_is(guild, k);
                        self.lemma_guild_index_is(guild, gi as int);
                    }
                }
                r.is_some()
            },
        }
    }

    /// Whether the user is an admin of the guild who asked for summary
    /// copies; false when the guild is unknown or the user is no admin.
    pub fn should_send_notif_copies(&self, joined_user: u64, guild: u64) -> (r: bool)
        requires
            self.wf(),
        ensures
            r == self.spec_sends_copies(joined_user, guild),
    {
        match find_guild_index(&self.guilds, guild) {
            None => false,
            Some(gi) => {
                match find_admin_index(&self.guilds[gi].admins, joined_user) {
                    None => {
                        proof {
                            if self.spec_sends_copies(joined_user, guild) {
                                let (k, j) = choose|i: int, j: int|
                                    #![trigger self.guilds@[i].admins@[j]]
                                    0 <= i < self.guilds@.len() && self.guilds@[i].id == guild
                                        && 0 <= j < self.guilds@[i].admins@.len()
                                        && self.guilds@[i].admins@[j].id == joined_user
                                        && self.guilds@[i].admins@[j].send_notif_copies;
                                self.lemma_guild_index_is(guild, k);
                                self.lemma_guild_index_is(guild, gi as int);
                            }
                        }
                        false
                    },
                    Some(ai) => {
                        let r = self.guilds[gi].admins[ai].send_notif_copies;
                        proof {
                            let g = self.guilds@[gi as int];
                            if !r && self.spec_sends_copies(joined_user, guild) {
                                let (k, j) = choose|i: int, j: int|
                                    #![trigger self.guilds@[i].admins@[j]]
                                    0 <= i < self.guilds@.len() && self.guilds@[i].id == guild
                                        && 0 <= j < self.guilds@[i].admins@.len()
                                        && self.guilds@[i].admins@[j].id == joined_user
                                        && self.guilds@[i].admins@[j].send_notif_copies;
                                self.lemma_guild_index_is(guild, k);
                                self.lemma_guild_index_is(guild, gi as int);
                                if j < ai as int {
                                    assert(g.admins@[j].id != g.admins@[ai as int].id);
                                } else if (ai as int) < j {
                                    assert(g.admins@[ai as int].id != g.admins@[j].id);
                                }
                            }
                        }
                        r
                    },
                }
            },
        }
    }

    /// The current subscriber list of the guild's channel, as a snapshot;
    /// nothing when the guild or the channel is unknown.
    pub fn find_subscribed_users(&self, guild: u64, channel: u64) -> (r: Option<Vec<u64>>)
        requires
            self.wf(),
        ensures
            match r {
                None => !self.has_notif_channel(guild, channel),
                Some(v) => self.has_notif_channel(guild, channel) && v@ == self.subscribers(
                    guild,
                    channel,
                ),
            },
    {
        match find_guild_index(&self.guilds, guild) {
            None => None,
            Some(gi) => {
                proof {
                    self.lemma_guild_index_is(guild, gi as int);
                }
                match find_channel_index(&self.guilds[gi].notif_channels, channel) {
                    None => {
                        proof {
                            if self.has_notif_channel(guild, channel) {
                                let (k, j) = choose|i: int, j: int|
                                    #![trigger self.guilds@[i].notif_channels@[j]]
                                    0 <= i < self.guilds@.len() && self.guilds@[i].id == guild
                                        && 0 <= j < self.guilds@[i].notif_channels@.len()
                                        && self.guilds@[i].notif_channels@[j].id == channel;
                                self.lemma_guild_index_is(guild, k);
                            }
                        }
                        None
                    },
                    Some(ci) => {
                        let v = clone_u64_vec(&self.guilds[gi].notif_channels[ci].subscribed_users);
                        proof {
                            self.guilds@[gi as int].lemma_channel_index_is(channel, ci as int);
                        }
                        Some(v)
                    },
                }
            },
        }
    }
}

impl PCGuild {
    /// A fresh guild record with nothing in it yet.
    fn new(id: u64) -> (r: PCGuild)
        ensures
            r.id == id,
            r.admins@.len() == 0,
            r.afk_channels@.len() == 0,
            r.notif_channels@.len() == 0,
            r.wf(),
    {
        PCGuild { id, admins: Vec::new(), afk_channels: Vec::new(), notif_channels: Vec::new() }
    }
}

impl PCNotifChannel {
    /// A fresh notification channel with no subscribers yet.
    fn new(id: u64) -> (r: PCNotifChannel)
        ensures
            r.id == id,
            r.subscribed_users@.len() == 0,
            r.wf(),
    {
        PCNotifChannel { id, subscribed_users: Vec::new() }
    }
}

/// Appending a guild record with a fresh id and empty sets changes nothing
/// the store's observations can see, beyond the guild now existing.
proof fn lemma_push_fresh_guild(d1: PCData, d2: PCData, g0: PCGuild)
    requires
        d1.wf(),
        !d1.has_guild(g0.id),
        d2.guilds@ == d1.guilds@.push(g0),
        g0.admins@.len() == 0,
        g0.afk_channels@.len() == 0,
        g0.notif_channels@.len() == 0,
    ensures
        d2.wf(),
        d2.has_guild(g0.id),
        d2.guild_index(g0.id) == d1.guilds@.len(),
        d2.spec_guild(g0.id) == g0,
        forall|g: u64| d2.has_guild(g) == (d1.has_guild(g) || g == g0.id),
        forall|g: u64|
            g != g0.id && d1.has_guild(g) ==> d2.guild_index(g) == d1.guild_index(g)
                && d2.spec_guild(g) == d1.spec_guild(g),
        forall|g: u64, c: u64| d2.spec_is_afk(g, c) == d1.spec_is_afk(g, c),
        forall|g: u64, c: u64| d2.has_notif_channel(g, c) == d1.has_notif_channel(g, c),
        forall|g: u64, c: u64, u: u64| d2.spec_subscribed(g, c, u) == d1.spec_subscribed(g, c, u),
        forall|u: u64, g: u64| d2.spec_is_admin(u, g) == d1.spec_is_admin(u, g),
        forall|u: u64, g: u64| d2.spec_sends_copies(u, g) == d1.spec_sends_copies(u, g),
        forall|g: u64, c: u64|
            d1.has_notif_channel(g, c) ==> d2.subscribers(g, c) == d1.subscribers(g, c),
{
    let len = d1.guilds@.len() as int;
    assert(forall|i: int| 0 <= i < len ==> d2.guilds@[i] == d1.guilds@[i]);
    assert(d2.guilds@[len] == g0);
    assert(d2.wf()) by {
        assert forall|i: int, j: int|
            0 <= i < j < d2.guilds@.len() implies (#[trigger] d2.guilds@[i]).id != (
        #[trigger] d2.guilds@[j]).id by {
            if j < len {
                assert(d1.guilds@[i].id != d1.guilds@[j].id);
            } else {
                assert(d2.guilds@[j] == g0);
                assert(d1.guilds@[i].id != g0.id);
            }
        }
        assert forall|i: int| 0 <= i < d2.guilds@.len() implies (#[trigger] d2.guilds@[i]).wf() by {
            if i < len {
                assert(d1.guilds@[i].wf());
            }
        }
    }
    d2.lemma_guild_index_is(g0.id, len);
    assert forall|g: u64| d2.has_guild(g) == (d1.has_guild(g) || g == g0.id) by {
        if d1.has_guild(g) {
            let i = choose|i: int|
                0 <= i < d1.guilds@.len() && (#[trigger] d1.guilds@[i]).id == g;
            assert(d2.guilds@[i].id == g);
            assert(d2.has_guild(g));
        }
        if d2.has_guild(g) && g != g0.id {
            let i = choose|i: int|
                0 <= i < d2.guilds@.len() && (#[trigger] d2.guilds@[i]).id == g;
            assert(i < len);
            assert(d1.guilds@[i].id == g);
            assert(d1.has_guild(g));
        }
    }
    assert forall|g: u64|
        g != g0.id && d1.has_guild(g) implies d2.guild_index(g) == d1.guild_index(g)
            && d2.spec_guild(g) == d1.spec_guild(g) by {
        let i = d1.guild_index(g);
        assert(0 <= i < d1.guilds@.len() && d1.guilds@[i].id == g);
        d2.lemma_guild_index_is(g, i);
    }
    assert forall|g: u64, c: u64| d2.spec_is_afk(g, c) == d1.spec_is_afk(g, c) by {
        if d1.spec_is_afk(g, c) {
            let i = choose|i: int|
                0 <= i < d1.guilds@.len() && (#[trigger] d1.guilds@[i]).id == g
                    && d1.guilds@[i].afk_channels@.contains(c);
            assert(d2.guilds@[i].id == g && d2.guilds@[i].afk_channels@.contains(c));
            assert(d2.spec_is_afk(g, c));
        }
        if d2.spec_is_afk(g, c) {
            let i = choose|i: int|
                0 <= i < d2.guilds@.len() && (#[trigger] d2.guilds@[i]).id == g
                    && d2.guilds@[i].afk_channels@.contains(c);
            assert(i < len) by {
                if i == len {
                    assert(d2.guilds@[i] == g0);
                }
            }
            assert(d1.guilds@[i].id == g && d1.guilds@[i].afk_channels@.contains(c));
            assert(d1.spec_is_afk(g, c));
        }
    }
    assert forall|g: u64, c: u64| d2.has_notif_channel(g, c) == d1.has_notif_channel(g, c) by {
        if d1.has_notif_channel(g, c) {
            let (i, j) = choose|i: int, j: int|
                #![trigger d1.guilds@[i].notif_channels@[j]]
                0 <= i < d1.guilds@.len() && d1.guilds@[i].id == g && 0 <= j
                    < d1.guilds@[i].notif_channels@.len() && d1.guilds@[i].notif_channels@[j].id
                    == c;
            assert(d2.guilds@[i] == d1.guilds@[i]);
            assert(d2.guilds@[i].notif_channels@[j].id == c);
            assert(d2.has_notif_channel(g, c));
        }
        if d2.has_notif_channel(g, c) {
            let (i, j) = choose|i: int, j: int|
                #![trigger d2.guilds@[i].notif_channels@[j]]
                0 <= i < d2.guilds@.len() && d2.guilds@[i].id == g && 0 <= j
                    < d2.guilds@[i].notif_channels@.len() && d2.guilds@[i].notif_channels@[j].id
                    == c;
            assert(i < len) by {
                if i == len {
                    assert(d2.guilds@[i] == g0);
                }
            }
            assert(d1.guilds@[i].notif_channels@[j].id == c);
            assert(d1.has_notif_channel(g, c));
        }
    }
    assert forall|g: u64, c: u64, u: u64|
        d2.spec_subscribed(g, c, u) == d1.spec_subscribed(g, c, u) by {
        if d1.spec_subscribed(g, c, u) {
            let (i, j) = choose|i: int, j: int|
                #![trigger d1.guilds@[i].notif_channels@[j]]
                0 <= i < d1.guilds@.len() && d1.guilds@[i].id == g && 0 <= j
                    < d1.guilds@[i].notif_channels@.len() && d1.guilds@[i].notif_channels@[j].id
                    == c && d1.guilds@[i].notif_channels@[j].subscribed_users@.contains(u);
            assert(d2.guilds@[i] == d1.guilds@[i]);
            assert(d2.guilds@[i].notif_channels@[j].id == c
                && d2.guilds@[i].notif_channels@[j].subscribed_users@.contains(u));
            assert(d2.spec_subscribed(g, c, u));
        }
        if d2.spec_subscribed(g, c, u) {
            let (i, j) = choose|i: int, j: int|
                #![trigger d2.guilds@[i].notif_channels@[j]]
                0 <= i < d2.guilds@.len() && d2.guilds@[i].id == g && 0 <= j
                    < d2.guilds@[i].notif_channels@.len() && d2.guilds@[i].notif_channels@[j].id
                    == c && d2.guilds@[i].notif_channels@[j].subscribed_users@.contains(u);
            assert(i < len) by {
                if i == len {
                    assert(d2.guilds@[i] == g0);
                }
            }
            assert(d1.guilds@[i].notif_channels@[j].id == c
                && d1.guilds@[i].notif_channels@[j].subscribed_users@.contains(u));
            assert(d1.spec_subscribed(g, c, u));
        }
    }
    assert forall|u: u64, g: u64| d2.spec_is_admin(u, g) == d1.spec_is_admin(u, g) by {
        if d1.spec_is_admin(u, g) {
            let (i, j) = choose|i: int, j: int|
                #![trigger d1.guilds@[i].admins@[j]]
                0 <= i < d1.guilds@.len() && d1.guilds@[i].id == g && 0 <= j
                    < d1.guilds@[i].admins@.len() && d1.guilds@[i].admins@[j].id == u;
            assert(d2.guilds@[i] == d1.guilds@[i]);
            assert(d2.guilds@[i].admins@[j].id == u);
            assert(d2.spec_is_admin(u, g));
        }
        if d2.spec_is_admin(u, g) {
            let (i, j) = choose|i: int, j: int|
                #![trigger d2.guilds@[i].admins@[j]]
                0 <= i < d2.guilds@.len() && d2.guilds@[i].id == g && 0 <= j
                    < d2.guilds@[i].admins@.len() && d2.guilds@[i].admins@[j].id == u;
            assert(i < len) by {
                if i == len {
                    assert(d2.guilds@[i] == g0);
                }
            }
            assert(d1.guilds@[i].admins@[j].id == u);
            assert(d1.spec_is_admin(u, g));
        }
    }
    assert forall|u: u64, g: u64| d2.spec_sends_copies(u, g) == d1.spec_sends_copies(u, g) by {
        if d1.spec_sends_copies(u, g) {
            let (i, j) = choose|i: int, j: int|
                #![trigger d1.guilds@[i].admins@[j]]
                0 <= i < d1.guilds@.len() && d1.guilds@[i].id == g && 0 <= j
                    < d1.guilds@[i].admins@.len() && d1.guilds@[i].admins@[j].id == u
                    && d1.guilds@[i].admins@[j].send_notif_copies;
            assert(d2.guilds@[i] == d1.guilds@[i]);
            assert(d2.guilds@[i].admins@[j].id == u && d2.guilds@[i].admins@[j].send_notif_copies);
            assert(d2.spec_sends_copies(u, g));
        }
        if d2.spec_sends_copies(u, g) {
            let (i, j) = choose|i: int, j: int|
                #![trigger d2.guilds@[i].admins@[j]]
                0 <= i < d2.guilds@.len() && d2.guilds@[i].id == g && 0 <= j
                    < d2.guilds@[i].admins@.len() && d2.guilds@[i].admins@[j].id == u
                    && d2.guilds@[i].admins@[j].send_notif_copies;
            assert(i < len) by {
                if i == len {
                    assert(d2.guilds@[i] == g0);
                }
            }
            assert(d1.guilds@[i].admins@[j].id == u && d1.guilds@[i].admins@[j].send_notif_copies);
            assert(d1.spec_sends_copies(u, g));
        }
    }
    assert forall|g: u64, c: u64|
        d1.has_notif_channel(g, c) implies d2.subscribers(g, c) == d1.subscribers(g, c) by {
        let (i, j) = choose|i: int, j: int|
            #![trigger d1.guilds@[i].notif_channels@[j]]
            0 <= i < d1.guilds@.len() && d1.guilds@[i].id == g && 0 <= j
                < d1.guilds@[i].notif_channels@.len() && d1.guilds@[i].notif_channels@[j].id == c;
        assert(g != g0.id);
        d1.lemma_guild_index_is(g, i);
        d2.lemma_guild_index_is(g, i);
    }
}

/// Replacing one guild record by a well-formed record with the same id
/// leaves every other guild's observations untouched and maps the replaced
/// guild's observations to the new record.
proof fn lemma_replace_guild(d1: PCData, d2: PCData, k: int, g2: PCGuild)
    requires
        d1.wf(),
        0 <= k < d1.guilds@.len(),
        d2.guilds@ == d1.guilds@.update(k, g2),
        g2.id == d1.guilds@[k].id,
        g2.wf(),
    ensures
        d2.wf(),
        d2.has_guild(g2.id),
        d2.guild_index(g2.id) == k,
        d2.spec_guild(g2.id) == g2,
        d1.guild_index(g2.id) == k,
        d1.spec_guild(g2.id) == d1.guilds@[k],
        forall|g: u64| d2.has_guild(g) == d1.has_guild(g),
        forall|g: u64|
            g != g2.id && d1.has_guild(g) ==> d2.guild_index(g) == d1.guild_index(g)
                && d2.spec_guild(g) == d1.spec_guild(g),
        forall|g: u64, c: u64| g != g2.id ==> d2.spec_is_afk(g, c) == d1.spec_is_afk(g, c),
        forall|c: u64| d2.spec_is_afk(g2.id, c) == g2.g_is_afk(c),
        forall|c: u64| d1.spec_is_afk(g2.id, c) == d1.guilds@[k].g_is_afk(c),
        forall|g: u64, c: u64|
            g != g2.id ==> d2.has_notif_channel(g, c) == d1.has_notif_channel(g, c),
        forall|c: u64| d2.has_notif_channel(g2.id, c) == g2.has_channel(c),
        forall|c: u64| d1.has_notif_channel(g2.id, c) == d1.guilds@[k].has_channel(c),
        forall|g: u64, c: u64, u: u64|
            g != g2.id ==> d2.spec_subscribed(g, c, u) == d1.spec_subscribed(g, c, u),
        forall|c: u64, u: u64| d2.spec_subscribed(g2.id, c, u) == g2.g_subscribed(c, u),
        forall|c: u64, u: u64|
            d1.spec_subscribed(g2.id, c, u) == d1.guilds@[k].g_subscribed(c, u),
        forall|u: u64, g: u64| g != g2.id ==> d2.spec_is_admin(u, g) == d1.spec_is_admin(u, g),
        forall|u: u64| d2.spec_is_admin(u, g2.id) == g2.g_is_admin(u),
        forall|u: u64| d1.spec_is_admin(u, g2.id) == d1.guilds@[k].g_is_admin(u),
        forall|u: u64, g: u64|
            g != g2.id ==> d2.spec_sends_copies(u, g) == d1.spec_sends_copies(u, g),
        forall|u: u64| d2.spec_sends_copies(u, g2.id) == g2.g_sends_copies(u),
        forall|u: u64| d1.spec_sends_copies(u, g2.id) == d1.guilds@[k].g_sends_copies(u),
        forall|g: u64, c: u64|
            g != g2.id && d1.has_notif_channel(g, c) ==> d2.subscribers(g, c) == d1.subscribers(
                g,
                c,
            ),
{
    let gid = g2.id;
    let len = d1.guilds@.len() as int;
    assert(forall|i: int| 0 <= i < len && i != k ==> d2.guilds@[i] == d1.guilds@[i]);
    assert(d2.guilds@[k] == g2);
    assert(d2.wf()) by {
        assert forall|i: int, j: int|
            0 <= i < j < d2.guilds@.len() implies (#[trigger] d2.guilds@[i]).id != (
        #[trigger] d2.guilds@[j]).id by {
            assert(d2.guilds@[i].id == d1.guilds@[i].id);
            assert(d2.guilds@[j].id == d1.guilds@[j].id);
            assert(d1.guilds@[i].id != d1.guilds@[j].id);
        }
        assert forall|i: int| 0 <= i < d2.guilds@.len() implies (#[trigger] d2.guilds@[i]).wf() by {
            if i != k {
                assert(d1.guilds@[i].wf());
            }
        }
    }
    d2.lemma_guild_index_is(gid, k);
    d1.lemma_guild_index_is(gid, k);
    assert forall|g: u64| d2.has_guild(g) == d1.has_guild(g) by {
        if d1.has_guild(g) {
            let i = choose|i: int| 0 <= i < d1.guilds@.len() && (#[trigger] d1.guilds@[i]).id == g;
            assert(d2.guilds@[i].id == g);
        }
        if d2.has_guild(g) {
            let i = choose|i: int| 0 <= i < d2.guilds@.len() && (#[trigger] d2.guilds@[i]).id == g;
            assert(d1.guilds@[i].id == g);
        }
    }
    assert forall|g: u64|
        g != gid && d1.has_guild(g) implies d2.guild_index(g) == d1.guild_index(g)
            && d2.spec_guild(g) == d1.spec_guild(g) by {
        let i = d1.guild_index(g);
        assert(0 <= i < d1.guilds@.len() && d1.guilds@[i].id == g);
        assert(i != k);
        d2.lemma_guild_index_is(g, i);
    }
    assert forall|g: u64, c: u64|
        g != gid implies d2.spec_is_afk(g, c) == d1.spec_is_afk(g, c) by {
        if d1.spec_is_afk(g, c) {
            let i = choose|i: int|
                0 <= i < d1.guilds@.len() && (#[trigger] d1.guilds@[i]).id == g
                    && d1.guilds@[i].afk_channels@.contains(c);
            assert(i != k);
            assert(d2.guilds@[i].id == g && d2.guilds@[i].afk_channels@.contains(c));
            assert(d2.spec_is_afk(g, c));
        }
        if d2.spec_is_afk(g, c) {
            let i = choose|i: int|
                0 <= i < d2.guilds@.len() && (#[trigger] d2.guilds@[i]).id == g
                    && d2.guilds@[i].afk_channels@.contains(c);
            assert(i != k);
            assert(d1.guilds@[i].id == g && d1.guilds@[i].afk_channels@.contains(c));
            assert(d1.spec_is_afk(g, c));
        }
    }
    assert forall|c: u64| d2.spec_is_afk(gid, c) == g2.g_is_afk(c) by {
        if d2.spec_is_afk(gid, c) {
            let i = choose|i: int|
                0 <= i < d2.guilds@.len() && (#[trigger] d2.guilds@[i]).id == gid
                    && d2.guilds@[i].afk_channels@.contains(c);
            d2.lemma_guild_ids_unique(i, k);
        }
        if g2.g_is_afk(c) {
            assert(d2.guilds@[k].id == gid && d2.guilds@[k].afk_channels@.contains(c));
            assert(d2.spec_is_afk(gid, c));
        }
    }
    assert forall|c: u64| d1.spec_is_afk(gid, c) == d1.guilds@[k].g_is_afk(c) by {
        if d1.spec_is_afk(gid, c) {
            let i = choose|i: int|
                0 <= i < d1.guilds@.len() && (#[trigger] d1.guilds@[i]).id == gid
                    && d1.guilds@[i].afk_channels@.contains(c);
            d1.lemma_guild_ids_unique(i, k);
        }
        if d1.guilds@[k].g_is_afk(c) {
            assert(d1.guilds@[k].id == gid && d1.guilds@[k].afk_channels@.contains(c));
            assert(d1.spec_is_afk(gid, c));
        }
    }
    assert forall|g: u64, c: u64|
        g != gid implies d2.has_notif_channel(g, c) == d1.has_notif_channel(g, c) by {
        if d1.has_notif_channel(g, c) {
            let (i, j) = choose|i: int, j: int|
                #![trigger d1.guilds@[i].notif_channels@[j]]
                0 <= i < d1.guilds@.len() && d1.guilds@[i].id == g && 0 <= j
                    < d1.guilds@[i].notif_channels@.len() && d1.guilds@[i].notif_channels@[j].id
                    == c;
            assert(i != k);
            assert(d2.guilds@[i].notif_channels@[j].id == c);
            assert(d2.has_notif_channel(g, c));
        }
        if d2.has_notif_channel(g, c) {
            let (i, j) = choose|i: int, j: int|
                #![trigger d2.guilds@[i].notif_channels@[j]]
                0 <= i < d2.guilds@.len() && d2.guilds@[i].id == g && 0 <= j
                    < d2.guilds@[i].notif_channels@.len() && d2.guilds@[i].notif_channels@[j].id
                    == c;
            assert(i != k);
            assert(d1.guilds@[i].notif_channels@[j].id == c);
            assert(d1.has_notif_channel(g, c));
        }
    }
    assert forall|c: u64| d2.has_notif_channel(gid, c) == g2.has_channel(c) by {
        if d2.has_notif_channel(gid, c) {
            let (i, j) = choose|i: int, j: int|
                #![trigger d2.guilds@[i].notif_channels@[j]]
                0 <= i < d2.guilds@.len() && d2.guilds@[i].id == gid && 0 <= j
                    < d2.guilds@[i].notif_channels@.len() && d2.guilds@[i].notif_channels@[j].id
                    == c;
            d2.lemma_guild_ids_unique(i, k);
            assert(g2.notif_channels@[j].id == c);
            assert(g2.has_channel(c));
        }
        if g2.has_channel(c) {
            let j = choose|j: int|
                0 <= j < g2.notif_channels@.len() && (#[trigger] g2.notif_channels@[j]).id == c;
            assert(d2.guilds@[k].notif_channels@[j].id == c);
            assert(d2.has_notif_channel(gid, c));
        }
    }
    assert forall|c: u64| d1.has_notif_channel(gid, c) == d1.guilds@[k].has_channel(c) by {
        if d1.has_notif_channel(gid, c) {
            let (i, j) = choose|i: int, j: int|
                #![trigger d1.guilds@[i].notif_channels@[j]]
                0 <= i < d1.guilds@.len() && d1.guilds@[i].id == gid && 0 <= j
                    < d1.guilds@[i].notif_channels@.len() && d1.guilds@[i].notif_channels@[j].id
                    == c;
            d1.lemma_guild_ids_unique(i, k);
            assert(d1.guilds@[k].notif_channels@[j].id == c);
            assert(d1.guilds@[k].has_channel(c));
        }
        if d1.guilds@[k].has_channel(c) {
            let j = choose|j: int|
                0 <= j < d1.guilds@[k].notif_channels@.len() && (
                #[trigger] d1.guilds@[k].notif_channels@[j]).id == c;
            assert(d1.guilds@[k].notif_channels@[j].id == c);
            assert(d1.has_notif_channel(gid, c));
        }
    }
    assert forall|g: u64, c: u64, u: u64|
        g != gid implies d2.spec_subscribed(g, c, u) == d1.spec_subscribed(g, c, u) by {
        if d1.spec_subscribed(g, c, u) {
            let (i, j) = choose|i: int, j: int|
                #![trigger d1.guilds@[i].notif_channels@[j]]
                0 <= i < d1.guilds@.len() && d1.guilds@[i].id == g && 0 <= j
                    < d1.guilds@[i].notif_channels@.len() && d1.guilds@[i].notif_channels@[j].id
                    == c && d1.guilds@[i].notif_channels@[j].subscribed_users@.contains(u);
            assert(i != k);
            assert(d2.guilds@[i].notif_channels@[j].id == c
                && d2.guilds@[i].notif_channels@[j].subscribed_users@.contains(u));
            assert(d2.spec_subscribed(g, c, u));
        }
        if d2.spec_subscribed(g, c, u) {
            let (i, j) = choose|i: int, j: int|
                #![trigger d2.guilds@[i].notif_channels@[j]]
                0 <= i < d2.guilds@.len() && d2.guilds@[i].id == g && 0 <= j
                    < d2.guilds@[i].notif_channels@.len() && d2.guilds@[i].notif_channels@[j].id
                    == c && d2.guilds@[i].notif_channels@[j].subscribed_users@.contains(u);
            assert(i != k);
            assert(d1.guilds@[i].notif_channels@[j].id == c
                && d1.guilds@[i].notif_channels@[j].subscribed_users@.contains(u));
            assert(d1.spec_subscribed(g, c, u));
        }
    }
    assert forall|c: u64, u: u64| d2.spec_subscribed(gid, c, u) == g2.g_subscribed(c, u) by {
        if d2.spec_subscribed(gid, c, u) {
            let (i, j) = choose|i: int, j: int|
                #![trigger d2.guilds@[i].notif_channels@[j]]
                0 <= i < d2.guilds@.len() && d2.guilds@[i].id == gid && 0 <= j
                    < d2.guilds@[i].notif_channels@.len() && d2.guilds@[i].notif_channels@[j].id
                    == c && d2.guilds@[i].notif_channels@[j].subscribed_users@.contains(u);
            d2.lemma_guild_ids_unique(i, k);
            assert(g2.notif_channels@[j].id == c
                && g2.notif_channels@[j].subscribed_users@.contains(u));
            assert(g2.g_subscribed(c, u));
        }
        if g2.g_subscribed(c, u) {
            let j = choose|j: int|
                0 <= j < g2.notif_channels@.len() && (#[trigger] g2.notif_channels@[j]).id == c
                    && g2.notif_channels@[j].subscribed_users@.contains(u);
            assert(d2.guilds@[k].notif_channels@[j].id == c
                && d2.guilds@[k].notif_channels@[j].subscribed_users@.contains(u));
            assert(d2.spec_subscribed(gid, c, u));
        }
    }
    assert forall|c: u64, u: u64|
        d1.spec_subscribed(gid, c, u) == d1.guilds@[k].g_subscribed(c, u) by {
        if d1.spec_subscribed(gid, c, u) {
            let (i, j) = choose|i: int, j: int|
                #![trigger d1.guilds@[i].notif_channels@[j]]
                0 <= i < d1.guilds@.len() && d1.guilds@[i].id == gid && 0 <= j
                    < d1.guilds@[i].notif_channels@.len() && d1.guilds@[i].notif_channels@[j].id
                    == c && d1.guilds@[i].notif_channels@[j].subscribed_users@.contains(u);
            d1.lemma_guild_ids_unique(i, k);
            assert(d1.guilds@[k].g_subscribed(c, u));
        }
        if d1.guilds@[k].g_subscribed(c, u) {
            let j = choose|j: int|
                0 <= j < d1.guilds@[k].notif_channels@.len() && (
                #[trigger] d1.guilds@[k].notif_channels@[j]).id == c
                    && d1.guilds@[k].notif_channels@[j].subscribed_users@.contains(u);
            assert(d1.guilds@[k].notif_channels@[j].id == c
                && d1.guilds@[k].notif_channels@[j].subscribed_users@.contains(u));
            assert(d1.spec_subscribed(gid, c, u));
        }
    }
    assert forall|u: u64, g: u64|
        g != gid implies d2.spec_is_admin(u, g) == d1.spec_is_admin(u, g) by {
        if d1.spec_is_admin(u, g) {
            let (i, j) = choose|i: int, j: int|
                #![trigger d1.guilds@[i].admins@[j]]
                0 <= i < d1.guilds@.len() && d1.guilds@[i].id == g && 0 <= j
                    < d1.guilds@[i].admins@.len() && d1.guilds@[i].admins@[j].id == u;
            assert(i != k);
            assert(d2.guilds@[i].admins@[j].id == u);
            assert(d2.spec_is_admin(u, g));
        }
        if d2.spec_is_admin(u, g) {
            let (i, j) = choose|i: int, j: int|
                #![trigger d2.guilds@[i].admins@[j]]
                0 <= i < d2.guilds@.len() && d2.guilds@[i].id == g && 0 <= j
                    < d2.guilds@[i].admins@.len() && d2.guilds@[i].admins@[j].id == u;
            assert(i != k);
            assert(d1.guilds@[i].admins@[j].id == u);
            assert(d1.spec_is_admin(u, g));
        }
    }
    assert forall|u: u64| d2.spec_is_admin(u, gid) == g2.g_is_admin(u) by {
        if d2.spec_is_admin(u, gid) {
            let (i, j) = choose|i: int, j: int|
                #![trigger d2.guilds@[i].admins@[j]]
                0 <= i < d2.guilds@.len() && d2.guilds@[i].id == gid && 0 <= j
                    < d2.guilds@[i].admins@.len() && d2.guilds@[i].admins@[j].id == u;
            d2.lemma_guild_ids_unique(i, k);
            assert(g2.admins@[j].id == u);
            assert(g2.g_is_admin(u));
        }
        if g2.g_is_admin(u) {
            let j = choose|j: int|
                0 <= j < g2.admins@.len() && (#[trigger] g2.admins@[j]).id == u;
            assert(d2.guilds@[k].admins@[j].id == u);
            assert(d2.spec_is_admin(u, gid));
        }
    }
    assert forall|u: u64| d1.spec_is_admin(u, gid) == d1.guilds@[k].g_is_admin(u) by {
        if d1.spec_is_admin(u, gid) {
            let (i, j) = choose|i: int, j: int|
                #![trigger d1.guilds@[i].admins@[j]]
                0 <= i < d1.guilds@.len() && d1.guilds@[i].id == gid && 0 <= j
                    < d1.guilds@[i].admins@.len() && d1.guilds@[i].admins@[j].id == u;
            d1.lemma_guild_ids_unique(i, k);
            assert(d1.guilds@[k].g_is_admin(u));
        }
        if d1.guilds@[k].g_is_admin(u) {
            let j = choose|j: int|
                0 <= j < d1.guilds@[k].admins@.len() && (#[trigger] d1.guilds@[k].admins@[j]).id
                    == u;
            assert(d1.guilds@[k].admins@[j].id == u);
            assert(d1.spec_is_admin(u, gid));
        }
    }
    assert forall|u: u64, g: u64|
        g != gid implies d2.spec_sends_copies(u, g) == d1.spec_sends_copies(u, g) by {
        if d1.spec_sends_copies(u, g) {
            let (i, j) = choose|i: int, j: int|
                #![trigger d1.guilds@[i].admins@[j]]
                0 <= i < d1.guilds@.len() && d1.guilds@[i].id == g && 0 <= j
                    < d1.guilds@[i].admins@.len() && d1.guilds@[i].admins@[j].id == u
                    && d1.guilds@[i].admins@[j].send_notif_copies;
            assert(i != k);
            assert(d2.guilds@[i].admins@[j].id == u && d2.guilds@[i].admins@[j].send_notif_copies);
            assert(d2.spec_sends_copies(u, g));
        }
        if d2.spec_sends_copies(u, g) {
            let (i, j) = choose|i: int, j: int|
                #![trigger d2.guilds@[i].admins@[j]]
                0 <= i < d2.guilds@.len() && d2.guilds@[i].id == g && 0 <= j
                    < d2.guilds@[i].admins@.len() && d2.guilds@[i].admins@[j].id == u
                    && d2.guilds@[i].admins@[j].send_notif_copies;
            assert(i != k);
            assert(d1.guilds@[i].admins@[j].id == u && d1.guilds@[i].admins@[j].send_notif_copies);
            assert(d1.spec_sends_copies(u, g));
        }
    }
    assert forall|u: u64| d2.spec_sends_copies(u, gid) == g2.g_sends_copies(u) by {
        if d2.spec_sends_copies(u, gid) {
            let (i, j) = choose|i: int, j: int|
                #![trigger d2.guilds@[i].admins@[j]]
                0 <= i < d2.guilds@.len() && d2.guilds@[i].id == gid && 0 <= j
                    < d2.guilds@[i].admins@.len() && d2.guilds@[i].admins@[j].id == u
                    && d2.guilds@[i].admins@[j].send_notif_copies;
            d2.lemma_guild_ids_unique(i, k);
            assert(g2.admins@[j].id == u && g2.admins@[j].send_notif_copies);
            assert(g2.g_sends_copies(u));
        }
        if g2.g_sends_copies(u) {
            let j = choose|j: int|
                0 <= j < g2.admins@.len() && (#[trigger] g2.admins@[j]).id == u
                    && g2.admins@[j].send_notif_copies;
            assert(d2.guilds@[k].admins@[j].id == u
                && d2.guilds@[k].admins@[j].send_notif_copies);
            assert(d2.spec_sends_copies(u, gid));
        }
    }
    assert forall|u: u64| d1.spec_sends_copies(u, gid) == d1.guilds@[k].g_sends_copies(u) by {
        if d1.spec_sends_copies(u, gid) {
            let (i, j) = choose|i: int, j: int|
                #![trigger d1.guilds@[i].admins@[j]]
                0 <= i < d1.guilds@.len() && d1.guilds@[i].id == gid && 0 <= j
                    < d1.guilds@[i].admins@.len() && d1.guilds@[i].admins@[j].id == u
                    && d1.guilds@[i].admins@[j].send_notif_copies;
            d1.lemma_guild_ids_unique(i, k);
            assert(d1.guilds@[k].g_sends_copies(u));
        }
        if d1.guilds@[k].g_sends_copies(u) {
            let j = choose|j: int|
                0 <= j < d1.guilds@[k].admins@.len() && (#[trigger] d1.guilds@[k].admins@[j]).id
                    == u && d1.guilds@[k].admins@[j].send_notif_copies;
            assert(d1.guilds@[k].admins@[j].id == u
                && d1.guilds@[k].admins@[j].send_notif_copies);
            assert(d1.spec_sends_copies(u, gid));
        }
    }
    assert forall|g: u64, c: u64|
        g != gid && d1.has_notif_channel(g, c) implies d2.subscribers(g, c) == d1.subscribers(
            g,
            c,
        ) by {
        let (i, j) = choose|i: int, j: int|
            #![trigger d1.guilds@[i].notif_channels@[j]]
            0 <= i < d1.guilds@.len() && d1.guilds@[i].id == g && 0 <= j
                < d1.guilds@[i].notif_channels@.len() && d1.guilds@[i].notif_channels@[j].id == c;
        d1.lemma_guild_index_is(g, i);
        d2.lemma_guild_index_is(g, i);
    }
}

impl PCData {
    /// The position of the guild's record, creating an empty record when the
    /// guild is new. Beyond possibly bringing the guild into existence this
    /// changes nothing the store's observations can see.
    fn ensure_guild(&mut self, guild: u64) -> (gi: usize)
        requires
            old(self).wf(),
        ensures
            final(self).wf(),
            gi < final(self).guilds@.len(),
            final(self).guilds@[gi as int].id == guild,
            final(self).guild_index(guild) == gi,
            final(self).has_guild(guild),
            forall|g: u64| final(self).has_guild(g) == (old(self).has_guild(g) || g == guild),
            forall|g: u64, c: u64| final(self).spec_is_afk(g, c) == old(self).spec_is_afk(g, c),
            forall|g: u64, c: u64|
                final(self).has_notif_channel(g, c) == old(self).has_notif_channel(g, c),
            forall|g: u64, c: u64, u: u64|
                final(self).spec_subscribed(g, c, u) == old(self).spec_subscribed(g, c, u),
            forall|u: u64, g: u64| final(self).spec_is_admin(u, g) == old(self).spec_is_admin(
                u,
                g,
            ),
            forall|u: u64, g: u64|
                final(self).spec_sends_copies(u, g) == old(self).spec_sends_copies(u, g),
            forall|g: u64, c: u64|
                old(self).has_notif_channel(g, c) ==> final(self).subscribers(g, c) == old(
                    self,
                ).subscribers(g, c),
            forall|g: u64|
                g != guild && old(self).has_guild(g) ==> final(self).guild_index(g) == old(
                    self,
                ).guild_index(g) && final(self).spec_guild(g) == old(self).spec_guild(g),
            old(self).has_guild(guild) ==> *final(self) == *old(self),
            !old(self).has_guild(guild) ==> final(self).spec_guild(guild).admins@.len() == 0
                && final(self).spec_guild(guild).afk_channels@.len() == 0
                && final(self).spec_guild(guild).notif_channels@.len() == 0,
    {
        match find_guild_index(&self.guilds, guild) {
            Some(i) => {
                proof {
                    self.lemma_guild_index_is(guild, i as int);
                }
                i
            },
            None => {
                let ghost d1 = *self;
                let g0 = PCGuild::new(guild);
                let ghost g0v = g0;
                self.guilds.push(g0);
                let gi = self.guilds.len() - 1;
                proof {
                    lemma_push_fresh_guild(d1, *self, g0v);
                }
                gi
            },
        }
    }
}

/// Two guild records with the same notification-channel list agree on every
/// channel- and subscription-level observation.
proof fn lemma_same_channels(g1: PCGuild, g2: PCGuild)
    requires
        g2.notif_channels@ == g1.notif_channels@,
    ensures
        forall|c: u64| g2.has_channel(c) == g1.has_channel(c),
        forall|c: u64, u: u64| g2.g_subscribed(c, u) == g1.g_subscribed(c, u),
{
    assert forall|c: u64| g2.has_channel(c) == g1.has_channel(c) by {
        if g1.has_channel(c) {
            let j = choose|j: int|
                0 <= j < g1.notif_channels@.len() && (#[trigger] g1.notif_channels@[j]).id == c;
            assert(g2.notif_channels@[j].id == c);
            assert(g2.has_channel(c));
        }
        if g2.has_channel(c) {
            let j = choose|j: int|
                0 <= j < g2.notif_channels@.len() && (#[trigger] g2.notif_channels@[j]).id == c;
            assert(g1.notif_channels@[j].id == c);
            assert(g1.has_channel(c));
        }
    }
    assert forall|c: u64, u: u64| g2.g_subscribed(c, u) == g1.g_subscribed(c, u) by {
        if g1.g_subscribed(c, u) {
            let j = choose|j: int|
                0 <= j < g1.notif_channels@.len() && (#[trigger] g1.notif_channels@[j]).id == c
                    && g1.notif_channels@[j].subscribed_users@.contains(u);
            assert(g2.notif_channels@[j].id == c
                && g2.notif_channels@[j].subscribed_users@.contains(u));
            assert(g2.g_subscribed(c, u));
        }
        if g2.g_subscribed(c, u) {
            let j = choose|j: int|
                0 <= j < g2.notif_channels@.len() && (#[trigger] g2.notif_channels@[j]).id == c
                    && g2.notif_channels@[j].subscribed_users@.contains(u);
            assert(g1.notif_channels@[j].id == c
                && g1.notif_channels@[j].subscribed_users@.contains(u));
            assert(g1.g_subscribed(c, u));
        }
    }
}

/// Two guild records with the same admin list agree on every admin-level
/// observation.
proof fn lemma_same_admins(g1: PCGuild, g2: PCGuild)
    requires
        g2.admins@ == g1.admins@,
    ensures
        forall|u: u64| g2.g_is_admin(u) == g1.g_is_admin(u),
        forall|u: u64| g2.g_sends_copies(u) == g1.g_sends_copies(u),
{
    assert forall|u: u64| g2.g_is_admin(u) == g1.g_is_admin(u) by {
        if g1.g_is_admin(u) {
            let j = choose|j: int|
                0 <= j < g1.admins@.len() && (#[trigger] g1.admins@[j]).id == u;
            assert(g2.admins@[j].id == u);
            assert(g2.g_is_admin(u));
        }
        if g2.g_is_admin(u) {
            let j = choose|j: int|
                0 <= j < g2.admins@.len() && (#[trigger] g2.admins@[j]).id == u;
            assert(g1.admins@[j].id == u);
            assert(g1.g_is_admin(u));
        }
    }
    assert forall|u: u64| g2.g_sends_copies(u) == g1.g_sends_copies(u) by {
        if g1.g_sends_copies(u) {
            let j = choose|j: int|
                0 <= j < g1.admins@.len() && (#[trigger] g1.admins@[j]).id == u
                    && g1.admins@[j].send_notif_copies;
            assert(g2.admins@[j].id == u && g2.admins@[j].send_notif_copies);
            assert(g2.g_sends_copies(u));
        }
        if g2.g_sends_copies(u) {
            let j = choose|j: int|
                0 <= j < g2.admins@.len() && (#[trigger] g2.admins@[j]).id == u
                    && g2.admins@[j].send_notif_copies;
            assert(g1.admins@[j].id == u && g1.admins@[j].send_notif_copies);
            assert(g1.g_sends_copies(u));
        }
    }
}

/// Appending a well-formed notification channel with a fresh id adds exactly
/// that channel's subscriptions and changes nothing else a guild's
/// observations can see.
proof fn lemma_push_fresh_channel(g1: PCGuild, g2: PCGuild, ch0: PCNotifChannel)
    requires
        g1.wf(),
        !g1.has_channel(ch0.id),
        g2.notif_channels@ == g1.notif_channels@.push(ch0),
        ch0.wf(),
        g2.admins@ == g1.admins@,
        g2.afk_channels@ == g1.afk_channels@,
    ensures
        g2.wf(),
        g2.has_channel(ch0.id),
        g2.channel_index(ch0.id) == g1.notif_channels@.len(),
        g2.subscribers(ch0.id) == ch0.subscribed_users@,
        forall|c: u64| g2.has_channel(c) == (g1.has_channel(c) || c == ch0.id),
        forall|c: u64, u: u64|
            g2.g_subscribed(c, u) == (g1.g_subscribed(c, u) || (c == ch0.id
                && ch0.subscribed_users@.contains(u))),
        forall|c: u64|
            g1.has_channel(c) ==> g2.channel_index(c) == g1.channel_index(c) && g2.subscribers(c)
                == g1.subscribers(c),
{
    let len = g1.notif_channels@.len() as int;
    assert(forall|i: int| 0 <= i < len ==> g2.notif_channels@[i] == g1.notif_channels@[i]);
    assert(g2.notif_channels@[len] == ch0);
    assert(g2.wf()) by {
        assert forall|i: int, j: int|
            0 <= i < j < g2.notif_channels@.len() implies (#[trigger] g2.notif_channels@[i]).id
            != (#[trigger] g2.notif_channels@[j]).id by {
            if j < len {
                assert(g1.notif_channels@[i].id != g1.notif_channels@[j].id);
            } else {
                assert(g2.notif_channels@[j] == ch0);
                assert(g1.notif_channels@[i].id != ch0.id);
            }
        }
        assert forall|i: int|
            0 <= i < g2.notif_channels@.len() implies (#[trigger] g2.notif_channels@[i]).wf() by {
            if i < len {
                assert(g1.notif_channels@[i].wf());
            }
        }
    }
    g2.lemma_channel_index_is(ch0.id, len);
    assert forall|c: u64| g2.has_channel(c) == (g1.has_channel(c) || c == ch0.id) by {
        if g1.has_channel(c) {
            let j = choose|j: int|
                0 <= j < g1.notif_channels@.len() && (#[trigger] g1.notif_channels@[j]).id == c;
            assert(g2.notif_channels@[j].id == c);
            assert(g2.has_channel(c));
        }
        if g2.has_channel(c) && c != ch0.id {
            let j = choose|j: int|
                0 <= j < g2.notif_channels@.len() && (#[trigger] g2.notif_channels@[j]).id == c;
            assert(j < len);
            assert(g1.notif_channels@[j].id == c);
            assert(g1.has_channel(c));
        }
    }
    assert forall|c: u64, u: u64|
        g2.g_subscribed(c, u) == (g1.g_subscribed(c, u) || (c == ch0.id
            && ch0.subscribed_users@.contains(u))) by {
        if g1.g_subscribed(c, u) {
            let j = choose|j: int|
                0 <= j < g1.notif_channels@.len() && (#[trigger] g1.notif_channels@[j]).id == c
                    && g1.notif_channels@[j].subscribed_users@.contains(u);
            assert(g2.notif_channels@[j].id == c
                && g2.notif_channels@[j].subscribed_users@.contains(u));
            assert(g2.g_subscribed(c, u));
        }
        if c == ch0.id && ch0.subscribed_users@.contains(u) {
            assert(g2.notif_channels@[len].id == c
                && g2.notif_channels@[len].subscribed_users@.contains(u));
            assert(g2.g_subscribed(c, u));
        }
        if g2.g_subscribed(c, u) {
            let j = choose|j: int|
                0 <= j < g2.notif_channels@.len() && (#[trigger] g2.notif_channels@[j]).id == c
                    && g2.notif_channels@[j].subscribed_users@.contains(u);
            if j == len {
                assert(g2.notif_channels@[j] == ch0);
            } else {
                assert(g1.notif_channels@[j].id == c
                    && g1.notif_channels@[j].subscribed_users@.contains(u));
                assert(g1.g_subscribed(c, u));
            }
        }
    }
    assert forall|c: u64|
        g1.has_channel(c) implies g2.channel_index(c) == g1.channel_index(c) && g2.subscribers(c)
            == g1.subscribers(c) by {
        let j = g1.channel_index(c);
        assert(0 <= j < g1.notif_channels@.len() && g1.notif_channels@[j].id == c);
        g2.lemma_channel_index_is(c, j);
    }
}

/// Replacing one notification channel by a well-formed channel with the same
/// id leaves every other channel's observations untouched and maps the
/// replaced channel's observations to the new record.
proof fn lemma_replace_channel(g1: PCGuild, g2: PCGuild, k: int, ch2: PCNotifChannel)
    requires
        g1.wf(),
        0 <= k < g1.notif_channels@.len(),
        g2.notif_channels@ == g1.notif_channels@.update(k, ch2),
        ch2.id == g1.notif_channels@[k].id,
        ch2.wf(),
        g2.admins@ == g1.admins@,
        g2.afk_channels@ == g1.afk_channels@,
    ensures
        g2.wf(),
        g2.has_channel(ch2.id),
        g2.channel_index(ch2.id) == k,
        g1.channel_index(ch2.id) == k,
        g2.subscribers(ch2.id) == ch2.subscribed_users@,
        g1.subscribers(ch2.id) == g1.notif_channels@[k].subscribed_users@,
        forall|c: u64| g2.has_channel(c) == g1.has_channel(c),
        forall|c: u64, u: u64| c != ch2.id ==> g2.g_subscribed(c, u) == g1.g_subscribed(c, u),
        forall|u: u64| g2.g_subscribed(ch2.id, u) == ch2.subscribed_users@.contains(u),
        forall|u: u64|
            g1.g_subscribed(ch2.id, u) == g1.notif_channels@[k].subscribed_users@.contains(u),
        forall|c: u64|
            c != ch2.id && g1.has_channel(c) ==> g2.channel_index(c) == g1.channel_index(c)
                && g2.subscribers(c) == g1.subscribers(c),
{
    let cid = ch2.id;
    let len = g1.notif_channels@.len() as int;
    assert(forall|i: int|
        0 <= i < len && i != k ==> g2.notif_channels@[i] == g1.notif_channels@[i]);
    assert(g2.notif_channels@[k] == ch2);
    assert(g2.wf()) by {
        assert forall|i: int, j: int|
            0 <= i < j < g2.notif_channels@.len() implies (#[trigger] g2.notif_channels@[i]).id
            != (#[trigger] g2.notif_channels@[j]).id by {
            assert(g2.notif_channels@[i].id == g1.notif_channels@[i].id);
            assert(g2.notif_channels@[j].id == g1.notif_channels@[j].id);
            assert(g1.notif_channels@[i].id != g1.notif_channels@[j].id);
        }
        assert forall|i: int|
            0 <= i < g2.notif_channels@.len() implies (#[trigger] g2.notif_channels@[i]).wf() by {
            if i != k {
                assert(g1.notif_channels@[i].wf());
            }
        }
    }
    g2.lemma_channel_index_is(cid, k);
    g1.lemma_channel_index_is(cid, k);
    assert forall|c: u64| g2.has_channel(c) == g1.has_channel(c) by {
        if g1.has_channel(c) {
            let j = choose|j: int|
                0 <= j < g1.notif_channels@.len() && (#[trigger] g1.notif_channels@[j]).id == c;
            assert(g2.notif_channels@[j].id == c);
        }
        if g2.has_channel(c) {
            let j = choose|j: int|
                0 <= j < g2.notif_channels@.len() && (#[trigger] g2.notif_channels@[j]).id == c;
            assert(g1.notif_channels@[j].id == c);
        }
    }
    assert forall|c: u64, u: u64|
        c != cid implies g2.g_subscribed(c, u) == g1.g_subscribed(c, u) by {
        if g1.g_subscribed(c, u) {
            let j = choose|j: int|
                0 <= j < g1.notif_channels@.len() && (#[trigger] g1.notif_channels@[j]).id == c
                    && g1.notif_channels@[j].subscribed_users@.contains(u);
            assert(j != k);
            assert(g2.notif_channels@[j].id == c
                && g2.notif_channels@[j].subscribed_users@.contains(u));
            assert(g2.g_subscribed(c, u));
        }
        if g2.g_subscribed(c, u) {
            let j = choose|j: int|
                0 <= j < g2.notif_channels@.len() && (#[trigger] g2.notif_channels@[j]).id == c
                    && g2.notif_channels@[j].subscribed_users@.contains(u);
            assert(j != k);
            assert(g1.notif_channels@[j].id == c
                && g1.notif_channels@[j].subscribed_users@.contains(u));
            assert(g1.g_subscribed(c, u));
        }
    }
    assert forall|u: u64| g2.g_subscribed(cid, u) == ch2.subscribed_users@.contains(u) by {
        if g2.g_subscribed(cid, u) {
            let j = choose|j: int|
                0 <= j < g2.notif_channels@.len() && (#[trigger] g2.notif_channels@[j]).id == cid
                    && g2.notif_channels@[j].subscribed_users@.contains(u);
            g2.lemma_channel_ids_unique(j, k);
        }
        if ch2.subscribed_users@.contains(u) {
            assert(g2.notif_channels@[k].id == cid
                && g2.notif_channels@[k].subscribed_users@.contains(u));
            assert(g2.g_subscribed(cid, u));
        }
    }
    assert forall|u: u64|
        g1.g_subscribed(cid, u) == g1.notif_channels@[k].subscribed_users@.contains(u) by {
        if g1.g_subscribed(cid, u) {
            let j = choose|j: int|
                0 <= j < g1.notif_channels@.len() && (#[trigger] g1.notif_channels@[j]).id == cid
                    && g1.notif_channels@[j].subscribed_users@.contains(u);
            g1.lemma_channel_ids_unique(j, k);
        }
        if g1.notif_channels@[k].subscribed_users@.contains(u) {
            assert(g1.notif_channels@[k].id == cid);
            assert(g1.g_subscribed(cid, u));
        }
    }
    assert forall|c: u64|
        c != cid && g1.has_channel(c) implies g2.channel_index(c) == g1.channel_index(c)
            && g2.subscribers(c) == g1.subscribers(c) by {
        let j = g1.channel_index(c);
        assert(0 <= j < g1.notif_channels@.len() && g1.notif_channels@[j].id == c);
        assert(j != k);
        g2.lemma_channel_index_is(c, j);
    }
}

/// Removing position `i` of a duplicate-free sequence by swapping the last
/// element in (as `Vec::swap_remove` does) keeps the sequence duplicate-free
/// and removes exactly the element that stood at `i`.
proof fn lemma_swap_remove_unique(s: Seq<u64>, t: Seq<u64>, i: int)
    requires
        0 <= i < s.len(),
        forall|a: int, b: int| #![trigger s[a], s[b]] 0 <= a < b < s.len() ==> s[a] != s[b],
        t == s.update(i, s.last()).drop_last(),
    ensures
        t.len() == s.len() - 1,
        forall|a: int, b: int| #![trigger t[a], t[b]] 0 <= a < b < t.len() ==> t[a] != t[b],
        forall|x: u64| t.contains(x) == (s.contains(x) && x != s[i]),
{
    let n = s.len() as int;
    assert(forall|a: int|
        0 <= a < n - 1 ==> t[a] == (if a == i {
            s[n - 1]
        } else {
            s[a]
        }));
    assert forall|a: int, b: int| 0 <= a < b < t.len() implies (#[trigger] t[a]) != (
    #[trigger] t[b]) by {
        if a == i {
            assert(s[b] != s[n - 1]);
        } else if b == i {
            assert(s[a] != s[n - 1]);
        } else {
            assert(s[a] != s[b]);
        }
    }
    assert forall|x: u64| t.contains(x) == (s.contains(x) && x != s[i]) by {
        if t.contains(x) {
            let a = choose|a: int| 0 <= a < t.len() && t[a] == x;
            if a == i {
                assert(x == s[n - 1]);
                assert(s.contains(x)) by {
                    assert(s[n - 1] == x);
                }
                assert(s[i] != s[n - 1]);
            } else {
                assert(x == s[a]);
                assert(s.contains(x)) by {
                    assert(s[a] == x);
                }
                if a < i {
                    assert(s[a] != s[i]);
                } else {
                    assert(s[i] != s[a]);
                }
            }
        }
        if s.contains(x) && x != s[i] {
            let j = choose|j: int| 0 <= j < s.len() && s[j] == x;
            assert(j != i);
            if j < n - 1 {
                assert(t[j] == x);
                assert(t.contains(x));
            } else {
                assert(i < n - 1);
                assert(t[i] == s[n - 1]);
                assert(t.contains(x)) by {
                    assert(t[i] == x);
                }
            }
        }
    }
}

impl PCData {
    /// Subscribe the user to joins of the guild's channel, creating the
    /// guild and channel records when they are new. Idempotent: subscribing
    /// an already-subscribed user changes nothing.
    pub fn add_subscription(&mut self, user: u64, guild: u64, channel: u64)
        requires
            old(self).wf(),
        ensures
            final(self).wf(),
            final(self).spec_subscribed(guild, channel, user),
            forall|g: u64, c: u64, u: u64|
                final(self).spec_subscribed(g, c, u) == (old(self).spec_subscribed(g, c, u) || (g
                    == guild && c == channel && u == user)),
            forall|g: u64| final(self).has_guild(g) == (old(self).has_guild(g) || g == guild),
            forall|g: u64, c: u64|
                final(self).has_notif_channel(g, c) == (old(self).has_notif_channel(g, c) || (g
                    == guild && c == channel)),
            forall|g: u64, c: u64| final(self).spec_is_afk(g, c) == old(self).spec_is_afk(g, c),
            forall|u: u64, g: u64| final(self).spec_is_admin(u, g) == old(self).spec_is_admin(
                u,
                g,
            ),
            forall|u: u64, g: u64|
                final(self).spec_sends_copies(u, g) == old(self).spec_sends_copies(u, g),
            forall|g: u64, c: u64|
                old(self).has_notif_channel(g, c) && !(g == guild && c == channel) ==> final(self).subscribers(g, c) == old(self).subscribers(g, c),
            final(self).subscribers(guild, channel) == (if old(self).spec_subscribed(
                guild,
                channel,
                user,
            ) {
                old(self).subscribers(guild, channel)
            } else if old(self).has_notif_channel(guild, channel) {
                old(self).subscribers(guild, channel).push(user)
            } else {
                seq![user]
            }),
            old(self).spec_subscribed(guild, channel, user) ==> *final(self) == *old(self),
    {
        let ghost d0 = *self;
        let gi = self.ensure_guild(guild);
        let ghost d1 = *self;
        let ghost g1 = self.guilds@[gi as int];
        proof {
            assert(g1.wf());
        }
        match find_channel_index(&self.guilds[gi].notif_channels, channel) {
            Some(ci) => {
                proof {
                    g1.lemma_channel_index_is(channel, ci as int);
                }
                if !contains_u64(&self.guilds[gi].notif_channels[ci].subscribed_users, user) {
                    let ghost ch1 = g1.notif_channels@[ci as int];
                    self.guilds[gi].notif_channels[ci].subscribed_users.push(user);
                    proof {
                        let g2 = self.guilds@[gi as int];
                        let ch2 = g2.notif_channels@[ci as int];
                        assert(ch2.subscribed_users@ == ch1.subscribed_users@.push(user));
                        assert(g2.notif_channels@ =~= g1.notif_channels@.update(ci as int, ch2));
                        assert(ch2.wf()) by {
                            assert(ch1.wf());
                            assert forall|a: int, b: int|
                                0 <= a < b < ch2.subscribed_users@.len() implies (
                            #[trigger] ch2.subscribed_users@[a]) != (
                            #[trigger] ch2.subscribed_users@[b]) by {
                                if b < ch1.subscribed_users@.len() {
                                    assert(ch1.subscribed_users@[a] != ch1.subscribed_users@[b]);
                                } else {
                                    assert(ch2.subscribed_users@[b] == user);
                                    if ch1.subscribed_users@[a] == user {
                                        assert(ch1.subscribed_users@.contains(user));
                                    }
                                }
                            }
                        }
                        lemma_replace_channel(g1, g2, ci as int, ch2);
                        assert(self.guilds@ =~= d1.guilds@.update(gi as int, g2));
                        lemma_replace_guild(d1, *self, gi as int, g2);
                        lemma_same_admins(g1, g2);
                        assert(!d0.spec_subscribed(guild, channel, user)) by {
                            assert(!ch1.subscribed_users@.contains(user));
                        }
                        assert forall|g: u64, c: u64, u: u64|
                            self.spec_subscribed(g, c, u) == (d0.spec_subscribed(g, c, u) || (g
                                == guild && c == channel && u == user)) by {
                            if g == guild && c == channel {
                                vstd::seq_lib::lemma_seq_contains_after_push(
                                    ch1.subscribed_users@,
                                    user,
                                    u,
                                );
                            }
                        }
                        assert forall|g: u64, c: u64|
                            self.spec_is_afk(g, c) == d0.spec_is_afk(g, c) by {
                            if g == guild {
                                assert(g2.g_is_afk(c) == g1.g_is_afk(c));
                            }
                        }
                        assert forall|g: u64, c: u64|
                            d0.has_notif_channel(g, c) && !(g == guild && c == channel) implies
                            self.subscribers(g, c) == d0.subscribers(g, c) by {
                            if g == guild {
                                assert(d1.subscribers(guild, c) == g1.subscribers(c));
                                assert(g2.subscribers(c) == g1.subscribers(c));
                            }
                        }
                        assert(self.subscribers(guild, channel) == g2.subscribers(channel));
                        assert(g2.subscribers(channel) == ch2.subscribed_users@);
                        assert(d0.subscribers(guild, channel) == ch1.subscribed_users@) by {
                            assert(d1.subscribers(guild, channel) == g1.subscribers(channel));
                            assert(g1.subscribers(channel) == ch1.subscribed_users@);
                            assert(d0.has_notif_channel(guild, channel));
                        }
                    }
                }
                else {
                    proof {
                        assert(g1.notif_channels@[ci as int].subscribed_users@.contains(user));
                        assert(d1.spec_subscribed(guild, channel, user)) by {
                            assert(d1.guilds@[gi as int].id == guild);
                            assert(d1.guilds@[gi as int].notif_channels@[ci as int].id == channel
                                && d1.guilds@[gi as int].notif_channels@[ci as int].subscribed_users@.contains(
                                user,
                            ));
                        }
                        assert(d0.spec_subscribed(guild, channel, user));
                        assert(d0.has_guild(guild)) by {
                            let (i, j) = choose|i: int, j: int|
                                #![trigger d0.guilds@[i].notif_channels@[j]]
                                0 <= i < d0.guilds@.len() && d0.guilds@[i].id == guild && 0 <= j
                                    < d0.guilds@[i].notif_channels@.len()
                                    && d0.guilds@[i].notif_channels@[j].id == channel
                                    && d0.guilds@[i].notif_channels@[j].subscribed_users@.contains(
                                    user,
                                );
                            assert(d0.guilds@[i].id == guild);
                        }
                        assert(*self == d0);
                    }
                }
            },
            None => {
                let mut ch = PCNotifChannel::new(channel);
                ch.subscribed_users.push(user);
                let ghost ch0 = ch;
                self.guilds[gi].notif_channels.push(ch);
                proof {
                    let g2 = self.guilds@[gi as int];
                    assert(g2.notif_channels@ == g1.notif_channels@.push(ch0));
                    assert(!g1.has_channel(channel));
                    assert(ch0.wf());
                    assert forall|u: u64| ch0.subscribed_users@.contains(u) == (u == user) by {
                        if ch0.subscribed_users@.contains(u) {
                            let a = choose|a: int|
                                0 <= a < ch0.subscribed_users@.len()
                                    && ch0.subscribed_users@[a] == u;
                            assert(a == 0);
                        }
                        if u == user {
                            assert(ch0.subscribed_users@[0] == user);
                        }
                    }
                    lemma_push_fresh_channel(g1, g2, ch0);
                    assert(self.guilds@ =~= d1.guilds@.update(gi as int, g2));
                    lemma_replace_guild(d1, *self, gi as int, g2);
                    lemma_same_admins(g1, g2);
                    assert(!d0.has_notif_channel(guild, channel)) by {
                        assert(d1.has_notif_channel(guild, channel) == g1.has_channel(channel));
                    }
                    assert(!d0.spec_subscribed(guild, channel, user)) by {
                        if d0.spec_subscribed(guild, channel, user) {
                            let (i, j) = choose|i: int, j: int|
                                #![trigger d0.guilds@[i].notif_channels@[j]]
                                0 <= i < d0.guilds@.len() && d0.guilds@[i].id == guild && 0 <= j
                                    < d0.guilds@[i].notif_channels@.len()
                                    && d0.guilds@[i].notif_channels@[j].id == channel
                                    && d0.guilds@[i].notif_channels@[j].subscribed_users@.contains(
                                    user,
                                );
                            assert(d0.has_notif_channel(guild, channel));
                        }
                    }
                    assert forall|g: u64, c: u64, u: u64|
                        self.spec_subscribed(g, c, u) == (d0.spec_subscribed(g, c, u) || (g
                            == guild && c == channel && u == user)) by {}
                    assert forall|g: u64, c: u64|
                        self.spec_is_afk(g, c) == d0.spec_is_afk(g, c) by {
                        if g == guild {
                            assert(g2.g_is_afk(c) == g1.g_is_afk(c));
                        }
                    }
                    assert forall|g: u64, c: u64|
                        d0.has_notif_channel(g, c) && !(g == guild && c == channel) implies
                        self.subscribers(g, c) == d0.subscribers(g, c) by {
                        if g == guild {
                            assert(d1.subscribers(guild, c) == g1.subscribers(c));
                            assert(g2.subscribers(c) == g1.subscribers(c));
                        }
                    }
                    assert(self.subscribers(guild, channel) == ch0.subscribed_users@);
                    assert(ch0.subscribed_users@ =~= seq![user]);
                }
            },
        }
    }

    /// Withdraw the user's subscription to the guild's channel. Reports
    /// whether the user was subscribed; when guild, channel, or user is
    /// unknown the store is left unchanged.
    pub fn remove_subscription(&mut self, user: u64, guild: u64, channel: u64) -> (removed: bool)
        requires
            old(self).wf(),
        ensures
            final(self).wf(),
            removed == old(self).spec_subscribed(guild, channel, user),
            !removed ==> *final(self) == *old(self),
            !final(self).spec_subscribed(guild, channel, user),
            forall|g: u64, c: u64, u: u64|
                final(self).spec_subscribed(g, c, u) == (old(self).spec_subscribed(g, c, u) && !(g
                    == guild && c == channel && u == user)),
            forall|g: u64| final(self).has_guild(g) == old(self).has_guild(g),
            forall|g: u64, c: u64|
                final(self).has_notif_channel(g, c) == old(self).has_notif_channel(g, c),
            forall|g: u64, c: u64| final(self).spec_is_afk(g, c) == old(self).spec_is_afk(g, c),
            forall|u: u64, g: u64| final(self).spec_is_admin(u, g) == old(self).spec_is_admin(
                u,
                g,
            ),
            forall|u: u64, g: u64|
                final(self).spec_sends_copies(u, g) == old(self).spec_sends_copies(u, g),
            forall|g: u64, c: u64|
                old(self).has_notif_channel(g, c) && !(g == guild && c == channel) ==> final(self).subscribers(g, c) == old(self).subscribers(g, c),
    {
        let ghost d0 = *self;
        match find_guild_index(&self.guilds, guild) {
            None => {
                proof {
                    if self.spec_subscribed(guild, channel, user) {
                        let (i, j) = choose|i: int, j: int|
                            #![trigger self.guilds@[i].notif_channels@[j]]
                            0 <= i < self.guilds@.len() && self.guilds@[i].id == guild && 0 <= j
                                < self.guilds@[i].notif_channels@.len()
                                && self.guilds@[i].notif_channels@[j].id == channel
                                && self.guilds@[i].notif_channels@[j].subscribed_users@.contains(
                                user,
                            );
                        assert(self.guilds@[i].id != guild);
                    }
                }
                false
            },
            Some(gi) => {
                proof {
                    self.lemma_guild_index_is(guild, gi as int);
                }
                let ghost g1 = self.guilds@[gi as int];
                match find_channel_index(&self.guilds[gi].notif_channels, channel) {
                    None => {
                        proof {
                            if self.spec_subscribed(guild, channel, user) {
                                let (i, j) = choose|i: int, j: int|
                                    #![trigger self.guilds@[i].notif_channels@[j]]
                                    0 <= i < self.guilds@.len() && self.guilds@[i].id == guild
                                        && 0 <= j < self.guilds@[i].notif_channels@.len()
                                        && self.guilds@[i].notif_channels@[j].id == channel
                                        && self.guilds@[i].notif_channels@[j].subscribed_users@.contains(
                                        user,
                                    );
                                self.lemma_guild_ids_unique(i, gi as int);
                            }
                        }
                        false
                    },
                    Some(ci) => {
                        proof {
                            g1.lemma_channel_index_is(channel, ci as int);
                        }
                        match index_of_u64(
                            &self.guilds[gi].notif_channels[ci].subscribed_users,
                            user,
                        ) {
                            None => {
                                proof {
                                    if self.spec_subscribed(guild, channel, user) {
                                        let (i, j) = choose|i: int, j: int|
                                            #![trigger self.guilds@[i].notif_channels@[j]]
                                            0 <= i < self.guilds@.len() && self.guilds@[i].id
                                                == guild && 0 <= j
                                                < self.guilds@[i].notif_channels@.len()
                                                && self.guilds@[i].notif_channels@[j].id == channel
                                                && self.guilds@[i].notif_channels@[j].subscribed_users@.contains(
                                                user,
                                            );
                                        self.lemma_guild_ids_unique(i, gi as int);
                                        g1.lemma_channel_ids_unique(j, ci as int);
                                    }
                                }
                                false
                            },
                            Some(ui) => {
                                let ghost ch1 = g1.notif_channels@[ci as int];
                                self.guilds[gi].notif_channels[ci].subscribed_users.swap_remove(
                                    ui,
                                );
                                proof {
                                    let g2 = self.guilds@[gi as int];
                                    let ch2 = g2.notif_channels@[ci as int];
                                    assert(ch2.subscribed_users@ == ch1.subscribed_users@.update(
                                        ui as int,
                                        ch1.subscribed_users@.last(),
                                    ).drop_last());
                                    assert(g2.notif_channels@ =~= g1.notif_channels@.update(
                                        ci as int,
                                        ch2,
                                    ));
                                    assert(ch1.wf());
                                    lemma_swap_remove_unique(
                                        ch1.subscribed_users@,
                                        ch2.subscribed_users@,
                                        ui as int,
                                    );
                                    assert(ch2.wf());
                                    lemma_replace_channel(g1, g2, ci as int, ch2);
                                    assert(self.guilds@ =~= d0.guilds@.update(gi as int, g2));
                                    lemma_replace_guild(d0, *self, gi as int, g2);
                                    lemma_same_admins(g1, g2);
                                    assert(ch1.subscribed_users@[ui as int] == user);
                                    assert(d0.spec_subscribed(guild, channel, user)) by {
                                        assert(ch1.subscribed_users@.contains(user)) by {
                                            assert(ch1.subscribed_users@[ui as int] == user);
                                        }
                                        assert(d0.guilds@[gi as int].id == guild);
                                        assert(d0.guilds@[gi as int].notif_channels@[ci as int].id
                                            == channel
                                            && d0.guilds@[gi as int].notif_channels@[ci as int].subscribed_users@.contains(
                                            user,
                                        ));
                                    }
                                    assert forall|g: u64, c: u64, u: u64|
                                        self.spec_subscribed(g, c, u) == (d0.spec_subscribed(
                                            g,
                                            c,
                                            u,
                                        ) && !(g == guild && c == channel && u == user)) by {
                                        if g == guild && c == channel {
                                            assert(ch2.subscribed_users@.contains(u)
                                                == (ch1.subscribed_users@.contains(u) && u
                                                != user));
                                        }
                                    }
                                    assert forall|g: u64, c: u64|
                                        self.spec_is_afk(g, c) == d0.spec_is_afk(g, c) by {
                                        if g == guild {
                                            assert(g2.g_is_afk(c) == g1.g_is_afk(c));
                                        }
                                    }
                                    assert forall|g: u64, c: u64|
                                        d0.has_notif_channel(g, c) && !(g == guild && c
                                            == channel) implies self.subscribers(g, c)
                                        == d0.subscribers(g, c) by {
                                        if g == guild {
                                            assert(d0.subscribers(guild, c) == g1.subscribers(c));
                                            assert(g2.subscribers(c) == g1.subscribers(c));
                                        }
                                    }
                                }
                                true
                            },
                        }
                    },
                }
            },
        }
    }

    /// Mark the channel as an AFK channel of the guild, creating the guild
    /// record when it is new. Idempotent: marking an already-marked channel
    /// changes nothing.
    pub fn add_afk_channel(&mut self, guild: u64, channel: u64)
        requires
            old(self).wf(),
        ensures
            final(self).wf(),
            final(self).spec_is_afk(guild, channel),
            forall|g: u64, c: u64|
                final(self).spec_is_afk(g, c) == (old(self).spec_is_afk(g, c) || (g == guild && c
                    == channel)),
            forall|g: u64| final(self).has_guild(g) == (old(self).has_guild(g) || g == guild),
            forall|g: u64, c: u64|
                final(self).has_notif_channel(g, c) == old(self).has_notif_channel(g, c),
            forall|g: u64, c: u64, u: u64|
                final(self).spec_subscribed(g, c, u) == old(self).spec_subscribed(g, c, u),
            forall|u: u64, g: u64| final(self).spec_is_admin(u, g) == old(self).spec_is_admin(
                u,
                g,
            ),
            forall|u: u64, g: u64|
                final(self).spec_sends_copies(u, g) == old(self).spec_sends_copies(u, g),
            forall|g: u64, c: u64|
                old(self).has_notif_channel(g, c) ==> final(self).subscribers(g, c) == old(
                    self,
                ).subscribers(g, c),
            old(self).spec_is_afk(guild, channel) ==> *final(self) == *old(self),
    {
        let ghost d0 = *self;
        let gi = self.ensure_guild(guild);
        let ghost d1 = *self;
        let ghost g1 = self.guilds@[gi as int];
        if !contains_u64(&self.guilds[gi].afk_channels, channel) {
            self.guilds[gi].afk_channels.push(channel);
            proof {
                let g2 = self.guilds@[gi as int];
                assert(self.guilds@ =~= d1.guilds@.update(gi as int, g2));
                assert(g2.afk_channels@ == g1.afk_channels@.push(channel));
                assert(g2.wf()) by {
                    assert(g1.wf());
                    assert forall|a: int, b: int|
                        0 <= a < b < g2.afk_channels@.len() implies (
                    #[trigger] g2.afk_channels@[a]) != (#[trigger] g2.afk_channels@[b]) by {
                        if b < g1.afk_channels@.len() {
                            assert(g1.afk_channels@[a] != g1.afk_channels@[b]);
                        } else {
                            assert(g2.afk_channels@[b] == channel);
                            if g1.afk_channels@[a] == channel {
                                assert(g1.afk_channels@.contains(channel));
                            }
                        }
                    }
                }
                lemma_replace_guild(d1, *self, gi as int, g2);
                assert forall|g: u64, c: u64|
                    self.spec_is_afk(g, c) == (d0.spec_is_afk(g, c) || (g == guild && c
                        == channel)) by {
                    if g == guild {
                        vstd::seq_lib::lemma_seq_contains_after_push(g1.afk_channels@, channel, c);
                    }
                }
                assert forall|g: u64, c: u64|
                    d0.has_notif_channel(g, c) implies self.subscribers(g, c) == d0.subscribers(
                        g,
                        c,
                    ) by {
                    if g == guild {
                        assert(g2.notif_channels@ == g1.notif_channels@);
                        let j = g1.channel_index(c);
                        assert(0 <= j < g1.notif_channels@.len() && g1.notif_channels@[j].id == c);
                        g2.lemma_channel_index_is(c, j);
                        g1.lemma_channel_index_is(c, j);
                    }
                }
                if d0.spec_is_afk(guild, channel) {
                    let i = choose|i: int|
                        0 <= i < d1.guilds@.len() && (#[trigger] d1.guilds@[i]).id == guild
                            && d1.guilds@[i].afk_channels@.contains(channel);
                    d1.lemma_guild_ids_unique(i, gi as int);
                }
            }
        } else {
            proof {
                assert(self.spec_is_afk(guild, channel)) by {
                    assert(self.guilds@[gi as int].id == guild
                        && self.guilds@[gi as int].afk_channels@.contains(channel));
                }
            }
        }
    }

    /// Unmark the channel as an AFK channel of the guild. Reports whether it
    /// was marked; when it was not (or the guild is unknown) the store is
    /// left unchanged.
    pub fn remove_afk_channel(&mut self, guild: u64, channel: u64) -> (removed: bool)
        requires
            old(self).wf(),
        ensures
            final(self).wf(),
            removed == old(self).spec_is_afk(guild, channel),
            !removed ==> *final(self) == *old(self),
            !final(self).spec_is_afk(guild, channel),
            forall|g: u64, c: u64|
                final(self).spec_is_afk(g, c) == (old(self).spec_is_afk(g, c) && !(g == guild && c
                    == channel)),
            forall|g: u64| final(self).has_guild(g) == old(self).has_guild(g),
            forall|g: u64, c: u64|
                final(self).has_notif_channel(g, c) == old(self).has_notif_channel(g, c),
            forall|g: u64, c: u64, u: u64|
                final(self).spec_subscribed(g, c, u) == old(self).spec_subscribed(g, c, u),
            forall|u: u64, g: u64| final(self).spec_is_admin(u, g) == old(self).spec_is_admin(
                u,
                g,
            ),
            forall|u: u64, g: u64|
                final(self).spec_sends_copies(u, g) == old(self).spec_sends_copies(u, g),
            forall|g: u64, c: u64|
                old(self).has_notif_channel(g, c) ==> final(self).subscribers(g, c) == old(
                    self,
                ).subscribers(g, c),
    {
        let ghost d0 = *self;
        match find_guild_index(&self.guilds, guild) {
            None => false,
            Some(gi) => {
                proof {
                    self.lemma_guild_index_is(guild, gi as int);
                }
                match index_of_u64(&self.guilds[gi].afk_channels, channel) {
                    None => {
                        proof {
                            if self.spec_is_afk(guild, channel) {
                                let i = choose|i: int|
                                    0 <= i < self.guilds@.len() && (#[trigger] self.guilds@[i]).id
                                        == guild && self.guilds@[i].afk_channels@.contains(
                                        channel,
                                    );
                                self.lemma_guild_ids_unique(i, gi as int);
                            }
                        }
                        false
                    },
                    Some(idx) => {
                        let ghost g1 = self.guilds@[gi as int];
                        self.guilds[gi].afk_channels.swap_remove(idx);
                        proof {
                            let g2 = self.guilds@[gi as int];
                            assert(self.guilds@ =~= d0.guilds@.update(gi as int, g2));
                            lemma_swap_remove_unique(
                                g1.afk_channels@,
                                g2.afk_channels@,
                                idx as int,
                            );
                            assert(g2.wf()) by {
                                assert(g1.wf());
                            }
                            lemma_replace_guild(d0, *self, gi as int, g2);
                            lemma_same_channels(g1, g2);
                            lemma_same_admins(g1, g2);
                            assert(g1.afk_channels@.contains(channel)) by {
                                assert(g1.afk_channels@[idx as int] == channel);
                            }
                            assert(d0.spec_is_afk(guild, channel)) by {
                                assert(d0.guilds@[gi as int].id == guild
                                    && d0.guilds@[gi as int].afk_channels@.contains(channel));
                            }
                            assert forall|g: u64, c: u64|
                                self.spec_is_afk(g, c) == (d0.spec_is_afk(g, c) && !(g == guild
                                    && c == channel)) by {
                                if g == guild {
                                    assert(g2.g_is_afk(c) == (g1.g_is_afk(c) && c != channel));
                                }
                            }
                            assert forall|g: u64, c: u64|
                                d0.has_notif_channel(g, c) implies self.subscribers(g, c)
                                == d0.subscribers(g, c) by {
                                if g == guild {
                                    assert(g2.notif_channels@ == g1.notif_channels@);
                                    let j = g1.channel_index(c);
                                    assert(0 <= j < g1.notif_channels@.len()
                                        && g1.notif_channels@[j].id == c);
                                    g2.lemma_channel_index_is(c, j);
                                    g1.lemma_channel_index_is(c, j);
                                }
                            }
                        }
                        true
                    },
                }
            },
        }
    }
}

impl PCData {
    /// Whether the store satisfies its invariant. State rebuilt from
    /// persisted data must pass this check before the store is used.
    pub fn check_wf(&self) -> (r: bool)
        ensures
            r == self.wf(),
    {
        let mut i: usize = 0;
        while i < self.guilds.len()
            invariant
                i <= self.guilds@.len(),
                forall|a: int, b: int|
                    #![trigger self.guilds@[a], self.guilds@[b]]
                    0 <= a < b < self.guilds@.len() && a < i ==> self.guilds@[a].id
                        != self.guilds@[b].id,
                forall|a: int| 0 <= a < i ==> (#[trigger] self.guilds@[a]).wf(),
            decreases self.guilds@.len() - i,
        {
            let mut j: usize = i + 1;
            while j < self.guilds.len()
                invariant
                    i < j <= self.guilds@.len(),
                    i < self.guilds@.len(),
                    forall|b: int| i < b < j ==> self.guilds@[i as int].id != (
                    #[trigger] self.guilds@[b]).id,
                decreases self.guilds@.len() - j,
            {
                if self.guilds[i].id == self.guilds[j].id {
                    return false;
                }
                j = j + 1;
            }
            if !check_guild_wf(&self.guilds[i]) {
                return false;
            }
            i = i + 1;
        }
        true
    }

    /// In a well-formed store the subscriber list of an existing channel
    /// holds exactly the users that [`PCData::spec_subscribed`] admits.
    pub proof fn lemma_subscribers_are_subscribed(self, guild: u64, channel: u64)
        requires
            self.wf(),
            self.has_notif_channel(guild, channel),
        ensures
            forall|u: u64|
                self.subscribers(guild, channel).contains(u) == self.spec_subscribed(
                    guild,
                    channel,
                    u,
                ),
    {
        let (i, j) = choose|i: int, j: int|
            #![trigger self.guilds@[i].notif_channels@[j]]
            0 <= i < self.guilds@.len() && self.guilds@[i].id == guild && 0 <= j
                < self.guilds@[i].notif_channels@.len() && self.guilds@[i].notif_channels@[j].id
                == channel;
        self.lemma_guild_index_is(guild, i);
        self.guilds@[i].lemma_channel_index_is(channel, j);
        assert forall|u: u64|
            self.subscribers(guild, channel).contains(u) == self.spec_subscribed(
                guild,
                channel,
                u,
            ) by {
            if self.subscribers(guild, channel).contains(u) {
                assert(self.guilds@[i].notif_channels@[j].subscribed_users@.contains(u));
                assert(self.spec_subscribed(guild, channel, u));
            }
            if self.spec_subscribed(guild, channel, u) {
                let (a, b) = choose|a: int, b: int|
                    #![trigger self.guilds@[a].notif_channels@[b]]
                    0 <= a < self.guilds@.len() && self.guilds@[a].id == guild && 0 <= b
                        < self.guilds@[a].notif_channels@.len()
                        && self.guilds@[a].notif_channels@[b].id == channel
                        && self.guilds@[a].notif_channels@[b].subscribed_users@.contains(u);
                self.lemma_guild_ids_unique(a, i);
                self.guilds@[i].lemma_channel_ids_unique(b, j);
            }
        }
    }

    /// Law: a well-formed store lists a subscribed user exactly once in the
    /// channel's subscriber list — one join never yields a duplicate
    /// notification, and subscribing again (a no-op by
    /// [`PCData::add_subscription`]'s contract) cannot add a second entry.
    pub proof fn lemma_subscriber_listed_once(self, guild: u64, channel: u64, user: u64)
        requires
            self.wf(),
            self.spec_subscribed(guild, channel, user),
        ensures
            self.has_notif_channel(guild, channel),
            self.subscribers(guild, channel).contains(user),
            forall|i: int, j: int|
                0 <= i < j < self.subscribers(guild, channel).len() ==> !(self.subscribers(
                    guild,
                    channel,
                )[i] == user && self.subscribers(guild, channel)[j] == user),
    {
        let (i, j) = choose|i: int, j: int|
            #![trigger self.guilds@[i].notif_channels@[j]]
            0 <= i < self.guilds@.len() && self.guilds@[i].id == guild && 0 <= j
                < self.guilds@[i].notif_channels@.len() && self.guilds@[i].notif_channels@[j].id
                == channel && self.guilds@[i].notif_channels@[j].subscribed_users@.contains(user);
        assert(self.has_notif_channel(guild, channel)) by {
            assert(self.guilds@[i].notif_channels@[j].id == channel);
        }
        self.lemma_guild_index_is(guild, i);
        self.guilds@[i].lemma_channel_index_is(channel, j);
        let subs = self.subscribers(guild, channel);
        assert(subs == self.guilds@[i].notif_channels@[j].subscribed_users@);
        assert(self.guilds@[i].notif_channels@[j].wf());
        assert forall|a: int, b: int|
            0 <= a < b < subs.len() implies !(subs[a] == user && subs[b] == user) by {
            assert(subs[a] != subs[b]);
        }
    }
}

/// Whether one guild record satisfies its invariant.
fn check_guild_wf(g: &PCGuild) -> (r: bool)
    ensures
        r == g.wf(),
{
    if !admins_distinct(&g.admins) {
        return false;
    }
    if !all_distinct_u64(&g.afk_channels) {
        return false;
    }
    if !channels_distinct(&g.notif_channels) {
        return false;
    }
    let mut i: usize = 0;
    while i < g.notif_channels.len()
        invariant
            i <= g.notif_channels@.len(),
            forall|a: int| 0 <= a < i ==> (#[trigger] g.notif_channels@[a]).wf(),
            forall|a: int, b: int|
                #![trigger g.admins@[a], g.admins@[b]]
                0 <= a < b < g.admins@.len() ==> g.admins@[a].id != g.admins@[b].id,
            forall|a: int, b: int|
                #![trigger g.afk_channels@[a], g.afk_channels@[b]]
                0 <= a < b < g.afk_channels@.len() ==> g.afk_channels@[a] != g.afk_channels@[b],
            forall|a: int, b: int|
                #![trigger g.notif_channels@[a], g.notif_channels@[b]]
                0 <= a < b < g.notif_channels@.len() ==> g.notif_channels@[a].id
                    != g.notif_channels@[b].id,
        decreases g.notif_channels@.len() - i,
    {
        if !all_distinct_u64(&g.notif_channels[i].subscribed_users) {
            return false;
        }
        i = i + 1;
    }
    true
}

/// Whether no id occurs twice in the list.
fn all_distinct_u64(v: &Vec<u64>) -> (r: bool)
    ensures
        r == (forall|a: int, b: int|
            #![trigger v@[a], v@[b]]
            0 <= a < b < v@.len() ==> v@[a] != v@[b]),
{
    let mut i: usize = 0;
    while i < v.len()
        invariant
            i <= v@.len(),
            forall|a: int, b: int|
                #![trigger v@[a], v@[b]]
                0 <= a < b < v@.len() && a < i ==> v@[a] != v@[b],
        decreases v@.len() - i,
    {
        let mut j: usize = i + 1;
        while j < v.len()
            invariant
                i < j <= v@.len(),
                i < v@.len(),
                forall|b: int| i < b < j ==> v@[i as int] != (#[trigger] v@[b]),
            decreases v@.len() - j,
        {
            if v[i] == v[j] {
                return false;
            }
            j = j + 1;
        }
        i = i + 1;
    }
    true
}

/// Whether no admin id occurs twice in the list.
fn admins_distinct(v: &Vec<AdminUser>) -> (r: bool)
    ensures
        r == (forall|a: int, b: int|
            #![trigger v@[a], v@[b]]
            0 <= a < b < v@.len() ==> v@[a].id != v@[b].id),
{
    let mut i: usize = 0;
    while i < v.len()
        invariant
            i <= v@.len(),
            forall|a: int, b: int|
                #![trigger v@[a], v@[b]]
                0 <= a < b < v@.len() && a < i ==> v@[a].id != v@[b].id,
        decreases v@.len() - i,
    {
        let mut j: usize = i + 1;
        while j < v.len()
            invariant
                i < j <= v@.len(),
                i < v@.len(),
                forall|b: int| i < b < j ==> v@[i as int].id != (#[trigger] v@[b]).id,
            decreases v@.len() - j,
        {
            if v[i].id == v[j].id {
                return false;
            }
            j = j + 1;
        }
        i = i + 1;
    }
    true
}

/// Whether no channel id occurs twice in the list.
fn channels_distinct(v: &Vec<PCNotifChannel>) -> (r: bool)
    ensures
        r == (forall|a: int, b: int|
            #![trigger v@[a], v@[b]]
            0 <= a < b < v@.len() ==> v@[a].id != v@[b].id),
{
    let mut i: usize = 0;
    while i < v.len()
        invariant
            i <= v@.len(),
            forall|a: int, b: int|
                #![trigger v@[a], v@[b]]
                0 <= a < b < v@.len() && a < i ==> v@[a].id != v@[b].id,
        decreases v@.len() - i,
    {
        let mut j: usize = i + 1;
        while j < v.len()
            invariant
                i < j <= v@.len(),
                i < v@.len(),
                forall|b: int| i < b < j ==> v@[i as int].id != (#[trigger] v@[b]).id,
            decreases v@.len() - j,
        {
            if v[i].id == v[j].id {
                return false;
            }
            j = j + 1;
        }
        i = i + 1;
    }
    true
}

/// The position of the first guild record with this id, if any.
fn find_guild_index(guilds: &Vec<PCGuild>, guild: u64) -> (r: Option<usize>)
    ensures
        match r {
            Some(i) => 0 <= i < guilds@.len() && guilds@[i as int].id == guild,
            None => forall|i: int| 0 <= i < guilds@.len() ==> (#[trigger] guilds@[i]).id != guild,
        },
{
    let mut i: usize = 0;
    while i < guilds.len()
        invariant
            i <= guilds@.len(),
            forall|j: int| 0 <= j < i ==> (#[trigger] guilds@[j]).id != guild,
        decreases guilds@.len() - i,
    {
        if guilds[i].id == guild {
            return Some(i);
        }
        i = i + 1;
    }
    None
}

/// The position of the first notification channel with this id, if any.
fn find_channel_index(channels: &Vec<PCNotifChannel>, channel: u64) -> (r: Option<usize>)
    ensures
        match r {
            Some(i) => 0 <= i < channels@.len() && channels@[i as int].id == channel,
            None => forall|i: int|
                0 <= i < channels@.len() ==> (#[trigger] channels@[i]).id != channel,
        },
{
    let mut i: usize = 0;
    while i < channels.len()
        invariant
            i <= channels@.len(),
            forall|j: int| 0 <= j < i ==> (#[trigger] channels@[j]).id != channel,
        decreases channels@.len() - i,
    {
        if channels[i].id == channel {
            return Some(i);
        }
        i = i + 1;
    }
    None
}

/// The position of the first admin entry with this user id, if any.
fn find_admin_index(admins: &Vec<AdminUser>, user: u64) -> (r: Option<usize>)
    ensures
        match r {
            Some(i) => 0 <= i < admins@.len() && admins@[i as int].id == user,
            None => forall|i: int| 0 <= i < admins@.len() ==> (#[trigger] admins@[i]).id != user,
        },
{
    let mut i: usize = 0;
    while i < admins.len()
        invariant
            i <= admins@.len(),
            forall|j: int| 0 <= j < i ==> (#[trigger] admins@[j]).id != user,
        decreases admins@.len() - i,
    {
        if admins[i].id == user {
            return Some(i);
        }
        i = i + 1;
    }
    None
}

/// Whether the id occurs in the list.
fn contains_u64(v: &Vec<u64>, x: u64) -> (r: bool)
    ensures
        r == v@.contains(x),
{
    let mut i: usize = 0;
    while i < v.len()
        invariant
            i <= v@.len(),
            forall|j: int| 0 <= j < i ==> v@[j] != x,
        decreases v@.len() - i,
    {
        if v[i] == x {
            return true;
        }
        i = i + 1;
    }
    proof {
        assert(!v@.contains(x));
    }
    false
}

/// The position of the first occurrence of the id in the list, if any.
fn index_of_u64(v: &Vec<u64>, x: u64) -> (r: Option<usize>)
    ensures
        match r {
            Some(i) => 0 <= i < v@.len() && v@[i as int] == x,
            None => !v@.contains(x),
        },
{
    let mut i: usize = 0;
    while i < v.len()
        invariant
            i <= v@.len(),
            forall|j: int| 0 <= j < i ==> v@[j] != x,
        decreases v@.len() - i,
    {
        if v[i] == x {
            return Some(i);
        }
        i = i + 1;
    }
    proof {
        assert(!v@.contains(x));
    }
    None
}

/// A fresh copy of a list of ids.
fn clone_u64_vec(v: &Vec<u64>) -> (r: Vec<u64>)
    ensures
        r@ == v@,
{
    let mut r: Vec<u64> = Vec::new();
    let mut i: usize = 0;
    while i < v.len()
        invariant
            i <= v@.len(),
            r@ == v@.take(i as int),
        decreases v@.len() - i,
    {
        r.push(v[i]);
        proof {
            assert(r@ =~= v@.take(i as int + 1));
        }
        i = i + 1;
    }
    proof {
        assert(r@ =~= v@);
    }
    r
}

} // verus!
