use problem_child::store::{AdminUser, PCData, PCGuild, PCNotifChannel};

const G: u64 = 100;
const C: u64 = 200;
const U: u64 = 300;

#[test]
fn default_store_is_empty() {
    let data = PCData::default();
    assert!(data.check_wf());
    assert!(data.find_subscribed_users(G, C).is_none());
    assert!(!data.is_afk_channel(G, C));
    assert!(!data.is_admin(U, G));
    assert!(!data.should_send_notif_copies(U, G));
}

#[test]
fn add_subscription_creates_guild_and_channel() {
    let mut data = PCData::default();
    data.add_subscription(U, G, C);
    assert_eq!(data.find_subscribed_users(G, C), Some(vec![U]));
    assert!(data.find_subscribed_users(G, C + 1).is_none());
    assert!(data.find_subscribed_users(G + 1, C).is_none());
    assert!(data.check_wf());
}

#[test]
fn add_subscription_idempotent() {
    let mut data = PCData::default();
    data.add_subscription(U, G, C);
    data.add_subscription(U, G, C);
    let subs = data.find_subscribed_users(G, C).unwrap();
    assert_eq!(subs, vec![U]);
    assert_eq!(subs.iter().filter(|&&u| u == U).count(), 1);
}

#[test]
fn add_subscription_keeps_listing_order() {
    let mut data = PCData::default();
    data.add_subscription(U, G, C);
    data.add_subscription(U + 1, G, C);
    data.add_subscription(U + 2, G, C);
    assert_eq!(data.find_subscribed_users(G, C), Some(vec![U, U + 1, U + 2]));
}

#[test]
fn subscriptions_are_scoped_per_channel_and_guild() {
    let mut data = PCData::default();
    data.add_subscription(U, G, C);
    data.add_subscription(U + 1, G, C + 1);
    data.add_subscription(U + 2, G + 1, C);
    assert_eq!(data.find_subscribed_users(G, C), Some(vec![U]));
    assert_eq!(data.find_subscribed_users(G, C + 1), Some(vec![U + 1]));
    assert_eq!(data.find_subscribed_users(G + 1, C), Some(vec![U + 2]));
}

#[test]
fn remove_subscription_unknown_guild_returns_false() {
    let mut data = PCData::default();
    data.add_subscription(U, G, C);
    assert!(!data.remove_subscription(U, G + 1, C));
    assert_eq!(data.find_subscribed_users(G, C), Some(vec![U]));
}

#[test]
fn remove_subscription_unknown_channel_returns_false() {
    let mut data = PCData::default();
    data.add_subscription(U, G, C);
    assert!(!data.remove_subscription(U, G, C + 1));
    assert_eq!(data.find_subscribed_users(G, C), Some(vec![U]));
}

#[test]
fn remove_subscription_unknown_user_returns_false() {
    let mut data = PCData::default();
    data.add_subscription(U, G, C);
    assert!(!data.remove_subscription(U + 1, G, C));
    assert_eq!(data.find_subscribed_users(G, C), Some(vec![U]));
}

#[test]
fn remove_subscription_known_removes_user() {
    let mut data = PCData::default();
    data.add_subscription(U, G, C);
    data.add_subscription(U + 1, G, C);
    assert!(data.remove_subscription(U, G, C));
    let subs = data.find_subscribed_users(G, C).unwrap();
    assert!(!subs.contains(&U));
    assert!(subs.contains(&(U + 1)));
    assert!(!data.remove_subscription(U, G, C));
}

#[test]
fn emptied_channel_record_is_kept() {
    let mut data = PCData::default();
    data.add_subscription(U, G, C);
    assert!(data.remove_subscription(U, G, C));
    // The record stays even though its subscriber set is now empty.
    assert_eq!(data.find_subscribed_users(G, C), Some(vec![]));
}

#[test]
fn afk_channel_round_trip() {
    let mut data = PCData::default();
    assert!(!data.is_afk_channel(G, C));
    data.add_afk_channel(G, C);
    assert!(data.is_afk_channel(G, C));
    assert!(!data.is_afk_channel(G, C + 1));
    assert!(!data.is_afk_channel(G + 1, C));
    assert!(data.remove_afk_channel(G, C));
    assert!(!data.is_afk_channel(G, C));
    assert!(data.check_wf());
}

#[test]
fn add_afk_channel_idempotent() {
    let mut data = PCData::default();
    data.add_afk_channel(G, C);
    data.add_afk_channel(G, C);
    assert!(data.is_afk_channel(G, C));
    assert!(data.remove_afk_channel(G, C));
    assert!(!data.is_afk_channel(G, C));
}

#[test]
fn remove_afk_channel_unknown_returns_false() {
    let mut data = PCData::default();
    assert!(!data.remove_afk_channel(G, C));
    data.add_afk_channel(G, C);
    assert!(!data.remove_afk_channel(G, C + 1));
    assert!(!data.remove_afk_channel(G + 1, C));
    assert!(data.is_afk_channel(G, C));
}

#[test]
fn is_admin_and_copies_flags() {
    let data = PCData {
        guilds: vec![PCGuild {
            id: G,
            admins: vec![
                AdminUser { id: U, send_notif_copies: true },
                AdminUser { id: U + 1, send_notif_copies: false },
            ],
            afk_channels: vec![],
            notif_channels: vec![],
        }],
    };
    assert!(data.check_wf());
    assert!(data.is_admin(U, G));
    assert!(data.is_admin(U + 1, G));
    assert!(!data.is_admin(U + 2, G));
    assert!(!data.is_admin(U, G + 1));
    assert!(data.should_send_notif_copies(U, G));
    assert!(!data.should_send_notif_copies(U + 1, G));
    assert!(!data.should_send_notif_copies(U + 2, G));
    assert!(!data.should_send_notif_copies(U, G + 1));
}

#[test]
fn check_wf_rejects_duplicate_guilds() {
    let guild = PCGuild { id: G, admins: vec![], afk_channels: vec![], notif_channels: vec![] };
    let other = PCGuild { id: G, admins: vec![], afk_channels: vec![], notif_channels: vec![] };
    let data = PCData { guilds: vec![guild, other] };
    assert!(!data.check_wf());
}

#[test]
fn check_wf_rejects_duplicate_subscribers() {
    let data = PCData {
        guilds: vec![PCGuild {
            id: G,
            admins: vec![],
            afk_channels: vec![],
            notif_channels: vec![PCNotifChannel { id: C, subscribed_users: vec![U, U] }],
        }],
    };
    assert!(!data.check_wf());
}

#[test]
fn check_wf_rejects_duplicate_afk_marks() {
    let data = PCData {
        guilds: vec![PCGuild {
            id: G,
            admins: vec![],
            afk_channels: vec![C, C],
            notif_channels: vec![],
        }],
    };
    assert!(!data.check_wf());
}

#[test]
fn check_wf_rejects_duplicate_admins() {
    let data = PCData {
        guilds: vec![PCGuild {
            id: G,
            admins: vec![
                AdminUser { id: U, send_notif_copies: false },
                AdminUser { id: U, send_notif_copies: true },
            ],
            afk_channels: vec![],
            notif_channels: vec![],
        }],
    };
    assert!(!data.check_wf());
}
