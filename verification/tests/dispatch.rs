use problem_child::dispatch::{
    eligible_subscribers, notification_text, status_allows, summary_text, PresenceEntry,
    PresenceStatus, VoiceChannelSnapshot,
};
use problem_child::store::{AdminUser, PCData, PCGuild};

const G: u64 = 1;
const C: u64 = 20;
const E: u64 = 21;
const A: u64 = 31;
const B: u64 = 32;
const D: u64 = 33;
const U: u64 = 40;

fn store_with_subscribers() -> PCData {
    let mut data = PCData::default();
    data.add_subscription(A, G, C);
    data.add_subscription(B, G, C);
    data.add_subscription(D, G, C);
    data
}

fn admin_with_copies(data: &mut PCData, user: u64) {
    for guild in data.guilds.iter_mut() {
        if guild.id == G {
            guild.admins.push(AdminUser { id: user, send_notif_copies: true });
        }
    }
}

#[test]
fn exclusion_rules_scenario() {
    // A is already in the destination channel, B is active in another
    // non-AFK channel, D has no presence entry: nobody is notified.
    let mut data = store_with_subscribers();
    admin_with_copies(&mut data, U);
    let members = vec![A];
    let presences = vec![
        PresenceEntry { user: A, status: PresenceStatus::Online },
        PresenceEntry { user: B, status: PresenceStatus::Online },
    ];
    let channels = vec![
        VoiceChannelSnapshot { id: C, afk: false, members: vec![A] },
        VoiceChannelSnapshot { id: E, afk: false, members: vec![B] },
    ];
    let notified = eligible_subscribers(&data, G, C, U, &members, &presences, &channels);
    assert_eq!(notified, Some(vec![]));
    assert!(data.should_send_notif_copies(U, G));
    let summary = summary_text(&vec![]);
    assert_eq!(summary, "Sent join notifications to nobody!".to_string());
}

#[test]
fn positive_fan_out_scenario() {
    // D is online and in no other channel: D alone is notified.
    let mut data = store_with_subscribers();
    admin_with_copies(&mut data, U);
    let members = vec![A];
    let presences = vec![
        PresenceEntry { user: A, status: PresenceStatus::Online },
        PresenceEntry { user: B, status: PresenceStatus::Online },
        PresenceEntry { user: D, status: PresenceStatus::Online },
    ];
    let channels = vec![
        VoiceChannelSnapshot { id: C, afk: false, members: vec![A] },
        VoiceChannelSnapshot { id: E, afk: false, members: vec![B] },
    ];
    let notified = eligible_subscribers(&data, G, C, U, &members, &presences, &channels);
    assert_eq!(notified, Some(vec![D]));
    let text = notification_text("U", "C", "G");
    assert_eq!(text, "U joined C on G!".to_string());
    assert!(data.should_send_notif_copies(U, G));
    let summary = summary_text(&vec!["D".to_string()]);
    assert_eq!(summary, "Sent join notifications to D!".to_string());
}

#[test]
fn afk_exemption_scenario() {
    // B sits in channel E, but E is the AFK channel: the "busy elsewhere"
    // rule does not exclude B, and with an eligible presence B is notified.
    let data = store_with_subscribers();
    let members: Vec<u64> = vec![];
    let presences = vec![PresenceEntry { user: B, status: PresenceStatus::Online }];
    let channels = vec![
        VoiceChannelSnapshot { id: C, afk: false, members: vec![] },
        VoiceChannelSnapshot { id: E, afk: true, members: vec![B] },
    ];
    let notified = eligible_subscribers(&data, G, C, U, &members, &presences, &channels);
    assert_eq!(notified, Some(vec![B]));
}

#[test]
fn status_filter() {
    assert!(status_allows(PresenceStatus::Online));
    assert!(status_allows(PresenceStatus::Idle));
    assert!(!status_allows(PresenceStatus::DoNotDisturb));
    assert!(!status_allows(PresenceStatus::Invisible));
    assert!(!status_allows(PresenceStatus::Offline));
    assert!(!status_allows(PresenceStatus::Unknown));
}

#[test]
fn status_filter_drives_eligibility() {
    let statuses = [
        (PresenceStatus::Online, true),
        (PresenceStatus::Idle, true),
        (PresenceStatus::DoNotDisturb, false),
        (PresenceStatus::Invisible, false),
        (PresenceStatus::Offline, false),
        (PresenceStatus::Unknown, false),
    ];
    for (status, expected) in statuses {
        let mut data = PCData::default();
        data.add_subscription(D, G, C);
        let presences = vec![PresenceEntry { user: D, status }];
        let notified =
            eligible_subscribers(&data, G, C, U, &vec![], &presences, &vec![]).unwrap();
        assert_eq!(!notified.is_empty(), expected, "status {:?}", status);
    }
}

#[test]
fn joiner_is_never_notified_of_own_join() {
    let mut data = PCData::default();
    data.add_subscription(U, G, C);
    let presences = vec![PresenceEntry { user: U, status: PresenceStatus::Online }];
    let notified = eligible_subscribers(&data, G, C, U, &vec![], &presences, &vec![]);
    assert_eq!(notified, Some(vec![]));
}

#[test]
fn unknown_channel_yields_no_dispatch() {
    let data = store_with_subscribers();
    assert!(eligible_subscribers(&data, G, C + 1, U, &vec![], &vec![], &vec![]).is_none());
    assert!(eligible_subscribers(&data, G + 1, C, U, &vec![], &vec![], &vec![]).is_none());
}

#[test]
fn notified_subscribers_keep_listing_order() {
    let data = store_with_subscribers();
    let presences = vec![
        PresenceEntry { user: A, status: PresenceStatus::Idle },
        PresenceEntry { user: B, status: PresenceStatus::Online },
        PresenceEntry { user: D, status: PresenceStatus::Online },
    ];
    let notified = eligible_subscribers(&data, G, C, U, &vec![], &presences, &vec![]);
    assert_eq!(notified, Some(vec![A, B, D]));
}

#[test]
fn notification_text_formats_names() {
    let text = notification_text("Ada", "voice-general", "The Guild");
    assert_eq!(text, "Ada joined voice-general on The Guild!".to_string());
}

#[test]
fn summary_text_joins_names_with_commas() {
    let names = vec!["Ada".to_string(), "Grace".to_string(), "Edsger".to_string()];
    let summary = summary_text(&names);
    assert_eq!(summary, "Sent join notifications to Ada, Grace, Edsger!".to_string());
    let one = summary_text(&vec!["Ada".to_string()]);
    assert_eq!(one, "Sent join notifications to Ada!".to_string());
}
