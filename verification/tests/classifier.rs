use problem_child::classifier::is_join_event;
use problem_child::store::PCData;

const G: u64 = 1;
const AFK: u64 = 10;
const A: u64 = 11;
const B: u64 = 12;

fn store_with_afk() -> PCData {
    let mut data = PCData::default();
    data.add_afk_channel(G, AFK);
    data
}

#[test]
fn truth_table_no_destination() {
    let data = store_with_afk();
    assert!(!is_join_event(&data, G, None, None));
    assert!(!is_join_event(&data, G, Some(AFK), None));
    assert!(!is_join_event(&data, G, Some(A), None));
    assert!(!is_join_event(&data, G, Some(B), None));
}

#[test]
fn truth_table_into_afk_channel() {
    let data = store_with_afk();
    assert!(!is_join_event(&data, G, None, Some(AFK)));
    assert!(!is_join_event(&data, G, Some(AFK), Some(AFK)));
    assert!(!is_join_event(&data, G, Some(A), Some(AFK)));
    assert!(!is_join_event(&data, G, Some(B), Some(AFK)));
}

#[test]
fn truth_table_into_active_channel() {
    let data = store_with_afk();
    assert!(is_join_event(&data, G, None, Some(A)));
    assert!(is_join_event(&data, G, Some(AFK), Some(A)));
    assert!(!is_join_event(&data, G, Some(A), Some(A)));
    assert!(!is_join_event(&data, G, Some(B), Some(A)));
    assert!(is_join_event(&data, G, None, Some(B)));
    assert!(is_join_event(&data, G, Some(AFK), Some(B)));
    assert!(!is_join_event(&data, G, Some(A), Some(B)));
    assert!(!is_join_event(&data, G, Some(B), Some(B)));
}

#[test]
fn unknown_guild_has_no_afk_channels() {
    let data = PCData::default();
    // With nothing marked AFK, a fresh connection is a join and every other
    // transition is not.
    assert!(is_join_event(&data, G, None, Some(A)));
    assert!(!is_join_event(&data, G, Some(AFK), Some(A)));
    assert!(!is_join_event(&data, G, Some(A), Some(B)));
    assert!(!is_join_event(&data, G, Some(A), None));
}

#[test]
fn afk_marks_are_per_guild() {
    let data = store_with_afk();
    // The same channel ids against another guild: no AFK knowledge there.
    assert!(is_join_event(&data, G + 1, None, Some(AFK)));
    assert!(!is_join_event(&data, G + 1, Some(AFK), Some(A)));
}
