//! The registry on its own: entries, sessions as a set, and what is written
//! to the store.

use session_maker::registry::{
    contains_channel, copy_channels, remove_channel, remove_channels, GuildEntry, Registry,
};

fn sorted(mut v: Vec<u64>) -> Vec<u64> {
    v.sort();
    v
}

#[test]
fn a_new_registry_is_empty_and_clean() {
    let registry = Registry::new();
    assert!(registry.all_guilds().is_empty());
    assert!(registry.export().is_empty());
    assert!(!registry.has_changes());
    assert!(!registry.has_guild(1));
}

#[test]
fn an_unknown_guild_reads_as_empty() {
    let registry = Registry::new();
    assert_eq!(registry.get(5), GuildEntry { maker: None, sessions: vec![] });
    assert_eq!(registry.get(5), GuildEntry::empty());
    assert_eq!(registry.maker(5), None);
    assert!(registry.sessions(5).is_empty());
    // reading creates nothing
    assert!(!registry.has_guild(5));
}

#[test]
fn set_maker_creates_the_entry_and_keeps_the_sessions() {
    let mut registry = Registry::new();
    registry.set_maker(1, 100);
    assert!(registry.has_guild(1));
    assert_eq!(registry.get(1), GuildEntry { maker: Some(100), sessions: vec![] });
    registry.insert_session(1, 200);
    registry.set_maker(1, 101);
    assert_eq!(registry.get(1), GuildEntry { maker: Some(101), sessions: vec![200] });
    assert_eq!(registry.maker(1), Some(101));
    // other guilds are not touched
    assert!(!registry.has_guild(2));
}

#[test]
fn set_maker_twice_is_the_same_as_once() {
    let mut registry = Registry::new();
    registry.set_maker(1, 100);
    let once = registry.get(1);
    registry.set_maker(1, 100);
    assert_eq!(registry.get(1), once);
    assert_eq!(registry.all_guilds(), vec![1]);
}

#[test]
fn sessions_are_a_set_kept_in_order_of_arrival() {
    let mut registry = Registry::new();
    registry.insert_session(1, 200);
    registry.insert_session(1, 201);
    registry.insert_session(1, 200);
    registry.insert_session(1, 202);
    assert_eq!(registry.sessions(1), vec![200, 201, 202]);
    assert_eq!(registry.get(1), GuildEntry { maker: None, sessions: vec![200, 201, 202] });
    assert!(registry.get(1).has_session(201));
    assert!(!registry.get(1).has_session(203));
}

#[test]
fn remove_session_takes_every_occurrence_out() {
    let records = vec![(1u64, GuildEntry { maker: Some(100), sessions: vec![200, 201, 200, 202] })];
    let mut registry = Registry::import(&records);
    assert!(!registry.has_changes());
    registry.remove_session(1, 200);
    assert_eq!(registry.get(1), GuildEntry { maker: Some(100), sessions: vec![201, 202] });
    assert!(registry.has_changes());
    registry.remove_session(1, 999);
    assert_eq!(registry.sessions(1), vec![201, 202]);
}

#[test]
fn remove_sessions_takes_all_of_them_out() {
    let records = vec![(1u64, GuildEntry { maker: None, sessions: vec![1, 2, 3, 4, 5] })];
    let mut registry = Registry::import(&records);
    registry.remove_sessions(1, &vec![4, 2, 9]);
    assert_eq!(registry.sessions(1), vec![1, 3, 5]);
    registry.remove_sessions(1, &vec![]);
    assert_eq!(registry.sessions(1), vec![1, 3, 5]);
}

#[test]
fn removing_from_an_unknown_guild_creates_its_empty_entry() {
    let mut registry = Registry::new();
    registry.remove_session(3, 200);
    assert!(registry.has_guild(3));
    assert_eq!(registry.get(3), GuildEntry::empty());
}

#[test]
fn all_guilds_names_each_guild_once() {
    let mut registry = Registry::new();
    registry.set_maker(3, 30);
    registry.insert_session(1, 10);
    registry.insert_session(3, 31);
    registry.set_maker(2, 20);
    assert_eq!(sorted(registry.all_guilds()), vec![1, 2, 3]);
}

#[test]
fn the_dirty_mark_is_set_by_writes_and_taken_once() {
    let mut registry = Registry::new();
    assert!(!registry.take_dirty());
    registry.mark_dirty();
    assert!(registry.has_changes());
    assert!(registry.take_dirty());
    assert!(!registry.take_dirty());
    registry.insert_session(1, 200);
    assert!(registry.take_dirty());
    registry.set_maker(1, 100);
    assert!(registry.take_dirty());
    registry.remove_session(1, 200);
    assert!(registry.take_dirty());
    assert!(!registry.has_changes());
    // reading does not mark
    let _ = registry.get(1);
    let _ = registry.all_guilds();
    let _ = registry.export();
    assert!(!registry.has_changes());
}

#[test]
fn export_then_import_gives_the_registry_back() {
    let mut registry = Registry::new();
    registry.set_maker(1, 100);
    registry.insert_session(1, 200);
    registry.insert_session(1, 201);
    registry.insert_session(7, 700);
    registry.set_maker(9, 900);
    let records = registry.export();
    assert_eq!(records.len(), 3);
    let back = Registry::import(&records);
    assert_eq!(sorted(back.all_guilds()), vec![1, 7, 9]);
    for guild in [1u64, 7, 9, 4] {
        assert_eq!(back.get(guild), registry.get(guild));
    }
    assert_eq!(back.get(1), GuildEntry { maker: Some(100), sessions: vec![200, 201] });
    assert_eq!(back.get(7), GuildEntry { maker: None, sessions: vec![700] });
    assert_eq!(back.get(9), GuildEntry { maker: Some(900), sessions: vec![] });
    assert!(!back.has_changes());
    // and once more, from the copy
    let again = Registry::import(&back.export());
    for guild in [1u64, 7, 9] {
        assert_eq!(again.get(guild), registry.get(guild));
    }
}

#[test]
fn import_lets_the_last_record_of_a_guild_count() {
    let records = vec![
        (1u64, GuildEntry { maker: Some(100), sessions: vec![200] }),
        (2u64, GuildEntry { maker: None, sessions: vec![300] }),
        (1u64, GuildEntry { maker: Some(101), sessions: vec![] }),
    ];
    let registry = Registry::import(&records);
    assert_eq!(sorted(registry.all_guilds()), vec![1, 2]);
    assert_eq!(registry.get(1), GuildEntry { maker: Some(101), sessions: vec![] });
    assert_eq!(registry.get(2), GuildEntry { maker: None, sessions: vec![300] });
}

#[test]
fn import_of_nothing_is_the_empty_registry() {
    let registry = Registry::import(&vec![]);
    assert!(registry.all_guilds().is_empty());
    assert!(!registry.has_changes());
}

#[test]
fn a_snapshot_is_a_copy() {
    let entry = GuildEntry { maker: Some(1), sessions: vec![2, 3] };
    let copy = entry.snapshot();
    assert_eq!(copy, entry);
    let mut registry = Registry::new();
    registry.insert_session(1, 200);
    let before = registry.get(1);
    registry.insert_session(1, 201);
    assert_eq!(before.sessions, vec![200]);
}

#[test]
fn channel_lists() {
    let channels = vec![5u64, 6, 5, 7];
    assert_eq!(copy_channels(&channels), channels);
    assert_eq!(copy_channels(&vec![]), Vec::<u64>::new());
    assert!(contains_channel(&channels, 7));
    assert!(contains_channel(&channels, 5));
    assert!(!contains_channel(&channels, 8));
    assert!(!contains_channel(&vec![], 0));
    assert_eq!(remove_channel(&channels, 5), vec![6, 7]);
    assert_eq!(remove_channel(&channels, 8), channels);
    assert_eq!(remove_channels(&channels, &vec![7, 5]), vec![6]);
    assert_eq!(remove_channels(&channels, &vec![]), channels);
}

#[test]
fn with_mut_works_on_the_entry_and_hands_the_result_on() {
    let mut registry = Registry::new();
    let count = registry.with_mut(1, |mut entry| {
        entry.sessions.push(200);
        entry.sessions.push(201);
        let count = entry.sessions.len();
        (entry, count)
    });
    assert_eq!(count, 2);
    assert_eq!(registry.get(1), GuildEntry { maker: None, sessions: vec![200, 201] });
    assert!(registry.take_dirty());
    let maker = registry.with_mut(1, |mut entry| {
        let before = entry.maker;
        entry.maker = Some(100);
        (entry, before)
    });
    assert_eq!(maker, None);
    assert_eq!(registry.get(1), GuildEntry { maker: Some(100), sessions: vec![200, 201] });
    // an entry is created empty where the guild had none
    let seen = registry.with_mut(9, |entry| {
        let seen = entry.snapshot();
        (entry, seen)
    });
    assert_eq!(seen, GuildEntry::empty());
    assert!(registry.has_guild(9));
}
