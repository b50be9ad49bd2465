//! Session names and full names.

use session_maker::names::{get_session_name, get_session_name_from_presence, user_fullname};
use session_maker::remote::{Activity, Presence};

fn playing(names: &[&str]) -> Presence {
    Presence { activities: names.iter().map(|n| Activity { name: n.to_string() }).collect() }
}

#[test]
fn the_first_activity_names_the_session() {
    let presence = playing(&["Halo", "Chess", "Aardvark"]);
    assert_eq!(get_session_name_from_presence(&presence), Some("Halo"));
    assert_eq!(get_session_name(&Some(presence)), "Halo");
}

#[test]
fn the_order_of_delivery_decides_not_the_alphabet() {
    let presence = playing(&["Zelda", "Animal Crossing"]);
    assert_eq!(get_session_name_from_presence(&presence), Some("Zelda"));
}

#[test]
fn no_activity_gives_no_name() {
    assert_eq!(get_session_name_from_presence(&playing(&[])), None);
}

#[test]
fn the_default_name_is_session() {
    assert_eq!(get_session_name(&Some(playing(&[]))), "Session");
    assert_eq!(get_session_name(&None), "Session");
}

#[test]
fn an_empty_activity_name_is_still_the_name() {
    assert_eq!(get_session_name_from_presence(&playing(&["", "Halo"])), Some(""));
    assert_eq!(get_session_name(&Some(playing(&[""]))), "");
}

#[test]
fn names_are_not_limited_to_ascii() {
    assert_eq!(get_session_name(&Some(playing(&["Pokémon ⚡"]))), "Pokémon ⚡");
}

#[test]
fn full_names_pad_the_discriminator_to_four_digits() {
    assert_eq!(user_fullname("alice", 7), "alice#0007");
    assert_eq!(user_fullname("alice", 42), "alice#0042");
    assert_eq!(user_fullname("alice", 999), "alice#0999");
    assert_eq!(user_fullname("alice", 1234), "alice#1234");
    assert_eq!(user_fullname("alice", 0), "alice#0000");
    assert_eq!(user_fullname("alice", 9999), "alice#9999");
}

#[test]
fn full_names_keep_five_digit_discriminators() {
    assert_eq!(user_fullname("bob", 10000), "bob#10000");
    assert_eq!(user_fullname("bob", 65535), "bob#65535");
    assert_eq!(user_fullname("bob", 40302), "bob#40302");
}

#[test]
fn full_names_keep_the_name_as_it_is() {
    assert_eq!(user_fullname("", 1), "#0001");
    assert_eq!(user_fullname("a#b", 12), "a#b#0012");
    assert_eq!(user_fullname("Zoé ☕", 5), "Zoé ☕#0005");
}

#[test]
fn full_names_agree_with_the_formatter_on_every_discriminator() {
    let mut d: u16 = 0;
    loop {
        assert_eq!(user_fullname("n", d), format!("{}#{:0>4}", "n", d));
        if d == u16::MAX {
            break;
        }
        d += 1;
    }
}
