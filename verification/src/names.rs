//! How a session gets its name: from what its occupant is doing.

use crate::remote::Presence;
use vstd::prelude::*;

verus! {

/// The name of a session whose occupant shows no activity.
pub open spec fn default_session_name() -> Seq<char> {
    "Session"@
}

/// The name of the first activity, as delivered; none where there is no
/// activity.
pub open spec fn first_activity(activities: Seq<Seq<char>>) -> Option<Seq<char>> {
    if activities.len() > 0 {
        Some(activities[0])
    } else {
        None
    }
}

/// The name for a session of a user with this presence: the first activity,
/// or the default where the presence is unknown or shows none.
pub open spec fn session_name(presence: Option<Seq<Seq<char>>>) -> Seq<char> {
    match presence {
        Some(activities) => match first_activity(activities) {
            Some(name) => name,
            None => default_session_name(),
        },
        None => default_session_name(),
    }
}

/// The name of the first activity of `presence`, without sorting or
/// filtering.
pub fn get_session_name_from_presence(presence: &Presence) -> (name: Option<&str>)
    ensures
        match name {
            Some(s) => first_activity(presence@) == Some(s@),
            None => first_activity(presence@) is None,
        },
{
    if presence.activities.len() > 0 {
        Some(presence.activities[0].name.as_str())
    } else {
        None
    }
}

/// The name for a session of a user whose presence is `presence`.
pub fn get_session_name(presence: &Option<Presence>) -> (name: String)
    ensures
        name@ == session_name(
            match *presence {
                Some(p) => Some(p@),
                None => None,
            },
        ),
{
    match presence {
        Some(p) => match get_session_name_from_presence(p) {
            Some(s) => s.to_owned(),
            None => "Session".to_owned(),
        },
        None => "Session".to_owned(),
    }
}

/// `String::push`: the character is appended, and nothing else changes.
pub assume_specification[ String::push ](s: &mut String, ch: char)
    ensures
        final(s)@ == old(s)@.push(ch),
;

/// `String::push_str`: the characters of the slice are appended in their
/// order, and nothing else changes.
pub assume_specification[ String::push_str ](s: &mut String, string: &str)
    ensures
        final(s)@ == old(s)@ + string@,
;

/// The decimal digit for `d`.
pub open spec fn digit(d: int) -> char {
    if d == 0 {
        '0'
    } else if d == 1 {
        '1'
    } else if d == 2 {
        '2'
    } else if d == 3 {
        '3'
    } else if d == 4 {
        '4'
    } else if d == 5 {
        '5'
    } else if d == 6 {
        '6'
    } else if d == 7 {
        '7'
    } else if d == 8 {
        '8'
    } else {
        '9'
    }
}

/// A discriminator in decimal, with zeros in front up to four digits.
pub open spec fn discriminator_text(discriminator: u16) -> Seq<char> {
    let d = discriminator as int;
    let low = seq![digit(d / 1000 % 10), digit(d / 100 % 10), digit(d / 10 % 10), digit(d % 10)];
    if d >= 10000 {
        seq![digit(d / 10000)] + low
    } else {
        low
    }
}

/// A user's full name: the name, a `#`, and the discriminator.
pub open spec fn fullname(name: Seq<char>, discriminator: u16) -> Seq<char> {
    name + seq!['#'] + discriminator_text(discriminator)
}

/// The decimal digit for `d`.
fn digit_of(d: u16) -> (c: char)
    requires
        d < 10,
    ensures
        c == digit(d as int),
{
    if d == 0 {
        '0'
    } else if d == 1 {
        '1'
    } else if d == 2 {
        '2'
    } else if d == 3 {
        '3'
    } else if d == 4 {
        '4'
    } else if d == 5 {
        '5'
    } else if d == 6 {
        '6'
    } else if d == 7 {
        '7'
    } else if d == 8 {
        '8'
    } else {
        '9'
    }
}

/// The full name of the user with this name and this discriminator.
pub fn user_fullname(name: &str, discriminator: u16) -> (full: String)
    ensures
        full@ == fullname(name@, discriminator),
{
    let mut full = String::new();
    full.push_str(name);
    full.push('#');
    if discriminator >= 10000 {
        full.push(digit_of(discriminator / 10000));
    }
    full.push(digit_of(discriminator / 1000 % 10));
    full.push(digit_of(discriminator / 100 % 10));
    full.push(digit_of(discriminator / 10 % 10));
    full.push(digit_of(discriminator % 10));
    assert(full@ =~= fullname(name@, discriminator));
    full
}

} // verus!
