//! Whole operations run against a small platform on which nobody else acts.

use session_maker::controller::SessionMaker;
use session_maker::protocol::{Fault, Next, Step};
use session_maker::registry::GuildEntry;
use session_maker::remote::{
    Activity, ChannelInfo, ChannelKind, Event, Presence, RemoteError, Reply, Request,
};
use std::collections::{BTreeMap, BTreeSet};

/// A platform kept in memory: its channels, who sits where, and what was
/// asked of it.
struct Platform {
    channels: Vec<(u64, ChannelInfo)>,
    seats: BTreeMap<u64, u64>,
    presences: BTreeMap<u64, Presence>,
    next_id: u64,
    undeletable: BTreeSet<u64>,
    asked: Vec<Request>,
    created: BTreeSet<u64>,
    deleted: BTreeSet<u64>,
}

impl Platform {
    fn new() -> Self {
        Platform {
            channels: Vec::new(),
            seats: BTreeMap::new(),
            presences: BTreeMap::new(),
            next_id: 200,
            undeletable: BTreeSet::new(),
            asked: Vec::new(),
            created: BTreeSet::new(),
            deleted: BTreeSet::new(),
        }
    }

    fn with_lobby(guild: u64, maker: u64, parent: u64) -> Self {
        let mut platform = Platform::new();
        platform.add(guild, maker, ChannelKind::Voice, Some(parent), "Lobby");
        platform.add(guild, parent, ChannelKind::Category, None, "Games");
        platform
    }

    fn add(&mut self, guild: u64, id: u64, kind: ChannelKind, parent: Option<u64>, name: &str) {
        let info = ChannelInfo { id, kind, parent_category: parent, name: name.to_string() };
        self.channels.push((guild, info));
    }

    fn has_channel(&self, channel: u64) -> bool {
        self.channels.iter().any(|(_, c)| c.id == channel)
    }

    fn name_of(&self, channel: u64) -> Option<String> {
        self.channels.iter().find(|(_, c)| c.id == channel).map(|(_, c)| c.name.clone())
    }

    fn members(&self, channel: u64) -> Vec<u64> {
        self.seats.iter().filter(|(_, c)| **c == channel).map(|(u, _)| *u).collect()
    }

    fn answer(&mut self, request: &Request) -> Reply {
        self.asked.push(request.clone());
        match request {
            Request::ListVoiceChannels { guild } => Reply::Channels(Ok(self
                .channels
                .iter()
                .filter(|(g, _)| g == guild)
                .map(|(_, c)| c.clone())
                .collect())),
            Request::CreateVoiceChannel { guild, name, parent_category } => {
                if !self.has_channel(*parent_category) {
                    return Reply::Created(Err(RemoteError::InvalidParent));
                }
                let id = self.next_id;
                self.next_id += 1;
                self.add(*guild, id, ChannelKind::Voice, Some(*parent_category), name);
                self.created.insert(id);
                Reply::Created(Ok(id))
            },
            Request::DeleteChannel { channel } => {
                if !self.has_channel(*channel) {
                    Reply::Deleted(Err(RemoteError::NotFound))
                } else if self.undeletable.contains(channel) {
                    Reply::Deleted(Err(RemoteError::PermissionDenied))
                } else {
                    self.channels.retain(|(_, c)| c.id != *channel);
                    self.deleted.insert(*channel);
                    Reply::Deleted(Ok(()))
                }
            },
            Request::RenameChannel { channel, name } => {
                match self.channels.iter_mut().find(|(_, c)| c.id == *channel) {
                    Some((_, c)) => {
                        c.name = name.clone();
                        Reply::Renamed(Ok(()))
                    },
                    None => Reply::Renamed(Err(RemoteError::NotFound)),
                }
            },
            Request::MoveMemberToVoice { user, channel, .. } => {
                if !self.seats.contains_key(user) {
                    Reply::Moved(Err(RemoteError::UserNotInVoice))
                } else if !self.has_channel(*channel) {
                    Reply::Moved(Err(RemoteError::NotFound))
                } else {
                    self.seats.insert(*user, *channel);
                    Reply::Moved(Ok(()))
                }
            },
            Request::VoiceMembers { channel } => {
                if self.has_channel(*channel) {
                    Reply::Members(Ok(self.members(*channel)))
                } else {
                    Reply::Members(Err(RemoteError::NotFound))
                }
            },
            Request::PresenceOf { user, .. } => Reply::Presence(self.presences.get(user).cloned()),
        }
    }

    fn deletions_asked(&self) -> Vec<u64> {
        self.asked
            .iter()
            .filter_map(|r| match r {
                Request::DeleteChannel { channel } => Some(*channel),
                _ => None,
            })
            .collect()
    }

    fn renames_asked(&self) -> Vec<(u64, String)> {
        self.asked
            .iter()
            .filter_map(|r| match r {
                Request::RenameChannel { channel, name } => Some((*channel, name.clone())),
                _ => None,
            })
            .collect()
    }

    /// The channels that were created here and not deleted since.
    fn live(&self) -> BTreeSet<u64> {
        self.created.difference(&self.deleted).copied().collect()
    }
}

fn playing(names: &[&str]) -> Presence {
    Presence { activities: names.iter().map(|n| Activity { name: n.to_string() }).collect() }
}

/// Runs the operation that `event` starts to its end.
fn handle(controller: &mut SessionMaker, platform: &mut Platform, event: Event) -> Vec<Fault> {
    let mut faults = Vec::new();
    let mut step: Step = controller.start(event);
    let mut turns = 0;
    loop {
        if let Some(fault) = step.fault {
            faults.push(fault);
        }
        match step.next {
            Next::Done => return faults,
            Next::Call { task, request } => {
                let reply = platform.answer(&request);
                step = controller.resume(task, reply);
            },
        }
        turns += 1;
        assert!(turns < 1000, "the operation does not end");
    }
}

fn joins(platform: &mut Platform, guild: u64, user: u64, channel: u64) -> Event {
    platform.seats.insert(user, channel);
    Event::VoiceStateUpdate { guild_id: Some(guild), user_id: user, channel_id: Some(channel) }
}

fn leaves(platform: &mut Platform, guild: u64, user: u64) -> Event {
    platform.seats.remove(&user);
    Event::VoiceStateUpdate { guild_id: Some(guild), user_id: user, channel_id: None }
}

fn set_up(platform: &mut Platform, guild: u64, maker: u64) -> SessionMaker {
    let mut controller = SessionMaker::new();
    let faults = handle(&mut controller, platform, Event::AdminSetMaker { guild, channel: maker });
    assert!(faults.is_empty());
    platform.asked.clear();
    controller
}

fn sessions(controller: &SessionMaker, guild: u64) -> BTreeSet<u64> {
    controller.registry().sessions(guild).into_iter().collect()
}

#[test]
fn a_session_is_opened_and_reclaimed() {
    let mut platform = Platform::with_lobby(1, 100, 9);
    platform.presences.insert(42, playing(&["Halo"]));
    let mut controller = set_up(&mut platform, 1, 100);
    assert_eq!(controller.registry().get(1), GuildEntry { maker: Some(100), sessions: vec![] });

    let event = joins(&mut platform, 1, 42, 100);
    assert!(handle(&mut controller, &mut platform, event).is_empty());
    assert_eq!(controller.registry().get(1), GuildEntry { maker: Some(100), sessions: vec![200] });
    assert_eq!(platform.name_of(200), Some("Halo".to_string()));
    assert_eq!(platform.seats.get(&42), Some(&200));
    assert_eq!(
        platform.asked,
        vec![
            Request::ListVoiceChannels { guild: 1 },
            Request::PresenceOf { guild: 1, user: 42 },
            Request::CreateVoiceChannel {
                guild: 1,
                name: "Halo".to_string(),
                parent_category: 9
            },
            Request::MoveMemberToVoice { guild: 1, user: 42, channel: 200 },
        ]
    );

    platform.asked.clear();
    let event = leaves(&mut platform, 1, 42);
    assert!(handle(&mut controller, &mut platform, event).is_empty());
    assert_eq!(controller.registry().get(1), GuildEntry { maker: Some(100), sessions: vec![] });
    assert!(!platform.has_channel(200));
    assert_eq!(
        platform.asked,
        vec![
            Request::ListVoiceChannels { guild: 1 },
            Request::VoiceMembers { channel: 200 },
            Request::DeleteChannel { channel: 200 },
        ]
    );
}

#[test]
fn the_sessions_are_the_live_channels_after_every_event() {
    let mut platform = Platform::with_lobby(1, 100, 9);
    let mut controller = set_up(&mut platform, 1, 100);
    let script: Vec<(u64, Option<u64>)> = vec![
        (1, Some(100)),
        (2, Some(100)),
        (3, Some(100)),
        (1, None),
        (4, Some(100)),
        (2, None),
        (3, None),
        (5, Some(555)),
        (4, None),
        (6, Some(100)),
        (5, None),
        (6, None),
    ];
    for (user, target) in script {
        let event = match target {
            Some(channel) => joins(&mut platform, 1, user, channel),
            None => leaves(&mut platform, 1, user),
        };
        handle(&mut controller, &mut platform, event);
        assert_eq!(sessions(&controller, 1), platform.live());
        for channel in sessions(&controller, 1) {
            assert!(platform.has_channel(channel));
        }
    }
    assert!(sessions(&controller, 1).is_empty());
    assert_eq!(platform.created.len(), 5);
    assert_eq!(platform.deleted, platform.created);
    assert_eq!(controller.registry().maker(1), Some(100));
}

#[test]
fn a_channel_that_somebody_else_deleted_is_forgotten_by_the_next_sweep() {
    let mut platform = Platform::with_lobby(1, 100, 9);
    let mut controller = set_up(&mut platform, 1, 100);
    for user in [1u64, 2] {
        let event = joins(&mut platform, 1, user, 100);
        handle(&mut controller, &mut platform, event);
    }
    assert_eq!(controller.registry().sessions(1), vec![200, 201]);
    // somebody deletes 200 by hand, while user 1 is thrown out of it
    platform.channels.retain(|(_, c)| c.id != 200);
    platform.asked.clear();
    let event = leaves(&mut platform, 1, 1);
    assert!(handle(&mut controller, &mut platform, event).is_empty());
    assert_eq!(controller.registry().sessions(1), vec![201]);
    assert!(platform.deletions_asked().is_empty());
}

#[test]
fn a_second_sweep_changes_nothing_and_deletes_nothing() {
    let mut platform = Platform::with_lobby(1, 100, 9);
    let mut controller = set_up(&mut platform, 1, 100);
    for user in [1u64, 2, 3] {
        let event = joins(&mut platform, 1, user, 100);
        handle(&mut controller, &mut platform, event);
    }
    assert_eq!(controller.registry().sessions(1), vec![200, 201, 202]);
    platform.seats.remove(&1);
    platform.seats.remove(&3);
    platform.asked.clear();

    let event = leaves(&mut platform, 1, 1);
    assert!(handle(&mut controller, &mut platform, event).is_empty());
    let after_first = controller.registry().get(1);
    assert_eq!(after_first, GuildEntry { maker: Some(100), sessions: vec![201] });
    assert_eq!(platform.deletions_asked(), vec![200, 202]);
    assert!(controller.take_dirty());

    assert!(handle(&mut controller, &mut platform, Event::Ready).is_empty());
    assert_eq!(controller.registry().get(1), after_first);
    assert_eq!(platform.deletions_asked(), vec![200, 202]);
    assert!(!controller.has_changes());
}

#[test]
fn a_deletion_that_failed_is_tried_again_by_the_next_sweep() {
    let mut platform = Platform::with_lobby(1, 100, 9);
    let mut controller = set_up(&mut platform, 1, 100);
    let event = joins(&mut platform, 1, 1, 100);
    handle(&mut controller, &mut platform, event);
    platform.undeletable.insert(200);
    platform.asked.clear();

    let event = leaves(&mut platform, 1, 1);
    let faults = handle(&mut controller, &mut platform, event);
    assert_eq!(faults, vec![Fault::Remote(RemoteError::PermissionDenied)]);
    assert_eq!(controller.registry().sessions(1), vec![200]);

    let faults = handle(&mut controller, &mut platform, Event::Ready);
    assert_eq!(faults, vec![Fault::Remote(RemoteError::PermissionDenied)]);
    assert_eq!(controller.registry().sessions(1), vec![200]);
    assert_eq!(platform.deletions_asked(), vec![200, 200]);

    platform.undeletable.clear();
    assert!(handle(&mut controller, &mut platform, Event::Ready).is_empty());
    assert!(controller.registry().sessions(1).is_empty());
}

#[test]
fn a_change_of_presence_renames_the_session_of_the_user() {
    let mut platform = Platform::with_lobby(1, 100, 9);
    let mut controller = set_up(&mut platform, 1, 100);
    for user in [1u64, 2] {
        let event = joins(&mut platform, 1, user, 100);
        handle(&mut controller, &mut platform, event);
    }
    assert_eq!(platform.name_of(201), Some("Session".to_string()));
    platform.asked.clear();
    let before = controller.registry().get(1);
    controller.take_dirty();

    let event =
        Event::PresenceUpdate { guild_id: Some(1), user_id: 2, presence: playing(&["Chess", "Go"]) };
    assert!(handle(&mut controller, &mut platform, event).is_empty());
    assert_eq!(platform.renames_asked(), vec![(201, "Chess".to_string())]);
    assert_eq!(platform.name_of(201), Some("Chess".to_string()));
    assert_eq!(platform.name_of(200), Some("Session".to_string()));
    assert_eq!(controller.registry().get(1), before);
    assert!(!controller.has_changes());
}

#[test]
fn a_change_of_presence_outside_the_sessions_renames_nothing() {
    let mut platform = Platform::with_lobby(1, 100, 9);
    let mut controller = set_up(&mut platform, 1, 100);
    let event = joins(&mut platform, 1, 1, 100);
    handle(&mut controller, &mut platform, event);
    // user 7 sits in the maker, user 8 nowhere
    platform.seats.insert(7, 100);
    platform.asked.clear();
    for user in [7u64, 8] {
        let event =
            Event::PresenceUpdate { guild_id: Some(1), user_id: user, presence: playing(&["Chess"]) };
        assert!(handle(&mut controller, &mut platform, event).is_empty());
    }
    assert!(platform.renames_asked().is_empty());
    assert_eq!(platform.name_of(200), Some("Session".to_string()));
    assert_eq!(
        platform.asked,
        vec![Request::VoiceMembers { channel: 200 }, Request::VoiceMembers { channel: 200 }]
    );
}

#[test]
fn a_refused_command_leaves_the_maker_as_it_was() {
    let mut platform = Platform::with_lobby(1, 100, 9);
    platform.add(1, 300, ChannelKind::Text, Some(9), "general");
    platform.add(1, 301, ChannelKind::Voice, None, "loose");
    let mut controller = set_up(&mut platform, 1, 100);
    controller.take_dirty();
    for channel in [300u64, 301, 302, 9] {
        let faults =
            handle(&mut controller, &mut platform, Event::AdminSetMaker { guild: 1, channel });
        assert_eq!(faults.len(), 1);
        assert!(matches!(faults[0], Fault::InvalidAdminInput(_)));
        assert_eq!(controller.registry().get(1), GuildEntry { maker: Some(100), sessions: vec![] });
        assert!(!controller.has_changes());
    }
}

#[test]
fn the_move_may_fail_and_the_session_is_reaped_later() {
    let mut platform = Platform::with_lobby(1, 100, 9);
    let mut controller = set_up(&mut platform, 1, 100);
    // the user has left again before the move: the platform has no seat for them
    let event = Event::VoiceStateUpdate { guild_id: Some(1), user_id: 42, channel_id: Some(100) };
    let faults = handle(&mut controller, &mut platform, event);
    assert_eq!(faults, vec![Fault::Remote(RemoteError::UserNotInVoice)]);
    assert_eq!(controller.registry().sessions(1), vec![200]);
    assert!(platform.has_channel(200));
    let event = leaves(&mut platform, 1, 42);
    assert!(handle(&mut controller, &mut platform, event).is_empty());
    assert!(controller.registry().sessions(1).is_empty());
    assert!(!platform.has_channel(200));
}
