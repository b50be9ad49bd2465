//! Whole operations, step by step, against answers written out by hand.

use session_maker::controller::SessionMaker;
use session_maker::protocol::{AdminProblem, Fault, Next, Step, Task};
use session_maker::registry::{GuildEntry, Registry};
use session_maker::remote::{
    Activity, ChannelInfo, ChannelKind, Event, Presence, RemoteError, Reply, Request,
};

fn voice(id: u64, parent: Option<u64>, name: &str) -> ChannelInfo {
    ChannelInfo { id, kind: ChannelKind::Voice, parent_category: parent, name: name.to_string() }
}

fn category(id: u64, name: &str) -> ChannelInfo {
    ChannelInfo { id, kind: ChannelKind::Category, parent_category: None, name: name.to_string() }
}

fn text(id: u64, parent: Option<u64>, name: &str) -> ChannelInfo {
    ChannelInfo { id, kind: ChannelKind::Text, parent_category: parent, name: name.to_string() }
}

fn playing(names: &[&str]) -> Presence {
    Presence { activities: names.iter().map(|n| Activity { name: n.to_string() }).collect() }
}

fn lobby_listing() -> Vec<ChannelInfo> {
    vec![voice(100, Some(9), "Lobby"), category(9, "Games")]
}

fn controller_with(maker: Option<u64>, sessions: Vec<u64>) -> SessionMaker {
    let records = vec![(1u64, GuildEntry { maker, sessions })];
    SessionMaker::with_registry(Registry::import(&records))
}

fn expect_call(step: Step) -> (Task, Request) {
    assert_eq!(step.fault, None);
    match step.next {
        Next::Call { task, request } => (task, request),
        Next::Done => panic!("the operation ended early"),
    }
}

fn entry(controller: &SessionMaker, guild: u64) -> GuildEntry {
    controller.registry().get(guild)
}

#[test]
fn setup_and_first_session() {
    let mut controller = SessionMaker::new();
    assert!(controller.registry().all_guilds().is_empty());

    let (task, request) = expect_call(controller.start(Event::AdminSetMaker { guild: 1, channel: 100 }));
    assert_eq!(request, Request::ListVoiceChannels { guild: 1 });
    assert!(!controller.has_changes());
    let step = controller.resume(task, Reply::Channels(Ok(lobby_listing())));
    assert_eq!(step, Step { fault: None, next: Next::Done });
    assert_eq!(entry(&controller, 1), GuildEntry { maker: Some(100), sessions: vec![] });
    assert_eq!(controller.registry().all_guilds(), vec![1]);
    assert!(controller.has_changes());
    assert!(controller.take_dirty());
    assert!(!controller.has_changes());

    let joined = Event::VoiceStateUpdate { guild_id: Some(1), user_id: 42, channel_id: Some(100) };
    let mut asked = Vec::new();
    let (task, request) = expect_call(controller.start(joined));
    asked.push(request);
    let (task, request) = expect_call(controller.resume(task, Reply::Channels(Ok(lobby_listing()))));
    asked.push(request);
    let (task, request) =
        expect_call(controller.resume(task, Reply::Presence(Some(playing(&["Halo"])))));
    asked.push(request);
    assert!(entry(&controller, 1).sessions.is_empty());
    let (task, request) = expect_call(controller.resume(task, Reply::Created(Ok(200))));
    // the session is recorded before the move is asked for
    assert_eq!(entry(&controller, 1), GuildEntry { maker: Some(100), sessions: vec![200] });
    assert!(controller.has_changes());
    asked.push(request);
    let step = controller.resume(task, Reply::Moved(Ok(())));
    assert_eq!(step, Step { fault: None, next: Next::Done });

    assert_eq!(
        asked,
        vec![
            Request::ListVoiceChannels { guild: 1 },
            Request::PresenceOf { guild: 1, user: 42 },
            Request::CreateVoiceChannel {
                guild: 1,
                name: "Halo".to_string(),
                parent_category: 9
            },
            Request::MoveMemberToVoice { guild: 1, user: 42, channel: 200 },
        ]
    );
    assert_eq!(entry(&controller, 1), GuildEntry { maker: Some(100), sessions: vec![200] });
}

#[test]
fn empty_reclamation() {
    let mut controller = controller_with(Some(100), vec![200]);
    let left = Event::VoiceStateUpdate { guild_id: Some(1), user_id: 42, channel_id: None };
    let (task, request) = expect_call(controller.start(left));
    assert_eq!(request, Request::ListVoiceChannels { guild: 1 });
    let listing = vec![voice(100, Some(9), "Lobby"), voice(200, Some(9), "Halo"), category(9, "Games")];
    let (task, request) = expect_call(controller.resume(task, Reply::Channels(Ok(listing))));
    assert_eq!(request, Request::VoiceMembers { channel: 200 });
    let (task, request) = expect_call(controller.resume(task, Reply::Members(Ok(vec![]))));
    assert_eq!(request, Request::DeleteChannel { channel: 200 });
    assert_eq!(entry(&controller, 1).sessions, vec![200]);
    assert!(!controller.has_changes());
    let step = controller.resume(task, Reply::Deleted(Ok(())));
    assert_eq!(step, Step { fault: None, next: Next::Done });
    assert_eq!(entry(&controller, 1), GuildEntry { maker: Some(100), sessions: vec![] });
    assert!(controller.has_changes());
}

#[test]
fn rename_on_presence() {
    let mut controller = controller_with(Some(100), vec![200]);
    let event = Event::PresenceUpdate { guild_id: Some(1), user_id: 42, presence: playing(&["Chess"]) };
    let (task, request) = expect_call(controller.start(event));
    assert_eq!(request, Request::VoiceMembers { channel: 200 });
    let (task, request) = expect_call(controller.resume(task, Reply::Members(Ok(vec![42]))));
    assert_eq!(request, Request::RenameChannel { channel: 200, name: "Chess".to_string() });
    let step = controller.resume(task, Reply::Renamed(Ok(())));
    assert_eq!(step, Step { fault: None, next: Next::Done });
    assert_eq!(entry(&controller, 1), GuildEntry { maker: Some(100), sessions: vec![200] });
    assert!(!controller.has_changes());
}

#[test]
fn presence_with_no_activities() {
    let mut controller = controller_with(Some(100), vec![200]);
    let event = Event::PresenceUpdate { guild_id: Some(1), user_id: 42, presence: playing(&[]) };
    let (task, request) = expect_call(controller.start(event));
    assert_eq!(request, Request::VoiceMembers { channel: 200 });
    let (task, request) = expect_call(controller.resume(task, Reply::Members(Ok(vec![7, 42]))));
    assert_eq!(request, Request::RenameChannel { channel: 200, name: "Session".to_string() });
    assert_eq!(task, Task::RenameIssue { channel: 200 });
    let step = controller.resume(task, Reply::Renamed(Ok(())));
    assert_eq!(step, Step { fault: None, next: Next::Done });
    assert_eq!(entry(&controller, 1), GuildEntry { maker: Some(100), sessions: vec![200] });
}

#[test]
fn startup_reconciliation() {
    let mut controller = controller_with(Some(100), vec![200, 201]);
    let (task, request) = expect_call(controller.start(Event::Ready));
    assert_eq!(request, Request::ListVoiceChannels { guild: 1 });
    assert_eq!(task, Task::SweepListing { guild: 1, snapshot: vec![200, 201], rest: vec![] });
    let listing = vec![voice(100, Some(9), "Lobby"), voice(200, Some(9), "Halo"), category(9, "Games")];
    let (task, request) = expect_call(controller.resume(task, Reply::Channels(Ok(listing))));
    // 201 is gone from the listing: forgotten at once
    assert_eq!(entry(&controller, 1).sessions, vec![200]);
    assert_eq!(request, Request::VoiceMembers { channel: 200 });
    let (task, request) = expect_call(controller.resume(task, Reply::Members(Ok(vec![]))));
    assert_eq!(request, Request::DeleteChannel { channel: 200 });
    let step = controller.resume(task, Reply::Deleted(Ok(())));
    assert_eq!(step, Step { fault: None, next: Next::Done });
    assert_eq!(entry(&controller, 1), GuildEntry { maker: Some(100), sessions: vec![] });
    assert!(controller.has_changes());
}

#[test]
fn admin_rejects_non_voice() {
    let mut controller = SessionMaker::new();
    let (task, request) = expect_call(controller.start(Event::AdminSetMaker { guild: 1, channel: 300 }));
    assert_eq!(request, Request::ListVoiceChannels { guild: 1 });
    let listing = vec![text(300, Some(9), "general"), category(9, "Games")];
    let step = controller.resume(task, Reply::Channels(Ok(listing)));
    assert_eq!(
        step,
        Step {
            fault: Some(Fault::InvalidAdminInput(
                AdminProblem::NotVoice
            )),
            next: Next::Done
        }
    );
    assert!(controller.registry().all_guilds().is_empty());
    assert!(!controller.registry().has_guild(1));
    assert!(!controller.has_changes());
}

#[test]
fn deletion_not_found_still_forgets_the_session() {
    let mut controller = controller_with(Some(100), vec![200]);
    let task = Task::SweepDelete { guild: 1, channel: 200, pending: vec![], rest: vec![] };
    let step = controller.resume(task, Reply::Deleted(Err(RemoteError::NotFound)));
    assert_eq!(step, Step { fault: None, next: Next::Done });
    assert_eq!(entry(&controller, 1), GuildEntry { maker: Some(100), sessions: vec![] });
    assert!(controller.has_changes());
}

#[test]
fn failed_deletion_keeps_the_session() {
    let mut controller = controller_with(Some(100), vec![200, 202]);
    let task = Task::SweepDelete { guild: 1, channel: 200, pending: vec![202], rest: vec![] };
    let step = controller.resume(task, Reply::Deleted(Err(RemoteError::PermissionDenied)));
    assert_eq!(step.fault, Some(Fault::Remote(RemoteError::PermissionDenied)));
    assert_eq!(
        step.next,
        Next::Call {
            task: Task::SweepMembers { guild: 1, channel: 202, pending: vec![], rest: vec![] },
            request: Request::VoiceMembers { channel: 202 },
        }
    );
    assert_eq!(entry(&controller, 1).sessions, vec![200, 202]);
    assert!(!controller.has_changes());
}
