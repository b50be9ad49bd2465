//! The operations of the controller as a transition system: what an
//! operation is between two calls, and what each answer of the platform
//! leads to.
//!
//! An operation starts with an event and ends when nothing is left to ask.
//! Between two calls it is a [`Task`], a plain value that its driver keeps.

use crate::names::session_name;
use crate::registry::{
    entry_of, inside, maker_set, session_added, session_dropped, sessions_dropped, EntryView,
};
use crate::remote::{
    listed_ids, lookup, unlisted, ChannelKind, ChannelView, EventView, RemoteError, ReplyView,
    Request, RequestView,
};
use vstd::prelude::*;

verus! {


/// Why the maker of a guild cannot serve.
#[derive(Clone, Copy, Debug, PartialEq, Eq, Structural)]
pub enum ConfigurationProblem {
    /// The guild's listing no longer holds the maker.
    MakerMissing,
    /// The maker is not inside a category.
    MakerWithoutCategory,
}

/// Why a channel cannot become a maker.
#[derive(Clone, Copy, Debug, PartialEq, Eq, Structural)]
pub enum AdminProblem {
    /// The guild's listing does not hold the channel.
    ChannelAbsent,
    /// The channel is not a voice channel.
    NotVoice,
    /// The channel is not inside a category.
    NoCategory,
}

/// What went wrong in one step of an operation, for the log.
#[derive(Clone, Copy, Debug, PartialEq, Eq, Structural)]
pub enum Fault {
    /// A call to the platform failed.
    Remote(RemoteError),
    /// The guild's maker cannot serve.
    ConfigurationError(ConfigurationProblem),
    /// The administrator named a channel that cannot become a maker.
    InvalidAdminInput(AdminProblem),
    /// The answer handed in is not one to the call that was asked for.
    UnexpectedReply,
}

/// An operation between two calls, as a mathematical value.
pub enum TaskView {
    JoinListing { guild: u64, user: u64, maker: u64 },
    JoinPresence { guild: u64, user: u64, parent_category: u64 },
    JoinCreate { guild: u64, user: u64 },
    JoinMove { guild: u64, user: u64, channel: u64 },
    SweepListing { guild: u64, snapshot: Seq<u64>, rest: Seq<u64> },
    SweepMembers { guild: u64, channel: u64, pending: Seq<u64>, rest: Seq<u64> },
    SweepDelete { guild: u64, channel: u64, pending: Seq<u64>, rest: Seq<u64> },
    RenameScan { user: u64, name: Seq<char>, channel: u64, pending: Seq<u64> },
    RenameIssue { channel: u64 },
    AdminListing { guild: u64, channel: u64 },
}

/// An operation between two calls: what it waits for and what it still has
/// to do.
///
/// The tasks also tell where a session is in its life. While a `JoinCreate`
/// waits, the session is being created and no registry knows it; from the
/// step that takes the new channel it is recorded, and live. While a
/// `SweepDelete` waits, it drains: it was found empty and is still recorded.
/// The step that takes the deletion's answer forgets it where the channel is
/// gone, and leaves it live where the deletion failed, for the next sweep to
/// try again.
#[derive(Clone, Debug, PartialEq, Eq)]
pub enum Task {
    /// A user joined `maker`; the guild's listing was asked for.
    JoinListing { guild: u64, user: u64, maker: u64 },
    /// The maker's category is known; the user's presence was asked for.
    JoinPresence { guild: u64, user: u64, parent_category: u64 },
    /// The creation of the session channel was asked for.
    JoinCreate { guild: u64, user: u64 },
    /// The session is recorded; the user's move into it was asked for.
    JoinMove { guild: u64, user: u64, channel: u64 },
    /// The sweep of `guild` took `snapshot` of its sessions and asked for the
    /// listing; the guilds of `rest` are swept afterwards.
    SweepListing { guild: u64, snapshot: Vec<u64>, rest: Vec<u64> },
    /// The members of `channel` were asked for; `pending` are the sessions to
    /// look at after it.
    SweepMembers { guild: u64, channel: u64, pending: Vec<u64>, rest: Vec<u64> },
    /// `channel` was found empty and its deletion asked for.
    SweepDelete { guild: u64, channel: u64, pending: Vec<u64>, rest: Vec<u64> },
    /// The search for the session that holds `user` asked for the members of
    /// `channel`; `name` is what the session is to be called.
    RenameScan { user: u64, name: String, channel: u64, pending: Vec<u64> },
    /// The renaming of `channel` was asked for.
    RenameIssue { channel: u64 },
    /// An administrator named `channel`; the guild's listing was asked for.
    AdminListing { guild: u64, channel: u64 },
}

impl View for Task {
    type V = TaskView;

    open spec fn view(&self) -> TaskView {
        match *self {
            Task::JoinListing { guild, user, maker } => TaskView::JoinListing {
                guild,
                user,
                maker,
            },
            Task::JoinPresence { guild, user, parent_category } => TaskView::JoinPresence {
                guild,
                user,
                parent_category,
            },
            Task::JoinCreate { guild, user } => TaskView::JoinCreate { guild, user },
            Task::JoinMove { guild, user, channel } => TaskView::JoinMove { guild, user, channel },
            Task::SweepListing { guild, snapshot, rest } => TaskView::SweepListing {
                guild,
                snapshot: snapshot@,
                rest: rest@,
            },
            Task::SweepMembers { guild, channel, pending, rest } => TaskView::SweepMembers {
                guild,
                channel,
                pending: pending@,
                rest: rest@,
            },
            Task::SweepDelete { guild, channel, pending, rest } => TaskView::SweepDelete {
                guild,
                channel,
                pending: pending@,
                rest: rest@,
            },
            Task::RenameScan { user, name, channel, pending } => TaskView::RenameScan {
                user,
                name: name@,
                channel,
                pending: pending@,
            },
            Task::RenameIssue { channel } => TaskView::RenameIssue { channel },
            Task::AdminListing { guild, channel } => TaskView::AdminListing { guild, channel },
        }
    }
}

/// What the driver does next, as a mathematical value.
pub enum NextView {
    Call { task: TaskView, request: RequestView },
    Done,
}

/// What the driver does next.
#[derive(Clone, Debug, PartialEq, Eq)]
pub enum Next {
    /// Make the call `request` and hand its answer in with `task`.
    Call { task: Task, request: Request },
    /// The operation has ended.
    Done,
}

impl View for Next {
    type V = NextView;

    open spec fn view(&self) -> NextView {
        match *self {
            Next::Call { task, request } => NextView::Call { task: task@, request: request@ },
            Next::Done => NextView::Done,
        }
    }
}

/// The result of one step, as a mathematical value.
pub struct StepView {
    pub fault: Option<Fault>,
    pub next: NextView,
}

/// The result of one step: what to log, and what to do next.
#[derive(Clone, Debug, PartialEq, Eq)]
pub struct Step {
    pub fault: Option<Fault>,
    pub next: Next,
}

impl View for Step {
    type V = StepView;

    open spec fn view(&self) -> StepView {
        StepView { fault: self.fault, next: self.next@ }
    }
}

/// The step that ends an operation without complaint.
pub open spec fn done() -> StepView {
    StepView { fault: None, next: NextView::Done }
}

/// The step that ends an operation over `fault`.
pub open spec fn failed(fault: Fault) -> StepView {
    StepView { fault: Some(fault), next: NextView::Done }
}

/// The step that asks for `request` and goes on with `task`.
pub open spec fn call(task: TaskView, request: RequestView) -> StepView {
    StepView { fault: None, next: NextView::Call { task, request } }
}

/// The category under which the sessions of a guild with this maker are
/// created, or why the maker cannot serve.
pub open spec fn maker_category(listing: Seq<ChannelView>, maker: u64) -> Result<
    u64,
    ConfigurationProblem,
> {
    match lookup(listing, maker) {
        None => Err(ConfigurationProblem::MakerMissing),
        Some(c) => match c.parent_category {
            None => Err(ConfigurationProblem::MakerWithoutCategory),
            Some(parent) => Ok(parent),
        },
    }
}

/// Whether `channel` can become a maker: it must be listed, a voice channel
/// and inside a category.
pub open spec fn admissible(listing: Seq<ChannelView>, channel: u64) -> Result<(), AdminProblem> {
    match lookup(listing, channel) {
        None => Err(AdminProblem::ChannelAbsent),
        Some(c) => if c.kind != ChannelKind::Voice {
            Err(AdminProblem::NotVoice)
        } else if c.parent_category is None {
            Err(AdminProblem::NoCategory)
        } else {
            Ok(())
        },
    }
}

/// The sessions of the snapshot that the listing holds, in the listing's
/// order: the channels that a sweep looks at.
pub open spec fn candidates(listing: Seq<ChannelView>, snapshot: Seq<u64>) -> Seq<u64> {
    listed_ids(listing).filter(inside(snapshot))
}

/// The sessions of the snapshot that the listing does not hold: the channels
/// that a sweep forgets unseen.
pub open spec fn orphans(listing: Seq<ChannelView>, snapshot: Seq<u64>) -> Seq<u64> {
    snapshot.filter(unlisted(listing))
}

/// The sweep of the guilds of `queue`, one after the other: it starts with a
/// snapshot of the first guild's sessions and asks for that guild's listing.
pub open spec fn sweep_from(guilds: Map<u64, EntryView>, queue: Seq<u64>) -> NextView {
    if queue.len() == 0 {
        NextView::Done
    } else {
        NextView::Call {
            task: TaskView::SweepListing {
                guild: queue[0],
                snapshot: entry_of(guilds, queue[0]).sessions,
                rest: queue.drop_first(),
            },
            request: RequestView::ListVoiceChannels { guild: queue[0] },
        }
    }
}

/// The sweep of `guild` goes on with the channels of `queue`; after the last
/// of them the guilds of `rest` are swept.
pub open spec fn candidate_from(
    guilds: Map<u64, EntryView>,
    guild: u64,
    queue: Seq<u64>,
    rest: Seq<u64>,
) -> NextView {
    if queue.len() == 0 {
        sweep_from(guilds, rest)
    } else {
        NextView::Call {
            task: TaskView::SweepMembers {
                guild,
                channel: queue[0],
                pending: queue.drop_first(),
                rest,
            },
            request: RequestView::VoiceMembers { channel: queue[0] },
        }
    }
}

/// The search for the session of `user` goes on with the channels of `queue`.
pub open spec fn scan_from(user: u64, name: Seq<char>, queue: Seq<u64>) -> NextView {
    if queue.len() == 0 {
        NextView::Done
    } else {
        NextView::Call {
            task: TaskView::RenameScan { user, name, channel: queue[0], pending: queue.drop_first() },
            request: RequestView::VoiceMembers { channel: queue[0] },
        }
    }
}

/// The first step of the operation that `event` starts, in a registry that
/// holds `guilds`. `order` is the order in which a `Ready` sweeps the guilds;
/// no other event looks at it.
pub open spec fn first_step(guilds: Map<u64, EntryView>, event: EventView, order: Seq<u64>) -> StepView {
    match event {
        EventView::Ready => StepView { fault: None, next: sweep_from(guilds, order) },
        EventView::VoiceStateUpdate { guild_id: None, .. } => done(),
        EventView::VoiceStateUpdate { guild_id: Some(guild), user_id, channel_id: Some(joined) } => {
            if entry_of(guilds, guild).maker == Some(joined) {
                call(
                    TaskView::JoinListing { guild, user: user_id, maker: joined },
                    RequestView::ListVoiceChannels { guild },
                )
            } else {
                done()
            }
        },
        EventView::VoiceStateUpdate { guild_id: Some(guild), channel_id: None, .. } => StepView {
            fault: None,
            next: sweep_from(guilds, seq![guild]),
        },
        EventView::PresenceUpdate { guild_id: None, .. } => done(),
        EventView::PresenceUpdate { guild_id: Some(guild), user_id, activities } => StepView {
            fault: None,
            next: scan_from(
                user_id,
                session_name(Some(activities)),
                entry_of(guilds, guild).sessions,
            ),
        },
        EventView::AdminSetMaker { guild, channel } => call(
            TaskView::AdminListing { guild, channel },
            RequestView::ListVoiceChannels { guild },
        ),
    }
}

/// What one step does: the guilds afterwards, whether the registry was
/// written, and the step handed back.
pub struct Transition {
    pub guilds: Map<u64, EntryView>,
    pub wrote: bool,
    pub step: StepView,
}

/// A step that leaves the registry alone.
pub open spec fn stay(guilds: Map<u64, EntryView>, step: StepView) -> Transition {
    Transition { guilds, wrote: false, step }
}

/// A join that waited for the listing: it goes on to ask for the user's
/// presence once the maker's category is known.
pub open spec fn after_join_listing(guild: u64, user: u64, maker: u64, reply: ReplyView) -> StepView {
    match reply {
        ReplyView::Channels(Ok(listing)) => match maker_category(listing, maker) {
            Ok(parent_category) => call(
                TaskView::JoinPresence { guild, user, parent_category },
                RequestView::PresenceOf { guild, user },
            ),
            Err(problem) => failed(Fault::ConfigurationError(problem)),
        },
        ReplyView::Channels(Err(e)) => failed(Fault::Remote(e)),
        _ => failed(Fault::UnexpectedReply),
    }
}

/// A join that waited for the presence: it asks for a voice channel named
/// after it, beside the maker.
pub open spec fn after_join_presence(
    guild: u64,
    user: u64,
    parent_category: u64,
    reply: ReplyView,
) -> StepView {
    match reply {
        ReplyView::Presence(presence) => call(
            TaskView::JoinCreate { guild, user },
            RequestView::CreateVoiceChannel {
                guild,
                name: session_name(presence),
                parent_category,
            },
        ),
        _ => failed(Fault::UnexpectedReply),
    }
}

/// A join that waited for the new channel: it records the session, and only
/// then asks for the user's move.
pub open spec fn after_join_create(
    guilds: Map<u64, EntryView>,
    guild: u64,
    user: u64,
    reply: ReplyView,
) -> Transition {
    match reply {
        ReplyView::Created(Ok(channel)) => Transition {
            guilds: session_added(guilds, guild, channel),
            wrote: true,
            step: call(
                TaskView::JoinMove { guild, user, channel },
                RequestView::MoveMemberToVoice { guild, user, channel },
            ),
        },
        ReplyView::Created(Err(e)) => stay(guilds, failed(Fault::Remote(e))),
        _ => stay(guilds, failed(Fault::UnexpectedReply)),
    }
}

/// A join that waited for the move: it ends; a failed move leaves the session
/// where it is.
pub open spec fn after_join_move(reply: ReplyView) -> StepView {
    match reply {
        ReplyView::Moved(Ok(_)) => done(),
        ReplyView::Moved(Err(e)) => failed(Fault::Remote(e)),
        _ => failed(Fault::UnexpectedReply),
    }
}

/// A sweep that waited for the listing: it forgets the orphans of its
/// snapshot and goes on with the sessions that are listed. Without a listing
/// it leaves the guild and goes on with the next.
pub open spec fn after_sweep_listing(
    guilds: Map<u64, EntryView>,
    guild: u64,
    snapshot: Seq<u64>,
    rest: Seq<u64>,
    reply: ReplyView,
) -> Transition {
    match reply {
        ReplyView::Channels(Ok(listing)) => {
            let gone = orphans(listing, snapshot);
            let kept = if gone.len() > 0 {
                sessions_dropped(guilds, guild, gone)
            } else {
                guilds
            };
            Transition {
                guilds: kept,
                wrote: gone.len() > 0,
                step: StepView {
                    fault: None,
                    next: candidate_from(kept, guild, candidates(listing, snapshot), rest),
                },
            }
        },
        ReplyView::Channels(Err(e)) => stay(
            guilds,
            StepView { fault: Some(Fault::Remote(e)), next: sweep_from(guilds, rest) },
        ),
        _ => stay(guilds, failed(Fault::UnexpectedReply)),
    }
}

/// A sweep that waited for the members of a session: an empty one is to be
/// deleted; one with members, or whose members cannot be had, is passed over.
pub open spec fn after_sweep_members(
    guilds: Map<u64, EntryView>,
    guild: u64,
    channel: u64,
    pending: Seq<u64>,
    rest: Seq<u64>,
    reply: ReplyView,
) -> StepView {
    match reply {
        ReplyView::Members(Ok(members)) => if members.len() == 0 {
            call(
                TaskView::SweepDelete { guild, channel, pending, rest },
                RequestView::DeleteChannel { channel },
            )
        } else {
            StepView { fault: None, next: candidate_from(guilds, guild, pending, rest) }
        },
        ReplyView::Members(Err(e)) => StepView {
            fault: Some(Fault::Remote(e)),
            next: candidate_from(guilds, guild, pending, rest),
        },
        _ => failed(Fault::UnexpectedReply),
    }
}

/// Whether this answer to a deletion means that the channel is gone.
pub open spec fn deletion_done(outcome: Result<(), RemoteError>) -> bool {
    outcome is Ok || outcome == Err::<(), RemoteError>(RemoteError::NotFound)
}

/// A sweep that waited for a deletion: a channel that is gone, or was gone
/// already, is forgotten; after a failure it stays recorded.
pub open spec fn after_sweep_delete(
    guilds: Map<u64, EntryView>,
    guild: u64,
    channel: u64,
    pending: Seq<u64>,
    rest: Seq<u64>,
    reply: ReplyView,
) -> Transition {
    match reply {
        ReplyView::Deleted(outcome) => if deletion_done(outcome) {
            let kept = session_dropped(guilds, guild, channel);
            Transition {
                guilds: kept,
                wrote: true,
                step: StepView { fault: None, next: candidate_from(kept, guild, pending, rest) },
            }
        } else {
            stay(
                guilds,
                StepView {
                    fault: Some(Fault::Remote(outcome->Err_0)),
                    next: candidate_from(guilds, guild, pending, rest),
                },
            )
        },
        _ => stay(guilds, failed(Fault::UnexpectedReply)),
    }
}

/// A search that waited for the members of a session: the first session that
/// holds the user is renamed; the others are passed over.
pub open spec fn after_rename_scan(
    user: u64,
    name: Seq<char>,
    channel: u64,
    pending: Seq<u64>,
    reply: ReplyView,
) -> StepView {
    match reply {
        ReplyView::Members(Ok(members)) => if members.contains(user) {
            call(TaskView::RenameIssue { channel }, RequestView::RenameChannel { channel, name })
        } else {
            StepView { fault: None, next: scan_from(user, name, pending) }
        },
        ReplyView::Members(Err(e)) => StepView {
            fault: Some(Fault::Remote(e)),
            next: scan_from(user, name, pending),
        },
        _ => failed(Fault::UnexpectedReply),
    }
}

/// A renaming that waited for its answer: it ends; that the channel was not
/// found is passed over in silence.
pub open spec fn after_rename_issue(reply: ReplyView) -> StepView {
    match reply {
        ReplyView::Renamed(Ok(_)) => done(),
        ReplyView::Renamed(Err(e)) => if e == RemoteError::NotFound {
            done()
        } else {
            failed(Fault::Remote(e))
        },
        _ => failed(Fault::UnexpectedReply),
    }
}

/// An administrator's command that waited for the listing: a channel that
/// can be a maker becomes the guild's; any other is refused and nothing
/// changes.
pub open spec fn after_admin_listing(
    guilds: Map<u64, EntryView>,
    guild: u64,
    channel: u64,
    reply: ReplyView,
) -> Transition {
    match reply {
        ReplyView::Channels(Ok(listing)) => match admissible(listing, channel) {
            Ok(_) => Transition { guilds: maker_set(guilds, guild, channel), wrote: true, step: done() },
            Err(problem) => stay(guilds, failed(Fault::InvalidAdminInput(problem))),
        },
        ReplyView::Channels(Err(e)) => stay(guilds, failed(Fault::Remote(e))),
        _ => stay(guilds, failed(Fault::UnexpectedReply)),
    }
}

/// What the step does that hands `reply` to `task` in a registry that holds
/// `guilds`.
pub open spec fn transition(guilds: Map<u64, EntryView>, task: TaskView, reply: ReplyView) -> Transition {
    match task {
        TaskView::JoinListing { guild, user, maker } => stay(
            guilds,
            after_join_listing(guild, user, maker, reply),
        ),
        TaskView::JoinPresence { guild, user, parent_category } => stay(
            guilds,
            after_join_presence(guild, user, parent_category, reply),
        ),
        TaskView::JoinCreate { guild, user } => after_join_create(guilds, guild, user, reply),
        TaskView::JoinMove { .. } => stay(guilds, after_join_move(reply)),
        TaskView::SweepListing { guild, snapshot, rest } => after_sweep_listing(
            guilds,
            guild,
            snapshot,
            rest,
            reply,
        ),
        TaskView::SweepMembers { guild, channel, pending, rest } => stay(
            guilds,
            after_sweep_members(guilds, guild, channel, pending, rest, reply),
        ),
        TaskView::SweepDelete { guild, channel, pending, rest } => after_sweep_delete(
            guilds,
            guild,
            channel,
            pending,
            rest,
            reply,
        ),
        TaskView::RenameScan { user, name, channel, pending } => stay(
            guilds,
            after_rename_scan(user, name, channel, pending, reply),
        ),
        TaskView::RenameIssue { .. } => stay(guilds, after_rename_issue(reply)),
        TaskView::AdminListing { guild, channel } => after_admin_listing(
            guilds,
            guild,
            channel,
            reply,
        ),
    }
}

/// Whether `order` names each guild of `guilds` once.
pub open spec fn enumerates(order: Seq<u64>, guilds: Map<u64, EntryView>) -> bool {
    order.no_duplicates() && order.to_set() == guilds.dom()
}

} // verus!
