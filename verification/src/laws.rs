//! What holds of the controller whatever the platform answers: the laws of
//! the registry under the transition function.

use crate::protocol::{
    after_admin_listing, after_sweep_delete, after_sweep_members, call, deletion_done, done,
    first_step, orphans, transition, Fault, NextView, TaskView,
};
use crate::registry::{
    entry_of, maker_set, other_than, session_dropped, with_session, without_session,
    without_sessions, outside, EntryView,
};
use crate::remote::{
    is_listed, lemma_lookup, lookup, ChannelKind, ChannelView, EventView, RemoteError, ReplyView,
    RequestView,
};
use crate::seqs::lemma_filter_holds;
use vstd::prelude::*;

verus! {

/// The channels of `sessions` with `channel` among them.
pub proof fn lemma_with_session(sessions: Seq<u64>, channel: u64)
    ensures
        with_session(sessions, channel).to_set() == sessions.to_set().insert(channel),
{
    let after = with_session(sessions, channel);
    assert forall|x: u64| after.to_set().contains(x) <==> sessions.to_set().insert(
        channel,
    ).contains(x) by {
        if !sessions.contains(channel) {
            if sessions.contains(x) {
                let i = choose|i: int| 0 <= i < sessions.len() && sessions[i] == x;
                assert(after[i] == x);
            }
            assert(after[sessions.len() as int] == channel);
        }
    }
    assert(after.to_set() =~= sessions.to_set().insert(channel));
}

/// The channels of `sessions` but `channel`.
pub proof fn lemma_without_session(sessions: Seq<u64>, channel: u64)
    ensures
        without_session(sessions, channel).to_set() == sessions.to_set().remove(channel),
{
    assert forall|x: u64|
        without_session(sessions, channel).to_set().contains(x) <==> sessions.to_set().remove(
            channel,
        ).contains(x) by {
        lemma_filter_holds(sessions, other_than(channel), x);
    }
    assert(without_session(sessions, channel).to_set() =~= sessions.to_set().remove(channel));
}

/// The channels of `sessions` but those of `gone`.
pub proof fn lemma_without_sessions(sessions: Seq<u64>, gone: Seq<u64>)
    ensures
        without_sessions(sessions, gone).to_set() == sessions.to_set().difference(gone.to_set()),
{
    assert forall|x: u64|
        without_sessions(sessions, gone).to_set().contains(x) <==> sessions.to_set().difference(
            gone.to_set(),
        ).contains(x) by {
        lemma_filter_holds(sessions, outside(gone), x);
    }
    assert(without_sessions(sessions, gone).to_set() =~= sessions.to_set().difference(
        gone.to_set(),
    ));
}

/// One step of an operation: the task that waited and the answer it got.
pub struct Exchange {
    pub task: TaskView,
    pub reply: ReplyView,
}

/// The guilds after the steps of `history`, taken in their order from
/// `guilds`.
pub open spec fn replay(guilds: Map<u64, EntryView>, history: Seq<Exchange>) -> Map<u64, EntryView>
    decreases history.len(),
{
    if history.len() == 0 {
        guilds
    } else {
        transition(
            replay(guilds, history.drop_last()),
            history.last().task,
            history.last().reply,
        ).guilds
    }
}

/// The live session channels of `guild` after one step, where `live` were
/// live before it: a channel that the platform created for the guild is
/// live; one that it deleted, or no longer knew, or that a listing taken
/// after the sweep's snapshot no longer holds, is not.
pub open spec fn live_after(live: Set<u64>, guild: u64, step: Exchange) -> Set<u64> {
    match step.task {
        TaskView::JoinCreate { guild: g, .. } => match step.reply {
            ReplyView::Created(Ok(channel)) => if g == guild {
                live.insert(channel)
            } else {
                live
            },
            _ => live,
        },
        TaskView::SweepDelete { guild: g, channel, .. } => match step.reply {
            ReplyView::Deleted(outcome) => if g == guild && deletion_done(outcome) {
                live.remove(channel)
            } else {
                live
            },
            _ => live,
        },
        TaskView::SweepListing { guild: g, snapshot, .. } => match step.reply {
            ReplyView::Channels(Ok(listing)) => if g == guild {
                live.difference(orphans(listing, snapshot).to_set())
            } else {
                live
            },
            _ => live,
        },
        _ => live,
    }
}

/// The live session channels of `guild` after the steps of `history`, where
/// `live` were live before them.
pub open spec fn live_channels(live: Set<u64>, guild: u64, history: Seq<Exchange>) -> Set<u64>
    decreases history.len(),
{
    if history.len() == 0 {
        live
    } else {
        live_after(live_channels(live, guild, history.drop_last()), guild, history.last())
    }
}

/// One step keeps the sessions of every guild equal to its live channels.
pub proof fn lemma_step_keeps_sessions_live(guilds: Map<u64, EntryView>, guild: u64, step: Exchange)
    ensures
        entry_of(transition(guilds, step.task, step.reply).guilds, guild).sessions.to_set()
            == live_after(entry_of(guilds, guild).sessions.to_set(), guild, step),
{
    let sessions = entry_of(guilds, guild).sessions;
    match step.task {
        TaskView::JoinCreate { guild: g, .. } => {
            if let ReplyView::Created(Ok(channel)) = step.reply {
                if g == guild {
                    lemma_with_session(sessions, channel);
                }
            }
        },
        TaskView::SweepDelete { guild: g, channel, .. } => {
            if let ReplyView::Deleted(outcome) = step.reply {
                if g == guild && deletion_done(outcome) {
                    lemma_without_session(sessions, channel);
                }
            }
        },
        TaskView::SweepListing { guild: g, snapshot, .. } => {
            if let ReplyView::Channels(Ok(listing)) = step.reply {
                let gone = orphans(listing, snapshot);
                if g == guild {
                    if gone.len() > 0 {
                        lemma_without_sessions(sessions, gone);
                    } else {
                        assert(gone.to_set() =~= Set::<u64>::empty());
                        assert(sessions.to_set().difference(gone.to_set()) =~= sessions.to_set());
                    }
                }
            }
        },
        _ => {},
    }
}

/// Whatever the events and whatever the platform answers: after every step
/// the sessions that the registry holds for a guild are the live channels
/// that were created for it and have not been deleted since.
pub proof fn sessions_are_the_live_channels(
    guilds: Map<u64, EntryView>,
    guild: u64,
    history: Seq<Exchange>,
)
    ensures
        entry_of(replay(guilds, history), guild).sessions.to_set() == live_channels(
            entry_of(guilds, guild).sessions.to_set(),
            guild,
            history,
        ),
    decreases history.len(),
{
    if history.len() > 0 {
        sessions_are_the_live_channels(guilds, guild, history.drop_last());
        lemma_step_keeps_sessions_live(
            replay(guilds, history.drop_last()),
            guild,
            history.last(),
        );
    }
}

/// A step writes the registry only where it says so, and only the entry of
/// the guild that its task names.
pub proof fn unwritten_registry_is_unchanged(
    guilds: Map<u64, EntryView>,
    task: TaskView,
    reply: ReplyView,
)
    ensures
        !transition(guilds, task, reply).wrote ==> transition(guilds, task, reply).guilds
            == guilds,
{
}

/// Whether a listing lets `channel` become a maker: it holds the channel, as
/// a voice channel inside a category.
pub open spec fn can_be_maker(listing: Seq<ChannelView>, channel: u64) -> bool {
    &&& is_listed(listing, channel)
    &&& lookup(listing, channel)->Some_0.kind == ChannelKind::Voice
    &&& lookup(listing, channel)->Some_0.parent_category is Some
}

/// An administrator's command is refused exactly when the channel is absent
/// from the guild's listing, is no voice channel or is outside any category;
/// a refused command changes nothing, and an accepted one sets the maker and
/// nothing else.
pub proof fn maker_is_set_iff_admissible(
    guilds: Map<u64, EntryView>,
    guild: u64,
    channel: u64,
    listing: Seq<ChannelView>,
)
    ensures
        ({
            let after = after_admin_listing(guilds, guild, channel, ReplyView::Channels(Ok(listing)));
            &&& after == transition(
                guilds,
                TaskView::AdminListing { guild, channel },
                ReplyView::Channels(Ok(listing)),
            )
            &&& after.step.next == NextView::Done
            &&& after.step.fault is Some <==> !can_be_maker(listing, channel)
            &&& after.step.fault is Some ==> after.step.fault->Some_0 is InvalidAdminInput
                && after.guilds == guilds && !after.wrote
            &&& after.step.fault is None ==> after.guilds == maker_set(guilds, guild, channel)
                && after.wrote
            &&& entry_of(after.guilds, guild).sessions == entry_of(guilds, guild).sessions
        }),
{
    lemma_lookup(listing, channel);
}

/// A join of a channel that is not the guild's maker, and so any join in a
/// guild without a maker, does nothing: no call is asked for and the
/// registry is not touched.
pub proof fn join_elsewhere_does_nothing(
    guilds: Map<u64, EntryView>,
    guild: u64,
    user: u64,
    joined: u64,
    order: Seq<u64>,
)
    requires
        entry_of(guilds, guild).maker != Some(joined),
    ensures
        first_step(
            guilds,
            EventView::VoiceStateUpdate {
                guild_id: Some(guild),
                user_id: user,
                channel_id: Some(joined),
            },
            order,
        ) == done(),
{
}

/// A session that a sweep finds empty is to be deleted, and it is forgotten
/// once the platform says that it is gone or was not found.
pub proof fn empty_session_is_reaped(
    guilds: Map<u64, EntryView>,
    guild: u64,
    channel: u64,
    pending: Seq<u64>,
    rest: Seq<u64>,
    outcome: Result<(), RemoteError>,
)
    requires
        deletion_done(outcome),
    ensures
        after_sweep_members(
            guilds,
            guild,
            channel,
            pending,
            rest,
            ReplyView::Members(Ok(Seq::empty())),
        ) == call(
            TaskView::SweepDelete { guild, channel, pending, rest },
            RequestView::DeleteChannel { channel },
        ),
        deletion_done(Err(RemoteError::NotFound)),
        after_sweep_delete(guilds, guild, channel, pending, rest, ReplyView::Deleted(outcome)).guilds
            == session_dropped(guilds, guild, channel),
        !entry_of(
            after_sweep_delete(
                guilds,
                guild,
                channel,
                pending,
                rest,
                ReplyView::Deleted(outcome),
            ).guilds,
            guild,
        ).sessions.contains(channel),
{
    lemma_filter_holds(entry_of(guilds, guild).sessions, other_than(channel), channel);
}

/// A session whose deletion failed stays recorded, and the failure is handed
/// back for the log: the next sweep finds the session again.
pub proof fn failed_deletion_keeps_the_session(
    guilds: Map<u64, EntryView>,
    guild: u64,
    channel: u64,
    pending: Seq<u64>,
    rest: Seq<u64>,
    error: RemoteError,
)
    requires
        error != RemoteError::NotFound,
    ensures
        after_sweep_delete(
            guilds,
            guild,
            channel,
            pending,
            rest,
            ReplyView::Deleted(Err(error)),
        ).guilds == guilds,
        !after_sweep_delete(
            guilds,
            guild,
            channel,
            pending,
            rest,
            ReplyView::Deleted(Err(error)),
        ).wrote,
        after_sweep_delete(
            guilds,
            guild,
            channel,
            pending,
            rest,
            ReplyView::Deleted(Err(error)),
        ).step.fault == Some(Fault::Remote(error)),
{
}

/// A user's move into a session is asked for only by the step that has
/// recorded the session: no sweep can find the channel empty and unrecorded
/// while the user is on the way.
pub proof fn move_follows_recording(guilds: Map<u64, EntryView>, task: TaskView, reply: ReplyView)
    ensures
        transition(guilds, task, reply).step.next matches NextView::Call {
            request: RequestView::MoveMemberToVoice { guild, channel, .. },
            ..
        } ==> entry_of(transition(guilds, task, reply).guilds, guild).sessions.contains(channel),
{
    if let TaskView::JoinCreate { guild, .. } = task {
        if let ReplyView::Created(Ok(channel)) = reply {
            let sessions = entry_of(guilds, guild).sessions;
            lemma_with_session(sessions, channel);
            assert(sessions.to_set().insert(channel).contains(channel));
        }
    }
}

/// Whether the maker of `guild`, if it has one, is none of its sessions.
pub open spec fn maker_is_no_session(guilds: Map<u64, EntryView>, guild: u64) -> bool {
    match entry_of(guilds, guild).maker {
        Some(maker) => !entry_of(guilds, guild).sessions.contains(maker),
        None => true,
    }
}

/// The maker of a guild stays apart from its sessions through every step,
/// as long as the platform does not hand out the maker's id for a new
/// channel and no administrator names a session as the maker.
pub proof fn maker_stays_apart_from_sessions(
    guilds: Map<u64, EntryView>,
    guild: u64,
    task: TaskView,
    reply: ReplyView,
)
    requires
        maker_is_no_session(guilds, guild),
        task matches TaskView::JoinCreate { guild: g, .. } ==> g == guild ==> reply
            != ReplyView::Created(Ok(entry_of(guilds, guild).maker->Some_0)),
        task matches TaskView::AdminListing { guild: g, channel } ==> g == guild ==> !entry_of(
            guilds,
            guild,
        ).sessions.contains(channel),
    ensures
        maker_is_no_session(transition(guilds, task, reply).guilds, guild),
{
    let entry = entry_of(guilds, guild);
    let after = entry_of(transition(guilds, task, reply).guilds, guild);
    lemma_step_keeps_sessions_live(guilds, guild, Exchange { task, reply });
    if let Some(maker) = after.maker {
        if after.sessions.contains(maker) {
            assert(after.sessions.to_set().contains(maker));
            match task {
                TaskView::JoinCreate { .. } => {
                    assert(entry.maker == Some(maker));
                    assert(!entry.sessions.to_set().contains(maker));
                },
                TaskView::AdminListing { .. } => {
                    assert(after.sessions == entry.sessions);
                },
                _ => {
                    assert(entry.maker == Some(maker));
                    assert(!entry.sessions.to_set().contains(maker));
                },
            }
        }
    }
}

} // verus!
