//! Operations run to their end against a platform on which nobody else
//! acts: the model in which the laws about whole operations are stated.

use crate::names::session_name;
use crate::protocol::{
    candidate_from, candidates, deletion_done, first_step, maker_category, orphans, scan_from,
    sweep_from, transition, ConfigurationProblem, NextView, TaskView,
};
use crate::seqs::{lemma_filter_distinct, lemma_filter_holds, lemma_filter_none};
use crate::registry::{
    entry_of, inside, other_than, outside, session_added, session_dropped, EntryView,
};
use crate::remote::{
    is_listed, listed_ids, unlisted, ChannelView, EventView, ReplyView, RequestView,
};
use vstd::prelude::*;

verus! {

/// A platform on which only the controller acts: what it answers to each
/// call, and the channels that the controller has deleted on it so far.
pub struct World {
    pub answers: spec_fn(RequestView) -> ReplyView,
    pub deleted: Set<u64>,
}

/// The test that holds of the listed channels that were not deleted.
pub open spec fn still_there(deleted: Set<u64>) -> spec_fn(ChannelView) -> bool {
    |c: ChannelView| !deleted.contains(c.id)
}

/// What the platform answers to `request`: a listing no longer holds the
/// channels that were deleted.
pub open spec fn answer(world: World, request: RequestView) -> ReplyView {
    match (world.answers)(request) {
        ReplyView::Channels(Ok(listing)) => ReplyView::Channels(
            Ok(listing.filter(still_there(world.deleted))),
        ),
        reply => reply,
    }
}

/// The platform after it answered `reply` to `request`: a channel whose
/// deletion succeeded is gone.
pub open spec fn after_call(world: World, request: RequestView, reply: ReplyView) -> World {
    match request {
        RequestView::DeleteChannel { channel } => if reply == ReplyView::Deleted(Ok(())) {
            World { deleted: world.deleted.insert(channel), ..world }
        } else {
            world
        },
        _ => world,
    }
}

/// Whether `reply` is an answer to a call like `request`.
pub open spec fn in_kind(request: RequestView, reply: ReplyView) -> bool {
    match request {
        RequestView::ListVoiceChannels { .. } => reply is Channels,
        RequestView::CreateVoiceChannel { .. } => reply is Created,
        RequestView::DeleteChannel { .. } => reply is Deleted,
        RequestView::RenameChannel { .. } => reply is Renamed,
        RequestView::MoveMemberToVoice { .. } => reply is Moved,
        RequestView::VoiceMembers { .. } => reply is Members,
        RequestView::PresenceOf { .. } => reply is Presence,
    }
}

/// Whether the platform answers every call in kind.
pub open spec fn sound(world: World) -> bool {
    forall|request: RequestView| in_kind(request, #[trigger] (world.answers)(request))
}

/// An operation run to its end, or as far as the steps allowed went.
pub struct Run {
    /// The guilds of the registry afterwards.
    pub guilds: Map<u64, EntryView>,
    /// The platform afterwards.
    pub world: World,
    /// The calls that were made, in their order.
    pub requests: Seq<RequestView>,
    /// Whether the operation ended.
    pub finished: bool,
}

/// The operation that is at `next`, run for at most `steps` steps: each call
/// that is asked for is made, and its answer handed back.
pub open spec fn run(guilds: Map<u64, EntryView>, world: World, next: NextView, steps: nat) -> Run
    decreases steps,
{
    match next {
        NextView::Done => Run { guilds, world, requests: Seq::empty(), finished: true },
        NextView::Call { task, request } => if steps == 0 {
            Run { guilds, world, requests: Seq::empty(), finished: false }
        } else {
            let reply = answer(world, request);
            let after = transition(guilds, task, reply);
            let rest = run(
                after.guilds,
                after_call(world, request, reply),
                after.step.next,
                (steps - 1) as nat,
            );
            Run { requests: seq![request] + rest.requests, ..rest }
        },
    }
}

/// Whether no call of `requests` renames a channel.
pub open spec fn no_rename(requests: Seq<RequestView>) -> bool {
    forall|i: int| 0 <= i < requests.len() ==> !(#[trigger] requests[i] is RenameChannel)
}

/// Whether the platform says that `user` is a member of `channel`.
pub open spec fn holds_user(world: World, channel: u64, user: u64) -> bool {
    match (world.answers)(RequestView::VoiceMembers { channel }) {
        ReplyView::Members(Ok(members)) => members.contains(user),
        _ => false,
    }
}

/// A search through sessions that do not hold the user renames nothing and
/// leaves the registry and the platform as they are.
proof fn lemma_scan_finds_nothing(
    guilds: Map<u64, EntryView>,
    world: World,
    user: u64,
    name: Seq<char>,
    queue: Seq<u64>,
    steps: nat,
)
    requires
        forall|i: int| 0 <= i < queue.len() ==> !holds_user(world, #[trigger] queue[i], user),
    ensures
        ({
            let r = run(guilds, world, scan_from(user, name, queue), steps);
            no_rename(r.requests) && r.guilds == guilds && r.world == world
        }),
    decreases steps,
{
    if queue.len() > 0 && steps > 0 {
        let channel = queue[0];
        let request = RequestView::VoiceMembers { channel };
        let task = TaskView::RenameScan { user, name, channel, pending: queue.drop_first() };
        let reply = answer(world, request);
        assert(!holds_user(world, queue[0], user));
        let after = transition(guilds, task, reply);
        assert(after.guilds == guilds);
        assert(after.step.next == scan_from(user, name, queue.drop_first())
            || after.step.next == NextView::Done);
        assert forall|i: int| 0 <= i < queue.drop_first().len() implies !holds_user(
            world,
            #[trigger] queue.drop_first()[i],
            user,
        ) by {
            assert(!holds_user(world, queue[i + 1], user));
        }
        lemma_scan_finds_nothing(guilds, world, user, name, queue.drop_first(), (steps - 1) as nat);
        let rest = run(guilds, world, after.step.next, (steps - 1) as nat);
        assert(no_rename(rest.requests));
        let r = run(guilds, world, scan_from(user, name, queue), steps);
        assert(r.requests == seq![request] + rest.requests);
        assert forall|i: int| 0 <= i < r.requests.len() implies !(
        #[trigger] r.requests[i] is RenameChannel) by {
            if i > 0 {
                assert(r.requests[i] == rest.requests[i - 1]);
            }
        }
    }
}

/// A change of presence of a user who is in none of the guild's sessions
/// renames no channel, whatever else the platform answers, and leaves the
/// registry as it is.
pub proof fn presence_outside_sessions_renames_nothing(
    guilds: Map<u64, EntryView>,
    world: World,
    guild_id: Option<u64>,
    user: u64,
    activities: Seq<Seq<char>>,
    order: Seq<u64>,
    steps: nat,
)
    requires
        guild_id matches Some(guild) ==> forall|c: u64|
            entry_of(guilds, guild).sessions.contains(c) ==> !holds_user(world, c, user),
    ensures
        ({
            let start = first_step(
                guilds,
                EventView::PresenceUpdate { guild_id, user_id: user, activities },
                order,
            );
            let r = run(guilds, world, start.next, steps);
            no_rename(r.requests) && r.guilds == guilds
        }),
{
    if let Some(guild) = guild_id {
        let sessions = entry_of(guilds, guild).sessions;
        assert forall|i: int| 0 <= i < sessions.len() implies !holds_user(
            world,
            #[trigger] sessions[i],
            user,
        ) by {
            assert(sessions.contains(sessions[i]));
        }
        lemma_scan_finds_nothing(
            guilds,
            world,
            user,
            session_name(Some(activities)),
            sessions,
            steps,
        );
    }
}

/// The test that holds of the channels that the platform reports empty.
pub open spec fn found_empty(answers: spec_fn(RequestView) -> ReplyView) -> spec_fn(u64) -> bool {
    |c: u64|
        match answers(RequestView::VoiceMembers { channel: c }) {
            ReplyView::Members(Ok(members)) => members.len() == 0,
            _ => false,
        }
}

/// The test that holds of the channels whose deletion the platform reports
/// done, or not needed.
pub open spec fn deletable(answers: spec_fn(RequestView) -> ReplyView) -> spec_fn(u64) -> bool {
    |c: u64|
        match answers(RequestView::DeleteChannel { channel: c }) {
            ReplyView::Deleted(outcome) => deletion_done(outcome),
            _ => false,
        }
}

/// The test that holds of the channels that a sweep forgets when it looks at
/// them: empty, and gone when asked to go.
pub open spec fn reaped(answers: spec_fn(RequestView) -> ReplyView) -> spec_fn(u64) -> bool {
    |c: u64| found_empty(answers)(c) && deletable(answers)(c)
}

/// The channels whose deletion `requests` ask for, in their order.
pub open spec fn deletions(requests: Seq<RequestView>) -> Seq<u64>
    decreases requests.len(),
{
    if requests.len() == 0 {
        Seq::empty()
    } else {
        let rest = deletions(requests.drop_first());
        match requests[0] {
            RequestView::DeleteChannel { channel } => seq![channel] + rest,
            _ => rest,
        }
    }
}

/// `guilds` after each channel of `gone` was taken out of the sessions of
/// `guild`, one after the other.
pub open spec fn drop_each(guilds: Map<u64, EntryView>, guild: u64, gone: Seq<u64>) -> Map<
    u64,
    EntryView,
>
    decreases gone.len(),
{
    if gone.len() == 0 {
        guilds
    } else {
        drop_each(session_dropped(guilds, guild, gone[0]), guild, gone.drop_first())
    }
}

/// What is left of the sessions of `guild` after `drop_each`: those that are
/// not in `gone`.
proof fn lemma_drop_each(guilds: Map<u64, EntryView>, guild: u64, gone: Seq<u64>, x: u64)
    ensures
        entry_of(drop_each(guilds, guild, gone), guild).sessions.contains(x) <==> entry_of(
            guilds,
            guild,
        ).sessions.contains(x) && !gone.contains(x),
    decreases gone.len(),
{
    if gone.len() > 0 {
        let first = gone[0];
        let tail = gone.drop_first();
        lemma_filter_holds(entry_of(guilds, guild).sessions, other_than(first), x);
        lemma_drop_each(session_dropped(guilds, guild, first), guild, tail, x);
        if gone.contains(x) && x != first {
            let i = choose|i: int| 0 <= i < gone.len() && gone[i] == x;
            assert(tail[i - 1] == x);
        }
        if tail.contains(x) {
            let i = choose|i: int| 0 <= i < tail.len() && tail[i] == x;
            assert(gone[i + 1] == x);
        }
    }
}

/// What the run of a sweep's remaining candidates comes to, where it ends.
pub open spec fn candidates_swept(
    r: Run,
    guilds: Map<u64, EntryView>,
    world: World,
    guild: u64,
    queue: Seq<u64>,
) -> bool {
    &&& r.guilds == drop_each(guilds, guild, queue.filter(reaped(world.answers)))
    &&& r.world.answers == world.answers
    &&& forall|x: u64| #[trigger]
        r.world.deleted.contains(x) ==> world.deleted.contains(x) || (queue.contains(x) && reaped(
            world.answers,
        )(x))
    &&& deletions(r.requests) == queue.filter(found_empty(world.answers))
}

/// A sweep that goes through `queue` forgets the sessions that it finds
/// empty and gone, and asks for the deletion of those that it finds empty.
proof fn lemma_candidates_run(
    guilds: Map<u64, EntryView>,
    world: World,
    guild: u64,
    queue: Seq<u64>,
    steps: nat,
)
    requires
        sound(world),
    ensures
        ({
            let r = run(guilds, world, candidate_from(guilds, guild, queue, Seq::empty()), steps);
            r.finished ==> candidates_swept(r, guilds, world, guild, queue)
        }),
    decreases steps, 1nat,
{
    let answers = world.answers;
    let r = run(guilds, world, candidate_from(guilds, guild, queue, Seq::empty()), steps);
    if queue.len() == 0 {
        assert(sweep_from(guilds, Seq::<u64>::empty()) == NextView::Done);
        assert(queue.filter(reaped(answers)) =~= Seq::<u64>::empty()) by {
            lemma_filter_none(queue, reaped(answers));
        }
        assert(queue.filter(found_empty(answers)) =~= Seq::<u64>::empty()) by {
            lemma_filter_none(queue, found_empty(answers));
        }
    } else if steps > 0 {
        let channel = queue[0];
        let tail = queue.drop_first();
        assert(queue =~= seq![channel] + tail);
        tail.lemma_filter_prepend(channel, reaped(answers));
        tail.lemma_filter_prepend(channel, found_empty(answers));
        let request = RequestView::VoiceMembers { channel };
        let task = TaskView::SweepMembers { guild, channel, pending: tail, rest: Seq::empty() };
        let reply = answer(world, request);
        assert(in_kind(request, answers(request)));
        let after = transition(guilds, task, reply);
        let rest = run(guilds, world, after.step.next, (steps - 1) as nat);
        assert(r.requests == seq![request] + rest.requests);
        assert(r.requests.drop_first() =~= rest.requests);
        if r.finished {
            if found_empty(answers)(channel) {
                lemma_delete_run(guilds, world, guild, channel, tail, (steps - 1) as nat);
                assert forall|x: u64| x == channel || tail.contains(x) implies queue.contains(
                    x,
                ) by {
                    if tail.contains(x) {
                        let i = choose|i: int| 0 <= i < tail.len() && tail[i] == x;
                        assert(queue[i + 1] == x);
                    } else {
                        assert(queue[0] == x);
                    }
                }
                assert(deletions(r.requests) =~= queue.filter(found_empty(answers)));
                if reaped(answers)(channel) {
                    let gone = queue.filter(reaped(answers));
                    assert(gone[0] == channel);
                    assert(gone.drop_first() =~= tail.filter(reaped(answers)));
                }
            } else {
                assert(after.step.next == candidate_from(guilds, guild, tail, Seq::empty()));
                lemma_candidates_run(guilds, world, guild, tail, (steps - 1) as nat);
                assert forall|x: u64| tail.contains(x) implies queue.contains(x) by {
                    let i = choose|i: int| 0 <= i < tail.len() && tail[i] == x;
                    assert(queue[i + 1] == x);
                }
                assert(queue.filter(reaped(answers)) =~= tail.filter(reaped(answers)));
                assert(queue.filter(found_empty(answers)) =~= tail.filter(found_empty(answers)));
            }
        }
    }
}

/// What the run comes to that starts with the deletion of an empty session
/// and goes on through `tail`.
proof fn lemma_delete_run(
    guilds: Map<u64, EntryView>,
    world: World,
    guild: u64,
    channel: u64,
    tail: Seq<u64>,
    steps: nat,
)
    requires
        sound(world),
    ensures
        ({
            let answers = world.answers;
            let r = run(
                guilds,
                world,
                NextView::Call {
                    task: TaskView::SweepDelete {
                        guild,
                        channel,
                        pending: tail,
                        rest: Seq::empty(),
                    },
                    request: RequestView::DeleteChannel { channel },
                },
                steps,
            );
            r.finished ==> {
                &&& r.guilds == drop_each(
                    if deletable(answers)(channel) {
                        session_dropped(guilds, guild, channel)
                    } else {
                        guilds
                    },
                    guild,
                    tail.filter(reaped(answers)),
                )
                &&& r.world.answers == answers
                &&& forall|x: u64| #[trigger]
                    r.world.deleted.contains(x) ==> world.deleted.contains(x) || (x == channel
                        && deletable(answers)(channel)) || (tail.contains(x) && reaped(answers)(
                        x,
                    ))
                &&& deletions(r.requests) == seq![channel] + tail.filter(found_empty(answers))
            }
        }),
    decreases steps, 0nat,
{
    let answers = world.answers;
    let request = RequestView::DeleteChannel { channel };
    let task = TaskView::SweepDelete { guild, channel, pending: tail, rest: Seq::empty() };
    let r = run(guilds, world, NextView::Call { task, request }, steps);
    if steps > 0 {
        let reply = answer(world, request);
        assert(in_kind(request, answers(request)));
        let after = transition(guilds, task, reply);
        let then = after_call(world, request, reply);
        assert(then.answers == answers);
        assert(sound(then));
        let rest = run(after.guilds, then, after.step.next, (steps - 1) as nat);
        assert(r.requests == seq![request] + rest.requests);
        assert(r.requests.drop_first() =~= rest.requests);
        assert(after.step.next == candidate_from(after.guilds, guild, tail, Seq::empty()));
        lemma_candidates_run(after.guilds, then, guild, tail, (steps - 1) as nat);
    }
}

/// The sweep of one guild, run for at most `steps` steps.
pub open spec fn sweep_of(guilds: Map<u64, EntryView>, world: World, guild: u64, steps: nat) -> Run {
    run(guilds, world, sweep_from(guilds, seq![guild]), steps)
}

/// The ids of a listing are those of the channels that it holds.
proof fn lemma_listed_ids(listing: Seq<ChannelView>, x: u64)
    ensures
        listed_ids(listing).contains(x) <==> is_listed(listing, x),
{
    let ids = listed_ids(listing);
    if ids.contains(x) {
        let i = choose|i: int| 0 <= i < ids.len() && ids[i] == x;
        assert(listing[i].id == x);
    }
    if is_listed(listing, x) {
        let i = choose|i: int| 0 <= i < listing.len() && #[trigger] listing[i].id == x;
        assert(ids[i] == x);
    }
}

/// What the sweep of one guild comes to, where it ends and the platform
/// gave `listing`.
pub open spec fn guild_swept(
    r: Run,
    guilds: Map<u64, EntryView>,
    world: World,
    guild: u64,
    listing: Seq<ChannelView>,
) -> bool {
    let sessions = entry_of(guilds, guild).sessions;
    let queue = candidates(listing, sessions);
    &&& forall|x: u64| #[trigger]
        entry_of(r.guilds, guild).sessions.contains(x) <==> sessions.contains(x) && is_listed(
            listing,
            x,
        ) && !reaped(world.answers)(x)
    &&& queue.filter(reaped(world.answers)).len() == 0 && orphans(listing, sessions).len() == 0
        ==> r.guilds == guilds
    &&& r.world.answers == world.answers
    &&& forall|x: u64| #[trigger]
        r.world.deleted.contains(x) ==> world.deleted.contains(x) || (queue.contains(x) && reaped(
            world.answers,
        )(x))
    &&& deletions(r.requests) == queue.filter(found_empty(world.answers))
}

/// A sweep that ends without a listing leaves everything as it is; one that
/// got a listing keeps the sessions that are listed and not reaped.
proof fn lemma_sweep(guilds: Map<u64, EntryView>, world: World, guild: u64, steps: nat)
    requires
        sound(world),
        sweep_of(guilds, world, guild, steps).finished,
    ensures
        ({
            let r = sweep_of(guilds, world, guild, steps);
            match answer(world, RequestView::ListVoiceChannels { guild }) {
                ReplyView::Channels(Ok(listing)) => guild_swept(r, guilds, world, guild, listing),
                _ => r.guilds == guilds && r.world == world && deletions(r.requests)
                    == Seq::<u64>::empty(),
            }
        }),
{
    let answers = world.answers;
    let r = sweep_of(guilds, world, guild, steps);
    let sessions = entry_of(guilds, guild).sessions;
    let request = RequestView::ListVoiceChannels { guild };
    let rest_guilds = seq![guild].drop_first();
    assert(rest_guilds =~= Seq::<u64>::empty());
    let task = TaskView::SweepListing { guild, snapshot: sessions, rest: Seq::empty() };
    assert(sweep_from(guilds, seq![guild]) == NextView::Call { task, request });
    let reply = answer(world, request);
    assert(in_kind(request, answers(request)));
    let after = transition(guilds, task, reply);
    let rest = run(after.guilds, world, after.step.next, (steps - 1) as nat);
    assert(r.requests == seq![request] + rest.requests);
    assert(r.requests.drop_first() =~= rest.requests);
    assert(deletions(r.requests) == deletions(rest.requests));
    assert(sweep_from(guilds, Seq::<u64>::empty()) == NextView::Done);
    match reply {
        ReplyView::Channels(Ok(listing)) => {
            let gone = orphans(listing, sessions);
            let queue = candidates(listing, sessions);
            let kept = after.guilds;
            lemma_candidates_run(kept, world, guild, queue, (steps - 1) as nat);
            let reaps = queue.filter(reaped(answers));
            assert forall|x: u64| #[trigger]
                entry_of(r.guilds, guild).sessions.contains(x) <==> sessions.contains(x)
                    && is_listed(listing, x) && !reaped(answers)(x) by {
                lemma_drop_each(kept, guild, reaps, x);
                lemma_filter_holds(queue, reaped(answers), x);
                lemma_filter_holds(listed_ids(listing), inside(sessions), x);
                lemma_listed_ids(listing, x);
                lemma_filter_holds(sessions, unlisted(listing), x);
                if gone.len() > 0 {
                    lemma_filter_holds(sessions, outside(gone), x);
                } else {
                    if sessions.contains(x) && !is_listed(listing, x) {
                        assert(gone.contains(x));
                    }
                }
            }
        },
        _ => {},
    }
}

/// A second sweep of a guild, with nothing happening in between, leaves the
/// registry as the first sweep left it; and where no deletion fails, it asks
/// for no deletion at all.
pub proof fn second_sweep_changes_nothing(
    guilds: Map<u64, EntryView>,
    world: World,
    guild: u64,
    steps: nat,
    more_steps: nat,
)
    requires
        sound(world),
        sweep_of(guilds, world, guild, steps).finished,
        sweep_of(
            sweep_of(guilds, world, guild, steps).guilds,
            sweep_of(guilds, world, guild, steps).world,
            guild,
            more_steps,
        ).finished,
    ensures
        sweep_of(
            sweep_of(guilds, world, guild, steps).guilds,
            sweep_of(guilds, world, guild, steps).world,
            guild,
            more_steps,
        ).guilds == sweep_of(guilds, world, guild, steps).guilds,
        no_deletion_fails(guilds, world, guild) ==> deletions(
            sweep_of(
                sweep_of(guilds, world, guild, steps).guilds,
                sweep_of(guilds, world, guild, steps).world,
                guild,
                more_steps,
            ).requests,
        ) == Seq::<u64>::empty(),
{
    let answers = world.answers;
    let request = RequestView::ListVoiceChannels { guild };
    let first = sweep_of(guilds, world, guild, steps);
    let second = sweep_of(first.guilds, first.world, guild, more_steps);
    lemma_sweep(guilds, world, guild, steps);
    assert(sound(first.world));
    lemma_sweep(first.guilds, first.world, guild, more_steps);
    match answers(request) {
        ReplyView::Channels(Ok(all)) => {
            let sessions = entry_of(guilds, guild).sessions;
            let listing = all.filter(still_there(world.deleted));
            let left = entry_of(first.guilds, guild).sessions;
            let listing_then = all.filter(still_there(first.world.deleted));
            assert(guild_swept(first, guilds, world, guild, listing));
            assert(guild_swept(second, first.guilds, first.world, guild, listing_then));
            // what the first sweep left is still listed, and not to be reaped
            assert forall|x: u64| left.contains(x) implies is_listed(listing_then, x) && !reaped(
                answers,
            )(x) by {
                assert(is_listed(listing, x));
                let i = choose|i: int| 0 <= i < listing.len() && #[trigger] listing[i].id == x;
                let c = listing[i];
                assert(listing.contains(c));
                lemma_filter_holds(all, still_there(world.deleted), c);
                lemma_filter_holds(all, still_there(first.world.deleted), c);
                let j = choose|j: int| 0 <= j < listing_then.len() && listing_then[j] == c;
                assert(listing_then[j].id == x);
            }
            let queue = candidates(listing_then, left);
            assert(orphans(listing_then, left) == Seq::<u64>::empty()) by {
                assert forall|i: int| 0 <= i < left.len() implies !unlisted(listing_then)(
                    #[trigger] left[i],
                ) by {
                    assert(left.contains(left[i]));
                }
                lemma_filter_none(left, unlisted(listing_then));
            }
            assert forall|i: int| 0 <= i < queue.len() implies !reaped(answers)(
                #[trigger] queue[i],
            ) by {
                assert(queue.contains(queue[i]));
                lemma_filter_holds(listed_ids(listing_then), inside(left), queue[i]);
            }
            lemma_filter_none(queue, reaped(answers));
            if no_deletion_fails(guilds, world, guild) {
                assert forall|i: int| 0 <= i < queue.len() implies !found_empty(answers)(
                    #[trigger] queue[i],
                ) by {
                    let x = queue[i];
                    assert(queue.contains(x));
                    lemma_filter_holds(listed_ids(listing_then), inside(left), x);
                    assert(left.contains(x));
                    assert(sessions.contains(x) && is_listed(listing, x));
                }
                lemma_filter_none(queue, found_empty(answers));
            }
        },
        _ => {},
    }
}

/// Whether every deletion that a sweep of `guild` asks for is answered as
/// done or not needed: the sessions that are listed and found empty can be
/// deleted.
pub open spec fn no_deletion_fails(guilds: Map<u64, EntryView>, world: World, guild: u64) -> bool {
    forall|c: u64|
        entry_of(guilds, guild).sessions.contains(c) && found_empty(world.answers)(c) && (match answer(
            world,
            RequestView::ListVoiceChannels { guild },
        ) {
            ReplyView::Channels(Ok(listing)) => is_listed(listing, c),
            _ => false,
        }) ==> #[trigger] deletable(world.answers)(c)
}

/// Whether the listing that the platform gives for `guild` names each
/// channel once.
pub open spec fn listing_is_a_map(world: World, guild: u64) -> bool {
    match (world.answers)(RequestView::ListVoiceChannels { guild }) {
        ReplyView::Channels(Ok(listing)) => listed_ids(listing).no_duplicates(),
        _ => true,
    }
}

/// Filtering a listing whose ids are distinct leaves the ids distinct.
proof fn lemma_filtered_ids_distinct(listing: Seq<ChannelView>, keep: spec_fn(ChannelView) -> bool)
    requires
        listed_ids(listing).no_duplicates(),
    ensures
        listed_ids(listing.filter(keep)).no_duplicates(),
    decreases listing.len(),
{
    reveal(Seq::filter);
    if listing.len() > 0 {
        let head = listing.drop_last();
        let last = listing.last();
        assert(listed_ids(head) =~= listed_ids(listing).drop_last());
        lemma_filtered_ids_distinct(head, keep);
        if keep(last) {
            let kept = head.filter(keep);
            assert(listing.filter(keep) == kept.push(last));
            assert(listed_ids(kept.push(last)) =~= listed_ids(kept).push(last.id));
            assert forall|i: int| 0 <= i < kept.len() implies listed_ids(kept)[i] != last.id by {
                assert(kept.contains(kept[i]));
                lemma_filter_holds(head, keep, kept[i]);
                let j = choose|j: int| 0 <= j < head.len() && head[j] == kept[i];
                assert(listed_ids(listing)[j] == kept[i].id);
                assert(listed_ids(listing)[listing.len() - 1] == last.id);
            }
        }
    }
}

/// Two sweeps of a guild, with nothing happening in between, ask at most
/// once for the deletion of any channel, provided that the platform lists
/// each channel once and that no deletion fails.
pub proof fn two_sweeps_delete_once(
    guilds: Map<u64, EntryView>,
    world: World,
    guild: u64,
    steps: nat,
    more_steps: nat,
)
    requires
        sound(world),
        listing_is_a_map(world, guild),
        no_deletion_fails(guilds, world, guild),
        sweep_of(guilds, world, guild, steps).finished,
        sweep_of(
            sweep_of(guilds, world, guild, steps).guilds,
            sweep_of(guilds, world, guild, steps).world,
            guild,
            more_steps,
        ).finished,
    ensures
        (deletions(sweep_of(guilds, world, guild, steps).requests) + deletions(
            sweep_of(
                sweep_of(guilds, world, guild, steps).guilds,
                sweep_of(guilds, world, guild, steps).world,
                guild,
                more_steps,
            ).requests,
        )).no_duplicates(),
{
    let answers = world.answers;
    let first = sweep_of(guilds, world, guild, steps);
    let second = sweep_of(first.guilds, first.world, guild, more_steps);
    second_sweep_changes_nothing(guilds, world, guild, steps, more_steps);
    lemma_sweep(guilds, world, guild, steps);
    assert(deletions(first.requests) + deletions(second.requests) =~= deletions(first.requests));
    match answers(RequestView::ListVoiceChannels { guild }) {
        ReplyView::Channels(Ok(all)) => {
            let sessions = entry_of(guilds, guild).sessions;
            let listing = all.filter(still_there(world.deleted));
            lemma_filtered_ids_distinct(all, still_there(world.deleted));
            lemma_filter_distinct(listed_ids(listing), inside(sessions));
            lemma_filter_distinct(candidates(listing, sessions), found_empty(answers));
        },
        _ => {},
    }
}

/// A join of the guild's maker, on a platform that lists the maker inside a
/// category and creates the channel asked for, makes four calls in this
/// order: the listing, the user's presence, the creation of a channel named
/// after the presence beside the maker, and the user's move into it. The
/// new channel is recorded as a session of the guild, whatever becomes of
/// the move, and nothing else changes.
pub proof fn join_at_maker_opens_a_session(
    guilds: Map<u64, EntryView>,
    world: World,
    guild: u64,
    user: u64,
    maker: u64,
    listing: Seq<ChannelView>,
    parent_category: u64,
    presence: Option<Seq<Seq<char>>>,
    channel: u64,
    steps: nat,
)
    requires
        entry_of(guilds, guild).maker == Some(maker),
        answer(world, RequestView::ListVoiceChannels { guild }) == ReplyView::Channels(
            Ok(listing),
        ),
        maker_category(listing, maker) == Ok::<u64, ConfigurationProblem>(parent_category),
        answer(world, RequestView::PresenceOf { guild, user }) == ReplyView::Presence(presence),
        answer(
            world,
            RequestView::CreateVoiceChannel {
                guild,
                name: session_name(presence),
                parent_category,
            },
        ) == ReplyView::Created(Ok(channel)),
        steps >= 4,
    ensures
        ({
            let start = first_step(
                guilds,
                EventView::VoiceStateUpdate {
                    guild_id: Some(guild),
                    user_id: user,
                    channel_id: Some(maker),
                },
                Seq::empty(),
            );
            let r = run(guilds, world, start.next, steps);
            &&& r.finished
            &&& r.guilds == session_added(guilds, guild, channel)
            &&& r.requests == seq![
                RequestView::ListVoiceChannels { guild },
                RequestView::PresenceOf { guild, user },
                RequestView::CreateVoiceChannel {
                    guild,
                    name: session_name(presence),
                    parent_category,
                },
                RequestView::MoveMemberToVoice { guild, user, channel },
            ]
        }),
{
    reveal_with_fuel(run, 5);
    let start = first_step(
        guilds,
        EventView::VoiceStateUpdate { guild_id: Some(guild), user_id: user, channel_id: Some(maker) },
        Seq::empty(),
    );
    let r = run(guilds, world, start.next, steps);
    assert(r.requests =~= seq![
        RequestView::ListVoiceChannels { guild },
        RequestView::PresenceOf { guild, user },
        RequestView::CreateVoiceChannel { guild, name: session_name(presence), parent_category },
        RequestView::MoveMemberToVoice { guild, user, channel },
    ]);
}

/// One run after another: the calls of both, and the state that the second
/// leaves.
pub open spec fn followed_by(first: Run, second: Run) -> Run {
    Run {
        guilds: second.guilds,
        world: second.world,
        requests: first.requests + second.requests,
        finished: first.finished && second.finished,
    }
}

/// Whether the run `whole` is the sweep of one guild from `next`, taking
/// `used` steps, followed by the sweep of the guilds of `rest`.
pub open spec fn splits_at(
    whole: Run,
    guilds: Map<u64, EntryView>,
    world: World,
    next: NextView,
    rest: Seq<u64>,
    steps: nat,
    used: nat,
) -> bool {
    let first = run(guilds, world, next, used);
    &&& used <= steps
    &&& first.finished
    &&& whole == followed_by(
        first,
        run(first.guilds, first.world, sweep_from(first.guilds, rest), (steps - used) as nat),
    )
}

/// A sweep that goes through `queue` and then through the guilds of `rest`
/// is the sweep through `queue` followed by the sweep of those guilds.
proof fn lemma_candidates_then(
    guilds: Map<u64, EntryView>,
    world: World,
    guild: u64,
    queue: Seq<u64>,
    rest: Seq<u64>,
    steps: nat,
)
    requires
        sound(world),
        run(guilds, world, candidate_from(guilds, guild, queue, rest), steps).finished,
    ensures
        exists|used: nat| #[trigger]
            splits_at(
                run(guilds, world, candidate_from(guilds, guild, queue, rest), steps),
                guilds,
                world,
                candidate_from(guilds, guild, queue, Seq::empty()),
                rest,
                steps,
                used,
            ),
    decreases steps, 1nat,
{
    let answers = world.answers;
    let fewer = (steps - 1) as nat;
    let whole = run(guilds, world, candidate_from(guilds, guild, queue, rest), steps);
    let alone = candidate_from(guilds, guild, queue, Seq::empty());
    if queue.len() == 0 {
        assert(sweep_from(guilds, Seq::<u64>::empty()) == NextView::Done);
        let first = run(guilds, world, alone, 0);
        let second = run(guilds, world, sweep_from(guilds, rest), steps);
        assert(first.requests + second.requests =~= second.requests);
        assert(splits_at(whole, guilds, world, alone, rest, steps, 0));
    } else {
        let channel = queue[0];
        let tail = queue.drop_first();
        let request = RequestView::VoiceMembers { channel };
        let reply = answer(world, request);
        assert(in_kind(request, answers(request)));
        if found_empty(answers)(channel) {
            lemma_delete_then(guilds, world, guild, channel, tail, rest, fewer);
            let deletion = RequestView::DeleteChannel { channel };
            let before = run(
                guilds,
                world,
                NextView::Call {
                    task: TaskView::SweepDelete { guild, channel, pending: tail, rest },
                    request: deletion,
                },
                fewer,
            );
            let alone_before = NextView::Call {
                task: TaskView::SweepDelete { guild, channel, pending: tail, rest: Seq::empty() },
                request: deletion,
            };
            let used = choose|used: nat| #[trigger]
                splits_at(before, guilds, world, alone_before, rest, fewer, used);
            let first_before = run(guilds, world, alone_before, used);
            let first = run(guilds, world, alone, used + 1);
            assert(first.requests == seq![request] + first_before.requests);
            let second = run(
                first.guilds,
                first.world,
                sweep_from(first.guilds, rest),
                (steps - (used + 1)) as nat,
            );
            assert(whole.requests =~= first.requests + second.requests);
            assert(splits_at(whole, guilds, world, alone, rest, steps, used + 1));
        } else {
            lemma_candidates_then(guilds, world, guild, tail, rest, fewer);
            let before = run(
                guilds,
                world,
                candidate_from(guilds, guild, tail, rest),
                fewer,
            );
            let alone_before = candidate_from(guilds, guild, tail, Seq::empty());
            let used = choose|used: nat| #[trigger]
                splits_at(before, guilds, world, alone_before, rest, fewer, used);
            let first_before = run(guilds, world, alone_before, used);
            let first = run(guilds, world, alone, used + 1);
            assert(first.requests == seq![request] + first_before.requests);
            let second = run(
                first.guilds,
                first.world,
                sweep_from(first.guilds, rest),
                (steps - (used + 1)) as nat,
            );
            assert(whole.requests =~= first.requests + second.requests);
            assert(splits_at(whole, guilds, world, alone, rest, steps, used + 1));
        }
    }
}

/// The same, for a sweep that waits for the deletion of an empty session.
proof fn lemma_delete_then(
    guilds: Map<u64, EntryView>,
    world: World,
    guild: u64,
    channel: u64,
    tail: Seq<u64>,
    rest: Seq<u64>,
    steps: nat,
)
    requires
        sound(world),
        run(
            guilds,
            world,
            NextView::Call {
                task: TaskView::SweepDelete { guild, channel, pending: tail, rest },
                request: RequestView::DeleteChannel { channel },
            },
            steps,
        ).finished,
    ensures
        exists|used: nat| #[trigger]
            splits_at(
                run(
                    guilds,
                    world,
                    NextView::Call {
                        task: TaskView::SweepDelete { guild, channel, pending: tail, rest },
                        request: RequestView::DeleteChannel { channel },
                    },
                    steps,
                ),
                guilds,
                world,
                NextView::Call {
                    task: TaskView::SweepDelete {
                        guild,
                        channel,
                        pending: tail,
                        rest: Seq::empty(),
                    },
                    request: RequestView::DeleteChannel { channel },
                },
                rest,
                steps,
                used,
            ),
    decreases steps, 0nat,
{
    let answers = world.answers;
    let fewer = (steps - 1) as nat;
    let request = RequestView::DeleteChannel { channel };
    let task = TaskView::SweepDelete { guild, channel, pending: tail, rest };
    let alone = NextView::Call {
        task: TaskView::SweepDelete { guild, channel, pending: tail, rest: Seq::empty() },
        request,
    };
    let whole = run(guilds, world, NextView::Call { task, request }, steps);
    let reply = answer(world, request);
    assert(in_kind(request, answers(request)));
    let after = transition(guilds, task, reply);
    let then = after_call(world, request, reply);
    assert(then.answers == answers);
    assert(sound(then));
    assert(after.step.next == candidate_from(after.guilds, guild, tail, rest));
    lemma_candidates_then(after.guilds, then, guild, tail, rest, fewer);
    let before = run(after.guilds, then, after.step.next, fewer);
    let alone_before = candidate_from(after.guilds, guild, tail, Seq::empty());
    let used = choose|used: nat| #[trigger]
        splits_at(before, after.guilds, then, alone_before, rest, fewer, used);
    let first_before = run(after.guilds, then, alone_before, used);
    let first = run(guilds, world, alone, used + 1);
    assert(first.requests == seq![request] + first_before.requests);
    let second = run(
        first.guilds,
        first.world,
        sweep_from(first.guilds, rest),
        (steps - (used + 1)) as nat,
    );
    assert(whole.requests =~= first.requests + second.requests);
    assert(splits_at(whole, guilds, world, alone, rest, steps, used + 1));
}

/// When a connection is established the guilds are swept one after the
/// other: the operation is the sweep of the first guild, run to its end,
/// followed by the same for the guilds after it, each sweep starting from
/// what the one before it left.
pub proof fn ready_sweeps_guild_after_guild(
    guilds: Map<u64, EntryView>,
    world: World,
    guild: u64,
    rest: Seq<u64>,
    steps: nat,
)
    requires
        sound(world),
        run(guilds, world, sweep_from(guilds, seq![guild] + rest), steps).finished,
    ensures
        exists|used: nat|
            used <= steps && (#[trigger] sweep_of(guilds, world, guild, used)).finished && run(
                guilds,
                world,
                sweep_from(guilds, seq![guild] + rest),
                steps,
            ) == followed_by(
                sweep_of(guilds, world, guild, used),
                run(
                    sweep_of(guilds, world, guild, used).guilds,
                    sweep_of(guilds, world, guild, used).world,
                    sweep_from(sweep_of(guilds, world, guild, used).guilds, rest),
                    (steps - used) as nat,
                ),
            ),
{
    let answers = world.answers;
    let fewer = (steps - 1) as nat;
    let order = seq![guild] + rest;
    let whole = run(guilds, world, sweep_from(guilds, order), steps);
    let sessions = entry_of(guilds, guild).sessions;
    let request = RequestView::ListVoiceChannels { guild };
    assert(order.drop_first() =~= rest);
    assert(seq![guild].drop_first() =~= Seq::<u64>::empty());
    let task = TaskView::SweepListing { guild, snapshot: sessions, rest };
    let alone = NextView::Call {
        task: TaskView::SweepListing { guild, snapshot: sessions, rest: Seq::empty() },
        request,
    };
    assert(sweep_from(guilds, order) == NextView::Call { task, request });
    assert(sweep_from(guilds, seq![guild]) == alone);
    assert(sweep_from(guilds, Seq::<u64>::empty()) == NextView::Done);
    let reply = answer(world, request);
    assert(in_kind(request, answers(request)));
    let after = transition(guilds, task, reply);
    let before = run(after.guilds, world, after.step.next, fewer);
    match reply {
        ReplyView::Channels(Ok(listing)) => {
            let queue = candidates(listing, sessions);
            lemma_candidates_then(after.guilds, world, guild, queue, rest, fewer);
            let alone_before = candidate_from(after.guilds, guild, queue, Seq::empty());
            let used = choose|used: nat| #[trigger]
                splits_at(
                    before,
                    after.guilds,
                    world,
                    alone_before,
                    rest,
                    fewer,
                    used,
                );
            let first_before = run(after.guilds, world, alone_before, used);
            let first = sweep_of(guilds, world, guild, used + 1);
            assert(first.requests == seq![request] + first_before.requests);
            let second = run(
                first.guilds,
                first.world,
                sweep_from(first.guilds, rest),
                (steps - (used + 1)) as nat,
            );
            assert(whole.requests =~= first.requests + second.requests);
            assert(first.finished && used + 1 <= steps);
            assert(whole == followed_by(first, second));
        },
        _ => {
            let stop = run(guilds, world, sweep_from(guilds, Seq::<u64>::empty()), 0);
            assert(stop.finished && stop.requests =~= Seq::<RequestView>::empty());
            let first = sweep_of(guilds, world, guild, 1);
            assert(first.requests == seq![request] + stop.requests);
            let second = run(guilds, world, sweep_from(guilds, rest), fewer);
            assert(whole.requests =~= first.requests + second.requests);
            assert(first.finished && 1 <= steps);
            assert(whole == followed_by(first, second));
        },
    }
}

/// The length of the listing that the platform gives for `guild`; zero
/// where it gives none.
pub open spec fn listing_len(world: World, guild: u64) -> nat {
    match answer(world, RequestView::ListVoiceChannels { guild }) {
        ReplyView::Channels(Ok(listing)) => listing.len(),
        _ => 0,
    }
}

/// A sweep through `queue` ends within two steps for each channel.
proof fn lemma_candidates_end(
    guilds: Map<u64, EntryView>,
    world: World,
    guild: u64,
    queue: Seq<u64>,
    steps: nat,
)
    requires
        steps >= 2 * queue.len(),
    ensures
        run(guilds, world, candidate_from(guilds, guild, queue, Seq::empty()), steps).finished,
    decreases queue.len(),
{
    if queue.len() == 0 {
        assert(sweep_from(guilds, Seq::<u64>::empty()) == NextView::Done);
    } else {
        let channel = queue[0];
        let tail = queue.drop_first();
        let request = RequestView::VoiceMembers { channel };
        let task = TaskView::SweepMembers { guild, channel, pending: tail, rest: Seq::empty() };
        let reply = answer(world, request);
        let after = transition(guilds, task, reply);
        let fewer = (steps - 1) as nat;
        let pause = run(guilds, world, after.step.next, fewer);
        match after.step.next {
            NextView::Done => {},
            NextView::Call { task: then_task, request: then_request } => {
                if then_request == (RequestView::DeleteChannel { channel }) {
                    let then_reply = answer(world, then_request);
                    let then = transition(guilds, then_task, then_reply);
                    let then_world = after_call(world, then_request, then_reply);
                    lemma_candidates_end(then.guilds, then_world, guild, tail, (steps - 2) as nat);
                    let last = run(then.guilds, then_world, then.step.next, (steps - 2) as nat);
                    assert(pause.finished == last.finished);
                } else {
                    lemma_candidates_end(guilds, world, guild, tail, fewer);
                }
            },
        }
    }
}

/// The sweep of one guild ends: one step for the listing and at most two for
/// each channel that the platform lists are enough, whatever the platform
/// answers.
pub proof fn sweep_ends(guilds: Map<u64, EntryView>, world: World, guild: u64, steps: nat)
    requires
        steps > 2 * listing_len(world, guild),
    ensures
        sweep_of(guilds, world, guild, steps).finished,
{
    let sessions = entry_of(guilds, guild).sessions;
    let request = RequestView::ListVoiceChannels { guild };
    assert(seq![guild].drop_first() =~= Seq::<u64>::empty());
    let task = TaskView::SweepListing { guild, snapshot: sessions, rest: Seq::empty() };
    assert(sweep_from(guilds, seq![guild]) == NextView::Call { task, request });
    assert(sweep_from(guilds, Seq::<u64>::empty()) == NextView::Done);
    let reply = answer(world, request);
    let after = transition(guilds, task, reply);
    let fewer = (steps - 1) as nat;
    let rest = run(after.guilds, world, after.step.next, fewer);
    match reply {
        ReplyView::Channels(Ok(listing)) => {
            let queue = candidates(listing, sessions);
            listed_ids(listing).lemma_filter_len(inside(sessions));
            lemma_candidates_end(after.guilds, world, guild, queue, fewer);
        },
        _ => {},
    }
}

/// The search that a change of presence starts ends within one step for
/// each session of the guild, whatever the platform answers.
pub proof fn search_ends(
    guilds: Map<u64, EntryView>,
    world: World,
    user: u64,
    name: Seq<char>,
    queue: Seq<u64>,
    steps: nat,
)
    requires
        steps > queue.len(),
    ensures
        run(guilds, world, scan_from(user, name, queue), steps).finished,
    decreases queue.len(),
{
    if queue.len() > 0 {
        let channel = queue[0];
        let tail = queue.drop_first();
        let request = RequestView::VoiceMembers { channel };
        let task = TaskView::RenameScan { user, name, channel, pending: tail };
        let reply = answer(world, request);
        let after = transition(guilds, task, reply);
        let fewer = (steps - 1) as nat;
        let pause = run(guilds, world, after.step.next, fewer);
        match after.step.next {
            NextView::Done => {},
            NextView::Call { task: then_task, request: then_request } => {
                if then_request == (RequestView::RenameChannel { channel, name }) {
                    let then_reply = answer(world, then_request);
                    let then = transition(guilds, then_task, then_reply);
                    let then_world = after_call(world, then_request, then_reply);
                    let last = run(then.guilds, then_world, then.step.next, (steps - 2) as nat);
                    assert(pause.finished == last.finished);
                } else {
                    search_ends(guilds, world, user, name, tail, fewer);
                }
            },
        }
    }
}

} // verus!
