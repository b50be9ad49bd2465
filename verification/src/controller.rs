//! The session controller: the registry, and the steps that read and write
//! it.
//!
//! The registry is read and written only inside [`SessionMaker::start`] and
//! [`SessionMaker::resume`], so that no call to the platform is made while
//! the registry is held.

use crate::names::get_session_name;
use crate::protocol::{
    admissible, after_admin_listing, after_join_create, after_join_listing, after_join_move,
    after_join_presence, after_rename_issue, after_rename_scan, after_sweep_delete,
    after_sweep_listing, after_sweep_members, call, candidate_from, candidates, done, enumerates,
    failed, first_step, maker_category, orphans, scan_from, sweep_from, transition, AdminProblem,
    ConfigurationProblem, Fault, Next, Step, Task,
};
use crate::registry::{
    contains_channel, imported, inside, is_export_of, records_view, EntryView, GuildEntry,
    Registry,
};
use crate::remote::{
    find_channel, lemma_lookup, listed_ids, listing_view, unlisted, ChannelInfo, ChannelKind,
    Event, EventView, Presence, RemoteError, Reply, Request,
};
use vstd::prelude::*;

verus! {

/// The first of `queue` and what follows it; nothing where it is empty.
fn split_first(queue: Vec<u64>) -> (parts: Option<(u64, Vec<u64>)>)
    ensures
        match parts {
            Some((first, tail)) => queue@.len() > 0 && first == queue@[0] && tail@
                == queue@.drop_first(),
            None => queue@.len() == 0,
        },
{
    let mut tail = queue;
    if tail.len() == 0 {
        None
    } else {
        let first = tail.remove(0);
        assert(tail@ =~= queue@.drop_first());
        Some((first, tail))
    }
}

/// The category of the maker in `listing`, or why the maker cannot serve.
pub fn check_maker(listing: &Vec<ChannelInfo>, maker: u64) -> (category: Result<
    u64,
    ConfigurationProblem,
>)
    ensures
        category == maker_category(listing_view(listing@), maker),
{
    match find_channel(listing, maker) {
        None => Err(ConfigurationProblem::MakerMissing),
        Some(i) => match listing[i].parent_category {
            None => Err(ConfigurationProblem::MakerWithoutCategory),
            Some(parent) => Ok(parent),
        },
    }
}

/// Whether `channel` can become a maker, going by `listing`.
pub fn check_admissible(listing: &Vec<ChannelInfo>, channel: u64) -> (verdict: Result<
    (),
    AdminProblem,
>)
    ensures
        verdict == admissible(listing_view(listing@), channel),
{
    match find_channel(listing, channel) {
        None => Err(AdminProblem::ChannelAbsent),
        Some(i) => {
            let found = &listing[i];
            match found.kind {
                ChannelKind::Voice => match found.parent_category {
                    None => Err(AdminProblem::NoCategory),
                    Some(_) => Ok(()),
                },
                _ => Err(AdminProblem::NotVoice),
            }
        },
    }
}

/// The sessions of `snapshot` that `listing` holds, in the listing's order.
pub fn sweep_candidates(listing: &Vec<ChannelInfo>, snapshot: &Vec<u64>) -> (queue: Vec<u64>)
    ensures
        queue@ == candidates(listing_view(listing@), snapshot@),
{
    let ghost all = listing_view(listing@);
    let mut queue: Vec<u64> = Vec::new();
    let mut i: usize = 0;
    assert(listed_ids(all.take(0)) =~= Seq::<u64>::empty());
    while i < listing.len()
        invariant
            i <= listing.len(),
            all == listing_view(listing@),
            queue@ == candidates(all.take(i as int), snapshot@),
        decreases listing.len() - i,
    {
        let id: u64 = listing[i].id;
        proof {
            let head = listed_ids(all.take(i as int));
            assert(listed_ids(all.take(i + 1)) =~= head.push(id));
            head.lemma_filter_push(id, inside(snapshot@));
        }
        if contains_channel(snapshot, id) {
            queue.push(id);
        }
        i += 1;
    }
    assert(all.take(listing.len() as int) =~= all);
    queue
}

/// The sessions of `snapshot` that `listing` does not hold.
pub fn sweep_orphans(listing: &Vec<ChannelInfo>, snapshot: &Vec<u64>) -> (gone: Vec<u64>)
    ensures
        gone@ == orphans(listing_view(listing@), snapshot@),
{
    let ghost all = listing_view(listing@);
    let mut gone: Vec<u64> = Vec::new();
    let mut i: usize = 0;
    while i < snapshot.len()
        invariant
            i <= snapshot.len(),
            all == listing_view(listing@),
            gone@ == orphans(all, snapshot@.take(i as int)),
        decreases snapshot.len() - i,
    {
        let c: u64 = snapshot[i];
        proof {
            let head = snapshot@.take(i as int);
            assert(snapshot@.take(i + 1) =~= head.push(c));
            head.lemma_filter_push(c, unlisted(all));
            lemma_lookup(all, c);
        }
        if find_channel(listing, c).is_none() {
            gone.push(c);
        }
        i += 1;
    }
    assert(snapshot@.take(snapshot.len() as int) =~= snapshot@);
    gone
}

/// The step that ends an operation without complaint.
fn step_done() -> (step: Step)
    ensures
        step@ == done(),
{
    Step { fault: None, next: Next::Done }
}

/// The step that ends an operation over `fault`.
fn step_failed(fault: Fault) -> (step: Step)
    ensures
        step@ == failed(fault),
{
    Step { fault: Some(fault), next: Next::Done }
}

/// The step that asks for `request` and goes on with `task`.
fn step_call(task: Task, request: Request) -> (step: Step)
    ensures
        step@ == call(task@, request@),
{
    Step { fault: None, next: Next::Call { task, request } }
}

/// The search for the session of `user` goes on with the channels of `queue`.
fn begin_scan(user: u64, name: String, queue: Vec<u64>) -> (next: Next)
    ensures
        next@ == scan_from(user, name@, queue@),
{
    match split_first(queue) {
        None => Next::Done,
        Some((channel, pending)) => Next::Call {
            task: Task::RenameScan { user, name, channel, pending },
            request: Request::VoiceMembers { channel },
        },
    }
}

/// The session controller: the registry and the steps that read and write
/// it.
pub struct SessionMaker {
    data: Registry,
}

impl View for SessionMaker {
    type V = Map<u64, EntryView>;

    /// The guilds of the registry, each with its entry.
    closed spec fn view(&self) -> Map<u64, EntryView> {
        self.data@
    }
}

impl SessionMaker {
    /// Whether a change of the registry waits to be flushed.
    pub closed spec fn is_dirty(&self) -> bool {
        self.data.is_dirty()
    }

    /// A controller whose registry holds no guild.
    pub fn new() -> (controller: Self)
        ensures
            controller@ == Map::<u64, EntryView>::empty(),
            !controller.is_dirty(),
    {
        SessionMaker { data: Registry::new() }
    }

    /// A controller over `registry`.
    pub fn with_registry(registry: Registry) -> (controller: Self)
        ensures
            controller@ == registry@,
            controller.is_dirty() == registry.is_dirty(),
    {
        SessionMaker { data: registry }
    }

    /// The registry, to read.
    pub fn registry(&self) -> (registry: &Registry)
        ensures
            registry@ == self@,
            registry.is_dirty() == self.is_dirty(),
    {
        &self.data
    }

    /// A controller over what was read from the store: over the registry
    /// that `records` give, or over an empty one where nothing could be
    /// read.
    pub fn load(records: Option<Vec<(u64, GuildEntry)>>) -> (controller: Self)
        ensures
            controller@ == (match records {
                Some(records) => imported(records_view(records@)),
                None => Map::<u64, EntryView>::empty(),
            }),
            !controller.is_dirty(),
    {
        match records {
            Some(records) => SessionMaker { data: Registry::import(&records) },
            None => SessionMaker::new(),
        }
    }

    /// What is to be written to the store now: the registry, where a change
    /// waited to be flushed, and nothing where none did. No change waits
    /// afterwards.
    pub fn flush(&mut self) -> (records: Option<Vec<(u64, GuildEntry)>>)
        ensures
            final(self)@ == old(self)@,
            !final(self).is_dirty(),
            match records {
                Some(records) => old(self).is_dirty() && is_export_of(
                    records_view(records@),
                    old(self)@,
                ),
                None => !old(self).is_dirty(),
            },
    {
        if self.data.take_dirty() {
            Some(self.data.export())
        } else {
            None
        }
    }

    /// Whether a change of the registry waits to be flushed.
    pub fn has_changes(&self) -> (waiting: bool)
        ensures
            waiting == self.is_dirty(),
    {
        self.data.has_changes()
    }

    /// Whether a change waited to be flushed; none does afterwards.
    pub fn take_dirty(&mut self) -> (was: bool)
        ensures
            was == old(self).is_dirty(),
            final(self)@ == old(self)@,
            !final(self).is_dirty(),
    {
        self.data.take_dirty()
    }

    /// The sweep of the guilds of `queue`, one after the other.
    fn begin_sweep(&self, queue: Vec<u64>) -> (next: Next)
        ensures
            next@ == sweep_from(self@, queue@),
    {
        match split_first(queue) {
            None => Next::Done,
            Some((guild, rest)) => Next::Call {
                task: Task::SweepListing { guild, snapshot: self.data.sessions(guild), rest },
                request: Request::ListVoiceChannels { guild },
            },
        }
    }

    /// The sweep of `guild` goes on with the channels of `queue`.
    fn next_candidate(&self, guild: u64, queue: Vec<u64>, rest: Vec<u64>) -> (next: Next)
        ensures
            next@ == candidate_from(self@, guild, queue@, rest@),
    {
        match split_first(queue) {
            None => self.begin_sweep(rest),
            Some((channel, pending)) => Next::Call {
                task: Task::SweepMembers { guild, channel, pending, rest },
                request: Request::VoiceMembers { channel },
            },
        }
    }

    /// A connection was established: every guild of the registry is swept,
    /// one after the other, in the order of `guilds`.
    pub fn sweep_guilds(&self, guilds: Vec<u64>) -> (step: Step)
        ensures
            step@ == first_step(self@, EventView::Ready, guilds@),
    {
        Step { fault: None, next: self.begin_sweep(guilds) }
    }

    /// A connection was established: every guild of the registry is swept
    /// once, in no particular order.
    pub fn on_ready(&self) -> (step: Step)
        ensures
            exists|order: Seq<u64>|
                enumerates(order, self@) && step@ == first_step(self@, EventView::Ready, order),
    {
        let guilds = self.data.all_guilds();
        assert(enumerates(guilds@, self@));
        self.sweep_guilds(guilds)
    }

    /// A user's voice state changed: a join goes to [`Self::on_voice_connect`],
    /// a leave to [`Self::on_voice_disconnect`].
    pub fn on_channel_update(
        &self,
        guild_id: Option<u64>,
        user_id: u64,
        channel_id: Option<u64>,
    ) -> (step: Step)
        ensures
            step@ == first_step(
                self@,
                EventView::VoiceStateUpdate { guild_id, user_id, channel_id },
                Seq::empty(),
            ),
    {
        match channel_id {
            Some(joined) => self.on_voice_connect(guild_id, user_id, joined),
            None => self.on_voice_disconnect(guild_id, user_id),
        }
    }

    /// A user joined `joined`: where that is the guild's maker, a session is
    /// to be created, starting with the guild's listing; else nothing is
    /// done.
    pub fn on_voice_connect(&self, guild_id: Option<u64>, user_id: u64, joined: u64) -> (step:
        Step)
        ensures
            step@ == first_step(
                self@,
                EventView::VoiceStateUpdate { guild_id, user_id, channel_id: Some(joined) },
                Seq::empty(),
            ),
    {
        match guild_id {
            None => step_done(),
            Some(guild) => match self.data.maker(guild) {
                Some(maker) => if maker == joined {
                    step_call(
                        Task::JoinListing { guild, user: user_id, maker },
                        Request::ListVoiceChannels { guild },
                    )
                } else {
                    step_done()
                },
                None => step_done(),
            },
        }
    }

    /// A user left a voice channel: the guild is swept.
    pub fn on_voice_disconnect(&self, guild_id: Option<u64>, user_id: u64) -> (step: Step)
        ensures
            step@ == first_step(
                self@,
                EventView::VoiceStateUpdate { guild_id, user_id, channel_id: None },
                Seq::empty(),
            ),
    {
        match guild_id {
            None => step_done(),
            Some(guild) => {
                let mut queue: Vec<u64> = Vec::new();
                queue.push(guild);
                assert(queue@ =~= seq![guild]);
                Step { fault: None, next: self.begin_sweep(queue) }
            },
        }
    }

    /// A user's activities changed: the session that holds the user, if one
    /// does, is to be named after the first of them.
    pub fn on_presence_update(&self, guild_id: Option<u64>, user_id: u64, presence: Presence) -> (step:
        Step)
        ensures
            step@ == first_step(
                self@,
                EventView::PresenceUpdate { guild_id, user_id, activities: presence@ },
                Seq::empty(),
            ),
    {
        match guild_id {
            None => step_done(),
            Some(guild) => {
                let name = get_session_name(&Some(presence));
                Step { fault: None, next: begin_scan(user_id, name, self.data.sessions(guild)) }
            },
        }
    }

    /// An administrator asks that `channel` become the maker of `guild`: the
    /// guild's listing decides.
    pub fn session_set(&self, guild: u64, channel: u64) -> (step: Step)
        ensures
            step@ == first_step(self@, EventView::AdminSetMaker { guild, channel }, Seq::empty()),
    {
        step_call(Task::AdminListing { guild, channel }, Request::ListVoiceChannels { guild })
    }

    /// Session creation, after the listing: the maker's category is looked
    /// up and the user's presence asked for.
    fn create_session_listed(guild: u64, user: u64, maker: u64, reply: Reply) -> (step: Step)
        ensures
            step@ == after_join_listing(guild, user, maker, reply@),
    {
        match reply {
            Reply::Channels(Ok(listing)) => match check_maker(&listing, maker) {
                Ok(parent_category) => step_call(
                    Task::JoinPresence { guild, user, parent_category },
                    Request::PresenceOf { guild, user },
                ),
                Err(problem) => step_failed(Fault::ConfigurationError(problem)),
            },
            Reply::Channels(Err(e)) => step_failed(Fault::Remote(e)),
            _ => step_failed(Fault::UnexpectedReply),
        }
    }

    /// Session creation, after the presence: the channel is asked for under
    /// the name that the presence gives.
    fn create_session_named(guild: u64, user: u64, parent_category: u64, reply: Reply) -> (step:
        Step)
        ensures
            step@ == after_join_presence(guild, user, parent_category, reply@),
    {
        match reply {
            Reply::Presence(presence) => {
                let name = get_session_name(&presence);
                step_call(
                    Task::JoinCreate { guild, user },
                    Request::CreateVoiceChannel { guild, name, parent_category },
                )
            },
            _ => step_failed(Fault::UnexpectedReply),
        }
    }

    /// Session creation, after the channel was made: the session is recorded
    /// before the user's move is asked for.
    fn create_session_made(&mut self, guild: u64, user: u64, reply: Reply) -> (step: Step)
        ensures
            final(self)@ == after_join_create(old(self)@, guild, user, reply@).guilds,
            final(self).is_dirty() == (old(self).is_dirty() || after_join_create(
                old(self)@,
                guild,
                user,
                reply@,
            ).wrote),
            step@ == after_join_create(old(self)@, guild, user, reply@).step,
    {
        match reply {
            Reply::Created(Ok(channel)) => {
                self.data.insert_session(guild, channel);
                step_call(
                    Task::JoinMove { guild, user, channel },
                    Request::MoveMemberToVoice { guild, user, channel },
                )
            },
            Reply::Created(Err(e)) => step_failed(Fault::Remote(e)),
            _ => step_failed(Fault::UnexpectedReply),
        }
    }

    /// Session creation, after the move.
    fn create_session_moved(reply: Reply) -> (step: Step)
        ensures
            step@ == after_join_move(reply@),
    {
        match reply {
            Reply::Moved(Ok(_)) => step_done(),
            Reply::Moved(Err(e)) => step_failed(Fault::Remote(e)),
            _ => step_failed(Fault::UnexpectedReply),
        }
    }

    /// The sweep of a guild, after the listing: the orphans of the snapshot
    /// are forgotten, and the listed sessions are looked at one by one.
    fn check_sessions_listed(
        &mut self,
        guild: u64,
        snapshot: Vec<u64>,
        rest: Vec<u64>,
        reply: Reply,
    ) -> (step: Step)
        ensures
            final(self)@ == after_sweep_listing(
                old(self)@,
                guild,
                snapshot@,
                rest@,
                reply@,
            ).guilds,
            final(self).is_dirty() == (old(self).is_dirty() || after_sweep_listing(
                old(self)@,
                guild,
                snapshot@,
                rest@,
                reply@,
            ).wrote),
            step@ == after_sweep_listing(old(self)@, guild, snapshot@, rest@, reply@).step,
    {
        match reply {
            Reply::Channels(Ok(listing)) => {
                let gone = sweep_orphans(&listing, &snapshot);
                if gone.len() > 0 {
                    self.data.remove_sessions(guild, &gone);
                }
                let queue = sweep_candidates(&listing, &snapshot);
                Step { fault: None, next: self.next_candidate(guild, queue, rest) }
            },
            Reply::Channels(Err(e)) => Step {
                fault: Some(Fault::Remote(e)),
                next: self.begin_sweep(rest),
            },
            _ => step_failed(Fault::UnexpectedReply),
        }
    }

    /// The sweep of a guild, after the members of one session: an empty
    /// session is to be deleted.
    fn check_sessions_counted(
        &self,
        guild: u64,
        channel: u64,
        pending: Vec<u64>,
        rest: Vec<u64>,
        reply: Reply,
    ) -> (step: Step)
        ensures
            step@ == after_sweep_members(self@, guild, channel, pending@, rest@, reply@),
    {
        match reply {
            Reply::Members(Ok(members)) => if members.len() == 0 {
                step_call(
                    Task::SweepDelete { guild, channel, pending, rest },
                    Request::DeleteChannel { channel },
                )
            } else {
                Step { fault: None, next: self.next_candidate(guild, pending, rest) }
            },
            Reply::Members(Err(e)) => Step {
                fault: Some(Fault::Remote(e)),
                next: self.next_candidate(guild, pending, rest),
            },
            _ => step_failed(Fault::UnexpectedReply),
        }
    }

    /// The deletion of an empty session, after the platform's answer: a
    /// channel that is gone is forgotten.
    fn delete_session(
        &mut self,
        guild: u64,
        channel: u64,
        pending: Vec<u64>,
        rest: Vec<u64>,
        reply: Reply,
    ) -> (step: Step)
        ensures
            final(self)@ == after_sweep_delete(
                old(self)@,
                guild,
                channel,
                pending@,
                rest@,
                reply@,
            ).guilds,
            final(self).is_dirty() == (old(self).is_dirty() || after_sweep_delete(
                old(self)@,
                guild,
                channel,
                pending@,
                rest@,
                reply@,
            ).wrote),
            step@ == after_sweep_delete(old(self)@, guild, channel, pending@, rest@, reply@).step,
    {
        match reply {
            Reply::Deleted(Ok(_)) => {
                self.data.remove_session(guild, channel);
                Step { fault: None, next: self.next_candidate(guild, pending, rest) }
            },
            Reply::Deleted(Err(RemoteError::NotFound)) => {
                self.data.remove_session(guild, channel);
                Step { fault: None, next: self.next_candidate(guild, pending, rest) }
            },
            Reply::Deleted(Err(e)) => Step {
                fault: Some(Fault::Remote(e)),
                next: self.next_candidate(guild, pending, rest),
            },
            _ => step_failed(Fault::UnexpectedReply),
        }
    }

    /// The search for the session of a user, after the members of one
    /// session: the first session that holds the user is to be renamed.
    fn find_session_by_user(
        user: u64,
        name: String,
        channel: u64,
        pending: Vec<u64>,
        reply: Reply,
    ) -> (step: Step)
        ensures
            step@ == after_rename_scan(user, name@, channel, pending@, reply@),
    {
        match reply {
            Reply::Members(Ok(members)) => if contains_channel(&members, user) {
                step_call(Task::RenameIssue { channel }, Request::RenameChannel { channel, name })
            } else {
                Step { fault: None, next: begin_scan(user, name, pending) }
            },
            Reply::Members(Err(e)) => Step {
                fault: Some(Fault::Remote(e)),
                next: begin_scan(user, name, pending),
            },
            _ => step_failed(Fault::UnexpectedReply),
        }
    }

    /// A renaming, after the platform's answer.
    fn session_renamed(reply: Reply) -> (step: Step)
        ensures
            step@ == after_rename_issue(reply@),
    {
        match reply {
            Reply::Renamed(Ok(_)) => step_done(),
            Reply::Renamed(Err(RemoteError::NotFound)) => step_done(),
            Reply::Renamed(Err(e)) => step_failed(Fault::Remote(e)),
            _ => step_failed(Fault::UnexpectedReply),
        }
    }

    /// An administrator's command, after the listing: the channel becomes
    /// the guild's maker where it can be one.
    fn session_set_listed(&mut self, guild: u64, channel: u64, reply: Reply) -> (step: Step)
        ensures
            final(self)@ == after_admin_listing(old(self)@, guild, channel, reply@).guilds,
            final(self).is_dirty() == (old(self).is_dirty() || after_admin_listing(
                old(self)@,
                guild,
                channel,
                reply@,
            ).wrote),
            step@ == after_admin_listing(old(self)@, guild, channel, reply@).step,
    {
        match reply {
            Reply::Channels(Ok(listing)) => match check_admissible(&listing, channel) {
                Ok(_) => {
                    self.data.set_maker(guild, channel);
                    step_done()
                },
                Err(problem) => step_failed(Fault::InvalidAdminInput(problem)),
            },
            Reply::Channels(Err(e)) => step_failed(Fault::Remote(e)),
            _ => step_failed(Fault::UnexpectedReply),
        }
    }

    /// One step of an operation: `reply` is the platform's answer to the call
    /// that `task` waited for. The registry is written where the step says
    /// so, and then it waits to be flushed.
    pub fn resume(&mut self, task: Task, reply: Reply) -> (step: Step)
        ensures
            final(self)@ == transition(old(self)@, task@, reply@).guilds,
            final(self).is_dirty() == (old(self).is_dirty() || transition(
                old(self)@,
                task@,
                reply@,
            ).wrote),
            step@ == transition(old(self)@, task@, reply@).step,
    {
        match task {
            Task::JoinListing { guild, user, maker } => Self::create_session_listed(
                guild,
                user,
                maker,
                reply,
            ),
            Task::JoinPresence { guild, user, parent_category } => Self::create_session_named(
                guild,
                user,
                parent_category,
                reply,
            ),
            Task::JoinCreate { guild, user } => self.create_session_made(guild, user, reply),
            Task::JoinMove { .. } => Self::create_session_moved(reply),
            Task::SweepListing { guild, snapshot, rest } => self.check_sessions_listed(
                guild,
                snapshot,
                rest,
                reply,
            ),
            Task::SweepMembers { guild, channel, pending, rest } => self.check_sessions_counted(
                guild,
                channel,
                pending,
                rest,
                reply,
            ),
            Task::SweepDelete { guild, channel, pending, rest } => self.delete_session(
                guild,
                channel,
                pending,
                rest,
                reply,
            ),
            Task::RenameScan { user, name, channel, pending } => Self::find_session_by_user(
                user,
                name,
                channel,
                pending,
                reply,
            ),
            Task::RenameIssue { .. } => Self::session_renamed(reply),
            Task::AdminListing { guild, channel } => self.session_set_listed(guild, channel, reply),
        }
    }

    /// The first step of the operation that `event` starts. A `Ready` sweeps
    /// the guilds in no particular order.
    pub fn start(&self, event: Event) -> (step: Step)
        ensures
            event@ is Ready ==> exists|order: Seq<u64>|
                enumerates(order, self@) && step@ == first_step(self@, event@, order),
            !(event@ is Ready) ==> step@ == first_step(self@, event@, Seq::empty()),
    {
        match event {
            Event::Ready => self.on_ready(),
            Event::VoiceStateUpdate { guild_id, user_id, channel_id } => self.on_channel_update(
                guild_id,
                user_id,
                channel_id,
            ),
            Event::PresenceUpdate { guild_id, user_id, presence } => self.on_presence_update(
                guild_id,
                user_id,
                presence,
            ),
            Event::AdminSetMaker { guild, channel } => self.session_set(guild, channel),
        }
    }
}

} // verus!
