//! The chat platform as the controller sees it: the calls it asks for, the
//! answers it gets back, and the events that the gateway delivers.

use vstd::prelude::*;

verus! {

/// What sort of channel a listed channel is.
#[derive(Clone, Copy, Debug, PartialEq, Eq, Structural)]
pub enum ChannelKind {
    Voice,
    Category,
    Text,
    Other,
}

/// Why a call to the platform failed.
#[derive(Clone, Copy, Debug, PartialEq, Eq, Structural)]
pub enum RemoteError {
    GatewayUnavailable,
    PermissionDenied,
    NotFound,
    InvalidParent,
    UserNotInVoice,
}

/// One channel of a guild's listing, as a mathematical value.
pub struct ChannelView {
    pub id: u64,
    pub kind: ChannelKind,
    pub parent_category: Option<u64>,
    pub name: Seq<char>,
}

/// One channel of a guild's listing.
#[derive(Clone, Debug, PartialEq, Eq)]
pub struct ChannelInfo {
    pub id: u64,
    pub kind: ChannelKind,
    pub parent_category: Option<u64>,
    pub name: String,
}

impl View for ChannelInfo {
    type V = ChannelView;

    open spec fn view(&self) -> ChannelView {
        ChannelView {
            id: self.id,
            kind: self.kind,
            parent_category: self.parent_category,
            name: self.name@,
        }
    }
}

/// A listing as a sequence of mathematical values, in the order delivered.
pub open spec fn listing_view(listing: Seq<ChannelInfo>) -> Seq<ChannelView> {
    listing.map_values(|c: ChannelInfo| c@)
}

/// The ids of a listing's channels, in the order delivered.
pub open spec fn listed_ids(listing: Seq<ChannelView>) -> Seq<u64> {
    listing.map_values(|c: ChannelView| c.id)
}

/// Whether the listing holds a channel with this id.
pub open spec fn is_listed(listing: Seq<ChannelView>, id: u64) -> bool {
    exists|i: int| 0 <= i < listing.len() && #[trigger] listing[i].id == id
}

/// The first channel of the listing that has this id.
pub open spec fn lookup(listing: Seq<ChannelView>, id: u64) -> Option<ChannelView>
    decreases listing.len(),
{
    if listing.len() == 0 {
        None
    } else if listing[0].id == id {
        Some(listing[0])
    } else {
        lookup(listing.drop_first(), id)
    }
}

/// A lookup finds a channel exactly when the listing holds one with that id,
/// and what it finds is listed and has that id.
pub proof fn lemma_lookup(listing: Seq<ChannelView>, id: u64)
    ensures
        lookup(listing, id) is Some <==> is_listed(listing, id),
        lookup(listing, id) matches Some(c) ==> c.id == id && listing.contains(c),
    decreases listing.len(),
{
    if listing.len() == 0 {
    } else if listing[0].id == id {
        assert(listing.contains(listing[0]));
    } else {
        let rest = listing.drop_first();
        lemma_lookup(rest, id);
        if is_listed(rest, id) {
            let i = choose|i: int| 0 <= i < rest.len() && #[trigger] rest[i].id == id;
            assert(listing[i + 1].id == id);
        }
        if is_listed(listing, id) {
            let i = choose|i: int| 0 <= i < listing.len() && #[trigger] listing[i].id == id;
            assert(rest[i - 1].id == id);
        }
        if let Some(c) = lookup(rest, id) {
            let i = choose|i: int| 0 <= i < rest.len() && rest[i] == c;
            assert(listing[i + 1] == c);
        }
    }
}

/// The test that holds of the ids that the listing does not hold.
pub open spec fn unlisted(listing: Seq<ChannelView>) -> spec_fn(u64) -> bool {
    |c: u64| !is_listed(listing, c)
}

/// The place of the first channel with this id in the listing.
pub fn find_channel(listing: &Vec<ChannelInfo>, id: u64) -> (place: Option<usize>)
    ensures
        match place {
            Some(i) => i < listing.len() && lookup(listing_view(listing@), id) == Some(
                listing@[i as int]@,
            ),
            None => lookup(listing_view(listing@), id) is None,
        },
{
    let ghost all = listing_view(listing@);
    let mut i: usize = 0;
    assert(all.skip(0) =~= all);
    while i < listing.len()
        invariant
            i <= listing.len(),
            all == listing_view(listing@),
            lookup(all, id) == lookup(all.skip(i as int), id),
        decreases listing.len() - i,
    {
        proof {
            assert(all.skip(i as int).drop_first() =~= all.skip(i + 1));
        }
        if listing[i].id == id {
            return Some(i);
        }
        i += 1;
    }
    assert(all.skip(listing.len() as int) =~= Seq::<ChannelView>::empty());
    None
}

/// One activity of a user's presence.
#[derive(Clone, Debug, PartialEq, Eq)]
pub struct Activity {
    pub name: String,
}

/// A user's presence: the current activities, in the order delivered.
#[derive(Clone, Debug, PartialEq, Eq)]
pub struct Presence {
    pub activities: Vec<Activity>,
}

impl View for Presence {
    type V = Seq<Seq<char>>;

    /// The names of the activities, in the order delivered.
    open spec fn view(&self) -> Seq<Seq<char>> {
        self.activities@.map_values(|a: Activity| a.name@)
    }
}

/// A call that the controller asks the platform to make, as a mathematical
/// value.
pub enum RequestView {
    ListVoiceChannels { guild: u64 },
    CreateVoiceChannel { guild: u64, name: Seq<char>, parent_category: u64 },
    DeleteChannel { channel: u64 },
    RenameChannel { channel: u64, name: Seq<char> },
    MoveMemberToVoice { guild: u64, user: u64, channel: u64 },
    VoiceMembers { channel: u64 },
    PresenceOf { guild: u64, user: u64 },
}

/// A call that the controller asks the platform to make.
#[derive(Clone, Debug, PartialEq, Eq)]
pub enum Request {
    ListVoiceChannels { guild: u64 },
    CreateVoiceChannel { guild: u64, name: String, parent_category: u64 },
    DeleteChannel { channel: u64 },
    RenameChannel { channel: u64, name: String },
    MoveMemberToVoice { guild: u64, user: u64, channel: u64 },
    VoiceMembers { channel: u64 },
    PresenceOf { guild: u64, user: u64 },
}

impl View for Request {
    type V = RequestView;

    open spec fn view(&self) -> RequestView {
        match *self {
            Request::ListVoiceChannels { guild } => RequestView::ListVoiceChannels { guild },
            Request::CreateVoiceChannel { guild, name, parent_category } => {
                RequestView::CreateVoiceChannel { guild, name: name@, parent_category }
            },
            Request::DeleteChannel { channel } => RequestView::DeleteChannel { channel },
            Request::RenameChannel { channel, name } => RequestView::RenameChannel {
                channel,
                name: name@,
            },
            Request::MoveMemberToVoice { guild, user, channel } => {
                RequestView::MoveMemberToVoice { guild, user, channel }
            },
            Request::VoiceMembers { channel } => RequestView::VoiceMembers { channel },
            Request::PresenceOf { guild, user } => RequestView::PresenceOf { guild, user },
        }
    }
}

/// The platform's answer to a call, as a mathematical value.
pub enum ReplyView {
    Channels(Result<Seq<ChannelView>, RemoteError>),
    Created(Result<u64, RemoteError>),
    Deleted(Result<(), RemoteError>),
    Renamed(Result<(), RemoteError>),
    Moved(Result<(), RemoteError>),
    Members(Result<Seq<u64>, RemoteError>),
    Presence(Option<Seq<Seq<char>>>),
}

/// The platform's answer to a call.
#[derive(Debug)]
pub enum Reply {
    Channels(Result<Vec<ChannelInfo>, RemoteError>),
    Created(Result<u64, RemoteError>),
    Deleted(Result<(), RemoteError>),
    Renamed(Result<(), RemoteError>),
    Moved(Result<(), RemoteError>),
    Members(Result<Vec<u64>, RemoteError>),
    Presence(Option<Presence>),
}

impl View for Reply {
    type V = ReplyView;

    open spec fn view(&self) -> ReplyView {
        match *self {
            Reply::Channels(Ok(listing)) => ReplyView::Channels(Ok(listing_view(listing@))),
            Reply::Channels(Err(e)) => ReplyView::Channels(Err(e)),
            Reply::Created(r) => ReplyView::Created(r),
            Reply::Deleted(r) => ReplyView::Deleted(r),
            Reply::Renamed(r) => ReplyView::Renamed(r),
            Reply::Moved(r) => ReplyView::Moved(r),
            Reply::Members(Ok(members)) => ReplyView::Members(Ok(members@)),
            Reply::Members(Err(e)) => ReplyView::Members(Err(e)),
            Reply::Presence(Some(presence)) => ReplyView::Presence(Some(presence@)),
            Reply::Presence(None) => ReplyView::Presence(None),
        }
    }
}

/// What the gateway or the command surface delivers, as a mathematical value.
pub enum EventView {
    Ready,
    VoiceStateUpdate { guild_id: Option<u64>, user_id: u64, channel_id: Option<u64> },
    PresenceUpdate { guild_id: Option<u64>, user_id: u64, activities: Seq<Seq<char>> },
    AdminSetMaker { guild: u64, channel: u64 },
}

/// What the gateway or the command surface delivers.
#[derive(Clone, Debug, PartialEq, Eq)]
pub enum Event {
    /// A connection was established.
    Ready,
    /// A user joined `channel_id`, or left the channel they were in.
    VoiceStateUpdate { guild_id: Option<u64>, user_id: u64, channel_id: Option<u64> },
    /// A user's activities changed.
    PresenceUpdate { guild_id: Option<u64>, user_id: u64, presence: Presence },
    /// An administrator asks that `channel` become the maker of `guild`.
    AdminSetMaker { guild: u64, channel: u64 },
}

impl View for Event {
    type V = EventView;

    open spec fn view(&self) -> EventView {
        match *self {
            Event::Ready => EventView::Ready,
            Event::VoiceStateUpdate { guild_id, user_id, channel_id } => {
                EventView::VoiceStateUpdate { guild_id, user_id, channel_id }
            },
            Event::PresenceUpdate { guild_id, user_id, presence } => EventView::PresenceUpdate {
                guild_id,
                user_id,
                activities: presence@,
            },
            Event::AdminSetMaker { guild, channel } => EventView::AdminSetMaker { guild, channel },
        }
    }
}

} // verus!
