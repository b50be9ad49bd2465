//! The registry: for each guild, the maker channel and the session channels
//! that are believed alive.

use std::collections::HashMap;
use vstd::prelude::*;
use vstd::std_specs::hash::*;
use vstd::std_specs::iter::IteratorSpec;

verus! {

broadcast use vstd::std_specs::hash::group_hash_axioms;

/// What the registry holds for one guild, as a mathematical value.
pub struct EntryView {
    pub maker: Option<u64>,
    pub sessions: Seq<u64>,
}

/// The entry of a guild that was never mentioned.
pub open spec fn empty_entry() -> EntryView {
    EntryView { maker: None, sessions: Seq::empty() }
}

/// The entry of `guild` in `guilds`, empty where the guild has none.
pub open spec fn entry_of(guilds: Map<u64, EntryView>, guild: u64) -> EntryView {
    if guilds.contains_key(guild) {
        guilds[guild]
    } else {
        empty_entry()
    }
}

/// `sessions` with `channel` as a member: unchanged where it is one already,
/// else with `channel` at the end.
pub open spec fn with_session(sessions: Seq<u64>, channel: u64) -> Seq<u64> {
    if sessions.contains(channel) {
        sessions
    } else {
        sessions.push(channel)
    }
}

/// The test that holds of every channel but `channel`.
pub open spec fn other_than(channel: u64) -> spec_fn(u64) -> bool {
    |c: u64| c != channel
}

/// The test that holds of the channels that do not occur in `channels`.
pub open spec fn outside(channels: Seq<u64>) -> spec_fn(u64) -> bool {
    |c: u64| !channels.contains(c)
}

/// The test that holds of the channels that occur in `channels`.
pub open spec fn inside(channels: Seq<u64>) -> spec_fn(u64) -> bool {
    |c: u64| channels.contains(c)
}

/// `sessions` without any occurrence of `channel`, the others in their order.
pub open spec fn without_session(sessions: Seq<u64>, channel: u64) -> Seq<u64> {
    sessions.filter(other_than(channel))
}

/// `sessions` without any occurrence of a member of `gone`, the others in
/// their order.
pub open spec fn without_sessions(sessions: Seq<u64>, gone: Seq<u64>) -> Seq<u64> {
    sessions.filter(outside(gone))
}

/// `guilds` after `channel` became the maker of `guild`.
pub open spec fn maker_set(guilds: Map<u64, EntryView>, guild: u64, channel: u64) -> Map<
    u64,
    EntryView,
> {
    guilds.insert(guild, EntryView { maker: Some(channel), ..entry_of(guilds, guild) })
}

/// `guilds` after `channel` was recorded as a session of `guild`.
pub open spec fn session_added(guilds: Map<u64, EntryView>, guild: u64, channel: u64) -> Map<
    u64,
    EntryView,
> {
    guilds.insert(
        guild,
        EntryView {
            sessions: with_session(entry_of(guilds, guild).sessions, channel),
            ..entry_of(guilds, guild)
        },
    )
}

/// `guilds` after `channel` was taken out of the sessions of `guild`.
pub open spec fn session_dropped(guilds: Map<u64, EntryView>, guild: u64, channel: u64) -> Map<
    u64,
    EntryView,
> {
    guilds.insert(
        guild,
        EntryView {
            sessions: without_session(entry_of(guilds, guild).sessions, channel),
            ..entry_of(guilds, guild)
        },
    )
}

/// `guilds` after every member of `gone` was taken out of the sessions of
/// `guild`.
pub open spec fn sessions_dropped(
    guilds: Map<u64, EntryView>,
    guild: u64,
    gone: Seq<u64>,
) -> Map<u64, EntryView> {
    guilds.insert(
        guild,
        EntryView {
            sessions: without_sessions(entry_of(guilds, guild).sessions, gone),
            ..entry_of(guilds, guild)
        },
    )
}

/// Records as mathematical values, in their order.
pub open spec fn records_view(records: Seq<(u64, GuildEntry)>) -> Seq<(u64, EntryView)> {
    records.map_values(|r: (u64, GuildEntry)| (r.0, r.1@))
}

/// Whether `records` write `guilds` down: each guild once, with its entry,
/// and nothing else.
pub open spec fn is_export_of(records: Seq<(u64, EntryView)>, guilds: Map<u64, EntryView>) -> bool {
    &&& forall|i: int, j: int|
        0 <= i < j < records.len() ==> (#[trigger] records[i]).0 != (#[trigger] records[j]).0
    &&& forall|i: int|
        0 <= i < records.len() ==> guilds.contains_key((#[trigger] records[i]).0)
            && guilds[records[i].0] == records[i].1
    &&& forall|g: u64|
        guilds.contains_key(g) ==> exists|i: int|
            0 <= i < records.len() && (#[trigger] records[i]).0 == g
}

/// The guilds that `records` give when read in their order: a later record
/// of a guild replaces an earlier one.
pub open spec fn imported(records: Seq<(u64, EntryView)>) -> Map<u64, EntryView>
    decreases records.len(),
{
    if records.len() == 0 {
        Map::empty()
    } else {
        imported(records.drop_last()).insert(records.last().0, records.last().1)
    }
}

/// Whether one of `records` is about `guild`.
pub open spec fn names_guild(records: Seq<(u64, EntryView)>, guild: u64) -> bool {
    exists|i: int| 0 <= i < records.len() && (#[trigger] records[i]).0 == guild
}

/// Reading `records` gives an entry to the guilds that they name, and to no
/// other.
pub proof fn lemma_imported_guilds(records: Seq<(u64, EntryView)>, guild: u64)
    ensures
        imported(records).contains_key(guild) <==> names_guild(records, guild),
    decreases records.len(),
{
    if records.len() > 0 {
        let head = records.drop_last();
        lemma_imported_guilds(head, guild);
        if names_guild(head, guild) {
            let i = choose|i: int| 0 <= i < head.len() && (#[trigger] head[i]).0 == guild;
            assert(records[i].0 == guild);
        }
        if names_guild(records, guild) && records.last().0 != guild {
            let i = choose|i: int| 0 <= i < records.len() && (#[trigger] records[i]).0 == guild;
            assert(head[i].0 == guild);
        }
        if records.last().0 == guild {
            assert(records[records.len() - 1].0 == guild);
        }
    }
}

/// Reading `records` gives a guild the entry of its last record.
pub proof fn lemma_imported_entry(records: Seq<(u64, EntryView)>, i: int)
    requires
        0 <= i < records.len(),
        forall|j: int| i < j < records.len() ==> (#[trigger] records[j]).0 != records[i].0,
    ensures
        imported(records).contains_key(records[i].0),
        imported(records)[records[i].0] == records[i].1,
    decreases records.len(),
{
    let head = records.drop_last();
    if i < head.len() {
        assert(records[records.len() - 1].0 != records[i].0);
        assert(head[i] == records[i]);
        assert forall|j: int| i < j < head.len() implies (#[trigger] head[j]).0 != head[i].0 by {
            assert(head[j] == records[j]);
        }
        lemma_imported_entry(head, i);
    }
}

/// Writing a registry down and reading it back gives the registry: the same
/// guilds, each with the same maker and the same sessions.
pub proof fn export_import_round_trip(guilds: Map<u64, EntryView>, records: Seq<(u64, EntryView)>)
    requires
        is_export_of(records, guilds),
    ensures
        imported(records) == guilds,
{
    assert forall|g: u64| imported(records).contains_key(g) <==> guilds.contains_key(g) by {
        lemma_imported_guilds(records, g);
        if names_guild(records, g) {
            let i = choose|i: int| 0 <= i < records.len() && (#[trigger] records[i]).0 == g;
            assert(guilds.contains_key(records[i].0));
        }
    }
    assert forall|g: u64| guilds.contains_key(g) implies imported(records)[g] == guilds[g] by {
        let i = choose|i: int| 0 <= i < records.len() && (#[trigger] records[i]).0 == g;
        lemma_imported_entry(records, i);
    }
    assert(imported(records) =~= guilds);
}

/// The maker channel and the session channels of one guild.
#[derive(Clone, Debug, PartialEq, Eq)]
pub struct GuildEntry {
    pub maker: Option<u64>,
    pub sessions: Vec<u64>,
}

impl View for GuildEntry {
    type V = EntryView;

    open spec fn view(&self) -> EntryView {
        EntryView { maker: self.maker, sessions: self.sessions@ }
    }
}

impl GuildEntry {
    /// An entry with no maker and no session.
    pub fn empty() -> (entry: Self)
        ensures
            entry@ == empty_entry(),
    {
        GuildEntry { maker: None, sessions: Vec::new() }
    }

    /// A copy of this entry.
    pub fn snapshot(&self) -> (copy: Self)
        ensures
            copy@ == self@,
    {
        GuildEntry { maker: self.maker, sessions: copy_channels(&self.sessions) }
    }

    /// Whether `channel` is one of this entry's sessions.
    pub fn has_session(&self, channel: u64) -> (found: bool)
        ensures
            found == self@.sessions.contains(channel),
    {
        contains_channel(&self.sessions, channel)
    }
}

/// A copy of `channels`.
pub fn copy_channels(channels: &Vec<u64>) -> (copy: Vec<u64>)
    ensures
        copy@ == channels@,
{
    let mut copy: Vec<u64> = Vec::new();
    let mut i: usize = 0;
    while i < channels.len()
        invariant
            i <= channels.len(),
            copy@ == channels@.take(i as int),
        decreases channels.len() - i,
    {
        copy.push(channels[i]);
        i += 1;
        assert(copy@ =~= channels@.take(i as int));
    }
    assert(channels@.take(channels.len() as int) =~= channels@);
    copy
}

/// Whether `channel` occurs in `channels`.
pub fn contains_channel(channels: &Vec<u64>, channel: u64) -> (found: bool)
    ensures
        found == channels@.contains(channel),
{
    let mut i: usize = 0;
    while i < channels.len()
        invariant
            i <= channels.len(),
            forall|j: int| 0 <= j < i ==> channels@[j] != channel,
        decreases channels.len() - i,
    {
        if channels[i] == channel {
            return true;
        }
        i += 1;
    }
    false
}

/// `channels` without any occurrence of `channel`.
pub fn remove_channel(channels: &Vec<u64>, channel: u64) -> (kept: Vec<u64>)
    ensures
        kept@ == without_session(channels@, channel),
{
    let mut kept: Vec<u64> = Vec::new();
    let mut i: usize = 0;
    while i < channels.len()
        invariant
            i <= channels.len(),
            kept@ == without_session(channels@.take(i as int), channel),
        decreases channels.len() - i,
    {
        let c: u64 = channels[i];
        proof {
            let head = channels@.take(i as int);
            assert(channels@.take(i + 1) =~= head.push(c));
            head.lemma_filter_push(c, other_than(channel));
        }
        if c != channel {
            kept.push(c);
        }
        i += 1;
    }
    assert(channels@.take(channels.len() as int) =~= channels@);
    kept
}

/// `channels` without any occurrence of a member of `gone`.
pub fn remove_channels(channels: &Vec<u64>, gone: &Vec<u64>) -> (kept: Vec<u64>)
    ensures
        kept@ == without_sessions(channels@, gone@),
{
    let mut kept: Vec<u64> = Vec::new();
    let mut i: usize = 0;
    while i < channels.len()
        invariant
            i <= channels.len(),
            kept@ == without_sessions(channels@.take(i as int), gone@),
        decreases channels.len() - i,
    {
        let c: u64 = channels[i];
        proof {
            let head = channels@.take(i as int);
            assert(channels@.take(i + 1) =~= head.push(c));
            head.lemma_filter_push(c, outside(gone@));
        }
        if !contains_channel(gone, c) {
            kept.push(c);
        }
        i += 1;
    }
    assert(channels@.take(channels.len() as int) =~= channels@);
    kept
}

/// The guilds that were mentioned, each with its entry, and whether anything
/// changed since the last flush.
pub struct Registry {
    guilds: HashMap<u64, GuildEntry>,
    dirty: bool,
}

impl View for Registry {
    type V = Map<u64, EntryView>;

    closed spec fn view(&self) -> Map<u64, EntryView> {
        self.guilds@.map_values(|e: GuildEntry| e@)
    }
}

impl Registry {
    /// Whether a change waits to be flushed.
    pub closed spec fn is_dirty(&self) -> bool {
        self.dirty
    }

    /// A registry without guilds and with nothing to flush.
    pub fn new() -> (registry: Self)
        ensures
            registry@ == Map::<u64, EntryView>::empty(),
            !registry.is_dirty(),
    {
        let registry = Registry { guilds: HashMap::new(), dirty: false };
        assert(registry@ =~= Map::<u64, EntryView>::empty());
        registry
    }

    /// A copy of the entry of `guild`; the empty entry where it has none.
    pub fn get(&self, guild: u64) -> (entry: GuildEntry)
        ensures
            entry@ == entry_of(self@, guild),
    {
        match self.guilds.get(&guild) {
            Some(e) => e.snapshot(),
            None => GuildEntry::empty(),
        }
    }

    /// Whether `guild` has an entry.
    pub fn has_guild(&self, guild: u64) -> (found: bool)
        ensures
            found == self@.contains_key(guild),
    {
        self.guilds.contains_key(&guild)
    }

    /// Puts `entry` in the place of what `guild` had, and notes the change.
    fn put(&mut self, guild: u64, entry: GuildEntry)
        ensures
            final(self)@ == old(self)@.insert(guild, entry@),
            final(self).is_dirty(),
    {
        self.guilds.insert(guild, entry);
        self.dirty = true;
        assert(self@ =~= old(self)@.insert(guild, entry@));
    }

    /// Lets `change` work on the entry of `guild`, which is created empty
    /// where the guild had none, puts what `change` hands back in its place
    /// and notes the change. The second part of what `change` returns is
    /// handed on.
    pub fn with_mut<R, F: FnOnce(GuildEntry) -> (GuildEntry, R)>(
        &mut self,
        guild: u64,
        change: F,
    ) -> (out: R)
        requires
            forall|entry: GuildEntry|
                entry@ == entry_of(old(self)@, guild) ==> change.requires((entry,)),
        ensures
            exists|before: GuildEntry, after: GuildEntry|
                before@ == entry_of(old(self)@, guild) && change.ensures((before,), (after, out))
                    && final(self)@ == old(self)@.insert(guild, after@),
            final(self).is_dirty(),
    {
        let before = self.get(guild);
        let (after, out) = change(before);
        self.put(guild, after);
        out
    }

    /// Makes `channel` the maker of `guild`, whose entry is created where it
    /// had none. The sessions stay as they are.
    pub fn set_maker(&mut self, guild: u64, channel: u64)
        ensures
            final(self)@ == maker_set(old(self)@, guild, channel),
            final(self).is_dirty(),
    {
        let mut entry = self.get(guild);
        entry.maker = Some(channel);
        self.put(guild, entry);
    }

    /// Records `channel` as a session of `guild`, whose entry is created where
    /// it had none. The maker stays as it is.
    pub fn insert_session(&mut self, guild: u64, channel: u64)
        ensures
            final(self)@ == session_added(old(self)@, guild, channel),
            final(self).is_dirty(),
    {
        let mut entry = self.get(guild);
        if !entry.has_session(channel) {
            entry.sessions.push(channel);
        }
        self.put(guild, entry);
    }

    /// Takes `channel` out of the sessions of `guild`, whose entry is created
    /// where it had none. The maker stays as it is.
    pub fn remove_session(&mut self, guild: u64, channel: u64)
        ensures
            final(self)@ == session_dropped(old(self)@, guild, channel),
            final(self).is_dirty(),
    {
        let entry = self.get(guild);
        let kept = remove_channel(&entry.sessions, channel);
        self.put(guild, GuildEntry { maker: entry.maker, sessions: kept });
    }

    /// Takes every member of `gone` out of the sessions of `guild`, whose
    /// entry is created where it had none. The maker stays as it is.
    pub fn remove_sessions(&mut self, guild: u64, gone: &Vec<u64>)
        ensures
            final(self)@ == sessions_dropped(old(self)@, guild, gone@),
            final(self).is_dirty(),
    {
        let entry = self.get(guild);
        let kept = remove_channels(&entry.sessions, gone);
        self.put(guild, GuildEntry { maker: entry.maker, sessions: kept });
    }

    /// The maker channel of `guild`, if it has one.
    pub fn maker(&self, guild: u64) -> (maker: Option<u64>)
        ensures
            maker == entry_of(self@, guild).maker,
    {
        match self.guilds.get(&guild) {
            Some(e) => e.maker,
            None => None,
        }
    }

    /// A copy of the session channels of `guild`, in the order recorded.
    pub fn sessions(&self, guild: u64) -> (sessions: Vec<u64>)
        ensures
            sessions@ == entry_of(self@, guild).sessions,
    {
        match self.guilds.get(&guild) {
            Some(e) => copy_channels(&e.sessions),
            None => Vec::new(),
        }
    }

    /// The guilds that have an entry, each once, in no particular order.
    pub fn all_guilds(&self) -> (guilds: Vec<u64>)
        ensures
            guilds@.no_duplicates(),
            guilds@.to_set() == self@.dom(),
    {
        let mut guilds: Vec<u64> = Vec::new();
        for k in it: self.guilds.keys()
            invariant
                guilds@ == it.seq().unref().take(it.index()),
                it.seq() == spec_keys_iter(&self.guilds).remaining(),
        {
            guilds.push(*k);
            assert(guilds@ =~= it.seq().unref().take(it.index() + 1));
        }
        proof {
            let keys = spec_keys_iter(&self.guilds).remaining();
            assert(guilds@ =~= keys.unref());
            assert(self@.dom() =~= self.guilds@.dom());
            assert forall|i: int, j: int|
                0 <= i < guilds@.len() && 0 <= j < guilds@.len() && i != j implies guilds@[i]
                != guilds@[j] by {
                assert(keys[i] != keys[j]);
            }
        }
        guilds
    }

    /// Every guild with a copy of its entry, each guild once, in no
    /// particular order: what is written when the registry is flushed.
    pub fn export(&self) -> (records: Vec<(u64, GuildEntry)>)
        ensures
            is_export_of(records_view(records@), self@),
    {
        let guilds = self.all_guilds();
        let mut records: Vec<(u64, GuildEntry)> = Vec::new();
        let mut i: usize = 0;
        while i < guilds.len()
            invariant
                i <= guilds.len(),
                guilds@.no_duplicates(),
                guilds@.to_set() == self@.dom(),
                records@.len() == i,
                forall|j: int|
                    0 <= j < i ==> (#[trigger] records@[j]).0 == guilds@[j] && records@[j].1@
                        == self@[guilds@[j]],
            decreases guilds.len() - i,
        {
            let guild: u64 = guilds[i];
            assert(guilds@.to_set().contains(guild));
            records.push((guild, self.get(guild)));
            i += 1;
        }
        proof {
            let views = records_view(records@);
            assert forall|g: u64| self@.contains_key(g) implies exists|j: int|
                0 <= j < views.len() && (#[trigger] views[j]).0 == g by {
                assert(guilds@.to_set().contains(g));
                let j = choose|j: int| 0 <= j < guilds@.len() && guilds@[j] == g;
                assert(views[j].0 == g);
            }
            assert forall|j: int| 0 <= j < views.len() implies self@.contains_key(
                (#[trigger] views[j]).0,
            ) && self@[views[j].0] == views[j].1 by {
                assert(guilds@.to_set().contains(guilds@[j]));
            }
        }
        records
    }

    /// The registry that holds what `records` say, with nothing to flush.
    /// Where a guild is named more than once, its last record counts.
    pub fn import(records: &Vec<(u64, GuildEntry)>) -> (registry: Self)
        ensures
            registry@ == imported(records_view(records@)),
            !registry.is_dirty(),
    {
        let mut registry = Registry::new();
        let mut i: usize = 0;
        let ghost views = records_view(records@);
        while i < records.len()
            invariant
                i <= records.len(),
                views == records_view(records@),
                registry@ == imported(views.take(i as int)),
            decreases records.len() - i,
        {
            let guild: u64 = records[i].0;
            let entry = records[i].1.snapshot();
            proof {
                assert(views.take(i + 1).drop_last() =~= views.take(i as int));
            }
            registry.put(guild, entry);
            i += 1;
        }
        assert(views.take(records.len() as int) =~= views);
        registry.dirty = false;
        registry
    }

    /// Notes that a change waits to be flushed.
    pub fn mark_dirty(&mut self)
        ensures
            final(self)@ == old(self)@,
            final(self).is_dirty(),
    {
        self.dirty = true;
    }

    /// Whether a change waits to be flushed.
    pub fn has_changes(&self) -> (waiting: bool)
        ensures
            waiting == self.is_dirty(),
    {
        self.dirty
    }

    /// Whether a change waited to be flushed; none does afterwards.
    pub fn take_dirty(&mut self) -> (was: bool)
        ensures
            was == old(self).is_dirty(),
            final(self)@ == old(self)@,
            !final(self).is_dirty(),
    {
        let was = self.dirty;
        self.dirty = false;
        was
    }
}

} // verus!
