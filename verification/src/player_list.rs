//! The player list (the tab list): its entries, what changed since the last
//! update, and its header and footer.

use std::collections::{HashMap, HashSet};

use vstd::prelude::*;

use vstd::std_specs::iter::IteratorSpec;

use crate::ident::str_eq;
use crate::key::Key;
use crate::player_textures::{textures_eq, textures_view, SignedPlayerTextures};

verus! {

broadcast use vstd::std_specs::hash::group_hash_axioms;

/// The game mode of a player.
#[derive(Clone, Copy, PartialEq, Eq, Hash, Debug, Structural)]
pub enum GameMode {
    Survival,
    Creative,
    Adventure,
    Spectator,
}

/// An identifier for a player list on the server.
#[derive(Clone, Copy, PartialEq, Eq, PartialOrd, Ord, Hash, Debug, Structural)]
pub struct PlayerListId(pub Key);

/// Which parts of an entry changed since the last update was sent.
#[derive(Clone, Copy, PartialEq, Eq, Debug, Structural)]
pub struct EntryBits {
    pub created_this_tick: bool,
    pub modified_game_mode: bool,
    pub modified_ping: bool,
    pub modified_display_name: bool,
}

/// A player entry in the player list.
pub struct PlayerListEntry {
    username: String,
    textures: Option<SignedPlayerTextures>,
    game_mode: GameMode,
    ping: i32,
    display_name: Option<String>,
    bits: EntryBits,
}

impl PlayerListEntry {
    pub closed spec fn spec_username(&self) -> Seq<char> {
        self.username@
    }

    pub closed spec fn spec_textures(&self) -> Option<SignedPlayerTextures> {
        self.textures
    }

    pub closed spec fn spec_game_mode(&self) -> GameMode {
        self.game_mode
    }

    pub closed spec fn spec_ping(&self) -> i32 {
        self.ping
    }

    pub closed spec fn spec_display_name(&self) -> Option<Seq<char>> {
        match self.display_name {
            Some(d) => Some(d@),
            None => None,
        }
    }

    pub closed spec fn spec_bits(&self) -> EntryBits {
        self.bits
    }

    /// A new entry, marked as created this tick.
    pub fn new(
        username: String,
        textures: Option<SignedPlayerTextures>,
        game_mode: GameMode,
        ping: i32,
        display_name: Option<String>,
    ) -> (e: Self)
        ensures
            e.spec_username() == username@,
            e.spec_textures() == textures,
            e.spec_game_mode() == game_mode,
            e.spec_ping() == ping,
            e.spec_display_name() == (match display_name {
                Some(d) => Some(d@),
                None => None::<Seq<char>>,
            }),
            e.spec_bits() == (EntryBits {
                created_this_tick: true,
                modified_game_mode: false,
                modified_ping: false,
                modified_display_name: false,
            }),
    {
        PlayerListEntry {
            username,
            textures,
            game_mode,
            ping,
            display_name,
            bits: EntryBits {
                created_this_tick: true,
                modified_game_mode: false,
                modified_ping: false,
                modified_display_name: false,
            },
        }
    }

    /// Gets the username of this entry.
    pub fn username(&self) -> (u: &str)
        ensures
            u@ == self.spec_username(),
    {
        self.username.as_str()
    }

    /// Gets the player textures for this entry.
    pub fn textures(&self) -> (t: Option<&SignedPlayerTextures>)
        ensures
            match self.spec_textures() {
                Some(x) => t == Some(&x),
                None => t is None,
            },
    {
        match &self.textures {
            Some(t) => Some(t),
            None => None,
        }
    }

    /// Gets the game mode of this entry.
    pub fn game_mode(&self) -> (g: GameMode)
        ensures
            g == self.spec_game_mode(),
    {
        self.game_mode
    }

    /// Sets the game mode of this entry; a change is recorded for the next
    /// update.
    pub fn set_game_mode(&mut self, game_mode: GameMode)
        ensures
            final(self).spec_game_mode() == game_mode,
            final(self).spec_bits() == (if old(self).spec_game_mode() != game_mode {
                EntryBits { modified_game_mode: true, ..old(self).spec_bits() }
            } else {
                old(self).spec_bits()
            }),
            final(self).spec_username() == old(self).spec_username(),
            final(self).spec_textures() == old(self).spec_textures(),
            final(self).spec_ping() == old(self).spec_ping(),
            final(self).spec_display_name() == old(self).spec_display_name(),
    {
        if self.game_mode != game_mode {
            self.game_mode = game_mode;
            self.bits.modified_game_mode = true;
        }
    }

    /// Gets the ping (latency) of this entry measured in milliseconds.
    pub fn ping(&self) -> (p: i32)
        ensures
            p == self.spec_ping(),
    {
        self.ping
    }

    /// Sets the ping of this entry; a change is recorded for the next update.
    pub fn set_ping(&mut self, ping: i32)
        ensures
            final(self).spec_ping() == ping,
            final(self).spec_bits() == (if old(self).spec_ping() != ping {
                EntryBits { modified_ping: true, ..old(self).spec_bits() }
            } else {
                old(self).spec_bits()
            }),
            final(self).spec_username() == old(self).spec_username(),
            final(self).spec_textures() == old(self).spec_textures(),
            final(self).spec_game_mode() == old(self).spec_game_mode(),
            final(self).spec_display_name() == old(self).spec_display_name(),
    {
        if self.ping != ping {
            self.ping = ping;
            self.bits.modified_ping = true;
        }
    }

    /// Gets the display name of this entry.
    pub fn display_name(&self) -> (d: Option<&str>)
        ensures
            match self.spec_display_name() {
                Some(n) => d matches Some(s) && s@ == n,
                None => d is None,
            },
    {
        match &self.display_name {
            Some(d) => Some(d.as_str()),
            None => None,
        }
    }

    /// Sets the display name of this entry; a change is recorded for the
    /// next update.
    pub fn set_display_name(&mut self, display_name: Option<String>)
        ensures
            final(self).spec_display_name() == (match display_name {
                Some(d) => Some(d@),
                None => None::<Seq<char>>,
            }),
            final(self).spec_bits() == (if old(self).spec_display_name() != final(self).spec_display_name() {
                EntryBits { modified_display_name: true, ..old(self).spec_bits() }
            } else {
                old(self).spec_bits()
            }),
            final(self).spec_username() == old(self).spec_username(),
            final(self).spec_textures() == old(self).spec_textures(),
            final(self).spec_game_mode() == old(self).spec_game_mode(),
            final(self).spec_ping() == old(self).spec_ping(),
    {
        let same = match (&self.display_name, &display_name) {
            (None, None) => true,
            (Some(a), Some(b)) => crate::ident::str_eq(a.as_str(), b.as_str()),
            _ => false,
        };
        if !same {
            self.display_name = display_name;
            self.bits.modified_display_name = true;
        }
    }

    /// Forgets the recorded changes once an update has been sent.
    pub fn clear_bits(&mut self)
        ensures
            final(self).spec_bits() == (EntryBits {
                created_this_tick: false,
                modified_game_mode: false,
                modified_ping: false,
                modified_display_name: false,
            }),
            final(self).spec_username() == old(self).spec_username(),
            final(self).spec_textures() == old(self).spec_textures(),
            final(self).spec_game_mode() == old(self).spec_game_mode(),
            final(self).spec_ping() == old(self).spec_ping(),
            final(self).spec_display_name() == old(self).spec_display_name(),
    {
        self.bits = EntryBits {
            created_this_tick: false,
            modified_game_mode: false,
            modified_ping: false,
            modified_display_name: false,
        };
    }
}

/// The bits of an entry once `game_mode`, `ping` and `display_name` were
/// set on it: each part that changed is recorded as modified.
pub open spec fn bits_after_update(
    e: PlayerListEntry,
    game_mode: GameMode,
    ping: i32,
    display_name: Option<Seq<char>>,
) -> EntryBits {
    EntryBits {
        created_this_tick: e.spec_bits().created_this_tick,
        modified_game_mode: e.spec_bits().modified_game_mode || e.spec_game_mode() != game_mode,
        modified_ping: e.spec_bits().modified_ping || e.spec_ping() != ping,
        modified_display_name: e.spec_bits().modified_display_name || e.spec_display_name()
            != display_name,
    }
}

/// An optional string as an optional sequence of characters.
pub open spec fn opt_str(s: Option<String>) -> Option<Seq<char>> {
    match s {
        Some(d) => Some(d@),
        None => None,
    }
}

/// The entries created since the last update.
pub open spec fn created_uuids(m: Map<u128, PlayerListEntry>) -> Set<u128> {
    m.dom().filter(|u: u128| m[u].spec_bits().created_this_tick)
}

/// The game modes changed since the last update, of entries not created
/// since.
pub open spec fn game_mode_changes(m: Map<u128, PlayerListEntry>) -> Set<(u128, GameMode)> {
    Set::new(
        |p: (u128, GameMode)|
            m.contains_key(p.0) && !m[p.0].spec_bits().created_this_tick
                && m[p.0].spec_bits().modified_game_mode && p.1 == m[p.0].spec_game_mode(),
    )
}

/// The pings changed since the last update, of entries not created since.
pub open spec fn ping_changes(m: Map<u128, PlayerListEntry>) -> Set<(u128, i32)> {
    Set::new(
        |p: (u128, i32)|
            m.contains_key(p.0) && !m[p.0].spec_bits().created_this_tick
                && m[p.0].spec_bits().modified_ping && p.1 == m[p.0].spec_ping(),
    )
}

/// The entries whose display name changed since the last update and that
/// were not created since.
pub open spec fn display_name_changes(m: Map<u128, PlayerListEntry>) -> Set<u128> {
    m.dom().filter(
        |u: u128| !m[u].spec_bits().created_this_tick && m[u].spec_bits().modified_display_name,
    )
}

/// What a player list tells its viewers at the end of a tick. Each list is
/// in no particular order, and names each entry at most once.
pub struct PlayerListUpdate {
    /// The entries removed.
    pub removed: Vec<u128>,
    /// The entries created, to be sent whole.
    pub added: Vec<u128>,
    /// The new game modes.
    pub game_mode: Vec<(u128, GameMode)>,
    /// The new pings.
    pub ping: Vec<(u128, i32)>,
    /// The entries whose display name changed.
    pub display_name: Vec<u128>,
    /// Whether the header or the footer changed.
    pub header_and_footer: bool,
}

/// The list of players that clients see when they press the tab key: an
/// entry for each player, by UUID, with a header and a footer above and
/// below.
pub struct PlayerList {
    entries: HashMap<u128, PlayerListEntry>,
    removed: HashSet<u128>,
    header: String,
    footer: String,
    modified_header_or_footer: bool,
}

impl PlayerList {
    pub closed spec fn spec_entries(&self) -> Map<u128, PlayerListEntry> {
        self.entries@
    }

    /// The entries removed since the last update.
    pub closed spec fn spec_removed(&self) -> Set<u128> {
        self.removed@
    }

    pub closed spec fn spec_header(&self) -> Seq<char> {
        self.header@
    }

    pub closed spec fn spec_footer(&self) -> Seq<char> {
        self.footer@
    }

    pub closed spec fn spec_modified_header_or_footer(&self) -> bool {
        self.modified_header_or_footer
    }

    /// An empty list with an empty header and footer.
    pub fn new() -> (l: Self)
        ensures
            l.spec_entries() == Map::<u128, PlayerListEntry>::empty(),
            l.spec_removed() == Set::<u128>::empty(),
            l.spec_header() == Seq::<char>::empty(),
            l.spec_footer() == Seq::<char>::empty(),
            !l.spec_modified_header_or_footer(),
    {
        PlayerList {
            entries: HashMap::new(),
            removed: HashSet::new(),
            header: String::new(),
            footer: String::new(),
            modified_header_or_footer: false,
        }
    }

    /// Inserts a player into the list. An entry of another player with the
    /// same UUID (another username or other textures) is replaced, and
    /// clients are told to remove the old one; an entry of the same player
    /// is updated, recording what changed. Returns whether there was no
    /// entry with this UUID.
    pub fn insert(
        &mut self,
        uuid: u128,
        username: String,
        textures: Option<SignedPlayerTextures>,
        game_mode: GameMode,
        ping: i32,
        display_name: Option<String>,
    ) -> (fresh: bool)
        ensures
            fresh == !old(self).spec_entries().contains_key(uuid),
            final(self).spec_entries().dom() == old(self).spec_entries().dom().insert(uuid),
            forall|u: u128|
                u != uuid && #[trigger] old(self).spec_entries().contains_key(u) ==> final(self).spec_entries()[u] == old(self).spec_entries()[u],
            ({
                let e = final(self).spec_entries()[uuid];
                let same_player = old(self).spec_entries().contains_key(uuid) && old(self).spec_entries()[uuid].spec_username() == username@ && textures_view(
                    old(self).spec_entries()[uuid].spec_textures(),
                ) == textures_view(textures);
                &&& e.spec_game_mode() == game_mode
                &&& e.spec_ping() == ping
                &&& e.spec_display_name() == opt_str(display_name)
                &&& e.spec_username() == username@
                &&& if same_player {
                    let o = old(self).spec_entries()[uuid];
                    &&& e.spec_textures() == o.spec_textures()
                    &&& e.spec_bits() == bits_after_update(o, game_mode, ping, opt_str(display_name))
                    &&& final(self).spec_removed() == old(self).spec_removed()
                } else {
                    &&& e.spec_textures() == textures
                    &&& e.spec_bits() == (EntryBits {
                        created_this_tick: true,
                        modified_game_mode: false,
                        modified_ping: false,
                        modified_display_name: false,
                    })
                    &&& final(self).spec_removed() == if old(self).spec_entries().contains_key(
                        uuid,
                    ) {
                        old(self).spec_removed().insert(uuid)
                    } else {
                        old(self).spec_removed()
                    }
                }
            }),
            final(self).spec_header() == old(self).spec_header(),
            final(self).spec_footer() == old(self).spec_footer(),
            final(self).spec_modified_header_or_footer() == old(self).spec_modified_header_or_footer(),
    {
        match self.entries.remove(&uuid) {
            Some(mut e) => {
                if !str_eq(e.username.as_str(), username.as_str()) || !textures_eq(
                    &e.textures,
                    &textures,
                ) {
                    self.removed.insert(uuid);
                    let n = PlayerListEntry::new(username, textures, game_mode, ping, display_name);
                    self.entries.insert(uuid, n);
                } else {
                    e.set_game_mode(game_mode);
                    e.set_ping(ping);
                    e.set_display_name(display_name);
                    self.entries.insert(uuid, e);
                }
                false
            },
            None => {
                let n = PlayerListEntry::new(username, textures, game_mode, ping, display_name);
                self.entries.insert(uuid, n);
                true
            },
        }
    }

    /// Removes the entry with this UUID; clients are told to remove it.
    /// Returns whether there was one.
    pub fn remove(&mut self, uuid: u128) -> (present: bool)
        ensures
            present == old(self).spec_entries().contains_key(uuid),
            final(self).spec_entries() == old(self).spec_entries().remove(uuid),
            final(self).spec_removed() == if present {
                old(self).spec_removed().insert(uuid)
            } else {
                old(self).spec_removed()
            },
            final(self).spec_header() == old(self).spec_header(),
            final(self).spec_footer() == old(self).spec_footer(),
            final(self).spec_modified_header_or_footer() == old(self).spec_modified_header_or_footer(),
    {
        match self.entries.remove(&uuid) {
            Some(_) => {
                self.removed.insert(uuid);
                true
            },
            None => false,
        }
    }

    /// The entry with this UUID, if any.
    pub fn entry(&self, uuid: u128) -> (e: Option<&PlayerListEntry>)
        ensures
            match e {
                Some(e) => self.spec_entries().contains_key(uuid) && *e == self.spec_entries()[uuid],
                None => !self.spec_entries().contains_key(uuid),
            },
    {
        self.entries.get(&uuid)
    }

    /// The UUIDs of all entries, in no particular order.
    pub fn uuids(&self) -> (v: Vec<u128>)
        ensures
            v@.no_duplicates(),
            v@.to_set() == self.spec_entries().dom(),
    {
        let mut keys: Vec<u128> = Vec::new();
        let ghost ks = self.entries.keys().remaining();
        for k in it: self.entries.keys()
            invariant
                it.seq() == ks,
                keys@.len() == it.index(),
                forall|i: int| 0 <= i < it.index() ==> keys@[i] == *ks[i],
        {
            keys.push(*k);
        }
        proof {
            assert(keys@ =~= ks.unref());
        }
        keys
    }

    /// Removes every entry; clients are told to remove them all.
    pub fn clear(&mut self)
        ensures
            final(self).spec_entries() == Map::<u128, PlayerListEntry>::empty(),
            final(self).spec_removed() == old(self).spec_removed().union(
                old(self).spec_entries().dom(),
            ),
            final(self).spec_header() == old(self).spec_header(),
            final(self).spec_footer() == old(self).spec_footer(),
            final(self).spec_modified_header_or_footer() == old(self).spec_modified_header_or_footer(),
    {
        let keys = self.uuids();
        let ghost r0 = self.removed@;
        let mut i: usize = 0;
        while i < keys.len()
            invariant
                0 <= i <= keys@.len(),
                forall|u: u128|
                    #[trigger] self.removed@.contains(u) <==> r0.contains(u) || keys@.take(
                        i as int,
                    ).contains(u),
                self.entries == old(self).entries,
                self.header == old(self).header,
                self.footer == old(self).footer,
                self.modified_header_or_footer == old(self).modified_header_or_footer,
            decreases keys@.len() - i,
        {
            let ghost prev = keys@.take(i as int);
            let ghost rb = self.removed@;
            self.removed.insert(keys[i]);
            proof {
                let nxt = keys@.take(i + 1);
                assert(nxt =~= prev.push(keys@[i as int]));
                assert(self.removed@ == rb.insert(keys@[i as int]));
                assert forall|u: u128| #[trigger] self.removed@.contains(u) <==> r0.contains(u)
                    || nxt.contains(u) by {
                    assert(rb.contains(u) <==> r0.contains(u) || prev.contains(u));
                    if prev.contains(u) {
                        let j = choose|j: int| 0 <= j < prev.len() && prev[j] == u;
                        assert(nxt[j] == u);
                        assert(nxt.contains(u));
                    }
                    if u == keys@[i as int] {
                        assert(nxt[i as int] == u);
                        assert(nxt.contains(u));
                    }
                    if nxt.contains(u) && u != keys@[i as int] {
                        let j = choose|j: int| 0 <= j < nxt.len() && nxt[j] == u;
                        assert(prev[j] == u);
                    }
                }
            }
            i = i + 1;
        }
        proof {
            assert(keys@.take(keys@.len() as int) =~= keys@);
            assert forall|u: u128| #[trigger] self.removed@.contains(u) <==> r0.union(
                self.entries@.dom(),
            ).contains(u) by {
                if self.entries@.dom().contains(u) {
                    assert(keys@.to_set().contains(u));
                }
            }
            assert(self.removed@ =~= r0.union(self.entries@.dom()));
        }
        self.entries.clear();
    }

    /// Removes the entries for which `f` does not hold; clients are told to
    /// remove them. `f` is asked once for each entry.
    pub fn retain(&mut self, f: impl Fn(u128, &PlayerListEntry) -> bool)
        requires
            forall|u: u128, e: &PlayerListEntry| f.requires((u, e)),
        ensures
            forall|u: u128|
                #[trigger] final(self).spec_entries().contains_key(u) ==> old(self).spec_entries().contains_key(u) && final(self).spec_entries()[u] == old(self).spec_entries()[u] && f.ensures((u, &old(self).spec_entries()[u]), true),
            forall|u: u128|
                #[trigger] old(self).spec_entries().contains_key(u) && !final(self).spec_entries().contains_key(u) ==> f.ensures(
                    (u, &old(self).spec_entries()[u]),
                    false,
                ) && final(self).spec_removed().contains(u),
            forall|u: u128|
                #[trigger] final(self).spec_removed().contains(u) ==> old(self).spec_removed().contains(
                    u,
                ) || (old(self).spec_entries().contains_key(u) && !final(self).spec_entries().contains_key(u)),
            old(self).spec_removed().subset_of(final(self).spec_removed()),
            final(self).spec_header() == old(self).spec_header(),
            final(self).spec_footer() == old(self).spec_footer(),
            final(self).spec_modified_header_or_footer() == old(self).spec_modified_header_or_footer(),
    {
        let keys = self.uuids();
        let ghost orig = self.entries@;
        let ghost r0 = self.removed@;
        let mut i: usize = 0;
        while i < keys.len()
            invariant
                0 <= i <= keys@.len(),
                keys@.no_duplicates(),
                keys@.to_set() == orig.dom(),
                orig == old(self).entries@,
                r0 == old(self).removed@,
                forall|x: u128, e: &PlayerListEntry| f.requires((x, e)),
                forall|u: u128|
                    #[trigger] self.entries@.contains_key(u) ==> orig.contains_key(u)
                        && self.entries@[u] == orig[u],
                forall|u: u128|
                    #[trigger] orig.contains_key(u) && !keys@.take(i as int).contains(u)
                        ==> self.entries@.contains_key(u),
                forall|u: u128|
                    #[trigger] orig.contains_key(u) && keys@.take(i as int).contains(u)
                        && self.entries@.contains_key(u) ==> f.ensures((u, &orig[u]), true),
                forall|u: u128|
                    #[trigger] orig.contains_key(u) && !self.entries@.contains_key(u) ==> f.ensures(
                        (u, &orig[u]),
                        false,
                    ) && self.removed@.contains(u),
                forall|u: u128|
                    #[trigger] self.removed@.contains(u) ==> r0.contains(u) || (orig.contains_key(u)
                        && !self.entries@.contains_key(u)),
                r0.subset_of(self.removed@),
                self.header == old(self).header,
                self.footer == old(self).footer,
                self.modified_header_or_footer == old(self).modified_header_or_footer,
            decreases keys@.len() - i,
        {
            let k = keys[i];
            proof {
                assert(orig.contains_key(k)) by {
                    assert(keys@.to_set().contains(k));
                }
                assert(!keys@.take(i as int).contains(k)) by {
                    if keys@.take(i as int).contains(k) {
                        let j = choose|j: int| 0 <= j < i && keys@.take(i as int)[j] == k;
                        assert(keys@[j] == keys@[i as int]);
                    }
                }
                assert(keys@.take(i + 1) =~= keys@.take(i as int).push(k));
            }
            let keep = match self.entries.get(&k) {
                Some(e) => f(k, e),
                None => true,
            };
            let ghost before = self.entries@;
            if !keep {
                self.entries.remove(&k);
                self.removed.insert(k);
            }
            proof {
                let prev = keys@.take(i as int);
                let nxt = keys@.take(i + 1);
                assert forall|u: u128|
                    #[trigger] orig.contains_key(u) && !nxt.contains(u)
                        implies self.entries@.contains_key(u) by {
                    assert(nxt[i as int] == k);
                    if prev.contains(u) {
                        let j = choose|j: int| 0 <= j < prev.len() && prev[j] == u;
                        assert(nxt[j] == u);
                    }
                    assert(before.contains_key(u));
                }
                assert forall|u: u128|
                    #[trigger] orig.contains_key(u) && nxt.contains(u)
                        && self.entries@.contains_key(u) implies f.ensures((u, &orig[u]), true) by {
                    if u != k {
                        let j = choose|j: int| 0 <= j < nxt.len() && nxt[j] == u;
                        assert(j != i);
                        assert(prev[j] == u);
                    }
                }
            }
            i = i + 1;
        }
        proof {
            assert(keys@.take(keys@.len() as int) =~= keys@);
            assert forall|u: u128| #[trigger] self.entries@.contains_key(u) implies f.ensures(
                (u, &orig[u]),
                true,
            ) by {
                assert(keys@.to_set().contains(u));
            }
        }
    }

    /// Gets the header part of the player list.
    pub fn header(&self) -> (h: &str)
        ensures
            h@ == self.spec_header(),
    {
        self.header.as_str()
    }

    /// Sets the header part of the player list; a change is recorded for
    /// the next update.
    pub fn set_header(&mut self, header: String)
        ensures
            final(self).spec_header() == header@,
            final(self).spec_modified_header_or_footer() == (old(self).spec_modified_header_or_footer() || old(self).spec_header() != header@),
            final(self).spec_footer() == old(self).spec_footer(),
            final(self).spec_entries() == old(self).spec_entries(),
            final(self).spec_removed() == old(self).spec_removed(),
    {
        if !str_eq(self.header.as_str(), header.as_str()) {
            self.header = header;
            self.modified_header_or_footer = true;
        }
    }

    /// Gets the footer part of the player list.
    pub fn footer(&self) -> (f: &str)
        ensures
            f@ == self.spec_footer(),
    {
        self.footer.as_str()
    }

    /// Sets the footer part of the player list; a change is recorded for
    /// the next update.
    pub fn set_footer(&mut self, footer: String)
        ensures
            final(self).spec_footer() == footer@,
            final(self).spec_modified_header_or_footer() == (old(self).spec_modified_header_or_footer() || old(self).spec_footer() != footer@),
            final(self).spec_header() == old(self).spec_header(),
            final(self).spec_entries() == old(self).spec_entries(),
            final(self).spec_removed() == old(self).spec_removed(),
    {
        if !str_eq(self.footer.as_str(), footer.as_str()) {
            self.footer = footer;
            self.modified_header_or_footer = true;
        }
    }

    /// What clients viewing this list are told at the end of a tick: the
    /// entries removed, the entries created, and the game modes, pings and
    /// display names changed in the others, since the last update; and
    /// whether the header or the footer changed.
    pub fn update_packets(&self) -> (u: PlayerListUpdate)
        ensures
            u.removed@.no_duplicates(),
            u.removed@.to_set() == self.spec_removed(),
            u.added@.no_duplicates(),
            u.added@.to_set() == created_uuids(self.spec_entries()),
            u.game_mode@.no_duplicates(),
            u.game_mode@.to_set() == game_mode_changes(self.spec_entries()),
            u.ping@.no_duplicates(),
            u.ping@.to_set() == ping_changes(self.spec_entries()),
            u.display_name@.no_duplicates(),
            u.display_name@.to_set() == display_name_changes(self.spec_entries()),
            u.header_and_footer == self.spec_modified_header_or_footer(),
    {
        let mut removed: Vec<u128> = Vec::new();
        let ghost rs = self.removed.iter().remaining();
        for k in it: self.removed.iter()
            invariant
                it.seq() == rs,
                removed@.len() == it.index(),
                forall|i: int| 0 <= i < it.index() ==> removed@[i] == *rs[i],
        {
            removed.push(*k);
        }
        proof {
            assert(removed@ =~= rs.unref());
        }
        let keys = self.uuids();
        let ghost m = self.entries@;
        let mut added: Vec<u128> = Vec::new();
        let mut game_mode: Vec<(u128, GameMode)> = Vec::new();
        let mut ping: Vec<(u128, i32)> = Vec::new();
        let mut display_name: Vec<u128> = Vec::new();
        let mut i: usize = 0;
        while i < keys.len()
            invariant
                0 <= i <= keys@.len(),
                keys@.no_duplicates(),
                keys@.to_set() == m.dom(),
                m == self.entries@,
                added@.no_duplicates(),
                game_mode@.no_duplicates(),
                ping@.no_duplicates(),
                display_name@.no_duplicates(),
                forall|u: u128|
                    #[trigger] added@.contains(u) <==> keys@.take(i as int).contains(u)
                        && m[u].spec_bits().created_this_tick,
                forall|p: (u128, GameMode)|
                    #[trigger] game_mode@.contains(p) <==> keys@.take(i as int).contains(p.0)
                        && !m[p.0].spec_bits().created_this_tick
                        && m[p.0].spec_bits().modified_game_mode && p.1 == m[p.0].spec_game_mode(),
                forall|p: (u128, i32)|
                    #[trigger] ping@.contains(p) <==> keys@.take(i as int).contains(p.0)
                        && !m[p.0].spec_bits().created_this_tick && m[p.0].spec_bits().modified_ping
                        && p.1 == m[p.0].spec_ping(),
                forall|u: u128|
                    #[trigger] display_name@.contains(u) <==> keys@.take(i as int).contains(u)
                        && !m[u].spec_bits().created_this_tick
                        && m[u].spec_bits().modified_display_name,
            decreases keys@.len() - i,
        {
            let k = keys[i];
            let ghost prev = keys@.take(i as int);
            let ghost nxt = keys@.take(i + 1);
            proof {
                assert(nxt =~= prev.push(k));
                assert(m.contains_key(k)) by {
                    assert(keys@.to_set().contains(k));
                }
                assert(!prev.contains(k)) by {
                    if prev.contains(k) {
                        let j = choose|j: int| 0 <= j < prev.len() && prev[j] == k;
                        assert(keys@[j] == keys@[i as int]);
                    }
                }
                assert forall|u: u128| #[trigger] nxt.contains(u) <==> prev.contains(u) || u == k by {
                    if prev.contains(u) {
                        let j = choose|j: int| 0 <= j < prev.len() && prev[j] == u;
                        assert(nxt[j] == u);
                    }
                    if u == k {
                        assert(nxt[i as int] == u);
                    }
                    if nxt.contains(u) && u != k {
                        let j = choose|j: int| 0 <= j < nxt.len() && nxt[j] == u;
                        assert(prev[j] == u);
                    }
                }
            }
            proof {
                assert(!added@.contains(k));
                assert(forall|g: GameMode| !game_mode@.contains((k, g)));
                assert(forall|n: i32| !ping@.contains((k, n)));
                assert(!display_name@.contains(k));
            }
            match self.entries.get(&k) {
                Some(e) => {
                    if e.bits.created_this_tick {
                        proof {
                            lemma_push_contains(added@, k);
                        }
                        added.push(k);
                    } else {
                        if e.bits.modified_game_mode {
                            proof {
                                lemma_push_contains(game_mode@, (k, e.game_mode));
                            }
                            game_mode.push((k, e.game_mode));
                        }
                        if e.bits.modified_ping {
                            proof {
                                lemma_push_contains(ping@, (k, e.ping));
                            }
                            ping.push((k, e.ping));
                        }
                        if e.bits.modified_display_name {
                            proof {
                                lemma_push_contains(display_name@, k);
                            }
                            display_name.push(k);
                        }
                    }
                },
                None => {},
            }
            i = i + 1;
        }
        proof {
            assert(keys@.take(keys@.len() as int) =~= keys@);
            assert forall|u: u128| keys@.contains(u) <==> m.contains_key(u) by {
                assert(keys@.to_set().contains(u) <==> keys@.contains(u));
            }
            assert(added@.to_set() =~= created_uuids(m));
            assert(game_mode@.to_set() =~= game_mode_changes(m));
            assert(ping@.to_set() =~= ping_changes(m));
            assert(display_name@.to_set() =~= display_name_changes(m));
        }
        PlayerListUpdate {
            removed,
            added,
            game_mode,
            ping,
            display_name,
            header_and_footer: self.modified_header_or_footer,
        }
    }

    /// Forgets what changed, once every viewer was updated: no entry is
    /// recorded as created or modified, nothing as removed, and the header
    /// and footer as unchanged.
    pub fn end_tick(&mut self)
        ensures
            final(self).spec_entries().dom() == old(self).spec_entries().dom(),
            forall|u: u128|
                #[trigger] old(self).spec_entries().contains_key(u) ==> {
                    let (e, o) = (final(self).spec_entries()[u], old(self).spec_entries()[u]);
                    &&& e.spec_bits() == (EntryBits {
                        created_this_tick: false,
                        modified_game_mode: false,
                        modified_ping: false,
                        modified_display_name: false,
                    })
                    &&& e.spec_username() == o.spec_username()
                    &&& e.spec_textures() == o.spec_textures()
                    &&& e.spec_game_mode() == o.spec_game_mode()
                    &&& e.spec_ping() == o.spec_ping()
                    &&& e.spec_display_name() == o.spec_display_name()
                },
            final(self).spec_removed() == Set::<u128>::empty(),
            !final(self).spec_modified_header_or_footer(),
            final(self).spec_header() == old(self).spec_header(),
            final(self).spec_footer() == old(self).spec_footer(),
    {
        let keys = self.uuids();
        let ghost orig = self.entries@;
        let mut i: usize = 0;
        while i < keys.len()
            invariant
                0 <= i <= keys@.len(),
                keys@.no_duplicates(),
                keys@.to_set() == orig.dom(),
                orig == old(self).entries@,
                self.entries@.dom() == orig.dom(),
                forall|u: u128|
                    #[trigger] orig.contains_key(u) ==> {
                        let (e, o) = (self.entries@[u], orig[u]);
                        &&& keys@.take(i as int).contains(u) ==> e.spec_bits() == (EntryBits {
                            created_this_tick: false,
                            modified_game_mode: false,
                            modified_ping: false,
                            modified_display_name: false,
                        })
                        &&& !keys@.take(i as int).contains(u) ==> e.spec_bits() == o.spec_bits()
                        &&& e.spec_username() == o.spec_username()
                        &&& e.spec_textures() == o.spec_textures()
                        &&& e.spec_game_mode() == o.spec_game_mode()
                        &&& e.spec_ping() == o.spec_ping()
                        &&& e.spec_display_name() == o.spec_display_name()
                    },
                self.removed == old(self).removed,
                self.header == old(self).header,
                self.footer == old(self).footer,
                self.modified_header_or_footer == old(self).modified_header_or_footer,
            decreases keys@.len() - i,
        {
            let k = keys[i];
            let ghost prev = keys@.take(i as int);
            let ghost nxt = keys@.take(i + 1);
            proof {
                assert(nxt =~= prev.push(k));
                assert(orig.contains_key(k)) by {
                    assert(keys@.to_set().contains(k));
                }
                assert forall|u: u128| #[trigger] nxt.contains(u) <==> prev.contains(u) || u == k by {
                    if prev.contains(u) {
                        let j = choose|j: int| 0 <= j < prev.len() && prev[j] == u;
                        assert(nxt[j] == u);
                    }
                    if u == k {
                        assert(nxt[i as int] == u);
                    }
                    if nxt.contains(u) && u != k {
                        let j = choose|j: int| 0 <= j < nxt.len() && nxt[j] == u;
                        assert(prev[j] == u);
                    }
                }
            }
            match self.entries.remove(&k) {
                Some(mut e) => {
                    e.clear_bits();
                    self.entries.insert(k, e);
                },
                None => {},
            }
            i = i + 1;
        }
        proof {
            assert(keys@.take(keys@.len() as int) =~= keys@);
            assert forall|u: u128| #[trigger] orig.contains_key(u) implies keys@.contains(u) by {
                assert(keys@.to_set().contains(u));
            }
        }
        self.removed.clear();
        self.modified_header_or_footer = false;
    }

    /// Whether a client that starts viewing the list must be sent the
    /// header and footer: when either is not empty.
    pub fn has_header_or_footer(&self) -> (b: bool)
        ensures
            b == (self.spec_header().len() > 0 || self.spec_footer().len() > 0),
    {
        self.header.unicode_len() > 0 || self.footer.unicode_len() > 0
    }
}

/// Once a tick has ended and every entry's changes were forgotten, an
/// update reports no entry as created and no game mode, ping or display
/// name as changed.
pub proof fn quiet_list_law(m: Map<u128, PlayerListEntry>)
    requires
        forall|u: u128|
            #[trigger] m.contains_key(u) ==> m[u].spec_bits() == (EntryBits {
                created_this_tick: false,
                modified_game_mode: false,
                modified_ping: false,
                modified_display_name: false,
            }),
    ensures
        created_uuids(m) == Set::<u128>::empty(),
        game_mode_changes(m) == Set::<(u128, GameMode)>::empty(),
        ping_changes(m) == Set::<(u128, i32)>::empty(),
        display_name_changes(m) == Set::<u128>::empty(),
{
    assert(created_uuids(m) =~= Set::<u128>::empty());
    assert(game_mode_changes(m) =~= Set::<(u128, GameMode)>::empty());
    assert(ping_changes(m) =~= Set::<(u128, i32)>::empty());
    assert(display_name_changes(m) =~= Set::<u128>::empty());
}

/// What a sequence holds after a push, and that pushing a new element
/// keeps its elements distinct.
proof fn lemma_push_contains<A>(s: Seq<A>, x: A)
    ensures
        forall|y: A| #[trigger] s.push(x).contains(y) <==> s.contains(y) || y == x,
        s.no_duplicates() && !s.contains(x) ==> s.push(x).no_duplicates(),
{
    assert forall|y: A| #[trigger] s.push(x).contains(y) <==> s.contains(y) || y == x by {
        if s.contains(y) {
            let j = choose|j: int| 0 <= j < s.len() && s[j] == y;
            assert(s.push(x)[j] == y);
        }
        if y == x {
            assert(s.push(x)[s.len() as int] == y);
        }
        if s.push(x).contains(y) && y != x {
            let j = choose|j: int| 0 <= j < s.len() + 1 && s.push(x)[j] == y;
            assert(s[j] == y);
        }
    }
}

} // verus!
