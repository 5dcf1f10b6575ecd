//! The game server's state: pending games waiting for a second player,
//! active games, and which client is logged in under which name. Every
//! table is a list with first-match lookups; inserting replaces the first
//! entry with the same key, so a key occurs at most once.
use vstd::prelude::*;
use crate::engine::errors::CrownfallError;
use crate::engine::play::{copy_game, CrownfallGame};
use crate::engine::rules::spec_apply_action;
use crate::engine::types::{CrownfallPlayerAction, CrownfallPlayerKind, CrownfallTurnResult};
use crate::net::{NetGameState, Packet, PendingGame, PendingGameState, PerformActionState, WebGame};

verus! {

pub type ClientId = u64;

#[derive(Clone, Debug)]
pub struct ServerActiveGame {
    pub game: WebGame,
    pub white_player: ClientId,
    pub black_player: ClientId,
}

/// A created game waiting for its second player; `created` is the creation
/// time in milliseconds since the Unix epoch.
#[derive(Clone, Copy, Debug)]
pub struct ServerPendingGame {
    pub white_player: ClientId,
    pub created: i64,
}

pub struct PendingEntry {
    pub id: String,
    pub game: ServerPendingGame,
}

pub struct ActiveEntry {
    pub id: String,
    pub game: ServerActiveGame,
}

pub struct NameEntry {
    pub client: ClientId,
    pub name: String,
}

pub struct IdEntry {
    pub name: String,
    pub client: ClientId,
}

/// The same game, copied: ids, names, players and the game's values.
pub open spec fn spec_same_web(a: WebGame, b: WebGame) -> bool {
    &&& a.id@ == b.id@
    &&& a.white_player_name@ == b.white_player_name@
    &&& a.black_player_name@ == b.black_player_name@
    &&& a.game.board == b.game.board
    &&& a.game.state == b.game.state
    &&& a.game.rules == b.game.rules
    &&& a.game.history@ == b.game.history@
    &&& a.game.moves_since_capture == b.game.moves_since_capture
}

pub open spec fn spec_same_active(a: ServerActiveGame, b: ServerActiveGame) -> bool {
    &&& spec_same_web(a.game, b.game)
    &&& a.white_player == b.white_player
    &&& a.black_player == b.black_player
}

pub fn copy_web_game(w: &WebGame) -> (r: WebGame)
    ensures
        spec_same_web(r, *w),
{
    WebGame {
        id: w.id.clone(),
        game: copy_game(&w.game),
        white_player_name: w.white_player_name.clone(),
        black_player_name: w.black_player_name.clone(),
    }
}

pub fn copy_active(a: &ServerActiveGame) -> (r: ServerActiveGame)
    ensures
        spec_same_active(r, *a),
{
    ServerActiveGame { game: copy_web_game(&a.game), white_player: a.white_player, black_player: a.black_player }
}

/// The first index at or after `i` of an entry whose id is `id`.
pub open spec fn spec_find_pending(s: Seq<PendingEntry>, id: Seq<char>, i: int) -> Option<int>
    decreases s.len() - i,
{
    if i < 0 || i >= s.len() {
        None
    } else if s[i].id@ == id {
        Some(i)
    } else {
        spec_find_pending(s, id, i + 1)
    }
}

pub open spec fn spec_find_active(s: Seq<ActiveEntry>, id: Seq<char>, i: int) -> Option<int>
    decreases s.len() - i,
{
    if i < 0 || i >= s.len() {
        None
    } else if s[i].id@ == id {
        Some(i)
    } else {
        spec_find_active(s, id, i + 1)
    }
}

pub open spec fn spec_find_name(s: Seq<NameEntry>, client: ClientId, i: int) -> Option<int>
    decreases s.len() - i,
{
    if i < 0 || i >= s.len() {
        None
    } else if s[i].client == client {
        Some(i)
    } else {
        spec_find_name(s, client, i + 1)
    }
}

pub open spec fn spec_find_id(s: Seq<IdEntry>, name: Seq<char>, i: int) -> Option<int>
    decreases s.len() - i,
{
    if i < 0 || i >= s.len() {
        None
    } else if s[i].name@ == name {
        Some(i)
    } else {
        spec_find_id(s, name, i + 1)
    }
}

/// The first active game (at or after `i`) that `client` plays in.
pub open spec fn spec_find_game_of(s: Seq<ActiveEntry>, client: ClientId, i: int) -> Option<int>
    decreases s.len() - i,
{
    if i < 0 || i >= s.len() {
        None
    } else if s[i].game.white_player == client || s[i].game.black_player == client {
        Some(i)
    } else {
        spec_find_game_of(s, client, i + 1)
    }
}

/// The name logged in as `client`, or the empty name.
pub open spec fn spec_name_of(s: Seq<NameEntry>, client: ClientId) -> Seq<char> {
    match spec_find_name(s, client, 0) {
        Some(k) => s[k].name@,
        None => Seq::empty(),
    }
}

/// The first `n` pending games, without those created by `client`.
pub open spec fn spec_drop_pending_of(s: Seq<PendingEntry>, client: ClientId, n: int) -> Seq<PendingEntry>
    decreases n,
{
    if n <= 0 {
        Seq::empty()
    } else {
        let prev = spec_drop_pending_of(s, client, n - 1);
        if s[n - 1].game.white_player != client { prev.push(s[n - 1]) } else { prev }
    }
}

/// The first `n` name-to-client entries, without those of `client`.
pub open spec fn spec_drop_ids_of(s: Seq<IdEntry>, client: ClientId, n: int) -> Seq<IdEntry>
    decreases n,
{
    if n <= 0 {
        Seq::empty()
    } else {
        let prev = spec_drop_ids_of(s, client, n - 1);
        if s[n - 1].client != client { prev.push(s[n - 1]) } else { prev }
    }
}

/// The first `n` client-to-name entries, without those of `client`.
pub open spec fn spec_drop_names_of(s: Seq<NameEntry>, client: ClientId, n: int) -> Seq<NameEntry>
    decreases n,
{
    if n <= 0 {
        Seq::empty()
    } else {
        let prev = spec_drop_names_of(s, client, n - 1);
        if s[n - 1].client != client { prev.push(s[n - 1]) } else { prev }
    }
}

/// `player` with `from` replaced by `to`.
pub open spec fn spec_swap_client(player: ClientId, from: ClientId, to: ClientId) -> ClientId {
    if player == from { to } else { player }
}

/// No two pending games share an id.
pub open spec fn spec_pending_distinct(s: Seq<PendingEntry>) -> bool {
    forall|i: int, j: int| #![trigger s[i], s[j]] 0 <= i < j < s.len() ==> s[i].id@ != s[j].id@
}

/// No two active games share an id.
pub open spec fn spec_active_distinct(s: Seq<ActiveEntry>) -> bool {
    forall|i: int, j: int| #![trigger s[i], s[j]] 0 <= i < j < s.len() ==> s[i].id@ != s[j].id@
}

/// No client has two name entries.
pub open spec fn spec_names_distinct(s: Seq<NameEntry>) -> bool {
    forall|i: int, j: int| #![trigger s[i], s[j]] 0 <= i < j < s.len() ==> s[i].client != s[j].client
}

/// No name has two client entries.
pub open spec fn spec_ids_distinct(s: Seq<IdEntry>) -> bool {
    forall|i: int, j: int| #![trigger s[i], s[j]] 0 <= i < j < s.len() ==> s[i].name@ != s[j].name@
}

proof fn lemma_find_pending_none(s: Seq<PendingEntry>, id: Seq<char>, i: int)
    requires
        0 <= i,
        spec_find_pending(s, id, i) is None,
    ensures
        forall|j: int| i <= j < s.len() ==> (#[trigger] s[j]).id@ != id,
    decreases s.len() - i,
{
    if i < s.len() {
        lemma_find_pending_none(s, id, i + 1);
    }
}

proof fn lemma_find_active_none(s: Seq<ActiveEntry>, id: Seq<char>, i: int)
    requires
        0 <= i,
        spec_find_active(s, id, i) is None,
    ensures
        forall|j: int| i <= j < s.len() ==> (#[trigger] s[j]).id@ != id,
    decreases s.len() - i,
{
    if i < s.len() {
        lemma_find_active_none(s, id, i + 1);
    }
}

proof fn lemma_find_name_none(s: Seq<NameEntry>, client: ClientId, i: int)
    requires
        0 <= i,
        spec_find_name(s, client, i) is None,
    ensures
        forall|j: int| i <= j < s.len() ==> (#[trigger] s[j]).client != client,
    decreases s.len() - i,
{
    if i < s.len() {
        lemma_find_name_none(s, client, i + 1);
    }
}

proof fn lemma_find_name_some(s: Seq<NameEntry>, client: ClientId, i: int)
    requires
        spec_find_name(s, client, i) is Some,
    ensures
        ({
            let k = spec_find_name(s, client, i).unwrap();
            0 <= k < s.len() && s[k].client == client
        }),
    decreases s.len() - i,
{
    if 0 <= i < s.len() && s[i].client != client {
        lemma_find_name_some(s, client, i + 1);
    }
}

proof fn lemma_find_active_some(s: Seq<ActiveEntry>, id: Seq<char>, i: int)
    requires
        spec_find_active(s, id, i) is Some,
    ensures
        ({
            let k = spec_find_active(s, id, i).unwrap();
            0 <= k < s.len() && s[k].id@ == id
        }),
    decreases s.len() - i,
{
    if 0 <= i < s.len() && s[i].id@ != id {
        lemma_find_active_some(s, id, i + 1);
    }
}

proof fn lemma_find_id_none(s: Seq<IdEntry>, name: Seq<char>, i: int)
    requires
        0 <= i,
        spec_find_id(s, name, i) is None,
    ensures
        forall|j: int| i <= j < s.len() ==> (#[trigger] s[j]).name@ != name,
    decreases s.len() - i,
{
    if i < s.len() {
        lemma_find_id_none(s, name, i + 1);
    }
}

proof fn lemma_drop_pending_distinct(s: Seq<PendingEntry>, client: ClientId, n: int)
    requires
        spec_pending_distinct(s),
        0 <= n <= s.len(),
    ensures
        spec_pending_distinct(spec_drop_pending_of(s, client, n)),
        forall|m: int| #![trigger spec_drop_pending_of(s, client, n)[m]] 0 <= m < spec_drop_pending_of(s, client, n).len()
            ==> exists|j: int| 0 <= j < n && #[trigger] s[j] == spec_drop_pending_of(s, client, n)[m],
    decreases n,
{
    if n > 0 {
        lemma_drop_pending_distinct(s, client, n - 1);
        let prev = spec_drop_pending_of(s, client, n - 1);
        let cur = spec_drop_pending_of(s, client, n);
        assert forall|m: int| #![trigger cur[m]] 0 <= m < cur.len() implies exists|j: int| 0 <= j < n && #[trigger] s[j] == cur[m] by {
            if m < prev.len() {
                assert(cur[m] == prev[m]);
            } else {
                assert(s[n - 1] == cur[m]);
            }
        }
        assert forall|i: int, j: int| #![trigger cur[i], cur[j]] 0 <= i < j < cur.len() implies cur[i].id@ != cur[j].id@ by {
            if j >= prev.len() {
                assert(cur[i] == prev[i]);
                let a = choose|a: int| 0 <= a < n - 1 && #[trigger] s[a] == prev[i];
                assert(s[a] == prev[i]);
                assert(cur[j] == s[n - 1]);
            } else {
                assert(cur[i] == prev[i]);
                assert(cur[j] == prev[j]);
            }
        }
    }
}

proof fn lemma_drop_names_distinct(s: Seq<NameEntry>, client: ClientId, n: int)
    requires
        spec_names_distinct(s),
        0 <= n <= s.len(),
    ensures
        spec_names_distinct(spec_drop_names_of(s, client, n)),
        forall|m: int| #![trigger spec_drop_names_of(s, client, n)[m]] 0 <= m < spec_drop_names_of(s, client, n).len()
            ==> exists|j: int| 0 <= j < n && #[trigger] s[j] == spec_drop_names_of(s, client, n)[m],
    decreases n,
{
    if n > 0 {
        lemma_drop_names_distinct(s, client, n - 1);
        let prev = spec_drop_names_of(s, client, n - 1);
        let cur = spec_drop_names_of(s, client, n);
        assert forall|m: int| #![trigger cur[m]] 0 <= m < cur.len() implies exists|j: int| 0 <= j < n && #[trigger] s[j] == cur[m] by {
            if m < prev.len() {
                assert(cur[m] == prev[m]);
            } else {
                assert(s[n - 1] == cur[m]);
            }
        }
        assert forall|i: int, j: int| #![trigger cur[i], cur[j]] 0 <= i < j < cur.len() implies cur[i].client != cur[j].client by {
            if j >= prev.len() {
                assert(cur[i] == prev[i]);
                let a = choose|a: int| 0 <= a < n - 1 && #[trigger] s[a] == prev[i];
                assert(s[a] == prev[i]);
                assert(cur[j] == s[n - 1]);
            } else {
                assert(cur[i] == prev[i]);
                assert(cur[j] == prev[j]);
            }
        }
    }
}

proof fn lemma_drop_ids_distinct(s: Seq<IdEntry>, client: ClientId, n: int)
    requires
        spec_ids_distinct(s),
        0 <= n <= s.len(),
    ensures
        spec_ids_distinct(spec_drop_ids_of(s, client, n)),
        forall|m: int| #![trigger spec_drop_ids_of(s, client, n)[m]] 0 <= m < spec_drop_ids_of(s, client, n).len()
            ==> exists|j: int| 0 <= j < n && #[trigger] s[j] == spec_drop_ids_of(s, client, n)[m],
    decreases n,
{
    if n > 0 {
        lemma_drop_ids_distinct(s, client, n - 1);
        let prev = spec_drop_ids_of(s, client, n - 1);
        let cur = spec_drop_ids_of(s, client, n);
        assert forall|m: int| #![trigger cur[m]] 0 <= m < cur.len() implies exists|j: int| 0 <= j < n && #[trigger] s[j] == cur[m] by {
            if m < prev.len() {
                assert(cur[m] == prev[m]);
            } else {
                assert(s[n - 1] == cur[m]);
            }
        }
        assert forall|i: int, j: int| #![trigger cur[i], cur[j]] 0 <= i < j < cur.len() implies cur[i].name@ != cur[j].name@ by {
            if j >= prev.len() {
                assert(cur[i] == prev[i]);
                let a = choose|a: int| 0 <= a < n - 1 && #[trigger] s[a] == prev[i];
                assert(s[a] == prev[i]);
                assert(cur[j] == s[n - 1]);
            } else {
                assert(cur[i] == prev[i]);
                assert(cur[j] == prev[j]);
            }
        }
    }
}

pub struct AppState {
    pending: Vec<PendingEntry>,
    games: Vec<ActiveEntry>,
    max_games: usize,
    names: Vec<NameEntry>,
    ids: Vec<IdEntry>,
}

/// Every stored game can take an action.
pub open spec fn spec_games_playable(s: Seq<ActiveEntry>) -> bool {
    forall|k: int| 0 <= k < s.len() ==> (#[trigger] s[k]).game.game.game.spec_playable()
}

/// `list` is the pending games in table order, each with its creator's
/// name (empty when that client is no longer logged in).
pub open spec fn spec_listed(s: AppState, list: Seq<PendingGame>) -> bool {
    &&& list.len() == s.pending().len()
    &&& forall|k: int| 0 <= k < list.len() ==> {
        &&& (#[trigger] list[k]).id@ == s.pending()[k].id@
        &&& list[k].white_player_name@ == spec_name_of(s.names(), s.pending()[k].game.white_player)
        &&& list[k].created == s.pending()[k].game.created
    }
}

impl AppState {
    pub closed spec fn pending(&self) -> Seq<PendingEntry> {
        self.pending@
    }

    pub closed spec fn games(&self) -> Seq<ActiveEntry> {
        self.games@
    }

    pub closed spec fn names(&self) -> Seq<NameEntry> {
        self.names@
    }

    pub closed spec fn ids(&self) -> Seq<IdEntry> {
        self.ids@
    }

    pub closed spec fn max_games(&self) -> usize {
        self.max_games
    }

    /// Never more games than allowed, every active game can take an
    /// action, and no key occurs twice in a table.
    pub closed spec fn wf(&self) -> bool {
        &&& self.pending@.len() + self.games@.len() <= self.max_games
        &&& spec_games_playable(self.games@)
        &&& spec_pending_distinct(self.pending@)
        &&& spec_active_distinct(self.games@)
        &&& spec_names_distinct(self.names@)
        &&& spec_ids_distinct(self.ids@)
    }

    /// Law: in a well-formed server every table is a map: no two pending
    /// games and no two active games share an id, no client has two names
    /// and no name two clients.
    pub proof fn lemma_keys_distinct(&self)
        requires
            self.wf(),
        ensures
            spec_pending_distinct(self.pending()),
            spec_active_distinct(self.games()),
            spec_names_distinct(self.names()),
            spec_ids_distinct(self.ids()),
    {
    }

    /// Law: a well-formed server never holds more pending and active games
    /// together than its cap; every operation keeps the state well formed.
    pub proof fn lemma_game_cap(&self)
        requires
            self.wf(),
        ensures
            self.pending().len() + self.games().len() <= self.max_games(),
    {
    }

    pub fn new(game_count: usize) -> (r: AppState)
        ensures
            r.wf(),
            r.pending().len() == 0,
            r.games().len() == 0,
            r.names().len() == 0,
            r.ids().len() == 0,
            r.max_games() == game_count,
    {
        AppState { pending: Vec::new(), games: Vec::new(), max_games: game_count, names: Vec::new(), ids: Vec::new() }
    }

    /// How long the server loop rests between polls, in milliseconds: long
    /// while no game exists at all, short otherwise.
    pub fn sleep_millis(&self) -> (r: u64)
        requires
            self.wf(),
        ensures
            r == (if self.pending().len() + self.games().len() == 0 { 2000u64 } else { 500u64 }),
    {
        if self.game_count() == 0 {
            2000
        } else {
            500
        }
    }

    /// Pending plus active games.
    pub fn game_count(&self) -> (r: usize)
        requires
            self.wf(),
        ensures
            r == self.pending().len() + self.games().len(),
    {
        self.pending.len() + self.games.len()
    }

    fn find_pending(&self, id: &String) -> (r: Option<usize>)
        ensures
            r matches Some(k) ==> k < self.pending@.len() && spec_find_pending(self.pending@, id@, 0) == Some(k as int),
            r is None ==> spec_find_pending(self.pending@, id@, 0) is None,
    {
        let mut i: usize = 0;
        while i < self.pending.len()
            invariant
                i <= self.pending@.len(),
                spec_find_pending(self.pending@, id@, 0) == spec_find_pending(self.pending@, id@, i as int),
            decreases self.pending@.len() - i,
        {
            if self.pending[i].id == *id {
                return Some(i);
            }
            i = i + 1;
        }
        None
    }

    fn find_active(&self, id: &String) -> (r: Option<usize>)
        ensures
            r matches Some(k) ==> k < self.games@.len() && spec_find_active(self.games@, id@, 0) == Some(k as int),
            r is None ==> spec_find_active(self.games@, id@, 0) is None,
    {
        let mut i: usize = 0;
        while i < self.games.len()
            invariant
                i <= self.games@.len(),
                spec_find_active(self.games@, id@, 0) == spec_find_active(self.games@, id@, i as int),
            decreases self.games@.len() - i,
        {
            if self.games[i].id == *id {
                return Some(i);
            }
            i = i + 1;
        }
        None
    }

    fn find_name(&self, client: ClientId) -> (r: Option<usize>)
        ensures
            r matches Some(k) ==> k < self.names@.len() && spec_find_name(self.names@, client, 0) == Some(k as int),
            r is None ==> spec_find_name(self.names@, client, 0) is None,
    {
        let mut i: usize = 0;
        while i < self.names.len()
            invariant
                i <= self.names@.len(),
                spec_find_name(self.names@, client, 0) == spec_find_name(self.names@, client, i as int),
            decreases self.names@.len() - i,
        {
            if self.names[i].client == client {
                return Some(i);
            }
            i = i + 1;
        }
        None
    }

    fn find_id(&self, name: &String) -> (r: Option<usize>)
        ensures
            r matches Some(k) ==> k < self.ids@.len() && spec_find_id(self.ids@, name@, 0) == Some(k as int),
            r is None ==> spec_find_id(self.ids@, name@, 0) is None,
    {
        let mut i: usize = 0;
        while i < self.ids.len()
            invariant
                i <= self.ids@.len(),
                spec_find_id(self.ids@, name@, 0) == spec_find_id(self.ids@, name@, i as int),
            decreases self.ids@.len() - i,
        {
            if self.ids[i].name == *name {
                return Some(i);
            }
            i = i + 1;
        }
        None
    }

    /// The name logged in as `client`, or an empty name.
    fn name_of(&self, client: ClientId) -> (r: String)
        ensures
            r@ == spec_name_of(self.names@, client),
    {
        match self.find_name(client) {
            Some(k) => {
                self.names[k].name.clone()
            },
            None => String::new(),
        }
    }

    /// Whether `id` names a pending game, an active game, or neither.
    pub fn poll_pending(&self, id: &String) -> (r: PendingGameState)
        ensures
            r == (if spec_find_pending(self.pending(), id@, 0) is Some {
                PendingGameState::Pending
            } else if spec_find_active(self.games(), id@, 0) is Some {
                PendingGameState::Joined
            } else {
                PendingGameState::Invalid
            }),
    {
        if self.find_pending(id).is_some() {
            PendingGameState::Pending
        } else if self.find_active(id).is_some() {
            PendingGameState::Joined
        } else {
            PendingGameState::Invalid
        }
    }

    /// A copy of the active game `id`, if there is one.
    pub fn poll_game(&self, id: &String) -> (r: Option<WebGame>)
        ensures
            match spec_find_active(self.games(), id@, 0) {
                Some(k) => r matches Some(w) && spec_same_web(w, self.games()[k].game.game),
                None => r is None,
            },
    {
        match self.find_active(id) {
            Some(k) => Some(copy_web_game(&self.games[k].game.game)),
            None => None,
        }
    }

    /// The pending games, listed in table order with their creator's name
    /// (empty when that client is no longer logged in).
    pub fn pending_list(&self) -> (r: Vec<PendingGame>)
        ensures
            spec_listed(*self, r@),
    {
        let mut out: Vec<PendingGame> = Vec::new();
        let mut i: usize = 0;
        while i < self.pending.len()
            invariant
                i <= self.pending@.len(),
                out@.len() == i,
                forall|k: int| 0 <= k < i ==> {
                    &&& (#[trigger] out@[k]).id@ == self.pending@[k].id@
                    &&& out@[k].white_player_name@ == spec_name_of(self.names@, self.pending@[k].game.white_player)
                    &&& out@[k].created == self.pending@[k].game.created
                },
            decreases self.pending@.len() - i,
        {
            let entry = &self.pending[i];
            out.push(PendingGame {
                id: entry.id.clone(),
                white_player_name: self.name_of(entry.game.white_player),
                created: entry.game.created,
            });
            i = i + 1;
        }
        out
    }
}


/// A fresh game id: `uuid::Uuid::new_v4()` as its hyphenated string.
/// Nothing is claimed of the id: it is random.
#[verifier::external_body]
fn new_game_id() -> (r: String) {
    uuid::Uuid::new_v4().to_string()
}

/// The current time from `chrono::Utc::now()`, in milliseconds since the
/// Unix epoch. Nothing is claimed of the value: it is the clock's.
#[verifier::external_body]
fn now_millis() -> (r: i64) {
    chrono::Utc::now().timestamp_millis()
}

/// The table after inserting `name -> client`: the first entry with that
/// name gets the new client, or a new entry is appended.
pub open spec fn spec_insert_id(s: Seq<IdEntry>, name: String, client: ClientId) -> Seq<IdEntry> {
    match spec_find_id(s, name@, 0) {
        Some(k) => s.update(k, IdEntry { name: s[k].name, client }),
        None => s.push(IdEntry { name, client }),
    }
}

/// The table after inserting `client -> name`.
pub open spec fn spec_insert_name(s: Seq<NameEntry>, client: ClientId, name: String) -> Seq<NameEntry> {
    match spec_find_name(s, client, 0) {
        Some(k) => s.update(k, NameEntry { client, name }),
        None => s.push(NameEntry { client, name }),
    }
}

/// `games` with every seat of `from` handed to `to`, everything else kept.
pub open spec fn spec_reassigned(after: Seq<ActiveEntry>, before: Seq<ActiveEntry>, from: ClientId, to: ClientId) -> bool {
    &&& after.len() == before.len()
    &&& forall|k: int| 0 <= k < before.len() ==> {
        &&& (#[trigger] after[k]).id == before[k].id
        &&& after[k].game.game == before[k].game.game
        &&& after[k].game.white_player == spec_swap_client(before[k].game.white_player, from, to)
        &&& after[k].game.black_player == spec_swap_client(before[k].game.black_player, from, to)
    }
}

/// The state after `client` logs in as `username`: the name-to-client
/// entry is set; a name that was logged in from another client moves over
/// (that client's pending games are dropped, its seats in active games pass
/// to `client`, its name entry is removed); the client's name is set.
pub open spec fn spec_login(old: AppState, new: AppState, client: ClientId, username: String) -> bool {
    let prev = spec_find_id(old.ids(), username@, 0);
    let moved = prev matches Some(k) && old.ids()[k].client != client;
    let o = old.ids()[prev.unwrap()].client;
    let names0 = if moved { spec_drop_names_of(old.names(), o, old.names().len() as int) } else { old.names() };
    &&& new.max_games() == old.max_games()
    &&& new.ids() == spec_insert_id(old.ids(), username, client)
    &&& moved ==> new.pending() == spec_drop_pending_of(old.pending(), o, old.pending().len() as int)
    &&& moved ==> spec_reassigned(new.games(), old.games(), o, client)
    &&& !moved ==> new.pending() == old.pending() && new.games() == old.games()
    &&& new.names() == spec_insert_name(names0, client, username)
}

/// `r` is a copy of the first active game `client` plays in, if any.
pub open spec fn spec_reported_game(s: AppState, client: ClientId, r: Option<WebGame>) -> bool {
    match spec_find_game_of(s.games(), client, 0) {
        Some(k) => r matches Some(w) && spec_same_web(w, s.games()[k].game.game),
        None => r is None,
    }
}

impl AppState {
    /// Logs `client_id` in as `username`. A name that was logged in from
    /// another client moves over: that client's pending games are dropped,
    /// its seats in active games pass to `client_id`, and its name entry is
    /// removed. Returns a copy of the first active game `client_id` plays
    /// in, if any.
    pub fn client_login(&mut self, client_id: ClientId, username: String) -> (r: Option<ServerActiveGame>)
        requires
            old(self).wf(),
        ensures
            final(self).wf(),
            spec_login(*old(self), *final(self), client_id, username),
            match spec_find_game_of(final(self).games(), client_id, 0) {
                Some(k) => r matches Some(g) && spec_same_active(g, final(self).games()[k].game),
                None => r is None,
            },
    {
        let ghost o_ids = self.ids@;
        let previous = match self.find_id(&username) {
            Some(k) => {
                let prev_client = self.ids[k].client;
                self.ids.set(k, IdEntry { name: self.ids[k].name.clone(), client: client_id });
                proof {
                    assert forall|i: int, j: int| #![trigger self.ids@[i], self.ids@[j]] 0 <= i < j < self.ids@.len() implies self.ids@[i].name@ != self.ids@[j].name@ by {
                        assert(o_ids[i].name@ != o_ids[j].name@);
                    }
                }
                Some(prev_client)
            },
            None => {
                proof {
                    lemma_find_id_none(o_ids, username@, 0);
                }
                self.ids.push(IdEntry { name: username.clone(), client: client_id });
                proof {
                    assert forall|i: int, j: int| #![trigger self.ids@[i], self.ids@[j]] 0 <= i < j < self.ids@.len() implies self.ids@[i].name@ != self.ids@[j].name@ by {
                        if j < o_ids.len() {
                            assert(o_ids[i].name@ != o_ids[j].name@);
                        } else {
                            assert(o_ids[i].name@ != username@);
                        }
                    }
                }
                None
            },
        };
        assert(self.ids@ =~= spec_insert_id(o_ids, username, client_id));
        match previous {
            Some(old_client) => {
                if old_client != client_id {
                    self.drop_pending_of(old_client);
                    self.reassign(old_client, client_id);
                    proof {
                        lemma_drop_names_distinct(self.names@, old_client, self.names@.len() as int);
                    }
                    self.drop_names_of(old_client);
                }
            },
            None => {},
        }
        let ghost names0 = self.names@;
        match self.find_name(client_id) {
            Some(k) => {
                self.names.set(k, NameEntry { client: client_id, name: username });
                proof {
                    lemma_find_name_some(names0, client_id, 0);
                    assert forall|i: int, j: int| #![trigger self.names@[i], self.names@[j]] 0 <= i < j < self.names@.len() implies self.names@[i].client != self.names@[j].client by {
                        assert(names0[i].client != names0[j].client);
                    }
                }
            },
            None => {
                proof {
                    lemma_find_name_none(names0, client_id, 0);
                }
                self.names.push(NameEntry { client: client_id, name: username });
                proof {
                    assert forall|i: int, j: int| #![trigger self.names@[i], self.names@[j]] 0 <= i < j < self.names@.len() implies self.names@[i].client != self.names@[j].client by {
                        if j < names0.len() {
                            assert(names0[i].client != names0[j].client);
                        } else {
                            assert(names0[i].client != client_id);
                        }
                    }
                }
            },
        }
        assert(self.names@ =~= spec_insert_name(names0, client_id, username));
        self.first_game_of(client_id)
    }

    fn first_game_of(&self, client: ClientId) -> (r: Option<ServerActiveGame>)
        ensures
            match spec_find_game_of(self.games@, client, 0) {
                Some(k) => r matches Some(g) && spec_same_active(g, self.games@[k].game),
                None => r is None,
            },
    {
        let mut i: usize = 0;
        while i < self.games.len()
            invariant
                i <= self.games@.len(),
                spec_find_game_of(self.games@, client, 0) == spec_find_game_of(self.games@, client, i as int),
            decreases self.games@.len() - i,
        {
            if self.games[i].game.white_player == client || self.games[i].game.black_player == client {
                return Some(copy_active(&self.games[i].game));
            }
            i = i + 1;
        }
        None
    }

    fn drop_pending_of(&mut self, client: ClientId)
        requires
            old(self).wf(),
        ensures
            final(self).wf(),
            final(self).pending@ == spec_drop_pending_of(old(self).pending@, client, old(self).pending@.len() as int),
            final(self).games@ == old(self).games@,
            final(self).names@ == old(self).names@,
            final(self).ids@ == old(self).ids@,
            final(self).max_games == old(self).max_games,
    {
        let mut kept: Vec<PendingEntry> = Vec::new();
        let mut i: usize = 0;
        while i < self.pending.len()
            invariant
                i <= self.pending@.len(),
                kept@ == spec_drop_pending_of(self.pending@, client, i as int),
                kept@.len() <= i,
            decreases self.pending@.len() - i,
        {
            let e = &self.pending[i];
            if e.game.white_player != client {
                kept.push(PendingEntry { id: e.id.clone(), game: e.game });
            }
            i = i + 1;
        }
        proof {
            lemma_drop_pending_distinct(self.pending@, client, self.pending@.len() as int);
        }
        self.pending = kept;
    }

    fn drop_names_of(&mut self, client: ClientId)
        ensures
            final(self).names@ == spec_drop_names_of(old(self).names@, client, old(self).names@.len() as int),
            final(self).pending@ == old(self).pending@,
            final(self).games@ == old(self).games@,
            final(self).ids@ == old(self).ids@,
            final(self).max_games == old(self).max_games,
    {
        let mut kept: Vec<NameEntry> = Vec::new();
        let mut i: usize = 0;
        while i < self.names.len()
            invariant
                i <= self.names@.len(),
                kept@ == spec_drop_names_of(self.names@, client, i as int),
            decreases self.names@.len() - i,
        {
            let e = &self.names[i];
            if e.client != client {
                kept.push(NameEntry { client: e.client, name: e.name.clone() });
            }
            i = i + 1;
        }
        self.names = kept;
    }

    fn drop_ids_of(&mut self, client: ClientId)
        ensures
            final(self).ids@ == spec_drop_ids_of(old(self).ids@, client, old(self).ids@.len() as int),
            final(self).pending@ == old(self).pending@,
            final(self).games@ == old(self).games@,
            final(self).names@ == old(self).names@,
            final(self).max_games == old(self).max_games,
    {
        let mut kept: Vec<IdEntry> = Vec::new();
        let mut i: usize = 0;
        while i < self.ids.len()
            invariant
                i <= self.ids@.len(),
                kept@ == spec_drop_ids_of(self.ids@, client, i as int),
            decreases self.ids@.len() - i,
        {
            let e = &self.ids[i];
            if e.client != client {
                kept.push(IdEntry { name: e.name.clone(), client: e.client });
            }
            i = i + 1;
        }
        self.ids = kept;
    }

    /// Hands every seat of `from` in an active game to `to`.
    fn reassign(&mut self, from: ClientId, to: ClientId)
        requires
            old(self).wf(),
        ensures
            final(self).wf(),
            spec_reassigned(final(self).games@, old(self).games@, from, to),
            final(self).pending@ == old(self).pending@,
            final(self).names@ == old(self).names@,
            final(self).ids@ == old(self).ids@,
            final(self).max_games == old(self).max_games,
    {
        let ghost before = self.games@;
        let mut i: usize = 0;
        while i < self.games.len()
            invariant
                self.games@.len() == before.len(),
                i <= before.len(),
                self.pending@ == old(self).pending@,
                self.names@ == old(self).names@,
                self.ids@ == old(self).ids@,
                self.max_games == old(self).max_games,
                self.pending@.len() + self.games@.len() <= self.max_games,
                spec_games_playable(before),
                forall|k: int| 0 <= k < before.len() ==> {
                    &&& (#[trigger] self.games@[k]).id == before[k].id
                    &&& self.games@[k].game.game == before[k].game.game
                    &&& self.games@[k].game.white_player == (if k < i { spec_swap_client(before[k].game.white_player, from, to) } else { before[k].game.white_player })
                    &&& self.games@[k].game.black_player == (if k < i { spec_swap_client(before[k].game.black_player, from, to) } else { before[k].game.black_player })
                },
            decreases before.len() - i,
        {
            if self.games[i].game.white_player == from {
                self.games[i].game.white_player = to;
            }
            if self.games[i].game.black_player == from {
                self.games[i].game.black_player = to;
            }
            i = i + 1;
        }
        assert forall|k: int| 0 <= k < self.games@.len() implies (#[trigger] self.games@[k]).game.game.game.spec_playable() by {
            assert(before[k].game.game.game.spec_playable());
        }
    }

    /// Forgets `client_id`: its pending games are dropped and its name
    /// entries removed.
    pub fn client_disconnect(&mut self, client_id: ClientId)
        requires
            old(self).wf(),
        ensures
            final(self).wf(),
            final(self).pending() == spec_drop_pending_of(old(self).pending(), client_id, old(self).pending().len() as int),
            final(self).ids() == spec_drop_ids_of(old(self).ids(), client_id, old(self).ids().len() as int),
            final(self).games() == old(self).games(),
            final(self).names() == old(self).names(),
            final(self).max_games() == old(self).max_games(),
    {
        self.drop_pending_of(client_id);
        proof {
            lemma_drop_ids_distinct(self.ids@, client_id, self.ids@.len() as int);
        }
        self.drop_ids_of(client_id);
    }
}


/// The pending table after inserting `id -> game`.
pub open spec fn spec_insert_pending(s: Seq<PendingEntry>, id: String, game: ServerPendingGame) -> Seq<PendingEntry> {
    match spec_find_pending(s, id@, 0) {
        Some(k) => s.update(k, PendingEntry { id: s[k].id, game }),
        None => s.push(PendingEntry { id, game }),
    }
}

pub open spec fn spec_pending_game(client: ClientId, created: i64) -> ServerPendingGame {
    ServerPendingGame { white_player: client, created }
}

/// The state after `client` asks for a new game, answered `r`: refused
/// (`None`, nothing changed) exactly when the server already holds its
/// maximum number of games; otherwise a pending game of `client` is
/// recorded under the returned id, stamped with some creation time.
pub open spec fn spec_create(old: AppState, new: AppState, client: ClientId, r: Option<String>) -> bool {
    &&& old.pending().len() + old.games().len() >= old.max_games() <==> r is None
    &&& r is None ==> new.pending() == old.pending()
    &&& r matches Some(id) ==> exists|created: i64| spec_insert_pending(old.pending(), id, #[trigger] spec_pending_game(client, created)) == new.pending()
    &&& new.games() == old.games()
    &&& new.names() == old.names()
    &&& new.ids() == old.ids()
    &&& new.max_games() == old.max_games()
}

/// The seat the action's player sits in.
pub open spec fn spec_seat(g: ServerActiveGame, action: CrownfallPlayerAction) -> ClientId {
    match action.spec_player() {
        CrownfallPlayerKind::White => g.white_player,
        CrownfallPlayerKind::Black => g.black_player,
    }
}

impl AppState {
    /// Records a new pending game `id` created by `client_id` at `created`,
    /// unless the server already holds its maximum number of games.
    pub fn create_game_with(&mut self, client_id: ClientId, id: String, created: i64) -> (r: Option<String>)
        requires
            old(self).wf(),
        ensures
            final(self).wf(),
            old(self).pending().len() + old(self).games().len() >= old(self).max_games() ==> r is None && final(self).pending() == old(self).pending(),
            old(self).pending().len() + old(self).games().len() < old(self).max_games() ==> {
                &&& r == Some(id)
                &&& final(self).pending() == spec_insert_pending(old(self).pending(), id, ServerPendingGame { white_player: client_id, created })
            },
            final(self).games() == old(self).games(),
            final(self).names() == old(self).names(),
            final(self).ids() == old(self).ids(),
            final(self).max_games() == old(self).max_games(),
    {
        if self.game_count() >= self.max_games {
            return None;
        }
        let ghost before = self.pending@;
        let game = ServerPendingGame { white_player: client_id, created };
        match self.find_pending(&id) {
            Some(k) => {
                self.pending.set(k, PendingEntry { id: self.pending[k].id.clone(), game });
                proof {
                    assert forall|i: int, j: int| #![trigger self.pending@[i], self.pending@[j]] 0 <= i < j < self.pending@.len() implies self.pending@[i].id@ != self.pending@[j].id@ by {
                        assert(before[i].id@ != before[j].id@);
                    }
                }
            },
            None => {
                proof {
                    lemma_find_pending_none(before, id@, 0);
                }
                self.pending.push(PendingEntry { id: id.clone(), game });
                proof {
                    assert forall|i: int, j: int| #![trigger self.pending@[i], self.pending@[j]] 0 <= i < j < self.pending@.len() implies self.pending@[i].id@ != self.pending@[j].id@ by {
                        if j < before.len() {
                            assert(before[i].id@ != before[j].id@);
                        } else {
                            assert(before[i].id@ != id@);
                        }
                    }
                }
            },
        }
        assert(self.pending@ =~= spec_insert_pending(before, id, game));
        Some(id)
    }

    /// Creates a pending game for `client_id` under a fresh random id,
    /// stamped with the current time, unless the server is full.
    pub fn create_game(&mut self, client_id: ClientId) -> (r: Option<String>)
        requires
            old(self).wf(),
        ensures
            final(self).wf(),
            spec_create(*old(self), *final(self), client_id, r),
    {
        if self.game_count() >= self.max_games {
            return None;
        }
        let ghost before = self.pending@;
        let id = new_game_id();
        let created = now_millis();
        let ghost gid = id;
        let r = self.create_game_with(client_id, id, created);
        assert(self.pending@ == spec_insert_pending(before, gid, ServerPendingGame { white_player: client_id, created }));
        assert(r == Some(gid));
        assert(spec_insert_pending(old(self).pending(), gid, spec_pending_game(client_id, created)) == self.pending());
        r
    }
}


/// The active game created when `client` joins pending game `k` (id `id`)
/// of `old` as Black: a fresh Standard game, White to move.
pub open spec fn spec_new_active(e: ServerActiveGame, old: AppState, k: int, id: Seq<char>, client: ClientId) -> bool {
    &&& e.white_player == old.pending()[k].game.white_player
    &&& e.black_player == client
    &&& e.game.id@ == id
    &&& e.game.white_player_name@ == spec_name_of(old.names(), e.white_player)
    &&& e.game.black_player_name@ == spec_name_of(old.names(), client)
    &&& e.game.game.board@ == crate::engine::layouts::spec_layout(crate::engine::types::CrownfallBoardVariant::Normal, false)
    &&& e.game.game.board.spec_variant() == crate::engine::types::CrownfallBoardVariant::Normal
    &&& e.game.game.state == crate::engine::setup::spec_white_to_move()
    &&& e.game.game.rules == crate::engine::types::spec_custom(crate::engine::types::CrownfallBoardVariant::Normal, false, false, false, false)
    &&& e.game.game.history@ == seq![crate::engine::hash::spec_position_hash(e.game.game.board@, CrownfallPlayerKind::White)]
    &&& e.game.game.moves_since_capture == 0
}

/// Whether `client` can join pending game `id`: it is logged in and the
/// game is pending.
pub open spec fn spec_can_join(old: AppState, id: Seq<char>, client: ClientId) -> bool {
    spec_find_name(old.names(), client, 0) is Some && spec_find_pending(old.pending(), id, 0) is Some
}

/// Where a joined game `id` is stored afterwards: in place of an active
/// game with the same id, or appended.
pub open spec fn spec_join_slot(old: AppState, new: AppState, id: Seq<char>) -> int {
    match spec_find_active(old.games(), id, 0) {
        Some(j) => j,
        None => new.games().len() - 1,
    }
}

/// The state after `client` asks to join pending game `id`: when it can,
/// the pending game is removed and a fresh active game stored under its id
/// (every other active game kept); otherwise nothing changes.
pub open spec fn spec_join(old: AppState, new: AppState, id: Seq<char>, client: ClientId) -> bool {
    &&& new.names() == old.names()
    &&& new.ids() == old.ids()
    &&& new.max_games() == old.max_games()
    &&& !spec_can_join(old, id, client) ==> new.pending() == old.pending() && new.games() == old.games()
    &&& spec_can_join(old, id, client) ==> {
        let k = spec_find_pending(old.pending(), id, 0).unwrap();
        let j = spec_join_slot(old, new, id);
        &&& new.pending() == old.pending().remove(k)
        &&& new.games().len() == old.games().len() + (if spec_find_active(old.games(), id, 0) is Some { 0int } else { 1int })
        &&& 0 <= j < new.games().len()
        &&& new.games()[j].id@ == id
        &&& spec_new_active(new.games()[j].game, old, k, id, client)
        &&& forall|i: int| 0 <= i < old.games().len() && i != j ==> #[trigger] new.games()[i] == old.games()[i]
    }
}

impl AppState {
    /// `client_id` joins the pending game `id` as Black: the game becomes an
    /// active game on a fresh Standard board. `None` (and no change) when
    /// the client is not logged in or `id` is not pending.
    pub fn join_game(&mut self, id: &String, client_id: ClientId) -> (r: Option<ServerActiveGame>)
        requires
            old(self).wf(),
        ensures
            final(self).wf(),
            spec_join(*old(self), *final(self), id@, client_id),
            spec_can_join(*old(self), id@, client_id) <==> r is Some,
            r matches Some(g) ==> spec_same_active(g, final(self).games()[spec_join_slot(*old(self), *final(self), id@)].game),
    {
        let username = match self.find_name(client_id) {
            Some(k) => self.names[k].name.clone(),
            None => {
                return None;
            },
        };
        let k = match self.find_pending(id) {
            Some(k) => k,
            None => {
                return None;
            },
        };
        let ghost pending_before = self.pending@;
        let pending = self.pending.remove(k);
        proof {
            assert forall|i: int, j: int| #![trigger self.pending@[i], self.pending@[j]] 0 <= i < j < self.pending@.len() implies self.pending@[i].id@ != self.pending@[j].id@ by {
                let a = if i < k { i } else { i + 1 };
                let b = if j < k { j } else { j + 1 };
                assert(self.pending@[i] == pending_before[a]);
                assert(self.pending@[j] == pending_before[b]);
                assert(pending_before[a].id@ != pending_before[b].id@);
            }
        }
        let white_player_name = self.name_of(pending.game.white_player);
        let active = ServerActiveGame {
            game: WebGame {
                id: id.clone(),
                game: CrownfallGame::default(),
                white_player_name,
                black_player_name: username,
            },
            white_player: pending.game.white_player,
            black_player: client_id,
        };
        let stored = copy_active(&active);
        let ghost before = self.games@;
        match self.find_active(id) {
            Some(j) => {
                let entry_id = self.games[j].id.clone();
                self.games.set(j, ActiveEntry { id: entry_id, game: stored });
                proof {
                    lemma_find_active_some(before, id@, 0);
                    assert forall|a: int, b: int| #![trigger self.games@[a], self.games@[b]] 0 <= a < b < self.games@.len() implies self.games@[a].id@ != self.games@[b].id@ by {
                        assert(before[a].id@ != before[b].id@);
                    }
                }
            },
            None => {
                proof {
                    lemma_find_active_none(before, id@, 0);
                }
                self.games.push(ActiveEntry { id: id.clone(), game: stored });
                proof {
                    assert forall|a: int, b: int| #![trigger self.games@[a], self.games@[b]] 0 <= a < b < self.games@.len() implies self.games@[a].id@ != self.games@[b].id@ by {
                        if b < before.len() {
                            assert(before[a].id@ != before[b].id@);
                        } else {
                            assert(before[a].id@ != id@);
                        }
                    }
                }
            },
        }
        proof {
            assert forall|i: int| 0 <= i < self.games@.len() implies (#[trigger] self.games@[i]).game.game.game.spec_playable() by {
                if i < before.len() && self.games@[i] == before[i] {
                    assert(before[i].game.game.game.spec_playable());
                }
            }
        }
        Some(active)
    }
}

/// The answer to `client` performing `action` in game `id`.
pub open spec fn spec_perform_response(old: AppState, id: Seq<char>, client: ClientId, action: CrownfallPlayerAction) -> PerformActionState {
    match spec_find_active(old.games(), id, 0) {
        None => PerformActionState::InvalidGame,
        Some(k) => if spec_seat(old.games()[k].game, action) != client {
            PerformActionState::NotYourTurn
        } else if spec_apply_action(old.games()[k].game.game.game.snap(), action, true) is Err {
            PerformActionState::NotYourTurn
        } else {
            PerformActionState::Done
        },
    }
}

/// The state after `client` performs `action` in game `id`: when accepted,
/// the stored game takes the action's outcome (everything else kept);
/// otherwise nothing changes.
pub open spec fn spec_perform(old: AppState, new: AppState, id: Seq<char>, client: ClientId, action: CrownfallPlayerAction) -> bool {
    &&& new.pending() == old.pending()
    &&& new.names() == old.names()
    &&& new.ids() == old.ids()
    &&& new.max_games() == old.max_games()
    &&& spec_perform_response(old, id, client, action) != PerformActionState::Done ==> new.games() == old.games()
    &&& spec_perform_response(old, id, client, action) == PerformActionState::Done ==> {
        let k = spec_find_active(old.games(), id, 0).unwrap();
        let before = old.games()[k].game;
        let after = new.games()[k].game;
        let o = spec_apply_action(before.game.game.snap(), action, true).unwrap();
        &&& new.games().len() == old.games().len()
        &&& after.game.game.board@ == o.cells
        &&& after.game.game.board.spec_variant() == before.game.game.board.spec_variant()
        &&& after.game.game.state == o.state
        &&& after.game.game.history@ == o.history
        &&& after.game.game.moves_since_capture == o.msc
        &&& after.game.game.rules == before.game.game.rules
        &&& after.game.id == before.game.id
        &&& after.game.white_player_name == before.game.white_player_name
        &&& after.game.black_player_name == before.game.black_player_name
        &&& after.white_player == before.white_player
        &&& after.black_player == before.black_player
        &&& new.games()[k].id == old.games()[k].id
        &&& forall|i: int| 0 <= i < old.games().len() && i != k ==> #[trigger] new.games()[i] == old.games()[i]
    }
}

/// The state after `client` leaves game `id`. A pending game is dropped
/// when its creator leaves. An active game is dropped when one of its
/// players leaves and the other is no longer logged in under their name
/// from the same client. Nothing else changes.
pub open spec fn spec_leave(old: AppState, new: AppState, id: Seq<char>, client: ClientId) -> bool {
    &&& new.names() == old.names()
    &&& new.ids() == old.ids()
    &&& new.max_games() == old.max_games()
    &&& match spec_find_pending(old.pending(), id, 0) {
        Some(k) => new.games() == old.games() && new.pending() == (
            if old.pending()[k].game.white_player == client { old.pending().remove(k) } else { old.pending() }),
        None => new.pending() == old.pending() && match spec_find_active(old.games(), id, 0) {
            None => new.games() == old.games(),
            Some(k) => {
                let g = old.games()[k].game;
                let seated = g.white_player == client || g.black_player == client;
                let other = if g.white_player == client { g.black_player } else { g.white_player };
                let other_name = if g.white_player == client { g.game.black_player_name@ } else { g.game.white_player_name@ };
                let other_connected = spec_find_id(old.ids(), other_name, 0) matches Some(j) && old.ids()[j].client == other;
                new.games() == (if seated && !other_connected { old.games().remove(k) } else { old.games() })
            },
        },
    }
}

proof fn lemma_find_pending_some(s: Seq<PendingEntry>, id: Seq<char>, i: int)
    requires
        0 <= i,
    ensures
        spec_find_pending(s, id, i) matches Some(k) ==> i <= k < s.len() && s[k].id@ == id,
    decreases s.len() - i,
{
    if i < s.len() {
        lemma_find_pending_some(s, id, i + 1);
    }
}

/// Law: leaving a pending game drops it exactly when the leaver created it.
/// When the creator leaves, no pending game with that id remains and the
/// others stay; a client that did not create the pending game `id` leaves
/// every pending game in place.
pub proof fn lemma_leave_pending(old: AppState, new: AppState, id: Seq<char>, client: ClientId)
    requires
        old.wf(),
        spec_leave(old, new, id, client),
    ensures
        (exists|k: int| 0 <= k < old.pending().len() && (#[trigger] old.pending()[k]).id@ == id && old.pending()[k].game.white_player == client) ==> {
            &&& forall|j: int| 0 <= j < new.pending().len() ==> (#[trigger] new.pending()[j]).id@ != id
            &&& new.pending().len() == old.pending().len() - 1
            &&& forall|j: int| 0 <= j < old.pending().len() && (#[trigger] old.pending()[j]).id@ != id ==> new.pending().contains(old.pending()[j])
        },
        (forall|k: int| 0 <= k < old.pending().len() && (#[trigger] old.pending()[k]).id@ == id ==> old.pending()[k].game.white_player != client)
            ==> new.pending() == old.pending(),
{
    old.lemma_keys_distinct();
    let s = old.pending();
    lemma_find_pending_some(s, id, 0);
    match spec_find_pending(s, id, 0) {
        Some(k) => {
            if exists|k2: int| 0 <= k2 < s.len() && (#[trigger] s[k2]).id@ == id && s[k2].game.white_player == client {
                let k2 = choose|k2: int| 0 <= k2 < s.len() && (#[trigger] s[k2]).id@ == id && s[k2].game.white_player == client;
                if k2 != k {
                    if k2 < k {
                        assert(s[k2].id@ != s[k].id@);
                    } else {
                        assert(s[k].id@ != s[k2].id@);
                    }
                }
                let t = s.remove(k);
                assert forall|j: int| 0 <= j < t.len() implies (#[trigger] t[j]).id@ != id by {
                    if j < k {
                        assert(s[j].id@ != s[k].id@);
                    } else {
                        assert(t[j] == s[j + 1]);
                        assert(s[k].id@ != s[j + 1].id@);
                    }
                }
                assert forall|j: int| 0 <= j < s.len() && (#[trigger] s[j]).id@ != id implies t.contains(s[j]) by {
                    if j < k {
                        assert(t[j] == s[j]);
                    } else {
                        assert(j != k);
                        assert(t[j - 1] == s[j]);
                    }
                }
            }
        },
        None => {
            lemma_find_pending_none(s, id, 0);
        },
    }
}

impl AppState {
    /// Applies `action` from `client_id` to the active game `id`. Refused
    /// with `InvalidGame` when there is no such game, and with
    /// `NotYourTurn` when the client does not hold the acting side's seat or
    /// the game refuses the action; otherwise the stored game is updated and
    /// a copy returned with the turn result.
    pub fn perform_action(&mut self, id: &String, client_id: ClientId, action: CrownfallPlayerAction) -> (r: Result<(ServerActiveGame, Option<CrownfallTurnResult>), PerformActionState>)
        requires
            old(self).wf(),
        ensures
            final(self).wf(),
            spec_perform(*old(self), *final(self), id@, client_id, action),
            r matches Err(e) ==> e == spec_perform_response(*old(self), id@, client_id, action) && e != PerformActionState::Done,
            r is Ok <==> spec_perform_response(*old(self), id@, client_id, action) == PerformActionState::Done,
            r matches Ok((g, res)) ==> {
                let k = spec_find_active(old(self).games(), id@, 0).unwrap();
                &&& res == spec_apply_action(old(self).games()[k].game.game.game.snap(), action, true).unwrap().result
                &&& spec_same_active(g, final(self).games()[k].game)
            },
    {
        let k = match self.find_active(id) {
            Some(k) => k,
            None => {
                return Err(PerformActionState::InvalidGame);
            },
        };
        let expected_client = match action.player() {
            CrownfallPlayerKind::White => self.games[k].game.white_player,
            CrownfallPlayerKind::Black => self.games[k].game.black_player,
        };
        if expected_client != client_id {
            return Err(PerformActionState::NotYourTurn);
        }
        proof {
            assert(self.games@[k as int].game.game.game.spec_playable());
        }
        let working = copy_game(&self.games[k].game.game.game);
        match working.handle_player_action(action) {
            Ok((game, result)) => {
                let ghost before = self.games@;
                proof {
                    crate::engine::laws::lemma_action_follows(before[k as int].game.game.game.snap(), action, true);
                }
                self.games[k].game.game.game = game;
                proof {
                    assert forall|i: int| 0 <= i < self.games@.len() implies (#[trigger] self.games@[i]).game.game.game.spec_playable() by {
                        if i != k {
                            assert(self.games@[i] == before[i]);
                            assert(before[i].game.game.game.spec_playable());
                        }
                    }
                }
                Ok((copy_active(&self.games[k].game), result))
            },
            Err(_) => Err(PerformActionState::NotYourTurn),
        }
    }

    /// `client_id` leaves game `id` (see `spec_leave`).
    pub fn leave_game(&mut self, id: &String, client_id: ClientId)
        requires
            old(self).wf(),
        ensures
            final(self).wf(),
            spec_leave(*old(self), *final(self), id@, client_id),
    {
        match self.find_pending(id) {
            Some(k) => {
                if self.pending[k].game.white_player == client_id {
                    self.pending.remove(k);
                }
                return;
            },
            None => {},
        }
        let k = match self.find_active(id) {
            Some(k) => k,
            None => {
                return;
            },
        };
        let white = self.games[k].game.white_player;
        let black = self.games[k].game.black_player;
        let (other_client, other_name) = if white == client_id {
            (black, self.games[k].game.game.black_player_name.clone())
        } else if black == client_id {
            (white, self.games[k].game.game.white_player_name.clone())
        } else {
            return;
        };
        let other_connected = match self.find_id(&other_name) {
            Some(j) => self.ids[j].client == other_client,
            None => false,
        };
        if !other_connected {
            let ghost before = self.games@;
            self.games.remove(k);
            proof {
                assert forall|i: int| 0 <= i < self.games@.len() implies (#[trigger] self.games@[i]).game.game.game.spec_playable() by {
                    if i < k {
                        assert(self.games@[i] == before[i]);
                    } else {
                        assert(self.games@[i] == before[i + 1]);
                    }
                }
            }
        }
    }
}


/// The `k`-th outgoing packet goes to `client`.
pub open spec fn spec_sent_to(out: Seq<(ClientId, Packet)>, k: int, client: ClientId) -> bool {
    0 <= k < out.len() && out[k].0 == client
}

impl AppState {
    /// What the server does with one packet from `client_id`: the state
    /// change, and the packets to send, in order, each with its recipient.
    pub fn handle_packet(&mut self, client_id: ClientId, packet: Packet) -> (out: Vec<(ClientId, Packet)>)
        requires
            old(self).wf(),
        ensures
            final(self).wf(),
            match packet {
                Packet::LoginRequest(username) => {
                    &&& out@.len() == 1
                    &&& spec_sent_to(out@, 0, client_id)
                    &&& spec_login(*old(self), *final(self), client_id, username)
                    &&& out@[0].1 matches Packet::LoginResponse(resp) && spec_reported_game(*final(self), client_id, resp)
                },
                Packet::PendingListRequest => {
                    &&& out@.len() == 1
                    &&& spec_sent_to(out@, 0, client_id)
                    &&& out@[0].1 matches Packet::PendingListResponse(list) && spec_listed(*old(self), list@)
                    &&& *final(self) == *old(self)
                },
                Packet::CreateGameRequest => {
                    &&& out@.len() == 1
                    &&& spec_sent_to(out@, 0, client_id)
                    &&& out@[0].1 matches Packet::CreateGameResponse(created) && spec_create(*old(self), *final(self), client_id, created)
                },
                Packet::JoinGameRequest(game_id) => {
                    let joined = spec_can_join(*old(self), game_id@, client_id);
                    &&& spec_join(*old(self), *final(self), game_id@, client_id)
                    &&& out@.len() == (if joined { 2int } else { 1int })
                    &&& spec_sent_to(out@, 0, client_id)
                    &&& out@[0].1 matches Packet::JoinGameResponse(echo, ok) && echo == game_id && ok == joined
                    &&& joined ==> ({
                        let stored = final(self).games()[spec_join_slot(*old(self), *final(self), game_id@)].game;
                        &&& spec_sent_to(out@, 1, stored.white_player)
                        &&& out@[1].1 matches Packet::GameUpdateCommand(w, res) && res is None && spec_same_web(w, stored.game)
                    })
                },
                Packet::PollGameRequest(game_id) => {
                    &&& out@.len() == 1
                    &&& spec_sent_to(out@, 0, client_id)
                    &&& out@[0].1 matches Packet::PollGameResponse(state) && match spec_find_active(old(self).games(), game_id@, 0) {
                        Some(k) => state matches NetGameState::Active(w) && spec_same_web(w, old(self).games()[k].game.game),
                        None => state is InvalidGame,
                    }
                    &&& *final(self) == *old(self)
                },
                Packet::PollPendingGameRequest(game_id) => {
                    &&& out@.len() == 1
                    &&& spec_sent_to(out@, 0, client_id)
                    &&& out@[0].1 == Packet::PollPendingGameResponse(if spec_find_pending(old(self).pending(), game_id@, 0) is Some {
                        PendingGameState::Pending
                    } else if spec_find_active(old(self).games(), game_id@, 0) is Some {
                        PendingGameState::Joined
                    } else {
                        PendingGameState::Invalid
                    })
                    &&& *final(self) == *old(self)
                },
                Packet::PerformActionRequest(game_id, action) => {
                    let answer = spec_perform_response(*old(self), game_id@, client_id, action);
                    &&& spec_perform(*old(self), *final(self), game_id@, client_id, action)
                    &&& out@.len() == (if answer == PerformActionState::Done { 3int } else { 1int })
                    &&& spec_sent_to(out@, 0, client_id)
                    &&& out@[0].1 == Packet::PerformActionResponse(answer)
                    &&& answer == PerformActionState::Done ==> ({
                        let k = spec_find_active(old(self).games(), game_id@, 0).unwrap();
                        let after = final(self).games()[k].game;
                        let res = spec_apply_action(old(self).games()[k].game.game.game.snap(), action, true).unwrap().result;
                        &&& spec_sent_to(out@, 1, after.white_player)
                        &&& spec_sent_to(out@, 2, after.black_player)
                        &&& out@[1].1 matches Packet::GameUpdateCommand(w, r1) && r1 == res && spec_same_web(w, after.game)
                        &&& out@[2].1 matches Packet::GameUpdateCommand(w, r2) && r2 == res && spec_same_web(w, after.game)
                    })
                },
                Packet::LeaveGame(game_id) => out@.len() == 0 && spec_leave(*old(self), *final(self), game_id@, client_id),
                _ => out@.len() == 0 && *final(self) == *old(self),
            },
    {
        let mut out: Vec<(ClientId, Packet)> = Vec::new();
        match packet {
            Packet::LoginRequest(username) => {
                let existing = self.client_login(client_id, username);
                let game = match existing {
                    Some(sag) => Some(sag.game),
                    None => None,
                };
                out.push((client_id, Packet::LoginResponse(game)));
            },
            Packet::PendingListRequest => {
                let list = self.pending_list();
                out.push((client_id, Packet::PendingListResponse(list)));
            },
            Packet::CreateGameRequest => {
                let response = self.create_game(client_id);
                out.push((client_id, Packet::CreateGameResponse(response)));
            },
            Packet::JoinGameRequest(game_id) => {
                match self.join_game(&game_id, client_id) {
                    Some(active) => {
                        let white = active.white_player;
                        out.push((client_id, Packet::JoinGameResponse(game_id, true)));
                        out.push((white, Packet::GameUpdateCommand(active.game, None)));
                    },
                    None => {
                        out.push((client_id, Packet::JoinGameResponse(game_id, false)));
                    },
                }
            },
            Packet::PollGameRequest(game_id) => {
                let state = match self.poll_game(&game_id) {
                    Some(game) => crate::net::NetGameState::Active(game),
                    None => crate::net::NetGameState::InvalidGame,
                };
                out.push((client_id, Packet::PollGameResponse(state)));
            },
            Packet::PollPendingGameRequest(game_id) => {
                let state = self.poll_pending(&game_id);
                out.push((client_id, Packet::PollPendingGameResponse(state)));
            },
            Packet::PerformActionRequest(game_id, action) => {
                match self.perform_action(&game_id, client_id, action) {
                    Ok((active, result)) => {
                        out.push((client_id, Packet::PerformActionResponse(PerformActionState::Done)));
                        let white = active.white_player;
                        let black = active.black_player;
                        let update_white = Packet::GameUpdateCommand(copy_web_game(&active.game), result);
                        out.push((white, update_white));
                        out.push((black, Packet::GameUpdateCommand(active.game, result)));
                    },
                    Err(state) => {
                        out.push((client_id, Packet::PerformActionResponse(state)));
                    },
                }
            },
            Packet::LeaveGame(game_id) => {
                self.leave_game(&game_id, client_id);
            },
            _ => {},
        }
        out
    }
}

} // verus!
