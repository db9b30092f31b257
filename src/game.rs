//! Games and the game registry, with matchmaking.

use vstd::prelude::*;
use crate::registry::GameID;
use crate::text::text_eq;

verus! {

broadcast use vstd::std_specs::hash::group_hash_axioms;

/// Where a game stands.
#[derive(Clone, Copy, Debug, PartialEq, Eq, Structural)]
pub enum GameState {
    /// Waiting for this many more players.
    PendingPlayers(u32),
    Active,
    Paused,
}

/// The state of a game after one more player joins it: a game that waits
/// for one player becomes active, one that waits for more waits for one
/// fewer, and any other state stays.
pub open spec fn after_join(s: GameState) -> GameState {
    match s {
        GameState::PendingPlayers(n) => if n == 1 {
            GameState::Active
        } else {
            GameState::PendingPlayers((n - 1) as u32)
        },
        _ => s,
    }
}

/// The state of a game after `k` more players join it.
pub open spec fn after_joins(s: GameState, k: nat) -> GameState
    decreases k,
{
    if k == 0 {
        s
    } else {
        after_join(after_joins(s, (k - 1) as nat))
    }
}

/// A game created for `n` players stays pending while fewer than `n` have
/// joined, waiting for the rest, and becomes active exactly when the `n`-th
/// player joins.
pub proof fn lemma_active_exactly_at_lobby_size(n: u32, k: nat)
    requires
        n >= 1,
    ensures
        k < n ==> after_joins(GameState::PendingPlayers(n), k) == GameState::PendingPlayers(
            (n - k) as u32,
        ),
        k >= n ==> after_joins(GameState::PendingPlayers(n), k) == GameState::Active,
    decreases k,
{
    if k > 0 {
        lemma_active_exactly_at_lobby_size(n, (k - 1) as nat);
    }
}

/// Along any run of joins into a game created for `n` players, where each
/// state is `after_join` of the one before (what `Game::add_player` ensures
/// of each call), the game waits for `n - k` players after `k` joins while
/// `k < n`, and is active from the `n`-th join on.
pub proof fn lemma_join_run(states: Seq<GameState>, n: u32)
    requires
        n >= 1,
        states.len() >= 1,
        states[0] == GameState::PendingPlayers(n),
        forall|i: int| 0 <= i < states.len() - 1 ==> states[i + 1] == after_join(#[trigger] states[i]),
    ensures
        forall|k: int|
            0 <= k < states.len() && k < n ==> #[trigger] states[k] == GameState::PendingPlayers(
                (n - k) as u32,
            ),
        forall|k: int| 0 <= k < states.len() && k >= n ==> #[trigger] states[k] == GameState::Active,
{
    assert forall|k: int| 0 <= k < states.len() implies #[trigger] states[k] == after_joins(
        GameState::PendingPlayers(n),
        k as nat,
    ) by {
        lemma_run_prefix(states, n, k);
    }
    assert forall|k: int| 0 <= k < states.len() implies (k < n ==> #[trigger] states[k]
        == GameState::PendingPlayers((n - k) as u32)) && (k >= n ==> states[k] == GameState::Active) by {
        lemma_active_exactly_at_lobby_size(n, k as nat);
    }
}

proof fn lemma_run_prefix(states: Seq<GameState>, n: u32, k: int)
    requires
        0 <= k < states.len(),
        states[0] == GameState::PendingPlayers(n),
        forall|i: int| 0 <= i < states.len() - 1 ==> states[i + 1] == after_join(#[trigger] states[i]),
    ensures
        states[k] == after_joins(GameState::PendingPlayers(n), k as nat),
    decreases k,
{
    if k > 0 {
        lemma_run_prefix(states, n, k - 1);
        assert(states[(k - 1) + 1] == after_join(states[k - 1]));
    }
}

/// No identifier occurs twice in `s`.
pub open spec fn unique_names(s: Seq<String>) -> bool {
    forall|i: int, j: int| 0 <= i < j < s.len() ==> s[i]@ != s[j]@
}

/// The identifiers in `s`.
pub open spec fn name_set(s: Seq<String>) -> Set<Seq<char>> {
    Set::new(|k: Seq<char>| exists|i: int| 0 <= i < s.len() && s[i]@ == k)
}

/// A game: its state and the identifiers of its players.
pub struct Game {
    state: GameState,
    players: Vec<String>,
}

impl Game {
    /// The players' identifiers, as stored.
    pub closed spec fn player_list(&self) -> Seq<String> {
        self.players@
    }

    /// The identifiers of the players.
    pub open spec fn player_set(&self) -> Set<Seq<char>> {
        name_set(self.player_list())
    }

    /// The game's state.
    pub closed spec fn state_spec(&self) -> GameState {
        self.state
    }

    /// A game is well formed when no player occurs twice and a pending game
    /// waits for at least one player.
    pub open spec fn wf(&self) -> bool {
        &&& unique_names(self.player_list())
        &&& (self.state_spec() matches GameState::PendingPlayers(n) ==> n >= 1)
    }

    /// A game waiting for `lobby_size` players, with none yet.
    pub fn new(lobby_size: u32) -> (r: Game)
        requires
            lobby_size >= 1,
        ensures
            r.wf(),
            r.state_spec() == GameState::PendingPlayers(lobby_size),
            r.player_list().len() == 0,
            r.player_set() == Set::<Seq<char>>::empty(),
    {
        let r = Game { state: GameState::PendingPlayers(lobby_size), players: Vec::new() };
        assert(r.player_set() =~= Set::<Seq<char>>::empty());
        r
    }

    pub fn get_state(&self) -> (r: GameState)
        ensures
            r == self.state_spec(),
    {
        self.state
    }

    /// Sets the state; the players stay.
    pub fn set_state(&mut self, new_state: GameState)
        ensures
            final(self).state_spec() == new_state,
            final(self).player_list() == old(self).player_list(),
    {
        self.state = new_state;
    }

    /// The players' identifiers.
    pub fn players(&self) -> (r: &Vec<String>)
        ensures
            r@ == self.player_list(),
    {
        &self.players
    }

    fn find_player(&self, id: &str) -> (r: Option<usize>)
        ensures
            r matches Some(i) ==> i < self.player_list().len() && self.player_list()[i as int]@ == id@,
            r is None ==> !self.player_set().contains(id@),
    {
        let mut i: usize = 0;
        while i < self.players.len()
            invariant
                i <= self.players@.len(),
                forall|j: int| 0 <= j < i ==> self.players@[j]@ != id@,
            decreases self.players.len() - i,
        {
            if text_eq(self.players[i].as_str(), id) {
                return Some(i);
            }
            i = i + 1;
        }
        None
    }

    /// Whether this game waits for players.
    pub fn waits_for_players(&self) -> (r: bool)
        ensures
            r == is_pending(*self),
    {
        match self.state {
            GameState::PendingPlayers(_) => true,
            _ => false,
        }
    }

    /// Whether `id` is among the players.
    pub fn has_player(&self, id: &str) -> (r: bool)
        ensures
            r == self.player_set().contains(id@),
    {
        self.find_player(id).is_some()
    }

    /// Adds a player to a pending game, which then waits for one player
    /// fewer, or becomes active when it waited for one. A game that is not
    /// pending is left as it is.
    pub fn add_player(&mut self, player_id: String)
        requires
            old(self).wf(),
        ensures
            final(self).wf(),
            final(self).state_spec() == after_join(old(self).state_spec()),
            old(self).state_spec() is PendingPlayers ==> final(self).player_set() == old(
                self,
            ).player_set().insert(player_id@),
            !(old(self).state_spec() is PendingPlayers) ==> final(self).player_list() == old(
                self,
            ).player_list(),
    {
        match self.state {
            GameState::PendingPlayers(n) => {
                if n == 1 {
                    self.state = GameState::Active;
                } else {
                    self.state = GameState::PendingPlayers(n - 1);
                }
                match self.find_player(player_id.as_str()) {
                    Some(i) => {
                        assert(self.player_set().insert(player_id@) =~= self.player_set());
                    },
                    None => {
                        let ghost before = self.players@;
                        self.players.push(player_id);
                        proof {
                            let after = self.players@;
                            assert forall|a: int, b: int| 0 <= a < b < after.len() implies after[a]@
                                != after[b]@ by {
                                if b == before.len() {
                                    assert(!(exists|i: int| 0 <= i < before.len() && before[i]@ == after[b]@));
                                    assert(before[a]@ != after[b]@);
                                }
                            }
                            assert forall|k: Seq<char>| name_set(after).contains(k) == name_set(before).insert(
                                after[before.len() as int]@,
                            ).contains(k) by {
                                if name_set(after).contains(k) {
                                    let i = choose|i: int| 0 <= i < after.len() && after[i]@ == k;
                                    if i < before.len() {
                                        assert(before[i]@ == k);
                                    }
                                }
                                if name_set(before).contains(k) {
                                    let i = choose|i: int| 0 <= i < before.len() && before[i]@ == k;
                                    assert(after[i]@ == k);
                                }
                                if k == after[before.len() as int]@ {
                                    assert(after[before.len() as int]@ == k);
                                }
                            }
                            assert(name_set(after) =~= name_set(before).insert(player_id@));
                        }
                    },
                }
            },
            _ => {},
        }
    }

    /// Removes a player; the state of the game stays. Returns whether `id`
    /// was a player.
    pub fn remove_player(&mut self, id: &str) -> (r: bool)
        requires
            old(self).wf(),
        ensures
            final(self).wf(),
            final(self).state_spec() == old(self).state_spec(),
            final(self).player_set() == old(self).player_set().remove(id@),
            r == old(self).player_set().contains(id@),
    {
        match self.find_player(id) {
            Some(i) => {
                let ghost before = self.players@;
                self.players.remove(i);
                proof {
                    let after = self.players@;
                    let ii = i as int;
                    assert forall|a: int, b: int| 0 <= a < b < after.len() implies after[a]@
                        != after[b]@ by {
                        let a0 = if a < ii { a } else { a + 1 };
                        let b0 = if b < ii { b } else { b + 1 };
                        assert(after[a] == before[a0]);
                        assert(after[b] == before[b0]);
                    }
                    assert forall|k: Seq<char>| name_set(after).contains(k) == name_set(before).remove(
                        id@,
                    ).contains(k) by {
                        if name_set(after).contains(k) {
                            let j = choose|j: int| 0 <= j < after.len() && after[j]@ == k;
                            let j0 = if j < ii { j } else { j + 1 };
                            assert(after[j] == before[j0]);
                            if j0 < ii {
                                assert(before[j0]@ != before[ii]@);
                            } else {
                                assert(before[ii]@ != before[j0]@);
                            }
                        }
                        if name_set(before).contains(k) && k != id@ {
                            let j = choose|j: int| 0 <= j < before.len() && before[j]@ == k;
                            if j < ii {
                                assert(after[j]@ == k);
                            } else {
                                assert(j != ii);
                                assert(after[j - 1]@ == k);
                            }
                        }
                    }
                    assert(name_set(after) =~= name_set(before).remove(id@));
                }
                true
            },
            None => {
                assert(self.player_set().remove(id@) =~= self.player_set());
                false
            },
        }
    }
}

/// Whether `g` waits for players.
pub open spec fn is_pending(g: Game) -> bool {
    g.state_spec() is PendingPlayers
}

/// The first pending game of `s` is at `p`.
pub open spec fn first_pending_at(s: Seq<Game>, p: int) -> bool {
    &&& 0 <= p < s.len()
    &&& is_pending(s[p])
    &&& forall|j: int| 0 <= j < p ==> !is_pending(s[j])
}

/// `t` is `s` after `player` joined its first pending game, at `gid`.
pub open spec fn joined_existing(s: Seq<Game>, t: Seq<Game>, gid: int, player: Seq<char>) -> bool {
    &&& first_pending_at(s, gid)
    &&& t.len() == s.len()
    &&& forall|j: int| 0 <= j < s.len() && j != gid ==> t[j] == s[j]
    &&& t[gid].state_spec() == after_join(s[gid].state_spec())
    &&& t[gid].player_set() == s[gid].player_set().insert(player)
}

/// `t` is `s` with a new game at the end that `player` joined: `s` had no
/// pending game.
pub open spec fn joined_new(s: Seq<Game>, t: Seq<Game>, lobby: u32, player: Seq<char>) -> bool {
    &&& forall|j: int| 0 <= j < s.len() ==> !is_pending(s[j])
    &&& t.len() == s.len() + 1
    &&& t.subrange(0, s.len() as int) == s
    &&& t[s.len() as int].state_spec() == after_join(GameState::PendingPlayers(lobby))
    &&& t[s.len() as int].player_set() == Set::<Seq<char>>::empty().insert(player)
}

/// The keys of `m` are exactly the identifiers below its size.
pub open spec fn dense_ids(m: Map<GameID, Game>) -> bool {
    &&& m.dom().finite()
    &&& forall|k: GameID| #[trigger] m.contains_key(k) <==> (k as int) < m.len()
}

/// The games of `m` in order of identifier.
pub open spec fn games_in_order(m: Map<GameID, Game>) -> Seq<Game> {
    Seq::new(m.len(), |i: int| m[i as GameID])
}

proof fn lemma_replace_game(m: Map<GameID, Game>, i: int, g: Game)
    requires
        dense_ids(m),
        0 <= i < m.len(),
        m.len() <= u32::MAX as int + 1,
    ensures
        dense_ids(m.insert(i as GameID, g)),
        m.insert(i as GameID, g).len() == m.len(),
        games_in_order(m.insert(i as GameID, g)) =~= games_in_order(m).update(i, g),
{
    assert(m.contains_key(i as GameID));
    assert(m.insert(i as GameID, g).dom() =~= m.dom());
}

proof fn lemma_add_game(m: Map<GameID, Game>, g: Game)
    requires
        dense_ids(m),
        m.len() <= u32::MAX,
    ensures
        dense_ids(m.insert(m.len() as GameID, g)),
        m.insert(m.len() as GameID, g).len() == m.len() + 1,
        games_in_order(m.insert(m.len() as GameID, g)) =~= games_in_order(m).push(g),
{
    let k = m.len() as GameID;
    assert(!m.contains_key(k));
    assert(m.insert(k, g).dom() =~= m.dom().insert(k));
}

/// The registry of games, keyed by identifier. A new game takes the
/// registry's size as its identifier, and games are never taken out, so the
/// identifiers are exactly those below the size.
pub struct GameRegistry {
    games: std::collections::HashMap<GameID, Game>,
    lobby_size: u32,
}

impl GameRegistry {
    /// The games, by identifier.
    pub closed spec fn game_list(&self) -> Seq<Game> {
        games_in_order(self.games@)
    }

    /// How many players a new game waits for.
    pub closed spec fn lobby(&self) -> u32 {
        self.lobby_size
    }

    /// The keys are the identifiers below the number of games.
    pub closed spec fn ids_dense(&self) -> bool {
        dense_ids(self.games@)
    }

    pub open spec fn wf(&self) -> bool {
        &&& self.ids_dense()
        &&& self.lobby() >= 1
        &&& self.game_list().len() <= u32::MAX as int + 1
        &&& forall|i: int| 0 <= i < self.game_list().len() ==> #[trigger] self.game_list()[i].wf()
    }

    /// An empty registry whose new games wait for `lobby_size` players.
    pub fn new(lobby_size: u32) -> (r: GameRegistry)
        requires
            lobby_size >= 1,
        ensures
            r.wf(),
            r.lobby() == lobby_size,
            r.game_list().len() == 0,
    {
        let r = GameRegistry { games: std::collections::HashMap::new(), lobby_size };
        assert(r.games@ =~= Map::<GameID, Game>::empty());
        r
    }

    /// The number of games.
    pub fn len(&self) -> (r: usize)
        requires
            self.wf(),
        ensures
            r == self.game_list().len(),
    {
        self.games.len()
    }

    /// The game with identifier `id`.
    pub fn get(&self, id: GameID) -> (r: Option<&Game>)
        requires
            self.wf(),
        ensures
            r matches Some(g) ==> id < self.game_list().len() && *g == self.game_list()[id as int],
            r is None ==> id >= self.game_list().len(),
    {
        let r = self.games.get(&id);
        proof {
            if id < self.games@.len() {
                assert(self.games@.contains_key(id));
                assert(self.game_list()[id as int] == self.games@[(id as int) as GameID]);
            }
        }
        r
    }

    fn is_pending_at(&self, i: usize) -> (r: bool)
        requires
            self.wf(),
            i < self.game_list().len(),
        ensures
            r == is_pending(self.game_list()[i as int]),
    {
        match self.get(i as GameID) {
            Some(g) => g.waits_for_players(),
            None => false,
        }
    }

    /// Places a player in a game: the first game that waits for players, or
    /// else a new game, which takes the next identifier. Returns the game's
    /// identifier; `None` only when a new game is needed and every identifier
    /// is taken.
    pub fn join(&mut self, player_id: String) -> (r: Option<GameID>)
        requires
            old(self).wf(),
        ensures
            final(self).wf(),
            final(self).lobby() == old(self).lobby(),
            r matches Some(gid) ==> gid <= old(self).game_list().len(),
            r is Some && r->Some_0 < old(self).game_list().len() ==> joined_existing(
                old(self).game_list(),
                final(self).game_list(),
                r->Some_0 as int,
                player_id@,
            ),
            r is Some && r->Some_0 == old(self).game_list().len() ==> joined_new(
                old(self).game_list(),
                final(self).game_list(),
                old(self).lobby(),
                player_id@,
            ),
            r is None ==> {
                &&& final(self).game_list() == old(self).game_list()
                &&& old(self).game_list().len() > u32::MAX
                &&& forall|j: int| 0 <= j < old(self).game_list().len() ==> !is_pending(old(self).game_list()[j])
            },
    {
        let n = self.len();
        let mut i: usize = 0;
        while i < n && !self.is_pending_at(i)
            invariant
                self.wf(),
                n == self.game_list().len(),
                i <= n,
                forall|j: int| 0 <= j < i ==> !is_pending(self.game_list()[j]),
            decreases n - i,
        {
            i = i + 1;
        }
        let ghost s = self.game_list();
        let ghost m = self.games@;
        if i < n {
            let id = i as GameID;
            let mut g = match self.games.remove(&id) {
                Some(g) => g,
                None => {
                    assert(m.contains_key(id));
                    return None;
                },
            };
            assert(g == s[i as int]);
            g.add_player(player_id);
            self.games.insert(id, g);
            proof {
                assert(self.games@ =~= m.insert(id, g));
                lemma_replace_game(m, i as int, g);
                let t = self.game_list();
                assert(t =~= s.update(i as int, g));
                assert forall|j: int| 0 <= j < t.len() implies #[trigger] t[j].wf() by {
                    if j != i {
                        assert(t[j] == s[j]);
                    }
                }
            }
            Some(id)
        } else if n <= u32::MAX as usize {
            let gid = n as GameID;
            let mut g = Game::new(self.lobby_size);
            g.add_player(player_id);
            assert(g.player_set() =~= Set::<Seq<char>>::empty().insert(player_id@));
            self.games.insert(gid, g);
            proof {
                lemma_add_game(m, g);
                let t = self.game_list();
                assert(t =~= s.push(g));
                assert(t.subrange(0, s.len() as int) =~= s);
                assert forall|j: int| 0 <= j < t.len() implies #[trigger] t[j].wf() by {
                    if j < s.len() {
                        assert(t[j] == s[j]);
                    }
                }
            }
            Some(gid)
        } else {
            None
        }
    }

    /// Removes a player from the game `id`; every game's state stays.
    /// Returns whether it was a player there.
    pub fn remove_player(&mut self, id: GameID, player_id: &str) -> (r: bool)
        requires
            old(self).wf(),
        ensures
            final(self).wf(),
            final(self).lobby() == old(self).lobby(),
            final(self).game_list().len() == old(self).game_list().len(),
            forall|j: int| 0 <= j < old(self).game_list().len() && j != id ==>
                final(self).game_list()[j] == old(self).game_list()[j],
            id < old(self).game_list().len() ==> {
                &&& final(self).game_list()[id as int].state_spec() == old(self).game_list()[id as int].state_spec()
                &&& final(self).game_list()[id as int].player_set() == old(self).game_list()[id as int].player_set().remove(player_id@)
                &&& r == old(self).game_list()[id as int].player_set().contains(player_id@)
            },
            id >= old(self).game_list().len() ==> final(self).game_list() == old(self).game_list() && !r,
    {
        let ghost s = self.game_list();
        let ghost m = self.games@;
        let mut g = match self.games.remove(&id) {
            Some(g) => g,
            None => {
                assert(self.games@ =~= m);
                return false;
            },
        };
        let ghost i = id as int;
        assert(m.contains_key(id));
        assert(g == s[i]);
        let r = g.remove_player(player_id);
        self.games.insert(id, g);
        proof {
            assert(self.games@ =~= m.insert(id, g));
            lemma_replace_game(m, i, g);
            let t = self.game_list();
            assert(t =~= s.update(i, g));
            assert forall|j: int| 0 <= j < t.len() implies #[trigger] t[j].wf() by {
                if j != i {
                    assert(t[j] == s[j]);
                }
            }
        }
        r
    }
}

} // verus!
