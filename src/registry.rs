//! The client registry: one record for each identified client.

use vstd::prelude::*;
use crate::text::text_eq;

verus! {

/// The identifier a client gives for itself during the handshake.
pub type ClientID = String;

/// The key of a game in the game registry.
pub type GameID = u32;

/// Where a client stands.
/// * Waiting - in the lobby, not playing any game
/// * InQueue - in the lobby, placed in a game that waits for players
/// * InGame - playing a game
#[derive(Clone, Copy, Debug, PartialEq, Eq, Structural)]
pub enum ClientState {
    Waiting,
    InQueue,
    InGame,
}

/// The server's record of an identified client.
#[derive(Clone, Debug, PartialEq, Eq)]
pub struct Client {
    pub id: ClientID,
    pub game_id: Option<GameID>,
    pub state: ClientState,
}

impl Client {
    /// The record of a client that has just identified itself: waiting, in no
    /// game.
    pub fn new(id: ClientID) -> (r: Client)
        ensures
            r.id == id,
            r.game_id is None,
            r.state == ClientState::Waiting,
    {
        Client { id, game_id: None, state: ClientState::Waiting }
    }
}

/// No two records in `s` carry the same identifier.
pub open spec fn unique_ids(s: Seq<Client>) -> bool {
    forall|i: int, j: int| 0 <= i < j < s.len() ==> s[i].id@ != s[j].id@
}

/// Some record in `s` carries the identifier `k`.
pub open spec fn has_id(s: Seq<Client>, k: Seq<char>) -> bool {
    exists|i: int| 0 <= i < s.len() && s[i].id@ == k
}

/// The records of `s` keyed by identifier.
pub open spec fn record_map(s: Seq<Client>) -> Map<Seq<char>, Client> {
    Map::new(
        |k: Seq<char>| has_id(s, k),
        |k: Seq<char>| s[choose|i: int| 0 <= i < s.len() && s[i].id@ == k],
    )
}

/// With unique identifiers, the record keyed by an identifier is the one
/// that carries it.
pub proof fn lemma_record_at(s: Seq<Client>, i: int)
    requires
        unique_ids(s),
        0 <= i < s.len(),
    ensures
        record_map(s).contains_key(s[i].id@),
        record_map(s)[s[i].id@] == s[i],
{
    let k = s[i].id@;
    assert(has_id(s, k));
    let j = choose|j: int| 0 <= j < s.len() && s[j].id@ == k;
    if j < i {
        assert(s[j].id@ != s[i].id@);
    } else if j > i {
        assert(s[i].id@ != s[j].id@);
    }
}

proof fn lemma_record_map_push(s: Seq<Client>, c: Client)
    requires
        unique_ids(s),
        !has_id(s, c.id@),
    ensures
        unique_ids(s.push(c)),
        record_map(s.push(c)) =~= record_map(s).insert(c.id@, c),
{
    let t = s.push(c);
    assert forall|i: int, j: int| 0 <= i < j < t.len() implies t[i].id@ != t[j].id@ by {
        if j == s.len() {
            assert(s[i].id@ != c.id@);
        }
    }
    assert forall|k: Seq<char>| #[trigger] has_id(t, k) == (has_id(s, k) || k == c.id@) by {
        if has_id(t, k) {
            let i = choose|i: int| 0 <= i < t.len() && t[i].id@ == k;
            if i < s.len() {
                assert(s[i].id@ == k);
            }
        }
        if has_id(s, k) {
            let i = choose|i: int| 0 <= i < s.len() && s[i].id@ == k;
            assert(t[i].id@ == k);
        }
        if k == c.id@ {
            assert(t[s.len() as int].id@ == k);
        }
    }
    assert forall|k: Seq<char>| #[trigger] record_map(t).contains_key(k) implies record_map(t)[k]
        == record_map(s).insert(c.id@, c)[k] by {
        let i = choose|i: int| 0 <= i < t.len() && t[i].id@ == k;
        lemma_record_at(t, i);
        if i < s.len() {
            lemma_record_at(s, i);
        }
    }
}

proof fn lemma_record_map_update(s: Seq<Client>, i: int, c: Client)
    requires
        unique_ids(s),
        0 <= i < s.len(),
        s[i].id@ == c.id@,
    ensures
        unique_ids(s.update(i, c)),
        record_map(s.update(i, c)) =~= record_map(s).insert(c.id@, c),
{
    let t = s.update(i, c);
    assert forall|a: int, b: int| 0 <= a < b < t.len() implies t[a].id@ != t[b].id@ by {
        assert(s[a].id@ != s[b].id@);
    }
    assert forall|k: Seq<char>| #[trigger] has_id(t, k) == has_id(s, k) by {
        if has_id(t, k) {
            let j = choose|j: int| 0 <= j < t.len() && t[j].id@ == k;
            assert(s[j].id@ == k);
        }
        if has_id(s, k) {
            let j = choose|j: int| 0 <= j < s.len() && s[j].id@ == k;
            assert(t[j].id@ == k);
        }
    }
    lemma_record_at(s, i);
    assert forall|k: Seq<char>| #[trigger] record_map(t).contains_key(k) implies record_map(t)[k]
        == record_map(s).insert(c.id@, c)[k] by {
        let j = choose|j: int| 0 <= j < t.len() && t[j].id@ == k;
        lemma_record_at(t, j);
        lemma_record_at(s, j);
    }
}

proof fn lemma_record_map_remove(s: Seq<Client>, i: int)
    requires
        unique_ids(s),
        0 <= i < s.len(),
    ensures
        unique_ids(s.remove(i)),
        record_map(s.remove(i)) =~= record_map(s).remove(s[i].id@),
{
    let t = s.remove(i);
    let gone = s[i].id@;
    assert forall|a: int, b: int| 0 <= a < b < t.len() implies t[a].id@ != t[b].id@ by {
        let a0 = if a < i { a } else { a + 1 };
        let b0 = if b < i { b } else { b + 1 };
        assert(t[a] == s[a0]);
        assert(t[b] == s[b0]);
    }
    assert forall|k: Seq<char>| #[trigger] has_id(t, k) == (has_id(s, k) && k != gone) by {
        if has_id(t, k) {
            let j = choose|j: int| 0 <= j < t.len() && t[j].id@ == k;
            let j0 = if j < i { j } else { j + 1 };
            assert(t[j] == s[j0]);
            assert(s[j0].id@ == k);
            if j0 < i {
                assert(s[j0].id@ != s[i].id@);
            } else {
                assert(s[i].id@ != s[j0].id@);
            }
        }
        if has_id(s, k) && k != gone {
            let j = choose|j: int| 0 <= j < s.len() && s[j].id@ == k;
            if j < i {
                assert(t[j].id@ == k);
            } else {
                assert(j != i);
                assert(t[j - 1].id@ == k);
            }
        }
    }
    assert forall|k: Seq<char>| #[trigger] record_map(t).contains_key(k) implies record_map(t)[k]
        == record_map(s).remove(gone)[k] by {
        let j = choose|j: int| 0 <= j < t.len() && t[j].id@ == k;
        let j0 = if j < i { j } else { j + 1 };
        assert(t[j] == s[j0]);
        lemma_record_at(t, j);
        lemma_record_at(s, j0);
    }
}

/// The registry of identified clients. It holds at most one record for each
/// identifier.
pub struct ClientRegistry {
    clients: Vec<Client>,
}

impl View for ClientRegistry {
    type V = Map<Seq<char>, Client>;

    closed spec fn view(&self) -> Map<Seq<char>, Client> {
        record_map(self.clients@)
    }
}

impl ClientRegistry {
    /// The records as they are stored.
    pub closed spec fn records(&self) -> Seq<Client> {
        self.clients@
    }

    /// The registry's invariant: one record for each identifier.
    pub closed spec fn wf(&self) -> bool {
        unique_ids(self.clients@)
    }

    /// An empty registry.
    pub fn new() -> (r: ClientRegistry)
        ensures
            r.wf(),
            r@ == Map::<Seq<char>, Client>::empty(),
    {
        let r = ClientRegistry { clients: Vec::new() };
        assert(r@ =~= Map::<Seq<char>, Client>::empty());
        r
    }

    fn find(&self, id: &str) -> (r: Option<usize>)
        ensures
            r matches Some(i) ==> i < self.clients@.len() && self.clients@[i as int].id@ == id@,
            r is None ==> !has_id(self.clients@, id@),
    {
        let mut i: usize = 0;
        while i < self.clients.len()
            invariant
                i <= self.clients@.len(),
                forall|j: int| 0 <= j < i ==> self.clients@[j].id@ != id@,
            decreases self.clients.len() - i,
        {
            if text_eq(self.clients[i].id.as_str(), id) {
                return Some(i);
            }
            i = i + 1;
        }
        None
    }

    /// The number of registered clients.
    pub fn len(&self) -> (r: usize)
        requires
            self.wf(),
        ensures
            r == self@.len(),
    {
        proof {
            self.lemma_len();
        }
        self.clients.len()
    }

    proof fn lemma_len(&self)
        requires
            self.wf(),
        ensures
            self@.len() == self.clients@.len(),
    {
        let s = self.clients@;
        let ids = s.map_values(|c: Client| c.id@);
        lemma_dom_is_ids(s);
        assert forall|i: int, j: int| 0 <= i < ids.len() && 0 <= j < ids.len() && i != j implies ids[i]
            != ids[j] by {
            if i < j {
                assert(s[i].id@ != s[j].id@);
            } else {
                assert(s[j].id@ != s[i].id@);
            }
        }
        assert(ids.no_duplicates());
        ids.unique_seq_to_set();
    }

    /// Whether a client with identifier `id` is registered.
    pub fn contains(&self, id: &str) -> (r: bool)
        requires
            self.wf(),
        ensures
            r == self@.contains_key(id@),
    {
        match self.find(id) {
            Some(i) => {
                proof {
                    lemma_record_at(self.clients@, i as int);
                }
                true
            },
            None => false,
        }
    }

    /// The record of the client with identifier `id`.
    pub fn get(&self, id: &str) -> (r: Option<&Client>)
        requires
            self.wf(),
        ensures
            r matches Some(c) ==> self@.contains_key(id@) && self@[id@] == *c && c.id@ == id@,
            r is None ==> !self@.contains_key(id@),
    {
        match self.find(id) {
            Some(i) => {
                proof {
                    lemma_record_at(self.clients@, i as int);
                }
                Some(&self.clients[i])
            },
            None => None,
        }
    }

    /// Registers `client`. A record with the same identifier is replaced: the
    /// latest one wins. Returns whether a record was replaced.
    pub fn add_client(&mut self, client: Client) -> (r: bool)
        requires
            old(self).wf(),
        ensures
            final(self).wf(),
            final(self)@ == old(self)@.insert(client.id@, client),
            r == old(self)@.contains_key(client.id@),
    {
        match self.find(client.id.as_str()) {
            Some(i) => {
                proof {
                    lemma_record_at(self.clients@, i as int);
                    lemma_record_map_update(self.clients@, i as int, client);
                }
                self.clients.set(i, client);
                true
            },
            None => {
                proof {
                    lemma_record_map_push(self.clients@, client);
                }
                self.clients.push(client);
                false
            },
        }
    }

    /// Removes the record of the client with identifier `id` and returns it.
    pub fn remove(&mut self, id: &str) -> (r: Option<Client>)
        requires
            old(self).wf(),
        ensures
            final(self).wf(),
            final(self)@ == old(self)@.remove(id@),
            r matches Some(c) ==> old(self)@.contains_key(id@) && c == old(self)@[id@],
            r is None ==> !old(self)@.contains_key(id@),
    {
        match self.find(id) {
            Some(i) => {
                proof {
                    lemma_record_at(self.clients@, i as int);
                    lemma_record_map_remove(self.clients@, i as int);
                }
                let c = self.clients.remove(i);
                Some(c)
            },
            None => {
                assert(self@ =~= old(self)@.remove(id@));
                None
            },
        }
    }
}

/// The keys of the record map are the identifiers of the records.
proof fn lemma_dom_is_ids(s: Seq<Client>)
    ensures
        record_map(s).dom() =~= s.map_values(|c: Client| c.id@).to_set(),
{
    let ids = s.map_values(|c: Client| c.id@);
    assert forall|k: Seq<char>| record_map(s).dom().contains(k) == ids.to_set().contains(k) by {
        if has_id(s, k) {
            let i = choose|i: int| 0 <= i < s.len() && s[i].id@ == k;
            assert(ids[i] == k);
        }
        if ids.to_set().contains(k) {
            let i = choose|i: int| 0 <= i < ids.len() && ids[i] == k;
            assert(s[i].id@ == k);
        }
    }
}

/// Each registered identifier has exactly one record in the registry, and it
/// is the record the registry gives for that identifier.
pub proof fn lemma_one_record_per_id(reg: &ClientRegistry, id: Seq<char>)
    requires
        reg.wf(),
        reg@.contains_key(id),
    ensures
        exists|i: int| 0 <= i < reg.records().len() && reg.records()[i].id@ == id && reg.records()[i] == reg@[id],
        forall|i: int, j: int|
            0 <= i < reg.records().len() && 0 <= j < reg.records().len()
                && reg.records()[i].id@ == id && reg.records()[j].id@ == id ==> i == j,
{
    let s = reg.clients@;
    let i = choose|i: int| 0 <= i < s.len() && s[i].id@ == id;
    lemma_record_at(s, i);
    assert forall|a: int, b: int|
        0 <= a < s.len() && 0 <= b < s.len() && s[a].id@ == id && s[b].id@ == id implies a == b by {
        if a < b {
            assert(s[a].id@ != s[b].id@);
        } else if b < a {
            assert(s[b].id@ != s[a].id@);
        }
    }
}

} // verus!
