//! The session lifecycle over both registries: the handshake, joining a
//! game, disconnecting, and the recipients of the periodic broadcast.
//!
//! Callers that share the registries between jobs lock the client registry
//! before the game registry.

use vstd::prelude::*;
use crate::game::{Game, GameRegistry, joined_existing, joined_new};
use crate::json::Json;
use crate::message::{decode_envelope, decode_message, Message, TextMessage};
use crate::errors::{ClientDisconnectError, ConnectionStatus};
use crate::registry::{Client, ClientID, ClientRegistry, ClientState, GameID};

verus! {

/// The registries agree: a client in a game is among its players, a waiting
/// client is in no game, and every player of a game is a registered client
/// whose record names that game.
pub open spec fn consistent(clients: Map<Seq<char>, Client>, games: Seq<Game>) -> bool {
    &&& forall|id: Seq<char>| #[trigger] clients.contains_key(id) ==> (clients[id].state
        == ClientState::Waiting <==> clients[id].game_id is None)
    &&& forall|id: Seq<char>| #[trigger] clients.contains_key(id) && clients[id].game_id is Some
        ==> {
        let g = clients[id].game_id->Some_0 as int;
        &&& g < games.len()
        &&& games[g].player_set().contains(id)
    }
    &&& forall|g: int, id: Seq<char>|
        0 <= g < games.len() && #[trigger] games[g].player_set().contains(id) ==> {
            &&& clients.contains_key(id)
            &&& clients[id].game_id == Some(g as GameID)
        }
}

/// The identifier that a handshake reply gives: the reply is a
/// `RequestClientIDResponse` envelope.
pub open spec fn handshake_id(reply: Json) -> Option<ClientID> {
    match decode_envelope(reply) {
        Some(Message::RequestClientIdResponse(r)) => Some(r.id),
        _ => None,
    }
}

/// Completes the handshake with the reply a connection sent to
/// `RequestClientID`. A well-formed `RequestClientIDResponse` registers a
/// waiting client under the identifier it gives (replacing any record with
/// that identifier) and returns the identifier; any other reply leaves the
/// registry as it was.
pub fn accept_handshake(clients: &mut ClientRegistry, reply: &Json) -> (r: Option<ClientID>)
    requires
        old(clients).wf(),
    ensures
        final(clients).wf(),
        r == handshake_id(*reply),
        r matches Some(id) ==> final(clients)@ == old(clients)@.insert(
            id@,
            Client { id, game_id: None, state: ClientState::Waiting },
        ),
        r is None ==> final(clients)@ == old(clients)@,
        forall|gs: Seq<Game>|
            consistent(old(clients)@, gs) && !(r matches Some(id) && old(clients)@.contains_key(id@)
                && old(clients)@[id@].game_id is Some) ==> #[trigger] consistent(final(clients)@, gs),
{
    match decode_message(reply) {
        Some(Message::RequestClientIdResponse(resp)) => {
            let id = resp.id;
            let ghost om = clients@;
            clients.add_client(Client::new(id.clone()));
            proof {
                let cm = clients@;
                assert forall|gs: Seq<Game>|
                    consistent(om, gs) && !(om.contains_key(id@) && om[id@].game_id is Some)
                        implies #[trigger] consistent(cm, gs) by {
                    assert forall|g: int, k: Seq<char>|
                        0 <= g < gs.len() && #[trigger] gs[g].player_set().contains(k) implies {
                        &&& cm.contains_key(k)
                        &&& cm[k].game_id == Some(g as GameID)
                    } by {
                        if k == id@ {
                            assert(om.contains_key(k));
                        }
                    }
                    assert forall|k: Seq<char>| #[trigger] cm.contains_key(k) && cm[k].game_id is Some implies {
                        let h = cm[k].game_id->Some_0 as int;
                        &&& h < gs.len()
                        &&& gs[h].player_set().contains(k)
                    } by {
                        assert(om.contains_key(k));
                    }
                }
            }
            Some(id)
        },
        _ => None,
    }
}

/// Moves a waiting client into a game: the first game that waits for
/// players, or a new one. The client's record becomes `InQueue` in that
/// game. A client that is not registered or not waiting, or a registry with
/// no identifier left, changes nothing and gives `None`.
pub fn join_game(clients: &mut ClientRegistry, games: &mut GameRegistry, id: &str) -> (r: Option<
    GameID,
>)
    requires
        old(clients).wf(),
        old(games).wf(),
    ensures
        final(clients).wf(),
        final(games).wf(),
        final(games).lobby() == old(games).lobby(),
        r is None ==> final(clients)@ == old(clients)@ && final(games).game_list() == old(
            games,
        ).game_list(),
        (old(clients)@.contains_key(id@) && old(clients)@[id@].state == ClientState::Waiting
            && old(games).game_list().len() <= u32::MAX) ==> r is Some,
        !(old(clients)@.contains_key(id@) && old(clients)@[id@].state == ClientState::Waiting)
            ==> r is None,
        r matches Some(g) ==> {
            &&& g <= old(games).game_list().len()
            &&& final(clients)@ == old(clients)@.insert(
                id@,
                Client { id: old(clients)@[id@].id, game_id: Some(g), state: ClientState::InQueue },
            )
            &&& g < old(games).game_list().len() ==> joined_existing(
                old(games).game_list(),
                final(games).game_list(),
                g as int,
                id@,
            )
            &&& g == old(games).game_list().len() ==> joined_new(
                old(games).game_list(),
                final(games).game_list(),
                old(games).lobby(),
                id@,
            )
        },
        consistent(old(clients)@, old(games).game_list()) ==> consistent(
            final(clients)@,
            final(games).game_list(),
        ),
{
    let record = match clients.get(id) {
        Some(c) => Client { id: c.id.clone(), game_id: c.game_id, state: c.state },
        None => {
            return None;
        },
    };
    match record.state {
        ClientState::Waiting => {},
        _ => {
            return None;
        },
    }
    assert(record == old(clients)@[id@]);
    let ghost s = games.game_list();
    let joined = games.join(id.to_string());
    match joined {
        Some(g) => {
            let updated = Client { id: record.id, game_id: Some(g), state: ClientState::InQueue };
            clients.add_client(updated);
            proof {
                if consistent(old(clients)@, s) {
                    let cm = clients@;
                    let t = games.game_list();
                    let om = old(clients)@;
                    assert forall|k: Seq<char>| #[trigger] cm.contains_key(k) && cm[k].game_id is Some
                        implies {
                        let h = cm[k].game_id->Some_0 as int;
                        &&& h < t.len()
                        &&& t[h].player_set().contains(k)
                    } by {
                        if k != id@ {
                            assert(om.contains_key(k));
                            let h = om[k].game_id->Some_0 as int;
                            if h == g as int && g < s.len() {
                                assert(t[h].player_set() == s[h].player_set().insert(id@));
                            } else {
                                assert(t[h] == s[h]);
                            }
                        } else {
                            if g < s.len() {
                                assert(t[g as int].player_set() == s[g as int].player_set().insert(id@));
                            } else {
                                assert(t[g as int].player_set() == Set::<Seq<char>>::empty().insert(id@));
                            }
                        }
                    }
                    assert forall|h: int, k: Seq<char>|
                        0 <= h < t.len() && #[trigger] t[h].player_set().contains(k) implies {
                        &&& cm.contains_key(k)
                        &&& cm[k].game_id == Some(h as GameID)
                    } by {
                        if h == g as int {
                            if k != id@ {
                                if g < s.len() {
                                    assert(t[h].player_set() == s[h].player_set().insert(id@));
                                    assert(s[h].player_set().contains(k));
                                } else {
                                    assert(t[h].player_set() == Set::<Seq<char>>::empty().insert(id@));
                                }
                            }
                        } else {
                            assert(h < s.len());
                            if g < s.len() {
                                assert(t[h] == s[h]);
                            } else {
                                assert(t.subrange(0, s.len() as int)[h] == s[h]);
                            }
                            assert(s[h].player_set().contains(k));
                            if k == id@ {
                                assert(om[id@].game_id is None);
                            }
                        }
                    }
                }
            }
            Some(g)
        },
        None => None,
    }
}

/// Ends a session: removes the client's record, and takes the client out of
/// the players of the game its record names. Returns the removed record.
pub fn remove_client(clients: &mut ClientRegistry, games: &mut GameRegistry, id: &str) -> (r:
    Option<Client>)
    requires
        old(clients).wf(),
        old(games).wf(),
    ensures
        final(clients).wf(),
        final(games).wf(),
        final(games).lobby() == old(games).lobby(),
        final(clients)@ == old(clients)@.remove(id@),
        r matches Some(c) ==> old(clients)@.contains_key(id@) && c == old(clients)@[id@],
        r is None ==> !old(clients)@.contains_key(id@) && final(games).game_list() == old(
            games,
        ).game_list(),
        final(games).game_list().len() == old(games).game_list().len(),
        forall|g: int|
            0 <= g < old(games).game_list().len() ==> {
                &&& #[trigger] final(games).game_list()[g].state_spec() == old(games).game_list()[g].state_spec()
                &&& (r matches Some(c) && c.game_id == Some(g as GameID)) ==> final(games).game_list()[g].player_set()
                    == old(games).game_list()[g].player_set().remove(id@)
                &&& !(r matches Some(c) && c.game_id == Some(g as GameID)) ==> final(games).game_list()[g]
                    == old(games).game_list()[g]
            },
        consistent(old(clients)@, old(games).game_list()) ==> {
            &&& consistent(final(clients)@, final(games).game_list())
            &&& forall|g: int|
                0 <= g < final(games).game_list().len() ==> !#[trigger] final(games).game_list()[g].player_set().contains(id@)
        },
{
    let removed = clients.remove(id);
    let ghost s = games.game_list();
    match &removed {
        Some(c) => match c.game_id {
            Some(g) => {
                games.remove_player(g, id);
            },
            None => {},
        },
        None => {},
    }
    proof {
        let t = games.game_list();
        if consistent(old(clients)@, s) {
            let om = old(clients)@;
            let cm = clients@;
            assert forall|h: int, k: Seq<char>|
                0 <= h < t.len() && #[trigger] t[h].player_set().contains(k) implies {
                &&& cm.contains_key(k)
                &&& cm[k].game_id == Some(h as GameID)
            } by {
                if removed matches Some(c) && c.game_id == Some(h as GameID) {
                    assert(t[h].player_set() == s[h].player_set().remove(id@));
                } else {
                    assert(t[h] == s[h]);
                }
                assert(s[h].player_set().contains(k));
                if k == id@ {
                    assert(om.contains_key(k));
                }
            }
            assert forall|h: int| 0 <= h < t.len() implies !#[trigger] t[h].player_set().contains(id@) by {
                if removed matches Some(c) && c.game_id == Some(h as GameID) {
                    assert(t[h].player_set() == s[h].player_set().remove(id@));
                } else {
                    assert(t[h] == s[h]);
                    if s[h].player_set().contains(id@) {
                        assert(om.contains_key(id@));
                    }
                }
            }
            assert forall|k: Seq<char>| #[trigger] cm.contains_key(k) && cm[k].game_id is Some implies {
                let h = cm[k].game_id->Some_0 as int;
                &&& h < t.len()
                &&& t[h].player_set().contains(k)
            } by {
                let h = cm[k].game_id->Some_0 as int;
                assert(om.contains_key(k));
                if removed matches Some(c) && c.game_id == Some(h as GameID) {
                    assert(t[h].player_set() == s[h].player_set().remove(id@));
                } else {
                    assert(t[h] == s[h]);
                }
            }
        }
    }
    removed
}

/// The outcome of one read on a client's connection: `Some(n)` for `n`
/// bytes read, `None` for a failed read. A read of zero bytes or a failed
/// read ends the session; any other read is handled and the loop goes on.
pub fn listen_outcome(client_id: &ClientID, read: Option<usize>) -> (r: ConnectionStatus)
    ensures
        (read == Some(0usize) || read is None) ==> (r matches Err(e) && e.client_id == *client_id),
        (read matches Some(n) && n > 0) ==> r is Ok,
{
    match read {
        Some(n) => if n == 0 {
            Err(ClientDisconnectError { client_id: client_id.clone() })
        } else {
            Ok(())
        },
        None => Err(ClientDisconnectError { client_id: client_id.clone() }),
    }
}

/// What the server does after a message from a client.
#[derive(Clone, Debug, PartialEq, Eq)]
pub enum Reply {
    /// Nothing to send.
    Nothing,
    /// Send this text back to the client.
    Echo(TextMessage),
    /// The client was placed in this game.
    Joined(GameID),
}

/// The server's reaction to an envelope from the client `id`: a text is
/// echoed back, a `RequestJoinGame` moves the client into a game, and any
/// other message, known or not, changes nothing.
pub fn serve_envelope(
    clients: &mut ClientRegistry,
    games: &mut GameRegistry,
    id: &str,
    envelope: &Json,
) -> (r: Reply)
    requires
        old(clients).wf(),
        old(games).wf(),
    ensures
        final(clients).wf(),
        final(games).wf(),
        final(games).lobby() == old(games).lobby(),
        !(decode_envelope(*envelope) is Some && decode_envelope(*envelope)->Some_0 is RequestJoinGame)
            ==> final(clients)@ == old(clients)@ && final(games).game_list() == old(games).game_list(),
        decode_envelope(*envelope) matches Some(Message::Text(t)) ==> r == Reply::Echo(t),
        decode_envelope(*envelope) is None ==> r == Reply::Nothing,
        decode_envelope(*envelope) matches Some(Message::RequestJoinGame(_)) ==> {
            &&& r is Joined || r is Nothing
            &&& (r is Nothing <==> final(clients)@ == old(clients)@ && final(games).game_list() == old(
                games,
            ).game_list())
            &&& (old(clients)@.contains_key(id@) && old(clients)@[id@].state == ClientState::Waiting
                && old(games).game_list().len() <= u32::MAX) ==> r is Joined
            &&& r matches Reply::Joined(g) ==> {
                &&& g <= old(games).game_list().len()
                &&& final(clients)@ == old(clients)@.insert(
                    id@,
                    Client { id: old(clients)@[id@].id, game_id: Some(g), state: ClientState::InQueue },
                )
                &&& g < old(games).game_list().len() ==> joined_existing(
                    old(games).game_list(),
                    final(games).game_list(),
                    g as int,
                    id@,
                )
                &&& g == old(games).game_list().len() ==> joined_new(
                    old(games).game_list(),
                    final(games).game_list(),
                    old(games).lobby(),
                    id@,
                )
            }
        },
        (decode_envelope(*envelope) is Some && !(decode_envelope(*envelope)->Some_0 is Text)
            && !(decode_envelope(*envelope)->Some_0 is RequestJoinGame)) ==> r == Reply::Nothing,
        consistent(old(clients)@, old(games).game_list()) ==> consistent(
            final(clients)@,
            final(games).game_list(),
        ),
{
    match decode_message(envelope) {
        Some(Message::Text(t)) => Reply::Echo(t),
        Some(Message::RequestJoinGame(_)) => match join_game(clients, games, id) {
            Some(g) => {
                assert(clients@.contains_key(id@));
                Reply::Joined(g)
            },
            None => Reply::Nothing,
        },
        _ => Reply::Nothing,
    }
}

/// The recipients of one round of the status broadcast for the players
/// `players` of one game: each player that is a registered client, in order.
pub open spec fn game_recipients(players: Seq<String>, clients: Map<Seq<char>, Client>) -> Seq<
    Seq<char>,
>
    decreases players.len(),
{
    if players.len() == 0 {
        Seq::empty()
    } else {
        let rest = game_recipients(players.drop_last(), clients);
        if clients.contains_key(players.last()@) {
            rest.push(players.last()@)
        } else {
            rest
        }
    }
}

/// The recipients of one round of the status broadcast: the registered
/// players of each game, game by game.
pub open spec fn broadcast_recipients(games: Seq<Game>, clients: Map<Seq<char>, Client>) -> Seq<
    Seq<char>,
>
    decreases games.len(),
{
    if games.len() == 0 {
        Seq::empty()
    } else {
        broadcast_recipients(games.drop_last(), clients) + game_recipients(
            games.last().player_list(),
            clients,
        )
    }
}

/// The identifiers to send one round of the status broadcast to.
pub fn broadcast_targets(clients: &ClientRegistry, games: &GameRegistry) -> (r: Vec<ClientID>)
    requires
        clients.wf(),
        games.wf(),
    ensures
        r@.map_values(|s: String| s@) == broadcast_recipients(games.game_list(), clients@),
{
    let mut out: Vec<ClientID> = Vec::new();
    let n = games.len();
    let mut g: usize = 0;
    while g < n
        invariant
            clients.wf(),
            games.wf(),
            n == games.game_list().len(),
            g <= n,
            out@.map_values(|s: String| s@) == broadcast_recipients(games.game_list().take(g as int), clients@),
        decreases n - g,
    {
        let game = match games.get(g as GameID) {
            Some(x) => x,
            None => {
                return out;
            },
        };
        let players = game.players();
        let ghost before = out@.map_values(|s: String| s@);
        let mut p: usize = 0;
        while p < players.len()
            invariant
                clients.wf(),
                p <= players@.len(),
                out@.map_values(|s: String| s@) == before + game_recipients(players@.take(p as int), clients@),
            decreases players.len() - p,
        {
            let ghost prev = out@;
            assert(players@.take(p + 1).drop_last() =~= players@.take(p as int));
            if clients.contains(players[p].as_str()) {
                out.push(players[p].clone());
                assert(out@.map_values(|s: String| s@) =~= prev.map_values(|s: String| s@).push(players@[p as int]@));
            }
            p = p + 1;
        }
        proof {
            let gl = games.game_list();
            assert(players@.take(players@.len() as int) =~= players@);
            assert(gl.take(g + 1).drop_last() =~= gl.take(g as int));
            assert(gl.take(g + 1).last() == gl[g as int]);
        }
        g = g + 1;
    }
    assert(games.game_list().take(n as int) =~= games.game_list());
    out
}

} // verus!
