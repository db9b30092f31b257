use multiplayer::game::{Game, GameRegistry, GameState};
use multiplayer::json::Json;
use multiplayer::message::{Message, RequestClientIDResponse, RequestJoinGame, TextMessage};
use multiplayer::registry::{Client, ClientRegistry, ClientState};
use multiplayer::session::{
    accept_handshake, broadcast_targets, remove_client, join_game, listen_outcome,
    serve_envelope, Reply,
};
use multiplayer::state::State;

fn handshake_reply(id: &str) -> Json {
    Message::RequestClientIdResponse(RequestClientIDResponse { id: id.to_string() }).to_envelope()
}

fn connect(clients: &mut ClientRegistry, id: &str) {
    assert_eq!(accept_handshake(clients, &handshake_reply(id)), Some(id.to_string()));
}

#[test]
fn two_players_fill_a_lobby_of_two() {
    let mut clients = ClientRegistry::new();
    let mut games = GameRegistry::new(2);
    connect(&mut clients, "a");
    connect(&mut clients, "b");

    assert_eq!(join_game(&mut clients, &mut games, "a"), Some(0));
    assert_eq!(games.len(), 1);
    assert_eq!(games.get(0).unwrap().get_state(), GameState::PendingPlayers(1));

    assert_eq!(join_game(&mut clients, &mut games, "b"), Some(0));
    assert_eq!(games.len(), 1);
    assert_eq!(games.get(0).unwrap().get_state(), GameState::Active);

    for id in ["a", "b"] {
        let c = clients.get(id).unwrap();
        assert_eq!(c.game_id, Some(0));
        assert_eq!(c.state, ClientState::InQueue);
        assert!(games.get(0).unwrap().has_player(id));
    }
}

#[test]
fn a_third_player_opens_a_new_game() {
    let mut clients = ClientRegistry::new();
    let mut games = GameRegistry::new(2);
    for id in ["a", "b", "c"] {
        connect(&mut clients, id);
        join_game(&mut clients, &mut games, id);
    }
    assert_eq!(games.len(), 2);
    assert_eq!(clients.get("c").unwrap().game_id, Some(1));
    assert_eq!(games.get(1).unwrap().get_state(), GameState::PendingPlayers(1));
    assert_eq!(games.get(1).unwrap().players(), &vec!["c".to_string()]);
}

#[test]
fn lobby_of_three_turns_active_on_the_third() {
    let mut g = Game::new(3);
    g.add_player("a".to_string());
    assert_eq!(g.get_state(), GameState::PendingPlayers(2));
    g.add_player("b".to_string());
    assert_eq!(g.get_state(), GameState::PendingPlayers(1));
    g.add_player("c".to_string());
    assert_eq!(g.get_state(), GameState::Active);
    g.add_player("d".to_string());
    assert_eq!(g.get_state(), GameState::Active);
    assert!(!g.has_player("d"));
    assert_eq!(g.players().len(), 3);
}

#[test]
fn lobby_of_one_is_active_at_once() {
    let mut g = Game::new(1);
    g.add_player("solo".to_string());
    assert_eq!(g.get_state(), GameState::Active);
}

#[test]
fn joining_twice_is_refused() {
    let mut clients = ClientRegistry::new();
    let mut games = GameRegistry::new(3);
    connect(&mut clients, "a");
    assert_eq!(join_game(&mut clients, &mut games, "a"), Some(0));
    assert_eq!(join_game(&mut clients, &mut games, "a"), None);
    assert_eq!(games.get(0).unwrap().get_state(), GameState::PendingPlayers(2));
    assert_eq!(join_game(&mut clients, &mut games, "nobody"), None);
    assert_eq!(games.len(), 1);
}

#[test]
fn handshake_registers_a_waiting_client() {
    let mut clients = ClientRegistry::new();
    connect(&mut clients, "alice");
    let c = clients.get("alice").unwrap();
    assert_eq!(c, &Client::new("alice".to_string()));
    assert_eq!(c.state, ClientState::Waiting);
    assert_eq!(c.game_id, None);
}

#[test]
fn failed_handshake_changes_nothing() {
    let mut clients = ClientRegistry::new();
    let text = Message::Text(TextMessage::new("alice".to_string())).to_envelope();
    assert_eq!(accept_handshake(&mut clients, &text), None);
    assert_eq!(accept_handshake(&mut clients, &Json::Null), None);
    assert_eq!(clients.len(), 0);
}

#[test]
fn duplicate_identifier_keeps_one_record() {
    let mut clients = ClientRegistry::new();
    assert!(!clients.add_client(Client::new("x".to_string())));
    let mut second = Client::new("x".to_string());
    second.change_state(ClientState::InGame);
    assert!(clients.add_client(second.clone()));
    assert_eq!(clients.len(), 1);
    assert_eq!(clients.get("x"), Some(&second));
}

#[test]
fn many_handshakes_keep_one_record_each() {
    let mut clients = ClientRegistry::new();
    for round in 0..3 {
        for i in 0..5 {
            connect(&mut clients, &format!("c{}", i));
        }
        assert_eq!(clients.len(), 5, "round {}", round);
    }
}

#[test]
fn disconnect_leaves_no_orphan_player() {
    let mut clients = ClientRegistry::new();
    let mut games = GameRegistry::new(2);
    for id in ["a", "b", "c"] {
        connect(&mut clients, id);
        join_game(&mut clients, &mut games, id);
    }
    let removed = remove_client(&mut clients, &mut games, "b").unwrap();
    assert_eq!(removed.game_id, Some(0));
    assert!(!clients.contains("b"));
    assert!(!games.get(0).unwrap().has_player("b"));
    assert!(games.get(0).unwrap().has_player("a"));
    assert_eq!(games.get(0).unwrap().get_state(), GameState::Active);
    assert_eq!(remove_client(&mut clients, &mut games, "b"), None);

    let removed = remove_client(&mut clients, &mut games, "c").unwrap();
    assert_eq!(removed.game_id, Some(1));
    assert!(games.get(1).unwrap().players().is_empty());
    assert_eq!(clients.len(), 1);
}

#[test]
fn disconnect_of_a_waiting_client() {
    let mut clients = ClientRegistry::new();
    let mut games = GameRegistry::new(2);
    connect(&mut clients, "w");
    let removed = remove_client(&mut clients, &mut games, "w").unwrap();
    assert_eq!(removed.state, ClientState::Waiting);
    assert_eq!(clients.len(), 0);
    assert_eq!(games.len(), 0);
}

#[test]
fn remove_player_from_missing_game() {
    let mut games = GameRegistry::new(2);
    assert!(!games.remove_player(4, "a"));
    assert!(games.get(4).is_none());
}

#[test]
fn broadcast_goes_to_registered_players_game_by_game() {
    let mut clients = ClientRegistry::new();
    let mut games = GameRegistry::new(2);
    for id in ["a", "b", "c"] {
        connect(&mut clients, id);
        join_game(&mut clients, &mut games, id);
    }
    connect(&mut clients, "idle");
    assert_eq!(
        broadcast_targets(&clients, &games),
        vec!["a".to_string(), "b".to_string(), "c".to_string()]
    );
    clients.remove("b");
    assert_eq!(broadcast_targets(&clients, &games), vec!["a".to_string(), "c".to_string()]);
    assert!(broadcast_targets(&ClientRegistry::new(), &GameRegistry::new(2)).is_empty());
}

#[test]
fn listen_outcome_ends_on_close_or_error() {
    let id = "a".to_string();
    let closed = listen_outcome(&id, Some(0)).unwrap_err();
    assert_eq!(closed.client_id, "a");
    assert_eq!(closed.to_string(), "Client a Disconnected");
    assert!(listen_outcome(&id, None).is_err());
    assert!(listen_outcome(&id, Some(12)).is_ok());
}

#[test]
fn game_state_can_be_changed() {
    let mut g = Game::new(2);
    g.change_state(GameState::Paused);
    assert_eq!(g.get_state(), GameState::Paused);
    g.add_player("late".to_string());
    assert_eq!(g.get_state(), GameState::Paused);
    assert!(g.players().is_empty());
}

fn join_envelope() -> Json {
    Message::RequestJoinGame(RequestJoinGame).to_envelope()
}

#[test]
fn join_requests_through_envelopes_fill_a_lobby() {
    let mut clients = ClientRegistry::new();
    let mut games = GameRegistry::new(2);
    connect(&mut clients, "amy");
    connect(&mut clients, "ben");
    assert_eq!(serve_envelope(&mut clients, &mut games, "amy", &join_envelope()), Reply::Joined(0));
    assert_eq!(games.get(0).unwrap().get_state(), GameState::PendingPlayers(1));
    assert_eq!(serve_envelope(&mut clients, &mut games, "ben", &join_envelope()), Reply::Joined(0));
    assert_eq!(games.get(0).unwrap().get_state(), GameState::Active);
    assert_eq!(clients.get("amy").unwrap().game_id, clients.get("ben").unwrap().game_id);
}

#[test]
fn text_is_echoed_without_touching_registries() {
    let mut clients = ClientRegistry::new();
    let mut games = GameRegistry::new(2);
    connect(&mut clients, "amy");
    let text = Message::Text(TextMessage::new("hi".to_string())).to_envelope();
    assert_eq!(
        serve_envelope(&mut clients, &mut games, "amy", &text),
        Reply::Echo(TextMessage::new("hi".to_string()))
    );
    assert_eq!(clients.get("amy").unwrap().state, ClientState::Waiting);
    assert_eq!(games.len(), 0);
}

#[test]
fn unknown_tag_leaves_registries_alone() {
    let mut clients = ClientRegistry::new();
    let mut games = GameRegistry::new(2);
    connect(&mut clients, "amy");
    let unknown = Json::Object(vec![
        ("msg_type".to_string(), Json::Str("Warp".to_string())),
        ("data".to_string(), Json::Null),
    ]);
    assert_eq!(serve_envelope(&mut clients, &mut games, "amy", &unknown), Reply::Nothing);
    assert_eq!(serve_envelope(&mut clients, &mut games, "amy", &Json::Null), Reply::Nothing);
    assert_eq!(clients.len(), 1);
    assert_eq!(clients.get("amy").unwrap(), &Client::new("amy".to_string()));
    assert_eq!(games.len(), 0);
}

#[test]
fn random_sessions_leave_no_orphan_players() {
    let ids = ["ana", "bo", "cy", "di", "ed", "fay"];
    let mut clients = ClientRegistry::new();
    let mut games = GameRegistry::new(3);
    let mut seed: u64 = 0x2545_f491_4f6c_dd1d;
    for _ in 0..400 {
        seed = seed.wrapping_mul(6364136223846793005).wrapping_add(1442695040888963407);
        let id = ids[((seed >> 33) % ids.len() as u64) as usize];
        match (seed >> 40) % 3 {
            0 => {
                if !clients.contains(id) {
                    connect(&mut clients, id);
                }
            }
            1 => {
                join_game(&mut clients, &mut games, id);
            }
            _ => {
                remove_client(&mut clients, &mut games, id);
                assert!(!clients.contains(id));
            }
        }
        for g in 0..games.len() {
            for p in games.get(g as u32).unwrap().players() {
                let c = clients.get(p).expect("a player without a record");
                assert_eq!(c.game_id, Some(g as u32));
            }
        }
        for id in ids {
            if let Some(c) = clients.get(id) {
                match c.game_id {
                    Some(g) => assert!(games.get(g).unwrap().has_player(id)),
                    None => assert_eq!(c.state, ClientState::Waiting),
                }
            }
        }
    }
}
