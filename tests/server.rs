use sm64js_ws::chat::{handle_command, passes_throttle, CHAT_INTERVAL_MS};
use sm64js_ws::model::{
    AuthInfo, ChatMsg, ChatReply, MarioData, Permission, Position, RoomAction, RootMsg, Sm64JsMsg,
};
use sm64js_ws::server::{
    AttackMsg, Connect, Disconnect, GrabFlagMsg, JoinGameMsg, KickClientByAccountId, SendAttack,
    SendChat, SendGrabFlag, SendJoinGame, SendRequestCosmetics, SendSkin, SetData, SkinMsg,
    Sm64JsServer,
};
use sm64js_ws::text::{eq_ignore_ascii_case, is_name_valid, sanitize};

fn auth(account_id: i32, permissions: Vec<Permission>, linked: Option<&str>) -> AuthInfo {
    AuthInfo {
        account_id,
        discord_username: linked.map(|s| s.to_string()),
        permissions,
        in_game_admin: false,
    }
}

fn connect(server: &mut Sm64JsServer, account_id: i32) -> u32 {
    server
        .connect(Connect {
            auth_info: auth(account_id, vec![], None),
            ip: "10.0.0.1".to_string(),
            real_ip: None,
        })
        .expect("a fresh id")
}

fn join(server: &mut Sm64JsServer, socket_id: u32, level: u32, name: &str) -> Option<(u32, String)> {
    server
        .join_game(SendJoinGame {
            socket_id,
            join_game_msg: JoinGameMsg { level, name: name.to_string(), use_discord_name: false },
            auth_info: auth(1, vec![], None),
        })
        .map(|a| (a.level, a.name))
}

fn chat(server: &mut Sm64JsServer, socket_id: u32, text: &str, perms: Vec<Permission>, now: u64) -> ChatReply {
    server.send_chat(
        SendChat {
            socket_id,
            chat_msg: ChatMsg {
                message: text.to_string(),
                sender: String::new(),
                socket_id: 0,
                is_admin: false,
            },
            auth_info: auth(1, perms, None),
        },
        now,
    )
}

fn pos() -> Position {
    Position { x: 1, y: 2, z: 3 }
}

#[test]
fn name_too_short_is_invalid() {
    assert!(!is_name_valid("ab"));
}

#[test]
fn name_of_fourteen_clean_chars_is_valid() {
    assert!(is_name_valid("MarioLuigiPeac"));
    assert!(!is_name_valid("MarioLuigiPeach"));
}

#[test]
fn reserved_name_is_invalid_in_any_case() {
    assert!(!is_name_valid("SERVER"));
    assert!(!is_name_valid("server"));
    assert!(!is_name_valid("SeRvEr"));
    assert!(is_name_valid("Servers"));
}

#[test]
fn name_with_markup_is_invalid() {
    assert!(!is_name_valid("<script>"));
    assert!(!is_name_valid("a&b"));
}

#[test]
fn name_with_profanity_is_invalid() {
    assert!(!is_name_valid("fuckface"));
    assert!(!is_name_valid("shitname"));
}

#[test]
fn sanitize_escapes_and_filters() {
    assert_eq!(sanitize("<b>hi</b>"), "&lt;b&gt;hi&lt;&#x2f;b&gt;");
    assert_eq!(sanitize("a \"q\" & 'x'"), "a &quot;q&quot; &amp; &#x27;x&#x27;");
    assert!(sanitize("you are a bitch").contains('*'));
    assert_eq!(sanitize("hello"), "hello");
}

#[test]
fn ignore_case_comparison() {
    assert!(eq_ignore_ascii_case("announcement", "ANNOUNCEMENT"));
    assert!(eq_ignore_ascii_case("AnNoUnCeMeNt", "ANNOUNCEMENT"));
    assert!(!eq_ignore_ascii_case("announce", "ANNOUNCEMENT"));
}

#[test]
fn throttle_interval() {
    assert!(passes_throttle(None, 0));
    assert!(!passes_throttle(Some(1000), 1000 + CHAT_INTERVAL_MS - 1));
    assert!(passes_throttle(Some(1000), 1000 + CHAT_INTERVAL_MS));
    assert!(!passes_throttle(Some(1000), 999));
}

#[test]
fn connect_ids_are_distinct() {
    let mut server = Sm64JsServer::new(vec![5]);
    let a = connect(&mut server, 1);
    let b = connect(&mut server, 2);
    assert_ne!(a, b);
}

#[test]
fn connect_with_taken_id_hands_request_back() {
    let mut server = Sm64JsServer::new(vec![5]);
    let first = server.connect_with_id(
        7,
        Connect { auth_info: auth(1, vec![], None), ip: "a".to_string(), real_ip: None },
    );
    assert!(matches!(first, Ok(7)));
    let second = server.connect_with_id(
        7,
        Connect { auth_info: auth(2, vec![], None), ip: "b".to_string(), real_ip: None },
    );
    match second {
        Err(back) => assert_eq!(back.auth_info.account_id, 2),
        Ok(_) => panic!("id 7 was taken"),
    }
}

#[test]
fn disconnect_twice_and_unknown_are_noops() {
    let mut server = Sm64JsServer::new(vec![5]);
    let id = connect(&mut server, 1);
    assert_eq!(join(&mut server, id, 5, "Mario"), Some((5, "Mario".to_string())));
    server.disconnect(Disconnect { socket_id: id });
    assert!(server.get_players().is_empty());
    server.disconnect(Disconnect { socket_id: id });
    server.disconnect(Disconnect { socket_id: id.wrapping_add(1) });
    assert!(server.get_players().is_empty());
    let other = connect(&mut server, 2);
    assert_eq!(join(&mut server, other, 5, "Luigi"), Some((5, "Luigi".to_string())));
    let skins = server.request_cosmetics(SendRequestCosmetics { socket_id: other }).unwrap();
    assert_eq!(skins.0.len(), 1);
}

#[test]
fn failed_join_changes_nothing() {
    let mut server = Sm64JsServer::new(vec![0, 5]);
    let id = connect(&mut server, 1);
    assert_eq!(join(&mut server, id, 7, "Mario"), None);
    assert_eq!(join(&mut server, id, 0, "Mario"), None);
    assert_eq!(join(&mut server, id, 5, "ab"), None);
    assert!(server.get_players().is_empty());
    assert!(server.request_cosmetics(SendRequestCosmetics { socket_id: id }).is_none());
    assert!(matches!(chat(&mut server, id, "hello", vec![], 0), ChatReply::Nothing));
}

#[test]
fn rejoin_same_room_is_rejected_without_side_effect() {
    let mut server = Sm64JsServer::new(vec![5]);
    let id = connect(&mut server, 1);
    assert_eq!(join(&mut server, id, 5, "Mario"), Some((5, "Mario".to_string())));
    assert_eq!(join(&mut server, id, 5, "Luigi"), None);
    let players = server.get_players();
    assert_eq!(players.len(), 1);
    assert_eq!(players[0].name, "Mario");
    let skins = server.request_cosmetics(SendRequestCosmetics { socket_id: id }).unwrap();
    assert_eq!(skins.0.len(), 1);
}

#[test]
fn joining_another_room_moves_the_player() {
    let mut server = Sm64JsServer::new(vec![5, 6]);
    let id = connect(&mut server, 1);
    assert_eq!(join(&mut server, id, 5, "Mario"), Some((5, "Mario".to_string())));
    assert_eq!(join(&mut server, id, 6, "Mario"), Some((6, "Mario".to_string())));
    let players = server.get_players();
    assert_eq!(players.len(), 1);
    assert_eq!(players[0].level, 6);
}

#[test]
fn join_with_linked_name() {
    let mut server = Sm64JsServer::new(vec![5]);
    let id = connect(&mut server, 1);
    let without_link = server.join_game(SendJoinGame {
        socket_id: id,
        join_game_msg: JoinGameMsg { level: 5, name: String::new(), use_discord_name: true },
        auth_info: auth(1, vec![], None),
    });
    assert!(without_link.is_none());
    let linked = server
        .join_game(SendJoinGame {
            socket_id: id,
            join_game_msg: JoinGameMsg { level: 5, name: String::new(), use_discord_name: true },
            auth_info: auth(1, vec![], Some("Peach#1")),
        })
        .unwrap();
    assert_eq!(linked.level, 5);
    assert_eq!(linked.name, "Peach#1");
}

#[test]
fn chat_spam_is_throttled() {
    let mut server = Sm64JsServer::new(vec![5]);
    let id = connect(&mut server, 1);
    join(&mut server, id, 5, "Mario").unwrap();
    match chat(&mut server, id, "hello", vec![], 10_000) {
        ChatReply::Broadcast { level, msg: RootMsg::Uncompressed(Sm64JsMsg::Chat(c)) } => {
            assert_eq!(level, 5);
            assert_eq!(c.message, "hello");
            assert_eq!(c.sender, "Mario");
            assert_eq!(c.socket_id, id);
        }
        other => panic!("expected a broadcast, got {:?}", other),
    }
    match chat(&mut server, id, "hello", vec![], 10_000) {
        ChatReply::Reply(RootMsg::Uncompressed(Sm64JsMsg::Chat(c))) => {
            assert_eq!(
                c.message,
                "Chat message ignored: You have to wait longer between sending chat messages"
            );
            assert_eq!(c.sender, "Server");
        }
        other => panic!("expected a private warning, got {:?}", other),
    }
    assert!(matches!(
        chat(&mut server, id, "again", vec![], 10_000 + CHAT_INTERVAL_MS),
        ChatReply::Broadcast { .. }
    ));
}

#[test]
fn chat_text_is_sanitized() {
    let mut server = Sm64JsServer::new(vec![5]);
    let id = connect(&mut server, 1);
    join(&mut server, id, 5, "Mario").unwrap();
    match chat(&mut server, id, "<i>hi</i>", vec![], 0) {
        ChatReply::Broadcast { msg: RootMsg::Uncompressed(Sm64JsMsg::Chat(c)), .. } => {
            assert_eq!(c.message, "&lt;i&gt;hi&lt;&#x2f;i&gt;");
        }
        other => panic!("expected a broadcast, got {:?}", other),
    }
}

#[test]
fn announcement_needs_permission() {
    let mut server = Sm64JsServer::new(vec![5]);
    let id = connect(&mut server, 1);
    join(&mut server, id, 5, "Mario").unwrap();
    assert!(matches!(
        chat(&mut server, id, "/announcement hello all", vec![], 0),
        ChatReply::Nothing
    ));
    match chat(&mut server, id, "/Announcement hello all", vec![Permission::SendAnnouncement], 0) {
        ChatReply::Broadcast { level, msg: RootMsg::Uncompressed(Sm64JsMsg::Announcement(a)) } => {
            assert_eq!(level, 5);
            assert_eq!(a.message, "hello all");
            assert_eq!(a.timer, 300);
        }
        other => panic!("expected an announcement, got {:?}", other),
    }
}

#[test]
fn unknown_or_bare_commands_do_nothing() {
    let perms = vec![Permission::SendAnnouncement];
    let msg = |t: &str| ChatMsg { message: t.to_string(), sender: String::new(), socket_id: 0, is_admin: false };
    let a = auth(1, perms, None);
    assert!(handle_command(&msg("/dance now"), &a).is_none());
    assert!(handle_command(&msg("/announcement"), &a).is_none());
    assert!(handle_command(&msg("announcement hi"), &a).is_none());
    assert!(handle_command(&msg("/announcement hi"), &a).is_some());
}

#[test]
fn kick_by_account_id() {
    let mut server = Sm64JsServer::new(vec![5]);
    let id = connect(&mut server, 42);
    join(&mut server, id, 5, "Mario").unwrap();
    assert_eq!(server.kick_client_by_account_id(KickClientByAccountId { account_id: 7 }), None);
    assert_eq!(server.get_players().len(), 1);
    assert_eq!(server.kick_client_by_account_id(KickClientByAccountId { account_id: 42 }), Some(id));
    assert!(server.get_players().is_empty());
    assert!(server.request_cosmetics(SendRequestCosmetics { socket_id: id }).is_none());
}

#[test]
fn attack_and_grab_need_room_and_position() {
    let mut server = Sm64JsServer::new(vec![5]);
    let id = connect(&mut server, 1);
    let attack = |s: &Sm64JsServer| {
        s.send_attack(SendAttack { socket_id: id, attack_msg: AttackMsg { flag_id: 2, target_socket_id: 9 } })
    };
    assert!(attack(&server).is_none());
    server.set_data(SetData { socket_id: id, data: MarioData { pos: pos(), raw: vec![1] } });
    assert!(attack(&server).is_none());
    let grab = server.send_grab_flag(SendGrabFlag { socket_id: id, grab_flag_msg: GrabFlagMsg { flag_id: 1, pos: pos() } });
    assert!(grab.is_none());
    join(&mut server, id, 5, "Mario").unwrap();
    match attack(&server) {
        Some(RoomAction::Attack { level, flag_id, attacker_pos, target_socket_id }) => {
            assert_eq!((level, flag_id, target_socket_id), (5, 2, 9));
            assert_eq!(attacker_pos, pos());
        }
        other => panic!("expected an attack, got {:?}", other),
    }
    match server.send_grab_flag(SendGrabFlag { socket_id: id, grab_flag_msg: GrabFlagMsg { flag_id: 1, pos: pos() } }) {
        Some(RoomAction::GrabFlag { level, flag_id, socket_id, .. }) => {
            assert_eq!((level, flag_id, socket_id), (5, 1, id));
        }
        other => panic!("expected a grab, got {:?}", other),
    }
}

#[test]
fn cosmetics_in_membership_order() {
    let mut server = Sm64JsServer::new(vec![5]);
    let a = connect(&mut server, 1);
    let b = connect(&mut server, 2);
    join(&mut server, a, 5, "Mario").unwrap();
    join(&mut server, b, 5, "Luigi").unwrap();
    server.send_skin(SendSkin { socket_id: a, skin_msg: SkinMsg { skin_data: vec![1, 2] } });
    server.send_skin(SendSkin { socket_id: b, skin_msg: SkinMsg { skin_data: vec![3] } });
    let skins = server.request_cosmetics(SendRequestCosmetics { socket_id: b }).unwrap();
    assert_eq!(skins.0, vec![vec![1, 2], vec![3]]);
}

#[test]
fn report_lists_joined_players() {
    let mut server = Sm64JsServer::new(vec![5]);
    let a = connect(&mut server, 11);
    let _b = connect(&mut server, 12);
    join(&mut server, a, 5, "Mario").unwrap();
    let players = server.get_players();
    assert_eq!(players.len(), 1);
    assert_eq!(players[0].account_id, 11);
    assert_eq!(players[0].socket_id, a);
    assert_eq!(players[0].ip, "10.0.0.1");
    assert_eq!(players[0].level, 5);
}

#[test]
fn uncompressed_envelope() {
    let m = Sm64JsServer::create_uncompressed_msg(Sm64JsMsg::Raw(vec![1, 2, 3]));
    assert!(matches!(m, RootMsg::Uncompressed(Sm64JsMsg::Raw(ref v)) if v == &vec![1, 2, 3]));
}

#[test]
fn session_end_to_end() {
    let mut server = Sm64JsServer::new(vec![5]);
    let id = connect(&mut server, 1);
    assert_eq!(join(&mut server, id, 5, "Mario"), Some((5, "Mario".to_string())));
    match chat(&mut server, id, "hello", vec![], 500) {
        ChatReply::Broadcast { msg: RootMsg::Uncompressed(Sm64JsMsg::Chat(c)), .. } => {
            assert_eq!(c.sender, "Mario");
        }
        other => panic!("expected a broadcast, got {:?}", other),
    }
    assert!(matches!(chat(&mut server, id, "hello", vec![], 500), ChatReply::Reply(_)));
    server.disconnect(Disconnect { socket_id: id });
    server.set_data(SetData { socket_id: id, data: MarioData { pos: pos(), raw: vec![] } });
    assert!(server
        .send_attack(SendAttack { socket_id: id, attack_msg: AttackMsg { flag_id: 0, target_socket_id: 1 } })
        .is_none());
    assert!(server.get_players().is_empty());
}
