//! The coordinator: the one place where requests change the registries.
use crate::model::{
    AuthInfo, Client, ClientView, MarioData, Player, PlayerView, Position, Room, RoomAction,
};
use crate::registry::{
    client_records, registry_get, registry_insert, registry_keys, registry_new, registry_remove,
    Clients,
};
use crate::model::{opt_chars, JoinGameAccepted, PlayerInfo, RequestCosmeticsAccepted};
use crate::text::{is_name_valid, name_valid};
use crate::chat::{
    command_result, handle_command, is_announcement, is_chat, is_command, passes_throttle,
    server_sender, spam_ok, spam_reply, spam_warning,
};
use crate::model::{ChatMsg, ChatReply, RootMsg, Sm64JsMsg};
use crate::text::{sanitize, sanitized};
use crate::rooms::{lemma_without, without};
use std::collections::HashMap;
use vstd::prelude::*;

verus! {

/// How many ids `connect` draws before it gives up.
pub const CONNECT_ATTEMPTS: usize = 16;

/// Relies on `rand::random`, which draws from the thread-local generator;
/// nothing is promised of the value.
#[verifier::external_body]
fn random_socket_id() -> (r: u32) {
    rand::random::<u32>()
}

/// A new connection: its identity and addresses.
pub struct Connect {
    pub auth_info: AuthInfo,
    pub ip: String,
    pub real_ip: Option<String>,
}

/// The end of a connection.
pub struct Disconnect {
    pub socket_id: u32,
}

/// A connection's latest gameplay state.
pub struct SetData {
    pub socket_id: u32,
    pub data: MarioData,
}

/// An attack on another player, for one flag.
pub struct AttackMsg {
    pub flag_id: u32,
    pub target_socket_id: u32,
}

pub struct SendAttack {
    pub socket_id: u32,
    pub attack_msg: AttackMsg,
}

/// An attempt to grab a flag at a position.
pub struct GrabFlagMsg {
    pub flag_id: u32,
    pub pos: Position,
}

pub struct SendGrabFlag {
    pub socket_id: u32,
    pub grab_flag_msg: GrabFlagMsg,
}

/// A request to join the room of a level, under a chosen name or under
/// the name linked to the identity.
pub struct JoinGameMsg {
    pub level: u32,
    pub name: String,
    pub use_discord_name: bool,
}

pub struct SendJoinGame {
    pub socket_id: u32,
    pub join_game_msg: JoinGameMsg,
    pub auth_info: AuthInfo,
}

/// New cosmetic data for a player.
pub struct SkinMsg {
    pub skin_data: Vec<u8>,
}

pub struct SendSkin {
    pub socket_id: u32,
    pub skin_msg: SkinMsg,
}

/// A request to end the session of an account.
pub struct KickClientByAccountId {
    pub account_id: i32,
}

/// A request for the cosmetic data of everyone in the sender's room.
pub struct SendRequestCosmetics {
    pub socket_id: u32,
}

/// The name a join request asks for, if it may have it.
pub open spec fn resolved_name(msg: JoinGameMsg, auth_info: AuthInfo) -> Option<Seq<char>> {
    if msg.use_discord_name {
        opt_chars(auth_info.discord_username)
    } else if name_valid(msg.name@) {
        Some(msg.name@)
    } else {
        None
    }
}

/// The player record that a join creates.
pub open spec fn fresh_player(socket_id: u32, level: u32, name: Seq<char>) -> PlayerView {
    PlayerView { socket_id, level, name, skin_data: Seq::empty(), last_chat_ms: None }
}

/// The cosmetic data of a room's members in membership order, when each
/// member has a player record.
pub open spec fn room_skins(members: Seq<u32>, players: Map<u32, PlayerView>) -> Option<
    Seq<Seq<u8>>,
> {
    if forall|i: int| 0 <= i < members.len() ==> players.contains_key(#[trigger] members[i]) {
        Some(members.map_values(|m: u32| players[m].skin_data))
    } else {
        None
    }
}

/// Whether a report entry shows the given connection and player records.
pub open spec fn info_matches(info: PlayerInfo, c: ClientView, p: PlayerView) -> bool {
    &&& info.account_id == c.account_id
    &&& info.ip@ == c.ip
    &&& opt_chars(info.real_ip) == c.real_ip
    &&& info.level == p.level
    &&& info.name@ == p.name
}

/// A chat message from a connection, with the sender's identity.
pub struct SendChat {
    pub socket_id: u32,
    pub chat_msg: ChatMsg,
    pub auth_info: AuthInfo,
}

/// The connection record as it is before `set_data` with `data` on it.
pub open spec fn with_data(c: ClientView, data: MarioData) -> ClientView {
    ClientView { pos: Some(data.pos), raw: Some(data.raw@), ..c }
}

/// The room lists after `id` leaves the room its player record names.
pub open spec fn rooms_after_leaving(
    rooms: Map<u32, Seq<u32>>,
    players: Map<u32, PlayerView>,
    id: u32,
) -> Map<u32, Seq<u32>> {
    if players.contains_key(id) {
        let level = players[id].level;
        rooms.insert(level, without(rooms[level], id))
    } else {
        rooms
    }
}

/// The session coordinator.
pub struct Sm64JsServer {
    clients: Clients,
    players: HashMap<u32, Player>,
    rooms: HashMap<u32, Room>,
}

impl Sm64JsServer {
    /// The connection records, by connection id.
    pub closed spec fn clients_view(&self) -> Map<u32, ClientView> {
        client_records(self.clients)
    }

    /// The player records, by connection id.
    pub closed spec fn players_view(&self) -> Map<u32, PlayerView> {
        self.players@.map_values(|p: Player| p@)
    }

    /// The membership list of each room, by level id.
    pub closed spec fn rooms_view(&self) -> Map<u32, Seq<u32>> {
        self.rooms@.map_values(|r: Room| r.members@)
    }

    /// A connection is a member of a room exactly when its player record
    /// names that room, and no room lists a member twice.
    pub open spec fn wf(&self) -> bool {
        &&& forall|level: u32, m: u32|
            #![trigger self.rooms_view()[level].contains(m)]
            self.rooms_view().contains_key(level) && self.rooms_view()[level].contains(m)
                ==> self.players_view().contains_key(m) && self.players_view()[m].level == level
        &&& forall|m: u32|
            #![trigger self.players_view()[m]]
            self.players_view().contains_key(m) ==> {
                &&& self.rooms_view().contains_key(self.players_view()[m].level)
                &&& self.rooms_view()[self.players_view()[m].level].contains(m)
            }
        &&& forall|level: u32|
            #![trigger self.rooms_view()[level]]
            self.rooms_view().contains_key(level) ==> self.rooms_view()[level].no_duplicates()
    }

    /// A coordinator with no connection, and an empty room for each level
    /// in `levels`.
    pub fn new(levels: Vec<u32>) -> (r: Self)
        ensures
            r.wf(),
            r.clients_view().dom() == Set::<u32>::empty(),
            r.players_view().dom() == Set::<u32>::empty(),
            r.rooms_view().dom() == levels@.to_set(),
            forall|level: u32| #[trigger]
                r.rooms_view().contains_key(level) ==> r.rooms_view()[level].len() == 0,
    {
        let mut rooms: HashMap<u32, Room> = HashMap::new();
        let mut i: usize = 0;
        while i < levels.len()
            invariant
                i <= levels@.len(),
                rooms@.dom() == levels@.subrange(0, i as int).to_set(),
                forall|level: u32| #[trigger]
                    rooms@.contains_key(level) ==> rooms@[level].members@.len() == 0,
            decreases levels@.len() - i,
        {
            let level = levels[i];
            rooms.insert(level, Room::new());
            proof {
                assert(levels@.subrange(0, i + 1) =~= levels@.subrange(0, i as int).push(level));
                assert(levels@.subrange(0, i + 1).to_set() =~= levels@.subrange(
                    0,
                    i as int,
                ).to_set().insert(level)) by {
                    let a = levels@.subrange(0, i as int);
                    assert forall|x: u32| #[trigger] a.push(level).contains(x) <==> (a.contains(x) || x == level) by {
                        crate::rooms::lemma_push_contains(a, level, x);
                    }
                }
            }
            i = i + 1;
        }
        proof {
            assert(levels@.subrange(0, levels@.len() as int) =~= levels@);
        }
        let r = Sm64JsServer { clients: registry_new(), players: HashMap::new(), rooms };
        proof {
            assert(r.clients_view().dom() =~= Set::<u32>::empty());
            assert(r.players_view().dom() =~= Set::<u32>::empty());
            assert(r.rooms_view().dom() =~= levels@.to_set());
        }
        r
    }

    /// Registers a connection under `candidate` if no connection has that
    /// id yet; otherwise hands the request back unchanged.
    pub fn connect_with_id(&mut self, candidate: u32, msg: Connect) -> (r: Result<u32, Connect>)
        requires
            old(self).wf(),
        ensures
            final(self).wf(),
            final(self).players_view() == old(self).players_view(),
            final(self).rooms_view() == old(self).rooms_view(),
            old(self).clients_view().contains_key(candidate) ==> {
                &&& r == Err::<u32, Connect>(msg)
                &&& final(self).clients_view() == old(self).clients_view()
            },
            !old(self).clients_view().contains_key(candidate) ==> {
                &&& r == Ok::<u32, Connect>(candidate)
                &&& final(self).clients_view() == old(self).clients_view().insert(
                    candidate,
                    fresh_client(candidate, msg),
                )
            },
    {
        match registry_get(&self.clients, candidate) {
            Some(_) => Err(msg),
            None => {
                let client = Client::new(msg.auth_info, msg.ip, msg.real_ip, candidate);
                registry_insert(&mut self.clients, candidate, client);
                proof {
                    assert(self.players_view() =~= old(self).players_view());
                    assert(self.rooms_view() =~= old(self).rooms_view());
                }
                Ok(candidate)
            },
        }
    }

    /// Registers a connection under a fresh random id. Ids already in use
    /// are drawn again, up to `CONNECT_ATTEMPTS` draws; `None`, with nothing
    /// changed, when every draw was in use.
    pub fn connect(&mut self, msg: Connect) -> (r: Option<u32>)
        requires
            old(self).wf(),
        ensures
            final(self).wf(),
            final(self).players_view() == old(self).players_view(),
            final(self).rooms_view() == old(self).rooms_view(),
            match r {
                Some(id) => {
                    &&& !old(self).clients_view().contains_key(id)
                    &&& final(self).clients_view() == old(self).clients_view().insert(
                        id,
                        fresh_client(id, msg),
                    )
                },
                None => final(self).clients_view() == old(self).clients_view(),
            },
    {
        let ghost original = msg;
        let mut pending = msg;
        let mut attempt: usize = 0;
        while attempt < CONNECT_ATTEMPTS
            invariant
                self.wf(),
                pending == original,
                original == msg,
                self.players_view() == old(self).players_view(),
                self.rooms_view() == old(self).rooms_view(),
                self.clients_view() == old(self).clients_view(),
            decreases CONNECT_ATTEMPTS - attempt,
        {
            let candidate = random_socket_id();
            match self.connect_with_id(candidate, pending) {
                Ok(id) => {
                    assert(id == candidate);
                    return Some(id);
                },
                Err(back) => {
                    pending = back;
                },
            }
            attempt = attempt + 1;
        }
        None
    }

    /// Takes `socket_id` out of the player registry and out of the room
    /// its player record names.
    fn leave_room(&mut self, socket_id: u32)
        requires
            old(self).wf(),
        ensures
            final(self).wf(),
            final(self).clients == old(self).clients,
            final(self).players_view() == old(self).players_view().remove(socket_id),
            final(self).rooms_view() == rooms_after_leaving(
                old(self).rooms_view(),
                old(self).players_view(),
                socket_id,
            ),
            !final(self).players_view().contains_key(socket_id),
    {
        let ghost rooms0 = self.rooms_view();
        let ghost players0 = self.players_view();
        let removed = self.players.remove(&socket_id);
        proof {
            assert(self.players_view() =~= players0.remove(socket_id));
        }
        match removed {
            Some(p) => {
                let level = p.level;
                proof {
                    assert(players0[socket_id] == p@);
                    lemma_without(rooms0[level], socket_id);
                }
                let taken = self.rooms.remove(&level);
                match taken {
                    Some(room) => {
                        let mut room = room;
                        room.remove_player(socket_id);
                        self.rooms.insert(level, room);
                        proof {
                            assert(self.rooms_view() =~= rooms0.insert(
                                level,
                                without(rooms0[level], socket_id),
                            ));
                        }
                    },
                    None => {
                        assert(false);
                    },
                }
                proof {
                    assert forall|l: u32, m: u32|
                        #![trigger self.rooms_view()[l].contains(m)]
                        self.rooms_view().contains_key(l) && self.rooms_view()[l].contains(m)
                            implies self.players_view().contains_key(m)
                            && self.players_view()[m].level == l by {
                        if l != level {
                            assert(rooms0[l].contains(m));
                        }
                    }
                    assert forall|m: u32|
                        #![trigger self.players_view()[m]]
                        self.players_view().contains_key(m) implies {
                            &&& self.rooms_view().contains_key(self.players_view()[m].level)
                            &&& self.rooms_view()[self.players_view()[m].level].contains(m)
                        } by {
                        assert(players0[m] == self.players_view()[m]);
                    }
                }
            },
            None => {
                proof {
                    assert(self.players_view() =~= players0);
                }
            },
        }
    }

    /// Ends a connection: its connection record, its player record and its
    /// room membership go. Nothing happens for an id not connected.
    pub fn disconnect(&mut self, msg: Disconnect)
        requires
            old(self).wf(),
        ensures
            final(self).wf(),
            final(self).clients_view() == old(self).clients_view().remove(msg.socket_id),
            final(self).players_view() == old(self).players_view().remove(msg.socket_id),
            final(self).rooms_view() == rooms_after_leaving(
                old(self).rooms_view(),
                old(self).players_view(),
                msg.socket_id,
            ),
    {
        registry_remove(&mut self.clients, msg.socket_id);
        self.leave_room(msg.socket_id);
    }

    /// Stores a connection's latest gameplay state; ignored for an id not
    /// connected.
    pub fn set_data(&mut self, msg: SetData)
        requires
            old(self).wf(),
        ensures
            final(self).wf(),
            final(self).players_view() == old(self).players_view(),
            final(self).rooms_view() == old(self).rooms_view(),
            old(self).clients_view().contains_key(msg.socket_id) ==> final(self).clients_view()
                == old(self).clients_view().insert(
                msg.socket_id,
                with_data(old(self).clients_view()[msg.socket_id], msg.data),
            ),
            !old(self).clients_view().contains_key(msg.socket_id) ==> final(self).clients_view()
                == old(self).clients_view(),
    {
        let socket_id = msg.socket_id;
        match registry_get(&self.clients, socket_id) {
            Some(client) => {
                let mut client = client;
                client.data = Some(msg.data);
                registry_insert(&mut self.clients, socket_id, client);
                proof {
                    assert(self.players_view() =~= old(self).players_view());
                    assert(self.rooms_view() =~= old(self).rooms_view());
                }
            },
            None => {},
        }
    }

    /// The attack that the sender's room is to apply: sent only when the
    /// sender has a recorded position and a room that exists.
    pub fn send_attack(&self, msg: SendAttack) -> (r: Option<RoomAction>)
        ensures
            match r {
                Some(action) => {
                    &&& self.clients_view().contains_key(msg.socket_id)
                    &&& self.clients_view()[msg.socket_id].level is Some
                    &&& self.clients_view()[msg.socket_id].pos is Some
                    &&& self.rooms_view().contains_key(
                        self.clients_view()[msg.socket_id].level->0,
                    )
                    &&& action == (RoomAction::Attack {
                        level: self.clients_view()[msg.socket_id].level->0,
                        flag_id: msg.attack_msg.flag_id as usize,
                        attacker_pos: self.clients_view()[msg.socket_id].pos->0,
                        target_socket_id: msg.attack_msg.target_socket_id,
                    })
                },
                None => !{
                    &&& self.clients_view().contains_key(msg.socket_id)
                    &&& self.clients_view()[msg.socket_id].level is Some
                    &&& self.clients_view()[msg.socket_id].pos is Some
                    &&& self.rooms_view().contains_key(
                        self.clients_view()[msg.socket_id].level->0,
                    )
                },
            },
    {
        let client = match registry_get(&self.clients, msg.socket_id) {
            Some(c) => c,
            None => {
                return None;
            },
        };
        let level = match client.level {
            Some(l) => l,
            None => {
                return None;
            },
        };
        let attacker_pos = match &client.data {
            Some(d) => d.pos,
            None => {
                return None;
            },
        };
        if !self.rooms.contains_key(&level) {
            return None;
        }
        Some(
            RoomAction::Attack {
                level,
                flag_id: msg.attack_msg.flag_id as usize,
                attacker_pos,
                target_socket_id: msg.attack_msg.target_socket_id,
            },
        )
    }

    /// The flag grab that the sender's room is to attempt: sent only when
    /// the sender has a room that exists.
    pub fn send_grab_flag(&self, msg: SendGrabFlag) -> (r: Option<RoomAction>)
        ensures
            match r {
                Some(action) => {
                    &&& self.clients_view().contains_key(msg.socket_id)
                    &&& self.clients_view()[msg.socket_id].level is Some
                    &&& self.rooms_view().contains_key(
                        self.clients_view()[msg.socket_id].level->0,
                    )
                    &&& action == (RoomAction::GrabFlag {
                        level: self.clients_view()[msg.socket_id].level->0,
                        flag_id: msg.grab_flag_msg.flag_id as usize,
                        pos: msg.grab_flag_msg.pos,
                        socket_id: msg.socket_id,
                    })
                },
                None => !{
                    &&& self.clients_view().contains_key(msg.socket_id)
                    &&& self.clients_view()[msg.socket_id].level is Some
                    &&& self.rooms_view().contains_key(
                        self.clients_view()[msg.socket_id].level->0,
                    )
                },
            },
    {
        let level = match self.client_level(msg.socket_id) {
            Some(l) => l,
            None => {
                return None;
            },
        };
        if !self.rooms.contains_key(&level) {
            return None;
        }
        Some(
            RoomAction::GrabFlag {
                level,
                flag_id: msg.grab_flag_msg.flag_id as usize,
                pos: msg.grab_flag_msg.pos,
                socket_id: msg.socket_id,
            },
        )
    }

    /// Whether a join request meets every condition for acceptance.
    pub open spec fn join_allowed(&self, msg: SendJoinGame) -> bool {
        let level = msg.join_game_msg.level;
        &&& self.rooms_view().contains_key(level)
        &&& !self.rooms_view()[level].contains(msg.socket_id)
        &&& resolved_name(msg.join_game_msg, msg.auth_info) is Some
        &&& level != 0
    }

    /// Joins the sender to the room of the requested level. On acceptance
    /// the sender leaves the room it was in, a fresh player record is made,
    /// the sender is appended to the room's members and its connection
    /// record names the level. On rejection nothing changes.
    pub fn join_game(&mut self, msg: SendJoinGame) -> (r: Option<JoinGameAccepted>)
        requires
            old(self).wf(),
        ensures
            final(self).wf(),
            !old(self).join_allowed(msg) ==> {
                &&& r is None
                &&& final(self).clients_view() == old(self).clients_view()
                &&& final(self).players_view() == old(self).players_view()
                &&& final(self).rooms_view() == old(self).rooms_view()
            },
            old(self).join_allowed(msg) ==> {
                let id = msg.socket_id;
                let level = msg.join_game_msg.level;
                let name = resolved_name(msg.join_game_msg, msg.auth_info)->0;
                let left = rooms_after_leaving(
                    old(self).rooms_view(),
                    old(self).players_view(),
                    id,
                );
                &&& r is Some
                &&& r->0.level == level
                &&& r->0.name@ == name
                &&& final(self).players_view() == old(self).players_view().insert(
                    id,
                    fresh_player(id, level, name),
                )
                &&& final(self).rooms_view() == left.insert(
                    level,
                    old(self).rooms_view()[level].push(id),
                )
                &&& old(self).clients_view().contains_key(id) ==> final(self).clients_view()
                    == old(self).clients_view().insert(
                    id,
                    ClientView { level: Some(level), ..old(self).clients_view()[id] },
                )
                &&& !old(self).clients_view().contains_key(id) ==> final(self).clients_view()
                    == old(self).clients_view()
            },
    {
        let socket_id = msg.socket_id;
        let join_game_msg = msg.join_game_msg;
        let auth_info = msg.auth_info;
        let level = join_game_msg.level;
        let in_room = match self.rooms.get(&level) {
            Some(room) => room.has_player(socket_id),
            None => {
                return None;
            },
        };
        if in_room {
            return None;
        }
        let name = if join_game_msg.use_discord_name {
            match auth_info.get_discord_username() {
                Some(n) => n,
                None => {
                    return None;
                },
            }
        } else {
            if !is_name_valid(join_game_msg.name.as_str()) {
                return None;
            }
            join_game_msg.name
        };
        if level == 0 {
            return None;
        }
        let ghost rooms0 = self.rooms_view();
        let ghost players0 = self.players_view();
        proof {
            assert(self.rooms@.contains_key(level));
            assert(rooms0.contains_key(level));
            if players0.contains_key(socket_id) {
                assert(players0[socket_id].level != level) by {
                    if players0[socket_id].level == level {
                        assert(rooms0[level].contains(socket_id));
                    }
                }
            }
        }
        self.leave_room(socket_id);
        let ghost rooms1 = self.rooms_view();
        let ghost players1 = self.players_view();
        proof {
            assert(rooms1[level] == rooms0[level]);
            assert(!rooms1[level].contains(socket_id));
        }
        proof {
            assert(rooms1.contains_key(level));
            assert(self.rooms@.dom() =~= rooms1.dom());
            assert(self.rooms@.contains_key(level));
        }
        let taken = self.rooms.remove(&level);
        let mut room = match taken {
            Some(room) => room,
            None => {
                assert(false);
                return None;
            },
        };
        room.add_player(socket_id);
        self.rooms.insert(level, room);
        self.players.insert(
            socket_id,
            Player {
                socket_id,
                level,
                name: name.clone(),
                skin_data: Vec::new(),
                last_chat_ms: None,
            },
        );
        proof {
            let rl = rooms1[level];
            assert(self.rooms_view() =~= rooms1.insert(level, rl.push(socket_id)));
            assert(self.players_view() =~= players1.insert(
                socket_id,
                fresh_player(socket_id, level, name@),
            ));
            assert(players1 =~= players0.remove(socket_id));
            assert(self.players_view() =~= players0.insert(
                socket_id,
                fresh_player(socket_id, level, name@),
            ));
            assert forall|l: u32, m: u32|
                #![trigger self.rooms_view()[l].contains(m)]
                self.rooms_view().contains_key(l) && self.rooms_view()[l].contains(m)
                    implies self.players_view().contains_key(m)
                    && self.players_view()[m].level == l by {
                if l == level {
                    crate::rooms::lemma_push_contains(rl, socket_id, m);
                    if m != socket_id {
                        assert(rooms1[l].contains(m));
                    }
                } else {
                    assert(rooms1[l].contains(m));
                }
            }
            assert forall|m: u32|
                #![trigger self.players_view()[m]]
                self.players_view().contains_key(m) implies {
                    &&& self.rooms_view().contains_key(self.players_view()[m].level)
                    &&& self.rooms_view()[self.players_view()[m].level].contains(m)
                } by {
                if m == socket_id {
                    crate::rooms::lemma_push_contains(rl, socket_id, m);
                } else {
                    assert(players1[m] == self.players_view()[m]);
                    let l = players1[m].level;
                    if l == level {
                        crate::rooms::lemma_push_contains(rl, socket_id, m);
                    }
                }
            }
            assert forall|l: u32|
                #![trigger self.rooms_view()[l]]
                self.rooms_view().contains_key(l) implies self.rooms_view()[l].no_duplicates() by {
                if l == level {
                    assert(rooms1[level].no_duplicates());
                    let q = rl.push(socket_id);
                    assert forall|i: int, j: int|
                        0 <= i < q.len() && 0 <= j < q.len() && i != j implies q[i] != q[j] by {
                        if i == rl.len() {
                            assert(q[j] == rl[j]);
                        } else if j == rl.len() {
                            assert(q[i] == rl[i]);
                        }
                    }
                }
            }
        }
        let ghost clients0 = self.clients_view();
        match registry_get(&self.clients, socket_id) {
            Some(client) => {
                let mut client = client;
                client.level = Some(level);
                registry_insert(&mut self.clients, socket_id, client);
                proof {
                    assert(self.clients_view() == clients0.insert(
                        socket_id,
                        ClientView { level: Some(level), ..clients0[socket_id] },
                    ));
                }
            },
            None => {},
        }
        proof {
            assert(self.players_view() =~= players0.insert(
                socket_id,
                fresh_player(socket_id, level, name@),
            ));
        }
        Some(JoinGameAccepted { level, name })
    }

    /// Replaces a player's cosmetic data; ignored for an id with no player
    /// record.
    pub fn send_skin(&mut self, msg: SendSkin)
        requires
            old(self).wf(),
        ensures
            final(self).wf(),
            final(self).clients_view() == old(self).clients_view(),
            final(self).rooms_view() == old(self).rooms_view(),
            old(self).players_view().contains_key(msg.socket_id) ==> final(self).players_view()
                == old(self).players_view().insert(
                msg.socket_id,
                PlayerView {
                    skin_data: msg.skin_msg.skin_data@,
                    ..old(self).players_view()[msg.socket_id]
                },
            ),
            !old(self).players_view().contains_key(msg.socket_id) ==> final(self).players_view()
                == old(self).players_view(),
    {
        let socket_id = msg.socket_id;
        let ghost players0 = self.players_view();
        let ghost rooms0 = self.rooms_view();
        match self.players.remove(&socket_id) {
            Some(player) => {
                let mut player = player;
                player.skin_data = msg.skin_msg.skin_data;
                self.players.insert(socket_id, player);
                proof {
                    assert(self.rooms_view() == rooms0);
                    assert(self.players_view() =~= players0.insert(
                        socket_id,
                        PlayerView { skin_data: msg.skin_msg.skin_data@, ..players0[socket_id] },
                    ));
                    assert forall|m: u32|
                        #![trigger self.players_view()[m]]
                        self.players_view().contains_key(m) implies {
                            &&& self.rooms_view().contains_key(self.players_view()[m].level)
                            &&& self.rooms_view()[self.players_view()[m].level].contains(m)
                        } by {
                        assert(players0[m].level == self.players_view()[m].level);
                    }
                    assert forall|l: u32, m: u32|
                        #![trigger self.rooms_view()[l].contains(m)]
                        self.rooms_view().contains_key(l) && self.rooms_view()[l].contains(m)
                            implies self.players_view().contains_key(m)
                            && self.players_view()[m].level == l by {
                        assert(players0[m].level == self.players_view()[m].level);
                        assert(rooms0[l].contains(m));
                    }
                }
            },
            None => {
                proof {
                    assert(self.players_view() =~= players0);
                }
            },
        }
    }

    /// The id of a connection whose identity carries `account_id`, if any.
    fn get_client_by_account_id(&self, account_id: i32) -> (r: Option<u32>)
        ensures
            match r {
                Some(id) => self.clients_view().contains_key(id)
                    && self.clients_view()[id].account_id == account_id,
                None => forall|id: u32| #[trigger]
                    self.clients_view().contains_key(id) ==> self.clients_view()[id].account_id
                        != account_id,
            },
    {
        let keys = registry_keys(&self.clients);
        let mut i: usize = 0;
        while i < keys.len()
            invariant
                i <= keys@.len(),
                keys@.to_set() == self.clients_view().dom(),
                forall|j: int|
                    0 <= j < i ==> self.clients_view()[#[trigger] keys@[j]].account_id
                        != account_id,
            decreases keys@.len() - i,
        {
            let id = keys[i];
            proof {
                assert(keys@.to_set().contains(id));
            }
            match registry_get(&self.clients, id) {
                Some(client) => {
                    if client.auth_info.account_id == account_id {
                        return Some(id);
                    }
                },
                None => {},
            }
            i = i + 1;
        }
        proof {
            assert forall|id: u32| #[trigger]
                self.clients_view().contains_key(id) implies self.clients_view()[id].account_id
                    != account_id by {
                assert(keys@.to_set().contains(id));
                let j = choose|j: int| 0 <= j < keys@.len() && keys@[j] == id;
                assert(self.clients_view()[keys@[j]].account_id != account_id);
            }
        }
        None
    }

    /// Ends the session of the connection whose identity carries the
    /// account id, as `disconnect` does, and returns its id so that its
    /// outbound handle can be told to close. `None`, with nothing changed,
    /// when no such account is connected.
    pub fn kick_client_by_account_id(&mut self, msg: KickClientByAccountId) -> (r: Option<u32>)
        requires
            old(self).wf(),
        ensures
            final(self).wf(),
            match r {
                Some(id) => {
                    &&& old(self).clients_view().contains_key(id)
                    &&& old(self).clients_view()[id].account_id == msg.account_id
                    &&& final(self).clients_view() == old(self).clients_view().remove(id)
                    &&& final(self).players_view() == old(self).players_view().remove(id)
                    &&& final(self).rooms_view() == rooms_after_leaving(
                        old(self).rooms_view(),
                        old(self).players_view(),
                        id,
                    )
                },
                None => {
                    &&& forall|id: u32| #[trigger]
                        old(self).clients_view().contains_key(id)
                            ==> old(self).clients_view()[id].account_id != msg.account_id
                    &&& final(self).clients_view() == old(self).clients_view()
                    &&& final(self).players_view() == old(self).players_view()
                    &&& final(self).rooms_view() == old(self).rooms_view()
                },
            },
    {
        match self.get_client_by_account_id(msg.account_id) {
            Some(id) => {
                self.disconnect(Disconnect { socket_id: id });
                Some(id)
            },
            None => None,
        }
    }

    /// The cosmetic data of every member of the sender's room, in
    /// membership order; `None` when the sender has no room that exists.
    pub fn request_cosmetics(&self, msg: SendRequestCosmetics) -> (r: Option<
        RequestCosmeticsAccepted,
    >)
        requires
            self.wf(),
        ensures
            match r {
                Some(accepted) => {
                    let level = self.clients_view()[msg.socket_id].level->0;
                    &&& self.clients_view().contains_key(msg.socket_id)
                    &&& self.clients_view()[msg.socket_id].level is Some
                    &&& self.rooms_view().contains_key(level)
                    &&& room_skins(self.rooms_view()[level], self.players_view()) == Some(
                        accepted.0@.map_values(|v: Vec<u8>| v@),
                    )
                },
                None => !{
                    &&& self.clients_view().contains_key(msg.socket_id)
                    &&& self.clients_view()[msg.socket_id].level is Some
                    &&& self.rooms_view().contains_key(
                        self.clients_view()[msg.socket_id].level->0,
                    )
                },
            },
    {
        let level = match self.client_level(msg.socket_id) {
            Some(l) => l,
            None => {
                return None;
            },
        };
        let room = match self.rooms.get(&level) {
            Some(room) => room,
            None => {
                return None;
            },
        };
        let ghost members = room.members@;
        let mut skins: Vec<Vec<u8>> = Vec::new();
        let mut i: usize = 0;
        while i < room.members.len()
            invariant
                self.wf(),
                members == room.members@,
                members == self.rooms_view()[level],
                self.rooms_view().contains_key(level),
                i <= members.len(),
                skins@.len() == i,
                forall|j: int|
                    0 <= j < i ==> (#[trigger] skins@[j])@ == self.players_view()[members[j]].skin_data,
            decreases members.len() - i,
        {
            let m = room.members[i];
            proof {
                assert(members.contains(m));
            }
            match self.players.get(&m) {
                Some(p) => {
                    skins.push(p.skin_data.clone());
                },
                None => {
                    assert(false);
                    return None;
                },
            }
            i = i + 1;
        }
        proof {
            assert forall|j: int| 0 <= j < members.len() implies self.players_view().contains_key(
                #[trigger] members[j],
            ) by {
                assert(members.contains(members[j]));
            }
            assert(skins@.map_values(|v: Vec<u8>| v@) =~= members.map_values(
                |m: u32| self.players_view()[m].skin_data,
            ));
        }
        Some(RequestCosmeticsAccepted(skins))
    }

    /// A report entry for every connection that has both a connection and a
    /// player record, each once, in no promised order.
    pub fn get_players(&self) -> (r: Vec<PlayerInfo>)
        ensures
            forall|i: int|
                0 <= i < r@.len() ==> {
                    let id = (#[trigger] r@[i]).socket_id;
                    &&& self.clients_view().contains_key(id)
                    &&& self.players_view().contains_key(id)
                    &&& info_matches(r@[i], self.clients_view()[id], self.players_view()[id])
                },
            forall|i: int, j: int|
                0 <= i < r@.len() && 0 <= j < r@.len() && i != j ==> (#[trigger] r@[i]).socket_id
                    != (#[trigger] r@[j]).socket_id,
            forall|id: u32|
                #![trigger self.players_view()[id]]
                self.clients_view().contains_key(id) && self.players_view().contains_key(id)
                    ==> exists|i: int| 0 <= i < r@.len() && (#[trigger] r@[i]).socket_id == id,
    {
        let keys = registry_keys(&self.clients);
        let mut out: Vec<PlayerInfo> = Vec::new();
        let mut i: usize = 0;
        while i < keys.len()
            invariant
                i <= keys@.len(),
                keys@.to_set() == self.clients_view().dom(),
                keys@.no_duplicates(),
                forall|k: int|
                    0 <= k < out@.len() ==> {
                        let id = (#[trigger] out@[k]).socket_id;
                        &&& self.clients_view().contains_key(id)
                        &&& self.players_view().contains_key(id)
                        &&& info_matches(out@[k], self.clients_view()[id], self.players_view()[id])
                        &&& exists|j: int| 0 <= j < i && keys@[j] == id
                    },
                forall|k1: int, k2: int|
                    0 <= k1 < out@.len() && 0 <= k2 < out@.len() && k1 != k2
                        ==> (#[trigger] out@[k1]).socket_id != (#[trigger] out@[k2]).socket_id,
                forall|j: int|
                    #![trigger keys@[j]]
                    0 <= j < i && self.players_view().contains_key(keys@[j]) ==> exists|k: int|
                        0 <= k < out@.len() && (#[trigger] out@[k]).socket_id == keys@[j],
            decreases keys@.len() - i,
        {
            let id = keys[i];
            proof {
                assert(keys@.to_set().contains(id));
            }
            let ghost out0 = out@;
            let client = registry_get(&self.clients, id);
            match (client, self.players.get(&id)) {
                (Some(c), Some(p)) => {
                    let info = PlayerInfo {
                        account_id: c.auth_info.account_id,
                        socket_id: id,
                        ip: c.ip.clone(),
                        real_ip: crate::model::clone_opt_string(&c.real_ip),
                        level: p.level,
                        name: p.name.clone(),
                    };
                    proof {
                        assert forall|k: int| 0 <= k < out@.len() implies (#[trigger] out@[k]).socket_id != id by {
                            let j = choose|j: int| 0 <= j < i && keys@[j] == out@[k].socket_id;
                            assert(keys@[j] != keys@[i as int]);
                        }
                    }
                    out.push(info);
                    proof {
                        assert(out@[out@.len() - 1].socket_id == id);
                    }
                },
                _ => {},
            }
            proof {
                assert forall|j: int|
                    #![trigger keys@[j]]
                    0 <= j < i + 1 && self.players_view().contains_key(keys@[j]) implies exists|k: int|
                        0 <= k < out@.len() && (#[trigger] out@[k]).socket_id == keys@[j] by {
                    if j < i {
                        let k = choose|k: int| 0 <= k < out0.len() && (#[trigger] out0[k]).socket_id == keys@[j];
                        assert(out@[k] == out0[k]);
                    } else {
                        assert(self.players@.contains_key(id));
                        assert(out@[out@.len() - 1].socket_id == id);
                    }
                }
            }
            i = i + 1;
        }
        proof {
            assert forall|id: u32|
                #![trigger self.players_view()[id]]
                self.clients_view().contains_key(id) && self.players_view().contains_key(id)
                    implies exists|k: int| 0 <= k < out@.len() && (#[trigger] out@[k]).socket_id == id by {
                assert(keys@.to_set().contains(id));
                let j = choose|j: int| 0 <= j < keys@.len() && keys@[j] == id;
                assert(self.players_view().contains_key(keys@[j]));
            }
        }
        out
    }

    /// The level of the sender's room, when its connection names a room
    /// that exists.
    pub open spec fn sender_room(&self, socket_id: u32) -> Option<u32> {
        if self.clients_view().contains_key(socket_id) && self.clients_view()[socket_id].level is Some
            && self.rooms_view().contains_key(self.clients_view()[socket_id].level->0) {
            self.clients_view()[socket_id].level
        } else {
            None
        }
    }

    /// A payload for the sender's room, or nothing when it has none.
    fn broadcast_to_sender_room(&self, socket_id: u32, msg: RootMsg) -> (r: ChatReply)
        ensures
            match self.sender_room(socket_id) {
                Some(level) => r == (ChatReply::Broadcast { level, msg }),
                None => r == ChatReply::Nothing,
            },
    {
        match self.client_level(socket_id) {
            Some(level) => {
                if self.rooms.contains_key(&level) {
                    ChatReply::Broadcast { level, msg }
                } else {
                    ChatReply::Nothing
                }
            },
            None => ChatReply::Nothing,
        }
    }

    /// Puts an ordinary chat message of a joined player through the
    /// throttle. Accepted: the player's last-accepted time becomes `now_ms`
    /// and the sanitized message, tagged with the sender, comes back in
    /// `Ok`. Throttled: nothing changes and the warning comes back in `Err`.
    fn handle_chat(&mut self, socket_id: u32, chat_msg: &ChatMsg, auth_info: &AuthInfo, now_ms: u64) -> (r: Result<RootMsg, RootMsg>)
        requires
            old(self).wf(),
            old(self).players_view().contains_key(socket_id),
        ensures
            final(self).wf(),
            final(self).clients_view() == old(self).clients_view(),
            final(self).rooms_view() == old(self).rooms_view(),
            ({
                let p = old(self).players_view()[socket_id];
                if spam_ok(p.last_chat_ms, now_ms) {
                    &&& r is Ok
                    &&& is_chat(r->Ok_0, sanitized(chat_msg.message@), p.name, socket_id, auth_info.in_game_admin)
                    &&& final(self).players_view() == old(self).players_view().insert(
                        socket_id,
                        PlayerView { last_chat_ms: Some(now_ms), ..p },
                    )
                } else {
                    &&& r is Err
                    &&& is_chat(r->Err_0, spam_warning(), server_sender(), socket_id, false)
                    &&& final(self).players_view() == old(self).players_view()
                }
            }),
    {
        let ghost players0 = self.players_view();
        let ghost rooms0 = self.rooms_view();
        let player = match self.players.remove(&socket_id) {
            Some(p) => p,
            None => {
                assert(false);
                return Err(spam_reply(socket_id));
            },
        };
        let mut player = player;
        if !passes_throttle(player.last_chat_ms, now_ms) {
            self.players.insert(socket_id, player);
            proof {
                assert(self.players_view() =~= players0);
            }
            return Err(spam_reply(socket_id));
        }
        player.last_chat_ms = Some(now_ms);
        let message = sanitize(chat_msg.message.as_str());
        let sender = player.name.clone();
        self.players.insert(socket_id, player);
        proof {
            assert(self.rooms_view() == rooms0);
            assert(self.players_view() =~= players0.insert(
                socket_id,
                PlayerView { last_chat_ms: Some(now_ms), ..players0[socket_id] },
            ));
            assert forall|m: u32|
                #![trigger self.players_view()[m]]
                self.players_view().contains_key(m) implies {
                    &&& self.rooms_view().contains_key(self.players_view()[m].level)
                    &&& self.rooms_view()[self.players_view()[m].level].contains(m)
                } by {
                assert(players0[m].level == self.players_view()[m].level);
            }
            assert forall|l: u32, m: u32|
                #![trigger self.rooms_view()[l].contains(m)]
                self.rooms_view().contains_key(l) && self.rooms_view()[l].contains(m)
                    implies self.players_view().contains_key(m)
                    && self.players_view()[m].level == l by {
                assert(players0[m].level == self.players_view()[m].level);
                assert(rooms0[l].contains(m));
            }
        }
        Ok(
            Self::create_uncompressed_msg(
                Sm64JsMsg::Chat(
                    ChatMsg {
                        message,
                        sender,
                        socket_id,
                        is_admin: auth_info.is_in_game_admin(),
                    },
                ),
            ),
        )
    }

    /// Handles a chat text. A text starting with `/` is a command: an
    /// announcement that the identity may send goes to the sender's room.
    /// Any other text from a joined player goes through the throttle: an
    /// accepted message goes to the sender's room, a throttled one earns a
    /// private warning. A text from a connection with no player record is
    /// dropped.
    pub fn send_chat(&mut self, msg: SendChat, now_ms: u64) -> (r: ChatReply)
        requires
            old(self).wf(),
        ensures
            final(self).wf(),
            final(self).clients_view() == old(self).clients_view(),
            final(self).rooms_view() == old(self).rooms_view(),
            ({
                let t = msg.chat_msg.message@;
                let id = msg.socket_id;
                if is_command(t) {
                    &&& final(self).players_view() == old(self).players_view()
                    &&& match (command_result(t, msg.auth_info.permissions@), old(self).sender_room(id)) {
                        (Some(text), Some(level)) => r matches ChatReply::Broadcast { level: l, msg: m } && l == level && is_announcement(m, text),
                        _ => r is Nothing,
                    }
                } else if !old(self).players_view().contains_key(id) {
                    &&& final(self).players_view() == old(self).players_view()
                    &&& r is Nothing
                } else {
                    let p = old(self).players_view()[id];
                    if spam_ok(p.last_chat_ms, now_ms) {
                        &&& final(self).players_view() == old(self).players_view().insert(
                            id,
                            PlayerView { last_chat_ms: Some(now_ms), ..p },
                        )
                        &&& match old(self).sender_room(id) {
                            Some(level) => r matches ChatReply::Broadcast { level: l, msg: m } && l == level
                                && is_chat(m, sanitized(t), p.name, id, msg.auth_info.in_game_admin),
                            None => r is Nothing,
                        }
                    } else {
                        &&& final(self).players_view() == old(self).players_view()
                        &&& r matches ChatReply::Reply(m) && is_chat(m, spam_warning(), server_sender(), id, false)
                    }
                }
            }),
    {
        let socket_id = msg.socket_id;
        let text = msg.chat_msg.message.as_str();
        let n = text.unicode_len();
        if n > 0 && text.get_char(0) == '/' {
            match handle_command(&msg.chat_msg, &msg.auth_info) {
                Some(m) => self.broadcast_to_sender_room(socket_id, m),
                None => ChatReply::Nothing,
            }
        } else if self.players.contains_key(&socket_id) {
            proof {
                assert(self.players_view().contains_key(socket_id));
            }
            match self.handle_chat(socket_id, &msg.chat_msg, &msg.auth_info, now_ms) {
                Ok(m) => self.broadcast_to_sender_room(socket_id, m),
                Err(m) => ChatReply::Reply(m),
            }
        } else {
            ChatReply::Nothing
        }
    }

    /// Wraps a payload in the uncompressed envelope.
    pub fn create_uncompressed_msg(msg: Sm64JsMsg) -> (r: RootMsg)
        ensures
            r == RootMsg::Uncompressed(msg),
    {
        RootMsg::Uncompressed(msg)
    }

    /// The room level recorded on a connection, if it is connected and has one.
    fn client_level(&self, socket_id: u32) -> (r: Option<u32>)
        ensures
            r == (if self.clients_view().contains_key(socket_id) {
                self.clients_view()[socket_id].level
            } else {
                None
            }),
    {
        match registry_get(&self.clients, socket_id) {
            Some(c) => c.level,
            None => None,
        }
    }
}

/// The record that `connect` stores for a new connection.
pub open spec fn fresh_client(id: u32, msg: Connect) -> ClientView {
    ClientView {
        socket_id: id,
        account_id: msg.auth_info.account_id,
        ip: msg.ip@,
        real_ip: crate::model::opt_chars(msg.real_ip),
        level: None,
        pos: None,
        raw: None,
    }
}

} // verus!
