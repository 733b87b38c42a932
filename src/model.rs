//! The records that the coordinator keeps and the payloads it hands out.
use vstd::prelude::*;

verus! {

/// The characters of an optional string.
pub open spec fn opt_chars(o: Option<String>) -> Option<Seq<char>> {
    match o {
        Some(s) => Some(s@),
        None => None,
    }
}

/// Copies an optional string.
pub fn clone_opt_string(o: &Option<String>) -> (r: Option<String>)
    ensures
        opt_chars(r) == opt_chars(*o),
{
    match o {
        Some(s) => Some(s.clone()),
        None => None,
    }
}

/// A right that an identity may hold.
#[derive(Clone, Copy, Debug, PartialEq, Eq, Structural)]
pub enum Permission {
    SendAnnouncement,
}

/// The identity bundle of one connection.
#[derive(Clone, Debug)]
pub struct AuthInfo {
    pub account_id: i32,
    pub discord_username: Option<String>,
    pub permissions: Vec<Permission>,
    pub in_game_admin: bool,
}

impl AuthInfo {
    /// Whether the identity holds permission `p`.
    pub fn has_permission(&self, p: Permission) -> (r: bool)
        ensures
            r == self.permissions@.contains(p),
    {
        let mut i: usize = 0;
        while i < self.permissions.len()
            invariant
                i <= self.permissions@.len(),
                forall|j: int| 0 <= j < i ==> self.permissions@[j] != p,
            decreases self.permissions@.len() - i,
        {
            if self.permissions[i] == p {
                return true;
            }
            i = i + 1;
        }
        false
    }

    /// The display name linked to the identity, if any.
    pub fn get_discord_username(&self) -> (r: Option<String>)
        ensures
            opt_chars(r) == opt_chars(self.discord_username),
    {
        clone_opt_string(&self.discord_username)
    }

    pub fn is_in_game_admin(&self) -> (r: bool)
        ensures
            r == self.in_game_admin,
    {
        self.in_game_admin
    }

    pub fn get_account_id(&self) -> (r: i32)
        ensures
            r == self.account_id,
    {
        self.account_id
    }
}

/// A position in the world, each coordinate as the bit pattern of its
/// IEEE-754 single-precision value; the coordinator only carries it.
#[derive(Clone, Copy, Debug, PartialEq, Eq, Structural)]
pub struct Position {
    pub x: u32,
    pub y: u32,
    pub z: u32,
}

/// The latest gameplay state that a connection reported.
#[derive(Clone, Debug)]
pub struct MarioData {
    pub pos: Position,
    pub raw: Vec<u8>,
}

/// One live network session.
#[derive(Clone, Debug)]
pub struct Client {
    pub socket_id: u32,
    pub auth_info: AuthInfo,
    pub ip: String,
    pub real_ip: Option<String>,
    pub level: Option<u32>,
    pub data: Option<MarioData>,
}

/// What the contracts read of a connection record.
pub ghost struct ClientView {
    pub socket_id: u32,
    pub account_id: i32,
    pub ip: Seq<char>,
    pub real_ip: Option<Seq<char>>,
    pub level: Option<u32>,
    pub pos: Option<Position>,
    pub raw: Option<Seq<u8>>,
}

impl View for Client {
    type V = ClientView;

    open spec fn view(&self) -> ClientView {
        ClientView {
            socket_id: self.socket_id,
            account_id: self.auth_info.account_id,
            ip: self.ip@,
            real_ip: opt_chars(self.real_ip),
            level: self.level,
            pos: match self.data {
                Some(d) => Some(d.pos),
                None => None,
            },
            raw: match self.data {
                Some(d) => Some(d.raw@),
                None => None,
            },
        }
    }
}

impl Client {
    pub fn new(
        auth_info: AuthInfo,
        ip: String,
        real_ip: Option<String>,
        socket_id: u32,
    ) -> (r: Client)
        ensures
            r@ == (ClientView {
                socket_id,
                account_id: auth_info.account_id,
                ip: ip@,
                real_ip: opt_chars(real_ip),
                level: None,
                pos: None,
                raw: None,
            }),
    {
        Client { socket_id, auth_info, ip, real_ip, level: None, data: None }
    }
}

/// A connection that has joined a room.
#[derive(Debug)]
pub struct Player {
    pub socket_id: u32,
    pub level: u32,
    pub name: String,
    pub skin_data: Vec<u8>,
    pub last_chat_ms: Option<u64>,
}

/// What the contracts read of a player record.
pub ghost struct PlayerView {
    pub socket_id: u32,
    pub level: u32,
    pub name: Seq<char>,
    pub skin_data: Seq<u8>,
    pub last_chat_ms: Option<u64>,
}

impl View for Player {
    type V = PlayerView;

    open spec fn view(&self) -> PlayerView {
        PlayerView {
            socket_id: self.socket_id,
            level: self.level,
            name: self.name@,
            skin_data: self.skin_data@,
            last_chat_ms: self.last_chat_ms,
        }
    }
}

/// One room's membership: the connection ids that joined it, in order of
/// joining, each at most once.
#[derive(Debug)]
pub struct Room {
    pub members: Vec<u32>,
}

/// A chat message as shown to players.
#[derive(Clone, Debug)]
pub struct ChatMsg {
    pub message: String,
    pub sender: String,
    pub socket_id: u32,
    pub is_admin: bool,
}

/// A time-limited announcement.
#[derive(Clone, Debug)]
pub struct AnnouncementMsg {
    pub message: String,
    pub timer: u32,
}

/// The payloads the coordinator builds.
#[derive(Clone, Debug)]
pub enum Sm64JsMsg {
    Chat(ChatMsg),
    Announcement(AnnouncementMsg),
    Raw(Vec<u8>),
}

/// The envelope of every outbound payload.
#[derive(Clone, Debug)]
pub enum RootMsg {
    Uncompressed(Sm64JsMsg),
    Compressed(Vec<u8>),
}

/// What a connection's outbound handle is asked to do.
#[derive(Clone, Debug)]
pub enum Message {
    SendData(Vec<u8>),
    Kick,
}

/// A successful join.
#[derive(Debug)]
pub struct JoinGameAccepted {
    pub level: u32,
    pub name: String,
}

/// The cosmetic payloads of a room's members.
#[derive(Debug)]
pub struct RequestCosmeticsAccepted(pub Vec<Vec<u8>>);

/// One joined player, for operational reporting.
#[derive(Clone, Debug)]
pub struct PlayerInfo {
    pub account_id: i32,
    pub socket_id: u32,
    pub ip: String,
    pub real_ip: Option<String>,
    pub level: u32,
    pub name: String,
}

/// Work that the coordinator hands to a room's own mechanics.
#[derive(Clone, Debug)]
pub enum RoomAction {
    Attack { level: u32, flag_id: usize, attacker_pos: Position, target_socket_id: u32 },
    GrabFlag { level: u32, flag_id: usize, pos: Position, socket_id: u32 },
    Broadcast { level: u32, msg: RootMsg },
}

/// The answer to a chat message: nothing, a reply to the sender alone, or a
/// payload for the sender's room.
#[derive(Clone, Debug)]
pub enum ChatReply {
    Nothing,
    Reply(RootMsg),
    Broadcast { level: u32, msg: RootMsg },
}

} // verus!
