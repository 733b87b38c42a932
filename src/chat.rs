//! The chat subsystem: command parsing, spam throttling and the payloads
//! that chat produces.
use crate::model::{AnnouncementMsg, AuthInfo, ChatMsg, Permission, RootMsg, Sm64JsMsg};
use crate::server::Sm64JsServer;
use crate::text::{eq_ignore_ascii_case, eq_upper};
use vstd::prelude::*;

verus! {

/// The least time between two accepted chat messages of one player.
pub const CHAT_INTERVAL_MS: u64 = 1000;

/// How long an announcement stays on screen.
pub const ANNOUNCEMENT_TIMER: u32 = 300;

/// The name of the announcement command, in uppercase.
pub open spec fn announcement_word() -> Seq<char> {
    seq!['A', 'N', 'N', 'O', 'U', 'N', 'C', 'E', 'M', 'E', 'N', 'T']
}

/// The warning that a throttled sender receives.
pub open spec fn spam_warning() -> Seq<char> {
    "Chat message ignored: You have to wait longer between sending chat messages"@
}

/// The sender name of messages from the server itself.
pub open spec fn server_sender() -> Seq<char> {
    "Server"@
}

/// The index of the first space in `s` at or after `from`, or -1.
pub open spec fn first_space(s: Seq<char>, from: int) -> int
    decreases s.len() - from,
{
    if from < 0 || from >= s.len() {
        -1
    } else if s[from] == ' ' {
        from
    } else {
        first_space(s, from + 1)
    }
}

/// The first space found from `from` on is a space at or after `from`.
pub proof fn lemma_first_space(s: Seq<char>, from: int)
    requires
        0 <= from,
    ensures
        first_space(s, from) == -1 || (from <= first_space(s, from) < s.len() && s[first_space(
            s,
            from,
        )] == ' '),
    decreases s.len() - from,
{
    if from < s.len() && s[from] != ' ' {
        lemma_first_space(s, from + 1);
    }
}

/// Whether a chat text is a command.
pub open spec fn is_command(t: Seq<char>) -> bool {
    t.len() > 0 && t[0] == '/'
}

/// For an announcement command, the text after the first space. The
/// command word runs from after `/` to the first space and is compared
/// without regard to ASCII case; a command without a space has no effect.
pub open spec fn announcement_args(t: Seq<char>) -> Option<Seq<char>> {
    let i = first_space(t, 0);
    if is_command(t) && i >= 1 && eq_upper(t.subrange(1, i), announcement_word()) {
        Some(t.subrange(i + 1, t.len() as int))
    } else {
        None
    }
}

/// The announcement text that a command produces for an identity holding
/// `permissions`, if any.
pub open spec fn command_result(t: Seq<char>, permissions: Seq<Permission>) -> Option<Seq<char>> {
    match announcement_args(t) {
        Some(a) => if permissions.contains(Permission::SendAnnouncement) {
            Some(a)
        } else {
            None
        },
        None => None,
    }
}

/// Whether `m` is the uncompressed announcement `text`.
pub open spec fn is_announcement(m: RootMsg, text: Seq<char>) -> bool {
    match m {
        RootMsg::Uncompressed(Sm64JsMsg::Announcement(a)) => a.message@ == text && a.timer
            == ANNOUNCEMENT_TIMER,
        _ => false,
    }
}

/// Whether `m` is the uncompressed chat message with these fields.
pub open spec fn is_chat(
    m: RootMsg,
    message: Seq<char>,
    sender: Seq<char>,
    socket_id: u32,
    is_admin: bool,
) -> bool {
    match m {
        RootMsg::Uncompressed(Sm64JsMsg::Chat(c)) => {
            &&& c.message@ == message
            &&& c.sender@ == sender
            &&& c.socket_id == socket_id
            &&& c.is_admin == is_admin
        },
        _ => false,
    }
}

/// Whether a message sent at `now_ms` passes the throttle, given the time
/// of the player's last accepted message.
pub open spec fn spam_ok(last_ms: Option<u64>, now_ms: u64) -> bool {
    match last_ms {
        None => true,
        Some(l) => now_ms >= l && now_ms - l >= CHAT_INTERVAL_MS,
    }
}

/// Decides the throttle.
pub fn passes_throttle(last_ms: Option<u64>, now_ms: u64) -> (r: bool)
    ensures
        r == spam_ok(last_ms, now_ms),
{
    match last_ms {
        None => true,
        Some(l) => now_ms >= l && now_ms - l >= CHAT_INTERVAL_MS,
    }
}

/// The index of the first space of `s`, or -1.
fn find_space(s: &str) -> (r: Option<usize>)
    ensures
        match r {
            Some(i) => i == first_space(s@, 0),
            None => first_space(s@, 0) == -1,
        },
{
    let n = s.unicode_len();
    let mut i: usize = 0;
    while i < n
        invariant
            n == s@.len(),
            i <= n,
            first_space(s@, 0) == first_space(s@, i as int),
        decreases n - i,
    {
        if s.get_char(i) == ' ' {
            return Some(i);
        }
        i = i + 1;
    }
    None
}

/// Runs a chat command. Only the announcement command is known: it needs
/// the `SendAnnouncement` permission and yields an announcement of the
/// text after the first space. Anything else yields nothing.
pub fn handle_command(chat_msg: &ChatMsg, auth_info: &AuthInfo) -> (r: Option<RootMsg>)
    ensures
        match command_result(chat_msg.message@, auth_info.permissions@) {
            Some(text) => r is Some && is_announcement(r->0, text),
            None => r is None,
        },
{
    let message = chat_msg.message.as_str();
    let n = message.unicode_len();
    if n == 0 || message.get_char(0) != '/' {
        return None;
    }
    let space = find_space(message);
    proof {
        lemma_first_space(message@, 0);
    }
    let index = match space {
        Some(i) => i,
        None => {
            return None;
        },
    };
    if index < 1 {
        return None;
    }
    let cmd = message.substring_char(1, index);
    let word = "ANNOUNCEMENT";
    proof {
        reveal_strlit("ANNOUNCEMENT");
        assert(word@ =~= announcement_word());
    }
    if !eq_ignore_ascii_case(cmd, word) {
        return None;
    }
    if !auth_info.has_permission(Permission::SendAnnouncement) {
        return None;
    }
    let args = message.substring_char(index + 1, n).to_owned();
    Some(
        Sm64JsServer::create_uncompressed_msg(
            Sm64JsMsg::Announcement(AnnouncementMsg { message: args, timer: ANNOUNCEMENT_TIMER }),
        ),
    )
}

/// The private reply to a throttled sender.
pub fn spam_reply(socket_id: u32) -> (r: RootMsg)
    ensures
        is_chat(r, spam_warning(), server_sender(), socket_id, false),
{
    let message = "Chat message ignored: You have to wait longer between sending chat messages".to_owned();
    let sender = "Server".to_owned();
    Sm64JsServer::create_uncompressed_msg(
        Sm64JsMsg::Chat(ChatMsg { message, sender, socket_id, is_admin: false }),
    )
}

} // verus!
