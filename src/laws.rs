//! Laws that hold of the coordinator across calls.
use crate::chat::{announcement_args, command_result, spam_ok, CHAT_INTERVAL_MS};
use crate::model::{Permission, PlayerView};
use crate::server::{fresh_client, rooms_after_leaving, Connect, SendJoinGame, Sm64JsServer};
use vstd::prelude::*;

verus! {

/// Two connections registered one after the other, as `connect` registers
/// them, get different ids, and both stay registered.
pub proof fn connect_ids_distinct(
    s0: Sm64JsServer,
    s1: Sm64JsServer,
    s2: Sm64JsServer,
    a: u32,
    b: u32,
    ca: Connect,
    cb: Connect,
)
    requires
        !s0.clients_view().contains_key(a),
        s1.clients_view() == s0.clients_view().insert(a, fresh_client(a, ca)),
        !s1.clients_view().contains_key(b),
        s2.clients_view() == s1.clients_view().insert(b, fresh_client(b, cb)),
    ensures
        a != b,
        s2.clients_view().contains_key(a),
        s2.clients_view().contains_key(b),
{
}

/// Whether `after` is what `disconnect` of `id` makes of `before`.
pub open spec fn disconnected(before: Sm64JsServer, after: Sm64JsServer, id: u32) -> bool {
    &&& after.clients_view() == before.clients_view().remove(id)
    &&& after.players_view() == before.players_view().remove(id)
    &&& after.rooms_view() == rooms_after_leaving(before.rooms_view(), before.players_view(), id)
}

/// Disconnecting an id a second time changes nothing.
pub proof fn disconnect_idempotent(s0: Sm64JsServer, s1: Sm64JsServer, s2: Sm64JsServer, id: u32)
    requires
        disconnected(s0, s1, id),
        disconnected(s1, s2, id),
    ensures
        s2.clients_view() == s1.clients_view(),
        s2.players_view() == s1.players_view(),
        s2.rooms_view() == s1.rooms_view(),
{
    assert(s2.clients_view() =~= s1.clients_view());
    assert(s2.players_view() =~= s1.players_view());
}

/// Disconnecting an id that has no connection and no player record
/// changes nothing.
pub proof fn disconnect_unknown_is_noop(s0: Sm64JsServer, s1: Sm64JsServer, id: u32)
    requires
        disconnected(s0, s1, id),
        !s0.clients_view().contains_key(id),
        !s0.players_view().contains_key(id),
    ensures
        s1.clients_view() == s0.clients_view(),
        s1.players_view() == s0.players_view(),
        s1.rooms_view() == s0.rooms_view(),
{
    assert(s1.clients_view() =~= s0.clients_view());
    assert(s1.players_view() =~= s0.players_view());
}

/// A player already in the room of a level cannot join that level again,
/// so `join_game` rejects it and changes nothing.
pub proof fn rejoin_rejected(s: Sm64JsServer, msg: SendJoinGame)
    requires
        s.wf(),
        s.players_view().contains_key(msg.socket_id),
        s.players_view()[msg.socket_id].level == msg.join_game_msg.level,
    ensures
        !s.join_allowed(msg),
{
    let id = msg.socket_id;
    assert(s.rooms_view()[s.players_view()[id].level].contains(id));
}

/// After a message accepted at `t1`, a message at `t2` within the interval
/// is throttled.
pub proof fn second_message_throttled(
    s0: Sm64JsServer,
    s1: Sm64JsServer,
    id: u32,
    t1: u64,
    t2: u64,
)
    requires
        s0.players_view().contains_key(id),
        s1.players_view() == s0.players_view().insert(
            id,
            PlayerView { last_chat_ms: Some(t1), ..s0.players_view()[id] },
        ),
        t1 <= t2 < t1 + CHAT_INTERVAL_MS,
    ensures
        !spam_ok(s1.players_view()[id].last_chat_ms, t2),
{
}

/// An identity without the announcement permission gets nothing from any
/// command.
pub proof fn command_needs_permission(t: Seq<char>, permissions: Seq<Permission>)
    requires
        !permissions.contains(Permission::SendAnnouncement),
    ensures
        command_result(t, permissions) is None,
{
}

/// For an identity holding the announcement permission, a command yields
/// exactly the announcement that the text asks for.
pub proof fn command_with_permission(t: Seq<char>, permissions: Seq<Permission>)
    requires
        permissions.contains(Permission::SendAnnouncement),
    ensures
        command_result(t, permissions) == announcement_args(t),
{
}

} // verus!
