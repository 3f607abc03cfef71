//! What the lines of `zeron sync` tell: each counter stands in its place as it is, whatever the
//! others are, and is read from its own member of the engine's answer.

use crate::json::Json;
use crate::sync::{
    ChatModel, ChatRoomStatus, RoomStatus, SyncModel, SyncStatus, age_fits, age_text, can_shorten,
    short_len, short_text,
};
use crate::text::{decimal, frames, leads, shows, signed_decimal};
use vstd::prelude::*;
use vstd::utf8::{encode_utf8, is_continuation_byte};

verus! {

/// The pieces of a text, put together.
spec fn joined(pieces: Seq<Seq<char>>) -> Seq<char>
    decreases pieces.len(),
{
    if pieces.len() == 0 {
        Seq::empty()
    } else {
        joined(pieces.drop_last()) + pieces.last()
    }
}

/// A piece stands between those before it and those behind it.
proof fn pieces_stand_in_their_places(pieces: Seq<Seq<char>>, i: int)
    requires
        0 <= i < pieces.len(),
    ensures
        joined(pieces) == joined(pieces.take(i)) + pieces[i] + joined(pieces.skip(i + 1)),
    decreases pieces.len(),
{
    let last = pieces.len() - 1;
    if i == last {
        assert(pieces.drop_last() =~= pieces.take(i));
        assert(pieces.skip(i + 1) =~= Seq::empty());
        assert(joined(pieces) =~= joined(pieces.take(i)) + pieces[i] + joined(pieces.skip(i + 1)));
    } else {
        let less = pieces.drop_last();
        pieces_stand_in_their_places(less, i);
        assert(less.take(i) =~= pieces.take(i));
        assert(less.skip(i + 1) =~= pieces.skip(i + 1).drop_last());
        assert(joined(pieces) =~= joined(pieces.take(i)) + pieces[i] + joined(pieces.skip(i + 1)));
    }
}

/// A text in which only one piece depends on `x` shows it there.
proof fn one_piece_is_shown<T>(
    pieces: Seq<Seq<char>>,
    i: int,
    text: spec_fn(T) -> Seq<char>,
    part: spec_fn(T) -> Seq<char>,
)
    requires
        0 <= i < pieces.len(),
        forall|x: T| #[trigger] text(x) == joined(pieces.update(i, part(x))),
    ensures
        frames(joined(pieces.take(i)), joined(pieces.skip(i + 1)), text, part),
        shows(text, part),
{
    assert forall|x: T| #[trigger] text(x) == joined(pieces.take(i)) + part(x) + joined(
        pieces.skip(i + 1),
    ) by {
        let with_x = pieces.update(i, part(x));
        pieces_stand_in_their_places(with_x, i);
        assert(with_x.take(i) =~= pieces.take(i));
        assert(with_x.skip(i + 1) =~= pieces.skip(i + 1));
    }
    assert(frames(joined(pieces.take(i)), joined(pieces.skip(i + 1)), text, part));
}

/// A text in which only one piece depends on `x` shows it there, behind the piece before it.
proof fn one_piece_is_shown_behind_its_label<T>(
    pieces: Seq<Seq<char>>,
    i: int,
    text: spec_fn(T) -> Seq<char>,
    part: spec_fn(T) -> Seq<char>,
    value: spec_fn(T) -> Seq<char>,
)
    requires
        0 < i < pieces.len(),
        forall|x: T| #[trigger] text(x) == joined(pieces.update(i, value(x))),
        forall|x: T| #[trigger] part(x) == pieces[i - 1] + value(x),
    ensures
        shows(text, part),
{
    one_piece_is_shown(pieces, i, text, value);
    let a = joined(pieces.take(i - 1));
    let b = joined(pieces.skip(i + 1));
    assert(pieces.take(i).drop_last() =~= pieces.take(i - 1));
    assert(pieces.take(i).last() == pieces[i - 1]);
    assert forall|x: T| #[trigger] text(x) == a + part(x) + b by {
        assert(part(x) == pieces[i - 1] + value(x));
        assert(text(x) == joined(pieces.take(i)) + value(x) + b);
        assert(text(x) =~= a + part(x) + b);
    }
    assert(frames(a, b, text, part));
}

/// How a line begins.
spec fn beginning(connected: bool) -> Seq<char> {
    if connected {
        "connected ·"@
    } else {
        "DISCONNECTED ·"@
    }
}

/// An alarm, where there is one.
spec fn alarm(label: Seq<char>, count: nat) -> Seq<char> {
    if count > 0 {
        label + decimal(count)
    } else {
        Seq::empty()
    }
}

spec fn room_pieces(room: RoomStatus, now: i64) -> Seq<Seq<char>> {
    seq![
        beginning(room.connected),
        " pushed "@,
        age_text(now, room.last_pushed_ms),
        " · acked "@,
        age_text(now, room.last_ack_ms),
        " · rejoins "@,
        signed_decimal(room.rejoins as int),
        " probes "@,
        signed_decimal(room.probes as int),
        " resyncs "@,
        signed_decimal(room.full_resyncs as int),
        " drops "@,
        signed_decimal(room.disconnects as int),
        alarm(
            " REJECTED "@,
            if room.rejected > 0 {
                room.rejected as nat
            } else {
                0
            },
        ),
    ]
}

proof fn room_lines_are_joined(room: RoomStatus, now: i64)
    ensures
        room.text(now) == joined(room_pieces(room, now)),
{
    let p = room_pieces(room, now);
    let q = p.drop_last();
    assert(joined(p) == joined(q) + p.last());
    pieces_add_up_to_13(q);
    assert(room.text(now) =~= joined(p));
}

proof fn pieces_add_up_to_13(p: Seq<Seq<char>>)
    requires
        p.len() == 13,
    ensures
        joined(p) == p[0] + p[1] + p[2] + p[3] + p[4] + p[5] + p[6] + p[7] + p[8] + p[9] + p[10]
            + p[11] + p[12],
{
    reveal_with_fuel(joined, 14);
    assert(Seq::<char>::empty() + p[0] =~= p[0]);
}

/// Whether the workspace room is connected decides how its line begins, and nothing else in it: the
/// ages and counters are told all the same.
pub proof fn room_lines_begin_with_the_connection(room: RoomStatus, now: i64)
    ensures
        leads(
            |connected: bool| RoomStatus { connected, ..room }.text(now),
            |connected: bool|
                if connected {
                    "connected ·"@
                } else {
                    "DISCONNECTED ·"@
                },
        ),
{
    let line = |connected: bool| RoomStatus { connected, ..room }.text(now);
    let part = |connected: bool|
        if connected {
            "connected ·"@
        } else {
            "DISCONNECTED ·"@
        };
    let pieces = room_pieces(room, now);
    assert forall|x: bool| #[trigger] line(x) == joined(pieces.update(0, part(x))) by {
        room_lines_are_joined(RoomStatus { connected: x, ..room }, now);
        assert(room_pieces(RoomStatus { connected: x, ..room }, now) =~= pieces.update(0, part(x)));
    }
    one_piece_is_shown(pieces, 0, line, part);
    assert(joined(pieces.take(0)) =~= Seq::empty());
}

/// The age of the last push stands in the workspace room's line behind its label,
/// whatever else is known of the room.
pub proof fn room_lines_tell_the_last_push(room: RoomStatus, now: i64)
    ensures
        shows(
            |x: i64| RoomStatus { last_pushed_ms: x, ..room }.text(now),
            |x: i64| " pushed "@ + age_text(now, x),
        ),
{
    let pieces = room_pieces(room, now);
    let line = |x: i64| RoomStatus { last_pushed_ms: x, ..room }.text(now);
    let part = |x: i64| " pushed "@ + age_text(now, x);
    let value = |x: i64| age_text(now, x);
    assert forall|x: i64| #[trigger] line(x) == joined(pieces.update(2, value(x))) by {
        let changed = RoomStatus { last_pushed_ms: x, ..room };
        room_lines_are_joined(changed, now);
        assert(room_pieces(changed, now) =~= pieces.update(2, value(x)));
    }
    one_piece_is_shown_behind_its_label(pieces, 2, line, part, value);
}

/// The age of the last acknowledgement stands in the workspace room's line behind its label,
/// whatever else is known of the room.
pub proof fn room_lines_tell_the_last_acknowledgement(room: RoomStatus, now: i64)
    ensures
        shows(
            |x: i64| RoomStatus { last_ack_ms: x, ..room }.text(now),
            |x: i64| " · acked "@ + age_text(now, x),
        ),
{
    let pieces = room_pieces(room, now);
    let line = |x: i64| RoomStatus { last_ack_ms: x, ..room }.text(now);
    let part = |x: i64| " · acked "@ + age_text(now, x);
    let value = |x: i64| age_text(now, x);
    assert forall|x: i64| #[trigger] line(x) == joined(pieces.update(4, value(x))) by {
        let changed = RoomStatus { last_ack_ms: x, ..room };
        room_lines_are_joined(changed, now);
        assert(room_pieces(changed, now) =~= pieces.update(4, value(x)));
    }
    one_piece_is_shown_behind_its_label(pieces, 4, line, part, value);
}

/// The count of rejoins stands in the workspace room's line behind its label, as it is,
/// whatever else is known of the room.
pub proof fn room_lines_tell_rejoins(room: RoomStatus, now: i64)
    ensures
        shows(
            |x: i64| RoomStatus { rejoins: x, ..room }.text(now),
            |x: i64| " · rejoins "@ + signed_decimal(x as int),
        ),
{
    let pieces = room_pieces(room, now);
    let line = |x: i64| RoomStatus { rejoins: x, ..room }.text(now);
    let part = |x: i64| " · rejoins "@ + signed_decimal(x as int);
    let value = |x: i64| signed_decimal(x as int);
    assert forall|x: i64| #[trigger] line(x) == joined(pieces.update(6, value(x))) by {
        let changed = RoomStatus { rejoins: x, ..room };
        room_lines_are_joined(changed, now);
        assert(room_pieces(changed, now) =~= pieces.update(6, value(x)));
    }
    one_piece_is_shown_behind_its_label(pieces, 6, line, part, value);
}

/// The count of probes stands in the workspace room's line behind its label, as it is,
/// whatever else is known of the room.
pub proof fn room_lines_tell_probes(room: RoomStatus, now: i64)
    ensures
        shows(
            |x: i64| RoomStatus { probes: x, ..room }.text(now),
            |x: i64| " probes "@ + signed_decimal(x as int),
        ),
{
    let pieces = room_pieces(room, now);
    let line = |x: i64| RoomStatus { probes: x, ..room }.text(now);
    let part = |x: i64| " probes "@ + signed_decimal(x as int);
    let value = |x: i64| signed_decimal(x as int);
    assert forall|x: i64| #[trigger] line(x) == joined(pieces.update(8, value(x))) by {
        let changed = RoomStatus { probes: x, ..room };
        room_lines_are_joined(changed, now);
        assert(room_pieces(changed, now) =~= pieces.update(8, value(x)));
    }
    one_piece_is_shown_behind_its_label(pieces, 8, line, part, value);
}

/// The count of full resyncs stands in the workspace room's line behind its label, as it is,
/// whatever else is known of the room.
pub proof fn room_lines_tell_resyncs(room: RoomStatus, now: i64)
    ensures
        shows(
            |x: i64| RoomStatus { full_resyncs: x, ..room }.text(now),
            |x: i64| " resyncs "@ + signed_decimal(x as int),
        ),
{
    let pieces = room_pieces(room, now);
    let line = |x: i64| RoomStatus { full_resyncs: x, ..room }.text(now);
    let part = |x: i64| " resyncs "@ + signed_decimal(x as int);
    let value = |x: i64| signed_decimal(x as int);
    assert forall|x: i64| #[trigger] line(x) == joined(pieces.update(10, value(x))) by {
        let changed = RoomStatus { full_resyncs: x, ..room };
        room_lines_are_joined(changed, now);
        assert(room_pieces(changed, now) =~= pieces.update(10, value(x)));
    }
    one_piece_is_shown_behind_its_label(pieces, 10, line, part, value);
}

/// The count of lost connections stands in the workspace room's line behind its label, as it is,
/// whatever else is known of the room.
pub proof fn room_lines_tell_drops(room: RoomStatus, now: i64)
    ensures
        shows(
            |x: i64| RoomStatus { disconnects: x, ..room }.text(now),
            |x: i64| " drops "@ + signed_decimal(x as int),
        ),
{
    let pieces = room_pieces(room, now);
    let line = |x: i64| RoomStatus { disconnects: x, ..room }.text(now);
    let part = |x: i64| " drops "@ + signed_decimal(x as int);
    let value = |x: i64| signed_decimal(x as int);
    assert forall|x: i64| #[trigger] line(x) == joined(pieces.update(12, value(x))) by {
        let changed = RoomStatus { disconnects: x, ..room };
        room_lines_are_joined(changed, now);
        assert(room_pieces(changed, now) =~= pieces.update(12, value(x)));
    }
    one_piece_is_shown_behind_its_label(pieces, 12, line, part, value);
}

/// Rejected writes stand in the workspace room's line, as many as there are, where there are
/// some, and change nothing else in it.
pub proof fn room_lines_tell_rejected_writes(room: RoomStatus, now: i64)
    ensures
        shows(
            |x: i64| RoomStatus { rejected: x, ..room }.text(now),
            |x: i64|
                if x > 0 {
                    " REJECTED "@ + decimal(x as nat)
                } else {
                    Seq::empty()
                },
        ),
{
    let pieces = room_pieces(room, now);
    let line = |x: i64| RoomStatus { rejected: x, ..room }.text(now);
    let part = |x: i64|
        if x > 0 {
            " REJECTED "@ + decimal(x as nat)
        } else {
            Seq::empty()
        };
    assert forall|x: i64| #[trigger] line(x) == joined(pieces.update(13, part(x))) by {
        room_lines_are_joined(RoomStatus { rejected: x, ..room }, now);
        assert(room_pieces(RoomStatus { rejected: x, ..room }, now) =~= pieces.update(13, part(x)));
    }
    one_piece_is_shown(pieces, 13, line, part);
}

/// Nothing but the ages moves with the time.
pub proof fn room_lines_move_by_their_ages(room: RoomStatus, now: i64, later: i64)
    requires
        age_text(now, room.last_pushed_ms) == age_text(later, room.last_pushed_ms),
        age_text(now, room.last_ack_ms) == age_text(later, room.last_ack_ms),
    ensures
        room.text(now) == room.text(later),
{
}

spec fn chat_pieces(room: ChatRoomStatus) -> Seq<Seq<char>> {
    seq![
        beginning(room.connected),
        " cursor "@,
        decimal(room.cursor as nat),
        "/"@,
        decimal(room.head_seq as nat),
        " · pending "@,
        decimal(room.pending_pushes as nat),
        " · rows "@,
        decimal(room.row_count as nat),
        " ("@,
        decimal((room.row_bytes / 1024) as nat),
        "KB) · rejoins "@,
        decimal(room.rejoins as nat),
        " drops "@,
        decimal(room.disconnects as nat),
        alarm(" RESETS "@, room.server_resets as nat),
        alarm(" REJECTED "@, room.rejected as nat),
    ]
}

proof fn chat_lines_are_joined(room: ChatRoomStatus)
    ensures
        room.text() == joined(chat_pieces(room)),
{
    let p = chat_pieces(room);
    let q = p.drop_last();
    let r = q.drop_last();
    assert(joined(p) == joined(q) + p.last());
    assert(joined(q) == joined(r) + q.last());
    pieces_add_up_to_15(r);
    assert(room.text() =~= joined(p));
}

proof fn pieces_add_up_to_15(p: Seq<Seq<char>>)
    requires
        p.len() == 15,
    ensures
        joined(p) == p[0] + p[1] + p[2] + p[3] + p[4] + p[5] + p[6] + p[7] + p[8] + p[9] + p[10]
            + p[11] + p[12] + p[13] + p[14],
{
    reveal_with_fuel(joined, 16);
    assert(Seq::<char>::empty() + p[0] =~= p[0]);
}

/// Whether a chat room is connected decides how its line begins, and nothing else in it.
pub proof fn chat_lines_begin_with_the_connection(room: ChatRoomStatus)
    ensures
        leads(
            |connected: bool| ChatRoomStatus { connected, ..room }.text(),
            |connected: bool|
                if connected {
                    "connected ·"@
                } else {
                    "DISCONNECTED ·"@
                },
        ),
{
    let line = |connected: bool| ChatRoomStatus { connected, ..room }.text();
    let part = |connected: bool|
        if connected {
            "connected ·"@
        } else {
            "DISCONNECTED ·"@
        };
    let pieces = chat_pieces(room);
    assert forall|x: bool| #[trigger] line(x) == joined(pieces.update(0, part(x))) by {
        chat_lines_are_joined(ChatRoomStatus { connected: x, ..room });
        assert(chat_pieces(ChatRoomStatus { connected: x, ..room }) =~= pieces.update(0, part(x)));
    }
    one_piece_is_shown(pieces, 0, line, part);
    assert(joined(pieces.take(0)) =~= Seq::empty());
}

/// The cursor stands in a chat room's line behind its label, as it is,
/// whatever else is known of the room.
pub proof fn chat_lines_tell_the_cursor(room: ChatRoomStatus)
    ensures
        shows(
            |x: u64| ChatRoomStatus { cursor: x, ..room }.text(),
            |x: u64| " cursor "@ + decimal(x as nat),
        ),
{
    let pieces = chat_pieces(room);
    let line = |x: u64| ChatRoomStatus { cursor: x, ..room }.text();
    let part = |x: u64| " cursor "@ + decimal(x as nat);
    let value = |x: u64| decimal(x as nat);
    assert forall|x: u64| #[trigger] line(x) == joined(pieces.update(2, value(x))) by {
        let changed = ChatRoomStatus { cursor: x, ..room };
        chat_lines_are_joined(changed);
        assert(chat_pieces(changed) =~= pieces.update(2, value(x)));
    }
    one_piece_is_shown_behind_its_label(pieces, 2, line, part, value);
}

/// The head sequence number stands in a chat room's line behind its label, as it is,
/// whatever else is known of the room.
pub proof fn chat_lines_tell_the_head(room: ChatRoomStatus)
    ensures
        shows(
            |x: u64| ChatRoomStatus { head_seq: x, ..room }.text(),
            |x: u64| "/"@ + decimal(x as nat),
        ),
{
    let pieces = chat_pieces(room);
    let line = |x: u64| ChatRoomStatus { head_seq: x, ..room }.text();
    let part = |x: u64| "/"@ + decimal(x as nat);
    let value = |x: u64| decimal(x as nat);
    assert forall|x: u64| #[trigger] line(x) == joined(pieces.update(4, value(x))) by {
        let changed = ChatRoomStatus { head_seq: x, ..room };
        chat_lines_are_joined(changed);
        assert(chat_pieces(changed) =~= pieces.update(4, value(x)));
    }
    one_piece_is_shown_behind_its_label(pieces, 4, line, part, value);
}

/// The count of pending pushes stands in a chat room's line behind its label, as it is,
/// whatever else is known of the room.
pub proof fn chat_lines_tell_pending_pushes(room: ChatRoomStatus)
    ensures
        shows(
            |x: u64| ChatRoomStatus { pending_pushes: x, ..room }.text(),
            |x: u64| " · pending "@ + decimal(x as nat),
        ),
{
    let pieces = chat_pieces(room);
    let line = |x: u64| ChatRoomStatus { pending_pushes: x, ..room }.text();
    let part = |x: u64| " · pending "@ + decimal(x as nat);
    let value = |x: u64| decimal(x as nat);
    assert forall|x: u64| #[trigger] line(x) == joined(pieces.update(6, value(x))) by {
        let changed = ChatRoomStatus { pending_pushes: x, ..room };
        chat_lines_are_joined(changed);
        assert(chat_pieces(changed) =~= pieces.update(6, value(x)));
    }
    one_piece_is_shown_behind_its_label(pieces, 6, line, part, value);
}

/// The count of rows stands in a chat room's line behind its label, as it is,
/// whatever else is known of the room.
pub proof fn chat_lines_tell_rows(room: ChatRoomStatus)
    ensures
        shows(
            |x: u64| ChatRoomStatus { row_count: x, ..room }.text(),
            |x: u64| " · rows "@ + decimal(x as nat),
        ),
{
    let pieces = chat_pieces(room);
    let line = |x: u64| ChatRoomStatus { row_count: x, ..room }.text();
    let part = |x: u64| " · rows "@ + decimal(x as nat);
    let value = |x: u64| decimal(x as nat);
    assert forall|x: u64| #[trigger] line(x) == joined(pieces.update(8, value(x))) by {
        let changed = ChatRoomStatus { row_count: x, ..room };
        chat_lines_are_joined(changed);
        assert(chat_pieces(changed) =~= pieces.update(8, value(x)));
    }
    one_piece_is_shown_behind_its_label(pieces, 8, line, part, value);
}

/// The size of the rows stands in a chat room's line behind its label, in whole kilobytes,
/// whatever else is known of the room.
pub proof fn chat_lines_tell_bytes(room: ChatRoomStatus)
    ensures
        shows(
            |x: u64| ChatRoomStatus { row_bytes: x, ..room }.text(),
            |x: u64| " ("@ + decimal((x / 1024) as nat),
        ),
{
    let pieces = chat_pieces(room);
    let line = |x: u64| ChatRoomStatus { row_bytes: x, ..room }.text();
    let part = |x: u64| " ("@ + decimal((x / 1024) as nat);
    let value = |x: u64| decimal((x / 1024) as nat);
    assert forall|x: u64| #[trigger] line(x) == joined(pieces.update(10, value(x))) by {
        let changed = ChatRoomStatus { row_bytes: x, ..room };
        chat_lines_are_joined(changed);
        assert(chat_pieces(changed) =~= pieces.update(10, value(x)));
    }
    one_piece_is_shown_behind_its_label(pieces, 10, line, part, value);
}

/// The count of rejoins stands in a chat room's line behind its label, as it is,
/// whatever else is known of the room.
pub proof fn chat_lines_tell_rejoins(room: ChatRoomStatus)
    ensures
        shows(
            |x: u64| ChatRoomStatus { rejoins: x, ..room }.text(),
            |x: u64| "KB) · rejoins "@ + decimal(x as nat),
        ),
{
    let pieces = chat_pieces(room);
    let line = |x: u64| ChatRoomStatus { rejoins: x, ..room }.text();
    let part = |x: u64| "KB) · rejoins "@ + decimal(x as nat);
    let value = |x: u64| decimal(x as nat);
    assert forall|x: u64| #[trigger] line(x) == joined(pieces.update(12, value(x))) by {
        let changed = ChatRoomStatus { rejoins: x, ..room };
        chat_lines_are_joined(changed);
        assert(chat_pieces(changed) =~= pieces.update(12, value(x)));
    }
    one_piece_is_shown_behind_its_label(pieces, 12, line, part, value);
}

/// The count of lost connections stands in a chat room's line behind its label, as it is,
/// whatever else is known of the room.
pub proof fn chat_lines_tell_drops(room: ChatRoomStatus)
    ensures
        shows(
            |x: u64| ChatRoomStatus { disconnects: x, ..room }.text(),
            |x: u64| " drops "@ + decimal(x as nat),
        ),
{
    let pieces = chat_pieces(room);
    let line = |x: u64| ChatRoomStatus { disconnects: x, ..room }.text();
    let part = |x: u64| " drops "@ + decimal(x as nat);
    let value = |x: u64| decimal(x as nat);
    assert forall|x: u64| #[trigger] line(x) == joined(pieces.update(14, value(x))) by {
        let changed = ChatRoomStatus { disconnects: x, ..room };
        chat_lines_are_joined(changed);
        assert(chat_pieces(changed) =~= pieces.update(14, value(x)));
    }
    one_piece_is_shown_behind_its_label(pieces, 14, line, part, value);
}

/// Resets by the server stand in a chat room's line, as many as there are, where there are some,
/// and change nothing else in it.
pub proof fn chat_lines_tell_resets(room: ChatRoomStatus)
    ensures
        shows(
            |x: u64| ChatRoomStatus { server_resets: x, ..room }.text(),
            |x: u64|
                if x > 0 {
                    " RESETS "@ + decimal(x as nat)
                } else {
                    Seq::empty()
                },
        ),
{
    let pieces = chat_pieces(room);
    let line = |x: u64| ChatRoomStatus { server_resets: x, ..room }.text();
    let part = |x: u64|
        if x > 0 {
            " RESETS "@ + decimal(x as nat)
        } else {
            Seq::empty()
        };
    assert forall|x: u64| #[trigger] line(x) == joined(pieces.update(15, part(x))) by {
        let changed = ChatRoomStatus { server_resets: x, ..room };
        chat_lines_are_joined(changed);
        assert(chat_pieces(changed) =~= pieces.update(15, part(x)));
    }
    one_piece_is_shown(pieces, 15, line, part);
}

/// Rejected writes stand in a chat room's line, as many as there are, where there are some,
/// and change nothing else in it.
pub proof fn chat_lines_tell_rejected_writes(room: ChatRoomStatus)
    ensures
        shows(
            |x: u64| ChatRoomStatus { rejected: x, ..room }.text(),
            |x: u64|
                if x > 0 {
                    " REJECTED "@ + decimal(x as nat)
                } else {
                    Seq::empty()
                },
        ),
{
    let pieces = chat_pieces(room);
    let line = |x: u64| ChatRoomStatus { rejected: x, ..room }.text();
    let part = |x: u64|
        if x > 0 {
            " REJECTED "@ + decimal(x as nat)
        } else {
            Seq::empty()
        };
    assert forall|x: u64| #[trigger] line(x) == joined(pieces.update(16, part(x))) by {
        let changed = ChatRoomStatus { rejected: x, ..room };
        chat_lines_are_joined(changed);
        assert(chat_pieces(changed) =~= pieces.update(16, part(x)));
    }
    one_piece_is_shown(pieces, 16, line, part);
}

/// An age is told in seconds below a minute, in minutes and seconds below an hour, and from
/// there on in hours and minutes; parts of a second are left off, and in hours the seconds are.
/// What lies ahead happened no time ago.
pub proof fn ages_are_told_in_whole_units(now: i64, ms: i64, hours: nat, minutes: nat, seconds: nat)
    requires
        ms > 0,
        minutes < 60,
        seconds < 60,
    ensures
        now < ms ==> age_text(now, ms) == decimal(0) + "s ago"@,
        ({
            let s = 3600 * hours + 60 * minutes + seconds;
            1000 * s <= now - ms < 1000 * (s + 1) ==> age_text(now, ms) == (if hours > 0 {
                decimal(hours) + "h"@ + decimal(minutes) + "m ago"@
            } else if minutes > 0 {
                decimal(minutes) + "m"@ + decimal(seconds) + "s ago"@
            } else {
                decimal(seconds) + "s ago"@
            })
        }),
{
    let s = 3600 * hours + 60 * minutes + seconds;
    if 1000 * s <= now - ms < 1000 * (s + 1) {
        assert((now - ms) / 1000 == s);
        if hours > 0 {
            assert(s / 3600 == hours && (s % 3600) / 60 == minutes);
        } else if minutes > 0 {
            assert(s / 60 == minutes && s % 60 == seconds);
        }
    }
}

/// An age is the time between two moments: it does not matter when they were.
pub proof fn ages_are_differences(now: i64, ms: i64, other_now: i64, other_ms: i64)
    requires
        ms > 0,
        other_ms > 0,
        now - ms == other_now - other_ms,
    ensures
        age_text(now, ms) == age_text(other_now, other_ms),
{
}

/// An age can be told wherever the difference of the two times fits in an `i64`, and so
/// wherever the time is not before the epoch; an event that never happened has no age to tell.
pub proof fn ages_fit_but_for_overflow(now: i64, ms: i64)
    ensures
        ms <= 0 ==> age_fits(now, ms),
        now >= 0 ==> age_fits(now, ms),
        ms > 0 ==> (age_fits(now, ms) <==> i64::MIN <= now - ms <= i64::MAX),
{
}

/// The room's line can be written wherever both of its ages can be told.
pub proof fn room_lines_can_be_written(room: RoomStatus, now: i64)
    ensures
        room.ages_fit(now) <==> age_fits(now, room.last_pushed_ms) && age_fits(
            now,
            room.last_ack_ms,
        ),
        now >= 0 ==> room.ages_fit(now),
{
}

/// A chat's id is cut to its first eight bytes, or kept whole where it has no more; that can be
/// done exactly where the byte behind them does not go on with a character.
pub proof fn short_ids_are_eight_bytes(id: Seq<char>)
    ensures
        ({
            let bytes = encode_utf8(id);
            &&& bytes.len() <= 8 ==> can_shorten(id) && short_text(id) == id
            &&& bytes.len() > 8 ==> (can_shorten(id) <==> !is_continuation_byte(bytes[8]))
            &&& bytes.len() > 8 && can_shorten(id) ==> encode_utf8(short_text(id)) == bytes.take(8)
        }),
{
    let bytes = encode_utf8(id);
    vstd::utf8::encode_utf8_valid_utf8(id);
    vstd::utf8::encode_utf8_decode_utf8(id);
    if bytes.len() <= 8 {
        vstd::utf8::is_char_boundary_start_end_of_seq(bytes);
        assert(bytes.take(bytes.len() as int) =~= bytes);
        assert(short_len(id) == bytes.len());
    } else {
        vstd::utf8::is_char_boundary_iff_not_is_continuation_byte(bytes, 8);
        if can_shorten(id) {
            vstd::utf8::valid_utf8_split(bytes, 8);
            assert(bytes.subrange(0, 8) =~= bytes.take(8));
            vstd::utf8::decode_utf8_encode_utf8(bytes.take(8));
        }
    }
}

/// A chat's line names the chat by its short id, and by a question mark where it has none, and
/// then tells its room's line, or that there is none. Neither depends on the other.
pub proof fn chat_lines_name_the_chat_and_its_room(chat: ChatModel)
    ensures
        leads(
            |id: Option<Seq<char>>| ChatModel { id, ..chat }.text(),
            |id: Option<Seq<char>>|
                "Chat "@ + (match id {
                    Some(id) => short_text(id),
                    None => "?"@,
                }) + ": "@,
        ),
        shows(
            |room: Option<ChatRoomStatus>| ChatModel { room, ..chat }.text(),
            |room: Option<ChatRoomStatus>|
                ": "@ + (match room {
                    Some(room) => room.text(),
                    None => "no room (dialing or edge-less)"@,
                }),
        ),
        chat.printable() <==> (chat.id matches Some(id) ==> can_shorten(id)),
{
    let by_id = |id: Option<Seq<char>>| ChatModel { id, ..chat }.text();
    let id_part = |id: Option<Seq<char>>|
        "Chat "@ + (match id {
            Some(id) => short_text(id),
            None => "?"@,
        }) + ": "@;
    let rest = match chat.room {
        Some(room) => room.text(),
        None => "no room (dialing or edge-less)"@,
    };
    assert forall|x: Option<Seq<char>>| #[trigger] by_id(x) == Seq::<char>::empty() + id_part(x)
        + rest by {
        assert(by_id(x) =~= Seq::<char>::empty() + id_part(x) + rest);
    }
    assert(frames(Seq::empty(), rest, by_id, id_part));
    let by_room = |room: Option<ChatRoomStatus>| ChatModel { room, ..chat }.text();
    let room_part = |room: Option<ChatRoomStatus>|
        ": "@ + (match room {
            Some(room) => room.text(),
            None => "no room (dialing or edge-less)"@,
        });
    let start = "Chat "@ + (match chat.id {
        Some(id) => short_text(id),
        None => "?"@,
    });
    assert forall|x: Option<ChatRoomStatus>| #[trigger] by_room(x) == start + room_part(x)
        + Seq::<char>::empty() by {
        assert(by_room(x) =~= start + room_part(x) + Seq::<char>::empty());
    }
    assert(frames(start, Seq::empty(), by_room, room_part));
}

/// The report begins with the device, by its id or a question mark. The workspace follows, by
/// its room's line or the word that there is none, wherever its ages can be told; and where
/// they cannot, the report ends there.
pub proof fn reports_begin_with_device_and_workspace(status: SyncModel)
    ensures
        status.lines().len() >= 1,
        status.lines()[0] == "Device:    "@ + (match status.device_id {
            Some(id) => id,
            None => "?"@,
        }),
        status.workspace matches Some(room) ==> (status.lines().len() >= 2 <==> age_fits(
            status.now_ms,
            room.last_pushed_ms,
        ) && age_fits(status.now_ms, room.last_ack_ms)),
        status.workspace matches Some(room) ==> status.lines().len() >= 2 ==> status.lines()[1]
            == "Workspace: "@ + room.text(status.now_ms),
        status.workspace is None ==> status.lines().len() >= 2 && status.lines()[1]
            == "Workspace: no room (dialing or edge-less)"@,
{
    reveal_strlit("Workspace: ");
    reveal_strlit("no room (dialing or edge-less)");
    reveal_strlit("Workspace: no room (dialing or edge-less)");
    assert("Workspace: "@ + "no room (dialing or edge-less)"@
        =~= "Workspace: no room (dialing or edge-less)"@);
}

/// Behind the workspace, every open chat has its line, in order, up to the first whose id
/// cannot be cut; where no chat is open, the report says so.
pub proof fn reports_tell_every_chat_in_order(status: SyncModel, k: int)
    requires
        status.lines().len() >= 2,
        0 <= k <= status.chats.len(),
        forall|i: int| 0 <= i < k ==> (#[trigger] status.chats[i]).printable(),
    ensures
        status.chats.len() == 0 ==> status.lines().len() == 3 && status.lines()[2]
            == "Chats:     none open"@,
        status.chats.len() > 0 ==> status.lines().len() >= 2 + k,
        forall|i: int|
            #![trigger status.chats[i]]
            0 <= i < k ==> status.lines()[2 + i] == status.chats[i].text(),
        0 < status.chats.len() == k ==> status.lines().len() == 2 + k,
        k < status.chats.len() && !status.chats[k].printable() ==> status.lines().len() == 2 + k,
{
    chats_are_counted(status, 0, k);
    assert(status.workspace_printable());
    assert forall|i: int| #![trigger status.chats[i]] 0 <= i < k implies status.lines()[2 + i]
        == status.chats[i].text() by {
        assert(status.printable_from(0) >= k);
    }
}

proof fn chats_are_counted(status: SyncModel, from: int, k: int)
    requires
        0 <= from <= k <= status.chats.len(),
        forall|i: int| 0 <= i < k ==> (#[trigger] status.chats[i]).printable(),
    ensures
        status.printable_from(from) == k - from + status.printable_from(k),
    decreases k - from,
{
    if from < k {
        assert(status.chats[from].printable());
        chats_are_counted(status, from + 1, k);
    }
}

/// An engine's answer is read as it was meant: the counters of the workspace room come from its
/// members, whatever other members there are.
pub proof fn rooms_are_read_as_written(room: RoomStatus, members: Map<Seq<char>, Json>)
    requires
        members.contains_key("connected"@),
        members["connected"@] == Json::Bool(room.connected),
        members.contains_key("lastPushedMs"@),
        members["lastPushedMs"@] == Json::Int(room.last_pushed_ms as int),
        members.contains_key("lastAckMs"@),
        members["lastAckMs"@] == Json::Int(room.last_ack_ms as int),
        members.contains_key("rejoins"@),
        members["rejoins"@] == Json::Int(room.rejoins as int),
        members.contains_key("probes"@),
        members["probes"@] == Json::Int(room.probes as int),
        members.contains_key("fullResyncs"@),
        members["fullResyncs"@] == Json::Int(room.full_resyncs as int),
        members.contains_key("disconnects"@),
        members["disconnects"@] == Json::Int(room.disconnects as int),
        members.contains_key("rejected"@),
        members["rejected"@] == Json::Int(room.rejected as int),
    ensures
        RoomStatus::of(Json::Object(members)) == room,
{
}

/// So do the counters of a chat room.
pub proof fn chat_rooms_are_read_as_written(room: ChatRoomStatus, members: Map<Seq<char>, Json>)
    requires
        members.contains_key("connected"@),
        members["connected"@] == Json::Bool(room.connected),
        members.contains_key("cursor"@),
        members["cursor"@] == Json::Int(room.cursor as int),
        members.contains_key("headSeq"@),
        members["headSeq"@] == Json::Int(room.head_seq as int),
        members.contains_key("pendingPushes"@),
        members["pendingPushes"@] == Json::Int(room.pending_pushes as int),
        members.contains_key("rowCount"@),
        members["rowCount"@] == Json::Int(room.row_count as int),
        members.contains_key("rowBytes"@),
        members["rowBytes"@] == Json::Int(room.row_bytes as int),
        members.contains_key("rejoins"@),
        members["rejoins"@] == Json::Int(room.rejoins as int),
        members.contains_key("disconnects"@),
        members["disconnects"@] == Json::Int(room.disconnects as int),
        members.contains_key("serverResets"@),
        members["serverResets"@] == Json::Int(room.server_resets as int),
        members.contains_key("rejected"@),
        members["rejected"@] == Json::Int(room.rejected as int),
    ensures
        ChatRoomStatus::of(Json::Object(members)) == room,
{
}

/// A counter between `low` and `high` is its member, where that is an integer within these
/// bounds, and 0 where it is anything else or missing.
pub open spec fn counts(member: Option<Json>, low: int, high: int, counter: int) -> bool {
    if member matches Some(Json::Int(n)) && low <= n <= high {
        member == Some(Json::Int(counter))
    } else {
        counter == 0
    }
}

/// Each counter of the workspace room is a matter of its own member alone.
pub proof fn room_counters_are_their_own_matter(room: Json)
    ensures
        ({
            let status = RoomStatus::of(room);
            let (low, high) = (i64::MIN as int, i64::MAX as int);
            &&& status.connected <==> room.member("connected"@) == Some(Json::Bool(true))
            &&& counts(room.member("lastPushedMs"@), low, high, status.last_pushed_ms as int)
            &&& counts(room.member("lastAckMs"@), low, high, status.last_ack_ms as int)
            &&& counts(room.member("rejoins"@), low, high, status.rejoins as int)
            &&& counts(room.member("probes"@), low, high, status.probes as int)
            &&& counts(room.member("fullResyncs"@), low, high, status.full_resyncs as int)
            &&& counts(room.member("disconnects"@), low, high, status.disconnects as int)
            &&& counts(room.member("rejected"@), low, high, status.rejected as int)
        }),
{
}

/// So is each counter of a chat room.
pub proof fn chat_counters_are_their_own_matter(room: Json)
    ensures
        ({
            let status = ChatRoomStatus::of(room);
            let high = u64::MAX as int;
            &&& status.connected <==> room.member("connected"@) == Some(Json::Bool(true))
            &&& counts(room.member("cursor"@), 0, high, status.cursor as int)
            &&& counts(room.member("headSeq"@), 0, high, status.head_seq as int)
            &&& counts(room.member("pendingPushes"@), 0, high, status.pending_pushes as int)
            &&& counts(room.member("rowCount"@), 0, high, status.row_count as int)
            &&& counts(room.member("rowBytes"@), 0, high, status.row_bytes as int)
            &&& counts(room.member("rejoins"@), 0, high, status.rejoins as int)
            &&& counts(room.member("disconnects"@), 0, high, status.disconnects as int)
            &&& counts(room.member("serverResets"@), 0, high, status.server_resets as int)
            &&& counts(room.member("rejected"@), 0, high, status.rejected as int)
        }),
{
}

/// A chat is read from its id, where that is a string, and its room, where that is there and
/// not null.
pub proof fn chats_are_read_as_written(chat: Json, id: Seq<char>, room: Json)
    ensures
        chat.member("chatId"@) == Some(Json::Str(id)) ==> ChatModel::of(chat).id == Some(id),
        !(chat.member("chatId"@) matches Some(value) && value is Str) ==> ChatModel::of(
            chat,
        ).id is None,
        chat.member("room"@) == Some(room) && !(room is Null) ==> ChatModel::of(chat).room == Some(
            ChatRoomStatus::of(room),
        ),
        chat.member("room"@) is None || chat.member("room"@) == Some(Json::Null) ==> ChatModel::of(
            chat,
        ).room is None,
{
}

/// A status is read from its time, its device, its workspace and its chats: every item of the
/// array of chats is one, in order.
pub proof fn answers_are_read_as_written(
    status: Json,
    n: int,
    id: Seq<char>,
    room: Json,
    items: Seq<Json>,
)
    ensures
        status.member("nowMs"@) == Some(Json::Int(n)) ==> SyncModel::of(status).now_ms == (
        if i64::MIN <= n <= i64::MAX {
            n
        } else {
            0
        }),
        !(status.member("nowMs"@) matches Some(value) && value is Int) ==> SyncModel::of(status).now_ms
            == 0,
        status.member("deviceId"@) == Some(Json::Str(id)) ==> SyncModel::of(status).device_id == Some(
            id,
        ),
        !(status.member("deviceId"@) matches Some(value) && value is Str) ==> SyncModel::of(
            status,
        ).device_id is None,
        status.member("workspace"@) == Some(room) && !(room is Null) ==> SyncModel::of(status).workspace
            == Some(RoomStatus::of(room)),
        status.member("workspace"@) is None || status.member("workspace"@) == Some(Json::Null)
            ==> SyncModel::of(status).workspace is None,
        status.member("chats"@) == Some(Json::Array(items)) ==> SyncModel::of(status).chats.len()
            == items.len() && forall|i: int|
            #![trigger items[i]]
            0 <= i < items.len() ==> SyncModel::of(status).chats[i] == ChatModel::of(items[i]),
        !(status.member("chats"@) matches Some(value) && value is Array) ==> SyncModel::of(
            status,
        ).chats.len() == 0,
{
}

/// A report is complete but for two reasons: an age of the workspace room that does not fit, and a
/// chat's id that cannot be cut.
pub proof fn reports_are_complete_but_for_two_reasons(status: SyncModel)
    ensures
        status.printable() <==> {
            &&& status.workspace matches Some(room) ==> age_fits(status.now_ms, room.last_pushed_ms)
                && age_fits(status.now_ms, room.last_ack_ms)
            &&& forall|i: int|
                #![trigger status.chats[i]]
                0 <= i < status.chats.len() ==> (status.chats[i].id matches Some(id)
                    ==> can_shorten(id))
        },
{
}

/// A status is its fields: none is seen through another.
pub proof fn statuses_are_their_fields(status: SyncStatus, i: int)
    ensures
        status@.now_ms == status.now_ms,
        status.device_id matches Some(id) ==> status@.device_id == Some(id@),
        status.device_id is None ==> status@.device_id is None,
        status@.workspace == status.workspace,
        status@.chats.len() == status.chats@.len(),
        0 <= i < status.chats@.len() ==> status@.chats[i] == status.chats@[i]@,
        0 <= i < status.chats@.len() ==> status@.chats[i].room == status.chats@[i].room,
        0 <= i < status.chats@.len() ==> (status.chats@[i].id matches Some(id)
            ==> status@.chats[i].id == Some(id@)),
        0 <= i < status.chats@.len() ==> (status.chats@[i].id is None
            ==> status@.chats[i].id is None),
{
}

}
