//! What `zeron sync` prints: the state of every room of the running engine.

use crate::json::{
    Json, contents, flag_at, i64_at, items_at, present_at, str_at, u64_at,
};
use crate::text::{decimal, push_decimal, push_signed, signed_decimal};
use vstd::prelude::*;
use vstd::utf8::{decode_utf8, encode_utf8, is_char_boundary};

verus! {

/// The sync counters of the workspace room. The times are in milliseconds since
/// the epoch, 0 where the event never happened.
#[derive(Clone, Copy, Debug)]
pub struct RoomStatus {
    pub connected: bool,
    pub last_pushed_ms: i64,
    pub last_ack_ms: i64,
    pub rejoins: i64,
    pub probes: i64,
    pub full_resyncs: i64,
    pub disconnects: i64,
    pub rejected: i64,
}

/// The sync counters of a chat room. The cursor against the head tells whether
/// the device has caught up, the pending pushes whether its writes have left.
#[derive(Clone, Copy, Debug)]
pub struct ChatRoomStatus {
    pub connected: bool,
    pub cursor: u64,
    pub head_seq: u64,
    pub pending_pushes: u64,
    pub row_count: u64,
    pub row_bytes: u64,
    pub rejoins: u64,
    pub disconnects: u64,
    pub server_resets: u64,
    pub rejected: u64,
}

/// An open chat and its room, if it has one.
#[derive(Debug)]
pub struct ChatStatus {
    pub id: Option<String>,
    pub room: Option<ChatRoomStatus>,
}

/// An engine's answer to the question for its sync status.
#[derive(Debug)]
pub struct SyncStatus {
    pub now_ms: i64,
    pub device_id: Option<String>,
    pub workspace: Option<RoomStatus>,
    pub chats: Vec<ChatStatus>,
}

/// The lines to print. `complete` is false where a line could not be written: the
/// lines are then those before it.
#[derive(Debug)]
pub struct SyncReport {
    pub lines: Vec<String>,
    pub complete: bool,
}

/// What a [`ChatStatus`] holds.
pub struct ChatModel {
    pub id: Option<Seq<char>>,
    pub room: Option<ChatRoomStatus>,
}

/// What a [`SyncStatus`] holds.
pub struct SyncModel {
    pub now_ms: i64,
    pub device_id: Option<Seq<char>>,
    pub workspace: Option<RoomStatus>,
    pub chats: Seq<ChatModel>,
}

/// The characters of a string, if there is one.
pub open spec fn characters(s: Option<String>) -> Option<Seq<char>> {
    match s {
        Some(s) => Some(s@),
        None => None,
    }
}

impl View for ChatStatus {
    type V = ChatModel;

    open spec fn view(&self) -> ChatModel {
        ChatModel { id: characters(self.id), room: self.room }
    }
}

impl View for SyncStatus {
    type V = SyncModel;

    open spec fn view(&self) -> SyncModel {
        SyncModel {
            now_ms: self.now_ms,
            device_id: characters(self.device_id),
            workspace: self.workspace,
            chats: self.chats@.map_values(|chat: ChatStatus| chat@),
        }
    }
}

impl RoomStatus {
    /// The counters in the JSON object `room`.
    pub open spec fn of(room: Json) -> RoomStatus {
        RoomStatus {
            connected: room.flag_at("connected"@),
            last_pushed_ms: room.i64_at("lastPushedMs"@),
            last_ack_ms: room.i64_at("lastAckMs"@),
            rejoins: room.i64_at("rejoins"@),
            probes: room.i64_at("probes"@),
            full_resyncs: room.i64_at("fullResyncs"@),
            disconnects: room.i64_at("disconnects"@),
            rejected: room.i64_at("rejected"@),
        }
    }

    /// Reads the counters from the JSON object `room`.
    pub fn from_value(room: &serde_json::Value) -> (r: RoomStatus)
        ensures
            r == RoomStatus::of(contents(*room)),
    {
        RoomStatus {
            connected: flag_at(room, "connected"),
            last_pushed_ms: i64_at(room, "lastPushedMs"),
            last_ack_ms: i64_at(room, "lastAckMs"),
            rejoins: i64_at(room, "rejoins"),
            probes: i64_at(room, "probes"),
            full_resyncs: i64_at(room, "fullResyncs"),
            disconnects: i64_at(room, "disconnects"),
            rejected: i64_at(room, "rejected"),
        }
    }
}

impl ChatRoomStatus {
    /// The counters in the JSON object `room`.
    pub open spec fn of(room: Json) -> ChatRoomStatus {
        ChatRoomStatus {
            connected: room.flag_at("connected"@),
            cursor: room.u64_at("cursor"@),
            head_seq: room.u64_at("headSeq"@),
            pending_pushes: room.u64_at("pendingPushes"@),
            row_count: room.u64_at("rowCount"@),
            row_bytes: room.u64_at("rowBytes"@),
            rejoins: room.u64_at("rejoins"@),
            disconnects: room.u64_at("disconnects"@),
            server_resets: room.u64_at("serverResets"@),
            rejected: room.u64_at("rejected"@),
        }
    }

    /// Reads the counters from the JSON object `room`.
    pub fn from_value(room: &serde_json::Value) -> (r: ChatRoomStatus)
        ensures
            r == ChatRoomStatus::of(contents(*room)),
    {
        ChatRoomStatus {
            connected: flag_at(room, "connected"),
            cursor: u64_at(room, "cursor"),
            head_seq: u64_at(room, "headSeq"),
            pending_pushes: u64_at(room, "pendingPushes"),
            row_count: u64_at(room, "rowCount"),
            row_bytes: u64_at(room, "rowBytes"),
            rejoins: u64_at(room, "rejoins"),
            disconnects: u64_at(room, "disconnects"),
            server_resets: u64_at(room, "serverResets"),
            rejected: u64_at(room, "rejected"),
        }
    }
}

impl ChatModel {
    /// The chat in the JSON object `chat`.
    pub open spec fn of(chat: Json) -> ChatModel {
        ChatModel {
            id: chat.str_at("chatId"@),
            room: match chat.present("room"@) {
                Some(room) => Some(ChatRoomStatus::of(room)),
                None => None,
            },
        }
    }
}

impl ChatStatus {
    /// Reads a chat from the JSON object `chat`.
    pub fn from_value(chat: &serde_json::Value) -> (r: ChatStatus)
        ensures
            r@ == ChatModel::of(contents(*chat)),
    {
        ChatStatus {
            id: str_at(chat, "chatId"),
            room: match present_at(chat, "room") {
                Some(room) => Some(ChatRoomStatus::from_value(room)),
                None => None,
            },
        }
    }
}

impl SyncModel {
    /// The status in the JSON object `status`.
    pub open spec fn of(status: Json) -> SyncModel {
        SyncModel {
            now_ms: status.i64_at("nowMs"@),
            device_id: status.str_at("deviceId"@),
            workspace: match status.present("workspace"@) {
                Some(room) => Some(RoomStatus::of(room)),
                None => None,
            },
            chats: status.items_at("chats"@).map_values(|chat: Json| ChatModel::of(chat)),
        }
    }
}

impl SyncStatus {
    /// Reads the status from the JSON object `status`. A member that is missing,
    /// or of another type than it should be, counts as absent.
    pub fn from_value(status: &serde_json::Value) -> (r: SyncStatus)
        ensures
            r@ == SyncModel::of(contents(*status)),
    {
        let mut chats: Vec<ChatStatus> = Vec::new();
        let ghost want = SyncModel::of(contents(*status)).chats;
        if let Some(items) = items_at(status, "chats") {
            let mut i: usize = 0;
            while i < items.len()
                invariant
                    i <= items@.len(),
                    chats@.len() == i,
                    want.len() == items@.len(),
                    forall|j: int|
                        0 <= j < items@.len() ==> #[trigger] want[j] == ChatModel::of(
                            contents(items@[j]),
                        ),
                    forall|j: int| 0 <= j < i ==> (#[trigger] chats@[j])@ == want[j],
                decreases items@.len() - i,
            {
                chats.push(ChatStatus::from_value(&items[i]));
                i += 1;
            }
        }
        assert(chats@.map_values(|chat: ChatStatus| chat@) =~= want);
        SyncStatus {
            now_ms: i64_at(status, "nowMs"),
            device_id: str_at(status, "deviceId"),
            workspace: match present_at(status, "workspace") {
                Some(room) => Some(RoomStatus::from_value(room)),
                None => None,
            },
            chats,
        }
    }
}

/// The time from `ms` to `now` fits in an `i64`, or is not asked for.
pub open spec fn age_fits(now: i64, ms: i64) -> bool {
    ms <= 0 || now - ms >= i64::MIN
}

/// How long before `now` the time `ms` was: in hours and minutes, minutes and
/// seconds, or seconds. A time after `now` is no time ago.
pub open spec fn age_text(now: i64, ms: i64) -> Seq<char> {
    if ms <= 0 {
        "never"@
    } else {
        let s = (if now < ms {
            0
        } else {
            (now - ms) / 1000
        }) as nat;
        if s >= 3600 {
            decimal(s / 3600) + "h"@ + decimal((s % 3600) / 60) + "m ago"@
        } else if s >= 60 {
            decimal(s / 60) + "m"@ + decimal(s % 60) + "s ago"@
        } else {
            decimal(s) + "s ago"@
        }
    }
}

/// How long before `now` the time `ms` was.
pub fn age(now: i64, ms: i64) -> (r: String)
    requires
        age_fits(now, ms),
    ensures
        r@ == age_text(now, ms),
{
    if ms <= 0 {
        return "never".to_owned();
    }
    let past: i64 = now - ms;
    let s: u64 = if past < 0 {
        0
    } else {
        past as u64 / 1000
    };
    let mut out = String::new();
    if s >= 3600 {
        push_decimal(&mut out, s / 3600);
        out.append("h");
        push_decimal(&mut out, (s % 3600) / 60);
        out.append("m ago");
    } else if s >= 60 {
        push_decimal(&mut out, s / 60);
        out.append("m");
        push_decimal(&mut out, s % 60);
        out.append("s ago");
    } else {
        push_decimal(&mut out, s);
        out.append("s ago");
    }
    assert(out@ =~= age_text(now, ms));
    out
}

/// Whether a room is connected, as its line begins.
pub open spec fn link_text(connected: bool) -> Seq<char> {
    if connected {
        "connected ·"@
    } else {
        "DISCONNECTED ·"@
    }
}

/// Whether a room is connected, as its line begins.
fn link(connected: bool) -> (r: &'static str)
    ensures
        r@ == link_text(connected),
{
    if connected {
        "connected ·"
    } else {
        "DISCONNECTED ·"
    }
}

/// The line of a chat or workspace that has no room.
pub open spec fn no_room_text() -> Seq<char> {
    "no room (dialing or edge-less)"@
}

impl RoomStatus {
    /// The ages that the room's line gives can be told.
    pub open spec fn ages_fit(self, now: i64) -> bool {
        age_fits(now, self.last_pushed_ms) && age_fits(now, self.last_ack_ms)
    }

    /// The room's line at the time `now`. Rejected writes are shown only where
    /// there are some.
    pub open spec fn text(self, now: i64) -> Seq<char> {
        let counters = link_text(self.connected) + " pushed "@ + age_text(now, self.last_pushed_ms)
            + " · acked "@ + age_text(now, self.last_ack_ms) + " · rejoins "@ + signed_decimal(
            self.rejoins as int,
        ) + " probes "@ + signed_decimal(self.probes as int) + " resyncs "@ + signed_decimal(
            self.full_resyncs as int,
        ) + " drops "@ + signed_decimal(self.disconnects as int);
        if self.rejected > 0 {
            counters + " REJECTED "@ + signed_decimal(self.rejected as int)
        } else {
            counters
        }
    }

    /// Whether the ages that the room's line gives can be told.
    pub fn has_ages(&self, now: i64) -> (r: bool)
        ensures
            r == self.ages_fit(now),
    {
        (self.last_pushed_ms <= 0 || now as i128 - self.last_pushed_ms as i128 >= i64::MIN as i128)
            && (self.last_ack_ms <= 0 || now as i128 - self.last_ack_ms as i128 >= i64::MIN as i128)
    }

    /// The room's line at the time `now`.
    pub fn line(&self, now: i64) -> (r: String)
        requires
            self.ages_fit(now),
        ensures
            r@ == self.text(now),
    {
        let mut out = link(self.connected).to_owned();
        out.append(" pushed ");
        out.append(age(now, self.last_pushed_ms).as_str());
        out.append(" · acked ");
        out.append(age(now, self.last_ack_ms).as_str());
        out.append(" · rejoins ");
        push_signed(&mut out, self.rejoins);
        out.append(" probes ");
        push_signed(&mut out, self.probes);
        out.append(" resyncs ");
        push_signed(&mut out, self.full_resyncs);
        out.append(" drops ");
        push_signed(&mut out, self.disconnects);
        if self.rejected > 0 {
            out.append(" REJECTED ");
            push_signed(&mut out, self.rejected);
        }
        out
    }
}

impl ChatRoomStatus {
    /// The room's line. Resets and rejected writes are shown only where there are
    /// some.
    pub open spec fn text(self) -> Seq<char> {
        let counters = link_text(self.connected) + " cursor "@ + decimal(self.cursor as nat)
            + "/"@ + decimal(self.head_seq as nat) + " · pending "@ + decimal(
            self.pending_pushes as nat,
        ) + " · rows "@ + decimal(self.row_count as nat) + " ("@ + decimal(
            (self.row_bytes / 1024) as nat,
        ) + "KB) · rejoins "@ + decimal(self.rejoins as nat) + " drops "@ + decimal(
            self.disconnects as nat,
        );
        let resets = if self.server_resets > 0 {
            counters + " RESETS "@ + decimal(self.server_resets as nat)
        } else {
            counters
        };
        if self.rejected > 0 {
            resets + " REJECTED "@ + decimal(self.rejected as nat)
        } else {
            resets
        }
    }

    /// The room's line.
    pub fn line(&self) -> (r: String)
        ensures
            r@ == self.text(),
    {
        let mut out = link(self.connected).to_owned();
        out.append(" cursor ");
        push_decimal(&mut out, self.cursor);
        out.append("/");
        push_decimal(&mut out, self.head_seq);
        out.append(" · pending ");
        push_decimal(&mut out, self.pending_pushes);
        out.append(" · rows ");
        push_decimal(&mut out, self.row_count);
        out.append(" (");
        push_decimal(&mut out, self.row_bytes / 1024);
        out.append("KB) · rejoins ");
        push_decimal(&mut out, self.rejoins);
        out.append(" drops ");
        push_decimal(&mut out, self.disconnects);
        if self.server_resets > 0 {
            out.append(" RESETS ");
            push_decimal(&mut out, self.server_resets);
        }
        if self.rejected > 0 {
            out.append(" REJECTED ");
            push_decimal(&mut out, self.rejected);
        }
        out
    }
}

/// The number of bytes that a chat's id is cut down to.
pub open spec fn short_len(id: Seq<char>) -> int {
    if encode_utf8(id).len() < 8 {
        encode_utf8(id).len() as int
    } else {
        8
    }
}

/// The id of a chat can be cut down without cutting a character apart.
pub open spec fn can_shorten(id: Seq<char>) -> bool {
    is_char_boundary(encode_utf8(id), short_len(id))
}

/// The characters in the first bytes of a chat's id.
pub open spec fn short_text(id: Seq<char>) -> Seq<char> {
    decode_utf8(encode_utf8(id).take(short_len(id)))
}

/// Whether the id of a chat can be cut down without cutting a character apart.
pub fn shortens(id: &str) -> (r: bool)
    ensures
        r == can_shorten(id@),
{
    let len: usize = id.as_bytes().len();
    if len < 8 {
        proof {
            vstd::utf8::encode_utf8_valid_utf8(id@);
            vstd::utf8::is_char_boundary_start_end_of_seq(encode_utf8(id@));
        }
        true
    } else {
        id.is_char_boundary(8)
    }
}

/// The first bytes of a chat's id.
pub fn short_id(id: &str) -> (r: &str)
    requires
        can_shorten(id@),
    ensures
        r@ == short_text(id@),
{
    let len: usize = id.as_bytes().len();
    let cut: usize = if len < 8 {
        len
    } else {
        8
    };
    let (short, _) = id.split_at(cut);
    proof {
        vstd::utf8::encode_utf8_decode_utf8(short@);
        assert(encode_utf8(short@) =~= encode_utf8(id@).take(cut as int));
    }
    short
}

impl ChatModel {
    /// The chat's line can be written.
    pub open spec fn printable(self) -> bool {
        match self.id {
            Some(id) => can_shorten(id),
            None => true,
        }
    }

    /// The chat's line.
    pub open spec fn text(self) -> Seq<char> {
        "Chat "@ + (match self.id {
            Some(id) => short_text(id),
            None => "?"@,
        }) + ": "@ + (match self.room {
            Some(room) => room.text(),
            None => no_room_text(),
        })
    }
}

impl ChatStatus {
    /// Whether the chat's line can be written.
    pub fn is_printable(&self) -> (r: bool)
        ensures
            r == self@.printable(),
    {
        match &self.id {
            Some(id) => shortens(id.as_str()),
            None => true,
        }
    }

    /// The chat's line.
    pub fn line(&self) -> (r: String)
        requires
            self@.printable(),
        ensures
            r@ == self@.text(),
    {
        let mut out = "Chat ".to_owned();
        match &self.id {
            Some(id) => out.append(short_id(id.as_str())),
            None => out.append("?"),
        }
        out.append(": ");
        match &self.room {
            Some(room) => out.append(room.line().as_str()),
            None => out.append("no room (dialing or edge-less)"),
        }
        out
    }
}

impl SyncModel {
    /// The line of the workspace can be written.
    pub open spec fn workspace_printable(self) -> bool {
        match self.workspace {
            Some(room) => room.ages_fit(self.now_ms),
            None => true,
        }
    }

    /// The line that names the device.
    pub open spec fn device_text(self) -> Seq<char> {
        "Device:    "@ + (match self.device_id {
            Some(id) => id,
            None => "?"@,
        })
    }

    /// The line of the workspace.
    pub open spec fn workspace_text(self) -> Seq<char> {
        "Workspace: "@ + (match self.workspace {
            Some(room) => room.text(self.now_ms),
            None => no_room_text(),
        })
    }

    /// The number of chats from `i` on, `i` included, that come before the first
    /// whose line cannot be written.
    pub open spec fn printable_from(self, i: int) -> nat
        decreases self.chats.len() - i,
    {
        if 0 <= i < self.chats.len() && self.chats[i].printable() {
            1 + self.printable_from(i + 1)
        } else {
            0
        }
    }

    /// Every line can be written.
    pub open spec fn printable(self) -> bool {
        self.workspace_printable() && forall|i: int|
            0 <= i < self.chats.len() ==> (#[trigger] self.chats[i]).printable()
    }

    /// The lines that come before the chats.
    pub open spec fn head(self) -> Seq<Seq<char>> {
        let rooms = seq![self.device_text(), self.workspace_text()];
        if self.chats.len() == 0 {
            rooms.push("Chats:     none open"@)
        } else {
            rooms
        }
    }

    /// The lines of the report, up to the first that cannot be written.
    pub open spec fn lines(self) -> Seq<Seq<char>> {
        if self.workspace_printable() {
            self.head() + Seq::new(self.printable_from(0), |i: int| self.chats[i].text())
        } else {
            seq![self.device_text()]
        }
    }
}

impl SyncStatus {
    /// The line that names the device.
    fn device_line(&self) -> (r: String)
        ensures
            r@ == self@.device_text(),
    {
        let mut out = "Device:    ".to_owned();
        match &self.device_id {
            Some(id) => out.append(id.as_str()),
            None => out.append("?"),
        }
        out
    }

    /// The line of the workspace, if it can be written.
    fn workspace_line(&self) -> (r: Option<String>)
        ensures
            r is Some <==> self@.workspace_printable(),
            r matches Some(line) ==> line@ == self@.workspace_text(),
    {
        let mut out = "Workspace: ".to_owned();
        match &self.workspace {
            Some(room) => {
                if !room.has_ages(self.now_ms) {
                    return None;
                }
                out.append(room.line(self.now_ms).as_str());
            },
            None => out.append("no room (dialing or edge-less)"),
        }
        Some(out)
    }

    /// The report: the device, the workspace, then a line for each open chat. It
    /// stops short of a line that cannot be written, because an age does not fit
    /// in an `i64` or because cutting a chat's id down would cut a character apart.
    pub fn report(&self) -> (r: SyncReport)
        ensures
            r.lines.deep_view() == self@.lines(),
            r.complete == self@.printable(),
    {
        let mut lines: Vec<String> = Vec::new();
        lines.push(self.device_line());
        match self.workspace_line() {
            Some(line) => lines.push(line),
            None => {
                assert(lines.deep_view() =~= self@.lines());
                return SyncReport { lines, complete: false };
            },
        }
        if self.chats.len() == 0 {
            lines.push("Chats:     none open".to_owned());
        }
        assert(lines.deep_view() =~= self@.head());
        let mut i: usize = 0;
        while i < self.chats.len()
            invariant
                i <= self.chats@.len(),
                self@.workspace_printable(),
                lines.deep_view() =~= self@.head() + Seq::new(
                    i as nat,
                    |j: int| self@.chats[j].text(),
                ),
                self@.printable_from(0) == i + self@.printable_from(i as int),
                forall|j: int| 0 <= j < i ==> (#[trigger] self@.chats[j]).printable(),
            decreases self.chats@.len() - i,
        {
            assert(self@.chats[i as int] == self.chats@[i as int]@);
            if !self.chats[i].is_printable() {
                assert(self@.printable_from(i as int) == 0);
                assert(!self@.printable());
                return SyncReport { lines, complete: false };
            }
            let ghost before = lines.deep_view();
            lines.push(self.chats[i].line());
            assert(lines.deep_view() =~= before.push(self@.chats[i as int].text()));
            i += 1;
        }
        assert(self@.printable_from(i as int) == 0);
        SyncReport { lines, complete: true }
    }
}

/// The report on the engine's answer `status`, a JSON object.
pub fn sync_report(status: &serde_json::Value) -> (r: SyncReport)
    ensures
        r.lines.deep_view() == SyncModel::of(contents(*status)).lines(),
        r.complete == SyncModel::of(contents(*status)).printable(),
{
    SyncStatus::from_value(status).report()
}

/// The address of the engine that listens on `port` of this machine.
pub fn engine_url(port: u16) -> (r: String)
    ensures
        r@ == "ws://127.0.0.1:"@ + decimal(port as nat),
{
    let mut out = "ws://127.0.0.1:".to_owned();
    push_decimal(&mut out, port as u64);
    out
}

/// The complaint where no engine listens on `port`, for the reason `error`.
pub fn no_engine(port: u16, error: &str) -> (r: String)
    ensures
        r@ == "no engine listening on 127.0.0.1:"@ + decimal(port as nat) + " ("@ + error@
            + ") — is zeron running?"@,
{
    let mut out = "no engine listening on 127.0.0.1:".to_owned();
    push_decimal(&mut out, port as u64);
    out.append(" (");
    out.append(error);
    out.append(") — is zeron running?");
    out
}

/// The complaint where the engine gives no status, for the reason `error`.
pub fn status_failed(error: &str) -> (r: String)
    ensures
        r@ == "SyncStatus failed: "@ + error@,
{
    let mut out = "SyncStatus failed: ".to_owned();
    out.append(error);
    out
}

/// Only an event that never happened is said to have happened never.
pub proof fn never_is_no_event(now: i64, ms: i64)
    ensures
        age_text(now, ms) == "never"@ <==> ms <= 0,
{
    reveal_strlit("never");
    reveal_strlit("m ago");
    reveal_strlit("s ago");
    if ms > 0 {
        assert(age_text(now, ms).last() == 'o');
        assert("never"@.last() == 'r');
    }
}

/// Rejected writes never pass unnoticed: they stand at the end of the room's line,
/// which is otherwise that of a room without any.
pub proof fn rejected_writes_are_loud(room: RoomStatus, now: i64)
    ensures
        ({
            let quiet = RoomStatus { rejected: 0, ..room };
            if room.rejected > 0 {
                room.text(now) == quiet.text(now) + " REJECTED "@ + decimal(room.rejected as nat)
            } else {
                room.text(now) == quiet.text(now)
            }
        }),
{
}

/// Resets and rejected writes never pass unnoticed in a chat room either.
pub proof fn chat_alarms_are_loud(room: ChatRoomStatus)
    ensures
        ({
            let quiet = ChatRoomStatus { server_resets: 0, rejected: 0, ..room };
            let resets = if room.server_resets > 0 {
                " RESETS "@ + decimal(room.server_resets as nat)
            } else {
                Seq::empty()
            };
            let rejected = if room.rejected > 0 {
                " REJECTED "@ + decimal(room.rejected as nat)
            } else {
                Seq::empty()
            };
            room.text() == quiet.text() + resets + rejected
        }),
{
    let quiet = ChatRoomStatus { server_resets: 0, rejected: 0, ..room };
    let resets = if room.server_resets > 0 {
        " RESETS "@ + decimal(room.server_resets as nat)
    } else {
        Seq::empty()
    };
    let rejected = if room.rejected > 0 {
        " REJECTED "@ + decimal(room.rejected as nat)
    } else {
        Seq::empty()
    };
    assert(room.text() =~= quiet.text() + resets + rejected);
}

/// A chat goes by the first characters of its id, and one whose id is plain ASCII
/// by the first eight.
pub proof fn short_ids_are_prefixes(id: Seq<char>)
    requires
        can_shorten(id) || vstd::utf8::is_ascii_chars(id),
    ensures
        can_shorten(id),
        short_text(id).len() <= id.len(),
        short_text(id) == id.take(short_text(id).len() as int),
        vstd::utf8::is_ascii_chars(id) ==> short_text(id) == id.take(
            if id.len() < 8 {
                id.len() as int
            } else {
                8
            },
        ),
{
    let bytes = encode_utf8(id);
    let cut = short_len(id);
    vstd::utf8::encode_utf8_valid_utf8(id);
    vstd::utf8::encode_utf8_decode_utf8(id);
    if vstd::utf8::is_ascii_chars(id) {
        vstd::utf8::is_ascii_chars_encode_utf8(id);
        let n = if id.len() < 8 {
            id.len() as int
        } else {
            8
        };
        let start = id.take(n);
        vstd::utf8::is_ascii_chars_encode_utf8(start);
        assert(encode_utf8(start) =~= bytes.take(cut));
        vstd::utf8::encode_utf8_decode_utf8(start);
        if cut < bytes.len() {
            vstd::utf8::is_char_boundary_iff_is_leading_byte(bytes, cut);
            let b = bytes[cut];
            assert(b == id[cut] as u8);
            assert(vstd::utf8::is_leading_byte_width_1(b));
        } else {
            vstd::utf8::is_char_boundary_start_end_of_seq(bytes);
        }
    } else {
        vstd::utf8::decode_utf8_split(bytes, cut);
        assert(bytes.subrange(0, cut) =~= bytes.take(cut));
        assert(short_text(id) =~= id.take(short_text(id).len() as int));
    }
}

impl SyncModel {
    /// The lines of a report that leaves nothing out.
    pub open spec fn all_lines(self) -> Seq<Seq<char>> {
        self.head() + Seq::new(self.chats.len(), |i: int| self.chats[i].text())
    }
}

/// A report is the whole report up to where it stops, and it is whole exactly
/// where every line can be written: the device and the workspace have a line each,
/// and so has every open chat, in order.
pub proof fn reports_are_whole_or_cut_short(status: SyncModel)
    ensures
        status.lines().len() <= status.all_lines().len(),
        status.lines() == status.all_lines().take(status.lines().len() as int),
        status.printable() <==> status.lines() == status.all_lines(),
{
    let n = status.printable_from(0);
    printable_from_counts(status, 0);
    assert(status.lines() =~= status.all_lines().take(status.lines().len() as int));
    if status.printable() {
        if n < status.chats.len() {
            assert(status.chats[n as int].printable());
        }
        assert(status.lines() =~= status.all_lines());
    } else if status.workspace_printable() && n == status.chats.len() {
        assert(status.printable());
    }
}

/// The chats counted are printable, and the one after them, if any, is not.
proof fn printable_from_counts(status: SyncModel, i: int)
    requires
        0 <= i <= status.chats.len(),
    ensures
        i + status.printable_from(i) <= status.chats.len(),
        forall|j: int|
            i <= j < i + status.printable_from(i) ==> (#[trigger] status.chats[j]).printable(),
        i + status.printable_from(i) < status.chats.len() ==> !status.chats[i
            + status.printable_from(i)].printable(),
    decreases status.chats.len() - i,
{
    if i < status.chats.len() && status.chats[i].printable() {
        printable_from_counts(status, i + 1);
    }
}

}
