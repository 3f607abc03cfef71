use serde_json::Value;
use zeron::sync::{
    ChatRoomStatus, ChatStatus, RoomStatus, SyncReport, age, engine_url, no_engine, short_id,
    shortens, status_failed, sync_report,
};

fn report(text: &str) -> SyncReport {
    let status: Value = serde_json::from_str(text).unwrap();
    sync_report(&status)
}

#[test]
fn ages_are_told_in_the_largest_units() {
    assert_eq!(age(1_000_000, 0), "never");
    assert_eq!(age(1_000_000, -5), "never");
    assert_eq!(age(1_000_000, 1_000_000), "0s ago");
    assert_eq!(age(1_000_000, 2_000_000), "0s ago");
    assert_eq!(age(1_000_000, 940_001), "59s ago");
    assert_eq!(age(1_000_000, 940_000), "1m0s ago");
    assert_eq!(age(10_000_000, 9_000_000), "16m40s ago");
    assert_eq!(age(10_000_000, 6_400_001), "59m59s ago");
    assert_eq!(age(10_000_000, 6_400_000), "1h0m ago");
    assert_eq!(age(10_000_000, 2_500_000), "2h5m ago");
    assert_eq!(age(i64::MAX, 1), "2562047788015h12m ago");
}

#[test]
fn a_full_report_has_every_line() {
    let report = report(
        r#"{
            "nowMs": 10000000,
            "deviceId": "laptop",
            "workspace": {
                "connected": true, "lastPushedMs": 9999000, "lastAckMs": 9000000,
                "rejoins": 1, "probes": 2, "fullResyncs": 3, "disconnects": 4, "rejected": 0
            },
            "chats": [
                {
                    "chatId": "0123456789abcdef",
                    "room": {
                        "connected": true, "cursor": 7, "headSeq": 9, "pendingPushes": 1,
                        "rowCount": 12, "rowBytes": 4095, "rejoins": 5, "disconnects": 6,
                        "serverResets": 2, "rejected": 3
                    }
                },
                { "chatId": "short", "room": null },
                { "room": { "connected": "yes", "cursor": -1, "headSeq": 1.5 } }
            ]
        }"#,
    );
    assert!(report.complete);
    assert_eq!(
        report.lines,
        [
            "Device:    laptop",
            "Workspace: connected · pushed 1s ago · acked 16m40s ago · rejoins 1 probes 2 resyncs 3 drops 4",
            "Chat 01234567: connected · cursor 7/9 · pending 1 · rows 12 (3KB) · rejoins 5 drops 6 RESETS 2 REJECTED 3",
            "Chat short: no room (dialing or edge-less)",
            "Chat ?: DISCONNECTED · cursor 0/0 · pending 0 · rows 0 (0KB) · rejoins 0 drops 0",
        ]
    );
}

#[test]
fn an_empty_answer_has_a_report_too() {
    for text in ["{}", "null", "[]", "17", r#"{"workspace": null, "chats": {}, "deviceId": 1}"#] {
        let report = report(text);
        assert!(report.complete);
        assert_eq!(
            report.lines,
            [
                "Device:    ?",
                "Workspace: no room (dialing or edge-less)",
                "Chats:     none open",
            ]
        );
    }
}

#[test]
fn rejected_writes_are_shown_where_there_are_some() {
    let room = RoomStatus {
        connected: false,
        last_pushed_ms: 0,
        last_ack_ms: 0,
        rejoins: i64::MIN,
        probes: -1,
        full_resyncs: 0,
        disconnects: i64::MAX,
        rejected: 17,
    };
    let counters = "DISCONNECTED · pushed never · acked never · rejoins -9223372036854775808 probes -1 resyncs 0 drops 9223372036854775807";
    assert_eq!(room.line(0), format!("{counters} REJECTED 17"));
    assert_eq!(RoomStatus { rejected: 0, ..room }.line(0), counters);
    assert_eq!(RoomStatus { rejected: -3, ..room }.line(0), counters);
}

#[test]
fn chat_alarms_are_shown_where_there_are_some() {
    let room = ChatRoomStatus {
        connected: true,
        cursor: u64::MAX,
        head_seq: 0,
        pending_pushes: 0,
        row_count: 0,
        row_bytes: 1024,
        rejoins: 0,
        disconnects: 0,
        server_resets: 0,
        rejected: 0,
    };
    let counters = "connected · cursor 18446744073709551615/0 · pending 0 · rows 0 (1KB) · rejoins 0 drops 0";
    assert_eq!(room.line(), counters);
    assert_eq!(ChatRoomStatus { server_resets: 1, ..room }.line(), format!("{counters} RESETS 1"));
    assert_eq!(ChatRoomStatus { rejected: 1, ..room }.line(), format!("{counters} REJECTED 1"));
}

#[test]
fn numbers_out_of_range_count_as_absent() {
    let report = report(
        r#"{
            "workspace": { "rejoins": 9223372036854775808, "probes": -9223372036854775808, "fullResyncs": 2.0 },
            "chats": [ { "chatId": "c", "room": { "cursor": 18446744073709551615, "headSeq": 18446744073709551616 } } ]
        }"#,
    );
    assert!(report.complete);
    assert_eq!(
        report.lines[1..],
        [
            "Workspace: DISCONNECTED · pushed never · acked never · rejoins 0 probes -9223372036854775808 resyncs 0 drops 0",
            "Chat c: DISCONNECTED · cursor 18446744073709551615/0 · pending 0 · rows 0 (0KB) · rejoins 0 drops 0",
        ]
    );
}

#[test]
fn a_report_stops_at_an_age_that_does_not_fit() {
    let report = report(
        r#"{ "nowMs": -9223372036854775808, "deviceId": "d", "workspace": { "lastAckMs": 1 }, "chats": [] }"#,
    );
    assert!(!report.complete);
    assert_eq!(report.lines, ["Device:    d"]);
}

#[test]
fn a_report_stops_at_an_id_that_cannot_be_cut() {
    let report = report(
        r#"{ "chats": [ { "chatId": "abcdefé" }, { "chatId": "abcdefgé" }, { "chatId": "ok" } ] }"#,
    );
    assert!(!report.complete);
    assert_eq!(report.lines.len(), 3);
    assert_eq!(report.lines[2], "Chat abcdefé: no room (dialing or edge-less)");
}

#[test]
fn ids_are_cut_to_eight_bytes() {
    assert_eq!(short_id(""), "");
    assert_eq!(short_id("1234567"), "1234567");
    assert_eq!(short_id("12345678"), "12345678");
    assert_eq!(short_id("123456789"), "12345678");
    assert_eq!(short_id("ééééé"), "éééé");
    assert!(shortens("é"));
    assert!(!shortens("1234567é"));
    let chat = ChatStatus { id: Some(String::from("1234567é")), room: None };
    assert!(!chat.is_printable());
}

#[test]
fn engines_are_dialed_on_this_machine() {
    assert_eq!(engine_url(27654), "ws://127.0.0.1:27654");
    assert_eq!(engine_url(0), "ws://127.0.0.1:0");
    assert_eq!(
        no_engine(65535, "refused"),
        "no engine listening on 127.0.0.1:65535 (refused) — is zeron running?"
    );
    assert_eq!(status_failed("timeout"), "SyncStatus failed: timeout");
}
