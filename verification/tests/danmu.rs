//! Chat messages, their storage and their export.
use flate2::write::GzEncoder;
use flate2::Compression;
use serde_json::Value;
use shadowreplay::connection;
use shadowreplay::events;
use shadowreplay::events::{DanmuEntry, LiveEvent};
use shadowreplay::export;
use shadowreplay::export::RangeError;
use shadowreplay::json;
use shadowreplay::json::Json;
use shadowreplay::storage;
use shadowreplay::storage::{DanmuWriter, ScanStep, TailRepair, TailScan, TailState};
use shadowreplay::wire;
use shadowreplay::wire::{
    Common, CommonMessage, DouyinChatMessage, FansClub, FansClubData, GiftMessage, GiftStruct, Image,
    LikeMessage, MemberMessage, MessageBody, MessageKind, PushFrame, Response, User,
};
use std::io::Write;

fn parsed(text: &str) -> Json {
    json::read_json(text).unwrap()
}

fn value(json: &Json) -> Value {
    serde_json::from_str(&json::write_json(json)).unwrap()
}

fn decoded(line: &str) -> Result<LiveEvent, String> {
    let v: Value = serde_json::from_str(line).map_err(|e| e.to_string())?;
    let text = |key: &str| match &v[key] {
        Value::String(s) => Ok(s.clone()),
        _ => Err(format!("missing field `{key}`")),
    };
    Ok(LiveEvent {
        ts: v["ts"].as_i64().ok_or("missing field `ts`")?,
        platform: text("platform")?,
        room_id: text("room_id")?,
        event_type: text("event_type")?,
        data: parsed(&v["data"].to_string()),
        raw: parsed(&v["raw"].to_string()),
    })
}

fn encoded(event: &LiveEvent) -> String {
    events::event_line(event)
}

fn event(event_type: &str, data: &str, raw: &str) -> LiveEvent {
    LiveEvent {
        ts: 1_788_868_414_771,
        platform: "douyin".to_string(),
        room_id: "123".to_string(),
        event_type: event_type.to_string(),
        data: parsed(data),
        raw: parsed(raw),
    }
}

fn empty_user() -> User {
    User::default()
}

fn chat(content: &str, event_time: u64) -> DouyinChatMessage {
    DouyinChatMessage { common: None, user: None, content: content.to_string(), event_time }
}

#[test]
fn heartbeat_uses_the_douyin_wire_payload() {
    assert_eq!(connection::heartbeat_message(), vec![0x3a, 0x02, b'h', b'b']);
}

#[test]
fn ack_carries_internal_extension_cursor() {
    let push_frame = PushFrame { log_id: 42, ..Default::default() };
    let response = Response {
        need_ack: true,
        internal_ext: "cursor=next".to_string(),
        ..Default::default()
    };

    let ack = wire::build_ack(&push_frame, &response).unwrap();
    assert_eq!(ack.payload_type, "ack");
    assert_eq!(ack.log_id, 42);
    assert_eq!(ack.payload, b"cursor=next");
}

#[test]
fn ack_is_omitted_when_server_does_not_request_it() {
    let push_frame = PushFrame::default();
    let response = Response::default();

    assert!(wire::build_ack(&push_frame, &response).is_none());
}

#[test]
fn creates_complete_chat_event() {
    let chat = DouyinChatMessage {
        common: Some(Common { msg_id: 7_683_131_321_120_630_299, create_time: 0 }),
        user: Some(User {
            id: 2_988_955_578,
            short_id: 2_988_955_578,
            nick_name: "枯枝邀明月".to_string(),
            gender: 1,
            display_id: "dyr8cty6m73n".to_string(),
            sec_uid: "MS4w.test".to_string(),
            avatar_thumb: Some(Image {
                url_list_list: vec!["https://example.com/avatar.jpeg".to_string()],
            }),
            fans_club: Some(FansClub {
                data: Some(FansClubData { level: 9, anchor_id: 105_460_512_869 }),
                prefer_data: Vec::new(),
            }),
            ..empty_user()
        }),
        content: "终于能播了".to_string(),
        event_time: 1_788_868_414_771,
    };

    let event = wire::douyin_chat_event("123", "WebcastChatMessage", 0, &[1, 2], chat);
    let data = value(&event.data);
    let raw = value(&event.raw);
    assert_eq!(event.ts, 1_788_868_414_771);
    assert_eq!(data["content"], "终于能播了");
    assert_eq!(raw["id"], "7683131321120630299");
    assert_eq!(raw["method"], "WebcastChatMessage");
    assert_eq!(raw["user"]["id"], "MS4w.test");
    assert_eq!(raw["user"]["shortId"], "2988955578");
    assert_eq!(raw["user"]["fansClub"][0]["level"], 9);
    assert_eq!(raw["user"]["currentTargetAnchorId"], "105460512869");
    assert_eq!(raw["payloadHex"], "0102");
}

#[test]
fn converts_second_timestamps_to_milliseconds() {
    assert_eq!(wire::douyin_timestamp_millis(1_788_868_414), 1_788_868_414_000);
}

#[test]
fn falls_back_to_common_create_time() {
    let event = wire::douyin_chat_event(
        "123",
        "WebcastChatMessage",
        1,
        &[],
        DouyinChatMessage {
            common: Some(Common { msg_id: 0, create_time: 1_788_868_414 }),
            user: None,
            content: "test".to_string(),
            event_time: 0,
        },
    );
    assert_eq!(event.ts, 1_788_868_414_000);
}

#[test]
fn malformed_child_message_does_not_poison_valid_chat_or_frame_ack() {
    let response = Response {
        messages_list: vec![
            CommonMessage {
                method: "WebcastGiftMessage".to_string(),
                payload: vec![0xff],
                msg_id: 0,
                body: MessageBody::Malformed,
            },
            CommonMessage {
                method: "WebcastChatMessage".to_string(),
                payload: b"valid chat".to_vec(),
                msg_id: 42,
                body: MessageBody::Chat(chat("valid chat", 1_788_868_414_771)),
            },
        ],
        internal_ext: "cursor-after-frame".to_string(),
        need_ack: true,
    };
    let mut encoder = GzEncoder::new(Vec::new(), Compression::default());
    encoder.write_all(b"frame payload").unwrap();
    let frame = PushFrame { log_id: 7, payload: encoder.finish().unwrap(), ..Default::default() };

    assert_eq!(wire::decompress_payload(&frame).ok().unwrap(), b"frame payload");
    let (ack, events) = wire::decode_binary_message(&frame, &response, "room");

    assert_eq!(ack.unwrap().payload, b"cursor-after-frame");
    assert_eq!(events.len(), 1);
    assert_eq!(value(&events[0].data)["content"], "valid chat");
}

#[test]
fn payloads_that_are_not_compressed_are_refused() {
    let frame = PushFrame { payload: b"plain".to_vec(), ..Default::default() };
    let error = wire::decompress_payload(&frame).err().unwrap();
    assert!(error.to_text().contains("Failed to decompress payload: "), "{}", error.to_text());
}

#[test]
fn an_event_without_a_time_gets_the_present() {
    let before = chrono::Utc::now().timestamp_millis();
    let ts = wire::douyin_timestamp_millis(0);
    let after = chrono::Utc::now().timestamp_millis();
    assert!(before <= ts && ts <= after);
    assert_eq!(wire::douyin_timestamp_millis_at(0, 77), 77);
    assert_eq!(wire::douyin_timestamp_millis_at(1_788_868_414_771, 77), 1_788_868_414_771);
}

#[test]
fn avatars_are_taken_from_the_smallest_picture_that_has_one() {
    let mut user = empty_user();
    assert_eq!(wire::douyin_avatar_url(&user), None);
    user.avatar_large = Some(Image { url_list_list: vec!["large".to_string()] });
    assert_eq!(wire::douyin_avatar_url(&user), Some("large".to_string()));
    user.avatar_thumb = Some(Image { url_list_list: Vec::new() });
    user.avatar_medium = Some(Image { url_list_list: vec!["medium".to_string()] });
    assert_eq!(wire::douyin_avatar_url(&user), Some("medium".to_string()));
    user.avatar_thumb = Some(Image { url_list_list: vec!["thumb".to_string()] });
    assert_eq!(wire::douyin_avatar_url(&user), Some("thumb".to_string()));
}

#[test]
fn fans_clubs_do_not_depend_on_the_listing_order() {
    let a = || FansClubData { level: 3, anchor_id: 30 };
    let b = || FansClubData { level: 4, anchor_id: 20 };
    let mut user = empty_user();
    user.fans_club = Some(FansClub {
        data: Some(FansClubData { level: 9, anchor_id: 10 }),
        prefer_data: vec![(2, a()), (1, b())],
    });
    let first = wire::douyin_fans_clubs(&user);
    user.fans_club = Some(FansClub {
        data: Some(FansClubData { level: 9, anchor_id: 10 }),
        prefer_data: vec![(1, b()), (2, a())],
    });
    assert_eq!(wire::douyin_fans_clubs(&user), first);
    assert_eq!(first.len(), 3);
    assert!(first.contains(&(10, 9)));
    assert!(first.contains(&(20, 4)));
    assert!(first.contains(&(30, 3)));
}

#[test]
fn message_kinds_are_told_by_their_method() {
    assert!(matches!(wire::message_kind("WebcastChatMessage"), MessageKind::Chat));
    assert!(matches!(wire::message_kind("WebcastGiftMessage"), MessageKind::Gift));
    assert!(matches!(wire::message_kind("WebcastLikeMessage"), MessageKind::Like));
    assert!(matches!(wire::message_kind("WebcastMemberMessage"), MessageKind::Member));
    assert!(matches!(wire::message_kind("WebcastOther"), MessageKind::Unknown));
}

#[test]
fn only_chat_of_a_frame_is_shown_to_viewers() {
    let gift = CommonMessage {
        method: "WebcastGiftMessage".to_string(),
        payload: Vec::new(),
        msg_id: 5,
        body: MessageBody::Gift(GiftMessage {
            user: None,
            gift: Some(GiftStruct { name: "rose".to_string(), diamond_count: 1 }),
            repeat_count: 2,
            combo_count: 3,
        }),
    };
    let like = CommonMessage {
        method: "WebcastLikeMessage".to_string(),
        payload: Vec::new(),
        msg_id: 6,
        body: MessageBody::Like(LikeMessage { user: None, count: 4, total: 5 }),
    };
    let member = CommonMessage {
        method: "WebcastMemberMessage".to_string(),
        payload: Vec::new(),
        msg_id: 7,
        body: MessageBody::Member(MemberMessage {
            user: None,
            action_description: "came".to_string(),
        }),
    };
    for message in [gift, like, member] {
        if let Some(event) = wire::decode_message("room", &message, 1) {
            assert_ne!(event.event_type, "danmu");
            assert!(events::danmu_entry(&event, 0).is_none());
        }
    }
}

#[test]
fn reads_legacy_timestamp_content_lines() {
    let line = "1234:legacy:content";
    let event = events::parse_event_line(line, decoded(line).ok()).unwrap();
    assert_eq!(event.ts, 1234);
    assert_eq!(value(&event.data)["content"], "legacy:content");
    assert!(matches!(event.raw, Json::Null));
}

/// A file of events in memory.
struct EventFile {
    bytes: Vec<u8>,
    writer: DanmuWriter,
}

fn open_events(bytes: &[u8]) -> EventFile {
    let mut file = EventFile { bytes: bytes.to_vec(), writer: DanmuWriter::new() };
    let last = file.bytes.last().copied().unwrap_or(0);
    if matches!(storage::tail_state(file.bytes.len() as u64, last), TailState::Terminated) {
        return file;
    }
    let mut scan = TailScan::new(file.bytes.len() as u64);
    let mut start: u64 = 0;
    while let Some((from, len)) = scan.next_chunk() {
        let chunk = &file.bytes[from as usize..(from + len) as usize];
        if let ScanStep::Found { line_start } = scan.feed(chunk) {
            start = line_start;
            break;
        }
    }
    let line = storage::tail_text(file.bytes[start as usize..].to_vec());
    let event = line.as_ref().and_then(|l| decoded(l).ok());
    match storage::tail_repair(line, event) {
        TailRepair::Terminate => file.bytes.push(b'\n'),
        TailRepair::Truncate => file.bytes.truncate(start as usize),
    }
    file
}

fn append(file: &mut EventFile, line: &str) {
    if let Some(len) = file.writer.must_truncate_to() {
        file.bytes.truncate(len as usize);
        assert!(file.writer.recover_if_poisoned(true));
    }
    file.bytes.extend(storage::frame_record(line));
}

fn lines_of(bytes: &[u8]) -> Vec<(String, Option<LiveEvent>)> {
    String::from_utf8(bytes.to_vec())
        .unwrap()
        .lines()
        .map(|l| (l.to_string(), decoded(l).ok()))
        .collect()
}

fn contents(bytes: &[u8]) -> Vec<String> {
    events::read_events(lines_of(bytes))
        .iter()
        .map(|e| value(&e.data)["content"].as_str().unwrap().to_string())
        .collect()
}

#[test]
fn persists_and_reloads_complete_events_without_an_in_memory_raw_cache() {
    let mut file = open_events(b"");
    let stored = event(
        "danmu",
        r#"{"user_name":"枯枝邀明月","content":"终于能播了"}"#,
        r#"{"id":"7683131321120630299","method":"WebcastChatMessage","content":"终于能播了"}"#,
    );
    append(&mut file, &encoded(&stored));

    let events = events::read_events(lines_of(&file.bytes));
    assert_eq!(events.len(), 1);
    assert_eq!(value(&events[0].raw)["id"], "7683131321120630299");
    assert_eq!(events::read_entries(lines_of(&file.bytes), 0)[0].content, "终于能播了");
}

#[test]
fn events_are_written_in_the_order_of_their_fields() {
    let stored = event("danmu", r#"{"b":1,"a":"x"}"#, "null");
    let line = encoded(&stored);
    assert_eq!(
        line,
        r#"{"ts":1788868414771,"platform":"douyin","room_id":"123","event_type":"danmu","data":{"a":"x","b":1},"raw":null}"#
    );
    let mut framed = line.clone().into_bytes();
    framed.push(b'\n');
    assert_eq!(storage::frame_event(&stored), framed);
}

#[test]
fn written_events_are_read_back() {
    let stored = event(
        "danmu",
        r#"{"content":"a\nb","n":-5,"list":[1,{"x":null}]}"#,
        r#"{"id":"7","big":18446744073709551615}"#,
    );
    let read = events::decode_record(&events::event_line(&stored)).unwrap();
    assert_eq!((read.ts, read.platform.as_str()), (stored.ts, stored.platform.as_str()));
    assert_eq!((read.room_id, read.event_type), (stored.room_id.clone(), "danmu".to_string()));
    assert_eq!(value(&read.data), value(&stored.data));
    assert_eq!(value(&read.raw), value(&stored.raw));
    let bare = r#"{"ts":1,"platform":"p","room_id":"r","event_type":"danmu","data":null}"#;
    assert!(matches!(events::decode_record(bare).unwrap().raw, Json::Null));
    for line in ["1:x", "[]", r#"{"ts":1}"#, r#"{"ts":"1","platform":"p","room_id":"r","event_type":"e","data":1}"#] {
        assert!(events::decode_record(line).is_none());
    }
    let mut bytes = b"1234:legacy\n".to_vec();
    bytes.extend(storage::frame_event(&events::plain_danmu_event(5, "douyin", "1", "new")));
    assert_eq!(contents(&bytes), vec!["legacy", "new"]);
}

#[test]
fn appending_jsonl_does_not_merge_with_unterminated_legacy_content() {
    let mut file = open_events(b"1234:legacy");
    append(&mut file, &encoded(&events::plain_danmu_event(5678, "douyin", "123", "new")));
    assert_eq!(contents(&file.bytes), vec!["legacy", "new"]);
}

#[test]
fn incomplete_json_tail_is_removed_before_new_events_are_appended() {
    let mut file = open_events(b"1234:legacy\n{\"ts\":");
    append(&mut file, "5678:after restart");
    assert_eq!(contents(&file.bytes), vec!["legacy", "after restart"]);
    assert!(!String::from_utf8(file.bytes).unwrap().contains("{\"ts\":"));
}

#[test]
fn readonly_access_never_repairs_an_active_partial_tail() {
    let bytes = b"1234:complete\n{\"ts\":";
    assert_eq!(events::read_events(lines_of(bytes)).len(), 1);
}

#[test]
fn poisoned_writer_truncates_to_reliable_offset_before_retrying() {
    let complete = b"1234:complete\n";
    let mut bytes = complete.to_vec();
    bytes.extend(b"{\"ts\":");
    let mut file = EventFile {
        bytes,
        writer: DanmuWriter { poisoned_at: Some(complete.len() as u64) },
    };
    append(&mut file, "5678:after recovery");
    assert_eq!(contents(&file.bytes), vec!["complete", "after recovery"]);
    assert!(!String::from_utf8(file.bytes).unwrap().contains("{\"ts\":{\"ts\":"));
}

#[test]
fn a_failed_rollback_poisons_the_writer() {
    let mut writer = DanmuWriter::new();
    assert_eq!(writer.write_failed(9, "disk full", Ok(())), "disk full");
    assert_eq!(writer.must_truncate_to(), None);
    assert_eq!(
        writer.write_failed(9, "disk full", Err("io".to_string())),
        "danmu write failed (disk full) and rollback to 9 bytes failed (io)"
    );
    assert_eq!(writer.must_truncate_to(), Some(9));
    assert!(!writer.recover_if_poisoned(false));
    assert!(writer.recover_if_poisoned(true));
}

#[test]
fn the_start_of_a_long_last_record_is_found() {
    let mut bytes = b"1:first\n".to_vec();
    bytes.extend(vec![b'x'; 20_000]);
    let file = open_events(&bytes);
    assert_eq!(file.bytes, b"1:first\n");
}

#[test]
fn bytes_that_are_no_text_are_cut_off() {
    let file = open_events(b"1:first\n2:\xff\xfe");
    assert_eq!(file.bytes, b"1:first\n");
}

#[test]
fn full_export_keeps_expected_fields_and_raw_payload() {
    let event = event(
        "danmu",
        r#"{"id":"7683131321120630299","method":"WebcastChatMessage","user":{"id":"MS4w.test","name":"枯枝邀明月"},"content":"终于能播了"}"#,
        r#"{"id":"7683131321120630299","method":"WebcastChatMessage","user":{"id":"MS4w.test","name":"枯枝邀明月"},"content":"终于能播了","time":1788868414771,"payloadHex":"0102"}"#,
    );

    let output = export::export_full_danmu_jsonl(&[event]).unwrap();
    let exported: Value = serde_json::from_str(&output).unwrap();
    assert_eq!(exported["id"], "7683131321120630299");
    assert_eq!(exported["method"], "WebcastChatMessage");
    assert_eq!(exported["user"]["name"], "枯枝邀明月");
    assert_eq!(exported["content"], "终于能播了");
    assert_eq!(exported["time"], 1_788_868_414_771_i64);
    assert_eq!(exported["payloadHex"], "0102");
    assert!(exported.get("raw").is_none());
}

#[test]
fn full_export_excludes_non_chat_events() {
    let event = event("gift", r#"{"gift_name":"test"}"#, "null");
    assert!(export::export_full_danmu_jsonl(&[event]).unwrap().is_empty());
}

#[test]
fn persisted_line_export_flattens_raw_douyin_event_without_losing_fields() {
    let raw = r#"{"id":"7683131321120630299","method":"WebcastChatMessage","user":{"id":"MS4w.test","shortId":"2988955578","displayId":"dyr8cty6m73n","name":"枯枝邀明月","gender":1,"avatar":"https://example.com/avatar.jpeg","currentTargetAnchorId":"105460512869","fansClub":[{"anchorId":"105460512869","level":9}]},"content":"终于能播了","time":1788868414771,"payloadHex":"0102"}"#;
    let line = encoded(&event("danmu", r#"{"content":"终于能播了"}"#, raw));

    let output =
        export::export_persisted_danmu_line(&line, decoded(&line), "douyin", "123").unwrap().unwrap();
    let exported: Value = serde_json::from_str(&output).unwrap();
    let expected: Value = serde_json::from_str(raw).unwrap();
    assert_eq!(exported, expected);
    assert!(exported.get("raw").is_none());
    assert!(exported.get("data").is_none());
}

#[test]
fn persisted_line_export_supports_legacy_timestamp_content() {
    let line = "1234:包含:冒号";
    let output =
        export::export_persisted_danmu_line(line, decoded(line), "douyin", "5678").unwrap().unwrap();
    let exported: Value = serde_json::from_str(&output).unwrap();
    assert_eq!(exported["time"], 1234);
    assert_eq!(exported["platform"], "douyin");
    assert_eq!(exported["roomId"], "5678");
    assert_eq!(exported["content"], "包含:冒号");
}

#[test]
fn persisted_line_export_rejects_corrupt_records() {
    let line = "not-json";
    let result = export::export_persisted_danmu_line(line, decoded(line), "douyin", "123");
    assert!(result.is_err());
    assert!(result.unwrap_err().starts_with("Invalid persisted danmu event: "));
    let line = "soon:text";
    assert!(export::export_persisted_danmu_line(line, decoded(line), "douyin", "123").is_err());
    assert_eq!(
        export::export_persisted_danmu_line("  ", decoded("  "), "douyin", "123").unwrap(),
        None
    );
}

fn entry(ts: i64, content: &str) -> DanmuEntry {
    DanmuEntry { ts, content: content.to_string(), user_name: None }
}

#[test]
fn exported_ranges_are_counted_from_their_start() {
    let danmus = vec![entry(500, "early"), entry(1500, "first"), entry(3000, "last"), entry(3001, "late")];
    let out = export::export_danmu(&danmus, 0, 1, 3).ok().unwrap();
    assert_eq!(export::danmu_text(&out), "500:first\n2000:last");
    let out = export::export_danmu(&danmus, 1000, 0, 0).ok().unwrap();
    assert_eq!(export::danmu_text(&out), "500:first\n2000:last\n2001:late");
    assert_eq!(export::danmu_text(&Vec::new()), "");
}

#[test]
fn unusable_export_ranges_are_refused() {
    let danmus = vec![entry(500, "a")];
    let error = |x: i64, y: i64| export::export_danmu(&danmus, 0, x, y).err().unwrap();
    assert!(matches!(error(-1, 5), RangeError::Unordered));
    assert!(matches!(error(5, 5), RangeError::Unordered));
    assert!(matches!(error(i64::MAX - 1, i64::MAX), RangeError::StartTooLarge));
    assert!(matches!(error(1, i64::MAX), RangeError::EndTooLarge));
    assert_eq!(error(3, 2).to_text(), "Export range must satisfy 0 <= x < y");
    assert_eq!(error(i64::MAX - 1, i64::MAX).to_text(), "Export range start is too large");
    assert_eq!(error(1, i64::MAX).to_text(), "Export range end is too large");
}

#[test]
fn times_that_would_overflow_stay_at_the_limit() {
    assert_eq!(events::saturating_difference(i64::MIN, 1), i64::MIN);
    assert_eq!(events::saturating_difference(i64::MAX, -1), i64::MAX);
    assert_eq!(events::saturating_difference(5, 7), -2);
}

#[test]
fn fans_out_the_steps_of_a_frame_in_order() {
    let plan = connection::delivery_plan(2, true);
    assert_eq!(plan.len(), 4);
    assert!(matches!(plan[0], connection::DeliveryStep::Forward(0)));
    assert!(matches!(plan[1], connection::DeliveryStep::Forward(1)));
    assert!(matches!(plan[2], connection::DeliveryStep::AwaitPersistence));
    assert!(matches!(plan[3], connection::DeliveryStep::Acknowledge));
}

#[test]
fn sockets_stop_fail_and_go_on() {
    let stops = |stopping: bool, input: connection::SocketInput| {
        matches!(connection::socket_action(stopping, input), connection::SocketAction::Stop)
    };
    assert!(stops(true, connection::SocketInput::Idle));
    assert!(!stops(false, connection::SocketInput::Idle));
    assert!(stops(true, connection::SocketInput::HeartbeatDue));
    assert!(stops(false, connection::SocketInput::Close));
    assert!(!stops(true, connection::SocketInput::Binary));
    assert!(!connection::sends_ack(true));
    assert!(!connection::sends_heartbeat_while_waiting(true));
    assert!(matches!(
        connection::after_connection(false, false, 2),
        connection::Reconnect::RetryAfter { seconds: 5, attempt: 3 }
    ));
    assert!(matches!(
        connection::after_connection(false, true, 2),
        connection::Reconnect::RetryAfter { seconds: 5, attempt: 0 }
    ));
    assert!(matches!(connection::after_connection(true, true, 2), connection::Reconnect::Stop));
}

#[test]
fn send_failures_are_named() {
    assert!(connection::send_result("ack", connection::SendOutcome::Sent).is_ok());
    for outcome in [
        connection::SendOutcome::NoWriter,
        connection::SendOutcome::Failed("broken".to_string()),
        connection::SendOutcome::TimedOut,
    ] {
        let error = connection::send_result("ack", outcome).err().unwrap();
        assert!(error.to_text().contains("ack"), "{}", error.to_text());
    }
    assert!(connection::persistence_result(connection::PersistOutcome::Stored).is_ok());
    assert!(connection::persistence_result(connection::PersistOutcome::Failed("x".to_string()))
        .is_err());
    assert!(connection::persistence_result(connection::PersistOutcome::Dropped("x".to_string()))
        .is_err());
}

#[test]
fn stream_requests_carry_the_cookie() {
    let headers = connection::request_headers("sessionid=test");
    assert!(headers.iter().any(|h| h.1 == "sessionid=test"));
    assert!(connection::wss_sign_call("123").contains("123"));
}

fn nested(depth: usize) -> json::Json {
    let mut value = json::Json::Unsigned(7);
    for _ in 0..depth {
        value = json::Json::Array(vec![value]);
    }
    value
}

#[test]
fn written_json_is_read_back() {
    let value = json::Json::Object(vec![
        ("b".to_string(), json::Json::Negative(i64::MIN)),
        ("a".to_string(), json::Json::Unsigned(u64::MAX)),
        ("c\n\"\u{7f}".to_string(), json::Json::Text("一行\n\"两行\"\u{0}".to_string())),
        ("d".to_string(), json::Json::Array(vec![json::Json::Null, json::Json::Bool(true)])),
    ]);
    let line = json::write_json(&value);
    assert!(!line.contains('\n'));
    let read = json::read_json(&line).unwrap_or(json::Json::Null);
    assert_eq!(read.get("b").and_then(|v| v.as_i64()), Some(i64::MIN));
    assert_eq!(read.get("a").and_then(|v| v.as_u64()), Some(u64::MAX));
    assert_eq!(
        read.get("c\n\"\u{7f}").and_then(|v| v.as_text().map(str::to_string)),
        Some("一行\n\"两行\"\u{0}".to_string())
    );
    assert_eq!(read.get("d").and_then(|v| v.as_array().map(|a| a.len())), Some(2));
    assert_eq!(json::write_json(&read), line);
}

#[test]
fn deep_json_is_read_back_up_to_the_limit() {
    let deepest = json::write_json(&nested(json::NESTING_LIMIT));
    assert!(json::read_json(&deepest).is_ok());
    let deeper = json::write_json(&nested(json::NESTING_LIMIT + 1));
    assert!(json::read_json(&deeper).is_err());
}

#[test]
fn exported_lines_can_be_told_apart_and_read_back() {
    let event = |content: &str| LiveEvent {
        ts: 5,
        platform: "douyin".to_string(),
        room_id: "room".to_string(),
        event_type: "danmu".to_string(),
        data: json::Json::Object(vec![(
            "content".to_string(),
            json::Json::Text(content.to_string()),
        )]),
        raw: json::Json::Null,
    };
    let output = export::export_full_danmu_jsonl(&[event("one\ntwo"), event("three")]).unwrap();
    let lines: Vec<&str> = output.split('\n').collect();
    assert_eq!(lines.len(), 2);
    for (line, content) in lines.iter().zip(["one\ntwo", "three"]) {
        let entry = json::read_json(line).unwrap_or(json::Json::Null);
        assert_eq!(
            entry.get("content").and_then(|v| v.as_text().map(str::to_string)),
            Some(content.to_string())
        );
        assert_eq!(entry.get("time").and_then(|v| v.as_i64()), Some(5));
    }
}
