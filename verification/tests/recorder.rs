//! Rooms: their sessions, markers, the memory of events, and the platform's replies.
use shadowreplay::api;
use shadowreplay::api::DouyinBasicRoomInfo;
use shadowreplay::attempt::{Attempt, AttemptEvent, AttemptStage, AttemptStep};
use shadowreplay::events::LiveEvent;
use shadowreplay::json;
use shadowreplay::ledger;
use shadowreplay::ledger::{
    DanmuLedger, EventDeduplicator, PendingEventId, PersistStep, DOUYIN_DEDUP_CAPACITY,
};
use shadowreplay::markers;
use shadowreplay::markers::{ActiveMarkerWrite, Removal};
use shadowreplay::platform::{PlatformType, RecorderError};
use shadowreplay::poll::{Poll, PollEvent, PollStep};
use shadowreplay::response;
use shadowreplay::response::{
    AvatarThumb, Cover, Daum, Data, DouyinRelationResponse, DouyinRoomInfoResponse, Following,
    H5Room, Owner,
};
use shadowreplay::session;
use shadowreplay::session::{
    DouyinSession, DouyinStream, MarkerOutcome, PendingLiveEnd, SessionTransition, StatusStep,
    StopOutcome, StreamMain, StreamOrigin, StreamQualities,
};

fn recorder() -> DouyinSession {
    DouyinSession::new("room", true, "", &Vec::new())
}

fn names(list: &[&str]) -> Vec<String> {
    list.iter().map(|s| s.to_string()).collect()
}

#[test]
fn danmu_room_id_preserves_values_larger_than_i64() {
    assert_eq!(
        markers::douyin_danmu_room_id("184467440737095516150").ok().unwrap(),
        "184467440737095516150"
    );
}

#[test]
fn danmu_room_id_never_falls_back_to_zero_when_missing() {
    let error = markers::douyin_danmu_room_id("  ").err().unwrap();
    assert!(error.to_text().contains("room id is empty"));
}

#[test]
fn direct_hls_url_is_used_when_stream_data_is_missing() {
    assert_eq!(
        session::select_stream_url("https://example.com/fallback.m3u8", &None),
        Some("https://example.com/fallback.m3u8".to_string())
    );
}

fn stream(flv: &str, hls: &str) -> DouyinStream {
    DouyinStream {
        data: StreamQualities {
            origin: StreamOrigin {
                main: StreamMain { flv: flv.to_string(), hls: hls.to_string() },
            },
        },
    }
}

#[test]
fn stream_data_origin_is_preferred_over_direct_hls_fallback() {
    assert_eq!(
        session::select_stream_url(
            "https://example.com/fallback.m3u8",
            &Some(stream("", "https://example.com/origin.m3u8"))
        ),
        Some("https://example.com/origin.m3u8".to_string())
    );
}

#[test]
fn rooms_without_any_stream_have_no_address() {
    assert_eq!(session::select_stream_url("", &None), None);
    assert_eq!(session::get_best_stream_url(&stream("", "")), None);
}

#[test]
fn reconnect_deduplicator_is_bounded_and_allows_expired_ids() {
    let mut deduplicator = EventDeduplicator::default();
    assert!(deduplicator.accept("WebcastChatMessage:1".to_string()));
    assert!(!deduplicator.accept("WebcastChatMessage:1".to_string()));

    for id in 2..=(DOUYIN_DEDUP_CAPACITY + 1) {
        assert!(deduplicator.accept(format!("WebcastChatMessage:{id}")));
    }
    assert_eq!(deduplicator.order.len(), DOUYIN_DEDUP_CAPACITY);
    assert!(deduplicator.accept("WebcastChatMessage:1".to_string()));
    deduplicator.clear();
    assert_eq!(deduplicator.order.len(), 0);
}

#[test]
fn storage_switch_seals_and_commits_the_previous_generation() {
    let mut ledger = DanmuLedger::new();
    let first_generation = ledger.replace_danmu_storage();
    let event = LiveEvent {
        ts: 0,
        platform: "douyin".to_string(),
        room_id: "room".to_string(),
        event_type: "danmu".to_string(),
        data: json::read_json(r#"{"content":"first","id":"1"}"#).unwrap(),
        raw: json::read_json(r#"{"id":"1","method":"WebcastChatMessage"}"#).unwrap(),
    };
    let first_key = ledger::event_dedup_key(&event);
    assert_eq!(first_key, Some("WebcastChatMessage:1".to_string()));
    assert!(ledger.admits(&first_key));
    assert!(matches!(ledger.after_write(1, true, &first_key), PersistStep::Done));
    assert_eq!(ledger.pending.len(), 1);
    assert_eq!(ledger.pending[0].storage_generation, first_generation);
    assert_eq!(Some(ledger.pending[0].key.clone()), first_key);

    let second_generation = ledger.replace_danmu_storage();
    assert!(second_generation > first_generation);
    assert!(ledger.pending.is_empty());
    assert!(ledger.recent.contains("WebcastChatMessage:1"));
    assert!(!ledger.admits(&first_key));
}

#[test]
fn failed_barrier_releases_pending_ids_for_safe_replay() {
    let mut ledger = DanmuLedger::new();
    ledger.generation = 7;
    ledger.pending.push(PendingEventId {
        storage_generation: 7,
        key: "WebcastChatMessage:replay".to_string(),
    });

    assert!(ledger.barrier(Ok(())).is_err());
    assert!(ledger.pending.is_empty());
    assert!(!ledger.recent.contains("WebcastChatMessage:replay"));
    assert!(ledger.admits(&Some("WebcastChatMessage:replay".to_string())));
}

#[test]
fn events_are_remembered_once_they_are_durable() {
    let mut ledger = DanmuLedger::new();
    ledger.replace_danmu_storage();
    let key = Some("a:1".to_string());
    assert!(matches!(
        ledger.after_write(1, false, &key),
        PersistStep::Retry { log: true, notify: true, .. }
    ));
    assert!(matches!(
        ledger.after_write(2, false, &key),
        PersistStep::Retry { log: false, notify: false, .. }
    ));
    ledger.after_write(3, true, &key);
    assert!(!ledger.recent.contains("a:1"));
    assert!(ledger.barrier(Ok(())).is_ok());
    assert!(ledger.recent.contains("a:1"));
    assert!(ledger.barrier(Err("disk full".to_string())).is_err());
    ledger.reset();
    assert!(!ledger.open);
}

#[test]
fn active_session_persistence_surfaces_failure_and_can_retry() {
    let mut recorder = recorder();
    assert!(recorder.active_marker_result(false));
    assert!(!recorder.active_marker_result(false));
    assert!(!recorder.active_marker_result(true));
    assert!(recorder.active_marker_result(false));
    assert!(matches!(
        markers::active_marker_write(&None, "session-1"),
        ActiveMarkerWrite::Replace
    ));
    assert!(matches!(
        markers::active_marker_write(&Some("session-1\n".to_string()), "session-1"),
        ActiveMarkerWrite::Keep
    ));
    assert!(matches!(markers::active_marker_write(&None, ""), ActiveMarkerWrite::Refuse));
    assert!(!markers::can_mark(""));
}

#[test]
fn recovered_live_end_rotates_until_marker_ack() {
    let mut recorder = DouyinSession::new("room", true, "", &names(&["pending-session"]));
    for _ in 0..2 {
        assert_eq!(recorder.retry_batch(), 1);
        let pending = recorder.take_pending().unwrap();
        assert!(pending.marker_persisted);
        let step = recorder.settle_pending(pending, MarkerOutcome::Present);
        assert_eq!(step.report.unwrap().platform_live_id, "pending-session");
        assert_eq!(recorder.pending_live_ends.len(), 1);
    }
    assert!(markers::acknowledged("pending-session", Removal::Removed));
    let pending = recorder.take_pending().unwrap();
    let step = recorder.settle_pending(pending, MarkerOutcome::Gone);
    assert!(step.report.is_none());
    assert!(recorder.pending_live_ends.is_empty());
    assert!(recorder.take_pending().is_none());
}

#[test]
fn current_live_end_is_queued_even_when_broadcast_has_no_receiver() {
    let mut recorder = recorder();
    recorder.enter_session("undelivered-session");
    let ended = recorder.emit_live_end_and_reset(true);
    assert!(ended.broadcast);
    assert_eq!(recorder.pending_live_ends.len(), 1);
    assert_eq!(recorder.pending_live_ends[0].session_id, "undelivered-session");
    assert!(recorder.pending_live_ends[0].marker_persisted);
}

#[test]
fn live_end_waits_for_pending_marker_before_broadcast() {
    let mut recorder = recorder();
    recorder.enter_session("gated-session");
    let ended = recorder.emit_live_end_and_reset(false);
    assert!(!ended.broadcast);
    assert!(ended.notify);
    assert!(!recorder.pending_live_ends[0].marker_persisted);

    let pending = recorder.take_pending().unwrap();
    let step = recorder.settle_pending(pending, MarkerOutcome::PersistFailed);
    assert!(step.report.is_none());
    assert!(!step.notify);
    let pending = recorder.take_pending().unwrap();
    let step = recorder.settle_pending(pending, MarkerOutcome::Persisted);
    assert_eq!(step.report.unwrap().platform_live_id, "gated-session");
    assert!(recorder.pending_live_ends[0].marker_persisted);
}

#[test]
fn recording_reset_preserves_session_parent_until_live_end() {
    let mut recorder = recorder();
    recorder.enter_session("session-parent");
    recorder.archive_started("failed-last-segment");
    recorder.reset_recording();
    assert_eq!(recorder.platform_live_id, "session-parent");
    assert!(recorder.live_id.is_empty());
    assert!(recorder.ledger.open);

    recorder.reset_live();
    assert!(recorder.platform_live_id.is_empty());
    assert!(!recorder.ledger.open);
}

#[test]
fn interrupted_session_marker_waits_for_manager_acknowledgement() {
    let active = markers::active_session(&Some("recovered-session".to_string()));
    let mut recorder = DouyinSession::new("room", true, &active, &Vec::new());
    assert_eq!(recorder.platform_live_id, "recovered-session");
    let ended = recorder.emit_live_end_and_reset(true);
    assert_eq!(ended.recorder.platform_live_id, "recovered-session");
    let marker = markers::pending_marker_path("cache", "room", "recovered-session", false);
    assert!(marker.starts_with("cache/douyin/room/.pending-live-ends/"));
    assert!(markers::acknowledged("recovered-session", Removal::Removed));
    assert!(!markers::acknowledged("recovered-session", Removal::Failed));
    assert!(!markers::acknowledged("", Removal::Removed));
}

#[test]
fn stale_live_end_cannot_clear_newer_session_marker() {
    let marker = Some("new-session".to_string());
    assert!(!markers::clears_active_session(&marker, "old-session"));
    assert!(markers::clears_active_session(&marker, "new-session"));
    assert!(markers::acknowledged("old-session", Removal::Missing));
}

#[test]
fn same_id_recovery_ack_preserves_new_active_incarnation() {
    let pending = names(&["reused-session"]);
    assert!(DouyinSession::startup_clears_active("reused-session", &pending));
    let mut recorder = DouyinSession::new("room", true, "", &pending);
    assert!(recorder.platform_live_id.is_empty());
    recorder.room_info.status = true;
    recorder.enter_session("reused-session");
    recorder.take_pending();
    let late = PendingLiveEnd { session_id: "reused-session".to_string(), marker_persisted: false };
    let step = recorder.settle_pending(late, MarkerOutcome::Persisted);
    assert!(!step.clear_active);
    assert!(markers::acknowledged("reused-session", Removal::Removed));
    assert!(markers::acknowledged("reused-session", Removal::Missing));
}

#[test]
fn detects_douyin_session_replacement_without_offline_poll() {
    assert_eq!(
        session::session_transition(true, "old-session", true, "new-session"),
        SessionTransition { end_previous: true, start_current: true }
    );
}

fn room_info(status: i64, room: &str) -> DouyinBasicRoomInfo {
    DouyinBasicRoomInfo {
        room_id_str: room.to_string(),
        room_title: "title".to_string(),
        cover: None,
        status,
        hls_url: String::new(),
        stream_data: String::new(),
        user_name: "name".to_string(),
        user_avatar: String::new(),
        sec_user_id: "sec".to_string(),
    }
}

#[test]
fn polls_start_and_end_sessions() {
    let mut recorder = recorder();
    assert!(matches!(
        recorder.check_status(&room_info(0, " ")),
        StatusStep::MissingRoomId
    ));
    assert!(matches!(
        recorder.check_status(&room_info(0, "s1")),
        StatusStep::Observed { end_previous: false, start_current: true, live: true }
    ));
    recorder.enter_session("s1");
    assert!(matches!(
        recorder.check_status(&room_info(0, "s1")),
        StatusStep::Observed { end_previous: false, start_current: false, live: true }
    ));
    assert!(matches!(
        recorder.check_status(&room_info(4, "")),
        StatusStep::Observed { end_previous: true, start_current: false, live: false }
    ));
    assert_eq!(recorder.info().room_info.room_title, "title");
}

#[test]
fn recording_needs_an_address() {
    let mut recorder = recorder();
    assert!(recorder.choose_stream(false, "", &None));
    assert!(!recorder.choose_stream(true, "", &None));
    assert!(recorder.choose_stream(true, "url", &None));
    assert_eq!(recorder.stream_url, Some("url".to_string()));
    assert!(!recorder.set_recording(true));
    assert!(recorder.set_recording(false));
}

#[test]
fn an_attempt_goes_through_its_stages() {
    let mut recorder = recorder();
    recorder.enter_session("s1");
    recorder.choose_stream(true, "url", &None);
    recorder.room_info.room_cover = "cover".to_string();
    let mut attempt = Attempt::new("100");
    assert!(matches!(
        attempt.update_entries(&mut recorder, AttemptEvent::Marked),
        AttemptStep::Ignore
    ));
    assert!(matches!(
        attempt.update_entries(&mut recorder, AttemptEvent::Started),
        AttemptStep::MakeDirectory
    ));
    let step = attempt.update_entries(&mut recorder, AttemptEvent::Prepared);
    assert!(matches!(step, AttemptStep::WriteParent { parent } if parent == "s1"));
    assert!(matches!(
        attempt.update_entries(&mut recorder, AttemptEvent::Marked),
        AttemptStep::OpenStorage
    ));
    assert!(matches!(
        attempt.update_entries(&mut recorder, AttemptEvent::Opened),
        AttemptStep::SwitchStorage
    ));
    let step = attempt.update_entries(&mut recorder, AttemptEvent::Switched);
    assert!(matches!(
        step,
        AttemptStep::Launch { generation: 1, cover_url: Some(c), stream_url } if c == "cover" && stream_url == "url"
    ));
    assert_eq!(recorder.live_id, "100");
    assert!(matches!(
        attempt.update_entries(&mut recorder, AttemptEvent::Connected),
        AttemptStep::Record
    ));
    assert_eq!(attempt.stage, AttemptStage::Recording);
    assert!(matches!(
        attempt.update_entries(&mut recorder, AttemptEvent::Recorded),
        AttemptStep::Done
    ));
}

fn attempt_at(recorder: &mut DouyinSession, events: Vec<AttemptEvent>) -> AttemptStep {
    let mut attempt = Attempt::new("100");
    let mut last = AttemptStep::Ignore;
    for event in events {
        last = attempt.update_entries(recorder, event);
    }
    last
}

#[test]
fn attempts_fail_where_something_is_missing() {
    let mut room = recorder();
    assert!(matches!(
        attempt_at(&mut room, vec![AttemptEvent::Started]),
        AttemptStep::Fail { error: RecorderError::NoStreamAvailable, .. }
    ));
    room.choose_stream(true, "url", &None);
    let step = attempt_at(&mut room, vec![AttemptEvent::Started, AttemptEvent::Prepared]);
    assert!(matches!(step, AttemptStep::Fail { error: RecorderError::ApiError { error }, .. }
        if error == "Douyin live session id is empty while starting an archive"));
    room.enter_session("s1");
    let step = attempt_at(
        &mut room,
        vec![
            AttemptEvent::Started,
            AttemptEvent::Prepared,
            AttemptEvent::MarkFailed { error: "io".to_string() },
        ],
    );
    assert!(matches!(
        step,
        AttemptStep::Fail { notice: None, remove_and_wait: false, error: RecorderError::IoError { .. } }
    ));
    let failing = || {
        vec![
            AttemptEvent::Started,
            AttemptEvent::Prepared,
            AttemptEvent::Marked,
            AttemptEvent::OpenFailed { path: "events.jsonl".to_string() },
        ]
    };
    let step = attempt_at(&mut room, failing());
    assert!(matches!(step, AttemptStep::Fail { notice: Some(n), remove_and_wait: true, .. }
        if n.body.contains("events.jsonl")));
    let step = attempt_at(&mut room, failing());
    assert!(matches!(step, AttemptStep::Fail { notice: None, remove_and_wait: true, .. }));
}

#[test]
fn waits_follow_the_rules() {
    assert_eq!(session::storage_retry_secs(3), 5);
    assert_eq!(session::storage_retry_secs(30), 30);
    assert_eq!(session::poll_pause_secs(true, 13, 30), 3);
    assert_eq!(session::poll_pause_secs(false, 13, 30), 30);
    assert!(session::needs_danmu_task(None));
    assert!(!session::needs_danmu_task(Some(false)));
    assert!(!session::wants_cover("  "));
    assert!(session::waits_for_drain(StopOutcome::Stopped));
    assert!(!session::waits_for_drain(StopOutcome::TimedOut));
}

#[test]
fn marker_names_give_their_session_back() {
    let name = markers::encode_session_marker_name("会话/1");
    assert!(!name.contains('/'));
    assert_eq!(markers::decode_session_marker_name(&name), Some("会话/1".to_string()));
    assert_eq!(markers::decode_session_marker_name("not-a-marker"), None);
    assert_ne!(name, markers::encode_session_marker_name("会话/2"));
}

#[test]
fn pending_sessions_are_those_with_markers() {
    let found = names(&[
        &markers::encode_session_marker_name("20"),
        "junk",
        &markers::encode_session_marker_name("3"),
    ]);
    let mut sessions = markers::pending_sessions(&found);
    sessions.sort();
    assert_eq!(sessions, vec!["20", "3"]);
}

#[test]
fn acknowledging_removes_the_marker_of_the_session() {
    assert_eq!(
        markers::acknowledge_live_end("cache", "room", "7", false),
        Some("cache/douyin/room/.pending-live-ends/37".to_string())
    );
    assert_eq!(markers::acknowledge_live_end("cache", "room", "", false), None);
    assert!(!markers::acknowledged("", Removal::Missing));
    let mut marked = names(&["37", "38"]);
    marked.retain(|name| *name != markers::encode_session_marker_name("7"));
    assert_eq!(markers::pending_sessions(&marked), names(&["8"]));
}

#[test]
fn a_single_known_session_is_the_parent_of_recovered_recordings() {
    assert_eq!(
        markers::recovery_session_parent_fallback("s1", &Vec::new()),
        Some("s1".to_string())
    );
    assert_eq!(
        markers::recovery_session_parent_fallback("", &names(&["s2"])),
        Some("s2".to_string())
    );
    assert_eq!(markers::recovery_session_parent_fallback("s1", &names(&["s2"])), None);
    assert_eq!(markers::recovery_session_parent_fallback("", &Vec::new()), None);
}

#[test]
fn marker_paths_stand_below_the_room() {
    assert_eq!(markers::active_session_path("cache", "7", false), "cache/douyin/7/.active-session");
    assert_eq!(
        markers::active_session_temporary_path("cache", "7", false),
        "cache/douyin/7/.active-session.tmp"
    );
    assert_eq!(markers::pending_live_ends_path("cache", "7", false), "cache/douyin/7/.pending-live-ends");
    assert_eq!(markers::room_path("cache", "7", false), "cache/douyin/7");
    assert_eq!(markers::room_path("C:\\cache", "7", true), "C:\\cache\\douyin\\7");
}

fn web_room_response_with_room(room: Option<Daum>, room_status: i64) -> DouyinRoomInfoResponse {
    DouyinRoomInfoResponse {
        data: Data {
            data: room.into_iter().collect(),
            room_status,
            user: response::User {
                nickname: "主播".to_string(),
                avatar_thumb: AvatarThumb { url_list: vec![] },
                ..Default::default()
            },
        },
        status_code: 0,
    }
}

#[test]
fn parse_web_room_info_response_accepts_offline_empty_room_data() {
    let info = api::parse_web_room_info_response(
        web_room_response_with_room(None, 1),
        "requested-room",
        "sec_uid",
    )
    .ok()
    .expect("offline empty room data should be accepted");

    assert_eq!(info.status, 1);
    assert_eq!(info.room_id_str, "requested-room");
    assert!(info.hls_url.is_empty());
}

#[test]
fn parse_web_room_info_response_rejects_live_empty_room_data() {
    let err = api::parse_web_room_info_response(
        web_room_response_with_room(None, 0),
        "requested-room",
        "sec_uid",
    )
    .err()
    .expect("live empty room data should be rejected");

    assert!(matches!(err, RecorderError::ApiError { .. }));
}

#[test]
fn parse_web_room_info_response_rejects_api_error_as_offline() {
    let mut response = web_room_response_with_room(None, 1);
    response.status_code = 10011;

    let error = api::parse_web_room_info_response(response, "requested-room", "sec_uid")
        .err()
        .expect("API errors must not be treated as an ended live");

    assert!(error.to_text().contains("status_code 10011"));
}

#[test]
fn parse_web_room_info_response_allows_empty_image_lists() {
    let room = Daum {
        id_str: "room_id".to_string(),
        title: "直播标题".to_string(),
        cover: Some(Cover { url_list: vec![] }),
        ..Default::default()
    };

    let info = api::parse_web_room_info_response(
        web_room_response_with_room(Some(room), 0),
        "requested-room",
        "sec_uid",
    )
    .ok()
    .expect("empty image url lists should not fail room parsing");

    assert_eq!(info.room_id_str, "room_id");
    assert_eq!(info.room_title, "直播标题");
    assert_eq!(info.cover, None);
    assert_eq!(info.user_avatar, "");
}

#[test]
fn owners_are_found_in_the_page_of_a_room() {
    let page = r#"...{\"owner\":{\"sec_uid\":\"MS4wLjABAAAA\",\"sec_uid\":\"other\"}..."#;
    assert_eq!(
        api::get_room_owner_sec_uid(true, "200 OK", page).ok().unwrap(),
        "MS4wLjABAAAA"
    );
    let error = api::get_room_owner_sec_uid(true, "200 OK", "nothing").err().unwrap();
    assert!(error.to_text().contains("Failed to find sec_uid in room page"));
    let error = api::get_room_owner_sec_uid(false, "404 Not Found", "gone").err().unwrap();
    assert!(error.to_text().contains("Failed to get room owner sec uid: 404 Not Found gone"));
    assert_eq!(api::owner_from_room_info(&Some(room_info(0, "1"))), Some("sec".to_string()));
    assert_eq!(api::owner_from_room_info(&None), None);
    assert!(api::room_page_url("77").ends_with("77"));
}

#[test]
fn failed_replies_do_not_end_a_live() {
    assert!(api::get_room_info(false, "error", None, "room", "sec").is_none());
    assert!(api::get_room_info(true, "", None, "room", "sec").is_none());
    let reply = web_room_response_with_room(None, 1);
    assert!(api::get_room_info(true, "{}", Some(reply), "room", "sec").is_some());
}

#[test]
fn the_second_source_reports_its_failures() {
    let error = api::get_room_info_h5(false, "500", "oops", None).err().unwrap();
    assert!(matches!(error, RecorderError::ApiError { .. }));
    let error = api::get_room_info_h5(true, "200", "not json", None).err().unwrap();
    assert!(matches!(error, RecorderError::ApiError { .. }));
    let room = H5Room {
        id_str: "9".to_string(),
        title: "t".to_string(),
        status: 2,
        cover: None,
        owner: response::User::default(),
        stream_url: None,
    };
    let info = api::get_room_info_h5(true, "200", "{}", Some(room)).ok().unwrap();
    assert_eq!(info.room_id_str, "9");
    assert_eq!(info.status, 0);
}

#[test]
fn the_own_user_is_found_among_the_followed() {
    let reply = DouyinRelationResponse {
        status_code: 0,
        owner_sec_uid: "sec-1".to_string(),
        followings: Some(vec![Following {
            uid: "7".to_string(),
            sec_uid: "sec-1".to_string(),
            nickname: "me".to_string(),
            avatar_thumb: AvatarThumb { url_list: vec!["a".to_string()] },
        }]),
    };
    let user = api::get_user_info(true, "200", "{}", Some(reply)).ok().unwrap();
    assert_eq!(user.sec_uid, "sec-1");
    assert!(api::get_user_info(false, "401", "no", None).is_err());
    assert!(api::get_user_info(true, "200", "no", None).is_err());
}

#[test]
fn owners_of_rooms_are_read() {
    let mut room = Daum { id_str: "1".to_string(), ..Default::default() };
    room.owner = Some(Owner { sec_uid: "o".to_string() });
    let info = api::parse_web_room_info_response(
        web_room_response_with_room(Some(room), 0),
        "r",
        "",
    )
    .ok()
    .unwrap();
    assert_eq!(info.room_id_str, "1");
}

#[test]
fn platform_names_round_trip() {
    for p in [
        PlatformType::BiliBili,
        PlatformType::Douyin,
        PlatformType::Huya,
        PlatformType::Kuaishou,
        PlatformType::TikTok,
        PlatformType::Xiaohongshu,
        PlatformType::Weibo,
        PlatformType::Youtube,
    ] {
        assert!(PlatformType::from_name(p.as_str()) == Some(p));
    }
    assert!(PlatformType::from_name("unknown").is_none());
}

fn answered(status: i64, room: &str) -> PollEvent {
    let mut info = room_info(status, room);
    info.hls_url = "https://example.com/live.m3u8".to_string();
    info.stream_data = "{}".to_string();
    PollEvent::Answered { info }
}

fn marks_active(step: PollStep, session: &str) -> bool {
    matches!(step, PollStep::MarkActive { session_id } if session_id == session)
}

#[test]
fn a_poll_ends_the_old_session_before_the_new_one() {
    let mut recorder = DouyinSession::new("room", true, "old", &Vec::new());
    recorder.room_info.status = true;
    let mut poll = Poll::new();
    assert!(matches!(
        poll.check_status(&mut recorder, answered(0, "new")),
        PollStep::MarkEnd { session_id } if session_id == "old"
    ));
    match poll.check_status(&mut recorder, PollEvent::EndMarked) {
        PollStep::CloseChat { clear_active, notice } => {
            assert_eq!(clear_active, Some("old".to_string()));
            assert!(notice.is_none());
        }
        _ => panic!("the chat of the old session is closed"),
    }
    assert_eq!(recorder.pending_live_ends[0].session_id, "old");
    assert_eq!(recorder.platform_live_id, "old");
    match poll.check_status(&mut recorder, PollEvent::Closed) {
        PollStep::ReportEnd { recorder } => {
            assert_eq!(recorder.platform_live_id, "old");
            assert!(!recorder.room_info.status);
        }
        _ => panic!("the end is reported"),
    }
    assert!(matches!(
        poll.check_status(&mut recorder, PollEvent::Reported),
        PollStep::CloseChat { clear_active: None, notice: None }
    ));
    match poll.check_status(&mut recorder, PollEvent::Closed) {
        PollStep::ReportStart { recorder } => {
            assert_eq!(recorder.platform_live_id, "");
            assert!(recorder.room_info.status);
        }
        _ => panic!("the start is reported"),
    }
    assert!(marks_active(poll.check_status(&mut recorder, PollEvent::Reported), "new"));
    assert_eq!(recorder.platform_live_id, "new");
    assert!(matches!(
        poll.check_status(&mut recorder, PollEvent::ActiveMarked),
        PollStep::ReadStream { notice: None, stream_data } if stream_data == "{}"
    ));
    assert!(matches!(
        poll.check_status(
            &mut recorder,
            PollEvent::StreamRead { should_record: true, stream: None }
        ),
        PollStep::Done { live: true }
    ));
    assert_eq!(recorder.stream_url, Some("https://example.com/live.m3u8".to_string()));
    assert!(matches!(poll.check_status(&mut recorder, PollEvent::Closed), PollStep::Ignore));
}

#[test]
fn markers_that_cannot_be_written_are_told_once() {
    let mut recorder = DouyinSession::new("room", true, "old", &Vec::new());
    let mut poll = Poll::new();
    poll.check_status(&mut recorder, answered(2, ""));
    let failed = PollEvent::EndNotMarked { error: "full".to_string() };
    match poll.check_status(&mut recorder, failed) {
        PollStep::CloseChat { clear_active, notice } => {
            assert!(clear_active.is_none());
            assert_eq!(
                notice.unwrap().body,
                "直播间 room 的下播恢复标记暂时无法写入，程序会持续重试：full"
            );
        }
        _ => panic!("the chat is closed"),
    }
    assert!(matches!(
        poll.check_status(&mut recorder, PollEvent::Closed),
        PollStep::Done { live: false }
    ));
    assert!(!recorder.pending_live_ends[0].marker_persisted);

    recorder.room_info.status = true;
    for told in [true, false] {
        let mut poll = Poll::new();
        assert!(marks_active(poll.check_status(&mut recorder, answered(0, "next")), "next"));
        let failed = PollEvent::ActiveNotMarked { error: "full".to_string() };
        match poll.check_status(&mut recorder, failed) {
            PollStep::ReadStream { notice, stream_data: _ } => {
                assert_eq!(
                    notice.map(|n| n.body),
                    told.then_some(
                        "直播间 room 的恢复标记暂时无法写入，程序会在下轮自动重试：full"
                            .to_string()
                    )
                );
            }
            _ => panic!("the stream is read"),
        }
    }
}

#[test]
fn an_unanswered_poll_ends_nothing() {
    let mut recorder = DouyinSession::new("room", true, "kept", &Vec::new());
    recorder.room_info.status = true;
    assert!(matches!(
        Poll::new().check_status(&mut recorder, PollEvent::NotAnswered),
        PollStep::Done { live: true }
    ));
    assert!(matches!(
        Poll::new().check_status(&mut recorder, answered(0, "  ")),
        PollStep::Done { live: false }
    ));
    assert_eq!(recorder.platform_live_id, "kept");
    assert!(recorder.pending_live_ends.is_empty());
}

#[test]
fn requests_name_the_room_and_the_signature() {
    let params = api::room_info_params("42", "token");
    assert!(params.starts_with("aid=6383&app_name=douyin_web&live_id=1"));
    assert!(params.ends_with("&web_rid=42&ms_token=token"));
    assert_eq!(
        api::room_info_url("42", "token", "sig"),
        format!("https://live.douyin.com/webcast/room/web/enter/?{params}&a_bogus=sig")
    );
    assert_eq!(api::a_bogus_call("a=b", "agent"), "generate_a_bogus(\"a=b\", \"agent\")");
    assert_eq!(
        api::h5_room_info_url("42", "sec"),
        "https://webcast.amemv.com/webcast/room/reflow/info/?type_id=0&live_id=1\
         &version_code=99.99.99&app_id=1128&room_id=42&sec_user_id=sec&aid=6383&device_platform=web"
    );
}

#[test]
fn notices_name_the_room_and_the_reason() {
    let notice = session::startup_failed_notice("room", "denied");
    assert_eq!(notice.title, "抖音会话恢复失败");
    assert_eq!(
        notice.body,
        "无法清理直播间 room 的旧抖音会话标记，已暂停该录制器初始化：denied"
    );
    let notice = session::danmu_write_notice("room", "full");
    assert_eq!(notice.title, "抖音弹幕保存异常");
    assert!(notice.body.ends_with("：full"));
}

#[test]
fn only_chat_is_shown_at_once() {
    let event = |kind: &str, content: Option<&str>| LiveEvent {
        ts: 1,
        platform: "douyin".to_string(),
        room_id: "room".to_string(),
        event_type: kind.to_string(),
        data: json::Json::Object(match content {
            Some(text) => vec![("content".to_string(), json::Json::Text(text.to_string()))],
            None => vec![],
        }),
        raw: json::Json::Null,
    };
    assert_eq!(ledger::realtime_content(&event("danmu", Some("hi"))), Some("hi".to_string()));
    assert_eq!(ledger::realtime_content(&event("danmu", None)), Some(String::new()));
    assert_eq!(ledger::realtime_content(&event("gift", Some("hi"))), None);
}
