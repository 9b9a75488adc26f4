//! The manager: its events, exports and clips.
use serde_json::Value;
use shadowreplay::archive;
use shadowreplay::archive::{
    ArchiveFile, DouyinArchiveDiskState, DouyinZeroSizedArchiveRepair, RecordEndAction,
};
use shadowreplay::clips;
use shadowreplay::clips::{
    ArchiveOnDisk, ClipRangeEvent, ClipRangeParams, ClipRangeStep, GenerateWholeClipParams, Range,
    RelatedPlaylist,
};
use shadowreplay::dispatch;
use shadowreplay::dispatch::{
    Effect, EndedLiveEvent, EndedLiveStep, Hook, NotifyOptions, RecorderEvent,
};
use shadowreplay::events::DanmuEntry;
use shadowreplay::manager;
use shadowreplay::manager::{AccountChoice, RecorderManagerError, RecorderRow};
use shadowreplay::migration;
use shadowreplay::migration::{ArchiveEvidence, FoundArchive, InlineCover, RebuiltSize, RowAction};
use shadowreplay::platform::{PlatformType, RecorderError, RecorderInfo, RoomInfo, UserInfo};
use shadowreplay::playlist;
use shadowreplay::removal::{RecorderRemoval, Registry, RemovalEvent, RemovalStage, RemovalStep};
use shadowreplay::resolve::ResolveEvent::{
    Found, Locked, Migration, NotFound, QueryFailed, ReconcileFailed, Reconciled, SearchFailed,
    Searched, Started,
};
use shadowreplay::resolve::{ParentSearch, ResolveAction, ResolveEvent, ResolveStage};
use shadowreplay::rows::{RecordRow, VideoRow};
use shadowreplay::subtitle;
use shadowreplay::subtitle::{SubtitleEvent, SubtitleFiles, SubtitleStep};
use shadowreplay::whole;
use shadowreplay::whole::{
    AttemptOutcome, Completeness, FoundCompletion, ParentLookup, WholeAction, WholeEvent,
    WholeSessionRun,
};
use shadowreplay::whole_clip;
use shadowreplay::whole_clip::{ExportAction, ExportEvent, Stage, WholeClip};
use shadowreplay::whole_task::{AttemptEvent, AttemptStage, AttemptStep, WholeClipAttempt};

fn names(list: &[&str]) -> Vec<String> {
    list.iter().map(|s| s.to_string()).collect()
}

fn ended_recorder(parent_id: &str, live_id: &str) -> RecorderInfo {
    RecorderInfo {
        platform_live_id: parent_id.to_string(),
        live_id: live_id.to_string(),
        room_info: RoomInfo::default(),
        user_info: UserInfo::default(),
        recording: false,
        enabled: true,
    }
}

fn record(platform: &str, parent: &str, live: &str, size: i64) -> RecordRow {
    RecordRow {
        live_id: live.to_string(),
        platform: platform.to_string(),
        parent_id: parent.to_string(),
        room_id: "10220184".to_string(),
        title: "test".to_string(),
        size,
        created_at: "2025-01-01".to_string(),
        cover: None,
    }
}

#[test]
fn whole_session_claim_is_scoped_to_room_and_session() {
    let mut claimed = Vec::new();

    assert!(whole::claim_douyin_whole_session(&mut claimed, "room-1", "session-1"));
    assert!(!whole::claim_douyin_whole_session(&mut claimed, "room-1", "session-1"));
    assert!(whole::claim_douyin_whole_session(&mut claimed, "room-1", "session-2"));
    assert!(whole::claim_douyin_whole_session(&mut claimed, "room-2", "session-1"));
}

#[test]
fn whole_session_retry_delay_backs_off_and_caps() {
    let delays = (1..=9)
        .map(|failure_count| whole::douyin_whole_retry_delay(failure_count))
        .collect::<Vec<_>>();

    assert_eq!(delays, vec![5, 10, 20, 40, 80, 160, 300, 300, 300]);
}

#[test]
fn live_end_acknowledgement_retries_without_repeating_completed_work() {
    let mut attempts = 0;
    let mut failed_attempts = 0;
    loop {
        let acknowledged = attempts >= 2;
        attempts += 1;
        match whole::retry_until_douyin_live_end_acknowledged(acknowledged, failed_attempts) {
            None => break,
            Some((failures, _)) => failed_attempts = failures,
        }
    }
    assert_eq!(failed_attempts, 2);
    assert_eq!(attempts, 3);
}

fn file(name: &str, size: u64) -> ArchiveFile {
    ArchiveFile { name: Some(name.to_string()), size }
}

#[test]
fn zero_sized_douyin_playlist_is_repaired_without_deletion() {
    let bytes = b"#EXTM3U\n#EXTINF:1,\nsegment-1.ts\n";
    assert_eq!(playlist::playlist_local_files(bytes, false), vec!["segment-1.ts"]);
    let files = vec![file("playlist.m3u8", bytes.len() as u64), file("segment-1.ts", 5)];
    let state = archive::inspect_douyin_archive(&files, true);
    let (repair, size) = archive::repair_douyin_zero_sized_archive(state);
    assert_eq!(repair, DouyinZeroSizedArchiveRepair::VideoRepaired);
    assert_eq!(size, Some(bytes.len() as u64 + 5));
    assert_eq!(
        archive::record_end_action(0, PlatformType::Douyin, Some(repair), false),
        RecordEndAction::Keep
    );
}

#[test]
fn header_only_douyin_playlist_is_not_promoted_to_video() {
    let bytes = b"#EXTM3U\n#EXT-X-PLAYLIST-TYPE:EVENT\n";
    assert!(playlist::playlist_local_files(bytes, false).is_empty());
    let files = vec![file("playlist.m3u8", bytes.len() as u64)];
    let state = archive::inspect_douyin_archive(&files, false);
    assert_eq!(state, DouyinArchiveDiskState::ValuableDataOnly);
    assert_eq!(archive::douyin_archive_media_size(state), None);
}

#[test]
fn files_of_unknown_kinds_count_as_media() {
    let state = |name: &str, size: u64| archive::inspect_douyin_archive(&vec![file(name, size)], false);
    assert_eq!(state("segment.xyz", 5), DouyinArchiveDiskState::VideoMedia { total_size: 5 });
    assert_eq!(state("segment.xyz", 0), DouyinArchiveDiskState::Empty);
    let unnamed = vec![ArchiveFile { name: None, size: 3 }, file("events.jsonl", 4)];
    assert_eq!(
        archive::inspect_douyin_archive(&unnamed, false),
        DouyinArchiveDiskState::VideoMedia { total_size: 7 }
    );
    for name in ["1.ts", "1.M4S", "entries.log", "cover.jpg", "danmu.txt", "danmu.ass"] {
        assert_eq!(state(name, 5), DouyinArchiveDiskState::ValuableDataOnly);
    }
    assert_eq!(state(".session-parent", 5), DouyinArchiveDiskState::Empty);
    assert_eq!(state("playlist.m3u8.tmp", 5), DouyinArchiveDiskState::Empty);
}

#[test]
fn events_only_douyin_archive_is_preserved_without_fake_video_size() {
    let files = vec![file(".session-parent", 10), file("events.jsonl", 51)];
    let state = archive::inspect_douyin_archive(&files, false);
    let (repair, size) = archive::repair_douyin_zero_sized_archive(state);
    assert_eq!(repair, DouyinZeroSizedArchiveRepair::ValuableDataOnly);
    assert_eq!(size, None);
    assert_eq!(archive::douyin_archive_media_size(state), None);
}

#[test]
fn empty_archives_are_removed_once_the_room_is_offline() {
    let files = vec![file(".session-parent", 10), file("x.tmp", 7), file("events.jsonl", 0)];
    let state = archive::inspect_douyin_archive(&files, false);
    assert_eq!(state, DouyinArchiveDiskState::Empty);
    let empty = Some(DouyinZeroSizedArchiveRepair::Empty);
    assert_eq!(
        archive::record_end_action(0, PlatformType::Douyin, empty, true),
        RecordEndAction::Keep
    );
    assert_eq!(
        archive::record_end_action(0, PlatformType::Douyin, empty, false),
        RecordEndAction::Remove
    );
    assert_eq!(
        archive::record_end_action(0, PlatformType::Douyin, None, false),
        RecordEndAction::Keep
    );
    assert_eq!(
        archive::record_end_action(5, PlatformType::BiliBili, None, false),
        RecordEndAction::Keep
    );
    assert_eq!(
        archive::record_end_action(0, PlatformType::BiliBili, None, false),
        RecordEndAction::Remove
    );
}

#[test]
fn cached_recordings_of_a_session_are_recognised() {
    assert!(archive::is_archive_name("100"));
    assert!(!archive::is_archive_name(".pending-live-ends"));
    assert!(archive::douyin_session_candidate("100", &names(&["200"])));
    assert!(!archive::douyin_session_candidate("200", &names(&["200"])));
    assert!(archive::belongs_to_session(&Some(" s1\n".to_string()), "s1"));
    assert!(!archive::belongs_to_session(&None, "s1"));
}

#[test]
fn resolves_entire_session_without_a_last_archive() {
    let archives = vec![
        record("bilibili", "session-1", "segment-1", 1024),
        record("bilibili", "session-1", "segment-2", 1024),
    ];
    for live_id in ["", "removed-empty-segment"] {
        let ParentLookup::Session(session) =
            whole::parent_lookup(&ended_recorder("session-1", live_id))
        else {
            panic!("expected the session");
        };
        let parent =
            whole::live_end_parent_id(&Some(session), &archives, PlatformType::BiliBili).unwrap();
        assert_eq!(parent, "session-1");
    }
}

#[test]
fn skips_unrecorded_sessions_instead_of_using_another_live() {
    assert!(matches!(whole::parent_lookup(&ended_recorder("", "")), ParentLookup::Nothing));
    let of_session = vec![
        record("douyin", "session-1", "other-platform", 1024),
        record("bilibili", "session-1", "empty-segment", 0),
    ];
    let parent = Some("session-1".to_string());
    assert_eq!(whole::live_end_parent_id(&parent, &of_session, PlatformType::BiliBili), None);
    let unrecorded = Some("unrecorded-session".to_string());
    assert_eq!(whole::live_end_parent_id(&unrecorded, &Vec::new(), PlatformType::BiliBili), None);
}

#[test]
fn supports_recorders_that_only_provide_an_archive_id() {
    assert!(matches!(
        whole::parent_lookup(&ended_recorder("", "segment-1")),
        ParentLookup::Archive(a) if a == "segment-1"
    ));
    let archives = vec![record("douyin", "session-1", "segment-1", 1024)];
    assert_eq!(
        whole::live_end_parent_id(&Some("session-1".to_string()), &archives, PlatformType::Douyin),
        Some("session-1".to_string())
    );
}

#[test]
fn required_danmu_ass_failure_is_not_downgraded_to_none() {
    let live_ids = vec!["douyin-segment-1".to_string(), "douyin-segment-2".to_string()];
    let results =
        vec![Ok("segment-1.ass".to_string()), Err(RecorderManagerError::InvalidLiveID)];

    let error = clips::require_danmu_ass_files(&live_ids, results).err().unwrap();
    match error {
        RecorderManagerError::ArchiveDanmuAssGenerationFailed { error } => {
            assert!(error.contains("douyin-segment-2"));
            assert!(error.contains("Invalid live id"));
        }
        error => panic!("unexpected error: {}", error.to_text()),
    }
}

#[test]
fn chat_files_are_required_for_every_recording() {
    let ids = names(&["1"]);
    let files = clips::require_danmu_ass_files(&ids, vec![Ok("a.ass".to_string())]).ok().unwrap();
    assert_eq!(files, vec![Some("a.ass".to_string())]);
    let error = clips::require_danmu_ass_files(&ids, Vec::new()).err().unwrap();
    assert_eq!(
        error.to_text(),
        "Archive danmu ass generation failed: Archive/danmu result count mismatch: 1 archives, 0 results"
    );
}

#[test]
fn exports_run_until_they_are_acknowledged() {
    let mut run = WholeSessionRun::new();
    assert_eq!(
        run.run_douyin_whole_session_with_retry(WholeEvent::Migrating),
        WholeAction::RetryAfter { seconds: 5 }
    );
    assert_eq!(
        run.run_douyin_whole_session_with_retry(WholeEvent::GenerationFailed),
        WholeAction::RetryAfter { seconds: 10 }
    );
    assert_eq!(
        run.run_douyin_whole_session_with_retry(WholeEvent::Inspected { complete: false }),
        WholeAction::ReadConfig
    );
    assert_eq!(
        run.run_douyin_whole_session_with_retry(WholeEvent::Generated),
        WholeAction::PersistCompletion
    );
    assert_eq!(
        run.run_douyin_whole_session_with_retry(WholeEvent::CompletionPersisted),
        WholeAction::Acknowledge
    );
}

#[test]
fn export_names_are_safe_for_files() {
    assert_eq!(
        whole::douyin_whole_output_name("a/b", "token:1", true),
        "[full][douyin][ab][token1].mp4"
    );
    let long = "x".repeat(200);
    let name = whole::douyin_whole_output_name(&long, &long, false);
    assert_eq!(name.len(), "[full][douyin][][].mp4".len() + 64 + 96);
    assert_eq!(whole::encode_douyin_lifecycle_key("aé"), "61c3a9");
    assert_eq!(
        whole::douyin_whole_completion_path("cache", "r", "a", false),
        "cache/douyin/r/.whole-completions/61"
    );
    assert_eq!(whole::completion_temporary_name("a", "u"), ".61.u.tmp");
}

#[test]
fn completeness_is_judged_by_all_signs() {
    let marker = whole::whole_completion("t", "f.mp4");
    assert_eq!(marker.version, 1);
    assert!(whole::completion_matches(&marker, "t", "f.mp4"));
    assert!(!whole::completion_matches(&marker, "t", "g.mp4"));
    let judge = |exists: bool, registered: bool, marker: FoundCompletion| {
        whole::douyin_whole_session_is_complete(exists, registered, marker, "t", "f.mp4")
    };
    assert!(matches!(
        judge(false, true, FoundCompletion::Missing),
        Ok(Completeness::Incomplete)
    ));
    assert!(matches!(
        judge(true, false, FoundCompletion::Missing),
        Ok(Completeness::Incomplete)
    ));
    assert!(matches!(
        judge(true, true, FoundCompletion::Missing),
        Ok(Completeness::CompleteButUnmarked)
    ));
    assert!(matches!(
        judge(true, true, FoundCompletion::Torn),
        Ok(Completeness::CompleteButUnmarked)
    ));
    assert!(matches!(
        judge(true, true, FoundCompletion::Read(whole::whole_completion("t", "f.mp4"))),
        Ok(Completeness::Complete)
    ));
    assert_eq!(
        judge(true, true, FoundCompletion::Unreadable("io".to_string())).err().unwrap(),
        "failed to read whole-session completion marker: io"
    );
}

fn searched(events: Vec<ResolveEvent>) -> ResolveAction {
    let mut search = ParentSearch::new("r", " s ");
    let mut action = ResolveAction::Ignore;
    for event in events {
        action = search.resolve_douyin_live_end_parent(event);
    }
    action
}

fn answer(events: Vec<ResolveEvent>) -> Result<Option<String>, String> {
    match searched(events) {
        ResolveAction::Answer { result } => result,
        _ => panic!("there is no answer"),
    }
}

#[test]
fn ended_sessions_are_resolved_in_steps() {
    let mut search = ParentSearch::new("r", " s ");
    let mut step = |event: ResolveEvent| search.resolve_douyin_live_end_parent(event);
    assert!(matches!(step(NotFound), ResolveAction::Ignore));
    assert!(matches!(step(Started), ResolveAction::Query));
    assert!(matches!(step(Searched { has_media: false }), ResolveAction::Ignore));
    assert!(matches!(step(NotFound), ResolveAction::CheckMigration));
    assert!(matches!(step(Migration { running: false }), ResolveAction::Lock));
    assert!(matches!(step(Locked), ResolveAction::Query));
    assert!(matches!(step(NotFound), ResolveAction::Reconcile));
    assert!(matches!(step(Reconciled), ResolveAction::Query));
    assert!(matches!(step(NotFound), ResolveAction::Search { session_id } if session_id == "s"));
    assert!(matches!(
        step(Searched { has_media: false }),
        ResolveAction::Answer { result: Ok(None) }
    ));
    assert!(matches!(step(Started), ResolveAction::Ignore));
    assert_eq!(search.stage, ResolveStage::Over);
}

#[test]
fn searches_for_sessions_answer_where_they_end() {
    let found = || Found { parent_id: "p".to_string() };
    let error = || "e".to_string();
    let fails = |events: Vec<ResolveEvent>| answer(events).err().unwrap();
    let waiting = || vec![Started, NotFound, Migration { running: false }, Locked];
    let reconciled = || {
        let mut events = waiting();
        events.extend([NotFound, Reconciled]);
        events
    };
    let with = |mut events: Vec<ResolveEvent>, more: Vec<ResolveEvent>| {
        events.extend(more);
        events
    };
    assert_eq!(answer(vec![Started, found()]), Ok(Some("p".to_string())));
    assert_eq!(answer(with(waiting(), vec![found()])), Ok(Some("p".to_string())));
    assert_eq!(answer(with(reconciled(), vec![found()])), Ok(Some("p".to_string())));
    assert_eq!(
        fails(vec![Started, QueryFailed { error: error() }]),
        "failed to query ended Douyin archives for room r: e"
    );
    assert_eq!(
        fails(vec![Started, NotFound, Migration { running: true }]),
        "cache migration is still in progress"
    );
    assert_eq!(
        fails(with(waiting(), vec![QueryFailed { error: error() }])),
        "failed to re-query ended Douyin archives for room r: e"
    );
    assert_eq!(
        fails(with(waiting(), vec![NotFound, ReconcileFailed { error: error() }])),
        "failed to reconcile Douyin archive cache for room r: e"
    );
    assert_eq!(
        fails(with(reconciled(), vec![QueryFailed { error: error() }])),
        "failed to query reconciled Douyin archives for room r: e"
    );
    assert_eq!(
        fails(with(reconciled(), vec![NotFound, Searched { has_media: true }])),
        "Douyin cache still contains media for session s, but no usable database archive was reconciled"
    );
    assert_eq!(
        fails(with(reconciled(), vec![NotFound, SearchFailed { error: error() }])),
        "failed to inspect Douyin cache for room r: e"
    );
}

#[test]
fn export_attempts_report_their_failures() {
    assert!(whole::attempt_result(AttemptOutcome::Generated).is_ok());
    let text = |o: AttemptOutcome| whole::attempt_result(o).err().unwrap();
    assert_eq!(
        text(AttemptOutcome::TaskFailed("x".to_string())),
        "failed to create whole-session task: x"
    );
    assert_eq!(text(AttemptOutcome::ReporterFailed("x".to_string())), "Failed to create reporter: x");
    assert_eq!(
        text(AttemptOutcome::EnqueueFailed("x".to_string())),
        "Failed to enqueue whole clip task: x"
    );
    assert_eq!(
        text(AttemptOutcome::Dropped),
        "whole-session task ended without reporting a result"
    );
    assert_eq!(
        text(AttemptOutcome::GenerationFailed("x".to_string())),
        "Failed to generate whole clip: x"
    );
    let task = whole::whole_clip_task(
        PlatformType::Douyin,
        "r",
        "p",
        true,
        &Some("o.mp4".to_string()),
    );
    let task: Value = serde_json::from_str(&task).unwrap();
    assert_eq!(task["platform"], "douyin");
    assert_eq!(task["room_id"], "r");
    assert_eq!(task["parent_id"], "p");
    assert_eq!(task["encode_danmu"], true);
    assert_eq!(task["output_name"], "o.mp4");
}

fn attempt() -> WholeClipAttempt {
    WholeClipAttempt::new("r", "p", true, "o.mp4")
}

fn last_step(events: Vec<AttemptEvent>) -> AttemptStep {
    let mut attempt = attempt();
    let mut step = AttemptStep::Ignore;
    for event in events {
        step = attempt.enqueue_douyin_whole_clip_attempt(event);
    }
    step
}

fn finish(events: Vec<AttemptEvent>) -> (bool, bool, bool, String) {
    match last_step(events) {
        AttemptStep::Finish { reported, marked, success, message } => {
            (reported, marked, success, message)
        }
        _ => panic!("the attempt is not over"),
    }
}

#[test]
fn attempts_go_from_the_task_to_the_export() {
    let mut run = attempt();
    match run.enqueue_douyin_whole_clip_attempt(AttemptEvent::Started) {
        AttemptStep::CreateTask { metadata } => {
            let task: Value = serde_json::from_str(&metadata).unwrap();
            assert_eq!(task["platform"], "douyin");
            assert_eq!(task["output_name"], "o.mp4");
        }
        _ => panic!("no task is made"),
    }
    assert!(matches!(
        run.enqueue_douyin_whole_clip_attempt(AttemptEvent::Generated),
        AttemptStep::Ignore
    ));
    assert!(matches!(
        run.enqueue_douyin_whole_clip_attempt(AttemptEvent::TaskCreated),
        AttemptStep::CreateReporter
    ));
    match run.enqueue_douyin_whole_clip_attempt(AttemptEvent::ReporterCreated) {
        AttemptStep::Enqueue { params } => {
            assert_eq!(params.platform, "douyin");
            assert_eq!((params.room_id.as_str(), params.parent_id.as_str()), ("r", "p"));
            assert!(params.encode_danmu);
            assert_eq!(params.selected_live_ids, None);
            assert_eq!(params.output_name, Some("o.mp4".to_string()));
        }
        _ => panic!("nothing is queued"),
    }
    assert_eq!(run.stage, AttemptStage::Running);
}

#[test]
fn tasks_are_marked_when_their_attempts_end() {
    let e = || "x".to_string();
    let running = |last: AttemptEvent| {
        finish(vec![
            AttemptEvent::Started,
            AttemptEvent::TaskCreated,
            AttemptEvent::ReporterCreated,
            last,
        ])
    };
    assert_eq!(
        finish(vec![AttemptEvent::Started, AttemptEvent::TaskFailed { error: e() }]),
        (false, false, false, "failed to create whole-session task: x".to_string())
    );
    assert_eq!(
        finish(vec![
            AttemptEvent::Started,
            AttemptEvent::TaskCreated,
            AttemptEvent::ReporterFailed { error: e() },
        ]),
        (false, true, false, "Failed to create reporter: x".to_string())
    );
    assert_eq!(
        running(AttemptEvent::EnqueueFailed { error: e() }),
        (true, true, false, "Failed to enqueue whole clip task: x".to_string())
    );
    assert_eq!(
        running(AttemptEvent::Generated),
        (true, true, true, "Whole clip generated successfully".to_string())
    );
    assert_eq!(
        running(AttemptEvent::GenerationFailed { error: e() }),
        (true, true, false, "Failed to generate whole clip: x".to_string())
    );
    assert_eq!(
        running(AttemptEvent::Dropped),
        (false, false, false, "whole-session task ended without reporting a result".to_string())
    );
}

const QUIET: NotifyOptions = NotifyOptions { live_start_notify: false, live_end_notify: false };

fn end_event(session: &str) -> RecorderEvent {
    RecorderEvent::LiveEnd {
        platform: PlatformType::Douyin,
        room_id: "r".to_string(),
        recorder: ended_recorder(session, ""),
    }
}

#[test]
fn redelivered_live_ends_have_no_effect() {
    let mut claimed = Vec::new();
    let effects = dispatch::handle_events(&mut claimed, &end_event("s1"), QUIET);
    assert_eq!(effects.len(), 3);
    assert!(matches!(effects[0], Effect::PostWebhook { hook: Hook::LiveEnded }));
    assert!(matches!(effects[1], Effect::HandleLiveEnd));
    assert!(matches!(effects[2], Effect::PassOn));
    assert!(dispatch::handle_events(&mut claimed, &end_event(" s1 "), QUIET).is_empty());
    assert!(dispatch::handle_events(&mut claimed, &end_event("  "), QUIET).is_empty());
    assert_eq!(dispatch::handle_events(&mut claimed, &end_event("s2"), QUIET).len(), 3);
}

#[test]
fn events_lead_to_their_effects() {
    let mut claimed = Vec::new();
    let mut recorder = ended_recorder("p", "l");
    recorder.user_info.user_name = "name".to_string();
    recorder.room_info.room_title = "title".to_string();
    recorder.room_info.platform = "huya".to_string();
    let start = RecorderEvent::LiveStart { recorder: recorder.clone() };
    let loud = NotifyOptions { live_start_notify: true, live_end_notify: true };
    let effects = dispatch::handle_events(&mut claimed, &start, loud);
    assert!(matches!(&effects[1], Effect::Notify { body, .. } if body == "name 开启了直播：title"));
    let begin = RecorderEvent::RecordStart { recorder: recorder.clone() };
    let effects = dispatch::handle_events(&mut claimed, &begin, QUIET);
    assert!(matches!(
        &effects[0],
        Effect::AddRecord { platform: PlatformType::Huya, parent_id, live_id, .. } if parent_id == "p" && live_id == "l"
    ));
    assert!(matches!(effects[1], Effect::PostWebhook { hook: Hook::RecordStarted }));
    let end = RecorderEvent::RecordEnd { recorder: recorder.clone() };
    let effects = dispatch::handle_events(&mut claimed, &end, QUIET);
    assert!(matches!(&effects[1], Effect::CheckRecord { live_id, .. } if live_id == "l"));
    recorder.live_id = String::new();
    let end = RecorderEvent::RecordEnd { recorder };
    assert!(dispatch::handle_events(&mut claimed, &end, QUIET).is_empty());
    let update = RecorderEvent::RecordUpdate { live_id: "l".to_string(), cached_size_bytes: 9 };
    let effects = dispatch::handle_events(&mut claimed, &update, QUIET);
    assert!(matches!(&effects[0], Effect::UpdateRecord { cached_size_bytes: 9, .. }));
    let progress = RecorderEvent::ProgressUpdate { id: "1".to_string(), content: "x".to_string() };
    assert!(matches!(dispatch::handle_events(&mut claimed, &progress, QUIET)[0], Effect::PassOn));
}

#[test]
fn ended_lives_are_exported_where_that_is_wanted() {
    let step = |platform: PlatformType, event: EndedLiveEvent| {
        dispatch::handle_live_end(platform, "r", true, event)
    };
    let reported = |session: &str, auto_generate: bool| EndedLiveEvent::Reported {
        platform_live_id: session.to_string(),
        auto_generate,
    };
    assert!(matches!(
        step(PlatformType::Douyin, reported("s", false)),
        EndedLiveStep::RunExportWithRetry
    ));
    assert!(matches!(step(PlatformType::Douyin, reported(" ", true)), EndedLiveStep::Stop));
    assert!(matches!(step(PlatformType::Huya, reported("s", false)), EndedLiveStep::Stop));
    assert!(matches!(
        step(PlatformType::Huya, reported("s", true)),
        EndedLiveStep::LookUpRecordings
    ));
    let task = step(
        PlatformType::Huya,
        EndedLiveEvent::ParentFound { parent_id: "p".to_string() },
    );
    assert!(matches!(task, EndedLiveStep::CreateTask { metadata }
        if serde_json::from_str::<Value>(&metadata).unwrap()["parent_id"] == "p"));
    let queued = step(
        PlatformType::Huya,
        EndedLiveEvent::ReporterCreated { parent_id: "p".to_string() },
    );
    assert!(matches!(queued, EndedLiveStep::Enqueue { params }
        if params.platform == "huya" && params.parent_id == "p" && params.encode_danmu));
    let failed = step(
        PlatformType::Huya,
        EndedLiveEvent::GenerationFailed { error: "x".to_string() },
    );
    assert!(matches!(failed, EndedLiveStep::FailTask { message, report: true }
        if message == "Failed to generate whole clip: x"));
    assert!(matches!(
        step(PlatformType::Huya, EndedLiveEvent::NoRecordings),
        EndedLiveStep::Acknowledge
    ));
}

fn row(platform: &str, room: &str) -> RecorderRow {
    RecorderRow {
        platform: platform.to_string(),
        room_id: room.to_string(),
        auto_start: true,
        extra: String::new(),
    }
}

#[test]
fn recorders_are_listed_by_room() {
    let mut active = ended_recorder("", "");
    active.room_info.room_id = "20".to_string();
    let rows = Some(vec![row("huya", "30"), row("douyin", "20"), row("douyin", "10")]);
    let list = manager::get_recorder_list(&vec![active.clone()], &rows);
    assert_eq!(list.count, 3);
    let rooms: Vec<String> = list.recorders.iter().map(|r| r.room_info.room_id.clone()).collect();
    assert_eq!(rooms, vec!["10", "20", "30"]);
    let list = manager::get_recorder_list(&vec![active], &None);
    assert_eq!(list.count, 0);
    assert_eq!(list.recorders.len(), 1);
}

#[test]
fn missing_recorders_are_started() {
    let rows = vec![row("huya", "1"), row("huya", "2"), row("huya", "3"), row("huya", "1")];
    let missing = manager::monitor_recorders(&rows, &names(&["huya:2"]), &names(&["huya:3"]));
    assert_eq!(missing, vec![3]);
    assert!(manager::can_start_recorder(PlatformType::Huya, false));
    assert!(!manager::can_start_recorder(PlatformType::Douyin, false));
}

#[test]
fn recorders_are_added_once() {
    let existing = names(&["huya:1"]);
    assert!(matches!(
        manager::add_recorder(PlatformType::Huya, "1", &existing),
        Err(RecorderManagerError::AlreadyExisted { .. })
    ));
    assert_eq!(manager::add_recorder(PlatformType::Huya, "2", &existing).ok().unwrap(), "huya:2");
    assert!(matches!(
        manager::add_recorder(PlatformType::Weibo, "2", &existing),
        Err(RecorderManagerError::InvalidPlatformType { .. })
    ));
    assert_eq!(manager::remove_recorder(PlatformType::Huya, "1", &existing).ok().unwrap(), "huya:1");
    assert!(matches!(
        manager::remove_recorder(PlatformType::Huya, "2", &existing),
        Err(RecorderManagerError::NotFound { .. })
    ));
    assert_eq!(manager::room_added("7").content, "添加了新直播间 7");
    assert_eq!(manager::room_removed("7").content, "移除了直播间 7");
    assert_eq!(
        manager::delete_archives("7", &names(&["a", "b"])).content,
        "删除了房间 7 的历史缓存 a, b"
    );
}

#[test]
fn removed_recorders_are_gone() {
    let mut registry = Registry::new();
    registry.note_added("huya:1");
    registry.note_added("douyin:1");
    registry.note_added("huya:1");
    registry.removing.push("huya:9".to_string());
    assert_eq!(registry.recorders, names(&["huya:1", "douyin:1"]));
    let mut removal = RecorderRemoval::new(PlatformType::Huya, "1", "cache");
    match removal.remove_recorder(&mut registry, RemovalEvent::Asked) {
        RemovalStep::RemoveRow { room_id } => assert_eq!(room_id, "1"),
        _ => panic!("the row stays"),
    }
    assert!(matches!(
        removal.remove_recorder(&mut registry, RemovalEvent::Dropped),
        RemovalStep::Ignore
    ));
    let removed = RemovalEvent::RowRemoved { row: row("huya", "1") };
    match removal.remove_recorder(&mut registry, removed) {
        RemovalStep::Stop { id } => assert_eq!(id, "huya:1"),
        _ => panic!("the recorder is not stopped"),
    }
    assert_eq!(registry.recorders, names(&["huya:1", "douyin:1"]));
    assert_eq!(registry.removing, names(&["huya:9", "huya:1"]));
    match removal.remove_recorder(&mut registry, RemovalEvent::Stopped) {
        RemovalStep::Drop { id } => assert_eq!(id, "huya:1"),
        _ => panic!("the recorder is not dropped"),
    }
    assert_eq!(registry.recorders, names(&["douyin:1"]));
    assert_eq!(registry.removing, names(&["huya:9", "huya:1"]));
    match removal.remove_recorder(&mut registry, RemovalEvent::Dropped) {
        RemovalStep::RemoveFolder { folder } => assert_eq!(folder, "cache/huya/1"),
        _ => panic!("the files stay"),
    }
    assert_eq!(registry.removing, names(&["huya:9"]));
    match removal.remove_recorder(&mut registry, RemovalEvent::FolderRemoved) {
        RemovalStep::Done { row } => {
            assert_eq!((row.platform.as_str(), row.room_id.as_str()), ("huya", "1"));
        }
        _ => panic!("the removal is not done"),
    }
    assert_eq!(removal.stage, RemovalStage::Done);
    registry.note_stopped();
    assert!(registry.recorders.is_empty());
}

#[test]
fn failed_removals_change_nothing() {
    let mut registry = Registry::new();
    registry.note_added("huya:1");
    let mut removal = RecorderRemoval::new(PlatformType::Huya, "2", "cache");
    match removal.remove_recorder(&mut registry, RemovalEvent::Asked) {
        RemovalStep::Fail { error } => assert_eq!(error.to_text(), "Recorder not found: 2"),
        _ => panic!("there is no such recorder"),
    }
    let mut removal = RecorderRemoval::new(PlatformType::Huya, "1", "cache");
    removal.remove_recorder(&mut registry, RemovalEvent::Asked);
    let failed = RemovalEvent::RowFailed { error: "locked".to_string() };
    match removal.remove_recorder(&mut registry, failed) {
        RemovalStep::Fail { error } => assert_eq!(error.to_text(), "Database error: locked"),
        _ => panic!("the row could not be removed"),
    }
    assert_eq!(removal.stage, RemovalStage::Failed);
    assert_eq!(registry.recorders, names(&["huya:1"]));
    assert!(registry.removing.is_empty());
}

#[test]
fn accounts_are_required_where_the_platform_needs_them() {
    assert!(matches!(
        manager::account_choice(PlatformType::Weibo, false),
        Ok(AccountChoice::Anonymous)
    ));
    assert!(matches!(
        manager::account_choice(PlatformType::BiliBili, true),
        Ok(AccountChoice::Stored)
    ));
    let text = |p: PlatformType| manager::account_choice(p, false).err().unwrap().to_text();
    assert_eq!(text(PlatformType::BiliBili), "添加失败: 没有可用账号，请先添加账号");
    assert_eq!(text(PlatformType::Douyin), "没有可用账号，请先添加账号");
    assert_eq!(text(PlatformType::Youtube), "添加失败: 不支持的平台");
}

#[test]
fn errors_have_their_texts() {
    let s = || "x".to_string();
    let cases = vec![
        (RecorderManagerError::AlreadyExisted { room_id: s() }, "Recorder already exists: x"),
        (RecorderManagerError::NotFound { room_id: s() }, "Recorder not found: x"),
        (RecorderManagerError::InvalidPlatformType { platform: s() }, "Invalid platform type: x"),
        (
            RecorderManagerError::RecorderError(RecorderError::NoStreamAvailable),
            "Recorder error: No stream available",
        ),
        (RecorderManagerError::IoError(s()), "IO error: x"),
        (RecorderManagerError::HLSError { err: s() }, "HLS error: x"),
        (RecorderManagerError::DatabaseError(s()), "Database error: x"),
        (RecorderManagerError::Recording { live_id: s() }, "Recording: x"),
        (RecorderManagerError::ClipError { err: s() }, "Clip error: x"),
        (RecorderManagerError::M3u8ParseFailed { content: s() }, "M3u8 parse failed: x"),
        (RecorderManagerError::EmptyPlaylist, "Empty playlist"),
        (RecorderManagerError::SubtitleNotFound { live_id: s() }, "Subtitle not found: x"),
        (
            RecorderManagerError::SubtitleGenerationFailed { error: s() },
            "Subtitle generation failed: x",
        ),
        (RecorderManagerError::InvalidLiveID, "Invalid live id, not timestamp str"),
    ];
    for (error, text) in cases {
        assert_eq!(error.to_text(), text);
    }
    assert!(manager::is_outdated_playlist(&None, "1"));
    let mut current = ended_recorder("session", "1");
    current.recording = true;
    assert!(manager::is_outdated_playlist(&Some(current.clone()), "2"));
    assert!(!manager::is_outdated_playlist(&Some(current.clone()), "1"));
    current.recording = false;
    assert!(manager::is_outdated_playlist(&Some(current), "1"));
    assert!(manager::record_end_platform("nowhere") == PlatformType::BiliBili);
}

#[test]
fn recordings_are_ordered_by_the_time_in_their_names() {
    let records = vec![
        record("douyin", "p", "20", 1),
        record("huya", "p", "1", 1),
        record("douyin", "p", "3", 1),
    ];
    let ordered = clips::order_archives(&records, PlatformType::Douyin);
    let ids: Vec<String> = ordered.iter().map(|r| r.live_id.clone()).collect();
    assert_eq!(ids, vec!["3", "20"]);
    let mut records = vec![record("huya", "p", "b", 1), record("huya", "p", "a", 1)];
    records[0].created_at = "2024".to_string();
    let ordered = clips::order_archives(&records, PlatformType::Huya);
    assert_eq!(ordered[0].live_id, "b");
}

fn on_disk(live: &str, size: i64, has_local_media: bool, has_playlist: bool) -> ArchiveOnDisk {
    ArchiveOnDisk { record: record("douyin", "p", live, size), has_local_media, has_playlist }
}

#[test]
fn only_playable_recordings_are_exported() {
    let archives = vec![
        on_disk("1", 9, true, false),
        on_disk("2", 9, false, true),
        on_disk("3", 0, true, false),
        on_disk("4", 0, true, true),
    ];
    let list = clips::get_related_playlists("cache", PlatformType::Douyin, "r", &archives, false);
    let ids: Vec<String> = list.iter().map(|p| p.live_id.clone()).collect();
    assert_eq!(ids, vec!["1", "4"]);
    assert_eq!(list[0].path, "cache/douyin/r/1/playlist.m3u8");
}

fn related(live: &str) -> RelatedPlaylist {
    RelatedPlaylist { live_id: live.to_string(), title: "t".to_string(), path: live.to_string() }
}

#[test]
fn selected_recordings_keep_their_order() {
    let list = vec![related("1"), related("2"), related("3")];
    let chosen =
        clips::select_playlists(&list, &Some(names(&["3", "9", "1", "3"]))).ok().unwrap();
    let ids: Vec<String> = chosen.iter().map(|p| p.live_id.clone()).collect();
    assert_eq!(ids, vec!["3", "1"]);
    assert_eq!(clips::select_playlists(&list, &None).ok().unwrap().len(), 3);
    assert!(matches!(
        clips::select_playlists(&list, &Some(names(&["9"]))),
        Err(RecorderManagerError::EmptyPlaylist)
    ));
    assert!(matches!(
        clips::select_playlists(&Vec::new(), &None),
        Err(RecorderManagerError::EmptyPlaylist)
    ));
}

#[test]
fn output_names_are_made_safe() {
    let default = clips::default_output_name(PlatformType::Douyin, "r", "p", "20250101", "a/b");
    assert_eq!(default, "[full][Douyin][r][p][20250101]a/b.mp4");
    assert_eq!(
        clips::output_file_name(&None, &default, false),
        "[full][Douyin][r][p][20250101]ab.mp4"
    );
    let given = |s: &str| clips::output_file_name(&Some(s.to_string()), &default, false);
    assert_eq!(given("  "), "[full][Douyin][r][p][20250101]ab.mp4");
    assert_eq!(given(" x/y "), "xy.mp4");
    assert_eq!(given("x.MP4"), "x.MP4");
    assert_eq!(clips::partial_file_name("x.mp4"), ".x.partial.mp4");
    assert_eq!(clips::partial_file_name(".."), ".whole-clip.partial.mp4");
    assert_eq!(clips::whole_clip_body("r", "x.mp4"), "生成了房间 r 的整场切片: x.mp4");
}

#[test]
fn exports_take_their_name_when_they_are_complete() {
    let mut clip = WholeClip::new(PlatformType::Douyin, "r", "x.mp4");
    assert!(matches!(clip.generate_whole_clip(ExportEvent::Installed), ExportAction::Ignore));
    assert!(matches!(clip.generate_whole_clip(ExportEvent::Cleared), ExportAction::Join));
    assert!(matches!(clip.generate_whole_clip(ExportEvent::Joined), ExportAction::Measure));
    assert!(matches!(
        clip.generate_whole_clip(ExportEvent::Measured { len: 12 }),
        ExportAction::Probe
    ));
    assert!(matches!(
        clip.generate_whole_clip(ExportEvent::Probed { length: 7 }),
        ExportAction::Install
    ));
    assert!(matches!(clip.generate_whole_clip(ExportEvent::Installed), ExportAction::Sync));
    assert!(matches!(clip.generate_whole_clip(ExportEvent::Synced), ExportAction::Cover));
    assert!(matches!(
        clip.generate_whole_clip(ExportEvent::Covered { made: true }),
        ExportAction::Sample { drop_cover: false }
    ));
    let sampled = ExportEvent::Sampled { made: false, created_at: "now".to_string() };
    let ExportAction::Store { drop_sample: true, row } = clip.generate_whole_clip(sampled) else {
        panic!("expected a row");
    };
    assert_eq!((row.size, row.length), (12, 7));
    assert_eq!((row.file.as_str(), row.cover.as_str()), ("x.mp4", "x.jpg"));
    assert_eq!(row.platform, "douyin");
    assert!(matches!(clip.generate_whole_clip(ExportEvent::Stored), ExportAction::Announce));
    assert_eq!(clip.stage, Stage::Finished);
}

#[test]
fn failed_exports_leave_nothing_behind() {
    let failing = |events: Vec<ExportEvent>| {
        let mut clip = WholeClip::new(PlatformType::Huya, "r", "x.mp4");
        let mut last = ExportAction::Ignore;
        for event in events {
            last = clip.generate_whole_clip(event);
        }
        match last {
            ExportAction::Fail { drop_partial, drop_output, error } => {
                (drop_partial, drop_output, error.to_text())
            }
            _ => panic!("expected a failure"),
        }
    };
    let e = || "x".to_string();
    assert_eq!(
        failing(vec![ExportEvent::Cleared, ExportEvent::JoinFailed { error: e() }]),
        (true, false, "HLS error: Failed to concat playlists: x".to_string())
    );
    assert_eq!(
        failing(vec![
            ExportEvent::Cleared,
            ExportEvent::Joined,
            ExportEvent::Measured { len: 0 }
        ]),
        (true, false, "Clip error: Generated whole-session file is empty".to_string())
    );
    assert_eq!(
        failing(vec![
            ExportEvent::Cleared,
            ExportEvent::Joined,
            ExportEvent::Measured { len: 5 },
            ExportEvent::Probed { length: 0 }
        ]),
        (
            true,
            false,
            "Clip error: Generated whole-session file has an invalid duration: 0".to_string()
        )
    );
    assert_eq!(
        failing(vec![
            ExportEvent::Cleared,
            ExportEvent::Joined,
            ExportEvent::Measured { len: 1 },
            ExportEvent::InvalidDuration { duration: "NaN".to_string() }
        ])
        .2,
        "Clip error: Generated whole-session file has an invalid duration: NaN"
    );
    assert!(clips::generated_size(u64::MAX).is_err());
}

#[test]
fn requested_exports_are_described() {
    let params = GenerateWholeClipParams {
        encode_danmu: false,
        platform: "douyin".to_string(),
        room_id: "r".to_string(),
        parent_id: "p".to_string(),
        selected_live_ids: Some(names(&["1", "2"])),
        output_name: None,
    };
    let task: Value = serde_json::from_str(&whole_clip::request_task(&params)).unwrap();
    assert_eq!(task["selected_live_ids"][1], "2");
    assert!(task["output_name"].is_null());
    assert_eq!(whole_clip::request_result(Ok(())), (true, "切片生成完成".to_string()));
    assert_eq!(
        whole_clip::request_result(Err(RecorderManagerError::EmptyPlaylist)),
        (false, "切片生成失败: Empty playlist".to_string())
    );
}

fn entry(ts: i64, content: &str) -> DanmuEntry {
    DanmuEntry { ts, content: content.to_string(), user_name: None }
}

fn times(list: &[DanmuEntry]) -> Vec<i64> {
    list.iter().map(|e| e.ts).collect()
}

#[test]
fn chat_follows_the_ranges_of_a_clip() {
    let danmus = vec![entry(0, "a"), entry(1000, "b"), entry(2500, "c"), entry(9000, "d")];
    let first = Range { start_millis: 1000, duration_millis: Some(1500) };
    let second = Range { start_millis: 9000, duration_millis: None };
    assert_eq!(times(&clips::filter_danmus_in_range(&danmus, &first, 100)), vec![100, 1600]);
    let all = clips::clip_danmus(&danmus, &vec![first, second], &vec![0, 1500]);
    assert_eq!(times(&all), vec![0, 1500, -7500, -6500, -5000, 1500]);
    assert_eq!(times(&clips::shift_danmus(&danmus, 500, 1)), vec![-1500, -500, 1000, 7500]);
    assert_eq!(times(&clips::load_relative_danmus(&danmus, Some(1000))), vec![0, 1500, 8000]);
    let late = vec![entry(700, "a"), entry(500, "b")];
    assert_eq!(times(&clips::load_relative_danmus(&late, None)), vec![200, 0]);
}

fn playlist_of(text: &str) -> shadowreplay::playlist::Playlist {
    playlist::parse_media_playlist(text.as_bytes(), "p.m3u8").unwrap()
}

#[test]
fn recordings_start_with_their_first_segment() {
    let start = |text: &str, live: &str| {
        clips::first_segment_timestamp(&playlist_of(text), live).map_err(|e| e.to_text())
    };
    let dated = "#EXTM3U\n#EXT-X-TARGETDURATION:2\n#EXT-X-PROGRAM-DATE-TIME:2025-10-18T17:18:17.004+08:00\n#EXTINF:1.0,\na.ts\n";
    assert_eq!(start(dated, "x"), Ok(1_760_779_097_004));
    let plain = "#EXTM3U\n#EXT-X-TARGETDURATION:2\n#EXTINF:1.0,\na.ts\n";
    assert_eq!(start(plain, "1234"), Ok(1234));
    assert_eq!(start(plain, "x"), Err("Invalid live id, not timestamp str".to_string()));
    assert_eq!(start("#EXTM3U\n#EXT-X-TARGETDURATION:2\n", "1"), Err("Empty playlist".to_string()));
}

fn tagged(value: &str) -> shadowreplay::playlist::Playlist {
    let mut playlist = playlist_of("#EXTM3U\n#EXT-X-TARGETDURATION:2\n#EXTINF:1.0,\na.ts\n");
    playlist.segments[0]
        .unknown_tags
        .push(("X-PROGRAM-DATE-TIME".to_string(), Some(value.to_string())));
    playlist
}

#[test]
fn times_in_tags_are_read_in_both_forms() {
    let read = |v: &str| clips::first_segment_timestamp(&tagged(v), "1").map_err(|e| e.to_text());
    assert_eq!(read("2025-10-18T17:18:17.004+0800"), Ok(1_760_779_097_004));
    assert_eq!(read("2025-10-18T17:18:17.004+08:00"), Ok(1_760_779_097_004));
    let error = read("yesterday").unwrap_err();
    assert!(error.starts_with("HLS error: Invalid X-PROGRAM-DATE-TIME yesterday: "));
    assert_eq!(
        clips::tagged_time("v", None, Err("why".to_string())).err().unwrap().to_text(),
        "HLS error: Invalid X-PROGRAM-DATE-TIME v: why"
    );
    assert_eq!(clips::tagged_time("v", Some(5), Err("why".to_string())).ok(), Some(5));
}

fn clip_params(danmu: bool, fix_encoding: bool, ranges: usize) -> ClipRangeParams {
    ClipRangeParams {
        title: String::new(),
        note: String::new(),
        cover: String::new(),
        platform: "douyin".to_string(),
        room_id: "r".to_string(),
        live_id: "1".to_string(),
        ranges: (0..ranges)
            .map(|_| Range { start_millis: 0, duration_millis: Some(1) })
            .collect(),
        danmu,
        local_offset: 0,
        fix_encoding,
        transition: None,
    }
}

#[test]
fn clips_are_made_step_by_step() {
    let asked = || ClipRangeEvent::Asked { playlist_exists: true };
    assert!(matches!(
        clips::clip_range(&clip_params(false, false, 0), asked()),
        ClipRangeStep::CutWhole
    ));
    assert!(matches!(
        clips::clip_range(&clip_params(false, false, 2), asked()),
        ClipRangeStep::CutRanges
    ));
    let missing = ClipRangeEvent::Asked { playlist_exists: false };
    assert!(matches!(
        clips::clip_range(&clip_params(false, false, 2), missing),
        ClipRangeStep::Fail { error: RecorderManagerError::ClipError { err }, .. } if err == "Playlist file not found"
    ));
    assert!(matches!(
        clips::clip_range(&clip_params(false, true, 2), ClipRangeEvent::Cut),
        ClipRangeStep::Transcode
    ));
    assert!(matches!(
        clips::clip_range(&clip_params(true, true, 2), ClipRangeEvent::Cut),
        ClipRangeStep::WriteChat { platform: PlatformType::Douyin }
    ));
    let mut unknown = clip_params(true, true, 2);
    unknown.platform = "nowhere".to_string();
    assert!(matches!(
        clips::clip_range(&unknown, ClipRangeEvent::Cut),
        ClipRangeStep::Fail { error: RecorderManagerError::InvalidPlatformType { .. }, .. }
    ));
    assert!(matches!(
        clips::clip_range(&clip_params(true, true, 2), ClipRangeEvent::ChatFailed),
        ClipRangeStep::Done { burnt_file: None }
    ));
    let failed = ClipRangeEvent::BurnFailed { error: "x".to_string() };
    assert!(matches!(
        clips::clip_range(&clip_params(true, true, 2), failed),
        ClipRangeStep::Fail { drop_clip: true, .. }
    ));
    assert!(clips::named_platform("nowhere").is_err());
}

#[test]
fn subtitles_are_made_from_audio_for_outside_services() {
    let files = SubtitleFiles::new("cache", PlatformType::Huya, "r", "1", false);
    assert_eq!(files.subtitle, "cache/huya/r/1/subtitle.srt");
    let step = subtitle::generate_archive_subtitle(&files, "powerlive", SubtitleEvent::Clipped);
    let SubtitleStep::ExtractAudio { args } = step else {
        panic!("expected arguments");
    };
    assert_eq!(
        args,
        names(&[
            "-i",
            "cache/huya/r/1/tmp.mp4",
            "-vn",
            "-acodec",
            "libopus",
            "-b:a",
            "128k",
            "-y",
            "cache/huya/r/1/tmp.opus"
        ])
    );
    let step = subtitle::generate_archive_subtitle(&files, "whisper", SubtitleEvent::Clipped);
    assert!(matches!(step, SubtitleStep::Generate { media } if media == files.clip));
    let failed = SubtitleEvent::AudioFailed { error: "x".to_string() };
    let step = subtitle::generate_archive_subtitle(&files, "powerlive", failed);
    assert!(matches!(step, SubtitleStep::Fail { error }
        if error.to_text() == "Subtitle generation failed: Failed to extract opus audio: x"));
    assert!(matches!(
        subtitle::get_archive_subtitle("1"),
        RecorderManagerError::SubtitleNotFound { .. }
    ));
}

fn evidence(playlist_size: Option<u64>, has_local_media: bool, has_danmu: bool) -> ArchiveEvidence {
    ArchiveEvidence {
        has_entries: false,
        playlist_size,
        has_local_media,
        has_danmu,
        directory_size: 50,
    }
}

fn found(live: &str, evidence: ArchiveEvidence, existing: Option<RecordRow>) -> FoundArchive {
    FoundArchive {
        live_id: Some(live.to_string()),
        evidence,
        parent_file: Some("session-parent".to_string()),
        existing,
    }
}

#[test]
fn rebuild_repairs_existing_douyin_parent_from_attempt_marker() {
    let existing = record("douyin", "attempt-1", "attempt-1", 1);
    let list = vec![found("attempt-1", evidence(Some(8), false, false), Some(existing))];
    let plans = migration::try_rebuild_archives(PlatformType::Douyin, &None, &list);
    assert!(matches!(
        &plans[0].row,
        RowAction::Update { new_parent: Some(p), resize: false } if p == "session-parent"
    ));
}

#[test]
fn rebuild_keeps_douyin_danmu_only_attempts_at_zero_video_size() {
    let list = vec![
        found("jsonl-attempt", evidence(None, false, true), None),
        found("legacy-attempt", evidence(None, false, true), None),
        found("empty-attempt", evidence(None, false, false), None),
    ];
    let plans = migration::try_rebuild_archives(PlatformType::Douyin, &None, &list);
    let ids: Vec<String> = plans.iter().map(|p| p.live_id.clone()).collect();
    assert_eq!(ids, vec!["jsonl-attempt", "legacy-attempt"]);
    for plan in &plans {
        assert_eq!(plan.size, RebuiltSize::DataOnly);
        assert!(matches!(&plan.row, RowAction::Create { parent_id, .. } if parent_id == "session-parent"));
    }
}

#[test]
fn rebuild_requires_a_real_douyin_playlist_segment_for_video_size() {
    let real = "#EXTM3U\n#EXT-X-TARGETDURATION:2\n#EXTINF:1.0,\nsegment.ts?token=test\n";
    assert_eq!(playlist::playlist_local_files(real.as_bytes(), false), vec!["segment.ts"]);
    assert!(playlist::playlist_local_files(b"#EXTM3U\n", false).is_empty());
    let list = vec![
        found("header-only", evidence(Some(8), false, false), None),
        found("missing-segment", evidence(Some(60), false, false), None),
        found("real-segment", evidence(Some(70), true, false), None),
    ];
    let plans = migration::try_rebuild_archives(PlatformType::Douyin, &None, &list);
    assert_eq!(plans.len(), 3);
    assert_eq!(plans[0].size, RebuiltSize::DataOnly);
    assert_eq!(plans[1].size, RebuiltSize::DataOnly);
    assert_eq!(plans[2].size, RebuiltSize::Video { size: 70 });
}

#[test]
fn covers_are_taken_out_of_rows() {
    let image: &[u8] = &[0xff, 0xd8, 0x01];
    let text = migration::encode_image(image);
    assert_eq!(text, "/9gB");
    let cover = format!("data:image/jpeg;base64,{text}");
    assert!(matches!(migration::try_convert_live_covers(&cover), InlineCover::Image(b) if b == image));
    assert!(matches!(migration::try_convert_live_covers("http://x"), InlineCover::Address));
    assert!(matches!(migration::try_convert_live_covers("data:none"), InlineCover::Malformed));
    assert!(matches!(
        migration::try_convert_live_covers("data:;base64,!!"),
        InlineCover::Malformed
    ));
    let (picture, name) = migration::try_convert_clip_covers(&cover, "dir/clip.mp4", false);
    assert!(matches!(picture, InlineCover::Image(_)));
    assert_eq!(name, Some("clip.jpg".to_string()));
    assert_eq!(migration::live_cover_address("huya", "r", "1"), "huya/r/1/cover.jpg");
    assert_eq!(
        migration::try_add_parent_id_to_records(&record("huya", "", "1", 0)),
        Some("1".to_string())
    );
    assert_eq!(migration::archived_file_size(&vec![u64::MAX, 1]), u64::MAX);
}

#[test]
fn exported_videos_are_recognised() {
    let video = VideoRow {
        id: 1,
        room_id: "r".to_string(),
        cover: String::new(),
        file: "f.mp4".to_string(),
        note: String::new(),
        length: 1,
        size: 1,
        status: 0,
        bvid: String::new(),
        title: String::new(),
        desc: String::new(),
        tags: String::new(),
        area: 0,
        created_at: String::new(),
        platform: "douyin".to_string(),
    };
    let videos = vec![video];
    assert!(whole::is_registered(&videos, "f.mp4"));
    assert!(!whole::is_registered(&videos, "g.mp4"));
}

#[test]
fn entries_become_a_playlist_once() {
    assert!(migration::try_convert_entry_to_m3u8(true, false, true));
    assert!(!migration::try_convert_entry_to_m3u8(true, true, true));
    assert!(!migration::try_convert_entry_to_m3u8(false, false, true));
    assert!(!migration::try_convert_entry_to_m3u8(true, false, false));
}
