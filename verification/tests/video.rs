//! Playlists, requests of the player, and editing of videos.
use shadowreplay::digits;
use shadowreplay::events::DanmuEntry;
use shadowreplay::export;
use shadowreplay::highlights;
use shadowreplay::hls;
use shadowreplay::hls::HlsRequest;
use shadowreplay::json;
use shadowreplay::json::Json;
use shadowreplay::manager::RecorderManagerError;
use shadowreplay::multi_clip;
use shadowreplay::multi_clip::MultiClipEvent::{Cut, CutFailed, JoinFailed, Joined, Started};
use shadowreplay::multi_clip::{MultiClip, MultiClipEvent, MultiClipStep};
use shadowreplay::paths;
use shadowreplay::platform::PlatformType;
use shadowreplay::playlist;
use shadowreplay::concat::{Concat, ConcatEvent, ConcatStep};
use shadowreplay::playlist::{ConcatRun, InstallStep};
use shadowreplay::rows::{RecordRow, VideoRow};
use shadowreplay::sorting;
use shadowreplay::text;
use shadowreplay::video_editing;
use shadowreplay::video_editing::{
    AudioOutcome, FrameOutcome, MergeEvent, MergeRequest, MergeStep, ProbeOutcome,
};

fn names(list: &[&str]) -> Vec<String> {
    list.iter().map(|s| s.to_string()).collect()
}

#[test]
fn rejects_zero_filled_playlist_without_panicking() {
    let result = playlist::parse_media_playlist(&vec![0; 1024], "recordings/playlist.m3u8");

    assert_eq!(
        result.err().unwrap(),
        "Failed to parse media playlist 'recordings/playlist.m3u8': input is zero-filled (1024 bytes)"
    );
}

#[test]
fn reports_empty_playlist_without_exposing_content() {
    let result = playlist::parse_media_playlist(&[], "empty.m3u8");

    assert_eq!(
        result.err().unwrap(),
        "Failed to parse media playlist 'empty.m3u8': input is empty (0 bytes)"
    );
}

#[test]
fn reports_invalid_playlist_without_exposing_content() {
    let result =
        playlist::parse_media_playlist(b"sensitive invalid playlist content", "invalid.m3u8");

    let error = result.err().unwrap();
    assert_eq!(
        error,
        "Failed to parse media playlist 'invalid.m3u8': invalid playlist syntax (34 bytes)"
    );
    assert!(!error.contains("sensitive"));
}

#[test]
fn parses_map_uri() {
    assert_eq!(
        playlist::parse_map_uri(r#"URI=\"header.m4s\""#),
        Some("header.m4s".to_string())
    );
    assert_eq!(playlist::parse_map_uri("malformed"), None);
}

#[test]
fn replacing_a_processed_segment_is_checked() {
    assert!(playlist::replace_output_file("base.tmp.mp4", "test", Ok(9)).is_ok());
    assert_eq!(
        playlist::replace_output_file("base.tmp.mp4", "test", Ok(0)).unwrap_err(),
        "Processed output 'base.tmp.mp4' is empty after test"
    );
    assert_eq!(
        playlist::install_error(InstallStep::Rename, "o.mp4", "test", "io"),
        "Failed to install processed output 'o.mp4' after test: io"
    );
}

#[test]
fn missing_processed_segment_is_reported_without_removing_the_original() {
    let error = playlist::replace_output_file("base.tmp.mp4", "test", Err("gone".to_string()))
        .unwrap_err();
    assert!(error.contains("is unavailable after test"));
}

#[test]
fn playlist_segment_failure_remains_fatal() {
    let result = playlist::require_playlist_segment::<()>(
        Err("segment file is missing".to_string()),
        1,
        3,
        "douyin/room/live-2/playlist.m3u8",
    );

    let error = result.unwrap_err();
    assert!(error.contains("segment 2/3"));
    assert!(error.contains("douyin/room/live-2/playlist.m3u8"));
    assert!(error.contains("segment file is missing"));
}

#[test]
fn rejects_missing_playlist_or_danmu_entries_before_processing() {
    assert_eq!(
        playlist::concat_playlists_to_video(1, 0).unwrap_err(),
        "Playlist/danmu file count mismatch: 1 playlists, 0 danmu files"
    );
    assert_eq!(
        playlist::concat_playlists_to_video(0, 0).unwrap_err(),
        "No playlists to concatenate"
    );
    assert!(playlist::concat_playlists_to_video(2, 2).is_ok());
}

const PLAYLIST: &str = "#EXTM3U\n#EXT-X-TARGETDURATION:2\n#EXT-X-MAP:URI=\"header.m4s\"\n#EXTINF:1.0,\na.m4s\n#EXTINF:1.0,\nb.m4s\n";

#[test]
fn clips_hold_the_wanted_segments() {
    let list = playlist::parse_media_playlist(PLAYLIST.as_bytes(), "p").unwrap();
    assert_eq!(list.segments.len(), 2);
    let all = playlist::want_all(&list);
    let plan = playlist::clip_from_playlist(&list, "dir", &all, false).ok().unwrap();
    assert_eq!(plan.segments, names(&["dir/a.m4s", "dir/b.m4s"]));
    assert_eq!(plan.header, Some("dir/header.m4s".to_string()));
    let plan = playlist::clip_from_playlist(&list, "dir", &vec![false, true], false).ok().unwrap();
    assert_eq!(plan.segments, names(&["dir/b.m4s"]));
    assert_eq!(
        playlist::clip_from_playlist(&list, "dir", &vec![false, false], false).err().unwrap(),
        "No segments found"
    );
    assert_eq!(playlist::part_file("clip.mp4", 2), "clip.2.mp4");
}

fn clip_after(ranges: usize, events: Vec<MultiClipEvent>) -> MultiClipStep {
    let mut clip = MultiClip::new("clip.mp4", ranges);
    let mut step = MultiClipStep::Ignore;
    for event in events {
        step = multi_clip::clip_multiple_from_playlist(&mut clip, event);
    }
    step
}

#[test]
fn ranges_are_cut_one_by_one_and_joined() {
    let error = || "x".to_string();
    let cut = |events: Vec<MultiClipEvent>| match clip_after(2, events) {
        MultiClipStep::Cut { index, video } => (index, video),
        _ => panic!("no range is cut"),
    };
    assert_eq!(cut(vec![Started]), (0, "clip.0.mp4".to_string()));
    assert_eq!(cut(vec![Started, Cut]), (1, "clip.1.mp4".to_string()));
    match clip_after(2, vec![Started, Cut, Cut]) {
        MultiClipStep::Join { parts } => assert_eq!(parts, names(&["clip.0.mp4", "clip.1.mp4"])),
        _ => panic!("the parts are not joined"),
    }
    match clip_after(2, vec![Started, Cut, Cut, Joined]) {
        MultiClipStep::Done { to_remove } => {
            assert_eq!(to_remove, names(&["clip.0.mp4", "clip.1.mp4"]));
        }
        _ => panic!("the clip is not done"),
    }
    let failed = |events: Vec<MultiClipEvent>| match clip_after(2, events) {
        MultiClipStep::Fail { to_remove, error } => (to_remove, error),
        _ => panic!("the clip did not fail"),
    };
    assert_eq!(failed(vec![Started, CutFailed { error: error() }]), (vec![], error()));
    assert_eq!(
        failed(vec![Started, Cut, CutFailed { error: error() }]),
        (names(&["clip.0.mp4"]), error())
    );
    assert_eq!(
        failed(vec![Started, Cut, Cut, JoinFailed { error: error() }]),
        (vec![], error())
    );
    assert!(matches!(clip_after(2, vec![Joined]), MultiClipStep::Ignore));
    assert!(matches!(clip_after(0, vec![Started]), MultiClipStep::Join { .. }));
}

const EVENT_PLAYLIST: &str = "#EXTM3U\n#EXT-X-VERSION:6\n#EXT-X-TARGETDURATION:4\n#EXT-X-PLAYLIST-TYPE:EVENT\n#EXTINF:2,\na.ts\n#EXTINF:3.5,\nb.ts\n#EXTINF:1,\nc.ts\n";

#[test]
fn players_get_playlists_as_they_stand() {
    let reply = |complete: bool, wanted: Option<Vec<bool>>| {
        String::from_utf8(hls::playlist_reply(EVENT_PLAYLIST.as_bytes(), complete, &wanted).ok().unwrap())
            .unwrap()
    };
    assert_eq!(reply(false, None), EVENT_PLAYLIST);
    let vod = EVENT_PLAYLIST.replace("EVENT", "VOD") + "#EXT-X-ENDLIST\n";
    assert_eq!(reply(true, None), vod);
    assert_eq!(reply(false, Some(vec![true, true, true])), vod);
    let ranged = vod.replace("#EXTINF:2,\na.ts\n", "").replace("#EXTINF:1,\nc.ts\n", "");
    assert_eq!(reply(false, Some(vec![false, true, false])), ranged);
    assert_eq!(reply(true, Some(vec![false, true])), ranged);
}

#[test]
fn players_get_an_error_for_what_is_no_playlist() {
    match hls::playlist_reply(b"no playlist", true, &None) {
        Err(RecorderManagerError::M3u8ParseFailed { content }) => assert_eq!(content, "no playlist"),
        _ => panic!("it is no playlist"),
    }
}

#[test]
fn ranges_of_dates_are_known_by_their_names() {
    let dated = EVENT_PLAYLIST.replace(
        "#EXTINF:3.5",
        "#EXT-X-DATERANGE:ID=\"break\",START-DATE=\"2025-10-18T17:18:17Z\",X-A=\"1\"\n#EXTINF:3.5",
    );
    let list = playlist::parse_media_playlist(dated.as_bytes(), "p").unwrap();
    let ranges: Vec<Option<String>> = list.segments.iter().map(|s| s.date_range.clone()).collect();
    assert_eq!(ranges, vec![None, Some("break".to_string()), None]);
    let reply = hls::playlist_reply(dated.as_bytes(), false, &None).ok().unwrap();
    assert!(String::from_utf8(reply).unwrap().contains("ID=\"break\""));
}

#[test]
fn segments_on_windows_stay_in_the_recording() {
    let local = |uri: &str| playlist::local_segment(uri, true);
    assert_eq!(local("dir\\a.ts?x=1"), Some("dir\\a.ts".to_string()));
    assert_eq!(local("a..b.ts"), Some("a..b.ts".to_string()));
    for uri in ["C:a.ts", "c:\\a.ts", "\\a.ts", "/a.ts", "\\\\server\\share\\a.ts", "..\\a.ts", "a/..\\b.ts"] {
        assert_eq!(local(uri), None);
    }
    assert_eq!(playlist::local_segment("..\\a.ts", false), Some("..\\a.ts".to_string()));
    assert_eq!(playlist::local_segment("C:a.ts", false), Some("C:a.ts".to_string()));
}

#[test]
fn paths_are_joined_as_the_system_does() {
    let unix = |a: &str, b: &str| paths::join(a, b, false);
    assert_eq!(unix("a", "b"), "a/b");
    assert_eq!(unix("a/", "b"), "a/b");
    assert_eq!(unix("", "b"), "b");
    assert_eq!(unix("a", "/b"), "/b");
    assert_eq!(unix("a", "\\b"), "a/\\b");
    let windows = |a: &str, b: &str| paths::join(a, b, true);
    assert_eq!(windows("C:\\a", "b"), "C:\\a\\b");
    assert_eq!(windows("C:\\a\\", "b"), "C:\\a\\b");
    assert_eq!(windows("C:/a/", "b"), "C:/a/b");
    assert_eq!(windows("C:", "b"), "C:b");
    assert_eq!(windows("", "b"), "b");
    assert_eq!(windows("C:\\a", "D:\\b"), "D:\\b");
    assert_eq!(windows("C:\\a", "D:b"), "D:b");
    assert_eq!(windows("C:\\a", "\\b"), "C:\\b");
    assert_eq!(windows("\\\\server\\share\\a", "/b"), "\\\\server\\share/b");
    assert_eq!(windows("a", "\\\\server\\share\\b"), "\\\\server\\share\\b");
    assert_eq!(windows("\\\\?\\C:\\a", "..\\b/./c"), "\\\\?\\C:\\b\\c");
    assert_eq!(windows("\\\\?\\C:\\a", "\\b"), "\\\\?\\C:\\b");
    assert_eq!(windows("\\\\?\\UNC\\server\\share", "b"), "\\\\?\\UNC\\server\\share\\b");
}

#[test]
fn videos_on_windows_keep_their_drive() {
    let resolve = |file: &str| video_editing::resolve_video_path("D:\\out", file, true);
    assert_eq!(resolve("clip.mp4"), "D:\\out\\clip.mp4");
    assert_eq!(resolve("C:\\videos\\clip.mp4"), "C:\\videos\\clip.mp4");
    assert_eq!(resolve("C:/videos/clip.mp4"), "C:/videos/clip.mp4");
    assert_eq!(resolve("\\clip.mp4"), "D:\\clip.mp4");
    assert!(paths::is_absolute("\\\\server\\share", true));
    assert!(!paths::is_absolute("\\clip.mp4", true));
    assert!(!paths::is_absolute("C:clip.mp4", true));
    assert!(!paths::is_absolute("C:\\clip.mp4", false));
    assert_eq!(paths::file_name("C:\\a\\b.mp4", true), Some("b.mp4".to_string()));
    assert_eq!(paths::file_name("C:", true), None);
    assert_eq!(paths::file_name("a\\..", true), None);
    assert_eq!(paths::file_name("a\\b.mp4", false), Some("a\\b.mp4".to_string()));
}

#[test]
fn local_segments_stay_in_the_recording() {
    assert_eq!(playlist::local_segment("a.ts?x=1#y", false), Some("a.ts".to_string()));
    assert_eq!(playlist::local_segment("../a.ts", false), None);
    assert_eq!(playlist::local_segment("/a.ts", false), None);
    assert_eq!(playlist::local_segment("?x", false), None);
    let mut run = ConcatRun::new();
    run.track("a.mp4");
    run.finish_segment("a.mp4");
    assert_eq!(run.segments, names(&["a.mp4"]));
}

#[test]
fn requests_name_a_recording_and_a_range() {
    let ask = |uri: &str| {
        assert!(hls::seconds_are_readable(uri));
        hls::handle_hls_request("cache", uri)
    };
    assert!(matches!(
        ask("douyin/1/2"),
        Err(RecorderManagerError::HLSError { err }) if err == "Invalid hls path"
    ));
    assert!(matches!(
        ask("nowhere/1/2/playlist.m3u8"),
        Err(RecorderManagerError::InvalidPlatformType { .. })
    ));
    let Ok(HlsRequest::Playlist { platform, room_id, live_id, range }) =
        ask("douyin/1/2/playlist.m3u8?start=10&end=20")
    else {
        panic!("expected a playlist");
    };
    assert!(platform == PlatformType::Douyin);
    assert_eq!((room_id.as_str(), live_id.as_str(), range), ("1", "2", Some((10, 20))));
    assert!(matches!(
        ask("douyin/1/2/sub/playlist.m3u8"),
        Ok(HlsRequest::Playlist { range: None, .. })
    ));
    assert!(matches!(
        ask("douyin/1/2/a%7Cb.ts?x"),
        Ok(HlsRequest::Segment { file }) if file == "cache/douyin/1/2/a|b.ts"
    ));
    assert!(!hls::seconds_are_readable("douyin/1/2/playlist.m3u8?start=abc"));
    assert!(!hls::seconds_are_readable("douyin/1/2/playlist.m3u8?start"));
    assert_eq!(export::fetch_hls("http://x/hls/douyin/1"), "douyin/1");
    assert_eq!(hls::segment_reply(Some(vec![1])).ok(), Some(vec![1]));
    assert_eq!(
        hls::segment_reply(None).err().unwrap().to_text(),
        "HLS error: Segment file not found"
    );
}

#[test]
fn playlists_are_loaded() {
    let loaded = hls::load_playlist(&Some(PLAYLIST.as_bytes().to_vec()), true).ok().unwrap();
    assert!(loaded.mark_complete);
    assert_eq!(loaded.playlist.segments[1].uri, "b.m4s");
    assert_eq!(
        hls::load_playlist(&Some(vec![b'n', b'o', 0xff]), true).err().unwrap().to_text(),
        "M3u8 parse failed: no\u{fffd}"
    );
    assert_eq!(
        hls::load_playlist(&None, true).err().unwrap().to_text(),
        "IO error: Playlist file not found"
    );
    assert_eq!(hls::load_danmus(true, true), Some("events.jsonl".to_string()));
    assert_eq!(hls::load_danmus(false, true), Some("danmu.txt".to_string()));
    assert_eq!(hls::load_danmus(false, false), None);
}

#[test]
fn relative_video_paths_are_resolved_from_output_directory() {
    assert_eq!(
        video_editing::resolve_video_path("/configured/output", "clip.mp4", false),
        "/configured/output/clip.mp4"
    );
}

#[test]
fn absolute_video_paths_are_preserved() {
    assert_eq!(
        video_editing::resolve_video_path("/configured/output", "/tmp/clip.mp4", false),
        "/tmp/clip.mp4"
    );
}

#[test]
fn transition_filter_maps_final_video_and_audio_outputs() {
    assert_eq!(
        video_editing::build_transition_filter(&[10, 20], "fade").unwrap(),
        "[0:v][1:v]xfade=transition=fade:duration=1:offset=9[outv];[0:a][1:a]acrossfade=d=1[outa]"
    );
    assert_eq!(
        video_editing::build_transition_filter(&[10, 20, 30], "dissolve").unwrap(),
        "[0:v][1:v]xfade=transition=dissolve:duration=1:offset=9[v1];[0:a][1:a]acrossfade=d=1[a1];[v1][2:v]xfade=transition=dissolve:duration=1:offset=28[outv];[a1][2:a]acrossfade=d=1[outa]"
    );
    assert!(video_editing::build_transition_filter(&[10, 20], "unknown").is_err());
}

#[test]
fn transitions_need_videos_that_are_long_enough() {
    assert_eq!(
        video_editing::build_transition_filter(&[10], "fade").unwrap_err(),
        "At least two videos are required for a transition"
    );
    assert_eq!(
        video_editing::build_transition_filter(&[10, 1], "fade").unwrap_err(),
        "Every video must be longer than the transition duration"
    );
    assert_eq!(
        video_editing::build_transition_filter(&[10, 20], "spin").unwrap_err(),
        "Unsupported transition: spin"
    );
}

fn video(file: &str, length: i64) -> VideoRow {
    VideoRow {
        id: 1,
        room_id: "r".to_string(),
        cover: String::new(),
        file: file.to_string(),
        note: String::new(),
        length,
        size: 1,
        status: 0,
        bvid: String::new(),
        title: String::new(),
        desc: String::new(),
        tags: String::new(),
        area: 0,
        created_at: String::new(),
        platform: "huya".to_string(),
    }
}

fn request(transition: Option<&str>, videos: Vec<VideoRow>) -> MergeRequest {
    MergeRequest {
        videos,
        transition: transition.map(|s| s.to_string()),
        output_title: "t".to_string(),
        output_note: "n".to_string(),
        output_dir: "out".to_string(),
        output_file: "m.mp4".to_string(),
        windows: false,
    }
}

#[test]
fn videos_are_merged_with_and_without_transitions() {
    let plain = request(None, vec![video("it's.mp4", 10), video("b\\c.mp4", 20)]);
    let MergeStep::Join { list } = video_editing::merge_videos(&plain, MergeEvent::Ready) else {
        panic!("expected a list");
    };
    assert_eq!(list, "file 'out/it'\\''s.mp4'\nfile 'out/b\\\\c.mp4'\n");
    assert_eq!(plain.concat_args("l.txt")[5], "l.txt");
    let covered =
        MergeEvent::Covered { made: true, size: 7, created_at: "now".to_string() };
    let MergeStep::Store { drop_cover: false, row } = video_editing::merge_videos(&plain, covered)
    else {
        panic!("expected a row");
    };
    assert_eq!((row.length, row.size), (30, 7));
    assert_eq!((row.cover.as_str(), row.room_id.as_str()), ("m.jpg", "r"));
    let faded = request(Some("fade"), vec![video("a", 10), video("b", 20)]);
    let MergeStep::Blend { args } = video_editing::merge_videos(&faded, MergeEvent::Ready) else {
        panic!("expected arguments");
    };
    assert_eq!(args[..4], names(&["-i", "out/a", "-i", "out/b"]));
    let covered = MergeEvent::Covered { made: false, size: 7, created_at: "now".to_string() };
    let MergeStep::Store { drop_cover: true, row } = video_editing::merge_videos(&faded, covered)
    else {
        panic!("expected a row");
    };
    assert_eq!((row.length, row.cover.as_str()), (29, ""));
}

#[test]
fn merging_reports_its_failures() {
    let plain = request(None, vec![video("a", 10)]);
    let text = |request: &MergeRequest, event: MergeEvent| match video_editing::merge_videos(
        request, event,
    ) {
        MergeStep::Fail { error, .. } => error,
        _ => panic!("expected a failure"),
    };
    let e = || "x".to_string();
    assert_eq!(text(&request(None, Vec::new()), MergeEvent::Ready), "No videos to merge");
    assert_eq!(
        text(&plain, MergeEvent::VideoMissing { id: -3, error: e() }),
        "Failed to get video -3: x"
    );
    assert_eq!(text(&plain, MergeEvent::NotRun { error: e() }), "Failed to run ffmpeg: x");
    assert_eq!(text(&plain, MergeEvent::Failed { error: e() }), "FFmpeg merge failed: x");
    let faded = request(Some("fade"), vec![video("a", 10), video("b", 20)]);
    assert_eq!(
        text(&faded, MergeEvent::Failed { error: e() }),
        "FFmpeg merge with transition failed: x"
    );
    assert!(matches!(
        video_editing::merge_videos(&plain, MergeEvent::StoreFailed { covered: true, error: e() }),
        MergeStep::Fail { drop_output: true, drop_cover: true, .. }
    ));
    assert!(matches!(
        video_editing::merge_videos(&plain, MergeEvent::Stored { id: 4 }),
        MergeStep::Done { id: 4 }
    ));
}

const REPORT: &str = r#"{"format":{"duration":"12.5","size":"1000","bit_rate":"64"},"streams":[{"codec_type":"audio","codec_name":"aac"},{"codec_type":"video","codec_name":"h264","width":1920,"height":1080,"r_frame_rate":"30000/1001"}]}"#;

#[test]
fn reports_on_videos_are_read() {
    let probe = |s: &str| {
        video_editing::get_video_metadata_internal(ProbeOutcome::Report {
            stdout: s.as_bytes().to_vec(),
        })
    };
    let found = probe(REPORT).ok().unwrap();
    assert_eq!(found.duration, Some("12.5".to_string()));
    assert_eq!((found.file_size, found.bitrate), (1000, 64));
    assert_eq!((found.width, found.height), (1920, 1080));
    assert_eq!((found.video_codec.as_str(), found.audio_codec.as_str()), ("h264", "aac"));
    assert_eq!(found.frame_rate, Some(("30000".to_string(), "1001".to_string())));
    assert_eq!(probe("{}").err().unwrap(), "No format info");
    assert_eq!(probe(r#"{"format":{}}"#).err().unwrap(), "No streams");
    assert_eq!(probe(r#"{"format":{},"streams":[]}"#).err().unwrap(), "No video stream found");
    assert!(probe("{").err().unwrap().starts_with("Failed to parse ffprobe output: EOF"));
    let bare = probe(r#"{"format":{},"streams":[{"codec_type":"video"}]}"#).ok().unwrap();
    assert_eq!((bare.video_codec.as_str(), bare.audio_codec.as_str()), ("unknown", "none"));
    let other = |o: ProbeOutcome| video_editing::get_video_metadata_internal(o).err().unwrap();
    assert_eq!(other(ProbeOutcome::NoFile), "Video file not found");
    assert_eq!(other(ProbeOutcome::Failed), "FFprobe failed");
    assert_eq!(
        other(ProbeOutcome::NotRun { error: "x".to_string() }),
        "Failed to run ffprobe: x"
    );
}

#[test]
fn frames_and_sound_are_taken_from_videos() {
    assert_eq!(video_editing::frame_count(0), 1);
    assert_eq!(video_editing::frame_count(7), 7);
    assert_eq!(video_editing::frame_count(99), 10);
    let image = FrameOutcome::Image { bytes: b"abc".to_vec() };
    assert_eq!(video_editing::extract_frame_at_timestamp(image), Ok("YWJj".to_string()));
    let failed = FrameOutcome::Failed { error: "x".to_string() };
    assert_eq!(
        video_editing::extract_frame_at_timestamp(failed),
        Err("FFmpeg failed: x".to_string())
    );
    assert_eq!(video_editing::audio_file_name(-4, "t", "u"), "audio_-4_t_u.mp3");
    assert_eq!(video_editing::merged_file_name("t", "u"), "merged_t_u.mp4");
    let failed = AudioOutcome::Failed { error: "x".to_string() };
    assert_eq!(
        video_editing::extract_video_audio(failed),
        Err(("FFmpeg audio extraction failed: x".to_string(), true))
    );
    assert_eq!(video_editing::sound_args("v", "o").len(), 9);
    assert_eq!(video_editing::probe_args("v")[6], "v");
    assert_eq!(video_editing::get_ffmpeg_path(true), "ffmpeg.exe");
    assert_eq!(video_editing::get_ffprobe_path(false), "ffprobe");
}

#[test]
fn recordings_are_described() {
    let record = RecordRow {
        live_id: "1".to_string(),
        platform: "huya".to_string(),
        parent_id: "p".to_string(),
        room_id: "r".to_string(),
        title: "t".to_string(),
        size: 9,
        created_at: "c".to_string(),
        cover: None,
    };
    let describe = |p: PlatformType, exists: bool| {
        video_editing::get_archive_metadata(&record, p, "cache", exists, &Json::Null, false)
    };
    let report = describe(PlatformType::Huya, true).ok().unwrap();
    assert_eq!(report.get("file_path").unwrap().as_text(), Some("cache/huya/r/1/playlist.m3u8"));
    assert_eq!(report.get("file_size").unwrap().as_u64(), Some(9));
    let report = describe(PlatformType::Huya, false).ok().unwrap();
    assert_eq!(report.get("file_size").unwrap().as_u64(), Some(0));
    assert_eq!(
        describe(PlatformType::Douyin, true).err().unwrap(),
        "Archive platform does not match the request"
    );
}

fn entry(ts: i64, content: &str) -> DanmuEntry {
    DanmuEntry { ts, content: content.to_string(), user_name: None }
}

#[test]
fn dense_chat_is_found() {
    let danmus: Vec<DanmuEntry> =
        ["a", "b", "c", "d", "e", "f", "g", "h"].iter().map(|s| entry(0, s)).collect();
    let indices = vec![7, 2, 7, 7, 7, 7, 2, 7];
    let windows = highlights::analyze_danmu_highlights(&danmus, &indices, 1);
    assert_eq!(windows.len(), 2);
    assert_eq!((windows[0].index, windows[0].comment_count), (2, 2));
    assert_eq!(windows[0].sample_comments, names(&["b", "g"]));
    assert_eq!((windows[1].index, windows[1].comment_count), (7, 6));
    assert_eq!(windows[1].sample_comments, names(&["a", "c", "d", "e", "f"]));
    assert_eq!(highlights::analyze_danmu_highlights(&danmus, &indices, 3).len(), 1);
    assert!(highlights::analyze_danmu_highlights(&Vec::new(), &Vec::new(), 0).is_empty());
}

#[test]
fn words_are_found_in_chat() {
    let danmus = vec![entry(5, "good game"), entry(6, "none"), entry(7, "game over")];
    let found =
        highlights::search_danmu_keywords(&danmus, &names(&["  ", " over ", "game"])).ok().unwrap();
    assert_eq!(found.len(), 2);
    assert_eq!((found[0].ts, found[0].keyword.as_str()), (5, "game"));
    assert_eq!((found[1].ts, found[1].keyword.as_str()), (7, "over"));
    assert_eq!(
        highlights::search_danmu_keywords(&danmus, &names(&[" "])).err().unwrap(),
        "keywords must contain at least one non-empty value"
    );
}

#[test]
fn texts_are_cut_and_joined() {
    assert_eq!(text::trim(" \u{3000}a b\n"), "a b");
    assert_eq!(text::trim_matches("--a-", '-'), "a");
    assert_eq!(text::trim_end_matches("a\r\r", '\r'), "a");
    assert_eq!(text::split_all("a//b", '/'), names(&["a", "", "b"]));
    assert_eq!(text::replace("aXbX", "X", "yy"), "ayybyy");
    assert_eq!(text::join(&names(&["a", "b"]), ", "), "a, b");
    assert_eq!(text::after_last_separator("a/hls/b/hls/c", "/hls/"), "c");
    assert!(text::contains("abc", "bc"));
    assert_eq!(text::to_lower("AbÇ"), "abÇ");
}

#[test]
fn numbers_are_written_and_read() {
    assert_eq!(digits::i64_text(i64::MIN), "-9223372036854775808");
    assert_eq!(digits::i128_text(i128::MIN), "-170141183460469231731687303715884105728");
    assert_eq!(digits::parse_i64("+12"), Some(12));
    assert_eq!(digits::parse_i64("-"), None);
    assert_eq!(digits::parse_i64("9223372036854775808"), None);
    assert_eq!(digits::parse_u64("007"), Some(7));
    assert_eq!(digits::parse_hex("61c3"), Some(vec![0x61, 0xc3]));
    assert_eq!(digits::parse_hex("6"), None);
}

#[test]
fn paths_are_joined_and_named() {
    assert_eq!(paths::join("a/", "b", false), "a/b");
    assert_eq!(paths::join("a", "/b", false), "/b");
    assert_eq!(paths::replace_extension("a.b.mp4", "jpg"), "a.b.jpg");
    assert_eq!(paths::file_stem(".hidden"), Some(".hidden".to_string()));
    assert_eq!(paths::file_name("a/b/./", false), Some("b".to_string()));
    assert_eq!(paths::file_name("a/..", false), None);
    assert_eq!(sorting::sort_texts(&names(&["b", "a"])), names(&["a", "b"]));
    assert_eq!(sorting::drop_repeats(&names(&["a", "b", "b"])), names(&["a", "b"]));
}

#[test]
fn json_is_written_and_read() {
    let json = json::read_json(r#"{"b":[1,-2,1.5,null,true],"a":"x\ny"}"#).unwrap();
    assert_eq!(json.get("a").unwrap().as_text(), Some("x\ny"));
    let items = json.get("b").unwrap().as_array().unwrap();
    assert_eq!((items[0].as_u64(), items[1].as_i64()), (Some(1), Some(-2)));
    assert!(matches!(&items[2], Json::Decimal(s) if s == "1.5"));
    let line = json::write_json(&json);
    assert!(!line.contains('\n'));
    assert_eq!(json::write_json(&json::read_json(&line).unwrap()), line);
    assert!(json::read_json("{").is_err());
}

fn two_playlists() -> Concat {
    Concat::new(
        vec!["a/playlist.m3u8".to_string(), "b/playlist.m3u8".to_string()],
        vec![None, Some("b.ass".to_string())],
        "whole.mp4",
    )
}

#[test]
fn joined_playlists_leave_only_the_output() {
    let mut run = two_playlists();
    match run.concat_playlists_to_video(ConcatEvent::Started) {
        ConcatStep::Extract { playlist, video } => {
            assert_eq!(playlist, "a/playlist.m3u8");
            assert_eq!(video, "whole.0.mp4");
        }
        _ => panic!("the first playlist is made into a video"),
    }
    match run.concat_playlists_to_video(ConcatEvent::Extracted) {
        ConcatStep::Extract { playlist, video } => {
            assert_eq!(playlist, "b/playlist.m3u8");
            assert_eq!(video, "whole.1.mp4");
        }
        _ => panic!("the second playlist follows"),
    }
    match run.concat_playlists_to_video(ConcatEvent::Extracted) {
        ConcatStep::Burn { video, danmu } => {
            assert_eq!(video, "whole.1.mp4");
            assert_eq!(danmu, "b.ass");
        }
        _ => panic!("chat is burnt into the second video"),
    }
    let burnt = ConcatEvent::Burnt { file: "[danmaku]whole.1.mp4".to_string() };
    match run.concat_playlists_to_video(burnt) {
        ConcatStep::Join { segments } => {
            assert_eq!(segments, vec!["whole.0.mp4", "[danmaku]whole.1.mp4"]);
        }
        _ => panic!("the videos are joined"),
    }
    match run.concat_playlists_to_video(ConcatEvent::Joined) {
        ConcatStep::Done { to_remove } => {
            assert_eq!(to_remove, vec!["whole.0.mp4", "whole.1.mp4", "[danmaku]whole.1.mp4"]);
        }
        _ => panic!("the joining is done"),
    }
    assert!(matches!(
        run.concat_playlists_to_video(ConcatEvent::Joined),
        ConcatStep::Ignore
    ));
}

fn failure(step: ConcatStep) -> (Vec<String>, String) {
    match step {
        ConcatStep::Fail { to_remove, error } => (to_remove, error),
        _ => panic!("the joining fails"),
    }
}

#[test]
fn a_failed_playlist_stops_the_joining() {
    let mut run = two_playlists();
    run.concat_playlists_to_video(ConcatEvent::Started);
    run.concat_playlists_to_video(ConcatEvent::Extracted);
    let failed = ConcatEvent::ExtractFailed { error: "gone".to_string() };
    let (to_remove, error) = failure(run.concat_playlists_to_video(failed));
    assert_eq!(to_remove, vec!["whole.0.mp4", "whole.1.mp4"]);
    assert_eq!(
        error,
        "Failed to generate playlist segment 2/2 from 'b/playlist.m3u8': gone"
    );

    let mut run = two_playlists();
    run.concat_playlists_to_video(ConcatEvent::Started);
    run.concat_playlists_to_video(ConcatEvent::Extracted);
    run.concat_playlists_to_video(ConcatEvent::Extracted);
    let failed = ConcatEvent::BurnFailed { error: "disk".to_string() };
    let (to_remove, error) = failure(run.concat_playlists_to_video(failed));
    assert_eq!(to_remove.len(), 3);
    assert_eq!(
        error,
        "Failed to burn danmu for playlist segment 2/2 ('b/playlist.m3u8'): disk"
    );

    let mut run = Concat::new(vec!["a".to_string()], vec![None], "whole.mp4");
    run.concat_playlists_to_video(ConcatEvent::Started);
    run.concat_playlists_to_video(ConcatEvent::Extracted);
    let failed = ConcatEvent::JoinFailed { error: "full".to_string() };
    let (to_remove, error) = failure(run.concat_playlists_to_video(failed));
    assert_eq!(to_remove, vec!["whole.0.mp4"]);
    assert_eq!(error, "Failed to concatenate all 1 playlist segments: full");

    let mut run = Concat::new(vec!["a".to_string()], vec![], "whole.mp4");
    let (to_remove, error) = failure(run.concat_playlists_to_video(ConcatEvent::Started));
    assert!(to_remove.is_empty());
    assert_eq!(error, "Playlist/danmu file count mismatch: 1 playlists, 0 danmu files");
}
