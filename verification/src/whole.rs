//! The export of a whole session after it ended: once per session, again until it succeeds, and
//! acknowledged only when there is nothing left to do.
use vstd::arithmetic::power2::*;
use vstd::prelude::*;
use crate::json;
use crate::json::{Json, JsonView};
use crate::markers;
use crate::paths;
use crate::platform::{PlatformType, RecorderInfo};
use crate::rows::{RecordRow, RecordView, VideoRow, VideoView};
use crate::text;

verus! {

/// Seconds before the first new attempt.
pub const DOUYIN_WHOLE_RETRY_INITIAL_SECS: u64 = 5;

/// Seconds before a new attempt at most.
pub const DOUYIN_WHOLE_RETRY_MAX_SECS: u64 = 300;

/// The directory of markers for exports that are done.
pub const DOUYIN_WHOLE_COMPLETIONS_DIR: &'static str = ".whole-completions";

/// A text's bytes in hexadecimal, for use as a file name.
pub fn encode_douyin_lifecycle_key(value: &str) -> (res: String)
    ensures
        res@ == markers::marker_name(value@),
{
    markers::hex_name(value)
}

/// A name that `sanitize_filename` makes safe for a file, on a system with or without the rules of
/// Windows.
pub uninterp spec fn sanitized(name: Seq<char>, windows: bool) -> Seq<char>;

/// `sanitize_filename::sanitize_with_options` with its usual options but for the system, which the
/// caller names. Slashes are taken out, and nothing puts them in.
#[verifier::external_body]
pub(crate) fn sanitize(name: &str, windows: bool) -> (res: String)
    ensures
        res@ == sanitized(name@, windows),
        !res@.contains('/'),
{
    let options = sanitize_filename::Options { windows, ..sanitize_filename::Options::default() };
    sanitize_filename::sanitize_with_options(name, options)
}

/// At most the first `n` characters of a text.
pub open spec fn first_chars(s: Seq<char>, n: int) -> Seq<char> {
    if s.len() <= n {
        s
    } else {
        s.take(n)
    }
}

fn shorten(s: &str, n: usize) -> (res: String)
    ensures
        res@ == first_chars(s@, n as int),
{
    let chars = text::chars_of(s);
    if chars.len() <= n {
        text::copy(s)
    } else {
        let out = text::text_of(&chars, 0, n);
        assert(out@ =~= s@.take(n as int));
        out
    }
}

/// The name of an export, from names that are safe for files.
pub open spec fn whole_name(room: Seq<char>, incarnation: Seq<char>) -> Seq<char> {
    "[full][douyin]["@ + first_chars(room, 64) + "]["@ + first_chars(incarnation, 96) + "].mp4"@
}

/// The name of an export, from names that are safe for files.
pub fn whole_output_name(room: &str, incarnation: &str) -> (res: String)
    ensures
        res@ == whole_name(room@, incarnation@),
{
    let mut name = text::copy("[full][douyin][");
    let r = shorten(room, 64);
    name.append(r.as_str());
    name.append("][");
    let i = shorten(incarnation, 96);
    name.append(i.as_str());
    name.append("].mp4");
    name
}

/// The name of the export of a session: the same whenever it is asked for, and without slashes.
pub fn douyin_whole_output_name(room_id: &str, incarnation_token: &str, windows: bool) -> (res:
    String)
    ensures
        res@ == whole_name(
            sanitized(room_id@, windows),
            sanitized(incarnation_token@, windows),
        ),
        !res@.contains('/'),
{
    let room = sanitize(room_id, windows);
    let incarnation = sanitize(incarnation_token, windows);
    let name = whole_output_name(room.as_str(), incarnation.as_str());
    proof {
        lemma_whole_name(room@, incarnation@);
    }
    name
}

proof fn lemma_whole_name(room: Seq<char>, incarnation: Seq<char>)
    requires
        !room.contains('/'),
        !incarnation.contains('/'),
    ensures
        !whole_name(room, incarnation).contains('/'),
{
    reveal_strlit("[full][douyin][");
    reveal_strlit("][");
    reveal_strlit("].mp4");
    let a = "[full][douyin]["@;
    let b = first_chars(room, 64);
    let c = "]["@;
    let d = first_chars(incarnation, 96);
    let e = "].mp4"@;
    let name = whole_name(room, incarnation);
    assert forall|i: int| 0 <= i < name.len() implies name[i] != '/' by {
        let n1 = a.len();
        let n2 = n1 + b.len();
        let n3 = n2 + c.len();
        let n4 = n3 + d.len();
        if i < n1 {
            assert(name[i] == a[i]);
        } else if i < n2 {
            assert(name[i] == b[i - n1]);
            assert(b[i - n1] == room[i - n1]);
            assert(room.contains(room[i - n1]));
        } else if i < n3 {
            assert(name[i] == c[i - n2]);
        } else if i < n4 {
            assert(name[i] == d[i - n3]);
            assert(d[i - n3] == incarnation[i - n3]);
            assert(incarnation.contains(incarnation[i - n3]));
        } else {
            assert(name[i] == e[i - n4]);
        }
    }
}

/// The marker for an export that is done.
pub open spec fn completion_path(
    cache_dir: Seq<char>,
    room_id: Seq<char>,
    token: Seq<char>,
    windows: bool,
) -> Seq<char> {
    paths::joined_path(
        paths::joined_path(
            markers::room_dir(cache_dir, room_id, windows),
            DOUYIN_WHOLE_COMPLETIONS_DIR@,
            windows,
        ),
        markers::marker_name(token),
        windows,
    )
}

/// The marker for an export that is done.
pub fn douyin_whole_completion_path(
    cache_dir: &str,
    room_id: &str,
    incarnation_token: &str,
    windows: bool,
) -> (res: String)
    ensures
        res@ == completion_path(cache_dir@, room_id@, incarnation_token@, windows),
{
    let room = markers::room_path(cache_dir, room_id, windows);
    let dir = paths::join(room.as_str(), DOUYIN_WHOLE_COMPLETIONS_DIR, windows);
    let key = encode_douyin_lifecycle_key(incarnation_token);
    paths::join(dir.as_str(), key.as_str(), windows)
}

/// The file that a completion marker is written to before it takes its place.
pub fn completion_temporary_name(incarnation_token: &str, unique: &str) -> (res: String)
    ensures
        res@ == "."@ + markers::marker_name(incarnation_token@) + "."@ + unique@ + ".tmp"@,
{
    let mut name = text::copy(".");
    let key = encode_douyin_lifecycle_key(incarnation_token);
    name.append(key.as_str());
    name.append(".");
    name.append(unique);
    name.append(".tmp");
    name
}

/// Sessions of one room whose names differ have different completion markers.
pub proof fn law_completions_are_kept_apart(
    cache_dir: Seq<char>,
    room_id: Seq<char>,
    a: Seq<char>,
    b: Seq<char>,
    windows: bool,
)
    requires
        completion_path(cache_dir, room_id, a, windows) == completion_path(
            cache_dir,
            room_id,
            b,
            windows,
        ),
    ensures
        a == b,
{
    let dir = paths::joined_path(
        markers::room_dir(cache_dir, room_id, windows),
        DOUYIN_WHOLE_COMPLETIONS_DIR@,
        windows,
    );
    markers::lemma_marker_is_simple(a);
    markers::lemma_marker_is_simple(b);
    if a.len() > 0 && b.len() > 0 {
        paths::lemma_join_injective(
            dir,
            markers::marker_name(a),
            markers::marker_name(b),
            windows,
        );
        markers::law_marker_names_are_unique(a, b);
    } else if a.len() > 0 {
        paths::lemma_join_nothing(dir, markers::marker_name(a), windows);
    } else if b.len() > 0 {
        paths::lemma_join_nothing(dir, markers::marker_name(b), windows);
    } else {
        assert(a =~= b);
    }
}

/// The contents of a completion marker.
pub struct DouyinWholeCompletion {
    pub version: u8,
    pub incarnation_token: String,
    pub output_file: String,
}

/// The completion marker of an export.
pub fn whole_completion(incarnation_token: &str, output_file: &str) -> (res: DouyinWholeCompletion)
    ensures
        res.version == 1,
        res.incarnation_token@ == incarnation_token@,
        res.output_file@ == output_file@,
{
    DouyinWholeCompletion {
        version: 1,
        incarnation_token: text::copy(incarnation_token),
        output_file: text::copy(output_file),
    }
}

/// Whether a completion marker is that of an export.
pub fn completion_matches(
    marker: &DouyinWholeCompletion,
    incarnation_token: &str,
    output_file: &str,
) -> (res: bool)
    ensures
        res == (marker.incarnation_token@ == incarnation_token@ && marker.output_file@
            == output_file@),
{
    text::same(marker.incarnation_token.as_str(), incarnation_token) && text::same(
        marker.output_file.as_str(),
        output_file,
    )
}

/// A session of a room.
pub struct DouyinWholeSessionKey {
    pub room_id: String,
    pub session_id: String,
}

impl DeepView for DouyinWholeSessionKey {
    type V = (Seq<char>, Seq<char>);

    open spec fn deep_view(&self) -> (Seq<char>, Seq<char>) {
        (self.room_id@, self.session_id@)
    }
}

/// Claims the export of a session; a session that was claimed before is refused.
pub fn claim_douyin_whole_session(
    claimed: &mut Vec<DouyinWholeSessionKey>,
    room_id: &str,
    session_id: &str,
) -> (res: bool)
    ensures
        res == !old(claimed).deep_view().contains((room_id@, session_id@)),
        final(claimed).deep_view() == (if res {
            old(claimed).deep_view().push((room_id@, session_id@))
        } else {
            old(claimed).deep_view()
        }),
        old(claimed).deep_view().no_duplicates() ==> final(claimed).deep_view().no_duplicates(),
{
    let ghost all = claimed.deep_view();
    let ghost key = (room_id@, session_id@);
    let mut i: usize = 0;
    while i < claimed.len()
        invariant
            i <= claimed@.len(),
            claimed@ == old(claimed)@,
            all == claimed.deep_view(),
            all == old(claimed).deep_view(),
            key == (room_id@, session_id@),
            forall|j: int| 0 <= j < i ==> #[trigger] all[j] != key,
        decreases claimed@.len() - i,
    {
        assert(all[i as int] == claimed@[i as int].deep_view());
        if text::same(claimed[i].room_id.as_str(), room_id) && text::same(
            claimed[i].session_id.as_str(),
            session_id,
        ) {
            assert(all.contains(key));
            return false;
        }
        i += 1;
    }
    claimed.push(
        DouyinWholeSessionKey { room_id: text::copy(room_id), session_id: text::copy(session_id) },
    );
    assert(claimed.deep_view() =~= all.push(key));
    true
}

/// The wait in seconds before a new attempt: it doubles with each failure, up to a bound.
pub open spec fn retry_delay(failures: nat) -> nat {
    let exponent = if failures <= 1 {
        0
    } else if failures >= 7 {
        6
    } else {
        (failures - 1) as nat
    };
    let secs = DOUYIN_WHOLE_RETRY_INITIAL_SECS as nat * pow2(exponent);
    if secs < DOUYIN_WHOLE_RETRY_MAX_SECS {
        secs
    } else {
        DOUYIN_WHOLE_RETRY_MAX_SECS as nat
    }
}

/// The wait in seconds before a new attempt.
pub fn douyin_whole_retry_delay(failure_count: u32) -> (res: u64)
    ensures
        res == retry_delay(failure_count as nat),
{
    proof {
        lemma2_to64();
    }
    if failure_count <= 1 {
        5
    } else if failure_count == 2 {
        10
    } else if failure_count == 3 {
        20
    } else if failure_count == 4 {
        40
    } else if failure_count == 5 {
        80
    } else if failure_count == 6 {
        160
    } else {
        300
    }
}

/// The wait never shrinks as failures add up, and it stays within its bounds.
pub proof fn law_retries_back_off(a: nat, b: nat)
    requires
        a <= b,
    ensures
        retry_delay(a) <= retry_delay(b),
        DOUYIN_WHOLE_RETRY_INITIAL_SECS <= retry_delay(a) <= DOUYIN_WHOLE_RETRY_MAX_SECS,
{
    lemma2_to64();
}

/// Where an export stands.
pub enum WholeEvent {
    Migrating,
    Ready,
    Inspected { complete: bool },
    InspectionFailed,
    AutoGenerate { enabled: bool },
    ParentFound,
    NoMedia,
    ParentFailed,
    Generated,
    GenerationFailed,
    CompletionPersisted,
    CompletionFailed,
}

/// What is done next for an export.
#[derive(Clone, Copy, Debug, PartialEq, Eq, Structural)]
pub enum WholeAction {
    Inspect,
    ReadConfig,
    ResolveParent,
    Generate,
    PersistCompletion,
    Acknowledge,
    RetryAfter { seconds: u64 },
}

/// What is done next for an export that failed `failures` times so far.
pub open spec fn next_action(event: WholeEvent, failures: nat) -> WholeAction {
    let again = WholeAction::RetryAfter { seconds: retry_delay(failures + 1) as u64 };
    match event {
        WholeEvent::Migrating => again,
        WholeEvent::Ready => WholeAction::Inspect,
        WholeEvent::Inspected { complete } => if complete {
            WholeAction::Acknowledge
        } else {
            WholeAction::ReadConfig
        },
        WholeEvent::InspectionFailed => again,
        WholeEvent::AutoGenerate { enabled } => if enabled {
            WholeAction::ResolveParent
        } else {
            WholeAction::Acknowledge
        },
        WholeEvent::ParentFound => WholeAction::Generate,
        WholeEvent::NoMedia => WholeAction::Acknowledge,
        WholeEvent::ParentFailed => again,
        WholeEvent::Generated => WholeAction::PersistCompletion,
        WholeEvent::GenerationFailed => again,
        WholeEvent::CompletionPersisted => WholeAction::Acknowledge,
        WholeEvent::CompletionFailed => again,
    }
}

/// The number of failures after an event.
pub open spec fn failures_after(event: WholeEvent, failures: nat) -> nat {
    if next_action(event, failures) is RetryAfter && failures < u32::MAX {
        failures + 1
    } else {
        failures
    }
}

/// The export of a session, with the failures so far.
pub struct WholeSessionRun {
    pub failure_count: u32,
}

impl WholeSessionRun {
    /// An export that did not fail yet.
    pub fn new() -> (res: WholeSessionRun)
        ensures
            res.failure_count == 0,
    {
        WholeSessionRun { failure_count: 0 }
    }

    fn retry(&mut self) -> (res: WholeAction)
        ensures
            res == (WholeAction::RetryAfter {
                seconds: retry_delay(old(self).failure_count as nat + 1) as u64,
            }),
            final(self).failure_count == (if old(self).failure_count < u32::MAX {
                old(self).failure_count + 1
            } else {
                u32::MAX as int
            }),
    {
        if self.failure_count < u32::MAX {
            self.failure_count = self.failure_count + 1;
        }
        let seconds = douyin_whole_retry_delay(self.failure_count);
        proof {
            lemma2_to64();
        }
        WholeAction::RetryAfter { seconds }
    }

    /// What is done next for the export: a failure or a migration of the cache makes it start over
    /// after a wait; it is acknowledged when it is done or there is nothing to do.
    pub fn run_douyin_whole_session_with_retry(&mut self, event: WholeEvent) -> (res: WholeAction)
        ensures
            res == next_action(event, old(self).failure_count as nat),
            final(self).failure_count == failures_after(event, old(self).failure_count as nat),
    {
        match event {
            WholeEvent::Migrating => self.retry(),
            WholeEvent::Ready => WholeAction::Inspect,
            WholeEvent::Inspected { complete } => if complete {
                WholeAction::Acknowledge
            } else {
                WholeAction::ReadConfig
            },
            WholeEvent::InspectionFailed => self.retry(),
            WholeEvent::AutoGenerate { enabled } => if enabled {
                WholeAction::ResolveParent
            } else {
                WholeAction::Acknowledge
            },
            WholeEvent::ParentFound => WholeAction::Generate,
            WholeEvent::NoMedia => WholeAction::Acknowledge,
            WholeEvent::ParentFailed => self.retry(),
            WholeEvent::Generated => WholeAction::PersistCompletion,
            WholeEvent::GenerationFailed => self.retry(),
            WholeEvent::CompletionPersisted => WholeAction::Acknowledge,
            WholeEvent::CompletionFailed => self.retry(),
        }
    }
}

/// An export is acknowledged only when it is known to be complete, when it is not wanted, when
/// there is nothing to export, or when its completion was just recorded. No failure leads there.
pub proof fn law_exports_are_acknowledged_only_when_done(event: WholeEvent, failures: nat)
    ensures
        next_action(event, failures) == WholeAction::Acknowledge <==> (event
            == (WholeEvent::Inspected { complete: true }) || event == (WholeEvent::AutoGenerate {
            enabled: false,
        }) || event is NoMedia || event is CompletionPersisted),
        next_action(event, failures) is PersistCompletion <==> event is Generated,
        (event is Migrating || event is InspectionFailed || event is ParentFailed
            || event is GenerationFailed || event is CompletionFailed) <==> next_action(
            event,
            failures,
        ) is RetryAfter,
{
}

/// What is done after an attempt to acknowledge an export: it is over, or it is tried again after
/// a wait. The failures of acknowledging are counted on their own.
pub fn retry_until_douyin_live_end_acknowledged(acknowledged: bool, failure_count: u32) -> (res:
    Option<(u32, u64)>)
    ensures
        acknowledged ==> res is None,
        !acknowledged ==> res == Some(
            (
                if failure_count < u32::MAX {
                    (failure_count + 1) as u32
                } else {
                    u32::MAX
                },
                retry_delay(failure_count as nat + 1) as u64,
            ),
        ),
{
    if acknowledged {
        return None;
    }
    let failures = if failure_count < u32::MAX {
        failure_count + 1
    } else {
        u32::MAX
    };
    proof {
        lemma2_to64();
    }
    Some((failures, douyin_whole_retry_delay(failures)))
}

/// Where the session of an ended live is looked for.
pub enum ParentLookup {
    Session(String),
    Archive(String),
    Nothing,
}

/// Where the session of an ended live is looked for: the recorder knows it, or its last recording
/// does, or nothing does.
pub fn parent_lookup(recorder: &RecorderInfo) -> (res: ParentLookup)
    ensures
        recorder.platform_live_id@.len() > 0 ==> (res matches ParentLookup::Session(s) && s@
            == recorder.platform_live_id@),
        recorder.platform_live_id@.len() == 0 && recorder.live_id@.len() > 0 ==> (
        res matches ParentLookup::Archive(s) && s@ == recorder.live_id@),
        recorder.platform_live_id@.len() == 0 && recorder.live_id@.len() == 0 ==> res is Nothing,
{
    if !text::is_empty(recorder.platform_live_id.as_str()) {
        ParentLookup::Session(text::copy(recorder.platform_live_id.as_str()))
    } else if !text::is_empty(recorder.live_id.as_str()) {
        ParentLookup::Archive(text::copy(recorder.live_id.as_str()))
    } else {
        ParentLookup::Nothing
    }
}

/// Whether a session has a recording of a platform that is not empty.
pub open spec fn has_recording(records: Seq<RecordView>, platform: PlatformType) -> bool {
    exists|i: int|
        0 <= i < records.len() && (#[trigger] records[i]).platform == platform.name()
            && records[i].size > 0
}

/// The session of an ended live, where it has a recording of the platform that is not empty.
pub fn live_end_parent_id(
    parent_id: &Option<String>,
    records: &Vec<RecordRow>,
    platform: PlatformType,
) -> (res: Option<String>)
    ensures
        res.deep_view() == (if has_recording(records.deep_view(), platform) {
            parent_id.deep_view()
        } else {
            None
        }),
{
    let ghost all = records.deep_view();
    let mut i: usize = 0;
    while i < records.len()
        invariant
            i <= records@.len(),
            all == records.deep_view(),
            forall|j: int|
                0 <= j < i ==> !((#[trigger] all[j]).platform == platform.name() && all[j].size
                    > 0),
        decreases records@.len() - i,
    {
        assert(all[i as int] == records@[i as int].deep_view());
        if records[i].size > 0 && text::same(records[i].platform.as_str(), platform.as_str()) {
            return text::copy_option(parent_id);
        }
        i += 1;
    }
    None
}

/// Whether a video of the export stands in the database.
pub open spec fn registered(videos: Seq<VideoView>, output_file: Seq<char>) -> bool {
    exists|i: int|
        0 <= i < videos.len() && (#[trigger] videos[i]).platform == PlatformType::Douyin.name()
            && videos[i].file == output_file
}

/// Whether a video of the export stands in the database.
pub fn is_registered(videos: &Vec<VideoRow>, output_file: &str) -> (res: bool)
    ensures
        res == registered(videos.deep_view(), output_file@),
{
    let ghost all = videos.deep_view();
    let mut i: usize = 0;
    while i < videos.len()
        invariant
            i <= videos@.len(),
            all == videos.deep_view(),
            forall|j: int|
                0 <= j < i ==> !((#[trigger] all[j]).platform == PlatformType::Douyin.name()
                    && all[j].file == output_file@),
        decreases videos@.len() - i,
    {
        assert(all[i as int] == videos@[i as int].deep_view());
        if text::same(videos[i].platform.as_str(), PlatformType::Douyin.as_str()) && text::same(
            videos[i].file.as_str(),
            output_file,
        ) {
            return true;
        }
        i += 1;
    }
    false
}

/// A completion marker as it was found.
pub enum FoundCompletion {
    Missing,
    Unreadable(String),
    Torn,
    Read(DouyinWholeCompletion),
}

/// Whether an export is complete.
pub enum Completeness {
    Incomplete,
    Complete,
    CompleteButUnmarked,
}

/// Whether an export is complete: its file is there and not empty and it stands in the database. A
/// marker that is missing or torn is then written again.
pub fn douyin_whole_session_is_complete(
    output_exists: bool,
    is_registered: bool,
    marker: FoundCompletion,
    incarnation_token: &str,
    output_file: &str,
) -> (res: Result<Completeness, String>)
    ensures
        !(output_exists && is_registered) ==> res matches Ok(Completeness::Incomplete),
        output_exists && is_registered ==> match marker {
            FoundCompletion::Missing => res matches Ok(Completeness::CompleteButUnmarked),
            FoundCompletion::Torn => res matches Ok(Completeness::CompleteButUnmarked),
            FoundCompletion::Unreadable(e) => res matches Err(m) && m@
                == "failed to read whole-session completion marker: "@ + e@,
            FoundCompletion::Read(c) => if c.incarnation_token@ == incarnation_token@
                && c.output_file@ == output_file@ {
                res matches Ok(Completeness::Complete)
            } else {
                res matches Ok(Completeness::CompleteButUnmarked)
            },
        },
{
    if !output_exists || !is_registered {
        return Ok(Completeness::Incomplete);
    }
    match marker {
        FoundCompletion::Missing => Ok(Completeness::CompleteButUnmarked),
        FoundCompletion::Torn => Ok(Completeness::CompleteButUnmarked),
        FoundCompletion::Unreadable(e) => {
            let mut m = text::copy("failed to read whole-session completion marker: ");
            m.append(e.as_str());
            Err(m)
        },
        FoundCompletion::Read(c) => {
            if completion_matches(&c, incarnation_token, output_file) {
                Ok(Completeness::Complete)
            } else {
                Ok(Completeness::CompleteButUnmarked)
            }
        },
    }
}

/// The description of an export task.
pub open spec fn task_record(
    platform: Seq<char>,
    room_id: Seq<char>,
    parent_id: Seq<char>,
    encode_danmu: bool,
    output_name: Option<Seq<char>>,
) -> JsonView {
    let common = seq![
        ("platform"@, JsonView::Text(platform)),
        ("room_id"@, JsonView::Text(room_id)),
        ("parent_id"@, JsonView::Text(parent_id)),
        ("encode_danmu"@, JsonView::Bool(encode_danmu)),
    ];
    JsonView::Object(
        match output_name {
            Some(name) => common.push(("output_name"@, JsonView::Text(name))),
            None => common,
        },
    )
}

/// The description of an export task, as it stands in the task list.
pub fn whole_clip_task(
    platform: PlatformType,
    room_id: &str,
    parent_id: &str,
    encode_danmu: bool,
    output_name: &Option<String>,
) -> (res: String)
    ensures
        res@ == json::json_text(
            task_record(
                platform.name(),
                room_id@,
                parent_id@,
                encode_danmu,
                output_name.deep_view(),
            ),
        ),
{
    let mut members: Vec<(String, Json)> = Vec::new();
    members.push((text::copy("platform"), Json::text(platform.as_str())));
    members.push((text::copy("room_id"), Json::text(room_id)));
    members.push((text::copy("parent_id"), Json::text(parent_id)));
    members.push((text::copy("encode_danmu"), Json::boolean(encode_danmu)));
    if let Some(name) = output_name {
        members.push((text::copy("output_name"), Json::text(name.as_str())));
    }
    let task = Json::Object(members);
    assert(task.deep_view()->Object_0 =~= task_record(
        platform.name(),
        room_id@,
        parent_id@,
        encode_danmu,
        output_name.deep_view(),
    )->Object_0);
    json::write_json(&task)
}

/// What an export attempt came to.
pub enum AttemptOutcome {
    TaskFailed(String),
    ReporterFailed(String),
    EnqueueFailed(String),
    Dropped,
    GenerationFailed(String),
    Generated,
}

/// What is told of an export attempt.
pub open spec fn attempt_message(outcome: AttemptOutcome) -> Seq<char> {
    match outcome {
        AttemptOutcome::TaskFailed(e) => "failed to create whole-session task: "@ + e@,
        AttemptOutcome::ReporterFailed(e) => "Failed to create reporter: "@ + e@,
        AttemptOutcome::EnqueueFailed(e) => "Failed to enqueue whole clip task: "@ + e@,
        AttemptOutcome::Dropped => "whole-session task ended without reporting a result"@,
        AttemptOutcome::GenerationFailed(e) => "Failed to generate whole clip: "@ + e@,
        AttemptOutcome::Generated => "Whole clip generated successfully"@,
    }
}

/// The result of an export attempt.
pub fn attempt_result(outcome: AttemptOutcome) -> (res: Result<(), String>)
    ensures
        match outcome {
            AttemptOutcome::Generated => res is Ok,
            _ => res matches Err(m) && m@ == attempt_message(outcome),
        },
{
    let (what, why) = match outcome {
        AttemptOutcome::TaskFailed(e) => ("failed to create whole-session task: ", e),
        AttemptOutcome::ReporterFailed(e) => ("Failed to create reporter: ", e),
        AttemptOutcome::EnqueueFailed(e) => ("Failed to enqueue whole clip task: ", e),
        AttemptOutcome::Dropped => {
            return Err(text::copy("whole-session task ended without reporting a result"));
        },
        AttemptOutcome::GenerationFailed(e) => ("Failed to generate whole clip: ", e),
        AttemptOutcome::Generated => {
            return Ok(());
        },
    };
    let mut m = text::copy(what);
    m.append(why.as_str());
    Err(m)
}

/// The name of a whole session's video ends as one and stays short: it holds the beginnings of the
/// room's and the session's names. Two sessions of one room whose names differ within their beginnings
/// never share it.
pub proof fn law_whole_videos_have_names_of_their_own(
    room: Seq<char>,
    a: Seq<char>,
    b: Seq<char>,
)
    ensures
        text::ends(whole_name(room, a), ".mp4"@),
        whole_name(room, a).len() <= 15 + 64 + 2 + 96 + 5,
        whole_name(room, a) == whole_name(room, b) ==> first_chars(a, 96) == first_chars(b, 96),
        a.len() <= 96 && b.len() <= 96 && whole_name(room, a) == whole_name(room, b) ==> a == b,
{
    reveal_strlit("[full][douyin][");
    reveal_strlit("][");
    reveal_strlit("].mp4");
    reveal_strlit(".mp4");
    let x = whole_name(room, a);
    let y = whole_name(room, b);
    assert(x.skip(x.len() - 4) =~= ".mp4"@);
    let from = 15 + first_chars(room, 64).len() + 2;
    if x == y {
        assert(first_chars(a, 96).len() == first_chars(b, 96).len());
        assert(x.subrange(from as int, (from + first_chars(a, 96).len()) as int) =~= first_chars(
            a,
            96,
        ));
        assert(y.subrange(from as int, (from + first_chars(a, 96).len()) as int) =~= first_chars(
            b,
            96,
        ));
    }
}

/// The first characters of a text are as many as are asked for, or all of them, and are its beginning.
pub proof fn law_first_characters_begin_the_text(s: Seq<char>, n: nat)
    ensures
        text::begins(s, first_chars(s, n as int)),
        first_chars(s, n as int).len() == (if s.len() < n {
            s.len()
        } else {
            n
        }),
{
    assert(s.take(s.len() as int) =~= s);
}

/// A failed export is tried again after half a minute at first and twice as long each time after, but
/// never after more than half an hour.
pub proof fn law_exports_wait_twice_as_long(failures: nat)
    ensures
        retry_delay(0) == DOUYIN_WHOLE_RETRY_INITIAL_SECS,
        retry_delay(1) == DOUYIN_WHOLE_RETRY_INITIAL_SECS,
        1 <= failures ==> retry_delay(failures + 1) == (if 2 * retry_delay(failures)
            < DOUYIN_WHOLE_RETRY_MAX_SECS {
            2 * retry_delay(failures)
        } else {
            DOUYIN_WHOLE_RETRY_MAX_SECS as nat
        }),
        failures >= 7 ==> retry_delay(failures) == DOUYIN_WHOLE_RETRY_MAX_SECS,
{
    lemma2_to64();
}

/// What follows on each report of an export: a session that is not complete has its settings read, its
/// recordings looked up where exports are wanted, then its video made and noted as done. A failure is
/// counted, and tried again after as long as that many failures ask for; nothing else is counted.
pub proof fn law_exports_go_on_step_by_step(event: WholeEvent, failures: nat)
    ensures
        next_action(event, failures) is Inspect <==> event is Ready,
        next_action(event, failures) is ReadConfig <==> event == (WholeEvent::Inspected {
            complete: false,
        }),
        next_action(event, failures) is ResolveParent <==> event == (WholeEvent::AutoGenerate {
            enabled: true,
        }),
        next_action(event, failures) is Generate <==> event is ParentFound,
        next_action(event, failures) matches WholeAction::RetryAfter { seconds } ==> seconds
            == retry_delay(failures + 1) && (failures < u32::MAX ==> failures_after(event, failures)
            == failures + 1),
        !(next_action(event, failures) is RetryAfter) ==> failures_after(event, failures)
            == failures,
{
    law_retries_back_off(0, failures + 1);
}

/// A session has a recording where some row of its platform has a size, and its video is registered
/// where some video of the platform has its file: one such row is enough, and rows of other platforms
/// do not count.
pub proof fn law_one_row_is_enough(
    records: Seq<RecordView>,
    record: RecordView,
    videos: Seq<VideoView>,
    video: VideoView,
    platform: PlatformType,
    output_file: Seq<char>,
)
    ensures
        has_recording(records.push(record), platform) <==> has_recording(records, platform) || (
        record.platform == platform.name() && record.size > 0),
        !has_recording(Seq::empty(), platform),
        registered(videos.push(video), output_file) <==> registered(videos, output_file) || (
        video.platform == "douyin"@ && video.file == output_file),
        !registered(Seq::empty(), output_file),
{
    let more = records.push(record);
    assert(more[records.len() as int] == record);
    if has_recording(records, platform) {
        let i = choose|i: int|
            0 <= i < records.len() && (#[trigger] records[i]).platform == platform.name()
                && records[i].size > 0;
        assert(more[i] == records[i]);
    }
    if has_recording(more, platform) {
        let i = choose|i: int|
            0 <= i < more.len() && (#[trigger] more[i]).platform == platform.name() && more[i].size
                > 0;
        if i < records.len() {
            assert(more[i] == records[i]);
        }
    }
    let all = videos.push(video);
    assert(all[videos.len() as int] == video);
    if registered(videos, output_file) {
        let i = choose|i: int|
            0 <= i < videos.len() && (#[trigger] videos[i]).platform == PlatformType::Douyin.name()
                && videos[i].file == output_file;
        assert(all[i] == videos[i]);
    }
    if registered(all, output_file) {
        let i = choose|i: int|
            0 <= i < all.len() && (#[trigger] all[i]).platform == PlatformType::Douyin.name()
                && all[i].file == output_file;
        if i < videos.len() {
            assert(all[i] == videos[i]);
        }
    }
}

/// The record of a task tells what it is for, under the names that those who read it look for.
pub proof fn law_tasks_tell_what_they_are_for(
    platform: Seq<char>,
    room_id: Seq<char>,
    parent_id: Seq<char>,
    encode_danmu: bool,
    output_name: Option<Seq<char>>,
)
    ensures
        ({
            let record = task_record(platform, room_id, parent_id, encode_danmu, output_name);
            &&& record.at("platform"@) == JsonView::Text(platform)
            &&& record.at("room_id"@) == JsonView::Text(room_id)
            &&& record.at("parent_id"@) == JsonView::Text(parent_id)
            &&& record.at("encode_danmu"@) == JsonView::Bool(encode_danmu)
            &&& record.at("output_name"@).as_text() == output_name
            &&& record.get("output_name"@) is Some <==> output_name is Some
        }),
{
    reveal_strlit("platform");
    reveal_strlit("room_id");
    reveal_strlit("parent_id");
    reveal_strlit("encode_danmu");
    reveal_strlit("output_name");
    let members = task_record(
        platform,
        room_id,
        parent_id,
        encode_danmu,
        output_name,
    )->Object_0;
    assert(members[0].0.len() == 8 && members[1].0.len() == 7 && members[2].0.len() == 9
        && members[3].0.len() == 12);
    assert(members.len() > 4 ==> members[4].0.len() == 11);
    json::lemma_named_member(members, 0);
    json::lemma_named_member(members, 1);
    json::lemma_named_member(members, 2);
    json::lemma_named_member(members, 3);
    if output_name is Some {
        json::lemma_named_member(members, 4);
    } else {
        json::law_members_are_found_by_name(
            members,
            "output_name"@,
            JsonView::Null,
            Seq::empty(),
        );
    }
}

/// What is told of an attempt that failed ends in its reason.
pub proof fn law_attempts_tell_their_reason(error: String)
    ensures
        text::ends(attempt_message(AttemptOutcome::TaskFailed(error)), error@),
        text::ends(attempt_message(AttemptOutcome::ReporterFailed(error)), error@),
        text::ends(attempt_message(AttemptOutcome::EnqueueFailed(error)), error@),
        text::ends(attempt_message(AttemptOutcome::GenerationFailed(error)), error@),
{
    let a = attempt_message(AttemptOutcome::TaskFailed(error));
    let b = attempt_message(AttemptOutcome::ReporterFailed(error));
    let c = attempt_message(AttemptOutcome::EnqueueFailed(error));
    let d = attempt_message(AttemptOutcome::GenerationFailed(error));
    assert(a.skip(a.len() - error@.len()) =~= error@);
    assert(b.skip(b.len() - error@.len()) =~= error@);
    assert(c.skip(c.len() - error@.len()) =~= error@);
    assert(d.skip(d.len() - error@.len()) =~= error@);
}

/// A failure is counted as far as counting goes.
pub proof fn law_failures_are_counted_to_the_end(event: WholeEvent)
    ensures
        failures_after(event, u32::MAX as nat) == u32::MAX as nat,
{
}

/// An acknowledgement that failed is tried again, later each time, and one that succeeded is not.
pub proof fn law_acknowledgements_are_retried(
    acknowledged: bool,
    failure_count: u32,
    res: Option<(u32, u64)>,
)
    requires
        call_ensures(
            retry_until_douyin_live_end_acknowledged,
            (acknowledged, failure_count),
            res,
        ),
    ensures
        res is None <==> acknowledged,
        !acknowledged && failure_count < u32::MAX ==> (res->0).0 == failure_count + 1,
        !acknowledged ==> (res->0).1 == retry_delay((failure_count + 1) as nat),
{
    law_retries_back_off(0, (failure_count + 1) as nat);
}

/// A session is complete only where its video is there and registered. It is then marked already where
/// a marker of the same session and file was read; a marker that is missing, torn or of another is
/// written anew; and one that cannot be read at all is a failure.
pub proof fn law_complete_sessions_have_their_video(
    output_exists: bool,
    is_registered: bool,
    marker: FoundCompletion,
    incarnation_token: &str,
    output_file: &str,
    res: Result<Completeness, String>,
)
    requires
        call_ensures(
            douyin_whole_session_is_complete,
            (output_exists, is_registered, marker, incarnation_token, output_file),
            res,
        ),
    ensures
        !output_exists || !is_registered ==> res is Ok && res->Ok_0 is Incomplete,
        output_exists && is_registered ==> (res is Err <==> marker is Unreadable),
        output_exists && is_registered && res is Ok ==> !(res->Ok_0 is Incomplete),
        res is Ok && res->Ok_0 is Complete <==> output_exists && is_registered && (
        marker matches FoundCompletion::Read(c) && c.incarnation_token@ == incarnation_token@
            && c.output_file@ == output_file@),
{
}

} // verus!
