//! The export of a whole session into one video: it is made under another name and takes its own
//! only when it is complete.
use vstd::prelude::*;
use crate::clips;
use crate::clips::GenerateWholeClipParams;
use crate::digits;
use crate::json;
use crate::json::{Json, JsonView};
use crate::manager;
use crate::manager::RecorderManagerError;
use crate::paths;
use crate::platform::PlatformType;
use crate::rows;
use crate::rows::{VideoRow, VideoView};
use crate::text;

verus! {

/// How far an export has come.
#[derive(Clone, Copy, Debug, PartialEq, Eq, Structural)]
pub enum Stage {
    /// What an earlier attempt left behind is removed.
    Clearing,
    /// The recordings are joined.
    Joining,
    /// The size of the video is looked up.
    Measuring,
    /// The video is looked into.
    Probing,
    /// The video takes its name.
    Installing,
    /// The directory is made durable.
    Syncing,
    /// A cover is made.
    Covering,
    /// A sample of the audio is made.
    Sampling,
    /// The video is added to the database.
    Storing,
    /// The export is done.
    Finished,
    /// The export failed.
    Failed,
}

/// What happened to an export.
pub enum ExportEvent {
    /// Nothing of an earlier attempt is left.
    Cleared,
    ClearFailed { error: String },
    Joined,
    JoinFailed { error: String },
    Measured { len: u64 },
    MeasureFailed { error: String },
    /// The time for which the video plays, in full seconds. It is no such time below one.
    Probed { length: i64 },
    ProbeFailed { error: String },
    /// The time for which the video plays, as a text, is no such time.
    InvalidDuration { duration: String },
    Installed,
    /// The video did not get its name.
    InstallFailed { error: String },
    /// The file that had the name was to be replaced, and that failed.
    ReplaceFailed { error: String },
    Synced,
    SyncFailed { error: String },
    Covered { made: bool },
    Sampled { made: bool, created_at: String },
    Stored,
    StoreFailed { error: String },
}

/// What is done next for an export.
pub enum ExportAction {
    Join,
    Measure,
    Probe,
    Install,
    Sync,
    Cover,
    /// Make a sample of the audio, after the rest of a failed cover is removed.
    Sample { drop_cover: bool },
    /// Add this row to the database, after the rest of a failed sample is removed.
    Store { drop_sample: bool, row: VideoRow },
    /// Report that the export is done.
    Announce,
    /// Remove files and fail: the video under its other name, or the video with its cover and its
    /// sample.
    Fail { drop_partial: bool, drop_output: bool, error: RecorderManagerError },
    /// The event is not one that was waited for.
    Ignore,
}

/// An event without its details.
#[derive(Clone, Copy, Debug, PartialEq, Eq, Structural)]
pub enum Outcome {
    Cleared,
    Joined,
    /// The video holds something, and its size can be noted.
    Measured,
    Probed,
    Installed,
    Synced,
    Covered,
    Sampled,
    Stored,
    /// The step of this stage failed.
    Failed(Stage),
}

impl ExportEvent {
    /// The event without its details.
    pub open spec fn outcome(self) -> Outcome {
        match self {
            ExportEvent::Cleared => Outcome::Cleared,
            ExportEvent::ClearFailed { error } => Outcome::Failed(Stage::Clearing),
            ExportEvent::Joined => Outcome::Joined,
            ExportEvent::JoinFailed { error } => Outcome::Failed(Stage::Joining),
            ExportEvent::Measured { len } => if 0 < len <= i64::MAX {
                Outcome::Measured
            } else {
                Outcome::Failed(Stage::Measuring)
            },
            ExportEvent::MeasureFailed { error } => Outcome::Failed(Stage::Measuring),
            ExportEvent::Probed { length } => if length > 0 {
                Outcome::Probed
            } else {
                Outcome::Failed(Stage::Probing)
            },
            ExportEvent::ProbeFailed { error } => Outcome::Failed(Stage::Probing),
            ExportEvent::InvalidDuration { duration } => Outcome::Failed(Stage::Probing),
            ExportEvent::Installed => Outcome::Installed,
            ExportEvent::InstallFailed { error } => Outcome::Failed(Stage::Installing),
            ExportEvent::ReplaceFailed { error } => Outcome::Failed(Stage::Installing),
            ExportEvent::Synced => Outcome::Synced,
            ExportEvent::SyncFailed { error } => Outcome::Failed(Stage::Syncing),
            ExportEvent::Covered { made } => Outcome::Covered,
            ExportEvent::Sampled { made, created_at } => Outcome::Sampled,
            ExportEvent::Stored => Outcome::Stored,
            ExportEvent::StoreFailed { error } => Outcome::Failed(Stage::Storing),
        }
    }
}

/// The stage after an event. Events that were not waited for change nothing.
pub open spec fn stage_after(stage: Stage, outcome: Outcome) -> Stage {
    match (stage, outcome) {
        (Stage::Clearing, Outcome::Cleared) => Stage::Joining,
        (Stage::Joining, Outcome::Joined) => Stage::Measuring,
        (Stage::Measuring, Outcome::Measured) => Stage::Probing,
        (Stage::Probing, Outcome::Probed) => Stage::Installing,
        (Stage::Installing, Outcome::Installed) => Stage::Syncing,
        (Stage::Syncing, Outcome::Synced) => Stage::Covering,
        (Stage::Covering, Outcome::Covered) => Stage::Sampling,
        (Stage::Sampling, Outcome::Sampled) => Stage::Storing,
        (Stage::Storing, Outcome::Stored) => Stage::Finished,
        (s, Outcome::Failed(t)) => if s == t && s != Stage::Finished {
            Stage::Failed
        } else {
            s
        },
        (s, _) => s,
    }
}

/// The stage of an export after a number of events.
pub open spec fn stage_over(outcomes: Seq<Outcome>) -> Stage
    decreases outcomes.len(),
{
    if outcomes.len() == 0 {
        Stage::Clearing
    } else {
        stage_after(stage_over(outcomes.drop_last()), outcomes.last())
    }
}

/// The place of a stage in the order of stages; that of a failed export is before all others.
pub open spec fn rank(stage: Stage) -> int {
    match stage {
        Stage::Failed => 0,
        Stage::Clearing => 1,
        Stage::Joining => 2,
        Stage::Measuring => 3,
        Stage::Probing => 4,
        Stage::Installing => 5,
        Stage::Syncing => 6,
        Stage::Covering => 7,
        Stage::Sampling => 8,
        Stage::Storing => 9,
        Stage::Finished => 10,
    }
}

/// A video takes its name only after its recordings were joined, it was found not to be empty, and
/// it was found to play for some time; and an export is done only after all of that, and after its
/// video has its name and stands in the database.
pub proof fn law_only_complete_videos_are_published(outcomes: Seq<Outcome>)
    ensures
        rank(stage_over(outcomes)) >= rank(Stage::Installing) ==> {
            &&& outcomes.contains(Outcome::Joined)
            &&& outcomes.contains(Outcome::Measured)
            &&& outcomes.contains(Outcome::Probed)
        },
        stage_over(outcomes) == Stage::Finished ==> {
            &&& outcomes.contains(Outcome::Installed)
            &&& outcomes.contains(Outcome::Synced)
            &&& outcomes.contains(Outcome::Stored)
        },
{
    lemma_history(outcomes);
}

proof fn lemma_history(outcomes: Seq<Outcome>)
    ensures
        rank(stage_over(outcomes)) >= rank(Stage::Measuring) ==> outcomes.contains(Outcome::Joined),
        rank(stage_over(outcomes)) >= rank(Stage::Probing) ==> outcomes.contains(Outcome::Measured),
        rank(stage_over(outcomes)) >= rank(Stage::Installing) ==> outcomes.contains(
            Outcome::Probed,
        ),
        rank(stage_over(outcomes)) >= rank(Stage::Syncing) ==> outcomes.contains(
            Outcome::Installed,
        ),
        rank(stage_over(outcomes)) >= rank(Stage::Covering) ==> outcomes.contains(Outcome::Synced),
        stage_over(outcomes) == Stage::Finished ==> outcomes.contains(Outcome::Stored),
    decreases outcomes.len(),
{
    if outcomes.len() > 0 {
        let before = outcomes.drop_last();
        lemma_history(before);
        assert forall|o: Outcome| #[trigger] before.contains(o) implies outcomes.contains(o) by {
            let i = choose|i: int| 0 <= i < before.len() && before[i] == o;
            assert(outcomes[i] == o);
        }
        assert(outcomes[outcomes.len() - 1] == outcomes.last());
        assert(outcomes.contains(outcomes.last()));
    }
}

/// An export that failed or is done stays so.
pub proof fn law_a_finished_export_stays(stage: Stage, outcome: Outcome)
    requires
        stage == Stage::Finished || stage == Stage::Failed,
    ensures
        stage_after(stage, outcome) == stage,
{
}

/// The export of a session.
pub struct WholeClip {
    pub platform: PlatformType,
    pub room_id: String,
    pub output_file: String,
    pub stage: Stage,
    pub size: i64,
    pub length: i64,
    pub cover: String,
}

/// The model of the export of a session.
#[verifier::ext_equal]
pub struct WholeClipView {
    pub platform: PlatformType,
    pub room_id: Seq<char>,
    pub output_file: Seq<char>,
    pub stage: Stage,
    pub size: i64,
    pub length: i64,
    pub cover: Seq<char>,
}

impl DeepView for WholeClip {
    type V = WholeClipView;

    open spec fn deep_view(&self) -> WholeClipView {
        WholeClipView {
            platform: self.platform,
            room_id: self.room_id@,
            output_file: self.output_file@,
            stage: self.stage,
            size: self.size,
            length: self.length,
            cover: self.cover@,
        }
    }
}

/// The export after an event.
pub open spec fn export_after(clip: WholeClipView, event: ExportEvent) -> WholeClipView {
    let next = WholeClipView { stage: stage_after(clip.stage, event.outcome()), ..clip };
    match event {
        ExportEvent::Measured { len } => if clip.stage == Stage::Measuring && 0 < len <= i64::MAX {
            WholeClipView { size: len as i64, ..next }
        } else {
            next
        },
        ExportEvent::Probed { length } => if clip.stage == Stage::Probing && length > 0 {
            WholeClipView { length, ..next }
        } else {
            next
        },
        ExportEvent::Covered { made } => if clip.stage == Stage::Covering && made {
            WholeClipView { cover: paths::with_extension(clip.output_file, "jpg"@), ..next }
        } else {
            next
        },
        _ => next,
    }
}

/// Whether an event is one that is waited for in a stage.
pub open spec fn is_awaited(stage: Stage, event: ExportEvent) -> bool {
    match event {
        ExportEvent::Cleared => stage == Stage::Clearing,
        ExportEvent::ClearFailed { error } => stage == Stage::Clearing,
        ExportEvent::Joined => stage == Stage::Joining,
        ExportEvent::JoinFailed { error } => stage == Stage::Joining,
        ExportEvent::Measured { len } => stage == Stage::Measuring,
        ExportEvent::MeasureFailed { error } => stage == Stage::Measuring,
        ExportEvent::Probed { length } => stage == Stage::Probing,
        ExportEvent::ProbeFailed { error } => stage == Stage::Probing,
        ExportEvent::InvalidDuration { duration } => stage == Stage::Probing,
        ExportEvent::Installed => stage == Stage::Installing,
        ExportEvent::InstallFailed { error } => stage == Stage::Installing,
        ExportEvent::ReplaceFailed { error } => stage == Stage::Installing,
        ExportEvent::Synced => stage == Stage::Syncing,
        ExportEvent::SyncFailed { error } => stage == Stage::Syncing,
        ExportEvent::Covered { made } => stage == Stage::Covering,
        ExportEvent::Sampled { made, created_at } => stage == Stage::Sampling,
        ExportEvent::Stored => stage == Stage::Storing,
        ExportEvent::StoreFailed { error } => stage == Stage::Storing,
    }
}

/// Whether an action is to fail with an error of the file system.
pub open spec fn fails_on_disk(action: ExportAction, drop_partial: bool, reason: Seq<char>) -> bool {
    action matches ExportAction::Fail { drop_partial: p, drop_output, error } && p == drop_partial
        && !drop_output && (error matches RecorderManagerError::IoError(e) && e@ == reason)
}

/// Whether an action is to remove the video under its other name and to fail as a clip.
pub open spec fn fails_as_clip(action: ExportAction, reason: Seq<char>) -> bool {
    action matches ExportAction::Fail { drop_partial, drop_output, error } && drop_partial
        && !drop_output && (error matches RecorderManagerError::ClipError { err } && err@ == reason)
}

/// Whether an action is the one that follows an event which was waited for.
pub open spec fn is_action_for(clip: WholeClipView, event: ExportEvent, action: ExportAction) -> bool {
    match event {
        ExportEvent::Cleared => action is Join,
        ExportEvent::ClearFailed { error } => fails_on_disk(action, false, error@),
        ExportEvent::Joined => action is Measure,
        ExportEvent::JoinFailed { error } => action matches ExportAction::Fail {
            drop_partial,
            drop_output,
            error: e,
        } && drop_partial && !drop_output && (e matches RecorderManagerError::HLSError { err }
            && err@ == "Failed to concat playlists: "@ + error@),
        ExportEvent::Measured { len } => if len > i64::MAX {
            fails_as_clip(
                action,
                "Generated file is too large: out of range integral type conversion attempted"@,
            )
        } else if len == 0 {
            fails_as_clip(action, "Generated whole-session file is empty"@)
        } else {
            action is Probe
        },
        ExportEvent::MeasureFailed { error } => fails_on_disk(action, true, error@),
        ExportEvent::Probed { length } => if length > 0 {
            action is Install
        } else {
            fails_as_clip(
                action,
                "Generated whole-session file has an invalid duration: "@ + digits::signed_decimal(
                    length as int,
                ),
            )
        },
        ExportEvent::ProbeFailed { error } => fails_as_clip(
            action,
            "Generated whole-session file failed validation: "@ + error@,
        ),
        ExportEvent::InvalidDuration { duration } => fails_as_clip(
            action,
            "Generated whole-session file has an invalid duration: "@ + duration@,
        ),
        ExportEvent::Installed => action is Sync,
        ExportEvent::InstallFailed { error } => fails_on_disk(action, true, error@),
        ExportEvent::ReplaceFailed { error } => fails_on_disk(action, false, error@),
        ExportEvent::Synced => action is Cover,
        ExportEvent::SyncFailed { error } => fails_on_disk(action, false, error@),
        ExportEvent::Covered { made } => action == (ExportAction::Sample { drop_cover: !made }),
        ExportEvent::Sampled { made, created_at } => action matches ExportAction::Store {
            drop_sample,
            row,
        } && drop_sample == !made && row.deep_view() == (VideoView {
            room_id: clip.room_id,
            cover: clip.cover,
            file: clip.output_file,
            length: clip.length,
            size: clip.size,
            created_at: created_at@,
            platform: clip.platform.name(),
            ..rows::new_video()
        }),
        ExportEvent::Stored => action is Announce,
        ExportEvent::StoreFailed { error } => action matches ExportAction::Fail {
            drop_partial,
            drop_output,
            error: e,
        } && !drop_partial && drop_output && (e matches RecorderManagerError::DatabaseError(m) && m@
            == error@),
    }
}

/// The export after events, one after the other.
pub open spec fn export_over(clip: WholeClipView, events: Seq<ExportEvent>) -> WholeClipView
    decreases events.len(),
{
    if events.len() == 0 {
        clip
    } else {
        export_after(export_over(clip, events.drop_last()), events.last())
    }
}

proof fn lemma_video_is_known(clip: WholeClipView, events: Seq<ExportEvent>)
    requires
        clip.stage == Stage::Clearing,
    ensures
        rank(export_over(clip, events).stage) >= rank(Stage::Probing) ==> export_over(
            clip,
            events,
        ).size > 0,
        rank(export_over(clip, events).stage) >= rank(Stage::Installing) ==> export_over(
            clip,
            events,
        ).length > 0,
    decreases events.len(),
{
    if events.len() > 0 {
        lemma_video_is_known(clip, events.drop_last());
    }
}

/// A video that is added to the database is not empty and plays for some time, and it is the one that
/// was measured: whatever happened to its export before.
pub proof fn law_stored_videos_are_not_empty(
    clip: WholeClipView,
    events: Seq<ExportEvent>,
    event: ExportEvent,
    action: ExportAction,
)
    requires
        clip.stage == Stage::Clearing,
        is_awaited(export_over(clip, events).stage, event),
        is_action_for(export_over(clip, events), event, action),
    ensures
        action matches ExportAction::Store { drop_sample, row } ==> row.deep_view().size > 0
            && row.deep_view().size == export_over(clip, events).size && row.deep_view().length > 0
            && row.deep_view().length == export_over(clip, events).length,
{
    lemma_video_is_known(clip, events);
}

fn disk_failure(drop_partial: bool, error: String) -> (res: ExportAction)
    ensures
        fails_on_disk(res, drop_partial, error@),
{
    ExportAction::Fail {
        drop_partial,
        drop_output: false,
        error: RecorderManagerError::IoError(error),
    }
}

fn clip_failure(err: String) -> (res: ExportAction)
    ensures
        fails_as_clip(res, err@),
{
    ExportAction::Fail {
        drop_partial: true,
        drop_output: false,
        error: RecorderManagerError::ClipError { err },
    }
}

impl WholeClip {
    /// An export that starts.
    pub fn new(platform: PlatformType, room_id: &str, output_file: &str) -> (res: WholeClip)
        ensures
            res.deep_view() == (WholeClipView {
                platform,
                room_id: room_id@,
                output_file: output_file@,
                stage: Stage::Clearing,
                size: 0,
                length: 0,
                cover: Seq::empty(),
            }),
    {
        WholeClip {
            platform,
            room_id: text::copy(room_id),
            output_file: text::copy(output_file),
            stage: Stage::Clearing,
            size: 0,
            length: 0,
            cover: String::new(),
        }
    }

    fn awaits(&self, event: &ExportEvent) -> (res: bool)
        ensures
            res == is_awaited(self.stage, *event),
    {
        match event {
            ExportEvent::Cleared => self.stage == Stage::Clearing,
            ExportEvent::ClearFailed { error } => self.stage == Stage::Clearing,
            ExportEvent::Joined => self.stage == Stage::Joining,
            ExportEvent::JoinFailed { error } => self.stage == Stage::Joining,
            ExportEvent::Measured { len } => self.stage == Stage::Measuring,
            ExportEvent::MeasureFailed { error } => self.stage == Stage::Measuring,
            ExportEvent::Probed { length } => self.stage == Stage::Probing,
            ExportEvent::ProbeFailed { error } => self.stage == Stage::Probing,
            ExportEvent::InvalidDuration { duration } => self.stage == Stage::Probing,
            ExportEvent::Installed => self.stage == Stage::Installing,
            ExportEvent::InstallFailed { error } => self.stage == Stage::Installing,
            ExportEvent::ReplaceFailed { error } => self.stage == Stage::Installing,
            ExportEvent::Synced => self.stage == Stage::Syncing,
            ExportEvent::SyncFailed { error } => self.stage == Stage::Syncing,
            ExportEvent::Covered { made } => self.stage == Stage::Covering,
            ExportEvent::Sampled { made, created_at } => self.stage == Stage::Sampling,
            ExportEvent::Stored => self.stage == Stage::Storing,
            ExportEvent::StoreFailed { error } => self.stage == Stage::Storing,
        }
    }

    /// What is done next for the export. Every failure before the video has its name leaves nothing
    /// under that name; a failure after that leaves no row in the database.
    pub fn generate_whole_clip(&mut self, event: ExportEvent) -> (res: ExportAction)
        ensures
            final(self).deep_view() == export_after(old(self).deep_view(), event),
            is_awaited(old(self).stage, event) ==> is_action_for(
                old(self).deep_view(),
                event,
                res,
            ),
            !is_awaited(old(self).stage, event) ==> res is Ignore,
    {
        if !self.awaits(&event) {
            return ExportAction::Ignore;
        }
        match event {
            ExportEvent::Cleared => {
                self.stage = Stage::Joining;
                ExportAction::Join
            },
            ExportEvent::ClearFailed { error } => {
                self.stage = Stage::Failed;
                disk_failure(false, error)
            },
            ExportEvent::Joined => {
                self.stage = Stage::Measuring;
                ExportAction::Measure
            },
            ExportEvent::JoinFailed { error } => {
                self.stage = Stage::Failed;
                ExportAction::Fail {
                    drop_partial: true,
                    drop_output: false,
                    error: RecorderManagerError::HLSError {
                        err: manager::labelled("Failed to concat playlists: ", error.as_str()),
                    },
                }
            },
            ExportEvent::Measured { len } => {
                match clips::generated_size(len) {
                    Ok(size) => {
                        self.stage = Stage::Probing;
                        self.size = size;
                        ExportAction::Probe
                    },
                    Err(error) => {
                        self.stage = Stage::Failed;
                        ExportAction::Fail { drop_partial: true, drop_output: false, error }
                    },
                }
            },
            ExportEvent::MeasureFailed { error } => {
                self.stage = Stage::Failed;
                disk_failure(true, error)
            },
            ExportEvent::Probed { length } => {
                if length > 0 {
                    self.stage = Stage::Installing;
                    self.length = length;
                    ExportAction::Install
                } else {
                    self.stage = Stage::Failed;
                    let duration = digits::i64_text(length);
                    clip_failure(
                        manager::labelled(
                            "Generated whole-session file has an invalid duration: ",
                            duration.as_str(),
                        ),
                    )
                }
            },
            ExportEvent::ProbeFailed { error } => {
                self.stage = Stage::Failed;
                clip_failure(
                    manager::labelled(
                        "Generated whole-session file failed validation: ",
                        error.as_str(),
                    ),
                )
            },
            ExportEvent::InvalidDuration { duration } => {
                self.stage = Stage::Failed;
                clip_failure(
                    manager::labelled(
                        "Generated whole-session file has an invalid duration: ",
                        duration.as_str(),
                    ),
                )
            },
            ExportEvent::Installed => {
                self.stage = Stage::Syncing;
                ExportAction::Sync
            },
            ExportEvent::InstallFailed { error } => {
                self.stage = Stage::Failed;
                disk_failure(true, error)
            },
            ExportEvent::ReplaceFailed { error } => {
                self.stage = Stage::Failed;
                disk_failure(false, error)
            },
            ExportEvent::Synced => {
                self.stage = Stage::Covering;
                ExportAction::Cover
            },
            ExportEvent::SyncFailed { error } => {
                self.stage = Stage::Failed;
                disk_failure(false, error)
            },
            ExportEvent::Covered { made } => {
                self.stage = Stage::Sampling;
                if made {
                    self.cover = paths::replace_extension(self.output_file.as_str(), "jpg");
                }
                ExportAction::Sample { drop_cover: !made }
            },
            ExportEvent::Sampled { made, created_at } => {
                self.stage = Stage::Storing;
                let row = clips::whole_clip_row(
                    self.room_id.as_str(),
                    self.cover.as_str(),
                    self.output_file.as_str(),
                    self.length,
                    self.size,
                    created_at.as_str(),
                    self.platform,
                );
                ExportAction::Store { drop_sample: !made, row }
            },
            ExportEvent::Stored => {
                self.stage = Stage::Finished;
                ExportAction::Announce
            },
            ExportEvent::StoreFailed { error } => {
                self.stage = Stage::Failed;
                ExportAction::Fail {
                    drop_partial: false,
                    drop_output: true,
                    error: RecorderManagerError::DatabaseError(error),
                }
            },
        }
    }
}

/// The description of a requested export.
pub open spec fn request_record(params: GenerateWholeClipParams) -> JsonView {
    JsonView::Object(
        seq![
            ("platform"@, JsonView::Text(params.platform@)),
            ("room_id"@, JsonView::Text(params.room_id@)),
            ("parent_id"@, JsonView::Text(params.parent_id@)),
            ("encode_danmu"@, JsonView::Bool(params.encode_danmu)),
            (
                "selected_live_ids"@,
                match params.selected_live_ids.deep_view() {
                    Some(ids) => JsonView::Array(
                        ids.map_values(|id: Seq<char>| JsonView::Text(id)),
                    ),
                    None => JsonView::Null,
                },
            ),
            ("output_name"@, json::optional_text(params.output_name.deep_view())),
        ],
    )
}

fn text_array(list: &Vec<String>) -> (res: Json)
    ensures
        res.deep_view() == JsonView::Array(
            list.deep_view().map_values(|id: Seq<char>| JsonView::Text(id)),
        ),
{
    let mut items: Vec<Json> = Vec::new();
    let mut i: usize = 0;
    while i < list.len()
        invariant
            i <= list@.len(),
            items@.len() == i,
            forall|j: int|
                0 <= j < i ==> (#[trigger] items@[j]).deep_view() == JsonView::Text(list@[j]@),
        decreases list@.len() - i,
    {
        items.push(Json::text(list[i].as_str()));
        i += 1;
    }
    let json = Json::Array(items);
    assert(json.deep_view()->Array_0 =~= list.deep_view().map_values(
        |id: Seq<char>| JsonView::Text(id),
    ));
    json
}

/// The description of a requested export, as it stands in the task list.
pub fn request_task(params: &GenerateWholeClipParams) -> (res: String)
    ensures
        res@ == json::json_text(request_record(*params)),
{
    let mut members: Vec<(String, Json)> = Vec::new();
    members.push((text::copy("platform"), Json::text(params.platform.as_str())));
    members.push((text::copy("room_id"), Json::text(params.room_id.as_str())));
    members.push((text::copy("parent_id"), Json::text(params.parent_id.as_str())));
    members.push((text::copy("encode_danmu"), Json::boolean(params.encode_danmu)));
    let selected = match &params.selected_live_ids {
        Some(ids) => text_array(ids),
        None => Json::null(),
    };
    members.push((text::copy("selected_live_ids"), selected));
    members.push((text::copy("output_name"), Json::optional(&params.output_name)));
    let task = Json::Object(members);
    assert(task.deep_view()->Object_0 =~= request_record(*params)->Object_0);
    json::write_json(&task)
}

/// The text with which a requested export ends, and whether it is there.
pub fn request_result(result: Result<(), RecorderManagerError>) -> (res: (bool, String))
    ensures
        match result {
            Ok(_) => res.0 && res.1@ == "切片生成完成"@,
            Err(e) => !res.0 && res.1@ == "切片生成失败: "@ + e.text(),
        },
{
    match result {
        Ok(_) => (true, text::copy("切片生成完成")),
        Err(e) => {
            let reason = e.to_text();
            (false, manager::labelled("切片生成失败: ", reason.as_str()))
        },
    }
}

/// An export that nothing fails in is finished: step by step, in order, from clearing to storing.
pub proof fn law_an_export_without_failures_finishes()
    ensures
        stage_over(
            seq![
                Outcome::Cleared,
                Outcome::Joined,
                Outcome::Measured,
                Outcome::Probed,
                Outcome::Installed,
                Outcome::Synced,
                Outcome::Covered,
                Outcome::Sampled,
                Outcome::Stored,
            ],
        ) == Stage::Finished,
{
    let s9 = seq![
        Outcome::Cleared,
        Outcome::Joined,
        Outcome::Measured,
        Outcome::Probed,
        Outcome::Installed,
        Outcome::Synced,
        Outcome::Covered,
        Outcome::Sampled,
        Outcome::Stored,
    ];
    let s8 = s9.drop_last();
    let s7 = s8.drop_last();
    let s6 = s7.drop_last();
    let s5 = s6.drop_last();
    let s4 = s5.drop_last();
    let s3 = s4.drop_last();
    let s2 = s3.drop_last();
    let s1 = s2.drop_last();
    assert(s1.drop_last().len() == 0);
    assert(stage_over(s1.drop_last()) == Stage::Clearing);
    assert(stage_over(s1) == Stage::Joining);
    assert(stage_over(s2) == Stage::Measuring);
    assert(stage_over(s3) == Stage::Probing);
    assert(stage_over(s4) == Stage::Installing);
    assert(stage_over(s5) == Stage::Syncing);
    assert(stage_over(s6) == Stage::Covering);
    assert(stage_over(s7) == Stage::Sampling);
    assert(stage_over(s8) == Stage::Storing);
}

/// An export goes forward one stage at a time, and only with what it waits for; a failure of the stage
/// that it is in ends it, and one of any other stage does not.
pub proof fn law_exports_go_forward_stage_by_stage(stage: Stage, outcome: Outcome)
    ensures
        stage_after(stage, outcome) == stage || stage_after(stage, outcome) == Stage::Failed || rank(
            stage_after(stage, outcome),
        ) == rank(stage) + 1,
        stage_after(stage, outcome) == Stage::Failed && stage != Stage::Failed ==> outcome
            == Outcome::Failed(stage),
        stage != Stage::Finished ==> stage_after(stage, Outcome::Failed(stage)) == Stage::Failed,
        stage == Stage::Measuring && stage_after(stage, outcome) == Stage::Probing ==> outcome
            == Outcome::Measured,
        stage == Stage::Storing && stage_after(stage, outcome) == Stage::Finished ==> outcome
            == Outcome::Stored,
{
}

/// What an export learns on the way is what was measured: the size and the length of the video, and
/// its cover where one was made, beside the video under its name.
pub proof fn law_exports_hold_what_was_measured(clip: WholeClipView, event: ExportEvent)
    ensures
        ({
            let after = export_after(clip, event);
            &&& after.output_file == clip.output_file && after.room_id == clip.room_id
                && after.platform == clip.platform
            &&& clip.stage == Stage::Measuring ==> (event matches ExportEvent::Measured { len }
                ==> if 0 < len && len <= i64::MAX {
                after.size == len && after.stage == Stage::Probing
            } else {
                after.stage == Stage::Failed && after.size == clip.size
            })
            &&& clip.stage == Stage::Probing ==> (event matches ExportEvent::Probed { length }
                ==> if length > 0 {
                after.length == length && after.stage == Stage::Installing
            } else {
                after.stage == Stage::Failed && after.length == clip.length
            })
            &&& clip.stage == Stage::Covering ==> (event matches ExportEvent::Covered { made }
                ==> after.stage == Stage::Sampling && (made ==> after.cover
                == paths::with_extension(clip.output_file, "jpg"@)) && (!made ==> after.cover
                == clip.cover))
            &&& !(event is Measured) ==> after.size == clip.size
            &&& !(event is Probed) ==> after.length == clip.length
            &&& !(event is Covered) ==> after.cover == clip.cover
        }),
{
}

/// What is cleaned up when an export fails. Before it is in place, the unfinished video goes; once in
/// place it stays, unless it could not be stored: then it goes too. And what the export does next is
/// what its stage asks for.
pub proof fn law_failed_exports_are_cleaned_up(
    clip: WholeClipView,
    event: ExportEvent,
    action: ExportAction,
)
    requires
        is_awaited(clip.stage, event),
        is_action_for(clip, event, action),
    ensures
        action is Fail <==> export_after(clip, event).stage == Stage::Failed,
        action is Fail ==> (action->drop_output <==> event is StoreFailed),
        action is Fail ==> (action->drop_partial <==> (clip.stage == Stage::Joining || clip.stage
            == Stage::Measuring || clip.stage == Stage::Probing || event is InstallFailed)),
        action is Join <==> event is Cleared,
        action is Measure <==> event is Joined,
        action is Probe <==> event is Measured && event->len > 0 && event->len <= i64::MAX,
        action is Install <==> event is Probed && event->length > 0,
        action is Sync <==> event is Installed,
        action is Cover <==> event is Synced,
        action is Sample <==> event is Covered,
        action is Sample ==> (action->drop_cover <==> !event->Covered_made),
        action is Store <==> event is Sampled,
        action is Announce <==> event is Stored,
{
}

/// What is stored of a whole session's video: its file, its room, its platform, its cover, its size and
/// its length, as they were found.
pub proof fn law_stored_rows_tell_of_the_video(
    clip: WholeClipView,
    event: ExportEvent,
    action: ExportAction,
)
    requires
        is_action_for(clip, event, action),
        action is Store,
    ensures
        ({
            let row = action->row.deep_view();
            &&& row.file == clip.output_file
            &&& row.room_id == clip.room_id
            &&& row.platform == clip.platform.name()
            &&& row.cover == clip.cover
            &&& row.size == clip.size
            &&& row.length == clip.length
            &&& event is Sampled && row.created_at == event->created_at@
            &&& action->drop_sample <==> !event->Sampled_made
            &&& row.status == 0 && row.id == 0
            &&& row.title.len() == 0 && row.note.len() == 0 && row.bvid.len() == 0
        }),
{
}

/// The record of a request tells what is asked for, under the names that those who read it look for.
pub proof fn law_requests_tell_what_is_asked_for(params: GenerateWholeClipParams)
    ensures
        ({
            let record = request_record(params);
            &&& record.at("platform"@) == JsonView::Text(params.platform@)
            &&& record.at("room_id"@) == JsonView::Text(params.room_id@)
            &&& record.at("parent_id"@) == JsonView::Text(params.parent_id@)
            &&& record.at("encode_danmu"@) == JsonView::Bool(params.encode_danmu)
            &&& record.at("output_name"@).as_text() == params.output_name.deep_view()
            &&& record.at("selected_live_ids"@) is Null <==> params.selected_live_ids is None
            &&& params.selected_live_ids is Some ==> (record.at("selected_live_ids"@).as_array()
                matches Some(ids) && ids.len() == params.selected_live_ids.deep_view()->0.len()
                && forall|i: int|
                0 <= i < ids.len() ==> (#[trigger] ids[i]) == JsonView::Text(
                    params.selected_live_ids.deep_view()->0[i],
                ))
        }),
{
    reveal_strlit("platform");
    reveal_strlit("room_id");
    reveal_strlit("parent_id");
    reveal_strlit("encode_danmu");
    reveal_strlit("selected_live_ids");
    reveal_strlit("output_name");
    let members = request_record(params)->Object_0;
    assert(members[0].0.len() == 8 && members[1].0.len() == 7 && members[2].0.len() == 9
        && members[3].0.len() == 12 && members[4].0.len() == 17 && members[5].0.len() == 11);
    json::lemma_named_member(members, 0);
    json::lemma_named_member(members, 1);
    json::lemma_named_member(members, 2);
    json::lemma_named_member(members, 3);
    json::lemma_named_member(members, 4);
    json::lemma_named_member(members, 5);
}

/// What is told of an export that failed ends in what went wrong.
pub proof fn law_failed_exports_tell_their_reason(
    clip: WholeClipView,
    event: ExportEvent,
    action: ExportAction,
)
    requires
        is_action_for(clip, event, action),
    ensures
        event matches ExportEvent::ClearFailed { error } ==> action is Fail && (
        action->error matches RecorderManagerError::IoError(e) && e@ == error@),
        event matches ExportEvent::MeasureFailed { error } ==> action is Fail && (
        action->error matches RecorderManagerError::IoError(e) && e@ == error@),
        event matches ExportEvent::InstallFailed { error } ==> action is Fail && (
        action->error matches RecorderManagerError::IoError(e) && e@ == error@),
        event matches ExportEvent::ReplaceFailed { error } ==> action is Fail && (
        action->error matches RecorderManagerError::IoError(e) && e@ == error@),
        event matches ExportEvent::SyncFailed { error } ==> action is Fail && (
        action->error matches RecorderManagerError::IoError(e) && e@ == error@),
        event matches ExportEvent::StoreFailed { error } ==> action is Fail && (
        action->error matches RecorderManagerError::DatabaseError(e) && e@ == error@),
        event matches ExportEvent::JoinFailed { error } ==> action is Fail && (
        action->error matches RecorderManagerError::HLSError { err } && text::ends(err@, error@)),
        event matches ExportEvent::ProbeFailed { error } ==> action is Fail && (
        action->error matches RecorderManagerError::ClipError { err } && text::ends(err@, error@)),
        event matches ExportEvent::InvalidDuration { duration } ==> action is Fail && (
        action->error matches RecorderManagerError::ClipError { err } && text::ends(
            err@,
            duration@,
        )),
{
    match event {
        ExportEvent::JoinFailed { error } => {
            let m = "Failed to concat playlists: "@ + error@;
            assert(m.skip(m.len() - error@.len()) =~= error@);
        },
        ExportEvent::ProbeFailed { error } => {
            let m = "Generated whole-session file failed validation: "@ + error@;
            assert(m.skip(m.len() - error@.len()) =~= error@);
        },
        ExportEvent::InvalidDuration { duration } => {
            let m = "Generated whole-session file has an invalid duration: "@ + duration@;
            assert(m.skip(m.len() - duration@.len()) =~= duration@);
        },
        _ => {},
    }
}

} // verus!
