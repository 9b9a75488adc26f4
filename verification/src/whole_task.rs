//! One attempt at the export of a whole session, from its entry in the task list to its result.
use vstd::prelude::*;
use crate::clips::GenerateWholeClipParams;
use crate::json;
use crate::platform::PlatformType;
use crate::text;
use crate::whole;
use crate::whole::AttemptOutcome;

verus! {

/// The kind of the task in the task list.
pub const WHOLE_CLIP_TASK: &'static str = "generate_whole_clip";

/// What a task is marked and reported with when its export was made.
pub const WHOLE_CLIP_DONE: &'static str = "Whole clip generated successfully";

/// How far an attempt has come.
#[derive(Clone, Copy, Debug, PartialEq, Eq, Structural)]
pub enum AttemptStage {
    Ready,
    /// The task is put into the task list.
    CreatingTask,
    /// The task is in the list, and a reporter is made for it.
    CreatingReporter,
    /// The task has a reporter, and the export is queued or runs.
    Running,
    Over,
}

/// What happened to an attempt.
pub enum AttemptEvent {
    Started,
    TaskCreated,
    TaskFailed { error: String },
    ReporterCreated,
    ReporterFailed { error: String },
    EnqueueFailed { error: String },
    Generated,
    GenerationFailed { error: String },
    /// The export ended without a result.
    Dropped,
}

/// What is done next for an attempt.
pub enum AttemptStep {
    /// Put a task with this description into the task list.
    CreateTask { metadata: String },
    CreateReporter,
    /// Queue the export.
    Enqueue { params: GenerateWholeClipParams },
    /// The attempt is over. Where `reported`, the reporter is told, and then, where `marked`, the
    /// task list: with the message, as a success or as a failure. The result of the attempt is that
    /// too.
    Finish { reported: bool, marked: bool, success: bool, message: String },
    /// The event is not one that was waited for.
    Ignore,
}

/// An attempt at the export of a whole session under a name.
pub struct WholeClipAttempt {
    pub room_id: String,
    pub parent_id: String,
    pub encode_danmu: bool,
    pub output_name: String,
    pub stage: AttemptStage,
}

/// The model of an attempt.
#[verifier::ext_equal]
pub struct AttemptView {
    pub room_id: Seq<char>,
    pub parent_id: Seq<char>,
    pub encode_danmu: bool,
    pub output_name: Seq<char>,
    pub stage: AttemptStage,
}

impl DeepView for WholeClipAttempt {
    type V = AttemptView;

    open spec fn deep_view(&self) -> AttemptView {
        AttemptView {
            room_id: self.room_id@,
            parent_id: self.parent_id@,
            encode_danmu: self.encode_danmu,
            output_name: self.output_name@,
            stage: self.stage,
        }
    }
}

/// Whether a step ends an attempt in this way.
pub open spec fn is_finish(
    step: AttemptStep,
    was_reported: bool,
    was_marked: bool,
    was_success: bool,
    text: Seq<char>,
) -> bool {
    step matches AttemptStep::Finish { reported, marked, success, message } && reported
        == was_reported && marked == was_marked && success == was_success && message@ == text
}

impl AttemptView {
    /// Whether the attempt has a task in the task list.
    pub open spec fn has_task(self) -> bool {
        self.stage == AttemptStage::CreatingReporter || self.stage == AttemptStage::Running
    }

    /// The state after an event. An event that was not waited for changes nothing.
    pub open spec fn after(self, event: AttemptEvent) -> AttemptView {
        let stage = match (self.stage, event) {
            (AttemptStage::Ready, AttemptEvent::Started) => AttemptStage::CreatingTask,
            (AttemptStage::CreatingTask, AttemptEvent::TaskCreated) =>
                AttemptStage::CreatingReporter,
            (AttemptStage::CreatingTask, AttemptEvent::TaskFailed { error }) => AttemptStage::Over,
            (AttemptStage::CreatingReporter, AttemptEvent::ReporterCreated) =>
                AttemptStage::Running,
            (AttemptStage::CreatingReporter, AttemptEvent::ReporterFailed { error }) =>
                AttemptStage::Over,
            (AttemptStage::Running, AttemptEvent::EnqueueFailed { error }) => AttemptStage::Over,
            (AttemptStage::Running, AttemptEvent::Generated) => AttemptStage::Over,
            (AttemptStage::Running, AttemptEvent::GenerationFailed { error }) =>
                AttemptStage::Over,
            (AttemptStage::Running, AttemptEvent::Dropped) => AttemptStage::Over,
            _ => self.stage,
        };
        AttemptView { stage, ..self }
    }

    /// Whether an export is the one that the attempt is for: of the whole session, with all its
    /// recordings.
    pub open spec fn is_request(self, params: GenerateWholeClipParams) -> bool {
        &&& params.encode_danmu == self.encode_danmu
        &&& params.platform@ == PlatformType::Douyin.name()
        &&& params.room_id@ == self.room_id
        &&& params.parent_id@ == self.parent_id
        &&& params.selected_live_ids is None
        &&& params.output_name.deep_view() == Some(self.output_name)
    }

    /// Whether a step is the one that follows an event.
    pub open spec fn is_step_for(self, event: AttemptEvent, step: AttemptStep) -> bool {
        match (self.stage, event) {
            (AttemptStage::Ready, AttemptEvent::Started) => step matches AttemptStep::CreateTask {
                metadata,
            } && metadata@ == json::json_text(
                whole::task_record(
                    PlatformType::Douyin.name(),
                    self.room_id,
                    self.parent_id,
                    self.encode_danmu,
                    Some(self.output_name),
                ),
            ),
            (AttemptStage::CreatingTask, AttemptEvent::TaskCreated) => step is CreateReporter,
            (AttemptStage::CreatingTask, AttemptEvent::TaskFailed { error }) => is_finish(
                step,
                false,
                false,
                false,
                "failed to create whole-session task: "@ + error@,
            ),
            (AttemptStage::CreatingReporter, AttemptEvent::ReporterCreated) =>
                step matches AttemptStep::Enqueue { params } && self.is_request(params),
            (AttemptStage::CreatingReporter, AttemptEvent::ReporterFailed { error }) => is_finish(
                step,
                false,
                true,
                false,
                "Failed to create reporter: "@ + error@,
            ),
            (AttemptStage::Running, AttemptEvent::EnqueueFailed { error }) => is_finish(
                step,
                true,
                true,
                false,
                "Failed to enqueue whole clip task: "@ + error@,
            ),
            (AttemptStage::Running, AttemptEvent::Generated) => is_finish(
                step,
                true,
                true,
                true,
                WHOLE_CLIP_DONE@,
            ),
            (AttemptStage::Running, AttemptEvent::GenerationFailed { error }) => is_finish(
                step,
                true,
                true,
                false,
                "Failed to generate whole clip: "@ + error@,
            ),
            (AttemptStage::Running, AttemptEvent::Dropped) => is_finish(
                step,
                false,
                false,
                false,
                "whole-session task ended without reporting a result"@,
            ),
            _ => step is Ignore,
        }
    }
}

/// A task that was put into the task list is marked when its attempt ends, unless the export ended
/// without a result; no other task is marked, and only a reporter that was made is told. An attempt
/// succeeds where its export was made, and only there.
pub proof fn law_tasks_are_marked_when_they_end(
    state: AttemptView,
    event: AttemptEvent,
    step: AttemptStep,
)
    requires
        state.is_step_for(event, step),
    ensures
        step is Finish <==> state.stage != AttemptStage::Over && state.after(event).stage
            == AttemptStage::Over,
        step is Finish && state.has_task() ==> (step->marked <==> event !is Dropped),
        step is Finish && step->marked ==> state.has_task(),
        step is Finish && step->reported ==> step->marked && state.stage == AttemptStage::Running,
        step is Finish ==> (step->success <==> event is Generated),
        step is Enqueue ==> state.after(event).stage == AttemptStage::Running,
{
}

impl WholeClipAttempt {
    /// An attempt that has not begun.
    pub fn new(room_id: &str, parent_id: &str, encode_danmu: bool, output_name: &str) -> (res: Self)
        ensures
            res.deep_view() == (AttemptView {
                room_id: room_id@,
                parent_id: parent_id@,
                encode_danmu,
                output_name: output_name@,
                stage: AttemptStage::Ready,
            }),
    {
        WholeClipAttempt {
            room_id: text::copy(room_id),
            parent_id: text::copy(parent_id),
            encode_danmu,
            output_name: text::copy(output_name),
            stage: AttemptStage::Ready,
        }
    }

    fn finish(&mut self, reported: bool, marked: bool, outcome: AttemptOutcome) -> (res: AttemptStep)
        ensures
            final(self).deep_view() == (AttemptView {
                stage: AttemptStage::Over,
                ..old(self).deep_view()
            }),
            is_finish(
                res,
                reported,
                marked,
                outcome is Generated,
                whole::attempt_message(outcome),
            ),
    {
        self.stage = AttemptStage::Over;
        match whole::attempt_result(outcome) {
            Ok(()) => AttemptStep::Finish {
                reported,
                marked,
                success: true,
                message: text::copy(WHOLE_CLIP_DONE),
            },
            Err(message) => AttemptStep::Finish { reported, marked, success: false, message },
        }
    }

    /// What is done next for an attempt.
    pub fn enqueue_douyin_whole_clip_attempt(&mut self, event: AttemptEvent) -> (res: AttemptStep)
        ensures
            final(self).deep_view() == old(self).deep_view().after(event),
            old(self).deep_view().is_step_for(event, res),
    {
        match (self.stage, event) {
            (AttemptStage::Ready, AttemptEvent::Started) => {
                self.stage = AttemptStage::CreatingTask;
                AttemptStep::CreateTask {
                    metadata: whole::whole_clip_task(
                        PlatformType::Douyin,
                        self.room_id.as_str(),
                        self.parent_id.as_str(),
                        self.encode_danmu,
                        &Some(text::copy(self.output_name.as_str())),
                    ),
                }
            },
            (AttemptStage::CreatingTask, AttemptEvent::TaskCreated) => {
                self.stage = AttemptStage::CreatingReporter;
                AttemptStep::CreateReporter
            },
            (AttemptStage::CreatingTask, AttemptEvent::TaskFailed { error }) => self.finish(
                false,
                false,
                AttemptOutcome::TaskFailed(error),
            ),
            (AttemptStage::CreatingReporter, AttemptEvent::ReporterCreated) => {
                self.stage = AttemptStage::Running;
                AttemptStep::Enqueue {
                    params: GenerateWholeClipParams {
                        encode_danmu: self.encode_danmu,
                        platform: text::copy(PlatformType::Douyin.as_str()),
                        room_id: text::copy(self.room_id.as_str()),
                        parent_id: text::copy(self.parent_id.as_str()),
                        selected_live_ids: None,
                        output_name: Some(text::copy(self.output_name.as_str())),
                    },
                }
            },
            (AttemptStage::CreatingReporter, AttemptEvent::ReporterFailed { error }) => self.finish(
                false,
                true,
                AttemptOutcome::ReporterFailed(error),
            ),
            (AttemptStage::Running, AttemptEvent::EnqueueFailed { error }) => self.finish(
                true,
                true,
                AttemptOutcome::EnqueueFailed(error),
            ),
            (AttemptStage::Running, AttemptEvent::Generated) => self.finish(
                true,
                true,
                AttemptOutcome::Generated,
            ),
            (AttemptStage::Running, AttemptEvent::GenerationFailed { error }) => self.finish(
                true,
                true,
                AttemptOutcome::GenerationFailed(error),
            ),
            (AttemptStage::Running, AttemptEvent::Dropped) => self.finish(
                false,
                false,
                AttemptOutcome::Dropped,
            ),
            (_, _) => AttemptStep::Ignore,
        }
    }
}

/// How an export is attempted: its task is created, then its reporter, then it is put in the queue, in
/// this order, as a request for the whole session under the name that was chosen for it; and whatever
/// becomes of it ends the attempt, with the reason where it failed.
pub proof fn law_attempts_follow_their_order(
    state: AttemptView,
    event: AttemptEvent,
    step: AttemptStep,
)
    requires
        state.is_step_for(event, step),
    ensures
        ({
            let after = state.after(event);
            &&& step is CreateTask <==> state.stage == AttemptStage::Ready && event is Started
            &&& step is CreateReporter <==> state.stage == AttemptStage::CreatingTask && event
                is TaskCreated
            &&& step is Enqueue <==> state.stage == AttemptStage::CreatingReporter && event
                is ReporterCreated
            &&& step is CreateTask ==> after.stage == AttemptStage::CreatingTask
            &&& step is CreateReporter ==> after.stage == AttemptStage::CreatingReporter
            &&& step is Enqueue ==> after.stage == AttemptStage::Running && step->params.room_id@
                == state.room_id && step->params.parent_id@ == state.parent_id
                && step->params.platform@ == "douyin"@ && step->params.encode_danmu
                == state.encode_danmu && step->params.selected_live_ids is None
                && step->params.output_name is Some && step->params.output_name->0@
                == state.output_name
            &&& step is Ignore ==> after == state
            &&& after.room_id == state.room_id && after.parent_id == state.parent_id
                && after.output_name == state.output_name && after.encode_danmu
                == state.encode_danmu
            &&& step is Finish ==> (event matches AttemptEvent::TaskFailed { error } ==> text::ends(
                step->message@,
                error@,
            ))
            &&& step is Finish ==> (event matches AttemptEvent::ReporterFailed { error }
                ==> text::ends(step->message@, error@))
            &&& step is Finish ==> (event matches AttemptEvent::EnqueueFailed { error }
                ==> text::ends(step->message@, error@))
            &&& step is Finish ==> (event matches AttemptEvent::GenerationFailed { error }
                ==> text::ends(step->message@, error@))
        }),
{
    if step is Finish {
        let message = step->message@;
        match event {
            AttemptEvent::TaskFailed { error } => {
                assert(message.skip(message.len() - error@.len()) =~= error@);
            },
            AttemptEvent::ReporterFailed { error } => {
                assert(message.skip(message.len() - error@.len()) =~= error@);
            },
            AttemptEvent::EnqueueFailed { error } => {
                assert(message.skip(message.len() - error@.len()) =~= error@);
            },
            AttemptEvent::GenerationFailed { error } => {
                assert(message.skip(message.len() - error@.len()) =~= error@);
            },
            _ => {},
        }
    }
}

/// The end of an attempt is reported to those who watch it exactly where there was someone to report
/// to, and it is its own task that ends: one that was dropped is neither reported nor marked.
pub proof fn law_ends_are_reported_where_they_are_watched(
    state: AttemptView,
    event: AttemptEvent,
    step: AttemptStep,
)
    requires
        state.is_step_for(event, step),
        step is Finish,
    ensures
        step->reported <==> state.stage == AttemptStage::Running && !(event is Dropped),
        step->marked <==> (state.stage == AttemptStage::Running || state.stage
            == AttemptStage::CreatingReporter) && !(event is Dropped),
        step->success <==> event is Generated,
{
}

} // verus!
