//! An attempt to record a live: what is made ready before the first media is written.
use vstd::prelude::*;
use crate::ledger::LedgerView;
use crate::platform::RecorderError;
use crate::session;
use crate::session::{DouyinSession, Notice, SessionView};
use crate::text;

verus! {

/// How far an attempt has come.
#[derive(Clone, Copy, Debug, PartialEq, Eq, Structural)]
pub enum AttemptStage {
    /// Nothing was done yet.
    Idle,
    /// The directory of the recording is made.
    Preparing,
    /// The session of the recording is noted beside it.
    Marking,
    /// The event file is opened.
    Opening,
    /// The event file before it is sealed.
    Switching,
    /// The stream is looked up.
    Connecting,
    /// Media is written.
    Recording,
    /// The attempt is over.
    Over,
}

/// What happened to an attempt.
pub enum AttemptEvent {
    Started,
    /// The directory was asked for, whether or not it could be made.
    Prepared,
    Marked,
    MarkFailed { error: String },
    Opened,
    OpenFailed { path: String },
    Switched,
    SwitchFailed { path: String, error: String },
    Connected,
    ConnectFailed,
    Recorded,
    RecordFailed { error: RecorderError },
}

/// What is done next for an attempt.
pub enum AttemptStep {
    MakeDirectory,
    /// Note the session beside the recording.
    WriteParent { parent: String },
    OpenStorage,
    SwitchStorage,
    /// Start the chat task where it does not run, report the start, fetch the cover where there is
    /// one, and look up the stream.
    Launch { generation: u64, cover_url: Option<String>, stream_url: String },
    Record,
    Done,
    /// Show a notification, remove the directory and wait, where that is asked for, and fail.
    Fail { notice: Option<Notice>, remove_and_wait: bool, error: RecorderError },
    /// The event is not one that was waited for.
    Ignore,
}

/// The stage after an event. An event that was not waited for changes nothing.
pub open spec fn stage_after(stage: AttemptStage, session: SessionView, event: AttemptEvent) -> AttemptStage {
    match (stage, event) {
        (AttemptStage::Idle, AttemptEvent::Started) => if session.stream_url is Some {
            AttemptStage::Preparing
        } else {
            AttemptStage::Over
        },
        (AttemptStage::Preparing, AttemptEvent::Prepared) => if session.platform_live_id.len() > 0 {
            AttemptStage::Marking
        } else {
            AttemptStage::Over
        },
        (AttemptStage::Marking, AttemptEvent::Marked) => AttemptStage::Opening,
        (AttemptStage::Marking, AttemptEvent::MarkFailed { error }) => AttemptStage::Over,
        (AttemptStage::Opening, AttemptEvent::Opened) => AttemptStage::Switching,
        (AttemptStage::Opening, AttemptEvent::OpenFailed { path }) => AttemptStage::Over,
        (AttemptStage::Switching, AttemptEvent::Switched) => AttemptStage::Connecting,
        (AttemptStage::Switching, AttemptEvent::SwitchFailed { path, error }) => AttemptStage::Over,
        (AttemptStage::Connecting, AttemptEvent::Connected) => AttemptStage::Recording,
        (AttemptStage::Connecting, AttemptEvent::ConnectFailed) => AttemptStage::Over,
        (AttemptStage::Recording, AttemptEvent::Recorded) => AttemptStage::Over,
        (AttemptStage::Recording, AttemptEvent::RecordFailed { error }) => AttemptStage::Over,
        (s, _) => s,
    }
}

/// The recorder after an event: a new event file is taken over once the one before it is sealed,
/// and a failure to get there is remembered.
pub open spec fn session_after(
    stage: AttemptStage,
    live_id: Seq<char>,
    session: SessionView,
    event: AttemptEvent,
) -> SessionView {
    match (stage, event) {
        (AttemptStage::Opening, AttemptEvent::OpenFailed { path }) => SessionView {
            ledger: LedgerView { degraded: true, ..session.ledger },
            ..session
        },
        (AttemptStage::Switching, AttemptEvent::SwitchFailed { path, error }) => SessionView {
            ledger: LedgerView { degraded: true, ..session.ledger },
            ..session
        },
        (AttemptStage::Switching, AttemptEvent::Switched) => SessionView {
            live_id,
            ledger: LedgerView { degraded: false, ..session.ledger.switched() },
            ..session
        },
        _ => session,
    }
}

/// The texts of the notification and of the error of a failure to write chat.
pub open spec fn storage_message(event: AttemptEvent) -> Seq<char> {
    match event {
        AttemptEvent::OpenFailed { path } => "无法创建完整弹幕文件 "@ + path@
            + "，已停止本次录制；请检查 Docker 挂载目录空间和权限"@,
        AttemptEvent::SwitchFailed { path, error } =>
            "无法封口上一段完整弹幕，未切换到新录制段 "@ + path@
            + "；程序会重试，请检查 Docker 挂载目录："@ + error@,
        _ => Seq::empty(),
    }
}

/// Whether a step is to fail because chat cannot be written; the user is told of the first such
/// failure in a row.
pub open spec fn fails_on_storage(step: AttemptStep, first: bool, message: Seq<char>) -> bool {
    step matches AttemptStep::Fail { notice, remove_and_wait, error } && remove_and_wait && (
    error matches RecorderError::IoError { error: e } && e@ == message) && (match notice {
        Some(n) => first && n.title@ == "抖音弹幕保存失败"@ && n.body@ == message,
        None => !first,
    })
}

/// Whether a step is to fail with nothing to clean up and nobody to tell.
pub open spec fn just_fails(step: AttemptStep, error: RecorderError) -> bool {
    step matches AttemptStep::Fail { notice, remove_and_wait, error: e } && notice is None
        && !remove_and_wait && same_error(e, error)
}

/// Whether two errors say the same.
pub open spec fn same_error(a: RecorderError, b: RecorderError) -> bool {
    match (a, b) {
        (RecorderError::NoStreamAvailable, RecorderError::NoStreamAvailable) => true,
        (RecorderError::ApiError { error: x }, RecorderError::ApiError { error: y }) => x@ == y@,
        (RecorderError::IoError { error: x }, RecorderError::IoError { error: y }) => x@ == y@,
        _ => false,
    }
}

/// Whether a step is the one that follows an event.
pub open spec fn is_step_for(
    attempt: Attempt,
    session: SessionView,
    event: AttemptEvent,
    step: AttemptStep,
) -> bool {
    match (attempt.stage, event) {
        (AttemptStage::Idle, AttemptEvent::Started) => if session.stream_url is Some {
            step is MakeDirectory
        } else {
            just_fails(step, RecorderError::NoStreamAvailable)
        },
        (AttemptStage::Preparing, AttemptEvent::Prepared) => if session.platform_live_id.len() > 0 {
            step matches AttemptStep::WriteParent { parent } && parent@ == session.platform_live_id
        } else {
            step matches AttemptStep::Fail { notice, remove_and_wait, error } && notice is None
                && !remove_and_wait && (error matches RecorderError::ApiError { error: e } && e@
                == "Douyin live session id is empty while starting an archive"@)
        },
        (AttemptStage::Marking, AttemptEvent::Marked) => step is OpenStorage,
        (AttemptStage::Marking, AttemptEvent::MarkFailed { error }) => just_fails(
            step,
            RecorderError::IoError { error },
        ),
        (AttemptStage::Opening, AttemptEvent::Opened) => step is SwitchStorage,
        (AttemptStage::Opening, AttemptEvent::OpenFailed { path }) => fails_on_storage(
            step,
            !session.ledger.degraded,
            storage_message(event),
        ),
        (AttemptStage::Switching, AttemptEvent::Switched) => step matches AttemptStep::Launch {
            generation,
            cover_url,
            stream_url,
        } && generation == session.ledger.switched().generation && cover_url.deep_view() == (
        if text::trimmed(attempt.cover_url@).len() > 0 {
            Some(attempt.cover_url@)
        } else {
            None
        }) && stream_url@ == attempt.stream_url@,
        (AttemptStage::Switching, AttemptEvent::SwitchFailed { path, error }) => fails_on_storage(
            step,
            !session.ledger.degraded,
            storage_message(event),
        ),
        (AttemptStage::Connecting, AttemptEvent::Connected) => step is Record,
        (AttemptStage::Connecting, AttemptEvent::ConnectFailed) => just_fails(
            step,
            RecorderError::NoStreamAvailable,
        ),
        (AttemptStage::Recording, AttemptEvent::Recorded) => step is Done,
        (AttemptStage::Recording, AttemptEvent::RecordFailed { error }) => just_fails(step, error),
        _ => step is Ignore,
    }
}

/// An attempt to record a live, with what was known when it started.
pub struct Attempt {
    pub live_id: String,
    pub stage: AttemptStage,
    pub stream_url: String,
    pub cover_url: String,
}

fn plain_failure(error: RecorderError) -> (res: AttemptStep)
    ensures
        res == (AttemptStep::Fail { notice: None, remove_and_wait: false, error }),
{
    AttemptStep::Fail { notice: None, remove_and_wait: false, error }
}

fn storage_failure(notice: Notice, first: bool) -> (res: AttemptStep)
    requires
        notice.title@ == "抖音弹幕保存失败"@,
    ensures
        fails_on_storage(res, first, notice.body@),
{
    let error = RecorderError::IoError { error: text::copy(notice.body.as_str()) };
    if first {
        AttemptStep::Fail { notice: Some(notice), remove_and_wait: true, error }
    } else {
        AttemptStep::Fail { notice: None, remove_and_wait: true, error }
    }
}

impl Attempt {
    /// An attempt at which nothing was done yet.
    pub fn new(live_id: &str) -> (res: Attempt)
        ensures
            res.live_id@ == live_id@,
            res.stage == AttemptStage::Idle,
    {
        Attempt {
            live_id: text::copy(live_id),
            stage: AttemptStage::Idle,
            stream_url: String::new(),
            cover_url: String::new(),
        }
    }

    /// What is done next for the attempt.
    pub fn update_entries(&mut self, session: &mut DouyinSession, event: AttemptEvent) -> (res:
        AttemptStep)
        requires
            old(session).wf(),
        ensures
            final(session).wf(),
            final(self).live_id@ == old(self).live_id@,
            final(self).stage == stage_after(old(self).stage, old(session).deep_view(), event),
            final(session).deep_view() == session_after(
                old(self).stage,
                old(self).live_id@,
                old(session).deep_view(),
                event,
            ),
            old(self).stage == AttemptStage::Idle && event is Started
                && old(session).deep_view().stream_url is Some ==> final(self).stream_url@ == old(
                session).deep_view().stream_url->0 && final(self).cover_url@ == old(
                session).deep_view().room_info.room_cover,
            !(old(self).stage == AttemptStage::Idle && event is Started) ==> final(
                self).stream_url@ == old(self).stream_url@ && final(self).cover_url@ == old(
                self).cover_url@,
            is_step_for(*old(self), old(session).deep_view(), event, res),
    {
        match (self.stage, event) {
            (AttemptStage::Idle, AttemptEvent::Started) => {
                match &session.stream_url {
                    Some(url) => {
                        self.stream_url = text::copy(url.as_str());
                        self.cover_url = text::copy(session.room_info.room_cover.as_str());
                        self.stage = AttemptStage::Preparing;
                        AttemptStep::MakeDirectory
                    },
                    None => {
                        self.stage = AttemptStage::Over;
                        plain_failure(RecorderError::NoStreamAvailable)
                    },
                }
            },
            (AttemptStage::Preparing, AttemptEvent::Prepared) => {
                if text::is_empty(session.platform_live_id.as_str()) {
                    self.stage = AttemptStage::Over;
                    return plain_failure(
                        RecorderError::ApiError {
                            error: text::copy(
                                "Douyin live session id is empty while starting an archive",
                            ),
                        },
                    );
                }
                self.stage = AttemptStage::Marking;
                AttemptStep::WriteParent { parent: text::copy(session.platform_live_id.as_str()) }
            },
            (AttemptStage::Marking, AttemptEvent::Marked) => {
                self.stage = AttemptStage::Opening;
                AttemptStep::OpenStorage
            },
            (AttemptStage::Marking, AttemptEvent::MarkFailed { error }) => {
                self.stage = AttemptStage::Over;
                plain_failure(RecorderError::IoError { error })
            },
            (AttemptStage::Opening, AttemptEvent::Opened) => {
                self.stage = AttemptStage::Switching;
                AttemptStep::SwitchStorage
            },
            (AttemptStage::Opening, AttemptEvent::OpenFailed { path }) => {
                self.stage = AttemptStage::Over;
                let first = session.storage_failed();
                storage_failure(session::storage_open_notice(path.as_str()), first)
            },
            (AttemptStage::Switching, AttemptEvent::Switched) => {
                self.stage = AttemptStage::Connecting;
                let generation = session.archive_started(self.live_id.as_str());
                let cover_url = if session::wants_cover(self.cover_url.as_str()) {
                    Some(text::copy(self.cover_url.as_str()))
                } else {
                    None
                };
                AttemptStep::Launch {
                    generation,
                    cover_url,
                    stream_url: text::copy(self.stream_url.as_str()),
                }
            },
            (AttemptStage::Switching, AttemptEvent::SwitchFailed { path, error }) => {
                self.stage = AttemptStage::Over;
                let first = session.storage_failed();
                storage_failure(
                    session::storage_switch_notice(path.as_str(), error.as_str()),
                    first,
                )
            },
            (AttemptStage::Connecting, AttemptEvent::Connected) => {
                self.stage = AttemptStage::Recording;
                AttemptStep::Record
            },
            (AttemptStage::Connecting, AttemptEvent::ConnectFailed) => {
                self.stage = AttemptStage::Over;
                plain_failure(RecorderError::NoStreamAvailable)
            },
            (AttemptStage::Recording, AttemptEvent::Recorded) => {
                self.stage = AttemptStage::Over;
                AttemptStep::Done
            },
            (AttemptStage::Recording, AttemptEvent::RecordFailed { error }) => {
                self.stage = AttemptStage::Over;
                plain_failure(error)
            },
            (_, _) => AttemptStep::Ignore,
        }
    }
}

/// The stage of an attempt after a number of events, each met with the recorder as it was then.
pub open spec fn stage_over(events: Seq<(SessionView, AttemptEvent)>) -> AttemptStage
    decreases events.len(),
{
    if events.len() == 0 {
        AttemptStage::Idle
    } else {
        stage_after(stage_over(events.drop_last()), events.last().0, events.last().1)
    }
}

/// Whether something happened at some time.
pub open spec fn happened(
    events: Seq<(SessionView, AttemptEvent)>,
    is: spec_fn(AttemptEvent) -> bool,
) -> bool {
    exists|i: int| 0 <= i < events.len() && is((#[trigger] events[i]).1)
}

spec fn is_marked() -> spec_fn(AttemptEvent) -> bool {
    |e: AttemptEvent| e is Marked
}

spec fn is_opened() -> spec_fn(AttemptEvent) -> bool {
    |e: AttemptEvent| e is Opened
}

spec fn is_switched() -> spec_fn(AttemptEvent) -> bool {
    |e: AttemptEvent| e is Switched
}

spec fn past_marking(stage: AttemptStage) -> bool {
    stage == AttemptStage::Opening || past_opening(stage)
}

spec fn past_opening(stage: AttemptStage) -> bool {
    stage == AttemptStage::Switching || past_switching(stage)
}

spec fn past_switching(stage: AttemptStage) -> bool {
    stage == AttemptStage::Connecting || stage == AttemptStage::Recording
}

proof fn lemma_history(events: Seq<(SessionView, AttemptEvent)>)
    ensures
        past_marking(stage_over(events)) ==> happened(events, is_marked()),
        past_opening(stage_over(events)) ==> happened(events, is_opened()),
        past_switching(stage_over(events)) ==> happened(events, is_switched()),
    decreases events.len(),
{
    if events.len() > 0 {
        let before = events.drop_last();
        lemma_history(before);
        assert forall|is: spec_fn(AttemptEvent) -> bool| #[trigger] happened(before, is) implies happened(
            events,
            is,
        ) by {
            let i = choose|i: int| 0 <= i < before.len() && is((#[trigger] before[i]).1);
            assert(events[i] == before[i]);
        }
        assert(events[events.len() - 1] == events.last());
        if events.last().1 is Marked {
            assert(is_marked()(events[events.len() - 1].1));
        }
        if events.last().1 is Opened {
            assert(is_opened()(events[events.len() - 1].1));
        }
        if events.last().1 is Switched {
            assert(is_switched()(events[events.len() - 1].1));
        }
    }
}

/// Media is written only after the session of the recording was noted beside it, its event file was
/// opened, and the event file before it was sealed.
pub proof fn law_media_follows_the_session_marker(events: Seq<(SessionView, AttemptEvent)>)
    requires
        stage_over(events) == AttemptStage::Recording,
    ensures
        exists|i: int| 0 <= i < events.len() && (#[trigger] events[i]).1 is Marked,
        exists|i: int| 0 <= i < events.len() && (#[trigger] events[i]).1 is Opened,
        exists|i: int| 0 <= i < events.len() && (#[trigger] events[i]).1 is Switched,
{
    lemma_history(events);
    let i = choose|i: int| 0 <= i < events.len() && is_marked()((#[trigger] events[i]).1);
    assert(events[i].1 is Marked);
    let j = choose|j: int| 0 <= j < events.len() && is_opened()((#[trigger] events[j]).1);
    assert(events[j].1 is Opened);
    let k = choose|k: int| 0 <= k < events.len() && is_switched()((#[trigger] events[k]).1);
    assert(events[k].1 is Switched);
}

/// No step of an attempt changes the session that is recorded.
pub proof fn law_attempts_stay_in_their_session(
    stage: AttemptStage,
    live_id: Seq<char>,
    session: SessionView,
    event: AttemptEvent,
)
    ensures
        session_after(stage, live_id, session, event).platform_live_id == session.platform_live_id,
        session_after(stage, live_id, session, event).pending == session.pending,
{
}

/// An attempt of which nothing fails comes to record: with a stream and a session it passes every
/// stage, one event after the other.
pub proof fn law_an_attempt_without_failures_records(
    a: SessionView,
    b: SessionView,
    c: SessionView,
    d: SessionView,
    e: SessionView,
    f: SessionView,
)
    requires
        a.stream_url is Some,
        b.platform_live_id.len() > 0,
    ensures
        stage_over(
            seq![
                (a, AttemptEvent::Started),
                (b, AttemptEvent::Prepared),
                (c, AttemptEvent::Marked),
                (d, AttemptEvent::Opened),
                (e, AttemptEvent::Switched),
                (f, AttemptEvent::Connected),
            ],
        ) == AttemptStage::Recording,
{
    reveal_with_fuel(stage_over, 7);
    let all = seq![
        (a, AttemptEvent::Started),
        (b, AttemptEvent::Prepared),
        (c, AttemptEvent::Marked),
        (d, AttemptEvent::Opened),
        (e, AttemptEvent::Switched),
        (f, AttemptEvent::Connected),
    ];
    let s5 = all.drop_last();
    let s4 = s5.drop_last();
    let s3 = s4.drop_last();
    let s2 = s3.drop_last();
    let s1 = s2.drop_last();
    assert(s1.drop_last().len() == 0);
    assert(stage_over(s1) == AttemptStage::Preparing);
    assert(stage_over(s2) == AttemptStage::Marking);
    assert(stage_over(s3) == AttemptStage::Opening);
    assert(stage_over(s4) == AttemptStage::Switching);
    assert(stage_over(s5) == AttemptStage::Connecting);
}

/// An attempt goes on only with what it waits for: it starts with a stream and not without, it is
/// marked only under a session, and every failure ends it. What it does not wait for changes neither
/// it nor the session, and nothing follows on the end.
pub proof fn law_failures_end_an_attempt(
    attempt: Attempt,
    live_id: Seq<char>,
    session: SessionView,
    event: AttemptEvent,
    step: AttemptStep,
)
    requires
        is_step_for(attempt, session, event, step),
    ensures
        ({
            let after = stage_after(attempt.stage, session, event);
            &&& step is Fail ==> after == AttemptStage::Over
            &&& step is Done ==> after == AttemptStage::Over && event is Recorded
            &&& step is Ignore ==> after == attempt.stage && session_after(
                attempt.stage,
                live_id,
                session,
                event,
            ) == session
            &&& attempt.stage == AttemptStage::Over ==> step is Ignore
            &&& step is MakeDirectory <==> attempt.stage == AttemptStage::Idle && event is Started
                && session.stream_url is Some
            &&& step is WriteParent <==> attempt.stage == AttemptStage::Preparing && event
                is Prepared && session.platform_live_id.len() > 0
            &&& step is OpenStorage <==> attempt.stage == AttemptStage::Marking && event is Marked
            &&& step is SwitchStorage <==> attempt.stage == AttemptStage::Opening && event is Opened
            &&& step is Launch <==> attempt.stage == AttemptStage::Switching && event is Switched
            &&& step is Record <==> attempt.stage == AttemptStage::Connecting && event is Connected
            &&& attempt.stage == AttemptStage::Idle && event is Started && session.stream_url is None
                ==> step is Fail && step->error is NoStreamAvailable
            &&& attempt.stage == AttemptStage::Marking && event is MarkFailed ==> step is Fail
            &&& attempt.stage == AttemptStage::Connecting && event is ConnectFailed ==> step is Fail
                && step->error is NoStreamAvailable
            &&& attempt.stage == AttemptStage::Recording && event is RecordFailed ==> step is Fail
            &&& attempt.stage == AttemptStage::Recording && event is Recorded ==> step is Done
        }),
{
}

/// What a recording is noted under is the session that runs.
pub proof fn law_attempts_are_noted_under_their_session(
    attempt: Attempt,
    session: SessionView,
    event: AttemptEvent,
    step: AttemptStep,
)
    requires
        is_step_for(attempt, session, event, step),
    ensures
        step matches AttemptStep::WriteParent { parent } ==> parent@ == session.platform_live_id,
        step matches AttemptStep::Launch { generation, cover_url, stream_url } ==> stream_url@
            == attempt.stream_url@ && generation == session_after(
            attempt.stage,
            Seq::empty(),
            session,
            event,
        ).ledger.generation && (cover_url is Some ==> cover_url->0@ == attempt.cover_url@) && (
        cover_url is Some <==> text::trimmed(attempt.cover_url@).len() > 0),
{
}

/// A failure of the chat's storage is told once, and not again while it lasts; it leaves the storage
/// marked as failing, until a file can be opened again. Such an attempt waits and leaves no
/// directory; a failure of any other kind is not told.
pub proof fn law_storage_failures_are_told_once(
    attempt: Attempt,
    live_id: Seq<char>,
    session: SessionView,
    event: AttemptEvent,
    step: AttemptStep,
)
    requires
        is_step_for(attempt, session, event, step),
        step is Fail,
    ensures
        ({
            let after = session_after(attempt.stage, live_id, session, event);
            let of_storage = event is OpenFailed || event is SwitchFailed;
            &&& step->remove_and_wait <==> of_storage
            &&& step->notice is Some <==> of_storage && !session.ledger.degraded
            &&& of_storage ==> after.ledger.degraded && step->error is IoError
            &&& !of_storage ==> after == session
            &&& after.live_id == session.live_id
            &&& after.ledger.recent == session.ledger.recent
            &&& after.ledger.pending == session.ledger.pending
            &&& after.ledger.generation == session.ledger.generation
        }),
{
}

/// Once the storage has switched, the session is the new recording's: it has its name, its storage is
/// open and in order, and the file before it is settled.
pub proof fn law_a_switched_session_is_the_new_recordings(
    live_id: Seq<char>,
    session: SessionView,
)
    ensures
        ({
            let after = session_after(
                AttemptStage::Switching,
                live_id,
                session,
                AttemptEvent::Switched,
            );
            &&& after.live_id == live_id
            &&& !after.ledger.degraded
            &&& after.ledger.open
            &&& session.ledger.generation < u64::MAX ==> after.ledger.generation
                == session.ledger.generation + 1
            &&& after.stream_url == session.stream_url
            &&& after.room_info == session.room_info
        }),
{
}

/// An attempt that fails tells why: what the disk said, what the recording said, or that there is
/// nothing to record.
pub proof fn law_failed_attempts_tell_why(
    attempt: Attempt,
    session: SessionView,
    event: AttemptEvent,
    step: AttemptStep,
)
    requires
        is_step_for(attempt, session, event, step),
        step is Fail,
    ensures
        event matches AttemptEvent::MarkFailed { error } ==> (
        step->Fail_error matches RecorderError::IoError { error: e } && e@ == error@),
        event matches AttemptEvent::RecordFailed { error: RecorderError::IoError { error: x } } ==> (
        step->Fail_error matches RecorderError::IoError { error: e } && e@ == x@),
        event matches AttemptEvent::RecordFailed { error: RecorderError::ApiError { error: x } } ==> (
        step->Fail_error matches RecorderError::ApiError { error: e } && e@ == x@),
        event matches AttemptEvent::RecordFailed { error: RecorderError::NoStreamAvailable } ==> (
        step->Fail_error is NoStreamAvailable),
        event matches AttemptEvent::OpenFailed { path } ==> (
        step->Fail_error matches RecorderError::IoError { error: e } && text::occurs(e@, path@)),
        event matches AttemptEvent::SwitchFailed { path, error } ==> (
        step->Fail_error matches RecorderError::IoError { error: e } && text::occurs(e@, path@)
            && text::ends(e@, error@)),
        event is Started || event is ConnectFailed ==> step->Fail_error is NoStreamAvailable,
{
    let m = storage_message(event);
    match event {
        AttemptEvent::OpenFailed { path } => {
            let from = "无法创建完整弹幕文件 "@.len() as int;
            assert(m.subrange(from, from + path@.len()) =~= path@);
            assert(text::occurs_at(m, path@, from));
        },
        AttemptEvent::SwitchFailed { path, error } => {
            let from = "无法封口上一段完整弹幕，未切换到新录制段 "@.len() as int;
            assert(m.subrange(from, from + path@.len()) =~= path@);
            assert(text::occurs_at(m, path@, from));
            assert(m.skip(m.len() - error@.len()) =~= error@);
        },
        _ => {},
    }
}

} // verus!
