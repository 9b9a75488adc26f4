//! A poll of a room: what its answer changes, in the order in which it is done.
use vstd::prelude::*;
use crate::api::DouyinBasicRoomInfo;
use crate::platform::{RecorderInfo, RecorderInfoView};
use crate::session;
use crate::session::{DouyinSession, DouyinStream, Notice, SessionView, StatusStep};
use crate::text;

verus! {

/// How far a poll has come.
#[derive(Clone, Copy, Debug, PartialEq, Eq, Structural)]
pub enum PollStage {
    /// The room is asked.
    Asking,
    /// The marker of the session that is over is written.
    Ending,
    /// The chat of the session that is over is closed and drained.
    ClosingEnded,
    /// The end of the session is reported.
    ReportingEnd,
    /// What is left of an earlier session is closed before a new one starts.
    ClosingStale,
    /// The start of the session is reported.
    ReportingStart,
    /// The marker of the running session is written.
    Marking,
    /// The address of the stream is chosen.
    Choosing,
    /// The poll is over.
    Over,
}

/// What happened in a poll.
pub enum PollEvent {
    Answered { info: DouyinBasicRoomInfo },
    NotAnswered,
    EndMarked,
    EndNotMarked { error: String },
    Closed,
    Reported,
    ActiveMarked,
    ActiveNotMarked { error: String },
    StreamRead { should_record: bool, stream: Option<DouyinStream> },
}

/// What is done next in a poll.
pub enum PollStep {
    /// Write the marker of an ended session.
    MarkEnd { session_id: String },
    /// Remove the active marker where it names the session, show the notification, and close and
    /// drain the chat.
    CloseChat { clear_active: Option<String>, notice: Option<Notice> },
    ReportEnd { recorder: RecorderInfo },
    ReportStart { recorder: RecorderInfo },
    /// Write the marker of the running session.
    MarkActive { session_id: String },
    /// Show the notification, and read the stream description.
    ReadStream { notice: Option<Notice>, stream_data: String },
    /// The poll is over; `live` tells whether there is something to record or to wait for.
    Done { live: bool },
    /// The event is not one that was waited for.
    Ignore,
}

/// A poll, with what its answer said.
pub struct Poll {
    pub stage: PollStage,
    pub end_previous: bool,
    pub start_current: bool,
    pub live: bool,
    pub session_id: String,
    pub hls_url: String,
    pub stream_data: String,
    pub report: Option<RecorderInfo>,
}

/// The model of a poll.
#[verifier::ext_equal]
pub struct PollView {
    pub stage: PollStage,
    pub end_previous: bool,
    pub start_current: bool,
    pub live: bool,
    pub session_id: Seq<char>,
    pub hls_url: Seq<char>,
    pub stream_data: Seq<char>,
    pub report: Option<RecorderInfoView>,
}

impl DeepView for Poll {
    type V = PollView;

    open spec fn deep_view(&self) -> PollView {
        PollView {
            stage: self.stage,
            end_previous: self.end_previous,
            start_current: self.start_current,
            live: self.live,
            session_id: self.session_id@,
            hls_url: self.hls_url@,
            stream_data: self.stream_data@,
            report: self.report.deep_view(),
        }
    }
}

/// Whether an answer is not believed: a live room without its identifier.
pub open spec fn lacks_room(info: DouyinBasicRoomInfo) -> bool {
    info.status == 0 && text::trimmed(info.room_id_str@).len() == 0
}

impl PollView {
    /// The poll once its answer was read by a recorder.
    pub open spec fn answered(self, session: SessionView, info: DouyinBasicRoomInfo) -> PollView {
        let t = session::transition(
            session.room_info.status,
            session.platform_live_id,
            info.status == 0,
            info.room_id_str@,
        );
        PollView {
            end_previous: t.end_previous,
            start_current: t.start_current,
            live: info.status == 0,
            session_id: info.room_id_str@,
            hls_url: info.hls_url@,
            stream_data: info.stream_data@,
            ..self
        }
    }

    /// Where a poll goes on when nothing is left to start.
    pub open spec fn towards_mark(self) -> PollStage {
        if self.live {
            PollStage::Marking
        } else {
            PollStage::Over
        }
    }

    /// Where a poll goes on when nothing is left to end.
    pub open spec fn towards_start(self) -> PollStage {
        if self.start_current {
            PollStage::ClosingStale
        } else {
            self.towards_mark()
        }
    }

    /// The recorder when a poll goes on to a stage: the session that is marked is taken over.
    pub open spec fn entered(self, session: SessionView, stage: PollStage) -> SessionView {
        if stage == PollStage::Marking {
            SessionView { platform_live_id: self.session_id, ..session }
        } else {
            session
        }
    }

    /// Whether a step is the first of a stage that a poll goes on to.
    pub open spec fn is_arrival(self, stage: PollStage, step: PollStep) -> bool {
        match stage {
            PollStage::ClosingStale => step matches PollStep::CloseChat { clear_active, notice }
                && clear_active is None && notice is None,
            PollStage::Marking => step matches PollStep::MarkActive { session_id } && session_id@
                == self.session_id,
            _ => step == (PollStep::Done { live: false }),
        }
    }

    /// The poll after an event. An event that was not waited for changes nothing.
    pub open spec fn after(self, session: SessionView, event: PollEvent) -> PollView {
        match (self.stage, event) {
            (PollStage::Asking, PollEvent::Answered { info }) => if lacks_room(info) {
                PollView { stage: PollStage::Over, ..self }
            } else {
                let read = self.answered(session, info);
                PollView {
                    stage: if read.end_previous {
                        PollStage::Ending
                    } else {
                        read.towards_start()
                    },
                    ..read
                }
            },
            (PollStage::Asking, PollEvent::NotAnswered) => PollView {
                stage: PollStage::Over,
                ..self
            },
            (PollStage::Ending, PollEvent::EndMarked) => PollView {
                stage: PollStage::ClosingEnded,
                report: Some(session.last_report()),
                ..self
            },
            (PollStage::Ending, PollEvent::EndNotMarked { error }) => PollView {
                stage: PollStage::ClosingEnded,
                report: None,
                ..self
            },
            (PollStage::ClosingEnded, PollEvent::Closed) => PollView {
                stage: if self.report is Some {
                    PollStage::ReportingEnd
                } else {
                    self.towards_start()
                },
                report: None,
                ..self
            },
            (PollStage::ReportingEnd, PollEvent::Reported) => PollView {
                stage: self.towards_start(),
                ..self
            },
            (PollStage::ClosingStale, PollEvent::Closed) => PollView {
                stage: PollStage::ReportingStart,
                ..self
            },
            (PollStage::ReportingStart, PollEvent::Reported) => PollView {
                stage: self.towards_mark(),
                ..self
            },
            (PollStage::Marking, PollEvent::ActiveMarked) => PollView {
                stage: PollStage::Choosing,
                ..self
            },
            (PollStage::Marking, PollEvent::ActiveNotMarked { error }) => PollView {
                stage: PollStage::Choosing,
                ..self
            },
            (PollStage::Choosing, PollEvent::StreamRead { should_record, stream }) => PollView {
                stage: PollStage::Over,
                ..self
            },
            _ => self,
        }
    }

    /// The recorder after an event.
    pub open spec fn session_after(self, session: SessionView, event: PollEvent) -> SessionView {
        let then = self.after(session, event);
        match (self.stage, event) {
            (PollStage::Asking, PollEvent::Answered { info }) => if lacks_room(info) {
                session
            } else {
                then.entered(session.observed(info.deep_view()), then.stage)
            },
            (PollStage::Ending, PollEvent::EndMarked) => session.over(true),
            (PollStage::Ending, PollEvent::EndNotMarked { error }) => session.over(false),
            (PollStage::ClosingEnded, PollEvent::Closed) => then.entered(
                session.live_reset(),
                then.stage,
            ),
            (PollStage::ReportingEnd, PollEvent::Reported) => then.entered(session, then.stage),
            (PollStage::ClosingStale, PollEvent::Closed) => session.live_reset(),
            (PollStage::ReportingStart, PollEvent::Reported) => then.entered(session, then.stage),
            (PollStage::Marking, PollEvent::ActiveMarked) => SessionView {
                active_marker_degraded: false,
                ..session
            },
            (PollStage::Marking, PollEvent::ActiveNotMarked { error }) => SessionView {
                active_marker_degraded: true,
                ..session
            },
            (PollStage::Choosing, PollEvent::StreamRead { should_record, stream }) => match (
                should_record,
                session::chosen_url(self.hls_url, stream.deep_view()),
            ) {
                (true, Some(url)) => SessionView { stream_url: Some(url), ..session },
                _ => session,
            },
            _ => session,
        }
    }

    /// Whether a step is the one that follows an event.
    pub open spec fn is_step_for(self, session: SessionView, event: PollEvent, step: PollStep) -> bool {
        let then = self.after(session, event);
        match (self.stage, event) {
            (PollStage::Asking, PollEvent::Answered { info }) => if lacks_room(info) {
                step == (PollStep::Done { live: false })
            } else if then.end_previous {
                step matches PollStep::MarkEnd { session_id } && session_id@
                    == session.platform_live_id
            } else {
                then.is_arrival(then.stage, step)
            },
            (PollStage::Asking, PollEvent::NotAnswered) => step == (PollStep::Done {
                live: session.room_info.status,
            }),
            (PollStage::Ending, PollEvent::EndMarked) => step matches PollStep::CloseChat {
                clear_active,
                notice,
            } && clear_active.deep_view() == Some(session.platform_live_id) && notice is None,
            (PollStage::Ending, PollEvent::EndNotMarked { error }) =>
                step matches PollStep::CloseChat { clear_active, notice } && clear_active is None
                && (match notice {
                Some(n) => !session.pending_marker_degraded && n.title@
                    == "抖音下播恢复标记保存失败"@ && n.body@ == "直播间 "@ + session.room_id
                    + " 的下播恢复标记暂时无法写入，程序会持续重试："@ + error@,
                None => session.pending_marker_degraded,
            }),
            (PollStage::ClosingEnded, PollEvent::Closed) => match self.report {
                Some(r) => step matches PollStep::ReportEnd { recorder } && recorder.deep_view()
                    == r,
                None => then.is_arrival(then.stage, step),
            },
            (PollStage::ReportingEnd, PollEvent::Reported) => then.is_arrival(then.stage, step),
            (PollStage::ClosingStale, PollEvent::Closed) => step matches PollStep::ReportStart {
                recorder,
            } && recorder.deep_view() == session.live_reset().info(),
            (PollStage::ReportingStart, PollEvent::Reported) => then.is_arrival(then.stage, step),
            (PollStage::Marking, PollEvent::ActiveMarked) => step matches PollStep::ReadStream {
                notice,
                stream_data,
            } && notice is None && stream_data@ == self.stream_data,
            (PollStage::Marking, PollEvent::ActiveNotMarked { error }) =>
                step matches PollStep::ReadStream { notice, stream_data } && stream_data@
                == self.stream_data && (match notice {
                Some(n) => !session.active_marker_degraded && n.title@
                    == "抖音会话恢复标记保存失败"@ && n.body@ == "直播间 "@ + session.room_id
                    + " 的恢复标记暂时无法写入，程序会在下轮自动重试："@ + error@,
                None => session.active_marker_degraded,
            }),
            (PollStage::Choosing, PollEvent::StreamRead { should_record, stream }) => step == (
            PollStep::Done {
                live: !should_record || session::chosen_url(
                    self.hls_url,
                    stream.deep_view(),
                ) is Some,
            }),
            _ => step is Ignore,
        }
    }
}

impl Poll {
    /// A poll whose room was not asked yet.
    pub fn new() -> (res: Poll)
        ensures
            res.deep_view() == (PollView {
                stage: PollStage::Asking,
                end_previous: false,
                start_current: false,
                live: false,
                session_id: Seq::empty(),
                hls_url: Seq::empty(),
                stream_data: Seq::empty(),
                report: None,
            }),
    {
        let res = Poll {
            stage: PollStage::Asking,
            end_previous: false,
            start_current: false,
            live: false,
            session_id: String::new(),
            hls_url: String::new(),
            stream_data: String::new(),
            report: None,
        };
        assert(res.session_id@ =~= Seq::<char>::empty());
        assert(res.hls_url@ =~= Seq::<char>::empty());
        assert(res.stream_data@ =~= Seq::<char>::empty());
        res
    }

    /// Goes on to the marker of the running session, or ends where there is none.
    fn go_to_mark(&mut self, session: &mut DouyinSession) -> (res: PollStep)
        requires
            old(session).wf(),
        ensures
            final(session).wf(),
            final(self).deep_view() == (PollView {
                stage: old(self).deep_view().towards_mark(),
                ..old(self).deep_view()
            }),
            final(session).deep_view() == old(self).deep_view().entered(
                old(session).deep_view(),
                old(self).deep_view().towards_mark(),
            ),
            old(self).deep_view().is_arrival(old(self).deep_view().towards_mark(), res),
    {
        if self.live {
            self.stage = PollStage::Marking;
            session.enter_session(self.session_id.as_str());
            PollStep::MarkActive { session_id: text::copy(self.session_id.as_str()) }
        } else {
            self.stage = PollStage::Over;
            PollStep::Done { live: false }
        }
    }

    /// Goes on to the start of a session, where one starts.
    fn go_to_start(&mut self, session: &mut DouyinSession) -> (res: PollStep)
        requires
            old(session).wf(),
        ensures
            final(session).wf(),
            final(self).deep_view() == (PollView {
                stage: old(self).deep_view().towards_start(),
                ..old(self).deep_view()
            }),
            final(session).deep_view() == old(self).deep_view().entered(
                old(session).deep_view(),
                old(self).deep_view().towards_start(),
            ),
            old(self).deep_view().is_arrival(old(self).deep_view().towards_start(), res),
    {
        if self.start_current {
            self.stage = PollStage::ClosingStale;
            PollStep::CloseChat { clear_active: None, notice: None }
        } else {
            self.go_to_mark(session)
        }
    }

    /// What is done next in the poll.
    pub fn check_status(&mut self, session: &mut DouyinSession, event: PollEvent) -> (res: PollStep)
        requires
            old(session).wf(),
        ensures
            final(session).wf(),
            final(self).deep_view() == old(self).deep_view().after(old(session).deep_view(), event),
            final(session).deep_view() == old(self).deep_view().session_after(
                old(session).deep_view(),
                event,
            ),
            old(self).deep_view().is_step_for(old(session).deep_view(), event, res),
    {
        match (self.stage, event) {
            (PollStage::Asking, PollEvent::Answered { info }) => {
                let ended = text::copy(session.platform_live_id.as_str());
                match session.check_status(&info) {
                    StatusStep::MissingRoomId => {
                        self.stage = PollStage::Over;
                        PollStep::Done { live: false }
                    },
                    StatusStep::Observed { end_previous, start_current, live } => {
                        self.end_previous = end_previous;
                        self.start_current = start_current;
                        self.live = live;
                        self.session_id = info.room_id_str;
                        self.hls_url = info.hls_url;
                        self.stream_data = info.stream_data;
                        if end_previous {
                            self.stage = PollStage::Ending;
                            PollStep::MarkEnd { session_id: ended }
                        } else {
                            self.go_to_start(session)
                        }
                    },
                }
            },
            (PollStage::Asking, PollEvent::NotAnswered) => {
                self.stage = PollStage::Over;
                PollStep::Done { live: session.room_info.status }
            },
            (PollStage::Ending, PollEvent::EndMarked) => {
                let ended = session.end_session(true);
                self.stage = PollStage::ClosingEnded;
                self.report = Some(ended.recorder);
                PollStep::CloseChat { clear_active: Some(ended.session_id), notice: None }
            },
            (PollStage::Ending, PollEvent::EndNotMarked { error }) => {
                let ended = session.end_session(false);
                self.stage = PollStage::ClosingEnded;
                self.report = None;
                let notice = if ended.notify {
                    Some(
                        session::pending_marker_notice(session.room_id.as_str(), error.as_str()),
                    )
                } else {
                    None
                };
                PollStep::CloseChat { clear_active: None, notice }
            },
            (PollStage::ClosingEnded, PollEvent::Closed) => {
                session.reset_live();
                match self.report.take() {
                    Some(recorder) => {
                        self.stage = PollStage::ReportingEnd;
                        PollStep::ReportEnd { recorder }
                    },
                    None => self.go_to_start(session),
                }
            },
            (PollStage::ReportingEnd, PollEvent::Reported) => self.go_to_start(session),
            (PollStage::ClosingStale, PollEvent::Closed) => {
                session.reset_live();
                self.stage = PollStage::ReportingStart;
                PollStep::ReportStart { recorder: session.info() }
            },
            (PollStage::ReportingStart, PollEvent::Reported) => self.go_to_mark(session),
            (PollStage::Marking, PollEvent::ActiveMarked) => {
                let notify = session.active_marker_result(true);
                self.stage = PollStage::Choosing;
                PollStep::ReadStream {
                    notice: None,
                    stream_data: text::copy(self.stream_data.as_str()),
                }
            },
            (PollStage::Marking, PollEvent::ActiveNotMarked { error }) => {
                let notify = session.active_marker_result(false);
                self.stage = PollStage::Choosing;
                let notice = if notify {
                    Some(session::active_marker_notice(session.room_id.as_str(), error.as_str()))
                } else {
                    None
                };
                PollStep::ReadStream {
                    notice,
                    stream_data: text::copy(self.stream_data.as_str()),
                }
            },
            (PollStage::Choosing, PollEvent::StreamRead { should_record, stream }) => {
                self.stage = PollStage::Over;
                let live = session.choose_stream(should_record, self.hls_url.as_str(), &stream);
                PollStep::Done { live }
            },
            (_, _) => PollStep::Ignore,
        }
    }
}

/// A poll and the recorder after a number of events.
pub open spec fn polled(session: SessionView, poll: PollView, events: Seq<PollEvent>) -> (
    PollView,
    SessionView,
)
    decreases events.len(),
{
    if events.len() == 0 {
        (poll, session)
    } else {
        let before = polled(session, poll, events.drop_last());
        (before.0.after(before.1, events.last()), before.0.session_after(before.1, events.last()))
    }
}

/// A poll that was not answered ends nothing, starts nothing and changes nothing of the recorder.
pub proof fn law_an_unanswered_poll_changes_nothing(
    poll: PollView,
    session: SessionView,
    event: PollEvent,
    step: PollStep,
)
    requires
        poll.stage == PollStage::Asking,
        event is NotAnswered,
        poll.is_step_for(session, event, step),
    ensures
        poll.session_after(session, event) == session,
        poll.after(session, event).stage == PollStage::Over,
        step == (PollStep::Done { live: session.room_info.status }),
{
}

proof fn lemma_queued_waits(pending: Seq<(Seq<char>, bool)>, ended: Seq<char>, marker: bool)
    ensures
        session::is_pending(session::queued(pending, ended, marker), ended),
    decreases pending.len(),
{
    let out = session::queued(pending, ended, marker);
    if pending.len() == 0 || pending[0].0 == ended {
        assert(out[0].0 == ended);
    } else {
        let rest = session::queued(pending.drop_first(), ended, marker);
        lemma_queued_waits(pending.drop_first(), ended, marker);
        let i = choose|i: int| 0 <= i < rest.len() && (#[trigger] rest[i]).0 == ended;
        assert(out[i + 1].0 == ended);
    }
}

proof fn lemma_ended_waits(session: SessionView, poll: PollView, events: Seq<PollEvent>)
    requires
        poll.stage == PollStage::Asking,
        !poll.end_previous,
    ensures
        ({
            let (then, state) = polled(session, poll, events);
            &&& then.stage == PollStage::Asking ==> !then.end_previous && state == session
            &&& then.stage == PollStage::Ending ==> state.platform_live_id
                == session.platform_live_id
            &&& then.end_previous && then.stage != PollStage::Ending ==> session::is_pending(
                state.pending,
                session.platform_live_id,
            )
        }),
    decreases events.len(),
{
    if events.len() > 0 {
        lemma_ended_waits(session, poll, events.drop_last());
        let (then, state) = polled(session, poll, events.drop_last());
        if then.stage == PollStage::Ending {
            lemma_queued_waits(state.pending, state.platform_live_id, true);
            lemma_queued_waits(state.pending, state.platform_live_id, false);
        }
    }
}

/// Where a poll ends a session, the session waits to be acknowledged before the end is reported,
/// before another session starts, and before another session is marked or recorded.
pub proof fn law_a_replaced_session_waits_before_the_next_starts(
    session: SessionView,
    poll: PollView,
    events: Seq<PollEvent>,
)
    requires
        poll.stage == PollStage::Asking,
        !poll.end_previous,
        polled(session, poll, events).0.end_previous,
        polled(session, poll, events).0.stage != PollStage::Ending,
    ensures
        session::is_pending(polled(session, poll, events).1.pending, session.platform_live_id),
{
    lemma_ended_waits(session, poll, events);
}

/// When the marker of a running session is to be written, the recorder is in that very session.
pub proof fn law_the_marked_session_is_the_one_entered(
    poll: PollView,
    session: SessionView,
    event: PollEvent,
    step: PollStep,
)
    requires
        poll.is_step_for(session, event, step),
        step is MarkActive,
    ensures
        step->MarkActive_session_id@ == poll.session_after(session, event).platform_live_id,
{
}

/// What the answer of a room leads to. A room that is live without a name for its session is not
/// believed, and nothing changes. Else the poll holds what the answer says; a session that is over is
/// ended first, then a new one is started, then a live session is entered under its own name; and a room
/// that is not live, and was not, needs nothing more.
pub proof fn law_answers_lead_to_what_they_say(
    poll: PollView,
    session: SessionView,
    info: DouyinBasicRoomInfo,
)
    requires
        poll.stage == PollStage::Asking,
    ensures
        ({
            let event = PollEvent::Answered { info };
            let after = poll.after(session, event);
            let seen = poll.session_after(session, event);
            let live = info.status == 0;
            let unnamed = live && text::trimmed(info.room_id_str@).len() == 0;
            let t = session::transition(
                session.room_info.status,
                session.platform_live_id,
                live,
                info.room_id_str@,
            );
            &&& unnamed ==> after.stage == PollStage::Over && seen == session
            &&& !unnamed ==> after.live == live && after.session_id == info.room_id_str@
                && after.hls_url == info.hls_url@ && after.stream_data == info.stream_data@
                && after.end_previous == t.end_previous && after.start_current == t.start_current
            &&& !unnamed ==> (after.stage == PollStage::Ending <==> t.end_previous)
            &&& !unnamed && !t.end_previous ==> (after.stage == PollStage::ClosingStale
                <==> t.start_current)
            &&& !unnamed && !t.end_previous && !t.start_current ==> (after.stage
                == PollStage::Marking <==> live) && (after.stage == PollStage::Over <==> !live)
            &&& !unnamed ==> seen.room_info.status == live
            &&& !unnamed && after.stage == PollStage::Marking ==> seen.platform_live_id
                == info.room_id_str@
            &&& !unnamed && after.stage != PollStage::Marking ==> seen.platform_live_id
                == session.platform_live_id
            &&& seen.pending == session.pending
            &&& seen.live_id == session.live_id
            &&& seen.stream_url == session.stream_url
            &&& seen.ledger == session.ledger
        }),
{
}

/// How a session that is over is ended: its marker is written, its chat is closed, and only where the
/// marker could be written is the end reported, of the session that was. Whether or not it could, the
/// session waits for its handling, and nothing of it is left.
pub proof fn law_sessions_end_marked_closed_and_reported(
    poll: PollView,
    session: SessionView,
    event: PollEvent,
    step: PollStep,
)
    requires
        poll.is_step_for(session, event, step),
    ensures
        ({
            let after = poll.after(session, event);
            let seen = poll.session_after(session, event);
            &&& poll.stage == PollStage::Ending && event is EndMarked ==> after.stage
                == PollStage::ClosingEnded && after.report is Some
                && after.report->0.platform_live_id == session.platform_live_id
                && !after.report->0.room_info.status && step is CloseChat && step->clear_active
                is Some && step->clear_active->0@ == session.platform_live_id && seen.pending
                == session::queued(session.pending, session.platform_live_id, true)
                && !seen.pending_marker_degraded
            &&& poll.stage == PollStage::Ending && event is EndNotMarked ==> after.stage
                == PollStage::ClosingEnded && after.report is None && step is CloseChat
                && step->clear_active is None && seen.pending == session::queued(
                session.pending,
                session.platform_live_id,
                false,
            ) && seen.pending_marker_degraded
            &&& poll.stage == PollStage::ClosingEnded && event is Closed ==> (step is ReportEnd
                <==> poll.report is Some) && (after.stage == PollStage::ReportingEnd
                <==> poll.report is Some) && seen.live_id.len() == 0 && seen.stream_url is None
                && seen.pending == session.pending && !seen.ledger.open
            &&& step is ReportEnd ==> poll.stage == PollStage::ClosingEnded && poll.report is Some
                && step->ReportEnd_recorder.deep_view() == poll.report->0
            &&& step is MarkEnd ==> poll.stage == PollStage::Asking && event is Answered
                && step->MarkEnd_session_id@ == session.platform_live_id
        }),
{
}

/// How a session is started: what is left of an earlier one is closed, the start is reported once, and
/// then the session is entered and marked. It starts only where the answer said so, and after the end
/// of the one before it is done with.
pub proof fn law_sessions_start_after_the_last_is_closed(
    poll: PollView,
    session: SessionView,
    event: PollEvent,
    step: PollStep,
)
    requires
        poll.is_step_for(session, event, step),
    ensures
        ({
            let after = poll.after(session, event);
            let seen = poll.session_after(session, event);
            &&& step is ReportStart <==> poll.stage == PollStage::ClosingStale && event is Closed
            &&& step is ReportStart ==> after.stage == PollStage::ReportingStart
                && seen.platform_live_id.len() == 0 && seen.live_id.len() == 0
                && step->ReportStart_recorder.deep_view() == seen.info()
            &&& poll.stage == PollStage::ReportingStart && event is Reported ==> (after.stage
                == PollStage::Marking <==> poll.live) && (poll.live ==> seen.platform_live_id
                == poll.session_id)
            &&& (poll.stage == PollStage::ReportingEnd && event is Reported) || (poll.stage
                == PollStage::ClosingEnded && event is Closed && poll.report is None) ==> (
            after.stage == PollStage::ClosingStale <==> poll.start_current) && (!poll.start_current
                && poll.live ==> after.stage == PollStage::Marking) && (!poll.start_current
                && !poll.live ==> after.stage == PollStage::Over)
            &&& step is MarkActive <==> after.stage == PollStage::Marking && poll.stage
                != PollStage::Marking
            &&& step is MarkActive ==> step->MarkActive_session_id@ == after.session_id
                && seen.platform_live_id == after.session_id
        }),
{
}

/// A live session's stream is read whether or not its marker could be written; that it could not is
/// remembered, and told once. What is recorded is the stream that was chosen, where recording is wanted
/// and there is one; the poll then says whether there is anything to do.
pub proof fn law_streams_are_chosen_where_recording_is_wanted(
    poll: PollView,
    session: SessionView,
    event: PollEvent,
    step: PollStep,
)
    requires
        poll.is_step_for(session, event, step),
    ensures
        ({
            let after = poll.after(session, event);
            let seen = poll.session_after(session, event);
            &&& poll.stage == PollStage::Marking && (event is ActiveMarked || event
                is ActiveNotMarked) ==> after.stage == PollStage::Choosing && step is ReadStream
                && step->stream_data@ == poll.stream_data && (seen.active_marker_degraded <==> event
                is ActiveNotMarked) && (step->ReadStream_notice is Some <==> event
                is ActiveNotMarked && !session.active_marker_degraded)
            &&& poll.stage == PollStage::Choosing ==> (event matches PollEvent::StreamRead {
                should_record,
                stream,
            } ==> {
                let url = session::chosen_url(poll.hls_url, stream.deep_view());
                &&& after.stage == PollStage::Over
                &&& should_record && url is Some ==> seen.stream_url == url
                &&& !(should_record && url is Some) ==> seen.stream_url == session.stream_url
                &&& step == (PollStep::Done { live: !should_record || url is Some })
                &&& seen.platform_live_id == session.platform_live_id
                &&& seen.live_id == session.live_id
            })
        }),
{
}

/// The place of a stage in the course of a poll.
pub open spec fn place(stage: PollStage) -> int {
    match stage {
        PollStage::Asking => 0,
        PollStage::Ending => 1,
        PollStage::ClosingEnded => 2,
        PollStage::ReportingEnd => 3,
        PollStage::ClosingStale => 4,
        PollStage::ReportingStart => 5,
        PollStage::Marking => 6,
        PollStage::Choosing => 7,
        PollStage::Over => 8,
    }
}

/// A poll only goes forward, and comes to its end: what it waits for takes it on, and what it does not
/// wait for changes neither it nor the session.
pub proof fn law_polls_go_forward(
    poll: PollView,
    session: SessionView,
    event: PollEvent,
    step: PollStep,
)
    requires
        poll.is_step_for(session, event, step),
    ensures
        step is Ignore ==> poll.after(session, event) == poll && poll.session_after(session, event)
            == session,
        !(step is Ignore) ==> place(poll.after(session, event).stage) > place(poll.stage),
        poll.stage == PollStage::Over ==> step is Ignore,
        step is Done <==> poll.stage != PollStage::Over && poll.after(session, event).stage
            == PollStage::Over,
{
}

/// A notification about a marker that could not be written is shown once, and not again while that
/// lasts.
pub proof fn law_unwritten_markers_are_told_once(
    poll: PollView,
    session: SessionView,
    event: PollEvent,
    step: PollStep,
)
    requires
        poll.is_step_for(session, event, step),
        step is CloseChat,
    ensures
        step->CloseChat_notice is Some <==> poll.stage == PollStage::Ending && event is EndNotMarked
            && !session.pending_marker_degraded,
{
}

} // verus!
