//! The live session of a room: polls, transitions between lives, and ends that wait to be
//! acknowledged.
use std::collections::VecDeque;
use vstd::prelude::*;
use crate::api::{BasicRoomView, DouyinBasicRoomInfo};
use crate::ledger::{DanmuLedger, LedgerView};
use crate::platform::{
    PlatformType, RecorderInfo, RecorderInfoView, RoomInfo, RoomInfoView, UserInfo,
    UserInfoView,
};
use crate::text;

verus! {

/// The ended sessions that are looked at in one poll.
pub const DOUYIN_LIVE_END_RETRY_BATCH: usize = 8;

/// Seconds within which the chat connection is closed and drained.
pub const DOUYIN_DANMU_SHUTDOWN_TIMEOUT_SECS: u64 = 25;

/// What a poll means for the sessions of a room.
#[derive(Clone, Copy, Debug, PartialEq, Eq, Structural)]
pub struct SessionTransition {
    pub end_previous: bool,
    pub start_current: bool,
}

/// What a poll means for the sessions of a room.
pub open spec fn transition(
    was_live: bool,
    active: Seq<char>,
    is_live: bool,
    current: Seq<char>,
) -> SessionTransition {
    let replaced = is_live && active.len() > 0 && active != current;
    SessionTransition {
        end_previous: (!is_live && (was_live || active.len() > 0)) || replaced,
        start_current: is_live && (!was_live || replaced),
    }
}

/// What a poll means for the sessions of a room: a session ends where the room went offline or
/// shows another session, and one starts where the room went live or shows another session.
pub fn session_transition(
    was_live: bool,
    active_session_id: &str,
    is_live: bool,
    current_session_id: &str,
) -> (res: SessionTransition)
    ensures
        res == transition(was_live, active_session_id@, is_live, current_session_id@),
{
    let has_active = !text::is_empty(active_session_id);
    let session_replaced = is_live && has_active && !text::same(
        active_session_id,
        current_session_id,
    );
    SessionTransition {
        end_previous: (was_live && !is_live) || (!was_live && has_active && !is_live)
            || session_replaced,
        start_current: is_live && (!was_live || session_replaced),
    }
}

/// A session that is replaced while the room stays live ends, and the new one starts; a session
/// that goes on does neither.
pub proof fn law_a_replaced_session_ends(active: Seq<char>, current: Seq<char>, was_live: bool)
    requires
        active.len() > 0,
    ensures
        active != current ==> transition(was_live, active, true, current) == (SessionTransition {
            end_previous: true,
            start_current: true,
        }),
        transition(true, active, true, active) == (SessionTransition {
            end_previous: false,
            start_current: false,
        }),
        transition(was_live, active, false, current) == (SessionTransition {
            end_previous: true,
            start_current: false,
        }),
{
}

/// The addresses of one quality of a stream.
pub struct StreamMain {
    pub flv: String,
    pub hls: String,
}

/// One quality of a stream.
pub struct StreamOrigin {
    pub main: StreamMain,
}

/// The qualities of a stream.
pub struct StreamQualities {
    pub origin: StreamOrigin,
}

/// The stream data of a room.
pub struct DouyinStream {
    pub data: StreamQualities,
}

impl DeepView for DouyinStream {
    type V = Seq<char>;

    open spec fn deep_view(&self) -> Seq<char> {
        self.data.origin.main.hls@
    }
}

/// The best address of a stream, where the stream data has one.
pub fn get_best_stream_url(stream: &DouyinStream) -> (res: Option<String>)
    ensures
        res.deep_view() == (if stream.deep_view().len() > 0 {
            Some(stream.deep_view())
        } else {
            None
        }),
{
    if text::is_empty(stream.data.origin.main.hls.as_str()) {
        return None;
    }
    Some(text::copy(stream.data.origin.main.hls.as_str()))
}

/// The address that is recorded: that of the stream data, else the direct one.
pub open spec fn chosen_url(hls_url: Seq<char>, stream: Option<Seq<char>>) -> Option<Seq<char>> {
    if stream is Some && stream->0.len() > 0 {
        stream
    } else if text::trimmed(hls_url).len() > 0 {
        Some(text::trimmed(hls_url))
    } else {
        None
    }
}

/// The address that is recorded. `stream` is the stream data, where it has the expected form.
pub fn select_stream_url(hls_url: &str, stream: &Option<DouyinStream>) -> (res: Option<String>)
    ensures
        res.deep_view() == chosen_url(hls_url@, stream.deep_view()),
{
    if let Some(s) = stream {
        if let Some(url) = get_best_stream_url(s) {
            return Some(url);
        }
    }
    let direct = text::trim(hls_url);
    if text::is_empty(direct.as_str()) {
        None
    } else {
        Some(direct)
    }
}

/// A session that ended and waits to be acknowledged.
pub struct PendingLiveEnd {
    pub session_id: String,
    pub marker_persisted: bool,
}

impl DeepView for PendingLiveEnd {
    type V = (Seq<char>, bool);

    open spec fn deep_view(&self) -> (Seq<char>, bool) {
        (self.session_id@, self.marker_persisted)
    }
}

/// The state of a room's recorder.
pub struct DouyinSession {
    pub room_id: String,
    pub enabled: bool,
    pub is_recording: bool,
    pub room_info: RoomInfo,
    pub user_info: UserInfo,
    pub platform_live_id: String,
    pub live_id: String,
    pub stream_url: Option<String>,
    pub pending_live_ends: VecDeque<PendingLiveEnd>,
    pub active_marker_degraded: bool,
    pub pending_marker_degraded: bool,
    pub ledger: DanmuLedger,
}

/// The model of the state of a room's recorder.
#[verifier::ext_equal]
pub struct SessionView {
    pub room_id: Seq<char>,
    pub enabled: bool,
    pub is_recording: bool,
    pub room_info: RoomInfoView,
    pub user_info: UserInfoView,
    pub platform_live_id: Seq<char>,
    pub live_id: Seq<char>,
    pub stream_url: Option<Seq<char>>,
    pub pending: Seq<(Seq<char>, bool)>,
    pub active_marker_degraded: bool,
    pub pending_marker_degraded: bool,
    pub ledger: LedgerView,
}

impl DeepView for DouyinSession {
    type V = SessionView;

    open spec fn deep_view(&self) -> SessionView {
        SessionView {
            room_id: self.room_id@,
            enabled: self.enabled,
            is_recording: self.is_recording,
            room_info: self.room_info.deep_view(),
            user_info: self.user_info.deep_view(),
            platform_live_id: self.platform_live_id@,
            live_id: self.live_id@,
            stream_url: self.stream_url.deep_view(),
            pending: self.pending_live_ends@.map_values(|p: PendingLiveEnd| p.deep_view()),
            active_marker_degraded: self.active_marker_degraded,
            pending_marker_degraded: self.pending_marker_degraded,
            ledger: self.ledger.deep_view(),
        }
    }
}

/// Whether each session waits once.
pub open spec fn distinct(pending: Seq<(Seq<char>, bool)>) -> bool {
    forall|i: int, j: int|
        #![trigger pending[i], pending[j]]
        0 <= i < j < pending.len() ==> pending[i].0 != pending[j].0
}

/// Whether a session waits to be acknowledged.
pub open spec fn is_pending(pending: Seq<(Seq<char>, bool)>, session: Seq<char>) -> bool {
    exists|i: int| 0 <= i < pending.len() && (#[trigger] pending[i]).0 == session
}

/// The waiting sessions after one ended: a session that waits already keeps its place, and its
/// marker counts once it was written.
pub open spec fn queued(
    pending: Seq<(Seq<char>, bool)>,
    session: Seq<char>,
    marker: bool,
) -> Seq<(Seq<char>, bool)>
    decreases pending.len(),
{
    if pending.len() == 0 {
        seq![(session, marker)]
    } else if pending[0].0 == session {
        seq![(session, pending[0].1 || marker)] + pending.drop_first()
    } else {
        seq![pending[0]] + queued(pending.drop_first(), session, marker)
    }
}

/// The text, or another where it is empty.
pub open spec fn text_or(s: Seq<char>, other: Seq<char>) -> Seq<char> {
    if s.len() == 0 {
        other
    } else {
        s
    }
}

fn copy_or(s: &str, other: &str) -> (res: String)
    ensures
        res@ == text_or(s@, other@),
{
    if text::is_empty(s) {
        text::copy(other)
    } else {
        text::copy(s)
    }
}

impl SessionView {
    /// What is shown of the recorder.
    pub open spec fn info(self) -> RecorderInfoView {
        RecorderInfoView {
            platform_live_id: self.platform_live_id,
            live_id: self.live_id,
            recording: self.is_recording,
            enabled: self.enabled,
            room_info: self.room_info,
            user_info: self.user_info,
        }
    }

    /// The state after a poll was read; what the poll leaves out stays as it was.
    pub open spec fn observed(self, info: BasicRoomView) -> SessionView {
        SessionView {
            room_info: RoomInfoView {
                platform: PlatformType::Douyin.name(),
                room_id: self.room_id,
                room_title: text_or(info.room_title, self.room_info.room_title),
                room_cover: match info.cover {
                    Some(c) => c,
                    None => self.room_info.room_cover,
                },
                status: info.status == 0,
            },
            user_info: UserInfoView {
                user_id: text_or(info.sec_user_id, self.user_info.user_id),
                user_name: text_or(info.user_name, self.user_info.user_name),
                user_avatar: text_or(info.user_avatar, self.user_info.user_avatar),
            },
            ..self
        }
    }

    /// The state after a recording attempt: its session goes on.
    pub open spec fn recording_reset(self) -> SessionView {
        SessionView { stream_url: None, live_id: Seq::empty(), ..self }
    }

    /// The state after a session: nothing of it is left but what waits to be acknowledged.
    pub open spec fn live_reset(self) -> SessionView {
        SessionView {
            stream_url: None,
            live_id: Seq::empty(),
            platform_live_id: Seq::empty(),
            ledger: LedgerView {
                recent: Seq::empty(),
                pending: Seq::empty(),
                open: false,
                ..self.ledger
            },
            ..self
        }
    }

    /// The state once the session is known to be over, before its chat is closed; `marker` tells
    /// whether its marker was written.
    pub open spec fn over(self, marker: bool) -> SessionView {
        SessionView {
            pending: queued(self.pending, self.platform_live_id, marker),
            pending_marker_degraded: !marker,
            ..self
        }
    }

    /// The state after the session ended.
    pub open spec fn ended(self, marker: bool) -> SessionView {
        self.over(marker).live_reset()
    }

    /// What is told of the session when it ends.
    pub open spec fn last_report(self) -> RecorderInfoView {
        RecorderInfoView {
            room_info: RoomInfoView { status: false, ..self.room_info },
            ..self.info()
        }
    }

    /// Whether the room is live in this very session.
    pub open spec fn is_live_in(self, session: Seq<char>) -> bool {
        self.room_info.status && self.platform_live_id == session
    }

    /// What is told of an ended session when it is reported again.
    pub open spec fn end_report(self, session: Seq<char>) -> RecorderInfoView {
        RecorderInfoView {
            platform_live_id: session,
            live_id: Seq::empty(),
            recording: false,
            room_info: RoomInfoView { status: false, ..self.room_info },
            ..self.info()
        }
    }
}

/// What a poll comes to.
#[derive(Clone, Copy, Debug, PartialEq, Eq, Structural)]
pub enum StatusStep {
    MissingRoomId,
    Observed { end_previous: bool, start_current: bool, live: bool },
}

/// What is done about a session that ended.
pub struct EndedLive {
    pub session_id: String,
    pub recorder: RecorderInfo,
    pub broadcast: bool,
    pub notify: bool,
}

/// What became of the marker of a waiting session: for one that was written, whether it is still
/// there; for one that was not, whether it could be written now.
pub enum MarkerOutcome {
    Present,
    Gone,
    Unknown,
    Persisted,
    PersistFailed,
}

impl MarkerOutcome {
    /// Whether the outcome is one of a marker that was written before.
    pub open spec fn of_written(self) -> bool {
        self is Present || self is Gone || self is Unknown
    }
}

/// What is done about a waiting session.
pub struct PendingStep {
    pub requeued: bool,
    pub clear_active: bool,
    pub notify: bool,
    pub report: Option<RecorderInfo>,
}

impl DouyinSession {
    /// The state is consistent: the remembered keys of chat events are valid.
    pub open spec fn wf(&self) -> bool {
        self.ledger.recent.wf()
    }

    /// Whether an active-session marker found at the start is left over from a session that ended
    /// already.
    pub fn startup_clears_active(active: &str, pending: &Vec<String>) -> (res: bool)
        ensures
            res == (active@.len() > 0 && pending.deep_view().contains(active@)),
    {
        !text::is_empty(active) && text::list_contains(pending, active)
    }

    /// A recorder at its start, with the session that was interrupted and those that wait.
    pub fn new(room_id: &str, enabled: bool, recovered_session: &str, pending: &Vec<String>) -> (res:
        DouyinSession)
        ensures
            res.wf(),
            res.deep_view() == (SessionView {
                room_id: room_id@,
                enabled,
                is_recording: false,
                room_info: RoomInfoView {
                    platform: Seq::empty(),
                    room_id: Seq::empty(),
                    room_title: Seq::empty(),
                    room_cover: Seq::empty(),
                    status: false,
                },
                user_info: UserInfoView {
                    user_id: Seq::empty(),
                    user_name: Seq::empty(),
                    user_avatar: Seq::empty(),
                },
                platform_live_id: recovered_session@,
                live_id: Seq::empty(),
                stream_url: None,
                pending: pending.deep_view().map_values(|s: Seq<char>| (s, true)),
                active_marker_degraded: false,
                pending_marker_degraded: false,
                ledger: LedgerView {
                    recent: Seq::empty(),
                    pending: Seq::empty(),
                    generation: 0,
                    open: false,
                    degraded: false,
                },
            }),
    {
        let mut queue: VecDeque<PendingLiveEnd> = VecDeque::new();
        let mut i: usize = 0;
        while i < pending.len()
            invariant
                i <= pending@.len(),
                queue@.len() == i,
                forall|j: int|
                    0 <= j < i ==> (#[trigger] queue@[j]).deep_view() == (pending@[j]@, true),
            decreases pending@.len() - i,
        {
            queue.push_back(
                PendingLiveEnd {
                    session_id: text::copy(pending[i].as_str()),
                    marker_persisted: true,
                },
            );
            i += 1;
        }
        let res = DouyinSession {
            room_id: text::copy(room_id),
            enabled,
            is_recording: false,
            room_info: RoomInfo::default(),
            user_info: UserInfo::default(),
            platform_live_id: text::copy(recovered_session),
            live_id: String::new(),
            stream_url: None,
            pending_live_ends: queue,
            active_marker_degraded: false,
            pending_marker_degraded: false,
            ledger: DanmuLedger::new(),
        };
        assert(res.deep_view().pending =~= pending.deep_view().map_values(
            |s: Seq<char>| (s, true),
        ));
        res
    }

    /// What is shown of the recorder.
    pub fn info(&self) -> (res: RecorderInfo)
        ensures
            res.deep_view() == self.deep_view().info(),
    {
        RecorderInfo {
            platform_live_id: text::copy(self.platform_live_id.as_str()),
            live_id: text::copy(self.live_id.as_str()),
            recording: self.is_recording,
            enabled: self.enabled,
            room_info: self.room_info.clone(),
            user_info: self.user_info.clone(),
        }
    }

    /// Reads a poll: what it shows is taken over, and it is told what the poll means for the
    /// sessions. A live room without its identifier is not believed, and nothing changes.
    pub fn check_status(&mut self, info: &DouyinBasicRoomInfo) -> (res: StatusStep)
        requires
            old(self).wf(),
        ensures
            final(self).wf(),
            info.status == 0 && text::trimmed(info.room_id_str@).len() == 0 ==> res
                == StatusStep::MissingRoomId && *final(self) == *old(self),
            !(info.status == 0 && text::trimmed(info.room_id_str@).len() == 0) ==> {
                let t = transition(
                    old(self).room_info.status,
                    old(self).platform_live_id@,
                    info.status == 0,
                    info.room_id_str@,
                );
                &&& final(self).deep_view() == old(self).deep_view().observed(info.deep_view())
                &&& res == (StatusStep::Observed {
                    end_previous: t.end_previous,
                    start_current: t.start_current,
                    live: info.status == 0,
                })
            },
    {
        let live = info.status == 0;
        let room = text::trim(info.room_id_str.as_str());
        if live && text::is_empty(room.as_str()) {
            return StatusStep::MissingRoomId;
        }
        let was_live = self.room_info.status;
        let room_cover = match &info.cover {
            Some(c) => text::copy(c.as_str()),
            None => text::copy(self.room_info.room_cover.as_str()),
        };
        self.room_info = RoomInfo {
            platform: text::copy(PlatformType::Douyin.as_str()),
            room_id: text::copy(self.room_id.as_str()),
            room_title: copy_or(info.room_title.as_str(), self.room_info.room_title.as_str()),
            room_cover,
            status: live,
        };
        self.user_info = UserInfo {
            user_id: copy_or(info.sec_user_id.as_str(), self.user_info.user_id.as_str()),
            user_name: copy_or(info.user_name.as_str(), self.user_info.user_name.as_str()),
            user_avatar: copy_or(info.user_avatar.as_str(), self.user_info.user_avatar.as_str()),
        };
        let t = session_transition(
            was_live,
            self.platform_live_id.as_str(),
            live,
            info.room_id_str.as_str(),
        );
        StatusStep::Observed {
            end_previous: t.end_previous,
            start_current: t.start_current,
            live,
        }
    }

    /// Takes over the session that a live room shows.
    pub fn enter_session(&mut self, session_id: &str)
        requires
            old(self).wf(),
        ensures
            final(self).wf(),
            final(self).deep_view() == (SessionView {
                platform_live_id: session_id@,
                ..old(self).deep_view()
            }),
    {
        self.platform_live_id = text::copy(session_id);
    }

    /// Takes note of whether the marker of the session could be written; tells whether the user is
    /// notified: of the first failure in a row.
    pub fn active_marker_result(&mut self, written: bool) -> (res: bool)
        requires
            old(self).wf(),
        ensures
            final(self).wf(),
            final(self).deep_view() == (SessionView {
                active_marker_degraded: !written,
                ..old(self).deep_view()
            }),
            res == (!written && !old(self).active_marker_degraded),
    {
        let notify = !written && !self.active_marker_degraded;
        self.active_marker_degraded = !written;
        notify
    }

    /// Ends a poll of a live room: without recording nothing is chosen; else an address is, and
    /// the poll fails where there is none.
    pub fn choose_stream(
        &mut self,
        should_record: bool,
        hls_url: &str,
        stream: &Option<DouyinStream>,
    ) -> (res: bool)
        requires
            old(self).wf(),
        ensures
            final(self).wf(),
            !should_record ==> res && *final(self) == *old(self),
            should_record ==> match chosen_url(hls_url@, stream.deep_view()) {
                Some(url) => res && final(self).deep_view() == (SessionView {
                    stream_url: Some(url),
                    ..old(self).deep_view()
                }),
                None => !res && *final(self) == *old(self),
            },
    {
        if !should_record {
            return true;
        }
        match select_stream_url(hls_url, stream) {
            Some(url) => {
                self.stream_url = Some(url);
                true
            },
            None => false,
        }
    }

    /// Ends a recording attempt.
    pub fn reset_recording(&mut self)
        requires
            old(self).wf(),
        ensures
            final(self).wf(),
            final(self).deep_view() == old(self).deep_view().recording_reset(),
    {
        self.stream_url = None;
        self.live_id = String::new();
        assert(self.live_id@ =~= Seq::<char>::empty());
    }

    /// Ends a session, after its chat connection was closed and drained.
    pub fn reset_live(&mut self)
        requires
            old(self).wf(),
        ensures
            final(self).wf(),
            final(self).deep_view() == old(self).deep_view().live_reset(),
    {
        self.reset_recording();
        self.platform_live_id = String::new();
        self.ledger.reset();
        assert(self.platform_live_id@ =~= Seq::<char>::empty());
    }

    /// Puts a session that ended among those that wait.
    fn queue_live_end(&mut self, session_id: &str, marker_persisted: bool)
        requires
            old(self).wf(),
        ensures
            final(self).wf(),
            final(self).deep_view() == (SessionView {
                pending: queued(old(self).deep_view().pending, session_id@, marker_persisted),
                ..old(self).deep_view()
            }),
    {
        let ghost all = self.deep_view().pending;
        let n = self.pending_live_ends.len();
        let mut p: usize = 0;
        while p < n && !text::same(self.pending_live_ends[p].session_id.as_str(), session_id)
            invariant
                n == self.pending_live_ends@.len(),
                p <= n,
                *self == *old(self),
                all == self.deep_view().pending,
                forall|j: int| 0 <= j < p ==> (#[trigger] all[j]).0 != session_id@,
            decreases n - p,
        {
            assert(all[p as int].0 == self.pending_live_ends@[p as int].session_id@);
            p += 1;
        }
        proof {
            if p < n {
                assert(all[p as int].0 == self.pending_live_ends@[p as int].session_id@);
            }
            lemma_queued_at(all, session_id@, marker_persisted, p as int);
        }
        if p < n {
            let persisted = self.pending_live_ends[p].marker_persisted || marker_persisted;
            let removed = self.pending_live_ends.remove(p);
            self.pending_live_ends.insert(
                p,
                PendingLiveEnd { session_id: text::copy(session_id), marker_persisted: persisted },
            );
            assert(self.deep_view().pending =~= all.update(p as int, (session_id@, persisted)));
        } else {
            self.pending_live_ends.push_back(
                PendingLiveEnd { session_id: text::copy(session_id), marker_persisted },
            );
            assert(self.deep_view().pending =~= all.push((session_id@, marker_persisted)));
        }
    }

    /// Takes note that the session is over, after its marker was written or not. It waits to be
    /// acknowledged either way, and it is reported only where its marker was written.
    pub fn end_session(&mut self, marker_persisted: bool) -> (res: EndedLive)
        requires
            old(self).wf(),
        ensures
            final(self).wf(),
            final(self).deep_view() == old(self).deep_view().over(marker_persisted),
            res.session_id@ == old(self).platform_live_id@,
            res.recorder.deep_view() == old(self).deep_view().last_report(),
            res.broadcast == marker_persisted,
            res.notify == (!marker_persisted && !old(self).pending_marker_degraded),
    {
        let mut recorder = self.info();
        recorder.room_info.status = false;
        let session_id = text::copy(self.platform_live_id.as_str());
        let notify = !marker_persisted && !self.pending_marker_degraded;
        self.pending_marker_degraded = !marker_persisted;
        self.queue_live_end(session_id.as_str(), marker_persisted);
        EndedLive { session_id, recorder, broadcast: marker_persisted, notify }
    }

    /// Ends the session where there is no chat to close.
    pub fn emit_live_end_and_reset(&mut self, marker_persisted: bool) -> (res: EndedLive)
        requires
            old(self).wf(),
        ensures
            final(self).wf(),
            final(self).deep_view() == old(self).deep_view().ended(marker_persisted),
            res.session_id@ == old(self).platform_live_id@,
            res.recorder.deep_view() == old(self).deep_view().last_report(),
            res.broadcast == marker_persisted,
            res.notify == (!marker_persisted && !old(self).pending_marker_degraded),
    {
        let ended = self.end_session(marker_persisted);
        self.reset_live();
        ended
    }

    /// The number of waiting sessions that are looked at in one poll.
    pub fn retry_batch(&self) -> (res: usize)
        ensures
            res == (if self.deep_view().pending.len() < DOUYIN_LIVE_END_RETRY_BATCH {
                self.deep_view().pending.len() as int
            } else {
                DOUYIN_LIVE_END_RETRY_BATCH as int
            }),
    {
        let n = self.pending_live_ends.len();
        if n < DOUYIN_LIVE_END_RETRY_BATCH {
            n
        } else {
            DOUYIN_LIVE_END_RETRY_BATCH
        }
    }

    /// Takes the session that waits longest.
    pub fn take_pending(&mut self) -> (res: Option<PendingLiveEnd>)
        requires
            old(self).wf(),
        ensures
            final(self).wf(),
            old(self).deep_view().pending.len() == 0 ==> res is None && final(self).deep_view()
                == old(self).deep_view(),
            old(self).deep_view().pending.len() > 0 ==> {
                &&& res matches Some(p) && p.deep_view() == old(self).deep_view().pending[0]
                &&& final(self).deep_view() == (SessionView {
                    pending: old(self).deep_view().pending.drop_first(),
                    ..old(self).deep_view()
                })
            },
    {
        let ghost all = self.deep_view().pending;
        let taken = self.pending_live_ends.pop_front();
        proof {
            if all.len() > 0 {
                assert(self.deep_view().pending =~= all.drop_first());
            } else {
                assert(self.deep_view().pending =~= all);
            }
        }
        taken
    }

    /// Decides about a session that was taken, from what became of its marker. A session whose
    /// marker is gone was acknowledged and is done with; any other waits on, behind the rest, and
    /// is reported again where its marker is written.
    pub fn settle_pending(&mut self, pending: PendingLiveEnd, outcome: MarkerOutcome) -> (res:
        PendingStep)
        requires
            old(self).wf(),
            pending.marker_persisted == outcome.of_written(),
        ensures
            final(self).wf(),
            res.requeued == !(outcome is Gone),
            final(self).deep_view() == (SessionView {
                pending: if outcome is Gone {
                    old(self).deep_view().pending
                } else {
                    old(self).deep_view().pending.push(
                        (pending.session_id@, !(outcome is PersistFailed)),
                    )
                },
                pending_marker_degraded: if outcome is Persisted {
                    false
                } else if outcome is PersistFailed {
                    true
                } else {
                    old(self).pending_marker_degraded
                },
                ..old(self).deep_view()
            }),
            res.clear_active == (outcome is Persisted && !old(self).deep_view().is_live_in(
                pending.session_id@,
            )),
            res.notify == (outcome is PersistFailed && !old(self).pending_marker_degraded),
            res.report.deep_view() == (if outcome is Gone || outcome is PersistFailed {
                None
            } else {
                Some(old(self).deep_view().end_report(pending.session_id@))
            }),
    {
        let ghost all = self.deep_view().pending;
        let ghost session = pending.session_id@;
        let mut clear_active: bool = false;
        let mut notify: bool = false;
        let mut persisted: bool = pending.marker_persisted;
        match outcome {
            MarkerOutcome::Gone => {
                return PendingStep {
                    requeued: false,
                    clear_active: false,
                    notify: false,
                    report: None,
                };
            },
            MarkerOutcome::Present => {},
            MarkerOutcome::Unknown => {},
            MarkerOutcome::Persisted => {
                persisted = true;
                self.pending_marker_degraded = false;
                let same_id_is_live = self.room_info.status && text::same(
                    self.platform_live_id.as_str(),
                    pending.session_id.as_str(),
                );
                clear_active = !same_id_is_live;
            },
            MarkerOutcome::PersistFailed => {
                notify = !self.pending_marker_degraded;
                self.pending_marker_degraded = true;
            },
        }
        let report = if persisted {
            let mut recorder = self.info();
            recorder.platform_live_id = text::copy(pending.session_id.as_str());
            recorder.live_id = String::new();
            recorder.recording = false;
            recorder.room_info.status = false;
            assert(recorder.live_id@ =~= Seq::<char>::empty());
            Some(recorder)
        } else {
            None
        };
        self.pending_live_ends.push_back(
            PendingLiveEnd {
                session_id: text::copy(pending.session_id.as_str()),
                marker_persisted: persisted,
            },
        );
        assert(self.deep_view().pending =~= all.push((session, persisted)));
        PendingStep { requeued: true, clear_active, notify, report }
    }

    /// Takes over the event file of a recording that starts, after the file before it was sealed.
    pub fn archive_started(&mut self, live_id: &str) -> (res: u64)
        requires
            old(self).wf(),
        ensures
            final(self).wf(),
            final(self).deep_view() == (SessionView {
                live_id: live_id@,
                ledger: LedgerView {
                    degraded: false,
                    ..old(self).deep_view().ledger.switched()
                },
                ..old(self).deep_view()
            }),
            res == final(self).deep_view().ledger.generation,
    {
        let generation = self.ledger.replace_danmu_storage();
        self.ledger.degraded = false;
        self.live_id = text::copy(live_id);
        generation
    }

    /// Takes note that the event file of a recording could not be made; tells whether the user is
    /// notified: of the first failure in a row.
    pub fn storage_failed(&mut self) -> (res: bool)
        requires
            old(self).wf(),
        ensures
            final(self).wf(),
            res == !old(self).ledger.degraded,
            final(self).deep_view() == (SessionView {
                ledger: LedgerView { degraded: true, ..old(self).deep_view().ledger },
                ..old(self).deep_view()
            }),
    {
        let notify = !self.ledger.degraded;
        self.ledger.degraded = true;
        notify
    }

    /// Takes note of whether the recorder records.
    pub fn set_recording(&mut self, recording: bool) -> (res: bool)
        requires
            old(self).wf(),
        ensures
            final(self).wf(),
            res == old(self).is_recording,
            final(self).deep_view() == (SessionView {
                is_recording: recording,
                ..old(self).deep_view()
            }),
    {
        let was = self.is_recording;
        self.is_recording = recording;
        was
    }
}

proof fn lemma_queued_at(pending: Seq<(Seq<char>, bool)>, session: Seq<char>, marker: bool, p: int)
    requires
        0 <= p <= pending.len(),
        p < pending.len() ==> pending[p].0 == session,
        forall|j: int| 0 <= j < p ==> (#[trigger] pending[j]).0 != session,
    ensures
        queued(pending, session, marker) == (if p < pending.len() {
            pending.update(p, (session, pending[p].1 || marker))
        } else {
            pending.push((session, marker))
        }),
    decreases p,
{
    if p == 0 {
        if pending.len() > 0 {
            assert(seq![(session, pending[0].1 || marker)] + pending.drop_first()
                =~= pending.update(0, (session, pending[0].1 || marker)));
        } else {
            assert(seq![(session, marker)] =~= pending.push((session, marker)));
        }
    } else {
        let rest = pending.drop_first();
        assert(pending[0].0 != session);
        assert forall|j: int| 0 <= j < p - 1 implies (#[trigger] rest[j]).0 != session by {
            assert(rest[j] == pending[j + 1]);
        }
        lemma_queued_at(rest, session, marker, p - 1);
        if p < pending.len() {
            assert(rest[p - 1] == pending[p]);
            assert(seq![pending[0]] + rest.update(p - 1, (session, pending[p].1 || marker))
                =~= pending.update(p, (session, pending[p].1 || marker)));
        } else {
            assert(seq![pending[0]] + rest.push((session, marker)) =~= pending.push(
                (session, marker),
            ));
        }
    }
}

proof fn lemma_queued_distinct(pending: Seq<(Seq<char>, bool)>, session: Seq<char>, marker: bool)
    requires
        distinct(pending),
    ensures
        distinct(queued(pending, session, marker)),
        forall|s: Seq<char>| #[trigger]
            is_pending(queued(pending, session, marker), s) <==> is_pending(pending, s) || s
                == session,
    decreases pending.len(),
{
    let out = queued(pending, session, marker);
    if pending.len() == 0 {
        assert(out[0].0 == session);
    } else if pending[0].0 == session {
        assert forall|i: int, j: int| #![trigger out[i], out[j]] 0 <= i < j < out.len() implies out[i].0
            != out[j].0 by {
            assert(pending[i].0 != pending[j].0);
        }
        assert forall|s: Seq<char>| #[trigger] is_pending(out, s) <==> is_pending(pending, s) || s
            == session by {
            if is_pending(out, s) {
                let i = choose|i: int| 0 <= i < out.len() && (#[trigger] out[i]).0 == s;
                assert(pending[i].0 == s);
            }
            if is_pending(pending, s) {
                let i = choose|i: int| 0 <= i < pending.len() && (#[trigger] pending[i]).0 == s;
                assert(out[i].0 == s);
            }
            assert(out[0].0 == session);
        }
    } else {
        let rest = pending.drop_first();
        assert forall|i: int, j: int|
            #![trigger rest[i], rest[j]]
            0 <= i < j < rest.len() implies rest[i].0 != rest[j].0 by {
            assert(pending[i + 1].0 != pending[j + 1].0);
        }
        lemma_queued_distinct(rest, session, marker);
        let tail = queued(rest, session, marker);
        assert forall|i: int, j: int| #![trigger out[i], out[j]] 0 <= i < j < out.len() implies out[i].0
            != out[j].0 by {
            assert(out[j] == tail[j - 1]);
            if i == 0 {
                assert(is_pending(tail, out[j].0));
                if is_pending(rest, out[j].0) {
                    let k = choose|k: int| 0 <= k < rest.len() && (#[trigger] rest[k]).0 == out[j].0;
                    assert(pending[0].0 != pending[k + 1].0);
                }
            } else {
                assert(out[i] == tail[i - 1]);
            }
        }
        assert forall|s: Seq<char>| #[trigger] is_pending(out, s) <==> is_pending(pending, s) || s
            == session by {
            assert(is_pending(tail, s) <==> is_pending(rest, s) || s == session);
            if is_pending(out, s) {
                let i = choose|i: int| 0 <= i < out.len() && (#[trigger] out[i]).0 == s;
                if i > 0 {
                    assert(tail[i - 1].0 == s);
                    if is_pending(rest, s) {
                        let k = choose|k: int| 0 <= k < rest.len() && (#[trigger] rest[k]).0 == s;
                        assert(pending[k + 1].0 == s);
                    }
                } else {
                    assert(pending[0].0 == s);
                }
            }
            if is_pending(pending, s) || s == session {
                if pending[0].0 == s {
                    assert(out[0].0 == s);
                } else {
                    if is_pending(pending, s) {
                        let i = choose|i: int|
                            0 <= i < pending.len() && (#[trigger] pending[i]).0 == s;
                        assert(rest[i - 1].0 == s);
                    }
                    let k = choose|k: int| 0 <= k < tail.len() && (#[trigger] tail[k]).0 == s;
                    assert(out[k + 1].0 == s);
                }
            }
        }
    }
}

/// A session that ends waits to be acknowledged, whether or not its marker could be written, and
/// the sessions that waited before still do.
pub proof fn law_an_ended_session_waits(state: SessionView, marker: bool)
    requires
        distinct(state.pending),
    ensures
        is_pending(state.ended(marker).pending, state.platform_live_id),
        forall|s: Seq<char>| #[trigger]
            is_pending(state.pending, s) ==> is_pending(state.ended(marker).pending, s),
        distinct(state.ended(marker).pending),
        state.ended(marker).platform_live_id.len() == 0,
{
    lemma_queued_distinct(state.pending, state.platform_live_id, marker);
    assert(is_pending(
        queued(state.pending, state.platform_live_id, marker),
        state.platform_live_id,
    ));
}

/// The waiting sessions after one look at the one that waits longest, from what became of its
/// marker.
pub open spec fn rotated(pending: Seq<(Seq<char>, bool)>, outcome: MarkerOutcome) -> Seq<
    (Seq<char>, bool),
> {
    if outcome is Gone {
        pending.drop_first()
    } else {
        pending.drop_first().push((pending[0].0, !(outcome is PersistFailed)))
    }
}

/// A session waits until its marker is gone: looking at it moves it behind the others and takes it
/// away only where its marker was written and is there no longer. Sessions stay distinct.
pub proof fn law_a_session_waits_until_it_is_acknowledged(
    pending: Seq<(Seq<char>, bool)>,
    outcome: MarkerOutcome,
)
    requires
        pending.len() > 0,
        distinct(pending),
    ensures
        distinct(rotated(pending, outcome)),
        forall|s: Seq<char>| #[trigger]
            is_pending(rotated(pending, outcome), s) <==> is_pending(pending, s) && !(outcome is Gone
                && s == pending[0].0),
{
    let out = rotated(pending, outcome);
    let rest = pending.drop_first();
    assert forall|i: int, j: int| #![trigger out[i], out[j]] 0 <= i < j < out.len() implies out[i].0
        != out[j].0 by {
        assert(pending[i + 1].0 != pending[0].0);
        if j < rest.len() {
            assert(pending[i + 1].0 != pending[j + 1].0);
        }
    }
    assert forall|s: Seq<char>| #[trigger] is_pending(out, s) <==> is_pending(pending, s) && !(
    outcome is Gone && s == pending[0].0) by {
        if is_pending(out, s) {
            let i = choose|i: int| 0 <= i < out.len() && (#[trigger] out[i]).0 == s;
            if i < rest.len() {
                assert(pending[i + 1].0 == s);
                assert(pending[0].0 != pending[i + 1].0);
            } else {
                assert(pending[0].0 == s);
            }
        }
        if is_pending(pending, s) && !(outcome is Gone && s == pending[0].0) {
            let i = choose|i: int| 0 <= i < pending.len() && (#[trigger] pending[i]).0 == s;
            if i > 0 {
                assert(out[i - 1].0 == s);
            } else {
                assert(out[out.len() - 1].0 == s);
            }
        }
    }
}

/// A recording attempt that ends keeps the session, so that all attempts of a live belong
/// together; only the end of the live takes the session away.
pub proof fn law_attempts_keep_their_session(state: SessionView)
    ensures
        state.recording_reset().platform_live_id == state.platform_live_id,
        state.recording_reset().ledger == state.ledger,
        state.recording_reset().pending == state.pending,
        state.recording_reset().live_id.len() == 0,
        state.live_reset().platform_live_id.len() == 0,
        !state.live_reset().ledger.open,
        state.live_reset().pending == state.pending,
{
}

/// The wait in seconds after an event file could not be made.
pub fn storage_retry_secs(update_interval: u64) -> (res: u64)
    ensures
        res == (if update_interval > 5 {
            update_interval
        } else {
            5u64
        }),
{
    if update_interval > 5 {
        update_interval
    } else {
        5
    }
}

/// Whether a chat task is started: where there is none or the last one has finished.
pub fn needs_danmu_task(finished: Option<bool>) -> (res: bool)
    ensures
        res == (match finished {
            Some(f) => f,
            None => true,
        }),
{
    match finished {
        Some(f) => f,
        None => true,
    }
}

/// Whether a cover is downloaded.
pub fn wants_cover(cover_url: &str) -> (res: bool)
    ensures
        res == (text::trimmed(cover_url@).len() > 0),
{
    let url = text::trim(cover_url);
    !text::is_empty(url.as_str())
}

/// How closing the chat connection went.
pub enum StopOutcome {
    NoStream,
    Stopped,
    Failed,
    TimedOut,
}

/// Whether the chat task is given time to finish what was received: not where there is no
/// connection or closing it timed out.
pub fn waits_for_drain(outcome: StopOutcome) -> (res: bool)
    ensures
        res == (outcome is Stopped || outcome is Failed),
{
    match outcome {
        StopOutcome::NoStream => false,
        StopOutcome::Stopped => true,
        StopOutcome::Failed => true,
        StopOutcome::TimedOut => false,
    }
}

/// The wait in seconds before the next poll: short after a live poll, else the usual one.
pub fn poll_pause_secs(live: bool, random: u64, update_interval: u64) -> (res: u64)
    ensures
        live ==> res == random as int % 5,
        !live ==> res == update_interval,
{
    if live {
        random % 5
    } else {
        update_interval
    }
}

/// A notification for the user.
pub struct Notice {
    pub title: String,
    pub body: String,
}

fn notice(title: &str, before: &str, room_id: &str, after: &str, error: &str) -> (res: Notice)
    ensures
        res.title@ == title@,
        res.body@ == before@ + room_id@ + after@ + error@,
{
    let mut body = text::copy(before);
    body.append(room_id);
    body.append(after);
    body.append(error);
    Notice { title: text::copy(title), body }
}

/// The notification that a room's old marker could not be removed.
pub fn startup_failed_notice(room_id: &str, error: &str) -> (res: Notice)
    ensures
        res.title@ == "抖音会话恢复失败"@,
        res.body@ == "无法清理直播间 "@ + room_id@
            + " 的旧抖音会话标记，已暂停该录制器初始化："@ + error@,
{
    notice(
        "抖音会话恢复失败",
        "无法清理直播间 ",
        room_id,
        " 的旧抖音会话标记，已暂停该录制器初始化：",
        error,
    )
}

/// The notification that the marker of a running session could not be written.
pub fn active_marker_notice(room_id: &str, error: &str) -> (res: Notice)
    ensures
        res.title@ == "抖音会话恢复标记保存失败"@,
        res.body@ == "直播间 "@ + room_id@
            + " 的恢复标记暂时无法写入，程序会在下轮自动重试："@ + error@,
{
    notice(
        "抖音会话恢复标记保存失败",
        "直播间 ",
        room_id,
        " 的恢复标记暂时无法写入，程序会在下轮自动重试：",
        error,
    )
}

/// The notification that the marker of an ended session could not be written.
pub fn pending_marker_notice(room_id: &str, error: &str) -> (res: Notice)
    ensures
        res.title@ == "抖音下播恢复标记保存失败"@,
        res.body@ == "直播间 "@ + room_id@
            + " 的下播恢复标记暂时无法写入，程序会持续重试："@ + error@,
{
    notice(
        "抖音下播恢复标记保存失败",
        "直播间 ",
        room_id,
        " 的下播恢复标记暂时无法写入，程序会持续重试：",
        error,
    )
}

/// The notification that events cannot be written.
pub fn danmu_write_notice(room_id: &str, error: &str) -> (res: Notice)
    ensures
        res.title@ == "抖音弹幕保存异常"@,
        res.body@ == "直播间 "@ + room_id@
            + " 的完整弹幕暂时无法写入磁盘，程序会持续重试；请检查 Docker 挂载目录空间和权限："@
            + error@,
{
    notice(
        "抖音弹幕保存异常",
        "直播间 ",
        room_id,
        " 的完整弹幕暂时无法写入磁盘，程序会持续重试；请检查 Docker 挂载目录空间和权限：",
        error,
    )
}

/// The notification that the event file of a recording could not be made.
pub fn storage_open_notice(path: &str) -> (res: Notice)
    ensures
        res.title@ == "抖音弹幕保存失败"@,
        res.body@ == "无法创建完整弹幕文件 "@ + path@
            + "，已停止本次录制；请检查 Docker 挂载目录空间和权限"@,
{
    let mut body = text::copy("无法创建完整弹幕文件 ");
    body.append(path);
    body.append("，已停止本次录制；请检查 Docker 挂载目录空间和权限");
    Notice { title: text::copy("抖音弹幕保存失败"), body }
}

/// The notification that the event file before a recording could not be sealed.
pub fn storage_switch_notice(path: &str, error: &str) -> (res: Notice)
    ensures
        res.title@ == "抖音弹幕保存失败"@,
        res.body@ == "无法封口上一段完整弹幕，未切换到新录制段 "@ + path@
            + "；程序会重试，请检查 Docker 挂载目录："@ + error@,
{
    notice(
        "抖音弹幕保存失败",
        "无法封口上一段完整弹幕，未切换到新录制段 ",
        path,
        "；程序会重试，请检查 Docker 挂载目录：",
        error,
    )
}

/// What a poll changes. A live that has ended, or was replaced by another, ends; one starts where the
/// room was not live before, or another is live now; and a room that stays as it was changes nothing.
pub proof fn law_sessions_start_and_end_once(was_live: bool, active: Seq<char>, current: Seq<char>)
    ensures
        active.len() == 0 ==> transition(false, active, true, current) == (SessionTransition {
            end_previous: false,
            start_current: true,
        }),
        active.len() == 0 ==> transition(false, active, false, current) == (SessionTransition {
            end_previous: false,
            start_current: false,
        }),
        transition(true, active, false, current) == (SessionTransition {
            end_previous: true,
            start_current: false,
        }),
        active.len() == 0 || active == current ==> transition(true, active, true, current) == (
        SessionTransition { end_previous: false, start_current: false }),
        active.len() > 0 && active == current ==> transition(false, active, true, current) == (
        SessionTransition { end_previous: false, start_current: true }),
        active.len() > 0 && active != current ==> transition(was_live, active, true, current) == (
        SessionTransition { end_previous: true, start_current: true }),
        active.len() > 0 ==> transition(was_live, active, false, current) == (SessionTransition {
            end_previous: true,
            start_current: false,
        }),
{
}

/// A stream's own address is taken first, unless it is empty, and then that of the room, without the
/// white space around it; where neither is there, nothing can be recorded.
pub proof fn law_streams_are_preferred(hls_url: Seq<char>, stream: Option<Seq<char>>)
    ensures
        stream is Some && stream->0.len() > 0 ==> chosen_url(hls_url, stream) == stream,
        !(stream is Some && stream->0.len() > 0) && text::trimmed(hls_url).len() > 0 ==> chosen_url(
            hls_url,
            stream,
        ) == Some(text::trimmed(hls_url)),
        chosen_url(hls_url, stream) is None <==> !(stream is Some && stream->0.len() > 0)
            && text::trimmed(hls_url).len() == 0,
{
}

/// A session that is queued waits once, at the place where it already waited and else at the end; its
/// marker counts as written if it was or is now, and the others are not touched.
pub proof fn law_queueing_touches_one_session(
    pending: Seq<(Seq<char>, bool)>,
    session: Seq<char>,
    marker: bool,
)
    requires
        distinct(pending),
    ensures
        !is_pending(pending, session) ==> queued(pending, session, marker) == pending.push(
            (session, marker),
        ),
        forall|i: int|
            0 <= i < pending.len() && (#[trigger] pending[i]).0 == session ==> queued(
                pending,
                session,
                marker,
            ) == pending.update(i, (session, pending[i].1 || marker)),
    decreases pending.len(),
{
    if pending.len() > 0 {
        let rest = pending.drop_first();
        assert forall|i: int, j: int|
            #![trigger rest[i], rest[j]]
            0 <= i < j < rest.len() implies rest[i].0 != rest[j].0 by {
            assert(rest[i] == pending[i + 1] && rest[j] == pending[j + 1]);
        }
        law_queueing_touches_one_session(rest, session, marker);
        if pending[0].0 == session {
            assert(is_pending(pending, session));
            assert forall|i: int|
                0 <= i < pending.len() && (#[trigger] pending[i]).0 == session implies queued(
                pending,
                session,
                marker,
            ) == pending.update(i, (session, pending[i].1 || marker)) by {
                if i > 0 {
                    assert(pending[0].0 != pending[i].0);
                }
                assert(seq![(session, pending[0].1 || marker)] + rest =~= pending.update(
                    0,
                    (session, pending[0].1 || marker),
                ));
            }
        } else {
            if !is_pending(pending, session) {
                assert(!is_pending(rest, session)) by {
                    if is_pending(rest, session) {
                        let i = choose|i: int| 0 <= i < rest.len() && (#[trigger] rest[i]).0 == session;
                        assert(pending[i + 1].0 == session);
                    }
                }
                assert(seq![pending[0]] + rest.push((session, marker)) =~= pending.push(
                    (session, marker),
                ));
            }
            assert forall|i: int|
                0 <= i < pending.len() && (#[trigger] pending[i]).0 == session implies queued(
                pending,
                session,
                marker,
            ) == pending.update(i, (session, pending[i].1 || marker)) by {
                assert(rest[i - 1] == pending[i]);
                assert(seq![pending[0]] + rest.update(i - 1, (session, pending[i].1 || marker))
                    =~= pending.update(i, (session, pending[i].1 || marker)));
            }
        }
    }
}

/// What a session shows of its room is what was told last: whether it is live always, and the rest
/// where it was told, else what was known. Nothing else of the session changes by looking.
pub proof fn law_rooms_show_what_was_told_last(state: SessionView, told: BasicRoomView)
    ensures
        ({
            let seen = state.observed(told);
            &&& seen.room_info.status <==> told.status == 0
            &&& told.room_title.len() > 0 ==> seen.room_info.room_title == told.room_title
            &&& told.room_title.len() == 0 ==> seen.room_info.room_title
                == state.room_info.room_title
            &&& told.cover is Some ==> seen.room_info.room_cover == told.cover->0
            &&& told.cover is None ==> seen.room_info.room_cover == state.room_info.room_cover
            &&& told.user_name.len() > 0 ==> seen.user_info.user_name == told.user_name
            &&& told.user_name.len() == 0 ==> seen.user_info.user_name == state.user_info.user_name
            &&& told.user_avatar.len() > 0 ==> seen.user_info.user_avatar == told.user_avatar
            &&& told.user_avatar.len() == 0 ==> seen.user_info.user_avatar
                == state.user_info.user_avatar
            &&& told.sec_user_id.len() > 0 ==> seen.user_info.user_id == told.sec_user_id
            &&& told.sec_user_id.len() == 0 ==> seen.user_info.user_id == state.user_info.user_id
            &&& seen.room_info.room_id == state.room_id
            &&& seen.room_info.platform == "douyin"@
            &&& seen.platform_live_id == state.platform_live_id
            &&& seen.live_id == state.live_id
            &&& seen.stream_url == state.stream_url
            &&& seen.pending == state.pending
            &&& seen.ledger == state.ledger
            &&& seen.enabled == state.enabled
            &&& seen.is_recording == state.is_recording
        }),
{
}

/// Ending a live leaves nothing of it but that it waits for its handling: no session, no recording, no
/// stream and no chat, and whether its marker could be written is remembered.
pub proof fn law_nothing_is_left_of_an_ended_live(state: SessionView, marker: bool)
    ensures
        ({
            let after = state.ended(marker);
            &&& after.platform_live_id.len() == 0
            &&& after.live_id.len() == 0
            &&& after.stream_url is None
            &&& after.ledger.recent.len() == 0
            &&& after.ledger.pending.len() == 0
            &&& !after.ledger.open
            &&& after.ledger.generation == state.ledger.generation
            &&& after.pending_marker_degraded == !marker
            &&& after.pending == queued(state.pending, state.platform_live_id, marker)
            &&& after.room_info == state.room_info
            &&& state.over(marker).platform_live_id == state.platform_live_id
            &&& state.over(marker).live_id == state.live_id
            &&& state.recording_reset().stream_url is None
            &&& state.recording_reset().room_info == state.room_info
        }),
{
}

/// What is reported of an ended live is that it is no longer live, under its own session; a report
/// that is made later tells of no recording.
pub proof fn law_reports_of_an_end(state: SessionView, session: Seq<char>)
    ensures
        !state.last_report().room_info.status,
        state.last_report().platform_live_id == state.platform_live_id,
        state.last_report().live_id == state.live_id,
        state.last_report().user_info == state.user_info,
        state.last_report().room_info.room_id == state.room_info.room_id,
        !state.end_report(session).room_info.status,
        !state.end_report(session).recording,
        state.end_report(session).platform_live_id == session,
        state.end_report(session).live_id.len() == 0,
        state.end_report(session).user_info == state.user_info,
        state.end_report(session).room_info.room_id == state.room_info.room_id,
        state.is_live_in(session) <==> state.room_info.status && state.platform_live_id == session,
        state.info().platform_live_id == state.platform_live_id,
        state.info().live_id == state.live_id,
        state.info().room_info == state.room_info,
        state.info().recording == state.is_recording,
        state.info().enabled == state.enabled,
{
}

/// The session that was looked at leaves the queue where its marker is gone, and else goes to its end;
/// its marker then counts as written unless writing it failed just now. The others keep their order.
pub proof fn law_sessions_take_turns(pending: Seq<(Seq<char>, bool)>, outcome: MarkerOutcome)
    requires
        pending.len() > 0,
    ensures
        outcome is Gone ==> rotated(pending, outcome) == pending.skip(1),
        !(outcome is Gone) ==> rotated(pending, outcome).len() == pending.len() && rotated(
            pending,
            outcome,
        ).take(pending.len() - 1) == pending.skip(1) && rotated(pending, outcome).last().0
            == pending[0].0 && (rotated(pending, outcome).last().1 <==> !(outcome
            is PersistFailed)),
{
    assert(pending.drop_first() =~= pending.skip(1));
    let last = (pending[0].0, !(outcome is PersistFailed));
    assert(pending.drop_first().push(last).take(pending.len() - 1) =~= pending.skip(1));
}

/// What becomes of a session that waits for its handling: it leaves the queue only where its marker is
/// gone; its end is reported again, as one of that session, unless it is gone or its marker could not
/// be written; and that it could not is told once.
pub proof fn law_waiting_sessions_are_reported_again(
    state: &mut DouyinSession,
    pending: PendingLiveEnd,
    outcome: MarkerOutcome,
    res: PendingStep,
)
    requires
        old(state).wf(),
        pending.marker_persisted == outcome.of_written(),
        call_ensures(DouyinSession::settle_pending, (state, pending, outcome), res),
    ensures
        res.requeued <==> !(outcome is Gone),
        res.report is Some <==> !(outcome is Gone) && !(outcome is PersistFailed),
        res.report is Some ==> res.report->0.deep_view().platform_live_id == pending.session_id@
            && !res.report->0.deep_view().room_info.status && !res.report->0.deep_view().recording,
        res.notify <==> outcome is PersistFailed && !old(state).pending_marker_degraded,
        res.clear_active <==> outcome is Persisted && !(old(state).room_info.status && old(
            state,
        ).platform_live_id@ == pending.session_id@),
{
    assert(res.report.deep_view() is Some <==> res.report is Some);
}

/// What is told of a live that ended is its own session, as one that is no longer live; it is passed on
/// only where its marker was written, and that it could not be is told once.
pub proof fn law_ended_lives_are_told_with_their_session(
    state: &mut DouyinSession,
    marker_persisted: bool,
    res: EndedLive,
)
    requires
        old(state).wf(),
        call_ensures(DouyinSession::emit_live_end_and_reset, (state, marker_persisted), res),
    ensures
        res.session_id@ == old(state).platform_live_id@,
        res.broadcast <==> marker_persisted,
        res.notify <==> !marker_persisted && !old(state).pending_marker_degraded,
        !res.recorder.deep_view().room_info.status,
        res.recorder.deep_view().platform_live_id == old(state).platform_live_id@,
{
}

/// A room that is live without a name for its session is told to lack one; any other is observed, as
/// live exactly where its state is zero.
pub proof fn law_rooms_are_observed_as_they_are(
    state: &mut DouyinSession,
    info: &DouyinBasicRoomInfo,
    res: StatusStep,
)
    requires
        old(state).wf(),
        call_ensures(DouyinSession::check_status, (state, info), res),
    ensures
        res == StatusStep::MissingRoomId <==> info.status == 0 && text::trimmed(
            info.room_id_str@,
        ).len() == 0,
        res matches StatusStep::Observed { end_previous, start_current, live } ==> (live
            <==> info.status == 0) && (start_current ==> live) && (!live ==> (end_previous <==> old(
            state,
        ).room_info.status || old(state).platform_live_id@.len() > 0)) && (live ==> (end_previous
            <==> old(state).platform_live_id@.len() > 0 && old(state).platform_live_id@
            != info.room_id_str@)),
{
}

/// There is something to record exactly where recording is not asked for, or a stream could be chosen.
pub proof fn law_streams_are_chosen_or_missing(
    state: &mut DouyinSession,
    should_record: bool,
    hls_url: &str,
    stream: &Option<DouyinStream>,
    res: bool,
)
    requires
        old(state).wf(),
        call_ensures(
            DouyinSession::choose_stream,
            (state, should_record, hls_url, stream),
            res,
        ),
    ensures
        res <==> !should_record || chosen_url(hls_url@, stream.deep_view()) is Some,
{
}

} // verus!
