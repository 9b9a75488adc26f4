//! What the events of recorders lead to, and what is done for a live that ended.
use vstd::prelude::*;
use crate::clips::GenerateWholeClipParams;
use crate::json;
use crate::manager;
use crate::manager::LiveEndAction;
use crate::platform::{PlatformType, RecorderInfo, RecorderInfoView};
use crate::text;
use crate::whole;
use crate::whole::DouyinWholeSessionKey;

verus! {

/// What a recorder reports.
pub enum RecorderEvent {
    LiveStart { recorder: RecorderInfo },
    LiveEnd { platform: PlatformType, room_id: String, recorder: RecorderInfo },
    RecordStart { recorder: RecorderInfo },
    RecordUpdate { live_id: String, cached_size_bytes: u64 },
    RecordEnd { recorder: RecorderInfo },
    ProgressUpdate { id: String, content: String },
    ProgressFinished { id: String, success: bool, message: String },
    DanmuReceived { room: String, ts: i64, content: String },
    UserNotification { title: String, body: String },
}

/// The model of what a recorder reports.
#[verifier::ext_equal]
pub enum EventView {
    LiveStart { recorder: RecorderInfoView },
    LiveEnd { platform: PlatformType, room_id: Seq<char>, recorder: RecorderInfoView },
    RecordStart { recorder: RecorderInfoView },
    RecordUpdate { live_id: Seq<char>, cached_size_bytes: u64 },
    RecordEnd { recorder: RecorderInfoView },
    ProgressUpdate { id: Seq<char>, content: Seq<char> },
    ProgressFinished { id: Seq<char>, success: bool, message: Seq<char> },
    DanmuReceived { room: Seq<char>, ts: i64, content: Seq<char> },
    UserNotification { title: Seq<char>, body: Seq<char> },
}

impl DeepView for RecorderEvent {
    type V = EventView;

    open spec fn deep_view(&self) -> EventView {
        match self {
            RecorderEvent::LiveStart { recorder } => EventView::LiveStart {
                recorder: recorder.deep_view(),
            },
            RecorderEvent::LiveEnd { platform, room_id, recorder } => EventView::LiveEnd {
                platform: *platform,
                room_id: room_id@,
                recorder: recorder.deep_view(),
            },
            RecorderEvent::RecordStart { recorder } => EventView::RecordStart {
                recorder: recorder.deep_view(),
            },
            RecorderEvent::RecordUpdate { live_id, cached_size_bytes } => EventView::RecordUpdate {
                live_id: live_id@,
                cached_size_bytes: *cached_size_bytes,
            },
            RecorderEvent::RecordEnd { recorder } => EventView::RecordEnd {
                recorder: recorder.deep_view(),
            },
            RecorderEvent::ProgressUpdate { id, content } => EventView::ProgressUpdate {
                id: id@,
                content: content@,
            },
            RecorderEvent::ProgressFinished { id, success, message } =>
                EventView::ProgressFinished { id: id@, success: *success, message: message@ },
            RecorderEvent::DanmuReceived { room, ts, content } => EventView::DanmuReceived {
                room: room@,
                ts: *ts,
                content: content@,
            },
            RecorderEvent::UserNotification { title, body } => EventView::UserNotification {
                title: title@,
                body: body@,
            },
        }
    }
}

/// The kind of a report to the outside.
#[derive(Clone, Copy, Debug, PartialEq, Eq, Structural)]
pub enum Hook {
    LiveStarted,
    LiveEnded,
    RecordStarted,
    RecordEnded,
}

/// One thing that is done about an event.
pub enum Effect {
    /// Report it to the outside.
    PostWebhook { hook: Hook },
    /// Show a notification.
    Notify { title: String, body: String },
    /// Hand the event to the user interface.
    PassOn,
    /// Start what follows the end of a live.
    HandleLiveEnd,
    /// Add a recording to the database.
    AddRecord {
        platform: PlatformType,
        parent_id: String,
        live_id: String,
        room_id: String,
        room_title: String,
    },
    /// Add to the length and the size of a recording.
    UpdateRecord { live_id: String, cached_size_bytes: u64 },
    /// Look into a recording that ended.
    CheckRecord { room_id: String, live_id: String },
}

/// The model of one thing that is done about an event.
#[verifier::ext_equal]
pub enum EffectView {
    PostWebhook { hook: Hook },
    Notify { title: Seq<char>, body: Seq<char> },
    PassOn,
    HandleLiveEnd,
    AddRecord {
        platform: PlatformType,
        parent_id: Seq<char>,
        live_id: Seq<char>,
        room_id: Seq<char>,
        room_title: Seq<char>,
    },
    UpdateRecord { live_id: Seq<char>, cached_size_bytes: u64 },
    CheckRecord { room_id: Seq<char>, live_id: Seq<char> },
}

impl DeepView for Effect {
    type V = EffectView;

    open spec fn deep_view(&self) -> EffectView {
        match self {
            Effect::PostWebhook { hook } => EffectView::PostWebhook { hook: *hook },
            Effect::Notify { title, body } => EffectView::Notify { title: title@, body: body@ },
            Effect::PassOn => EffectView::PassOn,
            Effect::HandleLiveEnd => EffectView::HandleLiveEnd,
            Effect::AddRecord { platform, parent_id, live_id, room_id, room_title } =>
                EffectView::AddRecord {
                    platform: *platform,
                    parent_id: parent_id@,
                    live_id: live_id@,
                    room_id: room_id@,
                    room_title: room_title@,
                },
            Effect::UpdateRecord { live_id, cached_size_bytes } => EffectView::UpdateRecord {
                live_id: live_id@,
                cached_size_bytes: *cached_size_bytes,
            },
            Effect::CheckRecord { room_id, live_id } => EffectView::CheckRecord {
                room_id: room_id@,
                live_id: live_id@,
            },
        }
    }
}

/// Which notifications the user wants.
#[derive(Clone, Copy, Debug, PartialEq, Eq, Structural)]
pub struct NotifyOptions {
    pub live_start_notify: bool,
    pub live_end_notify: bool,
}

/// The notification of a live that started, where it is wanted.
pub open spec fn start_notice(recorder: RecorderInfoView, wanted: bool) -> Seq<EffectView> {
    if wanted {
        seq![
            EffectView::Notify {
                title: "BiliShadowReplay - 直播开始"@,
                body: recorder.user_info.user_name + " 开启了直播："@
                    + recorder.room_info.room_title,
            },
        ]
    } else {
        Seq::empty()
    }
}

/// The notification of a live that ended, where it is wanted.
pub open spec fn end_notice(recorder: RecorderInfoView, wanted: bool) -> Seq<EffectView> {
    if wanted {
        seq![
            EffectView::Notify {
                title: "BiliShadowReplay - 直播结束"@,
                body: recorder.user_info.user_name + " 结束了直播："@
                    + recorder.room_info.room_title,
            },
        ]
    } else {
        Seq::empty()
    }
}

/// What is done about an event, in order.
pub open spec fn effects(
    claimed: Seq<(Seq<char>, Seq<char>)>,
    event: EventView,
    options: NotifyOptions,
) -> Seq<EffectView> {
    match event {
        EventView::LiveStart { recorder } => seq![
            EffectView::PostWebhook { hook: Hook::LiveStarted },
        ] + start_notice(recorder, options.live_start_notify) + seq![EffectView::PassOn],
        EventView::LiveEnd { platform, room_id, recorder } => if manager::end_report(
            claimed,
            platform,
            room_id,
            recorder.platform_live_id,
        ) == LiveEndAction::Handle {
            seq![EffectView::PostWebhook { hook: Hook::LiveEnded }, EffectView::HandleLiveEnd]
                + end_notice(recorder, options.live_end_notify) + seq![EffectView::PassOn]
        } else {
            Seq::empty()
        },
        EventView::RecordStart { recorder } => match PlatformType::named(
            recorder.room_info.platform,
        ) {
            Some(platform) => seq![
                EffectView::AddRecord {
                    platform,
                    parent_id: recorder.platform_live_id,
                    live_id: recorder.live_id,
                    room_id: recorder.room_info.room_id,
                    room_title: recorder.room_info.room_title,
                },
                EffectView::PostWebhook { hook: Hook::RecordStarted },
            ],
            None => Seq::empty(),
        },
        EventView::RecordUpdate { live_id, cached_size_bytes } => seq![
            EffectView::UpdateRecord { live_id, cached_size_bytes },
        ],
        EventView::RecordEnd { recorder } => if recorder.live_id.len() == 0 {
            Seq::empty()
        } else {
            seq![
                EffectView::PostWebhook { hook: Hook::RecordEnded },
                EffectView::CheckRecord {
                    room_id: recorder.room_info.room_id,
                    live_id: recorder.live_id,
                },
            ]
        },
        EventView::ProgressUpdate { id, content } => seq![EffectView::PassOn],
        EventView::ProgressFinished { id, success, message } => seq![EffectView::PassOn],
        EventView::DanmuReceived { room, ts, content } => seq![EffectView::PassOn],
        EventView::UserNotification { title, body } => seq![EffectView::PassOn],
    }
}

/// The claimed sessions after an event.
pub open spec fn claims(claimed: Seq<(Seq<char>, Seq<char>)>, event: EventView) -> Seq<
    (Seq<char>, Seq<char>),
> {
    match event {
        EventView::LiveEnd { platform, room_id, recorder } => manager::claims_after(
            claimed,
            platform,
            room_id,
            recorder.platform_live_id,
        ),
        _ => claimed,
    }
}

/// Whether an event can be taken: the platform of a recording that starts is known.
pub open spec fn is_known(event: EventView) -> bool {
    event matches EventView::RecordStart { recorder } ==> PlatformType::named(
        recorder.room_info.platform,
    ) is Some
}

fn live_end_effects(recorder: &RecorderInfo, live_end_notify: bool) -> (res: Vec<Effect>)
    ensures
        res.deep_view() == seq![
            EffectView::PostWebhook { hook: Hook::LiveEnded },
            EffectView::HandleLiveEnd,
        ] + end_notice(recorder.deep_view(), live_end_notify) + seq![EffectView::PassOn],
{
    let mut out: Vec<Effect> = Vec::new();
    out.push(Effect::PostWebhook { hook: Hook::LiveEnded });
    out.push(Effect::HandleLiveEnd);
    if live_end_notify {
        out.push(
            Effect::Notify {
                title: text::copy("BiliShadowReplay - 直播结束"),
                body: manager::live_end_body(
                    recorder.user_info.user_name.as_str(),
                    recorder.room_info.room_title.as_str(),
                ),
            },
        );
    }
    out.push(Effect::PassOn);
    assert(out.deep_view() =~= seq![
        EffectView::PostWebhook { hook: Hook::LiveEnded },
        EffectView::HandleLiveEnd,
    ] + end_notice(recorder.deep_view(), live_end_notify) + seq![EffectView::PassOn]);
    out
}

fn live_start_effects(recorder: &RecorderInfo, live_start_notify: bool) -> (res: Vec<Effect>)
    ensures
        res.deep_view() == seq![EffectView::PostWebhook { hook: Hook::LiveStarted }]
            + start_notice(recorder.deep_view(), live_start_notify) + seq![EffectView::PassOn],
{
    let mut out: Vec<Effect> = Vec::new();
    out.push(Effect::PostWebhook { hook: Hook::LiveStarted });
    if live_start_notify {
        out.push(
            Effect::Notify {
                title: text::copy("BiliShadowReplay - 直播开始"),
                body: manager::live_start_body(
                    recorder.user_info.user_name.as_str(),
                    recorder.room_info.room_title.as_str(),
                ),
            },
        );
    }
    out.push(Effect::PassOn);
    assert(out.deep_view() =~= seq![EffectView::PostWebhook { hook: Hook::LiveStarted }]
        + start_notice(recorder.deep_view(), live_start_notify) + seq![EffectView::PassOn]);
    out
}

fn record_end_effects(recorder: &RecorderInfo) -> (res: Vec<Effect>)
    ensures
        res.deep_view() == (if recorder.live_id@.len() == 0 {
            Seq::empty()
        } else {
            seq![
                EffectView::PostWebhook { hook: Hook::RecordEnded },
                EffectView::CheckRecord {
                    room_id: recorder.room_info.room_id@,
                    live_id: recorder.live_id@,
                },
            ]
        }),
{
    let mut out: Vec<Effect> = Vec::new();
    if !text::is_empty(recorder.live_id.as_str()) {
        out.push(Effect::PostWebhook { hook: Hook::RecordEnded });
        out.push(
            Effect::CheckRecord {
                room_id: text::copy(recorder.room_info.room_id.as_str()),
                live_id: text::copy(recorder.live_id.as_str()),
            },
        );
        assert(out.deep_view() =~= seq![
            EffectView::PostWebhook { hook: Hook::RecordEnded },
            EffectView::CheckRecord {
                room_id: recorder.room_info.room_id@,
                live_id: recorder.live_id@,
            },
        ]);
    } else {
        assert(out.deep_view() =~= Seq::<EffectView>::empty());
    }
    out
}

fn one_effect(effect: Effect) -> (res: Vec<Effect>)
    ensures
        res.deep_view() == seq![effect.deep_view()],
{
    let mut out: Vec<Effect> = Vec::new();
    out.push(effect);
    assert(out.deep_view() =~= seq![effect.deep_view()]);
    out
}

/// What is done about an event, in order. The end of a live is handled once for a session, however
/// often it is reported.
pub fn handle_events(
    claimed: &mut Vec<DouyinWholeSessionKey>,
    event: &RecorderEvent,
    options: NotifyOptions,
) -> (res: Vec<Effect>)
    requires
        is_known(event.deep_view()),
    ensures
        res.deep_view() == effects(old(claimed).deep_view(), event.deep_view(), options),
        final(claimed).deep_view() == claims(old(claimed).deep_view(), event.deep_view()),
{
    match event {
        RecorderEvent::LiveStart { recorder } => live_start_effects(
            recorder,
            options.live_start_notify,
        ),
        RecorderEvent::LiveEnd { platform, room_id, recorder } => {
            let action = manager::claim_live_end(
                claimed,
                *platform,
                room_id.as_str(),
                recorder.platform_live_id.as_str(),
            );
            if action == LiveEndAction::Handle {
                live_end_effects(recorder, options.live_end_notify)
            } else {
                let out: Vec<Effect> = Vec::new();
                assert(out.deep_view() =~= Seq::<EffectView>::empty());
                out
            }
        },
        RecorderEvent::RecordStart { recorder } => {
            let mut out: Vec<Effect> = Vec::new();
            if let Some(platform) = PlatformType::from_name(recorder.room_info.platform.as_str()) {
                out.push(
                    Effect::AddRecord {
                        platform,
                        parent_id: text::copy(recorder.platform_live_id.as_str()),
                        live_id: text::copy(recorder.live_id.as_str()),
                        room_id: text::copy(recorder.room_info.room_id.as_str()),
                        room_title: text::copy(recorder.room_info.room_title.as_str()),
                    },
                );
                out.push(Effect::PostWebhook { hook: Hook::RecordStarted });
            }
            assert(out.deep_view() =~= effects(
                old(claimed).deep_view(),
                event.deep_view(),
                options,
            ));
            out
        },
        RecorderEvent::RecordUpdate { live_id, cached_size_bytes } => one_effect(
            Effect::UpdateRecord {
                live_id: text::copy(live_id.as_str()),
                cached_size_bytes: *cached_size_bytes,
            },
        ),
        RecorderEvent::RecordEnd { recorder } => record_end_effects(recorder),
        RecorderEvent::ProgressUpdate { id, content } => one_effect(Effect::PassOn),
        RecorderEvent::ProgressFinished { id, success, message } => one_effect(Effect::PassOn),
        RecorderEvent::DanmuReceived { room, ts, content } => one_effect(Effect::PassOn),
        RecorderEvent::UserNotification { title, body } => one_effect(Effect::PassOn),
    }
}

/// The end of a session that is reported again has no effect at all, whatever came in between.
pub proof fn law_redelivered_ends_have_no_effect(
    claimed: Seq<(Seq<char>, Seq<char>)>,
    room_id: Seq<char>,
    recorder: RecorderInfoView,
    later: Seq<EventView>,
    options: NotifyOptions,
)
    ensures
        ({
            let end = EventView::LiveEnd { platform: PlatformType::Douyin, room_id, recorder };
            effects(claims_over(claims(claimed, end), later), end, options) == Seq::<
                EffectView,
            >::empty()
        }),
{
    let end = EventView::LiveEnd { platform: PlatformType::Douyin, room_id, recorder };
    let session = text::trimmed(recorder.platform_live_id);
    let after = claims(claimed, end);
    if session.len() > 0 {
        let key = (room_id, session);
        if !claimed.contains(key) {
            assert(after[after.len() - 1] == key);
        }
        assert(after.contains(key));
        lemma_claims_stay(after, later, key);
    }
}

/// The claimed sessions after a number of events.
pub open spec fn claims_over(claimed: Seq<(Seq<char>, Seq<char>)>, events: Seq<EventView>) -> Seq<
    (Seq<char>, Seq<char>),
>
    decreases events.len(),
{
    if events.len() == 0 {
        claimed
    } else {
        claims(claims_over(claimed, events.drop_last()), events.last())
    }
}

proof fn lemma_claims_stay(
    claimed: Seq<(Seq<char>, Seq<char>)>,
    events: Seq<EventView>,
    key: (Seq<char>, Seq<char>),
)
    requires
        claimed.contains(key),
    ensures
        claims_over(claimed, events).contains(key),
    decreases events.len(),
{
    if events.len() > 0 {
        lemma_claims_stay(claimed, events.drop_last(), key);
        let before = claims_over(claimed, events.drop_last());
        let i = choose|i: int| 0 <= i < before.len() && before[i] == key;
        assert(claims(before, events.last())[i] == key);
    }
}

/// What happened while an ended live was handled.
pub enum EndedLiveEvent {
    /// The live ended.
    Reported { platform_live_id: String, auto_generate: bool },
    /// Its session has recordings.
    ParentFound { parent_id: String },
    /// It has none.
    NoRecordings,
    /// Looking for them failed.
    LookupFailed,
    /// The task stands in the task list.
    TaskCreated,
    /// The task could not be added to the list.
    TaskFailed,
    /// The progress of the task can be reported.
    ReporterCreated { parent_id: String },
    /// It cannot.
    ReporterFailed,
    /// The task could not be queued.
    EnqueueFailed { error: String },
    /// The export is there.
    Generated,
    /// The export failed.
    GenerationFailed { error: String },
}

/// What is done next for an ended live.
pub enum EndedLiveStep {
    /// Nothing more.
    Stop,
    /// Export it again and again until that succeeds.
    RunExportWithRetry,
    /// Look for its recordings.
    LookUpRecordings,
    /// Take the live off the list of those that wait.
    Acknowledge,
    /// Add a task with this description to the task list.
    CreateTask { metadata: String },
    /// Make a reporter for the task.
    CreateReporter,
    /// Queue an export.
    Enqueue { params: GenerateWholeClipParams },
    /// Mark the task as failed, and report that where there is a reporter.
    FailTask { message: String, report: bool },
    /// Mark the task as done and report that, then take the live off the list.
    CompleteTask { message: String },
}

/// The request for the export of a whole session with all its recordings under a name that is
/// made up.
pub open spec fn is_plain_request(
    params: GenerateWholeClipParams,
    platform: PlatformType,
    room_id: Seq<char>,
    parent_id: Seq<char>,
    encode_danmu: bool,
) -> bool {
    &&& params.encode_danmu == encode_danmu
    &&& params.platform@ == platform.name()
    &&& params.room_id@ == room_id
    &&& params.parent_id@ == parent_id
    &&& params.selected_live_ids is None
    &&& params.output_name is None
}

/// What is done next for an ended live. On this platform the export runs until it is done; on the
/// others it is made once, where that is wanted.
pub fn handle_live_end(
    platform: PlatformType,
    room_id: &str,
    encode_danmu: bool,
    event: EndedLiveEvent,
) -> (res: EndedLiveStep)
    ensures
        match event {
            EndedLiveEvent::Reported { platform_live_id, auto_generate } => if platform
                == PlatformType::Douyin {
                if text::trimmed(platform_live_id@).len() == 0 {
                    res is Stop
                } else {
                    res is RunExportWithRetry
                }
            } else if auto_generate {
                res is LookUpRecordings
            } else {
                res is Stop
            },
            EndedLiveEvent::ParentFound { parent_id } => res matches EndedLiveStep::CreateTask {
                metadata,
            } && metadata@ == json::json_text(
                whole::task_record(platform.name(), room_id@, parent_id@, encode_danmu, None),
            ),
            EndedLiveEvent::NoRecordings => res is Acknowledge,
            EndedLiveEvent::LookupFailed => res is Stop,
            EndedLiveEvent::TaskCreated => res is CreateReporter,
            EndedLiveEvent::TaskFailed => res is Stop,
            EndedLiveEvent::ReporterCreated { parent_id } => res matches EndedLiveStep::Enqueue {
                params,
            } && is_plain_request(params, platform, room_id@, parent_id@, encode_danmu),
            EndedLiveEvent::ReporterFailed => res matches EndedLiveStep::FailTask {
                message,
                report,
            } && message@ == "Failed to create reporter"@ && !report,
            EndedLiveEvent::EnqueueFailed { error } => res matches EndedLiveStep::FailTask {
                message,
                report,
            } && message@ == "Failed to enqueue whole clip task: "@ + error@ && report,
            EndedLiveEvent::Generated => res matches EndedLiveStep::CompleteTask { message }
                && message@ == "Whole clip generated successfully"@,
            EndedLiveEvent::GenerationFailed { error } => res matches EndedLiveStep::FailTask {
                message,
                report,
            } && message@ == "Failed to generate whole clip: "@ + error@ && report,
        },
{
    match event {
        EndedLiveEvent::Reported { platform_live_id, auto_generate } => {
            if platform == PlatformType::Douyin {
                let session = text::trim(platform_live_id.as_str());
                if text::is_empty(session.as_str()) {
                    EndedLiveStep::Stop
                } else {
                    EndedLiveStep::RunExportWithRetry
                }
            } else if auto_generate {
                EndedLiveStep::LookUpRecordings
            } else {
                EndedLiveStep::Stop
            }
        },
        EndedLiveEvent::ParentFound { parent_id } => {
            let no_name: Option<String> = None;
            EndedLiveStep::CreateTask {
                metadata: whole::whole_clip_task(
                    platform,
                    room_id,
                    parent_id.as_str(),
                    encode_danmu,
                    &no_name,
                ),
            }
        },
        EndedLiveEvent::NoRecordings => EndedLiveStep::Acknowledge,
        EndedLiveEvent::LookupFailed => EndedLiveStep::Stop,
        EndedLiveEvent::TaskCreated => EndedLiveStep::CreateReporter,
        EndedLiveEvent::TaskFailed => EndedLiveStep::Stop,
        EndedLiveEvent::ReporterCreated { parent_id } => EndedLiveStep::Enqueue {
            params: GenerateWholeClipParams {
                encode_danmu,
                platform: text::copy(platform.as_str()),
                room_id: text::copy(room_id),
                parent_id,
                selected_live_ids: None,
                output_name: None,
            },
        },
        EndedLiveEvent::ReporterFailed => EndedLiveStep::FailTask {
            message: text::copy("Failed to create reporter"),
            report: false,
        },
        EndedLiveEvent::EnqueueFailed { error } => EndedLiveStep::FailTask {
            message: manager::labelled("Failed to enqueue whole clip task: ", error.as_str()),
            report: true,
        },
        EndedLiveEvent::Generated => EndedLiveStep::CompleteTask {
            message: text::copy("Whole clip generated successfully"),
        },
        EndedLiveEvent::GenerationFailed { error } => EndedLiveStep::FailTask {
            message: manager::labelled("Failed to generate whole clip: ", error.as_str()),
            report: true,
        },
    }
}

/// What is done about the start of a live: it is posted as one, told where that is wanted, and passed
/// on, and nothing is recorded.
pub proof fn law_a_start_is_told_where_it_is_wanted(
    claimed: Seq<(Seq<char>, Seq<char>)>,
    recorder: RecorderInfoView,
    options: NotifyOptions,
)
    ensures
        ({
            let done = effects(claimed, EventView::LiveStart { recorder }, options);
            &&& done.len() == (if options.live_start_notify {
                3int
            } else {
                2
            })
            &&& done[0] == (EffectView::PostWebhook { hook: Hook::LiveStarted })
            &&& done.last() is PassOn
            &&& options.live_start_notify ==> (done[1] matches EffectView::Notify { title, body }
                && text::begins(body, recorder.user_info.user_name) && text::ends(
                body,
                recorder.room_info.room_title,
            ))
        }),
{
    let body = recorder.user_info.user_name + " 开启了直播："@ + recorder.room_info.room_title;
    assert(body.take(recorder.user_info.user_name.len() as int)
        =~= recorder.user_info.user_name);
    assert(body.skip(body.len() - recorder.room_info.room_title.len())
        =~= recorder.room_info.room_title);
}

/// What is done about the end of a live that is handled: it is posted as one, handled, told where that
/// is wanted, and passed on. An end that is not handled has no effect. Outside Douyin every end is
/// handled; on Douyin one of a known session is, unless that session's end was handled before.
pub proof fn law_an_end_is_handled_and_told(
    claimed: Seq<(Seq<char>, Seq<char>)>,
    platform: PlatformType,
    room_id: Seq<char>,
    recorder: RecorderInfoView,
    options: NotifyOptions,
)
    ensures
        ({
            let session = text::trimmed(recorder.platform_live_id);
            let done = effects(
                claimed,
                EventView::LiveEnd { platform, room_id, recorder },
                options,
            );
            let after = claims(claimed, EventView::LiveEnd { platform, room_id, recorder });
            let handled = platform != PlatformType::Douyin || (session.len() > 0
                && !claimed.contains((room_id, session)));
            &&& !handled ==> done.len() == 0 && after == claimed
            &&& handled ==> done.len() == (if options.live_end_notify {
                4int
            } else {
                3
            }) && done[0] == (EffectView::PostWebhook { hook: Hook::LiveEnded })
                && done[1] is HandleLiveEnd && done.last() is PassOn
            &&& handled && options.live_end_notify ==> (done[2] matches EffectView::Notify {
                title,
                body,
            } && text::begins(body, recorder.user_info.user_name) && text::ends(
                body,
                recorder.room_info.room_title,
            ))
            &&& handled && platform == PlatformType::Douyin ==> after == claimed.push(
                (room_id, session),
            )
            &&& platform != PlatformType::Douyin ==> after == claimed
        }),
{
    let body = recorder.user_info.user_name + " 结束了直播："@ + recorder.room_info.room_title;
    assert(body.take(recorder.user_info.user_name.len() as int)
        =~= recorder.user_info.user_name);
    assert(body.skip(body.len() - recorder.room_info.room_title.len())
        =~= recorder.room_info.room_title);
}

/// A recording gets its row when it starts, under its session, its room and its platform; its row
/// follows its size; and when it ends, it is looked at again, unless it has no name. None of this is
/// passed on.
pub proof fn law_recordings_are_kept_in_rows(
    claimed: Seq<(Seq<char>, Seq<char>)>,
    recorder: RecorderInfoView,
    live_id: Seq<char>,
    cached_size_bytes: u64,
    options: NotifyOptions,
)
    ensures
        ({
            let started = effects(claimed, EventView::RecordStart { recorder }, options);
            let updated = effects(
                claimed,
                EventView::RecordUpdate { live_id, cached_size_bytes },
                options,
            );
            let ended = effects(claimed, EventView::RecordEnd { recorder }, options);
            let add = EffectView::AddRecord {
                platform: PlatformType::named(recorder.room_info.platform)->0,
                parent_id: recorder.platform_live_id,
                live_id: recorder.live_id,
                room_id: recorder.room_info.room_id,
                room_title: recorder.room_info.room_title,
            };
            &&& PlatformType::named(recorder.room_info.platform) is Some ==> started.len() == 2
                && started[0] == add && started[1] == (EffectView::PostWebhook {
                hook: Hook::RecordStarted,
            })
            &&& PlatformType::named(recorder.room_info.platform) is None ==> started.len() == 0
            &&& updated == seq![EffectView::UpdateRecord { live_id, cached_size_bytes }]
            &&& recorder.live_id.len() == 0 ==> ended.len() == 0
            &&& recorder.live_id.len() > 0 ==> ended.len() == 2 && ended[0] == (
            EffectView::PostWebhook { hook: Hook::RecordEnded }) && ended[1] == (
            EffectView::CheckRecord {
                room_id: recorder.room_info.room_id,
                live_id: recorder.live_id,
            })
        }),
{
}

/// Whatever else is reported is passed on, and that is all; and only the end of a live changes which
/// ends count as handled.
pub proof fn law_other_events_are_passed_on(
    claimed: Seq<(Seq<char>, Seq<char>)>,
    event: EventView,
    options: NotifyOptions,
)
    ensures
        event is ProgressUpdate || event is ProgressFinished || event is DanmuReceived || event
            is UserNotification ==> effects(claimed, event, options) == seq![EffectView::PassOn],
        !(event is LiveEnd) ==> claims(claimed, event) == claimed,
        is_known(event) <==> !(event is RecordStart) || PlatformType::named(
            event->RecordStart_recorder.room_info.platform,
        ) is Some,
{
}

/// What is done about the end of a live that is handled. On Douyin its session, where it is named, is
/// exported again and again until that is done, whatever the settings; elsewhere its recordings are
/// looked up where exports are wanted, and then exported once, all of them.
pub proof fn law_ended_lives_are_exported(
    platform: PlatformType,
    room_id: &str,
    encode_danmu: bool,
    event: EndedLiveEvent,
    res: EndedLiveStep,
)
    requires
        call_ensures(handle_live_end, (platform, room_id, encode_danmu, event), res),
    ensures
        event matches EndedLiveEvent::Reported { platform_live_id, auto_generate } ==> (res
            is RunExportWithRetry <==> platform == PlatformType::Douyin && text::trimmed(
            platform_live_id@,
        ).len() > 0) && (res is LookUpRecordings <==> platform != PlatformType::Douyin
            && auto_generate) && (res is Stop <==> (platform == PlatformType::Douyin
            && text::trimmed(platform_live_id@).len() == 0) || (platform != PlatformType::Douyin
            && !auto_generate)),
        event is ParentFound <==> res is CreateTask,
        event is NoRecordings <==> res is Acknowledge,
        event is LookupFailed || event is TaskFailed ==> res is Stop,
        event is TaskCreated <==> res is CreateReporter,
        event is ReporterCreated <==> res is Enqueue,
        event matches EndedLiveEvent::ReporterCreated { parent_id } ==> res->params.platform@
            == platform.name() && res->params.room_id@ == room_id@ && res->params.parent_id@
            == parent_id@ && res->params.encode_danmu == encode_danmu
            && res->params.selected_live_ids is None && res->params.output_name is None,
        event is Generated <==> res is CompleteTask,
        event is ReporterFailed || event is EnqueueFailed || event is GenerationFailed <==> res
            is FailTask,
        res is FailTask ==> (res->report <==> !(event is ReporterFailed)),
{
}

} // verus!
