//! The recorders of all rooms: their list, their errors, and what their events lead to.
use vstd::prelude::*;
use crate::platform::{
    PlatformType, RecorderError, RecorderInfo, RecorderInfoView, RoomInfo, RoomInfoView, UserInfo,
    UserInfoView,
};
use crate::sorting;
use crate::text;
use crate::whole;
use crate::whole::DouyinWholeSessionKey;

verus! {

/// The reason why the manager could not do something.
pub enum RecorderManagerError {
    AlreadyExisted { room_id: String },
    NotFound { room_id: String },
    InvalidPlatformType { platform: String },
    RecorderError(RecorderError),
    IoError(String),
    HLSError { err: String },
    DatabaseError(String),
    Recording { live_id: String },
    ClipError { err: String },
    M3u8ParseFailed { content: String },
    EmptyPlaylist,
    SubtitleNotFound { live_id: String },
    SubtitleGenerationFailed { error: String },
    InvalidLiveID,
    ArchiveDanmuAssGenerationFailed { error: String },
}

impl RecorderManagerError {
    /// The text of the reason.
    pub open spec fn text(self) -> Seq<char> {
        match self {
            RecorderManagerError::AlreadyExisted { room_id } => "Recorder already exists: "@
                + room_id@,
            RecorderManagerError::NotFound { room_id } => "Recorder not found: "@ + room_id@,
            RecorderManagerError::InvalidPlatformType { platform } => "Invalid platform type: "@
                + platform@,
            RecorderManagerError::RecorderError(e) => "Recorder error: "@ + e.text(),
            RecorderManagerError::IoError(e) => "IO error: "@ + e@,
            RecorderManagerError::HLSError { err } => "HLS error: "@ + err@,
            RecorderManagerError::DatabaseError(e) => "Database error: "@ + e@,
            RecorderManagerError::Recording { live_id } => "Recording: "@ + live_id@,
            RecorderManagerError::ClipError { err } => "Clip error: "@ + err@,
            RecorderManagerError::M3u8ParseFailed { content } => "M3u8 parse failed: "@ + content@,
            RecorderManagerError::EmptyPlaylist => "Empty playlist"@,
            RecorderManagerError::SubtitleNotFound { live_id } => "Subtitle not found: "@ + live_id@,
            RecorderManagerError::SubtitleGenerationFailed { error } =>
                "Subtitle generation failed: "@ + error@,
            RecorderManagerError::InvalidLiveID => "Invalid live id, not timestamp str"@,
            RecorderManagerError::ArchiveDanmuAssGenerationFailed { error } =>
                "Archive danmu ass generation failed: "@ + error@,
        }
    }

    /// The text of the reason.
    pub fn to_text(&self) -> (res: String)
        ensures
            res@ == self.text(),
    {
        match self {
            RecorderManagerError::AlreadyExisted { room_id } => labelled(
                "Recorder already exists: ",
                room_id.as_str(),
            ),
            RecorderManagerError::NotFound { room_id } => labelled(
                "Recorder not found: ",
                room_id.as_str(),
            ),
            RecorderManagerError::InvalidPlatformType { platform } => labelled(
                "Invalid platform type: ",
                platform.as_str(),
            ),
            RecorderManagerError::RecorderError(e) => {
                let inner = e.to_text();
                labelled("Recorder error: ", inner.as_str())
            },
            RecorderManagerError::IoError(e) => labelled("IO error: ", e.as_str()),
            RecorderManagerError::HLSError { err } => labelled("HLS error: ", err.as_str()),
            RecorderManagerError::DatabaseError(e) => labelled("Database error: ", e.as_str()),
            RecorderManagerError::Recording { live_id } => labelled(
                "Recording: ",
                live_id.as_str(),
            ),
            RecorderManagerError::ClipError { err } => labelled("Clip error: ", err.as_str()),
            RecorderManagerError::M3u8ParseFailed { content } => labelled(
                "M3u8 parse failed: ",
                content.as_str(),
            ),
            RecorderManagerError::EmptyPlaylist => text::copy("Empty playlist"),
            RecorderManagerError::SubtitleNotFound { live_id } => labelled(
                "Subtitle not found: ",
                live_id.as_str(),
            ),
            RecorderManagerError::SubtitleGenerationFailed { error } => labelled(
                "Subtitle generation failed: ",
                error.as_str(),
            ),
            RecorderManagerError::InvalidLiveID => text::copy(
                "Invalid live id, not timestamp str",
            ),
            RecorderManagerError::ArchiveDanmuAssGenerationFailed { error } => labelled(
                "Archive danmu ass generation failed: ",
                error.as_str(),
            ),
        }
    }
}

/// A label and a text behind it.
pub(crate) fn labelled(label: &str, s: &str) -> (res: String)
    ensures
        res@ == label@ + s@,
{
    let mut out = text::copy(label);
    out.append(s);
    out
}

/// The name under which a recorder is kept.
pub open spec fn recorder_key(platform: Seq<char>, room_id: Seq<char>) -> Seq<char> {
    platform + ":"@ + room_id
}

/// The name under which a recorder is kept.
pub fn recorder_id(platform: &str, room_id: &str) -> (res: String)
    ensures
        res@ == recorder_key(platform@, room_id@),
{
    let mut id = text::copy(platform);
    id.append(":");
    id.append(room_id);
    id
}

/// The recorders that are shown.
pub struct RecorderList {
    pub count: usize,
    pub recorders: Vec<RecorderInfo>,
}

/// A recorder as the database knows it.
pub struct RecorderRow {
    pub platform: String,
    pub room_id: String,
    pub auto_start: bool,
    pub extra: String,
}

/// The model of a recorder as the database knows it.
#[verifier::ext_equal]
pub struct RecorderRowView {
    pub platform: Seq<char>,
    pub room_id: Seq<char>,
    pub auto_start: bool,
    pub extra: Seq<char>,
}

impl DeepView for RecorderRow {
    type V = RecorderRowView;

    open spec fn deep_view(&self) -> RecorderRowView {
        RecorderRowView {
            platform: self.platform@,
            room_id: self.room_id@,
            auto_start: self.auto_start,
            extra: self.extra@,
        }
    }
}

impl Clone for RecorderRow {
    fn clone(&self) -> (res: Self)
        ensures
            res.deep_view() == self.deep_view(),
    {
        RecorderRow {
            platform: text::copy(self.platform.as_str()),
            room_id: text::copy(self.room_id.as_str()),
            auto_start: self.auto_start,
            extra: text::copy(self.extra.as_str()),
        }
    }
}

/// What is shown of a recorder that does not run.
pub open spec fn idle_recorder(row: RecorderRowView) -> RecorderInfoView {
    RecorderInfoView {
        platform_live_id: Seq::empty(),
        live_id: Seq::empty(),
        recording: false,
        enabled: false,
        room_info: RoomInfoView {
            platform: row.platform,
            status: false,
            room_id: row.room_id,
            room_title: row.room_id,
            room_cover: Seq::empty(),
        },
        user_info: UserInfoView {
            user_id: Seq::empty(),
            user_name: Seq::empty(),
            user_avatar: Seq::empty(),
        },
    }
}

/// Whether one of the recorders is that of a room.
pub open spec fn covers_room(active: Seq<RecorderInfoView>, room_id: Seq<char>) -> bool {
    exists|i: int| 0 <= i < active.len() && (#[trigger] active[i]).room_info.room_id == room_id
}

/// The running recorders, and after them the others as the database knows them.
pub open spec fn all_recorders(active: Seq<RecorderInfoView>, rows: Seq<RecorderRowView>) -> Seq<
    RecorderInfoView,
>
    decreases rows.len(),
{
    if rows.len() == 0 {
        active
    } else {
        let before = all_recorders(active, rows.drop_last());
        if covers_room(active, rows.last().room_id) {
            before
        } else {
            before.push(idle_recorder(rows.last()))
        }
    }
}

/// The order of recorders by their rooms.
pub open spec fn room_order() -> spec_fn(RecorderInfoView, RecorderInfoView) -> bool {
    |a: RecorderInfoView, b: RecorderInfoView|
        text::text_le(a.room_info.room_id, b.room_info.room_id)
}

fn is_covered(active: &Vec<RecorderInfo>, room_id: &str) -> (res: bool)
    ensures
        res == covers_room(active.deep_view(), room_id@),
{
    let ghost all = active.deep_view();
    let mut i: usize = 0;
    while i < active.len()
        invariant
            i <= active@.len(),
            all == active.deep_view(),
            forall|j: int| 0 <= j < i ==> (#[trigger] all[j]).room_info.room_id != room_id@,
        decreases active@.len() - i,
    {
        assert(all[i as int] == active@[i as int].deep_view());
        if text::same(active[i].room_info.room_id.as_str(), room_id) {
            return true;
        }
        i += 1;
    }
    false
}

fn idle_info(row: &RecorderRow) -> (res: RecorderInfo)
    ensures
        res.deep_view() == idle_recorder(row.deep_view()),
{
    RecorderInfo {
        platform_live_id: String::new(),
        live_id: String::new(),
        recording: false,
        enabled: false,
        room_info: RoomInfo {
            platform: text::copy(row.platform.as_str()),
            status: false,
            room_id: text::copy(row.room_id.as_str()),
            room_title: text::copy(row.room_id.as_str()),
            room_cover: String::new(),
        },
        user_info: UserInfo::default(),
    }
}

fn copy_recorders(list: &Vec<RecorderInfo>) -> (res: Vec<RecorderInfo>)
    ensures
        res.deep_view() == list.deep_view(),
{
    let mut out: Vec<RecorderInfo> = Vec::new();
    let mut i: usize = 0;
    while i < list.len()
        invariant
            i <= list@.len(),
            out@.len() == i,
            forall|j: int| 0 <= j < i ==> (#[trigger] out@[j]).deep_view() == list@[j].deep_view(),
        decreases list@.len() - i,
    {
        out.push(list[i].clone());
        i += 1;
    }
    assert(out.deep_view() =~= list.deep_view());
    out
}

fn sort_recorders(list: &Vec<RecorderInfo>) -> (res: Vec<RecorderInfo>)
    ensures
        res.deep_view() == sorting::stable_sorted(list.deep_view(), room_order()),
{
    let mut out: Vec<RecorderInfo> = Vec::new();
    let ghost all = list.deep_view();
    let ghost le = room_order();
    let mut i: usize = 0;
    assert(all.take(0) =~= Seq::empty());
    assert(out.deep_view() =~= Seq::<RecorderInfoView>::empty());
    while i < list.len()
        invariant
            i <= list@.len(),
            all == list.deep_view(),
            le == room_order(),
            out.deep_view() == sorting::stable_sorted(all.take(i as int), le),
        decreases list@.len() - i,
    {
        let ghost next = all.take(i + 1);
        assert(next.drop_last() =~= all.take(i as int));
        let ghost x = list@[i as int].deep_view();
        assert(next.last() == x);
        let ghost before = out.deep_view();
        let mut p: usize = out.len();
        while p > 0 && !text::not_after(
            out[p - 1].room_info.room_id.as_str(),
            list[i].room_info.room_id.as_str(),
        )
            invariant
                i < list@.len(),
                x == list@[i as int].deep_view(),
                p <= out@.len(),
                le == room_order(),
                before == out.deep_view(),
                forall|j: int| p <= j < before.len() ==> !le(#[trigger] before[j], x),
            decreases p,
        {
            p -= 1;
        }
        proof {
            sorting::lemma_placed_at(before, x, le, p as int);
        }
        out.insert(p, list[i].clone());
        assert(out.deep_view() =~= before.insert(p as int, x));
        i += 1;
    }
    assert(all.take(i as int) =~= all);
    out
}

/// The recorders that are shown: those that run and those that the database knows besides, by
/// room. Where the database cannot be read, those that run are shown as they come.
pub fn get_recorder_list(active: &Vec<RecorderInfo>, rows: &Option<Vec<RecorderRow>>) -> (res:
    RecorderList)
    ensures
        match rows.deep_view() {
            Some(r) => res.count == r.len() && res.recorders.deep_view() == sorting::stable_sorted(
                all_recorders(active.deep_view(), r),
                room_order(),
            ),
            None => res.count == 0 && res.recorders.deep_view() == active.deep_view(),
        },
{
    match rows {
        None => RecorderList { count: 0, recorders: copy_recorders(active) },
        Some(rows) => {
            let mut list = copy_recorders(active);
            let ghost all = rows.deep_view();
            let ghost running = active.deep_view();
            let mut i: usize = 0;
            assert(all.take(0) =~= Seq::empty());
            while i < rows.len()
                invariant
                    i <= rows@.len(),
                    all == rows.deep_view(),
                    running == active.deep_view(),
                    list.deep_view() == all_recorders(running, all.take(i as int)),
                decreases rows@.len() - i,
            {
                let ghost next = all.take(i + 1);
                assert(next.drop_last() =~= all.take(i as int));
                assert(next.last() == rows@[i as int].deep_view());
                let ghost before = list.deep_view();
                if !is_covered(active, rows[i].room_id.as_str()) {
                    let info = idle_info(&rows[i]);
                    list.push(info);
                    assert(list.deep_view() =~= before.push(info.deep_view()));
                }
                i += 1;
            }
            assert(all.take(i as int) =~= all);
            RecorderList { count: rows.len(), recorders: sort_recorders(&list) }
        },
    }
}

/// The list of recorders is in the order of their rooms and loses none that runs.
pub proof fn law_the_recorder_list_is_ordered(
    active: Seq<RecorderInfoView>,
    rows: Seq<RecorderRowView>,
)
    ensures
        sorting::in_order(
            sorting::stable_sorted(all_recorders(active, rows), room_order()),
            room_order(),
        ),
        sorting::stable_sorted(all_recorders(active, rows), room_order()).to_multiset()
            == all_recorders(active, rows).to_multiset(),
        all_recorders(active, rows).len() >= active.len(),
        all_recorders(active, rows).take(active.len() as int) == active,
    decreases rows.len(),
{
    let le = room_order();
    sorting::lemma_text_order();
    let text = sorting::text_order();
    assert forall|a: RecorderInfoView, b: RecorderInfoView| #[trigger] le(a, b) || le(b, a) by {
        assert(text(a.room_info.room_id, b.room_info.room_id) || text(
            b.room_info.room_id,
            a.room_info.room_id,
        ));
    }
    assert forall|a: RecorderInfoView, b: RecorderInfoView, c: RecorderInfoView| #[trigger]
        le(a, b) && #[trigger] le(b, c) implies le(a, c) by {
        assert(text(a.room_info.room_id, b.room_info.room_id));
        assert(text(b.room_info.room_id, c.room_info.room_id));
    }
    sorting::lemma_stable_sorted(all_recorders(active, rows), le);
    if rows.len() > 0 {
        law_the_recorder_list_is_ordered(active, rows.drop_last());
        let before = all_recorders(active, rows.drop_last());
        let all = all_recorders(active, rows);
        assert(all.take(active.len() as int) =~= before.take(active.len() as int));
    } else {
        assert(active.take(active.len() as int) =~= active);
    }
}

/// Whether a recorder of a platform can be made without an account.
pub open spec fn needs_no_account(platform: PlatformType) -> bool {
    platform == PlatformType::Huya || platform == PlatformType::Kuaishou || platform
        == PlatformType::TikTok
}

/// Whether a recorder is made at the start: where there is an account or none is needed.
pub fn can_start_recorder(platform: PlatformType, has_account: bool) -> (res: bool)
    ensures
        res == (has_account || needs_no_account(platform)),
{
    has_account || platform == PlatformType::Huya || platform == PlatformType::Kuaishou || platform
        == PlatformType::TikTok
}

/// Whether a row is that of a recorder which is to be made: it neither runs nor is being removed,
/// and no later row is for the same room.
pub open spec fn is_missing(
    rows: Seq<RecorderRowView>,
    i: int,
    existing: Seq<Seq<char>>,
    removing: Seq<Seq<char>>,
) -> bool {
    let id = recorder_key(rows[i].platform, rows[i].room_id);
    &&& !existing.contains(id)
    &&& !removing.contains(id)
    &&& forall|j: int|
        i < j < rows.len() ==> (#[trigger] rows[j]).platform != rows[i].platform || rows[j].room_id
            != rows[i].room_id
}

fn row_is_missing(
    rows: &Vec<RecorderRow>,
    i: usize,
    existing: &Vec<String>,
    removing: &Vec<String>,
) -> (res: bool)
    requires
        i < rows@.len(),
    ensures
        res == is_missing(
            rows.deep_view(),
            i as int,
            existing.deep_view(),
            removing.deep_view(),
        ),
{
    let id = recorder_id(rows[i].platform.as_str(), rows[i].room_id.as_str());
    if text::list_contains(existing, id.as_str()) || text::list_contains(removing, id.as_str()) {
        return false;
    }
    let ghost all = rows.deep_view();
    let n = rows.len();
    let mut j: usize = i + 1;
    while j < n
        invariant
            n == rows@.len(),
            i < j <= n,
            all == rows.deep_view(),
            forall|k: int|
                i < k < j ==> (#[trigger] all[k]).platform != all[i as int].platform
                    || all[k].room_id != all[i as int].room_id,
        decreases rows@.len() - j,
    {
        assert(all[j as int] == rows@[j as int].deep_view());
        if text::same(rows[j].platform.as_str(), rows[i].platform.as_str()) && text::same(
            rows[j].room_id.as_str(),
            rows[i].room_id.as_str(),
        ) {
            return false;
        }
        j += 1;
    }
    true
}

/// The rows, by their positions, of recorders that are to be made.
pub fn monitor_recorders(
    rows: &Vec<RecorderRow>,
    existing: &Vec<String>,
    removing: &Vec<String>,
) -> (res: Vec<usize>)
    ensures
        forall|k: int|
            0 <= k < res@.len() ==> (#[trigger] res@[k]) < rows@.len() && is_missing(
                rows.deep_view(),
                res@[k] as int,
                existing.deep_view(),
                removing.deep_view(),
            ),
        forall|i: int|
            0 <= i < rows@.len() && #[trigger] is_missing(
                rows.deep_view(),
                i,
                existing.deep_view(),
                removing.deep_view(),
            ) ==> res@.contains(i as usize),
        forall|a: int, b: int|
            #![trigger res@[a], res@[b]]
            0 <= a < b < res@.len() ==> res@[a] < res@[b],
{
    let mut out: Vec<usize> = Vec::new();
    let ghost all = rows.deep_view();
    let mut i: usize = 0;
    while i < rows.len()
        invariant
            i <= rows@.len(),
            all == rows.deep_view(),
            forall|k: int|
                0 <= k < out@.len() ==> (#[trigger] out@[k]) < i && is_missing(
                    all,
                    out@[k] as int,
                    existing.deep_view(),
                    removing.deep_view(),
                ),
            forall|j: int|
                0 <= j < i && #[trigger] is_missing(
                    all,
                    j,
                    existing.deep_view(),
                    removing.deep_view(),
                ) ==> out@.contains(j as usize),
            forall|a: int, b: int|
                #![trigger out@[a], out@[b]]
                0 <= a < b < out@.len() ==> out@[a] < out@[b],
        decreases rows@.len() - i,
    {
        let ghost before = out@;
        if row_is_missing(rows, i, existing, removing) {
            out.push(i);
            proof {
                assert(out@[out@.len() - 1] == i);
                assert forall|j: int| 0 <= j <= i && #[trigger] is_missing(
                    all,
                    j,
                    existing.deep_view(),
                    removing.deep_view(),
                ) implies out@.contains(j as usize) by {
                    if j < i {
                        assert(before.contains(j as usize));
                        let k = choose|k: int| 0 <= k < before.len() && before[k] == j as usize;
                        assert(out@[k] == j as usize);
                    }
                }
            }
        }
        i += 1;
    }
    out
}

/// Whether a recorder can be added: a room has one recorder, and not every platform is recorded.
pub fn add_recorder(platform: PlatformType, room_id: &str, existing: &Vec<String>) -> (res: Result<
    String,
    RecorderManagerError,
>)
    ensures
        existing.deep_view().contains(recorder_key(platform.name(), room_id@)) ==> (
        res matches Err(RecorderManagerError::AlreadyExisted { room_id: r }) && r@ == room_id@),
        !existing.deep_view().contains(recorder_key(platform.name(), room_id@)) ==> (
        if platform == PlatformType::BiliBili || platform == PlatformType::Douyin || platform
            == PlatformType::Huya || platform == PlatformType::Kuaishou || platform
            == PlatformType::TikTok {
            res matches Ok(id) && id@ == recorder_key(platform.name(), room_id@)
        } else {
            res matches Err(RecorderManagerError::InvalidPlatformType { platform: p }) && p@
                == platform.name()
        }),
{
    let id = recorder_id(platform.as_str(), room_id);
    if text::list_contains(existing, id.as_str()) {
        return Err(RecorderManagerError::AlreadyExisted { room_id: text::copy(room_id) });
    }
    match platform {
        PlatformType::BiliBili => Ok(id),
        PlatformType::Douyin => Ok(id),
        PlatformType::Huya => Ok(id),
        PlatformType::Kuaishou => Ok(id),
        PlatformType::TikTok => Ok(id),
        _ => Err(
            RecorderManagerError::InvalidPlatformType { platform: text::copy(platform.as_str()) },
        ),
    }
}

/// Whether a recorder can be removed: where it is there.
pub fn remove_recorder(platform: PlatformType, room_id: &str, existing: &Vec<String>) -> (res: Result<
    String,
    RecorderManagerError,
>)
    ensures
        existing.deep_view().contains(recorder_key(platform.name(), room_id@)) ==> (
        res matches Ok(id) && id@ == recorder_key(platform.name(), room_id@)),
        !existing.deep_view().contains(recorder_key(platform.name(), room_id@)) ==> (
        res matches Err(RecorderManagerError::NotFound { room_id: r }) && r@ == room_id@),
{
    let id = recorder_id(platform.as_str(), room_id);
    if text::list_contains(existing, id.as_str()) {
        Ok(id)
    } else {
        Err(RecorderManagerError::NotFound { room_id: text::copy(room_id) })
    }
}

/// The account with which a room is added.
pub enum AccountChoice {
    Stored,
    Anonymous,
}

/// Why a room cannot be added.
pub enum AccountError {
    /// The message is shown as it is.
    Plain(String),
    /// The message is shown behind a label.
    Labelled(String),
}

impl AccountError {
    /// The message that is shown.
    pub open spec fn text(self) -> Seq<char> {
        match self {
            AccountError::Plain(m) => m@,
            AccountError::Labelled(m) => "添加失败: "@ + m@,
        }
    }

    /// The message that is shown.
    pub fn to_text(&self) -> (res: String)
        ensures
            res@ == self.text(),
    {
        match self {
            AccountError::Plain(m) => text::copy(m.as_str()),
            AccountError::Labelled(m) => labelled("添加失败: ", m.as_str()),
        }
    }
}

/// The account with which a room is added: two platforms need one, most do without, and one is not
/// supported.
pub fn account_choice(platform: PlatformType, has_account: bool) -> (res: Result<
    AccountChoice,
    AccountError,
>)
    ensures
        match platform {
            PlatformType::BiliBili => if has_account {
                res matches Ok(AccountChoice::Stored)
            } else {
                res matches Err(AccountError::Labelled(m)) && m@
                    == "没有可用账号，请先添加账号"@
            },
            PlatformType::Douyin => if has_account {
                res matches Ok(AccountChoice::Stored)
            } else {
                res matches Err(AccountError::Plain(m)) && m@ == "没有可用账号，请先添加账号"@
            },
            PlatformType::Youtube => res matches Err(AccountError::Labelled(m)) && m@
                == "不支持的平台"@,
            _ => if has_account {
                res matches Ok(AccountChoice::Stored)
            } else {
                res matches Ok(AccountChoice::Anonymous)
            },
        },
{
    match platform {
        PlatformType::BiliBili => if has_account {
            Ok(AccountChoice::Stored)
        } else {
            Err(AccountError::Labelled(text::copy("没有可用账号，请先添加账号")))
        },
        PlatformType::Douyin => if has_account {
            Ok(AccountChoice::Stored)
        } else {
            Err(AccountError::Plain(text::copy("没有可用账号，请先添加账号")))
        },
        PlatformType::Youtube => Err(AccountError::Labelled(text::copy("不支持的平台"))),
        _ => if has_account {
            Ok(AccountChoice::Stored)
        } else {
            Ok(AccountChoice::Anonymous)
        },
    }
}

/// What is done about a session that is reported as ended.
#[derive(Clone, Copy, Debug, PartialEq, Eq, Structural)]
pub enum LiveEndAction {
    Ignore,
    Duplicate,
    Handle,
}

/// What is done about a session that is reported as ended: on this platform a report without its
/// session is ignored, and so is one of a session that was claimed before.
pub open spec fn end_report(
    claimed: Seq<(Seq<char>, Seq<char>)>,
    platform: PlatformType,
    room_id: Seq<char>,
    platform_live_id: Seq<char>,
) -> LiveEndAction {
    let session = text::trimmed(platform_live_id);
    if platform != PlatformType::Douyin {
        LiveEndAction::Handle
    } else if session.len() == 0 {
        LiveEndAction::Ignore
    } else if claimed.contains((room_id, session)) {
        LiveEndAction::Duplicate
    } else {
        LiveEndAction::Handle
    }
}

/// The claimed sessions after a report that a live ended.
pub open spec fn claims_after(
    claimed: Seq<(Seq<char>, Seq<char>)>,
    platform: PlatformType,
    room_id: Seq<char>,
    platform_live_id: Seq<char>,
) -> Seq<(Seq<char>, Seq<char>)> {
    if platform == PlatformType::Douyin && end_report(claimed, platform, room_id, platform_live_id)
        == LiveEndAction::Handle {
        claimed.push((room_id, text::trimmed(platform_live_id)))
    } else {
        claimed
    }
}

/// Takes a report that a live ended, and claims its session where the report is the first.
pub fn claim_live_end(
    claimed: &mut Vec<DouyinWholeSessionKey>,
    platform: PlatformType,
    room_id: &str,
    platform_live_id: &str,
) -> (res: LiveEndAction)
    ensures
        res == end_report(old(claimed).deep_view(), platform, room_id@, platform_live_id@),
        final(claimed).deep_view() == claims_after(
            old(claimed).deep_view(),
            platform,
            room_id@,
            platform_live_id@,
        ),
{
    if platform != PlatformType::Douyin {
        return LiveEndAction::Handle;
    }
    let session = text::trim(platform_live_id);
    if text::is_empty(session.as_str()) {
        return LiveEndAction::Ignore;
    }
    if whole::claim_douyin_whole_session(claimed, room_id, session.as_str()) {
        LiveEndAction::Handle
    } else {
        LiveEndAction::Duplicate
    }
}

/// A session that was handled is never handled again, and it does not stand in the way of another
/// room or another session.
pub proof fn law_a_session_is_handled_once(
    claimed: Seq<(Seq<char>, Seq<char>)>,
    room_id: Seq<char>,
    session: Seq<char>,
    other_room: Seq<char>,
    other_session: Seq<char>,
)
    ensures
        ({
            let after = claims_after(claimed, PlatformType::Douyin, room_id, session);
            &&& end_report(after, PlatformType::Douyin, room_id, session) != LiveEndAction::Handle
            &&& claims_after(after, PlatformType::Douyin, room_id, session) == after
            &&& (other_room, text::trimmed(other_session)) != (room_id, text::trimmed(session))
                ==> end_report(after, PlatformType::Douyin, other_room, other_session)
                == end_report(claimed, PlatformType::Douyin, other_room, other_session)
        }),
{
    let after = claims_after(claimed, PlatformType::Douyin, room_id, session);
    let key = (room_id, text::trimmed(session));
    let other = (other_room, text::trimmed(other_session));
    if end_report(claimed, PlatformType::Douyin, room_id, session) == LiveEndAction::Handle {
        assert(after[after.len() - 1] == key);
        if claimed.contains(other) {
            let i = choose|i: int| 0 <= i < claimed.len() && claimed[i] == other;
            assert(after[i] == other);
        }
    }
}

/// The platform of a recording that ended; one that is not known counts as the first.
pub fn record_end_platform(platform: &str) -> (res: PlatformType)
    ensures
        res == (match PlatformType::named(platform@) {
            Some(p) => p,
            None => PlatformType::BiliBili,
        }),
{
    match PlatformType::from_name(platform) {
        Some(p) => p,
        None => PlatformType::BiliBili,
    }
}

/// The text of a notification that a live started.
pub fn live_start_body(user_name: &str, room_title: &str) -> (res: String)
    ensures
        res@ == user_name@ + " 开启了直播："@ + room_title@,
{
    let mut body = text::copy(user_name);
    body.append(" 开启了直播：");
    body.append(room_title);
    body
}

/// The text of a notification that a live ended.
pub fn live_end_body(user_name: &str, room_title: &str) -> (res: String)
    ensures
        res@ == user_name@ + " 结束了直播："@ + room_title@,
{
    let mut body = text::copy(user_name);
    body.append(" 结束了直播：");
    body.append(room_title);
    body
}

/// Whether a playlist is complete: unless its recording is the recorder's own and the recorder is
/// recording.
pub fn is_outdated_playlist(current: &Option<RecorderInfo>, live_id: &str) -> (res: bool)
    ensures
        res == !(current matches Some(r) && r.live_id@ == live_id@ && r.recording),
{
    match current {
        Some(recorder) => !(text::same(recorder.live_id.as_str(), live_id) && recorder.recording),
        None => true,
    }
}

/// A message for the list of messages.
pub struct Message {
    pub title: String,
    pub content: String,
}

/// The message that a room was added.
pub fn room_added(room_id: &str) -> (res: Message)
    ensures
        res.title@ == "添加直播间"@,
        res.content@ == "添加了新直播间 "@ + room_id@,
{
    Message { title: text::copy("添加直播间"), content: labelled("添加了新直播间 ", room_id) }
}

/// The message that a room was removed.
pub fn room_removed(room_id: &str) -> (res: Message)
    ensures
        res.title@ == "移除直播间"@,
        res.content@ == "移除了直播间 "@ + room_id@,
{
    Message { title: text::copy("移除直播间"), content: labelled("移除了直播间 ", room_id) }
}

/// The message that recordings were deleted.
pub fn delete_archives(room_id: &str, live_ids: &Vec<String>) -> (res: Message)
    ensures
        res.title@ == "删除历史缓存"@,
        res.content@ == "删除了房间 "@ + room_id@ + " 的历史缓存 "@ + text::joined(
            live_ids.deep_view(),
            ", "@,
        ),
{
    let mut content = text::copy("删除了房间 ");
    content.append(room_id);
    content.append(" 的历史缓存 ");
    let list = text::join(live_ids, ", ");
    content.append(list.as_str());
    Message { title: text::copy("删除历史缓存"), content }
}

/// Every room that has a row is listed, and no more: an active recorder as it is, and any other room
/// as one that neither runs nor is live. No room is listed as idle that has an active recorder.
pub proof fn law_every_room_is_listed(
    active: Seq<RecorderInfoView>,
    a: Seq<RecorderRowView>,
    b: Seq<RecorderRowView>,
)
    ensures
        all_recorders(active, a + b) == all_recorders(active, a) + all_recorders(active, b).skip(
            active.len() as int,
        ),
        all_recorders(active, a).len() >= active.len(),
        all_recorders(active, a).take(active.len() as int) == active,
        a.len() == 0 ==> all_recorders(active, a) == active,
        a.len() == 1 && (exists|i: int|
            0 <= i < active.len() && (#[trigger] active[i]).room_info.room_id == a[0].room_id)
            ==> all_recorders(active, a) == active,
        a.len() == 1 && !(exists|i: int|
            0 <= i < active.len() && (#[trigger] active[i]).room_info.room_id == a[0].room_id) ==> {
            let idle = all_recorders(active, a)[active.len() as int];
            &&& all_recorders(active, a).len() == active.len() + 1
            &&& idle.room_info.platform == a[0].platform
            &&& idle.room_info.room_id == a[0].room_id
            &&& idle.room_info.room_title == a[0].room_id
            &&& !idle.room_info.status && !idle.enabled && !idle.recording
            &&& idle.live_id.len() == 0 && idle.platform_live_id.len() == 0
        },
    decreases b.len(),
{
    reveal_with_fuel(all_recorders, 2);
    law_the_recorder_list_is_ordered(active, a);
    law_the_recorder_list_is_ordered(active, b);
    if b.len() == 0 {
        assert(a + b =~= a);
        assert(all_recorders(active, b).skip(active.len() as int) =~= Seq::empty());
    } else {
        law_every_room_is_listed(active, a, b.drop_last());
        law_the_recorder_list_is_ordered(active, b.drop_last());
        assert((a + b).drop_last() =~= a + b.drop_last());
        let n = active.len() as int;
        let before = all_recorders(active, b.drop_last());
        let x = idle_recorder(b.last());
        assert(before.push(x).skip(n) =~= before.skip(n).push(x));
    }
}

/// Recorders are told apart by platform and room: two of one platform share a key only if they are of
/// one room.
pub proof fn law_recorders_are_told_apart(platform: Seq<char>, a: Seq<char>, b: Seq<char>)
    requires
        recorder_key(platform, a) == recorder_key(platform, b),
    ensures
        a == b,
{
    let head = platform + ":"@;
    assert((head + a).skip(head.len() as int) =~= a);
    assert((head + b).skip(head.len() as int) =~= b);
}

/// Recorders of different platforms never share a key.
pub proof fn law_platforms_are_told_apart(
    platform: PlatformType,
    a: Seq<char>,
    other: PlatformType,
    b: Seq<char>,
)
    requires
        recorder_key(platform.name(), a) == recorder_key(other.name(), b),
    ensures
        platform == other,
        a == b,
{
    reveal_strlit(":");
    assert(":"@ =~= seq![':']);
    lemma_names_hold_no_colon(platform);
    lemma_names_hold_no_colon(other);
    text::law_texts_are_cut_at_the_first(platform.name(), ':', a);
    text::law_texts_are_cut_at_the_first(other.name(), ':', b);
    platform.law_names_round_trip();
    other.law_names_round_trip();
}

proof fn lemma_names_hold_no_colon(platform: PlatformType)
    ensures
        !platform.name().contains(':'),
{
    reveal_strlit("bilibili");
    reveal_strlit("douyin");
    reveal_strlit("huya");
    reveal_strlit("kuaishou");
    reveal_strlit("tiktok");
    reveal_strlit("xiaohongshu");
    reveal_strlit("weibo");
    reveal_strlit("youtube");
    let name = platform.name();
    assert forall|i: int| 0 <= i < name.len() implies name[i] != ':' by {}
}

/// A row is missing a recorder exactly where none of its key runs or is being removed; and of rows of
/// one key only the last counts, so that none is started twice.
pub proof fn law_no_recorder_is_started_twice(
    rows: Seq<RecorderRowView>,
    i: int,
    j: int,
    existing: Seq<Seq<char>>,
    removing: Seq<Seq<char>>,
)
    requires
        0 <= i < rows.len(),
        0 <= j < rows.len(),
        is_missing(rows, i, existing, removing),
    ensures
        !existing.contains(recorder_key(rows[i].platform, rows[i].room_id)),
        !removing.contains(recorder_key(rows[i].platform, rows[i].room_id)),
        is_missing(rows, j, existing, removing) && rows[j].platform == rows[i].platform
            && rows[j].room_id == rows[i].room_id ==> i == j,
{
    if i < j {
        assert(rows[j].platform != rows[i].platform || rows[j].room_id != rows[i].room_id);
    } else if j < i && is_missing(rows, j, existing, removing) {
        assert(rows[i].platform != rows[j].platform || rows[i].room_id != rows[j].room_id);
    }
}

/// A room that has a row, and whose recorder neither runs nor is being removed, is missing one: the
/// last of its rows says so.
pub proof fn law_missing_recorders_are_noticed(
    rows: Seq<RecorderRowView>,
    i: int,
    existing: Seq<Seq<char>>,
    removing: Seq<Seq<char>>,
) -> (last: int)
    requires
        0 <= i < rows.len(),
        !existing.contains(recorder_key(rows[i].platform, rows[i].room_id)),
        !removing.contains(recorder_key(rows[i].platform, rows[i].room_id)),
    ensures
        i <= last < rows.len(),
        rows[last].platform == rows[i].platform,
        rows[last].room_id == rows[i].room_id,
        is_missing(rows, last, existing, removing),
    decreases rows.len() - i,
{
    if is_missing(rows, i, existing, removing) {
        i
    } else {
        let j = choose|j: int|
            i < j < rows.len() && !((#[trigger] rows[j]).platform != rows[i].platform
                || rows[j].room_id != rows[i].room_id);
        law_missing_recorders_are_noticed(rows, j, existing, removing)
    }
}

/// When the end of a live is reported: outside Douyin it is always handled; on Douyin one without a
/// session is ignored, one that was handled before is a duplicate, and any other is handled and then
/// counts as handled.
pub proof fn law_ends_are_handled_or_told_apart(
    claimed: Seq<(Seq<char>, Seq<char>)>,
    platform: PlatformType,
    room_id: Seq<char>,
    session: Seq<char>,
)
    ensures
        ({
            let report = end_report(claimed, platform, room_id, session);
            let after = claims_after(claimed, platform, room_id, session);
            let known = text::trimmed(session).len() > 0;
            let before = claimed.contains((room_id, text::trimmed(session)));
            &&& platform != PlatformType::Douyin ==> report == LiveEndAction::Handle && after
                == claimed
            &&& platform == PlatformType::Douyin ==> (report == LiveEndAction::Ignore <==> !known)
                && (report == LiveEndAction::Duplicate <==> known && before) && (report
                == LiveEndAction::Handle <==> known && !before)
            &&& platform == PlatformType::Douyin && report == LiveEndAction::Handle ==> after
                == claimed.push((room_id, text::trimmed(session)))
            &&& report != LiveEndAction::Handle ==> after == claimed
        }),
{
}

/// A recorder can be made with an account on every platform, and without one where none is needed: on
/// Huya, Kuaishou and TikTok.
pub proof fn law_recorders_need_accounts(platform: PlatformType, has_account: bool, res: bool)
    requires
        call_ensures(can_start_recorder, (platform, has_account), res),
    ensures
        has_account ==> res,
        platform == PlatformType::Huya || platform == PlatformType::Kuaishou || platform
            == PlatformType::TikTok ==> res,
        !has_account && (platform == PlatformType::Douyin || platform == PlatformType::BiliBili
            || platform == PlatformType::Youtube || platform == PlatformType::Weibo || platform
            == PlatformType::Xiaohongshu) ==> !res,
{
}

/// A recorder is added once: one that is there is refused, and so is one of a platform that cannot be
/// recorded.
pub proof fn law_recorders_are_added_once(
    platform: PlatformType,
    room_id: &str,
    existing: &Vec<String>,
    res: Result<String, RecorderManagerError>,
)
    requires
        call_ensures(add_recorder, (platform, room_id, existing), res),
    ensures
        res is Ok ==> !existing.deep_view().contains(res->Ok_0@) && res->Ok_0@ == platform.name()
            + ":"@ + room_id@,
        res is Ok ==> platform != PlatformType::Youtube && platform != PlatformType::Weibo
            && platform != PlatformType::Xiaohongshu,
        existing.deep_view().contains(platform.name() + ":"@ + room_id@) ==> (res matches Err(
            RecorderManagerError::AlreadyExisted { room_id: r },
        ) && r@ == room_id@),
        !existing.deep_view().contains(platform.name() + ":"@ + room_id@) && (platform
            == PlatformType::BiliBili || platform == PlatformType::Douyin || platform
            == PlatformType::Huya || platform == PlatformType::Kuaishou || platform
            == PlatformType::TikTok) ==> res is Ok,
{
}

/// Of the recorders that are returned as missing none runs or is being removed; they come in the order
/// of their rows, each once.
pub proof fn law_missing_recorders_are_returned_once(
    rows: &Vec<RecorderRow>,
    existing: &Vec<String>,
    removing: &Vec<String>,
    res: Vec<usize>,
    k: int,
)
    requires
        call_ensures(monitor_recorders, (rows, existing, removing), res),
        0 <= k < res@.len(),
    ensures
        res@[k] < rows@.len(),
        !existing.deep_view().contains(
            rows@[res@[k] as int].platform@ + ":"@ + rows@[res@[k] as int].room_id@,
        ),
        !removing.deep_view().contains(
            rows@[res@[k] as int].platform@ + ":"@ + rows@[res@[k] as int].room_id@,
        ),
        forall|a: int, b: int|
            #![trigger res@[a], res@[b]]
            0 <= a < b < res@.len() ==> res@[a] < res@[b],
{
    assert(rows.deep_view().len() == rows@.len());
    assert(rows.deep_view()[res@[k] as int] == rows@[res@[k] as int].deep_view());
}

/// A recorder runs with the stored account where there is one; without, it runs anonymously where the
/// platform allows it, and not on BiliBili, Douyin or Youtube.
pub proof fn law_accounts_are_chosen(
    platform: PlatformType,
    has_account: bool,
    res: Result<AccountChoice, AccountError>,
)
    requires
        call_ensures(account_choice, (platform, has_account), res),
    ensures
        res is Err <==> platform == PlatformType::Youtube || (!has_account && (platform
            == PlatformType::BiliBili || platform == PlatformType::Douyin)),
        res is Ok ==> (res->Ok_0 is Stored <==> has_account),
        res is Ok ==> (res->Ok_0 is Anonymous <==> !has_account),
{
}

/// What is told of an error ends in what it is about.
pub proof fn law_errors_tell_what_they_are_about(detail: String, inner: RecorderError)
    ensures
        text::ends(RecorderManagerError::AlreadyExisted { room_id: detail }.text(), detail@),
        text::ends(RecorderManagerError::NotFound { room_id: detail }.text(), detail@),
        text::ends(RecorderManagerError::InvalidPlatformType { platform: detail }.text(), detail@),
        text::ends(RecorderManagerError::IoError(detail).text(), detail@),
        text::ends(RecorderManagerError::HLSError { err: detail }.text(), detail@),
        text::ends(RecorderManagerError::DatabaseError(detail).text(), detail@),
        text::ends(RecorderManagerError::ClipError { err: detail }.text(), detail@),
        text::ends(RecorderManagerError::RecorderError(inner).text(), inner.text()),
        text::ends(RecorderError::ApiError { error: detail }.text(), detail@),
        text::ends(RecorderError::IoError { error: detail }.text(), detail@),
{
    text::law_beginnings_and_ends(
        "Recorder already exists: "@,
        detail@,
        Seq::empty(),
        Seq::empty(),
    );
    text::law_beginnings_and_ends("Recorder not found: "@, detail@, Seq::empty(), Seq::empty());
    text::law_beginnings_and_ends("Invalid platform type: "@, detail@, Seq::empty(), Seq::empty());
    text::law_beginnings_and_ends("IO error: "@, detail@, Seq::empty(), Seq::empty());
    text::law_beginnings_and_ends("HLS error: "@, detail@, Seq::empty(), Seq::empty());
    text::law_beginnings_and_ends("Database error: "@, detail@, Seq::empty(), Seq::empty());
    text::law_beginnings_and_ends("Clip error: "@, detail@, Seq::empty(), Seq::empty());
    text::law_beginnings_and_ends("Recorder error: "@, inner.text(), Seq::empty(), Seq::empty());
    text::law_beginnings_and_ends("Api error: "@, detail@, Seq::empty(), Seq::empty());
}

} // verus!
