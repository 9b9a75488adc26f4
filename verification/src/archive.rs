//! Recordings on disk: what a directory holds, and when it may be removed.
use vstd::prelude::*;
use crate::markers;
use crate::paths;
use crate::platform::PlatformType;
use crate::text;

verus! {

/// A file in a recording. A name that is no text is not known.
pub struct ArchiveFile {
    pub name: Option<String>,
    pub size: u64,
}

impl DeepView for ArchiveFile {
    type V = (Option<Seq<char>>, u64);

    open spec fn deep_view(&self) -> (Option<Seq<char>>, u64) {
        (self.name.deep_view(), self.size)
    }
}

/// What a recording holds.
#[derive(Clone, Copy, Debug, PartialEq, Eq, Structural)]
pub enum DouyinArchiveDiskState {
    Empty,
    ValuableDataOnly,
    VideoMedia { total_size: u64 },
}

/// Whether a file is worth keeping: it is not empty, and it is neither the session's name nor a
/// temporary file. What is not known is kept.
pub open spec fn valuable(file: (Option<Seq<char>>, u64)) -> bool {
    file.1 > 0 && match file.0 {
        Some(name) => text::lowered(name) != markers::DOUYIN_SESSION_PARENT_FILE@ && !text::ends(
            text::lowered(name),
            ".tmp"@,
        ),
        None => true,
    }
}

/// The ends of the names of the files that a recorder writes.
pub open spec fn recorder_suffixes() -> Seq<Seq<char>> {
    seq![
        ".tmp"@,
        ".m3u8"@,
        ".log"@,
        ".jsonl"@,
        ".txt"@,
        ".ass"@,
        ".srt"@,
        ".jpg"@,
        ".ts"@,
        ".m4s"@,
        ".mp4"@,
        ".opus"@,
    ]
}

/// Whether a name is that of a file that a recorder writes.
pub open spec fn is_recorder_file(name: Seq<char>) -> bool {
    ||| text::lowered(name) == markers::DOUYIN_SESSION_PARENT_FILE@
    ||| exists|i: int|
        0 <= i < recorder_suffixes().len() && text::ends(
            text::lowered(name),
            #[trigger] recorder_suffixes()[i],
        )
}

/// Whether a file counts as media by itself: it is not empty, and it is of no kind that a recorder
/// writes. Keeping a directory for its sake is harmless, and deleting a segment with an unusual
/// name cannot be undone. A segment of a usual kind is no proof of a recording that can be played:
/// that takes a playlist that names it.
pub open spec fn unknown_media(file: (Option<Seq<char>>, u64)) -> bool {
    file.1 > 0 && match file.0 {
        Some(name) => !is_recorder_file(name),
        None => true,
    }
}

/// The size of files together, held to the largest number.
pub open spec fn total_size(files: Seq<(Option<Seq<char>>, u64)>) -> int
    decreases files.len(),
{
    if files.len() == 0 {
        0
    } else {
        let sum = total_size(files.drop_last()) + files.last().1;
        if sum > u64::MAX {
            u64::MAX as int
        } else {
            sum
        }
    }
}

/// What a recording holds, from its files and from whether its playlist names one of them that is
/// not empty.
pub open spec fn disk_state(
    files: Seq<(Option<Seq<char>>, u64)>,
    has_media: bool,
) -> DouyinArchiveDiskState {
    if has_media || exists|i: int| 0 <= i < files.len() && unknown_media(#[trigger] files[i]) {
        DouyinArchiveDiskState::VideoMedia {
            total_size: if total_size(files) > 1 {
                total_size(files) as u64
            } else {
                1
            },
        }
    } else if exists|i: int| 0 <= i < files.len() && valuable(#[trigger] files[i]) {
        DouyinArchiveDiskState::ValuableDataOnly
    } else {
        DouyinArchiveDiskState::Empty
    }
}

fn is_valuable(file: &ArchiveFile) -> (res: bool)
    ensures
        res == valuable(file.deep_view()),
{
    if file.size == 0 {
        return false;
    }
    match &file.name {
        Some(name) => {
            let lower = text::to_lower(name.as_str());
            !text::same(lower.as_str(), markers::DOUYIN_SESSION_PARENT_FILE) && !text::ends_with(
                lower.as_str(),
                ".tmp",
            )
        },
        None => true,
    }
}

fn has_recorder_suffix(name: &str) -> (res: bool)
    ensures
        res == exists|i: int|
            0 <= i < recorder_suffixes().len() && text::ends(
                name@,
                #[trigger] recorder_suffixes()[i],
            ),
{
    let suffixes = [
        ".tmp",
        ".m3u8",
        ".log",
        ".jsonl",
        ".txt",
        ".ass",
        ".srt",
        ".jpg",
        ".ts",
        ".m4s",
        ".mp4",
        ".opus",
    ];
    let mut i: usize = 0;
    while i < 12
        invariant
            i <= 12,
            forall|j: int| 0 <= j < 12 ==> (#[trigger] suffixes@[j])@ == recorder_suffixes()[j],
            forall|j: int|
                0 <= j < i ==> !text::ends(name@, #[trigger] recorder_suffixes()[j]),
        decreases 12 - i,
    {
        if text::ends_with(name, suffixes[i]) {
            assert(text::ends(name@, recorder_suffixes()[i as int]));
            return true;
        }
        i += 1;
    }
    false
}

fn is_unknown_media(file: &ArchiveFile) -> (res: bool)
    ensures
        res == unknown_media(file.deep_view()),
{
    if file.size == 0 {
        return false;
    }
    match &file.name {
        Some(name) => {
            let lower = text::to_lower(name.as_str());
            !text::same(lower.as_str(), markers::DOUYIN_SESSION_PARENT_FILE)
                && !has_recorder_suffix(lower.as_str())
        },
        None => true,
    }
}

/// What a recording holds. `has_media` says whether its playlist names one of its files that is
/// not empty.
pub fn inspect_douyin_archive(files: &Vec<ArchiveFile>, has_media: bool) -> (res:
    DouyinArchiveDiskState)
    ensures
        res == disk_state(files.deep_view(), has_media),
{
    let ghost all = files.deep_view();
    let mut size: u64 = 0;
    let mut has_valuable_data: bool = false;
    let mut has_unknown_media: bool = false;
    let mut i: usize = 0;
    assert(all.take(0) =~= Seq::empty());
    while i < files.len()
        invariant
            i <= files@.len(),
            all == files.deep_view(),
            size == total_size(all.take(i as int)),
            has_valuable_data == (exists|j: int| 0 <= j < i && valuable(#[trigger] all[j])),
            has_unknown_media == (exists|j: int| 0 <= j < i && unknown_media(#[trigger] all[j])),
        decreases files@.len() - i,
    {
        let ghost next = all.take(i + 1);
        assert(next.drop_last() =~= all.take(i as int));
        assert(next.last() == files@[i as int].deep_view());
        assert(all[i as int] == files@[i as int].deep_view());
        size = match size.checked_add(files[i].size) {
            Some(s) => s,
            None => u64::MAX,
        };
        if is_valuable(&files[i]) {
            has_valuable_data = true;
        }
        if is_unknown_media(&files[i]) {
            has_unknown_media = true;
        }
        i += 1;
    }
    assert(all.take(i as int) =~= all);
    if has_media || has_unknown_media {
        DouyinArchiveDiskState::VideoMedia {
            total_size: if size > 1 {
                size
            } else {
                1
            },
        }
    } else if has_valuable_data {
        DouyinArchiveDiskState::ValuableDataOnly
    } else {
        DouyinArchiveDiskState::Empty
    }
}

/// The size of a recording, where it holds video.
pub fn douyin_archive_media_size(state: DouyinArchiveDiskState) -> (res: Option<u64>)
    ensures
        res == (match state {
            DouyinArchiveDiskState::VideoMedia { total_size } => Some(total_size),
            _ => None::<u64>,
        }),
{
    match state {
        DouyinArchiveDiskState::VideoMedia { total_size } => Some(total_size),
        DouyinArchiveDiskState::Empty => None,
        DouyinArchiveDiskState::ValuableDataOnly => None,
    }
}

/// The directory of a recording.
pub open spec fn archive_dir(
    cache_dir: Seq<char>,
    platform: PlatformType,
    room_id: Seq<char>,
    live_id: Seq<char>,
    windows: bool,
) -> Seq<char> {
    paths::joined_path(
        paths::joined_path(
            paths::joined_path(cache_dir, platform.name(), windows),
            room_id,
            windows,
        ),
        live_id,
        windows,
    )
}

/// The directory of a recording.
pub fn archive_path(
    cache_dir: &str,
    platform: PlatformType,
    room_id: &str,
    live_id: &str,
    windows: bool,
) -> (res: String)
    ensures
        res@ == archive_dir(cache_dir@, platform, room_id@, live_id@, windows),
{
    let platform_dir = paths::join(cache_dir, platform.as_str(), windows);
    let room_dir = paths::join(platform_dir.as_str(), room_id, windows);
    paths::join(room_dir.as_str(), live_id, windows)
}

/// A file of a recording.
pub fn archive_file_path(
    cache_dir: &str,
    platform: PlatformType,
    room_id: &str,
    live_id: &str,
    file: &str,
    windows: bool,
) -> (res: String)
    ensures
        res@ == paths::joined_path(
            archive_dir(cache_dir@, platform, room_id@, live_id@, windows),
            file@,
            windows,
        ),
{
    let dir = archive_path(cache_dir, platform, room_id, live_id, windows);
    paths::join(dir.as_str(), file, windows)
}

/// What was done about a recording of size zero.
#[derive(Clone, Copy, Debug, PartialEq, Eq, Structural)]
pub enum DouyinZeroSizedArchiveRepair {
    Empty,
    ValuableDataOnly,
    VideoRepaired,
}

/// What is done about a recording of size zero, and the size that is added to its row.
pub fn repair_douyin_zero_sized_archive(state: DouyinArchiveDiskState) -> (res: (
    DouyinZeroSizedArchiveRepair,
    Option<u64>,
))
    ensures
        res == (match state {
            DouyinArchiveDiskState::Empty => (DouyinZeroSizedArchiveRepair::Empty, None::<u64>),
            DouyinArchiveDiskState::ValuableDataOnly => (
                DouyinZeroSizedArchiveRepair::ValuableDataOnly,
                None,
            ),
            DouyinArchiveDiskState::VideoMedia { total_size } => (
                DouyinZeroSizedArchiveRepair::VideoRepaired,
                Some(total_size),
            ),
        }),
{
    match state {
        DouyinArchiveDiskState::Empty => (DouyinZeroSizedArchiveRepair::Empty, None),
        DouyinArchiveDiskState::ValuableDataOnly => (
            DouyinZeroSizedArchiveRepair::ValuableDataOnly,
            None,
        ),
        DouyinArchiveDiskState::VideoMedia { total_size } => (
            DouyinZeroSizedArchiveRepair::VideoRepaired,
            Some(total_size),
        ),
    }
}

/// What is done with a recording that ended.
#[derive(Clone, Copy, Debug, PartialEq, Eq, Structural)]
pub enum RecordEndAction {
    Keep,
    Remove,
}

/// What is done with a recording that ended: only one of size zero may go, and one of this
/// platform goes only where it was found empty and its room is offline. A recording that could not
/// be looked at is kept.
pub open spec fn end_action(
    size: i64,
    platform: PlatformType,
    repair: Option<DouyinZeroSizedArchiveRepair>,
    room_is_live: bool,
) -> RecordEndAction {
    if size != 0 {
        RecordEndAction::Keep
    } else if platform != PlatformType::Douyin {
        RecordEndAction::Remove
    } else if repair == Some(DouyinZeroSizedArchiveRepair::Empty) && !room_is_live {
        RecordEndAction::Remove
    } else {
        RecordEndAction::Keep
    }
}

/// What is done with a recording that ended. `repair` is what looking at it came to; none where it
/// failed.
pub fn record_end_action(
    size: i64,
    platform: PlatformType,
    repair: Option<DouyinZeroSizedArchiveRepair>,
    room_is_live: bool,
) -> (res: RecordEndAction)
    ensures
        res == end_action(size, platform, repair, room_is_live),
{
    if size != 0 {
        return RecordEndAction::Keep;
    }
    if platform != PlatformType::Douyin {
        return RecordEndAction::Remove;
    }
    match repair {
        Some(DouyinZeroSizedArchiveRepair::Empty) => if room_is_live {
            RecordEndAction::Keep
        } else {
            RecordEndAction::Remove
        },
        _ => RecordEndAction::Keep,
    }
}

/// A recording with anything worth keeping is never removed when it ends, and neither is one that
/// could not be looked at.
pub proof fn law_recordings_with_data_are_kept(
    size: i64,
    files: Seq<(Option<Seq<char>>, u64)>,
    has_media: bool,
    repair: Option<DouyinZeroSizedArchiveRepair>,
    room_is_live: bool,
    i: int,
)
    requires
        0 <= i < files.len(),
        valuable(files[i]),
        repair is None || repair == Some(
            match disk_state(files, has_media) {
                DouyinArchiveDiskState::Empty => DouyinZeroSizedArchiveRepair::Empty,
                DouyinArchiveDiskState::ValuableDataOnly =>
                    DouyinZeroSizedArchiveRepair::ValuableDataOnly,
                DouyinArchiveDiskState::VideoMedia { total_size } =>
                    DouyinZeroSizedArchiveRepair::VideoRepaired,
            },
        ),
    ensures
        end_action(size, PlatformType::Douyin, repair, room_is_live) == RecordEndAction::Keep,
{
}

/// A recording with a file of no known kind holds video, whatever its playlist says, and it is never
/// removed when it ends.
pub proof fn law_unknown_files_count_as_media(
    size: i64,
    files: Seq<(Option<Seq<char>>, u64)>,
    has_media: bool,
    room_is_live: bool,
    i: int,
)
    requires
        0 <= i < files.len(),
        unknown_media(files[i]),
    ensures
        disk_state(files, has_media) is VideoMedia,
        end_action(
            size,
            PlatformType::Douyin,
            Some(DouyinZeroSizedArchiveRepair::VideoRepaired),
            room_is_live,
        ) == RecordEndAction::Keep,
{
}

/// Whether a directory in a room is a recording: what starts with a dot is not.
pub fn is_archive_name(name: &str) -> (res: bool)
    ensures
        res == !(name@.len() > 0 && name@[0] == '.'),
{
    let chars = text::chars_of(name);
    !(chars.len() > 0 && chars[0] == '.')
}

/// Whether a directory is looked at for recordings of a session that the database does not know.
pub fn douyin_session_candidate(name: &str, related: &Vec<String>) -> (res: bool)
    ensures
        res == (!(name@.len() > 0 && name@[0] == '.') && !related.deep_view().contains(name@)),
{
    is_archive_name(name) && !text::list_contains(related, name)
}

/// Whether a recording belongs to a session, from the file that names its session.
pub fn belongs_to_session(parent: &Option<String>, session_id: &str) -> (res: bool)
    ensures
        res == (match parent.deep_view() {
            Some(p) => text::trimmed(p) == session_id@,
            None => false,
        }),
{
    match parent {
        Some(p) => {
            let named = text::trim(p.as_str());
            text::same(named.as_str(), session_id)
        },
        None => false,
    }
}

/// The size of a recording is that of its files together, as far as it can be counted: it is no less
/// than that of any of them, it does not depend on their order, and it grows by just what is added.
pub proof fn law_sizes_add_up(
    a: Seq<(Option<Seq<char>>, u64)>,
    b: Seq<(Option<Seq<char>>, u64)>,
)
    ensures
        0 <= total_size(a) <= u64::MAX,
        a.len() == 0 ==> total_size(a) == 0,
        a.len() == 1 ==> total_size(a) == a[0].1,
        forall|i: int| 0 <= i < a.len() ==> total_size(a) >= (#[trigger] a[i]).1,
        total_size(a) + total_size(b) <= u64::MAX ==> total_size(a + b) == total_size(a)
            + total_size(b),
        total_size(a) + total_size(b) > u64::MAX ==> total_size(a + b) == u64::MAX,
        total_size(a + b) == total_size(b + a),
    decreases a.len(), b.len(),
{
    lemma_size_bounds(a);
    lemma_size_bounds(b);
    lemma_size_of_both(a, b);
    lemma_size_of_both(b, a);
    reveal_with_fuel(total_size, 2);
}

proof fn lemma_size_bounds(a: Seq<(Option<Seq<char>>, u64)>)
    ensures
        0 <= total_size(a) <= u64::MAX,
        forall|i: int| 0 <= i < a.len() ==> total_size(a) >= (#[trigger] a[i]).1,
    decreases a.len(),
{
    if a.len() > 0 {
        lemma_size_bounds(a.drop_last());
        assert forall|i: int| 0 <= i < a.len() implies total_size(a) >= (#[trigger] a[i]).1 by {
            if i < a.len() - 1 {
                assert(a.drop_last()[i] == a[i]);
            }
        }
    }
}

proof fn lemma_size_of_both(a: Seq<(Option<Seq<char>>, u64)>, b: Seq<(Option<Seq<char>>, u64)>)
    ensures
        total_size(a + b) == (if total_size(a) + total_size(b) <= u64::MAX {
            total_size(a) + total_size(b)
        } else {
            u64::MAX as int
        }),
    decreases b.len(),
{
    lemma_size_bounds(a);
    lemma_size_bounds(b);
    if b.len() == 0 {
        assert(a + b =~= a);
    } else {
        lemma_size_bounds(b.drop_last());
        lemma_size_of_both(a, b.drop_last());
        assert((a + b).drop_last() =~= a + b.drop_last());
    }
}

/// What a recording's directory is taken for. It is empty exactly where it holds no media and every
/// file in it is either empty, the name of the session, or a temporary one; and it holds video exactly
/// where media was found or some file is not of a kind that the recorder writes. A video is never said
/// to be empty, and otherwise has the size of the files.
pub proof fn law_what_a_directory_is_taken_for(
    files: Seq<(Option<Seq<char>>, u64)>,
    has_media: bool,
)
    ensures
        disk_state(files, has_media) is Empty ==> !has_media && forall|i: int|
            0 <= i < files.len() ==> (#[trigger] files[i]).1 == 0 || (files[i].0 matches Some(name)
                && (text::lowered(name) == markers::DOUYIN_SESSION_PARENT_FILE@ || text::ends(
                text::lowered(name),
                ".tmp"@,
            ))),
        !has_media && (forall|i: int|
            0 <= i < files.len() ==> (#[trigger] files[i]).1 == 0 || (files[i].0 matches Some(name)
                && (text::lowered(name) == markers::DOUYIN_SESSION_PARENT_FILE@ || text::ends(
                text::lowered(name),
                ".tmp"@,
            )))) ==> disk_state(files, has_media) is Empty,
        has_media ==> disk_state(files, has_media) is VideoMedia,
        disk_state(files, has_media) is VideoMedia ==> has_media || exists|i: int|
            0 <= i < files.len() && (#[trigger] files[i]).1 > 0 && (files[i].0 is None
                || !is_recorder_file(files[i].0->0)),
        disk_state(files, has_media) matches DouyinArchiveDiskState::VideoMedia { total_size: n }
            ==> n >= 1 && (total_size(files) >= 1 ==> n == total_size(files)) && (total_size(files)
            < 1 ==> n == 1),
{
    lemma_size_bounds(files);
    let spare = |i: int|
        files[i].1 == 0 || (files[i].0 matches Some(name) && (text::lowered(name)
            == markers::DOUYIN_SESSION_PARENT_FILE@ || text::ends(text::lowered(name), ".tmp"@)));
    assert(recorder_suffixes()[0] == ".tmp"@);
    assert forall|i: int| 0 <= i < files.len() implies spare(i) == !valuable(#[trigger] files[i])
        && (unknown_media(files[i]) ==> valuable(files[i])) by {
        if let Some(name) = files[i].0 {
            if text::ends(text::lowered(name), ".tmp"@) {
                assert(text::ends(text::lowered(name), recorder_suffixes()[0]));
            }
        }
    }
    assert forall|i: int| 0 <= i < files.len() && disk_state(files, has_media) is Empty implies (
    #[trigger] files[i]).1 == 0 || (files[i].0 matches Some(name) && (text::lowered(name)
        == markers::DOUYIN_SESSION_PARENT_FILE@ || text::ends(text::lowered(name), ".tmp"@))) by {
        assert(!valuable(files[i]));
        assert(spare(i));
    }
}

/// What the recorder itself writes never makes a directory count as video: neither playlists nor
/// chat, logs, subtitles, covers, segments and what is unfinished.
pub proof fn law_recorder_files_are_no_media(name: Seq<char>)
    ensures
        forall|suffix: Seq<char>| #[trigger]
            text::ends(text::lowered(name), suffix) && (suffix == ".m3u8"@ || suffix == ".jsonl"@
                || suffix == ".log"@ || suffix == ".txt"@ || suffix == ".ass"@ || suffix == ".srt"@
                || suffix == ".jpg"@ || suffix == ".ts"@ || suffix == ".m4s"@ || suffix == ".mp4"@
                || suffix == ".opus"@ || suffix == ".tmp"@) ==> forall|size: u64|
            !unknown_media((Some(name), size)),
{
    let s = recorder_suffixes();
    assert forall|suffix: Seq<char>| #[trigger]
        text::ends(text::lowered(name), suffix) && (suffix == ".m3u8"@ || suffix == ".jsonl"@
            || suffix == ".log"@ || suffix == ".txt"@ || suffix == ".ass"@ || suffix == ".srt"@
            || suffix == ".jpg"@ || suffix == ".ts"@ || suffix == ".m4s"@ || suffix == ".mp4"@
            || suffix == ".opus"@ || suffix == ".tmp"@) implies forall|size: u64|
        !unknown_media((Some(name), size)) by {
        assert(s[0] == ".tmp"@ && s[1] == ".m3u8"@ && s[2] == ".log"@ && s[3] == ".jsonl"@ && s[4]
            == ".txt"@ && s[5] == ".ass"@ && s[6] == ".srt"@ && s[7] == ".jpg"@ && s[8] == ".ts"@
            && s[9] == ".m4s"@ && s[10] == ".mp4"@ && s[11] == ".opus"@);
        assert(is_recorder_file(name));
    }
}

/// When a recording ends, its row is removed only where it has no size. On Douyin it must besides be
/// known that there is nothing on disk, and the room must no longer be live; elsewhere nothing more is
/// asked.
pub proof fn law_rows_are_removed_only_without_size(
    size: i64,
    platform: PlatformType,
    repair: Option<DouyinZeroSizedArchiveRepair>,
    room_is_live: bool,
)
    ensures
        end_action(size, platform, repair, room_is_live) == RecordEndAction::Remove ==> size == 0,
        platform != PlatformType::Douyin ==> (end_action(size, platform, repair, room_is_live)
            == RecordEndAction::Remove <==> size == 0),
        platform == PlatformType::Douyin ==> (end_action(size, platform, repair, room_is_live)
            == RecordEndAction::Remove <==> size == 0 && !room_is_live && repair == Some(
            DouyinZeroSizedArchiveRepair::Empty,
        )),
{
}

/// Recordings stand in a directory of their own, below that of their room: no two recordings of a room
/// share one.
pub proof fn law_recordings_have_their_own_directory(
    cache_dir: Seq<char>,
    platform: PlatformType,
    room_id: Seq<char>,
    live_id: Seq<char>,
    other: Seq<char>,
    windows: bool,
)
    requires
        paths::is_simple_name(live_id),
        paths::is_simple_name(other),
        archive_dir(cache_dir, platform, room_id, live_id, windows) == archive_dir(
            cache_dir,
            platform,
            room_id,
            other,
            windows,
        ),
    ensures
        live_id == other,
{
    paths::lemma_join_injective(
        paths::joined_path(
            paths::joined_path(cache_dir, platform.name(), windows),
            room_id,
            windows,
        ),
        live_id,
        other,
        windows,
    );
}

/// Below a directory that does not end in a slash, and with names that do not begin with one, the
/// place of a recording spells out its platform, its room and itself.
pub proof fn law_a_recordings_place_is_spelt_out(
    cache_dir: Seq<char>,
    platform: PlatformType,
    room_id: Seq<char>,
    live_id: Seq<char>,
)
    requires
        cache_dir.len() > 0,
        cache_dir.last() != '/',
        room_id.len() > 0,
        room_id[0] != '/',
        room_id.last() != '/',
        live_id.len() > 0,
        live_id[0] != '/',
    ensures
        archive_dir(cache_dir, platform, room_id, live_id, false) == cache_dir + "/"@
            + platform.name() + "/"@ + room_id + "/"@ + live_id,
{
    reveal_strlit("/");
    reveal_strlit("bilibili");
    reveal_strlit("douyin");
    reveal_strlit("huya");
    reveal_strlit("kuaishou");
    reveal_strlit("tiktok");
    reveal_strlit("xiaohongshu");
    reveal_strlit("weibo");
    reveal_strlit("youtube");
    let first = paths::joined_path(cache_dir, platform.name(), false);
    assert(first =~= cache_dir + "/"@ + platform.name());
    let second = paths::joined_path(first, room_id, false);
    assert(second =~= cache_dir + "/"@ + platform.name() + "/"@ + room_id);
    assert(paths::joined_path(second, live_id, false) =~= second + "/"@ + live_id);
}

/// A recording without a size is repaired where its directory holds video, with the size that was found
/// there, and in no other case.
pub proof fn law_only_video_is_repaired(
    state: DouyinArchiveDiskState,
    res: (DouyinZeroSizedArchiveRepair, Option<u64>),
)
    requires
        call_ensures(repair_douyin_zero_sized_archive, (state,), res),
    ensures
        res.0 is VideoRepaired <==> state is VideoMedia,
        res.0 is ValuableDataOnly <==> state is ValuableDataOnly,
        res.0 is Empty <==> state is Empty,
        res.1 is Some <==> state is VideoMedia,
        state matches DouyinArchiveDiskState::VideoMedia { total_size } ==> res.1 == Some(
            total_size,
        ),
{
}

/// Any file that has something in it, and is not of a kind that the recorder writes, makes a directory
/// count as video, as does one whose name cannot be read.
pub proof fn law_foreign_files_are_video(
    files: Seq<(Option<Seq<char>>, u64)>,
    has_media: bool,
    i: int,
)
    requires
        0 <= i < files.len(),
        files[i].1 > 0,
        files[i].0 matches Some(name) ==> {
            let n = text::lowered(name);
            &&& n != markers::DOUYIN_SESSION_PARENT_FILE@
            &&& !text::ends(n, ".tmp"@) && !text::ends(n, ".m3u8"@) && !text::ends(n, ".log"@)
            &&& !text::ends(n, ".jsonl"@) && !text::ends(n, ".txt"@) && !text::ends(n, ".ass"@)
            &&& !text::ends(n, ".srt"@) && !text::ends(n, ".jpg"@) && !text::ends(n, ".ts"@)
            &&& !text::ends(n, ".m4s"@) && !text::ends(n, ".mp4"@) && !text::ends(n, ".opus"@)
        },
    ensures
        disk_state(files, has_media) is VideoMedia,
{
    assert(unknown_media(files[i])) by {
        if let Some(name) = files[i].0 {
            let s = recorder_suffixes();
            assert(s[0] == ".tmp"@ && s[1] == ".m3u8"@ && s[2] == ".log"@ && s[3] == ".jsonl"@
                && s[4] == ".txt"@ && s[5] == ".ass"@ && s[6] == ".srt"@ && s[7] == ".jpg"@ && s[8]
                == ".ts"@ && s[9] == ".m4s"@ && s[10] == ".mp4"@ && s[11] == ".opus"@);
            assert forall|k: int| 0 <= k < s.len() implies !text::ends(
                text::lowered(name),
                #[trigger] s[k],
            ) by {
                assert(s.len() == 12);
                assert(k == 0 || k == 1 || k == 2 || k == 3 || k == 4 || k == 5 || k == 6 || k == 7
                    || k == 8 || k == 9 || k == 10 || k == 11);
            }
        }
    }
}

} // verus!
