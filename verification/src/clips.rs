//! Clips: which recordings go into one, what it is called, and the chat that goes with it.
use vstd::prelude::*;
use crate::archive;
use crate::digits;
use crate::events::{DanmuEntry, DanmuEntryView};
use crate::manager;
use crate::manager::RecorderManagerError;
use crate::paths;
use crate::platform::PlatformType;
use crate::playlist;
use crate::playlist::Playlist;
use crate::rows;
use crate::rows::{RecordRow, RecordView, VideoRow, VideoView};
use crate::sorting;
use crate::text;
use crate::whole;

verus! {

/// A range of a recording in milliseconds; a range without a length has none.
pub struct Range {
    pub start_millis: i64,
    pub duration_millis: Option<i64>,
}

/// What a clip is asked for with.
pub struct ClipRangeParams {
    pub title: String,
    pub note: String,
    pub cover: String,
    pub platform: String,
    pub room_id: String,
    pub live_id: String,
    pub ranges: Vec<Range>,
    /// Encode danmu after clip
    pub danmu: bool,
    pub local_offset: i64,
    /// Fix encoding after clip
    pub fix_encoding: bool,
    /// Transition effect between clips (for multiple ranges)
    pub transition: Option<String>,
}

/// What the export of a whole session is asked for with.
pub struct GenerateWholeClipParams {
    pub encode_danmu: bool,
    pub platform: String,
    pub room_id: String,
    pub parent_id: String,
    pub selected_live_ids: Option<Vec<String>>,
    pub output_name: Option<String>,
}

/// A recording that goes into the export of its session.
pub struct RelatedPlaylist {
    pub live_id: String,
    pub title: String,
    pub path: String,
}

/// The model of a recording that goes into the export of its session.
#[verifier::ext_equal]
pub struct RelatedView {
    pub live_id: Seq<char>,
    pub title: Seq<char>,
    pub path: Seq<char>,
}

impl DeepView for RelatedPlaylist {
    type V = RelatedView;

    open spec fn deep_view(&self) -> RelatedView {
        RelatedView { live_id: self.live_id@, title: self.title@, path: self.path@ }
    }
}

impl Clone for RelatedPlaylist {
    fn clone(&self) -> (res: Self)
        ensures
            res.deep_view() == self.deep_view(),
    {
        RelatedPlaylist {
            live_id: text::copy(self.live_id.as_str()),
            title: text::copy(self.title.as_str()),
            path: text::copy(self.path.as_str()),
        }
    }
}

/// The position of the first failure, or the number of results.
pub open spec fn first_failure(results: Seq<Result<String, RecorderManagerError>>) -> int
    decreases results.len(),
{
    if results.len() == 0 || results[0] is Err {
        0
    } else {
        1 + first_failure(results.drop_first())
    }
}

proof fn lemma_first_failure(results: Seq<Result<String, RecorderManagerError>>, i: int)
    requires
        0 <= i <= results.len(),
        i < results.len() ==> results[i] is Err,
        forall|j: int| 0 <= j < i ==> (#[trigger] results[j]) is Ok,
    ensures
        first_failure(results) == i,
    decreases i,
{
    if i > 0 {
        let rest = results.drop_first();
        assert(results[0] is Ok);
        assert forall|j: int| 0 <= j < i - 1 implies (#[trigger] rest[j]) is Ok by {
            assert(rest[j] == results[j + 1]);
        }
        lemma_first_failure(rest, i - 1);
    }
}

/// The chat files of recordings, where each has one: a failure stays a failure, and the message
/// names the recording.
pub fn require_danmu_ass_files(
    live_ids: &[String],
    results: Vec<Result<String, RecorderManagerError>>,
) -> (res: Result<Vec<Option<String>>, RecorderManagerError>)
    ensures
        live_ids@.len() != results@.len() ==> (res matches Err(
            RecorderManagerError::ArchiveDanmuAssGenerationFailed { error },
        ) && error@ == "Archive/danmu result count mismatch: "@ + digits::signed_decimal(
            live_ids@.len() as int,
        ) + " archives, "@ + digits::signed_decimal(results@.len() as int) + " results"@),
        live_ids@.len() == results@.len() && first_failure(results@) < results@.len() ==> (
        res matches Err(RecorderManagerError::ArchiveDanmuAssGenerationFailed { error }) && error@
            == "archive '"@ + live_ids@[first_failure(results@)]@ + "': "@
            + results@[first_failure(results@)]->Err_0.text()),
        live_ids@.len() == results@.len() && first_failure(results@) == results@.len() ==> (
        res matches Ok(files) && files@.len() == results@.len() && forall|i: int|
            0 <= i < files@.len() ==> ((#[trigger] files@[i]) matches Some(f) && f@
                == results@[i]->Ok_0@)),
{
    if live_ids.len() != results.len() {
        let mut error = text::copy("Archive/danmu result count mismatch: ");
        let a = digits::decimal_text(live_ids.len() as u128);
        error.append(a.as_str());
        error.append(" archives, ");
        let b = digits::decimal_text(results.len() as u128);
        error.append(b.as_str());
        error.append(" results");
        return Err(RecorderManagerError::ArchiveDanmuAssGenerationFailed { error });
    }
    let mut files: Vec<Option<String>> = Vec::new();
    let mut i: usize = 0;
    while i < results.len()
        invariant
            i <= results@.len(),
            live_ids@.len() == results@.len(),
            files@.len() == i,
            forall|j: int| 0 <= j < i ==> (#[trigger] results@[j]) is Ok,
            forall|j: int|
                0 <= j < i ==> ((#[trigger] files@[j]) matches Some(f) && f@
                    == results@[j]->Ok_0@),
        decreases results@.len() - i,
    {
        match &results[i] {
            Ok(file) => {
                files.push(Some(text::copy(file.as_str())));
            },
            Err(e) => {
                proof {
                    lemma_first_failure(results@, i as int);
                }
                let mut error = text::copy("archive '");
                error.append(live_ids[i].as_str());
                error.append("': ");
                let reason = e.to_text();
                error.append(reason.as_str());
                return Err(RecorderManagerError::ArchiveDanmuAssGenerationFailed { error });
            },
        }
        i += 1;
    }
    proof {
        lemma_first_failure(results@, i as int);
    }
    Ok(files)
}

/// The recordings of a platform among others, in the same order.
pub open spec fn of_platform(records: Seq<RecordView>, platform: Seq<char>) -> Seq<RecordView>
    decreases records.len(),
{
    if records.len() == 0 {
        Seq::empty()
    } else {
        let before = of_platform(records.drop_last(), platform);
        if records.last().platform == platform {
            before.push(records.last())
        } else {
            before
        }
    }
}

/// The number that a recording is called by, where it is one.
pub open spec fn live_number(record: RecordView) -> Option<int> {
    digits::within(digits::signed_value(record.live_id), i128::MIN as int, i128::MAX as int)
}

/// Whether every recording is called by a number.
pub open spec fn all_numbered(records: Seq<RecordView>) -> bool {
    forall|i: int| 0 <= i < records.len() ==> live_number(#[trigger] records[i]) is Some
}

/// The number that a recording is called by, or zero.
pub open spec fn number_or_zero(record: RecordView) -> int {
    match live_number(record) {
        Some(n) => n,
        None => 0,
    }
}

/// The order of recordings: by number, or by the time at which they were made and by name.
pub open spec fn record_order(by_number: bool) -> spec_fn(RecordView, RecordView) -> bool {
    |a: RecordView, b: RecordView|
        if by_number {
            number_or_zero(a) <= number_or_zero(b)
        } else if a.created_at == b.created_at {
            text::text_le(a.live_id, b.live_id)
        } else {
            text::text_le(a.created_at, b.created_at)
        }
}

/// The recordings of a session in the order in which they were made: by number where this is the
/// platform whose recordings are called by their time and each is a number.
pub open spec fn ordered_records(records: Seq<RecordView>, platform: PlatformType) -> Seq<
    RecordView,
> {
    let own = of_platform(records, platform.name());
    sorting::stable_sorted(own, record_order(platform == PlatformType::Douyin && all_numbered(own)))
}

fn number_of_record(record: &RecordRow) -> (res: i128)
    ensures
        res == number_or_zero(record.deep_view()),
{
    match digits::parse_i128(record.live_id.as_str()) {
        Some(n) => n,
        None => 0,
    }
}

fn record_not_after(by_number: bool, a: &RecordRow, b: &RecordRow) -> (res: bool)
    ensures
        res == record_order(by_number)(a.deep_view(), b.deep_view()),
{
    if by_number {
        number_of_record(a) <= number_of_record(b)
    } else if text::same(a.created_at.as_str(), b.created_at.as_str()) {
        text::not_after(a.live_id.as_str(), b.live_id.as_str())
    } else {
        text::not_after(a.created_at.as_str(), b.created_at.as_str())
    }
}

fn records_of_platform(records: &Vec<RecordRow>, platform: &str) -> (res: Vec<RecordRow>)
    ensures
        res.deep_view() == of_platform(records.deep_view(), platform@),
{
    let mut out: Vec<RecordRow> = Vec::new();
    let ghost all = records.deep_view();
    let mut i: usize = 0;
    assert(all.take(0) =~= Seq::empty());
    assert(out.deep_view() =~= Seq::<RecordView>::empty());
    while i < records.len()
        invariant
            i <= records@.len(),
            all == records.deep_view(),
            out.deep_view() == of_platform(all.take(i as int), platform@),
        decreases records@.len() - i,
    {
        let ghost next = all.take(i + 1);
        assert(next.drop_last() =~= all.take(i as int));
        assert(next.last() == records@[i as int].deep_view());
        let ghost before = out.deep_view();
        if text::same(records[i].platform.as_str(), platform) {
            out.push(records[i].clone());
            assert(out.deep_view() =~= before.push(records@[i as int].deep_view()));
        }
        i += 1;
    }
    assert(all.take(i as int) =~= all);
    out
}

fn are_numbered(records: &Vec<RecordRow>) -> (res: bool)
    ensures
        res == all_numbered(records.deep_view()),
{
    let ghost all = records.deep_view();
    let mut i: usize = 0;
    while i < records.len()
        invariant
            i <= records@.len(),
            all == records.deep_view(),
            forall|j: int| 0 <= j < i ==> live_number(#[trigger] all[j]) is Some,
        decreases records@.len() - i,
    {
        assert(all[i as int] == records@[i as int].deep_view());
        if digits::parse_i128(records[i].live_id.as_str()).is_none() {
            assert(live_number(all[i as int]) is None);
            return false;
        }
        i += 1;
    }
    true
}

/// The recordings of a session in the order in which they were made.
pub fn order_archives(records: &Vec<RecordRow>, platform: PlatformType) -> (res: Vec<RecordRow>)
    ensures
        res.deep_view() == ordered_records(records.deep_view(), platform),
{
    let list = records_of_platform(records, platform.as_str());
    let by_number = platform == PlatformType::Douyin && are_numbered(&list);
    let mut out: Vec<RecordRow> = Vec::new();
    let ghost all = list.deep_view();
    let ghost le = record_order(by_number);
    let mut i: usize = 0;
    assert(all.take(0) =~= Seq::empty());
    assert(out.deep_view() =~= Seq::<RecordView>::empty());
    while i < list.len()
        invariant
            i <= list@.len(),
            all == list.deep_view(),
            le == record_order(by_number),
            out.deep_view() == sorting::stable_sorted(all.take(i as int), le),
        decreases list@.len() - i,
    {
        let ghost next = all.take(i + 1);
        assert(next.drop_last() =~= all.take(i as int));
        let ghost x = list@[i as int].deep_view();
        assert(next.last() == x);
        let ghost before = out.deep_view();
        let mut p: usize = out.len();
        while p > 0 && !record_not_after(by_number, &out[p - 1], &list[i])
            invariant
                i < list@.len(),
                x == list@[i as int].deep_view(),
                p <= out@.len(),
                le == record_order(by_number),
                before == out.deep_view(),
                forall|j: int| p <= j < before.len() ==> !le(#[trigger] before[j], x),
            decreases p,
        {
            p -= 1;
        }
        proof {
            sorting::lemma_placed_at(before, x, le, p as int);
        }
        out.insert(p, list[i].clone());
        assert(out.deep_view() =~= before.insert(p as int, x));
        i += 1;
    }
    assert(all.take(i as int) =~= all);
    out
}

/// The recordings of a session are put in order: the same recordings, none before an earlier one.
pub proof fn law_recordings_are_in_order(records: Seq<RecordView>, platform: PlatformType)
    ensures
        ordered_records(records, platform).to_multiset() == of_platform(
            records,
            platform.name(),
        ).to_multiset(),
        platform == PlatformType::Douyin && all_numbered(of_platform(records, platform.name()))
            ==> forall|i: int, j: int|
            #![trigger ordered_records(records, platform)[i], ordered_records(records, platform)[j]]
            0 <= i < j < ordered_records(records, platform).len() ==> number_or_zero(
                ordered_records(records, platform)[i],
            ) <= number_or_zero(ordered_records(records, platform)[j]),
{
    let own = of_platform(records, platform.name());
    let by_number = platform == PlatformType::Douyin && all_numbered(own);
    let le = record_order(by_number);
    sorting::lemma_text_order();
    let text = sorting::text_order();
    assert forall|a: RecordView, b: RecordView| #[trigger] le(a, b) || le(b, a) by {
        assert(text(a.live_id, b.live_id) || text(b.live_id, a.live_id));
        assert(text(a.created_at, b.created_at) || text(b.created_at, a.created_at));
    }
    assert forall|a: RecordView, b: RecordView, c: RecordView| #[trigger] le(a, b)
        && #[trigger] le(b, c) implies le(a, c) by {
        if !by_number {
            if a.created_at == b.created_at && b.created_at == c.created_at {
                assert(text(a.live_id, b.live_id) && text(b.live_id, c.live_id));
            } else if a.created_at != b.created_at && b.created_at != c.created_at {
                assert(text(a.created_at, b.created_at) && text(b.created_at, c.created_at));
                if a.created_at == c.created_at {
                    sorting::lemma_text_le_same(a.created_at, b.created_at);
                }
            }
        }
    }
    sorting::lemma_stable_sorted(own, le);
    if by_number {
        let out = ordered_records(records, platform);
        assert forall|i: int, j: int|
            #![trigger out[i], out[j]]
            0 <= i < j < out.len() implies number_or_zero(out[i]) <= number_or_zero(out[j]) by {
            assert(le(out[i], out[j]));
        }
    }
}

/// Whether a recording goes into the export of its session: on this platform its playlist must
/// name a file that is there; a recording of size zero needs a playlist that is not empty.
pub open spec fn is_exported(
    platform: PlatformType,
    size: i64,
    has_local_media: bool,
    has_playlist: bool,
) -> bool {
    (platform != PlatformType::Douyin || has_local_media) && (size > 0 || has_playlist)
}

/// A recording of a session, with what was found of it on disk.
pub struct ArchiveOnDisk {
    pub record: RecordRow,
    pub has_local_media: bool,
    pub has_playlist: bool,
}

/// The model of a recording of a session, with what was found of it on disk.
#[verifier::ext_equal]
pub struct OnDiskView {
    pub record: RecordView,
    pub has_local_media: bool,
    pub has_playlist: bool,
}

impl DeepView for ArchiveOnDisk {
    type V = OnDiskView;

    open spec fn deep_view(&self) -> OnDiskView {
        OnDiskView {
            record: self.record.deep_view(),
            has_local_media: self.has_local_media,
            has_playlist: self.has_playlist,
        }
    }
}

/// The recordings that go into the export of a session, in order.
pub open spec fn exported(
    cache_path: Seq<char>,
    platform: PlatformType,
    room_id: Seq<char>,
    archives: Seq<OnDiskView>,
    windows: bool,
) -> Seq<RelatedView>
    decreases archives.len(),
{
    if archives.len() == 0 {
        Seq::empty()
    } else {
        let before = exported(cache_path, platform, room_id, archives.drop_last(), windows);
        let a = archives.last();
        if is_exported(platform, a.record.size, a.has_local_media, a.has_playlist) {
            before.push(
                RelatedView {
                    live_id: a.record.live_id,
                    title: a.record.title,
                    path: paths::joined_path(
                        archive::archive_dir(
                            cache_path,
                            platform,
                            room_id,
                            a.record.live_id,
                            windows,
                        ),
                        "playlist.m3u8"@,
                        windows,
                    ),
                },
            )
        } else {
            before
        }
    }
}

/// The recordings that go into the export of a session.
pub fn get_related_playlists(
    cache_path: &str,
    platform: PlatformType,
    room_id: &str,
    archives: &Vec<ArchiveOnDisk>,
    windows: bool,
) -> (res: Vec<RelatedPlaylist>)
    ensures
        res.deep_view() == exported(cache_path@, platform, room_id@, archives.deep_view(), windows),
{
    let mut out: Vec<RelatedPlaylist> = Vec::new();
    let ghost all = archives.deep_view();
    let mut i: usize = 0;
    assert(all.take(0) =~= Seq::empty());
    assert(out.deep_view() =~= Seq::<RelatedView>::empty());
    while i < archives.len()
        invariant
            i <= archives@.len(),
            all == archives.deep_view(),
            out.deep_view() == exported(
                cache_path@,
                platform,
                room_id@,
                all.take(i as int),
                windows,
            ),
        decreases archives@.len() - i,
    {
        let ghost next = all.take(i + 1);
        assert(next.drop_last() =~= all.take(i as int));
        assert(next.last() == archives@[i as int].deep_view());
        let ghost before = out.deep_view();
        let a = &archives[i];
        let playable = platform != PlatformType::Douyin || a.has_local_media;
        if playable && (a.record.size > 0 || a.has_playlist) {
            let path = archive::archive_file_path(
                cache_path,
                platform,
                room_id,
                a.record.live_id.as_str(),
                "playlist.m3u8",
                windows,
            );
            let item = RelatedPlaylist {
                live_id: text::copy(a.record.live_id.as_str()),
                title: text::copy(a.record.title.as_str()),
                path,
            };
            out.push(item);
            assert(out.deep_view() =~= before.push(item.deep_view()));
        }
        i += 1;
    }
    assert(all.take(i as int) =~= all);
    out
}

/// The last recording with an identifier.
pub open spec fn last_called(playlists: Seq<RelatedView>, live_id: Seq<char>) -> Option<RelatedView>
    decreases playlists.len(),
{
    if playlists.len() == 0 {
        None
    } else if playlists.last().live_id == live_id {
        Some(playlists.last())
    } else {
        last_called(playlists.drop_last(), live_id)
    }
}

/// The recordings that were selected, in the order in which they were; each once.
pub open spec fn selected_playlists(playlists: Seq<RelatedView>, ids: Seq<Seq<char>>) -> Seq<
    RelatedView,
>
    decreases ids.len(),
{
    if ids.len() == 0 {
        Seq::empty()
    } else {
        let before = selected_playlists(playlists, ids.drop_last());
        if ids.drop_last().contains(ids.last()) {
            before
        } else {
            match last_called(playlists, ids.last()) {
                Some(p) => before.push(p),
                None => before,
            }
        }
    }
}

fn find_called(playlists: &Vec<RelatedPlaylist>, live_id: &str) -> (res: Option<RelatedPlaylist>)
    ensures
        res.deep_view() == last_called(playlists.deep_view(), live_id@),
{
    let ghost all = playlists.deep_view();
    let mut i: usize = playlists.len();
    assert(all.take(i as int) =~= all);
    while i > 0
        invariant
            i <= playlists@.len(),
            all == playlists.deep_view(),
            last_called(all.take(i as int), live_id@) == last_called(all, live_id@),
        decreases i,
    {
        let ghost head = all.take(i as int);
        assert(head.last() == playlists@[i - 1].deep_view());
        assert(head.drop_last() =~= all.take(i - 1));
        if text::same(playlists[i - 1].live_id.as_str(), live_id) {
            return Some(playlists[i - 1].clone());
        }
        i -= 1;
    }
    assert(all.take(0).len() == 0);
    None
}

fn taken_before(ids: &Vec<String>, i: usize) -> (res: bool)
    requires
        i < ids@.len(),
    ensures
        res == ids.deep_view().take(i as int).contains(ids@[i as int]@),
{
    let ghost head = ids.deep_view().take(i as int);
    let mut j: usize = 0;
    while j < i
        invariant
            j <= i < ids@.len(),
            head == ids.deep_view().take(i as int),
            forall|k: int| 0 <= k < j ==> #[trigger] head[k] != ids@[i as int]@,
        decreases i - j,
    {
        assert(head[j as int] == ids@[j as int]@);
        if text::same(ids[j].as_str(), ids[i].as_str()) {
            return true;
        }
        j += 1;
    }
    false
}

/// The recordings that go into an export: all of them, or those that were selected, in that order.
/// An export without recordings is refused.
pub fn select_playlists(
    playlists: &Vec<RelatedPlaylist>,
    selected_live_ids: &Option<Vec<String>>,
) -> (res: Result<Vec<RelatedPlaylist>, RecorderManagerError>)
    ensures
        ({
            let chosen = match selected_live_ids.deep_view() {
                Some(ids) => selected_playlists(playlists.deep_view(), ids),
                None => playlists.deep_view(),
            };
            if playlists.deep_view().len() == 0 || chosen.len() == 0 {
                res matches Err(RecorderManagerError::EmptyPlaylist)
            } else {
                res matches Ok(list) && list.deep_view() == chosen
            }
        }),
{
    if playlists.len() == 0 {
        return Err(RecorderManagerError::EmptyPlaylist);
    }
    let mut out: Vec<RelatedPlaylist> = Vec::new();
    match selected_live_ids {
        Some(ids) => {
            let ghost all = ids.deep_view();
            let ghost list = playlists.deep_view();
            let mut i: usize = 0;
            assert(all.take(0) =~= Seq::empty());
            assert(out.deep_view() =~= Seq::<RelatedView>::empty());
            while i < ids.len()
                invariant
                    i <= ids@.len(),
                    all == ids.deep_view(),
                    list == playlists.deep_view(),
                    out.deep_view() == selected_playlists(list, all.take(i as int)),
                decreases ids@.len() - i,
            {
                let ghost next = all.take(i + 1);
                assert(next.drop_last() =~= all.take(i as int));
                assert(next.last() == ids@[i as int]@);
                let ghost before = out.deep_view();
                if !taken_before(ids, i) {
                    if let Some(p) = find_called(playlists, ids[i].as_str()) {
                        out.push(p);
                        assert(out.deep_view() =~= before.push(p.deep_view()));
                    }
                }
                i += 1;
            }
            assert(all.take(i as int) =~= all);
        },
        None => {
            let mut i: usize = 0;
            while i < playlists.len()
                invariant
                    i <= playlists@.len(),
                    out@.len() == i,
                    forall|j: int|
                        0 <= j < i ==> (#[trigger] out@[j]).deep_view()
                            == playlists@[j].deep_view(),
                decreases playlists@.len() - i,
            {
                out.push(playlists[i].clone());
                i += 1;
            }
            assert(out.deep_view() =~= playlists.deep_view());
        },
    }
    if out.len() == 0 {
        return Err(RecorderManagerError::EmptyPlaylist);
    }
    Ok(out)
}

/// A name with the extension of a video, which is added where it is missing.
pub open spec fn video_name(name: Seq<char>) -> Seq<char> {
    if text::ends(text::lowered(name), ".mp4"@) {
        name
    } else {
        name + ".mp4"@
    }
}

/// A name with the extension of a video.
pub fn with_video_extension(name: &str) -> (res: String)
    ensures
        res@ == video_name(name@),
{
    let lower = text::to_lower(name);
    let mut out = text::copy(name);
    if !text::ends_with(lower.as_str(), ".mp4") {
        out.append(".mp4");
    }
    out
}

/// The name of an export before it is made safe for a file.
pub open spec fn default_name(
    platform: PlatformType,
    room_id: Seq<char>,
    parent_id: Seq<char>,
    timestamp: Seq<char>,
    title: Seq<char>,
) -> Seq<char> {
    "[full]["@ + platform.label() + "]["@ + room_id + "]["@ + parent_id + "]["@ + timestamp + "]"@
        + title + ".mp4"@
}

/// The name of an export before it is made safe for a file.
pub fn default_output_name(
    platform: PlatformType,
    room_id: &str,
    parent_id: &str,
    timestamp: &str,
    title: &str,
) -> (res: String)
    ensures
        res@ == default_name(platform, room_id@, parent_id@, timestamp@, title@),
{
    let mut name = text::copy("[full][");
    name.append(platform.debug_name());
    name.append("][");
    name.append(room_id);
    name.append("][");
    name.append(parent_id);
    name.append("][");
    name.append(timestamp);
    name.append("]");
    name.append(title);
    name.append(".mp4");
    name
}

/// The file name of an export: the one that was asked for, where it is not blank, else one made
/// from the session, the time and the title.
pub fn output_file_name(
    output_name: &Option<String>,
    default_name_text: &str,
    windows: bool,
) -> (res: String)
    ensures
        match output_name.deep_view() {
            Some(name) => if text::trimmed(name).len() > 0 {
                res@ == video_name(whole::sanitized(text::trimmed(name), windows))
            } else {
                res@ == whole::sanitized(default_name_text@, windows)
            },
            None => res@ == whole::sanitized(default_name_text@, windows),
        },
        !res@.contains('/'),
{
    if let Some(name) = output_name {
        let stripped = text::trim(name.as_str());
        if !text::is_empty(stripped.as_str()) {
            let safe = whole::sanitize(stripped.as_str(), windows);
            let out = with_video_extension(safe.as_str());
            proof {
                lemma_video_name(safe@);
            }
            return out;
        }
    }
    whole::sanitize(default_name_text, windows)
}

proof fn lemma_video_name(name: Seq<char>)
    requires
        !name.contains('/'),
    ensures
        !video_name(name).contains('/'),
{
    reveal_strlit(".mp4");
    let out = video_name(name);
    assert forall|i: int| 0 <= i < out.len() implies out[i] != '/' by {
        if i < name.len() {
            assert(out[i] == name[i]);
            assert(name.contains(name[i]));
        } else {
            assert(out[i] == ".mp4"@[i - name.len()]);
        }
    }
}

/// The file that an export is written to before it is complete.
pub open spec fn partial_name(file_name: Seq<char>) -> Seq<char> {
    "."@ + (if paths::is_file_name(file_name) {
        paths::stem(file_name)
    } else {
        "whole-clip"@
    }) + ".partial.mp4"@
}

/// The file that an export is written to before it is complete.
pub fn partial_file_name(file_name: &str) -> (res: String)
    ensures
        res@ == partial_name(file_name@),
{
    let mut name = text::copy(".");
    match paths::file_stem(file_name) {
        Some(stem) => name.append(stem.as_str()),
        None => name.append("whole-clip"),
    }
    name.append(".partial.mp4");
    name
}

/// The size of an export, which must be more than nothing and no more than the database can hold.
pub fn generated_size(len: u64) -> (res: Result<i64, RecorderManagerError>)
    ensures
        len > i64::MAX ==> (res matches Err(RecorderManagerError::ClipError { err }) && err@
            == "Generated file is too large: out of range integral type conversion attempted"@),
        len == 0 ==> (res matches Err(RecorderManagerError::ClipError { err }) && err@
            == "Generated whole-session file is empty"@),
        0 < len <= i64::MAX ==> (res matches Ok(n) && n == len),
{
    if len > i64::MAX as u64 {
        return Err(
            RecorderManagerError::ClipError {
                err: text::copy(
                    "Generated file is too large: out of range integral type conversion attempted",
                ),
            },
        );
    }
    if len == 0 {
        return Err(
            RecorderManagerError::ClipError {
                err: text::copy("Generated whole-session file is empty"),
            },
        );
    }
    Ok(len as i64)
}

/// The row of an export.
pub fn whole_clip_row(
    room_id: &str,
    cover: &str,
    file: &str,
    length: i64,
    size: i64,
    created_at: &str,
    platform: PlatformType,
) -> (res: VideoRow)
    ensures
        res.deep_view() == (VideoView {
            room_id: room_id@,
            cover: cover@,
            file: file@,
            length,
            size,
            created_at: created_at@,
            platform: platform.name(),
            ..rows::new_video()
        }),
{
    VideoRow {
        id: 0,
        status: 0,
        room_id: text::copy(room_id),
        created_at: text::copy(created_at),
        cover: text::copy(cover),
        file: text::copy(file),
        note: String::new(),
        length,
        size,
        bvid: String::new(),
        title: String::new(),
        desc: String::new(),
        tags: String::new(),
        area: 0,
        platform: text::copy(platform.as_str()),
    }
}

/// The text of a notification that an export is done.
pub fn whole_clip_body(room_id: &str, file_name: &str) -> (res: String)
    ensures
        res@ == "生成了房间 "@ + room_id@ + " 的整场切片: "@ + file_name@,
{
    let mut body = text::copy("生成了房间 ");
    body.append(room_id);
    body.append(" 的整场切片: ");
    body.append(file_name);
    body
}

/// The chat lines from a time on, counted from it.
pub open spec fn lines_from(entries: Seq<DanmuEntryView>, start: int) -> Seq<DanmuEntryView>
    decreases entries.len(),
{
    if entries.len() == 0 {
        Seq::empty()
    } else {
        let before = lines_from(entries.drop_last(), start);
        let e = entries.last();
        if e.ts >= start {
            before.push(DanmuEntryView { ts: (e.ts - start) as i64, ..e })
        } else {
            before
        }
    }
}

/// Whether the times of chat lines can be counted from a time.
pub open spec fn countable(entries: Seq<DanmuEntryView>, start: int) -> bool {
    forall|i: int|
        0 <= i < entries.len() && (#[trigger] entries[i]).ts >= start ==> entries[i].ts - start
            <= i64::MAX
}

/// The chat lines from a time on, counted from it.
pub fn danmus_from(danmus: &Vec<DanmuEntry>, start: i64) -> (res: Vec<DanmuEntry>)
    requires
        countable(danmus.deep_view(), start as int),
    ensures
        res.deep_view() == lines_from(danmus.deep_view(), start as int),
{
    let mut out: Vec<DanmuEntry> = Vec::new();
    let ghost all = danmus.deep_view();
    let mut i: usize = 0;
    assert(all.take(0) =~= Seq::empty());
    assert(out.deep_view() =~= Seq::<DanmuEntryView>::empty());
    while i < danmus.len()
        invariant
            i <= danmus@.len(),
            all == danmus.deep_view(),
            countable(all, start as int),
            out.deep_view() == lines_from(all.take(i as int), start as int),
        decreases danmus@.len() - i,
    {
        let ghost next = all.take(i + 1);
        assert(next.drop_last() =~= all.take(i as int));
        assert(next.last() == danmus@[i as int].deep_view());
        assert(all[i as int] == danmus@[i as int].deep_view());
        let ghost before = out.deep_view();
        if danmus[i].ts >= start {
            let mut entry = danmus[i].clone();
            entry.ts = entry.ts - start;
            out.push(entry);
            assert(out.deep_view() =~= before.push(entry.deep_view()));
        }
        i += 1;
    }
    assert(all.take(i as int) =~= all);
    out
}

/// The earliest time of chat lines, or zero.
pub open spec fn earliest(entries: Seq<DanmuEntryView>) -> int
    decreases entries.len(),
{
    if entries.len() == 0 {
        0
    } else if entries.len() == 1 {
        entries[0].ts as int
    } else {
        let before = earliest(entries.drop_last());
        if entries.last().ts < before {
            entries.last().ts as int
        } else {
            before
        }
    }
}

/// The time from which chat lines are counted: that of the first segment, where it is known, else
/// the earliest of the lines.
pub open spec fn danmu_origin(entries: Seq<DanmuEntryView>, first_segment: Option<i64>) -> int {
    match first_segment {
        Some(t) => t as int,
        None => earliest(entries),
    }
}

fn earliest_ts(danmus: &Vec<DanmuEntry>) -> (res: i64)
    ensures
        res == earliest(danmus.deep_view()),
{
    if danmus.len() == 0 {
        return 0;
    }
    let ghost all = danmus.deep_view();
    let mut min: i64 = danmus[0].ts;
    let mut i: usize = 1;
    assert(all.take(1)[0] == danmus@[0].deep_view());
    while i < danmus.len()
        invariant
            1 <= i <= danmus@.len(),
            all == danmus.deep_view(),
            min == earliest(all.take(i as int)),
        decreases danmus@.len() - i,
    {
        let ghost next = all.take(i + 1);
        assert(next.drop_last() =~= all.take(i as int));
        assert(next.last() == danmus@[i as int].deep_view());
        if danmus[i].ts < min {
            min = danmus[i].ts;
        }
        i += 1;
    }
    assert(all.take(i as int) =~= all);
    min
}

/// Chat lines with their times counted from the start of the video.
pub fn load_relative_danmus(danmus: &Vec<DanmuEntry>, first_segment: Option<i64>) -> (res: Vec<
    DanmuEntry,
>)
    requires
        countable(danmus.deep_view(), danmu_origin(danmus.deep_view(), first_segment)),
    ensures
        res.deep_view() == lines_from(
            danmus.deep_view(),
            danmu_origin(danmus.deep_view(), first_segment),
        ),
{
    let start = match first_segment {
        Some(t) => t,
        None => earliest_ts(danmus),
    };
    danmus_from(danmus, start)
}

/// Chat lines with their times counted from the start of the stream, moved by an offset in
/// seconds.
pub fn shift_danmus(danmus: &Vec<DanmuEntry>, stream_start: i64, local_offset: i64) -> (res: Vec<
    DanmuEntry,
>)
    requires
        i64::MIN <= local_offset * 1000 <= i64::MAX,
        i64::MIN <= stream_start + local_offset * 1000 <= i64::MAX,
        forall|i: int|
            0 <= i < danmus.deep_view().len() ==> i64::MIN <= (#[trigger] danmus.deep_view()[i]).ts
                - (stream_start + local_offset * 1000) <= i64::MAX,
    ensures
        res.deep_view() == danmus.deep_view().map_values(
            |e: DanmuEntryView|
                DanmuEntryView {
                    ts: (e.ts - (stream_start + local_offset * 1000)) as i64,
                    ..e
                },
        ),
{
    let by: i64 = stream_start + local_offset * 1000;
    let ghost f = |e: DanmuEntryView|
        DanmuEntryView { ts: (e.ts - (stream_start + local_offset * 1000)) as i64, ..e };
    let mut out: Vec<DanmuEntry> = Vec::new();
    let mut i: usize = 0;
    while i < danmus.len()
        invariant
            i <= danmus@.len(),
            by == stream_start + local_offset * 1000,
            f == (|e: DanmuEntryView|
                DanmuEntryView { ts: (e.ts - (stream_start + local_offset * 1000)) as i64, ..e }),
            forall|i: int|
                0 <= i < danmus.deep_view().len() ==> i64::MIN <= (
                #[trigger] danmus.deep_view()[i]).ts - (stream_start + local_offset * 1000)
                    <= i64::MAX,
            out@.len() == i,
            forall|j: int|
                0 <= j < i ==> (#[trigger] out@[j]).deep_view() == f(danmus@[j].deep_view()),
        decreases danmus@.len() - i,
    {
        assert(danmus.deep_view()[i as int].ts == danmus@[i as int].ts);
        let mut entry = danmus[i].clone();
        entry.ts = entry.ts - by;
        out.push(entry);
        i += 1;
    }
    assert(out.deep_view() =~= danmus.deep_view().map_values(f));
    out
}

/// The chat lines of a range, from where the range stands in the clip.
pub open spec fn lines_in_range(entries: Seq<DanmuEntryView>, range: Range, anchor: int) -> Seq<
    DanmuEntryView,
>
    decreases entries.len(),
{
    if entries.len() == 0 {
        Seq::empty()
    } else {
        let before = lines_in_range(entries.drop_last(), range, anchor);
        let e = entries.last();
        let t = e.ts - range.start_millis;
        if range.duration_millis is None || 0 <= t <= range.duration_millis->0 {
            before.push(DanmuEntryView { ts: (t + anchor) as i64, ..e })
        } else {
            before
        }
    }
}

/// Whether the times of chat lines can be counted within a range.
pub open spec fn fits_range(entries: Seq<DanmuEntryView>, range: Range, anchor: int) -> bool {
    forall|i: int|
        0 <= i < entries.len() ==> {
            let t = (#[trigger] entries[i]).ts - range.start_millis;
            &&& i64::MIN <= t <= i64::MAX
            &&& range.duration_millis is None || 0 <= t <= range.duration_millis->0 ==> i64::MIN <= t
                + anchor <= i64::MAX
        }
}

/// The chat lines of a range, from where the range stands in the clip.
pub fn filter_danmus_in_range(danmus: &Vec<DanmuEntry>, range: &Range, anchor: i64) -> (res: Vec<
    DanmuEntry,
>)
    requires
        fits_range(danmus.deep_view(), *range, anchor as int),
    ensures
        res.deep_view() == lines_in_range(danmus.deep_view(), *range, anchor as int),
{
    let mut out: Vec<DanmuEntry> = Vec::new();
    let ghost all = danmus.deep_view();
    let mut i: usize = 0;
    assert(all.take(0) =~= Seq::empty());
    assert(out.deep_view() =~= Seq::<DanmuEntryView>::empty());
    while i < danmus.len()
        invariant
            i <= danmus@.len(),
            all == danmus.deep_view(),
            fits_range(all, *range, anchor as int),
            out.deep_view() == lines_in_range(all.take(i as int), *range, anchor as int),
        decreases danmus@.len() - i,
    {
        let ghost next = all.take(i + 1);
        assert(next.drop_last() =~= all.take(i as int));
        assert(next.last() == danmus@[i as int].deep_view());
        assert(all[i as int] == danmus@[i as int].deep_view());
        let ghost before = out.deep_view();
        let t: i64 = danmus[i].ts - range.start_millis;
        let inside = match range.duration_millis {
            Some(d) => 0 <= t && t <= d,
            None => true,
        };
        if inside {
            let mut entry = danmus[i].clone();
            entry.ts = t + anchor;
            out.push(entry);
            assert(out.deep_view() =~= before.push(entry.deep_view()));
        }
        i += 1;
    }
    assert(all.take(i as int) =~= all);
    out
}

/// The chat lines of a clip: those of each range, one range after the other.
pub open spec fn clip_lines(entries: Seq<DanmuEntryView>, ranges: Seq<Range>, anchors: Seq<i64>) -> Seq<
    DanmuEntryView,
>
    decreases ranges.len(),
{
    if ranges.len() == 0 {
        Seq::empty()
    } else {
        clip_lines(entries, ranges.drop_last(), anchors) + lines_in_range(
            entries,
            ranges.last(),
            anchors[ranges.len() - 1] as int,
        )
    }
}

/// The chat lines of a clip. `anchors` has the place of each range in the clip.
pub fn clip_danmus(danmus: &Vec<DanmuEntry>, ranges: &Vec<Range>, anchors: &Vec<i64>) -> (res: Vec<
    DanmuEntry,
>)
    requires
        anchors@.len() >= ranges@.len(),
        forall|i: int|
            0 <= i < ranges@.len() ==> fits_range(
                danmus.deep_view(),
                #[trigger] ranges@[i],
                anchors@[i] as int,
            ),
    ensures
        res.deep_view() == clip_lines(danmus.deep_view(), ranges@, anchors@),
{
    let mut out: Vec<DanmuEntry> = Vec::new();
    let ghost all = danmus.deep_view();
    let mut i: usize = 0;
    assert(ranges@.take(0) =~= Seq::empty());
    assert(out.deep_view() =~= Seq::<DanmuEntryView>::empty());
    while i < ranges.len()
        invariant
            i <= ranges@.len(),
            anchors@.len() >= ranges@.len(),
            all == danmus.deep_view(),
            forall|i: int|
                0 <= i < ranges@.len() ==> fits_range(
                    all,
                    #[trigger] ranges@[i],
                    anchors@[i] as int,
                ),
            out.deep_view() == clip_lines(all, ranges@.take(i as int), anchors@),
        decreases ranges@.len() - i,
    {
        assert(ranges@.take(i + 1).drop_last() =~= ranges@.take(i as int));
        let ghost before = out.deep_view();
        let mut part = filter_danmus_in_range(danmus, &ranges[i], anchors[i]);
        let ghost added = part.deep_view();
        out.append(&mut part);
        assert(out.deep_view() =~= before + added);
        i += 1;
    }
    assert(ranges@.take(i as int) =~= ranges@);
    out
}

/// What happened while a clip was made.
pub enum ClipRangeEvent {
    /// The clip was asked for.
    Asked { playlist_exists: bool },
    /// The video is there.
    Cut,
    CutFailed { error: String },
    /// The video was encoded anew.
    Transcoded,
    TranscodeFailed { error: String },
    /// The chat was written beside the video.
    ChatWritten,
    ChatFailed,
    /// The chat was burnt into another video.
    Burnt { file: String },
    BurnFailed { error: String },
}

/// What is done next to make a clip.
pub enum ClipRangeStep {
    /// Cut the whole recording.
    CutWhole,
    /// Cut the ranges.
    CutRanges,
    /// Encode the video anew.
    Transcode,
    /// Write the chat of a recording on this platform beside the video.
    WriteChat { platform: PlatformType },
    /// Burn the chat into the video.
    Burn,
    /// The clip is done. The chat, and the video without it, are removed where they are not wanted.
    Done { burnt_file: Option<String> },
    /// The clip failed.
    Fail { error: RecorderManagerError, drop_clip: bool },
}

fn after_cut(params: &ClipRangeParams) -> (res: ClipRangeStep)
    ensures
        params.danmu ==> match PlatformType::named(params.platform@) {
            Some(p) => res == (ClipRangeStep::WriteChat { platform: p }),
            None => res matches ClipRangeStep::Fail { error, drop_clip } && !drop_clip && (
            error matches RecorderManagerError::InvalidPlatformType { platform } && platform@
                == params.platform@),
        },
        !params.danmu ==> (res matches ClipRangeStep::Done { burnt_file } && burnt_file is None),
{
    if !params.danmu {
        return ClipRangeStep::Done { burnt_file: None };
    }
    match PlatformType::from_name(params.platform.as_str()) {
        Some(platform) => ClipRangeStep::WriteChat { platform },
        None => ClipRangeStep::Fail {
            error: RecorderManagerError::InvalidPlatformType {
                platform: text::copy(params.platform.as_str()),
            },
            drop_clip: false,
        },
    }
}

fn clip_failure(error: &str, drop_clip: bool) -> (res: ClipRangeStep)
    ensures
        res matches ClipRangeStep::Fail { error: e, drop_clip: d } && d == drop_clip && (
        e matches RecorderManagerError::ClipError { err } && err@ == error@),
{
    ClipRangeStep::Fail {
        error: RecorderManagerError::ClipError { err: text::copy(error) },
        drop_clip,
    }
}

/// What is done next to make a clip. Chat that cannot be written leaves a clip without it.
pub fn clip_range(params: &ClipRangeParams, event: ClipRangeEvent) -> (res: ClipRangeStep)
    ensures
        match event {
            ClipRangeEvent::Asked { playlist_exists } => if !playlist_exists {
                res matches ClipRangeStep::Fail { error, drop_clip } && !drop_clip && (
                error matches RecorderManagerError::ClipError { err } && err@
                    == "Playlist file not found"@)
            } else if params.ranges@.len() == 0 {
                res is CutWhole
            } else {
                res is CutRanges
            },
            ClipRangeEvent::Cut => if params.fix_encoding && !params.danmu {
                res is Transcode
            } else if params.danmu {
                match PlatformType::named(params.platform@) {
                    Some(p) => res == (ClipRangeStep::WriteChat { platform: p }),
                    None => res matches ClipRangeStep::Fail { error, drop_clip } && !drop_clip && (
                    error matches RecorderManagerError::InvalidPlatformType { platform }
                        && platform@ == params.platform@),
                }
            } else {
                res matches ClipRangeStep::Done { burnt_file } && burnt_file is None
            },
            ClipRangeEvent::CutFailed { error } => res matches ClipRangeStep::Fail {
                error: e,
                drop_clip,
            } && !drop_clip && (e matches RecorderManagerError::ClipError { err } && err@
                == error@),
            ClipRangeEvent::Transcoded => res matches ClipRangeStep::Done { burnt_file }
                && burnt_file is None,
            ClipRangeEvent::TranscodeFailed { error } => res matches ClipRangeStep::Fail {
                error: e,
                drop_clip,
            } && !drop_clip && (e matches RecorderManagerError::ClipError { err } && err@
                == error@),
            ClipRangeEvent::ChatWritten => res is Burn,
            ClipRangeEvent::ChatFailed => res matches ClipRangeStep::Done { burnt_file }
                && burnt_file is None,
            ClipRangeEvent::Burnt { file } => res matches ClipRangeStep::Done { burnt_file } && (
            burnt_file matches Some(f) && f@ == file@),
            ClipRangeEvent::BurnFailed { error } => res matches ClipRangeStep::Fail {
                error: e,
                drop_clip,
            } && drop_clip && (e matches RecorderManagerError::ClipError { err } && err@
                == error@),
        },
{
    match event {
        ClipRangeEvent::Asked { playlist_exists } => {
            if !playlist_exists {
                clip_failure("Playlist file not found", false)
            } else if params.ranges.len() == 0 {
                ClipRangeStep::CutWhole
            } else {
                ClipRangeStep::CutRanges
            }
        },
        ClipRangeEvent::Cut => {
            if params.fix_encoding && !params.danmu {
                ClipRangeStep::Transcode
            } else {
                after_cut(params)
            }
        },
        ClipRangeEvent::CutFailed { error } => clip_failure(error.as_str(), false),
        ClipRangeEvent::Transcoded => ClipRangeStep::Done { burnt_file: None },
        ClipRangeEvent::TranscodeFailed { error } => clip_failure(error.as_str(), false),
        ClipRangeEvent::ChatWritten => ClipRangeStep::Burn,
        ClipRangeEvent::ChatFailed => ClipRangeStep::Done { burnt_file: None },
        ClipRangeEvent::Burnt { file } => ClipRangeStep::Done { burnt_file: Some(file) },
        ClipRangeEvent::BurnFailed { error } => clip_failure(error.as_str(), true),
    }
}

/// The platform of a given name.
pub fn named_platform(platform: &str) -> (res: Result<PlatformType, RecorderManagerError>)
    ensures
        match PlatformType::named(platform@) {
            Some(p) => res matches Ok(q) && q == p,
            None => res matches Err(RecorderManagerError::InvalidPlatformType { platform: p })
                && p@ == platform@,
        },
{
    match PlatformType::from_name(platform) {
        Some(p) => Ok(p),
        None => Err(
            RecorderManagerError::InvalidPlatformType { platform: text::copy(platform) },
        ),
    }
}

/// The time in milliseconds that `chrono` reads from a text in the form of RFC 3339.
pub uninterp spec fn rfc3339_millis(value: Seq<char>) -> Option<i64>;

/// The time in milliseconds that `chrono` reads from a text in a given form, or its reason why it
/// cannot.
pub uninterp spec fn formatted_millis(value: Seq<char>, format: Seq<char>) -> Result<i64, Seq<char>>;

/// `chrono::DateTime::parse_from_rfc3339`, in milliseconds.
#[verifier::external_body]
fn parse_rfc3339(value: &str) -> (res: Option<i64>)
    ensures
        res == rfc3339_millis(value@),
{
    chrono::DateTime::parse_from_rfc3339(value).ok().map(|t| t.timestamp_millis())
}

/// `chrono::DateTime::parse_from_str`, in milliseconds.
#[verifier::external_body]
fn parse_formatted(value: &str, format: &str) -> (res: Result<i64, String>)
    ensures
        match res {
            Ok(t) => formatted_millis(value@, format@) == Ok::<i64, Seq<char>>(t),
            Err(e) => formatted_millis(value@, format@) == Err::<i64, Seq<char>>(e@),
        },
{
    match chrono::DateTime::parse_from_str(value, format) {
        Ok(t) => Ok(t.timestamp_millis()),
        Err(e) => Err(e.to_string()),
    }
}

/// The form of times in playlists whose zone has no colon.
pub const PROGRAM_DATE_TIME_FORMAT: &'static str = "%Y-%m-%dT%H:%M:%S%.f%z";

/// The time that the first segment of a playlist carries.
pub enum SegmentTime {
    Empty,
    Known(i64),
    Tagged(String),
    Missing,
}

/// The time that the first segment of a playlist carries: as a time, as the text of a tag, or not
/// at all.
pub fn segment_time(playlist: &Playlist) -> (res: SegmentTime)
    ensures
        playlist.deep_view().len() == 0 ==> res is Empty,
        playlist.deep_view().len() > 0 ==> match playlist.deep_view()[0].program_date_time_millis {
            Some(t) => res == SegmentTime::Known(t),
            None => match playlist::tag_value(
                playlist.deep_view()[0].unknown_tags,
                "X-PROGRAM-DATE-TIME"@,
            ) {
                Some(Some(v)) => res matches SegmentTime::Tagged(s) && s@ == v,
                _ => res is Missing,
            },
        },
{
    if playlist.segments.len() == 0 {
        return SegmentTime::Empty;
    }
    let first = &playlist.segments[0];
    if let Some(t) = first.program_date_time_millis {
        return SegmentTime::Known(t);
    }
    match playlist::find_tag(&first.unknown_tags, "X-PROGRAM-DATE-TIME") {
        Some(Some(v)) => SegmentTime::Tagged(v),
        _ => SegmentTime::Missing,
    }
}

/// The time of a tag, from what reading it came to.
pub fn tagged_time(value: &str, rfc3339: Option<i64>, formatted: Result<i64, String>) -> (res: Result<
    i64,
    RecorderManagerError,
>)
    ensures
        match rfc3339 {
            Some(t) => res matches Ok(n) && n == t,
            None => match formatted {
                Ok(t) => res matches Ok(n) && n == t,
                Err(e) => res matches Err(RecorderManagerError::HLSError { err }) && err@
                    == "Invalid X-PROGRAM-DATE-TIME "@ + value@ + ": "@ + e@,
            },
        },
{
    match rfc3339 {
        Some(t) => Ok(t),
        None => match formatted {
            Ok(t) => Ok(t),
            Err(e) => {
                let mut err = text::copy("Invalid X-PROGRAM-DATE-TIME ");
                err.append(value);
                err.append(": ");
                err.append(e.as_str());
                Err(RecorderManagerError::HLSError { err })
            },
        },
    }
}

/// The time at which a recording starts, from the first segment of its playlist, else from its
/// name.
pub fn first_segment_timestamp(playlist: &Playlist, live_id: &str) -> (res: Result<
    i64,
    RecorderManagerError,
>)
    ensures
        playlist.deep_view().len() == 0 ==> res matches Err(RecorderManagerError::EmptyPlaylist),
        playlist.deep_view().len() > 0 ==> match playlist.deep_view()[0].program_date_time_millis {
            Some(t) => res matches Ok(n) && n == t,
            None => match playlist::tag_value(
                playlist.deep_view()[0].unknown_tags,
                "X-PROGRAM-DATE-TIME"@,
            ) {
                Some(Some(v)) => match rfc3339_millis(v) {
                    Some(t) => res matches Ok(n) && n == t,
                    None => match formatted_millis(v, PROGRAM_DATE_TIME_FORMAT@) {
                        Ok(t) => res matches Ok(n) && n == t,
                        Err(e) => res matches Err(RecorderManagerError::HLSError { err }) && err@
                            == "Invalid X-PROGRAM-DATE-TIME "@ + v + ": "@ + e,
                    },
                },
                _ => match digits::within(
                    digits::signed_value(live_id@),
                    i64::MIN as int,
                    i64::MAX as int,
                ) {
                    Some(t) => res matches Ok(n) && n == t,
                    None => res matches Err(RecorderManagerError::InvalidLiveID),
                },
            },
        },
{
    match segment_time(playlist) {
        SegmentTime::Empty => Err(RecorderManagerError::EmptyPlaylist),
        SegmentTime::Known(t) => Ok(t),
        SegmentTime::Tagged(v) => {
            let rfc3339 = parse_rfc3339(v.as_str());
            let formatted = parse_formatted(v.as_str(), PROGRAM_DATE_TIME_FORMAT);
            tagged_time(v.as_str(), rfc3339, formatted)
        },
        SegmentTime::Missing => match digits::parse_i64(live_id) {
            Some(t) => Ok(t),
            None => Err(RecorderManagerError::InvalidLiveID),
        },
    }
}

/// Whether a recording is exported. Outside Douyin it takes a size or a playlist that is not empty,
/// whatever is known of media on disk; on Douyin it takes media on disk besides. What is exported of
/// one recording is its own playlist, under its own name and title.
pub proof fn law_recordings_with_content_are_exported(
    cache_path: Seq<char>,
    platform: PlatformType,
    room_id: Seq<char>,
    archive: OnDiskView,
    windows: bool,
)
    ensures
        ({
            let one = exported(cache_path, platform, room_id, seq![archive], windows);
            &&& one.len() <= 1
            &&& platform != PlatformType::Douyin ==> (one.len() == 1 <==> archive.record.size > 0
                || archive.has_playlist)
            &&& platform == PlatformType::Douyin ==> (one.len() == 1 <==> archive.has_local_media
                && (archive.record.size > 0 || archive.has_playlist))
            &&& one.len() == 1 ==> one[0].live_id == archive.record.live_id && one[0].title
                == archive.record.title && one[0].path == paths::joined_path(
                archive::archive_dir(
                    cache_path,
                    platform,
                    room_id,
                    archive.record.live_id,
                    windows,
                ),
                "playlist.m3u8"@,
                windows,
            )
        }),
{
    reveal_with_fuel(exported, 2);
    assert(seq![archive].drop_last() =~= Seq::empty());
}

/// The playlists of a session are exported in the order of its recordings: those of some recordings,
/// followed by those of more, are those of all of them.
pub proof fn law_exports_keep_the_order(
    cache_path: Seq<char>,
    platform: PlatformType,
    room_id: Seq<char>,
    a: Seq<OnDiskView>,
    b: Seq<OnDiskView>,
    windows: bool,
)
    ensures
        exported(cache_path, platform, room_id, a + b, windows) == exported(
            cache_path,
            platform,
            room_id,
            a,
            windows,
        ) + exported(cache_path, platform, room_id, b, windows),
    decreases b.len(),
{
    if b.len() == 0 {
        assert(a + b =~= a);
    } else {
        law_exports_keep_the_order(cache_path, platform, room_id, a, b.drop_last(), windows);
        assert((a + b).drop_last() =~= a + b.drop_last());
    }
}

/// On any platform other than Douyin, every recording of a session that has a size, or whose playlist
/// is not empty, is among the exported ones, in its place, whatever is known of media on disk.
pub proof fn law_no_recording_is_left_out(
    cache_path: Seq<char>,
    platform: PlatformType,
    room_id: Seq<char>,
    archives: Seq<OnDiskView>,
    windows: bool,
    i: int,
)
    requires
        platform != PlatformType::Douyin,
        0 <= i < archives.len(),
        archives[i].record.size > 0 || archives[i].has_playlist,
    ensures
        ({
            let all = exported(cache_path, platform, room_id, archives, windows);
            let before = exported(cache_path, platform, room_id, archives.take(i), windows);
            let after = exported(cache_path, platform, room_id, archives.skip(i + 1), windows);
            &&& all.len() == before.len() + 1 + after.len()
            &&& all.take(before.len() as int) == before
            &&& all.skip((before.len() + 1) as int) == after
            &&& all[before.len() as int].live_id == archives[i].record.live_id
            &&& all[before.len() as int].title == archives[i].record.title
        }),
{
    let one = seq![archives[i]];
    law_recordings_with_content_are_exported(cache_path, platform, room_id, archives[i], windows);
    law_exports_keep_the_order(cache_path, platform, room_id, archives.take(i), one, windows);
    law_exports_keep_the_order(
        cache_path,
        platform,
        room_id,
        archives.take(i) + one,
        archives.skip(i + 1),
        windows,
    );
    assert(archives.take(i) + one + archives.skip(i + 1) =~= archives);
    let all = exported(cache_path, platform, room_id, archives, windows);
    let before = exported(cache_path, platform, room_id, archives.take(i), windows);
    let after = exported(cache_path, platform, room_id, archives.skip(i + 1), windows);
    assert(all.take(before.len() as int) =~= before);
    assert(all.skip((before.len() + 1) as int) =~= after);
}

proof fn lemma_last_called(playlists: Seq<RelatedView>, live_id: Seq<char>)
    ensures
        last_called(playlists, live_id) is Some <==> exists|j: int|
            0 <= j < playlists.len() && (#[trigger] playlists[j]).live_id == live_id,
        last_called(playlists, live_id) matches Some(p) ==> p.live_id == live_id && exists|j: int|
            0 <= j < playlists.len() && (#[trigger] playlists[j]) == p && forall|k: int|
                j < k < playlists.len() ==> (#[trigger] playlists[k]).live_id != live_id,
    decreases playlists.len(),
{
    if playlists.len() > 0 {
        let rest = playlists.drop_last();
        if playlists.last().live_id == live_id {
            assert(playlists[playlists.len() - 1].live_id == live_id);
        } else {
            lemma_last_called(rest, live_id);
            if last_called(rest, live_id) is Some {
                let p = last_called(rest, live_id)->0;
                let j = choose|j: int|
                    0 <= j < rest.len() && (#[trigger] rest[j]) == p && forall|k: int|
                        j < k < rest.len() ==> (#[trigger] rest[k]).live_id != live_id;
                assert(playlists[j] == p);
                assert forall|k: int| j < k < playlists.len() implies (
                #[trigger] playlists[k]).live_id != live_id by {
                    if k < rest.len() {
                        assert(playlists[k] == rest[k]);
                    }
                }
            }
            if exists|j: int| 0 <= j < playlists.len() && (#[trigger] playlists[j]).live_id
                == live_id {
                let j = choose|j: int|
                    0 <= j < playlists.len() && (#[trigger] playlists[j]).live_id == live_id;
                assert(rest[j].live_id == live_id);
            }
        }
    }
}

/// The playlists that are selected are those that are asked for by name and exist: each of them once,
/// however often it is asked for, and none besides.
pub proof fn law_what_is_asked_for_is_selected(playlists: Seq<RelatedView>, ids: Seq<Seq<char>>)
    ensures
        forall|k: int|
            0 <= k < selected_playlists(playlists, ids).len() ==> playlists.contains(
                #[trigger] selected_playlists(playlists, ids)[k],
            ) && ids.contains(selected_playlists(playlists, ids)[k].live_id),
        forall|j: int|
            0 <= j < playlists.len() && ids.contains((#[trigger] playlists[j]).live_id)
                ==> exists|k: int|
                0 <= k < selected_playlists(playlists, ids).len() && (
                #[trigger] selected_playlists(playlists, ids)[k]).live_id == playlists[j].live_id,
        forall|k: int, l: int|
            #![trigger selected_playlists(playlists, ids)[k], selected_playlists(playlists, ids)[l]]
            0 <= k < l < selected_playlists(playlists, ids).len() ==> selected_playlists(
                playlists,
                ids,
            )[k].live_id != selected_playlists(playlists, ids)[l].live_id,
    decreases ids.len(),
{
    let all = selected_playlists(playlists, ids);
    if ids.len() > 0 {
        let before = selected_playlists(playlists, ids.drop_last());
        let id = ids.last();
        law_what_is_asked_for_is_selected(playlists, ids.drop_last());
        lemma_last_called(playlists, id);
        assert(ids.contains(id));
        assert forall|x: Seq<char>| #[trigger] ids.contains(x) implies ids.drop_last().contains(x)
            || x == id by {
            let m = choose|m: int| 0 <= m < ids.len() && ids[m] == x;
            if m < ids.len() - 1 {
                assert(ids.drop_last()[m] == x);
            }
        }
        assert forall|x: Seq<char>| #[trigger] ids.drop_last().contains(x) implies ids.contains(
            x,
        ) by {
            let m = choose|m: int| 0 <= m < ids.drop_last().len() && ids.drop_last()[m] == x;
            assert(ids[m] == x);
        }
        assert forall|k: int| 0 <= k < all.len() implies playlists.contains(#[trigger] all[k])
            && ids.contains(all[k].live_id) by {
            if k < before.len() {
                assert(all[k] == before[k]);
            }
        }
        assert forall|j: int|
            0 <= j < playlists.len() && ids.contains((#[trigger] playlists[j]).live_id) implies exists|
            k: int,
        |
            0 <= k < all.len() && (#[trigger] all[k]).live_id == playlists[j].live_id by {
            if ids.drop_last().contains(playlists[j].live_id) {
                let k = choose|k: int|
                    0 <= k < before.len() && (#[trigger] before[k]).live_id
                        == playlists[j].live_id;
                assert(all[k] == before[k]);
            } else {
                assert(all[all.len() - 1].live_id == id);
            }
        }
        assert forall|k: int, l: int|
            #![trigger all[k], all[l]]
            0 <= k < l < all.len() implies all[k].live_id != all[l].live_id by {
            assert(all[k] == before[k]);
            if l < before.len() {
                assert(all[l] == before[l]);
            }
        }
    }
}

/// Selected playlists come in the order in which they are asked for, and asking for more adds to the
/// end.
pub proof fn law_selections_follow_what_is_asked_for(
    playlists: Seq<RelatedView>,
    a: Seq<Seq<char>>,
    b: Seq<Seq<char>>,
)
    ensures
        selected_playlists(playlists, a).is_prefix_of(selected_playlists(playlists, a + b)),
        a.len() == 1 && (exists|j: int|
            0 <= j < playlists.len() && (#[trigger] playlists[j]).live_id == a[0])
            ==> selected_playlists(playlists, a).len() == 1 && selected_playlists(
            playlists,
            a,
        )[0].live_id == a[0],
    decreases b.len(),
{
    reveal_with_fuel(selected_playlists, 2);
    if a.len() == 1 {
        lemma_last_called(playlists, a[0]);
    }
    if b.len() == 0 {
        assert(a + b =~= a);
    } else {
        law_selections_follow_what_is_asked_for(playlists, a, b.drop_last());
        assert((a + b).drop_last() =~= a + b.drop_last());
    }
}

/// The recordings of a platform are exactly those whose row names it, in the order of the rows.
pub proof fn law_recordings_are_those_of_the_platform(
    a: Seq<RecordView>,
    b: Seq<RecordView>,
    platform: Seq<char>,
)
    ensures
        of_platform(a + b, platform) == of_platform(a, platform) + of_platform(b, platform),
        a.len() == 0 ==> of_platform(a, platform) == a,
        a.len() == 1 && a[0].platform == platform ==> of_platform(a, platform) == a,
        a.len() == 1 && a[0].platform != platform ==> of_platform(a, platform).len() == 0,
    decreases b.len(),
{
    reveal_with_fuel(of_platform, 2);
    if b.len() == 0 {
        assert(a + b =~= a);
    } else {
        law_recordings_are_those_of_the_platform(a, b.drop_last(), platform);
        assert((a + b).drop_last() =~= a + b.drop_last());
    }
}

/// Outside Douyin, and there where some recording has no number for a name, recordings come in the
/// order in which they were made, and those that were made at once in the order of their names.
pub proof fn law_recordings_are_in_order_of_time(records: Seq<RecordView>, platform: PlatformType)
    requires
        platform == PlatformType::Douyin ==> !all_numbered(of_platform(records, platform.name())),
    ensures
        forall|i: int, j: int|
            #![trigger ordered_records(records, platform)[i], ordered_records(records, platform)[j]]
            0 <= i < j < ordered_records(records, platform).len() ==> {
                let x = ordered_records(records, platform)[i];
                let y = ordered_records(records, platform)[j];
                text::text_le(x.created_at, y.created_at) && (x.created_at == y.created_at
                    ==> text::text_le(x.live_id, y.live_id))
            },
{
    let le = record_order(false);
    let own = of_platform(records, platform.name());
    sorting::lemma_text_order();
    let t = sorting::text_order();
    assert forall|a: RecordView, b: RecordView| #[trigger] le(a, b) || le(b, a) by {
        assert(t(a.live_id, b.live_id) || t(b.live_id, a.live_id));
        assert(t(a.created_at, b.created_at) || t(b.created_at, a.created_at));
    }
    assert forall|a: RecordView, b: RecordView, c: RecordView| #[trigger]
        le(a, b) && #[trigger] le(b, c) implies le(a, c) by {
        assert(t(a.live_id, b.live_id) && t(b.live_id, c.live_id) ==> t(a.live_id, c.live_id));
        assert(t(a.created_at, b.created_at) && t(b.created_at, c.created_at) ==> t(
            a.created_at,
            c.created_at,
        ));
        if a.created_at == c.created_at && a.created_at != b.created_at {
            sorting::lemma_text_le_same(a.created_at, b.created_at);
        }
    }
    sorting::lemma_stable_sorted(own, le);
    let all = ordered_records(records, platform);
    assert(all == sorting::stable_sorted(own, le));
    assert forall|i: int, j: int|
        #![trigger all[i], all[j]]
        0 <= i < j < all.len() implies text::text_le(all[i].created_at, all[j].created_at) && (
    all[i].created_at == all[j].created_at ==> text::text_le(all[i].live_id, all[j].live_id)) by {
        assert(le(all[i], all[j]));
        assert(t(all[i].created_at, all[i].created_at) || t(all[i].created_at, all[i].created_at));
    }
}

/// The first failure is one: everything before it succeeded, and where there is none, all did.
pub proof fn law_the_first_failure_comes_first(results: Seq<Result<String, RecorderManagerError>>)
    ensures
        0 <= first_failure(results) <= results.len(),
        first_failure(results) < results.len() ==> results[first_failure(results)] is Err,
        forall|i: int| 0 <= i < first_failure(results) ==> (#[trigger] results[i]) is Ok,
    decreases results.len(),
{
    if results.len() > 0 && results[0] is Ok {
        let rest = results.drop_first();
        law_the_first_failure_comes_first(rest);
        assert forall|i: int| 0 <= i < first_failure(results) implies (
        #[trigger] results[i]) is Ok by {
            if i > 0 {
                assert(results[i] == rest[i - 1]);
            }
        }
    }
}

/// A video's name ends as one, whatever was asked for, and a name that does already is not changed.
pub proof fn law_videos_are_named_as_such(name: Seq<char>)
    ensures
        text::ends(text::lowered(video_name(name)), ".mp4"@),
        text::begins(video_name(name), name),
        text::ends(text::lowered(name), ".mp4"@) ==> video_name(name) == name,
        video_name(video_name(name)) == video_name(name),
{
    reveal_strlit(".mp4");
    let long = name + ".mp4"@;
    assert(text::lowered(long).skip(text::lowered(long).len() - 4) =~= ".mp4"@);
    assert(long.take(name.len() as int) =~= name);
    assert(name.take(name.len() as int) =~= name);
}

/// The name that a whole session is given ends as a video's and holds what the session is: its
/// platform, its room, itself, the time and the title, in this order. So sessions of different titles
/// never share a name, nor does one at two times that are written at the same length.
pub proof fn law_session_names_tell_sessions_apart(
    platform: PlatformType,
    room_id: Seq<char>,
    parent_id: Seq<char>,
    timestamp: Seq<char>,
    title: Seq<char>,
    other_parent: Seq<char>,
    other_timestamp: Seq<char>,
    other_title: Seq<char>,
)
    requires
        timestamp.len() == other_timestamp.len(),
        parent_id.len() == other_parent.len(),
        default_name(platform, room_id, parent_id, timestamp, title) == default_name(
            platform,
            room_id,
            other_parent,
            other_timestamp,
            other_title,
        ),
    ensures
        text::ends(default_name(platform, room_id, parent_id, timestamp, title), ".mp4"@),
        parent_id == other_parent,
        timestamp == other_timestamp,
        title == other_title,
{
    reveal_strlit(".mp4");
    reveal_strlit("]");
    reveal_strlit("][");
    reveal_strlit("[full][");
    let x = default_name(platform, room_id, parent_id, timestamp, title);
    let y = default_name(platform, room_id, other_parent, other_timestamp, other_title);
    let l = platform.label().len();
    let p = 7 + l + 2 + room_id.len() + 2;
    assert(x.subrange(p as int, (p + parent_id.len()) as int) =~= parent_id);
    assert(y.subrange(p as int, (p + parent_id.len()) as int) =~= other_parent);
    let q = p + parent_id.len() + 2;
    assert(x.subrange(q as int, (q + timestamp.len()) as int) =~= timestamp);
    assert(y.subrange(q as int, (q + timestamp.len()) as int) =~= other_timestamp);
    let r = q + timestamp.len() + 1;
    assert(x.len() == r + title.len() + 4);
    assert(y.len() == r + other_title.len() + 4);
    assert(x.subrange(r as int, (r + title.len()) as int) =~= title);
    assert(y.subrange(r as int, (r + title.len()) as int) =~= other_title);
    assert(x.skip(x.len() - 4) =~= ".mp4"@);
}

/// An unfinished video is hidden and named as unfinished, and the names of two videos whose stems
/// differ stay apart.
pub proof fn law_unfinished_videos_are_set_apart(file_name: Seq<char>, other: Seq<char>)
    ensures
        text::begins(partial_name(file_name), "."@),
        text::ends(partial_name(file_name), ".partial.mp4"@),
        paths::is_file_name(file_name) && paths::is_file_name(other) && partial_name(file_name)
            == partial_name(other) ==> paths::stem(file_name) == paths::stem(other),
{
    reveal_strlit(".");
    reveal_strlit(".partial.mp4");
    let x = partial_name(file_name);
    let y = partial_name(other);
    assert(x.take(1) =~= "."@);
    assert(x.skip(x.len() - 12) =~= ".partial.mp4"@);
    if paths::is_file_name(file_name) && paths::is_file_name(other) && x == y {
        assert(x.subrange(1, x.len() - 12) =~= paths::stem(file_name));
        assert(y.subrange(1, y.len() - 12) =~= paths::stem(other));
    }
}

/// Chat from a start on: every line that is no earlier than it stays, in order, with its text and
/// counted from it; every earlier line goes.
pub proof fn law_lines_are_counted_from_the_start(
    a: Seq<DanmuEntryView>,
    b: Seq<DanmuEntryView>,
    start: int,
)
    requires
        countable(a + b, start),
    ensures
        lines_from(a + b, start) == lines_from(a, start) + lines_from(b, start),
        a.len() == 0 ==> lines_from(a, start).len() == 0,
        a.len() == 1 && a[0].ts < start ==> lines_from(a, start).len() == 0,
        a.len() == 1 && a[0].ts >= start ==> lines_from(a, start).len() == 1 && lines_from(
            a,
            start,
        )[0].ts == a[0].ts - start && lines_from(a, start)[0].content == a[0].content
            && lines_from(a, start)[0].user_name == a[0].user_name,
    decreases b.len(),
{
    reveal_with_fuel(lines_from, 2);
    if a.len() == 1 {
        assert((a + b)[0] == a[0]);
    }
    if b.len() == 0 {
        assert(a + b =~= a);
    } else {
        assert((a + b).drop_last() =~= a + b.drop_last());
        assert forall|i: int|
            0 <= i < (a + b.drop_last()).len() && (#[trigger] (a + b.drop_last())[i]).ts
                >= start implies (a + b.drop_last())[i].ts - start <= i64::MAX by {
            assert((a + b)[i] == (a + b.drop_last())[i]);
        }
        law_lines_are_counted_from_the_start(a, b.drop_last(), start);
    }
}

/// The earliest line is no later than any line, and is one of them.
pub proof fn law_the_earliest_line_is_first(entries: Seq<DanmuEntryView>)
    requires
        entries.len() > 0,
    ensures
        forall|i: int| 0 <= i < entries.len() ==> earliest(entries) <= (#[trigger] entries[i]).ts,
        exists|i: int| 0 <= i < entries.len() && (#[trigger] entries[i]).ts == earliest(entries),
    decreases entries.len(),
{
    if entries.len() == 1 {
        assert(entries[0].ts == earliest(entries));
    } else {
        let before = entries.drop_last();
        law_the_earliest_line_is_first(before);
        let k = choose|k: int| 0 <= k < before.len() && (#[trigger] before[k]).ts == earliest(before);
        assert(entries[k].ts == earliest(before));
        assert(entries[entries.len() - 1] == entries.last());
        assert forall|i: int| 0 <= i < entries.len() implies earliest(entries) <= (
        #[trigger] entries[i]).ts by {
            if i < before.len() {
                assert(before[i] == entries[i]);
            }
        }
    }
}

/// Chat is counted from the first segment where there is one, and else from the earliest line: without
/// a segment, no line then comes before the start.
pub proof fn law_chat_starts_with_the_video(
    entries: Seq<DanmuEntryView>,
    first_segment: Option<i64>,
)
    ensures
        first_segment is Some ==> danmu_origin(entries, first_segment) == first_segment->0,
        first_segment is None ==> forall|i: int|
            0 <= i < entries.len() ==> danmu_origin(entries, first_segment) <= (
            #[trigger] entries[i]).ts,
        first_segment is None && entries.len() > 0 ==> exists|i: int|
            0 <= i < entries.len() && (#[trigger] entries[i]).ts == danmu_origin(
                entries,
                first_segment,
            ),
{
    if entries.len() > 0 {
        law_the_earliest_line_is_first(entries);
    }
}

/// The chat of a range: every line within it stays, in order, with its text, moved to where the range
/// stands in the clip; every line outside goes. A range without an end holds every line.
pub proof fn law_ranges_hold_their_chat(
    a: Seq<DanmuEntryView>,
    b: Seq<DanmuEntryView>,
    range: Range,
    anchor: int,
)
    requires
        fits_range(a + b, range, anchor),
    ensures
        lines_in_range(a + b, range, anchor) == lines_in_range(a, range, anchor) + lines_in_range(
            b,
            range,
            anchor,
        ),
        a.len() == 0 ==> lines_in_range(a, range, anchor).len() == 0,
        a.len() == 1 && (range.duration_millis is None || (range.start_millis <= a[0].ts && a[0].ts
            <= range.start_millis + range.duration_millis->0)) ==> lines_in_range(
            a,
            range,
            anchor,
        ).len() == 1 && lines_in_range(a, range, anchor)[0].ts - anchor == a[0].ts
            - range.start_millis && lines_in_range(a, range, anchor)[0].content == a[0].content
            && lines_in_range(a, range, anchor)[0].user_name == a[0].user_name,
        a.len() == 1 && range.duration_millis is Some && !(range.start_millis <= a[0].ts && a[0].ts
            <= range.start_millis + range.duration_millis->0) ==> lines_in_range(
            a,
            range,
            anchor,
        ).len() == 0,
    decreases b.len(),
{
    reveal_with_fuel(lines_in_range, 2);
    if a.len() == 1 {
        assert((a + b)[0] == a[0]);
    }
    if b.len() == 0 {
        assert(a + b =~= a);
    } else {
        assert((a + b).drop_last() =~= a + b.drop_last());
        assert(fits_range(a + b.drop_last(), range, anchor)) by {
            assert forall|i: int| 0 <= i < (a + b.drop_last()).len() implies {
                let t = (#[trigger] (a + b.drop_last())[i]).ts - range.start_millis;
                &&& i64::MIN <= t <= i64::MAX
                &&& range.duration_millis is None || 0 <= t <= range.duration_millis->0 ==> i64::MIN
                    <= t + anchor <= i64::MAX
            } by {
                assert((a + b)[i] == (a + b.drop_last())[i]);
            }
        }
        law_ranges_hold_their_chat(a, b.drop_last(), range, anchor);
    }
}

/// The chat of a clip of several ranges is that of each range, one after the other, each moved to its
/// own place.
pub proof fn law_clips_hold_the_chat_of_every_range(
    entries: Seq<DanmuEntryView>,
    a: Seq<Range>,
    b: Seq<Range>,
    anchors: Seq<i64>,
)
    requires
        anchors.len() == a.len() + b.len(),
    ensures
        clip_lines(entries, a + b, anchors) == clip_lines(entries, a, anchors) + clip_lines(
            entries,
            b,
            anchors.skip(a.len() as int),
        ),
        a.len() == 0 ==> clip_lines(entries, a, anchors).len() == 0,
        a.len() == 1 ==> clip_lines(entries, a, anchors) == lines_in_range(
            entries,
            a[0],
            anchors[0] as int,
        ),
    decreases b.len(),
{
    reveal_with_fuel(clip_lines, 2);
    if b.len() == 0 {
        assert(a + b =~= a);
    } else {
        let less = anchors.drop_last();
        assert((a + b).drop_last() =~= a + b.drop_last());
        law_clips_hold_the_chat_of_every_range(entries, a, b.drop_last(), less);
        lemma_later_places(entries, a, less, anchors);
        lemma_later_places(entries, a + b.drop_last(), less, anchors);
        lemma_later_places(
            entries,
            b.drop_last(),
            less.skip(a.len() as int),
            anchors.skip(a.len() as int),
        );
    }
    assert(a.len() == 1 ==> Seq::<DanmuEntryView>::empty() + lines_in_range(
        entries,
        a[0],
        anchors[0] as int,
    ) =~= lines_in_range(entries, a[0], anchors[0] as int));
}

proof fn lemma_later_places(
    entries: Seq<DanmuEntryView>,
    ranges: Seq<Range>,
    x: Seq<i64>,
    y: Seq<i64>,
)
    requires
        ranges.len() <= x.len(),
        ranges.len() <= y.len(),
        forall|i: int| 0 <= i < ranges.len() ==> x[i] == y[i],
    ensures
        clip_lines(entries, ranges, x) == clip_lines(entries, ranges, y),
    decreases ranges.len(),
{
    if ranges.len() > 0 {
        lemma_later_places(entries, ranges.drop_last(), x, y);
    }
}

/// Of the playlists that are returned for a session, on any platform other than Douyin, none is
/// missing: every recording with a size, or with a playlist that is not empty, is among them, in its
/// place, whatever is known of media on disk.
pub proof fn law_returned_playlists_leave_none_out(
    cache_path: &str,
    platform: PlatformType,
    room_id: &str,
    archives: &Vec<ArchiveOnDisk>,
    windows: bool,
    res: Vec<RelatedPlaylist>,
    i: int,
)
    requires
        call_ensures(
            get_related_playlists,
            (cache_path, platform, room_id, archives, windows),
            res,
        ),
        platform != PlatformType::Douyin,
        0 <= i < archives@.len(),
        archives@[i].record.size > 0 || archives@[i].has_playlist,
    ensures
        ({
            let place = exported(
                cache_path@,
                platform,
                room_id@,
                archives.deep_view().take(i),
                windows,
            ).len() as int;
            &&& place < res@.len()
            &&& res@[place].live_id@ == archives@[i].record.live_id@
            &&& res@[place].title@ == archives@[i].record.title@
        }),
{
    law_no_recording_is_left_out(
        cache_path@,
        platform,
        room_id@,
        archives.deep_view(),
        windows,
        i,
    );
    let place = exported(
        cache_path@,
        platform,
        room_id@,
        archives.deep_view().take(i),
        windows,
    ).len() as int;
    assert(archives.deep_view()[i] == archives@[i].deep_view());
    assert(res.deep_view()[place] == res@[place].deep_view());
}

/// A choice of playlists is refused where it comes to nothing; without a choice all of them are taken.
pub proof fn law_an_empty_choice_is_refused(
    playlists: &Vec<RelatedPlaylist>,
    selected_live_ids: &Option<Vec<String>>,
    res: Result<Vec<RelatedPlaylist>, RecorderManagerError>,
)
    requires
        call_ensures(select_playlists, (playlists, selected_live_ids), res),
    ensures
        res is Ok ==> res->Ok_0@.len() > 0,
        selected_live_ids is None && playlists@.len() > 0 ==> res is Ok && res->Ok_0.deep_view()
            == playlists.deep_view(),
        playlists@.len() == 0 ==> res is Err,
        selected_live_ids is Some && playlists@.len() > 0 ==> (res is Ok <==> exists|k: int|
            0 <= k < playlists@.len() && selected_live_ids->0.deep_view().contains(
                (#[trigger] playlists.deep_view()[k]).live_id,
            )),
{
    if let Some(ids) = *selected_live_ids {
        law_what_is_asked_for_is_selected(playlists.deep_view(), ids.deep_view());
        let chosen = selected_playlists(playlists.deep_view(), ids.deep_view());
        if chosen.len() > 0 {
            let p = chosen[0];
            assert(playlists.deep_view().contains(p));
            let k = choose|k: int| 0 <= k < playlists.deep_view().len() && playlists.deep_view()[k] == p;
            assert(ids.deep_view().contains(playlists.deep_view()[k].live_id));
        }
    }
}

/// How a clip is made. Without a playlist there is none; without ranges all of the recording is cut.
/// With chat it is written and burnt in, and a failure to write it leaves a clip without it; without
/// chat the video is encoded anew where that is asked for. Only a failed burning drops the clip.
pub proof fn law_how_a_clip_is_made(
    params: &ClipRangeParams,
    event: ClipRangeEvent,
    res: ClipRangeStep,
)
    requires
        call_ensures(clip_range, (params, event), res),
    ensures
        event is Asked ==> (res is Fail <==> !event->playlist_exists) && (res is CutWhole
            <==> event->playlist_exists && params.ranges@.len() == 0) && (res is CutRanges
            <==> event->playlist_exists && params.ranges@.len() > 0),
        event is Cut ==> (res is Transcode <==> params.fix_encoding && !params.danmu) && (res
            is WriteChat <==> params.danmu && PlatformType::named(params.platform@) is Some) && (res
            is Done <==> !params.fix_encoding && !params.danmu) && (res is Fail <==> params.danmu
            && PlatformType::named(params.platform@) is None),
        res is WriteChat ==> res->platform.name() == params.platform@,
        event is ChatWritten <==> res is Burn,
        event is ChatFailed || event is Transcoded ==> res is Done && res->burnt_file is None,
        event is Burnt ==> res is Done && res->burnt_file is Some && res->burnt_file->0@
            == event->file@,
        event is CutFailed || event is TranscodeFailed || event is BurnFailed ==> res is Fail,
        res is Fail ==> (res->drop_clip <==> event is BurnFailed),
{
    PlatformType::law_only_names_name_platforms(params.platform@, PlatformType::Douyin);
}

/// When a recording begins: at the time of its first segment, where that is known; else at the time
/// that the segment is tagged with; else at the time that the recording is named after. An empty
/// recording has no beginning.
pub proof fn law_recordings_begin_with_their_first_segment(
    playlist: &Playlist,
    live_id: &str,
    res: Result<i64, RecorderManagerError>,
    value: &str,
    rfc3339: Option<i64>,
    formatted: Result<i64, String>,
    tagged: Result<i64, RecorderManagerError>,
)
    requires
        call_ensures(first_segment_timestamp, (playlist, live_id), res),
        call_ensures(tagged_time, (value, rfc3339, formatted), tagged),
    ensures
        playlist.deep_view().len() == 0 ==> res is Err,
        playlist.deep_view().len() > 0 && playlist.deep_view()[0].program_date_time_millis is Some
            ==> res is Ok && res->Ok_0 == playlist.deep_view()[0].program_date_time_millis->0,
        playlist.deep_view().len() > 0 && playlist.deep_view()[0].program_date_time_millis is None
            && playlist.deep_view()[0].unknown_tags.len() == 0 ==> (res is Ok
            <==> digits::signed_value(live_id@) is Some && i64::MIN <= digits::signed_value(
            live_id@,
        )->0 && digits::signed_value(live_id@)->0 <= i64::MAX) && (res is Ok ==> Some(
            res->Ok_0 as int,
        ) == digits::signed_value(live_id@)),
        rfc3339 is Some ==> tagged is Ok && tagged->Ok_0 == rfc3339->0,
        rfc3339 is None && formatted is Ok ==> tagged is Ok && tagged->Ok_0 == formatted->Ok_0,
        rfc3339 is None && formatted is Err ==> tagged is Err,
{
}

/// The chat files of a session are returned only where every one of them could be made, each in its
/// place; else it fails.
pub proof fn law_chat_files_are_all_there(
    live_ids: &[String],
    results: Vec<Result<String, RecorderManagerError>>,
    res: Result<Vec<Option<String>>, RecorderManagerError>,
)
    requires
        call_ensures(require_danmu_ass_files, (live_ids, results), res),
    ensures
        res is Ok <==> live_ids@.len() == results@.len() && forall|i: int|
            0 <= i < results@.len() ==> (#[trigger] results@[i]) is Ok,
        res is Ok ==> res->Ok_0@.len() == results@.len() && forall|i: int|
            0 <= i < results@.len() ==> ((#[trigger] res->Ok_0@[i]) is Some && res->Ok_0@[i]->0@
                == results@[i]->Ok_0@),
{
    law_the_first_failure_comes_first(results@);
    if first_failure(results@) < results@.len() {
        assert(!(results@[first_failure(results@)] is Ok));
    }
}

/// The name of an output is the one that was asked for, as a video's, where one was; else the one that
/// it has by itself. It never leads out of its directory.
pub proof fn law_outputs_are_named_as_asked(
    output_name: &Option<String>,
    default_name_text: &str,
    windows: bool,
    res: String,
)
    requires
        call_ensures(output_file_name, (output_name, default_name_text, windows), res),
    ensures
        !res@.contains('/'),
        output_name is Some && text::trimmed(output_name->0@).len() > 0 ==> text::ends(
            text::lowered(res@),
            ".mp4"@,
        ) && text::begins(res@, whole::sanitized(text::trimmed(output_name->0@), windows)),
        output_name is None || text::trimmed(output_name->0@).len() == 0 ==> res@
            == whole::sanitized(default_name_text@, windows),
{
    if let Some(name) = *output_name {
        law_videos_are_named_as_such(whole::sanitized(text::trimmed(name@), windows));
        assert(output_name.deep_view() == Some(name@));
    }
}

/// Moving chat to where a clip begins keeps every line, in order, with its text, and moves each by the
/// same.
pub proof fn law_moved_chat_keeps_its_distances(
    danmus: &Vec<DanmuEntry>,
    stream_start: i64,
    local_offset: i64,
    res: Vec<DanmuEntry>,
    i: int,
)
    requires
        i64::MIN <= local_offset * 1000 <= i64::MAX,
        i64::MIN <= stream_start + local_offset * 1000 <= i64::MAX,
        forall|k: int|
            0 <= k < danmus.deep_view().len() ==> i64::MIN <= (#[trigger] danmus.deep_view()[k]).ts
                - (stream_start + local_offset * 1000) <= i64::MAX,
        call_ensures(shift_danmus, (danmus, stream_start, local_offset), res),
        0 <= i < danmus@.len(),
    ensures
        res@.len() == danmus@.len(),
        res@[i].ts == danmus@[i].ts - stream_start - 1000 * local_offset,
        res@[i].content@ == danmus@[i].content@,
{
    assert(res.deep_view().len() == res@.len());
    assert(danmus.deep_view().len() == danmus@.len());
    assert(res.deep_view()[i] == res@[i].deep_view());
    assert(danmus.deep_view()[i] == danmus@[i].deep_view());
}

} // verus!
