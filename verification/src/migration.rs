//! Bringing recordings of earlier versions into the database.
use vstd::prelude::*;
use crate::archive;
use crate::paths;
use crate::platform::PlatformType;
use crate::rows::{RecordRow, RecordView};
use crate::text;

verus! {

/// The sum of sizes, held to the largest number.
pub open spec fn clamped_sum(sizes: Seq<u64>) -> int
    decreases sizes.len(),
{
    if sizes.len() == 0 {
        0
    } else {
        let sum = clamped_sum(sizes.drop_last()) + sizes.last();
        if sum > u64::MAX {
            u64::MAX as int
        } else {
            sum
        }
    }
}

/// The size of the files of a recording together.
pub fn archived_file_size(sizes: &Vec<u64>) -> (res: u64)
    ensures
        res == clamped_sum(sizes@),
{
    let mut size: u64 = 0;
    let mut i: usize = 0;
    assert(sizes@.take(0) =~= Seq::empty());
    while i < sizes.len()
        invariant
            i <= sizes@.len(),
            size == clamped_sum(sizes@.take(i as int)),
        decreases sizes@.len() - i,
    {
        assert(sizes@.take(i + 1).drop_last() =~= sizes@.take(i as int));
        size = match size.checked_add(sizes[i]) {
            Some(s) => s,
            None => u64::MAX,
        };
        i += 1;
    }
    assert(sizes@.take(i as int) =~= sizes@);
    size
}

/// What a recording's directory shows of it.
pub struct ArchiveEvidence {
    pub has_entries: bool,
    pub playlist_size: Option<u64>,
    pub has_local_media: bool,
    pub has_danmu: bool,
    pub directory_size: u64,
}

/// The size that a recording gets in the database.
#[derive(Clone, Copy, Debug, PartialEq, Eq, Structural)]
pub enum RebuiltSize {
    Skip,
    DataOnly,
    Video { size: u64 },
    Entries,
}

/// The size that a recording gets in the database. Its entries decide where it has them. Else a
/// playlist does, and on this platform only one that names a file which is there. What has no video
/// but chat or a playlist is kept with size zero; anything else is left alone.
pub open spec fn rebuilt_size(platform: PlatformType, evidence: ArchiveEvidence) -> RebuiltSize {
    if evidence.has_entries {
        RebuiltSize::Entries
    } else if evidence.playlist_size is Some && (platform != PlatformType::Douyin
        || evidence.has_local_media) {
        RebuiltSize::Video {
            size: if evidence.directory_size > evidence.playlist_size->0 {
                evidence.directory_size
            } else {
                evidence.playlist_size->0
            },
        }
    } else if platform == PlatformType::Douyin && (evidence.playlist_size is Some
        || evidence.has_danmu) {
        RebuiltSize::DataOnly
    } else {
        RebuiltSize::Skip
    }
}

/// The size that a recording gets in the database.
pub fn rebuild_size(platform: PlatformType, evidence: &ArchiveEvidence) -> (res: RebuiltSize)
    ensures
        res == rebuilt_size(platform, *evidence),
{
    if evidence.has_entries {
        return RebuiltSize::Entries;
    }
    match evidence.playlist_size {
        Some(size) => {
            if platform != PlatformType::Douyin || evidence.has_local_media {
                return RebuiltSize::Video {
                    size: if evidence.directory_size > size {
                        evidence.directory_size
                    } else {
                        size
                    },
                };
            }
            RebuiltSize::DataOnly
        },
        None => if platform == PlatformType::Douyin && evidence.has_danmu {
            RebuiltSize::DataOnly
        } else {
            RebuiltSize::Skip
        },
    }
}

/// A recording of this platform without a file that its playlist names never counts as video,
/// unless its entries say so, and its chat is never lost from sight.
pub proof fn law_only_real_media_counts_as_video(evidence: ArchiveEvidence)
    requires
        !evidence.has_entries,
    ensures
        !evidence.has_local_media ==> !(rebuilt_size(PlatformType::Douyin, evidence) is Video),
        evidence.has_danmu ==> !(rebuilt_size(PlatformType::Douyin, evidence) is Skip),
{
}

/// The session that a recording names as its own; a blank one does not count.
pub open spec fn persisted_parent(platform: PlatformType, contents: Option<Seq<char>>) -> Option<
    Seq<char>,
> {
    if platform == PlatformType::Douyin {
        match contents {
            Some(c) => if text::trimmed(c).len() > 0 {
                Some(text::trimmed(c))
            } else {
                None
            },
            None => None,
        }
    } else {
        None
    }
}

/// The session that a recording names as its own.
pub fn session_parent(platform: PlatformType, contents: &Option<String>) -> (res: Option<String>)
    ensures
        res.deep_view() == persisted_parent(platform, contents.deep_view()),
{
    if platform != PlatformType::Douyin {
        return None;
    }
    match contents {
        Some(c) => {
            let parent = text::trim(c.as_str());
            if text::is_empty(parent.as_str()) {
                None
            } else {
                Some(parent)
            }
        },
        None => None,
    }
}

/// What is done to the row of a recording.
pub enum RowAction {
    Update { new_parent: Option<String>, resize: bool },
    Create { parent_id: String, title: String },
}

/// The model of what is done to the row of a recording.
#[verifier::ext_equal]
pub enum RowActionView {
    Update { new_parent: Option<Seq<char>>, resize: bool },
    Create { parent_id: Seq<char>, title: Seq<char> },
}

impl DeepView for RowAction {
    type V = RowActionView;

    open spec fn deep_view(&self) -> RowActionView {
        match self {
            RowAction::Update { new_parent, resize } => RowActionView::Update {
                new_parent: new_parent.deep_view(),
                resize: *resize,
            },
            RowAction::Create { parent_id, title } => RowActionView::Create {
                parent_id: parent_id@,
                title: title@,
            },
        }
    }
}

/// What is done to the row of a recording: a row that names another session is corrected, and one
/// of size zero gets its size; a recording without a row gets one, under the session it names, else
/// the room's only session, else itself.
pub open spec fn row_action(
    platform: PlatformType,
    existing: Option<RecordView>,
    named: Option<Seq<char>>,
    room_session: Option<Seq<char>>,
    live_id: Seq<char>,
) -> RowActionView {
    match existing {
        Some(record) => RowActionView::Update {
            new_parent: if named is Some && named->0 != record.parent_id {
                named
            } else {
                None
            },
            resize: record.size == 0,
        },
        None => RowActionView::Create {
            parent_id: if platform == PlatformType::Douyin && named is Some {
                named->0
            } else if platform == PlatformType::Douyin && room_session is Some {
                room_session->0
            } else {
                live_id
            },
            title: "UnknownLive "@ + live_id,
        },
    }
}

/// What is done to the row of a recording.
pub fn rebuild_row(
    platform: PlatformType,
    existing: &Option<RecordRow>,
    named: &Option<String>,
    room_session: &Option<String>,
    live_id: &str,
) -> (res: RowAction)
    ensures
        res.deep_view() == row_action(
            platform,
            existing.deep_view(),
            named.deep_view(),
            room_session.deep_view(),
            live_id@,
        ),
{
    match existing {
        Some(record) => {
            let new_parent = match named {
                Some(parent) => if text::same(parent.as_str(), record.parent_id.as_str()) {
                    None
                } else {
                    Some(text::copy(parent.as_str()))
                },
                None => None,
            };
            RowAction::Update { new_parent, resize: record.size == 0 }
        },
        None => {
            let mut title = text::copy("UnknownLive ");
            title.append(live_id);
            let mut parent_id = text::copy(live_id);
            if platform == PlatformType::Douyin {
                if let Some(parent) = named {
                    parent_id = text::copy(parent.as_str());
                } else if let Some(session) = room_session {
                    parent_id = text::copy(session.as_str());
                }
            }
            RowAction::Create { parent_id, title }
        },
    }
}

/// A directory found in a room. A name that is no text is not known.
pub struct FoundArchive {
    pub live_id: Option<String>,
    pub evidence: ArchiveEvidence,
    pub parent_file: Option<String>,
    pub existing: Option<RecordRow>,
}

/// The model of a directory found in a room.
#[verifier::ext_equal]
pub struct FoundView {
    pub live_id: Option<Seq<char>>,
    pub evidence: ArchiveEvidence,
    pub parent_file: Option<Seq<char>>,
    pub existing: Option<RecordView>,
}

impl DeepView for FoundArchive {
    type V = FoundView;

    open spec fn deep_view(&self) -> FoundView {
        FoundView {
            live_id: self.live_id.deep_view(),
            evidence: self.evidence,
            parent_file: self.parent_file.deep_view(),
            existing: self.existing.deep_view(),
        }
    }
}

/// What is done about a directory found in a room.
pub struct ArchivePlan {
    pub live_id: String,
    pub size: RebuiltSize,
    pub row: RowAction,
}

/// The model of what is done about a directory found in a room.
#[verifier::ext_equal]
pub struct PlanView {
    pub live_id: Seq<char>,
    pub size: RebuiltSize,
    pub row: RowActionView,
}

impl DeepView for ArchivePlan {
    type V = PlanView;

    open spec fn deep_view(&self) -> PlanView {
        PlanView { live_id: self.live_id@, size: self.size, row: self.row.deep_view() }
    }
}

/// What is done about a directory found in a room. One without a readable name, one whose name
/// starts with a dot and one without anything of a recording are left alone.
pub open spec fn archive_plan(
    platform: PlatformType,
    room_session: Option<Seq<char>>,
    found: FoundView,
) -> Option<PlanView> {
    match found.live_id {
        Some(live_id) => if live_id.len() > 0 && live_id[0] == '.' {
            None
        } else if rebuilt_size(platform, found.evidence) is Skip {
            None
        } else {
            Some(
                PlanView {
                    live_id,
                    size: rebuilt_size(platform, found.evidence),
                    row: row_action(
                        platform,
                        found.existing,
                        persisted_parent(platform, found.parent_file),
                        room_session,
                        live_id,
                    ),
                },
            )
        },
        None => None,
    }
}

/// What is done about a directory found in a room.
pub fn plan_archive(
    platform: PlatformType,
    room_session: &Option<String>,
    found: &FoundArchive,
) -> (res: Option<ArchivePlan>)
    ensures
        res.deep_view() == archive_plan(
            platform,
            room_session.deep_view(),
            found.deep_view(),
        ),
{
    match &found.live_id {
        Some(live_id) => {
            if !archive::is_archive_name(live_id.as_str()) {
                return None;
            }
            let size = rebuild_size(platform, &found.evidence);
            if size == RebuiltSize::Skip {
                return None;
            }
            let named = session_parent(platform, &found.parent_file);
            let row = rebuild_row(
                platform,
                &found.existing,
                &named,
                room_session,
                live_id.as_str(),
            );
            Some(ArchivePlan { live_id: text::copy(live_id.as_str()), size, row })
        },
        None => None,
    }
}

/// What is done about the directories found in a room, in order.
pub open spec fn archive_plans(
    platform: PlatformType,
    room_session: Option<Seq<char>>,
    found: Seq<FoundView>,
) -> Seq<PlanView>
    decreases found.len(),
{
    if found.len() == 0 {
        Seq::empty()
    } else {
        let before = archive_plans(platform, room_session, found.drop_last());
        match archive_plan(platform, room_session, found.last()) {
            Some(p) => before.push(p),
            None => before,
        }
    }
}

/// What is done about the directories found in a room.
pub fn try_rebuild_archives(
    platform: PlatformType,
    room_session: &Option<String>,
    found: &Vec<FoundArchive>,
) -> (res: Vec<ArchivePlan>)
    ensures
        res.deep_view() == archive_plans(
            platform,
            room_session.deep_view(),
            found.deep_view(),
        ),
{
    let mut plans: Vec<ArchivePlan> = Vec::new();
    let ghost all = found.deep_view();
    let mut i: usize = 0;
    assert(all.take(0) =~= Seq::empty());
    assert(plans.deep_view() =~= Seq::<PlanView>::empty());
    while i < found.len()
        invariant
            i <= found@.len(),
            all == found.deep_view(),
            plans.deep_view() == archive_plans(
                platform,
                room_session.deep_view(),
                all.take(i as int),
            ),
        decreases found@.len() - i,
    {
        let ghost next = all.take(i + 1);
        assert(next.drop_last() =~= all.take(i as int));
        assert(next.last() == found@[i as int].deep_view());
        let ghost before = plans.deep_view();
        if let Some(plan) = plan_archive(platform, room_session, &found[i]) {
            plans.push(plan);
            assert(plans.deep_view() =~= before.push(plan.deep_view()));
        }
        i += 1;
    }
    assert(all.take(i as int) =~= all);
    plans
}

/// A recording that names its session is put under it, whether or not the database knew it.
pub proof fn law_recordings_go_under_the_session_they_name(
    room_session: Option<Seq<char>>,
    found: FoundView,
    session: Seq<char>,
)
    requires
        persisted_parent(PlatformType::Douyin, found.parent_file) == Some(session),
        archive_plan(PlatformType::Douyin, room_session, found) is Some,
    ensures
        match archive_plan(PlatformType::Douyin, room_session, found)->0.row {
            RowActionView::Create { parent_id, title } => parent_id == session,
            RowActionView::Update { new_parent, resize } => found.existing matches Some(r) && (
            if r.parent_id == session {
                new_parent is None
            } else {
                new_parent == Some(session)
            }),
        },
{
}

/// The bytes that `base64` decodes from a text in its standard alphabet; none where it refuses it.
pub uninterp spec fn base64_bytes(s: Seq<char>) -> Option<Seq<u8>>;

/// The text that `base64` encodes bytes to in its standard alphabet.
pub uninterp spec fn base64_text(bytes: Seq<u8>) -> Seq<char>;

/// `base64::engine::general_purpose::STANDARD.decode`.
#[verifier::external_body]
fn decode_base64(s: &str) -> (res: Option<Vec<u8>>)
    ensures
        match res {
            Some(bytes) => base64_bytes(s@) == Some(bytes@),
            None => base64_bytes(s@) is None,
        },
{
    base64::Engine::decode(&base64::engine::general_purpose::STANDARD, s).ok()
}

/// `base64::engine::general_purpose::STANDARD.encode`. Decoding the text gives the bytes back.
#[verifier::external_body]
fn encode_base64(bytes: &[u8]) -> (res: String)
    ensures
        res@ == base64_text(bytes@),
        base64_bytes(res@) == Some(bytes@),
{
    base64::Engine::encode(&base64::engine::general_purpose::STANDARD, bytes)
}

/// The text form of a picture.
pub fn encode_image(image: &[u8]) -> (res: String)
    ensures
        res@ == base64_text(image@),
        base64_bytes(res@) == Some(image@),
{
    encode_base64(image)
}

/// A cover as a row holds it: an address, or the picture itself.
pub enum InlineCover {
    Address,
    Malformed,
    Image(Vec<u8>),
}

/// The encoded part of a cover that holds its picture: what stands between the first two marks.
pub open spec fn encoded_cover(cover: Seq<char>) -> Option<Seq<char>> {
    match text::find_text(cover, "base64,"@) {
        Some(i) => {
            let rest = cover.skip(i + 7);
            match text::find_text(rest, "base64,"@) {
                Some(j) => Some(rest.take(j)),
                None => Some(rest),
            }
        },
        None => None,
    }
}

/// What a cover is.
pub open spec fn cover_kind(cover: Seq<char>) -> Option<Option<Seq<u8>>> {
    if text::begins(cover, "data:"@) {
        match encoded_cover(cover) {
            Some(s) => Some(base64_bytes(s)),
            None => Some(None),
        }
    } else {
        None
    }
}

/// The encoded part of a cover that holds its picture.
pub fn cover_data(cover: &str) -> (res: Option<String>)
    ensures
        res.deep_view() == encoded_cover(cover@),
{
    proof {
        reveal_strlit("base64,");
    }
    match text::split_at_text(cover, "base64,") {
        Some((_, rest)) => match text::split_at_text(rest.as_str(), "base64,") {
            Some((first, _)) => Some(first),
            None => Some(rest),
        },
        None => None,
    }
}

/// The picture in a cover, if the cover holds one.
pub fn try_convert_live_covers(cover: &str) -> (res: InlineCover)
    ensures
        match cover_kind(cover@) {
            None => res is Address,
            Some(None) => res is Malformed,
            Some(Some(bytes)) => res matches InlineCover::Image(b) && b@ == bytes,
        },
{
    if !text::starts_with(cover, "data:") {
        return InlineCover::Address;
    }
    match cover_data(cover) {
        Some(s) => match decode_base64(s.as_str()) {
            Some(bytes) => InlineCover::Image(bytes),
            None => InlineCover::Malformed,
        },
        None => InlineCover::Malformed,
    }
}

/// The cover of a recording, as an address below the directory of recordings.
pub fn live_cover_address(platform: &str, room_id: &str, live_id: &str) -> (res: String)
    ensures
        res@ == platform@ + "/"@ + room_id@ + "/"@ + live_id@ + "/cover.jpg"@,
{
    let mut s = text::copy(platform);
    s.append("/");
    s.append(room_id);
    s.append("/");
    s.append(live_id);
    s.append("/cover.jpg");
    s
}

/// The picture in the cover of a video, if the cover holds one, and the name of the file that it
/// goes to, beside the video. A video that has no file name has none.
pub fn try_convert_clip_covers(cover: &str, file: &str, windows: bool) -> (res: (
    InlineCover,
    Option<String>,
))
    ensures
        match cover_kind(cover@) {
            None => res.0 is Address,
            Some(None) => res.0 is Malformed,
            Some(Some(bytes)) => res.0 matches InlineCover::Image(b) && b@ == bytes,
        },
        res.1.deep_view() == (match paths::file_name_of(file@, windows) {
            Some(name) => Some(paths::with_extension(name, "jpg"@)),
            None => None,
        }),
{
    let name = match paths::file_name(file, windows) {
        Some(name) => Some(paths::replace_extension(name.as_str(), "jpg")),
        None => None,
    };
    (try_convert_live_covers(cover), name)
}

/// The session that is given to a recording which has none: itself.
pub fn try_add_parent_id_to_records(record: &RecordRow) -> (res: Option<String>)
    ensures
        res.deep_view() == (if record.parent_id@.len() == 0 {
            Some(record.live_id@)
        } else {
            None
        }),
{
    if text::is_empty(record.parent_id.as_str()) {
        Some(text::copy(record.live_id.as_str()))
    } else {
        None
    }
}

/// Whether a playlist is written from the entries of a recording: where there are entries and no
/// playlist yet.
pub fn try_convert_entry_to_m3u8(entry_file: bool, playlist_file: bool, has_entries: bool) -> (res:
    bool)
    ensures
        res == (entry_file && !playlist_file && has_entries),
{
    entry_file && !playlist_file && has_entries
}

/// A recording without entries that counts as video gets the larger of two sizes: no less than its
/// files have together, no less than its playlist says, and no size that is neither.
pub proof fn law_rebuilt_videos_lose_no_size(platform: PlatformType, evidence: ArchiveEvidence)
    requires
        !evidence.has_entries,
        rebuilt_size(platform, evidence) is Video,
    ensures
        evidence.playlist_size is Some,
        rebuilt_size(platform, evidence)->size >= evidence.directory_size,
        rebuilt_size(platform, evidence)->size >= evidence.playlist_size->0,
        rebuilt_size(platform, evidence)->size == evidence.directory_size || rebuilt_size(
            platform,
            evidence,
        )->size == evidence.playlist_size->0,
{
}

/// What a recording without a size comes to. With entries its size is counted from them. Else it is a
/// video where it has a playlist, on Douyin only with media on disk; on Douyin a playlist alone, or
/// chat alone, is kept as data; and everything else is passed over.
pub proof fn law_what_a_recording_comes_to(platform: PlatformType, evidence: ArchiveEvidence)
    ensures
        rebuilt_size(platform, evidence) is Entries <==> evidence.has_entries,
        rebuilt_size(platform, evidence) is Video <==> !evidence.has_entries
            && evidence.playlist_size is Some && (platform == PlatformType::Douyin
            ==> evidence.has_local_media),
        rebuilt_size(platform, evidence) is DataOnly <==> !evidence.has_entries && platform
            == PlatformType::Douyin && ((evidence.playlist_size is Some
            && !evidence.has_local_media) || (evidence.playlist_size is None
            && evidence.has_danmu)),
        rebuilt_size(platform, evidence) is Skip <==> !evidence.has_entries
            && evidence.playlist_size is None && (platform == PlatformType::Douyin
            ==> !evidence.has_danmu),
{
}

/// What is planned for a recording carries the size that was rebuilt for it: a video that is found
/// again is planned with no less than its files have together.
pub proof fn law_plans_carry_the_rebuilt_size(
    platform: PlatformType,
    room_session: Option<Seq<char>>,
    found: FoundView,
)
    requires
        archive_plan(platform, room_session, found) is Some,
    ensures
        found.live_id == Some(archive_plan(platform, room_session, found)->0.live_id),
        archive_plan(platform, room_session, found)->0.size is Entries
            <==> found.evidence.has_entries,
        archive_plan(platform, room_session, found)->0.size matches RebuiltSize::Video { size }
            ==> size >= found.evidence.directory_size && size >= found.evidence.playlist_size->0
            && (size == found.evidence.directory_size || size == found.evidence.playlist_size->0),
        !(archive_plan(platform, room_session, found)->0.size is Skip),
{
}

/// A directory is planned for exactly where it has a name that does not begin with a dot, and holds
/// something: entries, a playlist or, on Douyin, chat.
pub proof fn law_what_holds_something_is_planned_for(
    platform: PlatformType,
    room_session: Option<Seq<char>>,
    found: FoundView,
)
    ensures
        archive_plan(platform, room_session, found) is Some <==> found.live_id is Some && !(
        found.live_id->0.len() > 0 && found.live_id->0[0] == '.') && (found.evidence.has_entries
            || found.evidence.playlist_size is Some || (platform == PlatformType::Douyin
            && found.evidence.has_danmu)),
{
}

/// Directories are planned for one by one, in the order in which they were found: what is planned for
/// some and then for more is what is planned for all of them.
pub proof fn law_directories_are_planned_for_in_order(
    platform: PlatformType,
    room_session: Option<Seq<char>>,
    a: Seq<FoundView>,
    b: Seq<FoundView>,
)
    ensures
        archive_plans(platform, room_session, a + b) == archive_plans(platform, room_session, a)
            + archive_plans(platform, room_session, b),
        a.len() == 0 ==> archive_plans(platform, room_session, a).len() == 0,
        a.len() == 1 ==> archive_plans(platform, room_session, a) == (match archive_plan(
            platform,
            room_session,
            a[0],
        ) {
            Some(plan) => seq![plan],
            None => Seq::empty(),
        }),
    decreases b.len(),
{
    reveal_with_fuel(archive_plans, 2);
    if b.len() == 0 {
        assert(a + b =~= a);
    } else {
        law_directories_are_planned_for_in_order(platform, room_session, a, b.drop_last());
        assert((a + b).drop_last() =~= a + b.drop_last());
    }
}

/// A recording that has a row keeps it: no second one is made, its size is set only where it had none,
/// and it changes its session only to one that its own file names. A recording without a row gets one,
/// under its session where the platform has sessions and one is known, else under itself.
pub proof fn law_rows_are_not_made_twice(
    platform: PlatformType,
    room_session: Option<Seq<char>>,
    found: FoundView,
)
    requires
        archive_plan(platform, room_session, found) is Some,
    ensures
        ({
            let row = archive_plan(platform, room_session, found)->0.row;
            let named = persisted_parent(platform, found.parent_file);
            &&& row is Update <==> found.existing is Some
            &&& row matches RowActionView::Update { new_parent, resize } ==> (resize
                <==> found.existing->0.size == 0) && (new_parent is Some ==> new_parent == named
                && new_parent != Some(found.existing->0.parent_id)) && (new_parent is None && named
                is Some ==> named == Some(found.existing->0.parent_id))
            &&& row matches RowActionView::Create { parent_id, title } ==> text::ends(
                title,
                found.live_id->0,
            ) && (platform != PlatformType::Douyin ==> parent_id == found.live_id->0) && (platform
                == PlatformType::Douyin ==> (if named is Some {
                Some(parent_id) == named
            } else if room_session is Some {
                Some(parent_id) == room_session
            } else {
                parent_id == found.live_id->0
            }))
        }),
{
    let title = "UnknownLive "@ + found.live_id->0;
    assert(title.skip(title.len() - found.live_id->0.len()) =~= found.live_id->0);
}

/// Only recordings of Douyin name their session in a file, and a file without anything but white
/// space names none.
pub proof fn law_only_douyin_names_sessions(platform: PlatformType, contents: Option<Seq<char>>)
    ensures
        persisted_parent(platform, contents) is Some <==> platform == PlatformType::Douyin
            && contents is Some && text::trimmed(contents->0).len() > 0,
        persisted_parent(platform, contents) is Some ==> persisted_parent(platform, contents)->0
            == text::trimmed(contents->0),
{
}

proof fn lemma_sum_bounds(a: Seq<u64>)
    ensures
        0 <= clamped_sum(a) <= u64::MAX,
        forall|i: int| 0 <= i < a.len() ==> clamped_sum(a) >= #[trigger] a[i],
    decreases a.len(),
{
    if a.len() > 0 {
        lemma_sum_bounds(a.drop_last());
        assert forall|i: int| 0 <= i < a.len() implies clamped_sum(a) >= #[trigger] a[i] by {
            if i < a.len() - 1 {
                assert(a.drop_last()[i] == a[i]);
            }
        }
    }
}

/// Sizes are summed up as far as a sum can be counted: it is no less than any of them, it is theirs
/// where there is but one, and the sum of two lists is that of their sums.
pub proof fn law_sizes_are_summed_up(a: Seq<u64>, b: Seq<u64>)
    ensures
        0 <= clamped_sum(a) <= u64::MAX,
        a.len() == 0 ==> clamped_sum(a) == 0,
        a.len() == 1 ==> clamped_sum(a) == a[0],
        forall|i: int| 0 <= i < a.len() ==> clamped_sum(a) >= #[trigger] a[i],
        clamped_sum(a) + clamped_sum(b) <= u64::MAX ==> clamped_sum(a + b) == clamped_sum(a)
            + clamped_sum(b),
        clamped_sum(a) + clamped_sum(b) > u64::MAX ==> clamped_sum(a + b) == u64::MAX,
    decreases b.len(),
{
    reveal_with_fuel(clamped_sum, 2);
    lemma_sum_bounds(a);
    lemma_sum_bounds(b);
    if b.len() == 0 {
        assert(a + b =~= a);
    } else {
        lemma_sum_bounds(b.drop_last());
        law_sizes_are_summed_up(a, b.drop_last());
        assert((a + b).drop_last() =~= a + b.drop_last());
    }
}

/// A cover is a stored picture exactly where it begins as one, and then what is decoded is the text
/// behind the first mark of the encoding, up to the next one.
pub proof fn law_covers_are_decoded_behind_their_mark(
    head: Seq<char>,
    encoded: Seq<char>,
    cover: Seq<char>,
)
    requires
        cover == head + "base64,"@ + encoded,
        forall|i: int| 0 <= i < head.len() ==> !text::occurs_at(cover, "base64,"@, i),
        !text::occurs(encoded, "base64,"@),
    ensures
        cover_kind(cover) is Some <==> text::begins(cover, "data:"@),
        text::begins(cover, "data:"@) ==> cover_kind(cover) == Some(base64_bytes(encoded)),
{
    reveal_strlit("base64,");
    text::law_texts_are_found_where_they_first_occur(cover, "base64,"@);
    text::law_texts_are_found_where_they_first_occur(encoded, "base64,"@);
    assert(cover.subrange(head.len() as int, (head.len() + 7) as int) =~= "base64,"@);
    assert(text::occurs_at(cover, "base64,"@, head.len() as int));
    assert(text::find_text(cover, "base64,"@) == Some(head.len() as int));
    assert(cover.skip((head.len() + 7) as int) =~= encoded);
}

/// The size that is returned for a recording without entries, where it counts as video, is the larger
/// of that of its files and that of its playlist.
pub proof fn law_returned_videos_lose_no_size(
    platform: PlatformType,
    evidence: &ArchiveEvidence,
    res: RebuiltSize,
)
    requires
        call_ensures(rebuild_size, (platform, evidence), res),
    ensures
        res matches RebuiltSize::Video { size } ==> !evidence.has_entries && evidence.playlist_size
            is Some && size >= evidence.directory_size && size >= evidence.playlist_size->0 && (size
            == evidence.directory_size || size == evidence.playlist_size->0),
        res is Entries <==> evidence.has_entries,
        !evidence.has_entries && evidence.playlist_size is Some && (platform != PlatformType::Douyin
            || evidence.has_local_media) ==> res is Video,
{
}

/// A cover that is an address stays one; a stored picture is read where it can be, and else told to be
/// malformed; and the picture of a clip goes beside the clip under its name.
pub proof fn law_covers_are_converted_where_they_can_be(
    cover: &str,
    file: &str,
    windows: bool,
    live: InlineCover,
    clip: (InlineCover, Option<String>),
)
    requires
        call_ensures(try_convert_live_covers, (cover,), live),
        call_ensures(try_convert_clip_covers, (cover, file, windows), clip),
    ensures
        live is Address <==> !text::begins(cover@, "data:"@),
        clip.0 is Address <==> !text::begins(cover@, "data:"@),
        live is Image <==> text::begins(cover@, "data:"@) && encoded_cover(cover@) is Some
            && base64_bytes(encoded_cover(cover@)->0) is Some,
        live is Image ==> Some(live->Image_0@) == base64_bytes(encoded_cover(cover@)->0),
        clip.0 is Image <==> live is Image,
        clip.0 is Image ==> clip.0->Image_0@ == live->Image_0@,
        clip.1 is Some <==> paths::file_name_of(file@, windows) is Some,
        clip.1 is Some ==> clip.1->0@ == paths::with_extension(
            paths::file_name_of(file@, windows)->0,
            "jpg"@,
        ),
{
    assert(clip.1.deep_view() is Some <==> clip.1 is Some);
}

/// What is decoded of a cover ends where the mark of the encoding comes again, and a cover without the
/// mark holds nothing to decode.
pub proof fn law_covers_are_decoded_up_to_the_next_mark(
    head: Seq<char>,
    encoded: Seq<char>,
    more: Seq<char>,
    cover: Seq<char>,
)
    requires
        cover == head + "base64,"@ + (encoded + "base64,"@ + more),
        forall|i: int| 0 <= i < head.len() ==> !text::occurs_at(cover, "base64,"@, i),
        forall|i: int|
            0 <= i < encoded.len() ==> !text::occurs_at(
                encoded + "base64,"@ + more,
                "base64,"@,
                i,
            ),
    ensures
        encoded_cover(cover) == Some(encoded),
        !text::occurs(head, "base64,"@) ==> encoded_cover(head) is None,
{
    reveal_strlit("base64,");
    let mark = "base64,"@;
    let rest = encoded + mark + more;
    text::law_texts_are_found_where_they_first_occur(cover, mark);
    text::law_texts_are_found_where_they_first_occur(rest, mark);
    text::law_texts_are_found_where_they_first_occur(head, mark);
    text::law_beginnings_and_ends(head, mark, rest, cover);
    text::law_beginnings_and_ends(encoded, mark, more, rest);
    assert(text::occurs_at(cover, mark, head.len() as int));
    assert(text::occurs_at(rest, mark, encoded.len() as int));
    assert(text::find_text(cover, mark) == Some(head.len() as int));
    assert(text::find_text(rest, mark) == Some(encoded.len() as int));
    assert(cover.skip(head.len() as int + 7) =~= rest);
    assert(rest.take(encoded.len() as int) =~= encoded);
}

} // verus!
