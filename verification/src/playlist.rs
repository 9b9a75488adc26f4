//! Recorded playlists: reading them, the files that a clip is made of, and joining clips.
use vstd::prelude::*;
use crate::digits;
use crate::paths;
use crate::paths::PathPrefix;
use crate::text;

verus! {

/// The start of the name of a clip with chat burnt in.
pub const PREFIX_DANMAKU: &'static str = "[danmaku]";

/// A segment of a playlist. Its length is kept as the bits of a floating-point number, and its range
/// of dates by the name of the range.
pub struct Segment {
    pub uri: String,
    pub duration_bits: u32,
    pub map_uri: Option<String>,
    pub program_date_time_millis: Option<i64>,
    pub date_range: Option<String>,
    pub unknown_tags: Vec<(String, Option<String>)>,
}

/// The model of a segment.
#[verifier::ext_equal]
pub struct SegmentView {
    pub uri: Seq<char>,
    pub duration_bits: u32,
    pub map_uri: Option<Seq<char>>,
    pub program_date_time_millis: Option<i64>,
    pub date_range: Option<Seq<char>>,
    pub unknown_tags: Seq<(Seq<char>, Option<Seq<char>>)>,
}

impl DeepView for Segment {
    type V = SegmentView;

    open spec fn deep_view(&self) -> SegmentView {
        SegmentView {
            uri: self.uri@,
            duration_bits: self.duration_bits,
            map_uri: self.map_uri.deep_view(),
            program_date_time_millis: self.program_date_time_millis,
            date_range: self.date_range.deep_view(),
            unknown_tags: self.unknown_tags.deep_view(),
        }
    }
}

/// A playlist.
pub struct Playlist {
    pub segments: Vec<Segment>,
}

impl DeepView for Playlist {
    type V = Seq<SegmentView>;

    open spec fn deep_view(&self) -> Seq<SegmentView> {
        self.segments.deep_view()
    }
}

/// A playlist of `m3u8_rs`.
#[verifier::external_type_specification]
#[verifier::external_body]
pub struct ExMediaPlaylist(m3u8_rs::MediaPlaylist);

/// A segment of `m3u8_rs`.
#[verifier::external_type_specification]
#[verifier::external_body]
pub struct ExMediaSegment(m3u8_rs::MediaSegment);

/// A playlist as `m3u8_rs` holds it, taken apart: its segments, whether it ends, the text of its
/// type, and the rest of it.
pub struct OpenedPlaylist {
    pub head: m3u8_rs::MediaPlaylist,
    pub segments: Vec<m3u8_rs::MediaSegment>,
    pub end_list: bool,
    pub kind: Option<String>,
}

/// The model of a playlist that was taken apart.
#[verifier::ext_equal]
pub struct OpenedView {
    pub head: m3u8_rs::MediaPlaylist,
    pub segments: Seq<m3u8_rs::MediaSegment>,
    pub end_list: bool,
    pub kind: Option<Seq<char>>,
}

impl DeepView for OpenedPlaylist {
    type V = OpenedView;

    open spec fn deep_view(&self) -> OpenedView {
        OpenedView {
            head: self.head,
            segments: self.segments@,
            end_list: self.end_list,
            kind: self.kind.deep_view(),
        }
    }
}

/// What `m3u8_rs` reads from the bytes of a playlist; none where it refuses them.
pub uninterp spec fn opened_playlist(bytes: Seq<u8>) -> Option<OpenedView>;

/// `m3u8_rs::parse_media_playlist`, with the segments, the end mark and the text of the type taken
/// out of the playlist. The result depends on the bytes alone.
#[verifier::external_body]
pub(crate) fn open_playlist(bytes: &[u8]) -> (res: Option<OpenedPlaylist>)
    ensures
        res.deep_view() == opened_playlist(bytes@),
{
    let (_, mut head) = m3u8_rs::parse_media_playlist(bytes).ok()?;
    let segments = std::mem::take(&mut head.segments);
    let kind = head.playlist_type.as_ref().map(|t| t.to_string());
    Some(OpenedPlaylist { end_list: head.end_list, segments, kind, head })
}

/// What a segment of `m3u8_rs` holds.
pub uninterp spec fn segment_view(segment: m3u8_rs::MediaSegment) -> SegmentView;

/// The fields of an `m3u8_rs::MediaSegment`: its address, length, initial map, time, range of dates
/// and unknown tags.
#[verifier::external_body]
pub(crate) fn segment_of(s: &m3u8_rs::MediaSegment) -> (res: Segment)
    ensures
        res.deep_view() == segment_view(*s),
{
    Segment {
        uri: s.uri.clone(),
        duration_bits: s.duration.to_bits(),
        map_uri: s.map.as_ref().map(|m| m.uri.clone()),
        program_date_time_millis: s.program_date_time.map(|t| t.timestamp_millis()),
        date_range: s.daterange.as_ref().map(|d| d.id.clone()),
        unknown_tags: s.unknown_tags.iter().map(|t| (t.tag.clone(), t.rest.clone())).collect(),
    }
}

/// The text that `m3u8_rs` writes of a playlist whose segments have no range of dates.
pub uninterp spec fn written_playlist(opened: OpenedView) -> Seq<u8>;

/// Whether no segment has a range of dates.
pub open spec fn is_undated(segments: Seq<m3u8_rs::MediaSegment>) -> bool {
    forall|i: int|
        0 <= i < segments.len() ==> (#[trigger] segment_view(segments[i])).date_range is None
}

/// `m3u8_rs::MediaPlaylist::write_to`, with the segments, the end mark and the type put back. Writing
/// to memory does not fail, and what is written depends on the playlist alone unless a segment has
/// a range of dates: the further attributes of one are written in the order of a hash map. Of that
/// text nothing is claimed.
#[verifier::external_body]
pub(crate) fn write_playlist(opened: OpenedPlaylist) -> (res: Result<Vec<u8>, String>)
    ensures
        res is Ok,
        is_undated(opened.segments@) ==> res->Ok_0@ == written_playlist(opened.deep_view()),
{
    let mut media = opened.head;
    media.segments = opened.segments;
    media.end_list = opened.end_list;
    media.playlist_type = opened.kind.and_then(|k| k.parse().ok());
    let mut out: Vec<u8> = Vec::new();
    media.write_to(&mut out).map_err(|e| e.to_string())?;
    Ok(out)
}

/// The segments of the playlist that `m3u8_rs` reads from bytes; none where it refuses them.
pub open spec fn parsed_playlist(bytes: Seq<u8>) -> Option<Seq<SegmentView>> {
    match opened_playlist(bytes) {
        Some(opened) => Some(
            opened.segments.map_values(|s: m3u8_rs::MediaSegment| segment_view(s)),
        ),
        None => None,
    }
}

/// Reads the segments of a playlist; none where the bytes are no playlist.
pub(crate) fn read_playlist(bytes: &[u8]) -> (res: Option<Playlist>)
    ensures
        res.deep_view() == parsed_playlist(bytes@),
{
    match open_playlist(bytes) {
        None => None,
        Some(opened) => {
            let mut segments: Vec<Segment> = Vec::new();
            let mut i: usize = 0;
            while i < opened.segments.len()
                invariant
                    i <= opened.segments@.len(),
                    segments@.len() == i,
                    forall|j: int|
                        0 <= j < i ==> (#[trigger] segments@[j]).deep_view() == segment_view(
                            opened.segments@[j],
                        ),
                decreases opened.segments@.len() - i,
            {
                segments.push(segment_of(&opened.segments[i]));
                i += 1;
            }
            let playlist = Playlist { segments };
            assert(playlist.deep_view() =~= opened.deep_view().segments.map_values(
                |s: m3u8_rs::MediaSegment| segment_view(s),
            ));
            Some(playlist)
        },
    }
}

/// What is told of bytes that are no playlist; their contents are not shown.
pub open spec fn input_context(bytes: Seq<u8>) -> Seq<char> {
    if bytes.len() == 0 {
        "input is empty"@
    } else if forall|i: int| 0 <= i < bytes.len() ==> #[trigger] bytes[i] == 0 {
        "input is zero-filled"@
    } else {
        "invalid playlist syntax"@
    }
}

/// The message for bytes that are no playlist.
pub open spec fn playlist_error(bytes: Seq<u8>, path: Seq<char>) -> Seq<char> {
    "Failed to parse media playlist '"@ + path + "': "@ + input_context(bytes) + " ("@
        + digits::signed_decimal(bytes.len() as int) + " bytes)"@
}

/// The message for bytes that are no playlist.
pub fn unreadable_playlist(bytes: &[u8], playlist_path: &str) -> (res: String)
    ensures
        res@ == playlist_error(bytes@, playlist_path@),
{
    let n = bytes.len();
    let mut zero: bool = true;
    let mut i: usize = 0;
    while i < n && zero
        invariant
            n == bytes@.len(),
            i <= n,
            zero ==> forall|j: int| 0 <= j < i ==> #[trigger] bytes@[j] == 0,
            !zero ==> exists|j: int| 0 <= j < n && #[trigger] bytes@[j] != 0,
        decreases n - i,
    {
        if bytes[i] != 0 {
            assert(bytes@[i as int] != 0);
            zero = false;
        }
        i += 1;
    }
    let mut message = text::copy("Failed to parse media playlist '");
    message.append(playlist_path);
    message.append("': ");
    if n == 0 {
        message.append("input is empty");
    } else if zero {
        message.append("input is zero-filled");
    } else {
        message.append("invalid playlist syntax");
    }
    message.append(" (");
    let size = digits::decimal_text(n as u128);
    message.append(size.as_str());
    message.append(" bytes)");
    message
}

/// Reads a playlist from its bytes.
pub fn parse_media_playlist(bytes: &[u8], playlist_path: &str) -> (res: Result<
    Playlist,
    String,
>)
    ensures
        match parsed_playlist(bytes@) {
            Some(segments) => res matches Ok(p) && p.deep_view() == segments,
            None => res matches Err(e) && e@ == playlist_error(bytes@, playlist_path@),
        },
{
    match read_playlist(bytes) {
        Some(playlist) => Ok(playlist),
        None => Err(unreadable_playlist(bytes, playlist_path)),
    }
}

/// The address in the attributes of an initial map.
pub open spec fn map_uri(rest: Seq<char>) -> Option<Seq<char>> {
    match text::split_once(rest, '=') {
        Some((_, value)) => {
            let uri = text::trimmed_of(
                text::replaced(text::trimmed(value), "\\\""@, "\""@),
                '"',
            );
            if uri.len() > 0 {
                Some(uri)
            } else {
                None
            }
        },
        None => None,
    }
}

/// The address in the attributes of an initial map.
pub fn parse_map_uri(rest: &str) -> (res: Option<String>)
    ensures
        res.deep_view() == map_uri(rest@),
{
    match text::split_at_first(rest, '=') {
        Some((_, value)) => {
            proof {
                reveal_strlit("\\\"");
            }
            let stripped = text::trim(value.as_str());
            let unescaped = text::replace(stripped.as_str(), "\\\"", "\"");
            let uri = text::trim_matches(unescaped.as_str(), '"');
            if text::is_empty(uri.as_str()) {
                None
            } else {
                Some(uri)
            }
        },
        None => None,
    }
}

/// The value of the first tag called `name`; a tag without a value gives none.
pub open spec fn tag_value(tags: Seq<(Seq<char>, Option<Seq<char>>)>, name: Seq<char>) -> Option<
    Option<Seq<char>>,
>
    decreases tags.len(),
{
    if tags.len() == 0 {
        None
    } else if tags[0].0 == name {
        Some(tags[0].1)
    } else {
        tag_value(tags.drop_first(), name)
    }
}

/// The value of the first tag called `name`, where there is such a tag.
pub fn find_tag(tags: &Vec<(String, Option<String>)>, name: &str) -> (res: Option<Option<String>>)
    ensures
        res.deep_view() == tag_value(tags.deep_view(), name@),
{
    let ghost all = tags.deep_view();
    let mut i: usize = 0;
    assert(all.skip(0) =~= all);
    while i < tags.len()
        invariant
            i <= tags@.len(),
            all == tags.deep_view(),
            tag_value(all.skip(i as int), name@) == tag_value(all, name@),
        decreases tags@.len() - i,
    {
        let ghost rest = all.skip(i as int);
        assert(rest[0] == (tags@[i as int].0@, tags@[i as int].1.deep_view()));
        if text::same(tags[i].0.as_str(), name) {
            return Some(text::copy_option(&tags[i].1));
        }
        assert(rest.drop_first() =~= all.skip(i + 1));
        i += 1;
    }
    assert(all.skip(i as int).len() == 0);
    None
}

/// The initial map of a segment: as its tag gives it, else as the playlist does.
pub open spec fn header_of(segment: SegmentView) -> Option<Seq<char>> {
    let tagged = match tag_value(segment.unknown_tags, "X-MAP"@) {
        Some(Some(rest)) => map_uri(rest),
        _ => None,
    };
    match tagged {
        Some(uri) => Some(uri),
        None => segment.map_uri,
    }
}

/// The initial map of a segment.
pub fn header_uri(segment: &Segment) -> (res: Option<String>)
    ensures
        res.deep_view() == header_of(segment.deep_view()),
{
    if let Some(Some(rest)) = find_tag(&segment.unknown_tags, "X-MAP") {
        if let Some(uri) = parse_map_uri(rest.as_str()) {
            return Some(uri);
        }
    }
    text::copy_option(&segment.map_uri)
}

/// The file that part `i` of a clip goes to.
pub open spec fn part_name(file_name: Seq<char>, i: int) -> Seq<char> {
    paths::with_extension(file_name, digits::signed_decimal(i) + ".mp4"@)
}

/// The file that part `i` of a clip goes to.
pub fn part_file(file_name: &str, i: usize) -> (res: String)
    ensures
        res@ == part_name(file_name@, i as int),
{
    let mut extension = digits::u64_text(i as u64);
    extension.append(".mp4");
    paths::replace_extension(file_name, extension.as_str())
}

/// The files that a clip is made of.
pub struct ClipPlan {
    pub header: Option<String>,
    pub segments: Vec<String>,
}

/// The file of a segment: its address without the query, in the folder of the playlist.
pub open spec fn segment_file(folder: Seq<char>, uri: Seq<char>, windows: bool) -> Seq<char> {
    paths::joined_path(folder, uri.take(text::find(uri, '?')), windows)
}

/// The files of the segments that are wanted, in order.
pub open spec fn wanted_files(
    folder: Seq<char>,
    segments: Seq<SegmentView>,
    wanted: Seq<bool>,
    windows: bool,
) -> Seq<Seq<char>>
    decreases segments.len(),
{
    if segments.len() == 0 {
        Seq::empty()
    } else {
        let before = wanted_files(folder, segments.drop_last(), wanted, windows);
        if wanted[segments.len() - 1] {
            before.push(segment_file(folder, segments.last().uri, windows))
        } else {
            before
        }
    }
}

/// The files that a clip is made of: the initial map of the playlist and the wanted segments. A
/// clip without segments is refused.
pub fn clip_from_playlist(
    playlist: &Playlist,
    folder: &str,
    wanted: &Vec<bool>,
    windows: bool,
) -> (res: Result<ClipPlan, String>)
    requires
        wanted@.len() == playlist.segments@.len(),
    ensures
        wanted_files(folder@, playlist.deep_view(), wanted@, windows).len() == 0 ==> (res matches Err(e)
            && e@ == "No segments found"@),
        wanted_files(folder@, playlist.deep_view(), wanted@, windows).len() > 0 ==> (res matches Ok(plan)
            && plan.segments.deep_view() == wanted_files(folder@, playlist.deep_view(), wanted@, windows)
            && plan.header.deep_view() == (match header_of(playlist.deep_view()[0]) {
            Some(uri) => Some(paths::joined_path(folder@, uri, windows)),
            None => None,
        })),
{
    let mut files: Vec<String> = Vec::new();
    let segments = &playlist.segments;
    let ghost all = playlist.deep_view();
    let mut i: usize = 0;
    assert(all.take(0) =~= Seq::empty());
    assert(files.deep_view() =~= Seq::<Seq<char>>::empty());
    while i < segments.len()
        invariant
            i <= segments@.len(),
            wanted@.len() == segments@.len(),
            all == segments.deep_view(),
            files.deep_view() == wanted_files(folder@, all.take(i as int), wanted@, windows),
        decreases segments@.len() - i,
    {
        let ghost next = all.take(i + 1);
        assert(next.drop_last() =~= all.take(i as int));
        assert(next.last() == segments@[i as int].deep_view());
        let ghost before = files.deep_view();
        if wanted[i] {
            let uri = text::before_first(segments[i].uri.as_str(), '?');
            let file = paths::join(folder, uri.as_str(), windows);
            files.push(file);
            assert(files.deep_view() =~= before.push(file@));
        }
        i += 1;
    }
    assert(all.take(i as int) =~= all);
    if files.len() == 0 {
        return Err(text::copy("No segments found"));
    }
    proof {
        if segments@.len() == 0 {
            assert(all =~= Seq::empty());
        }
    }
    let header = match header_uri(&segments[0]) {
        Some(uri) => Some(paths::join(folder, uri.as_str(), windows)),
        None => None,
    };
    Ok(ClipPlan { header, segments: files })
}

/// Wants every segment, for a clip of the whole playlist.
pub fn want_all(playlist: &Playlist) -> (res: Vec<bool>)
    ensures
        res@ == Seq::new(playlist.deep_view().len(), |i: int| true),
{
    let mut wanted: Vec<bool> = Vec::new();
    let mut i: usize = 0;
    while i < playlist.segments.len()
        invariant
            i <= playlist.segments@.len(),
            wanted@.len() == i,
            forall|j: int| 0 <= j < i ==> #[trigger] wanted@[j],
        decreases playlist.segments@.len() - i,
    {
        wanted.push(true);
        i += 1;
    }
    assert(wanted@ =~= Seq::new(playlist.deep_view().len(), |i: int| true));
    wanted
}

/// A clip of the whole playlist holds every segment, in the order of the playlist.
pub proof fn law_a_whole_clip_holds_every_segment(
    folder: Seq<char>,
    segments: Seq<SegmentView>,
    windows: bool,
)
    ensures
        wanted_files(folder, segments, Seq::new(segments.len(), |i: int| true), windows)
            == segments.map_values(|s: SegmentView| segment_file(folder, s.uri, windows)),
{
    lemma_all_wanted(folder, segments, Seq::new(segments.len(), |i: int| true), windows);
}

proof fn lemma_all_wanted(
    folder: Seq<char>,
    segments: Seq<SegmentView>,
    wanted: Seq<bool>,
    windows: bool,
)
    requires
        forall|i: int| 0 <= i < segments.len() ==> #[trigger] wanted[i],
    ensures
        wanted_files(folder, segments, wanted, windows) == segments.map_values(
            |s: SegmentView| segment_file(folder, s.uri, windows),
        ),
    decreases segments.len(),
{
    let f = |s: SegmentView| segment_file(folder, s.uri, windows);
    if segments.len() == 0 {
        assert(segments.map_values(f) =~= Seq::empty());
    } else {
        lemma_all_wanted(folder, segments.drop_last(), wanted, windows);
        assert(wanted[segments.len() - 1]);
        assert(segments.map_values(f) =~= segments.drop_last().map_values(f).push(
            segment_file(folder, segments.last().uri, windows),
        ));
    }
}

/// What is done with a processed file: it takes the place of the one it was made from, unless it
/// is missing or empty. `size` is the size of the processed file, or the reason why it has none.
pub fn replace_output_file(temporary_path: &str, operation: &str, size: Result<u64, String>) -> (res:
    Result<(), String>)
    ensures
        match size {
            Err(e) => res matches Err(m) && m@ == "Processed output '"@ + temporary_path@
                + "' is unavailable after "@ + operation@ + ": "@ + e@,
            Ok(n) => if n == 0 {
                res matches Err(m) && m@ == "Processed output '"@ + temporary_path@
                    + "' is empty after "@ + operation@
            } else {
                res is Ok
            },
        },
{
    match size {
        Err(e) => {
            let mut m = text::copy("Processed output '");
            m.append(temporary_path);
            m.append("' is unavailable after ");
            m.append(operation);
            m.append(": ");
            m.append(e.as_str());
            Err(m)
        },
        Ok(n) => {
            if n == 0 {
                let mut m = text::copy("Processed output '");
                m.append(temporary_path);
                m.append("' is empty after ");
                m.append(operation);
                return Err(m);
            }
            Ok(())
        },
    }
}

/// A step in putting a processed file in its place.
pub enum InstallStep {
    Remove,
    Rename,
}

/// The message for a step that failed.
pub fn install_error(step: InstallStep, output_path: &str, operation: &str, error: &str) -> (res:
    String)
    ensures
        res@ == (match step {
            InstallStep::Remove => "Failed to remove intermediate output '"@,
            InstallStep::Rename => "Failed to install processed output '"@,
        }) + output_path@ + "' after "@ + operation@ + ": "@ + error@,
{
    let mut m = match step {
        InstallStep::Remove => text::copy("Failed to remove intermediate output '"),
        InstallStep::Rename => text::copy("Failed to install processed output '"),
    };
    m.append(output_path);
    m.append("' after ");
    m.append(operation);
    m.append(": ");
    m.append(error);
    m
}

/// Whether playlists can be joined: there are some, and as many chat files as playlists.
pub fn concat_playlists_to_video(playlists: usize, danmu_ass_files: usize) -> (res: Result<
    (),
    String,
>)
    ensures
        playlists == 0 ==> (res matches Err(e) && e@ == "No playlists to concatenate"@),
        playlists != 0 && playlists != danmu_ass_files ==> (res matches Err(e) && e@
            == "Playlist/danmu file count mismatch: "@ + digits::signed_decimal(playlists as int)
            + " playlists, "@ + digits::signed_decimal(danmu_ass_files as int)
            + " danmu files"@),
        playlists != 0 && playlists == danmu_ass_files ==> res is Ok,
{
    if playlists == 0 {
        return Err(text::copy("No playlists to concatenate"));
    }
    if playlists != danmu_ass_files {
        let mut m = text::copy("Playlist/danmu file count mismatch: ");
        let p = digits::decimal_text(playlists as u128);
        m.append(p.as_str());
        m.append(" playlists, ");
        let d = digits::decimal_text(danmu_ass_files as u128);
        m.append(d.as_str());
        m.append(" danmu files");
        return Err(m);
    }
    Ok(())
}

/// The message for a segment that could not be made.
pub open spec fn segment_error(
    index: int,
    total: int,
    playlist: Seq<char>,
    error: Seq<char>,
) -> Seq<char> {
    "Failed to generate playlist segment "@ + digits::signed_decimal(index + 1) + "/"@
        + digits::signed_decimal(total) + " from '"@ + playlist + "': "@ + error
}

/// A segment that could not be made stays a failure; the message tells which one it was.
pub fn require_playlist_segment<T>(
    result: Result<T, String>,
    index: usize,
    total: usize,
    playlist: &str,
) -> (res: Result<T, String>)
    requires
        index < usize::MAX,
    ensures
        match result {
            Ok(v) => res == Ok::<T, String>(v),
            Err(e) => res matches Err(m) && m@ == segment_error(
                index as int,
                total as int,
                playlist@,
                e@,
            ),
        },
{
    match result {
        Ok(v) => Ok(v),
        Err(e) => {
            let mut m = text::copy("Failed to generate playlist segment ");
            let i = digits::decimal_text(index as u128 + 1);
            m.append(i.as_str());
            m.append("/");
            let n = digits::decimal_text(total as u128);
            m.append(n.as_str());
            m.append(" from '");
            m.append(playlist);
            m.append("': ");
            m.append(e.as_str());
            Err(m)
        },
    }
}

/// The message for a segment whose chat could not be burnt in.
pub fn danmu_burn_error(index: usize, total: usize, playlist: &str, error: &str) -> (res: String)
    requires
        index < usize::MAX,
    ensures
        res@ == "Failed to burn danmu for playlist segment "@ + digits::signed_decimal(
            index as int + 1,
        ) + "/"@ + digits::signed_decimal(total as int) + " ('"@ + playlist@ + "'): "@ + error@,
{
    let mut m = text::copy("Failed to burn danmu for playlist segment ");
    let i = digits::decimal_text(index as u128 + 1);
    m.append(i.as_str());
    m.append("/");
    let n = digits::decimal_text(total as u128);
    m.append(n.as_str());
    m.append(" ('");
    m.append(playlist);
    m.append("'): ");
    m.append(error);
    m
}

/// The message for segments that could not be joined.
pub fn concat_error(total: usize, error: &str) -> (res: String)
    ensures
        res@ == "Failed to concatenate all "@ + digits::signed_decimal(total as int)
            + " playlist segments: "@ + error@,
{
    let mut m = text::copy("Failed to concatenate all ");
    let n = digits::decimal_text(total as u128);
    m.append(n.as_str());
    m.append(" playlist segments: ");
    m.append(error);
    m
}

/// The name of a clip with chat burnt in.
pub fn danmaku_file_name(file_name: &str) -> (res: String)
    ensures
        res@ == PREFIX_DANMAKU@ + file_name@,
{
    let mut name = text::copy(PREFIX_DANMAKU);
    name.append(file_name);
    name
}

/// The files made while playlists are joined: those to remove afterwards, and those to join.
pub struct ConcatRun {
    pub to_remove: Vec<String>,
    pub segments: Vec<String>,
}

impl ConcatRun {
    /// Every file to join is removed afterwards.
    pub open spec fn wf(&self) -> bool {
        forall|i: int|
            0 <= i < self.segments.deep_view().len() ==> self.to_remove.deep_view().contains(
                #[trigger] self.segments.deep_view()[i],
            )
    }

    /// No files yet.
    pub fn new() -> (res: ConcatRun)
        ensures
            res.wf(),
            res.to_remove@.len() == 0,
            res.segments@.len() == 0,
    {
        ConcatRun { to_remove: Vec::new(), segments: Vec::new() }
    }

    /// Takes note of a file that is about to be made, so that it is removed even where making it
    /// fails.
    pub fn track(&mut self, path: &str)
        requires
            old(self).wf(),
        ensures
            final(self).wf(),
            final(self).to_remove.deep_view() == old(self).to_remove.deep_view().push(path@),
            final(self).segments == old(self).segments,
    {
        let ghost before = self.to_remove.deep_view();
        self.to_remove.push(text::copy(path));
        proof {
            let after = self.to_remove.deep_view();
            assert(after =~= before.push(path@));
            assert forall|i: int| 0 <= i < self.segments.deep_view().len() implies after.contains(
                #[trigger] self.segments.deep_view()[i],
            ) by {
                let s = self.segments.deep_view()[i];
                assert(before.contains(s));
                let k = choose|k: int| 0 <= k < before.len() && before[k] == s;
                assert(after[k] == s);
            }
        }
    }

    /// Takes note of a file that was made and is to be joined; one under an unexpected name is
    /// removed afterwards too.
    pub fn finish_segment(&mut self, path: &str)
        requires
            old(self).wf(),
        ensures
            final(self).wf(),
            final(self).segments.deep_view() == old(self).segments.deep_view().push(path@),
            final(self).to_remove.deep_view() == (if old(self).to_remove.deep_view().contains(
                path@,
            ) {
                old(self).to_remove.deep_view()
            } else {
                old(self).to_remove.deep_view().push(path@)
            }),
    {
        if !text::list_contains(&self.to_remove, path) {
            self.track(path);
            proof {
                let all = self.to_remove.deep_view();
                assert(all[all.len() - 1] == path@);
            }
        }
        let ghost before = self.segments.deep_view();
        self.segments.push(text::copy(path));
        proof {
            let after = self.segments.deep_view();
            assert(after =~= before.push(path@));
            assert forall|i: int| 0 <= i < after.len() implies self.to_remove.deep_view().contains(
                #[trigger] after[i],
            ) by {
                if i < before.len() {
                    assert(after[i] == before[i]);
                }
            }
        }
    }
}

/// Whether a segment's address names a file within its recording, and which: the address up to
/// its query or fragment, where it is neither absolute nor leads upwards.
pub open spec fn local_file(uri: Seq<char>, windows: bool) -> Option<Seq<char>> {
    let part = uri.take(text::first_where(uri, |c: char| c == '?' || c == '#'));
    if paths::stays_below(part, windows) {
        Some(part)
    } else {
        None
    }
}

/// The file within its recording that a segment's address names.
pub fn local_segment(uri: &str, windows: bool) -> (res: Option<String>)
    ensures
        res.deep_view() == local_file(uri@, windows),
{
    let chars = text::chars_of(uri);
    let ghost p = |c: char| c == '?' || c == '#';
    let n = chars.len();
    let mut i: usize = 0;
    while i < n && chars[i] != '?' && chars[i] != '#'
        invariant
            n == chars@.len(),
            i <= n,
            p == (|c: char| c == '?' || c == '#'),
            forall|j: int| 0 <= j < i ==> !p(#[trigger] chars@[j]),
        decreases n - i,
    {
        i += 1;
    }
    proof {
        text::lemma_first_where_is(uri@, p, i as int);
    }
    let part = text::text_of(&chars, 0, i);
    assert(part@ =~= uri@.take(i as int));
    if paths::is_below(part.as_str(), windows) {
        Some(part)
    } else {
        None
    }
}

/// The files within the recording that segments name, in order.
pub open spec fn local_files(segments: Seq<SegmentView>, windows: bool) -> Seq<Seq<char>>
    decreases segments.len(),
{
    if segments.len() == 0 {
        Seq::empty()
    } else {
        let before = local_files(segments.drop_last(), windows);
        match local_file(segments.last().uri, windows) {
            Some(f) => before.push(f),
            None => before,
        }
    }
}

/// The files within the recording that the segments of a playlist name.
pub fn local_segments(playlist: &Playlist, windows: bool) -> (res: Vec<String>)
    ensures
        res.deep_view() == local_files(playlist.deep_view(), windows),
{
    let mut files: Vec<String> = Vec::new();
    let segments = &playlist.segments;
    let ghost all = playlist.deep_view();
    let mut i: usize = 0;
    assert(all.take(0) =~= Seq::empty());
    assert(files.deep_view() =~= Seq::<Seq<char>>::empty());
    while i < segments.len()
        invariant
            i <= segments@.len(),
            all == segments.deep_view(),
            files.deep_view() == local_files(all.take(i as int), windows),
        decreases segments@.len() - i,
    {
        let ghost next = all.take(i + 1);
        assert(next.drop_last() =~= all.take(i as int));
        assert(next.last() == segments@[i as int].deep_view());
        let ghost before = files.deep_view();
        if let Some(f) = local_segment(segments[i].uri.as_str(), windows) {
            files.push(f);
            assert(files.deep_view() =~= before.push(f@));
        }
        i += 1;
    }
    assert(all.take(i as int) =~= all);
    files
}

/// The files within the recording that a playlist's bytes name; bytes that are no playlist name
/// none.
pub fn playlist_local_files(bytes: &[u8], windows: bool) -> (res: Vec<String>)
    ensures
        res.deep_view() == (match parsed_playlist(bytes@) {
            Some(segments) => local_files(segments, windows),
            None => Seq::empty(),
        }),
{
    match read_playlist(bytes) {
        Some(playlist) => local_segments(&playlist, windows),
        None => {
            let none: Vec<String> = Vec::new();
            assert(none.deep_view() =~= Seq::<Seq<char>>::empty());
            none
        },
    }
}

/// A file that a segment names lies within the recording: its path goes on from that of the recording,
/// and no part of it leads upwards. On Windows that holds for a recording whose path is not taken as
/// it is written.
pub proof fn law_local_files_stay_in_the_recording(dir: Seq<char>, uri: Seq<char>, windows: bool)
    requires
        local_file(uri, windows) is Some,
        windows ==> paths::prefix_of(dir).0 != PathPrefix::Verbatim,
    ensures
        paths::joined_path(dir, local_file(uri, windows)->0, windows) == paths::join_head(
            dir,
            windows,
        ) + local_file(uri, windows)->0,
        !text::split(
            paths::slashed(local_file(uri, windows)->0, windows),
            '/',
        ).contains(".."@),
{
    let file = local_file(uri, windows)->0;
    if windows {
        assert(!paths::is_separator(file[0]));
        assert(paths::prefix_of(file).0 == PathPrefix::Absent);
    }
}

/// A playlist that cannot be read is told apart by what it holds: nothing, nothing but zeros, or
/// something else.
pub proof fn law_unreadable_playlists_are_told_apart(bytes: Seq<u8>, i: int)
    requires
        0 <= i < bytes.len(),
    ensures
        input_context(Seq::empty()) == "input is empty"@,
        bytes[i] != 0 ==> input_context(bytes) == "invalid playlist syntax"@,
        (forall|k: int| 0 <= k < bytes.len() ==> #[trigger] bytes[k] == 0) ==> input_context(bytes)
            == "input is zero-filled"@,
{
}

/// The map that a segment names in a tag is what stands behind the first equals sign, without the
/// quotes around it; a tag without one, or with nothing between the quotes, names none.
pub proof fn law_maps_are_named_in_quotes(name: Seq<char>, uri: Seq<char>)
    requires
        !name.contains('='),
        forall|i: int| 0 <= i < uri.len() ==> (#[trigger] uri[i]) != '"' && uri[i] != '\\',
    ensures
        map_uri(name) is None,
        uri.len() > 0 ==> map_uri(name + seq!['='] + (seq!['"'] + uri + seq!['"'])) == Some(uri),
        uri.len() == 0 ==> map_uri(name + seq!['='] + (seq!['"'] + uri + seq!['"'])) is None,
{
    reveal_strlit("\\\"");
    let quoted = seq!['"'] + uri + seq!['"'];
    text::law_texts_are_cut_at_the_first(name, '=', quoted);
    text::law_trimming_twice_is_trimming_once(quoted);
    assert(text::trimmed(quoted) == quoted);
    assert(!text::occurs(quoted, "\\\""@)) by {
        if text::occurs(quoted, "\\\""@) {
            let i = choose|i: int| text::occurs_at(quoted, "\\\""@, i);
            let piece = quoted.subrange(i, i + 2);
            assert(piece[0] == '\\');
            assert(quoted[i] == '\\');
            if 0 < i < quoted.len() - 1 {
                assert(quoted[i] == uri[i - 1]);
            }
        }
    }
    text::law_every_occurrence_is_replaced(quoted, "\\\""@, Seq::empty(), "\""@);
    text::law_trimming_of_a_character(quoted, '"');
    let t = text::trimmed_of(quoted, '"');
    let (i, j) = choose|i: int, j: int|
        #![trigger quoted.subrange(i, j)]
        0 <= i <= j <= quoted.len() && t == quoted.subrange(i, j) && (forall|k: int|
            0 <= k < i ==> (#[trigger] quoted[k]) == '"') && (forall|k: int|
            j <= k < quoted.len() ==> (#[trigger] quoted[k]) == '"');
    if uri.len() > 0 {
        assert(quoted[1] == uri[0]);
        assert(quoted[uri.len() as int] == uri[uri.len() - 1]);
        assert(i <= 1);
        assert(j >= uri.len() + 1);
        assert(t.len() > 0);
        assert(t[0] == quoted[i]);
        assert(i == 1);
        assert(t.last() == quoted[j - 1]);
        assert(j == uri.len() + 1);
        assert(t =~= uri);
    } else {
        assert(quoted =~= seq!['"', '"']);
        if t.len() > 0 {
            assert(t[0] == quoted[i]);
        }
    }
}

/// A tag is found by its name, the first of that name, and none where no tag has it.
pub proof fn law_tags_are_found_by_name(
    before: Seq<(Seq<char>, Option<Seq<char>>)>,
    name: Seq<char>,
    value: Option<Seq<char>>,
    after: Seq<(Seq<char>, Option<Seq<char>>)>,
)
    requires
        forall|i: int| 0 <= i < before.len() ==> (#[trigger] before[i]).0 != name,
    ensures
        tag_value(before, name) is None,
        tag_value(before + seq![(name, value)] + after, name) == Some(value),
    decreases before.len(),
{
    let all = before + seq![(name, value)] + after;
    if before.len() == 0 {
        assert(all[0] == (name, value));
    } else {
        let rest = before.drop_first();
        assert forall|i: int| 0 <= i < rest.len() implies (#[trigger] rest[i]).0 != name by {
            assert(rest[i] == before[i + 1]);
        }
        law_tags_are_found_by_name(rest, name, value, after);
        assert(all[0] == before[0]);
        assert(all.drop_first() =~= rest + seq![(name, value)] + after);
    }
}

/// The map of a segment is the one that its tag names, and else its own: a tag that names none does
/// not hide it.
pub proof fn law_segments_have_the_map_they_name(segment: SegmentView)
    ensures
        (tag_value(segment.unknown_tags, "X-MAP"@) matches Some(Some(rest)) && map_uri(rest) is Some)
            ==> header_of(segment) == map_uri(
            tag_value(segment.unknown_tags, "X-MAP"@)->0->0,
        ),
        !(tag_value(segment.unknown_tags, "X-MAP"@) matches Some(Some(rest)) && map_uri(rest)
            is Some) ==> header_of(segment) == segment.map_uri,
{
}

/// The file of a segment stands in the recording's folder under the segment's address, without what is
/// asked behind it.
pub proof fn law_segment_files_stand_under_their_address(
    folder: Seq<char>,
    path: Seq<char>,
    asked: Seq<char>,
    windows: bool,
)
    requires
        !path.contains('?'),
    ensures
        segment_file(folder, path, windows) == paths::joined_path(folder, path, windows),
        segment_file(folder, path + seq!['?'] + asked, windows) == paths::joined_path(
            folder,
            path,
            windows,
        ),
{
    text::law_texts_are_cut_at_the_first(path, '?', asked);
    assert((path + seq!['?'] + asked).take(path.len() as int) =~= path);
    text::lemma_first_where(path, text::equals('?'));
    assert(text::find(path, '?') == path.len()) by {
        if text::find(path, '?') < path.len() {
            assert(path.contains(path[text::find(path, '?')]));
        }
    }
    assert(path.take(path.len() as int) =~= path);
}

/// The files of a clip are those of the segments that are wanted, in order.
pub proof fn law_clips_hold_the_wanted_segments(
    folder: Seq<char>,
    a: Seq<SegmentView>,
    b: Seq<SegmentView>,
    wanted: Seq<bool>,
    windows: bool,
)
    requires
        wanted.len() == a.len() + b.len(),
    ensures
        wanted_files(folder, a + b, wanted, windows) == wanted_files(folder, a, wanted, windows)
            + wanted_files(folder, b, wanted.skip(a.len() as int), windows),
        a.len() == 0 ==> wanted_files(folder, a, wanted, windows).len() == 0,
        a.len() == 1 && wanted[0] ==> wanted_files(folder, a, wanted, windows) == seq![
            segment_file(folder, a[0].uri, windows),
        ],
        a.len() == 1 && !wanted[0] ==> wanted_files(folder, a, wanted, windows).len() == 0,
    decreases b.len(),
{
    reveal_with_fuel(wanted_files, 2);
    if b.len() == 0 {
        assert(a + b =~= a);
    } else {
        let less = wanted.drop_last();
        law_clips_hold_the_wanted_segments(folder, a, b.drop_last(), less, windows);
        assert((a + b).drop_last() =~= a + b.drop_last());
        lemma_more_files_wanted(folder, a, less, wanted, windows);
        lemma_more_files_wanted(folder, a + b.drop_last(), less, wanted, windows);
        lemma_more_files_wanted(
            folder,
            b.drop_last(),
            less.skip(a.len() as int),
            wanted.skip(a.len() as int),
            windows,
        );
    }
}

proof fn lemma_more_files_wanted(
    folder: Seq<char>,
    segments: Seq<SegmentView>,
    x: Seq<bool>,
    y: Seq<bool>,
    windows: bool,
)
    requires
        segments.len() <= x.len(),
        segments.len() <= y.len(),
        forall|i: int| 0 <= i < segments.len() ==> x[i] == y[i],
    ensures
        wanted_files(folder, segments, x, windows) == wanted_files(folder, segments, y, windows),
    decreases segments.len(),
{
    if segments.len() > 0 {
        lemma_more_files_wanted(folder, segments.drop_last(), x, y, windows);
    }
}

/// A segment's file is looked for in the recording under its address, without what is asked behind it
/// or marked in it; an address that leads elsewhere is none.
pub proof fn law_local_files_stand_under_their_address(
    path: Seq<char>,
    mark: char,
    more: Seq<char>,
    windows: bool,
)
    requires
        !path.contains('?'),
        !path.contains('#'),
        mark == '?' || mark == '#',
    ensures
        paths::stays_below(path, windows) ==> local_file(path, windows) == Some(path) && local_file(
            path + seq![mark] + more,
            windows,
        ) == Some(path),
        !paths::stays_below(path, windows) ==> local_file(path, windows) is None && local_file(
            path + seq![mark] + more,
            windows,
        ) is None,
{
    let p = |c: char| c == '?' || c == '#';
    let s = path + seq![mark] + more;
    assert forall|j: int| 0 <= j < path.len() implies !p(#[trigger] s[j]) by {
        assert(s[j] == path[j] && path.contains(path[j]));
    }
    assert forall|j: int| 0 <= j < path.len() implies !p(#[trigger] path[j]) by {
        assert(path.contains(path[j]));
    }
    assert(p(s[path.len() as int]));
    text::lemma_first_where_is(s, p, path.len() as int);
    text::lemma_first_where_is(path, p, path.len() as int);
    assert(s.take(path.len() as int) =~= path);
    assert(path.take(path.len() as int) =~= path);
}

/// The files of a playlist are those of its segments that stand in the recording, in order.
pub proof fn law_local_files_are_those_of_the_segments(
    a: Seq<SegmentView>,
    b: Seq<SegmentView>,
    windows: bool,
)
    ensures
        local_files(a + b, windows) == local_files(a, windows) + local_files(b, windows),
        a.len() == 0 ==> local_files(a, windows).len() == 0,
        a.len() == 1 ==> local_files(a, windows) == (match local_file(a[0].uri, windows) {
            Some(f) => seq![f],
            None => Seq::empty(),
        }),
    decreases b.len(),
{
    reveal_with_fuel(local_files, 2);
    if b.len() == 0 {
        assert(a + b =~= a);
    } else {
        law_local_files_are_those_of_the_segments(a, b.drop_last(), windows);
        assert((a + b).drop_last() =~= a + b.drop_last());
    }
}

/// The parts that a clip is made of have names of their own, all beside the clip: the clip's name with
/// the part's number before the ending.
pub proof fn law_parts_have_names_of_their_own(file_name: Seq<char>, i: int, j: int)
    requires
        paths::is_file_name(file_name),
    ensures
        part_name(file_name, i) == paths::stem(file_name) + "."@ + digits::signed_decimal(i)
            + ".mp4"@,
        part_name(file_name, i) == part_name(file_name, j) ==> i == j,
{
    let head = paths::stem(file_name) + "."@;
    let x = digits::signed_decimal(i);
    let y = digits::signed_decimal(j);
    let tail = ".mp4"@;
    assert(part_name(file_name, i) =~= head + x + tail);
    assert(part_name(file_name, j) =~= head + y + tail);
    if part_name(file_name, i) == part_name(file_name, j) {
        assert((head + x + tail).len() == (head + y + tail).len());
        let from = head.len() as int;
        assert((head + x + tail).subrange(from, from + x.len()) =~= x);
        assert((head + y + tail).subrange(from, from + x.len()) =~= y);
        digits::law_written_numbers_are_read_back(i);
        digits::law_written_numbers_are_read_back(j);
    }
}

/// A failure to read a playlist, or to make a part of it, tells which one it was.
pub proof fn law_failures_tell_their_playlist(
    bytes: Seq<u8>,
    path: Seq<char>,
    index: int,
    total: int,
    error: Seq<char>,
)
    ensures
        text::occurs(playlist_error(bytes, path), path),
        text::occurs(playlist_error(bytes, path), input_context(bytes)),
        text::occurs(segment_error(index, total, path, error), path),
        text::ends(segment_error(index, total, path, error), error),
        text::occurs(
            segment_error(index, total, path, error),
            digits::signed_decimal(index + 1) + "/"@ + digits::signed_decimal(total),
        ),
{
    let x = playlist_error(bytes, path);
    let head = "Failed to parse media playlist '"@;
    let a = head.len() as int;
    assert(x.subrange(a, a + path.len()) =~= path);
    assert(text::occurs_at(x, path, a));
    let b = a + path.len() + "': "@.len();
    assert(x.subrange(b, b + input_context(bytes).len()) =~= input_context(bytes));
    assert(text::occurs_at(x, input_context(bytes), b));
    let y = segment_error(index, total, path, error);
    let start = "Failed to generate playlist segment "@.len() as int;
    let number = digits::signed_decimal(index + 1) + "/"@ + digits::signed_decimal(total);
    assert(y.subrange(start, start + number.len()) =~= number);
    assert(text::occurs_at(y, number, start));
    let c = start + number.len() + " from '"@.len();
    assert(y.subrange(c, c + path.len()) =~= path);
    assert(text::occurs_at(y, path, c));
    assert(y.skip(y.len() - error.len()) =~= error);
}

/// A clip is planned where any segment is wanted: of the files of those, with the map that the first
/// segment of the playlist has.
pub proof fn law_clips_need_a_segment(
    playlist: &Playlist,
    folder: &str,
    wanted: &Vec<bool>,
    windows: bool,
    res: Result<ClipPlan, String>,
)
    requires
        wanted@.len() == playlist.segments@.len(),
        call_ensures(clip_from_playlist, (playlist, folder, wanted, windows), res),
    ensures
        res is Ok <==> exists|i: int| 0 <= i < wanted@.len() && #[trigger] wanted@[i],
        res is Ok ==> res->Ok_0.segments.deep_view() == wanted_files(
            folder@,
            playlist.deep_view(),
            wanted@,
            windows,
        ),
        res is Ok ==> (res->Ok_0.header is Some <==> header_of(playlist.deep_view()[0]) is Some),
        res is Ok && res->Ok_0.header is Some ==> res->Ok_0.header->0@ == paths::joined_path(
            folder@,
            header_of(playlist.deep_view()[0])->0,
            windows,
        ),
{
    lemma_some_file_wanted(folder@, playlist.deep_view(), wanted@, windows);
    if res is Ok {
        assert(res->Ok_0.header.deep_view() is Some <==> res->Ok_0.header is Some);
    }
}

proof fn lemma_some_file_wanted(
    folder: Seq<char>,
    segments: Seq<SegmentView>,
    wanted: Seq<bool>,
    windows: bool,
)
    requires
        wanted.len() >= segments.len(),
    ensures
        wanted_files(folder, segments, wanted, windows).len() > 0 <==> exists|i: int|
            0 <= i < segments.len() && #[trigger] wanted[i],
    decreases segments.len(),
{
    if segments.len() > 0 {
        lemma_some_file_wanted(folder, segments.drop_last(), wanted, windows);
        if wanted[segments.len() - 1] {
            assert(wanted[segments.len() - 1]);
        }
        if exists|i: int| 0 <= i < segments.len() && #[trigger] wanted[i] {
            let i = choose|i: int| 0 <= i < segments.len() && #[trigger] wanted[i];
            if i < segments.len() - 1 {
                assert(0 <= i < segments.drop_last().len() && wanted[i]);
            }
        }
    }
}

/// An output that was processed replaces the one before only where it is there and holds something.
pub proof fn law_empty_outputs_replace_nothing(
    temporary_path: &str,
    operation: &str,
    size: Result<u64, String>,
    res: Result<(), String>,
)
    requires
        call_ensures(replace_output_file, (temporary_path, operation, size), res),
    ensures
        res is Ok <==> size is Ok && size->Ok_0 > 0,
{
}

} // verus!
