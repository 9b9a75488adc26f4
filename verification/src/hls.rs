//! Requests of the player for playlists and segments of recordings.
use vstd::prelude::*;
use crate::digits;
use crate::manager::RecorderManagerError;
use crate::platform::PlatformType;
use crate::playlist;
use crate::playlist::{OpenedPlaylist, OpenedView, Playlist};
use crate::text;

verus! {

/// The text that std makes of bytes, with a mark in place of what is no text.
pub uninterp spec fn lossy(bytes: Seq<u8>) -> Seq<char>;

/// `String::from_utf8_lossy`.
#[verifier::external_body]
pub(crate) fn lossy_text(bytes: &[u8]) -> (res: String)
    ensures
        res@ == lossy(bytes@),
{
    String::from_utf8_lossy(bytes).into_owned()
}

/// The path of a request, which is what stands before the first question mark.
pub open spec fn path_of(uri: Seq<char>) -> Seq<char> {
    text::split(uri, '?')[0]
}

/// The parameters of a request, which are what stands between the first two question marks.
pub open spec fn params_of(uri: Seq<char>) -> Seq<char> {
    let parts = text::split(uri, '?');
    if parts.len() > 1 {
        parts[1]
    } else {
        Seq::empty()
    }
}

/// The parameter with a name, where there is one: what stands behind its first sign of equality,
/// where there is one, up to the next.
pub open spec fn param_value(params: Seq<Seq<char>>, name: Seq<char>) -> Option<Option<Seq<char>>>
    decreases params.len(),
{
    if params.len() == 0 {
        None
    } else {
        let parts = text::split(params[0], '=');
        if parts[0] == name {
            Some(
                if parts.len() > 1 {
                    Some(parts[1])
                } else {
                    None
                },
            )
        } else {
            param_value(params.drop_first(), name)
        }
    }
}

/// The second of the recording that a parameter asks for: zero where it is not given, none where
/// it is no number.
pub open spec fn param_second(uri: Seq<char>, name: Seq<char>) -> Option<int> {
    match param_value(text::split(params_of(uri), '&'), name) {
        None => Some(0),
        Some(None) => None,
        Some(Some(v)) => digits::within(digits::signed_value(v), i64::MIN as int, i64::MAX as int),
    }
}

/// Whether a request has the parts that name a recording.
pub open spec fn names_recording(uri: Seq<char>) -> bool {
    text::split(path_of(uri), '/').len() >= 4
}

/// Whether the seconds in a request can be read.
pub open spec fn has_readable_seconds(uri: Seq<char>) -> bool {
    param_second(uri, "start"@) is Some && param_second(uri, "end"@) is Some
}

proof fn lemma_split_some(s: Seq<char>, c: char)
    ensures
        text::split(s, c).len() > 0,
{
}

fn path_text(uri: &str) -> (res: String)
    ensures
        res@ == path_of(uri@),
{
    let parts = text::split_all(uri, '?');
    proof {
        lemma_split_some(uri@, '?');
        assert(parts.deep_view()[0] == parts@[0]@);
    }
    text::copy(parts[0].as_str())
}

fn params_text(uri: &str) -> (res: String)
    ensures
        res@ == params_of(uri@),
{
    let parts = text::split_all(uri, '?');
    if parts.len() > 1 {
        assert(parts.deep_view()[1] == parts@[1]@);
        text::copy(parts[1].as_str())
    } else {
        String::new()
    }
}

fn find_param(params: &Vec<String>, name: &str) -> (res: Option<Option<String>>)
    ensures
        res.deep_view() == param_value(params.deep_view(), name@),
{
    let ghost all = params.deep_view();
    let mut i: usize = 0;
    assert(all.skip(0) =~= all);
    while i < params.len()
        invariant
            i <= params@.len(),
            all == params.deep_view(),
            param_value(all, name@) == param_value(all.skip(i as int), name@),
        decreases params@.len() - i,
    {
        let ghost rest = all.skip(i as int);
        assert(rest[0] == params@[i as int]@);
        assert(rest.drop_first() =~= all.skip(i + 1));
        let parts = text::split_all(params[i].as_str(), '=');
        proof {
            lemma_split_some(rest[0], '=');
            assert(parts.deep_view()[0] == parts@[0]@);
        }
        if text::same(parts[0].as_str(), name) {
            if parts.len() > 1 {
                assert(parts.deep_view()[1] == parts@[1]@);
                return Some(Some(text::copy(parts[1].as_str())));
            }
            return Some(None);
        }
        i += 1;
    }
    assert(all.skip(i as int).len() == 0);
    None
}

fn second(uri: &str, name: &str) -> (res: Option<i64>)
    ensures
        digits::opt_i64(res) == param_second(uri@, name@),
{
    let params = params_text(uri);
    let list = text::split_all(params.as_str(), '&');
    match find_param(&list, name) {
        None => Some(0),
        Some(None) => None,
        Some(Some(v)) => digits::parse_i64(v.as_str()),
    }
}

/// Whether the seconds in a request can be read.
pub fn seconds_are_readable(uri: &str) -> (res: bool)
    ensures
        res == has_readable_seconds(uri@),
{
    second(uri, "start").is_some() && second(uri, "end").is_some()
}

/// What a request asks for.
pub enum HlsRequest {
    /// The playlist of a recording, or of a range of it in seconds.
    Playlist {
        platform: PlatformType,
        room_id: String,
        live_id: String,
        range: Option<(i64, i64)>,
    },
    /// A file.
    Segment { file: String },
}

/// Whether a path is that of a playlist: its last part, behind those that name the recording, is
/// the playlist's name.
pub open spec fn is_playlist_path(path: Seq<char>) -> bool {
    let rest = text::joined(text::split(path, '/').skip(3), "/"@);
    rest == "playlist.m3u8"@ || text::ends(rest, "/playlist.m3u8"@)
}

/// The range that a request asks for: none where both ends are zero.
pub open spec fn asked_range(uri: Seq<char>) -> Option<(int, int)> {
    let start = param_second(uri, "start"@)->0;
    let end = param_second(uri, "end"@)->0;
    if start != 0 || end != 0 {
        Some((start, end))
    } else {
        None
    }
}

/// The file of a segment.
pub open spec fn segment_file(cache_path: Seq<char>, uri: Seq<char>) -> Seq<char> {
    cache_path + "/"@ + text::replaced(path_of(uri), "%7C"@, "|"@)
}

fn rest_of(segs: &Vec<String>) -> (res: String)
    requires
        segs@.len() >= 4,
    ensures
        res@ == text::joined(segs.deep_view().skip(3), "/"@),
{
    let mut rest: Vec<String> = Vec::new();
    let mut i: usize = 3;
    while i < segs.len()
        invariant
            3 <= i <= segs@.len(),
            rest@.len() == i - 3,
            forall|j: int| 0 <= j < i - 3 ==> (#[trigger] rest@[j])@ == segs@[j + 3]@,
        decreases segs@.len() - i,
    {
        rest.push(text::copy(segs[i].as_str()));
        i += 1;
    }
    assert(rest.deep_view() =~= segs.deep_view().skip(3));
    text::join(&rest, "/")
}

/// What a request asks for. A request whose seconds cannot be read is not taken.
pub fn handle_hls_request(cache_path: &str, uri: &str) -> (res: Result<
    HlsRequest,
    RecorderManagerError,
>)
    requires
        names_recording(uri@) ==> has_readable_seconds(uri@),
    ensures
        !names_recording(uri@) ==> (res matches Err(RecorderManagerError::HLSError { err }) && err@
            == "Invalid hls path"@),
        names_recording(uri@) ==> ({
            let segs = text::split(path_of(uri@), '/');
            match PlatformType::named(segs[0]) {
                None => res matches Err(RecorderManagerError::InvalidPlatformType { platform })
                    && platform@ == segs[0],
                Some(p) => if is_playlist_path(path_of(uri@)) {
                    res matches Ok(HlsRequest::Playlist { platform, room_id, live_id, range })
                        && platform == p && room_id@ == segs[1] && live_id@ == segs[2] && (
                    match range {
                        Some((a, b)) => asked_range(uri@) == Some((a as int, b as int)),
                        None => asked_range(uri@) is None,
                    })
                } else {
                    res matches Ok(HlsRequest::Segment { file }) && file@ == segment_file(
                        cache_path@,
                        uri@,
                    )
                },
            }
        }),
{
    let path = path_text(uri);
    let segs = text::split_all(path.as_str(), '/');
    if segs.len() < 4 {
        return Err(RecorderManagerError::HLSError { err: text::copy("Invalid hls path") });
    }
    proof {
        assert(segs.deep_view()[0] == segs@[0]@);
        assert(segs.deep_view()[1] == segs@[1]@);
        assert(segs.deep_view()[2] == segs@[2]@);
    }
    let start = second(uri, "start");
    let end = second(uri, "end");
    let platform = match PlatformType::from_name(segs[0].as_str()) {
        Some(p) => p,
        None => {
            return Err(
                RecorderManagerError::InvalidPlatformType {
                    platform: text::copy(segs[0].as_str()),
                },
            );
        },
    };
    let rest = rest_of(&segs);
    if text::same(rest.as_str(), "playlist.m3u8") || text::ends_with(
        rest.as_str(),
        "/playlist.m3u8",
    ) {
        let range = match (start, end) {
            (Some(a), Some(b)) => if a != 0 || b != 0 {
                Some((a, b))
            } else {
                None
            },
            _ => None,
        };
        Ok(
            HlsRequest::Playlist {
                platform,
                room_id: text::copy(segs[1].as_str()),
                live_id: text::copy(segs[2].as_str()),
                range,
            },
        )
    } else {
        proof {
            reveal_strlit("%7C");
        }
        let mut file = text::copy(cache_path);
        file.append("/");
        let name = text::replace(path.as_str(), "%7C", "|");
        file.append(name.as_str());
        Ok(HlsRequest::Segment { file })
    }
}

/// What a request is answered for a segment that could or could not be read.
pub fn segment_reply(contents: Option<Vec<u8>>) -> (res: Result<Vec<u8>, RecorderManagerError>)
    ensures
        match contents {
            Some(bytes) => res matches Ok(b) && b@ == bytes@,
            None => res matches Err(RecorderManagerError::HLSError { err }) && err@
                == "Segment file not found"@,
        },
{
    match contents {
        Some(bytes) => Ok(bytes),
        None => Err(
            RecorderManagerError::HLSError { err: text::copy("Segment file not found") },
        ),
    }
}

/// A playlist as it is handed out: one whose recording is over is marked as complete.
pub struct LoadedPlaylist {
    pub playlist: Playlist,
    pub mark_complete: bool,
}

/// The playlist of a recording from the contents of its file, where there is one. `outdated` says
/// whether the recording is over.
pub fn load_playlist(bytes: &Option<Vec<u8>>, outdated: bool) -> (res: Result<
    LoadedPlaylist,
    RecorderManagerError,
>)
    ensures
        match bytes {
            None => res matches Err(RecorderManagerError::IoError(e)) && e@
                == "Playlist file not found"@,
            Some(b) => match playlist::parsed_playlist(b@) {
                Some(segments) => res matches Ok(l) && l.playlist.deep_view() == segments
                    && l.mark_complete == outdated,
                None => res matches Err(RecorderManagerError::M3u8ParseFailed { content })
                    && content@ == lossy(b@),
            },
        },
{
    match bytes {
        None => Err(RecorderManagerError::IoError(text::copy("Playlist file not found"))),
        Some(b) => match playlist::read_playlist(b.as_slice()) {
            Some(playlist) => Ok(LoadedPlaylist { playlist, mark_complete: outdated }),
            None => Err(
                RecorderManagerError::M3u8ParseFailed { content: lossy_text(b.as_slice()) },
            ),
        },
    }
}

/// The segments that are wanted, in order. What `wanted` does not reach is not wanted.
pub open spec fn kept(segments: Seq<m3u8_rs::MediaSegment>, wanted: Seq<bool>) -> Seq<
    m3u8_rs::MediaSegment,
>
    decreases segments.len(),
{
    if segments.len() == 0 {
        Seq::empty()
    } else {
        let before = kept(segments.drop_last(), wanted);
        if segments.len() <= wanted.len() && wanted[segments.len() - 1] {
            before.push(segments.last())
        } else {
            before
        }
    }
}

/// A playlist as a player gets it: a selection of its segments, where one is asked for, ends and is
/// a recording that does not change; so does a complete playlist; any other one is as it was.
pub open spec fn served(
    opened: OpenedView,
    complete: bool,
    wanted: Option<Seq<bool>>,
) -> OpenedView {
    let segments = match wanted {
        Some(w) => kept(opened.segments, w),
        None => opened.segments,
    };
    if complete || wanted is Some {
        OpenedView { head: opened.head, segments, end_list: true, kind: Some("VOD"@) }
    } else {
        opened
    }
}

fn keep_segments(segments: Vec<m3u8_rs::MediaSegment>, wanted: &Vec<bool>) -> (res: Vec<
    m3u8_rs::MediaSegment,
>)
    ensures
        res@ == kept(segments@, wanted@),
{
    let ghost all = segments@;
    let ghost goal = kept(all, wanted@);
    let mut left = segments;
    let mut back: Vec<m3u8_rs::MediaSegment> = Vec::new();
    assert(kept(left@, wanted@) + back@.reverse() =~= goal);
    while left.len() > 0
        invariant
            goal == kept(left@, wanted@) + back@.reverse(),
        decreases left@.len(),
    {
        let n = left.len();
        let ghost before = left@;
        let ghost taken = back@;
        if let Some(segment) = left.pop() {
            assert(left@ =~= before.drop_last());
            if n <= wanted.len() && wanted[n - 1] {
                back.push(segment);
                assert(kept(left@, wanted@) + back@.reverse() =~= kept(before, wanted@)
                    + taken.reverse());
            }
        }
    }
    let mut out: Vec<m3u8_rs::MediaSegment> = Vec::new();
    assert(out@ + back@.reverse() =~= goal);
    while back.len() > 0
        invariant
            goal == out@ + back@.reverse(),
        decreases back@.len(),
    {
        let ghost before = back@;
        let ghost given = out@;
        if let Some(segment) = back.pop() {
            out.push(segment);
            assert(out@ + back@.reverse() =~= given + before.reverse());
        }
    }
    assert(out@ =~= goal);
    out
}

/// A playlist as a player gets it.
pub fn serve_playlist(opened: OpenedPlaylist, complete: bool, wanted: &Option<Vec<bool>>) -> (res:
    OpenedPlaylist)
    ensures
        res.deep_view() == served(
            opened.deep_view(),
            complete,
            match wanted {
                Some(w) => Some(w@),
                None => None,
            },
        ),
{
    match wanted {
        Some(w) => OpenedPlaylist {
            head: opened.head,
            segments: keep_segments(opened.segments, w),
            end_list: true,
            kind: Some(text::copy("VOD")),
        },
        None => if complete {
            OpenedPlaylist {
                head: opened.head,
                segments: opened.segments,
                end_list: true,
                kind: Some(text::copy("VOD")),
            }
        } else {
            opened
        },
    }
}

/// The text of a playlist that a player gets, from the bytes of its file: with the end mark where
/// it is complete or where only the wanted segments are asked for. What the text is where one of
/// its segments has a range of dates depends on the order of a hash map, and is not said.
pub fn playlist_reply(bytes: &[u8], complete: bool, wanted: &Option<Vec<bool>>) -> (res: Result<
    Vec<u8>,
    RecorderManagerError,
>)
    ensures
        match playlist::opened_playlist(bytes@) {
            None => res matches Err(RecorderManagerError::M3u8ParseFailed { content }) && content@
                == lossy(bytes@),
            Some(opened) => {
                let reply = served(
                    opened,
                    complete,
                    match wanted {
                        Some(w) => Some(w@),
                        None => None,
                    },
                );
                &&& res is Ok
                &&& playlist::is_undated(reply.segments) ==> res->Ok_0@
                    == playlist::written_playlist(reply)
            },
        },
{
    match playlist::open_playlist(bytes) {
        None => Err(RecorderManagerError::M3u8ParseFailed { content: lossy_text(bytes) }),
        Some(opened) => match playlist::write_playlist(serve_playlist(opened, complete, wanted)) {
            Ok(out) => Ok(out),
            Err(err) => Err(RecorderManagerError::HLSError { err }),
        },
    }
}

proof fn lemma_all_kept(segments: Seq<m3u8_rs::MediaSegment>, wanted: Seq<bool>)
    requires
        segments.len() <= wanted.len(),
        forall|i: int| 0 <= i < segments.len() ==> #[trigger] wanted[i],
    ensures
        kept(segments, wanted) == segments,
    decreases segments.len(),
{
    if segments.len() > 0 {
        lemma_all_kept(segments.drop_last(), wanted);
        assert(segments.drop_last().push(segments.last()) =~= segments);
    } else {
        assert(segments =~= Seq::empty());
    }
}

/// A playlist of which every segment is wanted is the complete playlist, and what is served once is
/// served again as it is.
pub proof fn law_serving_a_complete_playlist(
    opened: OpenedView,
    complete: bool,
    wanted: Seq<bool>,
    asked: Option<Seq<bool>>,
)
    requires
        wanted.len() == opened.segments.len(),
        forall|i: int| 0 <= i < wanted.len() ==> #[trigger] wanted[i],
    ensures
        served(opened, complete, Some(wanted)) == served(opened, true, None),
        served(opened, complete, asked).head == opened.head,
        served(served(opened, complete, asked), complete, None) == served(opened, complete, asked),
        served(opened, false, None) == opened,
{
    lemma_all_kept(opened.segments, wanted);
}

/// The file with the chat of a recording, among those that are there: the old form is read where
/// the new one is missing.
pub fn load_danmus(has_events: bool, has_legacy: bool) -> (res: Option<String>)
    ensures
        res.deep_view() == (if has_events {
            Some("events.jsonl"@)
        } else if has_legacy {
            Some("danmu.txt"@)
        } else {
            None
        }),
{
    if has_events {
        Some(text::copy("events.jsonl"))
    } else if has_legacy {
        Some(text::copy("danmu.txt"))
    } else {
        None
    }
}

/// An address is a path and what is asked of it, with a question mark between them; one without the
/// mark asks nothing.
pub proof fn law_addresses_are_path_and_question(path: Seq<char>, asked: Seq<char>)
    requires
        !path.contains('?'),
        !asked.contains('?'),
    ensures
        path_of(path) == path,
        params_of(path).len() == 0,
        path_of(path + seq!['?'] + asked) == path,
        params_of(path + seq!['?'] + asked) == asked,
{
    text::law_pieces_follow_each_other(path, '?', asked);
    text::law_pieces_follow_each_other(asked, '?', asked);
    assert(seq![path] + seq![asked] =~= seq![path, asked]);
}

/// What is asked under a name is what stands behind the first of that name; what is asked under other
/// names does not count, and a name that is not there asks nothing.
pub proof fn law_questions_are_asked_by_name(
    name: Seq<char>,
    value: Seq<char>,
    other: Seq<char>,
    rest: Seq<Seq<char>>,
)
    requires
        !name.contains('='),
        !value.contains('='),
        !other.contains('='),
        other != name,
    ensures
        param_value(Seq::empty(), name) is None,
        param_value(seq![name + seq!['='] + value] + rest, name) == Some(Some(value)),
        param_value(seq![name] + rest, name) == Some(None::<Seq<char>>),
        param_value(seq![other + seq!['='] + value] + rest, name) == param_value(rest, name),
{
    text::law_pieces_follow_each_other(name, '=', value);
    text::law_pieces_follow_each_other(other, '=', value);
    text::law_pieces_follow_each_other(value, '=', value);
    let a = seq![name + seq!['='] + value] + rest;
    let b = seq![other + seq!['='] + value] + rest;
    let c = seq![name] + rest;
    assert(a[0] == name + seq!['='] + value);
    assert(b[0] == other + seq!['='] + value);
    assert(c[0] == name);
    assert(b.drop_first() =~= rest);
    assert((seq![name] + seq![value])[1] == value);
    assert((seq![name] + seq![value])[0] == name);
    assert((seq![other] + seq![value])[0] == other);
}

/// A range that is asked for in seconds is the one that is served, unless both its ends are zero: then,
/// as where nothing is asked, everything is.
pub proof fn law_the_range_is_the_one_that_is_asked_for(path: Seq<char>, start: int, end: int)
    requires
        !path.contains('?'),
        i64::MIN <= start <= i64::MAX,
        i64::MIN <= end <= i64::MAX,
    ensures
        has_readable_seconds(path),
        asked_range(path) is None,
        ({
            let uri = path + seq!['?'] + ("start"@ + seq!['='] + digits::signed_decimal(start)
                + seq!['&'] + ("end"@ + seq!['='] + digits::signed_decimal(end)));
            &&& has_readable_seconds(uri)
            &&& path_of(uri) == path
            &&& start != 0 || end != 0 ==> asked_range(uri) == Some((start, end))
            &&& start == 0 && end == 0 ==> asked_range(uri) is None
        }),
{
    reveal_strlit("start");
    reveal_strlit("end");
    let s = digits::signed_decimal(start);
    let e = digits::signed_decimal(end);
    lemma_numbers_hold_no_marks(start);
    lemma_numbers_hold_no_marks(end);
    let first = "start"@ + seq!['='] + s;
    let second = "end"@ + seq!['='] + e;
    let asked = first + seq!['&'] + second;
    assert forall|i: int| 0 <= i < first.len() implies first[i] != '?' && first[i] != '&' by {
        if i > 5 {
            assert(first[i] == s[i - 6]);
            assert(s.contains(s[i - 6]));
        }
    }
    assert forall|i: int| 0 <= i < second.len() implies second[i] != '?' && second[i] != '&' by {
        if i > 3 {
            assert(second[i] == e[i - 4]);
            assert(e.contains(e[i - 4]));
        }
    }
    assert forall|i: int| 0 <= i < asked.len() implies asked[i] != '?' by {
        if i < first.len() {
            assert(asked[i] == first[i]);
        } else if i > first.len() {
            assert(asked[i] == second[i - first.len() - 1]);
        }
    }
    law_addresses_are_path_and_question(path, asked);
    text::law_pieces_follow_each_other(first, '&', second);
    text::law_pieces_follow_each_other(second, '&', second);
    let params = seq![first] + seq![second];
    assert(text::split(asked, '&') == params);
    law_questions_are_asked_by_name("start"@, s, "end"@, seq![second]);
    law_questions_are_asked_by_name("end"@, e, "start"@, Seq::empty());
    law_questions_are_asked_by_name("end"@, s, "start"@, seq![second]);
    assert(seq![second] + Seq::<Seq<char>>::empty() =~= seq![second]);
    digits::law_written_numbers_are_read_back(start);
    digits::law_written_numbers_are_read_back(end);
    assert(param_second(path + seq!['?'] + asked, "start"@) == Some(start));
    assert(param_second(path + seq!['?'] + asked, "end"@) == Some(end));
    let none = Seq::<char>::empty();
    text::law_pieces_follow_each_other(none, '&', none);
    text::law_pieces_follow_each_other(none, '=', none);
    reveal_with_fuel(param_value, 2);
    assert(params_of(path) =~= none);
    assert(seq![none].drop_first() =~= Seq::<Seq<char>>::empty());
    assert(param_value(seq![none], "start"@) is None);
    assert(param_value(seq![none], "end"@) is None);
}

proof fn lemma_numbers_hold_no_marks(n: int)
    ensures
        !digits::signed_decimal(n).contains('?'),
        !digits::signed_decimal(n).contains('&'),
        !digits::signed_decimal(n).contains('='),
{
    let m = if n < 0 {
        (-n) as nat
    } else {
        n as nat
    };
    digits::lemma_decimal(m);
    let s = digits::signed_decimal(n);
    assert forall|i: int| 0 <= i < s.len() implies s[i] != '?' && s[i] != '&' && s[i] != '=' by {
        if n >= 0 {
            assert(digits::is_digit(digits::decimal(m)[i]));
        } else if i > 0 {
            assert(s[i] == digits::decimal(m)[i - 1]);
            assert(digits::is_digit(digits::decimal(m)[i - 1]));
        }
    }
}

/// A path names a recording where it has three parts and something behind them, and asks for its
/// playlist exactly where that is the playlist's name, alone or as the last part of more.
pub proof fn law_playlists_are_asked_for_by_path(
    a: Seq<char>,
    b: Seq<char>,
    c: Seq<char>,
    rest: Seq<char>,
)
    requires
        !a.contains('/'),
        !b.contains('/'),
        !c.contains('/'),
        !a.contains('?'),
        !b.contains('?'),
        !c.contains('?'),
        !rest.contains('?'),
    ensures
        ({
            let path = a + seq!['/'] + (b + seq!['/'] + (c + seq!['/'] + rest));
            &&& names_recording(path)
            &&& is_playlist_path(path) <==> rest == "playlist.m3u8"@ || text::ends(
                rest,
                "/playlist.m3u8"@,
            )
        }),
        !names_recording(a + seq!['/'] + (b + seq!['/'] + c)),
{
    reveal_strlit("/");
    assert("/"@ =~= seq!['/']);
    let inner = c + seq!['/'] + rest;
    let middle = b + seq!['/'] + inner;
    let path = a + seq!['/'] + middle;
    text::law_pieces_follow_each_other(a, '/', middle);
    text::law_pieces_follow_each_other(b, '/', inner);
    text::law_pieces_follow_each_other(c, '/', rest);
    text::law_pieces_make_up_the_text(rest, '/');
    assert(text::split(path, '/') == seq![a] + (seq![b] + (seq![c] + text::split(rest, '/'))));
    assert((seq![a] + (seq![b] + (seq![c] + text::split(rest, '/')))).skip(3) =~= text::split(
        rest,
        '/',
    ));
    let short = b + seq!['/'] + c;
    text::law_pieces_follow_each_other(a, '/', short);
    text::law_pieces_follow_each_other(b, '/', c);
    assert forall|i: int| 0 <= i < path.len() implies path[i] != '?' by {
        if i < a.len() {
            assert(path[i] == a[i] && a.contains(a[i]));
        } else if i > a.len() && i < a.len() + 1 + b.len() {
            let k = i - a.len() - 1;
            assert(path[i] == b[k] && b.contains(b[k]));
        } else if i > a.len() + 1 + b.len() && i < a.len() + b.len() + c.len() + 2 {
            let k = i - a.len() - b.len() - 2;
            assert(path[i] == c[k] && c.contains(c[k]));
        } else if i > a.len() + b.len() + c.len() + 2 {
            let k = i - a.len() - b.len() - c.len() - 3;
            assert(path[i] == rest[k] && rest.contains(rest[k]));
        }
    }
    let less = a + seq!['/'] + short;
    assert forall|i: int| 0 <= i < less.len() implies less[i] != '?' by {
        if i < a.len() {
            assert(less[i] == a[i] && a.contains(a[i]));
        } else if i > a.len() && i < a.len() + 1 + b.len() {
            let k = i - a.len() - 1;
            assert(less[i] == b[k] && b.contains(b[k]));
        } else if i > a.len() + 1 + b.len() {
            let k = i - a.len() - b.len() - 2;
            assert(less[i] == c[k] && c.contains(c[k]));
        }
    }
    law_addresses_are_path_and_question(path, Seq::empty());
    law_addresses_are_path_and_question(less, Seq::empty());
}

/// A segment stands below the cache under the path that is asked for, whatever is asked besides, with
/// the code of a bar read as one.
pub proof fn law_segments_stand_under_their_path(
    cache_path: Seq<char>,
    path: Seq<char>,
    asked: Seq<char>,
    more: Seq<char>,
)
    requires
        !path.contains('?'),
        !asked.contains('?'),
        !more.contains('?'),
        !text::occurs(path, "%7C"@),
        !text::occurs(more, "%7C"@),
        forall|i: int| 0 <= i < path.len() ==> !text::occurs_at(path + "%7C"@ + more, "%7C"@, i),
    ensures
        segment_file(cache_path, path) == cache_path + "/"@ + path,
        segment_file(cache_path, path + seq!['?'] + asked) == cache_path + "/"@ + path,
        segment_file(cache_path, path + "%7C"@ + more) == cache_path + "/"@ + (path + "|"@ + more),
{
    reveal_strlit("%7C");
    law_addresses_are_path_and_question(path, asked);
    text::law_every_occurrence_is_replaced(path, "%7C"@, more, "|"@);
    text::law_every_occurrence_is_replaced(more, "%7C"@, more, "|"@);
    let coded = path + "%7C"@ + more;
    assert forall|i: int| 0 <= i < coded.len() implies coded[i] != '?' by {
        if i < path.len() {
            assert(coded[i] == path[i] && path.contains(path[i]));
        } else if i >= path.len() + 3 {
            let k = i - path.len() - 3;
            assert(coded[i] == more[k] && more.contains(more[k]));
        }
    }
    law_addresses_are_path_and_question(coded, asked);
}

/// The segments that are wanted stay, in order, and the others go.
pub proof fn law_wanted_segments_are_kept(
    a: Seq<m3u8_rs::MediaSegment>,
    b: Seq<m3u8_rs::MediaSegment>,
    wanted: Seq<bool>,
)
    requires
        wanted.len() == a.len() + b.len(),
    ensures
        kept(a + b, wanted) == kept(a, wanted) + kept(b, wanted.skip(a.len() as int)),
        a.len() == 0 ==> kept(a, wanted).len() == 0,
        a.len() == 1 && wanted[0] ==> kept(a, wanted) == a,
        a.len() == 1 && !wanted[0] ==> kept(a, wanted).len() == 0,
    decreases b.len(),
{
    reveal_with_fuel(kept, 2);
    if b.len() == 0 {
        assert(a + b =~= a);
    } else {
        let less = wanted.drop_last();
        law_wanted_segments_are_kept(a, b.drop_last(), less);
        assert((a + b).drop_last() =~= a + b.drop_last());
        lemma_more_is_wanted(a, less, wanted);
        lemma_more_is_wanted(a + b.drop_last(), less, wanted);
        lemma_more_is_wanted(b.drop_last(), less.skip(a.len() as int), wanted.skip(a.len() as int));
    }
}

proof fn lemma_more_is_wanted(
    segments: Seq<m3u8_rs::MediaSegment>,
    x: Seq<bool>,
    y: Seq<bool>,
)
    requires
        segments.len() <= x.len(),
        segments.len() <= y.len(),
        forall|i: int| 0 <= i < segments.len() ==> x[i] == y[i],
    ensures
        kept(segments, x) == kept(segments, y),
    decreases segments.len(),
{
    if segments.len() > 0 {
        lemma_more_is_wanted(segments.drop_last(), x, y);
    }
}

/// A playlist is served as one that has ended where its recording is complete or a range of it is
/// asked for; while it is recorded, all of it is served as it stands.
pub proof fn law_playlists_end_when_they_are_complete(
    opened: OpenedView,
    complete: bool,
    wanted: Option<Seq<bool>>,
)
    ensures
        complete || wanted is Some ==> served(opened, complete, wanted).end_list && served(
            opened,
            complete,
            wanted,
        ).kind == Some("VOD"@),
        !complete && wanted is None ==> served(opened, complete, wanted) == opened,
        wanted is None ==> served(opened, complete, wanted).segments == opened.segments,
        wanted is Some ==> served(opened, complete, wanted).segments == kept(
            opened.segments,
            wanted->0,
        ),
        served(opened, complete, wanted).head == opened.head,
{
}

/// A request is answered for what its path names: the playlist of a recording on a platform, of a room,
/// with the range that is asked for, or one of its files. A path that names no recording, or no
/// platform, is refused.
pub proof fn law_requests_are_answered_for_what_they_name(
    cache_path: &str,
    uri: &str,
    platform: PlatformType,
    room_id: Seq<char>,
    live_id: Seq<char>,
    rest: Seq<char>,
    res: Result<HlsRequest, RecorderManagerError>,
)
    requires
        call_ensures(handle_hls_request, (cache_path, uri), res),
        uri@ == platform.name() + seq!['/'] + (room_id + seq!['/'] + (live_id + seq!['/'] + rest)),
        !room_id.contains('/') && !room_id.contains('?'),
        !live_id.contains('/') && !live_id.contains('?'),
        !rest.contains('?'),
    ensures
        res is Ok,
        rest == "playlist.m3u8"@ ==> (res matches Ok(
            HlsRequest::Playlist { platform: p, room_id: r, live_id: l, range },
        ) && p == platform && r@ == room_id && l@ == live_id && range is None),
        rest != "playlist.m3u8"@ && !text::ends(rest, "/playlist.m3u8"@) ==> (res matches Ok(
            HlsRequest::Segment { file },
        ) && file@ == segment_file(cache_path@, uri@)),
{
    lemma_names_hold_no_slash(platform);
    law_playlists_are_asked_for_by_path(platform.name(), room_id, live_id, rest);
    let name = platform.name();
    let inner = live_id + seq!['/'] + rest;
    let middle = room_id + seq!['/'] + inner;
    text::law_pieces_follow_each_other(name, '/', middle);
    text::law_pieces_follow_each_other(room_id, '/', inner);
    text::law_pieces_follow_each_other(live_id, '/', rest);
    let pieces = seq![name] + (seq![room_id] + (seq![live_id] + text::split(rest, '/')));
    assert(text::split(uri@, '/') == pieces);
    assert(pieces[0] == name && pieces[1] == room_id && pieces[2] == live_id);
    lemma_no_question(uri@, name, room_id, live_id, rest);
    law_addresses_are_path_and_question(uri@, Seq::empty());
    law_the_range_is_the_one_that_is_asked_for(uri@, 0, 0);
    platform.law_names_round_trip();
}

proof fn lemma_no_question(
    uri: Seq<char>,
    a: Seq<char>,
    b: Seq<char>,
    c: Seq<char>,
    rest: Seq<char>,
)
    requires
        uri == a + seq!['/'] + (b + seq!['/'] + (c + seq!['/'] + rest)),
        !a.contains('?'),
        !b.contains('?'),
        !c.contains('?'),
        !rest.contains('?'),
    ensures
        !uri.contains('?'),
{
    assert forall|i: int| 0 <= i < uri.len() implies uri[i] != '?' by {
        if i < a.len() {
            assert(uri[i] == a[i] && a.contains(a[i]));
        } else if i > a.len() && i < a.len() + 1 + b.len() {
            let k = i - a.len() - 1;
            assert(uri[i] == b[k] && b.contains(b[k]));
        } else if i > a.len() + 1 + b.len() && i < a.len() + b.len() + c.len() + 2 {
            let k = i - a.len() - b.len() - 2;
            assert(uri[i] == c[k] && c.contains(c[k]));
        } else if i > a.len() + b.len() + c.len() + 2 {
            let k = i - a.len() - b.len() - c.len() - 3;
            assert(uri[i] == rest[k] && rest.contains(rest[k]));
        }
    }
}

proof fn lemma_names_hold_no_slash(platform: PlatformType)
    ensures
        !platform.name().contains('/'),
        !platform.name().contains('?'),
{
    reveal_strlit("bilibili");
    reveal_strlit("douyin");
    reveal_strlit("huya");
    reveal_strlit("kuaishou");
    reveal_strlit("tiktok");
    reveal_strlit("xiaohongshu");
    reveal_strlit("weibo");
    reveal_strlit("youtube");
    let name = platform.name();
    assert forall|i: int| 0 <= i < name.len() implies name[i] != '/' && name[i] != '?' by {}
}

/// A range can be read only where both its ends can: one that is asked for with something that is no
/// number is not.
pub proof fn law_unreadable_seconds_are_noticed(path: Seq<char>, value: Seq<char>)
    requires
        !path.contains('?'),
        !value.contains('?') && !value.contains('&') && !value.contains('='),
        digits::signed_value(value) is None,
    ensures
        !has_readable_seconds(path + seq!['?'] + ("start"@ + seq!['='] + value)),
        !has_readable_seconds(path + seq!['?'] + ("end"@ + seq!['='] + value)),
{
    reveal_strlit("start");
    reveal_strlit("end");
    let first = "start"@ + seq!['='] + value;
    let second = "end"@ + seq!['='] + value;
    assert forall|i: int| 0 <= i < first.len() implies first[i] != '?' && first[i] != '&' by {
        if i > 5 {
            assert(first[i] == value[i - 6] && value.contains(value[i - 6]));
        }
    }
    assert forall|i: int| 0 <= i < second.len() implies second[i] != '?' && second[i] != '&' by {
        if i > 3 {
            assert(second[i] == value[i - 4] && value.contains(value[i - 4]));
        }
    }
    law_addresses_are_path_and_question(path, first);
    law_addresses_are_path_and_question(path, second);
    text::law_pieces_follow_each_other(first, '&', first);
    text::law_pieces_follow_each_other(second, '&', second);
    law_questions_are_asked_by_name("start"@, value, "end"@, Seq::empty());
    law_questions_are_asked_by_name("end"@, value, "start"@, Seq::empty());
    assert(seq![first] + Seq::<Seq<char>>::empty() =~= seq![first]);
    assert(seq![second] + Seq::<Seq<char>>::empty() =~= seq![second]);
}

/// A playlist is loaded where its file is there and can be read; it is marked complete where it is
/// outdated. Chat is read from the file of events first, and from the old one only without it.
pub proof fn law_playlists_are_loaded_where_they_can_be_read(
    bytes: &Option<Vec<u8>>,
    outdated: bool,
    loaded: Result<LoadedPlaylist, RecorderManagerError>,
    has_events: bool,
    has_legacy: bool,
    chat: Option<String>,
)
    requires
        call_ensures(load_playlist, (bytes, outdated), loaded),
        call_ensures(load_danmus, (has_events, has_legacy), chat),
    ensures
        loaded is Ok <==> bytes is Some && playlist::parsed_playlist(bytes->0@) is Some,
        loaded is Ok ==> (loaded->Ok_0.mark_complete <==> outdated)
            && loaded->Ok_0.playlist.deep_view() == playlist::parsed_playlist(bytes->0@)->0,
        chat is Some <==> has_events || has_legacy,
        has_events ==> chat->0@ == "events.jsonl"@,
        !has_events && has_legacy ==> chat->0@ == "danmu.txt"@,
{
    assert(chat.deep_view() is Some <==> chat is Some);
}

/// A playlist is answered exactly where it can be read.
pub proof fn law_playlists_are_answered_where_they_can_be_read(
    bytes: &[u8],
    complete: bool,
    wanted: &Option<Vec<bool>>,
    res: Result<Vec<u8>, RecorderManagerError>,
)
    requires
        call_ensures(playlist_reply, (bytes, complete, wanted), res),
    ensures
        res is Ok <==> playlist::opened_playlist(bytes@) is Some,
        res is Ok && !complete && wanted is None && playlist::is_undated(
            playlist::opened_playlist(bytes@)->0.segments,
        ) ==> res->Ok_0@ == playlist::written_playlist(playlist::opened_playlist(bytes@)->0),
{
}

} // verus!
