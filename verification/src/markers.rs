//! Session markers: the files by which a recorder finds an interrupted live session again.
use vstd::prelude::*;
use vstd::utf8::*;
use crate::digits;
use crate::paths;
use crate::platform::{PlatformType, RecorderError};
use crate::sorting;
use crate::text;
use crate::wire;

verus! {

/// The file that names the session which a room is recording.
pub const DOUYIN_ACTIVE_SESSION_FILE: &'static str = ".active-session";

/// The file that a new session name is written to before it takes the place of the old one.
pub const DOUYIN_ACTIVE_SESSION_TEMPORARY_FILE: &'static str = ".active-session.tmp";

/// The directory of sessions that ended and are not exported yet.
pub const DOUYIN_PENDING_LIVE_ENDS_DIR: &'static str = ".pending-live-ends";

/// The file in a recording that names the session it belongs to.
pub const DOUYIN_SESSION_PARENT_FILE: &'static str = ".session-parent";

/// The directory of a room.
pub open spec fn room_dir(cache_dir: Seq<char>, room_id: Seq<char>, windows: bool) -> Seq<char> {
    paths::joined_path(
        paths::joined_path(cache_dir, PlatformType::Douyin.name(), windows),
        room_id,
        windows,
    )
}

/// The directory of a room.
pub fn room_path(cache_dir: &str, room_id: &str, windows: bool) -> (res: String)
    ensures
        res@ == room_dir(cache_dir@, room_id@, windows),
{
    let platform_dir = paths::join(cache_dir, PlatformType::Douyin.as_str(), windows);
    paths::join(platform_dir.as_str(), room_id, windows)
}

/// The file that names the session which a room is recording.
pub open spec fn active_marker(cache_dir: Seq<char>, room_id: Seq<char>, windows: bool) -> Seq<
    char,
> {
    paths::joined_path(
        room_dir(cache_dir, room_id, windows),
        DOUYIN_ACTIVE_SESSION_FILE@,
        windows,
    )
}

/// The file that names the session which a room is recording.
pub fn active_session_path(cache_dir: &str, room_id: &str, windows: bool) -> (res: String)
    ensures
        res@ == active_marker(cache_dir@, room_id@, windows),
{
    let room = room_path(cache_dir, room_id, windows);
    paths::join(room.as_str(), DOUYIN_ACTIVE_SESSION_FILE, windows)
}

/// The file that a new session name is written to first.
pub fn active_session_temporary_path(cache_dir: &str, room_id: &str, windows: bool) -> (res: String)
    ensures
        res@ == paths::joined_path(
            room_dir(cache_dir@, room_id@, windows),
            DOUYIN_ACTIVE_SESSION_TEMPORARY_FILE@,
            windows,
        ),
{
    let room = room_path(cache_dir, room_id, windows);
    paths::join(room.as_str(), DOUYIN_ACTIVE_SESSION_TEMPORARY_FILE, windows)
}

/// The directory of a room's sessions that ended and are not exported yet.
pub fn pending_live_ends_path(cache_dir: &str, room_id: &str, windows: bool) -> (res: String)
    ensures
        res@ == paths::joined_path(
            room_dir(cache_dir@, room_id@, windows),
            DOUYIN_PENDING_LIVE_ENDS_DIR@,
            windows,
        ),
{
    let room = room_path(cache_dir, room_id, windows);
    paths::join(room.as_str(), DOUYIN_PENDING_LIVE_ENDS_DIR, windows)
}

/// The file name of a session's marker: its bytes in hexadecimal.
pub open spec fn marker_name(session_id: Seq<char>) -> Seq<char> {
    digits::hex(encode_utf8(session_id))
}

fn hex_char(d: u8) -> (res: char)
    requires
        d < 16,
    ensures
        res == digits::hex_digit(d as int),
{
    if d < 10 {
        (48u8 + d) as char
    } else {
        (97u8 + (d - 10)) as char
    }
}

/// A text's bytes in hexadecimal.
pub fn hex_name(s: &str) -> (res: String)
    ensures
        res@ == marker_name(s@),
{
    let bytes = wire::bytes_of(s);
    let mut out = String::new();
    let ghost all = digits::hex(bytes@);
    let mut i: usize = 0;
    assert(out@ =~= all.take(0));
    while i < bytes.len()
        invariant
            i <= bytes@.len(),
            all == digits::hex(bytes@),
            out@ == all.take(2 * i),
        decreases bytes@.len() - i,
    {
        let b = bytes[i];
        assert(all[2 * i] == digits::hex_digit(b as int / 16));
        assert(all[2 * i + 1] == digits::hex_digit(b as int % 16));
        out.push(hex_char(b / 16));
        out.push(hex_char(b % 16));
        i += 1;
        assert(out@ =~= all.take(2 * i));
    }
    assert(all.take(2 * i) =~= all);
    out
}

/// The file name of a session's marker.
pub fn encode_session_marker_name(session_id: &str) -> (res: String)
    ensures
        res@ == marker_name(session_id@),
{
    hex_name(session_id)
}

/// The session that a marker's file name stands for.
pub open spec fn marked_session(name: Seq<char>) -> Option<Seq<char>> {
    if name.len() > 0 && digits::is_hex(name) && valid_utf8(digits::unhex(name)) && decode_utf8(
        digits::unhex(name),
    ).len() > 0 {
        Some(decode_utf8(digits::unhex(name)))
    } else {
        None
    }
}

/// The session that a marker's file name stands for, if it is the name of a marker.
pub fn decode_session_marker_name(encoded: &str) -> (res: Option<String>)
    ensures
        res.deep_view() == marked_session(encoded@),
{
    if text::is_empty(encoded) {
        return None;
    }
    match digits::parse_hex(encoded) {
        Some(bytes) => match text::string_from_utf8(bytes) {
            Some(s) => if text::is_empty(s.as_str()) {
                None
            } else {
                Some(s)
            },
            None => None,
        },
        None => None,
    }
}

/// A marker's file name stands for the session it was made from.
pub proof fn law_marker_names_round_trip(session_id: Seq<char>)
    requires
        session_id.len() > 0,
    ensures
        marked_session(marker_name(session_id)) == Some(session_id),
{
    let bytes = encode_utf8(session_id);
    digits::lemma_unhex_hex(bytes);
    encode_utf8_valid_utf8(session_id);
    encode_utf8_decode_utf8(session_id);
    if bytes.len() == 0 {
        assert(decode_utf8(bytes) =~= Seq::<char>::empty());
    }
}

/// Different sessions have different markers.
pub proof fn law_marker_names_are_unique(a: Seq<char>, b: Seq<char>)
    requires
        marker_name(a) == marker_name(b),
    ensures
        a == b,
{
    digits::lemma_unhex_hex(encode_utf8(a));
    digits::lemma_unhex_hex(encode_utf8(b));
    encode_utf8_decode_utf8(a);
    encode_utf8_decode_utf8(b);
}

/// The name of a session's marker is a single name.
pub proof fn lemma_marker_is_simple(session_id: Seq<char>)
    ensures
        session_id.len() > 0 ==> paths::is_simple_name(marker_name(session_id)),
        session_id.len() == 0 ==> marker_name(session_id) == Seq::<char>::empty(),
{
    let name = marker_name(session_id);
    digits::lemma_hex_chars(encode_utf8(session_id));
    assert forall|i: int| 0 <= i < name.len() implies (#[trigger] name[i]) != '/' && name[i] != '\\'
        && name[i] != ':' && name[i] != '.' by {
        assert(digits::is_digit(name[i]) || 'a' <= name[i] <= 'f');
    }
    if session_id.len() > 0 {
        law_marker_names_round_trip(session_id);
        reveal_strlit(".");
        reveal_strlit("..");
        assert(name[0] != '.');
    } else {
        assert(name =~= Seq::<char>::empty());
    }
}

/// A marker's file name is made of hexadecimal digits, so it stays within its directory whatever
/// the session is called.
pub proof fn law_marker_names_stay_in_their_directory(
    dir: Seq<char>,
    session_id: Seq<char>,
    windows: bool,
)
    requires
        session_id.len() > 0,
    ensures
        paths::is_simple_name(marker_name(session_id)),
        paths::joined_path(dir, marker_name(session_id), windows) == paths::join_head(dir, windows)
            + marker_name(session_id),
{
    lemma_marker_is_simple(session_id);
    paths::lemma_join_name(dir, marker_name(session_id), windows);
}

/// The marker of a session that ended and is not exported yet.
pub open spec fn pending_marker(
    cache_dir: Seq<char>,
    room_id: Seq<char>,
    session_id: Seq<char>,
    windows: bool,
) -> Seq<char> {
    paths::joined_path(
        paths::joined_path(
            room_dir(cache_dir, room_id, windows),
            DOUYIN_PENDING_LIVE_ENDS_DIR@,
            windows,
        ),
        marker_name(session_id),
        windows,
    )
}

/// The marker of a session that ended and is not exported yet.
pub fn pending_marker_path(cache_dir: &str, room_id: &str, session_id: &str, windows: bool) -> (res:
    String)
    ensures
        res@ == pending_marker(cache_dir@, room_id@, session_id@, windows),
{
    let dir = pending_live_ends_path(cache_dir, room_id, windows);
    let name = encode_session_marker_name(session_id);
    paths::join(dir.as_str(), name.as_str(), windows)
}

/// The sessions that marker names stand for, in the order of the names.
pub open spec fn marked_sessions(names: Seq<Seq<char>>) -> Seq<Seq<char>>
    decreases names.len(),
{
    if names.len() == 0 {
        Seq::empty()
    } else {
        let before = marked_sessions(names.drop_last());
        match marked_session(names.last()) {
            Some(s) => before.push(s),
            None => before,
        }
    }
}

/// Whether every session's name is a number.
pub open spec fn all_numbers(sessions: Seq<Seq<char>>) -> bool {
    forall|i: int|
        0 <= i < sessions.len() ==> digits::within(
            digits::unsigned_value(#[trigger] sessions[i]),
            0,
            u128::MAX as int,
        ) is Some
}

/// Sessions in order: by number where each is one, else by name; each once.
pub open spec fn ordered_sessions(sessions: Seq<Seq<char>>) -> Seq<Seq<char>> {
    sorting::without_repeats(
        sorting::stable_sorted(
            sessions,
            if all_numbers(sessions) {
                sorting::number_order()
            } else {
                sorting::text_order()
            },
        ),
    )
}

/// The pending sessions of a room in order, from the file names in its directory of markers.
pub fn pending_sessions(names: &Vec<String>) -> (res: Vec<String>)
    ensures
        res.deep_view() == ordered_sessions(marked_sessions(names.deep_view())),
{
    let mut sessions: Vec<String> = Vec::new();
    let ghost all = names.deep_view();
    let mut i: usize = 0;
    assert(all.take(0) =~= Seq::empty());
    assert(sessions.deep_view() =~= Seq::<Seq<char>>::empty());
    while i < names.len()
        invariant
            i <= names@.len(),
            all == names.deep_view(),
            sessions.deep_view() == marked_sessions(all.take(i as int)),
        decreases names@.len() - i,
    {
        let ghost next = all.take(i + 1);
        assert(next.drop_last() =~= all.take(i as int));
        assert(next.last() == names@[i as int]@);
        let ghost before = sessions.deep_view();
        if let Some(session) = decode_session_marker_name(names[i].as_str()) {
            sessions.push(session);
            assert(sessions.deep_view() =~= before.push(session@));
        }
        i += 1;
    }
    assert(all.take(i as int) =~= all);
    let ghost found = sessions.deep_view();
    let mut numeric: bool = true;
    let mut k: usize = 0;
    while k < sessions.len() && numeric
        invariant
            k <= sessions@.len(),
            found == sessions.deep_view(),
            numeric ==> forall|j: int|
                0 <= j < k ==> digits::within(
                    digits::unsigned_value(#[trigger] found[j]),
                    0,
                    u128::MAX as int,
                ) is Some,
            !numeric ==> !all_numbers(found),
        decreases sessions@.len() - k,
    {
        assert(found[k as int] == sessions@[k as int]@);
        if digits::parse_u128(sessions[k].as_str()).is_none() {
            numeric = false;
            assert(digits::within(
                digits::unsigned_value(found[k as int]),
                0,
                u128::MAX as int,
            ) is None);
        }
        k += 1;
    }
    assert(numeric == all_numbers(found));
    let sorted = if numeric {
        sorting::sort_by_number(&sessions)
    } else {
        sorting::sort_texts(&sessions)
    };
    sorting::drop_repeats(&sorted)
}

proof fn lemma_marked_sessions(names: Seq<Seq<char>>, s: Seq<char>)
    ensures
        marked_sessions(names).contains(s) <==> exists|i: int|
            0 <= i < names.len() && #[trigger] marked_session(names[i]) == Some(s),
    decreases names.len(),
{
    if names.len() > 0 {
        let init = names.drop_last();
        lemma_marked_sessions(init, s);
        let before = marked_sessions(init);
        let out = marked_sessions(names);
        if out.contains(s) {
            let k = choose|k: int| 0 <= k < out.len() && out[k] == s;
            if k < before.len() {
                assert(before[k] == s);
                let i = choose|i: int|
                    0 <= i < init.len() && #[trigger] marked_session(init[i]) == Some(s);
                assert(marked_session(names[i]) == Some(s));
            } else {
                assert(marked_session(names[names.len() - 1]) == Some(s));
            }
        }
        if exists|i: int| 0 <= i < names.len() && #[trigger] marked_session(names[i]) == Some(s) {
            let i = choose|i: int|
                0 <= i < names.len() && #[trigger] marked_session(names[i]) == Some(s);
            if i < names.len() - 1 {
                assert(marked_session(init[i]) == Some(s));
                let k = choose|k: int| 0 <= k < before.len() && before[k] == s;
                assert(out[k] == s);
            } else {
                assert(out[out.len() - 1] == s);
            }
        }
    }
}

proof fn lemma_same_items(a: Seq<Seq<char>>, b: Seq<Seq<char>>, s: Seq<char>)
    requires
        a.to_multiset() == b.to_multiset(),
    ensures
        a.contains(s) <==> b.contains(s),
{
    broadcast use vstd::seq_lib::group_to_multiset_ensures;

    assert(a.contains(s) <==> a.to_multiset().count(s) > 0);
    assert(b.contains(s) <==> b.to_multiset().count(s) > 0);
}

/// Every session with a marker is found, and nothing else is.
pub proof fn law_pending_sessions_are_those_with_markers(names: Seq<Seq<char>>, s: Seq<char>)
    ensures
        ordered_sessions(marked_sessions(names)).contains(s) <==> exists|i: int|
            0 <= i < names.len() && #[trigger] marked_session(names[i]) == Some(s),
{
    let found = marked_sessions(names);
    let le = if all_numbers(found) {
        sorting::number_order()
    } else {
        sorting::text_order()
    };
    sorting::lemma_text_order();
    sorting::lemma_stable_sorted(found, le);
    let sorted = sorting::stable_sorted(found, le);
    sorting::lemma_without_repeats(sorted);
    lemma_same_items(sorted, found, s);
    lemma_marked_sessions(names, s);
}

/// A session that was marked is among the pending sessions of the room.
pub proof fn law_a_marked_session_is_pending(names: Seq<Seq<char>>, session_id: Seq<char>, i: int)
    requires
        session_id.len() > 0,
        0 <= i < names.len(),
        names[i] == marker_name(session_id),
    ensures
        ordered_sessions(marked_sessions(names)).contains(session_id),
{
    law_marker_names_round_trip(session_id);
    law_pending_sessions_are_those_with_markers(names, session_id);
    assert(marked_session(names[i]) == Some(session_id));
}

/// The session that an active-session marker names; a missing marker names none.
pub open spec fn named_session(contents: Option<Seq<char>>) -> Seq<char> {
    match contents {
        Some(s) => text::trimmed(s),
        None => Seq::empty(),
    }
}

/// The session that an active-session marker names.
pub fn active_session(contents: &Option<String>) -> (res: String)
    ensures
        res@ == named_session(contents.deep_view()),
{
    match contents {
        Some(s) => text::trim(s.as_str()),
        None => String::new(),
    }
}

/// Whether an active-session marker is removed on behalf of a session: only where it names that
/// session, so a newer one is never lost.
pub fn clears_active_session(contents: &Option<String>, session_id: &str) -> (res: bool)
    ensures
        res == (contents is Some && named_session(contents.deep_view()) == session_id@),
{
    match contents {
        Some(s) => {
            let current = text::trim(s.as_str());
            text::same(current.as_str(), session_id)
        },
        None => false,
    }
}

/// What a recorder does about the marker of the session it records.
pub enum ActiveMarkerWrite {
    Refuse,
    Keep,
    Replace,
}

/// What a recorder does about the marker of the session it records: a marker that names the
/// session is kept, anything else is replaced, and an empty session is refused.
pub fn active_marker_write(contents: &Option<String>, session_id: &str) -> (res: ActiveMarkerWrite)
    ensures
        res == (if session_id@.len() == 0 {
            ActiveMarkerWrite::Refuse
        } else if contents is Some && named_session(contents.deep_view()) == session_id@ {
            ActiveMarkerWrite::Keep
        } else {
            ActiveMarkerWrite::Replace
        }),
{
    if text::is_empty(session_id) {
        ActiveMarkerWrite::Refuse
    } else if clears_active_session(contents, session_id) {
        ActiveMarkerWrite::Keep
    } else {
        ActiveMarkerWrite::Replace
    }
}

/// Whether a marker can stand for a session: an empty session has none.
pub fn can_mark(session_id: &str) -> (res: bool)
    ensures
        res == (session_id@.len() > 0),
{
    !text::is_empty(session_id)
}

/// What came of removing a file.
pub enum Removal {
    Removed,
    Missing,
    Failed,
}

/// The marker that is removed when a session's end is acknowledged; an empty session has none.
pub fn acknowledge_live_end(
    cache_dir: &str,
    room_id: &str,
    session_id: &str,
    windows: bool,
) -> (res: Option<String>)
    ensures
        res.deep_view() == (if session_id@.len() > 0 {
            Some(pending_marker(cache_dir@, room_id@, session_id@, windows))
        } else {
            None
        }),
{
    if text::is_empty(session_id) {
        None
    } else {
        Some(pending_marker_path(cache_dir, room_id, session_id, windows))
    }
}

/// Whether a session's end counts as acknowledged: its marker is gone, however it went. An empty
/// session is never acknowledged.
pub open spec fn is_acknowledged(session_id: Seq<char>, removal: Removal) -> bool {
    session_id.len() > 0 && !(removal is Failed)
}

/// Whether removing a file, as it came out, turns the files `before` into the files `after`: a file
/// that was there is gone, and nothing else has changed.
pub open spec fn is_removal(
    before: Set<Seq<char>>,
    path: Seq<char>,
    removal: Removal,
    after: Set<Seq<char>>,
) -> bool {
    match removal {
        Removal::Removed => before.contains(path) && after == before.remove(path),
        Removal::Missing => !before.contains(path) && after == before,
        Removal::Failed => after == before,
    }
}

/// Whether acknowledging the end of a session turns the files `before` into the files `after`: its
/// marker is what is removed, and for an empty session nothing is.
pub open spec fn is_acknowledgement(
    cache_dir: Seq<char>,
    room_id: Seq<char>,
    session_id: Seq<char>,
    before: Set<Seq<char>>,
    removal: Removal,
    after: Set<Seq<char>>,
    windows: bool,
) -> bool {
    if session_id.len() > 0 {
        is_removal(before, pending_marker(cache_dir, room_id, session_id, windows), removal, after)
    } else {
        after == before
    }
}

proof fn lemma_pending_is_not_active(
    cache_dir: Seq<char>,
    room_id: Seq<char>,
    session_id: Seq<char>,
    windows: bool,
)
    requires
        session_id.len() > 0,
    ensures
        pending_marker(cache_dir, room_id, session_id, windows) != active_marker(
            cache_dir,
            room_id,
            windows,
        ),
{
    let room = room_dir(cache_dir, room_id, windows);
    let dir = paths::joined_path(room, DOUYIN_PENDING_LIVE_ENDS_DIR@, windows);
    let name = marker_name(session_id);
    lemma_marker_is_simple(session_id);
    digits::lemma_hex_chars(encode_utf8(session_id));
    assert(digits::is_digit(name[name.len() - 1]) || 'a' <= name[name.len() - 1] <= 'f');
    reveal_strlit(".active-session");
    reveal_strlit(".");
    reveal_strlit("..");
    let file = DOUYIN_ACTIVE_SESSION_FILE@;
    assert(file.len() == 15 && "."@.len() == 1 && ".."@.len() == 2);
    assert forall|i: int| 0 <= i < file.len() implies (#[trigger] file[i]) != '/' && file[i] != '\\'
        && file[i] != ':' by {
        assert(file =~= seq!['.', 'a', 'c', 't', 'i', 'v', 'e', '-', 's', 'e', 's', 's', 'i', 'o', 'n']);
    }
    assert(paths::is_simple_name(file));
    paths::lemma_join_name(dir, name, windows);
    paths::lemma_join_name(room, file, windows);
    let pending = pending_marker(cache_dir, room_id, session_id, windows);
    let active = active_marker(cache_dir, room_id, windows);
    assert(pending.last() == name.last());
    assert(active.last() == 'n');
}

proof fn lemma_pending_markers_differ(
    cache_dir: Seq<char>,
    room_id: Seq<char>,
    a: Seq<char>,
    b: Seq<char>,
    windows: bool,
)
    requires
        a.len() > 0,
        b.len() > 0,
        a != b,
    ensures
        pending_marker(cache_dir, room_id, a, windows) != pending_marker(
            cache_dir,
            room_id,
            b,
            windows,
        ),
{
    lemma_marker_is_simple(a);
    lemma_marker_is_simple(b);
    if pending_marker(cache_dir, room_id, a, windows) == pending_marker(
        cache_dir,
        room_id,
        b,
        windows,
    ) {
        paths::lemma_join_injective(
            paths::joined_path(
                room_dir(cache_dir, room_id, windows),
                DOUYIN_PENDING_LIVE_ENDS_DIR@,
                windows,
            ),
            marker_name(a),
            marker_name(b),
            windows,
        );
        law_marker_names_are_unique(a, b);
    }
}

/// Acknowledging the end of a session takes away its marker and nothing else: the markers of other
/// sessions stay, and so does the file that names the active session, even where it names this one.
/// An empty session is not acknowledged, and nothing is removed for it; and what was not
/// acknowledged has changed nothing.
pub proof fn law_acknowledging_takes_one_marker(
    cache_dir: Seq<char>,
    room_id: Seq<char>,
    session_id: Seq<char>,
    before: Set<Seq<char>>,
    removal: Removal,
    after: Set<Seq<char>>,
    other: Seq<char>,
    windows: bool,
)
    requires
        is_acknowledgement(cache_dir, room_id, session_id, before, removal, after, windows),
    ensures
        is_acknowledged(session_id, removal) ==> after == before.remove(
            pending_marker(cache_dir, room_id, session_id, windows),
        ) && !after.contains(pending_marker(cache_dir, room_id, session_id, windows)),
        !is_acknowledged(session_id, removal) ==> after == before,
        session_id.len() == 0 ==> !is_acknowledged(session_id, removal),
        after.contains(active_marker(cache_dir, room_id, windows)) <==> before.contains(
            active_marker(cache_dir, room_id, windows),
        ),
        other.len() > 0 && other != session_id ==> (after.contains(
            pending_marker(cache_dir, room_id, other, windows),
        ) <==> before.contains(pending_marker(cache_dir, room_id, other, windows))),
{
    if session_id.len() > 0 {
        lemma_pending_is_not_active(cache_dir, room_id, session_id, windows);
        if other.len() > 0 && other != session_id {
            lemma_pending_markers_differ(cache_dir, room_id, session_id, other, windows);
        }
        if removal is Missing {
            assert(before.remove(pending_marker(cache_dir, room_id, session_id, windows)) =~= before);
        }
    }
}

/// A session's end can be acknowledged again: its marker is missing then, which counts too, and
/// nothing changes.
pub proof fn law_acknowledging_again_changes_nothing(
    cache_dir: Seq<char>,
    room_id: Seq<char>,
    session_id: Seq<char>,
    before: Set<Seq<char>>,
    first: Removal,
    between: Set<Seq<char>>,
    second: Removal,
    after: Set<Seq<char>>,
    windows: bool,
)
    requires
        is_acknowledgement(cache_dir, room_id, session_id, before, first, between, windows),
        is_acknowledged(session_id, first),
        is_acknowledgement(cache_dir, room_id, session_id, between, second, after, windows),
    ensures
        after == between,
        !(second is Removed),
        second is Missing ==> is_acknowledged(session_id, second),
{
}

/// The sessions that are pending after one was acknowledged are those that were pending before,
/// without it. The file names are those of markers.
pub proof fn law_an_acknowledged_session_is_not_pending(
    before: Seq<Seq<char>>,
    after: Seq<Seq<char>>,
    session_id: Seq<char>,
    s: Seq<char>,
)
    requires
        session_id.len() > 0,
        forall|i: int|
            0 <= i < before.len() ==> (marked_session(#[trigger] before[i]) matches Some(marked)
                ==> before[i] == marker_name(marked)),
        forall|name: Seq<char>| #[trigger]
            after.contains(name) <==> before.contains(name) && name != marker_name(session_id),
    ensures
        ordered_sessions(marked_sessions(after)).contains(s) <==> ordered_sessions(
            marked_sessions(before),
        ).contains(s) && s != session_id,
{
    law_pending_sessions_are_those_with_markers(before, s);
    law_pending_sessions_are_those_with_markers(after, s);
    law_marker_names_round_trip(session_id);
    if exists|i: int| 0 <= i < after.len() && #[trigger] marked_session(after[i]) == Some(s) {
        let i = choose|i: int| 0 <= i < after.len() && #[trigger] marked_session(after[i]) == Some(
            s,
        );
        assert(after.contains(after[i]));
        let k = choose|k: int| 0 <= k < before.len() && before[k] == after[i];
        assert(marked_session(before[k]) == Some(s));
        assert(before[k] == marker_name(s));
    }
    if s != session_id && exists|i: int|
        0 <= i < before.len() && #[trigger] marked_session(before[i]) == Some(s) {
        let i = choose|i: int|
            0 <= i < before.len() && #[trigger] marked_session(before[i]) == Some(s);
        assert(before.contains(before[i]));
        if marker_name(s) == marker_name(session_id) {
            law_marker_names_are_unique(s, session_id);
        }
        assert(after.contains(before[i]));
        let k = choose|k: int| 0 <= k < after.len() && after[k] == before[i];
        assert(marked_session(after[k]) == Some(s));
    }
}

/// Whether a session's end counts as acknowledged.
pub fn acknowledged(session_id: &str, removal: Removal) -> (res: bool)
    ensures
        res == is_acknowledged(session_id@, removal),
{
    if text::is_empty(session_id) {
        return false;
    }
    match removal {
        Removal::Removed => true,
        Removal::Missing => true,
        Removal::Failed => false,
    }
}

/// The one session that a room has, where it has just one: pending, or active and not pending.
pub open spec fn only_session(active: Seq<char>, pending: Seq<Seq<char>>) -> Option<Seq<char>> {
    let sessions = if active.len() > 0 && !pending.contains(active) {
        pending.push(active)
    } else {
        pending
    };
    if sessions.len() == 1 {
        Some(sessions[0])
    } else {
        None
    }
}

/// The session that recordings without a session of their own belong to: safe only where the room
/// has exactly one active or pending session.
pub fn recovery_session_parent_fallback(active: &str, pending: &Vec<String>) -> (res: Option<
    String,
>)
    ensures
        res.deep_view() == only_session(active@, pending.deep_view()),
{
    let extra = !text::is_empty(active) && !text::list_contains(pending, active);
    if extra {
        if pending.len() == 0 {
            assert(pending.deep_view().push(active@)[0] == active@);
            Some(text::copy(active))
        } else {
            None
        }
    } else if pending.len() == 1 {
        Some(text::copy(pending[0].as_str()))
    } else {
        None
    }
}

/// The room that the chat connection joins.
pub open spec fn danmu_room(platform_live_id: Seq<char>) -> Option<Seq<char>> {
    if text::trimmed(platform_live_id).len() == 0 {
        None
    } else {
        Some(text::trimmed(platform_live_id))
    }
}

/// The room that the chat connection joins. It stays text, whatever its length; where the session
/// is not known there is no room to join.
pub fn douyin_danmu_room_id(platform_live_id: &str) -> (res: Result<String, RecorderError>)
    ensures
        match danmu_room(platform_live_id@) {
            Some(room) => res matches Ok(id) && id@ == room,
            None => res matches Err(RecorderError::ApiError { error }) && error@
                == "Douyin live room id is empty; refusing to connect danmu to room 0"@,
        },
{
    let room_id = text::trim(platform_live_id);
    if text::is_empty(room_id.as_str()) {
        return Err(
            RecorderError::ApiError {
                error: text::copy(
                    "Douyin live room id is empty; refusing to connect danmu to room 0",
                ),
            },
        );
    }
    Ok(room_id)
}

/// The one session of a room is known where there is just one, running or ended: with none, or with
/// more than one, there is no telling.
pub proof fn law_one_session_can_be_told(active: Seq<char>, pending: Seq<Seq<char>>)
    ensures
        pending.len() == 0 && active.len() > 0 ==> only_session(active, pending) == Some(active),
        pending.len() == 0 && active.len() == 0 ==> only_session(active, pending) is None,
        pending.len() == 1 && (active.len() == 0 || active == pending[0]) ==> only_session(
            active,
            pending,
        ) == Some(pending[0]),
        pending.len() == 1 && active.len() > 0 && active != pending[0] ==> only_session(
            active,
            pending,
        ) is None,
        pending.len() > 1 ==> only_session(active, pending) is None,
{
    if pending.len() == 1 {
        assert(pending.contains(active) <==> active == pending[0]) by {
            if active == pending[0] {
                assert(pending[0] == active);
            }
        }
    }
}

/// Pending sessions are listed once each, in order: of their numbers where all are numbers, and else of
/// their characters.
pub proof fn law_pending_sessions_are_in_order(sessions: Seq<Seq<char>>, i: int)
    requires
        0 < i < ordered_sessions(sessions).len(),
    ensures
        ordered_sessions(sessions)[i] != ordered_sessions(sessions)[i - 1],
        all_numbers(sessions) ==> sorting::number_of(ordered_sessions(sessions)[i - 1])
            <= sorting::number_of(ordered_sessions(sessions)[i]),
        !all_numbers(sessions) ==> text::text_le(
            ordered_sessions(sessions)[i - 1],
            ordered_sessions(sessions)[i],
        ),
{
    let le = if all_numbers(sessions) {
        sorting::number_order()
    } else {
        sorting::text_order()
    };
    sorting::lemma_text_order();
    assert(sorting::orders(le)) by {
        let by_number = sorting::number_order();
        assert forall|a: Seq<char>, b: Seq<char>| #[trigger] by_number(a, b) || by_number(b, a) by {}
        assert forall|a: Seq<char>, b: Seq<char>, c: Seq<char>| #[trigger]
            by_number(a, b) && #[trigger] by_number(b, c) implies by_number(a, c) by {}
    }
    sorting::lemma_stable_sorted(sessions, le);
    let all = sorting::stable_sorted(sessions, le);
    sorting::law_no_item_is_repeated(all);
    lemma_rest_is_in_order(all, le);
    let out = ordered_sessions(sessions);
    assert(le(out[i - 1], out[i]));
}

proof fn lemma_rest_is_in_order(s: Seq<Seq<char>>, le: spec_fn(Seq<char>, Seq<char>) -> bool)
    requires
        sorting::in_order(s, le),
    ensures
        sorting::in_order(sorting::without_repeats(s), le),
    decreases s.len(),
{
    if s.len() >= 2 {
        let init = s.drop_last();
        lemma_rest_is_in_order(init, le);
        sorting::lemma_without_repeats(init);
        let before = sorting::without_repeats(init);
        let out = sorting::without_repeats(s);
        assert forall|a: int, b: int|
            #![trigger out[a], out[b]]
            0 <= a < b < out.len() implies le(out[a], out[b]) by {
            assert(out[a] == before[a]);
            if b < before.len() {
                assert(out[b] == before[b]);
            } else {
                assert(before.contains(before[a]));
                assert(init.contains(before[a]));
                let k = choose|k: int| 0 <= k < init.len() && init[k] == before[a];
                assert(s[k] == before[a]);
                assert(le(s[k], s[s.len() - 1]));
            }
        }
    }
}

/// What names a session is read without the white space around it, and nothing names none. Chat is
/// asked for under a session that is named, and not at all without one.
pub proof fn law_sessions_are_named_without_white_space(contents: Seq<char>)
    ensures
        named_session(Some(contents)) == text::trimmed(contents),
        named_session(None).len() == 0,
        danmu_room(contents) is Some <==> named_session(Some(contents)).len() > 0,
        danmu_room(contents) is Some ==> danmu_room(contents)->0 == named_session(Some(contents)),
{
}

/// The markers of a room stand in the room's own directory, below that of its platform.
pub proof fn law_markers_stand_with_their_room(
    cache_dir: Seq<char>,
    room_id: Seq<char>,
    session_id: Seq<char>,
)
    requires
        cache_dir.len() > 0,
        cache_dir.last() != '/',
        room_id.len() > 0,
        room_id[0] != '/',
        room_id.last() != '/',
        session_id.len() > 0,
    ensures
        room_dir(cache_dir, room_id, false) == cache_dir + "/douyin/"@ + room_id,
        active_marker(cache_dir, room_id, false) == cache_dir + "/douyin/"@ + room_id + "/"@
            + DOUYIN_ACTIVE_SESSION_FILE@,
        pending_marker(cache_dir, room_id, session_id, false) == cache_dir + "/douyin/"@ + room_id
            + "/"@ + DOUYIN_PENDING_LIVE_ENDS_DIR@ + "/"@ + marker_name(session_id),
{
    reveal_strlit("/douyin/");
    reveal_strlit("douyin");
    reveal_strlit("/");
    reveal_strlit(".active-session");
    reveal_strlit(".pending-live-ends");
    law_marker_names_stay_in_their_directory(cache_dir, session_id, false);
    let first = paths::joined_path(cache_dir, PlatformType::Douyin.name(), false);
    assert(first =~= cache_dir + "/douyin"@) by {
        reveal_strlit("/douyin");
    }
    let room = room_dir(cache_dir, room_id, false);
    reveal_strlit("/douyin");
    assert(room =~= cache_dir + "/douyin/"@ + room_id);
    assert(active_marker(cache_dir, room_id, false) =~= room + "/"@ + DOUYIN_ACTIVE_SESSION_FILE@);
    let dir = paths::joined_path(room, DOUYIN_PENDING_LIVE_ENDS_DIR@, false);
    assert(dir =~= room + "/"@ + DOUYIN_PENDING_LIVE_ENDS_DIR@);
    assert(pending_marker(cache_dir, room_id, session_id, false) =~= dir + "/"@ + marker_name(
        session_id,
    ));
}

/// A name marks a session only where it is the session's name, written in hexadecimal.
pub proof fn law_only_marker_names_mark_sessions(name: Seq<char>)
    ensures
        marked_session(name) is Some ==> digits::is_hex(name) && marked_session(name)->0.len() > 0
            && encode_utf8(marked_session(name)->0) == digits::unhex(name),
        marked_session(Seq::empty()) is None,
        !digits::is_hex(name) ==> marked_session(name) is None,
{
    if marked_session(name) is Some {
        decode_utf8_encode_utf8(digits::unhex(name));
    }
}

/// Sessions that are all named by numbers are listed by number; as soon as one is not, they are listed
/// by their characters.
pub proof fn law_numbered_sessions_are_listed_by_number(sessions: Seq<Seq<char>>, k: int, i: int)
    requires
        0 <= k < sessions.len(),
        0 < i < ordered_sessions(sessions).len(),
    ensures
        (forall|j: int|
            0 <= j < sessions.len() ==> digits::unsigned_value(#[trigger] sessions[j]) is Some
                && digits::unsigned_value(sessions[j])->0 <= u128::MAX) ==> sorting::number_of(
            ordered_sessions(sessions)[i - 1],
        ) <= sorting::number_of(ordered_sessions(sessions)[i]),
        digits::unsigned_value(sessions[k]) is None ==> text::text_le(
            ordered_sessions(sessions)[i - 1],
            ordered_sessions(sessions)[i],
        ),
{
    law_pending_sessions_are_in_order(sessions, i);
    if forall|j: int|
        0 <= j < sessions.len() ==> digits::unsigned_value(#[trigger] sessions[j]) is Some
            && digits::unsigned_value(sessions[j])->0 <= u128::MAX {
        assert forall|j: int| 0 <= j < sessions.len() implies digits::within(
            digits::unsigned_value(#[trigger] sessions[j]),
            0,
            u128::MAX as int,
        ) is Some by {}
        assert(all_numbers(sessions));
    }
    if digits::unsigned_value(sessions[k]) is None {
        assert(!all_numbers(sessions));
    }
}

/// The active marker is written where it does not name the session already, and never without a
/// session.
pub proof fn law_active_markers_name_the_session(
    contents: &Option<String>,
    session_id: &str,
    res: ActiveMarkerWrite,
)
    requires
        call_ensures(active_marker_write, (contents, session_id), res),
    ensures
        res is Refuse <==> session_id@.len() == 0,
        session_id@.len() > 0 ==> (res is Keep <==> contents is Some && text::trimmed(contents->0@)
            == session_id@),
{
    if let Some(c) = *contents {
        assert(contents.deep_view() == Some(c@));
    }
}

} // verus!
