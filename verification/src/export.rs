//! Chat downloads: the full JSON lines of a recording, and the plain text lines of a range.
use vstd::prelude::*;
use crate::digits;
use crate::events;
use crate::events::{DanmuEntry, DanmuEntryView, LiveEvent, LiveEventView};
use crate::json;
use crate::json::{Json, JsonView};
use crate::text;
use crate::wire;
use crate::wire::{ChatView, UserView};

verus! {

/// The sender of an event that has no user record of its own.
pub open spec fn plain_user(data: JsonView) -> JsonView {
    JsonView::Object(seq![("id"@, data.at("user_id"@)), ("name"@, data.at("user_name"@))])
}

/// The exported record of a chat event: the provider's own record where there is one, else one
/// put together from the event.
pub open spec fn export_entry(event: LiveEventView) -> JsonView {
    match event.raw {
        JsonView::Object(members) => if members.len() > 0 {
            event.raw
        } else {
            built_entry(event)
        },
        _ => built_entry(event),
    }
}

/// The record put together from the fields of an event.
pub open spec fn built_entry(event: LiveEventView) -> JsonView {
    let id = match event.data.get("id"@) {
        Some(v) => v,
        None => event.data.at("message_id"@),
    };
    let method = match event.data.get("method"@) {
        Some(v) => v,
        None => JsonView::Text("danmu"@),
    };
    let user = match event.data.get("user"@) {
        Some(v) => v,
        None => plain_user(event.data),
    };
    JsonView::Object(
        seq![
            ("id"@, id),
            ("method"@, method),
            ("user"@, user),
            ("content"@, event.data.at("content"@)),
            ("time"@, json::integer(event.ts as int)),
            ("platform"@, JsonView::Text(event.platform)),
            ("roomId"@, JsonView::Text(event.room_id)),
            ("data"@, event.data),
        ],
    )
}

/// Puts a record together from the fields of an event.
fn build_entry(event: &LiveEvent) -> (res: Json)
    ensures
        res.deep_view() == built_entry(event.deep_view()),
{
    let data = &event.data;
    let id = match data.get("id") {
        Some(v) => v.clone(),
        None => data.at("message_id"),
    };
    let method = match data.get("method") {
        Some(v) => v.clone(),
        None => Json::text("danmu"),
    };
    let user = match data.get("user") {
        Some(v) => v.clone(),
        None => {
            let mut members: Vec<(String, Json)> = Vec::new();
            members.push((text::copy("id"), data.at("user_id")));
            members.push((text::copy("name"), data.at("user_name")));
            let user = Json::Object(members);
            assert(user.deep_view()->Object_0 =~= plain_user(data.deep_view())->Object_0);
            user
        },
    };
    let mut members: Vec<(String, Json)> = Vec::new();
    members.push((text::copy("id"), id));
    members.push((text::copy("method"), method));
    members.push((text::copy("user"), user));
    members.push((text::copy("content"), data.at("content")));
    members.push((text::copy("time"), Json::integer(event.ts)));
    members.push((text::copy("platform"), Json::text(event.platform.as_str())));
    members.push((text::copy("roomId"), Json::text(event.room_id.as_str())));
    members.push((text::copy("data"), data.clone()));
    let res = Json::Object(members);
    assert(res.deep_view()->Object_0 =~= built_entry(event.deep_view())->Object_0);
    res
}

/// The exported record of a chat event.
pub fn full_danmu_export_entry(event: &LiveEvent) -> (res: Json)
    ensures
        res.deep_view() == export_entry(event.deep_view()),
{
    match &event.raw {
        Json::Object(members) => {
            assert(event.raw.deep_view()->Object_0.len() == members@.len());
            if members.len() > 0 {
                event.raw.clone()
            } else {
                build_entry(event)
            }
        },
        _ => build_entry(event),
    }
}

/// The exported line of an event; only chat events have one.
pub open spec fn export_line(event: LiveEventView) -> Option<Seq<char>> {
    if event.event_type == "danmu"@ {
        Some(json::json_text(export_entry(event)))
    } else {
        None
    }
}

/// Whether nothing of an event is lost in its exported line: reading the line gives the record back,
/// where the record is in plain form and not nested too deeply.
pub open spec fn keeps_its_record(event: LiveEventView) -> bool {
    export_entry(event).is_plain() && export_entry(event).is_within(json::NESTING_LIMIT as int)
        ==> json::is_read_back(export_entry(event))
}

/// The exported line of an event, if it is a chat event. Nothing of the event is lost in it.
pub fn export_full_danmu_event(event: &LiveEvent) -> (res: Result<Option<String>, String>)
    ensures
        res is Ok,
        res matches Ok(line) ==> line.deep_view() == export_line(event.deep_view()),
        res matches Ok(Some(line)) ==> line@.len() > 0 && !line@.contains('\n'),
        res matches Ok(Some(line)) ==> keeps_its_record(event.deep_view()),
{
    if !text::same(event.event_type.as_str(), "danmu") {
        return Ok(None);
    }
    let entry = full_danmu_export_entry(event);
    Ok(Some(json::write_json(&entry)))
}

/// The message for a persisted line that holds no event.
pub open spec fn invalid_line(reason: Seq<char>) -> Seq<char> {
    "Invalid persisted danmu event: "@ + reason
}

/// What a persisted line exports: nothing where it is blank or no chat event, an error where it
/// holds no event at all.
pub open spec fn persisted_line(
    line: Seq<char>,
    decoded: Result<LiveEventView, Seq<char>>,
    platform: Seq<char>,
    room_id: Seq<char>,
) -> Result<Option<Seq<char>>, Seq<char>> {
    if text::trimmed(line).len() == 0 {
        Ok(None)
    } else {
        match decoded {
            Ok(event) => Ok(export_line(event)),
            Err(reason) => match events::legacy_line(line, platform, room_id) {
                Some(event) => Ok(export_line(event)),
                None => Err(invalid_line(reason)),
            },
        }
    }
}

/// The event in a persisted line that is not blank: the one that its JSON holds, or that of the older
/// form.
pub open spec fn persisted_event(
    line: Seq<char>,
    decoded: Result<LiveEventView, Seq<char>>,
    platform: Seq<char>,
    room_id: Seq<char>,
) -> Option<LiveEventView> {
    match decoded {
        Ok(event) => Some(event),
        Err(_) => events::legacy_line(line, platform, room_id),
    }
}

/// The model of a result with texts inside.
pub open spec fn line_result(r: Result<Option<String>, String>) -> Result<
    Option<Seq<char>>,
    Seq<char>,
> {
    match r {
        Ok(line) => Ok(line.deep_view()),
        Err(e) => Err(e@),
    }
}

/// The model of a decoded event or the reason why there is none.
pub open spec fn decoded_event(r: Result<LiveEvent, String>) -> Result<LiveEventView, Seq<char>> {
    match r {
        Ok(event) => Ok(event.deep_view()),
        Err(e) => Err(e@),
    }
}

/// Converts one persisted line into its exported line. `decoded` is the event that the line's
/// JSON holds, or the reason why it holds none; a line of the older `timestamp:content` form is
/// exported without metadata that was never recorded. Nothing of the event is lost in its line.
pub fn export_persisted_danmu_line(
    line: &str,
    decoded: Result<LiveEvent, String>,
    platform: &str,
    room_id: &str,
) -> (res: Result<Option<String>, String>)
    ensures
        line_result(res) == persisted_line(line@, decoded_event(decoded), platform@, room_id@),
        res matches Ok(Some(_)) ==> (persisted_event(
            line@,
            decoded_event(decoded),
            platform@,
            room_id@,
        ) matches Some(event) && keeps_its_record(event)),
{
    let stripped = text::trim(line);
    if text::is_empty(stripped.as_str()) {
        return Ok(None);
    }
    match decoded {
        Ok(event) => export_full_danmu_event(&event),
        Err(reason) => match events::parse_legacy_line(line, platform, room_id) {
            Some(event) => export_full_danmu_event(&event),
            None => {
                let mut message = text::copy("Invalid persisted danmu event: ");
                message.append(reason.as_str());
                Err(message)
            },
        },
    }
}

/// The exported lines of events, in order.
pub open spec fn export_lines(events: Seq<LiveEventView>) -> Seq<Seq<char>>
    decreases events.len(),
{
    if events.len() == 0 {
        Seq::empty()
    } else {
        let before = export_lines(events.drop_last());
        match export_line(events.last()) {
            Some(line) => before.push(line),
            None => before,
        }
    }
}

/// The exported lines of events, one per line. None of them is empty, they can be told apart again,
/// and nothing of a chat event is lost in its line.
pub fn export_full_danmu_jsonl(events: &[LiveEvent]) -> (res: Result<String, String>)
    ensures
        res is Ok,
        res matches Ok(output) ==> output@ == text::joined(
            export_lines(events.deep_view()),
            "\n"@,
        ),
        res matches Ok(output) ==> export_lines(events.deep_view()).len() > 0 ==> text::split(
            output@,
            '\n',
        ) == export_lines(events.deep_view()),
        forall|k: int|
            0 <= k < export_lines(events.deep_view()).len() ==> (#[trigger] export_lines(
                events.deep_view(),
            )[k]).len() > 0,
        forall|k: int|
            0 <= k < events@.len() && (#[trigger] events.deep_view()[k]).event_type == "danmu"@
                ==> keeps_its_record(events.deep_view()[k]),
{
    let mut output = String::new();
    let ghost all = events.deep_view();
    let mut i: usize = 0;
    let mut any: bool = false;
    assert(all.take(0) =~= Seq::empty());
    while i < events.len()
        invariant
            i <= events@.len(),
            all == events.deep_view(),
            any == (export_lines(all.take(i as int)).len() > 0),
            any == (output@.len() > 0),
            output@ == text::joined(export_lines(all.take(i as int)), "\n"@),
            forall|k: int|
                0 <= k < export_lines(all.take(i as int)).len() ==> !(#[trigger] export_lines(
                    all.take(i as int),
                )[k]).contains('\n') && export_lines(all.take(i as int))[k].len() > 0,
            forall|k: int|
                0 <= k < i && (#[trigger] all[k]).event_type == "danmu"@ ==> keeps_its_record(
                    all[k],
                ),
        decreases events@.len() - i,
    {
        let ghost next = all.take(i + 1);
        let ghost lines = export_lines(all.take(i as int));
        assert(next.drop_last() =~= all.take(i as int));
        assert(next.last() == events@[i as int].deep_view());
        match export_full_danmu_event(&events[i]) {
            Ok(Some(line)) => {
                proof {
                    text::lemma_joined_push(lines, "\n"@, line@);
                }
                let ghost before = output@;
                if any {
                    output.append("\n");
                }
                output.append(line.as_str());
                proof {
                    if !any {
                        assert(output@ =~= line@);
                    }
                }
                any = true;
            },
            Ok(None) => {},
            Err(e) => {
                return Err(e);
            },
        }
        i += 1;
    }
    assert(all.take(i as int) =~= all);
    proof {
        if export_lines(all).len() > 0 {
            reveal_strlit("\n");
            assert("\n"@ =~= seq!['\n']);
            text::law_joined_lines_can_be_told_apart(export_lines(all), '\n');
        }
    }
    Ok(output)
}

/// A full export holds a line for each chat event and for nothing else.
pub proof fn law_full_export_holds_the_chat_events(events: Seq<LiveEventView>)
    ensures
        export_lines(events) == export_lines(
            events.filter(|e: LiveEventView| e.event_type == "danmu"@),
        ),
        export_lines(events).len() == events.filter(
            |e: LiveEventView| e.event_type == "danmu"@,
        ).len(),
    decreases events.len(),
{
    let p = |e: LiveEventView| e.event_type == "danmu"@;
    reveal(Seq::filter);
    if events.len() > 0 {
        law_full_export_holds_the_chat_events(events.drop_last());
        let before = events.drop_last().filter(p);
        if p(events.last()) {
            assert(events.filter(p) =~= before.push(events.last()));
            assert(before.push(events.last()).drop_last() =~= before);
        } else {
            assert(events.filter(p) =~= before);
        }
    }
}

proof fn lemma_integer_is_plain(n: int)
    requires
        i64::MIN <= n <= u64::MAX,
    ensures
        json::integer(n).is_plain(),
        forall|depth: int| #[trigger] json::integer(n).is_within(depth),
{
}

proof fn lemma_club_is_plain(c: (i64, i32))
    ensures
        wire::club_record(c).is_plain(),
        wire::club_record(c).is_within(1),
{
    reveal_with_fuel(JsonView::is_plain, 2);
    reveal_with_fuel(JsonView::is_within, 2);
    reveal_strlit("anchorId");
    reveal_strlit("level");
    lemma_integer_is_plain(c.1 as int);
    let members = wire::club_record(c)->Object_0;
    assert(members[0].0.len() == 8 && members[1].0.len() == 5);
}

proof fn lemma_user_is_plain(user: UserView)
    ensures
        wire::user_record(user).is_plain(),
        wire::user_record(user).is_within(3),
{
    reveal_with_fuel(JsonView::is_plain, 2);
    reveal_with_fuel(JsonView::is_within, 2);
    reveal_strlit("id");
    reveal_strlit("numericId");
    reveal_strlit("shortId");
    reveal_strlit("displayId");
    reveal_strlit("name");
    reveal_strlit("gender");
    reveal_strlit("avatar");
    reveal_strlit("currentTargetAnchorId");
    reveal_strlit("fansClub");
    lemma_integer_is_plain(user.gender as int);
    let clubs = wire::clubs_of(user);
    let list = clubs.map_values(|c: (i64, i32)| wire::club_record(c));
    assert forall|i: int| 0 <= i < list.len() implies (#[trigger] list[i]).is_plain()
        && list[i].is_within(1) by {
        lemma_club_is_plain(clubs[i]);
    }
    assert(JsonView::Array(list).is_plain());
    assert(JsonView::Array(list).is_within(2));
    let members = wire::user_record(user)->Object_0;
    assert(members[1].0[0] == 'n' && members[3].0[0] == 'd');
    assert(members[5].0[0] == 'g' && members[6].0[0] == 'a');
    assert(members[0].0.len() == 2 && members[1].0.len() == 9 && members[2].0.len() == 7);
    assert(members[3].0.len() == 9 && members[4].0.len() == 4 && members[5].0.len() == 6);
    assert(members[6].0.len() == 6 && members[7].0.len() == 21 && members[8].0.len() == 8);
    assert(json::has_distinct_names(members));
    assert(members[8].1 == JsonView::Array(list));
}

/// Nothing of a chat message is lost on the way into a full export: what is exported is the full
/// record of the message, in a form that is read back from its line.
pub proof fn law_chat_records_survive_the_export(
    room_id: Seq<char>,
    method: Seq<char>,
    envelope: i64,
    payload: Seq<u8>,
    chat: ChatView,
    now: i64,
)
    ensures
        ({
            let event = wire::chat_event(room_id, method, envelope, payload, chat, now);
            let time = wire::event_millis(wire::chat_time(chat) as int, now as int);
            &&& export_entry(event) == wire::chat_raw(method, envelope, payload, chat, time)
            &&& export_entry(event).is_plain()
            &&& export_entry(event).is_within(json::NESTING_LIMIT as int)
        }),
{
    reveal_with_fuel(JsonView::is_plain, 2);
    reveal_with_fuel(JsonView::is_within, 2);
    reveal_strlit("id");
    reveal_strlit("method");
    reveal_strlit("user");
    reveal_strlit("content");
    reveal_strlit("time");
    reveal_strlit("payloadHex");
    let time = wire::event_millis(wire::chat_time(chat) as int, now as int);
    let user = wire::chat_user(chat);
    lemma_user_is_plain(user);
    lemma_deeper(wire::user_record(user), 3, json::NESTING_LIMIT - 1);
    lemma_integer_is_plain(time);
    let raw = wire::chat_raw(method, envelope, payload, chat, time);
    let members = raw->Object_0;
    assert(members[0].0.len() == 2 && members[1].0.len() == 6 && members[2].0.len() == 4);
    assert(members[3].0.len() == 7 && members[4].0.len() == 4 && members[5].0.len() == 10);
    assert(members[2].0[0] == 'u' && members[4].0[0] == 't');
    assert(json::has_distinct_names(members));
}

proof fn lemma_deeper(value: JsonView, depth: int, more: int)
    requires
        value.is_within(depth),
        depth <= more,
    ensures
        value.is_within(more),
    decreases value,
{
    match value {
        JsonView::Array(items) => {
            assert forall|i: int| 0 <= i < items.len() implies (#[trigger] items[i]).is_within(
                more - 1,
            ) by {
                lemma_deeper(items[i], depth - 1, more - 1);
            }
        },
        JsonView::Object(members) => {
            assert forall|i: int| 0 <= i < members.len() implies (
            #[trigger] members[i]).1.is_within(more - 1) by {
                lemma_deeper(members[i].1, depth - 1, more - 1);
            }
        },
        _ => {},
    }
}

/// A chat line moved by an offset.
pub open spec fn shifted(e: DanmuEntryView, by: int) -> DanmuEntryView {
    DanmuEntryView { ts: events::clamped_difference(e.ts as int, by) as i64, ..e }
}

/// The chat lines from `low` to `high` milliseconds, counted from `low`.
pub open spec fn selected(entries: Seq<DanmuEntryView>, origin: int, low: int, high: int) -> Seq<
    DanmuEntryView,
>
    decreases entries.len(),
{
    if entries.len() == 0 {
        Seq::empty()
    } else {
        let before = selected(entries.drop_last(), origin, low, high);
        let e = shifted(entries.last(), origin);
        if low <= e.ts <= high {
            before.push(DanmuEntryView { ts: (e.ts - low) as i64, ..e })
        } else {
            before
        }
    }
}

/// Why an export range is refused.
pub enum RangeError {
    Unordered,
    StartTooLarge,
    EndTooLarge,
}

impl RangeError {
    /// The message shown to the user.
    pub open spec fn message(self) -> Seq<char> {
        match self {
            RangeError::Unordered => "Export range must satisfy 0 <= x < y"@,
            RangeError::StartTooLarge => "Export range start is too large"@,
            RangeError::EndTooLarge => "Export range end is too large"@,
        }
    }

    /// The message shown to the user.
    pub fn to_text(&self) -> (res: String)
        ensures
            res@ == self.message(),
    {
        match self {
            RangeError::Unordered => text::copy("Export range must satisfy 0 <= x < y"),
            RangeError::StartTooLarge => text::copy("Export range start is too large"),
            RangeError::EndTooLarge => text::copy("Export range end is too large"),
        }
    }
}

/// The bounds in milliseconds of a range of whole seconds; no range at all is everything from
/// the start on.
pub open spec fn range_bounds(x: int, y: int) -> Result<(int, int), RangeError> {
    if x == 0 && y == 0 {
        Ok((0, i64::MAX as int))
    } else if x < 0 || y <= x {
        Err(RangeError::Unordered)
    } else if x * 1000 > i64::MAX {
        Err(RangeError::StartTooLarge)
    } else if y * 1000 > i64::MAX {
        Err(RangeError::EndTooLarge)
    } else {
        Ok((x * 1000, y * 1000))
    }
}

/// Selects the chat lines of a range: each line is moved by `timeline_origin` milliseconds, lines
/// outside the range of `x` to `y` seconds are dropped, and times are counted from its start.
pub fn export_danmu(
    danmus: &Vec<DanmuEntry>,
    timeline_origin: i64,
    x: i64,
    y: i64,
) -> (res: Result<Vec<DanmuEntry>, RangeError>)
    ensures
        match range_bounds(x as int, y as int) {
            Ok((low, high)) => res matches Ok(entries) && entries.deep_view() == selected(
                danmus.deep_view(),
                timeline_origin as int,
                low,
                high,
            ),
            Err(e) => res == Err::<Vec<DanmuEntry>, RangeError>(e),
        },
{
    let has_range = x != 0 || y != 0;
    let mut low: i64 = 0;
    let mut high: i64 = i64::MAX;
    if has_range {
        if x < 0 || y <= x {
            return Err(RangeError::Unordered);
        }
        low = match x.checked_mul(1000) {
            Some(v) => v,
            None => {
                return Err(RangeError::StartTooLarge);
            },
        };
        high = match y.checked_mul(1000) {
            Some(v) => v,
            None => {
                return Err(RangeError::EndTooLarge);
            },
        };
    }
    let mut out: Vec<DanmuEntry> = Vec::new();
    let ghost all = danmus.deep_view();
    let mut i: usize = 0;
    assert(all.take(0) =~= Seq::empty());
    assert(out.deep_view() =~= Seq::<DanmuEntryView>::empty());
    while i < danmus.len()
        invariant
            i <= danmus@.len(),
            0 <= low,
            all == danmus.deep_view(),
            out.deep_view() == selected(
                all.take(i as int),
                timeline_origin as int,
                low as int,
                high as int,
            ),
        decreases danmus@.len() - i,
    {
        let ghost next = all.take(i + 1);
        assert(next.drop_last() =~= all.take(i as int));
        assert(next.last() == danmus@[i as int].deep_view());
        let ghost before = out.deep_view();
        let ts = events::saturating_difference(danmus[i].ts, timeline_origin);
        if low <= ts && ts <= high {
            let mut entry = danmus[i].clone();
            entry.ts = ts - low;
            out.push(entry);
            assert(out.deep_view() =~= before.push(entry.deep_view()));
        }
        i += 1;
    }
    assert(all.take(i as int) =~= all);
    Ok(out)
}

/// Every exported line lies within the range that was asked for.
pub proof fn law_selected_lines_lie_in_the_range(
    entries: Seq<DanmuEntryView>,
    origin: int,
    low: int,
    high: int,
)
    requires
        0 <= low <= high <= i64::MAX,
    ensures
        forall|i: int|
            0 <= i < selected(entries, origin, low, high).len() ==> 0 <= (#[trigger] selected(
                entries,
                origin,
                low,
                high,
            )[i]).ts <= high - low,
    decreases entries.len(),
{
    if entries.len() > 0 {
        law_selected_lines_lie_in_the_range(entries.drop_last(), origin, low, high);
    }
}

/// A chat line as text: its time, a colon and its content.
pub open spec fn plain_line(e: DanmuEntryView) -> Seq<char> {
    digits::signed_decimal(e.ts as int) + ":"@ + e.content
}

/// Chat lines as text, one per line.
pub fn danmu_text(danmus: &Vec<DanmuEntry>) -> (res: String)
    ensures
        res@ == text::joined(
            danmus.deep_view().map_values(|e: DanmuEntryView| plain_line(e)),
            "\n"@,
        ),
{
    let mut lines: Vec<String> = Vec::new();
    let mut i: usize = 0;
    while i < danmus.len()
        invariant
            i <= danmus@.len(),
            lines@.len() == i,
            forall|j: int| 0 <= j < i ==> (#[trigger] lines@[j])@ == plain_line(danmus@[j].deep_view()),
        decreases danmus@.len() - i,
    {
        let mut line = digits::i64_text(danmus[i].ts);
        line.append(":");
        line.append(danmus[i].content.as_str());
        lines.push(line);
        i += 1;
    }
    assert(lines.deep_view() =~= danmus.deep_view().map_values(|e: DanmuEntryView| plain_line(e)));
    text::join(&lines, "\n")
}

/// The part of a stream address that names the playlist or segment.
pub open spec fn hls_path(uri: Seq<char>) -> Seq<char> {
    if text::occurs(uri, "/hls/"@) {
        text::last_piece(uri, "/hls/"@)
    } else {
        uri
    }
}

/// The part of a stream address that names the playlist or segment.
pub fn fetch_hls(uri: &str) -> (res: String)
    ensures
        res@ == hls_path(uri@),
{
    proof {
        reveal_strlit("/hls/");
    }
    if text::contains(uri, "/hls/") {
        text::after_last_separator(uri, "/hls/")
    } else {
        text::copy(uri)
    }
}

/// What is exported of an event that came with a record of its own is that record, unchanged; of any
/// other it is built, and holds the event's text, time, platform, room and data.
pub proof fn law_exported_entries_hold_the_event(event: LiveEventView)
    ensures
        (event.raw matches JsonView::Object(members) && members.len() > 0) ==> export_entry(event)
            == event.raw,
        !(event.raw matches JsonView::Object(members) && members.len() > 0) ==> {
            let entry = export_entry(event);
            &&& entry.at("content"@) == event.data.at("content"@)
            &&& entry.at("time"@) == json::integer(event.ts as int)
            &&& entry.at("platform"@) == JsonView::Text(event.platform)
            &&& entry.at("roomId"@) == JsonView::Text(event.room_id)
            &&& entry.at("data"@) == event.data
            &&& event.data.get("id"@) is Some ==> entry.at("id"@) == event.data.at("id"@)
            &&& event.data.get("id"@) is None ==> entry.at("id"@) == event.data.at("message_id"@)
            &&& event.data.get("method"@) is Some ==> entry.at("method"@) == event.data.at(
                "method"@,
            )
            &&& event.data.get("method"@) is None ==> entry.at("method"@) == JsonView::Text(
                "danmu"@,
            )
            &&& event.data.get("user"@) is Some ==> entry.at("user"@) == event.data.at("user"@)
            &&& event.data.get("user"@) is None ==> entry.at("user"@).at("id"@) == event.data.at(
                "user_id"@,
            ) && entry.at("user"@).at("name"@) == event.data.at("user_name"@)
        },
{
    reveal_strlit("id");
    reveal_strlit("method");
    reveal_strlit("user");
    reveal_strlit("content");
    reveal_strlit("time");
    reveal_strlit("platform");
    reveal_strlit("roomId");
    reveal_strlit("data");
    reveal_strlit("name");
    let members = built_entry(event)->Object_0;
    assert(members[0].0.len() == 2 && members[1].0.len() == 6 && members[2].0.len() == 4
        && members[3].0.len() == 7 && members[4].0.len() == 4 && members[5].0.len() == 8
        && members[6].0.len() == 6 && members[7].0.len() == 4);
    assert(members[1].0[0] == 'm' && members[6].0[0] == 'r');
    assert(members[2].0[0] == 'u' && members[4].0[0] == 't' && members[7].0[0] == 'd');
    assert(json::has_distinct_names(members)) by {
        assert forall|i: int, j: int|
            #![trigger members[i], members[j]]
            0 <= i < j < members.len() implies members[i].0 != members[j].0 by {
            assert(members.len() == 8);
            if members[i].0.len() == 4 {
                assert(i == 2 || i == 4 || i == 7);
            } else if members[i].0.len() == 6 {
                assert(i == 1 || i == 6);
            }
        }
    }
    json::lemma_named_member(members, 0);
    json::lemma_named_member(members, 1);
    json::lemma_named_member(members, 2);
    json::lemma_named_member(members, 3);
    json::lemma_named_member(members, 4);
    json::lemma_named_member(members, 5);
    json::lemma_named_member(members, 6);
    json::lemma_named_member(members, 7);
    let user = plain_user(event.data)->Object_0;
    assert(user[0].0.len() == 2 && user[1].0.len() == 4);
    json::lemma_named_member(user, 0);
    json::lemma_named_member(user, 1);
}

/// Only events of chat are exported, each on a line of its own.
pub proof fn law_only_chat_is_exported(event: LiveEventView)
    ensures
        export_line(event) is Some <==> event.event_type == "danmu"@,
        export_line(event) is Some ==> export_line(event)->0 == json::json_text(
            export_entry(event),
        ),
{
}

/// Events are exported in their order.
pub proof fn law_events_are_exported_in_order(a: Seq<LiveEventView>, b: Seq<LiveEventView>)
    ensures
        export_lines(a + b) == export_lines(a) + export_lines(b),
        a.len() == 0 ==> export_lines(a).len() == 0,
        a.len() == 1 && a[0].event_type == "danmu"@ ==> export_lines(a) == seq![
            json::json_text(export_entry(a[0])),
        ],
        a.len() == 1 && a[0].event_type != "danmu"@ ==> export_lines(a).len() == 0,
    decreases b.len(),
{
    reveal_with_fuel(export_lines, 2);
    if b.len() == 0 {
        assert(a + b =~= a);
    } else {
        law_events_are_exported_in_order(a, b.drop_last());
        assert((a + b).drop_last() =~= a + b.drop_last());
    }
}

/// No line is lost on the way to the export without being told: a line of white space is passed over,
/// one that records an event or is in the old form is exported if it is chat, and any other fails the
/// export with the reason for which it could not be read.
pub proof fn law_unreadable_lines_fail_the_export(
    line: Seq<char>,
    decoded: Result<LiveEventView, Seq<char>>,
    platform: Seq<char>,
    room_id: Seq<char>,
)
    ensures
        ({
            let told = persisted_line(line, decoded, platform, room_id);
            let blank = text::trimmed(line).len() == 0;
            let old_form = events::legacy_line(line, platform, room_id);
            &&& told is Err <==> !blank && decoded is Err && old_form is None
            &&& told is Err ==> text::ends(told->Err_0, decoded->Err_0)
            &&& blank ==> told == Ok::<Option<Seq<char>>, Seq<char>>(None)
            &&& !blank && decoded is Ok ==> told == Ok::<Option<Seq<char>>, Seq<char>>(
                export_line(decoded->Ok_0),
            )
            &&& !blank && decoded is Err && old_form is Some ==> told == Ok::<
                Option<Seq<char>>,
                Seq<char>,
            >(export_line(old_form->0))
        }),
{
    if let Err(reason) = decoded {
        let m = invalid_line(reason);
        assert(m.skip(m.len() - reason.len()) =~= reason);
    }
}

/// The lines of a range: a line stays exactly where its distance from the origin lies between the
/// bounds, both of them counted, and is then counted from the lower one. Nothing else of it changes,
/// nor does the order.
pub proof fn law_ranges_select_their_lines(
    a: Seq<DanmuEntryView>,
    b: Seq<DanmuEntryView>,
    origin: int,
    low: int,
    high: int,
)
    requires
        0 <= low <= high <= i64::MAX,
    ensures
        selected(a + b, origin, low, high) == selected(a, origin, low, high) + selected(
            b,
            origin,
            low,
            high,
        ),
        a.len() == 0 ==> selected(a, origin, low, high).len() == 0,
        a.len() == 1 && i64::MIN <= a[0].ts - origin <= i64::MAX ==> (selected(
            a,
            origin,
            low,
            high,
        ).len() == 1 <==> origin + low <= a[0].ts && a[0].ts <= origin + high),
        a.len() == 1 && i64::MIN <= a[0].ts - origin <= i64::MAX && selected(
            a,
            origin,
            low,
            high,
        ).len() == 1 ==> selected(a, origin, low, high)[0].ts == a[0].ts - origin - low && selected(
            a,
            origin,
            low,
            high,
        )[0].content == a[0].content && selected(a, origin, low, high)[0].user_name
            == a[0].user_name,
        a.len() == 1 ==> selected(a, origin, low, high).len() <= 1,
    decreases b.len(),
{
    reveal_with_fuel(selected, 2);
    if b.len() == 0 {
        assert(a + b =~= a);
    } else {
        law_ranges_select_their_lines(a, b.drop_last(), origin, low, high);
        assert((a + b).drop_last() =~= a + b.drop_last());
    }
}

/// A range is given in seconds and taken in milliseconds. It must begin no earlier than at zero and
/// end after it begins; from zero to zero means everything; and both ends must be countable.
pub proof fn law_ranges_are_given_in_seconds(x: int, y: int)
    ensures
        range_bounds(x, y) is Ok <==> (x == 0 && y == 0) || (0 <= x && x < y && y * 1000
            <= i64::MAX),
        range_bounds(x, y) matches Ok((low, high)) ==> 0 <= low && low < high && high <= i64::MAX
            && low == x * 1000 && (y > 0 ==> high == y * 1000) && (y == 0 ==> high == i64::MAX),
        range_bounds(x, y) == Err::<(int, int), RangeError>(RangeError::Unordered) <==> !(x == 0
            && y == 0) && (x < 0 || y <= x),
        range_bounds(x, y) == Err::<(int, int), RangeError>(RangeError::StartTooLarge) <==> 0 <= x
            && x < y && x * 1000 > i64::MAX,
{
}

/// A plain line holds the time and the text: read again in the old form, it gives both back.
pub proof fn law_plain_lines_are_read_back(
    e: DanmuEntryView,
    platform: Seq<char>,
    room_id: Seq<char>,
)
    ensures
        events::legacy_line(plain_line(e), platform, room_id) matches Some(read) && read.ts == e.ts
            && read.data.at("content"@) == JsonView::Text(e.content),
{
    events::law_lines_in_the_old_form_are_read(
        e.ts as int,
        e.content,
        platform,
        room_id,
        Seq::empty(),
    );
}

/// The path of a stream is what follows the mark of streams in an address, and an address without the
/// mark is the path itself.
pub proof fn law_paths_follow_the_mark(head: Seq<char>, path: Seq<char>)
    requires
        !text::occurs(path, "/hls/"@),
        forall|i: int| 0 <= i < head.len() ==> !text::occurs_at(head + "/hls/"@ + path, "/hls/"@, i),
    ensures
        hls_path(path) == path,
        hls_path(head + "/hls/"@ + path) == path,
{
    reveal_strlit("/hls/");
    text::law_the_last_piece_follows_the_last_mark(head, "/hls/"@, path);
    text::law_the_last_piece_follows_the_last_mark(path, "/hls/"@, Seq::empty());
    let s = head + "/hls/"@ + path;
    assert(s.subrange(head.len() as int, head.len() as int + 5) =~= "/hls/"@);
    assert(text::occurs_at(s, "/hls/"@, head.len() as int));
}

/// What is exported of a range is refused where the range is no range; of everything, from zero to
/// zero, every line from the origin on is exported.
pub proof fn law_exports_of_no_range_are_refused(
    danmus: &Vec<DanmuEntry>,
    timeline_origin: i64,
    x: i64,
    y: i64,
    res: Result<Vec<DanmuEntry>, RangeError>,
)
    requires
        call_ensures(export_danmu, (danmus, timeline_origin, x, y), res),
    ensures
        res is Ok <==> (x == 0 && y == 0) || (0 <= x && x < y && y * 1000 <= i64::MAX),
        res is Ok && y > 0 ==> res->Ok_0.deep_view() == selected(
            danmus.deep_view(),
            timeline_origin as int,
            x * 1000,
            y * 1000,
        ),
        res is Ok && y == 0 ==> res->Ok_0.deep_view() == selected(
            danmus.deep_view(),
            timeline_origin as int,
            0,
            i64::MAX as int,
        ),
{
    law_ranges_are_given_in_seconds(x as int, y as int);
}

} // verus!
