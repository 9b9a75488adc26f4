//! Live events: what a provider reports, how a persisted line is read, and what a viewer sees.
use vstd::prelude::*;
use crate::digits;
use crate::json;
use crate::json::{Json, JsonView};
use crate::text;

verus! {

/// One event of a live stream, as it is recorded.
pub struct LiveEvent {
    pub ts: i64,
    pub platform: String,
    pub room_id: String,
    pub event_type: String,
    pub data: Json,
    pub raw: Json,
}

/// The model of a live event.
#[verifier::ext_equal]
pub struct LiveEventView {
    pub ts: i64,
    pub platform: Seq<char>,
    pub room_id: Seq<char>,
    pub event_type: Seq<char>,
    pub data: JsonView,
    pub raw: JsonView,
}

impl DeepView for LiveEvent {
    type V = LiveEventView;

    open spec fn deep_view(&self) -> LiveEventView {
        LiveEventView {
            ts: self.ts,
            platform: self.platform@,
            room_id: self.room_id@,
            event_type: self.event_type@,
            data: self.data.deep_view(),
            raw: self.raw.deep_view(),
        }
    }
}

impl Clone for LiveEvent {
    fn clone(&self) -> (res: Self)
        ensures
            res.deep_view() == self.deep_view(),
    {
        LiveEvent {
            ts: self.ts,
            platform: text::copy(self.platform.as_str()),
            room_id: text::copy(self.room_id.as_str()),
            event_type: text::copy(self.event_type.as_str()),
            data: self.data.clone(),
            raw: self.raw.clone(),
        }
    }
}

/// One chat line as a viewer sees it, with its time relative to the start of the stream.
pub struct DanmuEntry {
    pub ts: i64,
    pub content: String,
    pub user_name: Option<String>,
}

/// The model of a chat line.
#[verifier::ext_equal]
pub struct DanmuEntryView {
    pub ts: i64,
    pub content: Seq<char>,
    pub user_name: Option<Seq<char>>,
}

impl DeepView for DanmuEntry {
    type V = DanmuEntryView;

    open spec fn deep_view(&self) -> DanmuEntryView {
        DanmuEntryView {
            ts: self.ts,
            content: self.content@,
            user_name: self.user_name.deep_view(),
        }
    }
}

impl Clone for DanmuEntry {
    fn clone(&self) -> (res: Self)
        ensures
            res.deep_view() == self.deep_view(),
    {
        DanmuEntry {
            ts: self.ts,
            content: text::copy(self.content.as_str()),
            user_name: text::copy_option(&self.user_name),
        }
    }
}

/// The difference of two numbers, held to the range of a signed 64-bit integer.
pub open spec fn clamped_difference(a: int, b: int) -> int {
    let d = a - b;
    if d < i64::MIN {
        i64::MIN as int
    } else if d > i64::MAX {
        i64::MAX as int
    } else {
        d
    }
}

/// Subtraction that stops at the bounds of the type.
pub fn saturating_difference(a: i64, b: i64) -> (res: i64)
    ensures
        res == clamped_difference(a as int, b as int),
{
    let d: i128 = a as i128 - b as i128;
    if d < i64::MIN as i128 {
        i64::MIN
    } else if d > i64::MAX as i128 {
        i64::MAX
    } else {
        d as i64
    }
}

/// The data of an event that carries nothing but a chat text.
pub open spec fn content_data(content: Seq<char>) -> JsonView {
    JsonView::Object(seq![("content"@, JsonView::Text(content))])
}

/// A chat event that carries nothing but its time and text.
pub open spec fn plain_event(
    ts: i64,
    platform: Seq<char>,
    room_id: Seq<char>,
    content: Seq<char>,
) -> LiveEventView {
    LiveEventView {
        ts,
        platform,
        room_id,
        event_type: "danmu"@,
        data: content_data(content),
        raw: JsonView::Null,
    }
}

/// A chat event that carries nothing but its time and text.
pub fn plain_danmu_event(ts: i64, platform: &str, room_id: &str, content: &str) -> (res: LiveEvent)
    ensures
        res.deep_view() == plain_event(ts, platform@, room_id@, content@),
{
    let mut members: Vec<(String, Json)> = Vec::new();
    members.push((text::copy("content"), Json::text(content)));
    let data = Json::Object(members);
    assert(data.deep_view()->Object_0 =~= content_data(content@)->Object_0);
    LiveEvent {
        ts,
        platform: text::copy(platform),
        room_id: text::copy(room_id),
        event_type: text::copy("danmu"),
        data,
        raw: Json::Null,
    }
}

/// The event in a line of the older `timestamp:content` form.
pub open spec fn legacy_line(
    line: Seq<char>,
    platform: Seq<char>,
    room_id: Seq<char>,
) -> Option<LiveEventView> {
    match text::split_once(line, ':') {
        Some((ts, content)) => match digits::within(
            digits::signed_value(ts),
            i64::MIN as int,
            i64::MAX as int,
        ) {
            Some(t) => Some(plain_event(t as i64, platform, room_id, content)),
            None => None,
        },
        None => None,
    }
}

/// Reads a line of the older `timestamp:content` form.
pub fn parse_legacy_line(line: &str, platform: &str, room_id: &str) -> (res: Option<LiveEvent>)
    ensures
        res.deep_view() == legacy_line(line@, platform@, room_id@),
{
    match text::split_at_first(line, ':') {
        Some((ts, content)) => match digits::parse_i64(ts.as_str()) {
            Some(t) => Some(plain_danmu_event(t, platform, room_id, content.as_str())),
            None => None,
        },
        None => None,
    }
}

impl LiveEventView {
    /// The members of an event's record, in their order.
    pub open spec fn record(self) -> Seq<(Seq<char>, JsonView)> {
        seq![
            ("ts"@, json::integer(self.ts as int)),
            ("platform"@, JsonView::Text(self.platform)),
            ("room_id"@, JsonView::Text(self.room_id)),
            ("event_type"@, JsonView::Text(self.event_type)),
            ("data"@, self.data),
            ("raw"@, self.raw),
        ]
    }

    /// The line of an event in a file.
    pub open spec fn line(self) -> Seq<char> {
        json::record_text(self.record())
    }

    /// Whether what an event holds is in plain form and not nested too deeply to be read.
    pub open spec fn is_recordable(self) -> bool {
        &&& self.data.is_plain()
        &&& self.raw.is_plain()
        &&& self.data.is_within(json::NESTING_LIMIT - 1)
        &&& self.raw.is_within(json::NESTING_LIMIT - 1)
    }

    /// Whether two events are the same but for the order of members in what they hold.
    pub open spec fn same_as(self, other: LiveEventView) -> bool {
        &&& self.ts == other.ts
        &&& self.platform == other.platform
        &&& self.room_id == other.room_id
        &&& self.event_type == other.event_type
        &&& self.data.same_as(other.data)
        &&& self.raw.same_as(other.raw)
    }
}

/// The event that a record holds: what it holds in place of a missing raw part is null.
pub open spec fn event_in(record: JsonView) -> Option<LiveEventView> {
    match (
        record.at("ts"@).as_i64(),
        record.at("platform"@).as_text(),
        record.at("room_id"@).as_text(),
        record.at("event_type"@).as_text(),
        record.get("data"@),
    ) {
        (Some(ts), Some(platform), Some(room_id), Some(event_type), Some(data)) => Some(
            LiveEventView { ts, platform, room_id, event_type, data, raw: record.at("raw"@) },
        ),
        _ => None,
    }
}

/// The event that a line holds as a record.
pub open spec fn recorded_event(line: Seq<char>) -> Option<LiveEventView> {
    match json::parsed_json(line) {
        Some(record) => event_in(record),
        None => None,
    }
}

/// Whether a line is that of an event, can stand in a file, and gives the event back where it can be
/// read.
pub open spec fn is_line_of(line: Seq<char>, event: LiveEventView) -> bool {
    &&& line == event.line()
    &&& line.len() > 0
    &&& line.last() == '}'
    &&& !line.contains('\n')
    &&& event.is_recordable() ==> (recorded_event(line) matches Some(read) && read.same_as(event))
}

proof fn lemma_record_is_plain(event: LiveEventView)
    requires
        event.is_recordable(),
    ensures
        JsonView::Object(event.record()).is_plain(),
        JsonView::Object(event.record()).is_within(json::NESTING_LIMIT as int),
        event.record()[0].0 == "ts"@,
{
    reveal_strlit("ts");
    reveal_strlit("platform");
    reveal_strlit("room_id");
    reveal_strlit("event_type");
    reveal_strlit("data");
    reveal_strlit("raw");
    let members = event.record();
    assert forall|i: int, j: int|
        #![trigger members[i], members[j]]
        0 <= i < j < members.len() implies members[i].0 != members[j].0 by {
        assert(members[i].0.len() != members[j].0.len());
    }
    assert(json::has_distinct_names(members));
    reveal_with_fuel(JsonView::is_plain, 2);
    reveal_with_fuel(JsonView::is_within, 2);
    assert forall|i: int| 0 <= i < members.len() implies (#[trigger] members[i]).1.is_plain()
        && members[i].1.is_within(json::NESTING_LIMIT - 1) by {
        assert(i == 0 || i == 1 || i == 2 || i == 3 || i == 4 || i == 5);
    }
}

proof fn lemma_record_gives_the_event_back(record: JsonView, event: LiveEventView)
    requires
        event.is_recordable(),
        record.same_as(JsonView::Object(event.record())),
    ensures
        event_in(record) matches Some(read) && read.same_as(event),
{
    let own = JsonView::Object(event.record());
    let members = event.record();
    lemma_record_is_plain(event);
    json::lemma_named_member(members, 0);
    json::lemma_named_member(members, 1);
    json::lemma_named_member(members, 2);
    json::lemma_named_member(members, 3);
    json::lemma_named_member(members, 4);
    json::lemma_named_member(members, 5);
    json::law_same_values_have_the_same_members(record, own, "ts"@);
    json::law_same_values_have_the_same_members(record, own, "platform"@);
    json::law_same_values_have_the_same_members(record, own, "room_id"@);
    json::law_same_values_have_the_same_members(record, own, "event_type"@);
    json::law_same_values_have_the_same_members(record, own, "data"@);
    json::law_same_values_have_the_same_members(record, own, "raw"@);
}

/// The line of an event in a file. Reading it gives the event back, where what the event holds is in
/// plain form and can be read.
pub fn event_line(event: &LiveEvent) -> (res: String)
    ensures
        is_line_of(res@, event.deep_view()),
{
    let mut members: Vec<(String, Json)> = Vec::new();
    members.push((text::copy("ts"), Json::integer(event.ts)));
    members.push((text::copy("platform"), Json::text(event.platform.as_str())));
    members.push((text::copy("room_id"), Json::text(event.room_id.as_str())));
    members.push((text::copy("event_type"), Json::text(event.event_type.as_str())));
    members.push((text::copy("data"), event.data.clone()));
    members.push((text::copy("raw"), event.raw.clone()));
    assert(members.deep_view() =~= event.deep_view().record());
    let line = json::write_record(&members);
    proof {
        let e = event.deep_view();
        if e.is_recordable() {
            lemma_record_is_plain(e);
            lemma_record_gives_the_event_back(json::parsed_json(line@)->0, e);
        }
    }
    line
}

/// The event that a line holds as a record, if it holds one.
pub fn decode_record(line: &str) -> (res: Option<LiveEvent>)
    ensures
        res.deep_view() == recorded_event(line@),
{
    let record = match json::read_json(line) {
        Ok(record) => record,
        Err(_) => {
            return None;
        },
    };
    let ts = record.at("ts");
    let data = match record.get("data") {
        Some(data) => data.clone(),
        None => {
            return None;
        },
    };
    match (
        ts.as_i64(),
        text_member(&record, "platform"),
        text_member(&record, "room_id"),
        text_member(&record, "event_type"),
    ) {
        (Some(ts), Some(platform), Some(room_id), Some(event_type)) => Some(
            LiveEvent { ts, platform, room_id, event_type, data, raw: record.at("raw") },
        ),
        _ => None,
    }
}

/// The event in a persisted line: the decoded event where the line is one, else the older form.
pub open spec fn line_event(line: Seq<char>, decoded: Option<LiveEventView>) -> Option<
    LiveEventView,
> {
    match decoded {
        Some(event) => Some(event),
        None => legacy_line(line, "unknown"@, Seq::empty()),
    }
}

/// Reads one persisted line. `decoded` is the event that the line's JSON holds, if it holds one.
pub fn parse_event_line(line: &str, decoded: Option<LiveEvent>) -> (res: Option<LiveEvent>)
    ensures
        res.deep_view() == line_event(line@, decoded.deep_view()),
{
    match decoded {
        Some(event) => Some(event),
        None => {
            let room = String::new();
            assert(room@ =~= Seq::<char>::empty());
            parse_legacy_line(line, "unknown", room.as_str())
        },
    }
}

/// The chat line that an event shows, with its time counted from `start`.
pub open spec fn shown_entry(event: LiveEventView, start: int) -> Option<DanmuEntryView> {
    if event.event_type != "danmu"@ {
        None
    } else if clamped_difference(event.ts as int, start) < 0 {
        None
    } else {
        match event.data.at("content"@).as_text() {
            Some(content) => Some(
                DanmuEntryView {
                    ts: clamped_difference(event.ts as int, start) as i64,
                    content,
                    user_name: event.data.at("user_name"@).as_text(),
                },
            ),
            None => None,
        }
    }
}

/// A copy of the text of the member called `key`, where it is a text.
pub fn text_member(data: &Json, key: &str) -> (res: Option<String>)
    ensures
        res.deep_view() == data.deep_view().at(key@).as_text(),
{
    match data.get(key) {
        Some(v) => match v.as_text() {
            Some(s) => Some(text::copy(s)),
            None => None,
        },
        None => None,
    }
}

/// The chat line that an event shows, if it shows one.
pub fn danmu_entry(event: &LiveEvent, live_start_ts: i64) -> (res: Option<DanmuEntry>)
    ensures
        res.deep_view() == shown_entry(event.deep_view(), live_start_ts as int),
{
    if !text::same(event.event_type.as_str(), "danmu") {
        return None;
    }
    let ts = saturating_difference(event.ts, live_start_ts);
    if ts < 0 {
        return None;
    }
    match text_member(&event.data, "content") {
        Some(content) => Some(
            DanmuEntry { ts, content, user_name: text_member(&event.data, "user_name") },
        ),
        None => None,
    }
}

/// The events of persisted lines, in order; lines without an event are passed over.
pub open spec fn line_events(lines: Seq<(Seq<char>, Option<LiveEventView>)>) -> Seq<LiveEventView>
    decreases lines.len(),
{
    if lines.len() == 0 {
        Seq::empty()
    } else {
        let before = line_events(lines.drop_last());
        match line_event(lines.last().0, lines.last().1) {
            Some(event) => before.push(event),
            None => before,
        }
    }
}

/// Reads persisted lines, each with the event that its JSON holds, into events.
pub fn read_events(lines: Vec<(String, Option<LiveEvent>)>) -> (res: Vec<LiveEvent>)
    ensures
        res.deep_view() == line_events(lines.deep_view()),
{
    let mut events: Vec<LiveEvent> = Vec::new();
    let ghost all = lines.deep_view();
    let mut i: usize = 0;
    assert(all.take(0) =~= Seq::empty());
    assert(events.deep_view() =~= Seq::<LiveEventView>::empty());
    while i < lines.len()
        invariant
            i <= lines@.len(),
            all == lines.deep_view(),
            events.deep_view() == line_events(all.take(i as int)),
        decreases lines@.len() - i,
    {
        let line = &lines[i];
        let ghost next = all.take(i + 1);
        assert(next.drop_last() =~= all.take(i as int));
        assert(next.last() == (line.0@, line.1.deep_view()));
        let decoded = match &line.1 {
            Some(event) => Some(event.clone()),
            None => None,
        };
        let ghost before = events.deep_view();
        if let Some(event) = parse_event_line(line.0.as_str(), decoded) {
            events.push(event);
            assert(events.deep_view() =~= before.push(event.deep_view()));
        }
        i += 1;
    }
    assert(all.take(i as int) =~= all);
    events
}

/// The chat lines that events show, in order.
pub open spec fn shown_entries(events: Seq<LiveEventView>, start: int) -> Seq<DanmuEntryView>
    decreases events.len(),
{
    if events.len() == 0 {
        Seq::empty()
    } else {
        let before = shown_entries(events.drop_last(), start);
        match shown_entry(events.last(), start) {
            Some(entry) => before.push(entry),
            None => before,
        }
    }
}

/// The chat lines that events show, with their times counted from the start of the stream.
pub fn entries_of(events: &Vec<LiveEvent>, live_start_ts: i64) -> (res: Vec<DanmuEntry>)
    ensures
        res.deep_view() == shown_entries(events.deep_view(), live_start_ts as int),
{
    let mut entries: Vec<DanmuEntry> = Vec::new();
    let ghost all = events.deep_view();
    let mut i: usize = 0;
    assert(all.take(0) =~= Seq::empty());
    assert(entries.deep_view() =~= Seq::<DanmuEntryView>::empty());
    while i < events.len()
        invariant
            i <= events@.len(),
            all == events.deep_view(),
            entries.deep_view() == shown_entries(all.take(i as int), live_start_ts as int),
        decreases events@.len() - i,
    {
        let ghost next = all.take(i + 1);
        assert(next.drop_last() =~= all.take(i as int));
        assert(next.last() == events@[i as int].deep_view());
        let ghost before = entries.deep_view();
        if let Some(entry) = danmu_entry(&events[i], live_start_ts) {
            entries.push(entry);
            assert(entries.deep_view() =~= before.push(entry.deep_view()));
        }
        i += 1;
    }
    assert(all.take(i as int) =~= all);
    entries
}

/// Reads persisted lines into the chat lines that a viewer sees.
pub fn read_entries(lines: Vec<(String, Option<LiveEvent>)>, live_start_ts: i64) -> (res: Vec<
    DanmuEntry,
>)
    ensures
        res.deep_view() == shown_entries(line_events(lines.deep_view()), live_start_ts as int),
{
    let events = read_events(lines);
    entries_of(&events, live_start_ts)
}

/// No chat line is shown at a time before the start of the stream.
pub proof fn law_entries_follow_the_start(events: Seq<LiveEventView>, start: int)
    ensures
        forall|i: int|
            0 <= i < shown_entries(events, start).len() ==> (#[trigger] shown_entries(
                events,
                start,
            )[i]).ts >= 0,
        shown_entries(events, start).len() <= events.len(),
    decreases events.len(),
{
    if events.len() > 0 {
        law_entries_follow_the_start(events.drop_last(), start);
    }
}

/// A difference is exact wherever it can be counted, and else as far as counting goes on its side.
pub proof fn law_differences_are_exact_where_they_fit(a: int, b: int)
    ensures
        i64::MIN <= a - b <= i64::MAX ==> clamped_difference(a, b) == a - b,
        a - b > i64::MAX ==> clamped_difference(a, b) == i64::MAX,
        a - b < i64::MIN ==> clamped_difference(a, b) == i64::MIN,
{
}

/// A line in the old form, a time and a text with a colon between them, is a chat event of that time
/// and text; the text may hold colons itself. A line without a colon, or without a time before the
/// first one, is none.
pub proof fn law_lines_in_the_old_form_are_read(
    ts: int,
    content: Seq<char>,
    platform: Seq<char>,
    room_id: Seq<char>,
    other: Seq<char>,
)
    requires
        i64::MIN <= ts <= i64::MAX,
        !other.contains(':'),
    ensures
        ({
            let read = legacy_line(digits::signed_decimal(ts) + ":"@ + content, platform, room_id);
            &&& read is Some
            &&& read->0.ts == ts
            &&& read->0.event_type == "danmu"@
            &&& read->0.platform == platform
            &&& read->0.room_id == room_id
            &&& read->0.data.at("content"@) == JsonView::Text(content)
            &&& read->0.raw == JsonView::Null
        }),
        legacy_line(other, platform, room_id) is None,
        digits::signed_value(other) is None ==> legacy_line(
            other + ":"@ + content,
            platform,
            room_id,
        ) is None,
{
    reveal_strlit(":");
    assert(":"@ =~= seq![':']);
    let written = digits::signed_decimal(ts);
    digits::law_written_numbers_are_read_back(ts);
    digits::lemma_decimal(if ts < 0 {
        (-ts) as nat
    } else {
        ts as nat
    });
    assert forall|i: int| 0 <= i < written.len() implies written[i] != ':' by {
        if ts < 0 {
            if i > 0 {
                assert(written[i] == digits::decimal((-ts) as nat)[i - 1]);
                assert(digits::is_digit(digits::decimal((-ts) as nat)[i - 1]));
            }
        } else {
            assert(digits::is_digit(digits::decimal(ts as nat)[i]));
        }
    }
    assert(!written.contains(':'));
    text::law_texts_are_cut_at_the_first(written, ':', content);
    text::law_texts_are_cut_at_the_first(other, ':', content);
    let before = Seq::<(Seq<char>, JsonView)>::empty();
    json::law_members_are_found_by_name(
        before,
        "content"@,
        JsonView::Text(content),
        Seq::empty(),
    );
    assert(before + seq![("content"@, JsonView::Text(content))] + Seq::empty() =~= seq![
        ("content"@, JsonView::Text(content)),
    ]);
}

/// A line is read as the event that it records, and only a line that records none is read in the old
/// form.
pub proof fn law_recorded_events_come_first(
    line: Seq<char>,
    decoded: Option<LiveEventView>,
)
    ensures
        decoded is Some ==> line_event(line, decoded) == decoded,
        decoded is None && !line.contains(':') ==> line_event(line, decoded) is None,
        decoded is None && line_event(line, decoded) is Some ==> line_event(
            line,
            decoded,
        )->0.event_type == "danmu"@,
{
    if !line.contains(':') {
        text::law_texts_are_cut_at_the_first(line, ':', Seq::empty());
    }
}

/// Lines are read one by one, in order: those of a file and then of another are those of both.
pub proof fn law_lines_are_read_in_order(
    a: Seq<(Seq<char>, Option<LiveEventView>)>,
    b: Seq<(Seq<char>, Option<LiveEventView>)>,
)
    ensures
        line_events(a + b) == line_events(a) + line_events(b),
        a.len() == 0 ==> line_events(a).len() == 0,
        a.len() == 1 && a[0].1 is Some ==> line_events(a) == seq![a[0].1->0],
        a.len() == 1 && a[0].1 is None && !a[0].0.contains(':') ==> line_events(a).len() == 0,
    decreases b.len(),
{
    reveal_with_fuel(line_events, 2);
    if a.len() == 1 {
        law_recorded_events_come_first(a[0].0, a[0].1);
    }
    if b.len() == 0 {
        assert(a + b =~= a);
    } else {
        law_lines_are_read_in_order(a, b.drop_last());
        assert((a + b).drop_last() =~= a + b.drop_last());
    }
}

/// Which events are shown: those of chat that have a text and are no earlier than the start. What is
/// shown of one is its text, who wrote it where that is known, and its distance from the start.
pub proof fn law_chat_is_shown_from_the_start_on(event: LiveEventView, start: int)
    requires
        event.ts - start <= i64::MAX,
    ensures
        shown_entry(event, start) is Some <==> event.event_type == "danmu"@ && event.ts >= start
            && event.data.at("content"@) is Text,
        shown_entry(event, start) matches Some(e) ==> e.ts == event.ts - start && JsonView::Text(
            e.content,
        ) == event.data.at("content"@) && e.user_name == event.data.at("user_name"@).as_text(),
{
}

/// Events are shown in their order: those of some and then of more are those of all of them.
pub proof fn law_chat_is_shown_in_order(
    a: Seq<LiveEventView>,
    b: Seq<LiveEventView>,
    start: int,
)
    ensures
        shown_entries(a + b, start) == shown_entries(a, start) + shown_entries(b, start),
        a.len() == 0 ==> shown_entries(a, start).len() == 0,
        a.len() == 1 ==> shown_entries(a, start) == (match shown_entry(a[0], start) {
            Some(e) => seq![e],
            None => Seq::empty(),
        }),
    decreases b.len(),
{
    reveal_with_fuel(shown_entries, 2);
    if b.len() == 0 {
        assert(a + b =~= a);
    } else {
        law_chat_is_shown_in_order(a, b.drop_last(), start);
        assert((a + b).drop_last() =~= a + b.drop_last());
    }
}

/// The record of an event holds the whole event: read again, it is the same one, whatever the order of
/// its members. A record without a time, a platform, a room, a kind or data is no event.
pub proof fn law_records_hold_the_whole_event(record: JsonView, event: LiveEventView)
    ensures
        event.is_recordable() && record.same_as(JsonView::Object(event.record())) ==> (event_in(
            record,
        ) matches Some(read) && read.same_as(event)),
        record.get("data"@) is None || record.at("ts"@).as_i64() is None || !(record.at("platform"@)
            is Text) || !(record.at("room_id"@) is Text) || !(record.at("event_type"@) is Text)
            ==> event_in(record) is None,
        event_in(record) matches Some(read) ==> record.get("data"@) == Some(read.data)
            && record.at("ts"@).as_i64() == Some(read.ts) && record.at("platform"@)
            == JsonView::Text(read.platform) && record.at("room_id"@) == JsonView::Text(
            read.room_id,
        ) && record.at("event_type"@) == JsonView::Text(read.event_type) && record.at("raw"@)
            == read.raw,
{
    if event.is_recordable() && record.same_as(JsonView::Object(event.record())) {
        lemma_record_gives_the_event_back(record, event);
    }
}

} // verus!
