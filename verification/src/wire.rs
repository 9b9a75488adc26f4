//! The chat connection: frames, the events in them, and when a frame may be acknowledged.
use vstd::prelude::*;
use vstd::string::*;
use vstd::utf8::*;
use crate::digits;
use crate::events::{LiveEvent, LiveEventView};
use crate::json;
use crate::json::{Json, JsonView};
use crate::text;

verus! {

/// Seconds between two heartbeats.
pub const HEARTBEAT_INTERVAL_SECS: u64 = 10;

/// Seconds that one write to the connection may take.
pub const WEBSOCKET_WRITE_TIMEOUT_SECS: u64 = 10;

/// Seconds between two connection attempts.
pub const RETRY_DELAY_SECS: u64 = 5;

/// Events that may wait between a provider and its recorder.
pub const EVENT_QUEUE_CAPACITY: usize = 4096;

/// The reason why the chat connection failed.
pub enum DanmuStreamError {
    WebsocketError { err: String },
}

impl DanmuStreamError {
    /// The text of the reason.
    pub open spec fn text(self) -> Seq<char> {
        self->err@
    }

    /// The text of the reason.
    pub fn to_text(&self) -> (res: String)
        ensures
            res@ == self.text(),
    {
        match self {
            DanmuStreamError::WebsocketError { err } => text::copy(err.as_str()),
        }
    }
}

/// A failure described by what was attempted and the reason given.
pub fn websocket_error(attempt: &str, reason: &str) -> (res: DanmuStreamError)
    ensures
        res.text() == attempt@ + reason@,
{
    let mut err = text::copy(attempt);
    err.append(reason);
    DanmuStreamError::WebsocketError { err }
}

/// A frame of the chat connection.
pub struct PushFrame {
    pub seq_id: u64,
    pub log_id: u64,
    pub service: u64,
    pub method: u64,
    pub headers_list: Vec<(String, String)>,
    pub payload_encoding: String,
    pub payload_type: String,
    pub payload: Vec<u8>,
}

/// The model of a frame.
#[verifier::ext_equal]
pub struct PushFrameView {
    pub seq_id: u64,
    pub log_id: u64,
    pub service: u64,
    pub method: u64,
    pub headers_list: Seq<(Seq<char>, Seq<char>)>,
    pub payload_encoding: Seq<char>,
    pub payload_type: Seq<char>,
    pub payload: Seq<u8>,
}

impl DeepView for PushFrame {
    type V = PushFrameView;

    open spec fn deep_view(&self) -> PushFrameView {
        PushFrameView {
            seq_id: self.seq_id,
            log_id: self.log_id,
            service: self.service,
            method: self.method,
            headers_list: self.headers_list.deep_view(),
            payload_encoding: self.payload_encoding@,
            payload_type: self.payload_type@,
            payload: self.payload@,
        }
    }
}

impl Default for PushFrame {
    fn default() -> (res: Self)
        ensures
            res.deep_view() == empty_frame(),
    {
        let res = PushFrame {
            seq_id: 0,
            log_id: 0,
            service: 0,
            method: 0,
            headers_list: Vec::new(),
            payload_encoding: String::new(),
            payload_type: String::new(),
            payload: Vec::new(),
        };
        assert(res.deep_view() =~= empty_frame());
        res
    }
}

/// A frame with nothing in it.
pub open spec fn empty_frame() -> PushFrameView {
    PushFrameView {
        seq_id: 0,
        log_id: 0,
        service: 0,
        method: 0,
        headers_list: Seq::empty(),
        payload_encoding: Seq::empty(),
        payload_type: Seq::empty(),
        payload: Seq::empty(),
    }
}

/// A picture with its addresses.
pub struct Image {
    pub url_list_list: Vec<String>,
}

/// Membership in one fan club.
pub struct FansClubData {
    pub level: i32,
    pub anchor_id: i64,
}

/// The fan clubs of a user: the one of the room, and others by rank.
pub struct FansClub {
    pub data: Option<FansClubData>,
    pub prefer_data: Vec<(i32, FansClubData)>,
}

/// The model of the fan clubs of a user.
#[verifier::ext_equal]
pub struct FansClubView {
    pub data: Option<FansClubData>,
    pub prefer_data: Seq<(i32, FansClubData)>,
}

impl DeepView for FansClub {
    type V = FansClubView;

    open spec fn deep_view(&self) -> FansClubView {
        FansClubView { data: self.data, prefer_data: self.prefer_data@ }
    }
}

impl DeepView for Image {
    type V = Seq<Seq<char>>;

    open spec fn deep_view(&self) -> Seq<Seq<char>> {
        self.url_list_list.deep_view()
    }
}

/// A chat user.
pub struct User {
    pub id: u64,
    pub short_id: u64,
    pub nick_name: String,
    pub gender: u32,
    pub display_id: String,
    pub sec_uid: String,
    pub id_str: String,
    pub avatar_thumb: Option<Image>,
    pub avatar_medium: Option<Image>,
    pub avatar_large: Option<Image>,
    pub fans_club: Option<FansClub>,
}

/// The model of a chat user; a picture is the list of its addresses.
#[verifier::ext_equal]
pub struct UserView {
    pub id: u64,
    pub short_id: u64,
    pub nick_name: Seq<char>,
    pub gender: u32,
    pub display_id: Seq<char>,
    pub sec_uid: Seq<char>,
    pub id_str: Seq<char>,
    pub avatar_thumb: Option<Seq<Seq<char>>>,
    pub avatar_medium: Option<Seq<Seq<char>>>,
    pub avatar_large: Option<Seq<Seq<char>>>,
    pub fans_club: Option<FansClubView>,
}

impl DeepView for User {
    type V = UserView;

    open spec fn deep_view(&self) -> UserView {
        UserView {
            id: self.id,
            short_id: self.short_id,
            nick_name: self.nick_name@,
            gender: self.gender,
            display_id: self.display_id@,
            sec_uid: self.sec_uid@,
            id_str: self.id_str@,
            avatar_thumb: self.avatar_thumb.deep_view(),
            avatar_medium: self.avatar_medium.deep_view(),
            avatar_large: self.avatar_large.deep_view(),
            fans_club: self.fans_club.deep_view(),
        }
    }
}

/// The user that stands in where a message names none.
pub open spec fn nobody() -> UserView {
    UserView {
        id: 0,
        short_id: 0,
        nick_name: Seq::empty(),
        gender: 0,
        display_id: Seq::empty(),
        sec_uid: Seq::empty(),
        id_str: Seq::empty(),
        avatar_thumb: None,
        avatar_medium: None,
        avatar_large: None,
        fans_club: None,
    }
}

impl Default for User {
    fn default() -> (res: Self)
        ensures
            res.deep_view() == nobody(),
    {
        let res = User {
            id: 0,
            short_id: 0,
            nick_name: String::new(),
            gender: 0,
            display_id: String::new(),
            sec_uid: String::new(),
            id_str: String::new(),
            avatar_thumb: None,
            avatar_medium: None,
            avatar_large: None,
            fans_club: None,
        };
        assert(res.deep_view() =~= nobody());
        res
    }
}

/// What every message carries.
pub struct Common {
    pub msg_id: u64,
    pub create_time: u64,
}

/// A chat message.
pub struct DouyinChatMessage {
    pub common: Option<Common>,
    pub user: Option<User>,
    pub content: String,
    pub event_time: u64,
}

/// The model of a chat message.
#[verifier::ext_equal]
pub struct ChatView {
    pub common: Option<Common>,
    pub user: Option<UserView>,
    pub content: Seq<char>,
    pub event_time: u64,
}

impl DeepView for DouyinChatMessage {
    type V = ChatView;

    open spec fn deep_view(&self) -> ChatView {
        ChatView {
            common: self.common,
            user: self.user.deep_view(),
            content: self.content@,
            event_time: self.event_time,
        }
    }
}

/// A gift as the room sells it.
pub struct GiftStruct {
    pub name: String,
    pub diamond_count: u32,
}

/// A gift that was sent.
pub struct GiftMessage {
    pub user: Option<User>,
    pub gift: Option<GiftStruct>,
    pub repeat_count: u64,
    pub combo_count: u64,
}

/// The model of a gift that was sent.
#[verifier::ext_equal]
pub struct GiftView {
    pub user: Option<UserView>,
    pub gift: Option<(Seq<char>, u32)>,
    pub repeat_count: u64,
    pub combo_count: u64,
}

impl DeepView for GiftMessage {
    type V = GiftView;

    open spec fn deep_view(&self) -> GiftView {
        GiftView {
            user: self.user.deep_view(),
            gift: match self.gift {
                Some(g) => Some((g.name@, g.diamond_count)),
                None => None,
            },
            repeat_count: self.repeat_count,
            combo_count: self.combo_count,
        }
    }
}

/// Likes that were sent.
pub struct LikeMessage {
    pub user: Option<User>,
    pub count: u64,
    pub total: u64,
}

/// The model of likes that were sent.
#[verifier::ext_equal]
pub struct LikeView {
    pub user: Option<UserView>,
    pub count: u64,
    pub total: u64,
}

impl DeepView for LikeMessage {
    type V = LikeView;

    open spec fn deep_view(&self) -> LikeView {
        LikeView { user: self.user.deep_view(), count: self.count, total: self.total }
    }
}

/// A user who came into the room.
pub struct MemberMessage {
    pub user: Option<User>,
    pub action_description: String,
}

/// The model of a user who came into the room.
#[verifier::ext_equal]
pub struct MemberView {
    pub user: Option<UserView>,
    pub action_description: Seq<char>,
}

impl DeepView for MemberMessage {
    type V = MemberView;

    open spec fn deep_view(&self) -> MemberView {
        MemberView { user: self.user.deep_view(), action_description: self.action_description@ }
    }
}

/// What the payload of a message holds, once it is decoded for its method. A payload that its
/// decoder refuses is malformed.
pub enum MessageBody {
    Chat(DouyinChatMessage),
    Gift(GiftMessage),
    Like(LikeMessage),
    Member(MemberMessage),
    Malformed,
}

/// The model of a decoded payload.
#[verifier::ext_equal]
pub enum BodyView {
    Chat(ChatView),
    Gift(GiftView),
    Like(LikeView),
    Member(MemberView),
    Malformed,
}

impl DeepView for MessageBody {
    type V = BodyView;

    open spec fn deep_view(&self) -> BodyView {
        match self {
            MessageBody::Chat(m) => BodyView::Chat(m.deep_view()),
            MessageBody::Gift(m) => BodyView::Gift(m.deep_view()),
            MessageBody::Like(m) => BodyView::Like(m.deep_view()),
            MessageBody::Member(m) => BodyView::Member(m.deep_view()),
            MessageBody::Malformed => BodyView::Malformed,
        }
    }
}

/// One message of a frame: its method, its payload and what the payload holds.
pub struct CommonMessage {
    pub method: String,
    pub payload: Vec<u8>,
    pub msg_id: i64,
    pub body: MessageBody,
}

/// The model of a message of a frame.
#[verifier::ext_equal]
pub struct MessageView {
    pub method: Seq<char>,
    pub payload: Seq<u8>,
    pub msg_id: i64,
    pub body: BodyView,
}

impl DeepView for CommonMessage {
    type V = MessageView;

    open spec fn deep_view(&self) -> MessageView {
        MessageView {
            method: self.method@,
            payload: self.payload@,
            msg_id: self.msg_id,
            body: self.body.deep_view(),
        }
    }
}

/// The contents of a frame.
pub struct Response {
    pub messages_list: Vec<CommonMessage>,
    pub internal_ext: String,
    pub need_ack: bool,
}

/// The model of the contents of a frame.
#[verifier::ext_equal]
pub struct ResponseView {
    pub messages_list: Seq<MessageView>,
    pub internal_ext: Seq<char>,
    pub need_ack: bool,
}

impl DeepView for Response {
    type V = ResponseView;

    open spec fn deep_view(&self) -> ResponseView {
        ResponseView {
            messages_list: self.messages_list.deep_view(),
            internal_ext: self.internal_ext@,
            need_ack: self.need_ack,
        }
    }
}

/// Contents with nothing in them, which ask for no acknowledgement.
pub open spec fn empty_response() -> ResponseView {
    ResponseView { messages_list: Seq::empty(), internal_ext: Seq::empty(), need_ack: false }
}

impl Default for Response {
    fn default() -> (res: Self)
        ensures
            res.deep_view() == empty_response(),
    {
        let res = Response {
            messages_list: Vec::new(),
            internal_ext: String::new(),
            need_ack: false,
        };
        assert(res.deep_view() =~= empty_response());
        res
    }
}

/// The decoder that a message method asks for.
pub enum MessageKind {
    Chat,
    Gift,
    Like,
    Member,
    Unknown,
}

/// The decoder that a message method asks for.
pub open spec fn kind_of(method: Seq<char>) -> MessageKind {
    if method == "WebcastChatMessage"@ {
        MessageKind::Chat
    } else if method == "WebcastGiftMessage"@ {
        MessageKind::Gift
    } else if method == "WebcastLikeMessage"@ {
        MessageKind::Like
    } else if method == "WebcastMemberMessage"@ {
        MessageKind::Member
    } else {
        MessageKind::Unknown
    }
}

/// The decoder that a message method asks for.
pub fn message_kind(method: &str) -> (res: MessageKind)
    ensures
        res == kind_of(method@),
{
    if text::same(method, "WebcastChatMessage") {
        MessageKind::Chat
    } else if text::same(method, "WebcastGiftMessage") {
        MessageKind::Gift
    } else if text::same(method, "WebcastLikeMessage") {
        MessageKind::Like
    } else if text::same(method, "WebcastMemberMessage") {
        MessageKind::Member
    } else {
        MessageKind::Unknown
    }
}

/// The acknowledgement of a frame: its cursor goes back under the frame's own number.
pub open spec fn ack_of(frame: PushFrameView, response: ResponseView) -> Option<PushFrameView> {
    if response.need_ack {
        Some(
            PushFrameView {
                payload_type: "ack"@,
                log_id: frame.log_id,
                payload: encode_utf8(response.internal_ext),
                ..empty_frame()
            },
        )
    } else {
        None
    }
}

/// The bytes of a text.
pub fn bytes_of(s: &str) -> (res: Vec<u8>)
    ensures
        res@ == encode_utf8(s@),
{
    let bytes = s.as_bytes();
    let mut out: Vec<u8> = Vec::new();
    let mut i: usize = 0;
    while i < bytes.len()
        invariant
            i <= bytes@.len(),
            out@ == bytes@.take(i as int),
        decreases bytes@.len() - i,
    {
        out.push(bytes[i]);
        i += 1;
        assert(out@ =~= bytes@.take(i as int));
    }
    assert(out@ =~= bytes@);
    out
}

/// The acknowledgement of a frame, where the server asks for one.
pub fn build_ack(push_frame: &PushFrame, response: &Response) -> (res: Option<PushFrame>)
    ensures
        res.deep_view() == ack_of(push_frame.deep_view(), response.deep_view()),
{
    if response.need_ack {
        let ack = PushFrame {
            payload_type: text::copy("ack"),
            log_id: push_frame.log_id,
            payload_encoding: String::new(),
            payload: bytes_of(response.internal_ext.as_str()),
            seq_id: 0,
            service: 0,
            method: 0,
            headers_list: Vec::new(),
        };
        assert(ack.deep_view() =~= ack_of(push_frame.deep_view(), response.deep_view())->0);
        Some(ack)
    } else {
        None
    }
}

/// `chrono::Utc::now` in milliseconds. Nothing is promised of the reading.
#[verifier::external_body]
pub(crate) fn now_millis() -> (res: i64) {
    chrono::Utc::now().timestamp_millis()
}

/// The time of an event in milliseconds: seconds are scaled up, no time at all is `now`, and what
/// does not fit is held to the largest number.
pub open spec fn event_millis(event_time: int, now: int) -> int {
    if event_time == 0 {
        if now >= 0 {
            now
        } else {
            i64::MAX as int
        }
    } else if event_time < 10_000_000_000 {
        event_time * 1000
    } else if event_time > i64::MAX {
        i64::MAX as int
    } else {
        event_time
    }
}

/// The time of an event in milliseconds, where `now` stands in for a missing time.
pub fn douyin_timestamp_millis_at(event_time: u64, now: i64) -> (res: i64)
    ensures
        res == event_millis(event_time as int, now as int),
{
    if event_time == 0 {
        if now >= 0 {
            now
        } else {
            i64::MAX
        }
    } else if event_time < 10_000_000_000 {
        (event_time * 1000) as i64
    } else if event_time > i64::MAX as u64 {
        i64::MAX
    } else {
        event_time as i64
    }
}

/// The time of an event in milliseconds; an event without a time takes the present.
pub fn douyin_timestamp_millis(event_time: u64) -> (res: i64)
    ensures
        exists|now: i64| res == #[trigger] event_millis(event_time as int, now as int),
        event_time != 0 ==> res == event_millis(event_time as int, 0),
{
    let now = now_millis();
    douyin_timestamp_millis_at(event_time, now)
}

/// The addresses of a picture; a missing picture has none.
pub open spec fn addresses(image: Option<Seq<Seq<char>>>) -> Seq<Seq<char>> {
    match image {
        Some(urls) => urls,
        None => Seq::empty(),
    }
}

/// The first text of a list that is not empty.
pub open spec fn first_nonempty(list: Seq<Seq<char>>) -> Option<Seq<char>>
    decreases list.len(),
{
    if list.len() == 0 {
        None
    } else if list[0].len() > 0 {
        Some(list[0])
    } else {
        first_nonempty(list.drop_first())
    }
}

/// The address of a user's picture: the smallest picture that has one.
pub open spec fn avatar_of(user: UserView) -> Option<Seq<char>> {
    match first_nonempty(addresses(user.avatar_thumb)) {
        Some(url) => Some(url),
        None => match first_nonempty(addresses(user.avatar_medium)) {
            Some(url) => Some(url),
            None => first_nonempty(addresses(user.avatar_large)),
        },
    }
}

fn first_address(image: &Option<Image>) -> (res: Option<String>)
    ensures
        res.deep_view() == first_nonempty(addresses(image.deep_view())),
{
    match image {
        Some(picture) => {
            let urls = &picture.url_list_list;
            let ghost all = urls.deep_view();
            let mut i: usize = 0;
            assert(all.skip(0) =~= all);
            while i < urls.len()
                invariant
                    i <= urls@.len(),
                    all == urls.deep_view(),
                    addresses(image.deep_view()) == all,
                    first_nonempty(all.skip(i as int)) == first_nonempty(all),
                decreases urls@.len() - i,
            {
                let ghost rest = all.skip(i as int);
                assert(rest[0] == urls@[i as int]@);
                if !text::is_empty(urls[i].as_str()) {
                    return Some(text::copy(urls[i].as_str()));
                }
                assert(rest.drop_first() =~= all.skip(i + 1));
                i += 1;
            }
            assert(all.skip(i as int).len() == 0);
            None
        },
        None => None,
    }
}

/// The address of a user's picture, if any picture has one.
pub fn douyin_avatar_url(user: &User) -> (res: Option<String>)
    ensures
        res.deep_view() == avatar_of(user.deep_view()),
{
    match first_address(&user.avatar_thumb) {
        Some(url) => Some(url),
        None => match first_address(&user.avatar_medium) {
            Some(url) => Some(url),
            None => first_address(&user.avatar_large),
        },
    }
}

/// The order of fan clubs: by anchor, then by level.
pub open spec fn club_before(a: (i64, i32), b: (i64, i32)) -> bool {
    a.0 < b.0 || (a.0 == b.0 && a.1 < b.1)
}

/// A list of fan clubs with one more, in order and without duplicates.
pub open spec fn with_club(clubs: Seq<(i64, i32)>, c: (i64, i32)) -> Seq<(i64, i32)>
    decreases clubs.len(),
{
    if clubs.len() == 0 {
        seq![c]
    } else if clubs[0] == c {
        clubs
    } else if club_before(c, clubs[0]) {
        seq![c] + clubs
    } else {
        seq![clubs[0]] + with_club(clubs.drop_first(), c)
    }
}

/// The memberships that name an anchor, in order and without duplicates.
pub open spec fn ordered_clubs(list: Seq<(i32, FansClubData)>) -> Seq<(i64, i32)>
    decreases list.len(),
{
    if list.len() == 0 {
        Seq::empty()
    } else {
        let before = ordered_clubs(list.drop_last());
        let data = list.last().1;
        if data.anchor_id != 0 {
            with_club(before, (data.anchor_id, data.level))
        } else {
            before
        }
    }
}

/// A list of fan clubs without one of them.
pub open spec fn without_club(clubs: Seq<(i64, i32)>, c: (i64, i32)) -> Seq<(i64, i32)>
    decreases clubs.len(),
{
    if clubs.len() == 0 {
        Seq::empty()
    } else {
        let before = without_club(clubs.drop_last(), c);
        if clubs.last() == c {
            before
        } else {
            before.push(clubs.last())
        }
    }
}

/// The fan clubs of a user: the one of the room first, then the others in order.
pub open spec fn clubs_of(user: UserView) -> Seq<(i64, i32)> {
    match user.fans_club {
        Some(club) => {
            let others = ordered_clubs(club.prefer_data);
            match club.data {
                Some(data) => if data.anchor_id != 0 {
                    let own = (data.anchor_id, data.level);
                    seq![own] + without_club(others, own)
                } else {
                    others
                },
                None => others,
            }
        },
        None => Seq::empty(),
    }
}

/// Whether fan clubs stand in strictly rising order.
pub open spec fn rising(clubs: Seq<(i64, i32)>) -> bool {
    forall|i: int, j: int|
        #![trigger clubs[i], clubs[j]]
        0 <= i < j < clubs.len() ==> club_before(clubs[i], clubs[j])
}

proof fn lemma_with_club(clubs: Seq<(i64, i32)>, c: (i64, i32))
    requires
        rising(clubs),
    ensures
        rising(with_club(clubs, c)),
        forall|x: (i64, i32)| #[trigger]
            with_club(clubs, c).contains(x) <==> clubs.contains(x) || x == c,
        clubs.len() <= with_club(clubs, c).len() <= clubs.len() + 1,
    decreases clubs.len(),
{
    let out = with_club(clubs, c);
    if clubs.len() == 0 {
        assert(out[0] == c);
    } else if clubs[0] == c {
    } else if club_before(c, clubs[0]) {
        assert(out[0] == c);
        assert forall|x: (i64, i32)| #[trigger] out.contains(x) <==> clubs.contains(x) || x
            == c by {
            if clubs.contains(x) {
                let i = choose|i: int| 0 <= i < clubs.len() && clubs[i] == x;
                assert(out[i + 1] == x);
            }
        }
    } else {
        let rest = clubs.drop_first();
        lemma_with_club(rest, c);
        let tail = with_club(rest, c);
        assert forall|i: int, j: int| 0 <= i < j < out.len() implies club_before(
            out[i],
            out[j],
        ) by {
            assert(out[j] == tail[j - 1]);
            if i == 0 {
                assert(tail.contains(out[j]));
                if rest.contains(out[j]) {
                    let k = choose|k: int| 0 <= k < rest.len() && rest[k] == out[j];
                    assert(clubs[k + 1] == out[j]);
                }
            } else {
                assert(out[i] == tail[i - 1]);
            }
        }
        assert forall|x: (i64, i32)| #[trigger] out.contains(x) <==> clubs.contains(x) || x
            == c by {
            if out.contains(x) {
                let i = choose|i: int| 0 <= i < out.len() && out[i] == x;
                if i > 0 {
                    assert(tail[i - 1] == x);
                    assert(tail.contains(x));
                    if rest.contains(x) {
                        let k = choose|k: int| 0 <= k < rest.len() && rest[k] == x;
                        assert(clubs[k + 1] == x);
                    }
                } else {
                    assert(clubs[0] == x);
                }
            }
            if clubs.contains(x) || x == c {
                if x == clubs[0] {
                    assert(out[0] == x);
                } else {
                    if clubs.contains(x) {
                        let i = choose|i: int| 0 <= i < clubs.len() && clubs[i] == x;
                        assert(rest[i - 1] == x);
                        assert(rest.contains(x));
                    }
                    assert(tail.contains(x));
                    let k = choose|k: int| 0 <= k < tail.len() && tail[k] == x;
                    assert(out[k + 1] == x);
                }
            }
        }
    }
}

/// Whether a membership list names a club with its anchor.
pub open spec fn names_club(list: Seq<(i32, FansClubData)>, c: (i64, i32)) -> bool {
    c.0 != 0 && exists|i: int|
        0 <= i < list.len() && (#[trigger] list[i]).1.anchor_id == c.0 && list[i].1.level == c.1
}

/// The ordered clubs are exactly the clubs that the memberships name, each once and in order.
pub proof fn lemma_ordered_clubs(list: Seq<(i32, FansClubData)>)
    ensures
        rising(ordered_clubs(list)),
        forall|c: (i64, i32)| #[trigger]
            ordered_clubs(list).contains(c) <==> names_club(list, c),
        ordered_clubs(list).len() <= list.len(),
    decreases list.len(),
{
    if list.len() > 0 {
        let init = list.drop_last();
        lemma_ordered_clubs(init);
        let before = ordered_clubs(init);
        let data = list.last().1;
        let own = (data.anchor_id, data.level);
        if data.anchor_id != 0 {
            lemma_with_club(before, own);
        }
        assert forall|c: (i64, i32)| #[trigger]
            ordered_clubs(list).contains(c) <==> names_club(list, c) by {
            if names_club(init, c) {
                let i = choose|i: int|
                    0 <= i < init.len() && (#[trigger] init[i]).1.anchor_id == c.0
                        && init[i].1.level == c.1;
                assert(list[i] == init[i]);
            }
            if names_club(list, c) {
                let i = choose|i: int|
                    0 <= i < list.len() && (#[trigger] list[i]).1.anchor_id == c.0
                        && list[i].1.level == c.1;
                if i < list.len() - 1 {
                    assert(init[i] == list[i]);
                    assert(names_club(init, c));
                }
            }
            if c == own && c.0 != 0 {
                assert(list[list.len() - 1].1.anchor_id == c.0);
            }
            assert(before.contains(c) <==> names_club(init, c));
        }
    }
}

proof fn lemma_rising_unique(a: Seq<(i64, i32)>, b: Seq<(i64, i32)>)
    requires
        rising(a),
        rising(b),
        forall|c: (i64, i32)| #[trigger] a.contains(c) <==> b.contains(c),
    ensures
        a == b,
    decreases a.len(),
{
    if a.len() == 0 {
        if b.len() > 0 {
            assert(b.contains(b[0]));
            assert(a.contains(b[0]));
        }
        assert(a =~= b);
    } else {
        assert(a.contains(a[0]));
        assert(b.contains(a[0]));
        let i = choose|i: int| 0 <= i < b.len() && b[i] == a[0];
        assert(b.contains(b[0]));
        assert(a.contains(b[0]));
        let j = choose|j: int| 0 <= j < a.len() && a[j] == b[0];
        assert(a[0] == b[0]);
        let ra = a.drop_first();
        let rb = b.drop_first();
        assert forall|c: (i64, i32)| #[trigger] ra.contains(c) <==> rb.contains(c) by {
            if ra.contains(c) {
                let k = choose|k: int| 0 <= k < ra.len() && ra[k] == c;
                assert(a[k + 1] == c);
                assert(a.contains(c));
                assert(b.contains(c));
                let l = choose|l: int| 0 <= l < b.len() && b[l] == c;
                assert(l != 0);
                assert(rb[l - 1] == c);
            }
            if rb.contains(c) {
                let k = choose|k: int| 0 <= k < rb.len() && rb[k] == c;
                assert(b[k + 1] == c);
                assert(b.contains(c));
                assert(a.contains(c));
                let l = choose|l: int| 0 <= l < a.len() && a[l] == c;
                assert(l != 0);
                assert(ra[l - 1] == c);
            }
        }
        lemma_rising_unique(ra, rb);
        assert(a =~= seq![a[0]] + ra);
        assert(b =~= seq![b[0]] + rb);
    }
}

proof fn lemma_without_club(clubs: Seq<(i64, i32)>, c: (i64, i32))
    requires
        rising(clubs),
    ensures
        rising(without_club(clubs, c)),
        forall|x: (i64, i32)| #[trigger]
            without_club(clubs, c).contains(x) <==> clubs.contains(x) && x != c,
    decreases clubs.len(),
{
    let out = without_club(clubs, c);
    if clubs.len() > 0 {
        let init = clubs.drop_last();
        lemma_without_club(init, c);
        let before = without_club(init, c);
        assert forall|i: int, j: int| 0 <= i < j < out.len() implies club_before(
            out[i],
            out[j],
        ) by {
            assert(before.contains(out[i])) by {
                assert(out[i] == before[i]);
            }
            if j < before.len() {
                assert(out[j] == before[j]);
            } else {
                let k = choose|k: int| 0 <= k < init.len() && init[k] == out[i];
                assert(clubs[k] == out[i]);
                assert(out[j] == clubs[clubs.len() - 1]);
            }
        }
        assert forall|x: (i64, i32)| #[trigger] out.contains(x) <==> clubs.contains(x) && x
            != c by {
            assert(before.contains(x) <==> init.contains(x) && x != c);
            if clubs.contains(x) && x != c {
                let k = choose|k: int| 0 <= k < clubs.len() && clubs[k] == x;
                if k < clubs.len() - 1 {
                    assert(init[k] == x);
                    let m = choose|m: int| 0 <= m < before.len() && before[m] == x;
                    assert(out[m] == x);
                } else {
                    assert(out[out.len() - 1] == x);
                }
            }
            if out.contains(x) {
                let k = choose|k: int| 0 <= k < out.len() && out[k] == x;
                if k < before.len() {
                    assert(before[k] == x);
                    assert(init.contains(x));
                    let m = choose|m: int| 0 <= m < init.len() && init[m] == x;
                    assert(clubs[m] == x);
                } else {
                    assert(clubs[clubs.len() - 1] == x);
                }
            }
        }
    }
}

/// The order in which memberships are listed does not matter.
pub proof fn law_clubs_ignore_the_listing_order(
    a: Seq<(i32, FansClubData)>,
    b: Seq<(i32, FansClubData)>,
)
    requires
        forall|c: (i64, i32)| #[trigger] names_club(a, c) <==> names_club(b, c),
    ensures
        ordered_clubs(a) == ordered_clubs(b),
{
    lemma_ordered_clubs(a);
    lemma_ordered_clubs(b);
    assert forall|c: (i64, i32)| #[trigger]
        ordered_clubs(a).contains(c) <==> ordered_clubs(b).contains(c) by {
        assert(names_club(a, c) <==> names_club(b, c));
    }
    lemma_rising_unique(ordered_clubs(a), ordered_clubs(b));
}

proof fn lemma_with_club_at(clubs: Seq<(i64, i32)>, c: (i64, i32), p: int)
    requires
        0 <= p <= clubs.len(),
        forall|j: int| 0 <= j < p ==> club_before(#[trigger] clubs[j], c),
        p < clubs.len() ==> !club_before(clubs[p], c),
    ensures
        with_club(clubs, c) == (if p < clubs.len() && clubs[p] == c {
            clubs
        } else {
            clubs.insert(p, c)
        }),
    decreases p,
{
    if p == 0 {
        if clubs.len() == 0 || clubs[0] != c {
            assert(clubs.insert(0, c) =~= seq![c] + clubs);
        }
    } else {
        let rest = clubs.drop_first();
        assert(club_before(clubs[0], c));
        assert forall|j: int| 0 <= j < p - 1 implies club_before(#[trigger] rest[j], c) by {
            assert(rest[j] == clubs[j + 1]);
        }
        lemma_with_club_at(rest, c, p - 1);
        if p < clubs.len() && clubs[p] == c {
            assert(seq![clubs[0]] + rest =~= clubs);
        } else {
            assert(seq![clubs[0]] + rest.insert(p - 1, c) =~= clubs.insert(p, c));
        }
    }
}

fn add_club(clubs: &mut Vec<(i64, i32)>, c: (i64, i32))
    ensures
        final(clubs)@ == with_club(old(clubs)@, c),
{
    let mut p: usize = 0;
    while p < clubs.len() && (clubs[p].0 < c.0 || (clubs[p].0 == c.0 && clubs[p].1 < c.1))
        invariant
            p <= clubs@.len(),
            clubs@ == old(clubs)@,
            forall|j: int| 0 <= j < p ==> club_before(#[trigger] clubs@[j], c),
        decreases clubs@.len() - p,
    {
        p += 1;
    }
    proof {
        lemma_with_club_at(clubs@, c, p as int);
    }
    if p < clubs.len() && clubs[p].0 == c.0 && clubs[p].1 == c.1 {
        return;
    }
    clubs.insert(p, c);
}

/// The fan clubs of a user as pairs of anchor and level.
pub fn douyin_fans_clubs(user: &User) -> (res: Vec<(i64, i32)>)
    ensures
        res@ == clubs_of(user.deep_view()),
{
    let fans_club = match &user.fans_club {
        Some(club) => club,
        None => {
            let none: Vec<(i64, i32)> = Vec::new();
            assert(none@ =~= clubs_of(user.deep_view()));
            return none;
        },
    };
    let mut others: Vec<(i64, i32)> = Vec::new();
    let ghost all = fans_club.prefer_data@;
    let mut i: usize = 0;
    assert(all.take(0) =~= Seq::empty());
    while i < fans_club.prefer_data.len()
        invariant
            i <= all.len(),
            all == fans_club.prefer_data@,
            others@ == ordered_clubs(all.take(i as int)),
        decreases all.len() - i,
    {
        let data = &fans_club.prefer_data[i].1;
        assert(all.take(i + 1).drop_last() =~= all.take(i as int));
        if data.anchor_id != 0 {
            add_club(&mut others, (data.anchor_id, data.level));
        }
        i += 1;
    }
    assert(all.take(i as int) =~= all);
    if let Some(data) = &fans_club.data {
        if data.anchor_id != 0 {
            let own = (data.anchor_id, data.level);
            let mut clubs: Vec<(i64, i32)> = Vec::new();
            clubs.push(own);
            let mut j: usize = 0;
            assert(others@.take(0) =~= Seq::<(i64, i32)>::empty());
            assert(clubs@ =~= seq![own] + without_club(others@.take(0), own));
            while j < others.len()
                invariant
                    j <= others@.len(),
                    clubs@ == seq![own] + without_club(others@.take(j as int), own),
                decreases others@.len() - j,
            {
                let ghost next = others@.take(j + 1);
                assert(next.drop_last() =~= others@.take(j as int));
                let c = others[j];
                if c.0 != own.0 || c.1 != own.1 {
                    clubs.push(c);
                    assert(clubs@ =~= seq![own] + without_club(next, own));
                }
                j += 1;
            }
            assert(others@.take(j as int) =~= others@);
            return clubs;
        }
    }
    others
}

/// A user's fan clubs are listed once each, and they are those that the memberships name.
pub proof fn law_fans_clubs(user: UserView)
    ensures
        clubs_of(user).no_duplicates(),
        user.fans_club matches Some(club) ==> forall|c: (i64, i32)| #[trigger]
            clubs_of(user).contains(c) <==> names_club(club.prefer_data, c) || (
            club.data matches Some(d) && d.anchor_id != 0 && c == (d.anchor_id, d.level)),
{
    if let Some(club) = user.fans_club {
        lemma_ordered_clubs(club.prefer_data);
        let others = ordered_clubs(club.prefer_data);
        if let Some(d) = club.data {
            if d.anchor_id != 0 {
                let own = (d.anchor_id, d.level);
                let kept = without_club(others, own);
                let out = clubs_of(user);
                lemma_without_club(others, own);
                assert forall|i: int, j: int| 0 <= i < j < out.len() implies out[i] != out[j] by {
                    assert(out[j] == kept[j - 1]);
                    assert(kept.contains(out[j]));
                    if i > 0 {
                        assert(out[i] == kept[i - 1]);
                        assert(club_before(kept[i - 1], kept[j - 1]));
                    }
                }
                assert forall|c: (i64, i32)| #[trigger]
                    out.contains(c) <==> names_club(club.prefer_data, c) || c == own by {
                    if out.contains(c) {
                        let i = choose|i: int| 0 <= i < out.len() && out[i] == c;
                        if i > 0 {
                            assert(kept[i - 1] == c);
                            assert(kept.contains(c));
                        }
                    }
                    assert(others.contains(c) <==> names_club(club.prefer_data, c));
                    if c == own {
                        assert(out[0] == c);
                    } else if others.contains(c) {
                        assert(kept.contains(c));
                        let k = choose|k: int| 0 <= k < kept.len() && kept[k] == c;
                        assert(out[k + 1] == c);
                    }
                }
            }
        }
    }
}

/// The time that a chat message gives: its own, or that of its envelope; none is zero.
pub open spec fn chat_time(chat: ChatView) -> u64 {
    if chat.event_time != 0 {
        chat.event_time
    } else {
        match chat.common {
            Some(common) => common.create_time,
            None => 0,
        }
    }
}

/// The identifier of a chat message: its own, or that of its envelope.
pub open spec fn chat_id(chat: ChatView, envelope: i64) -> Seq<char> {
    match chat.common {
        Some(common) => if common.msg_id != 0 {
            digits::signed_decimal(common.msg_id as int)
        } else {
            digits::signed_decimal(envelope as int)
        },
        None => digits::signed_decimal(envelope as int),
    }
}

/// The sender of a chat message.
pub open spec fn chat_user(chat: ChatView) -> UserView {
    match chat.user {
        Some(user) => user,
        None => nobody(),
    }
}

/// The identifier of a user: the stable one, else the textual one, else the number.
pub open spec fn user_id(user: UserView) -> Seq<char> {
    if user.sec_uid.len() > 0 {
        user.sec_uid
    } else if user.id_str.len() > 0 {
        user.id_str
    } else {
        digits::signed_decimal(user.id as int)
    }
}

/// The record of a fan club.
pub open spec fn club_record(c: (i64, i32)) -> JsonView {
    JsonView::Object(
        seq![
            ("anchorId"@, JsonView::Text(digits::signed_decimal(c.0 as int))),
            ("level"@, json::integer(c.1 as int)),
        ],
    )
}

/// The record of a user.
pub open spec fn user_record(user: UserView) -> JsonView {
    let clubs = clubs_of(user);
    JsonView::Object(
        seq![
            ("id"@, JsonView::Text(user_id(user))),
            ("numericId"@, JsonView::Text(digits::signed_decimal(user.id as int))),
            ("shortId"@, JsonView::Text(digits::signed_decimal(user.short_id as int))),
            ("displayId"@, JsonView::Text(user.display_id)),
            ("name"@, JsonView::Text(user.nick_name)),
            ("gender"@, json::integer(user.gender as int)),
            ("avatar"@, json::optional_text(avatar_of(user))),
            (
                "currentTargetAnchorId"@,
                if clubs.len() > 0 {
                    JsonView::Text(digits::signed_decimal(clubs[0].0 as int))
                } else {
                    JsonView::Null
                },
            ),
            ("fansClub"@, JsonView::Array(clubs.map_values(|c: (i64, i32)| club_record(c)))),
        ],
    )
}

/// The full record of a chat message.
pub open spec fn chat_raw(
    method: Seq<char>,
    envelope: i64,
    payload: Seq<u8>,
    chat: ChatView,
    time: int,
) -> JsonView {
    JsonView::Object(
        seq![
            ("id"@, JsonView::Text(chat_id(chat, envelope))),
            ("method"@, JsonView::Text(method)),
            ("user"@, user_record(chat_user(chat))),
            ("content"@, JsonView::Text(chat.content)),
            ("time"@, json::integer(time)),
            ("payloadHex"@, JsonView::Text(digits::hex(payload))),
        ],
    )
}

/// The summary of a chat message that the recorder works with.
pub open spec fn chat_data(method: Seq<char>, envelope: i64, chat: ChatView) -> JsonView {
    let user = chat_user(chat);
    JsonView::Object(
        seq![
            ("id"@, JsonView::Text(chat_id(chat, envelope))),
            ("method"@, JsonView::Text(method)),
            ("user"@, user_record(user)),
            ("user_id"@, JsonView::Text(user_id(user))),
            ("user_name"@, JsonView::Text(user.nick_name)),
            ("content"@, JsonView::Text(chat.content)),
            ("color"@, json::integer(0xffffff)),
        ],
    )
}

/// The event of a chat message, where `now` stands in for a missing time.
pub open spec fn chat_event(
    room_id: Seq<char>,
    method: Seq<char>,
    envelope: i64,
    payload: Seq<u8>,
    chat: ChatView,
    now: i64,
) -> LiveEventView {
    let time = event_millis(chat_time(chat) as int, now as int);
    LiveEventView {
        ts: time as i64,
        platform: "douyin"@,
        room_id,
        event_type: "danmu"@,
        data: chat_data(method, envelope, chat),
        raw: chat_raw(method, envelope, payload, chat, time),
    }
}

fn user_id_text(user: &User) -> (res: String)
    ensures
        res@ == user_id(user.deep_view()),
{
    if !text::is_empty(user.sec_uid.as_str()) {
        text::copy(user.sec_uid.as_str())
    } else if !text::is_empty(user.id_str.as_str()) {
        text::copy(user.id_str.as_str())
    } else {
        digits::u64_text(user.id)
    }
}

fn club_json(c: (i64, i32)) -> (res: Json)
    ensures
        res.deep_view() == club_record(c),
{
    let mut members: Vec<(String, Json)> = Vec::new();
    members.push((text::copy("anchorId"), Json::owned_text(digits::i64_text(c.0))));
    members.push((text::copy("level"), Json::integer(c.1 as i64)));
    let res = Json::Object(members);
    assert(res.deep_view()->Object_0 =~= club_record(c)->Object_0);
    res
}

/// The record of a user.
pub fn user_json(user: &User) -> (res: Json)
    ensures
        res.deep_view() == user_record(user.deep_view()),
{
    let clubs = douyin_fans_clubs(user);
    let mut items: Vec<Json> = Vec::new();
    let mut i: usize = 0;
    while i < clubs.len()
        invariant
            i <= clubs@.len(),
            items@.len() == i,
            forall|j: int| 0 <= j < i ==> (#[trigger] items@[j]).deep_view() == club_record(clubs@[j]),
        decreases clubs@.len() - i,
    {
        items.push(club_json(clubs[i]));
        i += 1;
    }
    let anchor = if clubs.len() > 0 {
        Json::owned_text(digits::i64_text(clubs[0].0))
    } else {
        Json::null()
    };
    let fans = Json::Array(items);
    assert(fans.deep_view()->Array_0 =~= clubs@.map_values(|c: (i64, i32)| club_record(c)));
    let avatar = douyin_avatar_url(user);
    let mut members: Vec<(String, Json)> = Vec::new();
    members.push((text::copy("id"), Json::owned_text(user_id_text(user))));
    members.push((text::copy("numericId"), Json::owned_text(digits::u64_text(user.id))));
    members.push((text::copy("shortId"), Json::owned_text(digits::u64_text(user.short_id))));
    members.push((text::copy("displayId"), Json::text(user.display_id.as_str())));
    members.push((text::copy("name"), Json::text(user.nick_name.as_str())));
    members.push((text::copy("gender"), Json::integer(user.gender as i64)));
    members.push((text::copy("avatar"), Json::optional(&avatar)));
    members.push((text::copy("currentTargetAnchorId"), anchor));
    members.push((text::copy("fansClub"), fans));
    let res = Json::Object(members);
    assert(res.deep_view()->Object_0 =~= user_record(user.deep_view())->Object_0);
    res
}

/// The event of a chat message, where `now` stands in for a missing time.
pub fn douyin_chat_event_at(
    room_id: &str,
    method: &str,
    envelope_message_id: i64,
    payload: &[u8],
    chat_msg: &DouyinChatMessage,
    now: i64,
) -> (res: LiveEvent)
    ensures
        res.deep_view() == chat_event(
            room_id@,
            method@,
            envelope_message_id,
            payload@,
            chat_msg.deep_view(),
            now,
        ),
{
    let timestamp_source = if chat_msg.event_time != 0 {
        chat_msg.event_time
    } else {
        match &chat_msg.common {
            Some(common) => common.create_time,
            None => 0,
        }
    };
    let timestamp = douyin_timestamp_millis_at(timestamp_source, now);
    let message_id = match &chat_msg.common {
        Some(common) => if common.msg_id != 0 {
            digits::u64_text(common.msg_id)
        } else {
            digits::i64_text(envelope_message_id)
        },
        None => digits::i64_text(envelope_message_id),
    };
    let nobody = User::default();
    let user = match &chat_msg.user {
        Some(user) => user,
        None => &nobody,
    };
    let user_data = user_json(user);
    let mut data: Vec<(String, Json)> = Vec::new();
    data.push((text::copy("id"), Json::text(message_id.as_str())));
    data.push((text::copy("method"), Json::text(method)));
    data.push((text::copy("user"), user_data.clone()));
    data.push((text::copy("user_id"), Json::owned_text(user_id_text(user))));
    data.push((text::copy("user_name"), Json::text(user.nick_name.as_str())));
    data.push((text::copy("content"), Json::text(chat_msg.content.as_str())));
    data.push((text::copy("color"), Json::integer(0xffffff)));
    let mut raw: Vec<(String, Json)> = Vec::new();
    raw.push((text::copy("id"), Json::owned_text(message_id)));
    raw.push((text::copy("method"), Json::text(method)));
    raw.push((text::copy("user"), user_data));
    raw.push((text::copy("content"), Json::text(chat_msg.content.as_str())));
    raw.push((text::copy("time"), Json::integer(timestamp)));
    raw.push((text::copy("payloadHex"), Json::owned_text(digits::hex_text(payload))));
    let res = LiveEvent {
        ts: timestamp,
        platform: text::copy("douyin"),
        room_id: text::copy(room_id),
        event_type: text::copy("danmu"),
        data: Json::Object(data),
        raw: Json::Object(raw),
    };
    proof {
        let chat = chat_msg.deep_view();
        assert(res.deep_view().data->Object_0 =~= chat_data(
            method@,
            envelope_message_id,
            chat,
        )->Object_0);
        assert(res.deep_view().raw->Object_0 =~= chat_raw(
            method@,
            envelope_message_id,
            payload@,
            chat,
            timestamp as int,
        )->Object_0);
    }
    res
}

/// The event of a chat message; a message without a time takes the present.
pub fn douyin_chat_event(
    room_id: &str,
    method: &str,
    envelope_message_id: i64,
    payload: &[u8],
    chat_msg: DouyinChatMessage,
) -> (res: LiveEvent)
    ensures
        exists|now: i64|
            res.deep_view() == #[trigger] chat_event(
                room_id@,
                method@,
                envelope_message_id,
                payload@,
                chat_msg.deep_view(),
                now,
            ),
        chat_time(chat_msg.deep_view()) != 0 ==> res.deep_view() == chat_event(
            room_id@,
            method@,
            envelope_message_id,
            payload@,
            chat_msg.deep_view(),
            0,
        ),
{
    let now = now_millis();
    douyin_chat_event_at(room_id, method, envelope_message_id, payload, &chat_msg, now)
}

/// The record that a non-chat message keeps of its payload.
pub open spec fn payload_record(method: Seq<char>, payload: Seq<u8>) -> JsonView {
    JsonView::Object(
        seq![
            ("method"@, JsonView::Text(method)),
            ("payload_hex"@, JsonView::Text(digits::hex(payload))),
        ],
    )
}

fn payload_json(method: &str, payload: &[u8]) -> (res: Json)
    ensures
        res.deep_view() == payload_record(method@, payload@),
{
    let mut members: Vec<(String, Json)> = Vec::new();
    members.push((text::copy("method"), Json::text(method)));
    members.push((text::copy("payload_hex"), Json::owned_text(digits::hex_text(payload))));
    let res = Json::Object(members);
    assert(res.deep_view()->Object_0 =~= payload_record(method@, payload@)->Object_0);
    res
}

/// The larger of two numbers.
pub open spec fn larger(a: int, b: int) -> int {
    if a >= b {
        a
    } else {
        b
    }
}

/// The number of gifts in a gift message; at least one.
pub open spec fn gift_count(g: GiftView) -> int {
    larger(larger(g.repeat_count as int, g.combo_count as int), 1)
}

/// The data of a gift event.
pub open spec fn gift_data(g: GiftView) -> JsonView {
    let user = g.user->0;
    let gift = g.gift->0;
    JsonView::Object(
        seq![
            ("user_id"@, JsonView::Unsigned(user.id)),
            ("user_name"@, JsonView::Text(user.nick_name)),
            ("gift_name"@, JsonView::Text(gift.0)),
            ("count"@, JsonView::Unsigned(gift_count(g) as u64)),
            ("diamond_count"@, json::integer(gift.1 as int)),
        ],
    )
}

/// The data of a like event.
pub open spec fn like_data(l: LikeView) -> JsonView {
    let user = l.user->0;
    JsonView::Object(
        seq![
            ("user_id"@, JsonView::Unsigned(user.id)),
            ("user_name"@, JsonView::Text(user.nick_name)),
            ("count"@, JsonView::Unsigned(l.count)),
            ("total"@, JsonView::Unsigned(l.total)),
        ],
    )
}

/// The data of an event of a user who came in.
pub open spec fn member_data(m: MemberView) -> JsonView {
    let user = m.user->0;
    JsonView::Object(
        seq![
            ("user_id"@, JsonView::Unsigned(user.id)),
            ("user_name"@, JsonView::Text(user.nick_name)),
            ("action"@, JsonView::Text(m.action_description)),
        ],
    )
}

/// The event in a message, where `now` is the present. A malformed message, a message of an
/// unknown method and one without its sender hold none.
pub open spec fn message_event(room_id: Seq<char>, message: MessageView, now: i64) -> Option<
    LiveEventView,
> {
    let plain = |event_type: Seq<char>, data: JsonView|
        LiveEventView {
            ts: now,
            platform: "douyin"@,
            room_id,
            event_type,
            data,
            raw: payload_record(message.method, message.payload),
        };
    match (kind_of(message.method), message.body) {
        (MessageKind::Chat, BodyView::Chat(chat)) => Some(
            chat_event(room_id, message.method, message.msg_id, message.payload, chat, now),
        ),
        (MessageKind::Gift, BodyView::Gift(g)) => if g.user is Some && g.gift is Some {
            Some(plain("gift"@, gift_data(g)))
        } else {
            None
        },
        (MessageKind::Like, BodyView::Like(l)) => if l.user is Some {
            Some(plain("like"@, like_data(l)))
        } else {
            None
        },
        (MessageKind::Member, BodyView::Member(m)) => if m.user is Some {
            Some(plain("enter"@, member_data(m)))
        } else {
            None
        },
        _ => None,
    }
}

fn plain_event(
    room_id: &str,
    event_type: &str,
    data: Json,
    message: &CommonMessage,
    now: i64,
) -> (res: LiveEvent)
    ensures
        res.deep_view() == (LiveEventView {
            ts: now,
            platform: "douyin"@,
            room_id: room_id@,
            event_type: event_type@,
            data: data.deep_view(),
            raw: payload_record(message.method@, message.payload@),
        }),
{
    LiveEvent {
        ts: now,
        platform: text::copy("douyin"),
        room_id: text::copy(room_id),
        event_type: text::copy(event_type),
        data,
        raw: payload_json(message.method.as_str(), message.payload.as_slice()),
    }
}

fn gift_event(room_id: &str, message: &CommonMessage, g: &GiftMessage, now: i64) -> (res: Option<
    LiveEvent,
>)
    requires
        kind_of(message.method@) == MessageKind::Gift,
        message.body.deep_view() == BodyView::Gift(g.deep_view()),
    ensures
        res.deep_view() == message_event(room_id@, message.deep_view(), now),
{
    match (&g.user, &g.gift) {
        (Some(user), Some(gift)) => {
            let mut count = if g.repeat_count >= g.combo_count {
                g.repeat_count
            } else {
                g.combo_count
            };
            if count < 1 {
                count = 1;
            }
            let mut members: Vec<(String, Json)> = Vec::new();
            members.push((text::copy("user_id"), Json::unsigned(user.id)));
            members.push((text::copy("user_name"), Json::text(user.nick_name.as_str())));
            members.push((text::copy("gift_name"), Json::text(gift.name.as_str())));
            members.push((text::copy("count"), Json::unsigned(count)));
            members.push((text::copy("diamond_count"), Json::integer(gift.diamond_count as i64)));
            let data = Json::Object(members);
            assert(data.deep_view()->Object_0 =~= gift_data(g.deep_view())->Object_0);
            Some(plain_event(room_id, "gift", data, message, now))
        },
        _ => None,
    }
}

fn like_event(room_id: &str, message: &CommonMessage, l: &LikeMessage, now: i64) -> (res: Option<
    LiveEvent,
>)
    requires
        kind_of(message.method@) == MessageKind::Like,
        message.body.deep_view() == BodyView::Like(l.deep_view()),
    ensures
        res.deep_view() == message_event(room_id@, message.deep_view(), now),
{
    match &l.user {
        Some(user) => {
            let mut members: Vec<(String, Json)> = Vec::new();
            members.push((text::copy("user_id"), Json::unsigned(user.id)));
            members.push((text::copy("user_name"), Json::text(user.nick_name.as_str())));
            members.push((text::copy("count"), Json::unsigned(l.count)));
            members.push((text::copy("total"), Json::unsigned(l.total)));
            let data = Json::Object(members);
            assert(data.deep_view()->Object_0 =~= like_data(l.deep_view())->Object_0);
            Some(plain_event(room_id, "like", data, message, now))
        },
        None => None,
    }
}

fn member_event(room_id: &str, message: &CommonMessage, m: &MemberMessage, now: i64) -> (res:
    Option<LiveEvent>)
    requires
        kind_of(message.method@) == MessageKind::Member,
        message.body.deep_view() == BodyView::Member(m.deep_view()),
    ensures
        res.deep_view() == message_event(room_id@, message.deep_view(), now),
{
    match &m.user {
        Some(user) => {
            let mut members: Vec<(String, Json)> = Vec::new();
            members.push((text::copy("user_id"), Json::unsigned(user.id)));
            members.push((text::copy("user_name"), Json::text(user.nick_name.as_str())));
            members.push((text::copy("action"), Json::text(m.action_description.as_str())));
            let data = Json::Object(members);
            assert(data.deep_view()->Object_0 =~= member_data(m.deep_view())->Object_0);
            Some(plain_event(room_id, "enter", data, message, now))
        },
        None => None,
    }
}

/// The event in one message of a frame, if it holds one.
pub fn decode_message(room_id: &str, message: &CommonMessage, now: i64) -> (res: Option<LiveEvent>)
    ensures
        res.deep_view() == message_event(room_id@, message.deep_view(), now),
{
    match (message_kind(message.method.as_str()), &message.body) {
        (MessageKind::Chat, MessageBody::Chat(chat)) => Some(
            douyin_chat_event_at(
                room_id,
                message.method.as_str(),
                message.msg_id,
                message.payload.as_slice(),
                chat,
                now,
            ),
        ),
        (MessageKind::Gift, MessageBody::Gift(g)) => gift_event(room_id, message, g, now),
        (MessageKind::Like, MessageBody::Like(l)) => like_event(room_id, message, l, now),
        (MessageKind::Member, MessageBody::Member(m)) => member_event(room_id, message, m, now),
        _ => None,
    }
}

/// The events of messages, in order, where `clock` has the present at each message.
pub open spec fn message_events(
    room_id: Seq<char>,
    messages: Seq<MessageView>,
    clock: Seq<i64>,
) -> Seq<LiveEventView>
    decreases messages.len(),
{
    if messages.len() == 0 {
        Seq::empty()
    } else {
        let last = messages.len() - 1;
        let before = message_events(room_id, messages.drop_last(), clock);
        match message_event(room_id, messages.last(), clock[last]) {
            Some(event) => before.push(event),
            None => before,
        }
    }
}

/// The acknowledgement and the events of a frame, where `clock` has the present at each message.
pub fn decode_binary_message_at(
    push_frame: &PushFrame,
    response: &Response,
    room_id: &str,
    clock: &Vec<i64>,
) -> (res: (Option<PushFrame>, Vec<LiveEvent>))
    requires
        clock@.len() == response.messages_list@.len(),
    ensures
        res.0.deep_view() == ack_of(push_frame.deep_view(), response.deep_view()),
        res.1.deep_view() == message_events(
            room_id@,
            response.messages_list.deep_view(),
            clock@,
        ),
{
    let ack = build_ack(push_frame, response);
    let mut events: Vec<LiveEvent> = Vec::new();
    let messages = &response.messages_list;
    let ghost all = messages.deep_view();
    let mut i: usize = 0;
    assert(all.take(0) =~= Seq::empty());
    assert(events.deep_view() =~= Seq::<LiveEventView>::empty());
    while i < messages.len()
        invariant
            i <= messages@.len(),
            clock@.len() == messages@.len(),
            all == messages.deep_view(),
            events.deep_view() == message_events(room_id@, all.take(i as int), clock@),
        decreases messages@.len() - i,
    {
        let ghost next = all.take(i + 1);
        assert(next.drop_last() =~= all.take(i as int));
        assert(next.last() == messages@[i as int].deep_view());
        let ghost before = events.deep_view();
        if let Some(event) = decode_message(room_id, &messages[i], clock[i]) {
            events.push(event);
            assert(events.deep_view() =~= before.push(event.deep_view()));
        }
        i += 1;
    }
    assert(all.take(i as int) =~= all);
    (ack, events)
}

/// The acknowledgement and the events of a frame.
pub fn decode_binary_message(push_frame: &PushFrame, response: &Response, room_id: &str) -> (res: (
    Option<PushFrame>,
    Vec<LiveEvent>,
))
    ensures
        res.0.deep_view() == ack_of(push_frame.deep_view(), response.deep_view()),
        exists|clock: Seq<i64>|
            clock.len() == response.messages_list@.len() && res.1.deep_view()
                == #[trigger] message_events(room_id@, response.messages_list.deep_view(), clock),
{
    let mut clock: Vec<i64> = Vec::new();
    let mut i: usize = 0;
    while i < response.messages_list.len()
        invariant
            i <= response.messages_list@.len(),
            clock@.len() == i,
        decreases response.messages_list@.len() - i,
    {
        clock.push(now_millis());
        i += 1;
    }
    decode_binary_message_at(push_frame, response, room_id, &clock)
}

/// A malformed message or one of an unknown method takes nothing away from the rest of its
/// frame: the events before and after it are the same as without it.
pub proof fn law_bad_messages_do_not_poison_the_frame(
    room_id: Seq<char>,
    before: Seq<MessageView>,
    bad: MessageView,
    after: Seq<MessageView>,
    clock_before: Seq<i64>,
    now: i64,
    clock_after: Seq<i64>,
)
    requires
        bad.body is Malformed || kind_of(bad.method) == MessageKind::Unknown,
        clock_before.len() == before.len(),
        clock_after.len() == after.len(),
    ensures
        message_events(room_id, before.push(bad) + after, clock_before.push(now) + clock_after)
            == message_events(room_id, before + after, clock_before + clock_after),
    decreases after.len(),
{
    let full = before.push(bad) + after;
    let rest = before + after;
    let c = clock_before.push(now) + clock_after;
    let d = clock_before + clock_after;
    if after.len() == 0 {
        assert(full =~= before.push(bad));
        assert(full.drop_last() =~= before);
        assert(rest =~= before);
        assert(c =~= clock_before.push(now));
        assert(d =~= clock_before);
        lemma_clock_prefix(room_id, before, c, d);
    } else {
        let short = after.drop_last();
        let clock_short = clock_after.drop_last();
        law_bad_messages_do_not_poison_the_frame(
            room_id,
            before,
            bad,
            short,
            clock_before,
            now,
            clock_short,
        );
        assert(full.drop_last() =~= before.push(bad) + short);
        assert(rest.drop_last() =~= before + short);
        lemma_clock_prefix(
            room_id,
            before.push(bad) + short,
            c,
            clock_before.push(now) + clock_short,
        );
        lemma_clock_prefix(room_id, before + short, d, clock_before + clock_short);
        assert(c[full.len() - 1] == clock_after.last());
        assert(d[rest.len() - 1] == clock_after.last());
        assert(full.last() == after.last());
        assert(rest.last() == after.last());
    }
}

proof fn lemma_clock_prefix(
    room_id: Seq<char>,
    messages: Seq<MessageView>,
    c: Seq<i64>,
    d: Seq<i64>,
)
    requires
        forall|i: int| 0 <= i < messages.len() ==> c[i] == d[i],
    ensures
        message_events(room_id, messages, c) == message_events(room_id, messages, d),
    decreases messages.len(),
{
    if messages.len() > 0 {
        lemma_clock_prefix(room_id, messages.drop_last(), c, d);
    }
}

/// What `flate2` unpacks from gzip data, or the reason why it cannot.
pub uninterp spec fn gunzipped(data: Seq<u8>) -> Result<Seq<u8>, Seq<char>>;

/// `flate2::read::GzDecoder`, read to its end.
#[verifier::external_body]
fn gunzip(data: &[u8]) -> (res: Result<Vec<u8>, String>)
    ensures
        match res {
            Ok(bytes) => gunzipped(data@) == Ok::<Seq<u8>, Seq<char>>(bytes@),
            Err(e) => gunzipped(data@) == Err::<Seq<u8>, Seq<char>>(e@),
        },
{
    let mut decoder = flate2::read::GzDecoder::new(data);
    let mut bytes = Vec::new();
    match std::io::Read::read_to_end(&mut decoder, &mut bytes) {
        Ok(_) => Ok(bytes),
        Err(e) => Err(e.to_string()),
    }
}

/// The contents of a frame, unpacked.
pub fn decompress_payload(push_frame: &PushFrame) -> (res: Result<Vec<u8>, DanmuStreamError>)
    ensures
        match gunzipped(push_frame.payload@) {
            Ok(bytes) => res matches Ok(b) && b@ == bytes,
            Err(reason) => res matches Err(e) && e.text() == "Failed to decompress payload: "@
                + reason,
        },
{
    match gunzip(push_frame.payload.as_slice()) {
        Ok(bytes) => Ok(bytes),
        Err(reason) => Err(websocket_error("Failed to decompress payload: ", reason.as_str())),
    }
}

/// A message is of the kind that its method names, and of no other.
pub proof fn law_messages_are_of_the_kind_they_name(method: Seq<char>)
    ensures
        kind_of(method) == MessageKind::Chat <==> method == "WebcastChatMessage"@,
        kind_of(method) == MessageKind::Gift <==> method == "WebcastGiftMessage"@,
        kind_of(method) == MessageKind::Like <==> method == "WebcastLikeMessage"@,
        kind_of(method) == MessageKind::Member <==> method == "WebcastMemberMessage"@,
{
    reveal_strlit("WebcastChatMessage");
    reveal_strlit("WebcastGiftMessage");
    reveal_strlit("WebcastLikeMessage");
    reveal_strlit("WebcastMemberMessage");
    assert("WebcastChatMessage"@[7] == 'C' && "WebcastGiftMessage"@[7] == 'G'
        && "WebcastLikeMessage"@[7] == 'L' && "WebcastMemberMessage"@[7] == 'M');
}

/// A frame is acknowledged exactly where its response asks for it, under its own number, with what the
/// response asks to be sent back.
pub proof fn law_acknowledgements_answer_their_frame(frame: PushFrameView, response: ResponseView)
    ensures
        ack_of(frame, response) is Some <==> response.need_ack,
        ack_of(frame, response) matches Some(ack) ==> ack.log_id == frame.log_id && ack.payload_type
            == "ack"@ && valid_utf8(ack.payload) && decode_utf8(ack.payload)
            == response.internal_ext && ack.seq_id == 0 && ack.headers_list.len() == 0,
{
    encode_utf8_valid_utf8(response.internal_ext);
    encode_utf8_decode_utf8(response.internal_ext);
}

/// The time of an event is in milliseconds: one that is given in seconds is turned into them, one that
/// is given in milliseconds already stays, and where none is given it is that of its arrival.
pub proof fn law_times_are_in_milliseconds(event_time: u64, now: i64)
    requires
        now >= 0,
    ensures
        event_time == 0 ==> event_millis(event_time as int, now as int) == now,
        0 < event_time && event_time < 10_000_000_000 ==> event_millis(event_time as int, now as int)
            == event_time * 1000,
        10_000_000_000 <= event_time && event_time <= i64::MAX ==> event_millis(
            event_time as int,
            now as int,
        ) == event_time,
        event_time > i64::MAX ==> event_millis(event_time as int, now as int) == i64::MAX,
        0 <= event_millis(event_time as int, now as int) <= i64::MAX,
{
}

proof fn lemma_first_nonempty(list: Seq<Seq<char>>)
    ensures
        first_nonempty(list) is None <==> forall|i: int|
            0 <= i < list.len() ==> (#[trigger] list[i]).len() == 0,
        first_nonempty(list) matches Some(s) ==> s.len() > 0 && exists|i: int|
            0 <= i < list.len() && (#[trigger] list[i]) == s && forall|j: int|
                0 <= j < i ==> (#[trigger] list[j]).len() == 0,
    decreases list.len(),
{
    if list.len() > 0 {
        if list[0].len() > 0 {
            assert(list[0] == list[0]);
        } else {
            let rest = list.drop_first();
            lemma_first_nonempty(rest);
            if first_nonempty(rest) is Some {
                let s = first_nonempty(rest)->0;
                let i = choose|i: int|
                    0 <= i < rest.len() && (#[trigger] rest[i]) == s && forall|j: int|
                        0 <= j < i ==> (#[trigger] rest[j]).len() == 0;
                assert(list[i + 1] == s);
                assert forall|j: int| 0 <= j < i + 1 implies (#[trigger] list[j]).len() == 0 by {
                    if j > 0 {
                        assert(list[j] == rest[j - 1]);
                    }
                }
            } else {
                assert forall|i: int| 0 <= i < list.len() implies (#[trigger] list[i]).len()
                    == 0 by {
                    if i > 0 {
                        assert(list[i] == rest[i - 1]);
                    }
                }
            }
        }
    }
}

/// The picture of a user is the first address that is not empty: of the small picture if it has one,
/// else of the middle one, else of the large one.
pub proof fn law_pictures_are_the_smallest_there_are(user: UserView)
    ensures
        avatar_of(user) matches Some(url) ==> url.len() > 0 && (addresses(user.avatar_thumb).contains(
            url,
        ) || addresses(user.avatar_medium).contains(url) || addresses(user.avatar_large).contains(
            url,
        )),
        (exists|i: int|
            0 <= i < addresses(user.avatar_thumb).len() && (#[trigger] addresses(
                user.avatar_thumb,
            )[i]).len() > 0) ==> avatar_of(user) is Some && addresses(user.avatar_thumb).contains(
            avatar_of(user)->0,
        ),
        avatar_of(user) is None <==> (forall|i: int|
            0 <= i < addresses(user.avatar_thumb).len() ==> (#[trigger] addresses(
                user.avatar_thumb,
            )[i]).len() == 0) && (forall|i: int|
            0 <= i < addresses(user.avatar_medium).len() ==> (#[trigger] addresses(
                user.avatar_medium,
            )[i]).len() == 0) && (forall|i: int|
            0 <= i < addresses(user.avatar_large).len() ==> (#[trigger] addresses(
                user.avatar_large,
            )[i]).len() == 0),
        user.avatar_thumb is None ==> addresses(user.avatar_thumb).len() == 0,
        user.avatar_thumb is Some ==> addresses(user.avatar_thumb) == user.avatar_thumb->0,
{
    lemma_first_nonempty(addresses(user.avatar_thumb));
    lemma_first_nonempty(addresses(user.avatar_medium));
    lemma_first_nonempty(addresses(user.avatar_large));
}

/// The club that a user shows comes first among theirs, wherever they list it.
pub proof fn law_the_shown_club_comes_first(user: UserView)
    ensures
        user.fans_club is None ==> clubs_of(user).len() == 0,
        (user.fans_club matches Some(club) && club.data is Some && club.data->0.anchor_id != 0)
            ==> clubs_of(user).len() > 0 && clubs_of(user)[0] == (
            user.fans_club->0.data->0.anchor_id,
            user.fans_club->0.data->0.level,
        ),
        (user.fans_club matches Some(club) && (club.data is None || club.data->0.anchor_id == 0))
            ==> clubs_of(user) == ordered_clubs(user.fans_club->0.prefer_data),
{
}

/// When chat was written is what it says itself, else what its envelope says, else not known; and its
/// number is its own where it has one, else that of the envelope.
pub proof fn law_chat_is_believed_before_its_envelope(chat: ChatView, envelope: i64)
    ensures
        chat.event_time != 0 ==> chat_time(chat) == chat.event_time,
        chat.event_time == 0 && chat.common is Some ==> chat_time(chat)
            == chat.common->0.create_time,
        chat.event_time == 0 && chat.common is None ==> chat_time(chat) == 0,
        (chat.common matches Some(common) && common.msg_id != 0) ==> digits::signed_value(
            chat_id(chat, envelope),
        ) == Some(chat.common->0.msg_id as int),
        !(chat.common matches Some(common) && common.msg_id != 0) ==> digits::signed_value(
            chat_id(chat, envelope),
        ) == Some(envelope as int),
{
    digits::law_written_numbers_are_read_back(envelope as int);
    if let Some(common) = chat.common {
        digits::law_written_numbers_are_read_back(common.msg_id as int);
    }
}

/// A user is known by their public identifier, else by the one in text, else by their number.
pub proof fn law_users_are_known_by_their_public_name(user: UserView)
    ensures
        user.sec_uid.len() > 0 ==> user_id(user) == user.sec_uid,
        user.sec_uid.len() == 0 && user.id_str.len() > 0 ==> user_id(user) == user.id_str,
        user.sec_uid.len() == 0 && user.id_str.len() == 0 ==> digits::signed_value(user_id(user))
            == Some(user.id as int),
{
    digits::law_written_numbers_are_read_back(user.id as int);
}

/// The record of a user tells who they are, and names their clubs in order, the first of them as the
/// one that they follow.
pub proof fn law_user_records_tell_of_the_user(user: UserView)
    ensures
        ({
            let record = user_record(user);
            let clubs = clubs_of(user);
            &&& record.at("id"@) == JsonView::Text(user_id(user))
            &&& record.at("name"@) == JsonView::Text(user.nick_name)
            &&& record.at("displayId"@) == JsonView::Text(user.display_id)
            &&& record.at("numericId"@) == JsonView::Text(digits::signed_decimal(user.id as int))
            &&& record.at("shortId"@) == JsonView::Text(
                digits::signed_decimal(user.short_id as int),
            )
            &&& record.at("gender"@) == JsonView::Unsigned(user.gender as u64)
            &&& record.at("avatar"@).as_text() == avatar_of(user)
            &&& clubs.len() > 0 ==> record.at("currentTargetAnchorId"@) == JsonView::Text(
                digits::signed_decimal(clubs[0].0 as int),
            )
            &&& clubs.len() == 0 ==> record.at("currentTargetAnchorId"@) == JsonView::Null
            &&& record.at("fansClub"@).as_array() matches Some(list) && list.len() == clubs.len()
                && forall|i: int|
                0 <= i < list.len() ==> (#[trigger] list[i]) == club_record(clubs[i])
        }),
{
    reveal_strlit("id");
    reveal_strlit("numericId");
    reveal_strlit("shortId");
    reveal_strlit("displayId");
    reveal_strlit("name");
    reveal_strlit("gender");
    reveal_strlit("avatar");
    reveal_strlit("currentTargetAnchorId");
    reveal_strlit("fansClub");
    let m = user_record(user)->Object_0;
    assert(m[0].0.len() == 2 && m[1].0.len() == 9 && m[2].0.len() == 7 && m[3].0.len() == 9
        && m[4].0.len() == 4 && m[5].0.len() == 6 && m[6].0.len() == 6 && m[7].0.len() == 21
        && m[8].0.len() == 8);
    assert(m[1].0[0] == 'n' && m[3].0[0] == 'd' && m[5].0[0] == 'g' && m[6].0[0] == 'a');
    reveal_with_fuel(json::member, 10);
}

/// The record of a club tells whose it is and the level in it.
pub proof fn law_club_records_tell_of_the_club(c: (i64, i32))
    ensures
        club_record(c).at("anchorId"@) == JsonView::Text(digits::signed_decimal(c.0 as int)),
        club_record(c).at("level"@).as_i64() == Some(c.1 as i64),
{
    reveal_strlit("anchorId");
    reveal_strlit("level");
    let m = club_record(c)->Object_0;
    assert(m[0].0.len() == 8 && m[1].0.len() == 5);
    reveal_with_fuel(json::member, 3);
}

/// What is kept of chat: when it was written, who wrote what and under which number, with the bytes
/// that it came in, and that it is chat of its room.
pub proof fn law_chat_is_kept_as_it_was_written(
    room_id: Seq<char>,
    method: Seq<char>,
    envelope: i64,
    payload: Seq<u8>,
    chat: ChatView,
    now: i64,
)
    requires
        now >= 0,
    ensures
        ({
            let event = chat_event(room_id, method, envelope, payload, chat, now);
            let time = event_millis(chat_time(chat) as int, now as int);
            &&& event.ts == time
            &&& event.room_id == room_id
            &&& event.platform == "douyin"@
            &&& event.event_type == "danmu"@
            &&& event.data.at("content"@) == JsonView::Text(chat.content)
            &&& event.data.at("id"@) == JsonView::Text(chat_id(chat, envelope))
            &&& event.data.at("method"@) == JsonView::Text(method)
            &&& event.data.at("user"@) == user_record(chat_user(chat))
            &&& event.data.at("user_name"@) == JsonView::Text(chat_user(chat).nick_name)
            &&& event.data.at("user_id"@) == JsonView::Text(user_id(chat_user(chat)))
            &&& event.raw.at("id"@) == JsonView::Text(chat_id(chat, envelope))
            &&& event.raw.at("method"@) == JsonView::Text(method)
            &&& event.raw.at("user"@) == user_record(chat_user(chat))
            &&& event.raw.at("content"@) == JsonView::Text(chat.content)
            &&& event.raw.at("time"@).as_i64() == Some(event.ts)
            &&& event.raw.at("payloadHex"@) == JsonView::Text(digits::hex(payload))
            &&& chat.user is Some ==> chat_user(chat) == chat.user->0
        }),
{
    reveal_strlit("id");
    reveal_strlit("method");
    reveal_strlit("user");
    reveal_strlit("user_id");
    reveal_strlit("user_name");
    reveal_strlit("content");
    reveal_strlit("color");
    reveal_strlit("time");
    reveal_strlit("payloadHex");
    law_times_are_in_milliseconds(chat_time(chat), now);
    let d = chat_data(method, envelope, chat)->Object_0;
    assert(d[0].0.len() == 2 && d[1].0.len() == 6 && d[2].0.len() == 4 && d[3].0.len() == 7
        && d[4].0.len() == 9 && d[5].0.len() == 7 && d[6].0.len() == 5);
    assert(d[3].0[0] == 'u' && d[5].0[0] == 'c');
    let time = event_millis(chat_time(chat) as int, now as int);
    let r = chat_raw(method, envelope, payload, chat, time)->Object_0;
    assert(r[0].0.len() == 2 && r[1].0.len() == 6 && r[2].0.len() == 4 && r[3].0.len() == 7
        && r[4].0.len() == 4 && r[5].0.len() == 10);
    assert(r[2].0[0] == 'u' && r[4].0[0] == 't');
    reveal_with_fuel(json::member, 8);
}

/// What is kept of gifts, likes and those who enter: who it was, and what was given, how often, or done.
/// A gift counts at least once, and as often as either of its counts says.
pub proof fn law_what_is_kept_of_other_events(g: GiftView, l: LikeView, m: MemberView)
    requires
        g.user is Some,
        g.gift is Some,
        l.user is Some,
        m.user is Some,
    ensures
        gift_count(g) >= 1 && gift_count(g) >= g.repeat_count && gift_count(g) >= g.combo_count,
        gift_count(g) == 1 || gift_count(g) == g.repeat_count || gift_count(g) == g.combo_count,
        gift_data(g).at("user_name"@) == JsonView::Text(g.user->0.nick_name),
        gift_data(g).at("user_id"@) == JsonView::Unsigned(g.user->0.id),
        gift_data(g).at("gift_name"@) == JsonView::Text((g.gift->0).0),
        gift_data(g).at("count"@) == JsonView::Unsigned(gift_count(g) as u64),
        gift_data(g).at("diamond_count"@) == json::integer((g.gift->0).1 as int),
        like_data(l).at("user_name"@) == JsonView::Text(l.user->0.nick_name),
        like_data(l).at("user_id"@) == JsonView::Unsigned(l.user->0.id),
        like_data(l).at("count"@) == JsonView::Unsigned(l.count),
        like_data(l).at("total"@) == JsonView::Unsigned(l.total),
        member_data(m).at("user_name"@) == JsonView::Text(m.user->0.nick_name),
        member_data(m).at("user_id"@) == JsonView::Unsigned(m.user->0.id),
        member_data(m).at("action"@) == JsonView::Text(m.action_description),
{
    reveal_strlit("user_id");
    reveal_strlit("user_name");
    reveal_strlit("gift_name");
    reveal_strlit("count");
    reveal_strlit("diamond_count");
    reveal_strlit("total");
    reveal_strlit("action");
    let a = gift_data(g)->Object_0;
    assert(a[0].0.len() == 7 && a[1].0.len() == 9 && a[2].0.len() == 9 && a[3].0.len() == 5
        && a[4].0.len() == 13);
    assert(a[1].0[0] == 'u' && a[2].0[0] == 'g');
    let b = like_data(l)->Object_0;
    assert(b[0].0.len() == 7 && b[1].0.len() == 9 && b[2].0.len() == 5 && b[3].0.len() == 5);
    assert(b[2].0[0] == 'c' && b[3].0[0] == 't');
    let c = member_data(m)->Object_0;
    assert(c[0].0.len() == 7 && c[1].0.len() == 9 && c[2].0.len() == 6);
    reveal_with_fuel(json::member, 6);
}

/// Which messages are kept, and as what: chat always; a gift with its giver and the gift known, a like
/// and an entry with who it was known; each as an event of its own type, at the time of its arrival but
/// for chat, with the bytes that it came in. Everything else is passed over.
pub proof fn law_messages_are_kept_by_kind(room_id: Seq<char>, message: MessageView, now: i64)
    ensures
        ({
            let event = message_event(room_id, message, now);
            let gift = message.body is Gift && message.body->Gift_0.user is Some
                && message.body->Gift_0.gift is Some && message.method == "WebcastGiftMessage"@;
            let like = message.body is Like && message.body->Like_0.user is Some && message.method
                == "WebcastLikeMessage"@;
            let enter = message.body is Member && message.body->Member_0.user is Some
                && message.method == "WebcastMemberMessage"@;
            let chat = message.body is Chat && message.method == "WebcastChatMessage"@;
            &&& event is Some <==> chat || gift || like || enter
            &&& event is Some ==> event->0.room_id == room_id && event->0.platform == "douyin"@
            &&& chat ==> event->0 == chat_event(
                room_id,
                message.method,
                message.msg_id,
                message.payload,
                message.body->Chat_0,
                now,
            )
            &&& gift ==> event->0.event_type == "gift"@ && event->0.data == gift_data(
                message.body->Gift_0,
            )
            &&& like ==> event->0.event_type == "like"@ && event->0.data == like_data(
                message.body->Like_0,
            )
            &&& enter ==> event->0.event_type == "enter"@ && event->0.data == member_data(
                message.body->Member_0,
            )
            &&& gift || like || enter ==> event->0.ts == now && event->0.raw.at("method"@)
                == JsonView::Text(message.method) && event->0.raw.at("payload_hex"@)
                == JsonView::Text(digits::hex(message.payload))
        }),
{
    law_messages_are_of_the_kind_they_name(message.method);
    reveal_strlit("method");
    reveal_strlit("payload_hex");
    let p = payload_record(message.method, message.payload)->Object_0;
    assert(p[0].0.len() == 6 && p[1].0.len() == 11);
    reveal_with_fuel(json::member, 3);
}

/// The messages of a frame are kept in order: those of some and then of more are those of all of them.
pub proof fn law_messages_are_kept_in_order(
    room_id: Seq<char>,
    a: Seq<MessageView>,
    b: Seq<MessageView>,
    clock: Seq<i64>,
)
    requires
        clock.len() == a.len() + b.len(),
    ensures
        message_events(room_id, a + b, clock) == message_events(room_id, a, clock) + message_events(
            room_id,
            b,
            clock.skip(a.len() as int),
        ),
        a.len() == 0 ==> message_events(room_id, a, clock).len() == 0,
        a.len() == 1 ==> message_events(room_id, a, clock) == (match message_event(
            room_id,
            a[0],
            clock[0],
        ) {
            Some(event) => seq![event],
            None => Seq::empty(),
        }),
    decreases b.len(),
{
    reveal_with_fuel(message_events, 2);
    if b.len() == 0 {
        assert(a + b =~= a);
    } else {
        let less = clock.drop_last();
        law_messages_are_kept_in_order(room_id, a, b.drop_last(), less);
        assert((a + b).drop_last() =~= a + b.drop_last());
        lemma_longer_clock(room_id, a, less, clock);
        lemma_longer_clock(room_id, a + b.drop_last(), less, clock);
        lemma_longer_clock(
            room_id,
            b.drop_last(),
            less.skip(a.len() as int),
            clock.skip(a.len() as int),
        );
    }
}

proof fn lemma_longer_clock(
    room_id: Seq<char>,
    messages: Seq<MessageView>,
    x: Seq<i64>,
    y: Seq<i64>,
)
    requires
        messages.len() <= x.len(),
        messages.len() <= y.len(),
        forall|i: int| 0 <= i < messages.len() ==> x[i] == y[i],
    ensures
        message_events(room_id, messages, x) == message_events(room_id, messages, y),
    decreases messages.len(),
{
    if messages.len() > 0 {
        lemma_longer_clock(room_id, messages.drop_last(), x, y);
    }
}

/// Chat without a user is that of nobody: someone without a name, a picture, a club or a number.
pub proof fn law_chat_without_a_user_is_nobodys(chat: ChatView)
    requires
        chat.user is None,
    ensures
        chat_user(chat).nick_name.len() == 0,
        user_id(chat_user(chat)) == digits::decimal(0),
        avatar_of(chat_user(chat)) is None,
        clubs_of(chat_user(chat)).len() == 0,
        chat_user(chat).display_id.len() == 0,
        chat_user(chat).short_id == 0 && chat_user(chat).gender == 0,
{
}

/// A response without anything in it has no messages and asks for no acknowledgement.
pub proof fn law_empty_responses_ask_for_nothing(frame: PushFrameView)
    ensures
        ack_of(frame, empty_response()) is None,
        empty_response().messages_list.len() == 0,
        empty_response().internal_ext.len() == 0,
        empty_frame().payload.len() == 0,
        empty_frame().payload_type.len() == 0,
{
}

} // verus!
