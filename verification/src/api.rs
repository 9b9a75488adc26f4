//! Queries to the platform and what their replies mean.
use vstd::prelude::*;
use crate::digits;
use crate::json;
use crate::json::{Json, JsonView};
use crate::platform::RecorderError;
use crate::response;
use crate::response::{
    DouyinRelationResponse, DouyinRoomInfoResponse, FollowInfo, Following, FollowingView, H5Room,
    H5RoomView, RelationView, RoomView, User, UserView, WebReplyView,
};
use crate::text;

verus! {

/// What is known of a room.
pub struct DouyinBasicRoomInfo {
    pub room_id_str: String,
    pub room_title: String,
    pub cover: Option<String>,
    pub status: i64,
    pub hls_url: String,
    pub stream_data: String,
    pub user_name: String,
    pub user_avatar: String,
    pub sec_user_id: String,
}

/// The model of what is known of a room.
#[verifier::ext_equal]
pub struct BasicRoomView {
    pub room_id_str: Seq<char>,
    pub room_title: Seq<char>,
    pub cover: Option<Seq<char>>,
    pub status: i64,
    pub hls_url: Seq<char>,
    pub stream_data: Seq<char>,
    pub user_name: Seq<char>,
    pub user_avatar: Seq<char>,
    pub sec_user_id: Seq<char>,
}

impl DeepView for DouyinBasicRoomInfo {
    type V = BasicRoomView;

    open spec fn deep_view(&self) -> BasicRoomView {
        BasicRoomView {
            room_id_str: self.room_id_str@,
            room_title: self.room_title@,
            cover: self.cover.deep_view(),
            status: self.status,
            hls_url: self.hls_url@,
            stream_data: self.stream_data@,
            user_name: self.user_name@,
            user_avatar: self.user_avatar@,
            sec_user_id: self.sec_user_id@,
        }
    }
}

/// The model of a room, or the platform's reason why there is none.
pub open spec fn room_result(r: Result<DouyinBasicRoomInfo, RecorderError>) -> Result<
    BasicRoomView,
    Seq<char>,
> {
    match r {
        Ok(info) => Ok(info.deep_view()),
        Err(RecorderError::ApiError { error }) => Err(error@),
        Err(e) => Err(e.text()),
    }
}

/// The first text of a list, or the empty text.
pub open spec fn first_or_empty(list: Seq<Seq<char>>) -> Seq<char> {
    if list.len() > 0 {
        list[0]
    } else {
        Seq::empty()
    }
}

fn first_of(list: &Vec<String>) -> (res: Option<String>)
    ensures
        res.deep_view() == (if list.deep_view().len() > 0 {
            Some(list.deep_view()[0])
        } else {
            None
        }),
{
    if list.len() > 0 {
        Some(text::copy(list[0].as_str()))
    } else {
        None
    }
}

fn first_or_empty_of(list: &Vec<String>) -> (res: String)
    ensures
        res@ == first_or_empty(list.deep_view()),
{
    match first_of(list) {
        Some(s) => s,
        None => String::new(),
    }
}

/// The first address of an optional picture.
pub open spec fn cover_of(cover: Option<Seq<Seq<char>>>) -> Option<Seq<char>> {
    match cover {
        Some(list) => if list.len() > 0 {
            Some(list[0])
        } else {
            None
        },
        None => None,
    }
}

fn cover_address(cover: &Option<response::Cover>) -> (res: Option<String>)
    ensures
        res.deep_view() == cover_of(cover.deep_view()),
{
    match cover {
        Some(c) => first_of(&c.url_list),
        None => None,
    }
}

/// The owner of a room: as the room names it, else as the reply does, else as the caller does.
pub open spec fn owner_of(room: RoomView, user: UserView, sec_user_id: Seq<char>) -> Seq<char> {
    match room.owner {
        Some(owner) => if owner.len() > 0 {
            owner
        } else if user.sec_uid.len() > 0 {
            user.sec_uid
        } else {
            sec_user_id
        },
        None => if user.sec_uid.len() > 0 {
            user.sec_uid
        } else {
            sec_user_id
        },
    }
}

/// The direct address and the stream data of a room, empty where it has none.
pub open spec fn streams_of(stream: Option<(Seq<char>, Seq<char>)>) -> (Seq<char>, Seq<char>) {
    match stream {
        Some(s) => s,
        None => (Seq::empty(), Seq::empty()),
    }
}

/// What a reply tells of a room. A reply that reports a failure tells nothing of it; one without
/// rooms means that the room is offline where it says so, and is an error where it claims to be
/// live.
pub open spec fn web_room(
    reply: WebReplyView,
    room_id: Seq<char>,
    sec_user_id: Seq<char>,
) -> Result<BasicRoomView, Seq<char>> {
    if reply.status_code != 0 {
        Err(
            "Douyin web room API returned status_code "@ + digits::signed_decimal(
                reply.status_code as int,
            ),
        )
    } else if reply.rooms.len() == 0 {
        if reply.room_status != 0 {
            Ok(
                BasicRoomView {
                    room_id_str: room_id,
                    room_title: Seq::empty(),
                    cover: None,
                    status: reply.room_status,
                    hls_url: Seq::empty(),
                    stream_data: Seq::empty(),
                    user_name: reply.user.nickname,
                    user_avatar: first_or_empty(reply.user.avatar_thumb),
                    sec_user_id,
                },
            )
        } else {
            Err("Douyin room info response did not include room data"@)
        }
    } else {
        let room = reply.rooms[0];
        Ok(
            BasicRoomView {
                room_id_str: room.id_str,
                room_title: room.title,
                cover: cover_of(room.cover),
                status: reply.room_status,
                hls_url: streams_of(room.stream_url).0,
                stream_data: streams_of(room.stream_url).1,
                user_name: reply.user.nickname,
                user_avatar: first_or_empty(reply.user.avatar_thumb),
                sec_user_id: owner_of(room, reply.user, sec_user_id),
            },
        )
    }
}

fn room_owner(room: &response::Daum, user: &User, sec_user_id: &str) -> (res: String)
    ensures
        res@ == owner_of(room.deep_view(), user.deep_view(), sec_user_id@),
{
    if let Some(owner) = &room.owner {
        if !text::is_empty(owner.sec_uid.as_str()) {
            return text::copy(owner.sec_uid.as_str());
        }
    }
    if !text::is_empty(user.sec_uid.as_str()) {
        text::copy(user.sec_uid.as_str())
    } else {
        text::copy(sec_user_id)
    }
}

fn stream_addresses(stream: &Option<response::StreamUrl>) -> (res: (String, String))
    ensures
        (res.0@, res.1@) == streams_of(stream.deep_view()),
{
    match stream {
        Some(s) => (
            text::copy(s.hls_pull_url.as_str()),
            text::copy(s.live_core_sdk_data.pull_data.stream_data.as_str()),
        ),
        None => (String::new(), String::new()),
    }
}

/// What a reply tells of a room.
pub fn parse_web_room_info_response(
    data: DouyinRoomInfoResponse,
    room_id: &str,
    sec_user_id: &str,
) -> (res: Result<DouyinBasicRoomInfo, RecorderError>)
    ensures
        room_result(res) == web_room(data.deep_view(), room_id@, sec_user_id@),
        res matches Err(e) ==> e is ApiError,
{
    if data.status_code != 0 {
        let mut error = text::copy("Douyin web room API returned status_code ");
        let code = digits::i64_text(data.status_code);
        error.append(code.as_str());
        return Err(RecorderError::ApiError { error });
    }
    let user = &data.data.user;
    let rooms = &data.data.data;
    if data.data.room_status != 0 && rooms.len() == 0 {
        return Ok(
            DouyinBasicRoomInfo {
                room_id_str: text::copy(room_id),
                room_title: String::new(),
                cover: None,
                status: data.data.room_status,
                hls_url: String::new(),
                stream_data: String::new(),
                user_name: text::copy(user.nickname.as_str()),
                user_avatar: first_or_empty_of(&user.avatar_thumb.url_list),
                sec_user_id: text::copy(sec_user_id),
            },
        );
    }
    if rooms.len() == 0 {
        return Err(
            RecorderError::ApiError {
                error: text::copy("Douyin room info response did not include room data"),
            },
        );
    }
    let room = &rooms[0];
    assert(data.deep_view().rooms[0] == room.deep_view());
    let (hls_url, stream_data) = stream_addresses(&room.stream_url);
    Ok(
        DouyinBasicRoomInfo {
            room_id_str: text::copy(room.id_str.as_str()),
            sec_user_id: room_owner(room, user, sec_user_id),
            cover: cover_address(&room.cover),
            room_title: text::copy(room.title.as_str()),
            user_name: text::copy(user.nickname.as_str()),
            user_avatar: first_or_empty_of(&user.avatar_thumb.url_list),
            status: data.data.room_status,
            hls_url,
            stream_data,
        },
    )
}

/// A reply that reports a failure is never taken for an ended live.
pub proof fn law_failures_do_not_end_a_live(
    reply: WebReplyView,
    room_id: Seq<char>,
    sec_user_id: Seq<char>,
)
    ensures
        reply.status_code != 0 ==> web_room(reply, room_id, sec_user_id) is Err,
        web_room(reply, room_id, sec_user_id) matches Ok(info) ==> info.status
            == reply.room_status,
        reply.room_status == 0 && reply.rooms.len() == 0 ==> web_room(reply, room_id, sec_user_id)
            is Err,
{
}

/// Whether the reply to a room query is used; the mobile service is asked where this gives
/// nothing: the reply was empty, unsuccessful, not understood or reports a failure.
pub open spec fn usable_room(
    success: bool,
    body: Seq<char>,
    reply: Option<WebReplyView>,
    room_id: Seq<char>,
    sec_user_id: Seq<char>,
) -> Option<BasicRoomView> {
    if body.len() == 0 || !success {
        None
    } else {
        match reply {
            Some(r) => match web_room(r, room_id, sec_user_id) {
                Ok(info) => Some(info),
                Err(_) => None,
            },
            None => None,
        }
    }
}

/// The room in the reply to a room query, where the reply is used.
pub fn get_room_info(
    success: bool,
    body: &str,
    reply: Option<DouyinRoomInfoResponse>,
    room_id: &str,
    sec_user_id: &str,
) -> (res: Option<DouyinBasicRoomInfo>)
    ensures
        res.deep_view() == usable_room(
            success,
            body@,
            reply.deep_view(),
            room_id@,
            sec_user_id@,
        ),
{
    if text::is_empty(body) || !success {
        return None;
    }
    match reply {
        Some(data) => match parse_web_room_info_response(data, room_id, sec_user_id) {
            Ok(info) => Some(info),
            Err(_) => None,
        },
        None => None,
    }
}

/// The query that a room page makes.
pub open spec fn room_query(room_id: Seq<char>, ms_token: Seq<char>) -> Seq<char> {
    "aid=6383&app_name=douyin_web&live_id=1&device_platform=web&language=zh-CN&enter_from=web_live&cookie_enabled=true&screen_width=1920&screen_height=1080&browser_language=zh-CN&browser_platform=MacIntel&browser_name=Chrome&browser_version=122.0.0.0&web_rid="@
        + room_id + "&ms_token="@ + ms_token
}

/// The query that a room page makes.
pub fn room_info_params(room_id: &str, ms_token: &str) -> (res: String)
    ensures
        res@ == room_query(room_id@, ms_token@),
{
    let mut params = text::copy(
        "aid=6383&app_name=douyin_web&live_id=1&device_platform=web&language=zh-CN&enter_from=web_live&cookie_enabled=true&screen_width=1920&screen_height=1080&browser_language=zh-CN&browser_platform=MacIntel&browser_name=Chrome&browser_version=122.0.0.0&web_rid=",
    );
    params.append(room_id);
    params.append("&ms_token=");
    params.append(ms_token);
    params
}

/// The address of a room query with its signature.
pub fn room_info_url(room_id: &str, ms_token: &str, a_bogus: &str) -> (res: String)
    ensures
        res@ == "https://live.douyin.com/webcast/room/web/enter/?"@ + room_query(
            room_id@,
            ms_token@,
        ) + "&a_bogus="@ + a_bogus@,
{
    let mut url = text::copy("https://live.douyin.com/webcast/room/web/enter/?");
    let params = room_info_params(room_id, ms_token);
    url.append(params.as_str());
    url.append("&a_bogus=");
    url.append(a_bogus);
    url
}

/// The script call that signs a query.
pub fn a_bogus_call(params: &str, user_agent: &str) -> (res: String)
    ensures
        res@ == "generate_a_bogus(\""@ + params@ + "\", \""@ + user_agent@ + "\")"@,
{
    let mut call = text::copy("generate_a_bogus(\"");
    call.append(params);
    call.append("\", \"");
    call.append(user_agent);
    call.append("\")");
    call
}

/// The address of a room query to the mobile service.
pub fn h5_room_info_url(room_id: &str, sec_user_id: &str) -> (res: String)
    ensures
        res@
            == "https://webcast.amemv.com/webcast/room/reflow/info/?type_id=0&live_id=1&version_code=99.99.99&app_id=1128&room_id="@
            + room_id@ + "&sec_user_id="@ + sec_user_id@ + "&aid=6383&device_platform=web"@,
{
    let mut url = text::copy(
        "https://webcast.amemv.com/webcast/room/reflow/info/?type_id=0&live_id=1&version_code=99.99.99&app_id=1128&room_id=",
    );
    url.append(room_id);
    url.append("&sec_user_id=");
    url.append(sec_user_id);
    url.append("&aid=6383&device_platform=web");
    url
}

/// What the mobile service tells of a room; its state is turned into that of the web service.
pub open spec fn h5_room(room: H5RoomView) -> BasicRoomView {
    BasicRoomView {
        room_id_str: room.id_str,
        room_title: room.title,
        cover: cover_of(room.cover),
        status: if room.status == 2 {
            0
        } else {
            1
        },
        hls_url: streams_of(room.stream_url).0,
        stream_data: streams_of(room.stream_url).1,
        user_name: room.owner.nickname,
        user_avatar: first_or_empty(room.owner.avatar_thumb),
        sec_user_id: room.owner.sec_uid,
    }
}

/// Why a successful reply of the mobile service holds no room: the failure it reports, a session
/// that is not valid, or the reply itself.
pub open spec fn h5_failure(body: Seq<char>, reply: Option<JsonView>) -> Seq<char> {
    let unknown = "Failed to parse h5 room info response: "@ + body;
    match reply {
        Some(v) => {
            let message = match v.at("data"@).at("message"@).as_text() {
                Some(m) => m,
                None => "Unknown error"@,
            };
            let code = v.at("status_code"@).as_i64();
            if code is Some && code->0 != 0 {
                if code->0 == 10011 {
                    message
                } else {
                    "API returned error status_code: "@ + digits::signed_decimal(code->0 as int)
                        + " - "@ + message
                }
            } else {
                match v.at("status_message"@).as_text() {
                    Some(m) => if text::occurs(m, "invalid session"@) {
                        "Invalid session - please check your cookies. Make sure you have valid sessionid, passport_csrf_token, and other authentication cookies from douyin.com"@
                    } else {
                        unknown
                    },
                    None => unknown,
                }
            }
        },
        None => unknown,
    }
}

/// Why a successful reply of the mobile service holds no room. `reply` is the JSON in the body, if
/// it is JSON.
pub fn h5_error(body: &str, reply: &Option<Json>) -> (res: String)
    ensures
        res@ == h5_failure(body@, reply.deep_view()),
{
    if let Some(v) = reply {
        let code = v.at("status_code").as_i64();
        if let Some(code) = code {
            if code != 0 {
                let data = v.at("data");
                let found = data.at("message");
                let message = match found.as_text() {
                    Some(m) => text::copy(m),
                    None => text::copy("Unknown error"),
                };
                if code == 10011 {
                    return message;
                }
                let mut error = text::copy("API returned error status_code: ");
                let number = digits::i64_text(code);
                error.append(number.as_str());
                error.append(" - ");
                error.append(message.as_str());
                return error;
            }
        }
        let status = v.at("status_message");
        if let Some(m) = status.as_text() {
            if text::contains(m, "invalid session") {
                return text::copy(
                    "Invalid session - please check your cookies. Make sure you have valid sessionid, passport_csrf_token, and other authentication cookies from douyin.com",
                );
            }
        }
    }
    let mut error = text::copy("Failed to parse h5 room info response: ");
    error.append(body);
    error
}

/// What a reply of the mobile service comes to.
pub open spec fn h5_result(
    success: bool,
    status: Seq<char>,
    body: Seq<char>,
    room: Option<H5RoomView>,
    reply: Option<JsonView>,
) -> Result<BasicRoomView, Seq<char>> {
    if !success {
        Err("Failed to get h5 room info: "@ + status + " "@ + body)
    } else {
        match room {
            Some(r) => Ok(h5_room(r)),
            None => Err(h5_failure(body, reply)),
        }
    }
}

/// What a reply of the mobile service comes to. `room` is the room in the body, where the body has
/// the expected form.
pub fn get_room_info_h5(success: bool, status: &str, body: &str, room: Option<H5Room>) -> (res:
    Result<DouyinBasicRoomInfo, RecorderError>)
    ensures
        room_result(res) == h5_result(
            success,
            status@,
            body@,
            room.deep_view(),
            json::parsed_json(body@),
        ),
{
    if !success {
        let mut error = text::copy("Failed to get h5 room info: ");
        error.append(status);
        error.append(" ");
        error.append(body);
        return Err(RecorderError::ApiError { error });
    }
    match room {
        Some(room) => {
            let (hls_url, stream_data) = stream_addresses(&room.stream_url);
            Ok(
                DouyinBasicRoomInfo {
                    room_id_str: text::copy(room.id_str.as_str()),
                    room_title: text::copy(room.title.as_str()),
                    cover: cover_address(&room.cover),
                    status: if room.status == 2 {
                        0
                    } else {
                        1
                    },
                    hls_url,
                    user_name: text::copy(room.owner.nickname.as_str()),
                    user_avatar: first_or_empty_of(&room.owner.avatar_thumb.url_list),
                    sec_user_id: text::copy(room.owner.sec_uid.as_str()),
                    stream_data,
                },
            )
        },
        None => {
            let reply = match json::read_json(body) {
                Ok(reply) => Some(reply),
                Err(_) => None,
            };
            Err(RecorderError::ApiError { error: h5_error(body, &reply) })
        },
    }
}

/// The first followed user who is the account's own.
pub open spec fn own_following(list: Seq<FollowingView>, own: Seq<char>) -> Option<FollowingView>
    decreases list.len(),
{
    if list.len() == 0 {
        None
    } else if list[0].sec_uid == own {
        Some(list[0])
    } else {
        own_following(list.drop_first(), own)
    }
}

/// The account's user: as it stands among the followed users, else with nothing but its
/// identifier.
pub open spec fn relation_user(reply: RelationView) -> UserView {
    let found = match reply.followings {
        Some(list) => own_following(list, reply.owner_sec_uid),
        None => None,
    };
    match found {
        Some(f) => UserView {
            id_str: f.uid,
            sec_uid: f.sec_uid,
            nickname: f.nickname,
            avatar_thumb: f.avatar_thumb,
            ..response::unknown_user()
        },
        None => UserView {
            sec_uid: reply.owner_sec_uid,
            nickname: "抖音用户"@,
            ..response::unknown_user()
        },
    }
}

/// What the reply to a query for the account comes to.
pub open spec fn user_result(
    success: bool,
    status: Seq<char>,
    body: Seq<char>,
    reply: Option<RelationView>,
) -> Result<UserView, Seq<char>> {
    let failed = Err("Failed to get user info: "@ + status + " "@ + body);
    if !success {
        failed
    } else {
        match reply {
            Some(r) => if r.status_code == 0 {
                Ok(relation_user(r))
            } else {
                failed
            },
            None => Err("Failed to parse user info response: "@ + body),
        }
    }
}

fn find_own<'a>(list: &'a Vec<Following>, own: &str) -> (res: Option<&'a Following>)
    ensures
        match res {
            Some(f) => own_following(list.deep_view(), own@) == Some(f.deep_view()),
            None => own_following(list.deep_view(), own@) is None,
        },
{
    let ghost all = list.deep_view();
    let mut i: usize = 0;
    assert(all.skip(0) =~= all);
    while i < list.len()
        invariant
            i <= list@.len(),
            all == list.deep_view(),
            own_following(all.skip(i as int), own@) == own_following(all, own@),
        decreases list@.len() - i,
    {
        let ghost rest = all.skip(i as int);
        assert(rest[0] == list@[i as int].deep_view());
        if text::same(list[i].sec_uid.as_str(), own) {
            return Some(&list[i]);
        }
        assert(rest.drop_first() =~= all.skip(i + 1));
        i += 1;
    }
    assert(all.skip(i as int).len() == 0);
    None
}

/// The account's user in a reply about its relations.
pub fn own_user(data: &DouyinRelationResponse) -> (res: User)
    ensures
        res.deep_view() == relation_user(data.deep_view()),
{
    let own = data.owner_sec_uid.as_str();
    if let Some(followings) = &data.followings {
        if let Some(f) = find_own(followings, own) {
            return User {
                id_str: text::copy(f.uid.as_str()),
                sec_uid: text::copy(f.sec_uid.as_str()),
                nickname: text::copy(f.nickname.as_str()),
                avatar_thumb: response::AvatarThumb {
                    url_list: text::copy_list(&f.avatar_thumb.url_list),
                },
                follow_info: FollowInfo::default(),
                foreign_user: 0,
                open_id_str: String::new(),
            };
        }
    }
    User {
        id_str: String::new(),
        sec_uid: text::copy(own),
        nickname: text::copy("抖音用户"),
        avatar_thumb: response::AvatarThumb::default(),
        follow_info: FollowInfo::default(),
        foreign_user: 0,
        open_id_str: String::new(),
    }
}

/// What the reply to a query for the account comes to. `reply` is the body, where it has the
/// expected form.
pub fn get_user_info(
    success: bool,
    status: &str,
    body: &str,
    reply: Option<DouyinRelationResponse>,
) -> (res: Result<User, RecorderError>)
    ensures
        match user_result(success, status@, body@, reply.deep_view()) {
            Ok(user) => res matches Ok(u) && u.deep_view() == user,
            Err(reason) => res matches Err(RecorderError::ApiError { error }) && error@ == reason,
        },
{
    if success {
        match reply {
            Some(data) => {
                if data.status_code == 0 {
                    return Ok(own_user(&data));
                }
            },
            None => {
                let mut error = text::copy("Failed to parse user info response: ");
                error.append(body);
                return Err(RecorderError::ApiError { error });
            },
        }
    }
    let mut error = text::copy("Failed to get user info: ");
    error.append(status);
    error.append(" ");
    error.append(body);
    Err(RecorderError::ApiError { error })
}

/// The text that the first group of a pattern matches at its first match in a text, as `regex`
/// finds it; none where the pattern is not valid or does not match.
pub uninterp spec fn first_group(pattern: Seq<char>, text: Seq<char>) -> Option<Seq<char>>;

/// `regex::Regex::new` and `captures`: the text of the first group at the first match.
#[verifier::external_body]
fn capture(pattern: &str, text: &str) -> (res: Option<String>)
    ensures
        res.deep_view() == first_group(pattern@, text@),
{
    let regex = regex::Regex::new(pattern).ok()?;
    let captures = regex.captures(text)?;
    captures.get(1).map(|m| m.as_str().to_string())
}

/// The pattern of an owner's identifier in a room page.
pub const SEC_UID_PATTERN: &'static str = "\\\\\"sec_uid\\\\\":\\\\\"(.*?)\\\\\"";

/// The address of a room page.
pub fn room_page_url(room_id: &str) -> (res: String)
    ensures
        res@ == "https://live.douyin.com/"@ + room_id@,
{
    let mut url = text::copy("https://live.douyin.com/");
    url.append(room_id);
    url
}

/// Whether the room page is asked for the owner: only where the room query did not name one.
pub fn owner_from_room_info(info: &Option<DouyinBasicRoomInfo>) -> (res: Option<String>)
    ensures
        res.deep_view() == (match info.deep_view() {
            Some(i) => if i.sec_user_id.len() > 0 {
                Some(i.sec_user_id)
            } else {
                None
            },
            None => None,
        }),
{
    match info {
        Some(i) => if text::is_empty(i.sec_user_id.as_str()) {
            None
        } else {
            Some(text::copy(i.sec_user_id.as_str()))
        },
        None => None,
    }
}

/// The owner in a room page, from what the pattern finds in it.
pub fn page_owner(success: bool, status: &str, body: &str, found: Option<String>) -> (res: Result<
    String,
    RecorderError,
>)
    ensures
        !success ==> (res matches Err(RecorderError::ApiError { error }) && error@
            == "Failed to get room owner sec uid: "@ + status@ + " "@ + body@),
        success && found is None ==> (res matches Err(RecorderError::ApiError { error }) && error@
            == "Failed to find sec_uid in room page"@),
        success && found is Some ==> (res matches Ok(owner) && owner@ == found->0@),
{
    if !success {
        let mut error = text::copy("Failed to get room owner sec uid: ");
        error.append(status);
        error.append(" ");
        error.append(body);
        return Err(RecorderError::ApiError { error });
    }
    match found {
        Some(owner) => Ok(owner),
        None => Err(
            RecorderError::ApiError { error: text::copy("Failed to find sec_uid in room page") },
        ),
    }
}

/// The owner of a room, from its page.
pub fn get_room_owner_sec_uid(success: bool, status: &str, body: &str) -> (res: Result<
    String,
    RecorderError,
>)
    ensures
        !success ==> (res matches Err(RecorderError::ApiError { error }) && error@
            == "Failed to get room owner sec uid: "@ + status@ + " "@ + body@),
        success ==> match first_group(SEC_UID_PATTERN@, body@) {
            Some(owner) => res matches Ok(o) && o@ == owner,
            None => res matches Err(RecorderError::ApiError { error }) && error@
                == "Failed to find sec_uid in room page"@,
        },
{
    let found = if success {
        capture(SEC_UID_PATTERN, body)
    } else {
        None
    };
    page_owner(success, status, body, found)
}

/// A reply of the mobile service that holds a room tells of that room, and of nothing else: it counts
/// as live, with a state of zero, exactly where its own state is two. Any other state is not zero, so
/// that a live which has ended is not taken for one that goes on.
pub proof fn law_mobile_rooms_are_live_in_one_state(
    status: Seq<char>,
    body: Seq<char>,
    room: H5RoomView,
    reply: Option<JsonView>,
)
    ensures
        ({
            let told = h5_result(true, status, body, Some(room), reply);
            &&& told is Ok
            &&& told->Ok_0.status == 0 <==> room.status == 2
            &&& told->Ok_0.room_id_str == room.id_str
            &&& told->Ok_0.room_title == room.title
            &&& told->Ok_0.user_name == room.owner.nickname
            &&& told->Ok_0.sec_user_id == room.owner.sec_uid
        }),
{
}

/// Both services tell the state of a room in the same way: what the web service calls live, with a
/// state of zero, is live as the mobile service tells it, and what ended for one ended for the other.
pub proof fn law_the_services_agree_on_what_is_live(
    web: WebReplyView,
    mobile: H5RoomView,
    status: Seq<char>,
    body: Seq<char>,
    reply: Option<JsonView>,
    room_id: Seq<char>,
    sec_user_id: Seq<char>,
)
    requires
        web_room(web, room_id, sec_user_id) is Ok,
        web.room_status == 0 <==> mobile.status == 2,
    ensures
        web_room(web, room_id, sec_user_id)->Ok_0.status == 0 <==> h5_result(
            true,
            status,
            body,
            Some(mobile),
            reply,
        )->Ok_0.status == 0,
{
}

/// A reply of the mobile service that failed, or that holds no room, never gives one.
pub proof fn law_mobile_failures_give_no_room(
    success: bool,
    status: Seq<char>,
    body: Seq<char>,
    room: Option<H5RoomView>,
    reply: Option<JsonView>,
)
    ensures
        h5_result(success, status, body, room, reply) is Ok <==> success && room is Some,
{
}

/// A reply of the web service gives a room exactly where it reports no failure, and either holds a
/// room or says that the room is not live. What it tells is that of the first room it holds.
pub proof fn law_web_replies_tell_of_their_first_room(
    reply: WebReplyView,
    room_id: Seq<char>,
    sec_user_id: Seq<char>,
)
    ensures
        ({
            let told = web_room(reply, room_id, sec_user_id);
            &&& told is Ok <==> reply.status_code == 0 && (reply.rooms.len() > 0
                || reply.room_status != 0)
            &&& told is Ok ==> told->Ok_0.user_name == reply.user.nickname
            &&& told is Ok && reply.rooms.len() > 0 ==> told->Ok_0.room_id_str
                == reply.rooms[0].id_str && told->Ok_0.room_title == reply.rooms[0].title
            &&& told is Ok && reply.rooms.len() == 0 ==> told->Ok_0.room_id_str == room_id
                && told->Ok_0.hls_url.len() == 0 && told->Ok_0.stream_data.len() == 0
                && told->Ok_0.sec_user_id == sec_user_id
        }),
{
}

/// The addresses of the stream that a service names are the ones that are recorded, and where it
/// names none there is none.
pub proof fn law_streams_are_those_that_are_named(
    web: WebReplyView,
    mobile: H5RoomView,
    status: Seq<char>,
    body: Seq<char>,
    reply: Option<JsonView>,
    room_id: Seq<char>,
    sec_user_id: Seq<char>,
)
    requires
        web_room(web, room_id, sec_user_id) is Ok,
        web.rooms.len() > 0,
    ensures
        ({
            let told = web_room(web, room_id, sec_user_id)->Ok_0;
            let h5 = h5_result(true, status, body, Some(mobile), reply)->Ok_0;
            &&& web.rooms[0].stream_url matches Some((hls, data)) ==> told.hls_url == hls
                && told.stream_data == data
            &&& web.rooms[0].stream_url is None ==> told.hls_url.len() == 0
                && told.stream_data.len() == 0
            &&& mobile.stream_url matches Some((hls, data)) ==> h5.hls_url == hls && h5.stream_data
                == data
            &&& mobile.stream_url is None ==> h5.hls_url.len() == 0 && h5.stream_data.len() == 0
        }),
{
}

/// The pictures of a room and of its owner are the first ones that are listed, where any is.
pub proof fn law_pictures_are_the_first_listed(
    web: WebReplyView,
    mobile: H5RoomView,
    status: Seq<char>,
    body: Seq<char>,
    reply: Option<JsonView>,
    room_id: Seq<char>,
    sec_user_id: Seq<char>,
)
    requires
        web_room(web, room_id, sec_user_id) is Ok,
        web.rooms.len() > 0,
    ensures
        ({
            let told = web_room(web, room_id, sec_user_id)->Ok_0;
            let h5 = h5_result(true, status, body, Some(mobile), reply)->Ok_0;
            &&& told.cover is Some <==> web.rooms[0].cover is Some && web.rooms[0].cover->0.len() > 0
            &&& told.cover is Some ==> told.cover->0 == web.rooms[0].cover->0[0]
            &&& h5.cover is Some <==> mobile.cover is Some && mobile.cover->0.len() > 0
            &&& h5.cover is Some ==> h5.cover->0 == mobile.cover->0[0]
            &&& web.user.avatar_thumb.len() > 0 ==> told.user_avatar == web.user.avatar_thumb[0]
            &&& mobile.owner.avatar_thumb.len() > 0 ==> h5.user_avatar
                == mobile.owner.avatar_thumb[0]
            &&& web.user.avatar_thumb.len() == 0 ==> told.user_avatar.len() == 0
        }),
{
}

/// A room has an owner as soon as anyone names one: the room itself is believed first, then the
/// user of the reply, then the caller.
pub proof fn law_owners_are_believed_in_order(
    reply: WebReplyView,
    room_id: Seq<char>,
    sec_user_id: Seq<char>,
)
    requires
        web_room(reply, room_id, sec_user_id) is Ok,
        reply.rooms.len() > 0,
    ensures
        ({
            let owner = web_room(reply, room_id, sec_user_id)->Ok_0.sec_user_id;
            let named = match reply.rooms[0].owner {
                Some(o) => o,
                None => Seq::empty(),
            };
            &&& named.len() > 0 ==> owner == named
            &&& named.len() == 0 && reply.user.sec_uid.len() > 0 ==> owner == reply.user.sec_uid
            &&& named.len() == 0 && reply.user.sec_uid.len() == 0 ==> owner == sec_user_id
        }),
{
}

/// The web service's reply is used exactly where it succeeded, is not empty, was understood and
/// tells of the room; else the mobile service is asked.
pub proof fn law_web_replies_are_used_where_they_tell_something(
    success: bool,
    body: Seq<char>,
    reply: Option<WebReplyView>,
    room_id: Seq<char>,
    sec_user_id: Seq<char>,
)
    ensures
        ({
            let used = usable_room(success, body, reply, room_id, sec_user_id);
            &&& used is Some <==> success && body.len() > 0 && reply is Some
                && reply->0.status_code == 0 && (reply->0.rooms.len() > 0 || reply->0.room_status
                != 0)
            &&& used is Some ==> used->0.status == reply->0.room_status && web_room(
                reply->0,
                room_id,
                sec_user_id,
            ) == Ok::<BasicRoomView, Seq<char>>(used->0)
        }),
{
}

proof fn lemma_own_following(list: Seq<FollowingView>, own: Seq<char>)
    ensures
        own_following(list, own) is Some <==> exists|i: int|
            0 <= i < list.len() && (#[trigger] list[i]).sec_uid == own,
        own_following(list, own) matches Some(f) ==> list.contains(f) && f.sec_uid == own,
        list.len() > 0 && list[0].sec_uid == own ==> own_following(list, own) == Some(list[0]),
    decreases list.len(),
{
    if list.len() > 0 && list[0].sec_uid != own {
        let rest = list.drop_first();
        lemma_own_following(rest, own);
        if own_following(rest, own) is Some {
            let i = choose|i: int| 0 <= i < rest.len() && rest[i] == own_following(rest, own)->0;
            assert(list[i + 1] == own_following(rest, own)->0);
        }
        if exists|i: int| 0 <= i < list.len() && (#[trigger] list[i]).sec_uid == own {
            let i = choose|i: int| 0 <= i < list.len() && (#[trigger] list[i]).sec_uid == own;
            assert(rest[i - 1].sec_uid == own);
        }
    } else if list.len() > 0 {
        assert(list.contains(list[0]));
    }
}

/// A reply about the account gives a user exactly where it succeeded, was understood and reports no
/// failure, and that user is the account's own: its identifier is the account's, and where a followed
/// user has that identifier, what else is told of it stands with such a user.
pub proof fn law_the_accounts_user_is_its_own(
    success: bool,
    status: Seq<char>,
    body: Seq<char>,
    reply: Option<RelationView>,
)
    ensures
        user_result(success, status, body, reply) is Ok <==> success && reply is Some
            && reply->0.status_code == 0,
        user_result(success, status, body, reply) is Ok ==> user_result(
            success,
            status,
            body,
            reply,
        )->Ok_0.sec_uid == reply->0.owner_sec_uid,
        user_result(success, status, body, reply) is Ok && reply->0.followings is Some
            ==> forall|i: int|
            0 <= i < reply->0.followings->0.len() && (
            #[trigger] reply->0.followings->0[i]).sec_uid == reply->0.owner_sec_uid
                ==> reply->0.followings->0.contains(
                FollowingView {
                    uid: user_result(success, status, body, reply)->Ok_0.id_str,
                    sec_uid: reply->0.owner_sec_uid,
                    nickname: user_result(success, status, body, reply)->Ok_0.nickname,
                    avatar_thumb: user_result(success, status, body, reply)->Ok_0.avatar_thumb,
                },
            ),
{
    if let Some(r) = reply {
        if let Some(list) = r.followings {
            lemma_own_following(list, r.owner_sec_uid);
        }
    }
}

/// A failure that the mobile service reports under the code for closed rooms is told in its own
/// words; one under another code is told with the code; and where it reports none, what is told ends
/// in the reply itself, unless the session is not valid.
pub proof fn law_mobile_failures_are_told(body: Seq<char>, reply: JsonView, message: Seq<char>)
    requires
        reply.at("data"@).at("message"@) == JsonView::Text(message),
    ensures
        ({
            let code = reply.at("status_code"@).as_i64();
            let told = h5_failure(body, Some(reply));
            &&& code == Some(10011i64) ==> told == message
            &&& code is Some && code->0 != 0 && code->0 != 10011 ==> text::ends(told, message)
                && told.len() > message.len()
            &&& (code is None || code->0 == 0) && reply.at("status_message"@).as_text() is None
                ==> text::ends(told, body)
        }),
{
    reveal_strlit("API returned error status_code: ");
    reveal_strlit(" - ");
    let code = reply.at("status_code"@).as_i64();
    let told = h5_failure(body, Some(reply));
    if code is Some && code->0 != 0 && code->0 != 10011 {
        assert(told.skip(told.len() - message.len()) =~= message);
    }
    if (code is None || code->0 == 0) && reply.at("status_message"@).as_text() is None {
        assert(told.skip(told.len() - body.len()) =~= body);
    }
}

/// What is returned of a mobile reply that holds a room has a state of zero exactly where the room's
/// own state is two, and is of that room.
pub proof fn law_returned_mobile_rooms_are_live_in_one_state(
    status: &str,
    body: &str,
    room: H5Room,
    res: Result<DouyinBasicRoomInfo, RecorderError>,
)
    requires
        call_ensures(get_room_info_h5, (true, status, body, Some(room)), res),
    ensures
        res is Ok,
        res->Ok_0.status == 0 <==> room.status == 2,
        res->Ok_0.room_id_str@ == room.id_str@,
        res->Ok_0.room_title@ == room.title@,
{
    let told = room_result(res);
    assert(told is Ok);
}

/// What is returned of a room is never a guess: neither without success nor without a room is there
/// one.
pub proof fn law_no_room_is_made_up(
    success: bool,
    status: &str,
    body: &str,
    room: Option<H5Room>,
    res: Result<DouyinBasicRoomInfo, RecorderError>,
)
    requires
        call_ensures(get_room_info_h5, (success, status, body, room), res),
    ensures
        res is Ok <==> success && room is Some,
{
    let told = room_result(res);
    assert(res is Ok <==> told is Ok);
}

/// The owner of a room is taken from what is known of it where that names one, and else from its page,
/// where that does; a page that was not served names none.
pub proof fn law_owners_are_found_or_not(
    info: &Option<DouyinBasicRoomInfo>,
    known: Option<String>,
    success: bool,
    status: &str,
    body: &str,
    found: Option<String>,
    page: Result<String, RecorderError>,
)
    requires
        call_ensures(owner_from_room_info, (info,), known),
        call_ensures(page_owner, (success, status, body, found), page),
    ensures
        known is Some <==> info is Some && info->0.sec_user_id@.len() > 0,
        known is Some ==> known->0@ == info->0.sec_user_id@,
        page is Ok <==> success && found is Some,
        page is Ok ==> page->Ok_0@ == found->0@,
{
    assert(known.deep_view() is Some <==> known is Some);
}

/// The query for a room names the room and ends in the token that was given.
pub proof fn law_queries_name_the_room(room_id: Seq<char>, ms_token: Seq<char>)
    ensures
        text::ends(room_query(room_id, ms_token), "web_rid="@ + room_id + "&ms_token="@ + ms_token),
{
    reveal_strlit("web_rid=");
    reveal_strlit(
        "aid=6383&app_name=douyin_web&live_id=1&device_platform=web&language=zh-CN&enter_from=web_live&cookie_enabled=true&screen_width=1920&screen_height=1080&browser_language=zh-CN&browser_platform=MacIntel&browser_name=Chrome&browser_version=122.0.0.0&web_rid=",
    );
    let q = room_query(room_id, ms_token);
    let tail = "web_rid="@ + room_id + "&ms_token="@ + ms_token;
    assert(q.skip(q.len() - tail.len()) =~= tail);
}

} // verus!
