//! The parts of the platform's replies that the recorder reads.
use vstd::prelude::*;

verus! {

/// A list of picture addresses.
pub struct AvatarThumb {
    pub url_list: Vec<String>,
}

impl DeepView for AvatarThumb {
    type V = Seq<Seq<char>>;

    open spec fn deep_view(&self) -> Seq<Seq<char>> {
        self.url_list.deep_view()
    }
}

impl Default for AvatarThumb {
    fn default() -> (res: Self)
        ensures
            res.deep_view() == Seq::<Seq<char>>::empty(),
    {
        let res = AvatarThumb { url_list: Vec::new() };
        assert(res.deep_view() =~= Seq::<Seq<char>>::empty());
        res
    }
}

/// The cover of a room.
pub struct Cover {
    pub url_list: Vec<String>,
}

impl DeepView for Cover {
    type V = Seq<Seq<char>>;

    open spec fn deep_view(&self) -> Seq<Seq<char>> {
        self.url_list.deep_view()
    }
}

/// Whether the account follows a user.
pub struct FollowInfo {
    pub follow_status: i64,
}

impl Default for FollowInfo {
    fn default() -> (res: Self)
        ensures
            res.follow_status == 0,
    {
        FollowInfo { follow_status: 0 }
    }
}

/// A user of the platform.
pub struct User {
    pub id_str: String,
    pub sec_uid: String,
    pub nickname: String,
    pub avatar_thumb: AvatarThumb,
    pub follow_info: FollowInfo,
    pub foreign_user: i64,
    pub open_id_str: String,
}

/// The model of a user of the platform.
#[verifier::ext_equal]
pub struct UserView {
    pub id_str: Seq<char>,
    pub sec_uid: Seq<char>,
    pub nickname: Seq<char>,
    pub avatar_thumb: Seq<Seq<char>>,
    pub follow_status: i64,
    pub foreign_user: i64,
    pub open_id_str: Seq<char>,
}

impl DeepView for User {
    type V = UserView;

    open spec fn deep_view(&self) -> UserView {
        UserView {
            id_str: self.id_str@,
            sec_uid: self.sec_uid@,
            nickname: self.nickname@,
            avatar_thumb: self.avatar_thumb.deep_view(),
            follow_status: self.follow_info.follow_status,
            foreign_user: self.foreign_user,
            open_id_str: self.open_id_str@,
        }
    }
}

/// A user with nothing known of them.
pub open spec fn unknown_user() -> UserView {
    UserView {
        id_str: Seq::empty(),
        sec_uid: Seq::empty(),
        nickname: Seq::empty(),
        avatar_thumb: Seq::empty(),
        follow_status: 0,
        foreign_user: 0,
        open_id_str: Seq::empty(),
    }
}

impl Default for User {
    fn default() -> (res: Self)
        ensures
            res.deep_view() == unknown_user(),
    {
        let res = User {
            id_str: String::new(),
            sec_uid: String::new(),
            nickname: String::new(),
            avatar_thumb: AvatarThumb::default(),
            follow_info: FollowInfo::default(),
            foreign_user: 0,
            open_id_str: String::new(),
        };
        assert(res.deep_view() =~= unknown_user());
        res
    }
}

/// The owner of a room.
pub struct Owner {
    pub sec_uid: String,
}

/// The data of the streams of a room.
pub struct PullData {
    pub stream_data: String,
}

/// The data of the streams of a room, as the player gets it.
pub struct LiveCoreSdkData {
    pub pull_data: PullData,
}

/// The streams of a room.
pub struct StreamUrl {
    pub hls_pull_url: String,
    pub live_core_sdk_data: LiveCoreSdkData,
}

impl DeepView for StreamUrl {
    type V = (Seq<char>, Seq<char>);

    open spec fn deep_view(&self) -> (Seq<char>, Seq<char>) {
        (self.hls_pull_url@, self.live_core_sdk_data.pull_data.stream_data@)
    }
}

/// A room.
pub struct Daum {
    pub id_str: String,
    pub title: String,
    pub cover: Option<Cover>,
    pub owner: Option<Owner>,
    pub stream_url: Option<StreamUrl>,
}

/// The model of a room; its streams are a direct address and stream data.
#[verifier::ext_equal]
pub struct RoomView {
    pub id_str: Seq<char>,
    pub title: Seq<char>,
    pub cover: Option<Seq<Seq<char>>>,
    pub owner: Option<Seq<char>>,
    pub stream_url: Option<(Seq<char>, Seq<char>)>,
}

impl DeepView for Daum {
    type V = RoomView;

    open spec fn deep_view(&self) -> RoomView {
        RoomView {
            id_str: self.id_str@,
            title: self.title@,
            cover: self.cover.deep_view(),
            owner: match self.owner {
                Some(o) => Some(o.sec_uid@),
                None => None,
            },
            stream_url: self.stream_url.deep_view(),
        }
    }
}

impl Default for Daum {
    fn default() -> (res: Self)
        ensures
            res.deep_view() == (RoomView {
                id_str: Seq::empty(),
                title: Seq::empty(),
                cover: None,
                owner: None,
                stream_url: None,
            }),
    {
        Daum {
            id_str: String::new(),
            title: String::new(),
            cover: None,
            owner: None,
            stream_url: None,
        }
    }
}

/// The rooms of a reply, with their state and their user.
pub struct Data {
    pub data: Vec<Daum>,
    pub room_status: i64,
    pub user: User,
}

impl Default for Data {
    fn default() -> (res: Self)
        ensures
            res.data@.len() == 0,
            res.room_status == 0,
            res.user.deep_view() == unknown_user(),
    {
        Data { data: Vec::new(), room_status: 0, user: User::default() }
    }
}

/// The reply to a query for a room.
pub struct DouyinRoomInfoResponse {
    pub data: Data,
    pub status_code: i64,
}

/// The model of the reply to a query for a room.
#[verifier::ext_equal]
pub struct WebReplyView {
    pub rooms: Seq<RoomView>,
    pub room_status: i64,
    pub user: UserView,
    pub status_code: i64,
}

impl DeepView for DouyinRoomInfoResponse {
    type V = WebReplyView;

    open spec fn deep_view(&self) -> WebReplyView {
        WebReplyView {
            rooms: self.data.data.deep_view(),
            room_status: self.data.room_status,
            user: self.data.user.deep_view(),
            status_code: self.status_code,
        }
    }
}

impl Default for DouyinRoomInfoResponse {
    fn default() -> (res: Self)
        ensures
            res.deep_view() == (WebReplyView {
                rooms: Seq::empty(),
                room_status: 0,
                user: unknown_user(),
                status_code: 0,
            }),
    {
        let res = DouyinRoomInfoResponse { data: Data::default(), status_code: 0 };
        assert(res.data.data.deep_view() =~= Seq::<RoomView>::empty());
        res
    }
}

/// A room in a reply of the mobile service.
pub struct H5Room {
    pub id_str: String,
    pub title: String,
    pub status: i64,
    pub cover: Option<Cover>,
    pub owner: User,
    pub stream_url: Option<StreamUrl>,
}

/// The model of a room in a reply of the mobile service.
#[verifier::ext_equal]
pub struct H5RoomView {
    pub id_str: Seq<char>,
    pub title: Seq<char>,
    pub status: i64,
    pub cover: Option<Seq<Seq<char>>>,
    pub owner: UserView,
    pub stream_url: Option<(Seq<char>, Seq<char>)>,
}

impl DeepView for H5Room {
    type V = H5RoomView;

    open spec fn deep_view(&self) -> H5RoomView {
        H5RoomView {
            id_str: self.id_str@,
            title: self.title@,
            status: self.status,
            cover: self.cover.deep_view(),
            owner: self.owner.deep_view(),
            stream_url: self.stream_url.deep_view(),
        }
    }
}

/// A user whom the account follows.
pub struct Following {
    pub uid: String,
    pub sec_uid: String,
    pub nickname: String,
    pub avatar_thumb: AvatarThumb,
}

/// The model of a user whom the account follows.
#[verifier::ext_equal]
pub struct FollowingView {
    pub uid: Seq<char>,
    pub sec_uid: Seq<char>,
    pub nickname: Seq<char>,
    pub avatar_thumb: Seq<Seq<char>>,
}

impl DeepView for Following {
    type V = FollowingView;

    open spec fn deep_view(&self) -> FollowingView {
        FollowingView {
            uid: self.uid@,
            sec_uid: self.sec_uid@,
            nickname: self.nickname@,
            avatar_thumb: self.avatar_thumb.deep_view(),
        }
    }
}

/// The reply to a query for the account's relations.
pub struct DouyinRelationResponse {
    pub status_code: i64,
    pub owner_sec_uid: String,
    pub followings: Option<Vec<Following>>,
}

/// The model of the reply to a query for the account's relations.
#[verifier::ext_equal]
pub struct RelationView {
    pub status_code: i64,
    pub owner_sec_uid: Seq<char>,
    pub followings: Option<Seq<FollowingView>>,
}

impl DeepView for DouyinRelationResponse {
    type V = RelationView;

    open spec fn deep_view(&self) -> RelationView {
        RelationView {
            status_code: self.status_code,
            owner_sec_uid: self.owner_sec_uid@,
            followings: self.followings.deep_view(),
        }
    }
}

} // verus!
