//! Platforms, rooms and recorders, and the ways in which recording fails.
use vstd::prelude::*;
use crate::text;

verus! {

/// A streaming platform.
#[derive(Clone, Copy, Debug, PartialEq, Eq, Structural)]
pub enum PlatformType {
    BiliBili,
    Douyin,
    Huya,
    Kuaishou,
    TikTok,
    Xiaohongshu,
    Weibo,
    Youtube,
}

impl PlatformType {
    /// The short name of a platform.
    pub open spec fn name(self) -> Seq<char> {
        match self {
            PlatformType::BiliBili => "bilibili"@,
            PlatformType::Douyin => "douyin"@,
            PlatformType::Huya => "huya"@,
            PlatformType::Kuaishou => "kuaishou"@,
            PlatformType::TikTok => "tiktok"@,
            PlatformType::Xiaohongshu => "xiaohongshu"@,
            PlatformType::Weibo => "weibo"@,
            PlatformType::Youtube => "youtube"@,
        }
    }

    /// The name of a platform as it stands in generated file names.
    pub open spec fn label(self) -> Seq<char> {
        match self {
            PlatformType::BiliBili => "BiliBili"@,
            PlatformType::Douyin => "Douyin"@,
            PlatformType::Huya => "Huya"@,
            PlatformType::Kuaishou => "Kuaishou"@,
            PlatformType::TikTok => "TikTok"@,
            PlatformType::Xiaohongshu => "Xiaohongshu"@,
            PlatformType::Weibo => "Weibo"@,
            PlatformType::Youtube => "Youtube"@,
        }
    }

    /// The short name of a platform.
    pub fn as_str(&self) -> (res: &'static str)
        ensures
            res@ == self.name(),
    {
        match self {
            PlatformType::BiliBili => "bilibili",
            PlatformType::Douyin => "douyin",
            PlatformType::Huya => "huya",
            PlatformType::Kuaishou => "kuaishou",
            PlatformType::TikTok => "tiktok",
            PlatformType::Xiaohongshu => "xiaohongshu",
            PlatformType::Weibo => "weibo",
            PlatformType::Youtube => "youtube",
        }
    }

    /// The name of a platform as it stands in generated file names.
    pub fn debug_name(&self) -> (res: &'static str)
        ensures
            res@ == self.label(),
    {
        match self {
            PlatformType::BiliBili => "BiliBili",
            PlatformType::Douyin => "Douyin",
            PlatformType::Huya => "Huya",
            PlatformType::Kuaishou => "Kuaishou",
            PlatformType::TikTok => "TikTok",
            PlatformType::Xiaohongshu => "Xiaohongshu",
            PlatformType::Weibo => "Weibo",
            PlatformType::Youtube => "Youtube",
        }
    }

    /// The platform with a short name.
    pub open spec fn named(s: Seq<char>) -> Option<PlatformType> {
        if s == "bilibili"@ {
            Some(PlatformType::BiliBili)
        } else if s == "douyin"@ {
            Some(PlatformType::Douyin)
        } else if s == "huya"@ {
            Some(PlatformType::Huya)
        } else if s == "kuaishou"@ {
            Some(PlatformType::Kuaishou)
        } else if s == "tiktok"@ {
            Some(PlatformType::TikTok)
        } else if s == "xiaohongshu"@ {
            Some(PlatformType::Xiaohongshu)
        } else if s == "weibo"@ {
            Some(PlatformType::Weibo)
        } else if s == "youtube"@ {
            Some(PlatformType::Youtube)
        } else {
            None
        }
    }

    /// The platform with a short name, if there is one.
    pub fn from_name(s: &str) -> (res: Option<PlatformType>)
        ensures
            res == PlatformType::named(s@),
    {
        if text::same(s, "bilibili") {
            Some(PlatformType::BiliBili)
        } else if text::same(s, "douyin") {
            Some(PlatformType::Douyin)
        } else if text::same(s, "huya") {
            Some(PlatformType::Huya)
        } else if text::same(s, "kuaishou") {
            Some(PlatformType::Kuaishou)
        } else if text::same(s, "tiktok") {
            Some(PlatformType::TikTok)
        } else if text::same(s, "xiaohongshu") {
            Some(PlatformType::Xiaohongshu)
        } else if text::same(s, "weibo") {
            Some(PlatformType::Weibo)
        } else if text::same(s, "youtube") {
            Some(PlatformType::Youtube)
        } else {
            None
        }
    }

    /// Reading the short name of a platform gives the platform back.
    pub proof fn law_names_round_trip(self)
        ensures
            PlatformType::named(self.name()) == Some(self),
    {
        reveal_strlit("bilibili");
        reveal_strlit("douyin");
        reveal_strlit("huya");
        reveal_strlit("kuaishou");
        reveal_strlit("tiktok");
        reveal_strlit("xiaohongshu");
        reveal_strlit("weibo");
        reveal_strlit("youtube");
        assert("bilibili"@[0] == 'b');
        assert("douyin"@[0] == 'd');
        assert("huya"@[0] == 'h');
        assert("kuaishou"@[0] == 'k');
        assert("tiktok"@[0] == 't');
        assert("xiaohongshu"@[0] == 'x');
        assert("weibo"@[0] == 'w');
        assert("youtube"@[0] == 'y');
    }
}

/// The reason why recording failed.
pub enum RecorderError {
    NoStreamAvailable,
    ApiError { error: String },
    IoError { error: String },
}

impl RecorderError {
    /// The text of the reason.
    pub open spec fn text(self) -> Seq<char> {
        match self {
            RecorderError::NoStreamAvailable => "No stream available"@,
            RecorderError::ApiError { error } => "Api error: "@ + error@,
            RecorderError::IoError { error } => "IO error: "@ + error@,
        }
    }

    /// The text of the reason.
    pub fn to_text(&self) -> (res: String)
        ensures
            res@ == self.text(),
    {
        match self {
            RecorderError::NoStreamAvailable => text::copy("No stream available"),
            RecorderError::ApiError { error } => {
                let mut t = text::copy("Api error: ");
                t.append(error.as_str());
                t
            },
            RecorderError::IoError { error } => {
                let mut t = text::copy("IO error: ");
                t.append(error.as_str());
                t
            },
        }
    }
}

/// What is shown of a room.
pub struct RoomInfo {
    pub platform: String,
    pub room_id: String,
    pub room_title: String,
    pub room_cover: String,
    pub status: bool,
}

/// The model of what is shown of a room.
#[verifier::ext_equal]
pub struct RoomInfoView {
    pub platform: Seq<char>,
    pub room_id: Seq<char>,
    pub room_title: Seq<char>,
    pub room_cover: Seq<char>,
    pub status: bool,
}

impl DeepView for RoomInfo {
    type V = RoomInfoView;

    open spec fn deep_view(&self) -> RoomInfoView {
        RoomInfoView {
            platform: self.platform@,
            room_id: self.room_id@,
            room_title: self.room_title@,
            room_cover: self.room_cover@,
            status: self.status,
        }
    }
}

impl Clone for RoomInfo {
    fn clone(&self) -> (res: Self)
        ensures
            res.deep_view() == self.deep_view(),
    {
        RoomInfo {
            platform: text::copy(self.platform.as_str()),
            room_id: text::copy(self.room_id.as_str()),
            room_title: text::copy(self.room_title.as_str()),
            room_cover: text::copy(self.room_cover.as_str()),
            status: self.status,
        }
    }
}

impl Default for RoomInfo {
    fn default() -> (res: Self)
        ensures
            res.deep_view() == (RoomInfoView {
                platform: Seq::empty(),
                room_id: Seq::empty(),
                room_title: Seq::empty(),
                room_cover: Seq::empty(),
                status: false,
            }),
    {
        RoomInfo {
            platform: String::new(),
            room_id: String::new(),
            room_title: String::new(),
            room_cover: String::new(),
            status: false,
        }
    }
}

/// What is shown of a streamer.
pub struct UserInfo {
    pub user_id: String,
    pub user_name: String,
    pub user_avatar: String,
}

/// The model of what is shown of a streamer.
#[verifier::ext_equal]
pub struct UserInfoView {
    pub user_id: Seq<char>,
    pub user_name: Seq<char>,
    pub user_avatar: Seq<char>,
}

impl DeepView for UserInfo {
    type V = UserInfoView;

    open spec fn deep_view(&self) -> UserInfoView {
        UserInfoView {
            user_id: self.user_id@,
            user_name: self.user_name@,
            user_avatar: self.user_avatar@,
        }
    }
}

impl Clone for UserInfo {
    fn clone(&self) -> (res: Self)
        ensures
            res.deep_view() == self.deep_view(),
    {
        UserInfo {
            user_id: text::copy(self.user_id.as_str()),
            user_name: text::copy(self.user_name.as_str()),
            user_avatar: text::copy(self.user_avatar.as_str()),
        }
    }
}

impl Default for UserInfo {
    fn default() -> (res: Self)
        ensures
            res.deep_view() == (UserInfoView {
                user_id: Seq::empty(),
                user_name: Seq::empty(),
                user_avatar: Seq::empty(),
            }),
    {
        UserInfo {
            user_id: String::new(),
            user_name: String::new(),
            user_avatar: String::new(),
        }
    }
}

/// What is shown of a recorder.
pub struct RecorderInfo {
    pub platform_live_id: String,
    pub live_id: String,
    pub recording: bool,
    pub enabled: bool,
    pub room_info: RoomInfo,
    pub user_info: UserInfo,
}

/// The model of what is shown of a recorder.
#[verifier::ext_equal]
pub struct RecorderInfoView {
    pub platform_live_id: Seq<char>,
    pub live_id: Seq<char>,
    pub recording: bool,
    pub enabled: bool,
    pub room_info: RoomInfoView,
    pub user_info: UserInfoView,
}

impl DeepView for RecorderInfo {
    type V = RecorderInfoView;

    open spec fn deep_view(&self) -> RecorderInfoView {
        RecorderInfoView {
            platform_live_id: self.platform_live_id@,
            live_id: self.live_id@,
            recording: self.recording,
            enabled: self.enabled,
            room_info: self.room_info.deep_view(),
            user_info: self.user_info.deep_view(),
        }
    }
}

impl Clone for RecorderInfo {
    fn clone(&self) -> (res: Self)
        ensures
            res.deep_view() == self.deep_view(),
    {
        RecorderInfo {
            platform_live_id: text::copy(self.platform_live_id.as_str()),
            live_id: text::copy(self.live_id.as_str()),
            recording: self.recording,
            enabled: self.enabled,
            room_info: self.room_info.clone(),
            user_info: self.user_info.clone(),
        }
    }
}

impl PlatformType {
    /// A platform is named by its own name alone: no other text stands for it, and no two platforms
    /// share a name.
    pub proof fn law_only_names_name_platforms(s: Seq<char>, other: PlatformType)
        ensures
            PlatformType::named(s) matches Some(p) ==> s == p.name(),
            PlatformType::named(s) == Some(other) <==> s == other.name(),
    {
        other.law_names_round_trip();
    }
}

} // verus!
