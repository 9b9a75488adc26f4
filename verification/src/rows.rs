//! Rows of the database that the library reads and makes.
use vstd::prelude::*;
use crate::text;

verus! {

/// A recording.
pub struct RecordRow {
    pub live_id: String,
    pub platform: String,
    pub parent_id: String,
    pub room_id: String,
    pub title: String,
    pub size: i64,
    pub created_at: String,
    pub cover: Option<String>,
}

/// The model of a recording.
#[verifier::ext_equal]
pub struct RecordView {
    pub live_id: Seq<char>,
    pub platform: Seq<char>,
    pub parent_id: Seq<char>,
    pub room_id: Seq<char>,
    pub title: Seq<char>,
    pub size: i64,
    pub created_at: Seq<char>,
    pub cover: Option<Seq<char>>,
}

impl DeepView for RecordRow {
    type V = RecordView;

    open spec fn deep_view(&self) -> RecordView {
        RecordView {
            live_id: self.live_id@,
            platform: self.platform@,
            parent_id: self.parent_id@,
            room_id: self.room_id@,
            title: self.title@,
            size: self.size,
            created_at: self.created_at@,
            cover: self.cover.deep_view(),
        }
    }
}

impl Clone for RecordRow {
    fn clone(&self) -> (res: Self)
        ensures
            res.deep_view() == self.deep_view(),
    {
        RecordRow {
            live_id: text::copy(self.live_id.as_str()),
            platform: text::copy(self.platform.as_str()),
            parent_id: text::copy(self.parent_id.as_str()),
            room_id: text::copy(self.room_id.as_str()),
            title: text::copy(self.title.as_str()),
            size: self.size,
            created_at: text::copy(self.created_at.as_str()),
            cover: text::copy_option(&self.cover),
        }
    }
}

/// A video.
pub struct VideoRow {
    pub id: i64,
    pub room_id: String,
    pub cover: String,
    pub file: String,
    pub note: String,
    pub length: i64,
    pub size: i64,
    pub status: i64,
    pub bvid: String,
    pub title: String,
    pub desc: String,
    pub tags: String,
    pub area: i64,
    pub created_at: String,
    pub platform: String,
}

/// The model of a video.
#[verifier::ext_equal]
pub struct VideoView {
    pub id: i64,
    pub room_id: Seq<char>,
    pub cover: Seq<char>,
    pub file: Seq<char>,
    pub note: Seq<char>,
    pub length: i64,
    pub size: i64,
    pub status: i64,
    pub bvid: Seq<char>,
    pub title: Seq<char>,
    pub desc: Seq<char>,
    pub tags: Seq<char>,
    pub area: i64,
    pub created_at: Seq<char>,
    pub platform: Seq<char>,
}

impl DeepView for VideoRow {
    type V = VideoView;

    open spec fn deep_view(&self) -> VideoView {
        VideoView {
            id: self.id,
            room_id: self.room_id@,
            cover: self.cover@,
            file: self.file@,
            note: self.note@,
            length: self.length,
            size: self.size,
            status: self.status,
            bvid: self.bvid@,
            title: self.title@,
            desc: self.desc@,
            tags: self.tags@,
            area: self.area,
            created_at: self.created_at@,
            platform: self.platform@,
        }
    }
}

/// A video that nothing is known of but what every new one starts with.
pub open spec fn new_video() -> VideoView {
    VideoView {
        id: 0,
        room_id: Seq::empty(),
        cover: Seq::empty(),
        file: Seq::empty(),
        note: Seq::empty(),
        length: 0,
        size: 0,
        status: 0,
        bvid: Seq::empty(),
        title: Seq::empty(),
        desc: Seq::empty(),
        tags: Seq::empty(),
        area: 0,
        created_at: Seq::empty(),
        platform: Seq::empty(),
    }
}

} // verus!
