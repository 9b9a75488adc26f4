//! Recording, recovery and export rules for live streams.
pub mod text;
pub mod digits;
pub mod json;
pub mod events;
pub mod export;
pub mod wire;
pub mod connection;
pub mod sorting;
pub mod paths;
pub mod platform;
pub mod markers;
pub mod ledger;
pub mod storage;
pub mod response;
pub mod api;
pub mod session;
pub mod playlist;
pub mod concat;
pub mod multi_clip;
pub mod rows;
pub mod archive;
pub mod migration;
pub mod whole;
pub mod resolve;
pub mod manager;
pub mod removal;
pub mod clips;
pub mod dispatch;
pub mod subtitle;
pub mod whole_clip;
pub mod whole_task;
pub mod hls;
pub mod video_editing;
pub mod highlights;
pub mod attempt;
pub mod poll;
