//! Subtitles of a recording: the files on the way to them, and what is done in which order.
use vstd::prelude::*;
use crate::archive;
use crate::manager;
use crate::manager::RecorderManagerError;
use crate::paths;
use crate::platform::PlatformType;
use crate::text;

verus! {

/// The subtitles of a recording and the files between the two.
pub struct SubtitleFiles {
    pub subtitle: String,
    pub playlist: String,
    pub clip: String,
    pub audio: String,
}

impl SubtitleFiles {
    /// The files between a recording and its subtitles.
    pub fn new(
        cache_dir: &str,
        platform: PlatformType,
        room_id: &str,
        live_id: &str,
        windows: bool,
    ) -> (res: Self)
        ensures
            ({
                let dir = archive::archive_dir(cache_dir@, platform, room_id@, live_id@, windows);
                &&& res.subtitle@ == paths::joined_path(dir, "subtitle.srt"@, windows)
                &&& res.playlist@ == paths::joined_path(dir, "tmp.m3u8"@, windows)
                &&& res.clip@ == paths::joined_path(dir, "tmp.mp4"@, windows)
                &&& res.audio@ == paths::joined_path(dir, "tmp.opus"@, windows)
            }),
    {
        let dir = archive::archive_path(cache_dir, platform, room_id, live_id, windows);
        SubtitleFiles {
            subtitle: paths::join(dir.as_str(), "subtitle.srt", windows),
            playlist: paths::join(dir.as_str(), "tmp.m3u8", windows),
            clip: paths::join(dir.as_str(), "tmp.mp4", windows),
            audio: paths::join(dir.as_str(), "tmp.opus", windows),
        }
    }
}

/// The error for a recording without subtitles.
pub fn get_archive_subtitle(live_id: &str) -> (res: RecorderManagerError)
    ensures
        res matches RecorderManagerError::SubtitleNotFound { live_id: l } && l@ == live_id@,
{
    RecorderManagerError::SubtitleNotFound { live_id: text::copy(live_id) }
}

/// The arguments with which audio is taken from a clip.
pub open spec fn audio_arguments(clip: Seq<char>, audio: Seq<char>) -> Seq<Seq<char>> {
    seq!["-i"@, clip, "-vn"@, "-acodec"@, "libopus"@, "-b:a"@, "128k"@, "-y"@, audio]
}

fn audio_args(files: &SubtitleFiles) -> (res: Vec<String>)
    ensures
        res.deep_view() == audio_arguments(files.clip@, files.audio@),
{
    let mut args: Vec<String> = Vec::new();
    args.push(text::copy("-i"));
    args.push(text::copy(files.clip.as_str()));
    args.push(text::copy("-vn"));
    args.push(text::copy("-acodec"));
    args.push(text::copy("libopus"));
    args.push(text::copy("-b:a"));
    args.push(text::copy("128k"));
    args.push(text::copy("-y"));
    args.push(text::copy(files.audio.as_str()));
    assert(args.deep_view() =~= audio_arguments(files.clip@, files.audio@));
    args
}

/// What happened while subtitles were made.
pub enum SubtitleEvent {
    /// A clip of the whole recording is there.
    Clipped,
    ClipFailed { error: String },
    /// The audio of the clip is there.
    AudioExtracted,
    /// The program that takes the audio did not run.
    AudioNotRun { error: String },
    /// The program that takes the audio failed.
    AudioFailed { error: String },
    /// The subtitles are there.
    Generated,
    GeneratorFailed { error: String },
}

/// What is done next to make subtitles.
pub enum SubtitleStep {
    /// Take the audio of the clip, with these arguments.
    ExtractAudio { args: Vec<String> },
    /// Make subtitles from this file.
    Generate { media: String },
    /// Write the subtitles, then remove these files. That the first cannot be removed is an error.
    Write { remove: Vec<String> },
    /// The subtitles cannot be made.
    Fail { error: RecorderManagerError },
}

fn failure(label: &str, error: &str) -> (res: SubtitleStep)
    ensures
        res matches SubtitleStep::Fail { error: e } && (
        e matches RecorderManagerError::SubtitleGenerationFailed { error: m } && m@ == label@
            + error@),
{
    SubtitleStep::Fail {
        error: RecorderManagerError::SubtitleGenerationFailed {
            error: manager::labelled(label, error),
        },
    }
}

/// What is done next to make subtitles. An outside service takes the audio of the clip, the others
/// take the clip.
pub fn generate_archive_subtitle(
    files: &SubtitleFiles,
    generator_type: &str,
    event: SubtitleEvent,
) -> (res: SubtitleStep)
    ensures
        match event {
            SubtitleEvent::Clipped => if generator_type@ == "powerlive"@ {
                res matches SubtitleStep::ExtractAudio { args } && args.deep_view()
                    == audio_arguments(files.clip@, files.audio@)
            } else {
                res matches SubtitleStep::Generate { media } && media@ == files.clip@
            },
            SubtitleEvent::ClipFailed { error } => res matches SubtitleStep::Fail { error: e } && (
            e matches RecorderManagerError::SubtitleGenerationFailed { error: m } && m@ == error@),
            SubtitleEvent::AudioExtracted => res matches SubtitleStep::Generate { media } && media@
                == files.audio@,
            SubtitleEvent::AudioNotRun { error } => res matches SubtitleStep::Fail { error: e } && (
            e matches RecorderManagerError::SubtitleGenerationFailed { error: m } && m@
                == "Failed to run FFmpeg: "@ + error@),
            SubtitleEvent::AudioFailed { error } => res matches SubtitleStep::Fail { error: e } && (
            e matches RecorderManagerError::SubtitleGenerationFailed { error: m } && m@
                == "Failed to extract opus audio: "@ + error@),
            SubtitleEvent::Generated => res matches SubtitleStep::Write { remove }
                && remove.deep_view() == seq![files.playlist@, files.clip@, files.audio@],
            SubtitleEvent::GeneratorFailed { error } => res matches SubtitleStep::Fail { error: e }
                && (e matches RecorderManagerError::SubtitleGenerationFailed { error: m } && m@
                == error@),
        },
{
    match event {
        SubtitleEvent::Clipped => {
            if text::same(generator_type, "powerlive") {
                SubtitleStep::ExtractAudio { args: audio_args(files) }
            } else {
                SubtitleStep::Generate { media: text::copy(files.clip.as_str()) }
            }
        },
        SubtitleEvent::ClipFailed { error } => {
            let step = failure("", error.as_str());
            proof {
                reveal_strlit("");
                assert(""@ + error@ =~= error@);
            }
            step
        },
        SubtitleEvent::AudioExtracted => SubtitleStep::Generate {
            media: text::copy(files.audio.as_str()),
        },
        SubtitleEvent::AudioNotRun { error } => failure("Failed to run FFmpeg: ", error.as_str()),
        SubtitleEvent::AudioFailed { error } => failure(
            "Failed to extract opus audio: ",
            error.as_str(),
        ),
        SubtitleEvent::Generated => {
            let mut remove: Vec<String> = Vec::new();
            remove.push(text::copy(files.playlist.as_str()));
            remove.push(text::copy(files.clip.as_str()));
            remove.push(text::copy(files.audio.as_str()));
            assert(remove.deep_view() =~= seq![files.playlist@, files.clip@, files.audio@]);
            SubtitleStep::Write { remove }
        },
        SubtitleEvent::GeneratorFailed { error } => {
            let step = failure("", error.as_str());
            proof {
                reveal_strlit("");
                assert(""@ + error@ =~= error@);
            }
            step
        },
    }
}

/// How subtitles are made: of the clip itself, or of its sound where the generator asks for that; and
/// when they are made, everything that was made for them is removed. Every failure fails them.
pub proof fn law_how_subtitles_are_made(
    files: &SubtitleFiles,
    generator_type: &str,
    event: SubtitleEvent,
    res: SubtitleStep,
)
    requires
        call_ensures(generate_archive_subtitle, (files, generator_type, event), res),
    ensures
        event is Clipped ==> (res is ExtractAudio <==> generator_type@ == "powerlive"@) && (res
            is Generate <==> generator_type@ != "powerlive"@),
        res is ExtractAudio ==> event is Clipped && res->args.deep_view()[1] == files.clip@
            && res->args.deep_view().last() == files.audio@,
        event is Clipped && res is Generate ==> res->media@ == files.clip@,
        event is AudioExtracted ==> res is Generate && res->media@ == files.audio@,
        event is Generated <==> res is Write,
        res is Write ==> res->remove.deep_view().contains(files.playlist@)
            && res->remove.deep_view().contains(files.clip@) && res->remove.deep_view().contains(
            files.audio@,
        ),
        event is ClipFailed || event is AudioNotRun || event is AudioFailed || event
            is GeneratorFailed <==> res is Fail,
{
    if res is Write {
        let r = res->remove.deep_view();
        assert(r[0] == files.playlist@ && r[1] == files.clip@ && r[2] == files.audio@);
    }
}

} // verus!
