//! Videos: their files, their transitions and merging, and what is known of them.
use vstd::prelude::*;
use crate::archive;
use crate::digits;
use crate::events;
use crate::hls;
use crate::json;
use crate::json::{Json, JsonView};
use crate::manager;
use crate::migration;
use crate::paths;
use crate::platform::PlatformType;
use crate::rows;
use crate::rows::{RecordRow, RecordView, VideoRow, VideoView};
use crate::text;

verus! {

/// The program that works on videos.
pub fn get_ffmpeg_path(windows: bool) -> (res: String)
    ensures
        res@ == (if windows {
            "ffmpeg.exe"@
        } else {
            "ffmpeg"@
        }),
{
    if windows {
        text::copy("ffmpeg.exe")
    } else {
        text::copy("ffmpeg")
    }
}

/// The program that looks into videos.
pub fn get_ffprobe_path(windows: bool) -> (res: String)
    ensures
        res@ == (if windows {
            "ffprobe.exe"@
        } else {
            "ffprobe"@
        }),
{
    if windows {
        text::copy("ffprobe.exe")
    } else {
        text::copy("ffprobe")
    }
}

/// The file of a video: one with a relative name stands in the output directory.
pub fn resolve_video_path(output_dir: &str, file: &str, windows: bool) -> (res: String)
    ensures
        paths::is_absolute_path(file@, windows) ==> res@ == file@,
        !paths::is_absolute_path(file@, windows) ==> res@ == paths::joined_path(
            output_dir@,
            file@,
            windows,
        ),
{
    if paths::is_absolute(file, windows) {
        text::copy(file)
    } else {
        paths::join(output_dir, file, windows)
    }
}

/// The seconds that a transition takes.
pub const TRANSITION_DURATION_SECONDS: i64 = 1;

/// The transitions between videos.
pub open spec fn is_transition(kind: Seq<char>) -> bool {
    kind == "fade"@ || kind == "dissolve"@ || kind == "wipeleft"@ || kind == "wiperight"@ || kind
        == "slideup"@ || kind == "slidedown"@
}

fn knows_transition(kind: &str) -> (res: bool)
    ensures
        res == is_transition(kind@),
{
    text::same(kind, "fade") || text::same(kind, "dissolve") || text::same(kind, "wipeleft")
        || text::same(kind, "wiperight") || text::same(kind, "slideup") || text::same(
        kind,
        "slidedown",
    )
}

/// The sum of numbers.
pub open spec fn sum(numbers: Seq<i64>) -> int
    decreases numbers.len(),
{
    if numbers.len() == 0 {
        0
    } else {
        sum(numbers.drop_last()) + numbers.last()
    }
}

/// The second in the joined video at which transition `i` starts.
pub open spec fn transition_offset(durations: Seq<i64>, i: int) -> int {
    sum(durations.take(i + 1)) - (i + 1) * TRANSITION_DURATION_SECONDS
}

/// The name of what comes into transition `i`: the first video, or what the one before gave.
pub open spec fn transition_input(track: Seq<char>, i: int) -> Seq<char> {
    if i == 0 {
        "[0:"@ + track + "]"@
    } else {
        "["@ + track + digits::signed_decimal(i) + "]"@
    }
}

/// The name of what transition `i` of `n` gives.
pub open spec fn transition_output(track: Seq<char>, i: int, n: int) -> Seq<char> {
    if i == n - 1 {
        "[out"@ + track + "]"@
    } else {
        "["@ + track + digits::signed_decimal(i + 1) + "]"@
    }
}

/// The filter that joins the pictures in transition `i`.
pub open spec fn picture_filter(durations: Seq<i64>, kind: Seq<char>, i: int) -> Seq<char> {
    transition_input("v"@, i) + "["@ + digits::signed_decimal(i + 1) + ":v]xfade=transition="@
        + kind + ":duration=1:offset="@ + digits::signed_decimal(transition_offset(durations, i))
        + transition_output("v"@, i, durations.len() - 1)
}

/// The filter that joins the sound in transition `i`.
pub open spec fn sound_filter(durations: Seq<i64>, i: int) -> Seq<char> {
    transition_input("a"@, i) + "["@ + digits::signed_decimal(i + 1) + ":a]acrossfade=d=1"@
        + transition_output("a"@, i, durations.len() - 1)
}

/// The filters of the first `k` transitions.
pub open spec fn filters(durations: Seq<i64>, kind: Seq<char>, k: int) -> Seq<Seq<char>>
    decreases k,
{
    if k <= 0 {
        Seq::empty()
    } else {
        filters(durations, kind, k - 1).push(picture_filter(durations, kind, k - 1)).push(
            sound_filter(durations, k - 1),
        )
    }
}

fn input_name(track: &str, i: usize) -> (res: String)
    ensures
        res@ == transition_input(track@, i as int),
{
    let mut out = String::new();
    if i == 0 {
        out.append("[0:");
        assert(out@ =~= "[0:"@);
        out.append(track);
    } else {
        out.append("[");
        assert(out@ =~= "["@);
        out.append(track);
        let n = digits::u64_text(i as u64);
        out.append(n.as_str());
    }
    out.append("]");
    out
}

fn output_name(track: &str, i: usize, n: usize) -> (res: String)
    requires
        i < n,
    ensures
        res@ == transition_output(track@, i as int, n as int),
{
    let mut out = String::new();
    if i == n - 1 {
        out.append("[out");
        assert(out@ =~= "[out"@);
        out.append(track);
    } else {
        out.append("[");
        assert(out@ =~= "["@);
        out.append(track);
        let m = digits::u64_text(i as u64 + 1);
        out.append(m.as_str());
    }
    out.append("]");
    out
}

fn picture_filter_text(
    track_in: String,
    next: &str,
    kind: &str,
    offset: i128,
    track_out: &str,
) -> (res: String)
    ensures
        res@ == track_in@ + "["@ + next@ + ":v]xfade=transition="@ + kind@ + ":duration=1:offset="@
            + digits::signed_decimal(offset as int) + track_out@,
{
    let mut out = track_in;
    out.append("[");
    out.append(next);
    out.append(":v]xfade=transition=");
    out.append(kind);
    out.append(":duration=1:offset=");
    let o = digits::i128_text(offset);
    out.append(o.as_str());
    out.append(track_out);
    out
}

fn sound_filter_text(track_in: String, next: &str, track_out: &str) -> (res: String)
    ensures
        res@ == track_in@ + "["@ + next@ + ":a]acrossfade=d=1"@ + track_out@,
{
    let mut out = track_in;
    out.append("[");
    out.append(next);
    out.append(":a]acrossfade=d=1");
    out.append(track_out);
    out
}

/// Whether every video is longer than a transition.
pub open spec fn long_enough(durations: Seq<i64>) -> bool {
    forall|i: int|
        0 <= i < durations.len() ==> (#[trigger] durations[i]) > TRANSITION_DURATION_SECONDS
}

fn all_long_enough(durations: &[i64]) -> (res: bool)
    ensures
        res == long_enough(durations@),
{
    let mut i: usize = 0;
    while i < durations.len()
        invariant
            i <= durations@.len(),
            forall|j: int| 0 <= j < i ==> (#[trigger] durations@[j]) > TRANSITION_DURATION_SECONDS,
        decreases durations@.len() - i,
    {
        if durations[i] <= TRANSITION_DURATION_SECONDS {
            return false;
        }
        i += 1;
    }
    true
}

/// The filter that joins videos of whole seconds with a transition between neighbours. Each
/// transition starts where the video before it still plays for the time that it takes.
pub fn build_transition_filter(durations: &[i64], transition_type: &str) -> (res: Result<
    String,
    String,
>)
    ensures
        if durations@.len() < 2 {
            res matches Err(e) && e@ == "At least two videos are required for a transition"@
        } else if !long_enough(durations@) {
            res matches Err(e) && e@
                == "Every video must be longer than the transition duration"@
        } else if !is_transition(transition_type@) {
            res matches Err(e) && e@ == "Unsupported transition: "@ + transition_type@
        } else {
            res matches Ok(filter) && filter@ == text::joined(
                filters(durations@, transition_type@, durations@.len() - 1),
                ";"@,
            )
        },
{
    if durations.len() < 2 {
        return Err(text::copy("At least two videos are required for a transition"));
    }
    if !all_long_enough(durations) {
        return Err(text::copy("Every video must be longer than the transition duration"));
    }
    if !knows_transition(transition_type) {
        return Err(manager::labelled("Unsupported transition: ", transition_type));
    }
    let n = durations.len() - 1;
    let mut list: Vec<String> = Vec::new();
    let mut total: i128 = 0;
    let mut i: usize = 0;
    assert(durations@.take(0) =~= Seq::empty());
    assert(list.deep_view() =~= Seq::<Seq<char>>::empty());
    while i < n
        invariant
            i <= n,
            n == durations@.len() - 1,
            long_enough(durations@),
            total == sum(durations@.take(i as int)),
            0 <= total <= i64::MAX * i,
            list.deep_view() == filters(durations@, transition_type@, i as int),
        decreases n - i,
    {
        let ghost next = durations@.take(i + 1);
        assert(next.drop_last() =~= durations@.take(i as int));
        assert(next.last() == durations@[i as int]);
        total = total + durations[i] as i128;
        let offset: i128 = total - (i as i128 + 1);
        let number = digits::u64_text(i as u64 + 1);
        let ghost before = list.deep_view();
        let track_in = input_name("v", i);
        let track_out = output_name("v", i, n);
        let picture = picture_filter_text(
            track_in,
            number.as_str(),
            transition_type,
            offset,
            track_out.as_str(),
        );
        let sound_in = input_name("a", i);
        let sound_out = output_name("a", i, n);
        let sound = sound_filter_text(sound_in, number.as_str(), sound_out.as_str());
        list.push(picture);
        list.push(sound);
        assert(list.deep_view() =~= before.push(picture@).push(sound@));
        i += 1;
    }
    Ok(text::join(&list, ";"))
}

proof fn lemma_sum_prefix(durations: Seq<i64>, k: int)
    requires
        long_enough(durations),
        0 <= k <= durations.len(),
    ensures
        sum(durations.take(k)) >= 2 * k,
    decreases k,
{
    if k > 0 {
        lemma_sum_prefix(durations, k - 1);
        assert(durations.take(k).drop_last() =~= durations.take(k - 1));
        assert(durations.take(k).last() == durations[k - 1]);
    }
}

/// Transitions start inside the joined video and one after the other, none before the one before it
/// is over.
pub proof fn law_transitions_follow_each_other(durations: Seq<i64>, i: int)
    requires
        long_enough(durations),
        0 <= i < durations.len() - 1,
    ensures
        0 < transition_offset(durations, i),
        i > 0 ==> transition_offset(durations, i - 1) + TRANSITION_DURATION_SECONDS
            <= transition_offset(durations, i),
        transition_offset(durations, i) + TRANSITION_DURATION_SECONDS <= sum(durations) - (
        durations.len() - 1) * TRANSITION_DURATION_SECONDS,
{
    lemma_sum_prefix(durations, i + 1);
    if i > 0 {
        assert(durations.take(i + 1).drop_last() =~= durations.take(i));
        assert(durations.take(i + 1).last() == durations[i]);
    }
    lemma_sum_tail(durations, i + 1);
}

proof fn lemma_sum_tail(durations: Seq<i64>, k: int)
    requires
        long_enough(durations),
        0 <= k <= durations.len(),
    ensures
        sum(durations) >= sum(durations.take(k)) + 2 * (durations.len() - k),
    decreases durations.len() - k,
{
    if k < durations.len() {
        lemma_sum_tail(durations, k + 1);
        assert(durations.take(k + 1).drop_last() =~= durations.take(k));
        assert(durations.take(k + 1).last() == durations[k]);
    } else {
        assert(durations.take(k) =~= durations);
    }
}

/// A path as it is written in a list of files to join.
pub open spec fn listed(path: Seq<char>) -> Seq<char> {
    text::replaced(text::replaced(path, "\\"@, "\\\\"@), "'"@, "'\\''"@)
}

/// The list of files to join.
pub open spec fn file_list(files: Seq<Seq<char>>) -> Seq<char>
    decreases files.len(),
{
    if files.len() == 0 {
        Seq::empty()
    } else {
        file_list(files.drop_last()) + "file '"@ + listed(files.last()) + "'\n"@
    }
}

/// The list of files to join.
pub fn concat_list(files: &Vec<String>) -> (res: String)
    ensures
        res@ == file_list(files.deep_view()),
{
    proof {
        reveal_strlit("\\");
        reveal_strlit("'");
    }
    let mut out = String::new();
    let ghost all = files.deep_view();
    let mut i: usize = 0;
    assert(all.take(0) =~= Seq::empty());
    while i < files.len()
        invariant
            i <= files@.len(),
            all == files.deep_view(),
            out@ == file_list(all.take(i as int)),
            "\\"@.len() > 0,
            "'"@.len() > 0,
        decreases files@.len() - i,
    {
        assert(all.take(i + 1).drop_last() =~= all.take(i as int));
        assert(all.take(i + 1).last() == files@[i as int]@);
        let once = text::replace(files[i].as_str(), "\\", "\\\\");
        let twice = text::replace(once.as_str(), "'", "'\\''");
        out.append("file '");
        out.append(twice.as_str());
        out.append("'\n");
        i += 1;
    }
    assert(all.take(i as int) =~= all);
    out
}

/// What videos are merged into.
pub struct MergeRequest {
    pub videos: Vec<VideoRow>,
    pub transition: Option<String>,
    pub output_title: String,
    pub output_note: String,
    pub output_dir: String,
    pub output_file: String,
    pub windows: bool,
}

impl MergeRequest {
    /// The transition that is asked for.
    pub open spec fn kind(&self) -> Seq<char> {
        match self.transition {
            Some(t) => t@,
            None => "none"@,
        }
    }

    /// Whether the videos are joined with transitions.
    pub open spec fn blends(&self) -> bool {
        self.kind() != "none"@ && self.videos@.len() != 1
    }

    /// The lengths of the videos.
    pub open spec fn lengths(&self) -> Seq<i64> {
        Seq::new(self.videos@.len(), |i: int| self.videos@[i].length)
    }

    /// The length of what the videos are merged into.
    pub open spec fn merged_length(&self) -> int {
        sum(self.lengths()) - if self.blends() {
            (self.videos@.len() - 1) * TRANSITION_DURATION_SECONDS
        } else {
            0
        }
    }

    /// Whether the length can be counted.
    pub open spec fn is_countable(&self) -> bool {
        &&& forall|k: int|
            0 <= k <= self.videos@.len() ==> i64::MIN <= #[trigger] sum(self.lengths().take(k))
                <= i64::MAX
        &&& i64::MIN <= self.merged_length() <= i64::MAX
    }

    /// The files of the videos.
    pub open spec fn files(&self) -> Seq<Seq<char>> {
        Seq::new(
            self.videos@.len(),
            |i: int| paths::joined_path(self.output_dir@, self.videos@[i].file@, self.windows),
        )
    }

    /// The file that the videos are merged into.
    pub open spec fn output_path(&self) -> Seq<char> {
        paths::joined_path(self.output_dir@, self.output_file@, self.windows)
    }

    fn is_blended(&self) -> (res: bool)
        ensures
            res == self.blends(),
    {
        let plain = match &self.transition {
            Some(t) => text::same(t.as_str(), "none"),
            None => true,
        };
        !plain && self.videos.len() != 1
    }

    fn video_files(&self) -> (res: Vec<String>)
        ensures
            res.deep_view() == self.files(),
    {
        let mut out: Vec<String> = Vec::new();
        let mut i: usize = 0;
        while i < self.videos.len()
            invariant
                i <= self.videos@.len(),
                out@.len() == i,
                forall|j: int| 0 <= j < i ==> (#[trigger] out@[j])@ == self.files()[j],
            decreases self.videos@.len() - i,
        {
            out.push(
                resolve_video_path(
                    self.output_dir.as_str(),
                    self.videos[i].file.as_str(),
                    self.windows,
                ),
            );
            i += 1;
        }
        assert(out.deep_view() =~= self.files());
        out
    }

    fn video_lengths(&self) -> (res: Vec<i64>)
        ensures
            res@ == self.lengths(),
    {
        let mut out: Vec<i64> = Vec::new();
        let mut i: usize = 0;
        while i < self.videos.len()
            invariant
                i <= self.videos@.len(),
                out@.len() == i,
                forall|j: int| 0 <= j < i ==> #[trigger] out@[j] == self.lengths()[j],
            decreases self.videos@.len() - i,
        {
            out.push(self.videos[i].length);
            i += 1;
        }
        assert(out@ =~= self.lengths());
        out
    }

    fn total_length(&self) -> (res: i64)
        requires
            self.videos@.len() > 0,
            self.is_countable(),
        ensures
            res == self.merged_length(),
    {
        let ghost all = self.lengths();
        let mut total: i64 = 0;
        let mut i: usize = 0;
        assert(all.take(0) =~= Seq::empty());
        while i < self.videos.len()
            invariant
                i <= self.videos@.len(),
                all == self.lengths(),
                self.is_countable(),
                total == sum(all.take(i as int)),
            decreases self.videos@.len() - i,
        {
            assert(all.take(i + 1).drop_last() =~= all.take(i as int));
            assert(all.take(i + 1).last() == self.videos@[i as int].length);
            assert(i64::MIN <= sum(all.take(i + 1)) <= i64::MAX);
            total = total + self.videos[i].length;
            i += 1;
        }
        assert(all.take(i as int) =~= all);
        if self.is_blended() {
            let overlap: i128 = (self.videos.len() - 1) as i128;
            (total as i128 - overlap) as i64
        } else {
            total
        }
    }

    /// The arguments with which the files of a list are joined.
    pub open spec fn joining_arguments(&self, list_file: Seq<char>) -> Seq<Seq<char>> {
        seq![
            "-f"@,
            "concat"@,
            "-safe"@,
            "0"@,
            "-i"@,
            list_file,
            "-c"@,
            "copy"@,
            "-y"@,
            self.output_path(),
        ]
    }

    /// The arguments with which the files of a list are joined.
    pub fn concat_args(&self, list_file: &str) -> (res: Vec<String>)
        ensures
            res.deep_view() == self.joining_arguments(list_file@),
    {
        let mut args: Vec<String> = Vec::new();
        args.push(text::copy("-f"));
        args.push(text::copy("concat"));
        args.push(text::copy("-safe"));
        args.push(text::copy("0"));
        args.push(text::copy("-i"));
        args.push(text::copy(list_file));
        args.push(text::copy("-c"));
        args.push(text::copy("copy"));
        args.push(text::copy("-y"));
        args.push(
            paths::join(self.output_dir.as_str(), self.output_file.as_str(), self.windows),
        );
        assert(args.deep_view() =~= self.joining_arguments(list_file@));
        args
    }

    /// The arguments with which videos are joined with transitions.
    pub open spec fn blending_arguments(&self, filter: Seq<char>) -> Seq<Seq<char>> {
        inputs(self.files()) + seq![
            "-filter_complex"@,
            filter,
            "-map"@,
            "[outv]"@,
            "-map"@,
            "[outa]"@,
            "-c:v"@,
            "libx264"@,
            "-preset"@,
            "medium"@,
            "-crf"@,
            "23"@,
            "-c:a"@,
            "aac"@,
            "-y"@,
            self.output_path(),
        ]
    }

    fn blend_args(&self, filter: &str) -> (res: Vec<String>)
        ensures
            res.deep_view() == self.blending_arguments(filter@),
    {
        let files = self.video_files();
        let mut args = input_args(&files);
        let ghost first = args.deep_view();
        args.push(text::copy("-filter_complex"));
        args.push(text::copy(filter));
        args.push(text::copy("-map"));
        args.push(text::copy("[outv]"));
        args.push(text::copy("-map"));
        args.push(text::copy("[outa]"));
        args.push(text::copy("-c:v"));
        args.push(text::copy("libx264"));
        args.push(text::copy("-preset"));
        args.push(text::copy("medium"));
        args.push(text::copy("-crf"));
        args.push(text::copy("23"));
        args.push(text::copy("-c:a"));
        args.push(text::copy("aac"));
        args.push(text::copy("-y"));
        args.push(
            paths::join(self.output_dir.as_str(), self.output_file.as_str(), self.windows),
        );
        assert(args.deep_view() =~= self.blending_arguments(filter@));
        args
    }

    fn merged_row(&self, made: bool, size: u64, created_at: &str) -> (res: VideoRow)
        requires
            self.videos@.len() > 0,
            self.is_countable(),
        ensures
            res.deep_view() == merged_video(*self, made, size, created_at@),
    {
        VideoRow {
            id: 0,
            room_id: text::copy(self.videos[0].room_id.as_str()),
            cover: if made {
                paths::replace_extension(self.output_file.as_str(), "jpg")
            } else {
                String::new()
            },
            file: text::copy(self.output_file.as_str()),
            note: text::copy(self.output_note.as_str()),
            length: self.total_length(),
            size: size as i64,
            status: 0,
            bvid: String::new(),
            title: text::copy(self.output_title.as_str()),
            desc: String::new(),
            tags: String::new(),
            area: 0,
            created_at: text::copy(created_at),
            platform: text::copy(self.videos[0].platform.as_str()),
        }
    }
}

/// The row of what videos are merged into. A size that is too large for the database wraps.
pub open spec fn merged_video(
    request: MergeRequest,
    made: bool,
    size: u64,
    created_at: Seq<char>,
) -> VideoView {
    VideoView {
        room_id: request.videos@[0].room_id@,
        cover: if made {
            paths::with_extension(request.output_file@, "jpg"@)
        } else {
            Seq::empty()
        },
        file: request.output_file@,
        note: request.output_note@,
        length: request.merged_length() as i64,
        size: size as i64,
        title: request.output_title@,
        created_at,
        platform: request.videos@[0].platform@,
        ..rows::new_video()
    }
}

/// The arguments that name input files.
pub open spec fn inputs(files: Seq<Seq<char>>) -> Seq<Seq<char>>
    decreases files.len(),
{
    if files.len() == 0 {
        Seq::empty()
    } else {
        inputs(files.drop_last()).push("-i"@).push(files.last())
    }
}

fn input_args(files: &Vec<String>) -> (res: Vec<String>)
    ensures
        res.deep_view() == inputs(files.deep_view()),
{
    let mut args: Vec<String> = Vec::new();
    let ghost all = files.deep_view();
    let mut i: usize = 0;
    assert(all.take(0) =~= Seq::empty());
    assert(args.deep_view() =~= Seq::<Seq<char>>::empty());
    while i < files.len()
        invariant
            i <= files@.len(),
            all == files.deep_view(),
            args.deep_view() == inputs(all.take(i as int)),
        decreases files@.len() - i,
    {
        assert(all.take(i + 1).drop_last() =~= all.take(i as int));
        assert(all.take(i + 1).last() == files@[i as int]@);
        let ghost before = args.deep_view();
        args.push(text::copy("-i"));
        args.push(text::copy(files[i].as_str()));
        assert(args.deep_view() =~= before.push("-i"@).push(files@[i as int]@));
        i += 1;
    }
    assert(all.take(i as int) =~= all);
    args
}

/// What happened while videos were merged.
pub enum MergeEvent {
    /// A video is not in the database.
    VideoMissing { id: i64, error: String },
    /// The output directory cannot be made.
    DirectoryFailed { error: String },
    /// All is there that merging needs.
    Ready,
    /// The list of files cannot be written.
    ListFailed { error: String },
    /// The program that merges did not run.
    NotRun { error: String },
    /// The program that merges failed.
    Failed { error: String },
    Merged,
    Measured,
    MeasureFailed { error: String },
    /// A cover was made, or could not be made.
    Covered { made: bool, size: u64, created_at: String },
    Stored { id: i64 },
    StoreFailed { covered: bool, error: String },
}

/// What is done next to merge videos.
pub enum MergeStep {
    /// Write a list of files, and join them.
    Join { list: String },
    /// Join files with transitions, with these arguments.
    Blend { args: Vec<String> },
    Measure,
    Cover,
    /// Add this row to the database, after the rest of a failed cover is removed.
    Store { drop_cover: bool, row: VideoRow },
    Done { id: i64 },
    /// Remove files and fail.
    Fail { drop_output: bool, drop_cover: bool, error: String },
}

/// Whether a step is to remove the output and, where it is there, its cover, and to fail.
pub open spec fn fails(
    step: MergeStep,
    drop_output: bool,
    drop_cover: bool,
    error: Seq<char>,
) -> bool {
    step matches MergeStep::Fail { drop_output: o, drop_cover: c, error: e } && o == drop_output
        && c == drop_cover && e@ == error
}

fn merge_failure(drop_output: bool, drop_cover: bool, label: &str, error: &str) -> (res: MergeStep)
    ensures
        fails(res, drop_output, drop_cover, label@ + error@),
{
    MergeStep::Fail { drop_output, drop_cover, error: manager::labelled(label, error) }
}

fn first_step(request: &MergeRequest) -> (res: MergeStep)
    ensures
        is_first_step(*request, res),
{
    if request.videos.len() == 0 {
        return MergeStep::Fail {
            drop_output: false,
            drop_cover: false,
            error: text::copy("No videos to merge"),
        };
    }
    if !request.is_blended() {
        let files = request.video_files();
        return MergeStep::Join { list: concat_list(&files) };
    }
    let durations = request.video_lengths();
    let kind = match &request.transition {
        Some(t) => text::copy(t.as_str()),
        None => text::copy("none"),
    };
    match build_transition_filter(durations.as_slice(), kind.as_str()) {
        Ok(filter) => MergeStep::Blend { args: request.blend_args(filter.as_str()) },
        Err(error) => MergeStep::Fail { drop_output: false, drop_cover: false, error },
    }
}

/// Whether merging starts with a step: without transitions, or with one video, files are joined as
/// they are.
pub open spec fn is_first_step(request: MergeRequest, step: MergeStep) -> bool {
    let lengths = request.lengths();
    if lengths.len() == 0 {
        fails(step, false, false, "No videos to merge"@)
    } else if !request.blends() {
        step matches MergeStep::Join { list } && list@ == file_list(request.files())
    } else if !long_enough(lengths) {
        fails(step, false, false, "Every video must be longer than the transition duration"@)
    } else if !is_transition(request.kind()) {
        fails(step, false, false, "Unsupported transition: "@ + request.kind())
    } else {
        step matches MergeStep::Blend { args } && args.deep_view() == request.blending_arguments(
            text::joined(filters(lengths, request.kind(), lengths.len() - 1), ";"@),
        )
    }
}

/// What is done next to merge videos. A failure leaves neither the merged video nor its cover.
pub fn merge_videos(request: &MergeRequest, event: MergeEvent) -> (res: MergeStep)
    requires
        event is Covered ==> request.videos@.len() > 0 && request.is_countable(),
    ensures
        match event {
            MergeEvent::VideoMissing { id, error } => fails(
                res,
                false,
                false,
                "Failed to get video "@ + digits::signed_decimal(id as int) + ": "@ + error@,
            ),
            MergeEvent::DirectoryFailed { error } => fails(
                res,
                false,
                false,
                "Failed to create output directory: "@ + error@,
            ),
            MergeEvent::Ready => is_first_step(*request, res),
            MergeEvent::ListFailed { error } => fails(
                res,
                false,
                false,
                "Failed to write concat file: "@ + error@,
            ),
            MergeEvent::NotRun { error } => fails(
                res,
                true,
                false,
                "Failed to run ffmpeg: "@ + error@,
            ),
            MergeEvent::Failed { error } => fails(
                res,
                true,
                false,
                if request.blends() {
                    "FFmpeg merge with transition failed: "@
                } else {
                    "FFmpeg merge failed: "@
                } + error@,
            ),
            MergeEvent::Merged => res is Measure,
            MergeEvent::Measured => res is Cover,
            MergeEvent::MeasureFailed { error } => fails(
                res,
                true,
                false,
                "Failed to get file size: "@ + error@,
            ),
            MergeEvent::Covered { made, size, created_at } => res matches MergeStep::Store {
                drop_cover,
                row,
            } && drop_cover == !made && row.deep_view() == merged_video(
                *request,
                made,
                size,
                created_at@,
            ),
            MergeEvent::Stored { id } => res == (MergeStep::Done { id }),
            MergeEvent::StoreFailed { covered, error } => fails(
                res,
                true,
                covered,
                "Failed to insert video: "@ + error@,
            ),
        },
{
    match event {
        MergeEvent::VideoMissing { id, error } => {
            let mut label = text::copy("Failed to get video ");
            let number = digits::i64_text(id);
            label.append(number.as_str());
            label.append(": ");
            merge_failure(false, false, label.as_str(), error.as_str())
        },
        MergeEvent::DirectoryFailed { error } => merge_failure(
            false,
            false,
            "Failed to create output directory: ",
            error.as_str(),
        ),
        MergeEvent::Ready => first_step(request),
        MergeEvent::ListFailed { error } => merge_failure(
            false,
            false,
            "Failed to write concat file: ",
            error.as_str(),
        ),
        MergeEvent::NotRun { error } => merge_failure(
            true,
            false,
            "Failed to run ffmpeg: ",
            error.as_str(),
        ),
        MergeEvent::Failed { error } => {
            if request.is_blended() {
                merge_failure(
                    true,
                    false,
                    "FFmpeg merge with transition failed: ",
                    error.as_str(),
                )
            } else {
                merge_failure(true, false, "FFmpeg merge failed: ", error.as_str())
            }
        },
        MergeEvent::Merged => MergeStep::Measure,
        MergeEvent::Measured => MergeStep::Cover,
        MergeEvent::MeasureFailed { error } => merge_failure(
            true,
            false,
            "Failed to get file size: ",
            error.as_str(),
        ),
        MergeEvent::Covered { made, size, created_at } => MergeStep::Store {
            drop_cover: !made,
            row: request.merged_row(made, size, created_at.as_str()),
        },
        MergeEvent::Stored { id } => MergeStep::Done { id },
        MergeEvent::StoreFailed { covered, error } => merge_failure(
            true,
            covered,
            "Failed to insert video: ",
            error.as_str(),
        ),
    }
}

/// What is known of a video, but for the numbers that are no whole ones: those are left as the
/// texts that hold them.
pub struct ProbedVideo {
    pub duration: Option<String>,
    pub file_size: u64,
    pub bitrate: u64,
    pub width: u32,
    pub height: u32,
    pub video_codec: String,
    pub audio_codec: String,
    /// The two parts of the frame rate.
    pub frame_rate: Option<(String, String)>,
}

/// The model of what is known of a video.
#[verifier::ext_equal]
pub struct ProbedView {
    pub duration: Option<Seq<char>>,
    pub file_size: u64,
    pub bitrate: u64,
    pub width: u32,
    pub height: u32,
    pub video_codec: Seq<char>,
    pub audio_codec: Seq<char>,
    pub frame_rate: Option<(Seq<char>, Seq<char>)>,
}

impl DeepView for ProbedVideo {
    type V = ProbedView;

    open spec fn deep_view(&self) -> ProbedView {
        ProbedView {
            duration: self.duration.deep_view(),
            file_size: self.file_size,
            bitrate: self.bitrate,
            width: self.width,
            height: self.height,
            video_codec: self.video_codec@,
            audio_codec: self.audio_codec@,
            frame_rate: self.frame_rate.deep_view(),
        }
    }
}

/// The first stream of a kind.
pub open spec fn stream_of(streams: Seq<JsonView>, kind: Seq<char>) -> Option<JsonView>
    decreases streams.len(),
{
    if streams.len() == 0 {
        None
    } else if streams[0].at("codec_type"@).as_text() == Some(kind) {
        Some(streams[0])
    } else {
        stream_of(streams.drop_first(), kind)
    }
}

fn find_stream<'a>(streams: &'a Vec<Json>, kind: &str) -> (res: Option<&'a Json>)
    ensures
        match res {
            Some(s) => stream_of(streams.deep_view(), kind@) == Some(s.deep_view()),
            None => stream_of(streams.deep_view(), kind@) is None,
        },
{
    let ghost all = streams.deep_view();
    let mut i: usize = 0;
    assert(all.skip(0) =~= all);
    while i < streams.len()
        invariant
            i <= streams@.len(),
            all == streams.deep_view(),
            stream_of(all, kind@) == stream_of(all.skip(i as int), kind@),
        decreases streams@.len() - i,
    {
        let ghost rest = all.skip(i as int);
        assert(rest[0] == streams@[i as int].deep_view());
        assert(rest.drop_first() =~= all.skip(i + 1));
        if let Some(own) = events::text_member(&streams[i], "codec_type") {
            if text::same(own.as_str(), kind) {
                return Some(&streams[i]);
            }
        }
        i += 1;
    }
    assert(all.skip(i as int).len() == 0);
    None
}

/// The number in a text member, or zero.
pub open spec fn number_member(value: JsonView, key: Seq<char>) -> int {
    match value.at(key).as_text() {
        Some(s) => match digits::within(digits::unsigned_value(s), 0, u64::MAX as int) {
            Some(n) => n,
            None => 0,
        },
        None => 0,
    }
}

fn read_number(value: &Json, key: &str) -> (res: u64)
    ensures
        res == number_member(value.deep_view(), key@),
{
    match events::text_member(value, key) {
        Some(s) => match digits::parse_u64(s.as_str()) {
            Some(n) => n,
            None => 0,
        },
        None => 0,
    }
}

/// The number of points in a direction, or zero. A number that is too large wraps.
pub open spec fn points(stream: JsonView, key: Seq<char>) -> u32 {
    match stream.at(key).as_u64() {
        Some(n) => n as u32,
        None => 0,
    }
}

fn read_points(stream: &Json, key: &str) -> (res: u32)
    ensures
        res == points(stream.deep_view(), key@),
{
    match stream.get(key) {
        Some(v) => match v.as_u64() {
            Some(n) => n as u32,
            None => 0,
        },
        None => 0,
    }
}

/// A text member, or a given text.
pub open spec fn text_or(value: JsonView, key: Seq<char>, default: Seq<char>) -> Seq<char> {
    match value.at(key).as_text() {
        Some(s) => s,
        None => default,
    }
}

fn read_text_or(value: &Json, key: &str, default: &str) -> (res: String)
    ensures
        res@ == text_or(value.deep_view(), key@, default@),
{
    match events::text_member(value, key) {
        Some(s) => s,
        None => text::copy(default),
    }
}

/// The two parts of a frame rate, where it has two.
pub open spec fn rate_parts(stream: JsonView) -> Option<(Seq<char>, Seq<char>)> {
    match stream.at("r_frame_rate"@).as_text() {
        Some(s) => {
            let parts = text::split(s, '/');
            if parts.len() == 2 {
                Some((parts[0], parts[1]))
            } else {
                None
            }
        },
        None => None,
    }
}

fn read_rate(stream: &Json) -> (res: Option<(String, String)>)
    ensures
        res.deep_view() == rate_parts(stream.deep_view()),
{
    match events::text_member(stream, "r_frame_rate") {
        Some(s) => {
            let parts = text::split_all(s.as_str(), '/');
            if parts.len() == 2 {
                assert(parts.deep_view()[0] == parts@[0]@);
                assert(parts.deep_view()[1] == parts@[1]@);
                Some((text::copy(parts[0].as_str()), text::copy(parts[1].as_str())))
            } else {
                None
            }
        },
        None => None,
    }
}

/// What is known of a video, from what was found out of it.
pub open spec fn probed(format: JsonView, video: JsonView, audio: Option<JsonView>) -> ProbedView {
    ProbedView {
        duration: format.at("duration"@).as_text(),
        file_size: number_member(format, "size"@) as u64,
        bitrate: number_member(format, "bit_rate"@) as u64,
        width: points(video, "width"@),
        height: points(video, "height"@),
        video_codec: text_or(video, "codec_name"@, "unknown"@),
        audio_codec: match audio {
            Some(a) => text_or(a, "codec_name"@, "none"@),
            None => "none"@,
        },
        frame_rate: rate_parts(video),
    }
}

/// What is known of a video, from a report that was read.
pub fn read_report(report: &Json) -> (res: Result<ProbedVideo, String>)
    ensures
        match report.deep_view().get("format"@) {
            None => res matches Err(e) && e@ == "No format info"@,
            Some(format) => match report.deep_view().at("streams"@).as_array() {
                None => res matches Err(e) && e@ == "No streams"@,
                Some(streams) => match stream_of(streams, "video"@) {
                    None => res matches Err(e) && e@ == "No video stream found"@,
                    Some(video) => res matches Ok(p) && p.deep_view() == probed(
                        format,
                        video,
                        stream_of(streams, "audio"@),
                    ),
                },
            },
        },
{
    let format = match report.get("format") {
        Some(f) => f,
        None => {
            return Err(text::copy("No format info"));
        },
    };
    let streams = match report.get("streams") {
        Some(s) => match s.as_array() {
            Some(list) => list,
            None => {
                return Err(text::copy("No streams"));
            },
        },
        None => {
            return Err(text::copy("No streams"));
        },
    };
    let video = match find_stream(streams, "video") {
        Some(v) => v,
        None => {
            return Err(text::copy("No video stream found"));
        },
    };
    let audio_codec = match find_stream(streams, "audio") {
        Some(a) => read_text_or(a, "codec_name", "none"),
        None => text::copy("none"),
    };
    Ok(
        ProbedVideo {
            duration: events::text_member(format, "duration"),
            file_size: read_number(format, "size"),
            bitrate: read_number(format, "bit_rate"),
            width: read_points(video, "width"),
            height: read_points(video, "height"),
            video_codec: read_text_or(video, "codec_name", "unknown"),
            audio_codec,
            frame_rate: read_rate(video),
        },
    )
}

/// The arguments with which a video is looked into.
pub open spec fn probe_arguments(video: Seq<char>) -> Seq<Seq<char>> {
    seq![
        "-v"@,
        "quiet"@,
        "-print_format"@,
        "json"@,
        "-show_format"@,
        "-show_streams"@,
        video,
    ]
}

/// The arguments with which a video is looked into.
pub fn probe_args(video: &str) -> (res: Vec<String>)
    ensures
        res.deep_view() == probe_arguments(video@),
{
    let mut args: Vec<String> = Vec::new();
    args.push(text::copy("-v"));
    args.push(text::copy("quiet"));
    args.push(text::copy("-print_format"));
    args.push(text::copy("json"));
    args.push(text::copy("-show_format"));
    args.push(text::copy("-show_streams"));
    args.push(text::copy(video));
    assert(args.deep_view() =~= probe_arguments(video@));
    args
}

/// What looking into a video came to.
pub enum ProbeOutcome {
    NoFile,
    /// The program that looks into videos did not run.
    NotRun { error: String },
    /// The program that looks into videos failed.
    Failed,
    /// It wrote a report.
    Report { stdout: Vec<u8> },
}

/// What is known of a video, from what looking into it came to.
pub fn get_video_metadata_internal(outcome: ProbeOutcome) -> (res: Result<ProbedVideo, String>)
    ensures
        match outcome {
            ProbeOutcome::NoFile => res matches Err(e) && e@ == "Video file not found"@,
            ProbeOutcome::NotRun { error } => res matches Err(e) && e@
                == "Failed to run ffprobe: "@ + error@,
            ProbeOutcome::Failed => res matches Err(e) && e@ == "FFprobe failed"@,
            ProbeOutcome::Report { stdout } => match json::parsed_json(hls::lossy(stdout@)) {
                None => res matches Err(e) && e@ == "Failed to parse ffprobe output: "@
                    + json::serde_refusal(hls::lossy(stdout@)),
                Some(report) => match report.get("format"@) {
                    None => res matches Err(e) && e@ == "No format info"@,
                    Some(format) => match report.at("streams"@).as_array() {
                        None => res matches Err(e) && e@ == "No streams"@,
                        Some(streams) => match stream_of(streams, "video"@) {
                            None => res matches Err(e) && e@ == "No video stream found"@,
                            Some(video) => res matches Ok(p) && p.deep_view() == probed(
                                format,
                                video,
                                stream_of(streams, "audio"@),
                            ),
                        },
                    },
                },
            },
        },
{
    match outcome {
        ProbeOutcome::NoFile => Err(text::copy("Video file not found")),
        ProbeOutcome::NotRun { error } => Err(
            manager::labelled("Failed to run ffprobe: ", error.as_str()),
        ),
        ProbeOutcome::Failed => Err(text::copy("FFprobe failed")),
        ProbeOutcome::Report { stdout } => {
            let report = hls::lossy_text(stdout.as_slice());
            match json::read_json(report.as_str()) {
                Ok(json) => read_report(&json),
                Err(error) => Err(
                    manager::labelled("Failed to parse ffprobe output: ", error.as_str()),
                ),
            }
        },
    }
}

/// The number of pictures that are taken from a video.
pub fn frame_count(max_frames: usize) -> (res: usize)
    ensures
        res == (if max_frames < 1 {
            1
        } else if max_frames > 10 {
            10
        } else {
            max_frames as int
        }),
{
    if max_frames < 1 {
        1
    } else if max_frames > 10 {
        10
    } else {
        max_frames
    }
}

/// What taking a picture from a video came to.
pub enum FrameOutcome {
    NotRun { error: String },
    Failed { error: String },
    Unreadable { error: String },
    Image { bytes: Vec<u8> },
}

/// The picture, in its text form.
pub fn extract_frame_at_timestamp(outcome: FrameOutcome) -> (res: Result<String, String>)
    ensures
        match outcome {
            FrameOutcome::NotRun { error } => res matches Err(e) && e@ == "Failed to run ffmpeg: "@
                + error@,
            FrameOutcome::Failed { error } => res matches Err(e) && e@ == "FFmpeg failed: "@
                + error@,
            FrameOutcome::Unreadable { error } => res matches Err(e) && e@
                == "Failed to read frame: "@ + error@,
            FrameOutcome::Image { bytes } => res matches Ok(s) && s@ == migration::base64_text(
                bytes@,
            ),
        },
{
    match outcome {
        FrameOutcome::NotRun { error } => Err(
            manager::labelled("Failed to run ffmpeg: ", error.as_str()),
        ),
        FrameOutcome::Failed { error } => Err(
            manager::labelled("FFmpeg failed: ", error.as_str()),
        ),
        FrameOutcome::Unreadable { error } => Err(
            manager::labelled("Failed to read frame: ", error.as_str()),
        ),
        FrameOutcome::Image { bytes } => Ok(migration::encode_image(bytes.as_slice())),
    }
}

/// The file that the sound of a video goes to.
pub fn audio_file_name(video_id: i64, time: &str, unique: &str) -> (res: String)
    ensures
        res@ == "audio_"@ + digits::signed_decimal(video_id as int) + "_"@ + time@ + "_"@ + unique@
            + ".mp3"@,
{
    let mut name = text::copy("audio_");
    let id = digits::i64_text(video_id);
    name.append(id.as_str());
    name.append("_");
    name.append(time);
    name.append("_");
    name.append(unique);
    name.append(".mp3");
    name
}

/// The file that videos are merged into.
pub fn merged_file_name(time: &str, unique: &str) -> (res: String)
    ensures
        res@ == "merged_"@ + time@ + "_"@ + unique@ + ".mp4"@,
{
    let mut name = text::copy("merged_");
    name.append(time);
    name.append("_");
    name.append(unique);
    name.append(".mp4");
    name
}

/// The arguments with which the sound of a video is taken.
pub open spec fn sound_arguments(video: Seq<char>, output: Seq<char>) -> Seq<Seq<char>> {
    seq!["-i"@, video, "-vn"@, "-acodec"@, "libmp3lame"@, "-q:a"@, "2"@, "-y"@, output]
}

/// The arguments with which the sound of a video is taken.
pub fn sound_args(video: &str, output: &str) -> (res: Vec<String>)
    ensures
        res.deep_view() == sound_arguments(video@, output@),
{
    let mut args: Vec<String> = Vec::new();
    args.push(text::copy("-i"));
    args.push(text::copy(video));
    args.push(text::copy("-vn"));
    args.push(text::copy("-acodec"));
    args.push(text::copy("libmp3lame"));
    args.push(text::copy("-q:a"));
    args.push(text::copy("2"));
    args.push(text::copy("-y"));
    args.push(text::copy(output));
    assert(args.deep_view() =~= sound_arguments(video@, output@));
    args
}

/// What taking the sound of a video came to.
pub enum AudioOutcome {
    NoRow { error: String },
    NoFile { path: String },
    DirectoryFailed { error: String },
    NotRun { error: String },
    Failed { error: String },
    Extracted { path: String },
}

/// The file with the sound of a video, and whether what was written of it is to be removed.
pub fn extract_video_audio(outcome: AudioOutcome) -> (res: Result<String, (String, bool)>)
    ensures
        match outcome {
            AudioOutcome::NoRow { error } => res matches Err((e, d)) && e@
                == "Failed to get video: "@ + error@ && !d,
            AudioOutcome::NoFile { path } => res matches Err((e, d)) && e@
                == "Video file not found: "@ + path@ && !d,
            AudioOutcome::DirectoryFailed { error } => res matches Err((e, d)) && e@
                == "Failed to create output directory: "@ + error@ && !d,
            AudioOutcome::NotRun { error } => res matches Err((e, d)) && e@
                == "Failed to run ffmpeg: "@ + error@ && d,
            AudioOutcome::Failed { error } => res matches Err((e, d)) && e@
                == "FFmpeg audio extraction failed: "@ + error@ && d,
            AudioOutcome::Extracted { path } => res matches Ok(p) && p@ == path@,
        },
{
    match outcome {
        AudioOutcome::NoRow { error } => Err(
            (manager::labelled("Failed to get video: ", error.as_str()), false),
        ),
        AudioOutcome::NoFile { path } => Err(
            (manager::labelled("Video file not found: ", path.as_str()), false),
        ),
        AudioOutcome::DirectoryFailed { error } => Err(
            (manager::labelled("Failed to create output directory: ", error.as_str()), false),
        ),
        AudioOutcome::NotRun { error } => Err(
            (manager::labelled("Failed to run ffmpeg: ", error.as_str()), true),
        ),
        AudioOutcome::Failed { error } => Err(
            (manager::labelled("FFmpeg audio extraction failed: ", error.as_str()), true),
        ),
        AudioOutcome::Extracted { path } => Ok(path),
    }
}

/// The playlist of a recording.
pub open spec fn archive_playlist(
    cache_dir: Seq<char>,
    platform: PlatformType,
    room_id: Seq<char>,
    live_id: Seq<char>,
    windows: bool,
) -> Seq<char> {
    paths::joined_path(
        archive::archive_dir(cache_dir, platform, room_id, live_id, windows),
        "playlist.m3u8"@,
        windows,
    )
}

/// What is shown of a recording.
pub open spec fn archive_report(
    archive: RecordView,
    platform: PlatformType,
    file_path: Seq<char>,
    file_exists: bool,
    video_metadata: JsonView,
) -> JsonView {
    JsonView::Object(
        seq![
            ("live_id"@, JsonView::Text(archive.live_id)),
            ("room_id"@, JsonView::Text(archive.room_id)),
            ("platform"@, JsonView::Text(platform.name())),
            ("title"@, JsonView::Text(archive.title)),
            ("file_path"@, JsonView::Text(file_path)),
            (
                "file_size"@,
                JsonView::Unsigned(
                    if file_exists && archive.size > 0 {
                        archive.size as u64
                    } else {
                        0
                    },
                ),
            ),
            ("created_at"@, JsonView::Text(archive.created_at)),
            (
                "video_metadata"@,
                if file_exists {
                    video_metadata
                } else {
                    JsonView::Null
                },
            ),
        ],
    )
}

/// What is shown of a recording. The size is that of its row, where the playlist is there.
pub fn get_archive_metadata(
    archive: &RecordRow,
    platform: PlatformType,
    cache_dir: &str,
    file_exists: bool,
    video_metadata: &Json,
    windows: bool,
) -> (res: Result<Json, String>)
    ensures
        archive.platform@ != platform.name() ==> (res matches Err(e) && e@
            == "Archive platform does not match the request"@),
        archive.platform@ == platform.name() ==> (res matches Ok(json) && json.deep_view()
            == archive_report(
            archive.deep_view(),
            platform,
            archive_playlist(cache_dir@, platform, archive.room_id@, archive.live_id@, windows),
            file_exists,
            video_metadata.deep_view(),
        )),
{
    if !text::same(archive.platform.as_str(), platform.as_str()) {
        return Err(text::copy("Archive platform does not match the request"));
    }
    let file_path = archive::archive_file_path(
        cache_dir,
        platform,
        archive.room_id.as_str(),
        archive.live_id.as_str(),
        "playlist.m3u8",
        windows,
    );
    let size: u64 = if file_exists && archive.size > 0 {
        archive.size as u64
    } else {
        0
    };
    let mut members: Vec<(String, Json)> = Vec::new();
    members.push((text::copy("live_id"), Json::text(archive.live_id.as_str())));
    members.push((text::copy("room_id"), Json::text(archive.room_id.as_str())));
    members.push((text::copy("platform"), Json::text(platform.as_str())));
    members.push((text::copy("title"), Json::text(archive.title.as_str())));
    members.push((text::copy("file_path"), Json::text(file_path.as_str())));
    members.push((text::copy("file_size"), Json::unsigned(size)));
    members.push((text::copy("created_at"), Json::text(archive.created_at.as_str())));
    if file_exists {
        members.push((text::copy("video_metadata"), video_metadata.clone()));
    } else {
        members.push((text::copy("video_metadata"), Json::null()));
    }
    let json = Json::Object(members);
    assert(json.deep_view()->Object_0 =~= archive_report(
        archive.deep_view(),
        platform,
        file_path@,
        file_exists,
        video_metadata.deep_view(),
    )->Object_0);
    Ok(json)
}

/// What is removed when a merge fails: the output once something may have been written to it, its cover
/// only where one was made and the row could not be stored. Every failure tells its reason.
pub proof fn law_failed_merges_leave_nothing(
    request: &MergeRequest,
    event: MergeEvent,
    step: MergeStep,
)
    requires
        call_ensures(merge_videos, (request, event), step),
    ensures
        step is Fail ==> (step->drop_output <==> event is NotRun || event is Failed || event
            is MeasureFailed || event is StoreFailed),
        step is Fail ==> (step->Fail_drop_cover <==> event is StoreFailed && event->covered),
        event is VideoMissing || event is DirectoryFailed || event is ListFailed || event is NotRun
            || event is Failed || event is MeasureFailed || event is StoreFailed ==> step is Fail,
        step is Measure <==> event is Merged,
        step is Cover <==> event is Measured,
        step is Store <==> event is Covered,
        step is Done <==> event is Stored,
        step is Done ==> step->id == event->Stored_id,
{
}

/// The transitions that are known, and no others.
pub proof fn law_known_transitions(kind: Seq<char>)
    ensures
        is_transition(kind) <==> seq![
            "fade"@,
            "dissolve"@,
            "wipeleft"@,
            "wiperight"@,
            "slideup"@,
            "slidedown"@,
        ].contains(kind),
        !is_transition("none"@),
        !is_transition(Seq::empty()),
{
    reveal_strlit("fade");
    reveal_strlit("dissolve");
    reveal_strlit("wipeleft");
    reveal_strlit("wiperight");
    reveal_strlit("slideup");
    reveal_strlit("slidedown");
    reveal_strlit("none");
    let known = seq![
        "fade"@,
        "dissolve"@,
        "wipeleft"@,
        "wiperight"@,
        "slideup"@,
        "slidedown"@,
    ];
    assert(known[0] == "fade"@ && known[1] == "dissolve"@ && known[2] == "wipeleft"@ && known[3]
        == "wiperight"@ && known[4] == "slideup"@ && known[5] == "slidedown"@);
    assert("none"@[0] == 'n' && "fade"@[0] == 'f');
    assert(Seq::<char>::empty().len() == 0);
    assert("dissolve"@.len() == 8 && "wipeleft"@.len() == 8 && "wiperight"@.len() == 9
        && "slideup"@.len() == 7 && "slidedown"@.len() == 9 && "fade"@.len() == 4);
}

/// Numbers are summed up: those of two lists to the sum of both.
pub proof fn law_numbers_are_summed_up(a: Seq<i64>, b: Seq<i64>)
    ensures
        sum(a + b) == sum(a) + sum(b),
        a.len() == 0 ==> sum(a) == 0,
        a.len() == 1 ==> sum(a) == a[0],
    decreases b.len(),
{
    reveal_with_fuel(sum, 2);
    if b.len() == 0 {
        assert(a + b =~= a);
    } else {
        law_numbers_are_summed_up(a, b.drop_last());
        assert((a + b).drop_last() =~= a + b.drop_last());
    }
}

/// The first transition begins a second before the first video ends; and each later one as long after
/// the one before as its own video lasts, but for the second in which both are seen.
pub proof fn law_transitions_overlap_by_a_second(durations: Seq<i64>, i: int)
    requires
        0 <= i < durations.len(),
    ensures
        i == 0 ==> transition_offset(durations, i) == durations[0] - 1,
        i > 0 ==> transition_offset(durations, i) == transition_offset(durations, i - 1)
            + durations[i] - 1,
{
    assert(durations.take(i + 1).drop_last() =~= durations.take(i));
    if i == 0 {
        assert(sum(durations.take(0)) == 0);
    }
}

/// What one transition gives is what the next one takes, and the last one gives what is mapped to the
/// output.
pub proof fn law_transitions_are_chained(track: Seq<char>, i: int, n: int)
    requires
        0 <= i < n,
    ensures
        i < n - 1 ==> transition_output(track, i, n) == transition_input(track, i + 1),
        i == n - 1 ==> transition_output(track, i, n) == "[out"@ + track + "]"@,
        transition_input(track, 0) == "[0:"@ + track + "]"@,
{
}

/// There is one filter for the picture and one for the sound of each transition, in order: each begins
/// with what the one before gave, and ends in what the next one takes.
pub proof fn law_filters_come_in_pairs(durations: Seq<i64>, kind: Seq<char>, k: int, i: int)
    requires
        0 <= i < k,
        k <= durations.len() - 1,
    ensures
        filters(durations, kind, k).len() == 2 * k,
        filters(durations, kind, k)[2 * i] == picture_filter(durations, kind, i),
        filters(durations, kind, k)[2 * i + 1] == sound_filter(durations, i),
        text::begins(picture_filter(durations, kind, i), transition_input("v"@, i)),
        text::ends(
            picture_filter(durations, kind, i),
            digits::signed_decimal(transition_offset(durations, i)) + transition_output(
                "v"@,
                i,
                durations.len() - 1,
            ),
        ),
        text::occurs(picture_filter(durations, kind, i), kind),
        text::begins(sound_filter(durations, i), transition_input("a"@, i)),
        text::ends(
            sound_filter(durations, i),
            transition_output("a"@, i, durations.len() - 1),
        ),
    decreases k,
{
    lemma_filter_count(durations, kind, k);
    lemma_filter_count(durations, kind, k - 1);
    if i < k - 1 {
        law_filters_come_in_pairs(durations, kind, k - 1, i);
    }
    let p = picture_filter(durations, kind, i);
    let head = transition_input("v"@, i);
    let tail = digits::signed_decimal(transition_offset(durations, i)) + transition_output(
        "v"@,
        i,
        durations.len() - 1,
    );
    assert(p.take(head.len() as int) =~= head);
    assert(p.skip(p.len() - tail.len()) =~= tail);
    let at = head.len() + "["@.len() + digits::signed_decimal(i + 1).len()
        + ":v]xfade=transition="@.len();
    assert(p.subrange(at as int, (at + kind.len()) as int) =~= kind);
    assert(text::occurs_at(p, kind, at as int));
    let s = sound_filter(durations, i);
    let sound_head = transition_input("a"@, i);
    let sound_tail = transition_output("a"@, i, durations.len() - 1);
    assert(s.take(sound_head.len() as int) =~= sound_head);
    assert(s.skip(s.len() - sound_tail.len()) =~= sound_tail);
}

proof fn lemma_filter_count(durations: Seq<i64>, kind: Seq<char>, k: int)
    requires
        k >= 0,
    ensures
        filters(durations, kind, k).len() == 2 * k,
    decreases k,
{
    if k > 0 {
        lemma_filter_count(durations, kind, k - 1);
    }
}

/// A path is listed character by character: a quote as one that is closed, written and opened again, a
/// backslash as two, and any other character as itself.
pub proof fn law_paths_are_listed_with_care(a: Seq<char>, b: Seq<char>)
    ensures
        listed(a + b) == listed(a) + listed(b),
        listed(seq!['\'']) == "'\\''"@,
        listed(seq!['\\']) == "\\\\"@,
        a.len() == 1 && a[0] != '\'' && a[0] != '\\' ==> listed(a) == a,
        a.len() == 0 ==> listed(a) == a,
{
    reveal_strlit("\\");
    reveal_strlit("\\\\");
    reveal_strlit("'");
    reveal_strlit("'\\''");
    let twice = "\\\\"@;
    let again = "'\\''"@;
    assert("\\"@ =~= seq!['\\']);
    assert("'"@ =~= seq!['\'']);
    assert(twice =~= seq!['\\'] + seq!['\\']);
    let slash = '\\';
    let quote = '\'';
    let x = text::replaced(a, seq![slash], twice);
    let y = text::replaced(b, seq![slash], twice);
    text::law_characters_are_replaced_one_by_one(a, b, slash, twice);
    text::law_characters_are_replaced_one_by_one(x, y, quote, again);
    text::law_characters_are_replaced_one_by_one(a, b, quote, again);
    let q = seq![quote];
    let s = seq![slash];
    text::law_characters_are_replaced_one_by_one(q, b, slash, twice);
    text::law_characters_are_replaced_one_by_one(q, b, quote, again);
    text::law_characters_are_replaced_one_by_one(s, b, slash, twice);
    text::law_characters_are_replaced_one_by_one(s, s, quote, again);
}

/// The list of files has one line for each, in order.
pub proof fn law_files_are_listed_in_order(a: Seq<Seq<char>>, b: Seq<Seq<char>>)
    ensures
        file_list(a + b) == file_list(a) + file_list(b),
        a.len() == 0 ==> file_list(a).len() == 0,
        a.len() == 1 ==> file_list(a) == "file '"@ + listed(a[0]) + "'\n"@,
    decreases b.len(),
{
    reveal_with_fuel(file_list, 2);
    if b.len() == 0 {
        assert(a + b =~= a);
        assert(file_list(a) + file_list(b) =~= file_list(a));
    } else {
        law_files_are_listed_in_order(a, b.drop_last());
        assert((a + b).drop_last() =~= a + b.drop_last());
        assert(file_list(a + b) =~= file_list(a) + file_list(b));
    }
    if a.len() == 1 {
        assert(a.drop_last() =~= Seq::<Seq<char>>::empty());
        assert(file_list(a) =~= "file '"@ + listed(a[0]) + "'\n"@);
    }
}

/// Every input is named to the program in order, each behind its mark.
pub proof fn law_inputs_are_named_in_order(a: Seq<Seq<char>>, b: Seq<Seq<char>>)
    ensures
        inputs(a + b) == inputs(a) + inputs(b),
        a.len() == 0 ==> inputs(a).len() == 0,
        a.len() == 1 ==> inputs(a) == seq!["-i"@, a[0]],
    decreases b.len(),
{
    reveal_with_fuel(inputs, 2);
    if b.len() == 0 {
        assert(a + b =~= a);
    } else {
        law_inputs_are_named_in_order(a, b.drop_last());
        assert((a + b).drop_last() =~= a + b.drop_last());
    }
}

/// How videos are merged. With none there is nothing to merge. One video, or several without a
/// transition, are joined as they are, in order; with a transition they are blended, if each lasts
/// longer than it and it is a known one, and else refused.
pub proof fn law_how_videos_are_merged(request: MergeRequest, step: MergeStep)
    requires
        is_first_step(request, step),
    ensures
        ({
            let n = request.videos@.len();
            let asked = request.transition is Some && request.transition->0@ != "none"@;
            let short = exists|i: int| 0 <= i < n && (#[trigger] request.videos@[i]).length <= 1;
            &&& n == 0 ==> step is Fail
            &&& n == 1 ==> step is Join
            &&& n > 1 && !asked ==> step is Join
            &&& n > 1 && asked && short ==> step is Fail
            &&& n > 1 && asked && !short && !is_transition(request.transition->0@) ==> step is Fail
            &&& n > 1 && asked && !short && is_transition(request.transition->0@) ==> step is Blend
            &&& step is Fail ==> !step->drop_output && !step->Fail_drop_cover
            &&& step is Join ==> step->list@ == file_list(request.files())
            &&& step is Blend ==> step->args.deep_view().last() == request.output_path()
                && inputs(request.files()).is_prefix_of(step->args.deep_view())
        }),
{
    let lengths = request.lengths();
    assert(long_enough(lengths) <==> !(exists|i: int|
        0 <= i < request.videos@.len() && (#[trigger] request.videos@[i]).length <= 1)) by {
        if exists|i: int| 0 <= i < request.videos@.len() && (#[trigger] request.videos@[i]).length
            <= 1 {
            let i = choose|i: int|
                0 <= i < request.videos@.len() && (#[trigger] request.videos@[i]).length <= 1;
            assert(lengths[i] <= 1);
        } else {
            assert forall|i: int| 0 <= i < lengths.len() implies (#[trigger] lengths[i])
                > TRANSITION_DURATION_SECONDS by {
                assert(request.videos@[i].length > 1);
            }
        }
    }
    if request.transition is None {
        assert(request.kind() == "none"@);
    }
}

/// A merged video lasts as long as its parts together, less a second for each transition between them;
/// it is one of the room and platform of its first part, with the title, note and file that were asked
/// for, and has a cover beside it where one was made.
pub proof fn law_merged_videos_tell_of_their_parts(
    request: MergeRequest,
    made: bool,
    size: u64,
    created_at: Seq<char>,
)
    requires
        request.videos@.len() > 0,
        request.is_countable(),
        size <= i64::MAX,
    ensures
        ({
            let row = merged_video(request, made, size, created_at);
            let asked = request.transition is Some && request.transition->0@ != "none"@;
            &&& row.file == request.output_file@
            &&& row.title == request.output_title@
            &&& row.note == request.output_note@
            &&& row.room_id == request.videos@[0].room_id@
            &&& row.platform == request.videos@[0].platform@
            &&& row.size == size
            &&& row.created_at == created_at
            &&& !asked || request.videos@.len() == 1 ==> row.length == sum(request.lengths())
            &&& asked && request.videos@.len() > 1 ==> row.length == sum(request.lengths()) - (
            request.videos@.len() - 1)
            &&& made ==> row.cover == paths::with_extension(request.output_file@, "jpg"@)
            &&& !made ==> row.cover.len() == 0
            &&& row.status == 0 && row.id == 0 && row.bvid.len() == 0
        }),
        forall|i: int|
            0 <= i < request.videos@.len() ==> (#[trigger] request.lengths()[i])
                == request.videos@[i].length,
{
    if request.transition is None {
        assert(request.kind() == "none"@);
    }
}

/// The parts of a merge are looked for where the videos are kept, in the order in which they were asked
/// for, and so is its output.
pub proof fn law_parts_are_looked_for_where_videos_are(request: MergeRequest, list_file: Seq<char>)
    ensures
        request.files().len() == request.videos@.len(),
        forall|i: int|
            0 <= i < request.videos@.len() ==> (#[trigger] request.files()[i])
                == paths::joined_path(
                request.output_dir@,
                request.videos@[i].file@,
                request.windows,
            ),
        request.output_path() == paths::joined_path(
            request.output_dir@,
            request.output_file@,
            request.windows,
        ),
        request.joining_arguments(list_file).last() == request.output_path(),
        request.joining_arguments(list_file)[4] == "-i"@,
        request.joining_arguments(list_file)[5] == list_file,
{
}

/// A stream is found by its kind, the first of that kind, and none where no stream is of it.
pub proof fn law_streams_are_found_by_kind(streams: Seq<JsonView>, kind: Seq<char>)
    ensures
        stream_of(streams, kind) is Some <==> exists|i: int|
            0 <= i < streams.len() && (#[trigger] streams[i]).at("codec_type"@) == JsonView::Text(
                kind,
            ),
        stream_of(streams, kind) matches Some(s) ==> s.at("codec_type"@) == JsonView::Text(kind)
            && streams.contains(s),
        streams.len() > 0 && streams[0].at("codec_type"@) == JsonView::Text(kind) ==> stream_of(
            streams,
            kind,
        ) == Some(streams[0]),
    decreases streams.len(),
{
    if streams.len() > 0 {
        let rest = streams.drop_first();
        law_streams_are_found_by_kind(rest, kind);
        if streams[0].at("codec_type"@).as_text() == Some(kind) {
            assert(streams[0].at("codec_type"@) == JsonView::Text(kind));
            assert(streams.contains(streams[0]));
        } else {
            if let Some(s) = stream_of(rest, kind) {
                let i = choose|i: int| 0 <= i < rest.len() && rest[i] == s;
                assert(streams[i + 1] == s);
            }
            if exists|i: int|
                0 <= i < streams.len() && (#[trigger] streams[i]).at("codec_type"@)
                    == JsonView::Text(kind) {
                let i = choose|i: int|
                    0 <= i < streams.len() && (#[trigger] streams[i]).at("codec_type"@)
                        == JsonView::Text(kind);
                assert(rest[i - 1].at("codec_type"@) == JsonView::Text(kind));
            }
        }
    }
}

/// What is known of a video is what its description says: its length as it is written, its sizes where
/// they are numbers and zero where they are not, its codecs by name, and its frame rate as the two parts
/// of a fraction. A video without sound has no codec for it.
pub proof fn law_descriptions_are_taken_as_written(
    format: JsonView,
    video: JsonView,
    audio: Option<JsonView>,
    n: nat,
    a: Seq<char>,
    b: Seq<char>,
)
    requires
        n <= u64::MAX,
        !a.contains('/'),
        !b.contains('/'),
    ensures
        ({
            let known = probed(format, video, audio);
            &&& known.duration == format.at("duration"@).as_text()
            &&& format.at("size"@) == JsonView::Text(digits::decimal(n)) ==> known.file_size == n
            &&& format.at("bit_rate"@) == JsonView::Text(digits::decimal(n)) ==> known.bitrate == n
            &&& !(format.at("size"@) is Text) ==> known.file_size == 0
            &&& !(format.at("bit_rate"@) is Text) ==> known.bitrate == 0
            &&& n <= u32::MAX && video.at("width"@) == JsonView::Unsigned(n as u64) ==> known.width
                == n
            &&& n <= u32::MAX && video.at("height"@) == JsonView::Unsigned(n as u64)
                ==> known.height == n
            &&& !(video.at("width"@) is Unsigned) ==> known.width == 0
            &&& !(video.at("height"@) is Unsigned) ==> known.height == 0
            &&& video.at("codec_name"@) == JsonView::Text(a) ==> known.video_codec == a
            &&& !(video.at("codec_name"@) is Text) ==> known.video_codec == "unknown"@
            &&& audio is Some && audio->0.at("codec_name"@) == JsonView::Text(a)
                ==> known.audio_codec == a
            &&& audio is None ==> known.audio_codec == "none"@
            &&& video.at("r_frame_rate"@) == JsonView::Text(a + seq!['/'] + b) ==> known.frame_rate
                == Some((a, b))
            &&& video.at("r_frame_rate"@) == JsonView::Text(a) ==> known.frame_rate is None
        }),
{
    digits::lemma_decimal(n);
    assert(digits::is_digit(digits::decimal(n)[0]));
    text::law_pieces_follow_each_other(a, '/', b);
    text::law_pieces_follow_each_other(b, '/', b);
    assert(seq![a] + seq![b] =~= seq![a, b]);
}

/// A program is told what to read before what to write, and writes where it was asked to.
pub proof fn law_programs_read_and_write_what_is_asked(video: Seq<char>, output: Seq<char>)
    ensures
        probe_arguments(video).last() == video,
        sound_arguments(video, output)[0] == "-i"@,
        sound_arguments(video, output)[1] == video,
        sound_arguments(video, output).last() == output,
        sound_arguments(video, output).contains("-vn"@),
{
    assert(sound_arguments(video, output)[2] == "-vn"@);
}

/// The report on a recording tells what its row says; its size and what is known of its video only
/// where its file is there.
pub proof fn law_reports_tell_what_is_there(
    archive: RecordView,
    platform: PlatformType,
    file_path: Seq<char>,
    file_exists: bool,
    video_metadata: JsonView,
)
    ensures
        ({
            let report = archive_report(archive, platform, file_path, file_exists, video_metadata);
            &&& report.at("live_id"@) == JsonView::Text(archive.live_id)
            &&& report.at("room_id"@) == JsonView::Text(archive.room_id)
            &&& report.at("platform"@) == JsonView::Text(platform.name())
            &&& report.at("title"@) == JsonView::Text(archive.title)
            &&& report.at("file_path"@) == JsonView::Text(file_path)
            &&& report.at("created_at"@) == JsonView::Text(archive.created_at)
            &&& file_exists && archive.size >= 0 ==> report.at("file_size"@) == JsonView::Unsigned(
                archive.size as u64,
            )
            &&& file_exists ==> report.at("video_metadata"@) == video_metadata
            &&& !file_exists ==> report.at("file_size"@) == JsonView::Unsigned(0) && report.at(
                "video_metadata"@,
            ) == JsonView::Null
        }),
{
    reveal_strlit("live_id");
    reveal_strlit("room_id");
    reveal_strlit("platform");
    reveal_strlit("title");
    reveal_strlit("file_path");
    reveal_strlit("file_size");
    reveal_strlit("created_at");
    reveal_strlit("video_metadata");
    let report = archive_report(archive, platform, file_path, file_exists, video_metadata);
    let m = report->Object_0;
    assert(m[0].0[0] == 'l' && m[1].0[0] == 'r' && m[2].0[0] == 'p' && m[3].0[0] == 't' && m[4].0[5]
        == 'p' && m[5].0[5] == 's' && m[6].0[0] == 'c' && m[7].0[0] == 'v' && m[4].0[0] == 'f'
        && m[5].0[0] == 'f');
    reveal_with_fuel(json::member, 9);
}

/// A filter is built for at least two videos, each longer than the transition, and a known transition;
/// else it is refused. It has two parts for each transition.
pub proof fn law_filters_are_built_for_known_transitions(
    durations: &[i64],
    transition_type: &str,
    res: Result<String, String>,
)
    requires
        call_ensures(build_transition_filter, (durations, transition_type), res),
    ensures
        res is Ok <==> durations@.len() >= 2 && (forall|i: int|
            0 <= i < durations@.len() ==> (#[trigger] durations@[i]) > 1) && is_transition(
            transition_type@,
        ),
        res is Ok ==> res->Ok_0@ == text::joined(
            filters(durations@, transition_type@, durations@.len() - 1),
            ";"@,
        ),
{
}

/// A description of a video is read where it has a format and streams, one of them of video; else what
/// is missing is told.
pub proof fn law_descriptions_need_a_video(
    report: &Json,
    res: Result<ProbedVideo, String>,
    outcome: ProbeOutcome,
    probe: Result<ProbedVideo, String>,
)
    requires
        call_ensures(read_report, (report,), res),
        call_ensures(get_video_metadata_internal, (outcome,), probe),
    ensures
        res is Ok <==> report.deep_view().get("format"@) is Some && report.deep_view().at(
            "streams"@,
        ) is Array && stream_of(report.deep_view().at("streams"@)->Array_0, "video"@) is Some,
        res is Ok ==> res->Ok_0.deep_view() == probed(
            report.deep_view().get("format"@)->0,
            stream_of(report.deep_view().at("streams"@)->Array_0, "video"@)->0,
            stream_of(report.deep_view().at("streams"@)->Array_0, "audio"@),
        ),
        probe is Ok ==> outcome is Report && json::parsed_json(hls::lossy(outcome->stdout@)) is Some,
        outcome is NoFile || outcome is NotRun || outcome is Failed ==> probe is Err,
{
}

/// A number of frames that is asked for counts between one and ten.
pub proof fn law_frames_are_few(max_frames: usize, res: usize)
    requires
        call_ensures(frame_count, (max_frames,), res),
    ensures
        1 <= res <= 10,
        1 <= max_frames <= 10 ==> res == max_frames,
        max_frames > 10 ==> res == 10,
        max_frames == 0 ==> res == 1,
{
}

/// A frame is returned where one could be taken, encoded; and sound where it could be extracted, under
/// its path. What was begun and failed is removed, and what was not begun is not.
pub proof fn law_frames_and_sound_are_returned_where_made(
    frame: FrameOutcome,
    image: Result<String, String>,
    audio: AudioOutcome,
    sound: Result<String, (String, bool)>,
)
    requires
        call_ensures(extract_frame_at_timestamp, (frame,), image),
        call_ensures(extract_video_audio, (audio,), sound),
    ensures
        image is Ok <==> frame is Image,
        image is Ok ==> image->Ok_0@ == migration::base64_text(frame->bytes@),
        sound is Ok <==> audio is Extracted,
        sound is Ok ==> sound->Ok_0@ == audio->Extracted_path@,
        sound is Err ==> ((sound->Err_0).1 <==> audio is NotRun || audio is Failed),
{
}

/// What is known of a recording is told only on the platform that it is of.
pub proof fn law_recordings_are_told_of_on_their_platform(
    archive: &RecordRow,
    platform: PlatformType,
    cache_dir: &str,
    file_exists: bool,
    video_metadata: &Json,
    windows: bool,
    res: Result<Json, String>,
)
    requires
        call_ensures(
            get_archive_metadata,
            (archive, platform, cache_dir, file_exists, video_metadata, windows),
            res,
        ),
    ensures
        res is Ok <==> archive.platform@ == platform.name(),
        res is Ok ==> res->Ok_0.deep_view().at("live_id"@) == JsonView::Text(archive.live_id@)
            && res->Ok_0.deep_view().at("file_path"@) == JsonView::Text(
            archive_playlist(cache_dir@, platform, archive.room_id@, archive.live_id@, windows),
        ),
{
    if res is Ok {
        law_reports_tell_what_is_there(
            archive.deep_view(),
            platform,
            archive_playlist(cache_dir@, platform, archive.room_id@, archive.live_id@, windows),
            file_exists,
            video_metadata.deep_view(),
        );
    }
}

/// The playlist of a recording stands in the recording's directory.
pub proof fn law_playlists_stand_with_their_recording(
    cache_dir: Seq<char>,
    platform: PlatformType,
    room_id: Seq<char>,
    live_id: Seq<char>,
    windows: bool,
)
    ensures
        archive_playlist(cache_dir, platform, room_id, live_id, windows) == paths::join_head(
            archive::archive_dir(cache_dir, platform, room_id, live_id, windows),
            windows,
        ) + "playlist.m3u8"@,
{
    reveal_strlit("playlist.m3u8");
    reveal_strlit(".");
    reveal_strlit("..");
    let name = "playlist.m3u8"@;
    assert(paths::is_simple_name(name)) by {
        assert forall|i: int| 0 <= i < name.len() implies (#[trigger] name[i]) != '/' && name[i]
            != '\\' && name[i] != ':' by {}
        assert(name.len() == 13 && "."@.len() == 1 && ".."@.len() == 2);
    }
    paths::lemma_join_name(
        archive::archive_dir(cache_dir, platform, room_id, live_id, windows),
        name,
        windows,
    );
}

/// A video is looked for under its own path where that is absolute, and else where videos are kept.
pub proof fn law_absolute_paths_stay(output_dir: &str, file: &str, windows: bool, res: String)
    requires
        call_ensures(resolve_video_path, (output_dir, file, windows), res),
    ensures
        paths::is_absolute_path(file@, windows) ==> res@ == file@,
        !windows && !(file@.len() > 0 && file@[0] == '/') && output_dir@.len() > 0
            && output_dir@.last() != '/' ==> res@ == output_dir@ + seq!['/'] + file@,
{
    paths::law_parts_stand_behind_a_slash(output_dir@, file@);
}

} // verus!
