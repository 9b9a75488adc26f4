//! Joining the playlists of a session into one video, and the files that are made on the way.
use vstd::prelude::*;
use crate::digits;
use crate::playlist;
use crate::playlist::{ConcatRun, PREFIX_DANMAKU};
use crate::text;

verus! {

/// How far the joining has come.
#[derive(Clone, Copy, Debug, PartialEq, Eq, Structural)]
pub enum ConcatStage {
    Ready,
    /// A playlist is made into a video.
    Extracting,
    /// Chat is burnt into the video.
    Burning,
    /// The videos are joined.
    Joining,
    Over,
}

/// What happened while playlists are joined.
pub enum ConcatEvent {
    Started,
    Extracted,
    ExtractFailed { error: String },
    /// Chat was burnt into a video, and the result stands in a file of this name.
    Burnt { file: String },
    BurnFailed { error: String },
    Joined,
    JoinFailed { error: String },
}

/// What is done next. Files are named within the directory of the output.
pub enum ConcatStep {
    Extract { playlist: String, video: String },
    Burn { video: String, danmu: String },
    Join { segments: Vec<String> },
    Done { to_remove: Vec<String> },
    Fail { to_remove: Vec<String>, error: String },
    /// The event is not one that was waited for.
    Ignore,
}

/// Playlists that are joined, each with the chat that is burnt into it.
pub struct Concat {
    pub playlists: Vec<String>,
    pub danmu_ass_files: Vec<Option<String>>,
    pub output: String,
    pub index: usize,
    pub run: ConcatRun,
    pub stage: ConcatStage,
}

/// The model of playlists that are joined.
#[verifier::ext_equal]
pub struct ConcatView {
    pub playlists: Seq<Seq<char>>,
    pub danmu: Seq<Option<Seq<char>>>,
    pub output: Seq<char>,
    pub index: int,
    pub to_remove: Seq<Seq<char>>,
    pub segments: Seq<Seq<char>>,
    pub stage: ConcatStage,
}

impl DeepView for Concat {
    type V = ConcatView;

    open spec fn deep_view(&self) -> ConcatView {
        ConcatView {
            playlists: self.playlists.deep_view(),
            danmu: self.danmu_ass_files.deep_view(),
            output: self.output@,
            index: self.index as int,
            to_remove: self.run.to_remove.deep_view(),
            segments: self.run.segments.deep_view(),
            stage: self.stage,
        }
    }
}

impl ConcatView {
    /// The video of a playlist, before chat is burnt into it.
    pub open spec fn part(self, i: int) -> Seq<char> {
        playlist::part_name(self.output, i)
    }

    /// The state when a playlist is about to be made into a video.
    pub open spec fn begun(self, i: int) -> ConcatView {
        ConcatView {
            index: i,
            to_remove: self.to_remove.push(self.part(i)),
            stage: ConcatStage::Extracting,
            ..self
        }
    }

    /// The state when the video of a playlist is there: the next playlist follows, or the joining.
    pub open spec fn finished(self, file: Seq<char>) -> ConcatView {
        let kept = ConcatView {
            segments: self.segments.push(file),
            to_remove: if self.to_remove.contains(file) {
                self.to_remove
            } else {
                self.to_remove.push(file)
            },
            ..self
        };
        if self.index + 1 < self.playlists.len() {
            kept.begun(self.index + 1)
        } else {
            ConcatView { stage: ConcatStage::Joining, ..kept }
        }
    }

    /// Whether the playlists can be joined.
    pub open spec fn is_joinable(self) -> bool {
        self.playlists.len() > 0 && self.playlists.len() == self.danmu.len()
    }

    /// The state is consistent: the playlist in hand is one of them, its video is to be removed, each
    /// playlist before it has its video, and every video that is joined is removed afterwards.
    pub open spec fn wf(self) -> bool {
        &&& self.stage == ConcatStage::Ready ==> self.to_remove.len() == 0 && self.segments.len()
            == 0
        &&& self.stage == ConcatStage::Extracting || self.stage == ConcatStage::Burning ==> {
            &&& self.is_joinable()
            &&& 0 <= self.index < self.playlists.len()
            &&& self.segments.len() == self.index
            &&& self.to_remove.contains(self.part(self.index))
        }
        &&& self.stage == ConcatStage::Joining ==> self.is_joinable() && self.segments.len()
            == self.playlists.len()
        &&& forall|i: int|
            0 <= i < self.segments.len() ==> self.to_remove.contains(#[trigger] self.segments[i])
    }

    /// The state after an event. An event that was not waited for changes nothing.
    pub open spec fn after(self, event: ConcatEvent) -> ConcatView {
        let over = ConcatView { stage: ConcatStage::Over, ..self };
        match (self.stage, event) {
            (ConcatStage::Ready, ConcatEvent::Started) => if self.is_joinable() {
                self.begun(0)
            } else {
                over
            },
            (ConcatStage::Extracting, ConcatEvent::Extracted) => match self.danmu[self.index] {
                Some(_) => ConcatView {
                    to_remove: self.to_remove.push(PREFIX_DANMAKU@ + self.part(self.index)),
                    stage: ConcatStage::Burning,
                    ..self
                },
                None => self.finished(self.part(self.index)),
            },
            (ConcatStage::Extracting, ConcatEvent::ExtractFailed { error }) => over,
            (ConcatStage::Burning, ConcatEvent::Burnt { file }) => self.finished(file@),
            (ConcatStage::Burning, ConcatEvent::BurnFailed { error }) => over,
            (ConcatStage::Joining, ConcatEvent::Joined) => over,
            (ConcatStage::Joining, ConcatEvent::JoinFailed { error }) => over,
            _ => self,
        }
    }

    /// Whether a step is to fail with a message, and to remove all files made so far.
    pub open spec fn is_failure(self, step: ConcatStep, message: Seq<char>) -> bool {
        step matches ConcatStep::Fail { to_remove, error } && to_remove.deep_view()
            == self.to_remove && error@ == message
    }

    /// Whether a step is the first after a video was finished: the next playlist, or the joining.
    pub open spec fn goes_on(self, step: ConcatStep) -> bool {
        if self.stage == ConcatStage::Joining {
            step matches ConcatStep::Join { segments } && segments.deep_view() == self.segments
        } else {
            step matches ConcatStep::Extract { playlist, video } && playlist@
                == self.playlists[self.index] && video@ == self.part(self.index)
        }
    }

    /// Whether a step is the one that follows an event.
    pub open spec fn is_step_for(self, event: ConcatEvent, step: ConcatStep) -> bool {
        match (self.stage, event) {
            (ConcatStage::Ready, ConcatEvent::Started) => if self.is_joinable() {
                self.after(event).goes_on(step)
            } else {
                self.is_failure(
                    step,
                    if self.playlists.len() == 0 {
                        "No playlists to concatenate"@
                    } else {
                        "Playlist/danmu file count mismatch: "@ + digits::signed_decimal(
                            self.playlists.len() as int,
                        ) + " playlists, "@ + digits::signed_decimal(self.danmu.len() as int)
                            + " danmu files"@
                    },
                )
            },
            (ConcatStage::Extracting, ConcatEvent::Extracted) => match self.danmu[self.index] {
                Some(ass) => step matches ConcatStep::Burn { video, danmu } && video@ == self.part(
                    self.index,
                ) && danmu@ == ass,
                None => self.after(event).goes_on(step),
            },
            (ConcatStage::Extracting, ConcatEvent::ExtractFailed { error }) => self.is_failure(
                step,
                playlist::segment_error(
                    self.index,
                    self.playlists.len() as int,
                    self.playlists[self.index],
                    error@,
                ),
            ),
            (ConcatStage::Burning, ConcatEvent::Burnt { file }) => self.after(event).goes_on(step),
            (ConcatStage::Burning, ConcatEvent::BurnFailed { error }) => self.is_failure(
                step,
                "Failed to burn danmu for playlist segment "@ + digits::signed_decimal(
                    self.index + 1,
                ) + "/"@ + digits::signed_decimal(self.playlists.len() as int) + " ('"@
                    + self.playlists[self.index] + "'): "@ + error@,
            ),
            (ConcatStage::Joining, ConcatEvent::Joined) => step matches ConcatStep::Done {
                to_remove,
            } && to_remove.deep_view() == self.to_remove,
            (ConcatStage::Joining, ConcatEvent::JoinFailed { error }) => self.is_failure(
                step,
                "Failed to concatenate all "@ + digits::signed_decimal(self.playlists.len() as int)
                    + " playlist segments: "@ + error@,
            ),
            _ => step is Ignore,
        }
    }
}

proof fn lemma_pushed_contains(list: Seq<Seq<char>>, added: Seq<char>)
    ensures
        list.push(added).contains(added),
        forall|s: Seq<char>| list.contains(s) ==> #[trigger] list.push(added).contains(s),
{
    assert(list.push(added)[list.len() as int] == added);
    assert forall|s: Seq<char>| list.contains(s) implies #[trigger] list.push(added).contains(s) by {
        let i = choose|i: int| 0 <= i < list.len() && list[i] == s;
        assert(list.push(added)[i] == s);
    }
}

proof fn lemma_finished(state: ConcatView, file: Seq<char>)
    requires
        state.wf(),
        state.stage == ConcatStage::Extracting || state.stage == ConcatStage::Burning,
    ensures
        state.finished(file).wf(),
        forall|s: Seq<char>| state.to_remove.contains(s) ==> #[trigger] state.finished(
            file,
        ).to_remove.contains(s),
{
    let kept = if state.to_remove.contains(file) {
        state.to_remove
    } else {
        state.to_remove.push(file)
    };
    lemma_pushed_contains(state.to_remove, file);
    assert(kept.contains(file));
    lemma_pushed_contains(kept, state.part(state.index + 1));
    let out = state.finished(file);
    assert forall|i: int| 0 <= i < out.segments.len() implies out.to_remove.contains(
        #[trigger] out.segments[i],
    ) by {
        if i < state.segments.len() {
            assert(out.segments[i] == state.segments[i]);
        } else {
            assert(out.segments[i] == file);
        }
    }
}

proof fn lemma_after(state: ConcatView, event: ConcatEvent)
    requires
        state.wf(),
    ensures
        state.after(event).wf(),
        forall|s: Seq<char>| state.to_remove.contains(s) ==> #[trigger] state.after(
            event,
        ).to_remove.contains(s),
{
    match (state.stage, event) {
        (ConcatStage::Ready, ConcatEvent::Started) => {
            lemma_pushed_contains(state.to_remove, state.part(0));
        },
        (ConcatStage::Extracting, ConcatEvent::Extracted) => {
            lemma_pushed_contains(state.to_remove, PREFIX_DANMAKU@ + state.part(state.index));
            lemma_finished(state, state.part(state.index));
        },
        (ConcatStage::Burning, ConcatEvent::Burnt { file }) => {
            lemma_finished(state, file@);
        },
        _ => {},
    }
}

/// Every video that is made on the way, with or without chat, is among the files to remove before
/// it is made, and stays among them: whatever happens, none is left behind.
pub proof fn law_no_temporary_video_is_left(state: ConcatView, event: ConcatEvent, step: ConcatStep)
    requires
        state.wf(),
        state.is_step_for(event, step),
    ensures
        forall|s: Seq<char>| state.to_remove.contains(s) ==> #[trigger] state.after(
            event,
        ).to_remove.contains(s),
        step is Extract ==> state.after(event).to_remove.contains(step->Extract_video@),
        step is Burn ==> state.after(event).to_remove.contains(
            PREFIX_DANMAKU@ + step->Burn_video@,
        ),
        step is Done ==> step->Done_to_remove.deep_view() == state.to_remove,
        step is Fail ==> step->Fail_to_remove.deep_view() == state.to_remove,
{
    lemma_after(state, event);
    match (state.stage, event) {
        (ConcatStage::Extracting, ConcatEvent::Extracted) => {
            lemma_pushed_contains(state.to_remove, PREFIX_DANMAKU@ + state.part(state.index));
        },
        _ => {},
    }
}

/// Videos are joined only when every playlist has one; a playlist that fails is never passed over.
pub proof fn law_no_playlist_is_passed_over(state: ConcatView, event: ConcatEvent, step: ConcatStep)
    requires
        state.wf(),
        state.is_step_for(event, step),
        step is Join,
    ensures
        step->Join_segments@.len() == state.playlists.len(),
{
    lemma_after(state, event);
}

impl Concat {
    /// Playlists that are to be joined into a file of this name.
    pub fn new(playlists: Vec<String>, danmu_ass_files: Vec<Option<String>>, output: &str) -> (res:
        Concat)
        ensures
            res.deep_view().wf(),
            res.deep_view() == (ConcatView {
                playlists: playlists.deep_view(),
                danmu: danmu_ass_files.deep_view(),
                output: output@,
                index: 0,
                to_remove: Seq::empty(),
                segments: Seq::empty(),
                stage: ConcatStage::Ready,
            }),
    {
        let res = Concat {
            playlists,
            danmu_ass_files,
            output: text::copy(output),
            index: 0,
            run: ConcatRun::new(),
            stage: ConcatStage::Ready,
        };
        assert(res.run.to_remove.deep_view() =~= Seq::<Seq<char>>::empty());
        assert(res.run.segments.deep_view() =~= Seq::<Seq<char>>::empty());
        res
    }

    /// The video of a playlist, before chat is burnt into it.
    fn part(&self, i: usize) -> (res: String)
        ensures
            res@ == self.deep_view().part(i as int),
    {
        playlist::part_file(self.output.as_str(), i)
    }

    fn begin(&mut self, i: usize) -> (res: ConcatStep)
        requires
            i < old(self).playlists@.len(),
            old(self).run.wf(),
        ensures
            final(self).deep_view() == old(self).deep_view().begun(i as int),
            final(self).deep_view().goes_on(res),
    {
        self.index = i;
        self.stage = ConcatStage::Extracting;
        let video = self.part(i);
        self.run.track(video.as_str());
        ConcatStep::Extract { playlist: text::copy(self.playlists[i].as_str()), video }
    }

    fn finish(&mut self, file: &str) -> (res: ConcatStep)
        requires
            old(self).index < old(self).playlists@.len(),
            old(self).run.wf(),
        ensures
            final(self).deep_view() == old(self).deep_view().finished(file@),
            final(self).deep_view().goes_on(res),
    {
        let n = self.playlists.len();
        self.run.finish_segment(file);
        let next = self.index + 1;
        if next < n {
            self.begin(next)
        } else {
            self.stage = ConcatStage::Joining;
            ConcatStep::Join { segments: text::copy_list(&self.run.segments) }
        }
    }

    fn fail(&mut self, error: String) -> (res: ConcatStep)
        ensures
            final(self).deep_view() == (ConcatView {
                stage: ConcatStage::Over,
                ..old(self).deep_view()
            }),
            old(self).deep_view().is_failure(res, error@),
    {
        self.stage = ConcatStage::Over;
        ConcatStep::Fail { to_remove: text::copy_list(&self.run.to_remove), error }
    }

    /// What is done next to join the playlists.
    pub fn concat_playlists_to_video(&mut self, event: ConcatEvent) -> (res: ConcatStep)
        requires
            old(self).deep_view().wf(),
        ensures
            final(self).deep_view().wf(),
            final(self).deep_view() == old(self).deep_view().after(event),
            old(self).deep_view().is_step_for(event, res),
    {
        proof {
            lemma_after(self.deep_view(), event);
        }
        let total = self.playlists.len();
        match (self.stage, event) {
            (ConcatStage::Ready, ConcatEvent::Started) => {
                match playlist::concat_playlists_to_video(total, self.danmu_ass_files.len()) {
                    Ok(()) => self.begin(0),
                    Err(e) => self.fail(e),
                }
            },
            (ConcatStage::Extracting, ConcatEvent::Extracted) => {
                let video = self.part(self.index);
                let ass = text::copy_option(&self.danmu_ass_files[self.index]);
                match ass {
                    Some(danmu) => {
                        let encoded = playlist::danmaku_file_name(video.as_str());
                        self.run.track(encoded.as_str());
                        self.stage = ConcatStage::Burning;
                        ConcatStep::Burn { video, danmu }
                    },
                    None => self.finish(video.as_str()),
                }
            },
            (ConcatStage::Extracting, ConcatEvent::ExtractFailed { error }) => {
                let made: Result<(), String> = playlist::require_playlist_segment(
                    Err(error),
                    self.index,
                    total,
                    self.playlists[self.index].as_str(),
                );
                match made {
                    Ok(()) => ConcatStep::Ignore,
                    Err(e) => self.fail(e),
                }
            },
            (ConcatStage::Burning, ConcatEvent::Burnt { file }) => self.finish(file.as_str()),
            (ConcatStage::Burning, ConcatEvent::BurnFailed { error }) => {
                let e = playlist::danmu_burn_error(
                    self.index,
                    total,
                    self.playlists[self.index].as_str(),
                    error.as_str(),
                );
                self.fail(e)
            },
            (ConcatStage::Joining, ConcatEvent::Joined) => {
                self.stage = ConcatStage::Over;
                ConcatStep::Done { to_remove: text::copy_list(&self.run.to_remove) }
            },
            (ConcatStage::Joining, ConcatEvent::JoinFailed { error }) => {
                let e = playlist::concat_error(total, error.as_str());
                self.fail(e)
            },
            (_, _) => ConcatStep::Ignore,
        }
    }
}

/// How playlists are joined: each is extracted in turn, one by one and none twice, into a part of its
/// own; where it has chat, the chat is burnt into that part, and what came of that is joined, else the
/// part itself. All are joined only when the last is done.
pub proof fn law_playlists_are_joined_in_turn(
    state: ConcatView,
    event: ConcatEvent,
    step: ConcatStep,
)
    requires
        state.wf(),
        state.is_step_for(event, step),
    ensures
        ({
            let after = state.after(event);
            &&& after.playlists == state.playlists && after.danmu == state.danmu && after.output
                == state.output
            &&& step is Extract ==> after.stage == ConcatStage::Extracting && 0 <= after.index
                < state.playlists.len() && step->Extract_playlist@ == state.playlists[after.index]
                && step->Extract_video@ == playlist::part_name(state.output, after.index)
            &&& step is Extract && state.stage == ConcatStage::Ready ==> after.index == 0
            &&& step is Extract && state.stage != ConcatStage::Ready ==> after.index == state.index
                + 1 && after.segments.len() == state.segments.len() + 1
            &&& step is Burn ==> after.stage == ConcatStage::Burning && after.index == state.index
                && state.danmu[state.index] == Some(step->Burn_danmu@) && step->Burn_video@
                == playlist::part_name(state.output, state.index) && after.segments
                == state.segments
            &&& state.stage == ConcatStage::Extracting && event is Extracted ==> (step is Burn
                <==> state.danmu[state.index] is Some)
            &&& state.stage == ConcatStage::Extracting && event is Extracted
                && state.danmu[state.index] is None ==> after.segments == state.segments.push(
                playlist::part_name(state.output, state.index),
            )
            &&& state.stage == ConcatStage::Burning ==> (event matches ConcatEvent::Burnt { file }
                ==> after.segments == state.segments.push(file@))
            &&& step is Join ==> after.stage == ConcatStage::Joining && state.index + 1
                == state.playlists.len() && step->Join_segments.deep_view() == after.segments
                && after.segments.len() == state.playlists.len()
            &&& step is Done <==> state.stage == ConcatStage::Joining && event is Joined
        }),
{
}

/// Joining starts only with playlists, and with as many places for chat as there are; any failure ends
/// it, and nothing follows the end.
pub proof fn law_joining_ends_with_a_failure(
    state: ConcatView,
    event: ConcatEvent,
    step: ConcatStep,
)
    requires
        state.wf(),
        state.is_step_for(event, step),
    ensures
        state.stage == ConcatStage::Ready && event is Started ==> (step is Extract
            <==> state.playlists.len() > 0 && state.playlists.len() == state.danmu.len()) && (step
            is Fail <==> !(state.playlists.len() > 0 && state.playlists.len()
            == state.danmu.len())),
        step is Fail || step is Done ==> state.after(event).stage == ConcatStage::Over,
        state.stage == ConcatStage::Extracting && event is ExtractFailed ==> step is Fail,
        state.stage == ConcatStage::Burning && event is BurnFailed ==> step is Fail,
        state.stage == ConcatStage::Joining && event is JoinFailed ==> step is Fail,
        state.stage == ConcatStage::Over ==> step is Ignore,
        step is Ignore ==> state.after(event) == state,
        step is Fail ==> (event matches ConcatEvent::ExtractFailed { error } ==> text::ends(
            step->error@,
            error@,
        )),
        step is Fail ==> (event matches ConcatEvent::BurnFailed { error } ==> text::ends(
            step->error@,
            error@,
        )),
        step is Fail ==> (event matches ConcatEvent::JoinFailed { error } ==> text::ends(
            step->error@,
            error@,
        )),
{
    if step is Fail {
        let message = step->error@;
        match event {
            ConcatEvent::ExtractFailed { error } => {
                assert(message.skip(message.len() - error@.len()) =~= error@);
            },
            ConcatEvent::BurnFailed { error } => {
                assert(message.skip(message.len() - error@.len()) =~= error@);
            },
            ConcatEvent::JoinFailed { error } => {
                assert(message.skip(message.len() - error@.len()) =~= error@);
            },
            _ => {},
        }
    }
}

} // verus!
