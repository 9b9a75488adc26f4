//! A clip of several ranges of a recording: each range is cut into a file, and the files are joined.
use vstd::prelude::*;
use crate::playlist;
use crate::text;

verus! {

/// How far a clip of several ranges has come.
#[derive(Clone, Copy, Debug, PartialEq, Eq, Structural)]
pub enum MultiClipStage {
    Ready,
    /// A range is cut.
    Cutting,
    /// The files of the ranges are joined.
    Joining,
    Over,
}

/// What happened while a clip of several ranges is made.
pub enum MultiClipEvent {
    Started,
    Cut,
    CutFailed { error: String },
    Joined,
    JoinFailed { error: String },
}

/// What is done next. Files are named within the directory of the clip.
pub enum MultiClipStep {
    /// Cut the range at a position into a file.
    Cut { index: usize, video: String },
    Join { parts: Vec<String> },
    Done { to_remove: Vec<String> },
    Fail { to_remove: Vec<String>, error: String },
    /// The event is not one that was waited for.
    Ignore,
}

/// A clip of several ranges, with the files that were made so far.
pub struct MultiClip {
    pub file_name: String,
    pub ranges: usize,
    pub made: Vec<String>,
    pub stage: MultiClipStage,
}

/// The model of a clip of several ranges.
#[verifier::ext_equal]
pub struct MultiClipView {
    pub file_name: Seq<char>,
    pub ranges: int,
    pub made: Seq<Seq<char>>,
    pub stage: MultiClipStage,
}

impl DeepView for MultiClip {
    type V = MultiClipView;

    open spec fn deep_view(&self) -> MultiClipView {
        MultiClipView {
            file_name: self.file_name@,
            ranges: self.ranges as int,
            made: self.made.deep_view(),
            stage: self.stage,
        }
    }
}

impl MultiClipView {
    /// The state is consistent: the files that were made are those of the first ranges, in order, and
    /// a range is in hand or all were cut.
    pub open spec fn wf(self) -> bool {
        &&& self.made.len() <= self.ranges
        &&& forall|i: int|
            0 <= i < self.made.len() ==> #[trigger] self.made[i] == playlist::part_name(
                self.file_name,
                i,
            )
        &&& self.stage == MultiClipStage::Ready ==> self.made.len() == 0
        &&& self.stage == MultiClipStage::Cutting ==> self.made.len() < self.ranges
        &&& self.stage == MultiClipStage::Joining ==> self.made.len() == self.ranges
    }

    /// The state when these files are made and the next range follows, or the joining.
    pub open spec fn with_made(self, made: Seq<Seq<char>>) -> MultiClipView {
        MultiClipView {
            made,
            stage: if made.len() < self.ranges {
                MultiClipStage::Cutting
            } else {
                MultiClipStage::Joining
            },
            ..self
        }
    }

    /// The state after an event. An event that was not waited for changes nothing.
    pub open spec fn after(self, event: MultiClipEvent) -> MultiClipView {
        let over = MultiClipView { stage: MultiClipStage::Over, ..self };
        match (self.stage, event) {
            (MultiClipStage::Ready, MultiClipEvent::Started) => self.with_made(self.made),
            (MultiClipStage::Cutting, MultiClipEvent::Cut) => self.with_made(
                self.made.push(playlist::part_name(self.file_name, self.made.len() as int)),
            ),
            (MultiClipStage::Cutting, MultiClipEvent::CutFailed { error }) => over,
            (MultiClipStage::Joining, MultiClipEvent::Joined) => over,
            (MultiClipStage::Joining, MultiClipEvent::JoinFailed { error }) => over,
            _ => self,
        }
    }

    /// Whether a step goes on from this state: the next range is cut, or all files are joined.
    pub open spec fn goes_on(self, step: MultiClipStep) -> bool {
        if self.stage == MultiClipStage::Joining {
            step matches MultiClipStep::Join { parts } && parts.deep_view() == self.made
        } else {
            step matches MultiClipStep::Cut { index, video } && index == self.made.len() && video@
                == playlist::part_name(self.file_name, self.made.len() as int)
        }
    }

    /// Whether a step is the one that follows an event. Where a range cannot be cut, the files made
    /// before it go; where the files cannot be joined, they are left.
    pub open spec fn is_step_for(self, event: MultiClipEvent, step: MultiClipStep) -> bool {
        match (self.stage, event) {
            (MultiClipStage::Ready, MultiClipEvent::Started) => self.after(event).goes_on(step),
            (MultiClipStage::Cutting, MultiClipEvent::Cut) => self.after(event).goes_on(step),
            (MultiClipStage::Cutting, MultiClipEvent::CutFailed { error: e }) =>
                step matches MultiClipStep::Fail { to_remove, error } && to_remove.deep_view()
                == self.made && error@ == e@,
            (MultiClipStage::Joining, MultiClipEvent::Joined) => step matches MultiClipStep::Done {
                to_remove,
            } && to_remove.deep_view() == self.made,
            (MultiClipStage::Joining, MultiClipEvent::JoinFailed { error: e }) =>
                step matches MultiClipStep::Fail { to_remove, error } && to_remove@.len() == 0
                && error@ == e@,
            _ => step is Ignore,
        }
    }
}

/// Files are joined only when every range was cut, each once and in the order of the ranges; and
/// when they were joined, each of them is removed.
pub proof fn law_every_range_is_joined_in_order(
    state: MultiClipView,
    event: MultiClipEvent,
    step: MultiClipStep,
)
    requires
        state.wf(),
        state.is_step_for(event, step),
    ensures
        state.after(event).wf(),
        step is Join ==> step->parts.deep_view() == Seq::new(
            state.ranges as nat,
            |i: int| playlist::part_name(state.file_name, i),
        ),
        step is Done ==> step->Done_to_remove.deep_view() == Seq::new(
            state.ranges as nat,
            |i: int| playlist::part_name(state.file_name, i),
        ),
        event is CutFailed && step is Fail ==> step->Fail_to_remove.deep_view() == Seq::new(
            state.made.len(),
            |i: int| playlist::part_name(state.file_name, i),
        ),
{
    let names = Seq::new(
        state.ranges as nat,
        |i: int| playlist::part_name(state.file_name, i),
    );
    if step is Join {
        assert(state.after(event).made =~= names);
    }
    if step is Done {
        assert(state.made =~= names);
    }
    if event is CutFailed && step is Fail {
        assert(state.made =~= Seq::new(
            state.made.len(),
            |i: int| playlist::part_name(state.file_name, i),
        ));
    }
}

impl MultiClip {
    /// A clip of some ranges that is to go to a file of this name.
    pub fn new(file_name: &str, ranges: usize) -> (res: Self)
        ensures
            res.deep_view().wf(),
            res.deep_view() == (MultiClipView {
                file_name: file_name@,
                ranges: ranges as int,
                made: Seq::empty(),
                stage: MultiClipStage::Ready,
            }),
    {
        let res = MultiClip {
            file_name: text::copy(file_name),
            ranges,
            made: Vec::new(),
            stage: MultiClipStage::Ready,
        };
        assert(res.made.deep_view() =~= Seq::<Seq<char>>::empty());
        res
    }

    fn go_on(&mut self) -> (res: MultiClipStep)
        ensures
            final(self).deep_view() == old(self).deep_view().with_made(old(self).deep_view().made),
            final(self).deep_view().goes_on(res),
    {
        let n = self.made.len();
        if n < self.ranges {
            self.stage = MultiClipStage::Cutting;
            MultiClipStep::Cut {
                index: n,
                video: playlist::part_file(self.file_name.as_str(), n),
            }
        } else {
            self.stage = MultiClipStage::Joining;
            MultiClipStep::Join { parts: text::copy_list(&self.made) }
        }
    }
}

/// What is done next to make a clip of several ranges.
pub fn clip_multiple_from_playlist(clip: &mut MultiClip, event: MultiClipEvent) -> (res:
    MultiClipStep)
    requires
        old(clip).deep_view().wf(),
    ensures
        final(clip).deep_view().wf(),
        final(clip).deep_view() == old(clip).deep_view().after(event),
        old(clip).deep_view().is_step_for(event, res),
{
    let ghost before = clip.deep_view();
    match (clip.stage, event) {
        (MultiClipStage::Ready, MultiClipEvent::Started) => clip.go_on(),
        (MultiClipStage::Cutting, MultiClipEvent::Cut) => {
            let video = playlist::part_file(clip.file_name.as_str(), clip.made.len());
            clip.made.push(video);
            assert(clip.deep_view().made =~= before.made.push(
                playlist::part_name(before.file_name, before.made.len() as int),
            ));
            clip.go_on()
        },
        (MultiClipStage::Cutting, MultiClipEvent::CutFailed { error }) => {
            clip.stage = MultiClipStage::Over;
            MultiClipStep::Fail { to_remove: text::copy_list(&clip.made), error }
        },
        (MultiClipStage::Joining, MultiClipEvent::Joined) => {
            clip.stage = MultiClipStage::Over;
            MultiClipStep::Done { to_remove: text::copy_list(&clip.made) }
        },
        (MultiClipStage::Joining, MultiClipEvent::JoinFailed { error }) => {
            clip.stage = MultiClipStage::Over;
            MultiClipStep::Fail { to_remove: Vec::new(), error }
        },
        (_, _) => MultiClipStep::Ignore,
    }
}

/// How a clip of several ranges is made: the ranges are cut one by one, in order, each into a part of
/// its own; the parts are joined when the last is cut, and never before. A range that cannot be cut ends
/// it, and so do the joining and its failure; what is told of a failure is what went wrong.
pub proof fn law_ranges_are_cut_in_turn(
    state: MultiClipView,
    event: MultiClipEvent,
    step: MultiClipStep,
)
    requires
        state.wf(),
        state.is_step_for(event, step),
    ensures
        ({
            let after = state.after(event);
            &&& after.ranges == state.ranges && after.file_name == state.file_name
            &&& step is Cut ==> after.stage == MultiClipStage::Cutting && step->index
                == after.made.len() && step->index < state.ranges && step->video@
                == playlist::part_name(state.file_name, step->index as int)
            &&& step is Cut && state.stage == MultiClipStage::Ready ==> step->index == 0
            &&& state.stage == MultiClipStage::Cutting && event is Cut ==> after.made.len()
                == state.made.len() + 1 && (step is Join <==> after.made.len() == state.ranges) && (
            step is Cut <==> after.made.len() < state.ranges)
            &&& state.stage == MultiClipStage::Ready && event is Started ==> (step is Join
                <==> state.ranges == 0)
            &&& step is Fail || step is Done ==> after.stage == MultiClipStage::Over
            &&& state.stage == MultiClipStage::Cutting ==> (event matches MultiClipEvent::CutFailed {
                error,
            } ==> step is Fail && step->error@ == error@)
            &&& state.stage == MultiClipStage::Joining ==> (
            event matches MultiClipEvent::JoinFailed { error } ==> step is Fail && step->error@
                == error@)
            &&& step is Done <==> state.stage == MultiClipStage::Joining && event is Joined
            &&& step is Ignore ==> after == state
            &&& state.stage == MultiClipStage::Over ==> step is Ignore
        }),
{
}

} // verus!
