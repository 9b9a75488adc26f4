//! Removing a recorder: its row, its place among the recorders, and its files.
use vstd::prelude::*;
use crate::manager;
use crate::manager::{RecorderManagerError, RecorderRow, RecorderRowView};
use crate::platform::PlatformType;
use crate::text;

verus! {

/// The recorders by their names: those that are kept, and those that are being removed and must not
/// be made again.
pub struct Registry {
    pub recorders: Vec<String>,
    pub removing: Vec<String>,
}

/// The model of the recorders by their names.
#[verifier::ext_equal]
pub struct RegistryView {
    pub recorders: Seq<Seq<char>>,
    pub removing: Seq<Seq<char>>,
}

impl DeepView for Registry {
    type V = RegistryView;

    open spec fn deep_view(&self) -> RegistryView {
        RegistryView {
            recorders: self.recorders.deep_view(),
            removing: self.removing.deep_view(),
        }
    }
}

/// A list with a name, once.
pub open spec fn with(list: Seq<Seq<char>>, id: Seq<char>) -> Seq<Seq<char>> {
    if list.contains(id) {
        list
    } else {
        list.push(id)
    }
}

/// A list without a name; the others stay as they are.
pub open spec fn without(list: Seq<Seq<char>>, id: Seq<char>) -> Seq<Seq<char>> {
    list.filter(|other: Seq<char>| other != id)
}

fn insert(list: &mut Vec<String>, id: &str)
    ensures
        final(list).deep_view() == with(old(list).deep_view(), id@),
{
    let ghost before = list.deep_view();
    if !text::list_contains(list, id) {
        list.push(text::copy(id));
        assert(list.deep_view() =~= before.push(id@));
    }
}

fn delete(list: &mut Vec<String>, id: &str)
    ensures
        final(list).deep_view() == without(old(list).deep_view(), id@),
{
    let ghost all = list.deep_view();
    let ghost is_other = |other: Seq<char>| other != id@;
    let mut out: Vec<String> = Vec::new();
    let mut i: usize = 0;
    proof {
        reveal(Seq::filter);
        assert(all.take(0) =~= Seq::empty());
        assert(out.deep_view() =~= all.take(0).filter(is_other));
    }
    while i < list.len()
        invariant
            i <= list@.len(),
            all == list.deep_view(),
            is_other == (|other: Seq<char>| other != id@),
            out.deep_view() == all.take(i as int).filter(is_other),
        decreases list@.len() - i,
    {
        let ghost before = out.deep_view();
        let ghost next = all.take(i + 1);
        proof {
            reveal(Seq::filter);
            assert(next.drop_last() =~= all.take(i as int));
            assert(next.last() == list@[i as int]@);
        }
        if !text::same(list[i].as_str(), id) {
            out.push(text::copy(list[i].as_str()));
            assert(out.deep_view() =~= before.push(list@[i as int]@));
        }
        i += 1;
    }
    assert(all.take(i as int) =~= all);
    *list = out;
}

impl Registry {
    /// No recorders.
    pub fn new() -> (res: Self)
        ensures
            res.deep_view() == (RegistryView { recorders: Seq::empty(), removing: Seq::empty() }),
    {
        let res = Registry { recorders: Vec::new(), removing: Vec::new() };
        assert(res.deep_view().recorders =~= Seq::empty());
        assert(res.deep_view().removing =~= Seq::empty());
        res
    }

    /// Notes that a recorder was made.
    pub fn note_added(&mut self, id: &str)
        ensures
            final(self).deep_view() == (RegistryView {
                recorders: with(old(self).deep_view().recorders, id@),
                ..old(self).deep_view()
            }),
    {
        insert(&mut self.recorders, id);
    }

    /// Notes that all recorders were stopped and given up.
    pub fn note_stopped(&mut self)
        ensures
            final(self).deep_view() == (RegistryView {
                recorders: Seq::empty(),
                ..old(self).deep_view()
            }),
    {
        self.recorders = Vec::new();
        assert(self.recorders.deep_view() =~= Seq::<Seq<char>>::empty());
    }
}

/// How far a removal has come.
#[derive(Clone, Copy, Debug, PartialEq, Eq, Structural)]
pub enum RemovalStage {
    Ready,
    /// The row is removed from the database.
    RemovingRow,
    /// The recorder, now marked as being removed, is stopped.
    Stopping,
    /// The recorder is dropped.
    Dropping,
    /// The mark is gone, and the files are removed.
    Clearing,
    Done,
    Failed,
}

/// What happened during a removal.
pub enum RemovalEvent {
    Asked,
    RowRemoved { row: RecorderRow },
    RowFailed { error: String },
    Stopped,
    Dropped,
    /// The files were removed, or could not be.
    FolderRemoved,
}

/// What is done next for a removal.
pub enum RemovalStep {
    /// Remove the row of a room from the database.
    RemoveRow { room_id: String },
    Stop { id: String },
    Drop { id: String },
    /// Remove the files of the room; that it fails is no matter.
    RemoveFolder { folder: String },
    /// The recorder is gone; this was its row.
    Done { row: RecorderRow },
    Fail { error: RecorderManagerError },
    /// The event is not one that was waited for.
    Ignore,
}

/// The removal of a recorder.
pub struct RecorderRemoval {
    pub platform: PlatformType,
    pub room_id: String,
    pub cache: String,
    pub row: Option<RecorderRow>,
    pub stage: RemovalStage,
}

/// The model of a removal.
#[verifier::ext_equal]
pub struct RemovalView {
    pub platform: PlatformType,
    pub room_id: Seq<char>,
    pub cache: Seq<char>,
    pub row: Option<RecorderRowView>,
    pub stage: RemovalStage,
}

impl DeepView for RecorderRemoval {
    type V = RemovalView;

    open spec fn deep_view(&self) -> RemovalView {
        RemovalView {
            platform: self.platform,
            room_id: self.room_id@,
            cache: self.cache@,
            row: self.row.deep_view(),
            stage: self.stage,
        }
    }
}

impl RemovalView {
    /// The name of the recorder.
    pub open spec fn id(self) -> Seq<char> {
        manager::recorder_key(self.platform.name(), self.room_id)
    }

    /// The directory with the files of the room.
    pub open spec fn folder(self) -> Seq<char> {
        self.cache + "/"@ + self.platform.name() + "/"@ + self.room_id
    }

    /// The state is consistent: once the row is gone from the database, it is held here.
    pub open spec fn wf(self) -> bool {
        self.row is Some <==> !(self.stage == RemovalStage::Ready || self.stage
            == RemovalStage::RemovingRow || self.stage == RemovalStage::Failed)
    }

    /// The stage after an event, given the recorders.
    pub open spec fn stage_after(self, registry: RegistryView, event: RemovalEvent) -> RemovalStage {
        match (self.stage, event) {
            (RemovalStage::Ready, RemovalEvent::Asked) => if registry.recorders.contains(
                self.id(),
            ) {
                RemovalStage::RemovingRow
            } else {
                RemovalStage::Failed
            },
            (RemovalStage::RemovingRow, RemovalEvent::RowRemoved { row }) => RemovalStage::Stopping,
            (RemovalStage::RemovingRow, RemovalEvent::RowFailed { error }) => RemovalStage::Failed,
            (RemovalStage::Stopping, RemovalEvent::Stopped) => RemovalStage::Dropping,
            (RemovalStage::Dropping, RemovalEvent::Dropped) => RemovalStage::Clearing,
            (RemovalStage::Clearing, RemovalEvent::FolderRemoved) => RemovalStage::Done,
            _ => self.stage,
        }
    }

    /// The removal after an event.
    pub open spec fn after(self, registry: RegistryView, event: RemovalEvent) -> RemovalView {
        let row = match (self.stage, event) {
            (RemovalStage::RemovingRow, RemovalEvent::RowRemoved { row }) => Some(row.deep_view()),
            _ => self.row,
        };
        RemovalView { row, stage: self.stage_after(registry, event), ..self }
    }

    /// The recorders after an event: the recorder is marked before it is stopped, dropped when it
    /// was stopped, and no longer marked when it was dropped.
    pub open spec fn registry_after(self, registry: RegistryView, event: RemovalEvent) ->
        RegistryView {
        match (self.stage, event) {
            (RemovalStage::RemovingRow, RemovalEvent::RowRemoved { row }) => RegistryView {
                removing: with(registry.removing, self.id()),
                ..registry
            },
            (RemovalStage::Stopping, RemovalEvent::Stopped) => RegistryView {
                recorders: without(registry.recorders, self.id()),
                ..registry
            },
            (RemovalStage::Dropping, RemovalEvent::Dropped) => RegistryView {
                removing: without(registry.removing, self.id()),
                ..registry
            },
            _ => registry,
        }
    }

    /// Whether a step is the one that follows an event.
    pub open spec fn is_step_for(
        self,
        registry: RegistryView,
        event: RemovalEvent,
        step: RemovalStep,
    ) -> bool {
        match (self.stage, event) {
            (RemovalStage::Ready, RemovalEvent::Asked) => if registry.recorders.contains(
                self.id(),
            ) {
                step matches RemovalStep::RemoveRow { room_id } && room_id@ == self.room_id
            } else {
                step matches RemovalStep::Fail {
                    error: RecorderManagerError::NotFound { room_id },
                } && room_id@ == self.room_id
            },
            (RemovalStage::RemovingRow, RemovalEvent::RowRemoved { row }) =>
                step matches RemovalStep::Stop { id } && id@ == self.id(),
            (RemovalStage::RemovingRow, RemovalEvent::RowFailed { error: e }) =>
                step matches RemovalStep::Fail {
                error: RecorderManagerError::DatabaseError(message),
            } && message@ == e@,
            (RemovalStage::Stopping, RemovalEvent::Stopped) => step matches RemovalStep::Drop { id }
                && id@ == self.id(),
            (RemovalStage::Dropping, RemovalEvent::Dropped) =>
                step matches RemovalStep::RemoveFolder { folder } && folder@ == self.folder(),
            (RemovalStage::Clearing, RemovalEvent::FolderRemoved) => step matches RemovalStep::Done {
                row,
            } && Some(row.deep_view()) == self.row,
            _ => step is Ignore,
        }
    }
}

/// A removal and the recorders after events, one after the other.
pub open spec fn after_all(
    removal: RemovalView,
    registry: RegistryView,
    events: Seq<RemovalEvent>,
) -> (RemovalView, RegistryView)
    decreases events.len(),
{
    if events.len() == 0 {
        (removal, registry)
    } else {
        let (m, r) = after_all(removal, registry, events.drop_last());
        (m.after(r, events.last()), m.registry_after(r, events.last()))
    }
}

/// How the recorders stand at each stage of a removal that began with `start`.
spec fn in_order(
    start: RegistryView,
    id: Seq<char>,
    stage: RemovalStage,
    registry: RegistryView,
) -> bool {
    match stage {
        RemovalStage::Ready => registry == start,
        RemovalStage::Failed => registry == start,
        RemovalStage::RemovingRow => registry == start && start.recorders.contains(id),
        RemovalStage::Stopping => start.recorders.contains(id) && registry == (RegistryView {
            recorders: start.recorders,
            removing: with(start.removing, id),
        }),
        RemovalStage::Dropping => start.recorders.contains(id) && registry == (RegistryView {
            recorders: without(start.recorders, id),
            removing: with(start.removing, id),
        }),
        _ => start.recorders.contains(id) && registry == (RegistryView {
            recorders: without(start.recorders, id),
            removing: without(start.removing, id),
        }),
    }
}

proof fn lemma_without_added(list: Seq<Seq<char>>, id: Seq<char>)
    ensures
        without(with(list, id), id) == without(list, id),
{
    reveal(Seq::filter);
    assert(list.push(id).drop_last() =~= list);
}

proof fn lemma_without(list: Seq<Seq<char>>, id: Seq<char>, other: Seq<char>)
    ensures
        without(list, id).contains(other) <==> list.contains(other) && other != id,
    decreases list.len(),
{
    reveal(Seq::filter);
    if list.len() > 0 {
        let rest = list.drop_last();
        let kept = without(rest, id);
        lemma_without(rest, id, other);
        if rest.contains(other) {
            let i = choose|i: int| 0 <= i < rest.len() && rest[i] == other;
            assert(list[i] == other);
        }
        if list.contains(other) {
            let i = choose|i: int| 0 <= i < list.len() && list[i] == other;
            if i < rest.len() {
                assert(rest[i] == other);
            }
        }
        if kept.contains(other) {
            let i = choose|i: int| 0 <= i < kept.len() && kept[i] == other;
            assert(kept.push(list.last())[i] == other);
        }
        assert(kept.push(list.last())[kept.len() as int] == list.last());
        assert(list[list.len() - 1] == list.last());
    }
}

proof fn lemma_order(start: RegistryView, removal: RemovalView, events: Seq<RemovalEvent>)
    requires
        removal.stage == RemovalStage::Ready,
    ensures
        after_all(removal, start, events).0.id() == removal.id(),
        in_order(
            start,
            removal.id(),
            after_all(removal, start, events).0.stage,
            after_all(removal, start, events).1,
        ),
    decreases events.len(),
{
    if events.len() > 0 {
        lemma_order(start, removal, events.drop_last());
        lemma_without_added(start.removing, removal.id());
    }
}

/// When a recorder was removed, it is neither kept nor being removed, it was there before, and all
/// other recorders are as they were; a removal that failed has changed nothing.
pub proof fn law_a_removed_recorder_is_gone(
    removal: RemovalView,
    registry: RegistryView,
    events: Seq<RemovalEvent>,
)
    requires
        removal.stage == RemovalStage::Ready,
    ensures
        ({
            let (m, r) = after_all(removal, registry, events);
            &&& m.stage == RemovalStage::Done ==> {
                &&& registry.recorders.contains(removal.id())
                &&& !r.recorders.contains(removal.id())
                &&& !r.removing.contains(removal.id())
                &&& r.recorders == without(registry.recorders, removal.id())
                &&& r.removing == without(registry.removing, removal.id())
                &&& forall|other: Seq<char>|
                    #![trigger r.recorders.contains(other)]
                    #![trigger r.removing.contains(other)]
                    other != removal.id() ==> (r.recorders.contains(other)
                        <==> registry.recorders.contains(other)) && (r.removing.contains(other)
                        <==> registry.removing.contains(other))
            }
            &&& m.stage == RemovalStage::Failed ==> r == registry
        }),
{
    lemma_order(registry, removal, events);
    let (m, r) = after_all(removal, registry, events);
    let id = removal.id();
    if m.stage == RemovalStage::Done {
        lemma_without(registry.recorders, id, id);
        lemma_without(registry.removing, id, id);
        assert forall|other: Seq<char>|
            #![trigger r.recorders.contains(other)]
            #![trigger r.removing.contains(other)]
            other != id implies (r.recorders.contains(other) <==> registry.recorders.contains(
            other,
        )) && (r.removing.contains(other) <==> registry.removing.contains(other)) by {
            lemma_without(registry.recorders, id, other);
            lemma_without(registry.removing, id, other);
        }
    }
}

/// A recorder is marked as being removed from before it is stopped until it was dropped, so that
/// nothing makes it again in between.
pub proof fn law_a_recorder_is_marked_while_it_stops(
    removal: RemovalView,
    registry: RegistryView,
    events: Seq<RemovalEvent>,
)
    requires
        removal.stage == RemovalStage::Ready,
        ({
            let stage = after_all(removal, registry, events).0.stage;
            stage == RemovalStage::Stopping || stage == RemovalStage::Dropping
        }),
    ensures
        after_all(removal, registry, events).1.removing.contains(removal.id()),
{
    lemma_order(registry, removal, events);
    let list = registry.removing;
    assert(list.push(removal.id())[list.len() as int] == removal.id());
}

impl RecorderRemoval {
    /// The removal of the recorder of a room.
    pub fn new(platform: PlatformType, room_id: &str, cache: &str) -> (res: Self)
        ensures
            res.deep_view().wf(),
            res.deep_view() == (RemovalView {
                platform,
                room_id: room_id@,
                cache: cache@,
                row: None,
                stage: RemovalStage::Ready,
            }),
    {
        RecorderRemoval {
            platform,
            room_id: text::copy(room_id),
            cache: text::copy(cache),
            row: None,
            stage: RemovalStage::Ready,
        }
    }

    fn id(&self) -> (res: String)
        ensures
            res@ == self.deep_view().id(),
    {
        manager::recorder_id(self.platform.as_str(), self.room_id.as_str())
    }

    fn folder(&self) -> (res: String)
        ensures
            res@ == self.deep_view().folder(),
    {
        let mut folder = text::copy(self.cache.as_str());
        folder.append("/");
        folder.append(self.platform.as_str());
        folder.append("/");
        folder.append(self.room_id.as_str());
        folder
    }

    /// What is done next to remove a recorder.
    pub fn remove_recorder(&mut self, registry: &mut Registry, event: RemovalEvent) -> (res:
        RemovalStep)
        requires
            old(self).deep_view().wf(),
        ensures
            final(self).deep_view().wf(),
            final(self).deep_view() == old(self).deep_view().after(
                old(registry).deep_view(),
                event,
            ),
            final(registry).deep_view() == old(self).deep_view().registry_after(
                old(registry).deep_view(),
                event,
            ),
            old(self).deep_view().is_step_for(old(registry).deep_view(), event, res),
    {
        match (self.stage, event) {
            (RemovalStage::Ready, RemovalEvent::Asked) => {
                match manager::remove_recorder(
                    self.platform,
                    self.room_id.as_str(),
                    &registry.recorders,
                ) {
                    Ok(_) => {
                        self.stage = RemovalStage::RemovingRow;
                        RemovalStep::RemoveRow { room_id: text::copy(self.room_id.as_str()) }
                    },
                    Err(error) => {
                        self.stage = RemovalStage::Failed;
                        RemovalStep::Fail { error }
                    },
                }
            },
            (RemovalStage::RemovingRow, RemovalEvent::RowRemoved { row }) => {
                let id = self.id();
                insert(&mut registry.removing, id.as_str());
                self.row = Some(row);
                self.stage = RemovalStage::Stopping;
                RemovalStep::Stop { id }
            },
            (RemovalStage::RemovingRow, RemovalEvent::RowFailed { error }) => {
                self.stage = RemovalStage::Failed;
                RemovalStep::Fail { error: RecorderManagerError::DatabaseError(error) }
            },
            (RemovalStage::Stopping, RemovalEvent::Stopped) => {
                let id = self.id();
                delete(&mut registry.recorders, id.as_str());
                self.stage = RemovalStage::Dropping;
                RemovalStep::Drop { id }
            },
            (RemovalStage::Dropping, RemovalEvent::Dropped) => {
                let id = self.id();
                delete(&mut registry.removing, id.as_str());
                self.stage = RemovalStage::Clearing;
                RemovalStep::RemoveFolder { folder: self.folder() }
            },
            (RemovalStage::Clearing, RemovalEvent::FolderRemoved) => {
                match &self.row {
                    Some(row) => {
                        let row = row.clone();
                        self.stage = RemovalStage::Done;
                        RemovalStep::Done { row }
                    },
                    None => RemovalStep::Ignore,
                }
            },
            (_, _) => RemovalStep::Ignore,
        }
    }
}

/// How a recorder is removed: its row first, then it is stopped, dropped, and its folder cleared, in
/// this order; and what is told of it in the end is the row that was removed. A recorder that is not
/// there, or whose row cannot be removed, is not touched.
pub proof fn law_removal_follows_its_order(
    removal: RemovalView,
    registry: RegistryView,
    event: RemovalEvent,
    step: RemovalStep,
)
    requires
        removal.is_step_for(registry, event, step),
    ensures
        ({
            let after = removal.after(registry, event);
            let then = removal.registry_after(registry, event);
            let id = removal.id();
            &&& after.id() == id
            &&& removal.stage == RemovalStage::Ready && event is Asked ==> (step is RemoveRow
                <==> registry.recorders.contains(id)) && (step is Fail
                <==> !registry.recorders.contains(id)) && then == registry
            &&& step is RemoveRow ==> step->room_id@ == removal.room_id && after.stage
                == RemovalStage::RemovingRow
            &&& step is Stop <==> removal.stage == RemovalStage::RemovingRow && event is RowRemoved
            &&& step is Stop ==> after.stage == RemovalStage::Stopping && step->Stop_id@ == id
                && then.removing.contains(id) && then.recorders == registry.recorders
            &&& step is Drop <==> removal.stage == RemovalStage::Stopping && event is Stopped
            &&& step is Drop ==> after.stage == RemovalStage::Dropping && step->Drop_id@ == id
                && !then.recorders.contains(id) && then.removing == registry.removing
            &&& step is RemoveFolder <==> removal.stage == RemovalStage::Dropping && event is Dropped
            &&& step is RemoveFolder ==> after.stage == RemovalStage::Clearing && step->folder@
                == removal.cache + "/"@ + removal.platform.name() + "/"@ + removal.room_id
                && !then.removing.contains(id) && then.recorders == registry.recorders
            &&& step is Done <==> removal.stage == RemovalStage::Clearing && event is FolderRemoved
            &&& step is Done ==> after.stage == RemovalStage::Done && removal.row == Some(
                step->row.deep_view(),
            ) && then == registry
            &&& step is Fail ==> after.stage == RemovalStage::Failed && then == registry
            &&& removal.stage == RemovalStage::RemovingRow && event is RowFailed ==> step is Fail
            &&& step is Ignore ==> after == removal && then == registry
            &&& removal.stage == RemovalStage::RemovingRow ==> (
            event matches RemovalEvent::RowRemoved { row } ==> after.row == Some(row.deep_view()))
        }),
{
    law_lists_take_and_leave(registry.removing, removal.id(), removal.id());
    law_lists_take_and_leave(registry.recorders, removal.id(), removal.id());
}

/// Taking a recorder into a list, or out of it, concerns that recorder alone.
pub proof fn law_lists_take_and_leave(list: Seq<Seq<char>>, id: Seq<char>, other: Seq<char>)
    ensures
        with(list, id).contains(id),
        !without(list, id).contains(id),
        other != id ==> (with(list, id).contains(other) <==> list.contains(other)) && (without(
            list,
            id,
        ).contains(other) <==> list.contains(other)),
{
    lemma_without(list, id, id);
    lemma_without(list, id, other);
    if !list.contains(id) {
        let more = list.push(id);
        assert(more[list.len() as int] == id);
        if list.contains(other) {
            let k = choose|k: int| 0 <= k < list.len() && list[k] == other;
            assert(more[k] == other);
        }
        if more.contains(other) && other != id {
            let k = choose|k: int| 0 <= k < more.len() && more[k] == other;
            assert(list[k] == other);
        }
    }
}

} // verus!
