//! Finding the session of an ended live: what is asked in which order before it is given up.
use vstd::prelude::*;
use crate::manager;
use crate::text;

verus! {

/// How far the search for a session has come.
#[derive(Clone, Copy, Debug, PartialEq, Eq, Structural)]
pub enum ResolveStage {
    Ready,
    /// The database is asked.
    Querying,
    /// Whether the cache is being moved is looked up.
    CheckingMigration,
    /// Other searches that reconcile recordings are waited for.
    Waiting,
    /// The database is asked again: another search may have reconciled the recordings.
    Rechecking,
    /// The recordings in the cache are reconciled with the database.
    Reconciling,
    /// The database is asked for what was reconciled.
    Requerying,
    /// The cache is searched for media of the session.
    Searching,
    Over,
}

/// What happened while the session of an ended live is searched for.
pub enum ResolveEvent {
    Started,
    /// The database has a recording of the session.
    Found { parent_id: String },
    NotFound,
    QueryFailed { error: String },
    Migration { running: bool },
    Locked,
    Reconciled,
    ReconcileFailed { error: String },
    Searched { has_media: bool },
    SearchFailed { error: String },
}

/// What is done next to find the session of an ended live.
pub enum ResolveAction {
    Query,
    CheckMigration,
    /// Wait until no other search reconciles recordings, and keep others from it until this one is
    /// over.
    Lock,
    Reconcile,
    /// Search the cache for media of a session.
    Search { session_id: String },
    /// The session, none where there is none, or why it could not be told.
    Answer { result: Result<Option<String>, String> },
    /// The event is not one that was waited for.
    Ignore,
}

/// The search for the session of a live that ended in a room.
pub struct ParentSearch {
    pub room_id: String,
    pub platform_live_id: String,
    pub stage: ResolveStage,
}

/// The model of a search.
#[verifier::ext_equal]
pub struct SearchView {
    pub room_id: Seq<char>,
    pub platform_live_id: Seq<char>,
    pub stage: ResolveStage,
}

impl DeepView for ParentSearch {
    type V = SearchView;

    open spec fn deep_view(&self) -> SearchView {
        SearchView {
            room_id: self.room_id@,
            platform_live_id: self.platform_live_id@,
            stage: self.stage,
        }
    }
}

/// The answer where asking the database failed.
pub open spec fn query_failure(stage: ResolveStage, room_id: Seq<char>, error: Seq<char>) -> Seq<
    char,
> {
    (match stage {
        ResolveStage::Querying => "failed to query ended Douyin archives for room "@,
        ResolveStage::Rechecking => "failed to re-query ended Douyin archives for room "@,
        _ => "failed to query reconciled Douyin archives for room "@,
    }) + room_id + ": "@ + error
}

/// Whether the database is asked at a stage.
pub open spec fn is_query(stage: ResolveStage) -> bool {
    stage == ResolveStage::Querying || stage == ResolveStage::Rechecking || stage
        == ResolveStage::Requerying
}

/// Whether an action is to answer with a failure.
pub open spec fn is_refusal(action: ResolveAction, message: Seq<char>) -> bool {
    action matches ResolveAction::Answer { result: Err(m) } && m@ == message
}

impl SearchView {
    /// The state after an event. An event that was not waited for changes nothing.
    pub open spec fn after(self, event: ResolveEvent) -> SearchView {
        let stage = match (self.stage, event) {
            (ResolveStage::Ready, ResolveEvent::Started) => ResolveStage::Querying,
            (s, ResolveEvent::Found { parent_id }) => if is_query(s) {
                ResolveStage::Over
            } else {
                s
            },
            (s, ResolveEvent::QueryFailed { error }) => if is_query(s) {
                ResolveStage::Over
            } else {
                s
            },
            (ResolveStage::Querying, ResolveEvent::NotFound) => ResolveStage::CheckingMigration,
            (ResolveStage::CheckingMigration, ResolveEvent::Migration { running }) => if running {
                ResolveStage::Over
            } else {
                ResolveStage::Waiting
            },
            (ResolveStage::Waiting, ResolveEvent::Locked) => ResolveStage::Rechecking,
            (ResolveStage::Rechecking, ResolveEvent::NotFound) => ResolveStage::Reconciling,
            (ResolveStage::Reconciling, ResolveEvent::Reconciled) => ResolveStage::Requerying,
            (ResolveStage::Reconciling, ResolveEvent::ReconcileFailed { error }) =>
                ResolveStage::Over,
            (ResolveStage::Requerying, ResolveEvent::NotFound) => ResolveStage::Searching,
            (ResolveStage::Searching, ResolveEvent::Searched { has_media }) => ResolveStage::Over,
            (ResolveStage::Searching, ResolveEvent::SearchFailed { error }) => ResolveStage::Over,
            (s, _) => s,
        };
        SearchView { stage, ..self }
    }

    /// Whether an action is the one that follows an event. Media without a recording is a failure,
    /// so that its session is not given up.
    pub open spec fn is_action_for(self, event: ResolveEvent, action: ResolveAction) -> bool {
        match (self.stage, event) {
            (ResolveStage::Ready, ResolveEvent::Started) => action is Query,
            (s, ResolveEvent::Found { parent_id }) => if is_query(s) {
                action matches ResolveAction::Answer { result: Ok(Some(p)) } && p@ == parent_id@
            } else {
                action is Ignore
            },
            (s, ResolveEvent::QueryFailed { error }) => if is_query(s) {
                is_refusal(action, query_failure(s, self.room_id, error@))
            } else {
                action is Ignore
            },
            (ResolveStage::Querying, ResolveEvent::NotFound) => action is CheckMigration,
            (ResolveStage::CheckingMigration, ResolveEvent::Migration { running }) => if running {
                is_refusal(action, "cache migration is still in progress"@)
            } else {
                action is Lock
            },
            (ResolveStage::Waiting, ResolveEvent::Locked) => action is Query,
            (ResolveStage::Rechecking, ResolveEvent::NotFound) => action is Reconcile,
            (ResolveStage::Reconciling, ResolveEvent::Reconciled) => action is Query,
            (ResolveStage::Reconciling, ResolveEvent::ReconcileFailed { error }) => is_refusal(
                action,
                "failed to reconcile Douyin archive cache for room "@ + self.room_id + ": "@
                    + error@,
            ),
            (ResolveStage::Requerying, ResolveEvent::NotFound) =>
                action matches ResolveAction::Search { session_id } && session_id@ == text::trimmed(
                self.platform_live_id,
            ),
            (ResolveStage::Searching, ResolveEvent::Searched { has_media }) => if has_media {
                is_refusal(
                    action,
                    "Douyin cache still contains media for session "@ + text::trimmed(
                        self.platform_live_id,
                    ) + ", but no usable database archive was reconciled"@,
                )
            } else {
                action matches ResolveAction::Answer { result: Ok(None) }
            },
            (ResolveStage::Searching, ResolveEvent::SearchFailed { error }) => is_refusal(
                action,
                "failed to inspect Douyin cache for room "@ + self.room_id + ": "@ + error@,
            ),
            _ => action is Ignore,
        }
    }
}

/// A search after events, one after the other.
pub open spec fn search_over(search: SearchView, events: Seq<ResolveEvent>) -> SearchView
    decreases events.len(),
{
    if events.len() == 0 {
        search
    } else {
        search_over(search, events.drop_last()).after(events.last())
    }
}

/// Whether an event is the one at a place among those that must happen before a session is given
/// up: it is not in the database, the cache is not being moved, no other search reconciles, it is
/// still not in the database, the recordings are reconciled, and it is not in the database then.
pub open spec fn is_milestone(k: int, event: ResolveEvent) -> bool {
    if k == 1 {
        event matches ResolveEvent::Migration { running } && !running
    } else if k == 2 {
        event is Locked
    } else if k == 4 {
        event is Reconciled
    } else {
        event is NotFound
    }
}

/// Whether the first `n` of those events happened, in their order, at these positions.
pub open spec fn is_trail(events: Seq<ResolveEvent>, at: Seq<int>, n: int) -> bool {
    &&& at.len() == n
    &&& forall|k: int|
        0 <= k < n ==> 0 <= #[trigger] at[k] < events.len() && is_milestone(k, events[at[k]])
    &&& forall|j: int, k: int|
        #![trigger at[j], at[k]]
        0 <= j < k < n ==> at[j] < at[k]
}

spec fn passed(stage: ResolveStage) -> int {
    match stage {
        ResolveStage::CheckingMigration => 1,
        ResolveStage::Waiting => 2,
        ResolveStage::Rechecking => 3,
        ResolveStage::Reconciling => 4,
        ResolveStage::Requerying => 5,
        ResolveStage::Searching => 6,
        _ => 0,
    }
}

proof fn lemma_trail(search: SearchView, events: Seq<ResolveEvent>) -> (at: Seq<int>)
    requires
        search.stage == ResolveStage::Ready,
    ensures
        is_trail(events, at, passed(search_over(search, events).stage)),
    decreases events.len(),
{
    if events.len() == 0 {
        Seq::empty()
    } else {
        let before = events.drop_last();
        let old = lemma_trail(search, before);
        let from = search_over(search, before).stage;
        let to = search_over(search, events).stage;
        if passed(to) == 0 {
            Seq::empty()
        } else if passed(to) == passed(from) {
            assert forall|k: int| 0 <= k < passed(to) implies 0 <= #[trigger] old[k] < events.len()
                && is_milestone(k, events[old[k]]) by {
                assert(events[old[k]] == before[old[k]]);
            }
            old
        } else {
            let at = old.push(events.len() - 1);
            assert(passed(to) == passed(from) + 1);
            assert forall|k: int| 0 <= k < passed(to) implies 0 <= #[trigger] at[k] < events.len()
                && is_milestone(k, events[at[k]]) by {
                if k < passed(from) {
                    assert(at[k] == old[k]);
                    assert(events[old[k]] == before[old[k]]);
                } else {
                    assert(events[at[k]] == events.last());
                }
            }
            at
        }
    }
}

/// That a live has no session is answered only after the database did not have it, did not have it
/// when no other search was under way, and still did not have it after the recordings were
/// reconciled; and after a search of the cache found no media of it.
pub proof fn law_a_session_is_given_up_last(
    search: SearchView,
    events: Seq<ResolveEvent>,
    event: ResolveEvent,
    action: ResolveAction,
)
    requires
        search.stage == ResolveStage::Ready,
        search_over(search, events).is_action_for(event, action),
        action matches ResolveAction::Answer { result: Ok(None) },
    ensures
        exists|at: Seq<int>| is_trail(events, at, 6),
        event matches ResolveEvent::Searched { has_media } && !has_media,
{
    let at = lemma_trail(search, events);
    assert(search_over(search, events).stage == ResolveStage::Searching);
    assert(is_trail(events, at, 6));
}

/// A search answers once: when it is over, nothing follows.
pub proof fn law_a_search_answers_once(
    search: SearchView,
    event: ResolveEvent,
    action: ResolveAction,
)
    requires
        search.is_action_for(event, action),
    ensures
        action is Answer ==> search.after(event).stage == ResolveStage::Over,
        search.stage == ResolveStage::Over ==> action is Ignore && search.after(event) == search,
{
}

fn refusal(what: &str, room_id: &str, error: &str) -> (res: ResolveAction)
    ensures
        is_refusal(res, what@ + room_id@ + ": "@ + error@),
{
    let mut message = text::copy(what);
    message.append(room_id);
    message.append(": ");
    message.append(error);
    ResolveAction::Answer { result: Err(message) }
}

impl ParentSearch {
    /// A search that has not begun.
    pub fn new(room_id: &str, platform_live_id: &str) -> (res: Self)
        ensures
            res.deep_view() == (SearchView {
                room_id: room_id@,
                platform_live_id: platform_live_id@,
                stage: ResolveStage::Ready,
            }),
    {
        ParentSearch {
            room_id: text::copy(room_id),
            platform_live_id: text::copy(platform_live_id),
            stage: ResolveStage::Ready,
        }
    }

    fn fail(&mut self, what: &str, error: &str) -> (res: ResolveAction)
        ensures
            final(self).deep_view() == (SearchView {
                stage: ResolveStage::Over,
                ..old(self).deep_view()
            }),
            is_refusal(res, what@ + old(self).room_id@ + ": "@ + error@),
    {
        self.stage = ResolveStage::Over;
        refusal(what, self.room_id.as_str(), error)
    }

    fn found(&mut self, parent_id: String) -> (res: ResolveAction)
        ensures
            final(self).deep_view() == (SearchView {
                stage: ResolveStage::Over,
                ..old(self).deep_view()
            }),
            res matches ResolveAction::Answer { result: Ok(Some(p)) } && p@ == parent_id@,
    {
        self.stage = ResolveStage::Over;
        ResolveAction::Answer { result: Ok(Some(parent_id)) }
    }

    /// What is done next to find the session of an ended live.
    pub fn resolve_douyin_live_end_parent(&mut self, event: ResolveEvent) -> (res: ResolveAction)
        ensures
            final(self).deep_view() == old(self).deep_view().after(event),
            old(self).deep_view().is_action_for(event, res),
    {
        match (self.stage, event) {
            (ResolveStage::Ready, ResolveEvent::Started) => {
                self.stage = ResolveStage::Querying;
                ResolveAction::Query
            },
            (ResolveStage::Querying, ResolveEvent::Found { parent_id }) => self.found(parent_id),
            (ResolveStage::Rechecking, ResolveEvent::Found { parent_id }) => self.found(parent_id),
            (ResolveStage::Requerying, ResolveEvent::Found { parent_id }) => self.found(parent_id),
            (ResolveStage::Querying, ResolveEvent::QueryFailed { error }) => self.fail(
                "failed to query ended Douyin archives for room ",
                error.as_str(),
            ),
            (ResolveStage::Rechecking, ResolveEvent::QueryFailed { error }) => self.fail(
                "failed to re-query ended Douyin archives for room ",
                error.as_str(),
            ),
            (ResolveStage::Requerying, ResolveEvent::QueryFailed { error }) => self.fail(
                "failed to query reconciled Douyin archives for room ",
                error.as_str(),
            ),
            (ResolveStage::Querying, ResolveEvent::NotFound) => {
                self.stage = ResolveStage::CheckingMigration;
                ResolveAction::CheckMigration
            },
            (ResolveStage::CheckingMigration, ResolveEvent::Migration { running }) => {
                if running {
                    self.stage = ResolveStage::Over;
                    ResolveAction::Answer {
                        result: Err(text::copy("cache migration is still in progress")),
                    }
                } else {
                    self.stage = ResolveStage::Waiting;
                    ResolveAction::Lock
                }
            },
            (ResolveStage::Waiting, ResolveEvent::Locked) => {
                self.stage = ResolveStage::Rechecking;
                ResolveAction::Query
            },
            (ResolveStage::Rechecking, ResolveEvent::NotFound) => {
                self.stage = ResolveStage::Reconciling;
                ResolveAction::Reconcile
            },
            (ResolveStage::Reconciling, ResolveEvent::Reconciled) => {
                self.stage = ResolveStage::Requerying;
                ResolveAction::Query
            },
            (ResolveStage::Reconciling, ResolveEvent::ReconcileFailed { error }) =>
                self.fail(
                "failed to reconcile Douyin archive cache for room ",
                error.as_str(),
            ),
            (ResolveStage::Requerying, ResolveEvent::NotFound) => {
                self.stage = ResolveStage::Searching;
                ResolveAction::Search { session_id: text::trim(self.platform_live_id.as_str()) }
            },
            (ResolveStage::Searching, ResolveEvent::Searched { has_media }) => {
                self.stage = ResolveStage::Over;
                if has_media {
                    let session_id = text::trim(self.platform_live_id.as_str());
                    let mut message = manager::labelled(
                        "Douyin cache still contains media for session ",
                        session_id.as_str(),
                    );
                    message.append(", but no usable database archive was reconciled");
                    ResolveAction::Answer { result: Err(message) }
                } else {
                    ResolveAction::Answer { result: Ok(None) }
                }
            },
            (ResolveStage::Searching, ResolveEvent::SearchFailed { error }) => self.fail(
                "failed to inspect Douyin cache for room ",
                error.as_str(),
            ),
            (_, _) => ResolveAction::Ignore,
        }
    }
}

/// A session that is found is answered at once, wherever it is found; a query that fails is answered
/// with its reason. A search that finds nothing goes on: it asks whether files are being moved, waits
/// its turn, looks again, has the room reconciled, looks once more, and then searches the disk for the
/// session.
pub proof fn law_a_search_goes_on_until_it_finds(
    search: SearchView,
    event: ResolveEvent,
    action: ResolveAction,
)
    requires
        search.is_action_for(event, action),
    ensures
        ({
            let after = search.after(event);
            let asking = search.stage == ResolveStage::Querying || search.stage
                == ResolveStage::Rechecking || search.stage == ResolveStage::Requerying;
            &&& after.room_id == search.room_id && after.platform_live_id == search.platform_live_id
            &&& asking ==> (event matches ResolveEvent::Found { parent_id } ==> after.stage
                == ResolveStage::Over && (action matches ResolveAction::Answer {
                result: Ok(Some(p)),
            } && p@ == parent_id@))
            &&& asking ==> (event matches ResolveEvent::QueryFailed { error } ==> after.stage
                == ResolveStage::Over && (action matches ResolveAction::Answer { result: Err(m) }
                && text::ends(m@, error@)))
            &&& !asking && (event is Found || event is QueryFailed) ==> action is Ignore && after
                == search
            &&& search.stage == ResolveStage::Ready && event is Started ==> action is Query
                && after.stage == ResolveStage::Querying
            &&& search.stage == ResolveStage::Querying && event is NotFound ==> action
                is CheckMigration && after.stage == ResolveStage::CheckingMigration
            &&& search.stage == ResolveStage::Waiting && event is Locked ==> action is Query
                && after.stage == ResolveStage::Rechecking
            &&& search.stage == ResolveStage::Rechecking && event is NotFound ==> action
                is Reconcile && after.stage == ResolveStage::Reconciling
            &&& search.stage == ResolveStage::Reconciling && event is Reconciled ==> action is Query
                && after.stage == ResolveStage::Requerying
            &&& search.stage == ResolveStage::Requerying && event is NotFound ==> after.stage
                == ResolveStage::Searching && (action matches ResolveAction::Search { session_id }
                && session_id@ == text::trimmed(search.platform_live_id))
            &&& action is Ignore ==> after == search
        }),
{
    if let ResolveEvent::QueryFailed { error } = event {
        if is_query(search.stage) {
            let m = query_failure(search.stage, search.room_id, error@);
            assert(m.skip(m.len() - error@.len()) =~= error@);
        }
    }
}

/// A session is refused while files are being moved, and where the disk still holds media of it that no
/// row tells of; only where the disk holds none is it given up. Every failure on the way is a refusal.
pub proof fn law_a_session_with_media_is_not_given_up(
    search: SearchView,
    event: ResolveEvent,
    action: ResolveAction,
)
    requires
        search.is_action_for(event, action),
    ensures
        search.stage == ResolveStage::CheckingMigration ==> (event matches ResolveEvent::Migration {
            running,
        } ==> if running {
            action matches ResolveAction::Answer { result: Err(m) }
        } else {
            action is Lock && search.after(event).stage == ResolveStage::Waiting
        }),
        search.stage == ResolveStage::Searching ==> (event matches ResolveEvent::Searched {
            has_media,
        } ==> if has_media {
            action matches ResolveAction::Answer { result: Err(m) }
        } else {
            action matches ResolveAction::Answer { result: Ok(None) }
        }),
        search.stage == ResolveStage::Searching && event is SearchFailed ==> (
        action matches ResolveAction::Answer { result: Err(m) }),
        search.stage == ResolveStage::Reconciling && event is ReconcileFailed ==> (
        action matches ResolveAction::Answer { result: Err(m) }),
        (action matches ResolveAction::Answer { result: Ok(None) }) ==> search.stage
            == ResolveStage::Searching && event is Searched && !event->has_media,
{
}

} // verus!
