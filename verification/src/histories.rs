//! What holds at any time, whatever has happened since the adapter was made.

use vstd::prelude::*;

use crate::dialog::{cancelled_response, response_of};
use crate::flow::{fits, AfterView, EventView, NextView, StageView, TurnOf};
use crate::json::JsonView;
use crate::laws::{
    admitted_prompts_are_bounded, after_one, books_are_right, books_balance_at_start,
    books_stay_right, books_stay_right_on_giving_up, lemma_counts_at, places, queue_is_bounded,
    queue_length, queue_stays_bounded, queue_stays_bounded_otherwise, queues_are_bounded, turns,
    turns_are_serialized,
};
use crate::pi_rpc::{PiEventView, PiView};
use crate::prompt::BlockView;
use crate::requests::RequestView;
use crate::rules::{
    asks_rightly, begin, can_show, cancel, could_see, ends_at, give_up, heard_event, indexing,
    is_look, lemma_looks_end, may_take_turn, place_in_queue, queued, requests_keep_sessions, seen,
    slash_done, sound, stage_holds, step, steps_keep_sessions, tell_pi, turn_of, turning, unheard,
    AdapterView, Step,
};

verus! {

/// An adapter and the stages of all that is under way.
pub struct Running {
    pub adapter: AdapterView,
    pub stages: Seq<StageView>,
}

/// Whether an adapter was just made: it has no sessions.
pub open spec fn is_fresh(a: AdapterView) -> bool {
    &&& a.sessions == Map::<Seq<char>, usize>::empty()
    &&& a.live.len() == 0
}

/// Whether all is in order: every id and every stage speaks of sessions that there are, the books
/// of every session are right, and no queue is longer than it may be.
pub open spec fn is_orderly(w: Running) -> bool {
    &&& sound(w.adapter)
    &&& queues_are_bounded(w.adapter)
    &&& forall|i: int|
        0 <= i < w.stages.len() ==> stage_holds(#[trigger] w.stages[i], w.adapter.live.len())
    &&& forall|session: usize|
        session < w.adapter.live.len() ==> #[trigger] books_are_right(
            w.adapter,
            w.stages,
            session,
        )
}

/// The stages with the one of something that has begun, where it is not over yet.
pub open spec fn with_next(stages: Seq<StageView>, next: NextView) -> Seq<StageView> {
    match next {
        NextView::Do(stage, _) => stages.push(stage),
        _ => stages,
    }
}

/// Something that happens to an adapter. Where looks are taken, it says what they led to.
pub enum Move {
    /// A request begins.
    Begin { request: RequestView, last: Step },
    /// What something waited for comes.
    Advance { i: int, event: EventView, last: Step },
    /// Something is given up.
    GiveUp { i: int, text: Seq<char> },
    /// A cancellation comes.
    Cancel { id: Seq<char> },
    /// Pi says something while no turn listens.
    Unheard { session: usize, event: PiEventView },
    /// A process is given a command, or says something, or ends.
    Talk { session: usize, pi: PiView },
    /// The client is gone.
    ShutDown { after: AdapterView },
}

/// Whether something can happen: an event comes where it is waited for, and a prompt takes a turn
/// that is free.
pub open spec fn can_happen(w: Running, m: Move) -> bool {
    &&& w.adapter.live.len() <= usize::MAX
    &&& match m {
        Move::Begin { request, last } => ends_at(begin(w.adapter, request), last),
        Move::Advance { i, event, last } => {
            &&& 0 <= i < w.stages.len()
            &&& fits(w.stages[i], event)
            &&& may_take_turn(w.adapter, w.stages[i])
            &&& ends_at(step(w.adapter, w.stages[i], event), last)
        },
        Move::GiveUp { i, .. } => 0 <= i < w.stages.len(),
        Move::Cancel { .. } => true,
        Move::Unheard { session, .. } => session < w.adapter.live.len(),
        Move::Talk { session, pi } => {
            &&& session < w.adapter.live.len()
            &&& pi.queued_prompts == w.adapter.live[session as int].pi.queued_prompts
        },
        Move::ShutDown { after } => {
            &&& after.config == w.adapter.config
            &&& after.sessions == Map::<Seq<char>, usize>::empty()
            &&& after.live.len() == w.adapter.live.len()
            &&& forall|n: int|
                0 <= n < after.live.len() ==> {
                    &&& (#[trigger] after.live[n]).busy == w.adapter.live[n].busy
                    &&& after.live[n].pi.queued_prompts == w.adapter.live[n].pi.queued_prompts
                }
        },
    }
}

/// What is there after something happened.
pub open spec fn moved(w: Running, m: Move) -> Running {
    match m {
        Move::Begin { request: _, last } => Running {
            adapter: last.adapter,
            stages: with_next(w.stages, last.outcome.next),
        },
        Move::Advance { i, event: _, last } => Running {
            adapter: last.adapter,
            stages: after_one(w.stages, i, last.outcome.next),
        },
        Move::GiveUp { i, text } => Running {
            adapter: give_up(w.adapter, w.stages[i], text).adapter,
            stages: w.stages.remove(i),
        },
        Move::Cancel { id } => {
            let after = cancel(w.adapter, id);
            Running {
                adapter: after.adapter,
                stages: with_next(w.stages, after.outcome.next),
            }
        },
        Move::Unheard { session, event } => {
            let after = unheard(w.adapter, session, event);
            Running {
                adapter: after.adapter,
                stages: with_next(w.stages, after.outcome.next),
            }
        },
        Move::Talk { session, pi } => Running {
            adapter: w.adapter.with_pi(session, pi),
            stages: w.stages,
        },
        Move::ShutDown { after } => Running { adapter: after, stages: w.stages },
    }
}

/// What is there after all that happened, one thing after the other.
pub open spec fn after_all(a: AdapterView, moves: Seq<Move>) -> Running
    decreases moves.len(),
{
    if moves.len() == 0 {
        Running { adapter: a, stages: Seq::empty() }
    } else {
        moved(after_all(a, moves.drop_last()), moves.last())
    }
}

/// Whether all of it can happen, one thing after the other.
pub open spec fn all_can_happen(a: AdapterView, moves: Seq<Move>) -> bool
    decreases moves.len(),
{
    moves.len() == 0 || {
        &&& all_can_happen(a, moves.drop_last())
        &&& can_happen(after_all(a, moves.drop_last()), moves.last())
    }
}

/// A stage that speaks of sessions below a count speaks of sessions below a greater one.
proof fn lemma_holds_more(stage: StageView, few: nat, many: nat)
    requires
        stage_holds(stage, few),
        few <= many,
    ensures
        stage_holds(stage, many),
{
}

/// A stage has no place and no turn in a session that it does not speak of.
proof fn lemma_none_held(stages: Seq<StageView>, count: nat, session: usize)
    requires
        session >= count,
        forall|i: int| 0 <= i < stages.len() ==> stage_holds(#[trigger] stages[i], count),
    ensures
        places(stages, session) == 0,
        turns(stages, session) == 0,
    decreases stages.len(),
{
    if stages.len() > 0 {
        let front = stages.drop_last();
        assert forall|i: int| 0 <= i < front.len() implies stage_holds(
            #[trigger] front[i],
            count,
        ) by {
            assert(front[i] == stages[i]);
        }
        lemma_none_held(front, count, session);
        assert(stage_holds(stages[stages.len() - 1], count));
        assert(place_in_queue(stages.last()) != Some(session));
    }
}

/// Whether a step adds no session.
spec fn opens_nothing(a: AdapterView, after: Step) -> bool {
    after.adapter.live.len() == a.live.len()
}

proof fn lemma_slash_opens_nothing(
    a: AdapterView,
    session: usize,
    id: Seq<char>,
    text: Seq<char>,
)
    requires
        session < a.live.len(),
    ensures
        opens_nothing(a, slash_done(a, session, id, text)),
{
}

proof fn lemma_indexing_opens_nothing(
    a: AdapterView,
    session: usize,
    after: AfterView,
    finished: Result<(), Seq<char>>,
)
    requires
        session < a.live.len(),
    ensures
        opens_nothing(a, indexing(a, session, after, finished)),
{
    if let AfterView::Slash { id, text } = after {
        lemma_slash_opens_nothing(a, session, id, text);
    }
}

proof fn lemma_heard_opens_nothing(
    a: AdapterView,
    turn: TurnOf,
    event: JsonView,
    location: Option<Seq<char>>,
    file: Option<Seq<char>>,
)
    requires
        turn.session < a.live.len(),
    ensures
        opens_nothing(a, heard_event(a, turn, event, location, file)),
{
}

proof fn lemma_tell_opens_nothing(a: AdapterView, turn: TurnOf, message: JsonView)
    requires
        turn.session < a.live.len(),
    ensures
        opens_nothing(a, tell_pi(a, turn, message)),
{
}

proof fn lemma_turning_opens_nothing(a: AdapterView, turn: TurnOf, event: EventView)
    requires
        turn.session < a.live.len(),
    ensures
        opens_nothing(a, turning(a, turn, event)),
{
    if let EventView::Heard(PiEventView::Message(value)) = event {
        lemma_tell_opens_nothing(a, turn, cancelled_response(value));
    }
}

proof fn lemma_queued_opens_nothing(
    a: AdapterView,
    session: usize,
    id: Seq<char>,
    blocks: Seq<BlockView>,
)
    requires
        session < a.live.len(),
    ensures
        opens_nothing(a, queued(a, session, id, blocks)),
{
}

proof fn lemma_prompts_open_nothing(a: AdapterView, stage: StageView, event: EventView)
    requires
        place_in_queue(stage) is Some,
        stage_holds(stage, a.live.len()),
    ensures
        opens_nothing(a, step(a, stage, event)),
{
    match (stage, event) {
        (StageView::Indexing { session, after }, EventView::Finished(finished)) => {
            lemma_indexing_opens_nothing(a, session, after, finished);
        },
        (StageView::Queued { session, id, blocks }, _) => {
            lemma_queued_opens_nothing(a, session, id, blocks);
        },
        (StageView::SlashState { session, id, text }, _) => {
            lemma_slash_opens_nothing(a, session, id, text);
        },
        (StageView::Turning(turn), _) => {
            lemma_turning_opens_nothing(a, turn, event);
        },
        (StageView::Locating { turn, event }, EventView::Location(location)) => {
            lemma_heard_opens_nothing(a, turn, event, location, None);
        },
        (StageView::Reading { turn, event, location }, EventView::File(file)) => {
            lemma_heard_opens_nothing(a, turn, event, location, file);
        },
        (StageView::Asked { turn, question }, EventView::Replied(answer)) => {
            lemma_tell_opens_nothing(a, turn, response_of(question, answer));
        },
        _ => {},
    }
}

proof fn lemma_others_open_nothing(a: AdapterView, stage: StageView, event: EventView)
    requires
        place_in_queue(stage) is None,
        !(stage is Checking),
        stage_holds(stage, a.live.len()),
    ensures
        opens_nothing(a, step(a, stage, event)),
{
    if let (StageView::Indexing { session, after }, EventView::Finished(finished)) = (
        stage,
        event,
    ) {
        lemma_indexing_opens_nothing(a, session, after, finished);
    }
}

/// Only where a working directory was looked at is a session added. No prompt is queued for it,
/// and its turn is free.
proof fn lemma_opened(a: AdapterView, stage: StageView, event: EventView)
    requires
        fits(stage, event),
        stage_holds(stage, a.live.len()),
    ensures
        ({
            let after = step(a, stage, event);
            ||| after.adapter.live.len() == a.live.len()
            ||| {
                &&& after.adapter.live.len() == a.live.len() + 1
                &&& after.adapter.live.last().pi.queued_prompts == 0
                &&& !after.adapter.live.last().busy
                &&& stage is Checking
                &&& after.outcome.next matches NextView::Do(next, action)
                &&& next is Starting
                &&& !is_look(action)
            }
        }),
{
    if place_in_queue(stage) is Some {
        lemma_prompts_open_nothing(a, stage, event);
    } else if !(stage is Checking) {
        lemma_others_open_nothing(a, stage, event);
    }
}

/// Where all is in order, the books of every session are right after a step, those of a session
/// that it has just added too.
pub proof fn books_are_right_at_each_step(w: Running, i: int, event: EventView)
    requires
        is_orderly(w),
        w.adapter.live.len() <= usize::MAX,
        0 <= i < w.stages.len(),
        fits(w.stages[i], event),
        may_take_turn(w.adapter, w.stages[i]),
    ensures
        ({
            let after = step(w.adapter, w.stages[i], event);
            &&& is_orderly(
                Running {
                    adapter: after.adapter,
                    stages: after_one(w.stages, i, after.outcome.next),
                },
            )
            &&& after.adapter.config == w.adapter.config
        }),
{
    let a = w.adapter;
    let after = step(a, w.stages[i], event);
    let b = after.adapter;
    let stages = after_one(w.stages, i, after.outcome.next);
    assert(stage_holds(w.stages[i], a.live.len()));
    steps_keep_sessions(a, w.stages[i], event);
    queue_stays_bounded(a, w.stages[i], event);
    lemma_opened(a, w.stages[i], event);
    assert forall|j: int| 0 <= j < stages.len() implies stage_holds(
        #[trigger] stages[j],
        b.live.len(),
    ) by {
        if let NextView::Do(next, _) = after.outcome.next {
            if j == i {
                assert(stages[j] == next);
            } else {
                assert(stages[j] == w.stages[j]);
                lemma_holds_more(w.stages[j], a.live.len(), b.live.len());
            }
        } else {
            let k = if j < i {
                j
            } else {
                j + 1
            };
            assert(stages[j] == w.stages[k]);
            lemma_holds_more(w.stages[k], a.live.len(), b.live.len());
        }
    }
    assert forall|session: usize| session < b.live.len() implies #[trigger] books_are_right(
        b,
        stages,
        session,
    ) by {
        if session < a.live.len() {
            assert(books_are_right(a, w.stages, session));
            books_stay_right(a, w.stages, i, event, session);
        } else {
            lemma_none_held(w.stages, a.live.len(), session);
            lemma_counts_at(w.stages, i, session);
            lemma_counts_at(stages, i, session);
            assert(stages.remove(i) =~= w.stages.remove(i));
            assert(b.live[session as int] == b.live.last());
        }
    }
}

/// The looks that a step asks for keep all in order.
proof fn lemma_looks_keep_order(
    stages: Seq<StageView>,
    i: int,
    first: Step,
    shown: Seq<EventView>,
)
    requires
        0 <= i < stages.len(),
        is_orderly(
            Running {
                adapter: first.adapter,
                stages: after_one(stages, i, first.outcome.next),
            },
        ),
        asks_rightly(first.outcome.next),
        first.outcome.next matches NextView::Do(_, action) && is_look(action)
            ==> first.adapter.live.len() <= usize::MAX,
        could_see(first, shown),
    ensures
        ({
            let last = seen(first, shown);
            &&& is_orderly(
                Running {
                    adapter: last.adapter,
                    stages: after_one(stages, i, last.outcome.next),
                },
            )
            &&& last.adapter.config == first.adapter.config
        }),
    decreases shown.len(),
{
    if let NextView::Do(stage, action) = first.outcome.next {
        if is_look(action) {
            let a = first.adapter;
            let event = shown.first();
            let now = stages.update(i, stage);
            assert(now[i] == stage);
            assert(can_show(a, stage, event));
            books_are_right_at_each_step(Running { adapter: a, stages: now }, i, event);
            lemma_looks_end(a, stage, action, event);
            assert(stage_holds(now[i], a.live.len()));
            lemma_opened(a, stage, event);
            let next = step(a, stage, event);
            assert(after_one(now, i, next.outcome.next) =~= after_one(
                stages,
                i,
                next.outcome.next,
            ));
            lemma_looks_keep_order(stages, i, next, shown.drop_first());
        }
    }
}

/// Where all is in order, the books of every session are right after a request has begun, with
/// the stage that it is at now among the others.
pub proof fn books_are_right_at_start(w: Running, request: RequestView)
    requires
        is_orderly(w),
    ensures
        ({
            let after = begin(w.adapter, request);
            &&& is_orderly(
                Running {
                    adapter: after.adapter,
                    stages: with_next(w.stages, after.outcome.next),
                },
            )
            &&& after.adapter.config == w.adapter.config
            &&& after.adapter.live.len() == w.adapter.live.len()
        }),
{
    let a = w.adapter;
    let after = begin(a, request);
    let b = after.adapter;
    let stages = with_next(w.stages, after.outcome.next);
    requests_keep_sessions(a, request);
    queue_is_bounded(a, request);
    assert forall|j: int| 0 <= j < stages.len() implies stage_holds(
        #[trigger] stages[j],
        b.live.len(),
    ) by {
        if j < w.stages.len() {
            assert(stages[j] == w.stages[j]);
            lemma_holds_more(w.stages[j], a.live.len(), b.live.len());
        }
    }
    assert forall|session: usize| session < b.live.len() implies #[trigger] books_are_right(
        b,
        stages,
        session,
    ) by {
        assert(books_are_right(a, w.stages, session));
        books_balance_at_start(a, request, session);
        if let NextView::Do(stage, _) = after.outcome.next {
            assert(stages.drop_last() =~= w.stages);
        }
    }
}

/// Where all is in order, the books of every session are right after a cancellation, and after Pi
/// has said something while no turn listens.
pub proof fn books_are_right_otherwise(
    w: Running,
    id: Seq<char>,
    session: usize,
    event: PiEventView,
)
    requires
        is_orderly(w),
        session < w.adapter.live.len(),
    ensures
        is_orderly(moved(w, Move::Cancel { id })),
        moved(w, Move::Cancel { id }).adapter.config == w.adapter.config,
        is_orderly(moved(w, Move::Unheard { session, event })),
        moved(w, Move::Unheard { session, event }).adapter.config == w.adapter.config,
{
    lemma_cancel_keeps_order(w, id);
    lemma_added_keeps_order(w, w.adapter, unheard(w.adapter, session, event).outcome.next);
}

/// Something without a place in a queue that is begun keeps all in order, where no queue and no
/// turn changes.
proof fn lemma_added_keeps_order(w: Running, b: AdapterView, next: NextView)
    requires
        is_orderly(w),
        sound(b),
        b.config == w.adapter.config,
        b.live.len() == w.adapter.live.len(),
        forall|n: int|
            0 <= n < b.live.len() ==> {
                &&& (#[trigger] b.live[n]).busy == w.adapter.live[n].busy
                &&& b.live[n].pi.queued_prompts == w.adapter.live[n].pi.queued_prompts
            },
        next matches NextView::Do(stage, _) ==> place_in_queue(stage) is None && stage_holds(
            stage,
            b.live.len(),
        ),
    ensures
        is_orderly(Running { adapter: b, stages: with_next(w.stages, next) }),
{
    let a = w.adapter;
    let stages = with_next(w.stages, next);
    assert(queues_are_bounded(b)) by {
        assert forall|n: int| 0 <= n < b.live.len() implies (
        #[trigger] b.live[n]).pi.queued_prompts <= b.config.max_queued_prompts by {
            assert(a.live[n].pi.queued_prompts <= a.config.max_queued_prompts);
        }
    }
    assert forall|j: int| 0 <= j < stages.len() implies stage_holds(
        #[trigger] stages[j],
        b.live.len(),
    ) by {
        if j < w.stages.len() {
            assert(stages[j] == w.stages[j]);
        }
    }
    assert forall|session: usize| session < b.live.len() implies #[trigger] books_are_right(
        b,
        stages,
        session,
    ) by {
        assert(books_are_right(a, w.stages, session));
        assert(b.live[session as int].busy == a.live[session as int].busy);
        if let NextView::Do(stage, _) = next {
            assert(stages.drop_last() =~= w.stages);
        }
    }
}

proof fn lemma_cancel_keeps_order(w: Running, id: Seq<char>)
    requires
        is_orderly(w),
    ensures
        is_orderly(moved(w, Move::Cancel { id })),
        moved(w, Move::Cancel { id }).adapter.config == w.adapter.config,
{
    let after = cancel(w.adapter, id);
    lemma_added_keeps_order(w, after.adapter, after.outcome.next);
}

proof fn lemma_giving_up_keeps_order(w: Running, i: int, text: Seq<char>)
    requires
        is_orderly(w),
        0 <= i < w.stages.len(),
    ensures
        is_orderly(moved(w, Move::GiveUp { i, text })),
        moved(w, Move::GiveUp { i, text }).adapter.config == w.adapter.config,
{
    let a = w.adapter;
    let b = give_up(a, w.stages[i], text).adapter;
    let stages = w.stages.remove(i);
    assert(stage_holds(w.stages[i], a.live.len()));
    assert(b.live.len() == a.live.len());
    assert(b.sessions == a.sessions);
    lemma_bound_on_giving_up(a, w.stages[i], text);
    assert forall|j: int| 0 <= j < stages.len() implies stage_holds(
        #[trigger] stages[j],
        b.live.len(),
    ) by {
        let k = if j < i {
            j
        } else {
            j + 1
        };
        assert(stages[j] == w.stages[k]);
    }
    assert forall|session: usize| session < b.live.len() implies #[trigger] books_are_right(
        b,
        stages,
        session,
    ) by {
        assert(books_are_right(a, w.stages, session));
        books_stay_right_on_giving_up(a, w.stages, i, text, session);
    }
}

proof fn lemma_bound_on_giving_up(a: AdapterView, stage: StageView, text: Seq<char>)
    requires
        sound(a),
        stage_holds(stage, a.live.len()),
        queues_are_bounded(a),
    ensures
        queues_are_bounded(give_up(a, stage, text).adapter),
        give_up(a, stage, text).adapter.config == a.config,
{
    if a.live.len() > 0 {
        queue_stays_bounded_otherwise(a, stage, text, Seq::empty(), 0, a.live[0].pi);
    }
}

/// Whatever can happen keeps all in order.
pub proof fn order_is_kept(w: Running, m: Move)
    requires
        is_orderly(w),
        can_happen(w, m),
    ensures
        is_orderly(moved(w, m)),
        moved(w, m).adapter.config == w.adapter.config,
{
    let a = w.adapter;
    match m {
        Move::Begin { request, last } => {
            let first = begin(a, request);
            books_are_right_at_start(w, request);
            requests_keep_sessions(a, request);
            let shown = choose|shown: Seq<EventView>| #[trigger]
                could_see(first, shown) && seen(first, shown) == last;
            let n = w.stages.len() as int;
            let room = w.stages.push(StageView::Closing);
            lemma_room(w.stages, first.outcome.next);
            lemma_room(w.stages, last.outcome.next);
            lemma_looks_keep_order(room, n, first, shown);
        },
        Move::Advance { i, event, last } => {
            let first = step(a, w.stages[i], event);
            books_are_right_at_each_step(w, i, event);
            assert(stage_holds(w.stages[i], a.live.len()));
            steps_keep_sessions(a, w.stages[i], event);
            lemma_opened(a, w.stages[i], event);
            let shown = choose|shown: Seq<EventView>| #[trigger]
                could_see(first, shown) && seen(first, shown) == last;
            lemma_looks_keep_order(w.stages, i, first, shown);
        },
        Move::GiveUp { i, text } => {
            lemma_giving_up_keeps_order(w, i, text);
        },
        Move::Cancel { id } => {
            lemma_cancel_keeps_order(w, id);
        },
        Move::Unheard { session, event } => {
            books_are_right_otherwise(w, Seq::empty(), session, event);
        },
        Move::Talk { session, pi } => {
            lemma_added_keeps_order(w, a.with_pi(session, pi), NextView::Done);
        },
        Move::ShutDown { after } => {
            lemma_added_keeps_order(w, after, NextView::Done);
        },
    }
}

/// A stage that is added is one that takes the last place.
proof fn lemma_room(stages: Seq<StageView>, next: NextView)
    ensures
        after_one(stages.push(StageView::Closing), stages.len() as int, next) == with_next(
            stages,
            next,
        ),
{
    let room = stages.push(StageView::Closing);
    assert(after_one(room, stages.len() as int, next) =~= with_next(stages, next));
}

/// Whatever has happened since an adapter was made, all is in order.
pub proof fn always_orderly(a: AdapterView, moves: Seq<Move>)
    requires
        is_fresh(a),
        all_can_happen(a, moves),
    ensures
        is_orderly(after_all(a, moves)),
        after_all(a, moves).adapter.config == a.config,
    decreases moves.len(),
{
    if moves.len() > 0 {
        always_orderly(a, moves.drop_last());
        order_is_kept(after_all(a, moves.drop_last()), moves.last());
    }
}

/// At any time since an adapter was made, the prompts that are queued for a session are just those
/// that are under way and have a place: one that is over, however it ended, has left no trace. No
/// more of them have a place than may have one, and at most one of them has the turn.
pub proof fn prompts_are_always_bounded(a: AdapterView, moves: Seq<Move>, session: usize)
    requires
        is_fresh(a),
        all_can_happen(a, moves),
        session < after_all(a, moves).adapter.live.len(),
    ensures
        ({
            let now = after_all(a, moves);
            &&& queue_length(now.adapter, session) == places(now.stages, session)
            &&& places(now.stages, session) <= a.config.max_queued_prompts
            &&& turns(now.stages, session) <= 1
        }),
        forall|i: int, j: int|
            #![trigger turn_of(after_all(a, moves).stages[i]), turn_of(
                after_all(a, moves).stages[j],
            )]
            0 <= i < j < after_all(a, moves).stages.len() ==> !(turn_of(
                after_all(a, moves).stages[i],
            ) == Some(session) && turn_of(after_all(a, moves).stages[j]) == Some(session)),
{
    let now = after_all(a, moves);
    always_orderly(a, moves);
    assert(books_are_right(now.adapter, now.stages, session));
    admitted_prompts_are_bounded(now.adapter, now.stages, session);
    assert forall|i: int, j: int|
        #![trigger turn_of(now.stages[i]), turn_of(now.stages[j])]
        0 <= i < j < now.stages.len() implies !(turn_of(now.stages[i]) == Some(session)
        && turn_of(now.stages[j]) == Some(session)) by {
        turns_are_serialized(now.adapter, now.stages, i, j, session);
    }
}

/// The queue of a session is as long as before once all that took a place since then is over.
pub proof fn places_come_back(a: AdapterView, moves: Seq<Move>, more: Seq<Move>, session: usize)
    requires
        is_fresh(a),
        all_can_happen(a, moves),
        all_can_happen(a, more),
        session < after_all(a, moves).adapter.live.len(),
        session < after_all(a, more).adapter.live.len(),
        places(after_all(a, moves).stages, session) == places(after_all(a, more).stages, session),
    ensures
        queue_length(after_all(a, moves).adapter, session) == queue_length(
            after_all(a, more).adapter,
            session,
        ),
{
    prompts_are_always_bounded(a, moves, session);
    prompts_are_always_bounded(a, more, session);
}

} // verus!
