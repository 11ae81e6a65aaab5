//! What holds of requests as a whole.

use vstd::prelude::*;

use crate::acp::{internal, ErrorView};
use crate::dialog::{
    asked, cancelled_response, is_question, response_of, waits,
};
use crate::flow::{
    ask, fits, ActionView, AfterView, EventView, GoalView, MessageView, NextView, OpeningView,
    OutcomeView, StageView, TurnOf,
};
use crate::json::JsonView;
use crate::paths::is_plain;
use crate::pi_rpc::{message_record, plain_command, PiEventView, PiView};
use crate::prompt::{prompt_of, BlockView};
use crate::replies::{prompted_json, updates_told};
use crate::requests::RequestView;
use crate::rules::{
    as_updates, begin, can_show, cancel, clone_state, give_up, heard_event, indexing, is_idle,
    known_question, may_settle, may_take_turn, place_in_queue, proceed, prompt_done, prompt_failed,
    queued, replaying, running, settles, slash_done, sound, stage_holds, step, tell_pi, turn_of,
    turn_timeout, turning, unheard, AdapterView, Step,
};
use crate::text::decimal;
use crate::translate::{accepted, event_outcome, history_bodies, outcome_updates};

verus! {

/// One where a request has a place in the queue of a session, else zero.
pub open spec fn in_queue(next: NextView, session: usize) -> int {
    match next {
        NextView::Do(stage, _) => one_if(place_in_queue(stage), session),
        _ => 0,
    }
}

/// One where a request has the turn of a session, else zero.
pub open spec fn in_turn(next: NextView, session: usize) -> int {
    match next {
        NextView::Do(stage, _) => one_if(turn_of(stage), session),
        _ => 0,
    }
}

/// How many prompts are queued for a session.
pub open spec fn queue_length(a: AdapterView, session: usize) -> int {
    a.live[session as int].pi.queued_prompts as int
}

/// One where the turn of a session is taken, else zero.
pub open spec fn turns_taken(a: AdapterView, session: usize) -> int {
    if a.live[session as int].busy {
        1
    } else {
        0
    }
}

/// Whether the books are right after a step of one request: what it gained or lost, of places in
/// the queue and of turns, the session gained or lost.
pub open spec fn books_balance(
    a: AdapterView,
    queued_before: int,
    turn_before: int,
    after: Step,
    session: usize,
) -> bool {
    &&& in_queue(after.outcome.next, session) - queued_before == queue_length(
        after.adapter,
        session,
    ) - queue_length(a, session)
    &&& in_turn(after.outcome.next, session) - turn_before == turns_taken(after.adapter, session)
        - turns_taken(a, session)
}

/// One where the session is the one, else zero.
pub open spec fn one_if(a: Option<usize>, b: usize) -> int {
    if a == Some(b) {
        1
    } else {
        0
    }
}

proof fn lemma_proceed_balances(
    a: AdapterView,
    opened: usize,
    id: Seq<char>,
    goal: GoalView,
    session: usize,
)
    requires
        opened < a.live.len(),
        session < a.live.len(),
    ensures
        books_balance(a, 0, 0, proceed(a, opened, id, goal), session),
{
}

proof fn lemma_failed_balances(
    a: AdapterView,
    prompted: usize,
    messages: Seq<MessageView>,
    error: ErrorView,
    session: usize,
)
    requires
        prompted < a.live.len(),
        session < a.live.len(),
        prompted == session ==> queue_length(a, session) > 0 && turns_taken(a, session) == 1,
    ensures
        books_balance(
            a,
            one_if(Some(prompted), session),
            one_if(Some(prompted), session),
            prompt_failed(a, prompted, messages, error),
            session,
        ),
{
}

proof fn lemma_done_balances(
    a: AdapterView,
    prompted: usize,
    warning: Option<Seq<char>>,
    session: usize,
)
    requires
        prompted < a.live.len(),
        session < a.live.len(),
        prompted == session ==> queue_length(a, session) > 0 && turns_taken(a, session) == 1,
    ensures
        books_balance(
            a,
            one_if(Some(prompted), session),
            one_if(Some(prompted), session),
            prompt_done(a, prompted, warning),
            session,
        ),
{
}

proof fn lemma_slash_balances(
    a: AdapterView,
    prompted: usize,
    id: Seq<char>,
    text: Seq<char>,
    session: usize,
)
    requires
        prompted < a.live.len(),
        session < a.live.len(),
        prompted == session ==> queue_length(a, session) > 0 && turns_taken(a, session) == 1,
    ensures
        books_balance(
            a,
            one_if(Some(prompted), session),
            one_if(Some(prompted), session),
            slash_done(a, prompted, id, text),
            session,
        ),
{
}

proof fn lemma_indexing_balances(
    a: AdapterView,
    stored: usize,
    after: AfterView,
    finished: Result<(), Seq<char>>,
    session: usize,
)
    requires
        stored < a.live.len(),
        session < a.live.len(),
        stored == session && (after is Slash || after is Turn) ==> queue_length(a, session) > 0
            && turns_taken(a, session) == 1,
    ensures
        ({
            let before = if after is Slash || after is Turn {
                one_if(Some(stored), session)
            } else {
                0
            };
            books_balance(a, before, before, indexing(a, stored, after, finished), session)
        }),
{
    match after {
        AfterView::Open { id, known_as, goal } => {
            let b = match known_as {
                Some(name) => a.with_id(name, stored),
                None => a,
            };
            lemma_proceed_balances(b, stored, id, goal, session);
        },
        AfterView::Slash { id, text } => {
            if let Err(text) = finished {
                lemma_failed_balances(a, stored, Seq::empty(), internal(text), session);
            }
            lemma_slash_balances(a, stored, id, text, session);
        },
        AfterView::Turn => {
            let warning = match finished {
                Err(text) => Some("failed to update Pi ACP session index: "@ + text),
                Ok(_) => None,
            };
            lemma_done_balances(a, stored, warning, session);
        },
        AfterView::Fork { .. } => {},
    }
}

proof fn lemma_heard_balances(
    a: AdapterView,
    turn: TurnOf,
    event: JsonView,
    location: Option<Seq<char>>,
    file: Option<Seq<char>>,
    session: usize,
)
    requires
        turn.session < a.live.len(),
        session < a.live.len(),
        turn.session == session ==> queue_length(a, session) > 0 && turns_taken(a, session) == 1,
    ensures
        books_balance(
            a,
            one_if(Some(turn.session), session),
            one_if(Some(turn.session), session),
            heard_event(a, turn, event, location, file),
            session,
        ),
{
    let after = event_outcome(event, location, file, turn.state);
    match outcome_updates(after.bodies) {
        Err(text) => {
            lemma_failed_balances(a, turn.session, Seq::empty(), internal(text), session);
        },
        Ok(updates) => {
            let told = updates_told(turn.id, updates);
            if let Some(text) = told.error {
                lemma_failed_balances(
                    a,
                    turn.session,
                    as_updates(told.params),
                    internal(text),
                    session,
                );
            }
        },
    }
}

proof fn lemma_tell_balances(a: AdapterView, turn: TurnOf, message: JsonView, session: usize)
    requires
        turn.session < a.live.len(),
        session < a.live.len(),
        turn.session == session ==> queue_length(a, session) > 0 && turns_taken(a, session) == 1,
    ensures
        books_balance(
            a,
            one_if(Some(turn.session), session),
            one_if(Some(turn.session), session),
            tell_pi(a, turn, message),
            session,
        ),
{
    if let Err(text) = message_record(message) {
        lemma_failed_balances(a, turn.session, Seq::empty(), internal(text), session);
    }
}

proof fn lemma_turning_balances(a: AdapterView, turn: TurnOf, event: EventView, session: usize)
    requires
        turn.session < a.live.len(),
        session < a.live.len(),
        turn.session == session ==> queue_length(a, session) > 0 && turns_taken(a, session) == 1,
    ensures
        books_balance(
            a,
            one_if(Some(turn.session), session),
            one_if(Some(turn.session), session),
            turning(a, turn, event),
            session,
        ),
{
    match event {
        EventView::Heard(PiEventView::Message(value)) => {
            lemma_tell_balances(a, turn, cancelled_response(value), session);
        },
        EventView::Heard(PiEventView::Exited(text)) => {
            lemma_failed_balances(a, turn.session, Seq::empty(), internal(text), session);
        },
        EventView::Lagged(count) => {
            lemma_failed_balances(
                a,
                turn.session,
                Seq::empty(),
                internal("Pi event buffer overflowed by "@ + decimal(count as nat) + " records"@),
                session,
            );
        },
        EventView::StreamEnded => {
            lemma_failed_balances(
                a,
                turn.session,
                Seq::empty(),
                internal("Pi event stream closed"@),
                session,
            );
        },
        _ => {
            lemma_failed_balances(
                a,
                turn.session,
                Seq::empty(),
                internal(turn_timeout()),
                session,
            );
        },
    }
}

proof fn lemma_queued_balances(
    a: AdapterView,
    prompted: usize,
    id: Seq<char>,
    blocks: Seq<BlockView>,
    session: usize,
)
    requires
        prompted < a.live.len(),
        session < a.live.len(),
        prompted == session ==> queue_length(a, session) > 0 && turns_taken(a, session) == 0,
    ensures
        books_balance(
            a,
            one_if(Some(prompted), session),
            0,
            queued(a, prompted, id, blocks),
            session,
        ),
{
    let b = a.with_cancelled(prompted, false).with_busy(prompted, true);
    if let Err(text) = prompt_of(blocks) {
        lemma_failed_balances(b, prompted, Seq::empty(), internal(text), session);
    }
}

/// Whether the books of a session know of the place and the turn that a stage has in it.
pub open spec fn on_the_books(a: AdapterView, stage: StageView, session: usize) -> bool {
    &&& place_in_queue(stage) == Some(session) ==> queue_length(a, session) > 0
    &&& turn_of(stage) == Some(session) ==> turns_taken(a, session) == 1
}

/// The start of a request keeps the books: a prompt that is queued takes one place, and no other
/// request takes any.
pub proof fn books_balance_at_start(a: AdapterView, request: RequestView, session: usize)
    requires
        session < a.live.len(),
        forall|id: Seq<char>| #[trigger]
            a.sessions.contains_key(id) ==> a.sessions[id] < a.live.len(),
    ensures
        books_balance(a, 0, 0, begin(a, request), session),
{
    match request {
        RequestView::Load(id, _) => if let Some(opened) = running(a, id) {
            lemma_proceed_balances(a, opened, id, GoalView::Load { id }, session);
        },
        RequestView::Resume(id, _) => if let Some(opened) = running(a, id) {
            lemma_proceed_balances(a, opened, id, GoalView::Resume, session);
        },
        RequestView::SetMode { session_id, mode } => if let Some(opened) = running(a, session_id) {
            lemma_proceed_balances(
                a,
                opened,
                session_id,
                GoalView::SetMode { id: session_id, mode },
                session,
            );
        },
        RequestView::SetOption { session_id, option, value } => if let Some(opened) = running(
            a,
            session_id,
        ) {
            lemma_proceed_balances(
                a,
                opened,
                session_id,
                GoalView::SetOption { id: session_id, option, value },
                session,
            );
        },
        RequestView::Prompt { session_id, blocks } => if let Some(opened) = running(
            a,
            session_id,
        ) {
            lemma_proceed_balances(
                a,
                opened,
                session_id,
                GoalView::Prompt { id: session_id, blocks },
                session,
            );
        },
        _ => {},
    }
}

#[verifier::spinoff_prover]
#[verifier::rlimit(60)]
proof fn lemma_requests_balance(
    a: AdapterView,
    stage: StageView,
    event: EventView,
    session: usize,
)
    requires
        session < a.live.len(),
        stage_holds(stage, a.live.len()),
        place_in_queue(stage) is None,
    ensures
        books_balance(a, 0, 0, step(a, stage, event), session),
{
    match (stage, event) {
        (StageView::Indexing { session: stored, after }, EventView::Finished(finished)) => {
            lemma_indexing_balances(a, stored, after, finished, session);
        },
        _ => {},
    }
}

proof fn lemma_prompts_balance(
    a: AdapterView,
    stage: StageView,
    event: EventView,
    session: usize,
)
    requires
        session < a.live.len(),
        stage_holds(stage, a.live.len()),
        fits(stage, event),
        may_take_turn(a, stage),
        place_in_queue(stage) is Some,
        on_the_books(a, stage, session),
    ensures
        books_balance(
            a,
            one_if(place_in_queue(stage), session),
            one_if(turn_of(stage), session),
            step(a, stage, event),
            session,
        ),
{
    match (stage, event) {
        (StageView::Indexing { session: stored, after }, EventView::Finished(finished)) => {
            lemma_indexing_balances(a, stored, after, finished, session);
        },
        (StageView::Queued { session: prompted, id, blocks }, _) => {
            lemma_queued_balances(a, prompted, id, blocks, session);
        },
        (StageView::Slashing { session: prompted, .. }, EventView::Answer(answer)) => {
            if let Err(text) = answer {
                lemma_failed_balances(a, prompted, Seq::empty(), internal(text), session);
            }
        },
        (StageView::SlashState { session: prompted, id, text }, _) => {
            lemma_slash_balances(a, prompted, id, text, session);
        },
        (StageView::Settling { session: prompted, .. }, _) => {
            lemma_done_balances(a, prompted, None, session);
        },
        (StageView::Prompting(turn), EventView::Answer(answer)) => {
            if let Err(text) = answer {
                lemma_failed_balances(a, turn.session, Seq::empty(), internal(text), session);
            }
        },
        (StageView::Turning(turn), _) => {
            lemma_turning_balances(a, turn, event, session);
        },
        (StageView::Locating { turn, event }, EventView::Location(location)) => {
            lemma_heard_balances(a, turn, event, location, None, session);
        },
        (StageView::Reading { turn, event, location }, EventView::File(file)) => {
            lemma_heard_balances(a, turn, event, location, file, session);
        },
        (StageView::Reading { turn, .. }, _) => {
            lemma_failed_balances(
                a,
                turn.session,
                Seq::empty(),
                internal(turn_timeout()),
                session,
            );
        },
        (StageView::Asked { turn, question }, EventView::Replied(answer)) => {
            lemma_tell_balances(a, turn, response_of(question, answer), session);
        },
        (StageView::Asked { turn, .. }, _) => {
            lemma_failed_balances(
                a,
                turn.session,
                Seq::empty(),
                internal(turn_timeout()),
                session,
            );
        },
        (StageView::EndState(turn), EventView::Answer(answer)) => {
            if let Err(text) = answer {
                lemma_failed_balances(a, turn.session, Seq::empty(), internal(text), session);
            }
        },
        (StageView::EndState(turn), _) => {
            lemma_failed_balances(
                a,
                turn.session,
                Seq::empty(),
                internal(turn_timeout()),
                session,
            );
        },
        _ => {},
    }
}

/// Every step keeps the books: a request that ends gives its place and its turn back, however it
/// ends, and takes them from no other.
pub proof fn books_balance_at_each_step(
    a: AdapterView,
    stage: StageView,
    event: EventView,
    session: usize,
)
    requires
        session < a.live.len(),
        stage_holds(stage, a.live.len()),
        fits(stage, event),
        may_take_turn(a, stage),
        on_the_books(a, stage, session),
    ensures
        books_balance(
            a,
            one_if(place_in_queue(stage), session),
            one_if(turn_of(stage), session),
            step(a, stage, event),
            session,
        ),
{
    if place_in_queue(stage) is Some {
        lemma_prompts_balance(a, stage, event, session);
    } else {
        lemma_requests_balance(a, stage, event, session);
    }
}

/// A request that is given up keeps the books as one that ends does.
pub proof fn books_balance_on_giving_up(
    a: AdapterView,
    stage: StageView,
    text: Seq<char>,
    session: usize,
)
    requires
        session < a.live.len(),
        stage_holds(stage, a.live.len()),
        on_the_books(a, stage, session),
    ensures
        books_balance(
            a,
            one_if(place_in_queue(stage), session),
            one_if(turn_of(stage), session),
            give_up(a, stage, text),
            session,
        ),
{
}

/// Whether no queue is longer than it may be.
pub open spec fn queues_are_bounded(a: AdapterView) -> bool {
    forall|n: int|
        0 <= n < a.live.len() ==> (#[trigger] a.live[n]).pi.queued_prompts
            <= a.config.max_queued_prompts
}

/// Whether no queue is longer than it may be after a step, which leaves the limit as it is.
pub open spec fn keeps_bound(a: AdapterView, after: Step) -> bool {
    &&& after.adapter.config == a.config
    &&& queues_are_bounded(after.adapter)
}

proof fn lemma_proceed_keeps_bound(a: AdapterView, opened: usize, id: Seq<char>, goal: GoalView)
    requires
        opened < a.live.len(),
        queues_are_bounded(a),
    ensures
        keeps_bound(a, proceed(a, opened, id, goal)),
{
}

proof fn lemma_failed_keeps_bound(
    a: AdapterView,
    prompted: usize,
    messages: Seq<MessageView>,
    error: ErrorView,
)
    requires
        prompted < a.live.len(),
        queues_are_bounded(a),
    ensures
        keeps_bound(a, prompt_failed(a, prompted, messages, error)),
{
}

proof fn lemma_done_keeps_bound(a: AdapterView, prompted: usize, warning: Option<Seq<char>>)
    requires
        prompted < a.live.len(),
        queues_are_bounded(a),
    ensures
        keeps_bound(a, prompt_done(a, prompted, warning)),
{
}

proof fn lemma_slash_keeps_bound(a: AdapterView, prompted: usize, id: Seq<char>, text: Seq<char>)
    requires
        prompted < a.live.len(),
        queues_are_bounded(a),
    ensures
        keeps_bound(a, slash_done(a, prompted, id, text)),
{
}

proof fn lemma_indexing_keeps_bound(
    a: AdapterView,
    stored: usize,
    after: AfterView,
    finished: Result<(), Seq<char>>,
)
    requires
        stored < a.live.len(),
        queues_are_bounded(a),
    ensures
        keeps_bound(a, indexing(a, stored, after, finished)),
{
    match after {
        AfterView::Open { id, known_as, goal } => {
            let b = match known_as {
                Some(name) => a.with_id(name, stored),
                None => a,
            };
            lemma_proceed_keeps_bound(b, stored, id, goal);
        },
        AfterView::Slash { id, text } => {
            if let Err(text) = finished {
                lemma_failed_keeps_bound(a, stored, Seq::empty(), internal(text));
            }
            lemma_slash_keeps_bound(a, stored, id, text);
        },
        AfterView::Turn => {
            let warning = match finished {
                Err(text) => Some("failed to update Pi ACP session index: "@ + text),
                Ok(_) => None,
            };
            lemma_done_keeps_bound(a, stored, warning);
        },
        AfterView::Fork { .. } => {},
    }
}

proof fn lemma_heard_keeps_bound(
    a: AdapterView,
    turn: TurnOf,
    event: JsonView,
    location: Option<Seq<char>>,
    file: Option<Seq<char>>,
)
    requires
        turn.session < a.live.len(),
        queues_are_bounded(a),
    ensures
        keeps_bound(a, heard_event(a, turn, event, location, file)),
{
    let after = event_outcome(event, location, file, turn.state);
    match outcome_updates(after.bodies) {
        Err(text) => {
            lemma_failed_keeps_bound(a, turn.session, Seq::empty(), internal(text));
        },
        Ok(updates) => {
            let told = updates_told(turn.id, updates);
            if let Some(text) = told.error {
                lemma_failed_keeps_bound(
                    a,
                    turn.session,
                    as_updates(told.params),
                    internal(text),
                );
            }
        },
    }
}

proof fn lemma_tell_keeps_bound(a: AdapterView, turn: TurnOf, message: JsonView)
    requires
        turn.session < a.live.len(),
        queues_are_bounded(a),
    ensures
        keeps_bound(a, tell_pi(a, turn, message)),
{
    if let Err(text) = message_record(message) {
        lemma_failed_keeps_bound(a, turn.session, Seq::empty(), internal(text));
    }
}

proof fn lemma_turning_keeps_bound(a: AdapterView, turn: TurnOf, event: EventView)
    requires
        turn.session < a.live.len(),
        queues_are_bounded(a),
    ensures
        keeps_bound(a, turning(a, turn, event)),
{
    let failing = match event {
        EventView::Heard(PiEventView::Exited(text)) => text,
        EventView::Lagged(count) => "Pi event buffer overflowed by "@ + decimal(count as nat)
            + " records"@,
        EventView::StreamEnded => "Pi event stream closed"@,
        _ => turn_timeout(),
    };
    lemma_failed_keeps_bound(a, turn.session, Seq::empty(), internal(failing));
    if let EventView::Heard(PiEventView::Message(value)) = event {
        lemma_tell_keeps_bound(a, turn, cancelled_response(value));
    }
}

/// The start of a request makes no queue longer than it may be: a prompt for which there is no
/// place is refused.
pub proof fn queue_is_bounded(a: AdapterView, request: RequestView)
    requires
        sound(a),
        queues_are_bounded(a),
    ensures
        keeps_bound(a, begin(a, request)),
{
    match request {
        RequestView::Load(id, _) => if let Some(opened) = running(a, id) {
            lemma_proceed_keeps_bound(a, opened, id, GoalView::Load { id });
        },
        RequestView::Resume(id, _) => if let Some(opened) = running(a, id) {
            lemma_proceed_keeps_bound(a, opened, id, GoalView::Resume);
        },
        RequestView::SetMode { session_id, mode } => if let Some(opened) = running(a, session_id) {
            lemma_proceed_keeps_bound(
                a,
                opened,
                session_id,
                GoalView::SetMode { id: session_id, mode },
            );
        },
        RequestView::SetOption { session_id, option, value } => if let Some(opened) = running(
            a,
            session_id,
        ) {
            lemma_proceed_keeps_bound(
                a,
                opened,
                session_id,
                GoalView::SetOption { id: session_id, option, value },
            );
        },
        RequestView::Prompt { session_id, blocks } => if let Some(opened) = running(
            a,
            session_id,
        ) {
            lemma_proceed_keeps_bound(
                a,
                opened,
                session_id,
                GoalView::Prompt { id: session_id, blocks },
            );
        },
        _ => {},
    }
}

proof fn lemma_prompts_keep_bound(a: AdapterView, stage: StageView, event: EventView)
    requires
        stage_holds(stage, a.live.len()),
        queues_are_bounded(a),
        place_in_queue(stage) is Some,
    ensures
        keeps_bound(a, step(a, stage, event)),
{
    match (stage, event) {
        (StageView::Indexing { session: stored, after }, EventView::Finished(finished)) => {
            lemma_indexing_keeps_bound(a, stored, after, finished);
        },
        (StageView::Queued { session: prompted, id, blocks }, _) => {
            let b = a.with_cancelled(prompted, false).with_busy(prompted, true);
            if let Err(text) = prompt_of(blocks) {
                lemma_failed_keeps_bound(b, prompted, Seq::empty(), internal(text));
            }
        },
        (StageView::Slashing { session: prompted, .. }, EventView::Answer(answer)) => {
            if let Err(text) = answer {
                lemma_failed_keeps_bound(a, prompted, Seq::empty(), internal(text));
            }
        },
        (StageView::SlashState { session: prompted, id, text }, _) => {
            lemma_slash_keeps_bound(a, prompted, id, text);
        },
        (StageView::Settling { session: prompted, .. }, _) => {
            lemma_done_keeps_bound(a, prompted, None);
        },
        (StageView::Prompting(turn), EventView::Answer(answer)) => {
            if let Err(text) = answer {
                lemma_failed_keeps_bound(a, turn.session, Seq::empty(), internal(text));
            }
        },
        (StageView::Turning(turn), _) => {
            lemma_turning_keeps_bound(a, turn, event);
        },
        (StageView::Locating { turn, event }, EventView::Location(location)) => {
            lemma_heard_keeps_bound(a, turn, event, location, None);
        },
        (StageView::Reading { turn, event, location }, EventView::File(file)) => {
            lemma_heard_keeps_bound(a, turn, event, location, file);
        },
        (StageView::Reading { turn, .. }, _) => {
            lemma_failed_keeps_bound(a, turn.session, Seq::empty(), internal(turn_timeout()));
        },
        (StageView::Asked { turn, question }, EventView::Replied(answer)) => {
            lemma_tell_keeps_bound(a, turn, response_of(question, answer));
        },
        (StageView::Asked { turn, .. }, _) => {
            lemma_failed_keeps_bound(a, turn.session, Seq::empty(), internal(turn_timeout()));
        },
        (StageView::EndState(turn), EventView::Answer(answer)) => {
            if let Err(text) = answer {
                lemma_failed_keeps_bound(a, turn.session, Seq::empty(), internal(text));
            }
        },
        (StageView::EndState(turn), _) => {
            lemma_failed_keeps_bound(a, turn.session, Seq::empty(), internal(turn_timeout()));
        },
        _ => {},
    }
}

#[verifier::spinoff_prover]
#[verifier::rlimit(60)]
proof fn lemma_requests_keep_bound(a: AdapterView, stage: StageView, event: EventView)
    requires
        stage_holds(stage, a.live.len()),
        queues_are_bounded(a),
        place_in_queue(stage) is None,
    ensures
        keeps_bound(a, step(a, stage, event)),
{
    if let (StageView::Indexing { session: stored, after }, EventView::Finished(finished)) = (
        stage,
        event,
    ) {
        lemma_indexing_keeps_bound(a, stored, after, finished);
    }
}

/// No step makes a queue longer than it may be.
pub proof fn queue_stays_bounded(a: AdapterView, stage: StageView, event: EventView)
    requires
        stage_holds(stage, a.live.len()),
        queues_are_bounded(a),
    ensures
        keeps_bound(a, step(a, stage, event)),
{
    if place_in_queue(stage) is Some {
        lemma_prompts_keep_bound(a, stage, event);
    } else {
        lemma_requests_keep_bound(a, stage, event);
    }
}

/// Neither a request that is given up nor a cancellation makes a queue longer than it may be,
/// and neither does what a process is told or says.
pub proof fn queue_stays_bounded_otherwise(
    a: AdapterView,
    stage: StageView,
    text: Seq<char>,
    id: Seq<char>,
    session: usize,
    pi: PiView,
)
    requires
        stage_holds(stage, a.live.len()),
        sound(a),
        queues_are_bounded(a),
        session < a.live.len(),
        pi.queued_prompts == a.live[session as int].pi.queued_prompts,
    ensures
        keeps_bound(a, give_up(a, stage, text)),
        keeps_bound(a, cancel(a, id)),
        queues_are_bounded(a.with_pi(session, pi)),
{
}

/// At any time at most as many prompts of a session have a place in its queue as may have one,
/// and at most one of them has the turn.
pub proof fn admitted_prompts_are_bounded(
    a: AdapterView,
    stages: Seq<StageView>,
    session: usize,
)
    requires
        session < a.live.len(),
        queues_are_bounded(a),
        books_are_right(a, stages, session),
    ensures
        places(stages, session) <= a.config.max_queued_prompts,
        turns(stages, session) <= 1,
{
    assert(a.live[session as int].pi.queued_prompts <= a.config.max_queued_prompts);
}

/// How many of the requests at the stages have a place in the queue of a session.
pub open spec fn places(stages: Seq<StageView>, session: usize) -> int
    decreases stages.len(),
{
    if stages.len() == 0 {
        0
    } else {
        places(stages.drop_last(), session) + one_if(place_in_queue(stages.last()), session)
    }
}

/// How many of the requests at the stages have the turn of a session.
pub open spec fn turns(stages: Seq<StageView>, session: usize) -> int
    decreases stages.len(),
{
    if stages.len() == 0 {
        0
    } else {
        turns(stages.drop_last(), session) + one_if(turn_of(stages.last()), session)
    }
}

/// Whether the books of a session are right for all requests that are under way: as many prompts
/// are queued as have a place, and the turn is taken as often as one has it.
pub open spec fn books_are_right(a: AdapterView, stages: Seq<StageView>, session: usize) -> bool {
    &&& places(stages, session) == queue_length(a, session)
    &&& turns(stages, session) == turns_taken(a, session)
}

/// The stages of all requests after one of them went on or ended.
pub open spec fn after_one(stages: Seq<StageView>, i: int, next: NextView) -> Seq<StageView> {
    match next {
        NextView::Do(stage, _) => stages.update(i, stage),
        _ => stages.remove(i),
    }
}

pub proof fn lemma_counts_at(stages: Seq<StageView>, i: int, session: usize)
    requires
        0 <= i < stages.len(),
    ensures
        places(stages, session) == places(stages.remove(i), session) + one_if(
            place_in_queue(stages[i]),
            session,
        ),
        turns(stages, session) == turns(stages.remove(i), session) + one_if(
            turn_of(stages[i]),
            session,
        ),
    decreases stages.len(),
{
    let front = stages.drop_last();
    if i == stages.len() - 1 {
        assert(stages.remove(i) =~= front);
    } else {
        lemma_counts_at(front, i, session);
        let rest = stages.remove(i);
        assert(rest.drop_last() =~= front.remove(i));
        assert(rest.last() == stages.last());
    }
}

proof fn lemma_counts_are_positive(stages: Seq<StageView>, session: usize)
    ensures
        places(stages, session) >= 0,
        turns(stages, session) >= 0,
    decreases stages.len(),
{
    if stages.len() > 0 {
        lemma_counts_are_positive(stages.drop_last(), session);
    }
}

proof fn lemma_counts_after_one(stages: Seq<StageView>, i: int, next: NextView, session: usize)
    requires
        0 <= i < stages.len(),
    ensures
        places(after_one(stages, i, next), session) == places(stages, session) - one_if(
            place_in_queue(stages[i]),
            session,
        ) + in_queue(next, session),
        turns(after_one(stages, i, next), session) == turns(stages, session) - one_if(
            turn_of(stages[i]),
            session,
        ) + in_turn(next, session),
{
    lemma_counts_at(stages, i, session);
    if let NextView::Do(stage, _) = next {
        let after = stages.update(i, stage);
        lemma_counts_at(after, i, session);
        assert(after.remove(i) =~= stages.remove(i));
    }
}

/// Whatever happens to one of the requests that are under way, the books stay right for all of
/// them.
pub proof fn books_stay_right(
    a: AdapterView,
    stages: Seq<StageView>,
    i: int,
    event: EventView,
    session: usize,
)
    requires
        session < a.live.len(),
        books_are_right(a, stages, session),
        0 <= i < stages.len(),
        stage_holds(stages[i], a.live.len()),
        fits(stages[i], event),
        may_take_turn(a, stages[i]),
    ensures
        ({
            let after = step(a, stages[i], event);
            books_are_right(
                after.adapter,
                after_one(stages, i, after.outcome.next),
                session,
            )
        }),
{
    lemma_counts_at(stages, i, session);
    lemma_counts_are_positive(stages.remove(i), session);
    books_balance_at_each_step(a, stages[i], event, session);
    lemma_counts_after_one(stages, i, step(a, stages[i], event).outcome.next, session);
}

/// The books stay right for all requests when one is given up.
pub proof fn books_stay_right_on_giving_up(
    a: AdapterView,
    stages: Seq<StageView>,
    i: int,
    text: Seq<char>,
    session: usize,
)
    requires
        session < a.live.len(),
        books_are_right(a, stages, session),
        0 <= i < stages.len(),
        stage_holds(stages[i], a.live.len()),
    ensures
        books_are_right(give_up(a, stages[i], text).adapter, stages.remove(i), session),
{
    lemma_counts_at(stages, i, session);
    lemma_counts_are_positive(stages.remove(i), session);
    books_balance_on_giving_up(a, stages[i], text, session);
}

/// Turns are serialized: where the books are right, no two requests have the turn of a session.
pub proof fn turns_are_serialized(
    a: AdapterView,
    stages: Seq<StageView>,
    i: int,
    j: int,
    session: usize,
)
    requires
        books_are_right(a, stages, session),
        0 <= i < j < stages.len(),
    ensures
        !(turn_of(stages[i]) == Some(session) && turn_of(stages[j]) == Some(session)),
{
    lemma_counts_at(stages, j, session);
    let rest = stages.remove(j);
    assert(rest[i] == stages[i]);
    lemma_counts_at(rest, i, session);
    lemma_counts_are_positive(rest.remove(i), session);
}

/// How many of the messages answer the request.
pub open spec fn answers(messages: Seq<MessageView>) -> int
    decreases messages.len(),
{
    if messages.len() == 0 {
        0
    } else {
        answers(messages.drop_last()) + if messages.last() is Reply {
            1int
        } else {
            0
        }
    }
}

/// How often a request is answered by an outcome, with a result or with an error.
pub open spec fn times_answered(outcome: OutcomeView) -> int {
    answers(outcome.messages) + if outcome.next is Failed {
        1int
    } else {
        0
    }
}

/// One where what is at a stage is still to be answered, else zero. A new session is answered
/// before its commands are listed, and neither a cancellation nor a question of Pi's is a request.
pub open spec fn owed_at(stage: StageView) -> int {
    if stage is Commands || stage is Aborting || stage is Unheard {
        0
    } else {
        1
    }
}

/// One where a request is still to be answered, else zero.
pub open spec fn owed(next: NextView) -> int {
    match next {
        NextView::Do(stage, _) => owed_at(stage),
        _ => 0,
    }
}

/// Whether a request that is to be answered once is, or still will be.
pub open spec fn is_answered_once(outcome: OutcomeView) -> bool {
    times_answered(outcome) + owed(outcome.next) == 1
}

/// One for an answer, else zero.
spec fn counts(message: MessageView) -> int {
    if message is Reply {
        1
    } else {
        0
    }
}

proof fn lemma_few_messages(messages: Seq<MessageView>)
    ensures
        messages.len() == 0 ==> answers(messages) == 0,
        messages.len() == 1 ==> answers(messages) == counts(messages[0]),
        messages.len() == 2 ==> answers(messages) == counts(messages[0]) + counts(messages[1]),
{
    reveal_with_fuel(answers, 3);
}

proof fn lemma_updates_answer_nothing(params: Seq<JsonView>)
    ensures
        answers(as_updates(params)) == 0,
    decreases params.len(),
{
    if params.len() > 0 {
        lemma_updates_answer_nothing(params.drop_last());
        assert(as_updates(params).drop_last() =~= as_updates(params.drop_last()));
    }
}

proof fn lemma_all_single_messages()
    ensures
        forall|messages: Seq<MessageView>|
            messages.len() == 0 ==> #[trigger] answers(messages) == 0,
        forall|messages: Seq<MessageView>|
            messages.len() == 1 ==> #[trigger] answers(messages) == counts(messages[0]),
        forall|messages: Seq<MessageView>|
            messages.len() == 2 ==> #[trigger] answers(messages) == counts(messages[0]) + counts(
                messages[1],
            ),
        forall|params: Seq<JsonView>| #[trigger] answers(as_updates(params)) == 0,
{
    assert forall|messages: Seq<MessageView>| messages.len() == 0 implies #[trigger] answers(
        messages,
    ) == 0 by {
        lemma_few_messages(messages);
    }
    assert forall|messages: Seq<MessageView>| messages.len() == 1 implies #[trigger] answers(
        messages,
    ) == counts(messages[0]) by {
        lemma_few_messages(messages);
    }
    assert forall|messages: Seq<MessageView>| messages.len() == 2 implies #[trigger] answers(
        messages,
    ) == counts(messages[0]) + counts(messages[1]) by {
        lemma_few_messages(messages);
    }
    assert forall|params: Seq<JsonView>| #[trigger] answers(as_updates(params)) == 0 by {
        lemma_updates_answer_nothing(params);
    }
}

proof fn lemma_proceed_answers(a: AdapterView, session: usize, id: Seq<char>, goal: GoalView)
    ensures
        is_answered_once(proceed(a, session, id, goal).outcome),
{
    lemma_all_single_messages();
}

/// A request that was just made is answered once, now or later.
pub proof fn requests_are_answered_once(a: AdapterView, request: RequestView)
    ensures
        is_answered_once(begin(a, request).outcome),
{
    lemma_all_single_messages();
    match request {
        RequestView::Load(id, _) => if let Some(opened) = running(a, id) {
            lemma_proceed_answers(a, opened, id, GoalView::Load { id });
        },
        RequestView::Resume(id, _) => if let Some(opened) = running(a, id) {
            lemma_proceed_answers(a, opened, id, GoalView::Resume);
        },
        RequestView::SetMode { session_id, mode } => if let Some(opened) = running(a, session_id) {
            lemma_proceed_answers(
                a,
                opened,
                session_id,
                GoalView::SetMode { id: session_id, mode },
            );
        },
        RequestView::SetOption { session_id, option, value } => if let Some(opened) = running(
            a,
            session_id,
        ) {
            lemma_proceed_answers(
                a,
                opened,
                session_id,
                GoalView::SetOption { id: session_id, option, value },
            );
        },
        RequestView::Prompt { session_id, blocks } => if let Some(opened) = running(
            a,
            session_id,
        ) {
            lemma_proceed_answers(
                a,
                opened,
                session_id,
                GoalView::Prompt { id: session_id, blocks },
            );
        },
        _ => {},
    }
}

proof fn lemma_replaying_answers(
    a: AdapterView,
    session: usize,
    id: Seq<char>,
    answer: Result<JsonView, Seq<char>>,
)
    ensures
        is_answered_once(replaying(a, session, id, answer).outcome),
{
    lemma_all_single_messages();
    if let Ok(value) = answer {
        if let Ok(updates) = accepted(history_bodies(value.items_at("messages"@))) {
            let told = updates_told(id, updates);
            let live = a.live[session as int];
            let before = as_updates(told.params);
            let reply = MessageView::Reply(
                crate::replies::opened_json(live.state, live.models),
            );
            lemma_updates_answer_nothing(told.params);
            assert(before.push(reply).drop_last() =~= before);
            assert(answers(before.push(reply)) == 1);
        }
    }
}

proof fn lemma_indexing_answers(
    a: AdapterView,
    session: usize,
    after: AfterView,
    finished: Result<(), Seq<char>>,
)
    ensures
        is_answered_once(indexing(a, session, after, finished).outcome),
{
    lemma_all_single_messages();
    if let AfterView::Open { id, known_as, goal } = after {
        let b = match known_as {
            Some(name) => a.with_id(name, session),
            None => a,
        };
        lemma_proceed_answers(b, session, id, goal);
    }
}

proof fn lemma_heard_answers(
    a: AdapterView,
    turn: TurnOf,
    event: JsonView,
    location: Option<Seq<char>>,
    file: Option<Seq<char>>,
)
    ensures
        is_answered_once(heard_event(a, turn, event, location, file).outcome),
{
    lemma_all_single_messages();
}

proof fn lemma_turning_answers(a: AdapterView, turn: TurnOf, event: EventView)
    ensures
        is_answered_once(turning(a, turn, event).outcome),
{
    lemma_all_single_messages();
}

#[verifier::spinoff_prover]
#[verifier::rlimit(60)]
proof fn lemma_prompt_stages_answer(a: AdapterView, stage: StageView, event: EventView)
    requires
        fits(stage, event),
        place_in_queue(stage) is Some,
    ensures
        is_answered_once(step(a, stage, event).outcome),
{
    lemma_all_single_messages();
    match (stage, event) {
        (StageView::Indexing { session, after }, EventView::Finished(finished)) => {
            lemma_indexing_answers(a, session, after, finished);
        },
        (StageView::Turning(turn), _) => {
            lemma_turning_answers(a, turn, event);
        },
        (StageView::Locating { turn, event }, EventView::Location(location)) => {
            lemma_heard_answers(a, turn, event, location, None);
        },
        (StageView::Reading { turn, event, location }, EventView::File(file)) => {
            lemma_heard_answers(a, turn, event, location, file);
        },
        _ => {},
    }
}

#[verifier::spinoff_prover]
#[verifier::rlimit(60)]
proof fn lemma_other_stages_answer(a: AdapterView, stage: StageView, event: EventView)
    requires
        fits(stage, event),
        place_in_queue(stage) is None,
        !(stage is Commands),
        !(stage is Aborting),
        !(stage is Unheard),
    ensures
        is_answered_once(step(a, stage, event).outcome),
{
    lemma_all_single_messages();
    match (stage, event) {
        (StageView::Indexing { session, after }, EventView::Finished(finished)) => {
            lemma_indexing_answers(a, session, after, finished);
        },
        (StageView::Replaying { session, id }, EventView::Answer(answer)) => {
            lemma_replaying_answers(a, session, id, answer);
        },
        _ => {},
    }
}

/// Every step answers what is owed, once: a request that is not answered yet is answered once,
/// now or later, and one that is answered, or that is a notification, is not answered again,
/// whatever happens.
pub proof fn steps_answer_once(a: AdapterView, stage: StageView, event: EventView)
    requires
        fits(stage, event),
    ensures
        ({
            let outcome = step(a, stage, event).outcome;
            times_answered(outcome) + owed(outcome.next) == owed_at(stage)
        }),
{
    if owed_at(stage) == 0 {
        lemma_all_single_messages();
    } else if place_in_queue(stage) is Some {
        lemma_prompt_stages_answer(a, stage, event);
    } else {
        lemma_other_stages_answer(a, stage, event);
    }
}

/// A new session is answered before its commands are listed, and is not answered again, whether
/// or not Pi tells them.
pub proof fn listing_commands_answers_nothing(
    a: AdapterView,
    session: usize,
    id: Seq<char>,
    answer: Result<JsonView, Seq<char>>,
)
    ensures
        ({
            let outcome = step(
                a,
                StageView::Commands { session, id },
                EventView::Answer(answer),
            ).outcome;
            times_answered(outcome) + owed(outcome.next) == 0
        }),
{
    steps_answer_once(a, StageView::Commands { session, id }, EventView::Answer(answer));
}

/// A cancellation is a notification: it is not answered, whether or not Pi can be told to stop.
pub proof fn cancellations_are_not_answered(
    a: AdapterView,
    id: Seq<char>,
    answer: Result<JsonView, Seq<char>>,
)
    ensures
        ({
            let outcome = cancel(a, id).outcome;
            &&& times_answered(outcome) + owed(outcome.next) == 0
            &&& outcome.next matches NextView::Do(stage, _) ==> stage is Aborting
        }),
        ({
            let outcome = step(a, StageView::Aborting, EventView::Answer(answer)).outcome;
            &&& times_answered(outcome) == 0
            &&& outcome.next is Done
        }),
{
    lemma_all_single_messages();
}

/// A request that is given up is answered once, with an error. A notification is not answered,
/// and neither is what no client asked for.
pub proof fn giving_up_answers_once(a: AdapterView, stage: StageView, text: Seq<char>)
    ensures
        ({
            let outcome = give_up(a, stage, text).outcome;
            &&& times_answered(outcome) == if stage is Aborting || stage is Unheard {
                0int
            } else {
                1
            }
            &&& owed(outcome.next) == 0
        }),
{
}

/// A cancelled turn is answered as cancelled, and one that was not is answered as ended.
pub proof fn cancelled_turn_says_so(
    a: AdapterView,
    id: Seq<char>,
    warning: Option<Seq<char>>,
)
    requires
        a.sessions.contains_key(id),
        a.sessions[id] < a.live.len(),
    ensures
        prompt_done(cancel(a, id).adapter, a.sessions[id], warning).outcome.messages == seq![
            MessageView::Reply(prompted_json(true)),
        ],
{
}

/// A cancellation is not forgotten while the turn lasts: no request resets it, whatever happens.
pub proof fn cancellation_lasts(
    a: AdapterView,
    stage: StageView,
    event: EventView,
    session: usize,
)
    requires
        session < a.live.len(),
        stage_holds(stage, a.live.len()),
        fits(stage, event),
        may_take_turn(a, stage),
        a.live[session as int].busy,
        a.live[session as int].cancelled,
    ensures
        step(a, stage, event).adapter.live[session as int].cancelled,
{
    if place_in_queue(stage) is Some {
        lemma_prompts_keep_cancelled(a, stage, event, session);
    } else {
        lemma_others_keep_cancelled(a, stage, event, session);
    }
}

proof fn lemma_failed_keeps_cancelled(
    a: AdapterView,
    prompted: usize,
    messages: Seq<MessageView>,
    error: ErrorView,
    session: usize,
)
    requires
        session < a.live.len(),
        prompted < a.live.len(),
        a.live[session as int].cancelled,
    ensures
        prompt_failed(a, prompted, messages, error).adapter.live[session as int].cancelled,
{
}

proof fn lemma_slash_keeps_cancelled(
    a: AdapterView,
    prompted: usize,
    id: Seq<char>,
    text: Seq<char>,
    session: usize,
)
    requires
        session < a.live.len(),
        prompted < a.live.len(),
        a.live[session as int].cancelled,
    ensures
        slash_done(a, prompted, id, text).adapter.live[session as int].cancelled,
{
}

proof fn lemma_indexing_keeps_cancelled(
    a: AdapterView,
    stored: usize,
    after: AfterView,
    finished: Result<(), Seq<char>>,
    session: usize,
)
    requires
        session < a.live.len(),
        stored < a.live.len(),
        a.live[session as int].cancelled,
    ensures
        indexing(a, stored, after, finished).adapter.live[session as int].cancelled,
{
    match after {
        AfterView::Slash { id, text } => {
            if let Err(text) = finished {
                lemma_failed_keeps_cancelled(a, stored, Seq::empty(), internal(text), session);
            }
            lemma_slash_keeps_cancelled(a, stored, id, text, session);
        },
        _ => {},
    }
}

proof fn lemma_heard_keeps_cancelled(
    a: AdapterView,
    turn: TurnOf,
    event: JsonView,
    location: Option<Seq<char>>,
    file: Option<Seq<char>>,
    session: usize,
)
    requires
        session < a.live.len(),
        turn.session < a.live.len(),
        a.live[session as int].cancelled,
    ensures
        heard_event(a, turn, event, location, file).adapter.live[session as int].cancelled,
{
}

proof fn lemma_tell_keeps_cancelled(a: AdapterView, turn: TurnOf, message: JsonView, session: usize)
    requires
        session < a.live.len(),
        turn.session < a.live.len(),
        a.live[session as int].cancelled,
    ensures
        tell_pi(a, turn, message).adapter.live[session as int].cancelled,
{
}

proof fn lemma_turning_keeps_cancelled(
    a: AdapterView,
    turn: TurnOf,
    event: EventView,
    session: usize,
)
    requires
        session < a.live.len(),
        turn.session < a.live.len(),
        a.live[session as int].cancelled,
    ensures
        turning(a, turn, event).adapter.live[session as int].cancelled,
{
    if let EventView::Heard(PiEventView::Message(value)) = event {
        lemma_tell_keeps_cancelled(a, turn, cancelled_response(value), session);
    }
}

proof fn lemma_queued_keeps_cancelled(
    a: AdapterView,
    prompted: usize,
    id: Seq<char>,
    blocks: Seq<BlockView>,
    session: usize,
)
    requires
        session < a.live.len(),
        prompted < a.live.len(),
        prompted != session,
        a.live[session as int].cancelled,
    ensures
        queued(a, prompted, id, blocks).adapter.live[session as int].cancelled,
{
    let b = a.with_cancelled(prompted, false).with_busy(prompted, true);
    if let Err(text) = prompt_of(blocks) {
        lemma_failed_keeps_cancelled(b, prompted, Seq::empty(), internal(text), session);
    }
}

proof fn lemma_prompts_keep_cancelled(
    a: AdapterView,
    stage: StageView,
    event: EventView,
    session: usize,
)
    requires
        session < a.live.len(),
        stage_holds(stage, a.live.len()),
        fits(stage, event),
        may_take_turn(a, stage),
        a.live[session as int].busy,
        a.live[session as int].cancelled,
        place_in_queue(stage) is Some,
    ensures
        step(a, stage, event).adapter.live[session as int].cancelled,
{
    match (stage, event) {
        (StageView::Indexing { session: stored, after }, EventView::Finished(finished)) => {
            lemma_indexing_keeps_cancelled(a, stored, after, finished, session);
        },
        (StageView::Queued { session: prompted, id, blocks }, _) => {
            lemma_queued_keeps_cancelled(a, prompted, id, blocks, session);
        },
        (StageView::Slashing { session: prompted, .. }, EventView::Answer(answer)) => {
            if let Err(text) = answer {
                lemma_failed_keeps_cancelled(a, prompted, Seq::empty(), internal(text), session);
            }
        },
        (StageView::SlashState { session: prompted, id, text }, _) => {
            lemma_slash_keeps_cancelled(a, prompted, id, text, session);
        },
        (StageView::Prompting(turn), EventView::Answer(answer)) => {
            if let Err(text) = answer {
                lemma_failed_keeps_cancelled(
                    a,
                    turn.session,
                    Seq::empty(),
                    internal(text),
                    session,
                );
            }
        },
        (StageView::Turning(turn), _) => {
            lemma_turning_keeps_cancelled(a, turn, event, session);
        },
        (StageView::Locating { turn, event }, EventView::Location(location)) => {
            lemma_heard_keeps_cancelled(a, turn, event, location, None, session);
        },
        (StageView::Reading { turn, event, location }, EventView::File(file)) => {
            lemma_heard_keeps_cancelled(a, turn, event, location, file, session);
        },
        (StageView::Reading { turn, .. }, _) => {
            lemma_failed_keeps_cancelled(
                a,
                turn.session,
                Seq::empty(),
                internal(turn_timeout()),
                session,
            );
        },
        (StageView::Asked { turn, question }, EventView::Replied(answer)) => {
            lemma_tell_keeps_cancelled(a, turn, response_of(question, answer), session);
        },
        (StageView::Asked { turn, .. }, _) => {
            lemma_failed_keeps_cancelled(
                a,
                turn.session,
                Seq::empty(),
                internal(turn_timeout()),
                session,
            );
        },
        (StageView::EndState(turn), EventView::Answer(answer)) => {
            if let Err(text) = answer {
                lemma_failed_keeps_cancelled(
                    a,
                    turn.session,
                    Seq::empty(),
                    internal(text),
                    session,
                );
            }
        },
        (StageView::EndState(turn), _) => {
            lemma_failed_keeps_cancelled(
                a,
                turn.session,
                Seq::empty(),
                internal(turn_timeout()),
                session,
            );
        },
        _ => {},
    }
}

proof fn lemma_others_keep_cancelled(
    a: AdapterView,
    stage: StageView,
    event: EventView,
    session: usize,
)
    requires
        session < a.live.len(),
        stage_holds(stage, a.live.len()),
        a.live[session as int].cancelled,
        place_in_queue(stage) is None,
    ensures
        step(a, stage, event).adapter.live[session as int].cancelled,
{
}

/// A fork leaves its source alone: where a process ran for the source when the fork began, its id
/// stands for that process again as soon as the copy is open, and stays so, unless Pi gives the
/// fork the source's own id.
pub proof fn fork_keeps_its_source(
    a: AdapterView,
    session: usize,
    id: Seq<char>,
    source: Seq<char>,
    original: usize,
    b: AdapterView,
    state: JsonView,
)
    requires
        b.sessions.contains_key(source),
        b.sessions[source] == original,
        state.str_at("sessionId"@) matches Some(fork) && fork != source,
    ensures
        ({
            let copied = proceed(
                a,
                session,
                id,
                GoalView::Fork { source, original: Some(original) },
            ).adapter;
            copied.sessions.contains_key(source) && copied.sessions[source] == original
        }),
        ({
            let cloned = clone_state(b, session, source, Ok(state)).adapter;
            cloned.sessions.contains_key(source) && cloned.sessions[source] == original
        }),
{
}

/// A session that is closed is gone: its id stands for nothing, and its process is closed.
pub proof fn closed_session_is_gone(a: AdapterView, id: Seq<char>)
    requires
        a.sessions.contains_key(id),
        a.sessions[id] < a.live.len(),
    ensures
        !begin(a, RequestView::Close(id)).adapter.sessions.contains_key(id),
        begin(a, RequestView::Close(id)).adapter.live[a.sessions[id] as int].pi.closed,
        running(begin(a, RequestView::Close(id)).adapter, id) is None,
{
}

/// No process is started in a directory that is relative everywhere: whatever the look at it
/// shows, the request fails and says so, and no session is added.
pub proof fn relative_directories_are_refused(
    a: AdapterView,
    opening: OpeningView,
    goal: GoalView,
    event: EventView,
)
    requires
        is_plain(opening.cwd),
        can_show(a, StageView::Checking { opening, goal }, event),
    ensures
        step(a, StageView::Checking { opening, goal }, event).adapter == a,
        step(a, StageView::Checking { opening, goal }, event).outcome.next == NextView::Failed(
            internal("session cwd must be absolute: "@ + opening.cwd),
        ),
{
}

/// Whether a step answers a prompt and is its last.
pub open spec fn answers_prompt(last: Step, cancelled: bool) -> bool {
    &&& last.outcome.messages == seq![MessageView::Reply(prompted_json(cancelled))]
    &&& last.outcome.next is Done
}

/// A turn goes on until Pi settles. An event that says so ends it. An end that Pi will not retry
/// from ends it where Pi is idle, and Pi is listened to again where it is not. After any other
/// event Pi is listened to again.
pub proof fn turns_end_when_pi_settles(
    a: AdapterView,
    turn: TurnOf,
    event: JsonView,
    location: Option<Seq<char>>,
    file: Option<Seq<char>>,
    state: JsonView,
)
    requires
        turn.session < a.live.len(),
        !(heard_event(a, turn, event, location, file).outcome.next is Failed),
    ensures
        ({
            let after = heard_event(a, turn, event, location, file);
            let settled = NextView::Do(
                StageView::Settling { session: turn.session, id: turn.id },
                ask(turn.session, plain_command("get_state"@)),
            );
            if settles(event) {
                after.outcome.next == settled
            } else if may_settle(event) {
                &&& after.outcome.next matches NextView::Do(stage, _)
                &&& stage is EndState
                &&& ({
                    let end = step(after.adapter, stage, EventView::Answer(Ok(state)));
                    if is_idle(state) {
                        end.outcome.next == settled
                    } else {
                        end.outcome.next matches NextView::Do(next, ActionView::Listen(_))
                            && next is Turning
                    }
                })
            } else {
                after.outcome.next matches NextView::Do(next, ActionView::Listen(_))
                    && next is Turning
            }
        }),
{
}

/// A turn that Pi has settled is answered, whether or not Pi tells its state and whether or not
/// the index can be written.
pub proof fn settled_turns_are_answered(
    a: AdapterView,
    session: usize,
    id: Seq<char>,
    answer: Result<JsonView, Seq<char>>,
    now: Option<Seq<char>>,
    finished: Result<(), Seq<char>>,
)
    requires
        session < a.live.len(),
    ensures
        ({
            let first = step(a, StageView::Settling { session, id }, EventView::Answer(answer));
            let cancelled = a.live[session as int].cancelled;
            match answer {
                Err(_) => answers_prompt(first, cancelled),
                Ok(_) => {
                    &&& first.outcome.next matches NextView::Do(stage, ActionView::ReadClock)
                    &&& ({
                        let second = step(first.adapter, stage, EventView::Now(now));
                        &&& second.outcome.next matches NextView::Do(later, ActionView::Upsert(_))
                        &&& answers_prompt(
                            step(second.adapter, later, EventView::Finished(finished)),
                            cancelled,
                        )
                    })
                },
            }
        }),
{
}

/// Whether Pi is sent a message, where it fits into a record.
pub open spec fn is_told(outcome: OutcomeView, session: usize, message: JsonView) -> bool {
    message_record(message) matches Ok(record) ==> outcome.to_pi == Some((session, record))
}

/// An extension that waits for an answer gets one, whether or not a turn listens. The client is
/// asked where it can be, and the extension is told what came of that, also where the time for
/// the turn is over. Where the client cannot be asked, or does not know the session yet, the
/// extension is told at once that there is no answer.
pub proof fn questions_are_answered(
    a: AdapterView,
    turn: TurnOf,
    question: JsonView,
    event: EventView,
)
    requires
        is_question(question),
        waits(question),
        fits(StageView::Asked { turn, question }, event),
        !a.live[turn.session as int].pi.closed,
    ensures
        ({
            let heard = EventView::Heard(PiEventView::Message(question));
            let first = step(a, StageView::Turning(turn), heard).outcome;
            let stage = StageView::Asked { turn, question };
            let later = step(a, stage, event).outcome;
            match asked(turn.id, question) {
                None => is_told(first, turn.session, cancelled_response(question)),
                Some(params) => {
                    &&& first.next == NextView::Do(stage, ActionView::AskClient(params))
                    &&& is_told(
                        later,
                        turn.session,
                        match event {
                            EventView::Replied(answer) => response_of(question, answer),
                            _ => cancelled_response(question),
                        },
                    )
                },
            }
        }),
        ({
            let session = turn.session;
            let first = unheard(a, session, PiEventView::Message(question)).outcome;
            let stage = StageView::Unheard { session, question };
            match known_question(a.live[session as int].known_as, question) {
                None => is_told(first, session, cancelled_response(question)),
                Some(params) => {
                    &&& first.next == NextView::Do(stage, ActionView::AskClient(params))
                    &&& event matches EventView::Replied(answer) ==> is_told(
                        step(a, stage, event).outcome,
                        session,
                        response_of(question, answer),
                    )
                },
            }
        }),
{
}

/// A client knows a session by its id as soon as it is told that id: a new session and a fork
/// from their answer on, and a session that is opened again from the start.
pub proof fn told_sessions_are_known(
    a: AdapterView,
    session: usize,
    id: Seq<char>,
    opening: OpeningView,
    goal: GoalView,
)
    requires
        session < a.live.len(),
    ensures
        proceed(a, session, id, GoalView::Create).adapter.live[session as int].known_as == Some(id),
        indexing(a, session, AfterView::Fork { id }, Ok(())).adapter.live[session as int].known_as
            == Some(id),
        ({
            let opened = step(
                a,
                StageView::Checking { opening, goal },
                EventView::Absolute(true),
            ).adapter;
            opened.live[a.live.len() as int].known_as == opening.known_as
        }),
{
}

} // verus!
