//! Laws on what becomes of a request: what Pi is asked, what the client is told and answered, and
//! what is remembered.

use vstd::prelude::*;

use crate::adapter::shut;
use crate::commands::{answer_text, level_command, option_command, prompt_command, slash_of};
use crate::dialog::{asked, cancelled_response, response_of, waits};
use crate::flow::{
    ActionView, AfterView, EventView, GoalView, MessageView, NextView, OpeningView, OutcomeView,
    StageView, TurnOf,
};
use crate::index::{page_at, page_start, SessionView};
use crate::json::{member_is_counted_once, member_reads_back, number_u64, JsonView};
use crate::options::commands_of;
use crate::paths::is_plain;
use crate::pi_rpc::{arguments, message_record, PiEventView, PiView};
use crate::prompt::{prompt_of, BlockView};
use crate::replies::{
    commands_told, configured_json, created_json, initialized_json, listed_json, mode_told,
    notification_json, opened_json, options_told, prompted_json, updates_told,
};
use crate::requests::{RequestView, WorkspaceView};
use crate::rules::{
    begin, can_show, cancel, could_see, ends_at, give_up, is_look, seen, step, unheard,
    AdapterView, Step, TURN_TIMEOUT_SECONDS,
};
use crate::session::LiveView;
use crate::text::decimal;
use crate::translate::{
    accepted, event_outcome, file_needed, history_bodies, is_location, schema_update, text_body,
};

verus! {

/// The adapter, but for one of its sessions.
pub open spec fn with_session(a: AdapterView, session: usize, live: LiveView) -> AdapterView {
    AdapterView { live: a.live.update(session as int, live), ..a }
}

/// What an event leads to at the stage that a step has come to.
pub open spec fn after(before: Step, event: EventView) -> Step {
    step(before.adapter, before.outcome.next->Do_0, event)
}

/// Whether nothing is sent to anybody, and nothing is logged.
pub open spec fn is_silent(outcome: OutcomeView) -> bool {
    outcome.messages.len() == 0 && outcome.to_pi is None && outcome.warning is None
}

/// Whether a step leads to an action and nothing else.
pub open spec fn only_does(done: Step, action: ActionView) -> bool {
    is_silent(done.outcome) && (done.outcome.next matches NextView::Do(_, to_do) && to_do == action)
}

/// Whether Pi is asked for something that needs no arguments.
pub open spec fn asks_for(next: NextView, session: usize, what: Seq<char>) -> bool {
    next matches NextView::Do(_, ActionView::Ask { session: to, command, listen }) && {
        &&& to == session
        &&& !listen
        &&& command.size() == 1
        &&& command.str_at("type"@) == Some(what)
    }
}

/// Whether a step leads to an internal error for the given reason and nothing else.
pub open spec fn only_fails(done: Step, reason: Seq<char>) -> bool {
    is_silent(done.outcome) && (done.outcome.next matches NextView::Failed(error)
        && error.kind is InternalError && error.data == Some(reason))
}

/// Whether a step answers the request and is its last.
pub open spec fn only_answers(done: Step, result: JsonView) -> bool {
    &&& done.outcome.messages == seq![MessageView::Reply(result)]
    &&& done.outcome.to_pi is None
    &&& done.outcome.warning is None
    &&& done.outcome.next is Done
}

/// A process that was just started in a directory.
pub open spec fn fresh_process(cwd: Seq<char>) -> PiView {
    PiView {
        pending: Set::empty(),
        next_id: 1,
        closed: false,
        buffer: Seq::empty(),
        cwd,
        queued_prompts: 0,
    }
}

/// A session that was just opened.
pub open spec fn fresh_session(
    cwd: Seq<char>,
    session_file: Seq<char>,
    state: JsonView,
    models: JsonView,
    known_as: Option<Seq<char>>,
) -> LiveView {
    LiveView {
        pi: fresh_process(cwd),
        cwd,
        session_file,
        state,
        models,
        cancelled: false,
        busy: false,
        known_as,
    }
}

/// What is added to the system prompt: what the adapter was set up with, and what is wanted beside
/// it.
pub open spec fn all_prompts(a: AdapterView, wanted: Option<Seq<char>>) -> Seq<Seq<char>> {
    match wanted {
        Some(prompt) => a.config.append_system_prompts.push(prompt),
        None => a.config.append_system_prompts,
    }
}

/// The text that a client wants to add to the system prompt.
pub open spec fn prompt_wanted(workspace: WorkspaceView) -> Option<Seq<char>> {
    match workspace.meta {
        Some(meta) => meta.str_at("systemPrompt"@),
        None => None,
    }
}

/// A new session: Pi is started in the directory that is asked for and asked for its state and its
/// models. The session is known by the id that Pi gives it, and is kept with its directory and its
/// file. The client is answered with the id, and Pi is asked for its commands.
pub proof fn new_sessions_are_opened(
    a: AdapterView,
    workspace: WorkspaceView,
    state: JsonView,
    models: JsonView,
    id: Seq<char>,
    file: Seq<char>,
    now: Option<Seq<char>>,
)
    requires
        a.live.len() < usize::MAX,
        state.str_at("sessionId"@) == Some(id),
        id.len() > 0,
        state.str_at("sessionFile"@) == Some(file),
    ensures
        ({
            let session = a.live.len() as usize;
            let looks = begin(a, RequestView::New(workspace));
            let starts = after(looks, EventView::Absolute(true));
            let asks = after(starts, EventView::Started(Ok(())));
            let dates = after(asks, EventView::Both(Ok((state, models))));
            let keeps = after(dates, EventView::Now(now));
            let answers = after(keeps, EventView::Finished(Ok(())));
            &&& only_does(looks, ActionView::CheckCwd)
            &&& only_does(
                starts,
                ActionView::Start {
                    session,
                    cwd: workspace.cwd,
                    arguments: arguments(
                        a.session_dir,
                        None,
                        all_prompts(a, prompt_wanted(workspace)),
                        a.config.pi_args,
                    ),
                },
            )
            &&& only_does(asks, ActionView::AskBoth(session))
            &&& only_does(dates, ActionView::ReadClock)
            &&& only_does(
                keeps,
                ActionView::Upsert(
                    SessionView {
                        session_id: id,
                        cwd: workspace.cwd,
                        session_file: file,
                        title: state.str_at("sessionName"@),
                        updated_at: now,
                    },
                ),
            )
            &&& answers.outcome.messages == seq![
                MessageView::Reply(created_json(id, state, models)),
            ]
            &&& asks_for(answers.outcome.next, session, "get_commands"@)
            &&& answers.adapter.sessions == a.sessions.insert(id, session)
            &&& answers.adapter.live == a.live.push(
                fresh_session(workspace.cwd, file, state, models, Some(id)),
            )
            &&& answers.adapter.config == a.config
        }),
{
    broadcast use {member_is_counted_once, member_reads_back};

    let session = a.live.len() as usize;
    let looks = begin(a, RequestView::New(workspace));
    let starts = after(looks, EventView::Absolute(true));
    let asks = after(starts, EventView::Started(Ok(())));
    let dates = after(asks, EventView::Both(Ok((state, models))));
    let keeps = after(dates, EventView::Now(now));
    let answers = after(keeps, EventView::Finished(Ok(())));
    assert(answers.adapter.live =~= a.live.push(
        fresh_session(workspace.cwd, file, state, models, Some(id)),
    ));
}

/// A session that Pi gives no id, or an empty one, gets a name that is made up, and is known by it.
pub proof fn unnamed_sessions_get_a_name(
    a: AdapterView,
    session: usize,
    opening: OpeningView,
    goal: GoalView,
    state: JsonView,
    models: JsonView,
    name: Seq<char>,
)
    requires
        session < a.live.len(),
        state.str_at("sessionId"@) is None || state.str_at("sessionId"@)->0.len() == 0,
        state.str_at("sessionFile"@) is Some || opening.file is Some,
    ensures
        ({
            let stage = StageView::Asking { session, opening, goal };
            let names = step(a, stage, EventView::Both(Ok((state, models))));
            let dates = after(names, EventView::Fresh(name));
            &&& only_does(names, ActionView::NameSession)
            &&& names.adapter.sessions == a.sessions
            &&& only_does(dates, ActionView::ReadClock)
            &&& dates.adapter.sessions == a.sessions.insert(name, session)
            &&& dates.outcome.next matches NextView::Do(
                StageView::Dating {
                    session: of,
                    id,
                    after: AfterView::Open { id: told, known_as, goal: aim },
                },
                _,
            ) && of == session && id == name && told == name && known_as == opening.known_as && aim
                == goal
        }),
{
}

/// A session has the file that Pi names, or else the one that it was to continue. Without either
/// it is not opened.
pub proof fn sessions_have_files(
    a: AdapterView,
    session: usize,
    opening: OpeningView,
    goal: GoalView,
    state: JsonView,
    models: JsonView,
)
    requires
        session < a.live.len(),
    ensures
        ({
            let stage = StageView::Asking { session, opening, goal };
            let done = step(a, stage, EventView::Both(Ok((state, models))));
            let named = state.str_at("sessionFile"@);
            let live = done.adapter.live[session as int];
            &&& named is None && opening.file is None ==> done.adapter == a && only_fails(
                done,
                "Pi did not return a persistent session file"@,
            )
            &&& named is Some ==> Some(live.session_file) == named
            &&& named is None && opening.file is Some ==> Some(live.session_file) == opening.file
            &&& named is Some || opening.file is Some ==> {
                &&& done.outcome.next is Do
                &&& live == (LiveView {
                    session_file: live.session_file,
                    state,
                    models,
                    ..a.live[session as int]
                })
                &&& done.adapter.live == a.live.update(session as int, live)
            }
        }),
{
}

/// A working directory that is not absolute is refused by its name, and nothing is started.
pub proof fn relative_places_are_refused(a: AdapterView, opening: OpeningView, goal: GoalView)
    ensures
        ({
            let done = step(a, StageView::Checking { opening, goal }, EventView::Absolute(false));
            done.adapter == a && only_fails(done, "session cwd must be absolute: "@ + opening.cwd)
        }),
{
}

/// A process that cannot be started is closed, and the request fails with the reason.
pub proof fn failed_starts_are_reported(
    a: AdapterView,
    session: usize,
    opening: OpeningView,
    goal: GoalView,
    reason: Seq<char>,
)
    requires
        session < a.live.len(),
    ensures
        ({
            let stage = StageView::Starting { session, opening, goal };
            let done = step(a, stage, EventView::Started(Err(reason)));
            let live = a.live[session as int];
            &&& only_fails(done, reason)
            &&& done.adapter == with_session(
                a,
                session,
                LiveView { pi: PiView { closed: true, ..live.pi }, ..live },
            )
        }),
{
}

/// The session that a request is for, where it is for one that is known.
pub open spec fn session_wanted(request: RequestView) -> Option<Seq<char>> {
    match request {
        RequestView::Load(id, _) => Some(id),
        RequestView::Resume(id, _) => Some(id),
        RequestView::SetMode { session_id, .. } => Some(session_id),
        RequestView::SetOption { session_id, .. } => Some(session_id),
        RequestView::Prompt { session_id, .. } => Some(session_id),
        _ => None,
    }
}

/// Whether a process runs for a session.
pub open spec fn runs(a: AdapterView, id: Seq<char>) -> bool {
    a.sessions.contains_key(id) && !a.live[a.sessions[id] as int].pi.closed
}

/// A known session that no process runs for is looked up. One that was never kept is unknown.
pub proof fn sessions_are_looked_up(
    a: AdapterView,
    request: RequestView,
    id: Seq<char>,
    reason: Seq<char>,
)
    requires
        session_wanted(request) == Some(id),
        !runs(a, id),
    ensures
        ({
            let finds = begin(a, request);
            let unknown = after(finds, EventView::Stored(Ok(None)));
            let broken = after(finds, EventView::Stored(Err(reason)));
            &&& finds.adapter == a
            &&& only_does(finds, ActionView::FindStored(id))
            &&& only_fails(unknown, "unknown session: "@ + id)
            &&& unknown.adapter == a
            &&& only_fails(broken, reason)
            &&& broken.adapter == a
        }),
{
}

/// A known session that no process runs for is opened again where it worked, with the file that
/// was kept for it. From then on both its own id and the one that Pi gives it stand for it, and
/// the request goes on as it does where a process runs.
pub proof fn sessions_are_reopened(
    a: AdapterView,
    request: RequestView,
    id: Seq<char>,
    stored: SessionView,
    state: JsonView,
    models: JsonView,
    given: Seq<char>,
    now: Option<Seq<char>>,
)
    requires
        a.live.len() < usize::MAX,
        session_wanted(request) == Some(id),
        !runs(a, id),
        state.str_at("sessionId"@) == Some(given),
        given.len() > 0,
    ensures
        ({
            let session = a.live.len() as usize;
            let file = match state.str_at("sessionFile"@) {
                Some(file) => file,
                None => stored.session_file,
            };
            let finds = begin(a, request);
            let looks = after(finds, EventView::Stored(Ok(Some(stored))));
            let starts = after(looks, EventView::Absolute(true));
            let asks = after(starts, EventView::Started(Ok(())));
            let dates = after(asks, EventView::Both(Ok((state, models))));
            let keeps = after(dates, EventView::Now(now));
            let goes_on = after(keeps, EventView::Finished(Ok(())));
            let opened = AdapterView {
                sessions: a.sessions.insert(given, session).insert(id, session),
                live: a.live.push(fresh_session(stored.cwd, file, state, models, Some(id))),
                ..a
            };
            &&& only_does(looks, ActionView::CheckCwd)
            &&& only_does(
                starts,
                ActionView::Start {
                    session,
                    cwd: stored.cwd,
                    arguments: arguments(
                        a.session_dir,
                        Some(stored.session_file),
                        a.config.append_system_prompts,
                        a.config.pi_args,
                    ),
                },
            )
            &&& only_does(asks, ActionView::AskBoth(session))
            &&& only_does(dates, ActionView::ReadClock)
            &&& only_does(
                keeps,
                ActionView::Upsert(
                    SessionView {
                        session_id: given,
                        cwd: stored.cwd,
                        session_file: file,
                        title: state.str_at("sessionName"@),
                        updated_at: now,
                    },
                ),
            )
            &&& goes_on == begin(opened, request)
        }),
{
    let session = a.live.len() as usize;
    let file = match state.str_at("sessionFile"@) {
        Some(file) => file,
        None => stored.session_file,
    };
    let finds = begin(a, request);
    let looks = after(finds, EventView::Stored(Ok(Some(stored))));
    let starts = after(looks, EventView::Absolute(true));
    let asks = after(starts, EventView::Started(Ok(())));
    let dates = after(asks, EventView::Both(Ok((state, models))));
    let keeps = after(dates, EventView::Now(now));
    let opened = AdapterView {
        sessions: a.sessions.insert(given, session).insert(id, session),
        live: a.live.push(fresh_session(stored.cwd, file, state, models, Some(id))),
        ..a
    };
    assert(keeps.adapter.live =~= opened.live);
    assert(opened.live[session as int] == fresh_session(stored.cwd, file, state, models, Some(id)));
    assert(runs(opened, id));
}

/// A session that is resumed while a process runs for it is answered at once.
pub proof fn running_sessions_are_resumed(a: AdapterView, id: Seq<char>, workspace: WorkspaceView)
    requires
        runs(a, id),
    ensures
        ({
            let live = a.live[a.sessions[id] as int];
            let done = begin(a, RequestView::Resume(id, workspace));
            done.adapter == a && only_answers(done, opened_json(live.state, live.models))
        }),
{
}

/// A session that is loaded is told to the client message by message, as Pi remembers it, and then
/// answered.
pub proof fn loaded_sessions_are_told(
    a: AdapterView,
    id: Seq<char>,
    workspace: WorkspaceView,
    value: JsonView,
    reason: Seq<char>,
)
    requires
        runs(a, id),
    ensures
        ({
            let session = a.sessions[id];
            let live = a.live[session as int];
            let asks = begin(a, RequestView::Load(id, workspace));
            let done = after(asks, EventView::Answer(Ok(value)));
            let updates = accepted(history_bodies(value.items_at("messages"@)));
            let told = updates_told(id, updates->Ok_0);
            &&& is_silent(asks.outcome)
            &&& asks_for(asks.outcome.next, session, "get_messages"@)
            &&& done.adapter == a
            &&& only_fails(after(asks, EventView::Answer(Err(reason))), reason)
            &&& updates matches Err(text) ==> only_fails(done, text)
            &&& updates is Ok ==> {
                &&& forall|i: int|
                    0 <= i < told.params.len() ==> #[trigger] done.outcome.messages[i]
                        == MessageView::Update(told.params[i])
                &&& told.error is None ==> {
                    &&& done.outcome.messages.len() == told.params.len() + 1
                    &&& done.outcome.messages.last() == MessageView::Reply(
                        opened_json(live.state, live.models),
                    )
                    &&& done.outcome.next is Done
                }
                &&& told.error matches Some(text) ==> {
                    &&& done.outcome.messages.len() == told.params.len()
                    &&& done.outcome.next matches NextView::Failed(error)
                        && error.kind is InternalError && error.data == Some(text)
                }
            }
        }),
{
    broadcast use {member_is_counted_once, member_reads_back};

}

/// A mode that is set is told to Pi as its thinking level. Then the client is told the mode and
/// gets an empty answer; the state that Pi tells after that is remembered, if it tells any.
pub proof fn modes_are_set(
    a: AdapterView,
    id: Seq<char>,
    mode: Seq<char>,
    answer: JsonView,
    state: JsonView,
    reason: Seq<char>,
)
    requires
        runs(a, id),
        a.sessions[id] < a.live.len(),
    ensures
        ({
            let session = a.sessions[id];
            let live = a.live[session as int];
            let tells = begin(a, RequestView::SetMode { session_id: id, mode });
            let asks = after(tells, EventView::Answer(Ok(answer)));
            let known = after(asks, EventView::Answer(Ok(state)));
            let unknown = after(asks, EventView::Answer(Err(reason)));
            &&& only_does(
                tells,
                ActionView::Ask { session, command: level_command(mode), listen: false },
            )
            &&& only_fails(after(tells, EventView::Answer(Err(reason))), reason)
            &&& is_silent(asks.outcome)
            &&& asks_for(asks.outcome.next, session, "get_state"@)
            &&& known.adapter == with_session(a, session, LiveView { state, ..live })
            &&& unknown.adapter == a
            &&& known.outcome == unknown.outcome
            &&& known.outcome.messages == seq![
                MessageView::Update(mode_told(id, mode)),
                MessageView::Reply(JsonView::object()),
            ]
            &&& known.outcome.next is Done
        }),
{
    broadcast use {member_is_counted_once, member_reads_back};

}

/// An option that is set is told to Pi. Then the client is told all options, and gets them for an
/// answer, as they are in the state that Pi tells after that, or in the last known one. An option
/// that is not known, or a value that it cannot have, is refused by the option's name.
pub proof fn options_are_set(
    a: AdapterView,
    id: Seq<char>,
    option: Seq<char>,
    value: Seq<char>,
    answer: JsonView,
    state: JsonView,
    reason: Seq<char>,
)
    requires
        runs(a, id),
        a.sessions[id] < a.live.len(),
    ensures
        ({
            let session = a.sessions[id];
            let live = a.live[session as int];
            let tells = begin(a, RequestView::SetOption { session_id: id, option, value });
            match option_command(option, value) {
                None => {
                    &&& tells.adapter == a
                    &&& is_silent(tells.outcome)
                    &&& tells.outcome.next matches NextView::Failed(error)
                        && error.kind is InvalidParams && error.data == Some(
                        "unknown config option: "@ + option,
                    )
                },
                Some(command) => {
                    let asks = after(tells, EventView::Answer(Ok(answer)));
                    let known = after(asks, EventView::Answer(Ok(state)));
                    let unknown = after(asks, EventView::Answer(Err(reason)));
                    &&& only_does(tells, ActionView::Ask { session, command, listen: false })
                    &&& only_fails(after(tells, EventView::Answer(Err(reason))), reason)
                    &&& is_silent(asks.outcome)
                    &&& asks_for(asks.outcome.next, session, "get_state"@)
                    &&& known.adapter == with_session(a, session, LiveView { state, ..live })
                    &&& known.outcome.messages == seq![
                        MessageView::Update(options_told(id, state, live.models)),
                        MessageView::Reply(configured_json(state, live.models)),
                    ]
                    &&& known.outcome.next is Done
                    &&& unknown.adapter == a
                    &&& unknown.outcome.messages == seq![
                        MessageView::Update(options_told(id, live.state, live.models)),
                        MessageView::Reply(configured_json(live.state, live.models)),
                    ]
                    &&& unknown.outcome.next is Done
                },
            }
        }),
{
    broadcast use {member_is_counted_once, member_reads_back};

}

/// A prompt takes a place in the queue of its session and waits for its turn. Where all places are
/// taken it is refused with the limit, and nothing changes.
pub proof fn prompts_are_queued(a: AdapterView, id: Seq<char>, blocks: Seq<BlockView>)
    requires
        runs(a, id),
        a.sessions[id] < a.live.len(),
    ensures
        ({
            let session = a.sessions[id];
            let live = a.live[session as int];
            let limit = a.config.max_queued_prompts;
            let queues = begin(a, RequestView::Prompt { session_id: id, blocks });
            if live.pi.queued_prompts < limit {
                &&& only_does(queues, ActionView::TakeTurn(session))
                &&& queues.outcome.next->Do_0 == (StageView::Queued { session, id, blocks })
                &&& queues.adapter == with_session(
                    a,
                    session,
                    LiveView {
                        pi: PiView {
                            queued_prompts: (live.pi.queued_prompts + 1) as usize,
                            ..live.pi
                        },
                        ..live
                    },
                )
            } else {
                &&& queues.adapter == a
                &&& only_fails(
                    queues,
                    "Pi prompt queue limit ("@ + decimal(limit as nat)
                        + ") reached; raise --max-queued-prompts to allow more"@,
                )
            }
        }),
{
}

/// The session without the prompt that had its turn.
pub open spec fn without_prompt(live: LiveView) -> LiveView {
    LiveView {
        pi: if live.pi.queued_prompts > 0 {
            PiView { queued_prompts: (live.pi.queued_prompts - 1) as usize, ..live.pi }
        } else {
            live.pi
        },
        busy: false,
        ..live
    }
}

/// A prompt that has its turn is told to Pi, which is listened to from then on, and nothing that
/// happened in an earlier turn counts. Only a prompt without images can be a slash command, which
/// Pi is told in its place. A prompt that Pi cannot take fails, and its place is free again.
pub proof fn turns_begin_with_the_prompt(
    a: AdapterView,
    session: usize,
    id: Seq<char>,
    blocks: Seq<BlockView>,
)
    requires
        session < a.live.len(),
    ensures
        ({
            let done = step(a, StageView::Queued { session, id, blocks }, EventView::TurnTaken);
            let live = LiveView { cancelled: false, busy: true, ..a.live[session as int] };
            match prompt_of(blocks) {
                Err(text) => {
                    &&& only_fails(done, text)
                    &&& done.adapter == with_session(a, session, without_prompt(live))
                },
                Ok((message, images)) => {
                    let slash = slash_of(message);
                    &&& done.adapter == with_session(a, session, live)
                    &&& images.len() == 0 && slash is Some ==> {
                        &&& only_does(
                            done,
                            ActionView::Ask { session, command: slash->0.command, listen: false },
                        )
                        &&& done.outcome.next->Do_0 == (StageView::Slashing {
                            session,
                            id,
                            output: slash->0.output,
                        })
                    }
                    &&& images.len() > 0 || slash is None ==> {
                        &&& only_does(
                            done,
                            ActionView::Ask {
                                session,
                                command: prompt_command(message, images),
                                listen: true,
                            },
                        )
                        &&& done.outcome.next->Do_0 matches StageView::Prompting(turn) && {
                            &&& turn.session == session
                            &&& turn.id == id
                            &&& turn.state.streamed == Set::<i64>::empty()
                            &&& turn.state.edits.dom() == Set::<Seq<char>>::empty()
                            &&& turn.state.limit == a.config.max_tracked_tool_calls
                            &&& !turn.state.warned
                        }
                    }
                },
            }
        }),
{
    let done = step(a, StageView::Queued { session, id, blocks }, EventView::TurnTaken);
    let live = LiveView { cancelled: false, busy: true, ..a.live[session as int] };
    assert(with_session(a, session, live).live =~= a.live.update(session as int, live));
    match prompt_of(blocks) {
        Err(_) => {
            assert(done.adapter.live =~= with_session(a, session, without_prompt(live)).live);
        },
        Ok(_) => {
            assert(done.adapter.live =~= with_session(a, session, live).live);
            assert(Map::<Seq<char>, (Seq<char>, Seq<char>)>::empty().dom() =~= Set::empty());
        },
    }
}

/// Pi is listened to once it took a prompt. One that it does not take fails with its reason.
pub proof fn prompts_that_pi_takes_go_on(
    a: AdapterView,
    turn: TurnOf,
    answer: JsonView,
    reason: Seq<char>,
)
    requires
        turn.session < a.live.len(),
    ensures
        ({
            let taken = step(a, StageView::Prompting(turn), EventView::Answer(Ok(answer)));
            let failed = step(a, StageView::Prompting(turn), EventView::Answer(Err(reason)));
            &&& taken.adapter == a
            &&& only_does(taken, ActionView::Listen(turn.session))
            &&& taken.outcome.next->Do_0 == StageView::Turning(turn)
            &&& only_fails(failed, reason)
            &&& failed.adapter == with_session(
                a,
                turn.session,
                without_prompt(a.live[turn.session as int]),
            )
        }),
{
    let failed = step(a, StageView::Prompting(turn), EventView::Answer(Err(reason)));
    assert(failed.adapter.live =~= with_session(
        a,
        turn.session,
        without_prompt(a.live[turn.session as int]),
    ).live);
}

/// After a slash command Pi is asked for its state, and what it tells is remembered, the file of
/// the session included, and kept. Then the user reads what the command says of itself, or what
/// Pi answered, and the turn has come to its end. A command that Pi does not carry out fails with
/// its reason.
pub proof fn slash_commands_are_carried_out(
    a: AdapterView,
    session: usize,
    id: Seq<char>,
    output: Option<Seq<char>>,
    answer: JsonView,
    state: JsonView,
    now: Option<Seq<char>>,
    reason: Seq<char>,
)
    requires
        session < a.live.len(),
    ensures
        ({
            let stage = StageView::Slashing { session, id, output };
            let live = a.live[session as int];
            let text = match output {
                Some(output) => output,
                None => answer_text(answer),
            };
            let file = match state.str_at("sessionFile"@) {
                Some(file) => file,
                None => live.session_file,
            };
            let refused = step(a, stage, EventView::Answer(Err(reason)));
            let asks = step(a, stage, EventView::Answer(Ok(answer)));
            let dates = after(asks, EventView::Answer(Ok(state)));
            let keeps = after(dates, EventView::Now(now));
            let told = after(keeps, EventView::Finished(Ok(())));
            let untold = after(asks, EventView::Answer(Err(reason)));
            let now_live = LiveView { state, session_file: file, ..live };
            &&& only_fails(refused, reason)
            &&& refused.adapter == with_session(a, session, without_prompt(live))
            &&& is_silent(asks.outcome)
            &&& asks_for(asks.outcome.next, session, "get_state"@)
            &&& only_does(dates, ActionView::ReadClock)
            &&& dates.adapter == with_session(a, session, now_live)
            &&& only_does(
                keeps,
                ActionView::Upsert(
                    SessionView {
                        session_id: id,
                        cwd: live.cwd,
                        session_file: file,
                        title: state.str_at("sessionName"@),
                        updated_at: now,
                    },
                ),
            )
            &&& told.adapter == with_session(a, session, without_prompt(now_live))
            &&& untold.adapter == with_session(a, session, without_prompt(live))
            &&& told.outcome == untold.outcome
            &&& is_said(told.outcome, id, text)
        }),
{
    broadcast use {member_is_counted_once, member_reads_back};

    let stage = StageView::Slashing { session, id, output };
    let live = a.live[session as int];
    let file = match state.str_at("sessionFile"@) {
        Some(file) => file,
        None => live.session_file,
    };
    let now_live = LiveView { state, session_file: file, ..live };
    let refused = step(a, stage, EventView::Answer(Err(reason)));
    let asks = step(a, stage, EventView::Answer(Ok(answer)));
    let dates = after(asks, EventView::Answer(Ok(state)));
    let keeps = after(dates, EventView::Now(now));
    let told = after(keeps, EventView::Finished(Ok(())));
    let untold = after(asks, EventView::Answer(Err(reason)));
    assert(refused.adapter.live =~= with_session(a, session, without_prompt(live)).live);
    assert(dates.adapter.live =~= with_session(a, session, now_live).live);
    assert(told.adapter.live =~= with_session(a, session, without_prompt(now_live)).live);
    assert(untold.adapter.live =~= with_session(a, session, without_prompt(live)).live);
}

/// Whether the user is told a text and the prompt is answered as one that came to its end, or
/// fails where the text cannot be told.
pub open spec fn is_said(outcome: OutcomeView, id: Seq<char>, text: Seq<char>) -> bool {
    let update = schema_update(text_body("agent_message_chunk"@, text));
    let params = notification_json(id, update->Ok_0);
    &&& outcome.to_pi is None
    &&& outcome.warning is None
    &&& update is Ok && params is Ok ==> {
        &&& outcome.messages == seq![
            MessageView::Update(params->Ok_0),
            MessageView::Reply(prompted_json(false)),
        ]
        &&& outcome.next is Done
    }
    &&& update is Err || params is Err ==> {
        &&& outcome.messages.len() == 0
        &&& outcome.next matches NextView::Failed(error) && error.kind is InternalError
            && error.data == Some(
            if update is Err {
                update->Err_0
            } else {
                params->Err_0
            },
        )
    }
}

/// Where Pi has come to an end, the turn goes on while Pi still streams or compacts or has
/// messages waiting, and is over once it does none of these. What Pi tells of its state is
/// remembered either way.
pub proof fn turn_lasts_while_pi_is_at_work(a: AdapterView, turn: TurnOf, state: JsonView)
    requires
        turn.session < a.live.len(),
    ensures
        ({
            let done = step(a, StageView::EndState(turn), EventView::Answer(Ok(state)));
            let streams = state.get("isStreaming"@) == Some(JsonView::Bool(true));
            let compacts = state.get("isCompacting"@) == Some(JsonView::Bool(true));
            let some_wait = state.get("pendingMessageCount"@) matches Some(JsonView::Number(n))
                && number_u64(n) matches Some(count) && count > 0;
            &&& done.adapter == with_session(
                a,
                turn.session,
                LiveView { state, ..a.live[turn.session as int] },
            )
            &&& is_silent(done.outcome)
            &&& if streams || compacts || some_wait {
                done.outcome.next == NextView::Do(
                    StageView::Turning(turn),
                    ActionView::Listen(turn.session),
                )
            } else {
                &&& done.outcome.next matches NextView::Do(stage, _) && stage
                    == (StageView::Settling { session: turn.session, id: turn.id })
                &&& asks_for(done.outcome.next, turn.session, "get_state"@)
            }
        }),
{
    broadcast use {member_is_counted_once, member_reads_back};

}

/// A turn that Pi brings to nothing fails: where Pi ends, with what is said of that; where too much
/// was said to be heard, with how much; where nothing more can be heard; and where the time is
/// over, which is an hour. The prompt's place is free again.
pub proof fn turns_can_fail(a: AdapterView, turn: TurnOf, text: Seq<char>, count: u64)
    requires
        turn.session < a.live.len(),
    ensures
        ({
            let stage = StageView::Turning(turn);
            let ended = step(a, stage, EventView::Heard(PiEventView::Exited(text)));
            let lagged = step(a, stage, EventView::Lagged(count));
            let silent = step(a, stage, EventView::StreamEnded);
            let late = step(a, stage, EventView::TimedOut);
            let over = with_session(
                a,
                turn.session,
                without_prompt(a.live[turn.session as int]),
            );
            &&& only_fails(ended, text)
            &&& only_fails(
                lagged,
                "Pi event buffer overflowed by "@ + decimal(count as nat) + " records"@,
            )
            &&& only_fails(silent, "Pi event stream closed"@)
            &&& only_fails(late, "Pi turn exceeded 3600s"@)
            &&& ended.adapter == over
            &&& lagged.adapter == over
            &&& silent.adapter == over
            &&& late.adapter == over
        }),
{
    let over = with_session(a, turn.session, without_prompt(a.live[turn.session as int]));
    let ended = step(a, StageView::Turning(turn), EventView::Heard(PiEventView::Exited(text)));
    assert(ended.adapter.live =~= over.live);
}

/// The time for a turn is over also while a file is read and while Pi is asked for its state, and
/// a state that Pi does not tell ends the turn too.
pub proof fn turns_can_fail_while_waiting(
    a: AdapterView,
    turn: TurnOf,
    event: JsonView,
    location: Option<Seq<char>>,
    reason: Seq<char>,
)
    requires
        turn.session < a.live.len(),
    ensures
        ({
            let reading = StageView::Reading { turn, event, location };
            let late = step(a, reading, EventView::TimedOut);
            let later = step(a, StageView::EndState(turn), EventView::TimedOut);
            let untold = step(a, StageView::EndState(turn), EventView::Answer(Err(reason)));
            let over = with_session(
                a,
                turn.session,
                without_prompt(a.live[turn.session as int]),
            );
            &&& only_fails(late, "Pi turn exceeded 3600s"@)
            &&& only_fails(later, "Pi turn exceeded 3600s"@)
            &&& only_fails(untold, reason)
            &&& late.adapter == over
            &&& later.adapter == over
            &&& untold.adapter == over
        }),
{
    let over = with_session(a, turn.session, without_prompt(a.live[turn.session as int]));
    let late = step(a, StageView::EndState(turn), EventView::TimedOut);
    assert(late.adapter.live =~= over.live);
}

/// What Pi says in a turn is looked at for the file that it is about, which is read where its text
/// is needed, and what an extension asks is put to the client.
pub proof fn events_are_looked_at(
    a: AdapterView,
    turn: TurnOf,
    event: JsonView,
    location: Option<Seq<char>>,
)
    requires
        turn.session < a.live.len(),
        event.str_at("type"@) != Some("extension_ui_request"@),
    ensures
        ({
            let finds = step(
                a,
                StageView::Turning(turn),
                EventView::Heard(PiEventView::Message(event)),
            );
            let found = after(finds, EventView::Location(location));
            &&& finds.adapter == a
            &&& only_does(finds, ActionView::Locate)
            &&& match file_needed(event, location, turn.state) {
                Some(path) => {
                    &&& found.adapter == a
                    &&& only_does(found, ActionView::ReadFile(path))
                    &&& found.outcome.next->Do_0 == (StageView::Reading { turn, event, location })
                },
                None => found == step(
                    a,
                    StageView::Reading { turn, event, location },
                    EventView::File(None),
                ),
            }
        }),
{
}

/// What Pi says in a turn is told to the client, update by update. Then the turn is over where Pi
/// has settled, Pi is asked whether it goes on where it has come to an end that it will not retry
/// from, and it is listened to again after anything else. What cannot be told ends the turn.
pub proof fn events_are_told(
    a: AdapterView,
    turn: TurnOf,
    event: JsonView,
    location: Option<Seq<char>>,
    file: Option<Seq<char>>,
)
    requires
        turn.session < a.live.len(),
    ensures
        ({
            let done = step(
                a,
                StageView::Reading { turn, event, location },
                EventView::File(file),
            );
            let made = event_outcome(event, location, file, turn.state);
            let updates = match made.bodies {
                Ok(bodies) => accepted(bodies),
                Err(text) => Err(text),
            };
            let told = updates_told(turn.id, updates->Ok_0);
            let later = TurnOf { state: made.state, ..turn };
            let kind = event.str_at("type"@);
            let over = with_session(
                a,
                turn.session,
                without_prompt(a.live[turn.session as int]),
            );
            &&& updates matches Err(text) ==> only_fails(done, text) && done.adapter == over
            &&& updates is Ok ==> {
                &&& done.outcome.to_pi is None
                &&& done.outcome.messages.len() == told.params.len()
                &&& forall|i: int|
                    0 <= i < told.params.len() ==> #[trigger] done.outcome.messages[i]
                        == MessageView::Update(told.params[i])
                &&& told.error matches Some(text) ==> {
                    &&& done.adapter == over
                    &&& done.outcome.next matches NextView::Failed(error)
                        && error.kind is InternalError && error.data == Some(text)
                }
                &&& told.error is None ==> {
                    &&& done.adapter == a
                    &&& done.outcome.warning == (if made.state.warned && !turn.state.warned {
                        Some("Pi ACP tracked edit tools are near the configured limit"@)
                    } else {
                        None
                    })
                    &&& done.outcome.next matches NextView::Do(stage, action) && if kind == Some(
                        "agent_settled"@,
                    ) {
                        &&& stage == (StageView::Settling { session: turn.session, id: turn.id })
                        &&& asks_for(done.outcome.next, turn.session, "get_state"@)
                    } else if kind == Some("agent_end"@) && event.get("willRetry"@) != Some(
                        JsonView::Bool(true),
                    ) {
                        &&& stage == StageView::EndState(later)
                        &&& asks_for(done.outcome.next, turn.session, "get_state"@)
                    } else {
                        &&& stage == StageView::Turning(later)
                        &&& action == ActionView::Listen(turn.session)
                    }
                }
            }
        }),
{
    broadcast use {member_is_counted_once, member_reads_back};

    let done = step(a, StageView::Reading { turn, event, location }, EventView::File(file));
    let over = with_session(a, turn.session, without_prompt(a.live[turn.session as int]));
    if done.outcome.next is Failed {
        assert(done.adapter.live =~= over.live);
    }
}

/// A turn that is over is kept with the state that Pi tells then, and answered: cancelled where the
/// client cancelled it, else come to its end. Where Pi does not tell its state, or it cannot be
/// kept, the turn is answered all the same.
pub proof fn turns_are_kept_and_answered(
    a: AdapterView,
    session: usize,
    id: Seq<char>,
    state: JsonView,
    now: Option<Seq<char>>,
    reason: Seq<char>,
)
    requires
        session < a.live.len(),
    ensures
        ({
            let stage = StageView::Settling { session, id };
            let live = a.live[session as int];
            let dates = step(a, stage, EventView::Answer(Ok(state)));
            let keeps = after(dates, EventView::Now(now));
            let kept = after(keeps, EventView::Finished(Ok(())));
            let lost = after(keeps, EventView::Finished(Err(reason)));
            let untold = step(a, stage, EventView::Answer(Err(reason)));
            let now_live = LiveView { state, ..live };
            &&& only_does(dates, ActionView::ReadClock)
            &&& only_does(
                keeps,
                ActionView::Upsert(
                    SessionView {
                        session_id: id,
                        cwd: live.cwd,
                        session_file: live.session_file,
                        title: state.str_at("sessionName"@),
                        updated_at: now,
                    },
                ),
            )
            &&& keeps.adapter == with_session(a, session, now_live)
            &&& only_answers(kept, prompted_json(live.cancelled))
            &&& kept.adapter == with_session(a, session, without_prompt(now_live))
            &&& lost.adapter == kept.adapter
            &&& lost.outcome.messages == kept.outcome.messages
            &&& lost.outcome.warning == Some("failed to update Pi ACP session index: "@ + reason)
            &&& lost.outcome.next is Done
            &&& only_answers(untold, prompted_json(live.cancelled))
            &&& untold.adapter == with_session(a, session, without_prompt(live))
        }),
{
    let stage = StageView::Settling { session, id };
    let live = a.live[session as int];
    let dates = step(a, stage, EventView::Answer(Ok(state)));
    let keeps = after(dates, EventView::Now(now));
    let kept = after(keeps, EventView::Finished(Ok(())));
    let untold = step(a, stage, EventView::Answer(Err(reason)));
    let now_live = LiveView { state, ..live };
    assert(kept.adapter.live =~= with_session(a, session, without_prompt(now_live)).live);
    assert(untold.adapter.live =~= with_session(a, session, without_prompt(live)).live);
}

/// A session is cancelled by marking its turn and telling Pi to stop. An id that stands for nothing
/// is passed over.
pub proof fn sessions_are_cancelled(a: AdapterView, id: Seq<char>, reason: Seq<char>)
    requires
        a.sessions.contains_key(id) ==> a.sessions[id] < a.live.len(),
    ensures
        ({
            let done = cancel(a, id);
            let session = a.sessions[id];
            let failed = after(done, EventView::Answer(Err(reason)));
            &&& a.sessions.contains_key(id) ==> {
                &&& done.adapter == with_session(
                    a,
                    session,
                    LiveView { cancelled: true, ..a.live[session as int] },
                )
                &&& is_silent(done.outcome)
                &&& asks_for(done.outcome.next, session, "abort"@)
                &&& failed.outcome.messages.len() == 0
                &&& failed.outcome.warning == Some("ACP notification failed: "@ + reason)
                &&& failed.outcome.next is Done
            }
            &&& !a.sessions.contains_key(id) ==> {
                &&& done.adapter == a
                &&& is_silent(done.outcome)
                &&& done.outcome.next is Done
            }
        }),
{
    broadcast use {member_is_counted_once, member_reads_back};

}

/// A session that is closed is known by its id no longer, and its process is ended if it still
/// runs. The answer is empty, also where there is no such session.
pub proof fn sessions_are_closed(a: AdapterView, id: Seq<char>, reason: Seq<char>)
    requires
        a.sessions.contains_key(id) ==> a.sessions[id] < a.live.len(),
    ensures
        ({
            let done = begin(a, RequestView::Close(id));
            let session = a.sessions[id];
            let live = a.live[session as int];
            &&& forall|other: Seq<char>| #[trigger]
                done.adapter.sessions.contains_key(other) <==> a.sessions.contains_key(other)
                    && other != id
            &&& !runs(a, id) ==> done.adapter.live == a.live && only_answers(
                done,
                JsonView::object(),
            )
            &&& runs(a, id) ==> {
                &&& done.adapter.live == a.live.update(
                    session as int,
                    LiveView { pi: PiView { closed: true, ..live.pi }, ..live },
                )
                &&& only_does(done, ActionView::Kill(session))
                &&& only_answers(
                    after(done, EventView::Finished(Ok(()))),
                    JsonView::object(),
                )
                &&& only_fails(after(done, EventView::Finished(Err(reason))), reason)
            }
        }),
{
}

/// The client is told the commands of a new session when Pi tells them. Where it does not, only
/// the log says so: the request is answered by then.
pub proof fn commands_follow_a_new_session(
    a: AdapterView,
    session: usize,
    id: Seq<char>,
    value: JsonView,
    reason: Seq<char>,
)
    ensures
        ({
            let stage = StageView::Commands { session, id };
            let told = step(a, stage, EventView::Answer(Ok(value)));
            let untold = step(a, stage, EventView::Answer(Err(reason)));
            &&& told.adapter == a
            &&& told.outcome.messages == seq![
                MessageView::Update(commands_told(id, commands_of(value.items_at("commands"@)))),
            ]
            &&& told.outcome.warning is None
            &&& told.outcome.next is Done
            &&& untold.adapter == a
            &&& untold.outcome.messages.len() == 0
            &&& untold.outcome.warning == Some("failed to list Pi commands: "@ + reason)
            &&& untold.outcome.next is Done
        }),
{
}

/// A listing is answered with the page of the kept sessions that its cursor names, of the directory
/// that is asked for.
pub proof fn listings_are_answered(
    a: AdapterView,
    cwd: Option<Seq<char>>,
    cursor: Option<Seq<char>>,
    sessions: Seq<SessionView>,
    reason: Seq<char>,
)
    ensures
        ({
            let finds = begin(a, RequestView::List { cwd, cursor });
            let listed = after(finds, EventView::Listed(Ok(sessions)));
            &&& finds.adapter == a
            &&& only_does(finds, ActionView::ListStored(cwd))
            &&& listed.adapter == a
            &&& only_answers(
                listed,
                listed_json(page_at(sessions, page_start(cursor) as int)),
            )
            &&& only_fails(after(finds, EventView::Listed(Err(reason))), reason)
        }),
{
}

/// An introduction is answered at once.
pub proof fn introductions_are_answered(a: AdapterView, protocol_version: u16, terminal: bool)
    ensures
        ({
            let done = begin(a, RequestView::Initialize { protocol_version, terminal });
            done.adapter == a && only_answers(done, initialized_json(protocol_version, terminal))
        }),
{
}

/// A session is forked by opening its file in the directory that is asked for, with what the
/// client adds to the system prompt, and letting Pi clone it there. The fork is known by the id
/// that Pi gives it then and is kept with its new file; what the source's id stands for is as it
/// was before. The client is answered with the fork's id.
pub proof fn sessions_are_forked(
    a: AdapterView,
    source: Seq<char>,
    workspace: WorkspaceView,
    stored: SessionView,
    first: JsonView,
    models: JsonView,
    given: Seq<char>,
    second: JsonView,
    fork: Seq<char>,
    file: Seq<char>,
    now: Option<Seq<char>>,
    later: Option<Seq<char>>,
    answer: JsonView,
)
    requires
        a.live.len() < usize::MAX,
        first.str_at("sessionId"@) == Some(given),
        given.len() > 0,
        second.str_at("sessionId"@) == Some(fork),
        second.str_at("sessionFile"@) == Some(file),
    ensures
        ({
            let session = a.live.len() as usize;
            let finds = begin(a, RequestView::Fork(source, workspace));
            let looks = after(finds, EventView::Stored(Ok(Some(stored))));
            let starts = after(looks, EventView::Absolute(true));
            let asks = after(starts, EventView::Started(Ok(())));
            let dates = after(asks, EventView::Both(Ok((first, models))));
            let keeps = after(dates, EventView::Now(now));
            let clones = after(keeps, EventView::Finished(Ok(())));
            let asks_again = after(clones, EventView::Answer(Ok(answer)));
            let dates_again = after(asks_again, EventView::Answer(Ok(second)));
            let keeps_again = after(dates_again, EventView::Now(later));
            let answers = after(keeps_again, EventView::Finished(Ok(())));
            &&& only_does(finds, ActionView::FindStored(source))
            &&& only_does(looks, ActionView::CheckCwd)
            &&& only_does(
                starts,
                ActionView::Start {
                    session,
                    cwd: workspace.cwd,
                    arguments: arguments(
                        a.session_dir,
                        Some(stored.session_file),
                        all_prompts(a, prompt_wanted(workspace)),
                        a.config.pi_args,
                    ),
                },
            )
            &&& is_silent(clones.outcome)
            &&& asks_for(clones.outcome.next, session, "clone"@)
            &&& is_silent(asks_again.outcome)
            &&& asks_for(asks_again.outcome.next, session, "get_state"@)
            &&& only_does(dates_again, ActionView::ReadClock)
            &&& only_does(
                keeps_again,
                ActionView::Upsert(
                    SessionView {
                        session_id: fork,
                        cwd: workspace.cwd,
                        session_file: file,
                        title: second.str_at("sessionName"@),
                        updated_at: later,
                    },
                ),
            )
            &&& only_answers(answers, created_json(fork, second, models))
            &&& answers.adapter.sessions == (if a.sessions.contains_key(source) {
                a.sessions.insert(given, session).insert(source, a.sessions[source])
            } else {
                a.sessions.insert(given, session).remove(given)
            }).insert(fork, session)
            &&& source != fork && a.sessions.contains_key(source)
                ==> answers.adapter.sessions.contains_key(source)
                && answers.adapter.sessions[source] == a.sessions[source]
            &&& source != fork && !a.sessions.contains_key(source) && given == source
                ==> !answers.adapter.sessions.contains_key(source)
            &&& answers.adapter.live == a.live.push(
                fresh_session(workspace.cwd, file, second, models, Some(fork)),
            )
        }),
{
    broadcast use {member_is_counted_once, member_reads_back};

    let session = a.live.len() as usize;
    let finds = begin(a, RequestView::Fork(source, workspace));
    let looks = after(finds, EventView::Stored(Ok(Some(stored))));
    let starts = after(looks, EventView::Absolute(true));
    let asks = after(starts, EventView::Started(Ok(())));
    let dates = after(asks, EventView::Both(Ok((first, models))));
    let keeps = after(dates, EventView::Now(now));
    let clones = after(keeps, EventView::Finished(Ok(())));
    let asks_again = after(clones, EventView::Answer(Ok(answer)));
    let dates_again = after(asks_again, EventView::Answer(Ok(second)));
    let keeps_again = after(dates_again, EventView::Now(later));
    let answers = after(keeps_again, EventView::Finished(Ok(())));
    let begun = match first.str_at("sessionFile"@) {
        Some(file) => file,
        None => stored.session_file,
    };
    assert(clones.adapter.live =~= a.live.push(
        fresh_session(workspace.cwd, begun, first, models, None),
    ));
    assert(answers.adapter.live =~= a.live.push(
        fresh_session(workspace.cwd, file, second, models, Some(fork)),
    ));
}

/// A fork needs a source that is known, a clone that Pi makes, and a file for it. It goes by the
/// source's id where Pi gives it none.
pub proof fn forks_can_fail(
    a: AdapterView,
    session: usize,
    source: Seq<char>,
    workspace: WorkspaceView,
    state: JsonView,
    reason: Seq<char>,
)
    requires
        session < a.live.len(),
    ensures
        ({
            let finds = begin(a, RequestView::Fork(source, workspace));
            let cloning = StageView::Cloning { session, source };
            let cloned = StageView::CloneState { session, source };
            let told = step(a, cloned, EventView::Answer(Ok(state)));
            &&& only_fails(after(finds, EventView::Stored(Ok(None))), "unknown session: "@ + source)
            &&& only_fails(after(finds, EventView::Stored(Err(reason))), reason)
            &&& only_fails(step(a, cloning, EventView::Answer(Err(reason))), reason)
            &&& only_fails(step(a, cloned, EventView::Answer(Err(reason))), reason)
            &&& state.str_at("sessionFile"@) is None ==> told.adapter == a && only_fails(
                told,
                "Pi clone did not return a session file"@,
            )
            &&& state.str_at("sessionFile"@) is Some && state.str_at("sessionId"@) is None
                ==> told.adapter.sessions == a.sessions.insert(source, session)
        }),
{
}

/// A session is not opened where Pi tells nothing of itself or it cannot be kept. The request fails
/// with the reason.
pub proof fn openings_can_fail(
    a: AdapterView,
    session: usize,
    opening: OpeningView,
    goal: GoalView,
    id: Seq<char>,
    reason: Seq<char>,
)
    ensures
        ({
            let asking = StageView::Asking { session, opening, goal };
            let opened = StageView::Indexing {
                session,
                after: AfterView::Open { id, known_as: opening.known_as, goal },
            };
            let forked = StageView::Indexing { session, after: AfterView::Fork { id } };
            &&& only_fails(step(a, asking, EventView::Both(Err(reason))), reason)
            &&& only_fails(step(a, opened, EventView::Finished(Err(reason))), reason)
            &&& only_fails(step(a, forked, EventView::Finished(Err(reason))), reason)
        }),
{
}

/// A slash command that cannot be kept fails, and its place is free again.
pub proof fn unkept_slash_commands_fail(
    a: AdapterView,
    session: usize,
    id: Seq<char>,
    text: Seq<char>,
    reason: Seq<char>,
)
    requires
        session < a.live.len(),
    ensures
        ({
            let stage = StageView::Indexing { session, after: AfterView::Slash { id, text } };
            let failed = step(a, stage, EventView::Finished(Err(reason)));
            &&& only_fails(failed, reason)
            &&& failed.adapter == with_session(
                a,
                session,
                without_prompt(a.live[session as int]),
            )
        }),
{
    let stage = StageView::Indexing { session, after: AfterView::Slash { id, text } };
    let failed = step(a, stage, EventView::Finished(Err(reason)));
    assert(failed.adapter.live =~= with_session(
        a,
        session,
        without_prompt(a.live[session as int]),
    ).live);
}

/// A request whose message cannot be sent is given up with the reason. A prompt that had its turn
/// gives it back, and one that waits for it leaves the queue.
pub proof fn given_up_prompts_leave_the_queue(
    a: AdapterView,
    turn: TurnOf,
    blocks: Seq<BlockView>,
    reason: Seq<char>,
)
    requires
        turn.session < a.live.len(),
    ensures
        ({
            let session = turn.session;
            let live = a.live[session as int];
            let listening = give_up(a, StageView::Turning(turn), reason);
            let waiting = give_up(a, StageView::Queued { session, id: turn.id, blocks }, reason);
            let loading = give_up(a, StageView::Replaying { session, id: turn.id }, reason);
            &&& only_fails(listening, reason)
            &&& listening.adapter == with_session(a, session, without_prompt(live))
            &&& only_fails(waiting, reason)
            &&& waiting.adapter == with_session(
                a,
                session,
                LiveView { busy: live.busy, ..without_prompt(live) },
            )
            &&& only_fails(loading, reason)
            &&& loading.adapter == a
        }),
{
    let session = turn.session;
    let live = a.live[session as int];
    let listening = give_up(a, StageView::Turning(turn), reason);
    let waiting = give_up(a, StageView::Queued { session, id: turn.id, blocks }, reason);
    assert(listening.adapter.live =~= with_session(a, session, without_prompt(live)).live);
    assert(waiting.adapter.live =~= with_session(
        a,
        session,
        LiveView { busy: live.busy, ..without_prompt(live) },
    ).live);
}

/// Whether Pi is sent an answer, where it fits into a line.
pub open spec fn answers_pi(outcome: OutcomeView, session: usize, answer: JsonView) -> bool {
    match message_record(answer) {
        Ok(record) => outcome.to_pi == Some((session, record)),
        Err(_) => outcome.to_pi is None,
    }
}

/// What an extension asks in a turn is put to the client where it can be, and the extension gets
/// the client's answer. Where it cannot be, the extension is told so if it waits. Pi is listened
/// to again after that.
pub proof fn questions_are_put_to_the_client(
    a: AdapterView,
    turn: TurnOf,
    question: JsonView,
    reply: Result<JsonView, Seq<char>>,
)
    requires
        turn.session < a.live.len(),
        question.str_at("type"@) == Some("extension_ui_request"@),
        message_record(response_of(question, reply)) is Ok,
        message_record(cancelled_response(question)) is Ok,
    ensures
        ({
            let first = step(
                a,
                StageView::Turning(turn),
                EventView::Heard(PiEventView::Message(question)),
            );
            let answered = step(
                a,
                StageView::Asked { turn, question },
                EventView::Replied(reply),
            );
            let listens = NextView::Do(StageView::Turning(turn), ActionView::Listen(turn.session));
            &&& first.adapter == a
            &&& asked(turn.id, question) matches Some(params) ==> {
                &&& only_does(first, ActionView::AskClient(params))
                &&& first.outcome.next->Do_0 == (StageView::Asked { turn, question })
            }
            &&& asked(turn.id, question) is None ==> {
                &&& first.outcome.next == listens
                &&& waits(question) ==> answers_pi(
                    first.outcome,
                    turn.session,
                    cancelled_response(question),
                )
                &&& !waits(question) ==> first.outcome.to_pi is None
            }
            &&& answered.adapter == a
            &&& answered.outcome.next == listens
            &&& answers_pi(answered.outcome, turn.session, response_of(question, reply))
        }),
{
}

/// What is said while no turn listens is passed over, unless an extension asks and waits. Then the
/// client is asked if it knows the session, and the extension gets its answer; else the extension
/// is told at once that there is none.
pub proof fn unheard_questions_are_answered(
    a: AdapterView,
    session: usize,
    event: PiEventView,
    reply: Result<JsonView, Seq<char>>,
)
    requires
        session < a.live.len(),
    ensures
        ({
            let done = unheard(a, session, event);
            let live = a.live[session as int];
            let question = event->Message_0;
            let wanted = event is Message && question.str_at("type"@) == Some(
                "extension_ui_request"@,
            ) && waits(question) && !live.pi.closed;
            let params = asked(live.known_as->0, question);
            &&& done.adapter == a
            &&& done.outcome.messages.len() == 0
            &&& !wanted ==> is_silent(done.outcome) && done.outcome.next is Done
            &&& wanted && live.known_as is Some && params is Some ==> {
                let answered = after(done, EventView::Replied(reply));
                &&& only_does(done, ActionView::AskClient(params->0))
                &&& answers_pi(answered.outcome, session, response_of(question, reply))
                &&& answered.outcome.next is Done
            }
            &&& wanted && (live.known_as is None || params is None) ==> {
                &&& answers_pi(done.outcome, session, cancelled_response(question))
                &&& done.outcome.next is Done
            }
        }),
{
}

/// The time that a turn may take is the time that its failure names.
pub proof fn late_turns_name_their_limit(a: AdapterView, turn: TurnOf)
    requires
        turn.session < a.live.len(),
    ensures
        only_fails(
            step(a, StageView::Turning(turn), EventView::TimedOut),
            "Pi turn exceeded "@ + decimal(TURN_TIMEOUT_SECONDS as nat) + "s"@,
        ),
{
    turns_can_fail(a, turn, Seq::empty(), 0);
    reveal_strlit("Pi turn exceeded 3600s");
    reveal_strlit("Pi turn exceeded ");
    reveal_strlit("s");
    reveal_with_fuel(decimal, 4);
    assert(decimal(3600) =~= seq!['3', '6', '0', '0']);
    assert("Pi turn exceeded 3600s"@ =~= "Pi turn exceeded "@ + decimal(3600) + "s"@);
}

/// What looks show is what is there: a directory that is relative everywhere is not absolute, a
/// name that is made up is a UUID, a clock shows a time, and a tool works on the file that its
/// arguments name, seen from the directory of its session.
pub proof fn looks_show_what_is_there(a: AdapterView, stage: StageView, event: EventView)
    requires
        can_show(a, stage, event),
    ensures
        match stage {
            StageView::Checking { opening, goal: _ } => event matches EventView::Absolute(absolute)
                && (is_plain(opening.cwd) ==> !absolute),
            StageView::Naming { session: _, known_as: _, goal: _ } => event matches EventView::Fresh(
                id,
            ) && id.len() == 36 && id[8] == '-' && id[13] == '-' && id[18] == '-' && id[23] == '-',
            StageView::Dating { session: _, id: _, after: _ } => event matches EventView::Now(now)
                && (now matches Some(time) ==> time.len() >= 20 && time[4] == '-' && time[7] == '-'
                && time[10] == 'T' && time.last() == 'Z'),
            StageView::Locating { turn, event: said } => event matches EventView::Location(location)
                && is_location(
                said.get("args"@),
                a.live[turn.session as int].cwd,
                location,
            ),
            _ => false,
        },
{
}

/// Looks are taken until none is left, and change nothing where none is asked for.
pub proof fn looks_are_taken_to_the_end(first: Step, last: Step)
    requires
        ends_at(first, last),
    ensures
        !(first.outcome.next matches NextView::Do(_, action) && is_look(action)) ==> last == first,
        !(last.outcome.next matches NextView::Do(_, action) && is_look(action)),
{
    let shown = choose|shown: Seq<EventView>|
        #[trigger] could_see(first, shown) && last == seen(first, shown);
    lemma_looks_taken(first, shown);
}

/// Once all looks are taken, none is asked for.
proof fn lemma_looks_taken(first: Step, shown: Seq<EventView>)
    requires
        could_see(first, shown),
    ensures
        !(seen(first, shown).outcome.next matches NextView::Do(_, action) && is_look(action)),
    decreases shown.len(),
{
    if let NextView::Do(stage, action) = first.outcome.next {
        if is_look(action) {
            lemma_looks_taken(step(first.adapter, stage, shown.first()), shown.drop_first());
        }
    }
}

/// Where the time for a turn is over while the client is asked, the extension is told that there
/// is no answer, and the turn fails.
pub proof fn late_answers_cancel_the_question(a: AdapterView, turn: TurnOf, question: JsonView)
    requires
        turn.session < a.live.len(),
    ensures
        ({
            let done = step(a, StageView::Asked { turn, question }, EventView::TimedOut);
            &&& answers_pi(done.outcome, turn.session, cancelled_response(question))
            &&& done.outcome.messages.len() == 0
            &&& done.outcome.next matches NextView::Failed(error) && error.kind is InternalError
                && error.data == Some("Pi turn exceeded 3600s"@)
            &&& done.adapter == with_session(
                a,
                turn.session,
                without_prompt(a.live[turn.session as int]),
            )
        }),
{
    let done = step(a, StageView::Asked { turn, question }, EventView::TimedOut);
    assert(done.adapter.live =~= with_session(
        a,
        turn.session,
        without_prompt(a.live[turn.session as int]),
    ).live);
}

/// An answer that does not fit into a line is not sent: in a turn it ends the turn with the reason,
/// and otherwise the log says so.
pub proof fn answers_that_do_not_fit_are_reported(
    a: AdapterView,
    turn: TurnOf,
    question: JsonView,
    reply: Result<JsonView, Seq<char>>,
    reason: Seq<char>,
)
    requires
        turn.session < a.live.len(),
        message_record(response_of(question, reply)) == Err::<Seq<u8>, Seq<char>>(reason),
    ensures
        ({
            let session = turn.session;
            let heard = step(a, StageView::Asked { turn, question }, EventView::Replied(reply));
            let unheard = step(
                a,
                StageView::Unheard { session, question },
                EventView::Replied(reply),
            );
            &&& only_fails(heard, reason)
            &&& unheard.adapter == a
            &&& unheard.outcome.to_pi is None
            &&& unheard.outcome.warning == Some("failed to answer a Pi extension: "@ + reason)
            &&& unheard.outcome.next is Done
        }),
{
}

/// A cancellation and a question that no turn listens to are given up without an answer to the
/// client: the log says of the first that it failed, and the extension is told of the second that
/// there is no answer.
pub proof fn others_are_given_up_without_an_answer(
    a: AdapterView,
    session: usize,
    question: JsonView,
    reason: Seq<char>,
)
    ensures
        ({
            let cancelling = give_up(a, StageView::Aborting, reason);
            let asking = give_up(a, StageView::Unheard { session, question }, reason);
            let aborted = step(a, StageView::Aborting, EventView::Answer(Ok(question)));
            &&& cancelling.adapter == a
            &&& cancelling.outcome.messages.len() == 0
            &&& cancelling.outcome.warning == Some("ACP notification failed: "@ + reason)
            &&& cancelling.outcome.next is Done
            &&& asking.adapter == a
            &&& asking.outcome.messages.len() == 0
            &&& answers_pi(asking.outcome, session, cancelled_response(question))
            &&& asking.outcome.next is Done
            &&& aborted.adapter == a
            &&& is_silent(aborted.outcome)
            &&& aborted.outcome.next is Done
        }),
{
}

/// A session that is shut has a process that is closed, and is otherwise as it was.
pub proof fn shut_sessions_are_closed(live: LiveView)
    ensures
        shut(live).pi.closed,
        !live.pi.closed ==> live == (LiveView {
            pi: PiView { closed: false, ..shut(live).pi },
            ..shut(live)
        }),
{
}

} // verus!
