//! What becomes of a request, stated: for each stage that it is at, what each event leads to.

use vstd::prelude::*;

use crate::acp::{internal, invalid, ErrorView};
use crate::commands::{answer_text, level_command, option_command, prompt_command, slash_of};
use crate::dialog::{asked, cancelled_response, is_question, response_of, waits};
use crate::flow::{
    ask, fail, go, reply, send, ActionView, AfterView, EventView, GoalView, MessageView,
    NextView, OpeningView, OutcomeView, StageView, TurnOf,
};
use crate::index::{page_at, page_start, SessionView};
use crate::json::JsonView;
use crate::options::commands_of;
use crate::paths::is_plain;
use crate::pi_rpc::{arguments, message_record, plain_command, queue_message, PiEventView, PiView};
use crate::prompt::{prompt_of, BlockView};
use crate::replies::{
    commands_told, configured_json, created_json, initialized_json, listed_json, mode_told,
    notification_json, opened_json, options_told, prompted_json, updates_told,
};
use crate::requests::{RequestView, WorkspaceView};
use crate::session::{is_time, is_uuid, meta_text, stored_at, LiveView};
use crate::text::decimal;
use crate::translate::{
    accepted, event_outcome, file_needed, history_bodies, is_location, outcome_updates,
    schema_update, text_body, TurnView,
};

verus! {

/// How many seconds a turn may take.
pub const TURN_TIMEOUT_SECONDS: u64 = 3600;

/// How an adapter was set up.
pub struct ConfigView {
    pub pi_command: Seq<char>,
    pub state_dir: Seq<char>,
    pub append_system_prompts: Seq<Seq<char>>,
    pub pi_args: Seq<Seq<char>>,
    pub max_queued_prompts: usize,
    pub max_tracked_tool_calls: usize,
}

/// An adapter: how it was set up, where it keeps things, which id stands for which session, and
/// all sessions that a process was ever started for.
pub struct AdapterView {
    pub config: ConfigView,
    pub session_dir: Seq<char>,
    pub index_file: Seq<char>,
    pub sessions: Map<Seq<char>, usize>,
    pub live: Seq<LiveView>,
}

impl AdapterView {
    /// The same, but for one session.
    pub open spec fn with_live(self, session: usize, live: LiveView) -> AdapterView {
        AdapterView { live: self.live.update(session as int, live), ..self }
    }

    /// The same, but a session is in a state.
    pub open spec fn with_state(self, session: usize, state: JsonView) -> AdapterView {
        self.with_live(session, LiveView { state, ..self.live[session as int] })
    }

    /// The same, but a session has a file.
    pub open spec fn with_file(self, session: usize, session_file: Seq<char>) -> AdapterView {
        self.with_live(session, LiveView { session_file, ..self.live[session as int] })
    }

    /// The same, but whether a session was cancelled.
    pub open spec fn with_cancelled(self, session: usize, cancelled: bool) -> AdapterView {
        self.with_live(session, LiveView { cancelled, ..self.live[session as int] })
    }

    /// The same, but the process of a session.
    pub open spec fn with_pi(self, session: usize, pi: PiView) -> AdapterView {
        self.with_live(session, LiveView { pi, ..self.live[session as int] })
    }

    /// The same, but the process of a session is closed.
    pub open spec fn with_closed(self, session: usize) -> AdapterView {
        self.with_pi(session, PiView { closed: true, ..self.live[session as int].pi })
    }

    /// The same, but an id stands for a session.
    pub open spec fn with_id(self, id: Seq<char>, session: usize) -> AdapterView {
        AdapterView { sessions: self.sessions.insert(id, session), ..self }
    }

    /// The same, but an id stands for nothing.
    pub open spec fn without_id(self, id: Seq<char>) -> AdapterView {
        AdapterView { sessions: self.sessions.remove(id), ..self }
    }

    /// The same, but whether a prompt has the turn of a session.
    pub open spec fn with_busy(self, session: usize, busy: bool) -> AdapterView {
        self.with_live(session, LiveView { busy, ..self.live[session as int] })
    }

    /// The same, but the client knows a session by an id.
    pub open spec fn with_name(self, session: usize, id: Seq<char>) -> AdapterView {
        self.with_live(session, LiveView { known_as: Some(id), ..self.live[session as int] })
    }

    /// The same, but one prompt fewer is queued.
    pub open spec fn unqueued(self, session: usize) -> AdapterView {
        let pi = self.live[session as int].pi;
        if pi.queued_prompts > 0 {
            self.with_pi(
                session,
                PiView { queued_prompts: (pi.queued_prompts - 1) as usize, ..pi },
            )
        } else {
            self
        }
    }

    /// The same, but the prompt that had the turn is over.
    pub open spec fn released(self, session: usize) -> AdapterView {
        self.unqueued(session).with_busy(session, false)
    }

    /// The same, but one prompt more is queued.
    pub open spec fn admitted(self, session: usize) -> AdapterView {
        let pi = self.live[session as int].pi;
        self.with_pi(session, PiView { queued_prompts: (pi.queued_prompts + 1) as usize, ..pi })
    }
}

/// What an event leads to: the adapter after it, and what is to be done.
pub struct Step {
    pub adapter: AdapterView,
    pub outcome: OutcomeView,
}

/// Nothing changes but the request.
pub open spec fn same(a: AdapterView, outcome: OutcomeView) -> Step {
    Step { adapter: a, outcome }
}

/// The session that a session id is searched for by its id in the table, where a process runs for
/// it.
pub open spec fn running(a: AdapterView, id: Seq<char>) -> Option<usize> {
    if a.sessions.contains_key(id) && !a.live[a.sessions[id] as int].pi.closed {
        Some(a.sessions[id])
    } else {
        None
    }
}

/// A session that was opened: what is done with it. `id` is what it is known by where it was
/// opened for this.
pub open spec fn proceed(a: AdapterView, session: usize, id: Seq<char>, goal: GoalView) -> Step {
    let live = a.live[session as int];
    match goal {
        GoalView::Create => Step {
            adapter: a.with_name(session, id),
            outcome: send(
                seq![MessageView::Reply(created_json(id, live.state, live.models))],
                NextView::Do(
                    StageView::Commands { session, id },
                    ask(session, plain_command("get_commands"@)),
                ),
            ),
        },
        GoalView::Load { id } => same(
            a,
            go(
                StageView::Replaying { session, id },
                ask(session, plain_command("get_messages"@)),
            ),
        ),
        GoalView::Resume => same(a, reply(opened_json(live.state, live.models))),
        GoalView::SetMode { id, mode } => same(
            a,
            go(StageView::Mode { session, id, mode }, ask(session, level_command(mode))),
        ),
        GoalView::SetOption { id, option, value } => same(
            a,
            match option_command(option, value) {
                Some(command) => go(StageView::Choosing { session, id }, ask(session, command)),
                None => fail(invalid("unknown config option: "@ + option)),
            },
        ),
        GoalView::Prompt { id, blocks } => {
            if live.pi.queued_prompts >= a.config.max_queued_prompts {
                same(a, fail(internal(queue_message(a.config.max_queued_prompts))))
            } else {
                Step {
                    adapter: a.admitted(session),
                    outcome: go(
                        StageView::Queued { session, id, blocks },
                        ActionView::TakeTurn(session),
                    ),
                }
            }
        },
        GoalView::Fork { source, original } => Step {
            adapter: match original {
                Some(original) => a.with_id(source, original),
                None => a.without_id(id),
            },
            outcome: go(
                StageView::Cloning { session, source },
                ask(session, plain_command("clone"@)),
            ),
        },
    }
}

/// A session is to be opened: its working directory is looked at first.
pub open spec fn open_session(a: AdapterView, opening: OpeningView, goal: GoalView) -> Step {
    same(a, go(StageView::Checking { opening, goal }, ActionView::CheckCwd))
}

/// A known session is wanted: the process that runs for it, or else a new one.
pub open spec fn restore(a: AdapterView, id: Seq<char>, goal: GoalView) -> Step {
    match running(a, id) {
        Some(session) => proceed(a, session, id, goal),
        None => same(a, go(StageView::Restoring { id, goal }, ActionView::FindStored(id))),
    }
}

/// What the client wants to add to the system prompt.
pub open spec fn wanted_prompt(workspace: WorkspaceView) -> Option<Seq<char>> {
    meta_text(workspace.meta, "systemPrompt"@)
}

/// What a request leads to.
pub open spec fn begin(a: AdapterView, request: RequestView) -> Step {
    match request {
        RequestView::Initialize { protocol_version, terminal } => same(
            a,
            reply(initialized_json(protocol_version, terminal)),
        ),
        RequestView::New(workspace) => open_session(
            a,
            OpeningView {
                cwd: workspace.cwd,
                file: None,
                prompt: wanted_prompt(workspace),
                known_as: None,
            },
            GoalView::Create,
        ),
        RequestView::Load(id, _) => restore(a, id, GoalView::Load { id }),
        RequestView::Resume(id, _) => restore(a, id, GoalView::Resume),
        RequestView::List { cwd, cursor } => same(
            a,
            go(StageView::Listing { cursor }, ActionView::ListStored(cwd)),
        ),
        RequestView::Close(id) => if a.sessions.contains_key(id) {
            let session = a.sessions[id];
            if a.live[session as int].pi.closed {
                Step {
                    adapter: a.without_id(id),
                    outcome: reply(JsonView::object()),
                }
            } else {
                Step {
                    adapter: a.without_id(id).with_closed(session),
                    outcome: go(StageView::Closing, ActionView::Kill(session)),
                }
            }
        } else {
            same(a, reply(JsonView::object()))
        },
        RequestView::Fork(id, workspace) => same(
            a,
            go(
                StageView::ForkSource {
                    source: id,
                    cwd: workspace.cwd,
                    prompt: wanted_prompt(workspace),
                },
                ActionView::FindStored(id),
            ),
        ),
        RequestView::SetMode { session_id, mode } => restore(
            a,
            session_id,
            GoalView::SetMode { id: session_id, mode },
        ),
        RequestView::SetOption { session_id, option, value } => restore(
            a,
            session_id,
            GoalView::SetOption { id: session_id, option, value },
        ),
        RequestView::Prompt { session_id, blocks } => restore(
            a,
            session_id,
            GoalView::Prompt { id: session_id, blocks },
        ),
    }
}

/// What the cancellation of a session leads to: its turn is marked as cancelled, and Pi is told
/// to stop. An id that stands for nothing is passed over.
pub open spec fn cancel(a: AdapterView, id: Seq<char>) -> Step {
    if a.sessions.contains_key(id) {
        let session = a.sessions[id];
        Step {
            adapter: a.with_cancelled(session, true),
            outcome: go(StageView::Aborting, ask(session, plain_command("abort"@))),
        }
    } else {
        same(a, send(Seq::empty(), NextView::Done))
    }
}

/// Why a session is not known.
pub open spec fn unknown_session(id: Seq<char>) -> ErrorView {
    internal("unknown session: "@ + id)
}

/// The index was searched for a session that is wanted.
pub open spec fn restoring(
    a: AdapterView,
    id: Seq<char>,
    goal: GoalView,
    found: Result<Option<SessionView>, Seq<char>>,
) -> Step {
    match found {
        Err(text) => same(a, fail(internal(text))),
        Ok(None) => same(a, fail(unknown_session(id))),
        Ok(Some(stored)) => open_session(
            a,
            OpeningView {
                cwd: stored.cwd,
                file: Some(stored.session_file),
                prompt: None,
                known_as: Some(id),
            },
            goal,
        ),
    }
}

/// The index was searched for a session to fork.
pub open spec fn fork_source(
    a: AdapterView,
    source: Seq<char>,
    cwd: Seq<char>,
    prompt: Option<Seq<char>>,
    found: Result<Option<SessionView>, Seq<char>>,
) -> Step {
    match found {
        Err(text) => same(a, fail(internal(text))),
        Ok(None) => same(a, fail(unknown_session(source))),
        Ok(Some(stored)) => open_session(
            a,
            OpeningView { cwd, file: Some(stored.session_file), prompt, known_as: None },
            GoalView::Fork {
                source,
                original: if a.sessions.contains_key(source) {
                    Some(a.sessions[source])
                } else {
                    None
                },
            },
        ),
    }
}

/// A session whose process was not started yet.
pub open spec fn blank(cwd: Seq<char>, known_as: Option<Seq<char>>) -> LiveView {
    LiveView {
        pi: PiView {
            pending: Set::empty(),
            next_id: 1,
            closed: false,
            buffer: Seq::empty(),
            cwd,
            queued_prompts: 0,
        },
        cwd,
        session_file: Seq::empty(),
        state: JsonView::Null,
        models: JsonView::Null,
        cancelled: false,
        busy: false,
        known_as,
    }
}

/// What is added to the system prompt of a session.
pub open spec fn system_prompts(a: AdapterView, opening: OpeningView) -> Seq<Seq<char>> {
    match opening.prompt {
        Some(prompt) => a.config.append_system_prompts.push(prompt),
        None => a.config.append_system_prompts,
    }
}

/// A working directory was looked at: where it is absolute, Pi is started in it.
pub open spec fn checking(
    a: AdapterView,
    opening: OpeningView,
    goal: GoalView,
    absolute: bool,
) -> Step {
    if absolute {
        let session = a.live.len() as usize;
        Step {
            adapter: AdapterView { live: a.live.push(blank(opening.cwd, opening.known_as)), ..a },
            outcome: go(
                StageView::Starting { session, opening, goal },
                ActionView::Start {
                    session,
                    cwd: opening.cwd,
                    arguments: arguments(
                        a.session_dir,
                        opening.file,
                        system_prompts(a, opening),
                        a.config.pi_args,
                    ),
                },
            ),
        }
    } else {
        same(a, fail(internal("session cwd must be absolute: "@ + opening.cwd)))
    }
}

/// Pi was started.
pub open spec fn starting(
    a: AdapterView,
    session: usize,
    opening: OpeningView,
    goal: GoalView,
    started: Result<(), Seq<char>>,
) -> Step {
    match started {
        Ok(_) => same(
            a,
            go(StageView::Asking { session, opening, goal }, ActionView::AskBoth(session)),
        ),
        Err(text) => Step { adapter: a.with_closed(session), outcome: fail(internal(text)) },
    }
}

/// A session got its id: it stands for the session from now on, and goes to the index.
pub open spec fn register(
    a: AdapterView,
    session: usize,
    id: Seq<char>,
    known_as: Option<Seq<char>>,
    goal: GoalView,
) -> Step {
    Step {
        adapter: a.with_id(id, session),
        outcome: go(
            StageView::Dating { session, id, after: AfterView::Open { id, known_as, goal } },
            ActionView::ReadClock,
        ),
    }
}

/// The file of a session: the one that Pi names, or else the one that it was to continue.
pub open spec fn opened_file(opening: OpeningView, state: JsonView) -> Option<Seq<char>> {
    match state.str_at("sessionFile"@) {
        Some(file) => Some(file),
        None => opening.file,
    }
}

/// The id that Pi gives a session.
pub open spec fn given_id(state: JsonView) -> Option<Seq<char>> {
    match state.str_at("sessionId"@) {
        Some(id) => if id.len() == 0 {
            None
        } else {
            Some(id)
        },
        None => None,
    }
}

/// Pi told its state and its models.
pub open spec fn asking(
    a: AdapterView,
    session: usize,
    opening: OpeningView,
    goal: GoalView,
    answer: Result<(JsonView, JsonView), Seq<char>>,
) -> Step {
    match answer {
        Err(text) => same(a, fail(internal(text))),
        Ok((state, models)) => match opened_file(opening, state) {
            None => same(a, fail(internal("Pi did not return a persistent session file"@))),
            Some(session_file) => {
                let b = a.with_live(
                    session,
                    LiveView { session_file, state, models, ..a.live[session as int] },
                );
                match given_id(state) {
                    Some(id) => register(b, session, id, opening.known_as, goal),
                    None => same(
                        b,
                        go(
                            StageView::Naming { session, known_as: opening.known_as, goal },
                            ActionView::NameSession,
                        ),
                    ),
                }
            },
        },
    }
}

/// The clock was read: the session goes to the index.
pub open spec fn dating(
    a: AdapterView,
    session: usize,
    id: Seq<char>,
    after: AfterView,
    now: Option<Seq<char>>,
) -> Step {
    let live = a.live[session as int];
    same(
        a,
        go(
            StageView::Indexing { session, after },
            ActionView::Upsert(stored_at(id, live.cwd, live.session_file, live.state, now)),
        ),
    )
}

/// A prompt is over and answered with an error: its place in the queue is free again.
pub open spec fn prompt_failed(
    a: AdapterView,
    session: usize,
    messages: Seq<MessageView>,
    error: ErrorView,
) -> Step {
    Step {
        adapter: a.released(session),
        outcome: send(messages, NextView::Failed(error)),
    }
}

/// A prompt is over: its place in the queue is free again, and it is answered.
pub open spec fn prompt_done(a: AdapterView, session: usize, warning: Option<Seq<char>>) -> Step {
    Step {
        adapter: a.released(session),
        outcome: OutcomeView {
            messages: seq![
                MessageView::Reply(prompted_json(a.live[session as int].cancelled)),
            ],
            to_pi: None,
            warning,
            next: NextView::Done,
        },
    }
}

/// A slash command is over: the user is told, and the prompt is answered.
pub open spec fn slash_done(
    a: AdapterView,
    session: usize,
    id: Seq<char>,
    text: Seq<char>,
) -> Step {
    match schema_update(text_body("agent_message_chunk"@, text)) {
        Err(text) => prompt_failed(a, session, Seq::empty(), internal(text)),
        Ok(update) => match notification_json(id, update) {
            Err(text) => prompt_failed(a, session, Seq::empty(), internal(text)),
            Ok(params) => Step {
                adapter: a.released(session),
                outcome: send(
                    seq![MessageView::Update(params), MessageView::Reply(prompted_json(false))],
                    NextView::Done,
                ),
            },
        },
    }
}

/// The index was brought up to date.
pub open spec fn indexing(
    a: AdapterView,
    session: usize,
    after: AfterView,
    finished: Result<(), Seq<char>>,
) -> Step {
    match after {
        AfterView::Open { id, known_as, goal } => match finished {
            Err(text) => same(a, fail(internal(text))),
            Ok(_) => proceed(
                match known_as {
                    Some(name) => a.with_id(name, session),
                    None => a,
                },
                session,
                id,
                goal,
            ),
        },
        AfterView::Slash { id, text } => match finished {
            Err(text) => prompt_failed(a, session, Seq::empty(), internal(text)),
            Ok(_) => slash_done(a, session, id, text),
        },
        AfterView::Turn => prompt_done(
            a,
            session,
            match finished {
                Err(text) => Some("failed to update Pi ACP session index: "@ + text),
                Ok(_) => None,
            },
        ),
        AfterView::Fork { id } => match finished {
            Err(text) => same(a, fail(internal(text))),
            Ok(_) => {
                let live = a.live[session as int];
                Step {
                    adapter: a.with_name(session, id),
                    outcome: reply(created_json(id, live.state, live.models)),
                }
            },
        },
    }
}

/// Nothing is left to do, and the log is told something.
pub open spec fn warn(text: Seq<char>) -> OutcomeView {
    OutcomeView {
        messages: Seq::empty(),
        to_pi: None,
        warning: Some(text),
        next: NextView::Done,
    }
}

/// Pi told its commands, and the client is told. The request is answered by now: where Pi does
/// not tell them, only the log is told.
pub open spec fn commands_known(
    a: AdapterView,
    id: Seq<char>,
    answer: Result<JsonView, Seq<char>>,
) -> Step {
    match answer {
        Err(text) => same(a, warn("failed to list Pi commands: "@ + text)),
        Ok(value) => same(
            a,
            send(
                seq![
                    MessageView::Update(
                        commands_told(id, commands_of(value.items_at("commands"@))),
                    ),
                ],
                NextView::Done,
            ),
        ),
    }
}

/// Parameters of updates as messages.
pub open spec fn as_updates(params: Seq<JsonView>) -> Seq<MessageView> {
    params.map_values(|p: JsonView| MessageView::Update(p))
}

/// Pi told the messages of a session: the client is told them, and the request is answered.
pub open spec fn replaying(
    a: AdapterView,
    session: usize,
    id: Seq<char>,
    answer: Result<JsonView, Seq<char>>,
) -> Step {
    match answer {
        Err(text) => same(a, fail(internal(text))),
        Ok(value) => match accepted(history_bodies(value.items_at("messages"@))) {
            Err(text) => same(a, fail(internal(text))),
            Ok(updates) => {
                let told = updates_told(id, updates);
                let live = a.live[session as int];
                same(
                    a,
                    match told.error {
                        Some(text) => send(
                            as_updates(told.params),
                            NextView::Failed(internal(text)),
                        ),
                        None => send(
                            as_updates(told.params).push(
                                MessageView::Reply(opened_json(live.state, live.models)),
                            ),
                            NextView::Done,
                        ),
                    },
                )
            },
        },
    }
}

/// Pi was given a command for a request: where it took it, it is asked for its state.
pub open spec fn then_state(
    a: AdapterView,
    session: usize,
    stage: StageView,
    answer: Result<JsonView, Seq<char>>,
) -> Step {
    match answer {
        Err(text) => same(a, fail(internal(text))),
        Ok(_) => same(a, go(stage, ask(session, plain_command("get_state"@)))),
    }
}

/// The adapter after Pi was asked for its state, which it may not have told.
pub open spec fn refreshed(
    a: AdapterView,
    session: usize,
    answer: Result<JsonView, Seq<char>>,
) -> AdapterView {
    match answer {
        Ok(state) => a.with_state(session, state),
        Err(_) => a,
    }
}

/// A mode was set: the client is told, and the request is answered.
pub open spec fn mode_known(
    a: AdapterView,
    session: usize,
    id: Seq<char>,
    mode: Seq<char>,
    answer: Result<JsonView, Seq<char>>,
) -> Step {
    Step {
        adapter: refreshed(a, session, answer),
        outcome: send(
            seq![
                MessageView::Update(mode_told(id, mode)),
                MessageView::Reply(JsonView::object()),
            ],
            NextView::Done,
        ),
    }
}

/// An option was set: the client is told all options, and the request is answered with them.
pub open spec fn option_known(
    a: AdapterView,
    session: usize,
    id: Seq<char>,
    answer: Result<JsonView, Seq<char>>,
) -> Step {
    let b = refreshed(a, session, answer);
    let live = b.live[session as int];
    Step {
        adapter: b,
        outcome: send(
            seq![
                MessageView::Update(options_told(id, live.state, live.models)),
                MessageView::Reply(configured_json(live.state, live.models)),
            ],
            NextView::Done,
        ),
    }
}

/// A prompt has the turn: what Pi is told. A slash command comes without images.
pub open spec fn queued(
    a: AdapterView,
    session: usize,
    id: Seq<char>,
    blocks: Seq<BlockView>,
) -> Step {
    let b = a.with_cancelled(session, false).with_busy(session, true);
    match prompt_of(blocks) {
        Err(text) => prompt_failed(b, session, Seq::empty(), internal(text)),
        Ok((message, images)) => match slash_of(message) {
            Some(slash) if images.len() == 0 => same(
                b,
                go(
                    StageView::Slashing { session, id, output: slash.output },
                    ask(session, slash.command),
                ),
            ),
            _ => same(
                b,
                go(
                    StageView::Prompting(
                        TurnOf {
                            session,
                            id,
                            state: TurnView {
                                streamed: Set::empty(),
                                edits: Map::empty(),
                                limit: a.config.max_tracked_tool_calls,
                                warned: false,
                            },
                        },
                    ),
                    ActionView::Ask {
                        session,
                        command: prompt_command(message, images),
                        listen: true,
                    },
                ),
            ),
        },
    }
}

/// Pi carried out a slash command.
pub open spec fn slashing(
    a: AdapterView,
    session: usize,
    id: Seq<char>,
    output: Option<Seq<char>>,
    answer: Result<JsonView, Seq<char>>,
) -> Step {
    match answer {
        Err(text) => prompt_failed(a, session, Seq::empty(), internal(text)),
        Ok(value) => same(
            a,
            go(
                StageView::SlashState {
                    session,
                    id,
                    text: match output {
                        Some(output) => output,
                        None => answer_text(value),
                    },
                },
                ask(session, plain_command("get_state"@)),
            ),
        ),
    }
}

/// Pi told its state after a slash command, which may have changed the session's file.
pub open spec fn slash_state(
    a: AdapterView,
    session: usize,
    id: Seq<char>,
    text: Seq<char>,
    answer: Result<JsonView, Seq<char>>,
) -> Step {
    match answer {
        Err(_) => slash_done(a, session, id, text),
        Ok(state) => same(
            match state.str_at("sessionFile"@) {
                Some(file) => a.with_file(session, file),
                None => a,
            }.with_state(session, state),
            go(
                StageView::Dating { session, id, after: AfterView::Slash { id, text } },
                ActionView::ReadClock,
            ),
        ),
    }
}

/// Pi took a prompt: it is listened to.
pub open spec fn prompting(
    a: AdapterView,
    turn: TurnOf,
    answer: Result<JsonView, Seq<char>>,
) -> Step {
    match answer {
        Err(text) => prompt_failed(a, turn.session, Seq::empty(), internal(text)),
        Ok(_) => same(a, listen(turn)),
    }
}

/// Pi is listened to.
pub open spec fn listen(turn: TurnOf) -> OutcomeView {
    go(StageView::Turning(turn), ActionView::Listen(turn.session))
}

/// An extension asks the user: the client is asked where it can be, and else the extension is
/// told so at once, if it waits.
pub open spec fn question(a: AdapterView, turn: TurnOf, event: JsonView) -> Step {
    match asked(turn.id, event) {
        Some(params) => same(
            a,
            go(StageView::Asked { turn, question: event }, ActionView::AskClient(params)),
        ),
        None => if waits(event) {
            tell_pi(a, turn, cancelled_response(event))
        } else {
            same(a, listen(turn))
        },
    }
}

/// Pi is sent a record, and is listened to again.
pub open spec fn tell_pi(a: AdapterView, turn: TurnOf, message: JsonView) -> Step {
    match message_record(message) {
        Err(text) => prompt_failed(a, turn.session, Seq::empty(), internal(text)),
        Ok(record) => same(
            a,
            OutcomeView { to_pi: Some((turn.session, record)), ..listen(turn) },
        ),
    }
}

/// Pi is sent a message, and nothing is left to do.
pub open spec fn answer_pi(session: usize, message: JsonView) -> OutcomeView {
    match message_record(message) {
        Err(text) => warn("failed to answer a Pi extension: "@ + text),
        Ok(record) => OutcomeView {
            messages: Seq::empty(),
            to_pi: Some((session, record)),
            warning: None,
            next: NextView::Done,
        },
    }
}

/// Pi says something while no turn listens to it. Where an extension asks the user, the client is
/// asked, if it can be and knows the session already, and else the extension is told so at once,
/// if it waits. Everything else is passed over, and so is a process that is closed.
pub open spec fn unheard(a: AdapterView, session: usize, event: PiEventView) -> Step {
    let live = a.live[session as int];
    let wanted = match event {
        PiEventView::Message(value) => if is_question(value) && waits(value) && !live.pi.closed {
            Some(value)
        } else {
            None
        },
        PiEventView::Exited(_) => None,
    };
    same(
        a,
        match wanted {
            None => send(Seq::empty(), NextView::Done),
            Some(question) => match known_question(live.known_as, question) {
                Some(params) => go(
                    StageView::Unheard { session, question },
                    ActionView::AskClient(params),
                ),
                None => answer_pi(session, cancelled_response(question)),
            },
        },
    )
}

/// What the client is asked, where it can be asked for what the extension wants and knows the
/// session.
pub open spec fn known_question(id: Option<Seq<char>>, question: JsonView) -> Option<JsonView> {
    match id {
        Some(id) => asked(id, question),
        None => None,
    }
}

/// The time for a turn is over while the client is asked: the extension is told so, and does not
/// wait any longer.
pub open spec fn unanswered(a: AdapterView, session: usize, question: JsonView) -> Step {
    let after = prompt_failed(a, session, Seq::empty(), internal(turn_timeout()));
    match message_record(cancelled_response(question)) {
        Err(_) => after,
        Ok(record) => Step {
            adapter: after.adapter,
            outcome: OutcomeView { to_pi: Some((session, record)), ..after.outcome },
        },
    }
}

/// Pi was listened to.
pub open spec fn turning(a: AdapterView, turn: TurnOf, event: EventView) -> Step {
    let failed = |text: Seq<char>| prompt_failed(a, turn.session, Seq::empty(), internal(text));
    match event {
        EventView::Heard(PiEventView::Message(value)) => if is_question(value) {
            question(a, turn, value)
        } else {
            same(a, go(StageView::Locating { turn, event: value }, ActionView::Locate))
        },
        EventView::Heard(PiEventView::Exited(text)) => failed(text),
        EventView::Lagged(count) => failed(
            "Pi event buffer overflowed by "@ + decimal(count as nat) + " records"@,
        ),
        EventView::StreamEnded => failed("Pi event stream closed"@),
        _ => failed(turn_timeout()),
    }
}

/// Why a turn that takes too long is over.
pub open spec fn turn_timeout() -> Seq<char> {
    "Pi turn exceeded 3600s"@
}

/// Whether an event ends a turn.
pub open spec fn settles(event: JsonView) -> bool {
    event.str_at("type"@) == Some("agent_settled"@)
}

/// Whether an event ends a turn unless Pi will go on by itself.
pub open spec fn may_settle(event: JsonView) -> bool {
    event.str_at("type"@) == Some("agent_end"@) && !event.is_true("willRetry"@)
}

/// What the log is told when many edits are under way.
pub open spec fn near_limit_warning(before: TurnView, after: TurnView) -> Option<Seq<char>> {
    if !before.warned && after.warned {
        Some("Pi ACP tracked edit tools are near the configured limit"@)
    } else {
        None
    }
}

/// An event of a turn, with the file that it is about: the client is told what it leads to.
pub open spec fn heard_event(
    a: AdapterView,
    turn: TurnOf,
    event: JsonView,
    location: Option<Seq<char>>,
    file: Option<Seq<char>>,
) -> Step {
    let after = event_outcome(event, location, file, turn.state);
    let later = TurnOf { state: after.state, ..turn };
    match outcome_updates(after.bodies) {
        Err(text) => prompt_failed(a, turn.session, Seq::empty(), internal(text)),
        Ok(updates) => {
            let told = updates_told(turn.id, updates);
            match told.error {
                Some(text) => prompt_failed(
                    a,
                    turn.session,
                    as_updates(told.params),
                    internal(text),
                ),
                None => same(
                    a,
                    OutcomeView {
                        messages: as_updates(told.params),
                        to_pi: None,
                        warning: near_limit_warning(turn.state, after.state),
                        next: if settles(event) {
                            NextView::Do(
                                StageView::Settling { session: turn.session, id: turn.id },
                                ask(turn.session, plain_command("get_state"@)),
                            )
                        } else if may_settle(event) {
                            NextView::Do(
                                StageView::EndState(later),
                                ask(turn.session, plain_command("get_state"@)),
                            )
                        } else {
                            NextView::Do(
                                StageView::Turning(later),
                                ActionView::Listen(turn.session),
                            )
                        },
                    },
                ),
            }
        },
    }
}

/// The file of an event was found: it is read where its text is needed.
pub open spec fn locating(
    a: AdapterView,
    turn: TurnOf,
    event: JsonView,
    location: Option<Seq<char>>,
) -> Step {
    match file_needed(event, location, turn.state) {
        Some(path) => same(
            a,
            go(StageView::Reading { turn, event, location }, ActionView::ReadFile(path)),
        ),
        None => heard_event(a, turn, event, location, None),
    }
}

/// Whether Pi does nothing and has nothing left to do.
pub open spec fn is_idle(state: JsonView) -> bool {
    &&& !state.is_true("isStreaming"@)
    &&& !state.is_true("isCompacting"@)
    &&& match state.get("pendingMessageCount"@) {
        Some(count) => match count.as_u64() {
            Some(count) => count == 0,
            None => true,
        },
        None => true,
    }
}

/// Pi told its state at what may be the end of a turn.
pub open spec fn end_state(
    a: AdapterView,
    turn: TurnOf,
    answer: Result<JsonView, Seq<char>>,
) -> Step {
    match answer {
        Err(text) => prompt_failed(a, turn.session, Seq::empty(), internal(text)),
        Ok(state) => same(
            a.with_state(turn.session, state),
            if is_idle(state) {
                go(
                    StageView::Settling { session: turn.session, id: turn.id },
                    ask(turn.session, plain_command("get_state"@)),
                )
            } else {
                listen(turn)
            },
        ),
    }
}

/// Pi told its state at the end of a turn, or did not.
pub open spec fn settling(
    a: AdapterView,
    session: usize,
    id: Seq<char>,
    answer: Result<JsonView, Seq<char>>,
) -> Step {
    match answer {
        Err(_) => prompt_done(a, session, None),
        Ok(state) => same(
            a.with_state(session, state),
            go(
                StageView::Dating { session, id, after: AfterView::Turn },
                ActionView::ReadClock,
            ),
        ),
    }
}

/// Pi told its state after it cloned a session: the clone gets its id, and goes to the index.
pub open spec fn clone_state(
    a: AdapterView,
    session: usize,
    source: Seq<char>,
    answer: Result<JsonView, Seq<char>>,
) -> Step {
    match answer {
        Err(text) => same(a, fail(internal(text))),
        Ok(state) => match state.str_at("sessionFile"@) {
            None => same(a, fail(internal("Pi clone did not return a session file"@))),
            Some(file) => {
                let id = match state.str_at("sessionId"@) {
                    Some(id) => id,
                    None => source,
                };
                same(
                    a.with_file(session, file).with_state(session, state).with_id(id, session),
                    go(
                        StageView::Dating { session, id, after: AfterView::Fork { id } },
                        ActionView::ReadClock,
                    ),
                )
            },
        },
    }
}

/// The index was listed: the client gets a page.
pub open spec fn listing(
    a: AdapterView,
    cursor: Option<Seq<char>>,
    found: Result<Seq<SessionView>, Seq<char>>,
) -> Step {
    same(
        a,
        match found {
            Err(text) => fail(internal(text)),
            Ok(sessions) => reply(listed_json(page_at(sessions, page_start(cursor) as int))),
        },
    )
}

/// What the log is told of a notification that failed, which gets no answer.
pub open spec fn notification_failed(text: Seq<char>) -> Seq<char> {
    "ACP notification failed: "@ + text
}

/// What an event leads to, at a stage that waits for it.
pub open spec fn step(a: AdapterView, stage: StageView, event: EventView) -> Step {
    let timed_out = |turn: TurnOf|
        prompt_failed(a, turn.session, Seq::empty(), internal(turn_timeout()));
    match (stage, event) {
        (StageView::Restoring { id, goal }, EventView::Stored(found)) => restoring(
            a,
            id,
            goal,
            found,
        ),
        (
            StageView::ForkSource { source, cwd, prompt },
            EventView::Stored(found),
        ) => fork_source(a, source, cwd, prompt, found),
        (StageView::Checking { opening, goal }, EventView::Absolute(absolute)) => checking(
            a,
            opening,
            goal,
            absolute,
        ),
        (
            StageView::Starting { session, opening, goal },
            EventView::Started(started),
        ) => starting(a, session, opening, goal, started),
        (StageView::Asking { session, opening, goal }, EventView::Both(answer)) => asking(
            a,
            session,
            opening,
            goal,
            answer,
        ),
        (StageView::Naming { session, known_as, goal }, EventView::Fresh(id)) => register(
            a,
            session,
            id,
            known_as,
            goal,
        ),
        (StageView::Dating { session, id, after }, EventView::Now(now)) => dating(
            a,
            session,
            id,
            after,
            now,
        ),
        (StageView::Indexing { session, after }, EventView::Finished(finished)) => indexing(
            a,
            session,
            after,
            finished,
        ),
        (StageView::Commands { session: _, id }, EventView::Answer(answer)) => commands_known(
            a,
            id,
            answer,
        ),
        (StageView::Replaying { session, id }, EventView::Answer(answer)) => replaying(
            a,
            session,
            id,
            answer,
        ),
        (StageView::Mode { session, id, mode }, EventView::Answer(answer)) => then_state(
            a,
            session,
            StageView::ModeState { session, id, mode },
            answer,
        ),
        (StageView::ModeState { session, id, mode }, EventView::Answer(answer)) => mode_known(
            a,
            session,
            id,
            mode,
            answer,
        ),
        (StageView::Choosing { session, id }, EventView::Answer(answer)) => then_state(
            a,
            session,
            StageView::ChosenState { session, id },
            answer,
        ),
        (StageView::ChosenState { session, id }, EventView::Answer(answer)) => option_known(
            a,
            session,
            id,
            answer,
        ),
        (StageView::Queued { session, id, blocks }, EventView::TurnTaken) => queued(
            a,
            session,
            id,
            blocks,
        ),
        (StageView::Slashing { session, id, output }, EventView::Answer(answer)) => slashing(
            a,
            session,
            id,
            output,
            answer,
        ),
        (StageView::SlashState { session, id, text }, EventView::Answer(answer)) => slash_state(
            a,
            session,
            id,
            text,
            answer,
        ),
        (StageView::Prompting(turn), EventView::Answer(answer)) => prompting(a, turn, answer),
        (StageView::Turning(turn), event) => turning(a, turn, event),
        (StageView::Locating { turn, event }, EventView::Location(location)) => locating(
            a,
            turn,
            event,
            location,
        ),
        (StageView::Reading { turn, event, location }, EventView::File(file)) => heard_event(
            a,
            turn,
            event,
            location,
            file,
        ),
        (StageView::Reading { turn, event: _, location: _ }, _) => timed_out(turn),
        (StageView::Asked { turn, question }, EventView::Replied(answer)) => tell_pi(
            a,
            turn,
            response_of(question, answer),
        ),
        (StageView::Asked { turn, question }, _) => unanswered(a, turn.session, question),
        (StageView::EndState(turn), EventView::Answer(answer)) => end_state(a, turn, answer),
        (StageView::EndState(turn), _) => timed_out(turn),
        (StageView::Settling { session, id }, EventView::Answer(answer)) => settling(
            a,
            session,
            id,
            answer,
        ),
        (StageView::Cloning { session, source }, EventView::Answer(answer)) => then_state(
            a,
            session,
            StageView::CloneState { session, source },
            answer,
        ),
        (StageView::CloneState { session, source }, EventView::Answer(answer)) => clone_state(
            a,
            session,
            source,
            answer,
        ),
        (StageView::Closing, EventView::Finished(finished)) => same(
            a,
            match finished {
                Err(text) => fail(internal(text)),
                Ok(_) => reply(JsonView::object()),
            },
        ),
        (StageView::Listing { cursor }, EventView::Listed(found)) => listing(a, cursor, found),
        (StageView::Unheard { session, question }, EventView::Replied(answer)) => same(
            a,
            answer_pi(session, response_of(question, answer)),
        ),
        (StageView::Aborting, EventView::Answer(answer)) => same(
            a,
            match answer {
                Err(text) => warn(notification_failed(text)),
                Ok(_) => send(Seq::empty(), NextView::Done),
            },
        ),
        _ => same(a, send(Seq::empty(), NextView::Done)),
    }
}

/// The session whose queue a stage has a place in.
pub open spec fn place_in_queue(stage: StageView) -> Option<usize> {
    match stage {
        StageView::Queued { session, .. } => Some(session),
        StageView::Slashing { session, .. } => Some(session),
        StageView::SlashState { session, .. } => Some(session),
        StageView::Prompting(turn) => Some(turn.session),
        StageView::Turning(turn) => Some(turn.session),
        StageView::Locating { turn, .. } => Some(turn.session),
        StageView::Reading { turn, .. } => Some(turn.session),
        StageView::Asked { turn, .. } => Some(turn.session),
        StageView::EndState(turn) => Some(turn.session),
        StageView::Settling { session, .. } => Some(session),
        StageView::Dating { session, after: AfterView::Slash { .. }, .. } => Some(session),
        StageView::Dating { session, after: AfterView::Turn, .. } => Some(session),
        StageView::Indexing { session, after: AfterView::Slash { .. } } => Some(session),
        StageView::Indexing { session, after: AfterView::Turn } => Some(session),
        _ => None,
    }
}

/// The session whose turn a stage has.
pub open spec fn turn_of(stage: StageView) -> Option<usize> {
    if stage is Queued {
        None
    } else {
        place_in_queue(stage)
    }
}

/// Whether a prompt that waits for its turn may take it: no other has it.
pub open spec fn may_take_turn(a: AdapterView, stage: StageView) -> bool {
    stage matches StageView::Queued { session, .. } ==> !a.live[session as int].busy
}

/// A request is given up at a stage, because a message could not be sent.
pub open spec fn give_up(a: AdapterView, stage: StageView, text: Seq<char>) -> Step {
    Step {
        adapter: match turn_of(stage) {
            Some(session) => a.released(session),
            None => match place_in_queue(stage) {
                Some(session) => a.unqueued(session),
                None => a,
            },
        },
        outcome: match stage {
            StageView::Aborting => warn(notification_failed(text)),
            StageView::Unheard { session, question } => answer_pi(
                session,
                cancelled_response(question),
            ),
            _ => fail(internal(text)),
        },
    }
}

/// Whether a goal speaks of sessions below `count` only.
pub open spec fn goal_holds(goal: GoalView, count: nat) -> bool {
    goal matches GoalView::Fork { original: Some(original), .. } ==> original < count
}

/// Whether what comes after the index speaks of sessions below `count` only.
pub open spec fn after_holds(after: AfterView, count: nat) -> bool {
    after matches AfterView::Open { goal, .. } ==> goal_holds(goal, count)
}

/// Whether a stage speaks of sessions below `count` only.
pub open spec fn stage_holds(stage: StageView, count: nat) -> bool {
    match stage {
        StageView::Restoring { goal, .. } => goal_holds(goal, count),
        StageView::ForkSource { .. } => true,
        StageView::Checking { goal, .. } => goal_holds(goal, count),
        StageView::Starting { session, goal, .. } => session < count && goal_holds(goal, count),
        StageView::Asking { session, goal, .. } => session < count && goal_holds(goal, count),
        StageView::Naming { session, goal, .. } => session < count && goal_holds(goal, count),
        StageView::Dating { session, after, .. } => session < count && after_holds(after, count),
        StageView::Indexing { session, after } => session < count && after_holds(after, count),
        StageView::Commands { session, .. } => session < count,
        StageView::Replaying { session, .. } => session < count,
        StageView::Mode { session, .. } => session < count,
        StageView::ModeState { session, .. } => session < count,
        StageView::Choosing { session, .. } => session < count,
        StageView::ChosenState { session, .. } => session < count,
        StageView::Queued { session, .. } => session < count,
        StageView::Slashing { session, .. } => session < count,
        StageView::SlashState { session, .. } => session < count,
        StageView::Prompting(turn) => turn.session < count,
        StageView::Turning(turn) => turn.session < count,
        StageView::Locating { turn, .. } => turn.session < count,
        StageView::Reading { turn, .. } => turn.session < count,
        StageView::Asked { turn, .. } => turn.session < count,
        StageView::EndState(turn) => turn.session < count,
        StageView::Settling { session, .. } => session < count,
        StageView::Cloning { session, .. } => session < count,
        StageView::CloneState { session, .. } => session < count,
        StageView::Closing => true,
        StageView::Listing { .. } => true,
        StageView::Aborting => true,
        StageView::Unheard { session, .. } => session < count,
    }
}

/// Whether an action is done by looking, without work outside.
pub open spec fn is_look(action: ActionView) -> bool {
    action is CheckCwd || action is NameSession || action is ReadClock || action is Locate
}

/// What a look can show at a stage: a directory that is absolute is not relative everywhere, a
/// name that is made up is a UUID, a clock shows a time, and a tool call has the file that its
/// arguments name, seen from where its session works.
pub open spec fn can_show(a: AdapterView, stage: StageView, event: EventView) -> bool {
    match (stage, event) {
        (StageView::Checking { opening, .. }, EventView::Absolute(absolute)) => absolute
            ==> !is_plain(opening.cwd),
        (StageView::Naming { .. }, EventView::Fresh(id)) => is_uuid(id),
        (StageView::Dating { .. }, EventView::Now(now)) => now matches Some(now) ==> is_time(now),
        (StageView::Locating { turn, event }, EventView::Location(location)) => is_location(
            event.get("args"@),
            a.live[turn.session as int].cwd,
            location,
        ),
        _ => false,
    }
}

/// What a step leads to when the looks that it asks for show `shown`, one after the other. A step
/// that asks for a look does nothing else.
pub open spec fn seen(before: Step, shown: Seq<EventView>) -> Step
    decreases shown.len(),
{
    match before.outcome.next {
        NextView::Do(stage, action) if is_look(action) && shown.len() > 0 => seen(
            step(before.adapter, stage, shown.first()),
            shown.drop_first(),
        ),
        _ => before,
    }
}

/// Whether looks could show `shown` after a step, one after the other, and no look is left.
pub open spec fn could_see(before: Step, shown: Seq<EventView>) -> bool
    decreases shown.len(),
{
    match before.outcome.next {
        NextView::Do(stage, action) if is_look(action) => {
            &&& shown.len() > 0
            &&& can_show(before.adapter, stage, shown.first())
            &&& could_see(step(before.adapter, stage, shown.first()), shown.drop_first())
        },
        _ => shown.len() == 0,
    }
}

/// Whether every id stands for a session that there is.
pub open spec fn sound(a: AdapterView) -> bool {
    forall|id: Seq<char>| #[trigger]
        a.sessions.contains_key(id) ==> a.sessions[id] < a.live.len()
}

/// Whether what is left to do speaks of sessions below `count` only.
pub open spec fn next_holds(next: NextView, count: nat) -> bool {
    next matches NextView::Do(stage, _) ==> stage_holds(stage, count)
}

/// Whether a look is asked for at a stage that waits for what it shows.
pub open spec fn asks_rightly(next: NextView) -> bool {
    match next {
        NextView::Do(stage, action) => {
            &&& action is CheckCwd <==> stage is Checking
            &&& action is NameSession <==> stage is Naming
            &&& action is ReadClock <==> stage is Dating
            &&& action is Locate <==> stage is Locating
        },
        _ => true,
    }
}

/// Whether a step keeps every session that there was, and goes on with sessions that there are.
pub open spec fn keeps(a: AdapterView, after: Step) -> bool {
    &&& after.adapter.live.len() >= a.live.len()
    &&& sound(after.adapter)
    &&& next_holds(after.outcome.next, after.adapter.live.len())
    &&& asks_rightly(after.outcome.next)
}

/// A session that was opened is kept.
proof fn lemma_proceed_keeps(a: AdapterView, session: usize, id: Seq<char>, goal: GoalView)
    requires
        sound(a),
        session < a.live.len(),
        goal_holds(goal, a.live.len()),
    ensures
        keeps(a, proceed(a, session, id, goal)),
{
}

/// No request makes a session disappear while others are at work on it, nor goes on with one that
/// there is not.
pub proof fn requests_keep_sessions(a: AdapterView, request: RequestView)
    requires
        sound(a),
    ensures
        keeps(a, begin(a, request)),
{
    match request {
        RequestView::Load(id, _) => if let Some(session) = running(a, id) {
            lemma_proceed_keeps(a, session, id, GoalView::Load { id });
        },
        RequestView::Resume(id, _) => if let Some(session) = running(a, id) {
            lemma_proceed_keeps(a, session, id, GoalView::Resume);
        },
        RequestView::SetMode { session_id, mode } => if let Some(session) = running(a, session_id) {
            lemma_proceed_keeps(
                a,
                session,
                session_id,
                GoalView::SetMode { id: session_id, mode },
            );
        },
        RequestView::SetOption { session_id, option, value } => if let Some(session) = running(
            a,
            session_id,
        ) {
            lemma_proceed_keeps(
                a,
                session,
                session_id,
                GoalView::SetOption { id: session_id, option, value },
            );
        },
        RequestView::Prompt { session_id, blocks } => if let Some(session) = running(
            a,
            session_id,
        ) {
            lemma_proceed_keeps(
                a,
                session,
                session_id,
                GoalView::Prompt { id: session_id, blocks },
            );
        },
        _ => {},
    }
}

/// The end of a prompt keeps every session.
proof fn lemma_released_keeps(a: AdapterView, session: usize)
    requires
        sound(a),
        session < a.live.len(),
    ensures
        sound(a.released(session)),
        a.released(session).live.len() == a.live.len(),
{
}

/// A prompt that fails keeps every session.
proof fn lemma_prompt_failed_keeps(
    a: AdapterView,
    session: usize,
    messages: Seq<MessageView>,
    error: ErrorView,
)
    requires
        sound(a),
        session < a.live.len(),
    ensures
        keeps(a, prompt_failed(a, session, messages, error)),
{
    lemma_released_keeps(a, session);
}

/// A prompt that is done keeps every session.
proof fn lemma_prompt_done_keeps(a: AdapterView, session: usize, warning: Option<Seq<char>>)
    requires
        sound(a),
        session < a.live.len(),
    ensures
        keeps(a, prompt_done(a, session, warning)),
{
    lemma_released_keeps(a, session);
}

/// A slash command that is done keeps every session.
proof fn lemma_slash_done_keeps(a: AdapterView, session: usize, id: Seq<char>, text: Seq<char>)
    requires
        sound(a),
        session < a.live.len(),
    ensures
        keeps(a, slash_done(a, session, id, text)),
{
    lemma_released_keeps(a, session);
}

/// Bringing the index up to date keeps every session.
proof fn lemma_indexing_keeps(
    a: AdapterView,
    session: usize,
    after: AfterView,
    finished: Result<(), Seq<char>>,
)
    requires
        sound(a),
        session < a.live.len(),
        after_holds(after, a.live.len()),
    ensures
        keeps(a, indexing(a, session, after, finished)),
{
    match after {
        AfterView::Open { id, known_as, goal } => {
            let b = match known_as {
                Some(name) => a.with_id(name, session),
                None => a,
            };
            lemma_proceed_keeps(b, session, id, goal);
        },
        AfterView::Slash { id, text } => {
            if let Err(text) = finished {
                lemma_prompt_failed_keeps(a, session, Seq::empty(), internal(text));
            }
            lemma_slash_done_keeps(a, session, id, text);
        },
        AfterView::Turn => {
            let warning = match finished {
                Err(text) => Some("failed to update Pi ACP session index: "@ + text),
                Ok(_) => None,
            };
            lemma_prompt_done_keeps(a, session, warning);
        },
        AfterView::Fork { .. } => {},
    }
}

/// An event of a turn keeps every session.
proof fn lemma_heard_event_keeps(
    a: AdapterView,
    turn: TurnOf,
    event: JsonView,
    location: Option<Seq<char>>,
    file: Option<Seq<char>>,
)
    requires
        sound(a),
        turn.session < a.live.len(),
    ensures
        keeps(a, heard_event(a, turn, event, location, file)),
{
    let after = event_outcome(event, location, file, turn.state);
    match outcome_updates(after.bodies) {
        Err(text) => {
            lemma_prompt_failed_keeps(a, turn.session, Seq::empty(), internal(text));
        },
        Ok(updates) => {
            let told = updates_told(turn.id, updates);
            if let Some(text) = told.error {
                lemma_prompt_failed_keeps(
                    a,
                    turn.session,
                    as_updates(told.params),
                    internal(text),
                );
            }
        },
    }
}

/// Telling Pi something keeps every session.
proof fn lemma_tell_pi_keeps(a: AdapterView, turn: TurnOf, message: JsonView)
    requires
        sound(a),
        turn.session < a.live.len(),
    ensures
        keeps(a, tell_pi(a, turn, message)),
{
    if let Err(text) = message_record(message) {
        lemma_prompt_failed_keeps(a, turn.session, Seq::empty(), internal(text));
    }
}

/// Listening to Pi keeps every session.
proof fn lemma_turning_keeps(a: AdapterView, turn: TurnOf, event: EventView)
    requires
        sound(a),
        turn.session < a.live.len(),
    ensures
        keeps(a, turning(a, turn, event)),
{
    match event {
        EventView::Heard(PiEventView::Message(value)) => {
            lemma_tell_pi_keeps(a, turn, cancelled_response(value));
        },
        EventView::Heard(PiEventView::Exited(text)) => {
            lemma_prompt_failed_keeps(a, turn.session, Seq::empty(), internal(text));
        },
        EventView::Lagged(count) => {
            lemma_prompt_failed_keeps(
                a,
                turn.session,
                Seq::empty(),
                internal("Pi event buffer overflowed by "@ + decimal(count as nat) + " records"@),
            );
        },
        EventView::StreamEnded => {
            lemma_prompt_failed_keeps(
                a,
                turn.session,
                Seq::empty(),
                internal("Pi event stream closed"@),
            );
        },
        _ => {
            lemma_prompt_failed_keeps(a, turn.session, Seq::empty(), internal(turn_timeout()));
        },
    }
}

/// A prompt that has the turn keeps every session.
proof fn lemma_queued_keeps(a: AdapterView, session: usize, id: Seq<char>, blocks: Seq<BlockView>)
    requires
        sound(a),
        session < a.live.len(),
    ensures
        keeps(a, queued(a, session, id, blocks)),
{
    let b = a.with_cancelled(session, false).with_busy(session, true);
    if let Err(text) = prompt_of(blocks) {
        lemma_prompt_failed_keeps(b, session, Seq::empty(), internal(text));
    }
}

/// Opening a session keeps every session.
proof fn lemma_asking_keeps(
    a: AdapterView,
    session: usize,
    opening: OpeningView,
    goal: GoalView,
    answer: Result<(JsonView, JsonView), Seq<char>>,
)
    requires
        sound(a),
        session < a.live.len(),
        goal_holds(goal, a.live.len()),
    ensures
        keeps(a, asking(a, session, opening, goal, answer)),
{
}

/// Opening, listing and closing sessions keep every session.
proof fn lemma_request_steps_keep(a: AdapterView, stage: StageView, event: EventView)
    requires
        sound(a),
        stage_holds(stage, a.live.len()),
        a.live.len() <= usize::MAX,
        place_in_queue(stage) is None,
    ensures
        keeps(a, step(a, stage, event)),
{
    match (stage, event) {
        (StageView::Indexing { session, after }, EventView::Finished(finished)) => {
            lemma_indexing_keeps(a, session, after, finished);
        },
        (StageView::Asking { session, opening, goal }, EventView::Both(answer)) => {
            lemma_asking_keeps(a, session, opening, goal, answer);
        },
        _ => {},
    }
}

/// The stages of a prompt keep every session.
proof fn lemma_prompt_steps_keep(a: AdapterView, stage: StageView, event: EventView)
    requires
        sound(a),
        stage_holds(stage, a.live.len()),
        place_in_queue(stage) is Some,
    ensures
        keeps(a, step(a, stage, event)),
{
    match (stage, event) {
        (StageView::Indexing { session, after }, EventView::Finished(finished)) => {
            lemma_indexing_keeps(a, session, after, finished);
        },
        (StageView::Queued { session, id, blocks }, _) => {
            lemma_queued_keeps(a, session, id, blocks);
        },
        (StageView::Slashing { session, .. }, EventView::Answer(answer)) => {
            if let Err(text) = answer {
                lemma_prompt_failed_keeps(a, session, Seq::empty(), internal(text));
            }
        },
        (StageView::SlashState { session, id, text }, _) => {
            lemma_slash_done_keeps(a, session, id, text);
        },
        (StageView::Settling { session, .. }, _) => {
            lemma_prompt_done_keeps(a, session, None);
        },
        (StageView::Prompting(turn), EventView::Answer(answer)) => {
            if let Err(text) = answer {
                lemma_prompt_failed_keeps(a, turn.session, Seq::empty(), internal(text));
            }
        },
        (StageView::Turning(turn), _) => {
            lemma_turning_keeps(a, turn, event);
        },
        (StageView::Locating { turn, event }, EventView::Location(location)) => {
            lemma_heard_event_keeps(a, turn, event, location, None);
        },
        (StageView::Reading { turn, event, location }, EventView::File(file)) => {
            lemma_heard_event_keeps(a, turn, event, location, file);
        },
        (StageView::Reading { turn, .. }, _) => {
            lemma_prompt_failed_keeps(a, turn.session, Seq::empty(), internal(turn_timeout()));
        },
        (StageView::Asked { turn, question }, EventView::Replied(answer)) => {
            lemma_tell_pi_keeps(a, turn, response_of(question, answer));
        },
        (StageView::Asked { turn, .. }, _) => {
            lemma_prompt_failed_keeps(a, turn.session, Seq::empty(), internal(turn_timeout()));
        },
        (StageView::EndState(turn), EventView::Answer(answer)) => {
            if let Err(text) = answer {
                lemma_prompt_failed_keeps(a, turn.session, Seq::empty(), internal(text));
            }
        },
        (StageView::EndState(turn), _) => {
            lemma_prompt_failed_keeps(a, turn.session, Seq::empty(), internal(turn_timeout()));
        },
        _ => {},
    }
}

/// No event makes a session disappear while others are at work on it, nor goes on with one that
/// there is not.
pub proof fn steps_keep_sessions(a: AdapterView, stage: StageView, event: EventView)
    requires
        sound(a),
        stage_holds(stage, a.live.len()),
        a.live.len() <= usize::MAX,
    ensures
        keeps(a, step(a, stage, event)),
{
    if place_in_queue(stage) is Some {
        lemma_prompt_steps_keep(a, stage, event);
    } else {
        lemma_request_steps_keep(a, stage, event);
    }
}

/// How many looks can still be asked for.
pub open spec fn looks_left(next: NextView) -> nat {
    match next {
        NextView::Do(_, ActionView::NameSession) => 2,
        NextView::Do(_, action) => if is_look(action) {
            1
        } else {
            0
        },
        _ => 0,
    }
}

/// After a look fewer can be asked for, and the next one is asked for rightly.
pub proof fn lemma_looks_end(
    a: AdapterView,
    stage: StageView,
    action: ActionView,
    event: EventView,
)
    requires
        is_look(action),
        asks_rightly(NextView::Do(stage, action)),
        can_show(a, stage, event),
    ensures
        asks_rightly(step(a, stage, event).outcome.next),
        looks_left(step(a, stage, event).outcome.next) < looks_left(NextView::Do(stage, action)),
{
}

/// Whether looks could show `shown` after `first`, one after the other, and lead to `last`.
pub open spec fn shows(first: Step, shown: Seq<EventView>, last: Step) -> bool
    decreases shown.len(),
{
    if shown.len() == 0 {
        first == last
    } else {
        match first.outcome.next {
            NextView::Do(stage, action) => {
                &&& is_look(action)
                &&& can_show(first.adapter, stage, shown.first())
                &&& shows(
                    step(first.adapter, stage, shown.first()),
                    shown.drop_first(),
                    last,
                )
            },
            _ => false,
        }
    }
}

/// Without a look nothing changes.
pub proof fn lemma_seen_nothing(first: Step)
    ensures
        shows(first, Seq::empty(), first),
{
}

/// One look more shows one event more.
pub proof fn lemma_shows_more(first: Step, shown: Seq<EventView>, last: Step, event: EventView)
    requires
        shows(first, shown, last),
        last.outcome.next matches NextView::Do(stage, action) && is_look(action) && can_show(
            last.adapter,
            stage,
            event,
        ),
    ensures
        last.outcome.next matches NextView::Do(stage, _) && shows(
            first,
            shown.push(event),
            step(last.adapter, stage, event),
        ),
    decreases shown.len(),
{
    let more = shown.push(event);
    if shown.len() == 0 {
        assert(more.drop_first() =~= Seq::empty());
        assert(more.first() == event);
        if let NextView::Do(stage, _) = last.outcome.next {
            assert(shows(step(first.adapter, stage, event), more.drop_first(), step(
                last.adapter,
                stage,
                event,
            )));
        }
    } else {
        assert(more.first() == shown.first());
        assert(more.drop_first() =~= shown.drop_first().push(event));
        if let NextView::Do(stage, _) = first.outcome.next {
            lemma_shows_more(
                step(first.adapter, stage, shown.first()),
                shown.drop_first(),
                last,
                event,
            );
        }
    }
}

/// Where no look is left, what was shown is all there was to see.
pub proof fn lemma_shown(first: Step, shown: Seq<EventView>, last: Step)
    requires
        shows(first, shown, last),
        !(last.outcome.next matches NextView::Do(_, action) && is_look(action)),
    ensures
        could_see(first, shown),
        seen(first, shown) == last,
    decreases shown.len(),
{
    if shown.len() > 0 {
        if let NextView::Do(stage, _) = first.outcome.next {
            lemma_shown(step(first.adapter, stage, shown.first()), shown.drop_first(), last);
        }
    }
}

/// Whether a step leads to another when the looks that it asks for are taken.
pub open spec fn ends_at(first: Step, last: Step) -> bool {
    exists|shown: Seq<EventView>| #[trigger]
        could_see(first, shown) && seen(first, shown) == last
}

} // verus!
