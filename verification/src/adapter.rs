//! The adapter: what becomes of the client's requests.

use vstd::prelude::*;

use crate::acp::{internal_error, invalid_params, value_or_text, RpcError};
use crate::commands::{
    make_level_command, make_option_command, make_prompt_command, pretty_result, slash_command,
};
use crate::dialog::{asks_user, make_cancelled, needs_response, permission_request, respond};
use crate::flow::{
    fits, make_ask, make_fail, make_go, make_reply, make_send_one, make_send_two, message_views,
    unit_or_text, Action, After, Event, EventView, Goal, Message, MessageView, Next, NextView,
    Opening, Outcome, Stage, Turn,
};
use crate::index::{copy_option, opt_session, page, session_views, StoredSession};
use crate::json::{items_view, lemma_items_view, Json};
use crate::options::commands;
use crate::paths::{is_absolute, is_join, join_path};
use crate::pi_rpc::{
    after_command, command_of, command_view, ended, heard, make_plain_command, output_views,
    spawn_arguments, PiEvent, PiOutput, PiProcess, PiView, Received,
};
use crate::prompt::{block_views, prompt_to_pi, Block};
use crate::records::Rest;
use crate::replies::{
    configured, created, forked, initialized, listed, loaded, prompted, resumed, tell_commands,
    tell_mode, tell_options, tell_update, tell_updates,
};
use crate::requests::{Request, Workspace};
use crate::rules::{self, AdapterView, ConfigView, Step};
use crate::session::{
    fresh_id, leads, meta_string, now, stored_session, LiveSession, LiveView, Table,
};
use crate::text::{copy_texts, decimal_text, opt_string, texts};
use crate::translate::{
    file_to_read, message_history_updates, pi_event_updates, text_update, tool_location, TurnState,
};

verus! {

/// How the adapter was set up.
pub struct AdapterConfig {
    pub pi_command: String,
    pub state_dir: String,
    pub append_system_prompts: Vec<String>,
    pub pi_args: Vec<String>,
    pub max_queued_prompts: usize,
    pub max_tracked_tool_calls: usize,
}

impl View for AdapterConfig {
    type V = ConfigView;

    open spec fn view(&self) -> ConfigView {
        ConfigView {
            pi_command: self.pi_command@,
            state_dir: self.state_dir@,
            append_system_prompts: texts(self.append_system_prompts@),
            pi_args: texts(self.pi_args@),
            max_queued_prompts: self.max_queued_prompts,
            max_tracked_tool_calls: self.max_tracked_tool_calls,
        }
    }
}

/// The adapter: the sessions that it has had a process for, and which id stands for which of
/// them.
pub struct Adapter {
    config: AdapterConfig,
    session_dir: String,
    index_file: String,
    sessions: Table,
    live: Vec<LiveSession>,
}

impl View for Adapter {
    type V = AdapterView;

    closed spec fn view(&self) -> AdapterView {
        AdapterView {
            config: self.config@,
            session_dir: self.session_dir@,
            index_file: self.index_file@,
            sessions: self.sessions@,
            live: self.live@.map_values(|l: LiveSession| l@),
        }
    }
}

impl Adapter {
    /// Every id stands for a session.
    pub closed spec fn wf(&self) -> bool {
        &&& self.sessions.wf()
        &&& forall|id: Seq<char>| #[trigger]
            self.sessions@.contains_key(id) ==> self.sessions@[id] < self.live.len()
        &&& forall|i: int| 0 <= i < self.live.len() ==> (#[trigger] self.live[i]).pi.wf()
    }

    /// An adapter without sessions. Its sessions and its index are kept below its state directory.
    pub fn new(config: AdapterConfig) -> (r: Adapter)
        ensures
            r.wf(),
            r@ == (AdapterView {
                config: config@,
                session_dir: r@.session_dir,
                index_file: r@.index_file,
                sessions: Map::empty(),
                live: Seq::empty(),
            }),
            is_join(config.state_dir@, "pi-sessions"@, r@.session_dir),
            is_join(config.state_dir@, "sessions.json"@, r@.index_file),
    {
        let session_dir: String = join_path(config.state_dir.as_str(), "pi-sessions");
        let index_file: String = join_path(config.state_dir.as_str(), "sessions.json");
        let r = Adapter {
            config,
            session_dir,
            index_file,
            sessions: Table::new(),
            live: Vec::new(),
        };
        assert(r@.live =~= Seq::<LiveView>::empty());
        r
    }

    /// The program that Pi is.
    pub fn pi_command(&self) -> (r: &str)
        ensures
            r@ == self@.config.pi_command,
    {
        self.config.pi_command.as_str()
    }

    /// Where Pi keeps its sessions.
    pub fn session_dir(&self) -> (r: &str)
        ensures
            r@ == self@.session_dir,
    {
        self.session_dir.as_str()
    }

    /// The file that the index is kept in.
    pub fn index_file(&self) -> (r: &str)
        ensures
            r@ == self@.index_file,
    {
        self.index_file.as_str()
    }

    /// Whether a stage speaks of sessions only that there are.
    pub fn holds(&self, stage: &Stage) -> (r: bool)
        ensures
            r == rules::stage_holds(stage@, self@.live.len()),
    {
        let count: usize = self.live.len();
        match stage {
            Stage::Restoring { goal, .. } => goal_holds(goal, count),
            Stage::ForkSource { .. } => true,
            Stage::Checking { goal, .. } => goal_holds(goal, count),
            Stage::Starting { session, goal, .. } => *session < count && goal_holds(goal, count),
            Stage::Asking { session, goal, .. } => *session < count && goal_holds(goal, count),
            Stage::Naming { session, goal, .. } => *session < count && goal_holds(goal, count),
            Stage::Dating { session, after, .. } => *session < count && after_holds(after, count),
            Stage::Indexing { session, after } => *session < count && after_holds(after, count),
            Stage::Commands { session, .. } => *session < count,
            Stage::Replaying { session, .. } => *session < count,
            Stage::Mode { session, .. } => *session < count,
            Stage::ModeState { session, .. } => *session < count,
            Stage::Choosing { session, .. } => *session < count,
            Stage::ChosenState { session, .. } => *session < count,
            Stage::Queued { session, .. } => *session < count,
            Stage::Slashing { session, .. } => *session < count,
            Stage::SlashState { session, .. } => *session < count,
            Stage::Prompting(turn) => turn.session < count,
            Stage::Turning(turn) => turn.session < count,
            Stage::Locating { turn, .. } => turn.session < count,
            Stage::Reading { turn, .. } => turn.session < count,
            Stage::Asked { turn, .. } => turn.session < count,
            Stage::EndState(turn) => turn.session < count,
            Stage::Settling { session, .. } => *session < count,
            Stage::Cloning { session, .. } => *session < count,
            Stage::CloneState { session, .. } => *session < count,
            Stage::Closing => true,
            Stage::Listing { .. } => true,
            Stage::Aborting => true,
            Stage::Unheard { session, .. } => *session < count,
        }
    }

    /// How many sessions there are.
    pub fn session_count(&self) -> (r: usize)
        ensures
            r == self@.live.len(),
    {
        self.live.len()
    }

    /// The session that an id stands for.
    pub fn find(&self, id: &str) -> (r: Option<usize>)
        requires
            self.wf(),
        ensures
            r == (if self@.sessions.contains_key(id@) {
                Some(self@.sessions[id@])
            } else {
                None::<usize>
            }),
            r matches Some(session) ==> session < self@.live.len(),
    {
        self.sessions.get(id)
    }

    /// Lets an id stand for a session from now on.
    fn name(&mut self, id: &str, session: usize)
        requires
            old(self).wf(),
            session < old(self)@.live.len(),
        ensures
            final(self).wf(),
            final(self)@ == old(self)@.with_id(id@, session),
    {
        self.sessions.insert(id, session);
    }

    /// Lets an id stand for nothing. Returns what it stood for.
    fn unname(&mut self, id: &str) -> (r: Option<usize>)
        requires
            old(self).wf(),
        ensures
            final(self).wf(),
            final(self)@ == old(self)@.without_id(id@),
            r == (if old(self)@.sessions.contains_key(id@) {
                Some(old(self)@.sessions[id@])
            } else {
                None::<usize>
            }),
            r matches Some(session) ==> session < old(self)@.live.len(),
    {
        self.sessions.remove(id)
    }

    /// Lets a session be in a state.
    fn set_state(&mut self, session: usize, state: Json)
        requires
            old(self).wf(),
            session < old(self)@.live.len(),
        ensures
            final(self).wf(),
            final(self)@ == old(self)@.with_state(session, state@),
    {
        self.live[session].state = state;
        assert(self@.live =~= old(self)@.with_state(session, state@).live);
    }

    /// Lets a session have a file.
    fn set_file(&mut self, session: usize, file: &str)
        requires
            old(self).wf(),
            session < old(self)@.live.len(),
        ensures
            final(self).wf(),
            final(self)@ == old(self)@.with_file(session, file@),
    {
        self.live[session].session_file = file.to_owned();
        assert(self@.live =~= old(self)@.with_file(session, file@).live);
    }

    /// Lets a session be cancelled or not.
    fn set_cancelled(&mut self, session: usize, cancelled: bool)
        requires
            old(self).wf(),
            session < old(self)@.live.len(),
        ensures
            final(self).wf(),
            final(self)@ == old(self)@.with_cancelled(session, cancelled),
    {
        self.live[session].cancelled = cancelled;
        assert(self@.live =~= old(self)@.with_cancelled(session, cancelled).live);
    }

    /// Lets a session have a file, a state and models.
    fn set_opened(&mut self, session: usize, session_file: String, state: Json, models: Json)
        requires
            old(self).wf(),
            session < old(self)@.live.len(),
        ensures
            final(self).wf(),
            final(self)@ == old(self)@.with_live(
                session,
                LiveView {
                    session_file: session_file@,
                    state: state@,
                    models: models@,
                    ..old(self)@.live[session as int]
                },
            ),
    {
        let ghost after = old(self)@.with_live(
            session,
            LiveView {
                session_file: session_file@,
                state: state@,
                models: models@,
                ..old(self)@.live[session as int]
            },
        );
        self.live[session].session_file = session_file;
        self.live[session].state = state;
        self.live[session].models = models;
        assert(self@.live =~= after.live);
    }

    /// Lets the client know a session by an id.
    fn set_name(&mut self, session: usize, id: &str)
        requires
            old(self).wf(),
            session < old(self)@.live.len(),
        ensures
            final(self).wf(),
            final(self)@ == old(self)@.with_name(session, id@),
    {
        self.live[session].known_as = Some(id.to_owned());
        assert(self@.live =~= old(self)@.with_name(session, id@).live);
    }

    /// Marks the process of a session as closed. Whether it was open.
    fn close_pi(&mut self, session: usize) -> (r: bool)
        requires
            old(self).wf(),
            session < old(self)@.live.len(),
        ensures
            final(self).wf(),
            r == !old(self)@.live[session as int].pi.closed,
            final(self)@ == old(self)@.with_closed(session),
    {
        let r: bool = self.live[session].pi.close();
        assert(self@.live =~= old(self)@.with_closed(session).live);
        r
    }

    /// Takes a place in the queue of a session.
    fn queue_up(&mut self, session: usize) -> (r: Result<(), String>)
        requires
            old(self).wf(),
            session < old(self)@.live.len(),
        ensures
            final(self).wf(),
            ({
                let limit = old(self)@.config.max_queued_prompts;
                match r {
                    Ok(_) => {
                        &&& old(self)@.live[session as int].pi.queued_prompts < limit
                        &&& final(self)@ == old(self)@.admitted(session)
                    },
                    Err(text) => {
                        &&& old(self)@.live[session as int].pi.queued_prompts >= limit
                        &&& final(self)@ == old(self)@
                        &&& text@ == crate::pi_rpc::queue_message(limit)
                    },
                }
            }),
    {
        let limit: usize = self.config.max_queued_prompts;
        let r = self.live[session].pi.admit_prompt(limit);
        proof {
            if r is Ok {
                assert(self@.live =~= old(self)@.admitted(session).live);
            } else {
                assert(self@.live =~= old(self)@.live);
            }
        }
        r
    }

    /// Gives back a place in the queue of a session.
    fn leave_queue(&mut self, session: usize)
        requires
            old(self).wf(),
            session < old(self)@.live.len(),
        ensures
            final(self).wf(),
            final(self)@ == old(self)@.unqueued(session),
            final(self)@.live.len() == old(self)@.live.len(),
    {
        if self.live[session].pi.queued() > 0 {
            self.live[session].pi.release_prompt();
            assert(self@.live =~= old(self)@.unqueued(session).live);
        }
    }

    /// Lets a prompt have the turn of a session or not.
    fn set_busy(&mut self, session: usize, busy: bool)
        requires
            old(self).wf(),
            session < old(self)@.live.len(),
        ensures
            final(self).wf(),
            final(self)@ == old(self)@.with_busy(session, busy),
            final(self)@.live.len() == old(self)@.live.len(),
    {
        self.live[session].busy = busy;
        assert(self@.live =~= old(self)@.with_busy(session, busy).live);
    }

    /// Gives back the turn of a session and a place in its queue.
    fn release(&mut self, session: usize)
        requires
            old(self).wf(),
            session < old(self)@.live.len(),
        ensures
            final(self).wf(),
            final(self)@ == old(self)@.released(session),
    {
        self.leave_queue(session);
        self.set_busy(session, false);
    }

    /// Whether no prompt has the turn of a session.
    pub fn turn_is_free(&self, session: usize) -> (r: bool)
        requires
            session < self@.live.len(),
        ensures
            r == !self@.live[session as int].busy,
    {
        !self.live[session].busy
    }

    /// A session that was opened: what is done with it.
    fn proceed(&mut self, session: usize, id: String, goal: Goal) -> (r: Outcome)
        requires
            old(self).wf(),
            session < old(self)@.live.len(),
            rules::goal_holds(goal@, old(self)@.live.len()),
        ensures
            final(self).wf(),
            r.wf(),
            (Step { adapter: final(self)@, outcome: r@ }) == rules::proceed(
                old(self)@,
                session,
                id@,
                goal@,
            ),
    {
        match goal {
            Goal::Create => {
                let live: &LiveSession = &self.live[session];
                let result: Json = created(id.as_str(), &live.state, &live.models);
                self.set_name(session, id.as_str());
                make_send_one(
                    Message::Reply(result),
                    Next::Do(
                        Stage::Commands { session, id },
                        make_ask(session, make_plain_command("get_commands")),
                    ),
                )
            },
            Goal::Load { id } => make_go(
                Stage::Replaying { session, id },
                make_ask(session, make_plain_command("get_messages")),
            ),
            Goal::Resume => {
                let live: &LiveSession = &self.live[session];
                make_reply(resumed(&live.state, &live.models))
            },
            Goal::SetMode { id, mode } => {
                let command: Json = make_level_command(mode.as_str());
                make_go(Stage::Mode { session, id, mode }, make_ask(session, command))
            },
            Goal::SetOption { id, option, value } => match make_option_command(
                option.as_str(),
                value.as_str(),
            ) {
                Some(command) => make_go(
                    Stage::Choosing { session, id },
                    make_ask(session, command),
                ),
                None => make_fail(
                    invalid_params("unknown config option: ".to_owned().concat(option.as_str())),
                ),
            },
            Goal::Prompt { id, blocks } => match self.queue_up(session) {
                Ok(_) => make_go(Stage::Queued { session, id, blocks }, Action::TakeTurn(session)),
                Err(text) => make_fail(internal_error(text)),
            },
            Goal::Fork { source, original } => {
                match original {
                    Some(original) => self.name(source.as_str(), original),
                    None => {
                        self.unname(id.as_str());
                    },
                }
                make_go(
                    Stage::Cloning { session, source },
                    make_ask(session, make_plain_command("clone")),
                )
            },
        }
    }

    /// A session is to be opened.
    fn open_session(&self, opening: Opening, goal: Goal) -> (r: Outcome)
        ensures
            r.wf(),
            (Step { adapter: self@, outcome: r@ }) == rules::open_session(
                self@,
                opening@,
                goal@,
            ),
    {
        make_go(Stage::Checking { opening, goal }, Action::CheckCwd)
    }

    /// A known session is wanted.
    fn restore(&mut self, id: String, goal: Goal) -> (r: Outcome)
        requires
            old(self).wf(),
            rules::goal_holds(goal@, old(self)@.live.len()),
        ensures
            final(self).wf(),
            r.wf(),
            (Step { adapter: final(self)@, outcome: r@ }) == rules::restore(
                old(self)@,
                id@,
                goal@,
            ),
    {
        if let Some(session) = self.find(id.as_str()) {
            if !self.live[session].pi.is_closed() {
                return self.proceed(session, id, goal);
            }
        }
        let wanted: String = id.clone();
        make_go(Stage::Restoring { id, goal }, Action::FindStored(wanted))
    }

    /// What a request leads to. A look that is asked for is taken by [`Adapter::begin`].
    pub fn begin_step(&mut self, request: Request) -> (r: Outcome)
        requires
            old(self).wf(),
        ensures
            final(self).wf(),
            r.wf(),
            (Step { adapter: final(self)@, outcome: r@ }) == rules::begin(old(self)@, request@),
    {
        match request {
            Request::Initialize { protocol_version, terminal } => make_reply(
                initialized(protocol_version, terminal),
            ),
            Request::New(workspace) => {
                let prompt: Option<String> = wanted_prompt(&workspace);
                self.open_session(
                    Opening { cwd: workspace.cwd, file: None, prompt, known_as: None },
                    Goal::Create,
                )
            },
            Request::Load(id, _) => {
                let wanted: String = id.clone();
                self.restore(wanted, Goal::Load { id })
            },
            Request::Resume(id, _) => self.restore(id, Goal::Resume),
            Request::List { cwd, cursor } => make_go(
                Stage::Listing { cursor },
                Action::ListStored(cwd),
            ),
            Request::Close(id) => match self.unname(id.as_str()) {
                Some(session) => {
                    let ghost before = self@;
                    if self.close_pi(session) {
                        make_go(Stage::Closing, Action::Kill(session))
                    } else {
                        assert(self@.live =~= before.live);
                        make_reply(Json::object())
                    }
                },
                None => {
                    assert(self@.sessions =~= old(self)@.sessions);
                    make_reply(Json::object())
                },
            },
            Request::Fork(id, workspace) => {
                let prompt: Option<String> = wanted_prompt(&workspace);
                let wanted: String = id.clone();
                make_go(
                    Stage::ForkSource { source: id, cwd: workspace.cwd, prompt },
                    Action::FindStored(wanted),
                )
            },
            Request::SetMode { session_id, mode } => {
                let wanted: String = session_id.clone();
                self.restore(wanted, Goal::SetMode { id: session_id, mode })
            },
            Request::SetOption { session_id, option, value } => {
                let wanted: String = session_id.clone();
                self.restore(wanted, Goal::SetOption { id: session_id, option, value })
            },
            Request::Prompt { session_id, blocks } => {
                let wanted: String = session_id.clone();
                self.restore(wanted, Goal::Prompt { id: session_id, blocks })
            },
        }
    }

    /// What the cancellation of a session leads to.
    pub fn cancel(&mut self, id: &str) -> (r: Outcome)
        requires
            old(self).wf(),
        ensures
            final(self).wf(),
            r.wf(),
            (Step { adapter: final(self)@, outcome: r@ }) == rules::cancel(old(self)@, id@),
    {
        match self.find(id) {
            Some(session) => {
                self.set_cancelled(session, true);
                make_go(Stage::Aborting, make_ask(session, make_plain_command("abort")))
            },
            None => make_done(),
        }
    }
}

/// The parameters of updates as messages.
fn as_messages(params: Vec<Json>) -> (r: Vec<Message>)
    ensures
        message_views(r@) == rules::as_updates(items_view(params@)),
{
    let ghost all = items_view(params@);
    proof {
        lemma_items_view(params@);
    }
    let mut messages: Vec<Message> = Vec::new();
    for value in iter: params
        invariant
            iter.seq() == params@,
            all.len() == params@.len(),
            forall|k: int| 0 <= k < all.len() ==> #[trigger] all[k] == params@[k]@,
            message_views(messages@) == rules::as_updates(all.take(iter.index())),
    {
        let ghost before = messages@;
        messages.push(Message::Update(value));
        proof {
            let n = iter.index();
            assert(rules::as_updates(all.take(n + 1)) =~= rules::as_updates(all.take(n)).push(
                MessageView::Update(all[n]),
            ));
            assert(message_views(messages@) =~= message_views(before).push(
                MessageView::Update(value@),
            ));
        }
    }
    assert(all.take(all.len() as int) =~= all);
    messages
}

impl Adapter {
    /// The index was searched for a session that is wanted.
    fn restoring(
        &self,
        id: String,
        goal: Goal,
        found: Result<Option<StoredSession>, String>,
    ) -> (r: Outcome)
        ensures
            r.wf(),
            (Step { adapter: self@, outcome: r@ }) == rules::restoring(
                self@,
                id@,
                goal@,
                match found {
                    Ok(stored) => Ok(opt_session(stored)),
                    Err(text) => Err(text@),
                },
            ),
    {
        match found {
            Err(text) => make_fail(internal_error(text)),
            Ok(None) => make_fail(unknown_session(id.as_str())),
            Ok(Some(stored)) => self.open_session(
                Opening {
                    cwd: stored.cwd,
                    file: Some(stored.session_file),
                    prompt: None,
                    known_as: Some(id),
                },
                goal,
            ),
        }
    }

    /// The index was searched for a session to fork.
    fn fork_source(
        &self,
        source: String,
        cwd: String,
        prompt: Option<String>,
        found: Result<Option<StoredSession>, String>,
    ) -> (r: Outcome)
        requires
            self.wf(),
        ensures
            r.wf(),
            (Step { adapter: self@, outcome: r@ }) == rules::fork_source(
                self@,
                source@,
                cwd@,
                opt_string(prompt),
                match found {
                    Ok(stored) => Ok(opt_session(stored)),
                    Err(text) => Err(text@),
                },
            ),
    {
        match found {
            Err(text) => make_fail(internal_error(text)),
            Ok(None) => make_fail(unknown_session(source.as_str())),
            Ok(Some(stored)) => {
                let original: Option<usize> = self.find(source.as_str());
                self.open_session(
                    Opening { cwd, file: Some(stored.session_file), prompt, known_as: None },
                    Goal::Fork { source, original },
                )
            },
        }
    }

    /// A working directory was looked at.
    fn checking(&mut self, opening: Opening, goal: Goal, absolute: bool) -> (r: Outcome)
        requires
            old(self).wf(),
        ensures
            final(self).wf(),
            r.wf(),
            (Step { adapter: final(self)@, outcome: r@ }) == rules::checking(
                old(self)@,
                opening@,
                goal@,
                absolute,
            ),
    {
        if !absolute {
            return make_fail(
                internal_error(
                    "session cwd must be absolute: ".to_owned().concat(opening.cwd.as_str()),
                ),
            );
        }
        let session: usize = self.live.len();
        let mut prompts: Vec<String> = copy_texts(&self.config.append_system_prompts);
        if let Some(prompt) = &opening.prompt {
            let ghost before = prompts@;
            prompts.push(prompt.clone());
            assert(texts(prompts@) =~= texts(before).push(prompt@));
        }
        let file: Option<&str> = match &opening.file {
            Some(file) => Some(file.as_str()),
            None => None,
        };
        let arguments: Vec<String> = spawn_arguments(
            self.session_dir.as_str(),
            file,
            &prompts,
            &self.config.pi_args,
        );
        let cwd: String = opening.cwd.clone();
        self.live.push(
            LiveSession {
                pi: PiProcess::new(opening.cwd.clone()),
                cwd: opening.cwd.clone(),
                session_file: String::new(),
                state: Json::Null,
                models: Json::Null,
                cancelled: false,
                busy: false,
                known_as: copy_option(&opening.known_as),
            },
        );
        proof {
            reveal_strlit("");
            assert(""@ =~= Seq::<char>::empty());
            assert(self@.live =~= old(self)@.live.push(rules::blank(opening@.cwd, opening@.known_as)));
        }
        make_go(
            Stage::Starting { session, opening, goal },
            Action::Start { session, cwd, arguments },
        )
    }

    /// Pi was started.
    fn starting(
        &mut self,
        session: usize,
        opening: Opening,
        goal: Goal,
        started: Result<(), String>,
    ) -> (r: Outcome)
        requires
            old(self).wf(),
            session < old(self)@.live.len(),
        ensures
            final(self).wf(),
            r.wf(),
            (Step { adapter: final(self)@, outcome: r@ }) == rules::starting(
                old(self)@,
                session,
                opening@,
                goal@,
                unit_or_text(started),
            ),
    {
        match started {
            Ok(_) => make_go(
                Stage::Asking { session, opening, goal },
                Action::AskBoth(session),
            ),
            Err(text) => {
                self.close_pi(session);
                make_fail(internal_error(text))
            },
        }
    }

    /// A session got its id.
    fn register(
        &mut self,
        session: usize,
        id: String,
        known_as: Option<String>,
        goal: Goal,
    ) -> (r: Outcome)
        requires
            old(self).wf(),
            session < old(self)@.live.len(),
        ensures
            final(self).wf(),
            r.wf(),
            (Step { adapter: final(self)@, outcome: r@ }) == rules::register(
                old(self)@,
                session,
                id@,
                opt_string(known_as),
                goal@,
            ),
    {
        self.name(id.as_str(), session);
        let stored: String = id.clone();
        make_go(
            Stage::Dating { session, id: stored, after: After::Open { id, known_as, goal } },
            Action::ReadClock,
        )
    }

    /// Pi told its state and its models.
    fn asking(
        &mut self,
        session: usize,
        opening: Opening,
        goal: Goal,
        answer: Result<(Json, Json), String>,
    ) -> (r: Outcome)
        requires
            old(self).wf(),
            session < old(self)@.live.len(),
        ensures
            final(self).wf(),
            r.wf(),
            (Step { adapter: final(self)@, outcome: r@ }) == rules::asking(
                old(self)@,
                session,
                opening@,
                goal@,
                match answer {
                    Ok((state, models)) => Ok((state@, models@)),
                    Err(text) => Err(text@),
                },
            ),
    {
        match answer {
            Err(text) => make_fail(internal_error(text)),
            Ok((state, models)) => {
                let file: String = match state.str_at("sessionFile") {
                    Some(file) => file.to_owned(),
                    None => match opening.file {
                        Some(file) => file,
                        None => return make_fail(
                            internal_error(
                                "Pi did not return a persistent session file".to_owned(),
                            ),
                        ),
                    },
                };
                let id: Option<String> = given_id(&state);
                self.set_opened(session, file, state, models);
                match id {
                    Some(id) => self.register(session, id, opening.known_as, goal),
                    None => make_go(
                        Stage::Naming { session, known_as: opening.known_as, goal },
                        Action::NameSession,
                    ),
                }
            },
        }
    }

    /// The clock was read.
    fn dating(&self, session: usize, id: String, after: After, now: Option<String>) -> (r: Outcome)
        requires
            session < self@.live.len(),
        ensures
            r.wf(),
            (Step { adapter: self@, outcome: r@ }) == rules::dating(
                self@,
                session,
                id@,
                after@,
                opt_string(now),
            ),
    {
        let live: &LiveSession = &self.live[session];
        let stored: StoredSession = stored_session(
            id.as_str(),
            live.cwd.as_str(),
            live.session_file.as_str(),
            &live.state,
            now,
        );
        make_go(Stage::Indexing { session, after }, Action::Upsert(stored))
    }

    /// A prompt is over and answered with an error.
    fn prompt_failed(&mut self, session: usize, messages: Vec<Message>, text: String) -> (r: Outcome)
        requires
            old(self).wf(),
            session < old(self)@.live.len(),
        ensures
            final(self).wf(),
            r.wf(),
            (Step { adapter: final(self)@, outcome: r@ }) == rules::prompt_failed(
                old(self)@,
                session,
                message_views(messages@),
                crate::acp::internal(text@),
            ),
    {
        self.release(session);
        Outcome {
            messages,
            to_pi: None,
            warning: None,
            next: Next::Failed(internal_error(text)),
        }
    }

    /// A prompt is over and answered with an error, and nothing else is sent.
    fn prompt_refused(&mut self, session: usize, text: String) -> (r: Outcome)
        requires
            old(self).wf(),
            session < old(self)@.live.len(),
        ensures
            final(self).wf(),
            r.wf(),
            (Step { adapter: final(self)@, outcome: r@ }) == rules::prompt_failed(
                old(self)@,
                session,
                Seq::empty(),
                crate::acp::internal(text@),
            ),
    {
        let messages: Vec<Message> = Vec::new();
        assert(message_views(messages@) =~= Seq::<MessageView>::empty());
        self.prompt_failed(session, messages, text)
    }

    /// A prompt is over, and is answered.
    fn prompt_done(&mut self, session: usize, warning: Option<String>) -> (r: Outcome)
        requires
            old(self).wf(),
            session < old(self)@.live.len(),
        ensures
            final(self).wf(),
            r.wf(),
            (Step { adapter: final(self)@, outcome: r@ }) == rules::prompt_done(
                old(self)@,
                session,
                opt_string(warning),
            ),
    {
        let cancelled: bool = self.live[session].cancelled;
        self.release(session);
        let answered: Outcome = make_reply(prompted(cancelled));
        Outcome { warning, ..answered }
    }

    /// A slash command is over.
    fn slash_done(&mut self, session: usize, id: &str, text: &str) -> (r: Outcome)
        requires
            old(self).wf(),
            session < old(self)@.live.len(),
        ensures
            final(self).wf(),
            r.wf(),
            (Step { adapter: final(self)@, outcome: r@ }) == rules::slash_done(
                old(self)@,
                session,
                id@,
                text@,
            ),
    {
        match text_update("agent_message_chunk", text) {
            Err(text) => self.prompt_refused(session, text),
            Ok(update) => match tell_update(id, update) {
                Err(text) => self.prompt_refused(session, text),
                Ok(params) => {
                    self.release(session);
                    make_send_two(Message::Update(params), Message::Reply(prompted(false)))
                },
            },
        }
    }

    /// The index was brought up to date.
    fn indexing(&mut self, session: usize, after: After, finished: Result<(), String>) -> (r:
        Outcome)
        requires
            old(self).wf(),
            session < old(self)@.live.len(),
            rules::after_holds(after@, old(self)@.live.len()),
        ensures
            final(self).wf(),
            r.wf(),
            (Step { adapter: final(self)@, outcome: r@ }) == rules::indexing(
                old(self)@,
                session,
                after@,
                unit_or_text(finished),
            ),
    {
        match after {
            After::Open { id, known_as, goal } => match finished {
                Err(text) => make_fail(internal_error(text)),
                Ok(_) => {
                    if let Some(name) = known_as {
                        self.name(name.as_str(), session);
                    }
                    self.proceed(session, id, goal)
                },
            },
            After::Slash { id, text } => match finished {
                Err(text) => self.prompt_refused(session, text),
                Ok(_) => self.slash_done(session, id.as_str(), text.as_str()),
            },
            After::Turn => {
                let warning: Option<String> = match finished {
                    Err(text) => Some(
                        "failed to update Pi ACP session index: ".to_owned().concat(text.as_str()),
                    ),
                    Ok(_) => None,
                };
                self.prompt_done(session, warning)
            },
            After::Fork { id } => match finished {
                Err(text) => make_fail(internal_error(text)),
                Ok(_) => {
                    let live: &LiveSession = &self.live[session];
                    let result: Json = forked(id.as_str(), &live.state, &live.models);
                    self.set_name(session, id.as_str());
                    make_reply(result)
                },
            },
        }
    }

    /// Pi told its commands.
    fn commands_known(&self, id: &str, answer: Result<Json, String>) -> (r: Outcome)
        ensures
            r.wf(),
            (Step { adapter: self@, outcome: r@ }) == rules::commands_known(
                self@,
                id@,
                value_or_text(answer),
            ),
    {
        match answer {
            Err(text) => make_warn("failed to list Pi commands: ".to_owned().concat(text.as_str())),
            Ok(value) => make_send_one(
                Message::Update(tell_commands(id, commands(&value))),
                Next::Done,
            ),
        }
    }

    /// Pi told the messages of a session.
    fn replaying(&self, session: usize, id: &str, answer: Result<Json, String>) -> (r: Outcome)
        requires
            session < self@.live.len(),
        ensures
            r.wf(),
            (Step { adapter: self@, outcome: r@ }) == rules::replaying(
                self@,
                session,
                id@,
                value_or_text(answer),
            ),
    {
        match answer {
            Err(text) => make_fail(internal_error(text)),
            Ok(value) => match message_history_updates(&value) {
                Err(text) => make_fail(internal_error(text)),
                Ok(updates) => {
                    let (params, error) = tell_updates(id, updates);
                    let mut messages: Vec<Message> = as_messages(params);
                    match error {
                        Some(text) => Outcome {
                            messages,
                            to_pi: None,
                            warning: None,
                            next: Next::Failed(internal_error(text)),
                        },
                        None => {
                            let live: &LiveSession = &self.live[session];
                            let ghost before = messages@;
                            let result: Json = loaded(&live.state, &live.models);
                            messages.push(Message::Reply(result));
                            assert(message_views(messages@) =~= message_views(before).push(
                                MessageView::Reply(result@),
                            ));
                            Outcome { messages, to_pi: None, warning: None, next: Next::Done }
                        },
                    }
                },
            },
        }
    }

    /// Pi was given a command for a request.
    fn then_state(&self, session: usize, stage: Stage, answer: Result<Json, String>) -> (r: Outcome)
        requires
            stage.wf(),
        ensures
            r.wf(),
            (Step { adapter: self@, outcome: r@ }) == rules::then_state(
                self@,
                session,
                stage@,
                value_or_text(answer),
            ),
    {
        match answer {
            Err(text) => make_fail(internal_error(text)),
            Ok(_) => make_go(stage, make_ask(session, make_plain_command("get_state"))),
        }
    }

    /// Pi was asked for its state, which it may not have told.
    fn refresh(&mut self, session: usize, answer: Result<Json, String>)
        requires
            old(self).wf(),
            session < old(self)@.live.len(),
        ensures
            final(self).wf(),
            final(self)@ == rules::refreshed(old(self)@, session, value_or_text(answer)),
            final(self)@.live.len() == old(self)@.live.len(),
    {
        if let Ok(state) = answer {
            self.set_state(session, state);
        }
    }

    /// A mode was set.
    fn mode_known(&mut self, session: usize, id: &str, mode: &str, answer: Result<Json, String>)
        -> (r: Outcome)
        requires
            old(self).wf(),
            session < old(self)@.live.len(),
        ensures
            final(self).wf(),
            r.wf(),
            (Step { adapter: final(self)@, outcome: r@ }) == rules::mode_known(
                old(self)@,
                session,
                id@,
                mode@,
                value_or_text(answer),
            ),
    {
        self.refresh(session, answer);
        make_send_two(Message::Update(tell_mode(id, mode)), Message::Reply(Json::object()))
    }

    /// An option was set.
    fn option_known(&mut self, session: usize, id: &str, answer: Result<Json, String>) -> (r:
        Outcome)
        requires
            old(self).wf(),
            session < old(self)@.live.len(),
        ensures
            final(self).wf(),
            r.wf(),
            (Step { adapter: final(self)@, outcome: r@ }) == rules::option_known(
                old(self)@,
                session,
                id@,
                value_or_text(answer),
            ),
    {
        self.refresh(session, answer);
        let live: &LiveSession = &self.live[session];
        make_send_two(
            Message::Update(tell_options(id, &live.state, &live.models)),
            Message::Reply(configured(&live.state, &live.models)),
        )
    }

    /// A prompt has the turn.
    fn queued(&mut self, session: usize, id: String, blocks: Vec<Block>) -> (r: Outcome)
        requires
            old(self).wf(),
            session < old(self)@.live.len(),
        ensures
            final(self).wf(),
            r.wf(),
            (Step { adapter: final(self)@, outcome: r@ }) == rules::queued(
                old(self)@,
                session,
                id@,
                block_views(blocks@),
            ),
    {
        self.set_cancelled(session, false);
        self.set_busy(session, true);
        match prompt_to_pi(&blocks) {
            Err(text) => self.prompt_refused(session, text),
            Ok((message, images)) => {
                proof {
                    lemma_items_view(images@);
                }
                if images.len() == 0 {
                    if let Some(slash) = slash_command(message.as_str()) {
                        return make_go(
                            Stage::Slashing { session, id, output: slash.output },
                            make_ask(session, slash.command),
                        );
                    }
                }
                let turn = Turn {
                    session,
                    id,
                    state: TurnState::new(self.config.max_tracked_tool_calls),
                };
                make_go(
                    Stage::Prompting(turn),
                    Action::Ask {
                        session,
                        command: make_prompt_command(message.as_str(), images),
                        listen: true,
                    },
                )
            },
        }
    }

    /// Pi carried out a slash command.
    fn slashing(
        &mut self,
        session: usize,
        id: String,
        output: Option<String>,
        answer: Result<Json, String>,
    ) -> (r: Outcome)
        requires
            old(self).wf(),
            session < old(self)@.live.len(),
        ensures
            final(self).wf(),
            r.wf(),
            (Step { adapter: final(self)@, outcome: r@ }) == rules::slashing(
                old(self)@,
                session,
                id@,
                opt_string(output),
                value_or_text(answer),
            ),
    {
        match answer {
            Err(text) => self.prompt_refused(session, text),
            Ok(value) => {
                let text: String = match output {
                    Some(output) => output,
                    None => pretty_result(&value),
                };
                make_go(
                    Stage::SlashState { session, id, text },
                    make_ask(session, make_plain_command("get_state")),
                )
            },
        }
    }

    /// Pi told its state after a slash command.
    fn slash_state(
        &mut self,
        session: usize,
        id: String,
        text: String,
        answer: Result<Json, String>,
    ) -> (r: Outcome)
        requires
            old(self).wf(),
            session < old(self)@.live.len(),
        ensures
            final(self).wf(),
            r.wf(),
            (Step { adapter: final(self)@, outcome: r@ }) == rules::slash_state(
                old(self)@,
                session,
                id@,
                text@,
                value_or_text(answer),
            ),
    {
        match answer {
            Err(_) => self.slash_done(session, id.as_str(), text.as_str()),
            Ok(state) => {
                if let Some(file) = state.str_at("sessionFile") {
                    self.set_file(session, file);
                }
                self.set_state(session, state);
                let stored: String = id.clone();
                make_go(
                    Stage::Dating { session, id: stored, after: After::Slash { id, text } },
                    Action::ReadClock,
                )
            },
        }
    }

    /// Pi took a prompt.
    fn prompting(&mut self, turn: Turn, answer: Result<Json, String>) -> (r: Outcome)
        requires
            old(self).wf(),
            turn.session < old(self)@.live.len(),
            turn.state.wf(),
        ensures
            final(self).wf(),
            r.wf(),
            (Step { adapter: final(self)@, outcome: r@ }) == rules::prompting(
                old(self)@,
                turn@,
                value_or_text(answer),
            ),
    {
        match answer {
            Err(text) => self.prompt_refused(turn.session, text),
            Ok(_) => listen(turn),
        }
    }

    /// Pi is sent a record, and is listened to again.
    fn tell_pi(&mut self, turn: Turn, message: Json) -> (r: Outcome)
        requires
            old(self).wf(),
            turn.session < old(self)@.live.len(),
            turn.state.wf(),
        ensures
            final(self).wf(),
            r.wf(),
            (Step { adapter: final(self)@, outcome: r@ }) == rules::tell_pi(
                old(self)@,
                turn@,
                message@,
            ),
    {
        match PiProcess::message(&message) {
            Err(text) => self.prompt_refused(turn.session, text),
            Ok(record) => {
                let session: usize = turn.session;
                let heard: Outcome = listen(turn);
                Outcome { to_pi: Some((session, record)), ..heard }
            },
        }
    }

    /// An extension asks the user.
    fn question(&mut self, turn: Turn, event: Json) -> (r: Outcome)
        requires
            old(self).wf(),
            turn.session < old(self)@.live.len(),
            turn.state.wf(),
        ensures
            final(self).wf(),
            r.wf(),
            (Step { adapter: final(self)@, outcome: r@ }) == rules::question(
                old(self)@,
                turn@,
                event@,
            ),
    {
        match permission_request(turn.id.as_str(), &event) {
            Some(params) => make_go(
                Stage::Asked { turn, question: event },
                Action::AskClient(params),
            ),
            None => {
                if needs_response(&event) {
                    let message: Json = make_cancelled(&event);
                    self.tell_pi(turn, message)
                } else {
                    listen(turn)
                }
            },
        }
    }

    /// The time for a turn is over while the client is asked.
    fn unanswered(&mut self, session: usize, question: &Json) -> (r: Outcome)
        requires
            old(self).wf(),
            session < old(self)@.live.len(),
        ensures
            final(self).wf(),
            r.wf(),
            (Step { adapter: final(self)@, outcome: r@ }) == rules::unanswered(
                old(self)@,
                session,
                question@,
            ),
    {
        let message: Json = make_cancelled(question);
        let after: Outcome = self.timed_out(session);
        match PiProcess::message(&message) {
            Err(_) => after,
            Ok(record) => Outcome { to_pi: Some((session, record)), ..after },
        }
    }

    /// Pi was listened to.
    fn turning(&mut self, turn: Turn, event: Event) -> (r: Outcome)
        requires
            old(self).wf(),
            turn.session < old(self)@.live.len(),
            turn.state.wf(),
        ensures
            final(self).wf(),
            r.wf(),
            (Step { adapter: final(self)@, outcome: r@ }) == rules::turning(
                old(self)@,
                turn@,
                event@,
            ),
    {
        match event {
            Event::Heard(PiEvent::Message(value)) => {
                if asks_user(&value) {
                    self.question(turn, value)
                } else {
                    make_go(Stage::Locating { turn, event: value }, Action::Locate)
                }
            },
            Event::Heard(PiEvent::Exited(text)) => self.prompt_refused(turn.session, text),
            Event::Lagged(count) => self.prompt_refused(
                turn.session,
                "Pi event buffer overflowed by ".to_owned().concat(
                    decimal_text(count).as_str(),
                ).concat(" records"),
            ),
            Event::StreamEnded => self.prompt_refused(
                turn.session,
                "Pi event stream closed".to_owned(),
            ),
            _ => self.timed_out(turn.session),
        }
    }

    /// A turn took too long.
    fn timed_out(&mut self, session: usize) -> (r: Outcome)
        requires
            old(self).wf(),
            session < old(self)@.live.len(),
        ensures
            final(self).wf(),
            r.wf(),
            (Step { adapter: final(self)@, outcome: r@ }) == rules::prompt_failed(
                old(self)@,
                session,
                Seq::empty(),
                crate::acp::internal(rules::turn_timeout()),
            ),
    {
        self.prompt_refused(session, "Pi turn exceeded 3600s".to_owned())
    }

    /// An event of a turn, with the file that it is about.
    fn heard_event(
        &mut self,
        turn: Turn,
        event: Json,
        location: Option<String>,
        file: Option<String>,
    ) -> (r: Outcome)
        requires
            old(self).wf(),
            turn.session < old(self)@.live.len(),
            turn.state.wf(),
        ensures
            final(self).wf(),
            r.wf(),
            (Step { adapter: final(self)@, outcome: r@ }) == rules::heard_event(
                old(self)@,
                turn@,
                event@,
                opt_string(location),
                opt_string(file),
            ),
    {
        let mut turn = turn;
        let session: usize = turn.session;
        let path: Option<&str> = match &location {
            Some(path) => Some(path.as_str()),
            None => None,
        };
        let warned: bool = turn.state.warned_near_limit();
        match pi_event_updates(&event, path, file, &mut turn.state) {
            Err(text) => self.prompt_refused(session, text),
            Ok(updates) => {
                let (params, error) = tell_updates(turn.id.as_str(), updates);
                let messages: Vec<Message> = as_messages(params);
                if let Some(text) = error {
                    return self.prompt_failed(session, messages, text);
                }
                let warning: Option<String> = if !warned && turn.state.warned_near_limit() {
                    Some("Pi ACP tracked edit tools are near the configured limit".to_owned())
                } else {
                    None
                };
                let next: Next = if event.has_text("type", "agent_settled") {
                    Next::Do(
                        Stage::Settling { session, id: turn.id },
                        make_ask(session, make_plain_command("get_state")),
                    )
                } else if event.has_text("type", "agent_end") && !event.is_true("willRetry") {
                    Next::Do(
                        Stage::EndState(turn),
                        make_ask(session, make_plain_command("get_state")),
                    )
                } else {
                    Next::Do(Stage::Turning(turn), Action::Listen(session))
                };
                Outcome { messages, to_pi: None, warning, next }
            },
        }
    }

    /// The file of an event was found.
    fn locating(&mut self, turn: Turn, event: Json, location: Option<String>) -> (r: Outcome)
        requires
            old(self).wf(),
            turn.session < old(self)@.live.len(),
            turn.state.wf(),
        ensures
            final(self).wf(),
            r.wf(),
            (Step { adapter: final(self)@, outcome: r@ }) == rules::locating(
                old(self)@,
                turn@,
                event@,
                opt_string(location),
            ),
    {
        let needed: Option<String> = {
            let path: Option<&str> = match &location {
                Some(path) => Some(path.as_str()),
                None => None,
            };
            file_to_read(&event, path, &turn.state)
        };
        match needed {
            Some(path) => make_go(
                Stage::Reading { turn, event, location },
                Action::ReadFile(path),
            ),
            None => self.heard_event(turn, event, location, None),
        }
    }

    /// Pi told its state at what may be the end of a turn.
    fn end_state(&mut self, turn: Turn, answer: Result<Json, String>) -> (r: Outcome)
        requires
            old(self).wf(),
            turn.session < old(self)@.live.len(),
            turn.state.wf(),
        ensures
            final(self).wf(),
            r.wf(),
            (Step { adapter: final(self)@, outcome: r@ }) == rules::end_state(
                old(self)@,
                turn@,
                value_or_text(answer),
            ),
    {
        match answer {
            Err(text) => self.prompt_refused(turn.session, text),
            Ok(state) => {
                let idle: bool = is_idle(&state);
                let session: usize = turn.session;
                self.set_state(session, state);
                if idle {
                    make_go(
                        Stage::Settling { session, id: turn.id },
                        make_ask(session, make_plain_command("get_state")),
                    )
                } else {
                    listen(turn)
                }
            },
        }
    }

    /// Pi told its state at the end of a turn, or did not.
    fn settling(&mut self, session: usize, id: String, answer: Result<Json, String>) -> (r: Outcome)
        requires
            old(self).wf(),
            session < old(self)@.live.len(),
        ensures
            final(self).wf(),
            r.wf(),
            (Step { adapter: final(self)@, outcome: r@ }) == rules::settling(
                old(self)@,
                session,
                id@,
                value_or_text(answer),
            ),
    {
        match answer {
            Err(_) => self.prompt_done(session, None),
            Ok(state) => {
                self.set_state(session, state);
                make_go(Stage::Dating { session, id, after: After::Turn }, Action::ReadClock)
            },
        }
    }

    /// Pi told its state after it cloned a session.
    fn clone_state(&mut self, session: usize, source: String, answer: Result<Json, String>) -> (r:
        Outcome)
        requires
            old(self).wf(),
            session < old(self)@.live.len(),
        ensures
            final(self).wf(),
            r.wf(),
            (Step { adapter: final(self)@, outcome: r@ }) == rules::clone_state(
                old(self)@,
                session,
                source@,
                value_or_text(answer),
            ),
    {
        match answer {
            Err(text) => make_fail(internal_error(text)),
            Ok(state) => {
                let id: String = match state.str_at("sessionId") {
                    Some(id) => id.to_owned(),
                    None => source,
                };
                match state.str_at("sessionFile") {
                    Some(file) => self.set_file(session, file),
                    None => return make_fail(
                        internal_error("Pi clone did not return a session file".to_owned()),
                    ),
                }
                self.set_state(session, state);
                self.name(id.as_str(), session);
                let stored: String = id.clone();
                make_go(
                    Stage::Dating { session, id: stored, after: After::Fork { id } },
                    Action::ReadClock,
                )
            },
        }
    }

    /// The index was listed.
    fn listing(&self, cursor: Option<String>, found: Result<Vec<StoredSession>, String>) -> (r:
        Outcome)
        ensures
            r.wf(),
            (Step { adapter: self@, outcome: r@ }) == rules::listing(
                self@,
                opt_string(cursor),
                match found {
                    Ok(sessions) => Ok(session_views(sessions@)),
                    Err(text) => Err(text@),
                },
            ),
    {
        match found {
            Err(text) => make_fail(internal_error(text)),
            Ok(sessions) => {
                let start: Option<&str> = match &cursor {
                    Some(cursor) => Some(cursor.as_str()),
                    None => None,
                };
                make_reply(listed(page(&sessions, start)))
            },
        }
    }
}

impl Adapter {
    /// What an event leads to, at a stage that waits for it. A look that is asked for is taken by
    /// [`Adapter::advance`].
    pub fn step(&mut self, stage: Stage, event: Event) -> (r: Outcome)
        requires
            old(self).wf(),
            stage.wf(),
            fits(stage@, event@),
            rules::may_take_turn(old(self)@, stage@),
            rules::stage_holds(stage@, old(self)@.live.len()),
        ensures
            final(self).wf(),
            r.wf(),
            (Step { adapter: final(self)@, outcome: r@ }) == rules::step(
                old(self)@,
                stage@,
                event@,
            ),
    {
        match stage {
            Stage::Restoring { id, goal } => match event {
                Event::Stored(found) => self.restoring(id, goal, found),
                _ => make_done(),
            },
            Stage::ForkSource { source, cwd, prompt } => match event {
                Event::Stored(found) => self.fork_source(source, cwd, prompt, found),
                _ => make_done(),
            },
            Stage::Checking { opening, goal } => match event {
                Event::Absolute(absolute) => self.checking(opening, goal, absolute),
                _ => make_done(),
            },
            Stage::Starting { session, opening, goal } => match event {
                Event::Started(started) => self.starting(session, opening, goal, started),
                _ => make_done(),
            },
            Stage::Asking { session, opening, goal } => match event {
                Event::Both(answer) => self.asking(session, opening, goal, answer),
                _ => make_done(),
            },
            Stage::Naming { session, known_as, goal } => match event {
                Event::Fresh(id) => self.register(session, id, known_as, goal),
                _ => make_done(),
            },
            Stage::Dating { session, id, after } => match event {
                Event::Now(now) => self.dating(session, id, after, now),
                _ => make_done(),
            },
            Stage::Indexing { session, after } => match event {
                Event::Finished(finished) => self.indexing(session, after, finished),
                _ => make_done(),
            },
            Stage::Commands { session: _, id } => match event {
                Event::Answer(answer) => self.commands_known(id.as_str(), answer),
                _ => make_done(),
            },
            Stage::Replaying { session, id } => match event {
                Event::Answer(answer) => self.replaying(session, id.as_str(), answer),
                _ => make_done(),
            },
            Stage::Mode { session, id, mode } => match event {
                Event::Answer(answer) => self.then_state(
                    session,
                    Stage::ModeState { session, id, mode },
                    answer,
                ),
                _ => make_done(),
            },
            Stage::ModeState { session, id, mode } => match event {
                Event::Answer(answer) => self.mode_known(
                    session,
                    id.as_str(),
                    mode.as_str(),
                    answer,
                ),
                _ => make_done(),
            },
            Stage::Choosing { session, id } => match event {
                Event::Answer(answer) => self.then_state(
                    session,
                    Stage::ChosenState { session, id },
                    answer,
                ),
                _ => make_done(),
            },
            Stage::ChosenState { session, id } => match event {
                Event::Answer(answer) => self.option_known(session, id.as_str(), answer),
                _ => make_done(),
            },
            Stage::Queued { session, id, blocks } => match event {
                Event::TurnTaken => self.queued(session, id, blocks),
                _ => make_done(),
            },
            Stage::Slashing { session, id, output } => match event {
                Event::Answer(answer) => self.slashing(session, id, output, answer),
                _ => make_done(),
            },
            Stage::SlashState { session, id, text } => match event {
                Event::Answer(answer) => self.slash_state(session, id, text, answer),
                _ => make_done(),
            },
            Stage::Prompting(turn) => match event {
                Event::Answer(answer) => self.prompting(turn, answer),
                _ => make_done(),
            },
            Stage::Turning(turn) => self.turning(turn, event),
            Stage::Locating { turn, event: heard } => match event {
                Event::Location(location) => self.locating(turn, heard, location),
                _ => make_done(),
            },
            Stage::Reading { turn, event: heard, location } => match event {
                Event::File(file) => self.heard_event(turn, heard, location, file),
                _ => self.timed_out(turn.session),
            },
            Stage::Asked { turn, question } => match event {
                Event::Replied(answer) => {
                    let message: Json = respond(&question, &answer);
                    self.tell_pi(turn, message)
                },
                _ => self.unanswered(turn.session, &question),
            },
            Stage::EndState(turn) => match event {
                Event::Answer(answer) => self.end_state(turn, answer),
                _ => self.timed_out(turn.session),
            },
            Stage::Settling { session, id } => match event {
                Event::Answer(answer) => self.settling(session, id, answer),
                _ => make_done(),
            },
            Stage::Cloning { session, source } => match event {
                Event::Answer(answer) => self.then_state(
                    session,
                    Stage::CloneState { session, source },
                    answer,
                ),
                _ => make_done(),
            },
            Stage::CloneState { session, source } => match event {
                Event::Answer(answer) => self.clone_state(session, source, answer),
                _ => make_done(),
            },
            Stage::Closing => match event {
                Event::Finished(finished) => match finished {
                    Err(text) => make_fail(internal_error(text)),
                    Ok(_) => make_reply(Json::object()),
                },
                _ => make_done(),
            },
            Stage::Listing { cursor } => match event {
                Event::Listed(found) => self.listing(cursor, found),
                _ => make_done(),
            },
            Stage::Aborting => match event {
                Event::Answer(answer) => match answer {
                    Err(text) => notification_failed(text),
                    Ok(_) => make_done(),
                },
                _ => make_done(),
            },
            Stage::Unheard { session, question } => match event {
                Event::Replied(answer) => answer_pi(session, respond(&question, &answer)),
                _ => make_done(),
            },
        }
    }

    /// Takes the looks that an outcome asks for.
    fn look(&mut self, outcome: Outcome) -> (r: Outcome)
        requires
            old(self).wf(),
            outcome.wf(),
            rules::next_holds(outcome@.next, old(self)@.live.len()),
            rules::asks_rightly(outcome@.next),
        ensures
            final(self).wf(),
            r.wf(),
            final(self)@.live.len() >= old(self)@.live.len(),
            rules::next_holds(r@.next, final(self)@.live.len()),
            !(r@.next matches NextView::Do(_, action) && rules::is_look(action)),
            rules::ends_at(
                Step { adapter: old(self)@, outcome: outcome@ },
                Step { adapter: final(self)@, outcome: r@ },
            ),
    {
        let ghost first = Step { adapter: self@, outcome: outcome@ };
        let ghost mut shown = Seq::<EventView>::empty();
        let mut outcome = outcome;
        proof {
            rules::lemma_seen_nothing(first);
        }
        loop
            invariant
                self.wf(),
                outcome.wf(),
                self@.live.len() >= old(self)@.live.len(),
                rules::next_holds(outcome@.next, self@.live.len()),
                rules::asks_rightly(outcome@.next),
                rules::shows(first, shown, Step { adapter: self@, outcome: outcome@ }),
                first.adapter == old(self)@,
            ensures
                self.wf(),
                outcome.wf(),
                self@.live.len() >= old(self)@.live.len(),
                rules::next_holds(outcome@.next, self@.live.len()),
                !(outcome@.next matches NextView::Do(_, action) && rules::is_look(action)),
                rules::shows(first, shown, Step { adapter: self@, outcome: outcome@ }),
                first.adapter == old(self)@,
            decreases rules::looks_left(outcome@.next),
        {
            let ghost before = Step { adapter: self@, outcome: outcome@ };
            let (stage, action) = match outcome.next {
                Next::Do(stage, action) => (stage, action),
                next => {
                    outcome = Outcome { next, ..outcome };
                    break;
                },
            };
            let event: Event = match (&action, &stage) {
                (Action::CheckCwd, Stage::Checking { opening, goal: _ }) => Event::Absolute(
                    is_absolute(opening.cwd.as_str()),
                ),
                (Action::NameSession, _) => Event::Fresh(fresh_id()),
                (Action::ReadClock, _) => Event::Now(now()),
                (Action::Locate, Stage::Locating { turn, event }) => Event::Location(
                    tool_location(event.get("args"), self.live[turn.session].cwd.as_str()),
                ),
                _ => {
                    outcome = Outcome { next: Next::Do(stage, action), ..outcome };
                    break;
                },
            };
            proof {
                assert(self@.live.len() == self.live.len());
                rules::steps_keep_sessions(self@, stage@, event@);
                rules::lemma_looks_end(self@, stage@, action@, event@);
                rules::lemma_shows_more(first, shown, before, event@);
                shown = shown.push(event@);
            }
            outcome = self.step(stage, event);
        }
        proof {
            rules::lemma_shown(first, shown, Step { adapter: self@, outcome: outcome@ });
        }
        outcome
    }
}

impl Adapter {
    /// What a request leads to.
    pub fn begin(&mut self, request: Request) -> (r: Outcome)
        requires
            old(self).wf(),
        ensures
            final(self).wf(),
            r.wf(),
            final(self)@.live.len() >= old(self)@.live.len(),
            rules::next_holds(r@.next, final(self)@.live.len()),
            rules::ends_at(
                rules::begin(old(self)@, request@),
                Step { adapter: final(self)@, outcome: r@ },
            ),
    {
        proof {
            rules::requests_keep_sessions(self@, request@);
        }
        let outcome: Outcome = self.begin_step(request);
        self.look(outcome)
    }

    /// What an event leads to, at a stage that waits for it.
    pub fn advance(&mut self, stage: Stage, event: Event) -> (r: Outcome)
        requires
            old(self).wf(),
            stage.wf(),
            fits(stage@, event@),
            rules::may_take_turn(old(self)@, stage@),
            rules::stage_holds(stage@, old(self)@.live.len()),
        ensures
            final(self).wf(),
            r.wf(),
            final(self)@.live.len() >= old(self)@.live.len(),
            rules::next_holds(r@.next, final(self)@.live.len()),
            rules::ends_at(
                rules::step(old(self)@, stage@, event@),
                Step { adapter: final(self)@, outcome: r@ },
            ),
    {
        proof {
            rules::steps_keep_sessions(self@, stage@, event@);
        }
        let outcome: Outcome = self.step(stage, event);
        self.look(outcome)
    }

    /// A request is given up at a stage, because a message could not be sent.
    pub fn give_up(&mut self, stage: Stage, text: String) -> (r: Outcome)
        requires
            old(self).wf(),
            rules::stage_holds(stage@, old(self)@.live.len()),
        ensures
            final(self).wf(),
            r.wf(),
            (Step { adapter: final(self)@, outcome: r@ }) == rules::give_up(
                old(self)@,
                stage@,
                text@,
            ),
    {
        if let Some(session) = place_in_queue(&stage) {
            if matches!(stage, Stage::Queued { .. }) {
                self.leave_queue(session);
            } else {
                self.release(session);
            }
        }
        match stage {
            Stage::Aborting => notification_failed(text),
            Stage::Unheard { session, question } => answer_pi(session, make_cancelled(&question)),
            _ => make_fail(internal_error(text)),
        }
    }

    /// Gives the process of a session a command: the id that its response will have, and the
    /// record to write.
    pub fn command(&mut self, session: usize, command: Json) -> (r: Result<
        (String, Vec<u8>),
        String,
    >)
        requires
            old(self).wf(),
            session < old(self)@.live.len(),
        ensures
            final(self).wf(),
            ({
                let pi = old(self)@.live[session as int].pi;
                &&& command_view(r) == command_of(pi, command@)
                &&& final(self)@ == old(self)@.with_pi(session, after_command(pi, command@))
            }),
    {
        let ghost after = self@.with_pi(
            session,
            after_command(self@.live[session as int].pi, command@),
        );
        let r = self.live[session].pi.command(command);
        assert(self@.live =~= after.live);
        r
    }

    /// Waits no longer for the response to a command.
    pub fn forget(&mut self, session: usize, id: &str)
        requires
            old(self).wf(),
            session < old(self)@.live.len(),
        ensures
            final(self).wf(),
            ({
                let pi = old(self)@.live[session as int].pi;
                final(self)@ == old(self)@.with_pi(
                    session,
                    PiView { pending: pi.pending.remove(id@), ..pi },
                )
            }),
    {
        let ghost pi = self@.live[session as int].pi;
        let ghost after = self@.with_pi(
            session,
            PiView { pending: pi.pending.remove(id@), ..pi },
        );
        self.live[session].pi.forget(id);
        assert(self@.live =~= after.live);
    }

    /// Works off bytes that the process of a session wrote.
    pub fn receive(&mut self, session: usize, chunk: &[u8]) -> (r: Received)
        requires
            old(self).wf(),
            session < old(self)@.live.len(),
        ensures
            final(self).wf(),
            ({
                let pi = old(self)@.live[session as int].pi;
                let after = heard(pi.pending, pi.buffer + chunk@);
                let now = final(self)@.live[session as int].pi;
                &&& output_views(r.outputs@) == after.outcome.outputs
                &&& r.ended == (after.rest is TooLong)
                &&& now.pending == after.outcome.pending
                &&& after.rest matches Rest::Partial(rest) ==> now.buffer == rest
                &&& final(self)@ == old(self)@.with_pi(
                    session,
                    PiView { pending: now.pending, buffer: now.buffer, ..pi },
                )
            }),
    {
        let r: Received = self.live[session].pi.receive(chunk);
        proof {
            let pi = old(self)@.live[session as int].pi;
            let now = self@.live[session as int].pi;
            assert(self@.live =~= old(self)@.with_pi(
                session,
                PiView { pending: now.pending, buffer: now.buffer, ..pi },
            ).live);
        }
        r
    }

    /// Works off that the process of a session writes no more.
    pub fn finish(&mut self, session: usize) -> (r: Vec<PiOutput>)
        requires
            old(self).wf(),
            session < old(self)@.live.len(),
        ensures
            final(self).wf(),
            ({
                let pi = old(self)@.live[session as int].pi;
                final(self)@ == old(self)@.with_pi(
                    session,
                    PiView { pending: Set::empty(), closed: true, ..pi },
                )
            }),
            ended(old(self)@.live[session as int].pi.pending, output_views(r@)),
    {
        let ghost pi = self@.live[session as int].pi;
        let ghost after = self@.with_pi(
            session,
            PiView { pending: Set::empty(), closed: true, ..pi },
        );
        let r: Vec<PiOutput> = self.live[session].pi.finish();
        assert(self@.live =~= after.live);
        r
    }

    /// What something leads to that the process of a session says while no turn listens.
    pub fn unheard(&self, session: usize, event: &PiEvent) -> (r: Outcome)
        requires
            self.wf(),
            session < self@.live.len(),
        ensures
            r.wf(),
            (Step { adapter: self@, outcome: r@ }) == rules::unheard(self@, session, event@),
            rules::next_holds(r@.next, self@.live.len()),
    {
        let question: &Json = match event {
            PiEvent::Message(value) => value,
            PiEvent::Exited(_) => return make_done(),
        };
        let live: &LiveSession = &self.live[session];
        if !asks_user(question) || !needs_response(question) || live.pi.is_closed() {
            return make_done();
        }
        let params: Option<Json> = match &live.known_as {
            Some(id) => permission_request(id.as_str(), question),
            None => None,
        };
        match params {
            Some(params) => make_go(
                Stage::Unheard { session, question: question.copy() },
                Action::AskClient(params),
            ),
            None => answer_pi(session, make_cancelled(question)),
        }
    }

    /// Whether any id stands for a session. The process of one that no id stands for is needed by
    /// no request to come.
    pub fn is_listed(&self, session: usize) -> (r: bool)
        requires
            self.wf(),
        ensures
            r == leads(self@.sessions, session),
    {
        self.sessions.leads_to(session)
    }

    /// The client is gone: no id stands for anything any more. Returns the sessions whose
    /// processes are to be ended.
    pub fn shut_down(&mut self) -> (r: Vec<usize>)
        requires
            old(self).wf(),
        ensures
            final(self).wf(),
            final(self)@.sessions == Map::<Seq<char>, usize>::empty(),
            final(self)@.live.len() == old(self)@.live.len(),
            forall|session: usize| #[trigger]
                r@.contains(session) <==> {
                    &&& session < old(self)@.live.len()
                    &&& !old(self)@.live[session as int].pi.closed
                    &&& leads(old(self)@.sessions, session)
                },
            forall|n: int|
                0 <= n < old(self)@.live.len() ==> #[trigger] final(self)@.live[n] == (if r@.contains(
                    n as usize,
                ) {
                    shut(old(self)@.live[n])
                } else {
                    old(self)@.live[n]
                }),
            final(self)@ == (AdapterView {
                sessions: final(self)@.sessions,
                live: final(self)@.live,
                ..old(self)@
            }),
    {
        let numbers: Vec<usize> = self.sessions.clear();
        let ghost before = self@;
        let mut open: Vec<usize> = Vec::new();
        let mut i: usize = 0;
        assert(forall|k: int| 0 <= k < numbers.len() ==> numbers@.contains(#[trigger] numbers@[k]));
        assert forall|k: int| 0 <= k < numbers.len() implies (#[trigger] numbers@[k])
            < before.live.len() by {
            assert(numbers@.contains(numbers@[k]));
        }
        while i < numbers.len()
            invariant
                i <= numbers.len(),
                self.wf(),
                self@.sessions == Map::<Seq<char>, usize>::empty(),
                self@.live.len() == before.live.len(),
                forall|k: int|
                    0 <= k < numbers.len() ==> (#[trigger] numbers@[k]) < before.live.len(),
                forall|n: usize| #[trigger]
                    open@.contains(n) <==> n < before.live.len() && !before.live[n as int].pi.closed
                        && numbers@.take(i as int).contains(n),
                forall|n: int|
                    0 <= n < before.live.len() ==> #[trigger] self@.live[n] == (if open@.contains(
                        n as usize,
                    ) {
                        shut(before.live[n])
                    } else {
                        before.live[n]
                    }),
                self@ == (AdapterView { live: self@.live, ..before }),
            decreases numbers.len() - i,
        {
            let session: usize = numbers[i];
            let ghost earlier = self@;
            let ghost listed = open@;
            proof {
                let shorter = numbers@.take(i as int);
                let longer = numbers@.take(i + 1);
                assert(longer =~= shorter.push(session));
                assert forall|n: usize| #[trigger] longer.contains(n) <==> shorter.contains(n) || n
                    == session by {
                    if shorter.contains(n) {
                        let k = choose|k: int| 0 <= k < shorter.len() && shorter[k] == n;
                        assert(longer[k] == n);
                    }
                    if n == session {
                        assert(longer[i as int] == n);
                    }
                }
            }
            if self.close_pi(session) {
                open.push(session);
                proof {
                    assert forall|n: usize| #[trigger] open@.contains(n) <==> listed.contains(n) || n
                        == session by {
                        if listed.contains(n) {
                            let k = choose|k: int| 0 <= k < listed.len() && listed[k] == n;
                            assert(open@[k] == n);
                        }
                        if n == session {
                            assert(open@[listed.len() as int] == n);
                        }
                    }
                }
            }
            proof {
                assert(self@.live.len() == self.live.len());
                assert forall|n: int| 0 <= n < before.live.len() implies #[trigger] self@.live[n]
                    == (if open@.contains(n as usize) {
                    shut(before.live[n])
                } else {
                    before.live[n]
                }) by {
                    assert(earlier.live[n] == (if listed.contains(n as usize) {
                        shut(before.live[n])
                    } else {
                        before.live[n]
                    }));
                    if n == session {
                        assert(n as usize == session);
                    } else {
                        assert(self@.live[n] == earlier.live[n]);
                    }
                }
            }
            i = i + 1;
        }
        proof {
            assert(numbers@.take(i as int) =~= numbers@);
            assert forall|n: usize| #[trigger] open@.contains(n) <==> {
                &&& n < old(self)@.live.len()
                &&& !old(self)@.live[n as int].pi.closed
                &&& leads(old(self)@.sessions, n)
            } by {
                assert(numbers@.contains(n) <==> leads(old(self)@.sessions, n));
            }
        }
        open
    }
}

/// Whether a goal speaks of sessions below `count` only.
fn goal_holds(goal: &Goal, count: usize) -> (r: bool)
    ensures
        r == rules::goal_holds(goal@, count as nat),
{
    match goal {
        Goal::Fork { source: _, original } => match original {
            Some(original) => *original < count,
            None => true,
        },
        _ => true,
    }
}

/// Whether what comes after the index speaks of sessions below `count` only.
fn after_holds(after: &After, count: usize) -> (r: bool)
    ensures
        r == rules::after_holds(after@, count as nat),
{
    match after {
        After::Open { goal, .. } => goal_holds(goal, count),
        _ => true,
    }
}

/// The session whose queue a stage has a place in.
fn place_in_queue(stage: &Stage) -> (r: Option<usize>)
    ensures
        r == rules::place_in_queue(stage@),
{
    match stage {
        Stage::Queued { session, .. } => Some(*session),
        Stage::Slashing { session, .. } => Some(*session),
        Stage::SlashState { session, .. } => Some(*session),
        Stage::Prompting(turn) => Some(turn.session),
        Stage::Turning(turn) => Some(turn.session),
        Stage::Locating { turn, .. } => Some(turn.session),
        Stage::Reading { turn, .. } => Some(turn.session),
        Stage::Asked { turn, .. } => Some(turn.session),
        Stage::EndState(turn) => Some(turn.session),
        Stage::Settling { session, .. } => Some(*session),
        Stage::Dating { session, after, .. } => match after {
            After::Slash { .. } => Some(*session),
            After::Turn => Some(*session),
            _ => None,
        },
        Stage::Indexing { session, after } => match after {
            After::Slash { .. } => Some(*session),
            After::Turn => Some(*session),
            _ => None,
        },
        _ => None,
    }
}

/// A session whose process is closed.
pub open spec fn shut(live: LiveView) -> LiveView {
    LiveView { pi: PiView { closed: true, ..live.pi }, ..live }
}

/// Pi is listened to.
fn listen(turn: Turn) -> (r: Outcome)
    requires
        turn.state.wf(),
    ensures
        r.wf(),
        r@ == rules::listen(turn@),
{
    let session: usize = turn.session;
    make_go(Stage::Turning(turn), Action::Listen(session))
}

/// Why a session is not known.
fn unknown_session(id: &str) -> (r: RpcError)
    ensures
        r@ == rules::unknown_session(id@),
{
    internal_error("unknown session: ".to_owned().concat(id))
}

/// The id that Pi gives a session.
fn given_id(state: &Json) -> (r: Option<String>)
    ensures
        opt_string(r) == rules::given_id(state@),
{
    match state.str_at("sessionId") {
        Some(id) => if id.is_empty() {
            None
        } else {
            Some(id.to_owned())
        },
        None => None,
    }
}

/// Whether Pi does nothing and has nothing left to do.
fn is_idle(state: &Json) -> (r: bool)
    ensures
        r == rules::is_idle(state@),
{
    let pending: u64 = match state.get("pendingMessageCount") {
        Some(count) => match count.as_u64() {
            Some(count) => count,
            None => 0,
        },
        None => 0,
    };
    !state.is_true("isStreaming") && !state.is_true("isCompacting") && pending == 0
}

/// Nothing is left to do, and the log is told something.
fn make_warn(text: String) -> (r: Outcome)
    ensures
        r@ == rules::warn(text@),
        r.wf(),
{
    let r = Outcome { messages: Vec::new(), to_pi: None, warning: Some(text), next: Next::Done };
    assert(message_views(r.messages@) =~= Seq::<MessageView>::empty());
    r
}

/// Pi is sent a message, and nothing is left to do.
fn answer_pi(session: usize, message: Json) -> (r: Outcome)
    ensures
        r@ == rules::answer_pi(session, message@),
        r.wf(),
{
    match PiProcess::message(&message) {
        Err(text) => make_warn(
            "failed to answer a Pi extension: ".to_owned().concat(text.as_str()),
        ),
        Ok(record) => {
            let done: Outcome = make_done();
            Outcome { to_pi: Some((session, record)), ..done }
        },
    }
}

/// A notification failed.
fn notification_failed(text: String) -> (r: Outcome)
    ensures
        r@ == rules::warn(rules::notification_failed(text@)),
        r.wf(),
{
    make_warn("ACP notification failed: ".to_owned().concat(text.as_str()))
}

/// The request is over.
fn make_done() -> (r: Outcome)
    ensures
        r@ == crate::flow::send(Seq::empty(), crate::flow::NextView::Done),
        r.wf(),
{
    let r = Outcome { messages: Vec::new(), to_pi: None, warning: None, next: Next::Done };
    assert(message_views(r.messages@) =~= Seq::<MessageView>::empty());
    r
}

/// What the client wants to add to the system prompt.
fn wanted_prompt(workspace: &Workspace) -> (r: Option<String>)
    ensures
        opt_string(r) == rules::wanted_prompt(workspace@),
{
    match &workspace.meta {
        Some(meta) => meta_string(Some(meta), "systemPrompt"),
        None => None,
    }
}

} // verus!
