//! How far a request has come, what it waits for, and what is to be done for it.

use vstd::prelude::*;

use crate::acp::{
    next_number, notification_message, record_of, record_view, request_message, result_message,
    value_or_text, ErrorView, IdView, Peer, PeerView, RequestId, RpcError, MAX_ACP_RECORD_BYTES,
};
use crate::index::{opt_session, session_views, SessionView, StoredSession};
use crate::json::{Json, JsonView};
use crate::pi_rpc::{PiEvent, PiEventView};
use crate::prompt::{block_views, Block, BlockView};
use crate::records::{is_line, LINE_FEED};
use crate::text::{opt_string, texts};
use crate::translate::{TurnState, TurnView};

verus! {

/// What is done with a session once it is open.
pub enum Goal {
    Create,
    Load { id: String },
    Resume,
    SetMode { id: String, mode: String },
    SetOption { id: String, option: String, value: String },
    Prompt { id: String, blocks: Vec<Block> },
    /// `original` is the session that ran for the source before.
    Fork { source: String, original: Option<usize> },
}

/// What a [`Goal`] is.
pub enum GoalView {
    Create,
    Load { id: Seq<char> },
    Resume,
    SetMode { id: Seq<char>, mode: Seq<char> },
    SetOption { id: Seq<char>, option: Seq<char>, value: Seq<char> },
    Prompt { id: Seq<char>, blocks: Seq<BlockView> },
    Fork { source: Seq<char>, original: Option<usize> },
}

impl View for Goal {
    type V = GoalView;

    open spec fn view(&self) -> GoalView {
        match self {
            Goal::Create => GoalView::Create,
            Goal::Load { id } => GoalView::Load { id: id@ },
            Goal::Resume => GoalView::Resume,
            Goal::SetMode { id, mode } => GoalView::SetMode { id: id@, mode: mode@ },
            Goal::SetOption { id, option, value } => GoalView::SetOption {
                id: id@,
                option: option@,
                value: value@,
            },
            Goal::Prompt { id, blocks } => GoalView::Prompt {
                id: id@,
                blocks: block_views(blocks@),
            },
            Goal::Fork { source, original } => GoalView::Fork {
                source: source@,
                original: *original,
            },
        }
    }
}

/// The session that Pi is started for: where it works, the file that it continues, what is added
/// to its system prompt, and the id that it is to be known by beside the one that Pi gives it.
pub struct Opening {
    pub cwd: String,
    pub file: Option<String>,
    pub prompt: Option<String>,
    pub known_as: Option<String>,
}

/// What an [`Opening`] is.
pub struct OpeningView {
    pub cwd: Seq<char>,
    pub file: Option<Seq<char>>,
    pub prompt: Option<Seq<char>>,
    pub known_as: Option<Seq<char>>,
}

impl View for Opening {
    type V = OpeningView;

    open spec fn view(&self) -> OpeningView {
        OpeningView {
            cwd: self.cwd@,
            file: opt_string(self.file),
            prompt: opt_string(self.prompt),
            known_as: opt_string(self.known_as),
        }
    }
}

/// What comes after the index was brought up to date.
pub enum After {
    Open { id: String, known_as: Option<String>, goal: Goal },
    Slash { id: String, text: String },
    Turn,
    Fork { id: String },
}

/// What an [`After`] is.
pub enum AfterView {
    Open { id: Seq<char>, known_as: Option<Seq<char>>, goal: GoalView },
    Slash { id: Seq<char>, text: Seq<char> },
    Turn,
    Fork { id: Seq<char> },
}

impl View for After {
    type V = AfterView;

    open spec fn view(&self) -> AfterView {
        match self {
            After::Open { id, known_as, goal } => AfterView::Open {
                id: id@,
                known_as: opt_string(*known_as),
                goal: goal@,
            },
            After::Slash { id, text } => AfterView::Slash { id: id@, text: text@ },
            After::Turn => AfterView::Turn,
            After::Fork { id } => AfterView::Fork { id: id@ },
        }
    }
}

/// A turn that Pi is in.
pub struct Turn {
    pub session: usize,
    pub id: String,
    pub state: TurnState,
}

/// What a [`Turn`] is.
pub struct TurnOf {
    pub session: usize,
    pub id: Seq<char>,
    pub state: TurnView,
}

impl View for Turn {
    type V = TurnOf;

    open spec fn view(&self) -> TurnOf {
        TurnOf { session: self.session, id: self.id@, state: self.state@ }
    }
}

/// How far a request has come.
pub enum Stage {
    /// The index is searched for a session that no process runs for.
    Restoring { id: String, goal: Goal },
    /// The index is searched for a session to fork.
    ForkSource { source: String, cwd: String, prompt: Option<String> },
    /// The working directory of a new process is looked at.
    Checking { opening: Opening, goal: Goal },
    /// Pi is started.
    Starting { session: usize, opening: Opening, goal: Goal },
    /// Pi is asked for its state and its models.
    Asking { session: usize, opening: Opening, goal: Goal },
    /// A name is made up for a session that Pi gave none.
    Naming { session: usize, known_as: Option<String>, goal: Goal },
    /// The clock is read for the index.
    Dating { session: usize, id: String, after: After },
    /// The index is brought up to date.
    Indexing { session: usize, after: After },
    /// Pi is asked for its commands.
    Commands { session: usize, id: String },
    /// Pi is asked for the messages of a session.
    Replaying { session: usize, id: String },
    /// Pi is told a thinking level, and then asked for its state.
    Mode { session: usize, id: String, mode: String },
    ModeState { session: usize, id: String, mode: String },
    /// Pi is told an option, and then asked for its state.
    Choosing { session: usize, id: String },
    ChosenState { session: usize, id: String },
    /// A prompt waits for its turn.
    Queued { session: usize, id: String, blocks: Vec<Block> },
    /// Pi is given a slash command, and then asked for its state.
    Slashing { session: usize, id: String, output: Option<String> },
    SlashState { session: usize, id: String, text: String },
    /// Pi is given a prompt.
    Prompting(Turn),
    /// Pi is listened to.
    Turning(Turn),
    /// The file of a tool call is found.
    Locating { turn: Turn, event: Json },
    /// The file of a tool call is read.
    Reading { turn: Turn, event: Json, location: Option<String> },
    /// The client is asked on behalf of an extension.
    Asked { turn: Turn, question: Json },
    /// Pi has come to an end and is asked whether it will go on.
    EndState(Turn),
    /// A turn is over and Pi is asked for its state.
    Settling { session: usize, id: String },
    /// Pi clones a session, and is then asked for its state.
    Cloning { session: usize, source: String },
    CloneState { session: usize, source: String },
    /// A process is ended.
    Closing,
    /// The index is listed.
    Listing { cursor: Option<String> },
    /// Pi is told to stop.
    Aborting,
    /// The client is asked on behalf of an extension that no turn listens to.
    Unheard { session: usize, question: Json },
}

/// What a [`Stage`] is.
pub enum StageView {
    Restoring { id: Seq<char>, goal: GoalView },
    ForkSource { source: Seq<char>, cwd: Seq<char>, prompt: Option<Seq<char>> },
    Checking { opening: OpeningView, goal: GoalView },
    Starting { session: usize, opening: OpeningView, goal: GoalView },
    Asking { session: usize, opening: OpeningView, goal: GoalView },
    Naming { session: usize, known_as: Option<Seq<char>>, goal: GoalView },
    Dating { session: usize, id: Seq<char>, after: AfterView },
    Indexing { session: usize, after: AfterView },
    Commands { session: usize, id: Seq<char> },
    Replaying { session: usize, id: Seq<char> },
    Mode { session: usize, id: Seq<char>, mode: Seq<char> },
    ModeState { session: usize, id: Seq<char>, mode: Seq<char> },
    Choosing { session: usize, id: Seq<char> },
    ChosenState { session: usize, id: Seq<char> },
    Queued { session: usize, id: Seq<char>, blocks: Seq<BlockView> },
    Slashing { session: usize, id: Seq<char>, output: Option<Seq<char>> },
    SlashState { session: usize, id: Seq<char>, text: Seq<char> },
    Prompting(TurnOf),
    Turning(TurnOf),
    Locating { turn: TurnOf, event: JsonView },
    Reading { turn: TurnOf, event: JsonView, location: Option<Seq<char>> },
    Asked { turn: TurnOf, question: JsonView },
    EndState(TurnOf),
    Settling { session: usize, id: Seq<char> },
    Cloning { session: usize, source: Seq<char> },
    CloneState { session: usize, source: Seq<char> },
    Closing,
    Listing { cursor: Option<Seq<char>> },
    Aborting,
    Unheard { session: usize, question: JsonView },
}

impl View for Stage {
    type V = StageView;

    open spec fn view(&self) -> StageView {
        match self {
            Stage::Restoring { id, goal } => StageView::Restoring { id: id@, goal: goal@ },
            Stage::ForkSource { source, cwd, prompt } => StageView::ForkSource {
                source: source@,
                cwd: cwd@,
                prompt: opt_string(*prompt),
            },
            Stage::Checking { opening, goal } => StageView::Checking {
                opening: opening@,
                goal: goal@,
            },
            Stage::Starting { session, opening, goal } => StageView::Starting {
                session: *session,
                opening: opening@,
                goal: goal@,
            },
            Stage::Asking { session, opening, goal } => StageView::Asking {
                session: *session,
                opening: opening@,
                goal: goal@,
            },
            Stage::Naming { session, known_as, goal } => StageView::Naming {
                session: *session,
                known_as: opt_string(*known_as),
                goal: goal@,
            },
            Stage::Dating { session, id, after } => StageView::Dating {
                session: *session,
                id: id@,
                after: after@,
            },
            Stage::Indexing { session, after } => StageView::Indexing {
                session: *session,
                after: after@,
            },
            Stage::Commands { session, id } => StageView::Commands { session: *session, id: id@ },
            Stage::Replaying { session, id } => StageView::Replaying { session: *session, id: id@ },
            Stage::Mode { session, id, mode } => StageView::Mode {
                session: *session,
                id: id@,
                mode: mode@,
            },
            Stage::ModeState { session, id, mode } => StageView::ModeState {
                session: *session,
                id: id@,
                mode: mode@,
            },
            Stage::Choosing { session, id } => StageView::Choosing { session: *session, id: id@ },
            Stage::ChosenState { session, id } => StageView::ChosenState {
                session: *session,
                id: id@,
            },
            Stage::Queued { session, id, blocks } => StageView::Queued {
                session: *session,
                id: id@,
                blocks: block_views(blocks@),
            },
            Stage::Slashing { session, id, output } => StageView::Slashing {
                session: *session,
                id: id@,
                output: opt_string(*output),
            },
            Stage::SlashState { session, id, text } => StageView::SlashState {
                session: *session,
                id: id@,
                text: text@,
            },
            Stage::Prompting(turn) => StageView::Prompting(turn@),
            Stage::Turning(turn) => StageView::Turning(turn@),
            Stage::Locating { turn, event } => StageView::Locating { turn: turn@, event: event@ },
            Stage::Reading { turn, event, location } => StageView::Reading {
                turn: turn@,
                event: event@,
                location: opt_string(*location),
            },
            Stage::Asked { turn, question } => StageView::Asked {
                turn: turn@,
                question: question@,
            },
            Stage::EndState(turn) => StageView::EndState(turn@),
            Stage::Settling { session, id } => StageView::Settling { session: *session, id: id@ },
            Stage::Cloning { session, source } => StageView::Cloning {
                session: *session,
                source: source@,
            },
            Stage::CloneState { session, source } => StageView::CloneState {
                session: *session,
                source: source@,
            },
            Stage::Closing => StageView::Closing,
            Stage::Listing { cursor } => StageView::Listing { cursor: opt_string(*cursor) },
            Stage::Aborting => StageView::Aborting,
            Stage::Unheard { session, question } => StageView::Unheard {
                session: *session,
                question: question@,
            },
        }
    }
}

impl Stage {
    /// What is remembered of a turn is in order.
    pub open spec fn wf(&self) -> bool {
        match self {
            Stage::Prompting(turn) => turn.state.wf(),
            Stage::Turning(turn) => turn.state.wf(),
            Stage::Locating { turn, event: _ } => turn.state.wf(),
            Stage::Reading { turn, event: _, location: _ } => turn.state.wf(),
            Stage::Asked { turn, question: _ } => turn.state.wf(),
            Stage::EndState(turn) => turn.state.wf(),
            _ => true,
        }
    }
}

/// What a request waited for.
pub enum Event {
    Stored(Result<Option<StoredSession>, String>),
    Absolute(bool),
    Fresh(String),
    Now(Option<String>),
    Location(Option<String>),
    Started(Result<(), String>),
    Both(Result<(Json, Json), String>),
    Answer(Result<Json, String>),
    Finished(Result<(), String>),
    TurnTaken,
    Heard(PiEvent),
    Lagged(u64),
    StreamEnded,
    TimedOut,
    File(Option<String>),
    Replied(Result<Json, String>),
    Listed(Result<Vec<StoredSession>, String>),
}

/// What an [`Event`] is.
pub enum EventView {
    Stored(Result<Option<SessionView>, Seq<char>>),
    Absolute(bool),
    Fresh(Seq<char>),
    Now(Option<Seq<char>>),
    Location(Option<Seq<char>>),
    Started(Result<(), Seq<char>>),
    Both(Result<(JsonView, JsonView), Seq<char>>),
    Answer(Result<JsonView, Seq<char>>),
    Finished(Result<(), Seq<char>>),
    TurnTaken,
    Heard(PiEventView),
    Lagged(u64),
    StreamEnded,
    TimedOut,
    File(Option<Seq<char>>),
    Replied(Result<JsonView, Seq<char>>),
    Listed(Result<Seq<SessionView>, Seq<char>>),
}

/// The view of a success or of an error.
pub open spec fn unit_or_text(r: Result<(), String>) -> Result<(), Seq<char>> {
    match r {
        Ok(_) => Ok(()),
        Err(text) => Err(text@),
    }
}

impl View for Event {
    type V = EventView;

    open spec fn view(&self) -> EventView {
        match self {
            Event::Stored(Ok(session)) => EventView::Stored(Ok(opt_session(*session))),
            Event::Stored(Err(text)) => EventView::Stored(Err(text@)),
            Event::Absolute(absolute) => EventView::Absolute(*absolute),
            Event::Fresh(id) => EventView::Fresh(id@),
            Event::Now(now) => EventView::Now(opt_string(*now)),
            Event::Location(path) => EventView::Location(opt_string(*path)),
            Event::Started(r) => EventView::Started(unit_or_text(*r)),
            Event::Both(Ok((state, models))) => EventView::Both(Ok((state@, models@))),
            Event::Both(Err(text)) => EventView::Both(Err(text@)),
            Event::Answer(r) => EventView::Answer(value_or_text(*r)),
            Event::Finished(r) => EventView::Finished(unit_or_text(*r)),
            Event::TurnTaken => EventView::TurnTaken,
            Event::Heard(event) => EventView::Heard(event@),
            Event::Lagged(count) => EventView::Lagged(*count),
            Event::StreamEnded => EventView::StreamEnded,
            Event::TimedOut => EventView::TimedOut,
            Event::File(text) => EventView::File(opt_string(*text)),
            Event::Replied(r) => EventView::Replied(value_or_text(*r)),
            Event::Listed(Ok(list)) => EventView::Listed(Ok(session_views(list@))),
            Event::Listed(Err(text)) => EventView::Listed(Err(text@)),
        }
    }
}

/// Whether an event is what a stage waits for.
pub open spec fn fits(stage: StageView, event: EventView) -> bool {
    match stage {
        StageView::Restoring { .. } | StageView::ForkSource { .. } => event is Stored,
        StageView::Checking { .. } => event is Absolute,
        StageView::Starting { .. } => event is Started,
        StageView::Asking { .. } => event is Both,
        StageView::Naming { .. } => event is Fresh,
        StageView::Dating { .. } => event is Now,
        StageView::Indexing { .. } | StageView::Closing => event is Finished,
        StageView::Queued { .. } => event is TurnTaken,
        StageView::Turning(_) => event is Heard || event is Lagged || event is StreamEnded
            || event is TimedOut,
        StageView::Locating { .. } => event is Location,
        StageView::Reading { .. } => event is File || event is TimedOut,
        StageView::Asked { .. } => event is Replied || event is TimedOut,
        StageView::EndState(_) => event is Answer || event is TimedOut,
        StageView::Listing { .. } => event is Listed,
        StageView::Unheard { .. } => event is Replied,
        _ => event is Answer,
    }
}

/// Whether what Pi says at a stage is listened to, now or when the stage is over.
pub open spec fn listens(stage: StageView) -> bool {
    ||| stage is Prompting
    ||| stage is Turning
    ||| stage is Locating
    ||| stage is Reading
    ||| stage is Asked
    ||| stage is EndState
}

impl Stage {
    /// Whether an event is what the stage waits for.
    pub fn waits_for(&self, event: &Event) -> (r: bool)
        ensures
            r == fits(self@, event@),
    {
        match self {
            Stage::Restoring { .. } => matches!(event, Event::Stored(_)),
            Stage::ForkSource { .. } => matches!(event, Event::Stored(_)),
            Stage::Checking { .. } => matches!(event, Event::Absolute(_)),
            Stage::Starting { .. } => matches!(event, Event::Started(_)),
            Stage::Asking { .. } => matches!(event, Event::Both(_)),
            Stage::Naming { .. } => matches!(event, Event::Fresh(_)),
            Stage::Dating { .. } => matches!(event, Event::Now(_)),
            Stage::Indexing { .. } => matches!(event, Event::Finished(_)),
            Stage::Closing => matches!(event, Event::Finished(_)),
            Stage::Queued { .. } => matches!(event, Event::TurnTaken),
            Stage::Turning(_) => matches!(event, Event::Heard(_)) || matches!(
                event,
                Event::Lagged(_)
            ) || matches!(event, Event::StreamEnded) || matches!(event, Event::TimedOut),
            Stage::Locating { .. } => matches!(event, Event::Location(_)),
            Stage::Reading { .. } => matches!(event, Event::File(_)) || matches!(
                event,
                Event::TimedOut
            ),
            Stage::Asked { .. } => matches!(event, Event::Replied(_)) || matches!(
                event,
                Event::TimedOut
            ),
            Stage::EndState(_) => matches!(event, Event::Answer(_)) || matches!(
                event,
                Event::TimedOut
            ),
            Stage::Listing { .. } => matches!(event, Event::Listed(_)),
            Stage::Unheard { .. } => matches!(event, Event::Replied(_)),
            _ => matches!(event, Event::Answer(_)),
        }
    }

    /// Whether what Pi says at the stage is listened to, now or when the stage is over.
    pub fn listens(&self) -> (r: bool)
        ensures
            r == listens(self@),
    {
        matches!(self, Stage::Prompting(_)) || matches!(self, Stage::Turning(_)) || matches!(
            self,
            Stage::Locating { .. }
        ) || matches!(self, Stage::Reading { .. }) || matches!(self, Stage::Asked { .. })
            || matches!(self, Stage::EndState(_))
    }

    /// Whether the time for a turn runs while the stage waits.
    pub fn is_timed(&self) -> (r: bool)
        ensures
            r == fits(self@, EventView::TimedOut),
    {
        self.waits_for(&Event::TimedOut)
    }
}

/// What is to be done outside. The first four need no more than a look, the rest is work.
pub enum Action {
    CheckCwd,
    NameSession,
    ReadClock,
    Locate,
    /// Search the index for a session.
    FindStored(String),
    /// Start Pi for a session.
    Start { session: usize, cwd: String, arguments: Vec<String> },
    /// Ask Pi for its state and its models.
    AskBoth(usize),
    /// Give Pi a command, and listen to it from before that on where that is wanted.
    Ask { session: usize, command: Json, listen: bool },
    /// Bring the index up to date.
    Upsert(StoredSession),
    /// Wait until no other prompt of the session has the turn.
    TakeTurn(usize),
    /// Wait for what Pi says next.
    Listen(usize),
    /// Read a file.
    ReadFile(String),
    /// Ask the client for a permission.
    AskClient(Json),
    /// List the index, or what of it belongs to a directory.
    ListStored(Option<String>),
    /// End the process of a session.
    Kill(usize),
}

/// What an [`Action`] is.
pub enum ActionView {
    CheckCwd,
    NameSession,
    ReadClock,
    Locate,
    FindStored(Seq<char>),
    Start { session: usize, cwd: Seq<char>, arguments: Seq<Seq<char>> },
    AskBoth(usize),
    Ask { session: usize, command: JsonView, listen: bool },
    Upsert(SessionView),
    TakeTurn(usize),
    Listen(usize),
    ReadFile(Seq<char>),
    AskClient(JsonView),
    ListStored(Option<Seq<char>>),
    Kill(usize),
}

impl View for Action {
    type V = ActionView;

    open spec fn view(&self) -> ActionView {
        match self {
            Action::CheckCwd => ActionView::CheckCwd,
            Action::NameSession => ActionView::NameSession,
            Action::ReadClock => ActionView::ReadClock,
            Action::Locate => ActionView::Locate,
            Action::FindStored(id) => ActionView::FindStored(id@),
            Action::Start { session, cwd, arguments } => ActionView::Start {
                session: *session,
                cwd: cwd@,
                arguments: texts(arguments@),
            },
            Action::AskBoth(session) => ActionView::AskBoth(*session),
            Action::Ask { session, command, listen } => ActionView::Ask {
                session: *session,
                command: command@,
                listen: *listen,
            },
            Action::Upsert(session) => ActionView::Upsert(session@),
            Action::TakeTurn(session) => ActionView::TakeTurn(*session),
            Action::Listen(session) => ActionView::Listen(*session),
            Action::ReadFile(path) => ActionView::ReadFile(path@),
            Action::AskClient(params) => ActionView::AskClient(params@),
            Action::ListStored(cwd) => ActionView::ListStored(opt_string(*cwd)),
            Action::Kill(session) => ActionView::Kill(*session),
        }
    }
}

/// What the client is sent.
pub enum Message {
    /// The parameters of a `session/update` notification.
    Update(Json),
    /// The answer to the request.
    Reply(Json),
}

/// What a [`Message`] is.
pub enum MessageView {
    Update(JsonView),
    Reply(JsonView),
}

impl View for Message {
    type V = MessageView;

    open spec fn view(&self) -> MessageView {
        match self {
            Message::Update(params) => MessageView::Update(params@),
            Message::Reply(result) => MessageView::Reply(result@),
        }
    }
}

/// The views of a list of messages.
pub open spec fn message_views(list: Seq<Message>) -> Seq<MessageView> {
    list.map_values(|m: Message| m@)
}

/// The method that an update is sent with.
pub open spec fn update_method() -> Seq<char> {
    "session/update"@
}

/// The method that the client is asked for a permission with.
pub open spec fn permission_method() -> Seq<char> {
    "session/request_permission"@
}

/// What a message is on the wire: a notification, or the answer to the request with an id.
pub open spec fn on_wire(message: MessageView, id: IdView) -> JsonView {
    match message {
        MessageView::Update(params) => notification_message(update_method(), params),
        MessageView::Reply(result) => result_message(id, result),
    }
}

/// The record of a message, for the request with an id.
pub fn message_record(peer: &Peer, id: &RequestId, message: Message) -> (r: Result<Vec<u8>, String>)
    ensures
        record_view(r) == record_of(on_wire(message@, id@)),
        r matches Ok(record) ==> record@.len() > 0 && record@.last() == LINE_FEED && is_line(
            record@.drop_last(),
            MAX_ACP_RECORD_BYTES as int,
        ),
{
    match message {
        Message::Update(params) => peer.notification("session/update", params),
        Message::Reply(result) => peer.result(id, result),
    }
}

/// Asks the client for a permission: the number that its answer will have, and the record.
pub fn ask_permission(peer: &mut Peer, params: Json) -> (r: (i64, Result<Vec<u8>, String>))
    ensures
        r.0 == old(peer)@.next_id,
        record_view(r.1) == record_of(
            request_message(IdView::Number(old(peer)@.next_id), permission_method(), params@),
        ),
        final(peer)@ == (PeerView {
            pending: if r.1 is Ok {
                old(peer)@.pending.insert(old(peer)@.next_id)
            } else {
                old(peer)@.pending.remove(old(peer)@.next_id)
            },
            next_id: next_number(old(peer)@.next_id),
        }),
{
    peer.request("session/request_permission", params)
}

/// How a request goes on.
pub enum Next {
    /// Something is to be done, and then the request is at the stage.
    Do(Stage, Action),
    /// The request is over.
    Done,
    /// The request is over and is answered with an error.
    Failed(RpcError),
}

/// What a [`Next`] is.
pub enum NextView {
    Do(StageView, ActionView),
    Done,
    Failed(ErrorView),
}

impl View for Next {
    type V = NextView;

    open spec fn view(&self) -> NextView {
        match self {
            Next::Do(stage, action) => NextView::Do(stage@, action@),
            Next::Done => NextView::Done,
            Next::Failed(error) => NextView::Failed(error@),
        }
    }
}

/// What comes of an event: what the client is sent, the record that Pi is sent, what the log is
/// told, and how the request goes on, in this order.
pub struct Outcome {
    pub messages: Vec<Message>,
    pub to_pi: Option<(usize, Vec<u8>)>,
    pub warning: Option<String>,
    pub next: Next,
}

/// What an [`Outcome`] is.
pub struct OutcomeView {
    pub messages: Seq<MessageView>,
    pub to_pi: Option<(usize, Seq<u8>)>,
    pub warning: Option<Seq<char>>,
    pub next: NextView,
}

impl View for Outcome {
    type V = OutcomeView;

    open spec fn view(&self) -> OutcomeView {
        OutcomeView {
            messages: message_views(self.messages@),
            to_pi: match self.to_pi {
                Some((session, record)) => Some((session, record@)),
                None => None,
            },
            warning: opt_string(self.warning),
            next: self.next@,
        }
    }
}

impl Outcome {
    /// The stage that the request is at is in order.
    pub open spec fn wf(&self) -> bool {
        self.next matches Next::Do(stage, _) ==> stage.wf()
    }
}

/// Nothing is sent, and the request goes on.
pub open spec fn go(stage: StageView, action: ActionView) -> OutcomeView {
    send(Seq::empty(), NextView::Do(stage, action))
}

/// Messages are sent, and the request goes on.
pub open spec fn send(messages: Seq<MessageView>, next: NextView) -> OutcomeView {
    OutcomeView { messages, to_pi: None, warning: None, next }
}

/// The request is answered, and that is all.
pub open spec fn reply(result: JsonView) -> OutcomeView {
    send(seq![MessageView::Reply(result)], NextView::Done)
}

/// The request is answered with an error.
pub open spec fn fail(error: ErrorView) -> OutcomeView {
    send(Seq::empty(), NextView::Failed(error))
}

/// Pi is given a command.
pub open spec fn ask(session: usize, command: JsonView) -> ActionView {
    ActionView::Ask { session, command, listen: false }
}

/// Nothing is sent, and the request goes on.
pub fn make_go(stage: Stage, action: Action) -> (r: Outcome)
    ensures
        r@ == go(stage@, action@),
        stage.wf() ==> r.wf(),
{
    let r = Outcome {
        messages: Vec::new(),
        to_pi: None,
        warning: None,
        next: Next::Do(stage, action),
    };
    assert(message_views(r.messages@) =~= Seq::<MessageView>::empty());
    r
}

/// The request is answered, and that is all.
pub fn make_reply(result: Json) -> (r: Outcome)
    ensures
        r@ == reply(result@),
        r.wf(),
{
    make_send_one(Message::Reply(result), Next::Done)
}

/// One message is sent, and the request goes on.
pub fn make_send_one(message: Message, next: Next) -> (r: Outcome)
    ensures
        r@ == send(seq![message@], next@),
        (next matches Next::Do(stage, _) ==> stage.wf()) ==> r.wf(),
{
    let mut messages: Vec<Message> = Vec::new();
    messages.push(message);
    assert(message_views(messages@) =~= seq![message@]);
    Outcome { messages, to_pi: None, warning: None, next }
}

/// Two messages are sent, and the request is over.
pub fn make_send_two(first: Message, second: Message) -> (r: Outcome)
    ensures
        r@ == send(seq![first@, second@], NextView::Done),
        r.wf(),
{
    let mut messages: Vec<Message> = Vec::new();
    messages.push(first);
    messages.push(second);
    assert(message_views(messages@) =~= seq![first@, second@]);
    Outcome { messages, to_pi: None, warning: None, next: Next::Done }
}

/// The request is answered with an error.
pub fn make_fail(error: RpcError) -> (r: Outcome)
    ensures
        r@ == fail(error@),
        r.wf(),
{
    let r = Outcome {
        messages: Vec::new(),
        to_pi: None,
        warning: None,
        next: Next::Failed(error),
    };
    assert(message_views(r.messages@) =~= Seq::<MessageView>::empty());
    r
}

/// Pi is given a command.
pub fn make_ask(session: usize, command: Json) -> (r: Action)
    ensures
        r@ == ask(session, command@),
{
    Action::Ask { session, command, listen: false }
}

} // verus!
