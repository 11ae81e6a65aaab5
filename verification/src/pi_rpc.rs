//! Pi's side: commands to a Pi process and what it says.

use vstd::prelude::*;

use crate::json::{json_parsed, json_written, Json, JsonView};
use crate::records::{
    framed, framing_ignores_chunks, is_line, lemma_line_end, take_record, Rest, Taken,
    LINE_FEED,
};
use crate::text::{
    copy_texts, decimal, decimal_is_injective, decimal_text, opt_text, same_text, texts,
};

verus! {

/// How many bytes a record may have.
pub const MAX_RPC_LINE_BYTES: usize = 16_777_216;

/// How many seconds a command may take.
pub const COMMAND_TIMEOUT_SECONDS: u64 = 30;

/// How many events wait for those that listen.
pub const EVENT_BUFFER: usize = 512;

/// What happens to a Pi process.
pub enum PiEvent {
    /// It said something.
    Message(Json),
    /// It ended, or what it says cannot be understood.
    Exited(String),
}

/// What a [`PiEvent`] is.
pub enum PiEventView {
    Message(JsonView),
    Exited(Seq<char>),
}

impl View for PiEvent {
    type V = PiEventView;

    open spec fn view(&self) -> PiEventView {
        match self {
            PiEvent::Message(value) => PiEventView::Message(value@),
            PiEvent::Exited(text) => PiEventView::Exited(text@),
        }
    }
}

/// What comes of something that Pi says.
pub enum PiOutput {
    /// The command with the id is done.
    Reply { id: String, result: Result<Json, String> },
    /// All that listen are told.
    Event(PiEvent),
}

/// What a [`PiOutput`] is.
pub enum PiOutputView {
    Reply { id: Seq<char>, result: Result<JsonView, Seq<char>> },
    Event(PiEventView),
}

impl View for PiOutput {
    type V = PiOutputView;

    open spec fn view(&self) -> PiOutputView {
        match self {
            PiOutput::Reply { id, result } => PiOutputView::Reply {
                id: id@,
                result: match result {
                    Ok(value) => Ok(value@),
                    Err(text) => Err(text@),
                },
            },
            PiOutput::Event(event) => PiOutputView::Event(event@),
        }
    }
}

/// The views of a list of outputs.
pub open spec fn output_views(list: Seq<PiOutput>) -> Seq<PiOutputView> {
    list.map_values(|o: PiOutput| o@)
}

/// What Pi is told when it is started.
pub open spec fn arguments(
    session_dir: Seq<char>,
    session_file: Option<Seq<char>>,
    prompts: Seq<Seq<char>>,
    extra: Seq<Seq<char>>,
) -> Seq<Seq<char>> {
    let start = seq!["--mode"@, "rpc"@, "--no-themes"@, "--session-dir"@, session_dir];
    let session = match session_file {
        Some(file) => seq!["--session"@, file],
        None => Seq::empty(),
    };
    start + session + prompt_arguments(prompts) + extra
}

/// Each prompt with its option before it.
pub open spec fn prompt_arguments(prompts: Seq<Seq<char>>) -> Seq<Seq<char>>
    decreases prompts.len(),
{
    if prompts.len() == 0 {
        Seq::empty()
    } else {
        prompt_arguments(prompts.drop_last()) + seq!["--append-system-prompt"@, prompts.last()]
    }
}

/// What Pi is told when it is started: to speak RPC, where it keeps its sessions, which of them
/// to open, what to add to its system prompt, and whatever else the user wants.
pub fn spawn_arguments(
    session_dir: &str,
    session_file: Option<&str>,
    append_system_prompts: &Vec<String>,
    extra_args: &Vec<String>,
) -> (r: Vec<String>)
    ensures
        texts(r@) == arguments(
            session_dir@,
            opt_text(session_file),
            texts(append_system_prompts@),
            texts(extra_args@),
        ),
{
    let mut args: Vec<String> = Vec::new();
    args.push("--mode".to_owned());
    args.push("rpc".to_owned());
    args.push("--no-themes".to_owned());
    args.push("--session-dir".to_owned());
    args.push(session_dir.to_owned());
    if let Some(path) = session_file {
        args.push("--session".to_owned());
        args.push(path.to_owned());
    }
    let ghost start = texts(args@);
    let ghost prompts = texts(append_system_prompts@);
    assert(start =~= arguments(session_dir@, opt_text(session_file), Seq::empty(), Seq::empty()));
    let mut i: usize = 0;
    assert(start + prompt_arguments(prompts.take(0)) =~= start);
    while i < append_system_prompts.len()
        invariant
            i <= append_system_prompts.len(),
            prompts == texts(append_system_prompts@),
            texts(args@) == start + prompt_arguments(prompts.take(i as int)),
        decreases append_system_prompts.len() - i,
    {
        let ghost before = texts(args@);
        args.push("--append-system-prompt".to_owned());
        args.push(append_system_prompts[i].clone());
        assert(prompts.take(i + 1).drop_last() =~= prompts.take(i as int));
        assert(prompts.take(i + 1).last() == append_system_prompts@[i as int]@);
        assert(texts(args@) =~= before + seq!["--append-system-prompt"@, prompts[i as int]]);
        assert(texts(args@) =~= start + prompt_arguments(prompts.take(i + 1)));
        i = i + 1;
    }
    assert(prompts.take(i as int) =~= prompts);
    let mut extra: Vec<String> = copy_texts(extra_args);
    let ghost before = texts(args@);
    let ghost added = texts(extra@);
    args.append(&mut extra);
    assert(texts(args@) =~= before + added);
    assert(texts(args@) =~= arguments(
        session_dir@,
        opt_text(session_file),
        prompts,
        texts(extra_args@),
    ));
    args
}

/// The result that a response carries.
pub open spec fn reply_of(response: JsonView) -> Result<JsonView, Seq<char>> {
    if response.is_true("success"@) {
        Ok(response.get_or_null("data"@))
    } else {
        Err(
            "Pi RPC command failed: "@ + match response.str_at("error"@) {
                Some(error) => error,
                None => "unknown error"@,
            },
        )
    }
}

/// What comes of a line, and which commands wait for a response after it.
pub struct LineOutcome {
    pub outputs: Seq<PiOutputView>,
    pub pending: Set<Seq<char>>,
}

/// What comes of a line. A response to a command that waits for it goes to that command, and
/// anything else goes to all that listen. An empty line is nothing.
pub open spec fn line_outcome(pending: Set<Seq<char>>, line: Seq<u8>) -> LineOutcome {
    if line.len() == 0 {
        LineOutcome { outputs: Seq::empty(), pending }
    } else {
        match json_parsed(line) {
            Err(text) => LineOutcome {
                outputs: seq![
                    PiOutputView::Event(PiEventView::Exited("invalid Pi RPC JSON: "@ + text)),
                ],
                pending,
            },
            Ok(value) => match value.str_at("id"@) {
                Some(id) if value.str_at("type"@) == Some("response"@) && pending.contains(id)
                    => LineOutcome {
                    outputs: seq![PiOutputView::Reply { id, result: reply_of(value) }],
                    pending: pending.remove(id),
                },
                _ => LineOutcome {
                    outputs: seq![PiOutputView::Event(PiEventView::Message(value))],
                    pending,
                },
            },
        }
    }
}

/// What comes of lines, one after the other.
pub open spec fn lines_outcome(pending: Set<Seq<char>>, lines: Seq<Seq<u8>>) -> LineOutcome
    decreases lines.len(),
{
    if lines.len() == 0 {
        LineOutcome { outputs: Seq::empty(), pending }
    } else {
        let before = lines_outcome(pending, lines.drop_last());
        let last = line_outcome(before.pending, lines.last());
        LineOutcome { outputs: before.outputs + last.outputs, pending: last.pending }
    }
}

/// What comes of bytes from Pi: the outcome of the lines in them, an event where a line is too
/// long, and what is left.
pub struct Heard {
    pub outcome: LineOutcome,
    pub rest: Rest,
}

/// The event when a line is too long.
pub open spec fn too_long_event() -> PiOutputView {
    PiOutputView::Event(PiEventView::Exited("Pi RPC record exceeded 16777216 bytes"@))
}

/// What comes of bytes from Pi.
pub open spec fn heard(pending: Set<Seq<char>>, stream: Seq<u8>) -> Heard {
    let cut = framed(stream, MAX_RPC_LINE_BYTES as int);
    let outcome = lines_outcome(pending, cut.records);
    Heard {
        outcome: match cut.rest {
            Rest::Partial(_) => outcome,
            Rest::TooLong => LineOutcome {
                outputs: outcome.outputs.push(too_long_event()),
                pending: outcome.pending,
            },
        },
        rest: cut.rest,
    }
}

/// Lines and more lines are lines.
proof fn lemma_lines_outcome_split(pending: Set<Seq<char>>, a: Seq<Seq<u8>>, b: Seq<Seq<u8>>)
    ensures
        ({
            let first = lines_outcome(pending, a);
            let second = lines_outcome(first.pending, b);
            lines_outcome(pending, a + b) == (LineOutcome {
                outputs: first.outputs + second.outputs,
                pending: second.pending,
            })
        }),
    decreases b.len(),
{
    if b.len() == 0 {
        assert(a + b =~= a);
        let first = lines_outcome(pending, a);
        assert(first.outputs + Seq::<PiOutputView>::empty() =~= first.outputs);
    } else {
        lemma_lines_outcome_split(pending, a, b.drop_last());
        assert((a + b).drop_last() =~= a + b.drop_last());
        let first = lines_outcome(pending, a);
        let second = lines_outcome(first.pending, b.drop_last());
        let last = line_outcome(second.pending, b.last());
        assert((first.outputs + second.outputs) + last.outputs =~= first.outputs + (
        second.outputs + last.outputs));
    }
}

/// Where Pi's bytes come in parts, the same comes of them: what comes of the first part, then
/// what comes of its rest with the second part behind it.
pub proof fn hearing_ignores_chunks(pending: Set<Seq<char>>, a: Seq<u8>, b: Seq<u8>)
    ensures
        ({
            let first = heard(pending, a);
            match first.rest {
                Rest::Partial(rest) => {
                    let second = heard(first.outcome.pending, rest + b);
                    heard(pending, a + b) == (Heard {
                        outcome: LineOutcome {
                            outputs: first.outcome.outputs + second.outcome.outputs,
                            pending: second.outcome.pending,
                        },
                        rest: second.rest,
                    })
                },
                Rest::TooLong => heard(pending, a + b) == first,
            }
        }),
{
    framing_ignores_chunks(a, b, MAX_RPC_LINE_BYTES as int);
    let cut = framed(a, MAX_RPC_LINE_BYTES as int);
    if let Rest::Partial(rest) = cut.rest {
        let next = framed(rest + b, MAX_RPC_LINE_BYTES as int);
        lemma_lines_outcome_split(pending, cut.records, next.records);
        let first = lines_outcome(pending, cut.records);
        let second = lines_outcome(first.pending, next.records);
        assert((first.outputs + second.outputs).push(too_long_event()) =~= first.outputs
            + second.outputs.push(too_long_event()));
    }
}

/// The id of the command with a number.
pub open spec fn command_id(number: u64) -> Seq<char> {
    "pi-acp-"@ + decimal(number as nat)
}

/// Commands with different numbers have different ids.
pub proof fn command_ids_differ(a: u64, b: u64)
    requires
        a != b,
    ensures
        command_id(a) != command_id(b),
{
    if command_id(a) == command_id(b) {
        let n = "pi-acp-"@.len() as int;
        assert(command_id(a).skip(n) =~= decimal(a as nat));
        assert(command_id(b).skip(n) =~= decimal(b as nat));
        decimal_is_injective(a as nat, b as nat);
    }
}

/// A Pi process: the commands that wait for a response, and what it said of a line that has not
/// ended yet.
pub struct PiProcess {
    pending: Vec<String>,
    next_id: u64,
    closed: bool,
    buffer: Vec<u8>,
    pub cwd: String,
    pub queued_prompts: usize,
}

/// What a [`PiProcess`] is.
pub struct PiView {
    pub pending: Set<Seq<char>>,
    pub next_id: u64,
    pub closed: bool,
    pub buffer: Seq<u8>,
    pub cwd: Seq<char>,
    pub queued_prompts: usize,
}

impl View for PiProcess {
    type V = PiView;

    closed spec fn view(&self) -> PiView {
        PiView {
            pending: texts(self.pending@).to_set(),
            next_id: self.next_id,
            closed: self.closed,
            buffer: self.buffer@,
            cwd: self.cwd@,
            queued_prompts: self.queued_prompts,
        }
    }
}

/// What Pi said, worked off.
pub struct Received {
    pub outputs: Vec<PiOutput>,
    /// Whether nothing more that Pi says can be understood.
    pub ended: bool,
}

/// The view of a command that was made or of an error.
pub open spec fn command_view(r: Result<(String, Vec<u8>), String>) -> Result<
    (Seq<char>, Seq<u8>),
    Seq<char>,
> {
    match r {
        Ok((id, record)) => Ok((id@, record@)),
        Err(text) => Err(text@),
    }
}

/// The record that a message to Pi is written as, with its line feed, or the message of an error.
pub open spec fn message_record(message: JsonView) -> Result<Seq<u8>, Seq<char>> {
    match json_written(message) {
        Err(text) => Err(text),
        Ok(bytes) => if bytes.len() > MAX_RPC_LINE_BYTES {
            Err("Pi RPC record exceeded 16777216 bytes"@)
        } else {
            Ok(bytes.push(LINE_FEED))
        },
    }
}

/// A command: the message with the id of its number, or why it cannot be given.
pub open spec fn command_of(pi: PiView, command: JsonView) -> Result<
    (Seq<char>, Seq<u8>),
    Seq<char>,
> {
    if pi.closed {
        Err("Pi process is closed"@)
    } else if !(command is Object) {
        Err("Pi RPC command must be an object"@)
    } else {
        let id = command_id(pi.next_id);
        match message_record(command.with("id"@, JsonView::String(id))) {
            Err(text) => Err(text),
            Ok(record) => Ok((id, record)),
        }
    }
}

/// The number after `n`; after the last comes the first.
pub open spec fn next_number(n: u64) -> u64 {
    if n == u64::MAX {
        0
    } else {
        (n + 1) as u64
    }
}

/// What a process is after it was given a command: the number is used, and the command waits for
/// its response where it could be given.
pub open spec fn after_command(pi: PiView, command: JsonView) -> PiView {
    if pi.closed {
        pi
    } else {
        PiView {
            next_id: next_number(pi.next_id),
            pending: match command_of(pi, command) {
                Ok((id, _)) => pi.pending.insert(id),
                Err(_) => pi.pending,
            },
            ..pi
        }
    }
}

/// A command without arguments.
pub open spec fn plain_command(name: Seq<char>) -> JsonView {
    JsonView::object().with("type"@, JsonView::String(name))
}

/// A command without arguments.
pub fn make_plain_command(name: &str) -> (r: Json)
    ensures
        r@ == plain_command(name@),
{
    Json::object().with("type", Json::text(name))
}

/// Why commands that wait get no response when Pi ends.
pub open spec fn exit_message() -> Seq<char> {
    "Pi process exited before completing pending commands"@
}

/// What the commands that wait get when Pi ends.
pub open spec fn exit_replies(ids: Seq<Seq<char>>) -> Seq<PiOutputView> {
    ids.map_values(
        |id: Seq<char>| PiOutputView::Reply { id, result: Err::<JsonView, Seq<char>>(exit_message()) },
    )
}

/// Whether `outputs` is what comes of the end of Pi: each command that waits gets its reply, in
/// some order, and then all that listen are told.
pub open spec fn ended(pending: Set<Seq<char>>, outputs: Seq<PiOutputView>) -> bool {
    exists|ids: Seq<Seq<char>>|
        {
            &&& ids.no_duplicates()
            &&& ids.to_set() == pending
            &&& outputs == #[trigger] exit_replies(ids).push(
                PiOutputView::Event(PiEventView::Exited(exit_message())),
            )
        }
}

/// Why a prompt is not queued.
pub open spec fn queue_message(limit: usize) -> Seq<char> {
    "Pi prompt queue limit ("@ + decimal(limit as nat)
        + ") reached; raise --max-queued-prompts to allow more"@
}

/// Why a command that takes too long fails.
pub fn command_timed_out() -> (r: String)
    ensures
        r@ == "Pi RPC command timed out after 30s"@,
{
    "Pi RPC command timed out after 30s".to_owned()
}

/// Why a command fails whose response can come no more.
pub fn response_lost() -> (r: String)
    ensures
        r@ == "Pi RPC command response channel closed"@,
{
    "Pi RPC command response channel closed".to_owned()
}

/// What all that listen are told when Pi cannot be read.
pub fn read_failed(error: &str) -> (r: PiEvent)
    ensures
        r@ == PiEventView::Exited("Pi RPC read failed: "@ + error@),
{
    PiEvent::Exited("Pi RPC read failed: ".to_owned().concat(error))
}

/// The result that a response carries.
fn read_reply(response: &Json) -> (r: Result<Json, String>)
    ensures
        reply_of(response@) == (match r {
            Ok(value) => Ok::<JsonView, Seq<char>>(value@),
            Err(text) => Err(text@),
        }),
{
    if response.is_true("success") {
        Ok(response.get_or_null("data"))
    } else {
        let error: &str = match response.str_at("error") {
            Some(error) => error,
            None => "unknown error",
        };
        Err("Pi RPC command failed: ".to_owned().concat(error))
    }
}

impl PiProcess {
    /// Each command that waits is listed once.
    pub closed spec fn wf(&self) -> bool {
        texts(self.pending@).no_duplicates()
    }

    /// A process that was just started in a directory.
    pub fn new(cwd: String) -> (r: PiProcess)
        ensures
            r.wf(),
            r@ == (PiView {
                pending: Set::empty(),
                next_id: 1,
                closed: false,
                buffer: Seq::empty(),
                cwd: cwd@,
                queued_prompts: 0,
            }),
    {
        let r = PiProcess {
            pending: Vec::new(),
            next_id: 1,
            closed: false,
            buffer: Vec::new(),
            cwd,
            queued_prompts: 0,
        };
        assert(texts(r.pending@).to_set() =~= Set::<Seq<char>>::empty());
        r
    }

    /// The place of an id among those that wait.
    fn find(&self, id: &str) -> (r: Option<usize>)
        ensures
            match r {
                Some(i) => i < self.pending.len() && self.pending[i as int]@ == id@
                    && self@.pending.contains(id@),
                None => !self@.pending.contains(id@),
            },
    {
        let mut i: usize = 0;
        while i < self.pending.len()
            invariant
                i <= self.pending.len(),
                forall|k: int| 0 <= k < i ==> (#[trigger] texts(self.pending@)[k]) != id@,
            decreases self.pending.len() - i,
        {
            assert(texts(self.pending@)[i as int] == self.pending@[i as int]@);
            if same_text(self.pending[i].as_str(), id) {
                assert(texts(self.pending@).contains(id@));
                return Some(i);
            }
            i = i + 1;
        }
        None
    }

    /// Waits no longer for the response to a command.
    pub fn forget(&mut self, id: &str)
        requires
            old(self).wf(),
        ensures
            final(self).wf(),
            final(self)@ == (PiView { pending: old(self)@.pending.remove(id@), ..old(self)@ }),
    {
        let ghost before = texts(self.pending@);
        match self.find(id) {
            Some(i) => {
                self.pending.remove(i);
                proof {
                    let after = texts(self.pending@);
                    assert(after =~= before.remove(i as int));
                    assert forall|x: Seq<char>| #[trigger]
                        after.to_set().contains(x) <==> before.to_set().remove(id@).contains(x) by {
                        if after.contains(x) {
                            let k = choose|k: int| 0 <= k < after.len() && after[k] == x;
                            let j = if k < i {
                                k
                            } else {
                                k + 1
                            };
                            assert(before[j] == x);
                            assert(before[i as int] == id@);
                        }
                        if before.to_set().remove(id@).contains(x) {
                            let j = choose|j: int| 0 <= j < before.len() && before[j] == x;
                            assert(j != i);
                            let k = if j < i {
                                j
                            } else {
                                j - 1
                            };
                            assert(after[k] == x);
                        }
                    }
                    assert(after.to_set() =~= before.to_set().remove(id@));
                }
            },
            None => {
                assert(self@.pending.remove(id@) =~= self@.pending);
            },
        }
    }

    /// Waits for the response to a command.
    fn wait_for(&mut self, id: String)
        requires
            old(self).wf(),
        ensures
            final(self).wf(),
            final(self)@ == (PiView { pending: old(self)@.pending.insert(id@), ..old(self)@ }),
    {
        let ghost before = texts(self.pending@);
        if self.find(id.as_str()).is_none() {
            let ghost name = id@;
            self.pending.push(id);
            proof {
                let after = texts(self.pending@);
                assert(after =~= before.push(name));
                assert forall|x: Seq<char>| #[trigger]
                    after.to_set().contains(x) <==> before.to_set().insert(name).contains(x) by {
                    if before.to_set().contains(x) {
                        let k = choose|k: int| 0 <= k < before.len() && before[k] == x;
                        assert(after[k] == x);
                    }
                    if x == name {
                        assert(after[before.len() as int] == x);
                    }
                }
                assert(after.to_set() =~= before.to_set().insert(name));
            }
        } else {
            assert(before.to_set() =~= before.to_set().insert(id@));
        }
    }

    /// Whether the process has ended or was told to.
    pub fn is_closed(&self) -> (r: bool)
        ensures
            r == self@.closed,
    {
        self.closed
    }

    /// Marks the process as closed. Whether it was open until now, and so has to be ended.
    pub fn close(&mut self) -> (r: bool)
        requires
            old(self).wf(),
        ensures
            final(self).wf(),
            r == !old(self)@.closed,
            final(self)@ == (PiView { closed: true, ..old(self)@ }),
    {
        let open: bool = !self.closed;
        self.closed = true;
        open
    }

    /// The record of a message that Pi does not respond to.
    pub fn message(message: &Json) -> (r: Result<Vec<u8>, String>)
        ensures
            message_record(message@) == (match r {
                Ok(record) => Ok::<Seq<u8>, Seq<char>>(record@),
                Err(text) => Err(text@),
            }),
            r matches Ok(record) ==> record@.len() > 0 && record@.last() == LINE_FEED && is_line(
                record@.drop_last(),
                MAX_RPC_LINE_BYTES as int,
            ),
    {
        match message.to_bytes() {
            Err(text) => Err(text),
            Ok(bytes) => {
                if bytes.len() > MAX_RPC_LINE_BYTES {
                    return Err("Pi RPC record exceeded 16777216 bytes".to_owned());
                }
                let mut record = bytes;
                let ghost before = record@;
                record.push(LINE_FEED);
                assert(record@.drop_last() =~= before);
                Ok(record)
            },
        }
    }

    /// Gives a command: its id, which waits for the response from now on, and the record to
    /// write.
    pub fn command(&mut self, command: Json) -> (r: Result<(String, Vec<u8>), String>)
        requires
            old(self).wf(),
        ensures
            final(self).wf(),
            command_view(r) == command_of(old(self)@, command@),
            final(self)@ == after_command(old(self)@, command@),
    {
        if self.closed {
            return Err("Pi process is closed".to_owned());
        }
        let id: String = "pi-acp-".to_owned().concat(decimal_text(self.next_id).as_str());
        self.next_id = if self.next_id == u64::MAX {
            0
        } else {
            self.next_id + 1
        };
        if !matches!(command, Json::Object(_)) {
            return Err("Pi RPC command must be an object".to_owned());
        }
        match PiProcess::message(&command.with("id", Json::text(id.as_str()))) {
            Err(text) => Err(text),
            Ok(record) => {
                self.wait_for(id.clone());
                Ok((id, record))
            },
        }
    }

    /// Asks Pi for its state.
    pub fn get_state(&mut self) -> (r: Result<(String, Vec<u8>), String>)
        requires
            old(self).wf(),
        ensures
            final(self).wf(),
            command_view(r) == command_of(old(self)@, plain_command("get_state"@)),
            final(self)@ == after_command(old(self)@, plain_command("get_state"@)),
    {
        self.command(make_plain_command("get_state"))
    }

    /// Asks Pi for the models that it has available.
    pub fn get_models(&mut self) -> (r: Result<(String, Vec<u8>), String>)
        requires
            old(self).wf(),
        ensures
            final(self).wf(),
            command_view(r) == command_of(old(self)@, plain_command("get_available_models"@)),
            final(self)@ == after_command(old(self)@, plain_command("get_available_models"@)),
    {
        self.command(make_plain_command("get_available_models"))
    }

    /// Asks Pi for its commands.
    pub fn get_commands(&mut self) -> (r: Result<(String, Vec<u8>), String>)
        requires
            old(self).wf(),
        ensures
            final(self).wf(),
            command_view(r) == command_of(old(self)@, plain_command("get_commands"@)),
            final(self)@ == after_command(old(self)@, plain_command("get_commands"@)),
    {
        self.command(make_plain_command("get_commands"))
    }

    /// Tells Pi to stop what it is doing.
    pub fn abort(&mut self) -> (r: Result<(String, Vec<u8>), String>)
        requires
            old(self).wf(),
        ensures
            final(self).wf(),
            command_view(r) == command_of(old(self)@, plain_command("abort"@)),
            final(self)@ == after_command(old(self)@, plain_command("abort"@)),
    {
        self.command(make_plain_command("abort"))
    }

    /// Works off a line.
    fn hear_line(&mut self, line: &Vec<u8>) -> (r: Option<PiOutput>)
        requires
            old(self).wf(),
        ensures
            final(self).wf(),
            ({
                let after = line_outcome(old(self)@.pending, line@);
                &&& final(self)@ == (PiView { pending: after.pending, ..old(self)@ })
                &&& after.outputs == (match r {
                    Some(output) => seq![output@],
                    None => Seq::<PiOutputView>::empty(),
                })
            }),
    {
        if line.len() == 0 {
            return None;
        }
        match Json::parse(line.as_slice()) {
            Err(text) => Some(
                PiOutput::Event(
                    PiEvent::Exited("invalid Pi RPC JSON: ".to_owned().concat(text.as_str())),
                ),
            ),
            Ok(value) => {
                if value.has_text("type", "response") {
                    if let Some(id) = value.str_at("id") {
                        if self.find(id).is_some() {
                            let id: String = id.to_owned();
                            self.forget(id.as_str());
                            return Some(PiOutput::Reply { id, result: read_reply(&value) });
                        }
                    }
                }
                Some(PiOutput::Event(PiEvent::Message(value)))
            },
        }
    }

    /// Works off bytes that Pi wrote.
    pub fn receive(&mut self, chunk: &[u8]) -> (r: Received)
        requires
            old(self).wf(),
        ensures
            final(self).wf(),
            ({
                let after = heard(old(self)@.pending, old(self)@.buffer + chunk@);
                &&& output_views(r.outputs@) == after.outcome.outputs
                &&& r.ended == (after.rest is TooLong)
                &&& final(self)@.pending == after.outcome.pending
                &&& after.rest matches Rest::Partial(rest) ==> final(self)@.buffer == rest
                &&& final(self)@ == (PiView {
                    pending: final(self)@.pending,
                    buffer: final(self)@.buffer,
                    ..old(self)@
                })
            }),
    {
        let ghost start = self@;
        let ghost limit = MAX_RPC_LINE_BYTES as int;
        self.buffer.extend_from_slice(chunk);
        assert(self.buffer@ =~= old(self)@.buffer + chunk@);
        let ghost whole = self.buffer@;
        let mut outputs: Vec<PiOutput> = Vec::new();
        let ghost mut done = Seq::<Seq<u8>>::empty();
        proof {
            assert(framed(whole, limit).after_all(done).records =~= framed(whole, limit).records);
            assert(output_views(outputs@) =~= Seq::<PiOutputView>::empty());
        }
        loop
            invariant
                self.wf(),
                limit == MAX_RPC_LINE_BYTES as int,
                framed(whole, limit) == framed(self.buffer@, limit).after_all(done),
                output_views(outputs@) == lines_outcome(start.pending, done).outputs,
                self@ == (PiView {
                    pending: lines_outcome(start.pending, done).pending,
                    buffer: self.buffer@,
                    ..start
                }),
                start == old(self)@,
                whole == old(self)@.buffer + chunk@,
            decreases self.buffer.len(),
        {
            let ghost now = self.buffer@;
            proof {
                lemma_line_end(now);
            }
            match take_record(&mut self.buffer, MAX_RPC_LINE_BYTES) {
                Taken::Record(line) => {
                    proof {
                        let next = framed(self.buffer@, limit);
                        assert(next.after(line@).after_all(done).records =~= next.after_all(
                            done.push(line@),
                        ).records);
                        assert(done.push(line@).drop_last() =~= done);
                        done = done.push(line@);
                    }
                    let ghost before = outputs@;
                    if let Some(output) = self.hear_line(&line) {
                        outputs.push(output);
                        assert(output_views(outputs@) =~= output_views(before) + seq![output@]);
                    }
                },
                Taken::Partial => {
                    assert(framed(whole, limit).records =~= done);
                    return Received { outputs, ended: false };
                },
                Taken::TooLong => {
                    assert(framed(whole, limit).records =~= done);
                    let ghost before = outputs@;
                    outputs.push(
                        PiOutput::Event(
                            PiEvent::Exited("Pi RPC record exceeded 16777216 bytes".to_owned()),
                        ),
                    );
                    assert(output_views(outputs@) =~= output_views(before).push(too_long_event()));
                    return Received { outputs, ended: true };
                },
            }
        }
    }

    /// Works off that Pi writes no more: it is closed, every command that waits is told so, and
    /// then all that listen are.
    pub fn finish(&mut self) -> (r: Vec<PiOutput>)
        requires
            old(self).wf(),
        ensures
            final(self).wf(),
            final(self)@ == (PiView { pending: Set::empty(), closed: true, ..old(self)@ }),
            ended(old(self)@.pending, output_views(r@)),
    {
        self.closed = true;
        let mut outputs: Vec<PiOutput> = Vec::new();
        let mut ids: Vec<String> = Vec::new();
        std::mem::swap(&mut ids, &mut self.pending);
        let ghost names = texts(ids@);
        assert(texts(self.pending@).to_set() =~= Set::<Seq<char>>::empty());
        let mut i: usize = 0;
        assert(output_views(outputs@) =~= exit_replies(names.take(0)));
        while i < ids.len()
            invariant
                i <= ids.len(),
                names == texts(ids@),
                output_views(outputs@) == exit_replies(names.take(i as int)),
            decreases ids.len() - i,
        {
            let ghost before = outputs@;
            outputs.push(
                PiOutput::Reply {
                    id: ids[i].clone(),
                    result: Err("Pi process exited before completing pending commands".to_owned()),
                },
            );
            proof {
                assert(names.take(i + 1) =~= names.take(i as int).push(ids@[i as int]@));
                assert(output_views(outputs@) =~= output_views(before).push(outputs@.last()@));
                assert(exit_replies(names.take(i + 1)) =~= exit_replies(
                    names.take(i as int),
                ).push(outputs@.last()@));
                assert(output_views(outputs@) =~= exit_replies(names.take(i + 1)));
            }
            i = i + 1;
        }
        let ghost before = outputs@;
        outputs.push(
            PiOutput::Event(
                PiEvent::Exited("Pi process exited before completing pending commands".to_owned()),
            ),
        );
        proof {
            assert(names.take(i as int) =~= names);
            assert(output_views(outputs@) =~= exit_replies(names).push(
                PiOutputView::Event(PiEventView::Exited(exit_message())),
            ));
        }
        outputs
    }

    /// How many prompts are queued.
    pub fn queued(&self) -> (r: usize)
        ensures
            r == self@.queued_prompts,
    {
        self.queued_prompts
    }

    /// Takes a place in the queue of prompts, of which there are `limit`.
    pub fn admit_prompt(&mut self, limit: usize) -> (r: Result<(), String>)
        requires
            old(self).wf(),
        ensures
            final(self).wf(),
            match r {
                Ok(_) => {
                    &&& old(self)@.queued_prompts < limit
                    &&& final(self)@ == (PiView {
                        queued_prompts: (old(self)@.queued_prompts + 1) as usize,
                        ..old(self)@
                    })
                },
                Err(text) => {
                    &&& old(self)@.queued_prompts >= limit
                    &&& final(self)@ == old(self)@
                    &&& text@ == queue_message(limit)
                },
            },
            final(self)@.queued_prompts <= limit || final(self)@.queued_prompts
                == old(self)@.queued_prompts,
    {
        if self.queued_prompts >= limit {
            return Err(
                "Pi prompt queue limit (".to_owned().concat(
                    decimal_text(limit as u64).as_str(),
                ).concat(") reached; raise --max-queued-prompts to allow more"),
            );
        }
        self.queued_prompts = self.queued_prompts + 1;
        Ok(())
    }

    /// Gives back a place in the queue of prompts.
    pub fn release_prompt(&mut self)
        requires
            old(self).wf(),
            old(self)@.queued_prompts > 0,
        ensures
            final(self).wf(),
            final(self)@ == (PiView {
                queued_prompts: (old(self)@.queued_prompts - 1) as usize,
                ..old(self)@
            }),
    {
        self.queued_prompts = self.queued_prompts - 1;
    }
}

/// A response goes to its command once: another with the same id goes to all that listen.
pub proof fn response_is_taken_once(
    pending: Set<Seq<char>>,
    id: Seq<char>,
    line: Seq<u8>,
    value: JsonView,
    again: Seq<u8>,
    other: JsonView,
)
    requires
        pending.contains(id),
        line.len() > 0,
        json_parsed(line) == Ok::<JsonView, Seq<char>>(value),
        value.str_at("type"@) == Some("response"@),
        value.str_at("id"@) == Some(id),
        again.len() > 0,
        json_parsed(again) == Ok::<JsonView, Seq<char>>(other),
        other.str_at("id"@) == Some(id),
    ensures
        ({
            let first = line_outcome(pending, line);
            let second = line_outcome(first.pending, again);
            &&& first.outputs == seq![PiOutputView::Reply { id, result: reply_of(value) }]
            &&& second.outputs == seq![PiOutputView::Event(PiEventView::Message(other))]
            &&& second.pending == first.pending
        }),
{
}

/// What is not a response to a command that waits changes nothing for those that do.
pub proof fn events_leave_commands_waiting(pending: Set<Seq<char>>, line: Seq<u8>)
    requires
        !(json_parsed(line) matches Ok(value) && value.str_at("type"@) == Some("response"@)),
    ensures
        line_outcome(pending, line).pending == pending,
{
}

/// A process that has ended takes no more commands, and no command waits for it.
pub proof fn ended_process_takes_nothing(pi: PiView, command: JsonView)
    requires
        pi.closed,
    ensures
        command_of(pi, command) == Err::<(Seq<char>, Seq<u8>), Seq<char>>("Pi process is closed"@),
        after_command(pi, command) == pi,
{
}

} // verus!
