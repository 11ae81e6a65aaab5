//! Pi's events as session updates of the Agent Client Protocol.

use std::collections::HashSet;

use agent_client_protocol_schema::v1::SessionUpdate;
use serde_json::Value;
use vstd::prelude::*;

use crate::json::{
    error_message, items_view, lemma_items_view, message_of, opt_json, value_view,
    Json, JsonView,
};
use crate::paths::{is_join, join_path};
use crate::text::{decimal, decimal_text, opt_string, opt_text, same_text};

verus! {

broadcast use vstd::std_specs::hash::group_hash_axioms;

/// The session updates of `agent_client_protocol_schema`, carried through as they are.
#[verifier::external_type_specification]
#[verifier::external_body]
pub struct ExSessionUpdate(SessionUpdate);

/// What `serde_json::from_value` makes of a JSON value that is to be a `SessionUpdate`: the
/// update, or the message of its error.
pub uninterp spec fn schema_update(body: JsonView) -> Result<SessionUpdate, Seq<char>>;

/// `serde_json::from_value` for `SessionUpdate`: the update that the value describes, or an
/// error where it describes none.
#[verifier::external_body]
fn read_update(body: Value) -> (r: Result<SessionUpdate, serde_json::Error>)
    ensures
        schema_update(value_view(body)) == (match r {
            Ok(update) => Ok::<SessionUpdate, Seq<char>>(update),
            Err(error) => Err(error_message(error)),
        }),
{
    serde_json::from_value(body)
}

/// The updates that the bodies describe, in their order, or the message of the first error.
pub open spec fn accepted(bodies: Seq<JsonView>) -> Result<Seq<SessionUpdate>, Seq<char>>
    decreases bodies.len(),
{
    if bodies.len() == 0 {
        Ok(Seq::empty())
    } else {
        match accepted(bodies.drop_last()) {
            Err(message) => Err(message),
            Ok(updates) => match schema_update(bodies.last()) {
                Err(message) => Err(message),
                Ok(update) => Ok(updates.push(update)),
            },
        }
    }
}

/// The first bodies are judged before the others.
proof fn lemma_accepted_prefix(bodies: Seq<JsonView>, n: int)
    requires
        0 <= n <= bodies.len(),
        accepted(bodies.take(n)) is Err,
    ensures
        accepted(bodies) == accepted(bodies.take(n)),
    decreases bodies.len() - n,
{
    if n == bodies.len() {
        assert(bodies.take(n) =~= bodies);
    } else {
        assert(bodies.take(n + 1).drop_last() =~= bodies.take(n));
        lemma_accepted_prefix(bodies, n + 1);
    }
}

/// The updates that the bodies describe.
pub fn accept(bodies: Vec<Json>) -> (r: Result<Vec<SessionUpdate>, String>)
    ensures
        accepted(items_view(bodies@)) == (match r {
            Ok(updates) => Ok::<Seq<SessionUpdate>, Seq<char>>(updates@),
            Err(message) => Err(message@),
        }),
{
    let ghost all = items_view(bodies@);
    let mut updates: Vec<SessionUpdate> = Vec::new();
    let mut i: usize = 0;
    proof {
        lemma_items_view(bodies@);
    }
    while i < bodies.len()
        invariant
            i <= bodies.len(),
            all == items_view(bodies@),
            all.len() == bodies.len(),
            forall|k: int| 0 <= k < bodies.len() ==> #[trigger] all[k] == bodies[k]@,
            accepted(all.take(i as int)) == Ok::<Seq<SessionUpdate>, Seq<char>>(updates@),
        decreases bodies.len() - i,
    {
        proof {
            assert(all.take(i + 1).drop_last() =~= all.take(i as int));
            assert(all.take(i + 1).last() == bodies[i as int]@);
        }
        match read_update(bodies[i].to_value()) {
            Ok(update) => {
                updates.push(update);
            },
            Err(error) => {
                proof {
                    lemma_accepted_prefix(all, i + 1);
                }
                return Err(message_of(&error));
            },
        }
        i = i + 1;
    }
    assert(all.take(i as int) =~= all);
    Ok(updates)
}

/// The body of an update that carries text.
pub open spec fn text_body(kind: Seq<char>, text: Seq<char>) -> JsonView {
    JsonView::object().with("sessionUpdate"@, JsonView::String(kind)).with(
        "content"@,
        JsonView::object().with("type"@, JsonView::String("text"@)).with(
            "text"@,
            JsonView::String(text),
        ),
    )
}

/// The body of an update that carries text.
pub fn make_text_body(kind: &str, text: &str) -> (r: Json)
    ensures
        r@ == text_body(kind@, text@),
{
    Json::object().with("sessionUpdate", Json::text(kind)).with(
        "content",
        Json::object().with("type", Json::text("text")).with("text", Json::text(text)),
    )
}

/// An update that carries text, of the given kind.
pub fn text_update(kind: &str, text: &str) -> (r: Result<SessionUpdate, String>)
    ensures
        schema_update(text_body(kind@, text@)) == (match r {
            Ok(update) => Ok::<SessionUpdate, Seq<char>>(update),
            Err(message) => Err(message@),
        }),
{
    match read_update(make_text_body(kind, text).to_value()) {
        Ok(update) => Ok(update),
        Err(error) => Err(message_of(&error)),
    }
}

/// A file as it was before an edit.
pub struct Snapshot {
    pub id: String,
    pub path: String,
    pub text: String,
}

/// What is remembered between the events of a turn.
pub struct TurnState {
    streamed_text: HashSet<i64>,
    edit_snapshots: Vec<Snapshot>,
    max_tracked_tool_calls: usize,
    warned_near_limit: bool,
}

/// What a [`TurnState`] is: the text blocks that came in parts, the files as they were before
/// each edit that is under way (by tool call: path and text), the limit on these, and whether
/// they came near it.
pub struct TurnView {
    pub streamed: Set<i64>,
    pub edits: Map<Seq<char>, (Seq<char>, Seq<char>)>,
    pub limit: usize,
    pub warned: bool,
}

/// The snapshots by their tool call.
pub open spec fn snapshots(list: Seq<Snapshot>) -> Map<Seq<char>, (Seq<char>, Seq<char>)>
    decreases list.len(),
{
    if list.len() == 0 {
        Map::empty()
    } else {
        snapshots(list.drop_last()).insert(list.last().id@, (list.last().path@, list.last().text@))
    }
}

/// Whether each tool call has one snapshot.
pub open spec fn distinct_ids(list: Seq<Snapshot>) -> bool {
    forall|i: int, j: int|
        0 <= i < j < list.len() ==> #[trigger] list[i].id@ != #[trigger] list[j].id@
}

/// Which tool calls have a snapshot, and which one.
proof fn lemma_snapshots(list: Seq<Snapshot>)
    ensures
        snapshots(list).dom().finite(),
        forall|id: Seq<char>| #[trigger]
            snapshots(list).contains_key(id) <==> exists|i: int|
                0 <= i < list.len() && #[trigger] list[i].id@ == id,
        distinct_ids(list) ==> snapshots(list).dom().len() == list.len() && forall|i: int|
            0 <= i < list.len() ==> snapshots(list)[(#[trigger] list[i]).id@] == (
                list[i].path@,
                list[i].text@,
            ),
    decreases list.len(),
{
    if list.len() > 0 {
        let front = list.drop_last();
        lemma_snapshots(front);
        assert forall|id: Seq<char>| #[trigger] snapshots(list).contains_key(id) <==> exists|i: int|
            0 <= i < list.len() && #[trigger] list[i].id@ == id by {
            if id == list.last().id@ {
                assert(list[list.len() - 1].id@ == id);
            } else if snapshots(front).contains_key(id) {
                let i = choose|i: int| 0 <= i < front.len() && #[trigger] front[i].id@ == id;
                assert(list[i].id@ == id);
            } else if exists|i: int| 0 <= i < list.len() && #[trigger] list[i].id@ == id {
                let i = choose|i: int| 0 <= i < list.len() && #[trigger] list[i].id@ == id;
                assert(front[i].id@ == id);
            }
        }
        if distinct_ids(list) {
            assert forall|i: int, j: int| 0 <= i < j < front.len() implies #[trigger] front[i].id@
                != #[trigger] front[j].id@ by {
                assert(list[i].id@ != list[j].id@);
            }
            assert(!snapshots(front).contains_key(list.last().id@)) by {
                if snapshots(front).contains_key(list.last().id@) {
                    let i = choose|i: int|
                        0 <= i < front.len() && #[trigger] front[i].id@ == list.last().id@;
                    assert(list[i].id@ != list[list.len() - 1].id@);
                }
            }
            assert(snapshots(list).dom() =~= snapshots(front).dom().insert(list.last().id@));
            assert forall|i: int| 0 <= i < list.len() implies snapshots(list)[(
            #[trigger] list[i]).id@] == (list[i].path@, list[i].text@) by {
                if i < list.len() - 1 {
                    assert(list[i].id@ != list[list.len() - 1].id@);
                    assert(front[i] == list[i]);
                }
            }
        }
    } else {
        assert(snapshots(list).dom() =~= Set::empty());
    }
}

impl View for TurnState {
    type V = TurnView;

    closed spec fn view(&self) -> TurnView {
        TurnView {
            streamed: self.streamed_text@,
            edits: snapshots(self.edit_snapshots@),
            limit: self.max_tracked_tool_calls,
            warned: self.warned_near_limit,
        }
    }
}

impl TurnState {
    /// Each tool call has one snapshot.
    pub closed spec fn wf(&self) -> bool {
        distinct_ids(self.edit_snapshots@)
    }

    /// The state at the start of a turn in which at most `max_tracked_tool_calls` edits may be
    /// under way at once.
    pub fn new(max_tracked_tool_calls: usize) -> (r: TurnState)
        ensures
            r.wf(),
            r@ == (TurnView {
                streamed: Set::empty(),
                edits: Map::empty(),
                limit: max_tracked_tool_calls,
                warned: false,
            }),
    {
        TurnState {
            streamed_text: HashSet::new(),
            edit_snapshots: Vec::new(),
            max_tracked_tool_calls,
            warned_near_limit: false,
        }
    }

    /// Whether the edits under way have come near their limit.
    pub fn warned_near_limit(&self) -> (r: bool)
        ensures
            r == self@.warned,
    {
        self.warned_near_limit
    }

    /// The place of the snapshot for a tool call, the number of snapshots where there is none.
    fn find(&self, id: &str) -> (r: usize)
        requires
            self.wf(),
        ensures
            r <= self.edit_snapshots.len(),
            r < self.edit_snapshots.len() <==> self@.edits.contains_key(id@),
            r < self.edit_snapshots.len() ==> self.edit_snapshots[r as int].id@ == id@
                && self@.edits[id@] == (
                self.edit_snapshots[r as int].path@,
                self.edit_snapshots[r as int].text@,
            ),
    {
        proof {
            lemma_snapshots(self.edit_snapshots@);
        }
        let mut i: usize = 0;
        while i < self.edit_snapshots.len()
            invariant
                i <= self.edit_snapshots.len(),
                self.wf(),
                forall|k: int| 0 <= k < i ==> #[trigger] self.edit_snapshots@[k].id@ != id@,
            decreases self.edit_snapshots.len() - i,
        {
            if same_text(self.edit_snapshots[i].id.as_str(), id) {
                proof {
                    lemma_snapshots(self.edit_snapshots@);
                }
                return i;
            }
            i = i + 1;
        }
        i
    }

    /// Forgets the snapshot for a tool call.
    fn remove(&mut self, id: &str) -> (r: Option<Snapshot>)
        requires
            old(self).wf(),
        ensures
            final(self).wf(),
            final(self)@ == (TurnView { edits: old(self)@.edits.remove(id@), ..old(self)@ }),
            match r {
                Some(snapshot) => old(self)@.edits.contains_key(id@) && old(self)@.edits[id@] == (
                    snapshot.path@,
                    snapshot.text@,
                ),
                None => !old(self)@.edits.contains_key(id@),
            },
    {
        let i: usize = self.find(id);
        if i == self.edit_snapshots.len() {
            assert(self@.edits.remove(id@) =~= self@.edits);
            return None;
        }
        let ghost before = self.edit_snapshots@;
        let snapshot = self.edit_snapshots.remove(i);
        proof {
            let after = self.edit_snapshots@;
            assert forall|a: int, b: int| 0 <= a < b < after.len() implies #[trigger] after[a].id@
                != #[trigger] after[b].id@ by {
                let x = if a < i { a } else { a + 1 };
                let y = if b < i { b } else { b + 1 };
                assert(before[x].id@ != before[y].id@);
            }
            lemma_snapshots(before);
            lemma_snapshots(after);
            assert forall|key: Seq<char>| #[trigger]
                snapshots(after).contains_key(key) <==> snapshots(before).remove(
                    id@,
                ).contains_key(key) by {
                if snapshots(after).contains_key(key) {
                    let a = choose|a: int| 0 <= a < after.len() && #[trigger] after[a].id@ == key;
                    let x = if a < i { a } else { a + 1 };
                    assert(before[x].id@ == key);
                    if x < i {
                        assert(before[x].id@ != before[i as int].id@);
                    } else {
                        assert(before[i as int].id@ != before[x].id@);
                    }
                }
                if snapshots(before).remove(id@).contains_key(key) {
                    let x = choose|x: int| 0 <= x < before.len() && #[trigger] before[x].id@ == key;
                    let a = if x < i { x } else { x - 1 };
                    assert(after[a].id@ == key);
                }
            }
            assert forall|key: Seq<char>| #[trigger]
                snapshots(after).contains_key(key) implies snapshots(after)[key]
                == snapshots(before)[key] by {
                let a = choose|a: int| 0 <= a < after.len() && #[trigger] after[a].id@ == key;
                let x = if a < i { a } else { a + 1 };
                assert(before[x] == after[a]);
            }
            assert(snapshots(after) =~= snapshots(before).remove(id@));
        }
        Some(snapshot)
    }

    /// Remembers a file for a tool call.
    fn insert(&mut self, id: &str, path: &str, text: String)
        requires
            old(self).wf(),
        ensures
            final(self).wf(),
            final(self)@ == (TurnView {
                edits: old(self)@.edits.insert(id@, (path@, text@)),
                ..old(self)@
            }),
    {
        self.remove(id);
        let ghost before = self.edit_snapshots@;
        self.edit_snapshots.push(Snapshot { id: id.to_owned(), path: path.to_owned(), text });
        proof {
            let after = self.edit_snapshots@;
            lemma_snapshots(before);
            assert(!snapshots(before).contains_key(id@));
            assert(after.drop_last() =~= before);
            assert forall|a: int, b: int| 0 <= a < b < after.len() implies #[trigger] after[a].id@
                != #[trigger] after[b].id@ by {
                if b == after.len() - 1 {
                    assert(before[a] == after[a]);
                    assert(snapshots(before).contains_key(before[a].id@));
                } else {
                    assert(before[a].id@ != before[b].id@);
                }
            }
            assert(old(self)@.edits.remove(id@).insert(id@, (path@, text@))
                =~= old(self)@.edits.insert(id@, (path@, text@)));
        }
    }
}

/// What an event leads to: the bodies of the updates to send, or the message of an error, and
/// the state after it.
pub struct Outcome {
    pub bodies: Result<Seq<JsonView>, Seq<char>>,
    pub state: TurnView,
}

/// An outcome without an error.
pub open spec fn outcome(bodies: Seq<JsonView>, state: TurnView) -> Outcome {
    Outcome { bodies: Ok(bodies), state }
}

/// The number of the text block that an event is about, -1 where it does not say.
pub open spec fn index_of(delta: JsonView) -> i64 {
    match delta.get("contentIndex"@) {
        Some(value) => match value.as_i64() {
            Some(index) => index,
            None => (-1) as i64,
        },
        None => (-1) as i64,
    }
}

/// What a message event leads to: text and thoughts are sent on as they come. A text block that
/// ends is sent whole if no part of it was.
pub open spec fn message_outcome(delta: JsonView, state: TurnView) -> Outcome {
    let kind = delta.str_at("type"@);
    if kind == Some("text_delta"@) {
        match delta.str_at("delta"@) {
            Some(text) => outcome(
                seq![text_body("agent_message_chunk"@, text)],
                TurnView { streamed: state.streamed.insert(index_of(delta)), ..state },
            ),
            None => outcome(Seq::empty(), state),
        }
    } else if kind == Some("text_end"@) {
        match delta.str_at("content"@) {
            Some(text) if !state.streamed.contains(index_of(delta)) => outcome(
                seq![text_body("agent_message_chunk"@, text)],
                state,
            ),
            _ => outcome(Seq::empty(), state),
        }
    } else if kind == Some("thinking_delta"@) {
        match delta.str_at("delta"@) {
            Some(text) => outcome(seq![text_body("agent_thought_chunk"@, text)], state),
            None => outcome(Seq::empty(), state),
        }
    } else {
        outcome(Seq::empty(), state)
    }
}

/// The message of the error when too many edits are under way.
pub open spec fn limit_message(limit: usize) -> Seq<char> {
    "tracked edit tool limit ("@ + decimal(limit as nat)
        + ") reached; raise --max-tracked-tool-calls to allow more"@
}

/// Whether `count` edits are four fifths of the limit or more.
pub open spec fn near_limit(count: nat, limit: usize) -> bool {
    count * 5 >= limit * 4
}

/// The title of a tool call: the command of a shell call, else the name of the tool.
pub open spec fn title_of(event: JsonView) -> Seq<char> {
    let name = match event.str_at("toolName"@) {
        Some(name) => name,
        None => "tool"@,
    };
    match event.str_in("args"@, "command"@) {
        Some(command) if name == "bash"@ => command,
        _ => name,
    }
}

/// The kind of a tool.
pub open spec fn kind_of(name: Option<Seq<char>>) -> Seq<char> {
    if name == Some("read"@) || name == Some("grep"@) || name == Some("find"@) || name == Some(
        "ls"@,
    ) {
        "search"@
    } else if name == Some("write"@) {
        "edit"@
    } else if name == Some("bash"@) {
        "execute"@
    } else {
        "other"@
    }
}

/// The body of the update for a tool call that starts.
pub open spec fn start_body(event: JsonView, location: Option<Seq<char>>) -> JsonView {
    JsonView::object().with("sessionUpdate"@, JsonView::String("tool_call"@)).with(
        "toolCallId"@,
        event.get_or_null("toolCallId"@),
    ).with("title"@, JsonView::String(title_of(event))).with(
        "kind"@,
        JsonView::String(kind_of(event.str_at("toolName"@))),
    ).with("status"@, JsonView::String("in_progress"@)).with(
        "locations"@,
        match location {
            Some(path) => JsonView::Array(
                seq![JsonView::object().with("path"@, JsonView::String(path))],
            ),
            None => JsonView::Null,
        },
    ).with("rawInput"@, event.get_or_null("args"@))
}

/// What the start of a tool call leads to. `location` is the file that the tool works on and
/// `file` its text, where it could be read. Before an edit the text is remembered, unless as many
/// edits as allowed are under way.
pub open spec fn start_outcome(
    event: JsonView,
    location: Option<Seq<char>>,
    file: Option<Seq<char>>,
    state: TurnView,
) -> Outcome {
    let body = start_body(event, location);
    match (location, file, event.str_at("toolCallId"@)) {
        (Some(path), Some(text), Some(id)) if event.str_at("toolName"@) == Some("edit"@) => {
            if state.edits.dom().len() >= state.limit {
                Outcome { bodies: Err(limit_message(state.limit)), state }
            } else {
                outcome(
                    seq![body],
                    TurnView {
                        edits: state.edits.insert(id, (path, text)),
                        warned: state.warned || near_limit(
                            state.edits.dom().len() + 1,
                            state.limit,
                        ),
                        ..state
                    },
                )
            }
        },
        _ => outcome(seq![body], state),
    }
}

/// One part of a tool's result as content of a tool call; other parts than texts and images are
/// left out.
pub open spec fn content_part(part: JsonView) -> Option<JsonView> {
    let kind = part.str_at("type"@);
    if kind == Some("text"@) {
        Some(
            JsonView::object().with("type"@, JsonView::String("content"@)).with(
                "content"@,
                JsonView::object().with("type"@, JsonView::String("text"@)).with(
                    "text"@,
                    JsonView::String(
                        match part.str_at("text"@) {
                            Some(text) => text,
                            None => Seq::empty(),
                        },
                    ),
                ),
            ),
        )
    } else if kind == Some("image"@) {
        Some(
            JsonView::object().with("type"@, JsonView::String("content"@)).with("content"@, part),
        )
    } else {
        None
    }
}

/// The parts of a tool's result as content of a tool call, in their order.
pub open spec fn content_parts(parts: Seq<JsonView>) -> Seq<JsonView>
    decreases parts.len(),
{
    if parts.len() == 0 {
        Seq::empty()
    } else {
        match content_part(parts.last()) {
            Some(part) => content_parts(parts.drop_last()).push(part),
            None => content_parts(parts.drop_last()),
        }
    }
}

/// The content of a tool's result.
pub open spec fn content_of(result: Option<JsonView>) -> Seq<JsonView> {
    match result {
        Some(result) => content_parts(result.items_at("content"@)),
        None => Seq::empty(),
    }
}

/// The body of the update for a tool call that goes on.
pub open spec fn progress_body(event: JsonView) -> JsonView {
    JsonView::object().with("sessionUpdate"@, JsonView::String("tool_call_update"@)).with(
        "toolCallId"@,
        event.get_or_null("toolCallId"@),
    ).with("status"@, JsonView::String("in_progress"@)).with(
        "content"@,
        JsonView::Array(content_of(event.get("partialResult"@))),
    )
}

/// The tool call that an event names.
pub open spec fn call_of(event: JsonView) -> Seq<char> {
    match event.str_at("toolCallId"@) {
        Some(id) => id,
        None => Seq::empty(),
    }
}

/// How a file changed.
pub open spec fn diff_part(path: Seq<char>, old_text: Seq<char>, new_text: Seq<char>) -> JsonView {
    JsonView::object().with("type"@, JsonView::String("diff"@)).with(
        "path"@,
        JsonView::String(path),
    ).with("oldText"@, JsonView::String(old_text)).with("newText"@, JsonView::String(new_text))
}

/// The body of the update for a tool call that ends.
pub open spec fn end_body(event: JsonView, content: Seq<JsonView>) -> JsonView {
    JsonView::object().with("sessionUpdate"@, JsonView::String("tool_call_update"@)).with(
        "toolCallId"@,
        event.get_or_null("toolCallId"@),
    ).with(
        "status"@,
        JsonView::String(
            if event.is_true("isError"@) {
                "failed"@
            } else {
                "completed"@
            },
        ),
    ).with("content"@, JsonView::Array(content)).with(
        "rawOutput"@,
        event.get_or_null("result"@),
    )
}

/// What the end of a tool call leads to. `file` is the text of the edited file now, where it
/// could be read. Where the file changed, the change stands before the result's own content.
pub open spec fn end_outcome(
    event: JsonView,
    file: Option<Seq<char>>,
    state: TurnView,
) -> Outcome {
    let id = call_of(event);
    let content = content_of(event.get("result"@));
    let shown = if state.edits.contains_key(id) {
        match file {
            Some(text) if text != state.edits[id].1 => seq![
                diff_part(state.edits[id].0, state.edits[id].1, text),
            ] + content,
            _ => content,
        }
    } else {
        content
    };
    outcome(
        seq![end_body(event, shown)],
        TurnView { edits: state.edits.remove(id), ..state },
    )
}

/// What Pi says of a failure that it goes on after.
pub open spec fn trouble_message(event: JsonView) -> Seq<char> {
    let said = match event.get("error"@) {
        Some(value) => Some(value),
        None => event.get("errorMessage"@),
    };
    match said {
        Some(JsonView::String(message)) => message,
        _ => "Pi is retrying after an error"@,
    }
}

/// What an event of Pi leads to.
pub open spec fn event_outcome(
    event: JsonView,
    location: Option<Seq<char>>,
    file: Option<Seq<char>>,
    state: TurnView,
) -> Outcome {
    let kind = event.str_at("type"@);
    if kind == Some("message_update"@) {
        message_outcome(event.get_or_null("assistantMessageEvent"@), state)
    } else if kind == Some("tool_execution_start"@) {
        start_outcome(event, location, file, state)
    } else if kind == Some("tool_execution_update"@) {
        outcome(seq![progress_body(event)], state)
    } else if kind == Some("tool_execution_end"@) {
        end_outcome(event, file, state)
    } else if kind == Some("extension_error"@) || kind == Some("auto_retry_start"@) {
        outcome(seq![text_body("agent_thought_chunk"@, trouble_message(event))], state)
    } else {
        outcome(Seq::empty(), state)
    }
}

/// The file whose text an event needs.
pub open spec fn file_needed(
    event: JsonView,
    location: Option<Seq<char>>,
    state: TurnView,
) -> Option<Seq<char>> {
    let kind = event.str_at("type"@);
    if kind == Some("tool_execution_start"@) && event.str_at("toolName"@) == Some("edit"@) {
        location
    } else if kind == Some("tool_execution_end"@) && state.edits.contains_key(call_of(event)) {
        Some(state.edits[call_of(event)].0)
    } else {
        None
    }
}

/// The number of the text block that an event is about.
fn content_index(event: &Json) -> (r: i64)
    ensures
        r == index_of(event@),
{
    match event.get("contentIndex") {
        Some(value) => match value.as_i64() {
            Some(index) => index,
            None => -1,
        },
        None => -1,
    }
}

/// The title of a tool call.
pub fn tool_title(event: &Json) -> (r: String)
    ensures
        r@ == title_of(event@),
{
    let name: &str = match event.str_at("toolName") {
        Some(name) => name,
        None => "tool",
    };
    if same_text(name, "bash") {
        if let Some(command) = event.str_in("args", "command") {
            return command.to_owned();
        }
    }
    name.to_owned()
}

/// The kind of a tool.
pub fn tool_kind(name: Option<&str>) -> (r: &'static str)
    ensures
        r@ == kind_of(opt_text(name)),
{
    match name {
        Some(name) => {
            if same_text(name, "read") || same_text(name, "grep") || same_text(name, "find")
                || same_text(name, "ls") {
                "search"
            } else if same_text(name, "write") {
                "edit"
            } else if same_text(name, "bash") {
                "execute"
            } else {
                "other"
            }
        },
        None => "other",
    }
}

/// One part of a tool's result as content of a tool call.
fn make_content_part(part: &Json) -> (r: Option<Json>)
    ensures
        opt_owned(r) == content_part(part@),
{
    if part.has_text("type", "text") {
        let text: &str = match part.str_at("text") {
            Some(text) => text,
            None => "",
        };
        proof {
            reveal_strlit("");
            assert(""@ =~= Seq::<char>::empty());
        }
        Some(
            Json::object().with("type", Json::text("content")).with(
                "content",
                Json::object().with("type", Json::text("text")).with("text", Json::text(text)),
            ),
        )
    } else if part.has_text("type", "image") {
        Some(Json::object().with("type", Json::text("content")).with("content", part.copy()))
    } else {
        None
    }
}

/// The content of a tool's result.
pub fn tool_content(result: Option<&Json>) -> (r: Vec<Json>)
    ensures
        items_view(r@) == content_of(opt_json(result)),
{
    let mut content: Vec<Json> = Vec::new();
    let parts: &Vec<Json> = match result {
        Some(result) => match result.items_at("content") {
            Some(parts) => parts,
            None => return content,
        },
        None => return content,
    };
    let ghost all = items_view(parts@);
    proof {
        lemma_items_view(parts@);
    }
    let mut i: usize = 0;
    while i < parts.len()
        invariant
            i <= parts.len(),
            all.len() == parts.len(),
            forall|k: int| 0 <= k < parts.len() ==> #[trigger] all[k] == parts[k]@,
            items_view(content@) == content_parts(all.take(i as int)),
        decreases parts.len() - i,
    {
        proof {
            assert(all.take(i + 1).drop_last() =~= all.take(i as int));
            assert(all.take(i + 1).last() == parts[i as int]@);
        }
        let ghost before = content@;
        if let Some(part) = make_content_part(&parts[i]) {
            content.push(part);
            assert(content@.drop_last() =~= before);
        }
        i = i + 1;
    }
    assert(all.take(i as int) =~= all);
    content
}

/// The view of an optional JSON value.
pub open spec fn opt_owned(value: Option<Json>) -> Option<JsonView> {
    match value {
        Some(value) => Some(value@),
        None => None,
    }
}

/// The file whose text an event needs, where there is one. `location` is the file that the tool
/// of the event works on.
pub fn file_to_read(event: &Json, location: Option<&str>, state: &TurnState) -> (r: Option<String>)
    requires
        state.wf(),
    ensures
        opt_string(r) == file_needed(event@, opt_text(location), state@),
{
    if event.has_text("type", "tool_execution_start") && event.has_text("toolName", "edit") {
        match location {
            Some(path) => Some(path.to_owned()),
            None => None,
        }
    } else if event.has_text("type", "tool_execution_end") {
        let id: &str = match event.str_at("toolCallId") {
            Some(id) => id,
            None => "",
        };
        proof {
            reveal_strlit("");
            assert(""@ =~= Seq::<char>::empty());
        }
        let i: usize = state.find(id);
        if i < state.edit_snapshots.len() {
            Some(state.edit_snapshots[i].path.clone())
        } else {
            None
        }
    } else {
        None
    }
}

/// The view of the bodies that an event leads to.
pub open spec fn bodies_view(r: Result<Vec<Json>, String>) -> Result<Seq<JsonView>, Seq<char>> {
    match r {
        Ok(bodies) => Ok(items_view(bodies@)),
        Err(message) => Err(message@),
    }
}

/// A list of one value.
fn one(value: Json) -> (r: Vec<Json>)
    ensures
        items_view(r@) == seq![value@],
{
    let mut list: Vec<Json> = Vec::new();
    list.push(value);
    proof {
        lemma_items_view(list@);
        assert(items_view(list@) =~= seq![value@]);
    }
    list
}

/// What a message event leads to.
fn message_bodies(delta: &Json, state: &mut TurnState) -> (r: Vec<Json>)
    requires
        old(state).wf(),
    ensures
        final(state).wf(),
        message_outcome(delta@, old(state)@) == outcome(items_view(r@), final(state)@),
{
    if delta.has_text("type", "text_delta") {
        if let Some(text) = delta.str_at("delta") {
            state.streamed_text.insert(content_index(delta));
            return one(make_text_body("agent_message_chunk", text));
        }
    } else if delta.has_text("type", "text_end") {
        let index: i64 = content_index(delta);
        if !state.streamed_text.contains(&index) {
            if let Some(text) = delta.str_at("content") {
                return one(make_text_body("agent_message_chunk", text));
            }
        }
    } else if delta.has_text("type", "thinking_delta") {
        if let Some(text) = delta.str_at("delta") {
            return one(make_text_body("agent_thought_chunk", text));
        }
    }
    Vec::new()
}

/// The message of the error when too many edits are under way.
fn make_limit_message(limit: usize) -> (r: String)
    ensures
        r@ == limit_message(limit),
{
    "tracked edit tool limit (".to_owned().concat(decimal_text(limit as u64).as_str()).concat(
        ") reached; raise --max-tracked-tool-calls to allow more",
    )
}

/// What the start of a tool call leads to.
fn start_bodies(
    event: &Json,
    location: Option<&str>,
    file: Option<String>,
    state: &mut TurnState,
) -> (r: Result<Vec<Json>, String>)
    requires
        old(state).wf(),
    ensures
        final(state).wf(),
        start_outcome(event@, opt_text(location), opt_string(file), old(state)@) == (Outcome {
            bodies: bodies_view(r),
            state: final(state)@,
        }),
{
    if event.has_text("toolName", "edit") {
        if let (Some(path), Some(text), Some(id)) = (location, file, event.str_at("toolCallId")) {
            proof {
                lemma_snapshots(state.edit_snapshots@);
            }
            let count: usize = state.edit_snapshots.len();
            if count >= state.max_tracked_tool_calls {
                return Err(make_limit_message(state.max_tracked_tool_calls));
            }
            if !state.warned_near_limit && (count as u128 + 1) * 5
                >= state.max_tracked_tool_calls as u128 * 4 {
                state.warned_near_limit = true;
            }
            state.insert(id, path, text);
        }
    }
    let places: Json = match location {
        Some(path) => Json::Array(one(Json::object().with("path", Json::text(path)))),
        None => Json::Null,
    };
    Ok(
        one(
            Json::object().with("sessionUpdate", Json::text("tool_call")).with(
                "toolCallId",
                event.get_or_null("toolCallId"),
            ).with("title", Json::String(tool_title(event))).with(
                "kind",
                Json::text(tool_kind(event.str_at("toolName"))),
            ).with("status", Json::text("in_progress")).with("locations", places).with(
                "rawInput",
                event.get_or_null("args"),
            ),
        ),
    )
}

/// What the end of a tool call leads to.
fn end_bodies(event: &Json, file: Option<String>, state: &mut TurnState) -> (r: Vec<Json>)
    requires
        old(state).wf(),
    ensures
        final(state).wf(),
        end_outcome(event@, opt_string(file), old(state)@) == outcome(
            items_view(r@),
            final(state)@,
        ),
{
    let id: &str = match event.str_at("toolCallId") {
        Some(id) => id,
        None => "",
    };
    proof {
        reveal_strlit("");
        assert(""@ =~= Seq::<char>::empty());
    }
    let mut content: Vec<Json> = tool_content(event.get("result"));
    if let Some(snapshot) = state.remove(id) {
        if let Some(text) = file {
            if !same_text(text.as_str(), snapshot.text.as_str()) {
                let ghost before = content@;
                let part = Json::object().with("type", Json::text("diff")).with(
                    "path",
                    Json::text(snapshot.path.as_str()),
                ).with("oldText", Json::text(snapshot.text.as_str())).with(
                    "newText",
                    Json::text(text.as_str()),
                );
                content.insert(0, part);
                proof {
                    lemma_items_view(before);
                    lemma_items_view(content@);
                    assert(items_view(content@) =~= seq![part@] + items_view(before));
                }
            }
        }
    }
    let status: &str = if event.is_true("isError") {
        "failed"
    } else {
        "completed"
    };
    one(
        Json::object().with("sessionUpdate", Json::text("tool_call_update")).with(
            "toolCallId",
            event.get_or_null("toolCallId"),
        ).with("status", Json::text(status)).with("content", Json::Array(content)).with(
            "rawOutput",
            event.get_or_null("result"),
        ),
    )
}

/// The bodies of the updates that an event of Pi leads to. `location` is the file that the tool
/// of the event works on, and `file` the text of the file that [`file_to_read`] names.
pub fn pi_event_bodies(
    event: &Json,
    location: Option<&str>,
    file: Option<String>,
    state: &mut TurnState,
) -> (r: Result<Vec<Json>, String>)
    requires
        old(state).wf(),
    ensures
        final(state).wf(),
        event_outcome(event@, opt_text(location), opt_string(file), old(state)@) == (Outcome {
            bodies: bodies_view(r),
            state: final(state)@,
        }),
{
    if event.has_text("type", "message_update") {
        let delta: Json = event.get_or_null("assistantMessageEvent");
        Ok(message_bodies(&delta, state))
    } else if event.has_text("type", "tool_execution_start") {
        start_bodies(event, location, file, state)
    } else if event.has_text("type", "tool_execution_update") {
        Ok(
            one(
                Json::object().with("sessionUpdate", Json::text("tool_call_update")).with(
                    "toolCallId",
                    event.get_or_null("toolCallId"),
                ).with("status", Json::text("in_progress")).with(
                    "content",
                    Json::Array(tool_content(event.get("partialResult"))),
                ),
            ),
        )
    } else if event.has_text("type", "tool_execution_end") {
        Ok(end_bodies(event, file, state))
    } else if event.has_text("type", "extension_error") || event.has_text(
        "type",
        "auto_retry_start",
    ) {
        let said: Option<&Json> = match event.get("error") {
            Some(value) => Some(value),
            None => event.get("errorMessage"),
        };
        let message: &str = match said {
            Some(Json::String(message)) => message.as_str(),
            _ => "Pi is retrying after an error",
        };
        Ok(one(make_text_body("agent_thought_chunk", message)))
    } else {
        Ok(Vec::new())
    }
}

/// What the schema makes of the bodies that an event leads to.
pub open spec fn outcome_updates(
    bodies: Result<Seq<JsonView>, Seq<char>>,
) -> Result<Seq<SessionUpdate>, Seq<char>> {
    match bodies {
        Ok(bodies) => accepted(bodies),
        Err(message) => Err(message),
    }
}

/// The view of updates or of an error.
pub open spec fn updates_view(r: Result<Vec<SessionUpdate>, String>) -> Result<
    Seq<SessionUpdate>,
    Seq<char>,
> {
    match r {
        Ok(updates) => Ok(updates@),
        Err(message) => Err(message@),
    }
}

/// The updates that an event of Pi leads to. `location` is the file that the tool of the event
/// works on, and `file` the text of the file that [`file_to_read`] names, where it could be read.
pub fn pi_event_updates(
    event: &Json,
    location: Option<&str>,
    file: Option<String>,
    state: &mut TurnState,
) -> (r: Result<Vec<SessionUpdate>, String>)
    requires
        old(state).wf(),
    ensures
        final(state).wf(),
        ({
            let after = event_outcome(event@, opt_text(location), opt_string(file), old(state)@);
            updates_view(r) == outcome_updates(after.bodies) && final(state)@ == after.state
        }),
{
    match pi_event_bodies(event, location, file, state) {
        Ok(bodies) => accept(bodies),
        Err(message) => Err(message),
    }
}

/// Whether `location` can be the file that a tool works on: the `path` of its arguments, seen
/// from `cwd`. Which separator stands between the two is up to the operating system.
pub open spec fn is_location(
    args: Option<JsonView>,
    cwd: Seq<char>,
    location: Option<Seq<char>>,
) -> bool {
    match args {
        Some(args) => match args.str_at("path"@) {
            Some(path) => location matches Some(location) && is_join(cwd, path, location),
            None => location is None,
        },
        None => location is None,
    }
}

/// The file that a tool works on: the `path` of its arguments, seen from `cwd`.
pub fn tool_location(args: Option<&Json>, cwd: &str) -> (r: Option<String>)
    ensures
        is_location(opt_json(args), cwd@, opt_string(r)),
{
    match args {
        Some(args) => match args.str_at("path") {
            Some(path) => Some(join_path(cwd, path)),
            None => None,
        },
        None => None,
    }
}

/// The text of a message: a string as it is, the texts among its parts one after the other.
pub open spec fn message_text(message: JsonView) -> Seq<char> {
    match message.get("content"@) {
        Some(JsonView::String(text)) => text,
        Some(JsonView::Array(parts)) => part_texts(parts),
        _ => Seq::empty(),
    }
}

/// The texts among the parts of a message, one after the other.
pub open spec fn part_texts(parts: Seq<JsonView>) -> Seq<char>
    decreases parts.len(),
{
    if parts.len() == 0 {
        Seq::empty()
    } else {
        match parts.last().str_at("text"@) {
            Some(text) if parts.last().str_at("type"@) == Some("text"@) => part_texts(
                parts.drop_last(),
            ) + text,
            _ => part_texts(parts.drop_last()),
        }
    }
}

/// The bodies of the updates that replay messages: one for each that has text.
pub open spec fn history_bodies(messages: Seq<JsonView>) -> Seq<JsonView>
    decreases messages.len(),
{
    if messages.len() == 0 {
        Seq::empty()
    } else {
        let message = messages.last();
        let before = history_bodies(messages.drop_last());
        if message_text(message).len() == 0 {
            before
        } else {
            before.push(
                text_body(
                    if message.str_at("role"@) == Some("user"@) {
                        "user_message_chunk"@
                    } else {
                        "agent_message_chunk"@
                    },
                    message_text(message),
                ),
            )
        }
    }
}

/// The text of a message.
fn make_message_text(message: &Json) -> (r: String)
    ensures
        r@ == message_text(message@),
{
    match message.get("content") {
        Some(Json::String(text)) => text.clone(),
        Some(Json::Array(parts)) => {
            let ghost all = items_view(parts@);
            proof {
                lemma_items_view(parts@);
            }
            let mut text: String = String::new();
            let mut i: usize = 0;
            while i < parts.len()
                invariant
                    i <= parts.len(),
                    all.len() == parts.len(),
                    forall|k: int| 0 <= k < parts.len() ==> #[trigger] all[k] == parts[k]@,
                    text@ == part_texts(all.take(i as int)),
                decreases parts.len() - i,
            {
                proof {
                    assert(all.take(i + 1).drop_last() =~= all.take(i as int));
                    assert(all.take(i + 1).last() == parts[i as int]@);
                }
                if parts[i].has_text("type", "text") {
                    if let Some(part) = parts[i].str_at("text") {
                        text.append(part);
                    }
                }
                i = i + 1;
            }
            assert(all.take(i as int) =~= all);
            text
        },
        _ => String::new(),
    }
}

/// The bodies of the updates that replay a session's messages.
pub fn message_history_bodies(messages: &Json) -> (r: Vec<Json>)
    ensures
        items_view(r@) == history_bodies(messages@.items_at("messages"@)),
{
    let mut bodies: Vec<Json> = Vec::new();
    let list: &Vec<Json> = match messages.items_at("messages") {
        Some(list) => list,
        None => return bodies,
    };
    let ghost all = items_view(list@);
    proof {
        lemma_items_view(list@);
    }
    let mut i: usize = 0;
    while i < list.len()
        invariant
            i <= list.len(),
            all.len() == list.len(),
            forall|k: int| 0 <= k < list.len() ==> #[trigger] all[k] == list[k]@,
            items_view(bodies@) == history_bodies(all.take(i as int)),
        decreases list.len() - i,
    {
        proof {
            assert(all.take(i + 1).drop_last() =~= all.take(i as int));
            assert(all.take(i + 1).last() == list[i as int]@);
        }
        let text: String = make_message_text(&list[i]);
        if !text.as_str().is_empty() {
            let kind: &str = if list[i].has_text("role", "user") {
                "user_message_chunk"
            } else {
                "agent_message_chunk"
            };
            let ghost before = bodies@;
            bodies.push(make_text_body(kind, text.as_str()));
            assert(bodies@.drop_last() =~= before);
        }
        i = i + 1;
    }
    assert(all.take(i as int) =~= all);
    bodies
}

/// The updates that replay a session's messages, in their order.
pub fn message_history_updates(messages: &Json) -> (r: Result<Vec<SessionUpdate>, String>)
    ensures
        updates_view(r) == accepted(history_bodies(messages@.items_at("messages"@))),
{
    accept(message_history_bodies(messages))
}

/// Text that came in parts is known to have come so for the rest of the turn.
pub proof fn streamed_text_stays_streamed(
    event: JsonView,
    location: Option<Seq<char>>,
    file: Option<Seq<char>>,
    state: TurnView,
    index: i64,
)
    requires
        state.streamed.contains(index),
    ensures
        event_outcome(event, location, file, state).state.streamed.contains(index),
{
}

/// A text block that came in parts is not sent again when it ends.
pub proof fn streamed_text_is_not_repeated(part: JsonView, end: JsonView, state: TurnView)
    requires
        part.str_at("type"@) == Some("text_delta"@),
        part.str_at("delta"@) is Some,
        end.str_at("type"@) == Some("text_end"@),
        index_of(part) == index_of(end),
    ensures
        message_outcome(end, message_outcome(part, state).state).bodies == Ok::<
            Seq<JsonView>,
            Seq<char>,
        >(Seq::empty()),
{
    reveal_strlit("text_delta");
    reveal_strlit("text_end");
    assert("text_delta"@.len() != "text_end"@.len());
}

/// However many edits Pi starts, no more are tracked than allowed.
pub proof fn tracked_edits_stay_bounded(
    event: JsonView,
    location: Option<Seq<char>>,
    file: Option<Seq<char>>,
    state: TurnView,
)
    requires
        state.edits.dom().finite(),
        state.edits.dom().len() <= state.limit,
    ensures
        ({
            let after = event_outcome(event, location, file, state).state;
            &&& after.edits.dom().finite()
            &&& after.edits.dom().len() <= after.limit
            &&& after.limit == state.limit
        }),
{
    let after = event_outcome(event, location, file, state).state;
    let id = call_of(event);
    assert(state.edits.remove(id).dom() =~= state.edits.dom().remove(id));
    if let Some(started) = event.str_at("toolCallId"@) {
        if let (Some(path), Some(text)) = (location, file) {
            assert(state.edits.insert(started, (path, text)).dom() =~= state.edits.dom().insert(
                started,
            ));
        }
    }
}

/// An edit is shown as the change from the text before it to the text after it, ahead of what the
/// tool itself gives, and is tracked no longer then.
pub proof fn edit_is_shown_as_a_change(
    start: JsonView,
    end: JsonView,
    id: Seq<char>,
    path: Seq<char>,
    old_text: Seq<char>,
    new_text: Seq<char>,
    state: TurnView,
)
    requires
        start.str_at("toolName"@) == Some("edit"@),
        start.str_at("toolCallId"@) == Some(id),
        call_of(end) == id,
        state.edits.dom().len() < state.limit,
        old_text != new_text,
    ensures
        ({
            let begun = start_outcome(start, Some(path), Some(old_text), state);
            let ended = end_outcome(end, Some(new_text), begun.state);
            &&& ended.bodies == Ok::<Seq<JsonView>, Seq<char>>(
                seq![
                    end_body(
                        end,
                        seq![diff_part(path, old_text, new_text)] + content_of(end.get("result"@)),
                    ),
                ],
            )
            &&& !ended.state.edits.contains_key(id)
        }),
{
}

/// A transcript is replayed in its order: the updates of its beginning come first.
pub proof fn transcript_is_replayed_in_order(first: Seq<JsonView>, second: Seq<JsonView>)
    ensures
        history_bodies(first + second) == history_bodies(first) + history_bodies(second),
    decreases second.len(),
{
    if second.len() == 0 {
        assert(first + second =~= first);
        assert(history_bodies(first) + history_bodies(second) =~= history_bodies(first));
    } else {
        transcript_is_replayed_in_order(first, second.drop_last());
        assert((first + second).drop_last() =~= first + second.drop_last());
        assert((first + second).last() == second.last());
        assert(history_bodies(first + second) =~= history_bodies(first) + history_bodies(second));
    }
}

} // verus!
