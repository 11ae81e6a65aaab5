//! Laws on what the user is shown of Pi's events and of a session's messages.

use agent_client_protocol_schema::v1::SessionUpdate;
use vstd::prelude::*;

use crate::json::{member_is_counted_once, member_reads_back, JsonView};
use crate::paths::{is_plain, is_portable};
use crate::text::decimal;
use crate::translate::{
    accepted, content_parts, event_outcome, file_needed, history_bodies, is_location, message_text,
    part_texts, schema_update, TurnView,
};
use crate::words::{
    lemma_body_keys, lemma_delta_kinds, lemma_event_kinds, lemma_part_words, lemma_tool_names,
};

verus! {

/// Whether a part of a tool's result can be shown: a text or an image.
pub open spec fn can_be_shown(part: JsonView) -> bool {
    part.str_at("type"@) == Some("text"@) || part.str_at("type"@) == Some("image"@)
}

/// Whether an item of a tool call's content shows a part of the tool's result: the text of a text
/// part, which is empty where it is left out, and an image as it is.
pub open spec fn item_shows(item: JsonView, part: JsonView) -> bool {
    &&& item.size() == 2
    &&& item.str_at("type"@) == Some("content"@)
    &&& part.str_at("type"@) == Some("text"@) ==> {
        &&& or_null(item.get("content"@)).size() == 2
        &&& item.str_in("content"@, "type"@) == Some("text"@)
        &&& part.str_at("text"@) is Some ==> item.str_in("content"@, "text"@) == part.str_at(
            "text"@,
        )
        &&& part.str_at("text"@) is None ==> item.str_in("content"@, "text"@) == Some(
            Seq::<char>::empty(),
        )
    }
    &&& part.str_at("type"@) == Some("image"@) ==> item.get("content"@) == Some(part)
}

/// Whether `items` are one item for each text and each image of `parts`, in their order.
pub open spec fn items_show(items: Seq<JsonView>, parts: Seq<JsonView>) -> bool {
    let visible = parts.filter(|part: JsonView| can_be_shown(part));
    &&& items.len() == visible.len()
    &&& forall|i: int| 0 <= i < items.len() ==> item_shows(#[trigger] items[i], visible[i])
}

/// The parts of a tool's result are shown one by one.
proof fn lemma_parts_are_shown(parts: Seq<JsonView>)
    ensures
        items_show(content_parts(parts), parts),
    decreases parts.len(),
{
    broadcast use {member_is_counted_once, member_reads_back};

    reveal(Seq::filter);
    lemma_part_words();
    if parts.len() > 0 {
        lemma_parts_are_shown(parts.drop_last());
        let items = content_parts(parts);
        let visible = parts.filter(|part: JsonView| can_be_shown(part));
        if can_be_shown(parts.last()) {
            assert(item_shows(items.last(), parts.last()));
        }
        assert forall|i: int| 0 <= i < items.len() implies item_shows(
            #[trigger] items[i],
            visible[i],
        ) by {
            if i < content_parts(parts.drop_last()).len() {
                assert(items[i] == content_parts(parts.drop_last())[i]);
            }
        }
    }
}

/// The list of parts that a tool gave, which is empty where it gave none.
pub open spec fn parts_given(result: Option<JsonView>) -> Seq<JsonView> {
    match result {
        Some(JsonView::Object(members)) => match JsonView::Object(members).get("content"@) {
            Some(JsonView::Array(parts)) => parts,
            _ => Seq::empty(),
        },
        _ => Seq::empty(),
    }
}

/// The value, `null` where there is none.
pub open spec fn or_null(value: Option<JsonView>) -> JsonView {
    match value {
        Some(value) => value,
        None => JsonView::Null,
    }
}

/// A tool call that goes on is shown with what the tool has given so far: the texts and images of
/// the event's `partialResult`, one by one, under the tool call's own id.
pub proof fn progress_is_shown(
    event: JsonView,
    location: Option<Seq<char>>,
    file: Option<Seq<char>>,
    state: TurnView,
)
    requires
        event.str_at("type"@) == Some("tool_execution_update"@),
    ensures
        ({
            let after = event_outcome(event, location, file, state);
            &&& after.state == state
            &&& after.bodies matches Ok(bodies) && bodies.len() == 1 && {
                let body = bodies[0];
                &&& body.size() == 4
                &&& body.str_at("sessionUpdate"@) == Some("tool_call_update"@)
                &&& body.str_at("status"@) == Some("in_progress"@)
                &&& body.get("toolCallId"@) == Some(or_null(event.get("toolCallId"@)))
                &&& body.get("content"@) is Some
                &&& body.get("content"@)->0 is Array
                &&& items_show(
                    body.get("content"@)->0->Array_0,
                    parts_given(event.get("partialResult"@)),
                )
            }
        }),
{
    broadcast use {member_is_counted_once, member_reads_back};

    lemma_event_kinds();
    lemma_body_keys();
    lemma_parts_are_shown(parts_given(event.get("partialResult"@)));
}

/// While a tool says one text, that text is what is shown of it.
pub proof fn one_text_is_shown_as_it_is(
    event: JsonView,
    text: Seq<char>,
    location: Option<Seq<char>>,
    file: Option<Seq<char>>,
    state: TurnView,
)
    requires
        event.str_at("type"@) == Some("tool_execution_update"@),
        event.get("partialResult"@) is Some,
        event.get("partialResult"@)->0.items_at("content"@).len() == 1,
        event.get("partialResult"@)->0.items_at("content"@)[0].str_at("type"@) == Some("text"@),
        event.get("partialResult"@)->0.items_at("content"@)[0].str_at("text"@) == Some(text),
    ensures
        event_outcome(event, location, file, state).bodies matches Ok(bodies) && {
            &&& bodies.len() == 1
            &&& bodies[0].items_at("content"@).len() == 1
            &&& bodies[0].items_at("content"@)[0].str_in("content"@, "text"@) == Some(text)
        },
{
    let parts = event.get("partialResult"@)->0.items_at("content"@);
    progress_is_shown(event, location, file, state);
    reveal(Seq::filter);
    assert(parts.drop_last() =~= Seq::empty());
    assert(parts.last() == parts[0]);
    assert(parts_given(event.get("partialResult"@)) == parts);
    let visible = parts.filter(|part: JsonView| can_be_shown(part));
    assert(parts.drop_last().filter(|part: JsonView| can_be_shown(part)) =~= Seq::empty());
    assert(visible =~= seq![parts[0]]);
}

/// A tool call that ends is shown with what the tool gave: the texts and images of the event's
/// `result`, one by one, under the tool call's own id. It failed only where the event says so.
/// Where the tool changed a file that is tracked for it, the change is shown ahead of these; the
/// file is not tracked after that, and other files stay tracked.
pub proof fn end_is_shown(
    event: JsonView,
    location: Option<Seq<char>>,
    file: Option<Seq<char>>,
    state: TurnView,
)
    requires
        event.str_at("type"@) == Some("tool_execution_end"@),
    ensures
        ({
            let after = event_outcome(event, location, file, state);
            let id = match event.str_at("toolCallId"@) {
                Some(id) => id,
                None => Seq::empty(),
            };
            let changed = state.edits.contains_key(id) && file is Some && file
                != Some(state.edits[id].1);
            &&& !after.state.edits.contains_key(id)
            &&& forall|other: Seq<char>|
                other != id ==> (#[trigger] after.state.edits.contains_key(other)
                    <==> state.edits.contains_key(other)) && after.state.edits[other]
                    == state.edits[other]
            &&& after.state.streamed == state.streamed
            &&& after.state.limit == state.limit
            &&& after.state.warned == state.warned
            &&& after.bodies matches Ok(bodies) && bodies.len() == 1 && {
                let body = bodies[0];
                &&& body.size() == 5
                &&& body.str_at("sessionUpdate"@) == Some("tool_call_update"@)
                &&& body.str_at("status"@) == Some("failed"@) <==> event.get("isError"@) == Some(
                    JsonView::Bool(true),
                )
                &&& body.str_at("status"@) == Some("completed"@) <==> event.get("isError"@)
                    != Some(JsonView::Bool(true))
                &&& body.get("toolCallId"@) == Some(or_null(event.get("toolCallId"@)))
                &&& body.get("rawOutput"@) == Some(or_null(event.get("result"@)))
                &&& body.get("content"@) is Some
                &&& body.get("content"@)->0 is Array
                &&& {
                    let items = body.get("content"@)->0->Array_0;
                    if changed {
                        &&& items.len() > 0
                        &&& items[0].size() == 4
                        &&& items[0].str_at("type"@) == Some("diff"@)
                        &&& items[0].str_at("path"@) == Some(state.edits[id].0)
                        &&& items[0].str_at("oldText"@) == Some(state.edits[id].1)
                        &&& items[0].str_at("newText"@) == file
                        &&& items_show(items.drop_first(), parts_given(event.get("result"@)))
                    } else {
                        items_show(items, parts_given(event.get("result"@)))
                    }
                }
            }
        }),
{
    broadcast use {member_is_counted_once, member_reads_back};

    lemma_event_kinds();
    lemma_body_keys();
    reveal_strlit("failed");
    reveal_strlit("completed");
    assert("failed"@.len() != "completed"@.len());
    let shown = content_parts(parts_given(event.get("result"@)));
    lemma_parts_are_shown(parts_given(event.get("result"@)));
    let body = event_outcome(event, location, file, state).bodies->Ok_0[0];
    let items = body.get("content"@)->0->Array_0;
    if items != shown {
        assert(items.drop_first() =~= shown);
    }
}

/// A tool call that starts is shown under its id, with the file that it works on, if any, and its
/// arguments. Its title is the tool's name, or `tool` where it has none; for a shell call it is
/// the command, where the arguments have one.
pub proof fn start_is_shown(
    event: JsonView,
    location: Option<Seq<char>>,
    file: Option<Seq<char>>,
    state: TurnView,
)
    requires
        event.str_at("type"@) == Some("tool_execution_start"@),
        event_outcome(event, location, file, state).bodies is Ok,
    ensures
        event_outcome(event, location, file, state).bodies matches Ok(bodies) && bodies.len() == 1
            && {
            let body = bodies[0];
            let name = event.str_at("toolName"@);
            let command = event.str_in("args"@, "command"@);
            &&& body.size() == 7
            &&& body.str_at("sessionUpdate"@) == Some("tool_call"@)
            &&& body.str_at("status"@) == Some("in_progress"@)
            &&& body.get("toolCallId"@) == Some(or_null(event.get("toolCallId"@)))
            &&& body.get("rawInput"@) == Some(or_null(event.get("args"@)))
            &&& name is None ==> body.str_at("title"@) == Some("tool"@)
            &&& name == Some("bash"@) && command is Some ==> body.str_at("title"@) == command
            &&& name is Some && (name != Some("bash"@) || command is None) ==> body.str_at(
                "title"@,
            ) == name
            &&& location is None ==> body.get("locations"@) == Some(JsonView::Null)
            &&& location is Some ==> {
                &&& body.items_at("locations"@).len() == 1
                &&& body.items_at("locations"@)[0].size() == 1
                &&& body.items_at("locations"@)[0].str_at("path"@) == location
            }
        },
{
    broadcast use {member_is_counted_once, member_reads_back};

    lemma_event_kinds();
    lemma_body_keys();
    lemma_tool_names();
}

/// What a tool does is told by its name: reading, searching and listing files are searches,
/// writing a file is an edit, a shell runs commands, and nothing is known of other tools.
pub proof fn tools_are_told_apart(
    event: JsonView,
    location: Option<Seq<char>>,
    file: Option<Seq<char>>,
    state: TurnView,
)
    requires
        event.str_at("type"@) == Some("tool_execution_start"@),
        event_outcome(event, location, file, state).bodies is Ok,
    ensures
        event_outcome(event, location, file, state).bodies matches Ok(bodies) && bodies.len() == 1
            && {
            let kind = bodies[0].str_at("kind"@);
            let name = event.str_at("toolName"@);
            &&& name == Some("read"@) || name == Some("grep"@) || name == Some("find"@) || name
                == Some("ls"@) <==> kind == Some("search"@)
            &&& name == Some("write"@) <==> kind == Some("edit"@)
            &&& name == Some("bash"@) <==> kind == Some("execute"@)
            &&& kind == Some("search"@) || kind == Some("edit"@) || kind == Some("execute"@)
                || kind == Some("other"@)
        },
{
    broadcast use {member_is_counted_once, member_reads_back};

    lemma_event_kinds();
    lemma_body_keys();
    lemma_tool_names();
}

/// A file is tracked from the start of an edit whose call has an id and whose file could be read.
/// Where as many files are tracked as may be, the edit is refused and nothing changes. Whether
/// they are near the limit is remembered once four fifths of it are reached. Any other tool call
/// changes nothing.
pub proof fn edits_are_tracked(
    event: JsonView,
    location: Option<Seq<char>>,
    file: Option<Seq<char>>,
    state: TurnView,
)
    requires
        event.str_at("type"@) == Some("tool_execution_start"@),
        state.edits.dom().finite(),
    ensures
        ({
            let after = event_outcome(event, location, file, state);
            let follow = event.str_at("toolName"@) == Some("edit"@) && location is Some
                && file is Some && event.str_at("toolCallId"@) is Some;
            let count = state.edits.dom().len();
            &&& after.bodies is Err <==> follow && count >= state.limit
            &&& after.bodies matches Err(text) ==> text == "tracked edit tool limit ("@ + decimal(
                state.limit as nat,
            ) + ") reached; raise --max-tracked-tool-calls to allow more"@
            &&& !follow || count >= state.limit ==> after.state == state
            &&& follow && count < state.limit ==> {
                let id = event.str_at("toolCallId"@)->0;
                &&& after.state.edits.contains_key(id)
                &&& after.state.edits[id] == (location->0, file->0)
                &&& forall|other: Seq<char>|
                    other != id ==> (#[trigger] after.state.edits.contains_key(other)
                        <==> state.edits.contains_key(other)) && after.state.edits[other]
                        == state.edits[other]
                &&& after.state.warned <==> state.warned || 5 * (count + 1) >= 4 * state.limit
                &&& after.state.streamed == state.streamed
                &&& after.state.limit == state.limit
            }
        }),
{
    lemma_event_kinds();
    lemma_tool_names();
}

/// The number of the text block of an event: its `contentIndex`, -1 where that is no number.
pub open spec fn block_number(delta: JsonView) -> int {
    match delta.get("contentIndex"@) {
        Some(value) => match value.as_i64() {
            Some(index) => index as int,
            None => -1,
        },
        None => -1,
    }
}

/// Whether the bodies are one update of the given kind with the given text.
pub open spec fn shows_text(bodies: Seq<JsonView>, kind: Seq<char>, text: Seq<char>) -> bool {
    &&& bodies.len() == 1
    &&& bodies[0].size() == 2
    &&& or_null(bodies[0].get("content"@)).size() == 2
    &&& bodies[0].str_at("sessionUpdate"@) == Some(kind)
    &&& bodies[0].str_in("content"@, "type"@) == Some("text"@)
    &&& bodies[0].str_in("content"@, "text"@) == Some(text)
}

/// What Pi says and thinks is shown as it comes: a part of a text as a message, a part of a
/// thought as a thought, both word by word. A text block that ends is shown whole, but only if no
/// part of the block was shown before.
pub proof fn messages_are_shown(
    event: JsonView,
    location: Option<Seq<char>>,
    file: Option<Seq<char>>,
    state: TurnView,
)
    requires
        event.str_at("type"@) == Some("message_update"@),
    ensures
        ({
            let after = event_outcome(event, location, file, state);
            let delta = or_null(event.get("assistantMessageEvent"@));
            let kind = delta.str_at("type"@);
            let part = delta.str_at("delta"@);
            let whole = delta.str_at("content"@);
            let number = block_number(delta) as i64;
            &&& after.state.edits == state.edits
            &&& after.state.limit == state.limit
            &&& after.state.warned == state.warned
            &&& forall|i: i64| #[trigger]
                after.state.streamed.contains(i) <==> state.streamed.contains(i) || (kind == Some(
                    "text_delta"@,
                ) && part is Some && i == number)
            &&& after.bodies matches Ok(bodies) && {
                if kind == Some("text_delta"@) && part is Some {
                    shows_text(bodies, "agent_message_chunk"@, part->0)
                } else if kind == Some("thinking_delta"@) && part is Some {
                    shows_text(bodies, "agent_thought_chunk"@, part->0)
                } else if kind == Some("text_end"@) && whole is Some && !state.streamed.contains(
                    number,
                ) {
                    shows_text(bodies, "agent_message_chunk"@, whole->0)
                } else {
                    bodies.len() == 0
                }
            }
        }),
{
    broadcast use {member_is_counted_once, member_reads_back};

    lemma_event_kinds();
    lemma_body_keys();
    lemma_delta_kinds();
}

/// A failure that Pi goes on after is shown as a thought: the text of its `error`, or that of its
/// `errorMessage` where it has no `error`. Where that is no text the thought says that Pi tries
/// again.
pub proof fn failures_are_shown(
    event: JsonView,
    location: Option<Seq<char>>,
    file: Option<Seq<char>>,
    state: TurnView,
)
    requires
        event.str_at("type"@) == Some("extension_error"@) || event.str_at("type"@) == Some(
            "auto_retry_start"@,
        ),
    ensures
        ({
            let after = event_outcome(event, location, file, state);
            let error = event.get("error"@);
            let message = event.get("errorMessage"@);
            &&& after.state == state
            &&& after.bodies matches Ok(bodies) && bodies.len() == 1 && {
                &&& forall|text: Seq<char>|
                    error == Some(JsonView::String(text)) ==> #[trigger] shows_text(
                        bodies,
                        "agent_thought_chunk"@,
                        text,
                    )
                &&& forall|text: Seq<char>|
                    error is None && message == Some(JsonView::String(text))
                        ==> #[trigger] shows_text(bodies, "agent_thought_chunk"@, text)
                &&& (error is Some && !(error->0 is String)) || (error is None && !(message is Some
                    && message->0 is String)) ==> shows_text(
                    bodies,
                    "agent_thought_chunk"@,
                    "Pi is retrying after an error"@,
                )
            }
        }),
{
    broadcast use {member_is_counted_once, member_reads_back};

    lemma_event_kinds();
    lemma_body_keys();
}

/// No other event shows anything or is remembered.
pub proof fn other_events_show_nothing(
    event: JsonView,
    location: Option<Seq<char>>,
    file: Option<Seq<char>>,
    state: TurnView,
)
    requires
        event.str_at("type"@) != Some("message_update"@),
        event.str_at("type"@) != Some("tool_execution_start"@),
        event.str_at("type"@) != Some("tool_execution_update"@),
        event.str_at("type"@) != Some("tool_execution_end"@),
        event.str_at("type"@) != Some("extension_error"@),
        event.str_at("type"@) != Some("auto_retry_start"@),
    ensures
        event_outcome(event, location, file, state).state == state,
        event_outcome(event, location, file, state).bodies matches Ok(bodies) && bodies.len() == 0,
{
}

/// Whether a part of a message has text.
pub open spec fn has_text(part: JsonView) -> bool {
    part.str_at("type"@) == Some("text"@) && part.str_at("text"@) is Some
}

/// The text of a message's parts is the text of each part that has text, one after the other.
pub proof fn message_texts_are_strung_together(parts: Seq<JsonView>, message: JsonView)
    requires
        message.get("content"@) == Some(JsonView::Array(parts)),
    ensures
        message_text(message) == parts.filter(|part: JsonView| has_text(part)).map_values(
            |part: JsonView| part.str_at("text"@)->0,
        ).flatten(),
{
    lemma_part_texts(parts);
}

/// The texts of parts, one after the other.
proof fn lemma_part_texts(parts: Seq<JsonView>)
    ensures
        part_texts(parts) == parts.filter(|part: JsonView| has_text(part)).map_values(
            |part: JsonView| part.str_at("text"@)->0,
        ).flatten(),
    decreases parts.len(),
{
    reveal(Seq::filter);
    let said = parts.filter(|part: JsonView| has_text(part)).map_values(
        |part: JsonView| part.str_at("text"@)->0,
    );
    said.lemma_flatten_and_flatten_alt_are_equivalent();
    if parts.len() > 0 {
        let front = parts.drop_last();
        let before = front.filter(|part: JsonView| has_text(part)).map_values(
            |part: JsonView| part.str_at("text"@)->0,
        );
        lemma_part_texts(front);
        before.lemma_flatten_and_flatten_alt_are_equivalent();
        if has_text(parts.last()) {
            assert(said.drop_last() =~= before);
            assert(said.last() == parts.last().str_at("text"@)->0);
        } else {
            assert(said =~= before);
        }
    } else {
        assert(said =~= Seq::empty());
    }
}

/// A message whose content is a string says that string.
pub proof fn message_string_is_its_text(text: Seq<char>, message: JsonView)
    requires
        message.get("content"@) == Some(JsonView::String(text)),
    ensures
        message_text(message) == text,
{
}

/// A message without a string or a list for its content says nothing.
pub proof fn other_messages_say_nothing(message: JsonView)
    requires
        !(message.get("content"@) matches Some(JsonView::String(_))),
        !(message.get("content"@) matches Some(JsonView::Array(_))),
    ensures
        message_text(message).len() == 0,
{
}

/// Whether an update replays a message: as the user's where the message's role is `user`, as the
/// agent's otherwise, with the message's text.
pub open spec fn replays(body: JsonView, message: JsonView) -> bool {
    &&& body.size() == 2
    &&& or_null(body.get("content"@)).size() == 2
    &&& body.str_at("sessionUpdate"@) == Some("user_message_chunk"@) <==> message.str_at("role"@)
        == Some("user"@)
    &&& body.str_at("sessionUpdate"@) == Some("agent_message_chunk"@) <==> message.str_at("role"@)
        != Some("user"@)
    &&& body.str_in("content"@, "type"@) == Some("text"@)
    &&& body.str_in("content"@, "text"@) == Some(message_text(message))
}

/// Every message that says something is replayed by one update, in the messages' order, whether
/// its content is a string or a list of parts; and nothing else is.
pub proof fn messages_are_replayed(messages: Seq<JsonView>)
    ensures
        ({
            let bodies = history_bodies(messages);
            let said = messages.filter(|message: JsonView| message_text(message).len() > 0);
            &&& bodies.len() == said.len()
            &&& forall|i: int| 0 <= i < bodies.len() ==> replays(#[trigger] bodies[i], said[i])
        }),
    decreases messages.len(),
{
    broadcast use {member_is_counted_once, member_reads_back};

    reveal(Seq::filter);
    lemma_body_keys();
    reveal_strlit("user_message_chunk");
    reveal_strlit("agent_message_chunk");
    assert("user_message_chunk"@.len() != "agent_message_chunk"@.len());
    if messages.len() > 0 {
        let front = messages.drop_last();
        let bodies = history_bodies(messages);
        let said = messages.filter(|message: JsonView| message_text(message).len() > 0);
        messages_are_replayed(front);
        if message_text(messages.last()).len() > 0 {
            assert(replays(bodies.last(), messages.last()));
        }
        assert forall|i: int| 0 <= i < bodies.len() implies replays(
            #[trigger] bodies[i],
            said[i],
        ) by {
            if i < history_bodies(front).len() {
                assert(bodies[i] == history_bodies(front)[i]);
            }
        }
    }
}

/// The bodies make updates only where the schema takes each of them, and then each body makes the
/// update in its own place. Otherwise the first body that the schema refuses decides the error.
pub proof fn updates_are_made_of_their_bodies(bodies: Seq<JsonView>)
    ensures
        accepted(bodies) is Ok <==> forall|i: int|
            0 <= i < bodies.len() ==> #[trigger] schema_update(bodies[i]) is Ok,
        accepted(bodies) matches Ok(updates) ==> {
            &&& updates.len() == bodies.len()
            &&& forall|i: int|
                0 <= i < bodies.len() ==> #[trigger] schema_update(bodies[i]) == Ok::<
                    SessionUpdate,
                    Seq<char>,
                >(updates[i])
        },
        forall|i: int|
            0 <= i < bodies.len() && #[trigger] schema_update(bodies[i]) is Err && (forall|k: int|
                0 <= k < i ==> #[trigger] schema_update(bodies[k]) is Ok) ==> accepted(bodies)
                == Err::<Seq<SessionUpdate>, Seq<char>>(schema_update(bodies[i])->Err_0),
    decreases bodies.len(),
{
    if bodies.len() > 0 {
        let front = bodies.drop_last();
        updates_are_made_of_their_bodies(front);
        assert forall|i: int| 0 <= i < front.len() implies schema_update(#[trigger] front[i])
            == schema_update(bodies[i]) by {}
        assert(schema_update(bodies.last()) == schema_update(bodies[bodies.len() - 1]));
        if accepted(front) is Ok {
            assert forall|i: int| 0 <= i < front.len() implies #[trigger] schema_update(bodies[i])
                == Ok::<SessionUpdate, Seq<char>>(accepted(front)->Ok_0[i]) by {
                assert(schema_update(front[i]) is Ok);
            }
        } else {
            let i = choose|i: int|
                0 <= i < front.len() && !(#[trigger] schema_update(front[i]) is Ok);
            assert(schema_update(bodies[i]) is Err);
        }
        assert forall|i: int|
            0 <= i < bodies.len() && #[trigger] schema_update(bodies[i]) is Err && (forall|k: int|
                0 <= k < i ==> #[trigger] schema_update(bodies[k]) is Ok) implies accepted(bodies)
            == Err::<Seq<SessionUpdate>, Seq<char>>(schema_update(bodies[i])->Err_0) by {
            if i < front.len() {
                assert(schema_update(front[i]) is Err);
                assert forall|k: int| 0 <= k < i implies #[trigger] schema_update(
                    front[k],
                ) is Ok by {
                    assert(schema_update(bodies[k]) is Ok);
                }
            } else {
                assert forall|k: int| 0 <= k < front.len() implies #[trigger] schema_update(
                    front[k],
                ) is Ok by {
                    assert(schema_update(bodies[k]) is Ok);
                }
            }
        }
    }
}

/// The file of an edit is read before the edit and, where it was tracked, once more after it. No
/// other event needs a file.
pub proof fn files_are_read_around_edits(
    event: JsonView,
    location: Option<Seq<char>>,
    state: TurnView,
)
    ensures
        ({
            let needed = file_needed(event, location, state);
            let kind = event.str_at("type"@);
            let id = match event.str_at("toolCallId"@) {
                Some(id) => id,
                None => Seq::empty(),
            };
            &&& kind == Some("tool_execution_start"@) && event.str_at("toolName"@) == Some("edit"@)
                ==> needed == location
            &&& kind == Some("tool_execution_start"@) && event.str_at("toolName"@) != Some("edit"@)
                ==> needed is None
            &&& kind == Some("tool_execution_end"@) && state.edits.contains_key(id) ==> needed
                == Some(state.edits[id].0)
            &&& kind == Some("tool_execution_end"@) && !state.edits.contains_key(id)
                ==> needed is None
            &&& kind != Some("tool_execution_start"@) && kind != Some("tool_execution_end"@)
                ==> needed is None
        }),
{
    lemma_event_kinds();
}

/// A tool works on the file that the `path` of its arguments names, and on none where they name
/// none. A path that starts with a slash stands for itself, and one that is relative is seen from
/// the session's directory.
pub proof fn tools_work_on_named_files(
    args: Option<JsonView>,
    cwd: Seq<char>,
    location: Option<Seq<char>>,
)
    requires
        is_location(args, cwd, location),
        is_portable(cwd),
        cwd.len() > 0,
    ensures
        args is None || args->0.str_at("path"@) is None <==> location is None,
        args is Some ==> (args->0.str_at("path"@) matches Some(path) ==> {
            &&& path.is_suffix_of(location->0)
            &&& path.len() > 0 && path[0] == '/' ==> location == Some(path)
            &&& is_plain(path) ==> cwd.is_prefix_of(location->0) && location->0.len() <= cwd.len()
                + 1 + path.len()
        }),
{
    assert(!cwd.contains('\\'));
    assert(cwd[0] != '\\') by {
        assert(cwd.contains(cwd[0]));
    }
    assert(cwd.last() != '\\') by {
        assert(cwd.contains(cwd[cwd.len() - 1]));
    }
    if cwd.len() > 1 {
        assert(cwd.contains(cwd[1]));
    }
}

} // verus!
