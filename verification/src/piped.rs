//! Laws on the pipe to Pi: how Pi is started, what is written to it, and how what it says is read.

use vstd::prelude::*;
use vstd::utf8::encode_utf8;

use crate::json::{json_parsed, json_written, member_reads_back, JsonView};
use crate::pi_rpc::{
    after_command, arguments, command_of, ended, exit_replies, heard, line_outcome, lines_outcome,
    message_record, plain_command, prompt_arguments, reply_of, PiEventView,
    PiOutputView, PiView,
};
use crate::process::{
    arguments_read_back, errno_message, has_zero, host_arguments, parts, serialized, Pipes,
};
use crate::records::{framed, lemma_line_end, line_end, Rest};
use crate::text::decimal;

verus! {

/// Whether the `i`-th pair of arguments from a place on adds a text to the system prompt.
pub open spec fn adds_prompt(args: Seq<Seq<char>>, start: int, i: int, prompt: Seq<char>) -> bool {
    args[start + 2 * i] == "--append-system-prompt"@ && args[start + 2 * i + 1] == prompt
}

/// Each prompt stands behind its own option.
proof fn lemma_prompt_arguments(prompts: Seq<Seq<char>>)
    ensures
        prompt_arguments(prompts).len() == 2 * prompts.len(),
        forall|i: int|
            0 <= i < prompts.len() ==> #[trigger] adds_prompt(
                prompt_arguments(prompts),
                0,
                i,
                prompts[i],
            ),
    decreases prompts.len(),
{
    if prompts.len() > 0 {
        let front = prompts.drop_last();
        lemma_prompt_arguments(front);
        assert forall|i: int| 0 <= i < prompts.len() implies #[trigger] adds_prompt(
            prompt_arguments(prompts),
            0,
            i,
            prompts[i],
        ) by {
            if i < front.len() {
                assert(adds_prompt(prompt_arguments(front), 0, i, front[i]));
            }
        }
    }
}

/// Pi is started to speak RPC without themes and told where its sessions are, which of them to
/// continue if any, every text to add to its system prompt, in order, and last whatever else the
/// user wants.
pub proof fn pi_is_told_how_to_start(
    session_dir: Seq<char>,
    session_file: Option<Seq<char>>,
    prompts: Seq<Seq<char>>,
    extra: Seq<Seq<char>>,
)
    ensures
        ({
            let args = arguments(session_dir, session_file, prompts, extra);
            let start: int = if session_file is Some {
                7
            } else {
                5
            };
            let end = start + 2 * prompts.len();
            &&& args.len() == end + extra.len()
            &&& args[0] == "--mode"@
            &&& args[1] == "rpc"@
            &&& args[2] == "--no-themes"@
            &&& args[3] == "--session-dir"@
            &&& args[4] == session_dir
            &&& session_file matches Some(file) ==> args[5] == "--session"@ && args[6] == file
            &&& forall|i: int|
                0 <= i < prompts.len() ==> #[trigger] adds_prompt(args, start, i, prompts[i])
            &&& args.skip(end) == extra
        }),
{
    lemma_prompt_arguments(prompts);
    let args = arguments(session_dir, session_file, prompts, extra);
    let start: int = if session_file is Some {
        7
    } else {
        5
    };
    assert forall|i: int| 0 <= i < prompts.len() implies #[trigger] adds_prompt(
        args,
        start,
        i,
        prompts[i],
    ) by {
        assert(adds_prompt(prompt_arguments(prompts), 0, i, prompts[i]));
        assert(args[start + 2 * i] == prompt_arguments(prompts)[2 * i]);
        assert(args[start + 2 * i + 1] == prompt_arguments(prompts)[2 * i + 1]);
    }
    assert(args.skip(start + 2 * prompts.len()) =~= extra);
}

/// A command that Pi carried out gives its data, `null` where there is none. Any other has failed,
/// with the error that Pi names.
pub proof fn responses_are_understood(response: JsonView)
    ensures
        response.get("success"@) == Some(JsonView::Bool(true)) ==> reply_of(response) == Ok::<
            JsonView,
            Seq<char>,
        >(
            match response.get("data"@) {
                Some(data) => data,
                None => JsonView::Null,
            },
        ),
        response.get("success"@) != Some(JsonView::Bool(true)) ==> reply_of(response) == Err::<
            JsonView,
            Seq<char>,
        >(
            "Pi RPC command failed: "@ + match response.str_at("error"@) {
                Some(error) => error,
                None => "unknown error"@,
            },
        ),
{
}

/// A response goes to the command that waits for it, which waits no longer. Everything else that
/// Pi says goes to all that listen, and so does the news that it cannot be understood. An empty
/// line says nothing.
pub proof fn lines_find_their_way(pending: Set<Seq<char>>, line: Seq<u8>)
    ensures
        ({
            let after = line_outcome(pending, line);
            let id = json_parsed(line)->Ok_0.str_at("id"@);
            let answers = json_parsed(line) is Ok && json_parsed(line)->Ok_0.str_at("type"@)
                == Some("response"@) && id is Some && pending.contains(id->0);
            if line.len() == 0 {
                after.outputs.len() == 0 && after.pending == pending
            } else {
                &&& after.outputs.len() == 1
                &&& if json_parsed(line) is Err {
                    &&& after.pending == pending
                    &&& after.outputs[0] == PiOutputView::Event(
                        PiEventView::Exited(
                            "invalid Pi RPC JSON: "@ + json_parsed(line)->Err_0,
                        ),
                    )
                } else if answers {
                    &&& forall|other: Seq<char>| #[trigger]
                        after.pending.contains(other) <==> pending.contains(other) && other
                            != id->0
                    &&& after.outputs[0] == (PiOutputView::Reply {
                        id: id->0,
                        result: reply_of(json_parsed(line)->Ok_0),
                    })
                } else {
                    &&& after.pending == pending
                    &&& after.outputs[0] == PiOutputView::Event(
                        PiEventView::Message(json_parsed(line)->Ok_0),
                    )
                }
            }
        }),
{
}

/// Lines are worked off one after the other: what comes of the first comes first, and the others
/// find the commands that are left.
pub proof fn lines_are_worked_off_in_order(
    pending: Set<Seq<char>>,
    lines: Seq<Seq<u8>>,
    last: Seq<u8>,
)
    ensures
        lines_outcome(pending, Seq::empty()).outputs.len() == 0,
        lines_outcome(pending, Seq::empty()).pending == pending,
        ({
            let before = lines_outcome(pending, lines);
            let after = line_outcome(before.pending, last);
            let all = lines_outcome(pending, lines.push(last));
            &&& all.outputs == before.outputs + after.outputs
            &&& all.pending == after.pending
        }),
{
    assert(lines.push(last).drop_last() =~= lines);
}

/// The bytes that Pi says are cut into lines, and what comes of the lines is what comes of the
/// bytes. A line of more than 16777216 bytes is the end of what can be understood.
pub proof fn bytes_are_heard_as_lines(pending: Set<Seq<char>>, stream: Seq<u8>)
    ensures
        ({
            let cut = framed(stream, 16777216);
            let lines = lines_outcome(pending, cut.records);
            let all = heard(pending, stream);
            &&& all.rest == cut.rest
            &&& all.outcome.pending == lines.pending
            &&& cut.rest is Partial ==> all.outcome.outputs == lines.outputs
            &&& cut.rest is TooLong ==> all.outcome.outputs == lines.outputs.push(
                PiOutputView::Event(PiEventView::Exited("Pi RPC record exceeded 16777216 bytes"@)),
            )
        }),
{
}

/// A stream that starts with a line feed behind some bytes starts with the record of these bytes,
/// without a carriage return at their end. What follows is cut by itself.
pub proof fn line_feeds_end_records(line: Seq<u8>, rest: Seq<u8>, limit: int)
    requires
        !line.contains(10u8),
        line.len() <= limit,
    ensures
        ({
            let all = framed(line + seq![10u8] + rest, limit);
            let others = framed(rest, limit);
            &&& all.rest == others.rest
            &&& line.len() > 0 && line.last() == 13u8 ==> all.records == seq![line.drop_last()]
                + others.records
            &&& line.len() == 0 || line.last() != 13u8 ==> all.records == seq![line]
                + others.records
        }),
{
    let stream = line + seq![10u8] + rest;
    lemma_line_end(stream);
    let end = line_end(stream);
    if end < line.len() {
        assert(stream[end] == line[end]);
        assert(line.contains(line[end]));
    }
    assert(stream[line.len() as int] == 10u8);
    assert(end == line.len());
    assert(stream.take(end) =~= line);
    assert(stream.skip(end + 1) =~= rest);
}

/// Bytes without a line feed are a record that has not ended, unless there are too many of them.
pub proof fn unfinished_records_wait(bytes: Seq<u8>, limit: int)
    requires
        !bytes.contains(10u8),
    ensures
        framed(bytes, limit).records.len() == 0,
        bytes.len() <= limit ==> framed(bytes, limit).rest == Rest::Partial(bytes),
        bytes.len() > limit ==> framed(bytes, limit).rest is TooLong,
{
    lemma_line_end(bytes);
    let end = line_end(bytes);
    if end < bytes.len() {
        assert(bytes.contains(bytes[end]));
    }
}

/// A record of more bytes than the limit is not read, and nothing after it.
pub proof fn long_records_end_the_reading(line: Seq<u8>, rest: Seq<u8>, limit: int)
    requires
        !line.contains(10u8),
        line.len() > limit,
    ensures
        framed(line + rest, limit).records.len() == 0,
        framed(line + rest, limit).rest is TooLong,
{
    let stream = line + rest;
    lemma_line_end(stream);
    let end = line_end(stream);
    if end < line.len() {
        assert(stream[end] == line[end]);
        assert(line.contains(line[end]));
    }
}

/// A message to Pi is one line: its JSON text and a line feed. It is not sent where the text has
/// more than 16777216 bytes, or where there is none.
pub proof fn messages_to_pi_are_lines(message: JsonView)
    ensures
        match json_written(message) {
            Ok(text) => if text.len() <= 16777216 {
                message_record(message) == Ok::<Seq<u8>, Seq<char>>(text + seq![10u8])
            } else {
                message_record(message) == Err::<Seq<u8>, Seq<char>>(
                    "Pi RPC record exceeded 16777216 bytes"@,
                )
            },
            Err(text) => message_record(message) == Err::<Seq<u8>, Seq<char>>(text),
        },
{
    if let Ok(text) = json_written(message) {
        assert(text.push(10u8) =~= text + seq![10u8]);
    }
}

/// The message with an id is a command: all that it says, and the id. It waits for its response
/// from then on, and the next command has the next number.
pub proof fn commands_carry_their_ids(pi: PiView, command: JsonView, message: JsonView)
    requires
        !pi.closed,
        command is Object,
        message == command.with("id"@, JsonView::String("pi-acp-"@ + decimal(pi.next_id as nat))),
    ensures
        message.str_at("id"@) == Some("pi-acp-"@ + decimal(pi.next_id as nat)),
        forall|key: Seq<char>| key != "id"@ ==> #[trigger] message.get(key) == command.get(key),
        match message_record(message) {
            Ok(record) => command_of(pi, command) == Ok::<(Seq<char>, Seq<u8>), Seq<char>>(
                ("pi-acp-"@ + decimal(pi.next_id as nat), record),
            ),
            Err(text) => command_of(pi, command) == Err::<(Seq<char>, Seq<u8>), Seq<char>>(text),
        },
        ({
            let after = after_command(pi, command);
            &&& pi.next_id < u64::MAX ==> after.next_id == pi.next_id + 1
            &&& pi.next_id == u64::MAX ==> after.next_id == 0
            &&& forall|id: Seq<char>| #[trigger]
                after.pending.contains(id) <==> pi.pending.contains(id) || (message_record(
                    message,
                ) is Ok && id == "pi-acp-"@ + decimal(pi.next_id as nat))
            &&& after.closed == pi.closed
            &&& after.buffer == pi.buffer
            &&& after.cwd == pi.cwd
            &&& after.queued_prompts == pi.queued_prompts
        }),
{
    broadcast use member_reads_back;

}

/// A closed process is given no command, and no process is given one that is no object. A number
/// is used up for the latter, but nothing waits.
pub proof fn some_commands_are_refused(pi: PiView, command: JsonView)
    ensures
        pi.closed ==> command_of(pi, command) == Err::<(Seq<char>, Seq<u8>), Seq<char>>(
            "Pi process is closed"@,
        ) && after_command(pi, command) == pi,
        !pi.closed && !(command is Object) ==> {
            &&& command_of(pi, command) == Err::<(Seq<char>, Seq<u8>), Seq<char>>(
                "Pi RPC command must be an object"@,
            )
            &&& after_command(pi, command).pending == pi.pending
            &&& pi.next_id < u64::MAX ==> after_command(pi, command).next_id == pi.next_id + 1
        },
{
}

/// A command without arguments says only its name.
pub proof fn plain_commands_say_their_name(name: Seq<char>)
    ensures
        plain_command(name) == JsonView::Object(seq![("type"@, JsonView::String(name))]),
{
}

/// When Pi ends, every command that waits fails, each once, and all that listen learn of it, last.
pub proof fn end_of_pi_is_told(pending: Set<Seq<char>>, outputs: Seq<PiOutputView>)
    requires
        ended(pending, outputs),
    ensures
        ({
            let text = "Pi process exited before completing pending commands"@;
            let failed = |id: Seq<char>|
                PiOutputView::Reply { id, result: Err::<JsonView, Seq<char>>(text) };
            &&& outputs.len() > 0
            &&& outputs.last() == PiOutputView::Event(PiEventView::Exited(text))
            &&& forall|id: Seq<char>|
                pending.contains(id) ==> outputs.contains(#[trigger] failed(id))
            &&& forall|i: int|
                0 <= i < outputs.len() - 1 ==> (#[trigger] outputs[i] matches PiOutputView::Reply {
                    id,
                    result,
                } && pending.contains(id) && result == Err::<JsonView, Seq<char>>(text))
            &&& forall|i: int, j: int|
                0 <= i < j < outputs.len() ==> #[trigger] outputs[i] != #[trigger] outputs[j]
        }),
{
    let text = "Pi process exited before completing pending commands"@;
    let failed = |id: Seq<char>|
        PiOutputView::Reply { id, result: Err::<JsonView, Seq<char>>(text) };
    let last = PiOutputView::Event(PiEventView::Exited(text));
    let ids = choose|ids: Seq<Seq<char>>|
        {
            &&& ids.no_duplicates()
            &&& ids.to_set() == pending
            &&& outputs == #[trigger] exit_replies(ids).push(last)
        };
    assert forall|i: int| 0 <= i < ids.len() implies #[trigger] outputs[i] == failed(ids[i])
        && pending.contains(ids[i]) by {
        assert(ids.to_set().contains(ids[i]));
    }
    assert forall|id: Seq<char>| pending.contains(id) implies outputs.contains(
        #[trigger] failed(id),
    ) by {
        assert(ids.to_set().contains(id));
        let i = choose|i: int| 0 <= i < ids.len() && ids[i] == id;
        assert(outputs[i] == failed(id));
    }
    assert forall|i: int, j: int| 0 <= i < j < outputs.len() implies #[trigger] outputs[i]
        != #[trigger] outputs[j] by {
        if j < ids.len() {
            assert(ids[i] != ids[j]);
        }
    }
}

/// How many bytes texts have with one more byte between each two.
pub open spec fn total_bytes(items: Seq<Seq<char>>) -> int
    decreases items.len(),
{
    if items.len() == 0 {
        -1
    } else {
        total_bytes(items.drop_last()) + 1 + encode_utf8(items.last()).len()
    }
}

/// Texts without a zero byte are written where they have no more bytes than allowed.
proof fn lemma_serialized(items: Seq<Seq<char>>)
    ensures
        serialized(items) matches Ok(bytes) ==> {
            &&& bytes.len() <= 1048576
            &&& forall|i: int|
                0 <= i < items.len() ==> !has_zero(encode_utf8(#[trigger] items[i]))
            &&& items.len() > 0 ==> bytes.len() <= total_bytes(items)
            &&& items.len() > 0 && encode_utf8(items[0]).len() > 0 ==> bytes.len() == total_bytes(
                items,
            ) && bytes.len() > 0
        },
        items.len() > 0 && total_bytes(items) <= 1048576 && (forall|i: int|
            0 <= i < items.len() ==> !has_zero(encode_utf8(#[trigger] items[i]))) ==> serialized(
            items,
        ) is Ok,
        serialized(items) matches Err(text) ==> {
            ||| text == "Pi argument contains NUL"@ && exists|i: int|
                0 <= i < items.len() && has_zero(encode_utf8(#[trigger] items[i]))
            ||| text == "serialized Pi arguments exceed 1048576 bytes"@ && total_bytes(items)
                > 1048576
        },
    decreases items.len(),
{
    if items.len() > 0 {
        let front = items.drop_last();
        lemma_serialized(front);
        assert(total_bytes(items) >= total_bytes(front));
        assert forall|i: int| 0 <= i < front.len() implies #[trigger] front[i] == items[i] by {}
        if front.len() > 0 {
            assert(front[0] == items[0]);
        }
        if (exists|i: int| 0 <= i < front.len() && has_zero(encode_utf8(#[trigger] front[i]))) {
            let i = choose|i: int|
                0 <= i < front.len() && has_zero(encode_utf8(#[trigger] front[i]));
            assert(has_zero(encode_utf8(items[i])));
        }
        assert(items[items.len() - 1] == items.last());
        if serialized(items) is Ok {
            assert forall|i: int| 0 <= i < items.len() implies !has_zero(
                encode_utf8(#[trigger] items[i]),
            ) by {
                if i < front.len() {
                    assert(!has_zero(encode_utf8(front[i])));
                }
            }
        }
        if (forall|i: int| 0 <= i < items.len() ==> !has_zero(encode_utf8(#[trigger] items[i]))) {
            assert forall|i: int| 0 <= i < front.len() implies !has_zero(
                encode_utf8(#[trigger] front[i]),
            ) by {
                assert(!has_zero(encode_utf8(items[i])));
            }
        }
    }
}

/// A host is told the program and its arguments where there are fewer than 4096 of these, the
/// directory has at most 4096 bytes, all of it together has at most 1048576, and no zero byte is
/// among them. It finds each of them again, the program first.
pub proof fn host_is_told_what_to_start(
    executable: Seq<char>,
    args: Seq<Seq<char>>,
    cwd: Seq<char>,
)
    requires
        encode_utf8(executable).len() > 0,
    ensures
        ({
            let items = seq![executable] + args;
            let place_fits = encode_utf8(cwd).len() <= 4096 && !encode_utf8(cwd).contains(0u8);
            let no_zero = forall|i: int|
                0 <= i < items.len() ==> !(encode_utf8(#[trigger] items[i]).contains(0u8));
            let told = host_arguments(executable, args, cwd);
            &&& told is Ok <==> args.len() < 4096 && place_fits && no_zero && total_bytes(items)
                <= 1048576
            &&& told matches Ok(bytes) ==> parts(bytes) == items.map_values(
                |item: Seq<char>| encode_utf8(item),
            )
            &&& args.len() >= 4096 ==> told == Err::<Seq<u8>, Seq<char>>(
                "argument count exceeds limit of 4096"@,
            )
            &&& args.len() < 4096 && !place_fits ==> told == Err::<Seq<u8>, Seq<char>>(
                "Pi cwd is invalid or exceeds 4096 bytes"@,
            )
            &&& args.len() < 4096 && place_fits && no_zero && total_bytes(items) > 1048576 ==> told
                == Err::<Seq<u8>, Seq<char>>("serialized Pi arguments exceed 1048576 bytes"@)
            &&& args.len() < 4096 && place_fits && !no_zero && total_bytes(items) <= 1048576
                ==> told == Err::<Seq<u8>, Seq<char>>("Pi argument contains NUL"@)
        }),
{
    let items = seq![executable] + args;
    assert(items[0] == executable);
    lemma_serialized(items);
    if serialized(items) is Ok {
        arguments_read_back(items);
    }
}

/// A call of the host that failed is named with its number.
pub proof fn host_errors_are_named(value: u32, operation: Seq<char>)
    ensures
        errno_message(value, operation) == "AgentOS "@ + operation + " failed with WASI errno "@
            + decimal(value as nat),
{
}

/// Of the pipes to a process that runs, the ends that it has itself are closed and the others
/// stay; where it does not run, all are closed.
pub proof fn own_ends_are_kept(pipes: Pipes)
    ensures
        pipes.closed(true) == seq![pipes.stdin_read, pipes.stdout_write],
        pipes.closed(false).len() == 4,
        pipes.closed(false).contains(pipes.stdin_read),
        pipes.closed(false).contains(pipes.stdin_write),
        pipes.closed(false).contains(pipes.stdout_read),
        pipes.closed(false).contains(pipes.stdout_write),
{
    let all = pipes.closed(false);
    assert(all[0] == pipes.stdin_read);
    assert(all[1] == pipes.stdout_write);
    assert(all[2] == pipes.stdin_write);
    assert(all[3] == pipes.stdout_read);
}

} // verus!
