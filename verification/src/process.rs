//! What a host that runs WebAssembly is told to start Pi.

use vstd::prelude::*;
use vstd::string::*;
use vstd::utf8::encode_utf8;

use crate::text::{decimal, decimal_text, texts};

verus! {

/// How many arguments a process may have, its program included.
pub const MAX_ARG_COUNT: usize = 4096;

/// How many bytes its arguments may have.
pub const MAX_SERIALIZED_BYTES: usize = 1_048_576;

/// How many bytes its working directory may have.
pub const MAX_CWD_BYTES: usize = 4096;

/// What a call of the host that failed leads to.
pub open spec fn errno_message(value: u32, operation: Seq<char>) -> Seq<char> {
    "AgentOS "@ + operation + " failed with WASI errno "@ + decimal(value as nat)
}

/// Whether a call of the host succeeded. Zero stands for that.
pub fn errno(value: u32, operation: &str) -> (r: Result<(), String>)
    ensures
        match r {
            Ok(_) => value == 0,
            Err(text) => value != 0 && text@ == errno_message(value, operation@),
        },
{
    if value == 0 {
        Ok(())
    } else {
        Err(
            "AgentOS ".to_owned().concat(operation).concat(" failed with WASI errno ").concat(
                decimal_text(value as u64).as_str(),
            ),
        )
    }
}

/// Whether there is a zero byte.
pub open spec fn has_zero(bytes: Seq<u8>) -> bool {
    bytes.contains(0u8)
}

/// `before` with a text behind it, and a zero byte between them where `before` is not empty.
pub open spec fn with_argument(before: Seq<u8>, text: Seq<char>) -> Seq<u8> {
    (if before.len() == 0 {
        before
    } else {
        before.push(0u8)
    }) + encode_utf8(text)
}

/// The texts one after the other with zero bytes between them, or why that cannot be. The first
/// text that is too much decides.
pub open spec fn serialized(items: Seq<Seq<char>>) -> Result<Seq<u8>, Seq<char>>
    decreases items.len(),
{
    if items.len() == 0 {
        Ok(Seq::empty())
    } else {
        match serialized(items.drop_last()) {
            Err(text) => Err(text),
            Ok(before) => if has_zero(encode_utf8(items.last())) {
                Err("Pi argument contains NUL"@)
            } else if with_argument(before, items.last()).len() > MAX_SERIALIZED_BYTES {
                Err("serialized Pi arguments exceed 1048576 bytes"@)
            } else {
                Ok(with_argument(before, items.last()))
            },
        }
    }
}

/// What the host is told: the program and its arguments, or why it is told nothing.
pub open spec fn host_arguments(
    executable: Seq<char>,
    args: Seq<Seq<char>>,
    cwd: Seq<char>,
) -> Result<Seq<u8>, Seq<char>> {
    if args.len() + 1 > MAX_ARG_COUNT {
        Err("argument count exceeds limit of 4096"@)
    } else if encode_utf8(cwd).len() > MAX_CWD_BYTES || has_zero(encode_utf8(cwd)) {
        Err("Pi cwd is invalid or exceeds 4096 bytes"@)
    } else {
        serialized(seq![executable] + args)
    }
}

/// Whether there is a zero byte.
fn find_zero(bytes: &[u8]) -> (r: bool)
    ensures
        r == has_zero(bytes@),
{
    let mut i: usize = 0;
    while i < bytes.len()
        invariant
            i <= bytes.len(),
            forall|k: int| 0 <= k < i ==> #[trigger] bytes@[k] != 0u8,
        decreases bytes.len() - i,
    {
        if bytes[i] == 0u8 {
            assert(bytes@[i as int] == 0u8);
            return true;
        }
        i = i + 1;
    }
    false
}

/// Puts a text behind others.
fn add_argument(argv: &mut Vec<u8>, item: &str) -> (r: Result<(), String>)
    ensures
        match r {
            Ok(_) => {
                &&& !has_zero(encode_utf8(item@))
                &&& final(argv)@ == with_argument(old(argv)@, item@)
                &&& final(argv)@.len() <= MAX_SERIALIZED_BYTES
            },
            Err(text) => if has_zero(encode_utf8(item@)) {
                text@ == "Pi argument contains NUL"@
            } else {
                &&& with_argument(old(argv)@, item@).len() > MAX_SERIALIZED_BYTES
                &&& text@ == "serialized Pi arguments exceed 1048576 bytes"@
            },
        },
{
    let bytes: &[u8] = item.as_bytes();
    if find_zero(bytes) {
        return Err("Pi argument contains NUL".to_owned());
    }
    if argv.len() > 0 {
        argv.push(0u8);
    }
    argv.extend_from_slice(bytes);
    assert(argv@ =~= with_argument(old(argv)@, item@));
    if argv.len() > MAX_SERIALIZED_BYTES {
        return Err("serialized Pi arguments exceed 1048576 bytes".to_owned());
    }
    Ok(())
}

/// Once a text is too much, no more texts change that.
proof fn lemma_serialized_error(items: Seq<Seq<char>>, n: int)
    requires
        0 <= n <= items.len(),
        serialized(items.take(n)) is Err,
    ensures
        serialized(items) == serialized(items.take(n)),
    decreases items.len(),
{
    if n == items.len() {
        assert(items.take(n) =~= items);
    } else {
        assert(items.drop_last().take(n) =~= items.take(n));
        lemma_serialized_error(items.drop_last(), n);
    }
}

/// The view of bytes or of an error.
pub open spec fn bytes_or_text(r: Result<Vec<u8>, String>) -> Result<Seq<u8>, Seq<char>> {
    match r {
        Ok(bytes) => Ok(bytes@),
        Err(text) => Err(text@),
    }
}

/// What the host is told: the program and its arguments.
pub fn serialize_arguments(executable: &str, args: &Vec<String>, cwd: &str) -> (r: Result<
    Vec<u8>,
    String,
>)
    ensures
        bytes_or_text(r) == host_arguments(executable@, texts(args@), cwd@),
{
    if args.len() >= MAX_ARG_COUNT {
        return Err("argument count exceeds limit of 4096".to_owned());
    }
    let directory: &[u8] = cwd.as_bytes();
    if directory.len() > MAX_CWD_BYTES || find_zero(directory) {
        return Err("Pi cwd is invalid or exceeds 4096 bytes".to_owned());
    }
    let ghost items = seq![executable@] + texts(args@);
    let mut argv: Vec<u8> = Vec::new();
    proof {
        assert(items.take(1).drop_last() =~= Seq::<Seq<char>>::empty());
        assert(items.take(1).last() == executable@);
        assert(serialized(items.take(1).drop_last()) == Ok::<Seq<u8>, Seq<char>>(argv@));
    }
    if let Err(text) = add_argument(&mut argv, executable) {
        proof {
            lemma_serialized_error(items, 1);
        }
        return Err(text);
    }
    let mut i: usize = 0;
    while i < args.len()
        invariant
            i <= args.len(),
            items == seq![executable@] + texts(args@),
            serialized(items.take(i + 1)) == Ok::<Seq<u8>, Seq<char>>(argv@),
            host_arguments(executable@, texts(args@), cwd@) == serialized(items),
        decreases args.len() - i,
    {
        proof {
            assert(items.take(i + 2).drop_last() =~= items.take(i + 1));
            assert(items.take(i + 2).last() == args@[i as int]@);
        }
        if let Err(text) = add_argument(&mut argv, args[i].as_str()) {
            proof {
                lemma_serialized_error(items, i + 2);
            }
            return Err(text);
        }
        i = i + 1;
    }
    assert(items.take(i + 1) =~= items);
    Ok(argv)
}

/// The parts of bytes between zero bytes.
pub open spec fn parts(bytes: Seq<u8>) -> Seq<Seq<u8>>
    decreases bytes.len(),
{
    if bytes.len() == 0 {
        seq![Seq::empty()]
    } else {
        let before = parts(bytes.drop_last());
        if bytes.last() == 0u8 {
            before.push(Seq::empty())
        } else {
            before.drop_last().push(before.last().push(bytes.last()))
        }
    }
}

/// There is always a part.
proof fn lemma_some_part(bytes: Seq<u8>)
    ensures
        parts(bytes).len() > 0,
    decreases bytes.len(),
{
    if bytes.len() > 0 {
        lemma_some_part(bytes.drop_last());
    }
}

/// Bytes without a zero go to the last part.
proof fn lemma_parts_of_more(bytes: Seq<u8>, more: Seq<u8>)
    requires
        !has_zero(more),
    ensures
        parts(bytes + more) == parts(bytes).drop_last().push(parts(bytes).last() + more),
    decreases more.len(),
{
    lemma_some_part(bytes);
    let now = parts(bytes);
    if more.len() == 0 {
        assert(bytes + more =~= bytes);
        assert(now.last() + more =~= now.last());
        assert(now.drop_last().push(now.last()) =~= now);
    } else {
        assert(more.contains(more.last()));
        assert forall|x: u8| more.drop_last().contains(x) implies more.contains(x) by {
            let k = choose|k: int| 0 <= k < more.drop_last().len() && more.drop_last()[k] == x;
            assert(more[k] == x);
        }
        lemma_parts_of_more(bytes, more.drop_last());
        let whole = bytes + more;
        assert(whole.drop_last() =~= bytes + more.drop_last());
        let before = parts(whole.drop_last());
        assert(before.drop_last() =~= now.drop_last());
        assert(before.last().push(more.last()) =~= now.last() + more);
    }
}

/// The host finds the program and the arguments again between the zero bytes, unless the program
/// has no name.
pub proof fn arguments_read_back(items: Seq<Seq<char>>)
    requires
        items.len() > 0,
        encode_utf8(items[0]).len() > 0,
        serialized(items) is Ok,
    ensures
        parts(serialized(items)->Ok_0) == items.map_values(|item: Seq<char>| encode_utf8(item)),
        serialized(items)->Ok_0.len() > 0,
    decreases items.len(),
{
    let front = items.drop_last();
    let before = serialized(front)->Ok_0;
    let last = encode_utf8(items.last());
    let wanted = items.map_values(|item: Seq<char>| encode_utf8(item));
    if front.len() == 0 {
        assert(before =~= Seq::<u8>::empty());
        assert(before + last =~= last);
        lemma_parts_of_more(before, last);
        assert(parts(before).drop_last() =~= Seq::<Seq<u8>>::empty());
        assert(parts(before).last() + last =~= last);
        assert(wanted =~= seq![last]);
        assert(parts(before + last) =~= wanted);
    } else {
        assert(front[0] == items[0]);
        arguments_read_back(front);
        let zeroed = before.push(0u8);
        assert(zeroed.drop_last() =~= before);
        lemma_parts_of_more(zeroed, last);
        assert(parts(zeroed).drop_last() =~= parts(before));
        assert(parts(zeroed).last() + last =~= last);
        assert(wanted =~= front.map_values(|item: Seq<char>| encode_utf8(item)).push(last));
    }
}

/// The ends of the pipes to a process.
pub struct Pipes {
    pub stdin_read: u32,
    pub stdin_write: u32,
    pub stdout_read: u32,
    pub stdout_write: u32,
}

/// The ends to close when the second pipe could not be made: both of the first one.
pub fn closed_without_second_pipe(stdin_read: u32, stdin_write: u32) -> (r: Vec<u32>)
    ensures
        r@ == seq![stdin_read, stdin_write],
{
    let mut list: Vec<u32> = Vec::new();
    list.push(stdin_read);
    list.push(stdin_write);
    assert(list@ =~= seq![stdin_read, stdin_write]);
    list
}

impl Pipes {
    /// The ends to close once the process was to be started: the ones that are its own, and the
    /// others too where it was not.
    pub open spec fn closed(self, started: bool) -> Seq<u32> {
        if started {
            seq![self.stdin_read, self.stdout_write]
        } else {
            seq![self.stdin_read, self.stdout_write, self.stdin_write, self.stdout_read]
        }
    }

    /// The ends that stay open.
    pub open spec fn kept(self, started: bool) -> Seq<u32> {
        if started {
            seq![self.stdin_write, self.stdout_read]
        } else {
            Seq::empty()
        }
    }

    /// The ends to close once the process was to be started.
    pub fn closed_after_start(&self, started: bool) -> (r: Vec<u32>)
        ensures
            r@ == self.closed(started),
    {
        let mut list: Vec<u32> = Vec::new();
        list.push(self.stdin_read);
        list.push(self.stdout_write);
        if !started {
            list.push(self.stdin_write);
            list.push(self.stdout_read);
        }
        assert(list@ =~= self.closed(started));
        list
    }
}

/// No end of a pipe is lost: each is closed, or kept for talking to the process, and none is both.
pub proof fn no_end_is_lost(pipes: Pipes, started: bool, end: u32)
    requires
        pipes.stdin_read != pipes.stdin_write,
        pipes.stdin_read != pipes.stdout_read,
        pipes.stdout_write != pipes.stdin_write,
        pipes.stdout_write != pipes.stdout_read,
        end == pipes.stdin_read || end == pipes.stdin_write || end == pipes.stdout_read || end
            == pipes.stdout_write,
    ensures
        pipes.closed(started).contains(end) != pipes.kept(started).contains(end),
        !started ==> pipes.closed(started).contains(end),
{
    if started {
        let closed = pipes.closed(started);
        let kept = pipes.kept(started);
        assert(closed[0] == pipes.stdin_read && closed[1] == pipes.stdout_write);
        assert(kept[0] == pipes.stdin_write && kept[1] == pipes.stdout_read);
    } else {
        let closed = pipes.closed(started);
        assert(closed[0] == pipes.stdin_read && closed[1] == pipes.stdout_write);
        assert(closed[2] == pipes.stdin_write && closed[3] == pipes.stdout_read);
    }
}

} // verus!
