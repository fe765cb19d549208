//! Messages of the app server: one JSON document on each line.

use vstd::prelude::*;

verus! {

/// A line is at most this many bytes long.
pub const MAX_RPC_LINE_BYTES: usize = 1048576;

/// At most this many requests wait for an answer.
pub const MAX_PENDING_REQUESTS: usize = 64;

/// How many bytes stand before the first line feed.
pub open spec fn line_len(data: Seq<u8>) -> nat
    decreases data.len(),
{
    if data.len() == 0 || data[0] == 10 {
        0
    } else {
        1 + line_len(data.skip(1))
    }
}

/// The lines that end with a line feed, without it.
pub open spec fn ended_lines(data: Seq<u8>) -> Seq<Seq<u8>>
    decreases data.len(),
{
    let n = line_len(data) as int;
    if n >= data.len() {
        Seq::empty()
    } else {
        seq![data.take(n)] + ended_lines(data.skip(n + 1))
    }
}

/// What stands behind the last line feed.
pub open spec fn open_line(data: Seq<u8>) -> Seq<u8>
    decreases data.len(),
{
    let n = line_len(data) as int;
    if n >= data.len() {
        data
    } else {
        open_line(data.skip(n + 1))
    }
}

/// A line without a carriage return at its end.
pub open spec fn without_return(line: Seq<u8>) -> Seq<u8> {
    if line.len() > 0 && line.last() == 13 {
        line.drop_last()
    } else {
        line
    }
}

/// The messages on the lines, up to the first line that is too long; empty lines hold none.
pub open spec fn messages(lines: Seq<Seq<u8>>) -> Seq<Seq<u8>>
    decreases lines.len(),
{
    if lines.len() == 0 {
        Seq::empty()
    } else {
        let line = without_return(lines[0]);
        if line.len() > MAX_RPC_LINE_BYTES {
            Seq::empty()
        } else if line.len() == 0 {
            messages(lines.skip(1))
        } else {
            seq![line] + messages(lines.skip(1))
        }
    }
}

/// A line is too long.
pub open spec fn oversized(lines: Seq<Seq<u8>>) -> bool {
    exists|i: int|
        0 <= i < lines.len() && without_return(#[trigger] lines[i]).len() > MAX_RPC_LINE_BYTES
}

/// What the reader has of a line that has not ended.
#[derive(Debug)]
pub struct LineFramer {
    pub buffer: Vec<u8>,
}

/// What a chunk of output brought.
#[derive(Debug)]
pub struct Framed {
    pub messages: Vec<Vec<u8>>,
    /// The server breaks the protocol and is to be stopped.
    pub stop: bool,
}

/// The bytes of each message.
pub open spec fn bytes_of(messages: Seq<Vec<u8>>) -> Seq<Seq<u8>> {
    messages.map_values(|m: Vec<u8>| m@)
}

proof fn lemma_line_len(data: Seq<u8>)
    ensures
        line_len(data) <= data.len(),
        line_len(data) < data.len() ==> data[line_len(data) as int] == 10,
        forall|i: int| 0 <= i < line_len(data) ==> data[i] != 10,
    decreases data.len(),
{
    if data.len() > 0 && data[0] != 10 {
        let rest = data.skip(1);
        lemma_line_len(rest);
        assert forall|i: int| 0 <= i < line_len(data) implies data[i] != 10 by {
            if i > 0 {
                assert(rest[i - 1] == data[i]);
            }
        }
        if line_len(data) < data.len() {
            assert(rest[line_len(rest) as int] == data[line_len(data) as int]);
        }
    }
}

proof fn lemma_line_len_is(data: Seq<u8>, n: int)
    requires
        0 <= n < data.len(),
        data[n] == 10,
        forall|i: int| 0 <= i < n ==> data[i] != 10,
    ensures
        line_len(data) == n,
{
    lemma_line_len(data);
    if line_len(data) < n {
        assert(data[line_len(data) as int] == 10);
    }
}

proof fn lemma_no_line_feed(data: Seq<u8>)
    requires
        forall|i: int| 0 <= i < data.len() ==> data[i] != 10,
    ensures
        line_len(data) == data.len(),
{
    lemma_line_len(data);
}

proof fn lemma_messages_split(a: Seq<Seq<u8>>, b: Seq<Seq<u8>>)
    requires
        !oversized(a),
    ensures
        messages(a + b) == messages(a) + messages(b),
        oversized(a + b) == oversized(b),
    decreases a.len(),
{
    if a.len() == 0 {
        assert(a + b =~= b);
        assert(messages(a) + messages(b) =~= messages(b));
    } else {
        let rest = a.skip(1);
        assert(without_return(a[0]).len() <= MAX_RPC_LINE_BYTES);
        assert(!oversized(rest)) by {
            if oversized(rest) {
                let i = choose|i: int|
                    0 <= i < rest.len() && without_return(#[trigger] rest[i]).len()
                        > MAX_RPC_LINE_BYTES;
                assert(a[i + 1] == rest[i]);
            }
        }
        lemma_messages_split(rest, b);
        assert((a + b).skip(1) =~= rest + b);
        let line = without_return(a[0]);
        if line.len() > 0 {
            assert(seq![line] + (messages(rest) + messages(b)) =~= (seq![line] + messages(rest))
                + messages(b));
        }
        if oversized(b) {
            let i = choose|i: int|
                0 <= i < b.len() && without_return(#[trigger] b[i]).len() > MAX_RPC_LINE_BYTES;
            assert((a + b)[a.len() + i] == b[i]);
        }
        if oversized(a + b) {
            let i = choose|i: int|
                0 <= i < (a + b).len() && without_return(#[trigger] (a + b)[i]).len()
                    > MAX_RPC_LINE_BYTES;
            if i < a.len() {
                assert((a + b)[i] == a[i]);
            } else {
                assert((a + b)[i] == b[i - a.len()]);
            }
        }
    }
}

proof fn lemma_lines_split(a: Seq<u8>, b: Seq<u8>)
    ensures
        ended_lines(a + b) == ended_lines(a) + ended_lines(open_line(a) + b),
        open_line(a + b) == open_line(open_line(a) + b),
    decreases a.len(),
{
    lemma_line_len(a);
    let n = line_len(a) as int;
    if n >= a.len() {
        assert(ended_lines(a) + ended_lines(a + b) =~= ended_lines(a + b));
    } else {
        let whole = a + b;
        assert forall|i: int| 0 <= i < n implies whole[i] != 10 by {
            assert(whole[i] == a[i]);
        }
        lemma_line_len_is(whole, n);
        assert(whole.take(n) =~= a.take(n));
        assert(whole.skip(n + 1) =~= a.skip(n + 1) + b);
        lemma_lines_split(a.skip(n + 1), b);
        assert(seq![a.take(n)] + (ended_lines(a.skip(n + 1)) + ended_lines(
            open_line(a.skip(n + 1)) + b,
        )) =~= (seq![a.take(n)] + ended_lines(a.skip(n + 1))) + ended_lines(
            open_line(a.skip(n + 1)) + b,
        ));
    }
}

/// In which chunks the output arrives does not matter: two chunks bring the same messages as both
/// at once, and leave the same open line, where no line is too long.
pub proof fn chunks_do_not_matter(buffer: Seq<u8>, first: Seq<u8>, second: Seq<u8>)
    requires
        !oversized(ended_lines(buffer + first)),
    ensures
        messages(ended_lines(buffer + (first + second))) == messages(ended_lines(buffer + first))
            + messages(ended_lines(open_line(buffer + first) + second)),
        open_line(buffer + (first + second)) == open_line(open_line(buffer + first) + second),
        oversized(ended_lines(buffer + (first + second))) == oversized(
            ended_lines(open_line(buffer + first) + second),
        ),
{
    assert(buffer + (first + second) =~= (buffer + first) + second);
    lemma_lines_split(buffer + first, second);
    lemma_messages_split(
        ended_lines(buffer + first),
        ended_lines(open_line(buffer + first) + second),
    );
}

/// No line that is left open holds a line feed.
pub proof fn open_line_has_no_line_feed(data: Seq<u8>)
    ensures
        forall|i: int| 0 <= i < open_line(data).len() ==> open_line(data)[i] != 10,
    decreases data.len(),
{
    lemma_line_len(data);
    if line_len(data) < data.len() {
        open_line_has_no_line_feed(data.skip(line_len(data) as int + 1));
        assert(open_line(data) == open_line(data.skip(line_len(data) as int + 1)));
    } else {
        assert(open_line(data) == data);
    }
}

fn copy_bytes(data: &Vec<u8>, from: usize, to: usize) -> (r: Vec<u8>)
    requires
        from <= to <= data@.len(),
    ensures
        r@ == data@.subrange(from as int, to as int),
{
    let mut out: Vec<u8> = Vec::new();
    let mut i: usize = from;
    while i < to
        invariant
            from <= i <= to <= data@.len(),
            out@ == data@.subrange(from as int, i as int),
        decreases to - i,
    {
        out.push(data[i]);
        i += 1;
        assert(out@ =~= data@.subrange(from as int, i as int));
    }
    out
}

impl LineFramer {
    /// A reader that has read nothing.
    pub fn new() -> (r: Self)
        ensures
            r.buffer@.len() == 0,
    {
        LineFramer { buffer: Vec::new() }
    }

    /// Takes a chunk of output. A line that is too long, or an open line of more than twice that
    /// length, stops the server; the messages before it still count.
    pub fn feed(&mut self, chunk: &Vec<u8>) -> (r: Framed)
        ensures
            ({
                let data = old(self).buffer@ + chunk@;
                &&& bytes_of(r.messages@) == messages(ended_lines(data))
                &&& r.stop == (oversized(ended_lines(data)) || open_line(data).len() > 2
                    * MAX_RPC_LINE_BYTES)
                &&& !oversized(ended_lines(data)) ==> final(self).buffer@ == open_line(data)
            }),
    {
        let ghost data = self.buffer@ + chunk@;
        let mut all: Vec<u8> = Vec::new();
        std::mem::swap(&mut all, &mut self.buffer);
        let ghost held = all@;
        let mut k: usize = 0;
        while k < chunk.len()
            invariant
                k <= chunk@.len(),
                all@ == held + chunk@.take(k as int),
            decreases chunk@.len() - k,
        {
            all.push(chunk[k]);
            k += 1;
            assert(all@ =~= held + chunk@.take(k as int));
        }
        assert(chunk@.take(k as int) =~= chunk@);
        assert(all@ == data);
        let mut found: Vec<Vec<u8>> = Vec::new();
        let mut start: usize = 0;
        let mut i: usize = 0;
        assert(data.skip(0) =~= data);
        assert(bytes_of(found@) =~= Seq::<Seq<u8>>::empty());
        assert(bytes_of(found@) + messages(ended_lines(data.skip(0))) =~= messages(
            ended_lines(data),
        ));
        while i < all.len()
            invariant
                start <= i <= all@.len(),
                all@ == data,
                data == old(self).buffer@ + chunk@,
                bytes_of(found@) + messages(ended_lines(data.skip(start as int))) == messages(
                    ended_lines(data),
                ),
                open_line(data.skip(start as int)) == open_line(data),
                oversized(ended_lines(data)) == oversized(ended_lines(data.skip(start as int))),
                forall|j: int| start <= j < i ==> data[j] != 10,
            decreases all@.len() - i,
        {
            if all[i] == 10 {
                let ghost tail = data.skip(start as int);
                let ghost n = i - start;
                proof {
                    assert forall|j: int| 0 <= j < n implies tail[j] != 10 by {
                        assert(tail[j] == data[start + j]);
                    }
                    lemma_line_len_is(tail, n);
                    assert(tail.skip(n + 1) =~= data.skip(i + 1));
                    assert(tail.take(n) =~= data.subrange(start as int, i as int));
                }
                let mut end: usize = i;
                if end > start && all[end - 1] == 13 {
                    end -= 1;
                }
                let ghost line = without_return(tail.take(n));
                let ghost lines = ended_lines(tail);
                assert(line =~= data.subrange(start as int, end as int));
                assert(lines[0] == tail.take(n));
                assert(lines.skip(1) =~= ended_lines(data.skip(i + 1)));
                if end - start > MAX_RPC_LINE_BYTES {
                    assert(without_return(lines[0]).len() > MAX_RPC_LINE_BYTES);
                    assert(oversized(lines));
                    assert(messages(lines) == Seq::<Seq<u8>>::empty());
                    assert(bytes_of(found@) + Seq::<Seq<u8>>::empty() =~= bytes_of(found@));
                    return Framed { messages: found, stop: true };
                }
                proof {
                    let rest = ended_lines(data.skip(i + 1));
                    if oversized(lines) {
                        let a = choose|a: int|
                            0 <= a < lines.len() && without_return(#[trigger] lines[a]).len()
                                > MAX_RPC_LINE_BYTES;
                        assert(a > 0);
                        assert(rest[a - 1] == lines[a]);
                    }
                    if oversized(rest) {
                        let a = choose|a: int|
                            0 <= a < rest.len() && without_return(#[trigger] rest[a]).len()
                                > MAX_RPC_LINE_BYTES;
                        assert(lines[a + 1] == rest[a]);
                    }
                }
                if end > start {
                    let message = copy_bytes(&all, start, end);
                    let ghost before = bytes_of(found@);
                    found.push(message);
                    assert(bytes_of(found@) =~= before.push(line));
                    assert(before.push(line) + messages(ended_lines(data.skip(i + 1))) =~= before + (
                    seq![line] + messages(ended_lines(data.skip(i + 1)))));
                }
                start = i + 1;
            }
            i += 1;
        }
        proof {
            let tail = data.skip(start as int);
            assert forall|j: int| 0 <= j < tail.len() implies tail[j] != 10 by {
                assert(tail[j] == data[start + j]);
            }
            lemma_no_line_feed(tail);
            assert(ended_lines(tail).len() == 0);
            assert(bytes_of(found@) + messages(ended_lines(tail)) =~= bytes_of(found@));
            assert(data.subrange(start as int, data.len() as int) =~= tail);
        }
        let total: usize = all.len();
        self.buffer = copy_bytes(&all, start, total);
        Framed { messages: found, stop: total - start > 2 * MAX_RPC_LINE_BYTES }
    }
}

/// A message is never empty and never longer than a line may be.
pub proof fn messages_are_bounded(lines: Seq<Seq<u8>>)
    ensures
        forall|i: int|
            0 <= i < messages(lines).len() ==> 0 < (#[trigger] messages(lines)[i]).len()
                <= MAX_RPC_LINE_BYTES,
    decreases lines.len(),
{
    if lines.len() > 0 {
        messages_are_bounded(lines.skip(1));
        let line = without_return(lines[0]);
        if line.len() == 0 {
            assert(messages(lines) == messages(lines.skip(1)));
        } else if line.len() <= MAX_RPC_LINE_BYTES {
            assert(messages(lines) == seq![line] + messages(lines.skip(1)));
            assert forall|i: int| 0 <= i < messages(lines).len() implies 0 < (
            #[trigger] messages(lines)[i]).len() <= MAX_RPC_LINE_BYTES by {
                if i > 0 {
                    assert(messages(lines)[i] == messages(lines.skip(1))[i - 1]);
                }
            }
        }
    }
}

} // verus!
