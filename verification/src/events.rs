//! Reading a server-sent event stream: blocks of `data:` lines ended by a
//! blank line, whose joined data is one JSON value.
use vstd::prelude::*;
use vstd::string::*;
use crate::text::{push_char, push_str};

verus! {

/// The text `String::from_utf8_lossy` makes of `bytes`: the bytes decoded as
/// UTF-8, each invalid sequence replaced by U+FFFD.
pub uninterp spec fn utf8_lossy(bytes: Seq<u8>) -> Seq<char>;

/// Calls `String::from_utf8_lossy`. Its result is named by `utf8_lossy`, a
/// function of the bytes alone. Bytes that are all ASCII are valid UTF-8
/// and decode one character per byte, which is stated; for other bytes
/// nothing more is claimed.
#[verifier::external_body]
fn decode_lossy(bytes: &[u8]) -> (text: String)
    ensures
        text@ == utf8_lossy(bytes@),
        (forall|i: int| 0 <= i < bytes@.len() ==> bytes@[i] < 128) ==> text@ == bytes@.map_values(
            |b: u8| b as char,
        ),
{
    String::from_utf8_lossy(bytes).into_owned()
}

/// The lines of `block`: the runs of bytes between line feeds (a block
/// without a line feed is one line; one ending in a line feed ends with an
/// empty line).
pub open spec fn split_lines(block: Seq<u8>) -> Seq<Seq<u8>>
    decreases block.len(),
{
    if block.len() == 0 {
        seq![Seq::empty()]
    } else {
        let front = split_lines(block.drop_last());
        if block.last() == 10u8 {
            front.push(Seq::empty())
        } else {
            front.update(front.len() - 1, front.last().push(block.last()))
        }
    }
}

/// The bytes of `data:`.
pub open spec fn data_field() -> Seq<u8> {
    seq![100u8, 97u8, 116u8, 97u8, 58u8]
}

/// The payload of a `data:` line: what follows `data:`, less one leading
/// space if there is one. Other lines have none.
pub open spec fn data_payload(line: Seq<u8>) -> Option<Seq<u8>> {
    if line.len() >= 5 && line.take(5) == data_field() {
        let rest = line.skip(5);
        Some(if rest.len() > 0 && rest[0] == 32u8 { rest.skip(1) } else { rest })
    } else {
        None
    }
}

/// The data of `lines`: the decoded payloads of its `data:` lines in order,
/// each after the first written on a new line once the data so far is not
/// empty.
pub open spec fn join_data(lines: Seq<Seq<u8>>) -> Seq<char>
    decreases lines.len(),
{
    if lines.len() == 0 {
        Seq::empty()
    } else {
        let before = join_data(lines.drop_last());
        match data_payload(lines.last()) {
            Some(p) => (if before.len() > 0 { before.push('\n') } else { before }) + utf8_lossy(p),
            None => before,
        }
    }
}

/// The first index from `i` on where two line feeds follow each other (the
/// end of an event block), if any.
pub open spec fn blank_line_from(buf: Seq<u8>, i: int) -> Option<int>
    decreases buf.len() - i,
{
    if i < 0 || i + 1 >= buf.len() {
        None
    } else if buf[i] == 10u8 && buf[i + 1] == 10u8 {
        Some(i)
    } else {
        blank_line_from(buf, i + 1)
    }
}

/// A blank line found from `i` on starts at `i` or later and ends within the buffer.
pub proof fn lemma_blank_line_in_range(buf: Seq<u8>, i: int)
    ensures
        blank_line_from(buf, i) matches Some(p) ==> i <= p && p + 2 <= buf.len(),
    decreases buf.len() - i,
{
    if !(i < 0 || i + 1 >= buf.len()) && !(buf[i] == 10u8 && buf[i + 1] == 10u8) {
        lemma_blank_line_in_range(buf, i + 1);
    }
}

/// The data of the first complete block of `buf` that has any, and what is
/// left of `buf` after that block; complete blocks without data before it
/// are dropped. Where no complete block has data, there is none, and only
/// the bytes after the last complete block are left.
pub open spec fn take_data(buf: Seq<u8>) -> (Option<Seq<char>>, Seq<u8>)
    decreases buf.len(),
{
    match blank_line_from(buf, 0) {
        None => (None, buf),
        Some(p) => {
            proof {
                lemma_blank_line_in_range(buf, 0);
            }
            let data = join_data(split_lines(buf.take(p)));
            let rest = buf.skip(p + 2);
            if data.len() > 0 {
                (Some(data), rest)
            } else {
                take_data(rest)
            }
        },
    }
}

proof fn lemma_split_lines_nonempty(block: Seq<u8>)
    ensures
        split_lines(block).len() >= 1,
    decreases block.len(),
{
    if block.len() > 0 {
        lemma_split_lines_nonempty(block.drop_last());
    }
}

/// Appends the payload of `line`, if it is a `data:` line, to `data`.
fn append_data_line(data: &mut String, line: &Vec<u8>)
    ensures
        final(data)@ == match data_payload(line@) {
            Some(p) => (if old(data)@.len() > 0 { old(data)@.push('\n') } else { old(data)@ }) + utf8_lossy(p),
            None => old(data)@,
        },
{
    let n = line.len();
    if !(n >= 5 && line[0] == 100u8 && line[1] == 97u8 && line[2] == 116u8 && line[3] == 97u8 && line[4] == 58u8) {
        proof {
            if line@.len() >= 5 {
                assert(line@.take(5)[0] == line@[0]);
                assert(line@.take(5)[1] == line@[1]);
                assert(line@.take(5)[2] == line@[2]);
                assert(line@.take(5)[3] == line@[3]);
                assert(line@.take(5)[4] == line@[4]);
            }
        }
        return;
    }
    assert(line@.take(5) =~= data_field());
    let start: usize = if n > 5 && line[5] == 32u8 { 6 } else { 5 };
    let mut payload: Vec<u8> = Vec::new();
    let mut i = start;
    while i < n
        invariant
            n == line.len(),
            start <= i <= n,
            payload@ == line@.subrange(start as int, i as int),
        decreases n - i,
    {
        payload.push(line[i]);
        assert(line@.subrange(start as int, i + 1) =~= line@.subrange(start as int, i as int).push(line@[i as int]));
        i = i + 1;
    }
    proof {
        let rest = line@.skip(5);
        if rest.len() > 0 && rest[0] == 32u8 {
            assert(payload@ =~= rest.skip(1));
        } else {
            assert(payload@ =~= rest);
        }
    }
    if !data.as_str().is_empty() {
        push_char(data, '\n');
    }
    let text = decode_lossy(payload.as_slice());
    push_str(data, text.as_str());
}

/// The data of the block `buf[..end]`.
fn block_data(buf: &Vec<u8>, end: usize) -> (data: String)
    requires
        end <= buf.len(),
    ensures
        data@ == join_data(split_lines(buf@.take(end as int))),
{
    let mut data = String::new();
    let mut line: Vec<u8> = Vec::new();
    let mut i: usize = 0;
    proof {
        assert(buf@.take(0) =~= Seq::<u8>::empty());
        assert(split_lines(buf@.take(0)).drop_last() =~= Seq::<Seq<u8>>::empty());
    }
    while i < end
        invariant
            end <= buf.len(),
            i <= end,
            split_lines(buf@.take(i as int)).len() >= 1,
            data@ == join_data(split_lines(buf@.take(i as int)).drop_last()),
            line@ == split_lines(buf@.take(i as int)).last(),
        decreases end - i,
    {
        let c = buf[i];
        let ghost lines = split_lines(buf@.take(i as int));
        proof {
            assert(buf@.take(i + 1).drop_last() =~= buf@.take(i as int));
            assert(buf@.take(i + 1).last() == c);
        }
        if c == 10u8 {
            append_data_line(&mut data, &line);
            line = Vec::new();
            proof {
                assert(split_lines(buf@.take(i + 1)) == lines.push(Seq::empty()));
                assert(lines.push(Seq::<u8>::empty()).drop_last() =~= lines);
                assert(lines.drop_last() =~= lines.drop_last());
                assert(line@ =~= Seq::<u8>::empty());
            }
        } else {
            line.push(c);
            proof {
                let next = lines.update(lines.len() - 1, lines.last().push(c));
                assert(split_lines(buf@.take(i + 1)) == next);
                assert(next.drop_last() =~= lines.drop_last());
            }
        }
        i = i + 1;
    }
    append_data_line(&mut data, &line);
    proof {
        let lines = split_lines(buf@.take(end as int));
        assert(lines.drop_last().push(lines.last()) =~= lines);
    }
    data
}

/// The index where the first blank line of `buf` starts, if any.
fn find_blank_line(buf: &Vec<u8>) -> (p: Option<usize>)
    ensures
        match p {
            Some(q) => blank_line_from(buf@, 0) == Some(q as int),
            None => blank_line_from(buf@, 0) is None,
        },
{
    let n = buf.len();
    let mut i: usize = 0;
    while i < n && i + 1 < n
        invariant
            n == buf.len(),
            i <= n,
            blank_line_from(buf@, 0) == blank_line_from(buf@, i as int),
        decreases n - i,
    {
        if buf[i] == 10u8 && buf[i + 1] == 10u8 {
            return Some(i);
        }
        i = i + 1;
    }
    None
}

/// The bytes of `buf` from `start` on.
fn tail(buf: &Vec<u8>, start: usize) -> (rest: Vec<u8>)
    requires
        start <= buf.len(),
    ensures
        rest@ == buf@.skip(start as int),
{
    let mut rest: Vec<u8> = Vec::new();
    let mut i = start;
    while i < buf.len()
        invariant
            start <= i <= buf.len(),
            rest@ == buf@.subrange(start as int, i as int),
        decreases buf.len() - i,
    {
        rest.push(buf[i]);
        assert(buf@.subrange(start as int, i + 1) =~= buf@.subrange(start as int, i as int).push(buf@[i as int]));
        i = i + 1;
    }
    rest
}

/// Takes the first event with data off the front of `buf`: complete blocks
/// (ended by a blank line) are removed one by one until one has data,
/// whose data is returned. Where none has, nothing is returned and only the
/// bytes after the last complete block stay in `buf`.
pub fn take_event_data(buf: &mut Vec<u8>) -> (data: Option<String>)
    ensures
        take_data(old(buf)@) == (match data {
            Some(d) => Some(d@),
            None => None,
        }, final(buf)@),
{
    loop
        invariant
            take_data(buf@) == take_data(old(buf)@),
        decreases buf.len(),
    {
        match find_blank_line(buf) {
            None => {
                return None;
            },
            Some(p) => {
                proof {
                    lemma_blank_line_in_range(buf@, 0);
                }
                let data = block_data(buf, p);
                let rest = tail(buf, p + 2);
                *buf = rest;
                if !data.as_str().is_empty() {
                    return Some(data);
                }
            },
        }
    }
}

proof fn lemma_blank_line_prefix(a: Seq<u8>, b: Seq<u8>, i: int)
    requires
        0 <= i,
        blank_line_from(a, i) is Some,
    ensures
        blank_line_from(a + b, i) == blank_line_from(a, i),
    decreases a.len() - i,
{
    lemma_blank_line_in_range(a, i);
    assert((a + b)[i] == a[i]);
    assert((a + b)[i + 1] == a[i + 1]);
    if !(a[i] == 10u8 && a[i + 1] == 10u8) {
        lemma_blank_line_prefix(a, b, i + 1);
    }
}

/// Bytes that arrive later never change an event that is already complete:
/// when `a` holds a complete block with data, taking the next event from
/// `a` followed by more bytes `b` gives the same data, and leaves what `a`
/// left followed by `b`.
pub proof fn lemma_later_bytes_keep_a_complete_event(a: Seq<u8>, b: Seq<u8>)
    requires
        take_data(a).0 is Some,
    ensures
        take_data(a + b) == (take_data(a).0, take_data(a).1 + b),
    decreases a.len(),
{
    let p = blank_line_from(a, 0)->0;
    lemma_blank_line_in_range(a, 0);
    lemma_blank_line_prefix(a, b, 0);
    assert((a + b).take(p) =~= a.take(p));
    assert((a + b).skip(p + 2) =~= a.skip(p + 2) + b);
    if join_data(split_lines(a.take(p))).len() == 0 {
        lemma_later_bytes_keep_a_complete_event(a.skip(p + 2), b);
    }
}

/// Appends a chunk of the stream to the buffer, dropping carriage returns so
/// that lines end in a bare line feed.
pub fn append_chunk(buf: &mut Vec<u8>, chunk: &[u8])
    ensures
        final(buf)@ == old(buf)@ + chunk@.filter(|b: u8| b != 13u8),
{
    let ghost keep = |b: u8| b != 13u8;
    let n = chunk.len();
    let mut i: usize = 0;
    while i < n
        invariant
            n == chunk@.len(),
            i <= n,
            keep == (|b: u8| b != 13u8),
            buf@ == old(buf)@ + chunk@.take(i as int).filter(keep),
        decreases n - i,
    {
        let b = chunk[i];
        proof {
            assert(chunk@.take(i + 1) =~= chunk@.take(i as int).push(b));
            chunk@.take(i as int).lemma_filter_push(b, keep);
        }
        if b != 13u8 {
            buf.push(b);
        }
        assert(buf@ =~= old(buf)@ + chunk@.take(i + 1).filter(keep));
        i = i + 1;
    }
    assert(chunk@.take(n as int) =~= chunk@);
}

/// A JSON value, as `serde_json` parses it; opaque here.
#[verifier::external_type_specification]
#[verifier::external_body]
pub struct ExJsonValue(serde_json::Value);

/// Whether `text` is one JSON value, as `serde_json::from_str` reads it.
pub uninterp spec fn json_parses(text: Seq<char>) -> bool;

/// The JSON value `serde_json::from_str` reads from `text`, where it reads one.
pub uninterp spec fn json_value(text: Seq<char>) -> serde_json::Value;

/// Calls `serde_json::from_str` for a `serde_json::Value`. Whether it
/// succeeds, and the value it reads, depend on the text alone and are named
/// by `json_parses` and `json_value`; what the value holds is opaque to the
/// library.
#[verifier::external_body]
fn parse_json(text: &str) -> (value: Option<serde_json::Value>)
    ensures
        value is Some == json_parses(text@),
        value is Some ==> value->0 == json_value(text@),
{
    serde_json::from_str(text).ok()
}

/// Takes the next event off the front of `buf` as `take_event_data` does
/// and reads its data as a JSON value: the value `serde_json` reads from the
/// data; data that is not JSON gives none.
pub fn take_buffered_event(buf: &mut Vec<u8>) -> (event: Option<serde_json::Value>)
    ensures
        final(buf)@ == take_data(old(buf)@).1,
        event is Some == (take_data(old(buf)@).0 matches Some(d) && json_parses(d)),
        event is Some ==> event->0 == json_value(take_data(old(buf)@).0->0),
{
    match take_event_data(buf) {
        Some(data) => parse_json(data.as_str()),
        None => None,
    }
}

} // verus!
