//! Records: a byte stream cut at line feeds.

use vstd::prelude::*;

verus! {

/// The line feed that ends a record.
pub const LINE_FEED: u8 = 10;

/// The carriage return that may stand before the line feed.
pub const CARRIAGE_RETURN: u8 = 13;

/// What a stream starts with.
pub enum Taken {
    /// A record; what follows its line feed is left in the stream.
    Record(Vec<u8>),
    /// The start of a record that has not ended yet.
    Partial,
    /// A record of more bytes than the limit.
    TooLong,
}

/// The place of the first line feed, the length where there is none.
pub open spec fn line_end(stream: Seq<u8>) -> int
    decreases stream.len(),
{
    if stream.len() == 0 {
        0
    } else if stream.first() == LINE_FEED {
        0
    } else {
        1 + line_end(stream.drop_first())
    }
}

/// A line without the carriage return that it may end in.
pub open spec fn without_return(line: Seq<u8>) -> Seq<u8> {
    if line.len() > 0 && line.last() == CARRIAGE_RETURN {
        line.drop_last()
    } else {
        line
    }
}

/// How a stream ends once its records are taken from it.
pub enum Rest {
    /// Bytes of a record that has not ended, as many as the limit at most.
    Partial(Seq<u8>),
    /// A record of more bytes than the limit.
    TooLong,
}

/// A stream cut into its records, none longer than `limit`, and what is left.
pub struct Framed {
    pub records: Seq<Seq<u8>>,
    pub rest: Rest,
}

impl Framed {
    /// The same with a record before the others.
    pub open spec fn after(self, record: Seq<u8>) -> Framed {
        Framed { records: seq![record] + self.records, rest: self.rest }
    }

    /// The same with records before the others.
    pub open spec fn after_all(self, records: Seq<Seq<u8>>) -> Framed {
        Framed { records: records + self.records, rest: self.rest }
    }
}

/// The records of a stream: each ends at a line feed, which does not belong to it, and neither
/// does a carriage return before that. A record may have `limit` bytes before its line feed.
pub open spec fn framed(stream: Seq<u8>, limit: int) -> Framed
    decreases stream.len(),
    via framed_decreases
{
    let end = line_end(stream);
    if end > limit {
        Framed { records: Seq::empty(), rest: Rest::TooLong }
    } else if end == stream.len() {
        Framed { records: Seq::empty(), rest: Rest::Partial(stream) }
    } else {
        framed(stream.skip(end + 1), limit).after(without_return(stream.take(end)))
    }
}

#[via_fn]
proof fn framed_decreases(stream: Seq<u8>, limit: int) {
    lemma_line_end(stream);
}

/// The first line feed is the first.
pub proof fn lemma_line_end(stream: Seq<u8>)
    ensures
        0 <= line_end(stream) <= stream.len(),
        forall|i: int| 0 <= i < line_end(stream) ==> #[trigger] stream[i] != LINE_FEED,
        line_end(stream) < stream.len() ==> stream[line_end(stream)] == LINE_FEED,
    decreases stream.len(),
{
    if stream.len() > 0 && stream.first() != LINE_FEED {
        lemma_line_end(stream.drop_first());
        assert forall|i: int| 0 <= i < line_end(stream) implies #[trigger] stream[i]
            != LINE_FEED by {
            if i > 0 {
                assert(stream.drop_first()[i - 1] == stream[i]);
            }
        }
    }
}

/// A place before which there is no line feed, and at which there is one or the stream ends, is
/// that of the first.
proof fn lemma_line_end_is(stream: Seq<u8>, end: int)
    requires
        0 <= end <= stream.len(),
        forall|i: int| 0 <= i < end ==> #[trigger] stream[i] != LINE_FEED,
        end < stream.len() ==> stream[end] == LINE_FEED,
    ensures
        line_end(stream) == end,
{
    lemma_line_end(stream);
    let found = line_end(stream);
    if found < end {
        assert(stream[found] != LINE_FEED);
    } else if end < found {
        assert(stream[end] != LINE_FEED);
    }
}

/// Takes the first record from the stream.
pub fn take_record(stream: &mut Vec<u8>, limit: usize) -> (r: Taken)
    ensures
        match r {
            Taken::Record(record) => {
                let end = line_end(old(stream)@);
                &&& end <= limit
                &&& end < old(stream)@.len()
                &&& record@ == without_return(old(stream)@.take(end))
                &&& final(stream)@ == old(stream)@.skip(end + 1)
            },
            Taken::Partial => {
                &&& line_end(old(stream)@) == old(stream)@.len()
                &&& old(stream)@.len() <= limit
                &&& final(stream)@ == old(stream)@
            },
            Taken::TooLong => {
                &&& line_end(old(stream)@) > limit
                &&& final(stream)@ == old(stream)@
            },
        },
{
    let mut end: usize = 0;
    while end < stream.len() && stream[end] != LINE_FEED
        invariant
            end <= stream.len(),
            stream@ == old(stream)@,
            forall|i: int| 0 <= i < end ==> #[trigger] stream@[i] != LINE_FEED,
        decreases stream.len() - end,
    {
        end = end + 1;
    }
    proof {
        lemma_line_end_is(stream@, end as int);
    }
    if end > limit {
        return Taken::TooLong;
    }
    if end == stream.len() {
        return Taken::Partial;
    }
    let mut line: Vec<u8> = stream.split_off(end + 1);
    std::mem::swap(&mut line, stream);
    let ghost whole = line@;
    line.pop();
    assert(line@ =~= old(stream)@.take(end as int));
    assert(stream@ =~= old(stream)@.skip(end + 1));
    let ghost body = line@;
    if line.len() > 0 && line[line.len() - 1] == CARRIAGE_RETURN {
        line.pop();
        assert(line@ =~= body.drop_last());
    }
    Taken::Record(line)
}

/// Where the bytes of a stream come in parts, the records are the same: those of the first part,
/// then those of its rest with the second part behind it.
pub proof fn framing_ignores_chunks(a: Seq<u8>, b: Seq<u8>, limit: int)
    ensures
        match framed(a, limit).rest {
            Rest::Partial(rest) => framed(a + b, limit) == framed(rest + b, limit).after_all(
                framed(a, limit).records,
            ),
            Rest::TooLong => framed(a + b, limit) == framed(a, limit),
        },
    decreases a.len(),
{
    lemma_line_end(a);
    let end = line_end(a);
    let whole = framed(a + b, limit);
    if end == a.len() && end <= limit {
        assert(whole.after_all(Seq::empty()).records =~= whole.records);
    } else if end < a.len() {
        assert forall|i: int| 0 <= i < end implies #[trigger] (a + b)[i] != LINE_FEED by {
            assert((a + b)[i] == a[i]);
        }
        lemma_line_end_is(a + b, end);
        if end <= limit {
            let next = a.skip(end + 1);
            framing_ignores_chunks(next, b, limit);
            assert((a + b).skip(end + 1) =~= next + b);
            assert((a + b).take(end) =~= a.take(end));
            if let Rest::Partial(rest) = framed(next, limit).rest {
                assert(whole.records =~= framed(rest + b, limit).after_all(
                    framed(a, limit).records,
                ).records);
            }
        }
    } else {
        lemma_line_end(a + b);
        assert forall|i: int| 0 <= i < end implies #[trigger] (a + b)[i] != LINE_FEED by {
            assert((a + b)[i] == a[i]);
        }
        assert(line_end(a + b) >= end);
    }
}

/// Records one after the other, each with a line feed behind it.
pub open spec fn written(records: Seq<Seq<u8>>) -> Seq<u8>
    decreases records.len(),
{
    if records.len() == 0 {
        Seq::empty()
    } else {
        records.first() + seq![LINE_FEED] + written(records.drop_first())
    }
}

/// Whether a record can be written as a line: it holds no line feed, does not end in a carriage
/// return and has no more bytes than the limit.
pub open spec fn is_line(record: Seq<u8>, limit: int) -> bool {
    &&& record.len() <= limit
    &&& forall|i: int| 0 <= i < record.len() ==> #[trigger] record[i] != LINE_FEED
    &&& record.len() > 0 ==> record.last() != CARRIAGE_RETURN
}

/// What is written as lines is read back, record by record, with nothing left over.
pub proof fn written_records_read_back(records: Seq<Seq<u8>>, limit: int)
    requires
        limit >= 0,
        forall|i: int| 0 <= i < records.len() ==> is_line(#[trigger] records[i], limit),
    ensures
        framed(written(records), limit) == (Framed {
            records: records,
            rest: Rest::Partial(Seq::empty()),
        }),
    decreases records.len(),
{
    if records.len() == 0 {
        assert(framed(written(records), limit).records =~= records);
    } else {
        let first = records.first();
        let others = records.drop_first();
        let stream = written(records);
        assert(is_line(records[0], limit));
        assert forall|i: int| 0 <= i < others.len() implies is_line(#[trigger] others[i], limit) by {
            assert(others[i] == records[i + 1]);
        }
        written_records_read_back(others, limit);
        assert forall|i: int| 0 <= i < first.len() implies #[trigger] stream[i] != LINE_FEED by {
            assert(stream[i] == first[i]);
        }
        lemma_line_end_is(stream, first.len() as int);
        assert(stream.take(first.len() as int) =~= first);
        assert(stream.skip(first.len() as int + 1) =~= written(others));
        assert(framed(stream, limit).records =~= records);
    }
}

} // verus!
