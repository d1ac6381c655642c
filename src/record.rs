//! FASTQ records and the four-line record cycle.
use vstd::prelude::*;

verus! {

/// Line terminator of the input.
pub const NEWLINE: u8 = 10;

/// One sequence/quality pair read from the input.
#[derive(Debug, Default, Clone, PartialEq, Eq)]
pub struct FastqRecord {
    pub seq: Vec<u8>,
    pub qual: Vec<u8>,
}

/// The mathematical content of a record.
pub struct RecordView {
    pub seq: Seq<u8>,
    pub qual: Seq<u8>,
}

impl View for FastqRecord {
    type V = RecordView;

    open spec fn view(&self) -> RecordView {
        RecordView { seq: self.seq@, qual: self.qual@ }
    }
}

/// How a pass over the input came to an end.
#[derive(Debug, Clone, Copy, PartialEq, Eq, Structural)]
pub enum StreamEnd {
    /// The input ended on a record boundary: the normal end.
    EndOfInput,
    /// The input ended inside a record's four lines.
    TruncatedRecord,
}

/// A line without its terminating newline, if it has one.
pub open spec fn strip_line_end(line: Seq<u8>) -> Seq<u8> {
    if line.len() > 0 && line.last() == NEWLINE {
        line.drop_last()
    } else {
        line
    }
}

/// The lines of the input as byte sequences.
pub open spec fn lines_view(lines: Seq<Vec<u8>>) -> Seq<Seq<u8>> {
    lines.map_values(|l: Vec<u8>| l@)
}

/// The record whose four lines start at `start`: the second line is the sequence,
/// the fourth the quality string.
pub open spec fn record_at(lines: Seq<Seq<u8>>, start: int) -> RecordView {
    RecordView { seq: strip_line_end(lines[start + 1]), qual: strip_line_end(lines[start + 3]) }
}

/// The complete records of `lines`, in order; an incomplete last cycle gives none.
pub open spec fn records_of(lines: Seq<Seq<u8>>) -> Seq<RecordView> {
    Seq::new(lines.len() / 4, |k: int| record_at(lines, 4 * k))
}

/// How a stream made of `lines` ends: truncated when the last cycle is incomplete.
pub open spec fn stream_end_of(lines: Seq<Seq<u8>>) -> StreamEnd {
    if lines.len() % 4 == 0 {
        StreamEnd::EndOfInput
    } else {
        StreamEnd::TruncatedRecord
    }
}

/// Copies `line` without its terminating newline.
pub fn strip_newline(line: &Vec<u8>) -> (r: Vec<u8>)
    ensures
        r@ == strip_line_end(line@),
{
    let mut end = line.len();
    if end > 0 && line[end - 1] == NEWLINE {
        end = end - 1;
    }
    let mut r: Vec<u8> = Vec::new();
    let mut i: usize = 0;
    while i < end
        invariant
            end <= line@.len(),
            i <= end,
            r@ == line@.subrange(0, i as int),
        decreases end - i,
    {
        r.push(line[i]);
        i = i + 1;
        assert(r@ == line@.subrange(0, i as int));
    }
    assert(strip_line_end(line@) == line@.subrange(0, end as int));
    r
}

/// A record cut short contributes nothing: whole records followed by one to three more
/// lines end as a truncated stream and yield only the whole records.
pub proof fn lemma_partial_record_adds_nothing(full: Seq<Seq<u8>>, part: Seq<Seq<u8>>)
    requires
        full.len() % 4 == 0,
        0 < part.len() < 4,
    ensures
        stream_end_of(full + part) == StreamEnd::TruncatedRecord,
        records_of(full + part) == records_of(full),
{
    let all = full + part;
    assert(all.len() / 4 == full.len() / 4);
    assert forall|k: int| 0 <= k < full.len() / 4 implies #[trigger] records_of(all)[k]
        == records_of(full)[k] by {
        assert(all[4 * k + 1] == full[4 * k + 1]);
        assert(all[4 * k + 3] == full[4 * k + 3]);
    }
    assert(records_of(all) =~= records_of(full));
}

/// A stream cut after whole records into two parts yields the records of the first
/// part followed by those of the second, and ends as the second part ends: runners
/// over the parts, merged, see exactly what one runner over the whole stream sees.
pub proof fn lemma_split_stream(first: Seq<Seq<u8>>, rest: Seq<Seq<u8>>)
    requires
        first.len() % 4 == 0,
    ensures
        records_of(first + rest) == records_of(first) + records_of(rest),
        stream_end_of(first + rest) == stream_end_of(rest),
{
    let all = first + rest;
    let n = first.len() / 4;
    assert(all.len() / 4 == n + rest.len() / 4);
    assert forall|k: int| 0 <= k < all.len() / 4 implies #[trigger] records_of(all)[k] == (
    records_of(first) + records_of(rest))[k] by {
        if k < n {
            assert(all[4 * k + 1] == first[4 * k + 1]);
            assert(all[4 * k + 3] == first[4 * k + 3]);
        } else {
            let j = k - n;
            assert(all[4 * k + 1] == rest[4 * j + 1]);
            assert(all[4 * k + 3] == rest[4 * j + 3]);
        }
    }
    assert(records_of(all) =~= records_of(first) + records_of(rest));
}

/// A stream of exactly one whole record ends normally and yields that record.
pub proof fn lemma_single_record(lines: Seq<Seq<u8>>)
    requires
        lines.len() == 4,
    ensures
        stream_end_of(lines) == StreamEnd::EndOfInput,
        records_of(lines) == seq![record_at(lines, 0)],
{
    assert(records_of(lines) =~= seq![record_at(lines, 0)]);
}

} // verus!
