//! Mean quality per read, shared by the per-read quality analyzers.
use vstd::prelude::*;
use crate::phred::{decoded_count, decoded_sum, read_mean_quality, Ratio};
use crate::record::{FastqRecord, RecordView};

verus! {

/// Mean quality of the decodable units of each record, in arrival order; a record in
/// which no unit decodes adds no entry.
pub open spec fn read_means(recs: Seq<RecordView>) -> Seq<Ratio>
    decreases recs.len(),
{
    if recs.len() == 0 {
        Seq::empty()
    } else {
        let q = recs.last().qual;
        if decoded_count(q) > 0 {
            read_means(recs.drop_last()).push(
                Ratio { num: decoded_sum(q) as u128, den: decoded_count(q) as u128 },
            )
        } else {
            read_means(recs.drop_last())
        }
    }
}

/// Appends the mean quality of `record` to the per-read means, unless none of its
/// units decodes.
pub fn add_read_mean(means: &mut Vec<Ratio>, record: &FastqRecord, Ghost(recs): Ghost<Seq<RecordView>>)
    requires
        old(means)@ == read_means(recs),
    ensures
        final(means)@ == read_means(recs.push(record@)),
{
    let ghost next = recs.push(record@);
    assert(next.drop_last() == recs);
    match read_mean_quality(record.qual.as_slice()) {
        Some(m) => means.push(m),
        None => {},
    }
}

/// The per-read means of consecutive runs of records are those of the first run
/// followed by those of the second.
pub proof fn lemma_read_means_concat(a: Seq<RecordView>, b: Seq<RecordView>)
    ensures
        read_means(a + b) == read_means(a) + read_means(b),
    decreases b.len(),
{
    if b.len() == 0 {
        assert(a + b == a);
        assert(read_means(a) + read_means(b) == read_means(a));
    } else {
        assert((a + b).drop_last() == a + b.drop_last());
        assert((a + b).last() == b.last());
        lemma_read_means_concat(a, b.drop_last());
        let q = b.last().qual;
        if decoded_count(q) > 0 {
            let m = Ratio { num: decoded_sum(q) as u128, den: decoded_count(q) as u128 };
            assert(read_means(a) + read_means(b.drop_last()).push(m) == (read_means(a)
                + read_means(b.drop_last())).push(m));
        }
    }
}

/// Appends a copy of `tail` to `list`.
pub fn append_ratios(list: &mut Vec<Ratio>, tail: &Vec<Ratio>)
    ensures
        final(list)@ == old(list)@ + tail@,
{
    let ghost start = list@;
    let mut i: usize = 0;
    while i < tail.len()
        invariant
            i <= tail@.len(),
            list@ == start + tail@.subrange(0, i as int),
        decreases tail@.len() - i,
    {
        list.push(tail[i]);
        i = i + 1;
        assert(list@ == start + tail@.subrange(0, i as int));
    }
    assert(tail@.subrange(0, tail@.len() as int) == tail@);
}

/// Copies a list of fractions.
pub fn copy_ratios(means: &Vec<Ratio>) -> (r: Vec<Ratio>)
    ensures
        r@ == means@,
{
    let mut r: Vec<Ratio> = Vec::new();
    let mut i: usize = 0;
    while i < means.len()
        invariant
            i <= means@.len(),
            r@ == means@.subrange(0, i as int),
        decreases means@.len() - i,
    {
        r.push(means[i]);
        i = i + 1;
    }
    assert(means@.subrange(0, means@.len() as int) == means@);
    r
}

} // verus!
