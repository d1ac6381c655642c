//! Per-position quality accumulation shared by the per-position quality analyzers.
use vstd::prelude::*;
use crate::phred::{calculate_phred, is_quality_unit, quality_of, Ratio};
use crate::record::{FastqRecord, RecordView};

verus! {

/// Length of the longest quality string of `recs` (0 for none).
pub open spec fn max_qual_len(recs: Seq<RecordView>) -> nat
    decreases recs.len(),
{
    if recs.len() == 0 {
        0
    } else {
        let m = max_qual_len(recs.drop_last());
        let l = recs.last().qual.len();
        if l > m {
            l
        } else {
            m
        }
    }
}

/// Record `r` holds a decodable quality unit at position `i`.
pub open spec fn observes_quality(r: RecordView, i: int) -> bool {
    0 <= i < r.qual.len() && is_quality_unit(r.qual[i])
}

/// Number of records of `recs` with a decodable unit at position `i`.
pub open spec fn pos_quality_count(recs: Seq<RecordView>, i: int) -> nat
    decreases recs.len(),
{
    if recs.len() == 0 {
        0
    } else {
        pos_quality_count(recs.drop_last(), i) + if observes_quality(recs.last(), i) {
            1nat
        } else {
            0nat
        }
    }
}

/// Sum of the decodable qualities that the records of `recs` hold at position `i`.
pub open spec fn pos_quality_sum(recs: Seq<RecordView>, i: int) -> int
    decreases recs.len(),
{
    if recs.len() == 0 {
        0
    } else {
        pos_quality_sum(recs.drop_last(), i) + if observes_quality(recs.last(), i) {
            quality_of(recs.last().qual[i])
        } else {
            0
        }
    }
}

/// The accumulator of a per-position quality analyzer matches the records seen: one
/// slot per position up to the longest quality string, each with its sum and count.
pub open spec fn quality_slots_match(sums: Seq<u128>, amounts: Seq<u64>, recs: Seq<RecordView>) -> bool {
    &&& sums.len() == max_qual_len(recs)
    &&& amounts.len() == max_qual_len(recs)
    &&& forall|i: int| 0 <= i < sums.len() ==> #[trigger] sums[i] == pos_quality_sum(recs, i)
    &&& forall|i: int| 0 <= i < amounts.len() ==> #[trigger] amounts[i] == pos_quality_count(recs, i)
}

/// The finalized means of a per-position quality analyzer: one per slot, `None` for a
/// slot that no decodable unit reached.
pub open spec fn quality_means_match(means: Seq<Option<Ratio>>, recs: Seq<RecordView>) -> bool {
    &&& means.len() == max_qual_len(recs)
    &&& forall|i: int|
        0 <= i < means.len() ==> (#[trigger] means[i] is Some <==> pos_quality_count(recs, i) > 0)
    &&& forall|i: int|
        0 <= i < means.len() ==> (#[trigger] means[i] matches Some(m) ==> m.num == pos_quality_sum(
            recs,
            i,
        ) && m.den == pos_quality_count(recs, i))
}

/// No record reaches a position at or past the longest quality string.
pub proof fn lemma_past_longest(recs: Seq<RecordView>, i: int)
    requires
        i >= max_qual_len(recs),
    ensures
        pos_quality_count(recs, i) == 0,
        pos_quality_sum(recs, i) == 0,
    decreases recs.len(),
{
    if recs.len() > 0 {
        lemma_past_longest(recs.drop_last(), i);
    }
}

/// A slot counts at most one unit per record, each of quality at most 93.
pub proof fn lemma_slot_bounds(recs: Seq<RecordView>, i: int)
    ensures
        pos_quality_count(recs, i) <= recs.len(),
        0 <= pos_quality_sum(recs, i) <= 93 * pos_quality_count(recs, i),
    decreases recs.len(),
{
    if recs.len() > 0 {
        lemma_slot_bounds(recs.drop_last(), i);
    }
}

/// The mean of a slot depends only on the reads that reach it: appending reads that
/// are too short for slot `i`, however many, changes neither its sum nor its count.
pub proof fn lemma_short_reads_leave_slot(recs: Seq<RecordView>, more: Seq<RecordView>, i: int)
    requires
        0 <= i,
        forall|k: int| 0 <= k < more.len() ==> (#[trigger] more[k]).qual.len() <= i,
    ensures
        pos_quality_count(recs + more, i) == pos_quality_count(recs, i),
        pos_quality_sum(recs + more, i) == pos_quality_sum(recs, i),
    decreases more.len(),
{
    if more.len() > 0 {
        let shorter = more.drop_last();
        assert((recs + more).drop_last() == recs + shorter);
        assert((recs + more).last() == more.last());
        assert(more.last() == more[more.len() - 1]);
        lemma_short_reads_leave_slot(recs, shorter, i);
    } else {
        assert(recs + more == recs);
    }
}

/// The longest quality string bounds every quality string, and is one of them
/// unless it is 0.
pub proof fn lemma_max_qual_len(recs: Seq<RecordView>)
    ensures
        forall|k: int| 0 <= k < recs.len() ==> (#[trigger] recs[k]).qual.len() <= max_qual_len(recs),
        max_qual_len(recs) == 0 || exists|k: int|
            0 <= k < recs.len() && (#[trigger] recs[k]).qual.len() == max_qual_len(recs),
    decreases recs.len(),
{
    if recs.len() > 0 {
        let prev = recs.drop_last();
        lemma_max_qual_len(prev);
        assert forall|k: int| 0 <= k < prev.len() implies #[trigger] recs[k] == prev[k] by {}
        if max_qual_len(recs) != 0 && max_qual_len(recs) != recs.last().qual.len() {
            let k = choose|k: int| 0 <= k < prev.len() && (#[trigger] prev[k]).qual.len() == max_qual_len(prev);
            assert(recs[k] == prev[k]);
        }
    }
}

/// Grows the per-position sums and counts to at least `length` slots: slots already
/// there are kept, new ones start at sum 0 and count 0.
pub fn grow_quality_slots(sums: &mut Vec<u128>, amounts: &mut Vec<u64>, length: usize)
    requires
        old(sums)@.len() == old(amounts)@.len(),
    ensures
        final(sums)@.len() == final(amounts)@.len(),
        final(sums)@.len() == if length > old(sums)@.len() {
            length as nat
        } else {
            old(sums)@.len()
        },
        forall|i: int| 0 <= i < old(sums)@.len() ==> #[trigger] final(sums)@[i] == old(sums)@[i],
        forall|i: int| 0 <= i < old(amounts)@.len() ==> #[trigger] final(amounts)@[i] == old(amounts)@[i],
        forall|i: int| old(sums)@.len() <= i < final(sums)@.len() ==> #[trigger] final(sums)@[i] == 0,
        forall|i: int| old(amounts)@.len() <= i < final(amounts)@.len() ==> #[trigger] final(amounts)@[i] == 0,
{
    let ghost s0 = sums@;
    let ghost a0 = amounts@;
    while sums.len() < length
        invariant
            sums@.len() == amounts@.len(),
            s0.len() == a0.len(),
            s0.len() <= sums@.len(),
            sums@.len() <= if length > s0.len() {
                length as nat
            } else {
                s0.len()
            },
            forall|i: int| 0 <= i < s0.len() ==> #[trigger] sums@[i] == s0[i],
            forall|i: int| 0 <= i < a0.len() ==> #[trigger] amounts@[i] == a0[i],
            forall|i: int| s0.len() <= i < sums@.len() ==> #[trigger] sums@[i] == 0,
            forall|i: int| a0.len() <= i < amounts@.len() ==> #[trigger] amounts@[i] == 0,
        decreases length - sums@.len(),
    {
        sums.push(0);
        amounts.push(0);
    }
}

/// Adds the qualities of `record` to the per-position sums and counts.
pub fn add_qualities(
    sums: &mut Vec<u128>,
    amounts: &mut Vec<u64>,
    record: &FastqRecord,
    Ghost(recs): Ghost<Seq<RecordView>>,
)
    requires
        quality_slots_match(old(sums)@, old(amounts)@, recs),
        recs.len() < u64::MAX,
    ensures
        quality_slots_match(final(sums)@, final(amounts)@, recs.push(record@)),
{
    let ghost next = recs.push(record@);
    assert(next.drop_last() == recs);
    let ghost start = sums@.len();
    grow_quality_slots(sums, amounts, record.qual.len());
    assert forall|i: int| 0 <= i < sums@.len() implies #[trigger] sums@[i] == pos_quality_sum(
        recs,
        i,
    ) by {
        if i >= start {
            lemma_past_longest(recs, i);
        }
    }
    assert forall|i: int| 0 <= i < amounts@.len() implies #[trigger] amounts@[i]
        == pos_quality_count(recs, i) by {
        if i >= start {
            lemma_past_longest(recs, i);
        }
    }
    let n = record.qual.len();
    let mut i: usize = 0;
    while i < n
        invariant
            n == record.qual@.len(),
            i <= n,
            sums@.len() == amounts@.len() == max_qual_len(next),
            n <= sums@.len(),
            next.drop_last() == recs,
            next.last() == record@,
            next.len() == recs.len() + 1,
            recs.len() < u64::MAX,
            forall|j: int| 0 <= j < i ==> #[trigger] sums@[j] == pos_quality_sum(next, j),
            forall|j: int| 0 <= j < i ==> #[trigger] amounts@[j] == pos_quality_count(next, j),
            forall|j: int| i <= j < sums@.len() ==> #[trigger] sums@[j] == pos_quality_sum(recs, j),
            forall|j: int|
                i <= j < amounts@.len() ==> #[trigger] amounts@[j] == pos_quality_count(recs, j),
        decreases n - i,
    {
        proof {
            lemma_slot_bounds(recs, i as int);
        }
        match calculate_phred(record.qual[i]) {
            Ok(q) => {
                sums.set(i, sums[i] + q as u128);
                amounts.set(i, amounts[i] + 1);
            },
            Err(_) => {},
        }
        assert(sums@[i as int] == pos_quality_sum(next, i as int));
        assert(amounts@[i as int] == pos_quality_count(next, i as int));
        i = i + 1;
    }
    assert forall|j: int| n <= j < sums@.len() implies #[trigger] sums@[j] == pos_quality_sum(
        next,
        j,
    ) && amounts@[j] == pos_quality_count(next, j) by {
        assert(!observes_quality(record@, j));
    }
}

/// Turns per-position sums and counts into means.
pub fn quality_means(sums: &Vec<u128>, amounts: &Vec<u64>, Ghost(recs): Ghost<Seq<RecordView>>) -> (r: Vec<Option<Ratio>>)
    requires
        quality_slots_match(sums@, amounts@, recs),
    ensures
        quality_means_match(r@, recs),
{
    let mut r: Vec<Option<Ratio>> = Vec::new();
    let mut i: usize = 0;
    while i < sums.len()
        invariant
            quality_slots_match(sums@, amounts@, recs),
            i <= sums@.len(),
            r@.len() == i,
            forall|j: int| 0 <= j < i ==> (#[trigger] r@[j] is Some <==> pos_quality_count(recs, j) > 0),
            forall|j: int|
                0 <= j < i ==> (#[trigger] r@[j] matches Some(m) ==> m.num == pos_quality_sum(recs, j)
                    && m.den == pos_quality_count(recs, j)),
        decreases sums@.len() - i,
    {
        if amounts[i] == 0 {
            r.push(None);
        } else {
            r.push(Some(Ratio { num: sums[i], den: amounts[i] as u128 }));
        }
        i = i + 1;
    }
    r
}

/// Slot sums and counts add up over consecutive runs of records, and the longest
/// quality string of both runs is the longer of the two.
pub proof fn lemma_quality_concat(a: Seq<RecordView>, b: Seq<RecordView>, i: int)
    ensures
        pos_quality_sum(a + b, i) == pos_quality_sum(a, i) + pos_quality_sum(b, i),
        pos_quality_count(a + b, i) == pos_quality_count(a, i) + pos_quality_count(b, i),
        max_qual_len(a + b) == if max_qual_len(a) > max_qual_len(b) {
            max_qual_len(a)
        } else {
            max_qual_len(b)
        },
    decreases b.len(),
{
    if b.len() == 0 {
        assert(a + b == a);
    } else {
        assert((a + b).drop_last() == a + b.drop_last());
        assert((a + b).last() == b.last());
        lemma_quality_concat(a, b.drop_last(), i);
    }
}

/// Per-position quality accumulators merge in either order to the same result.
pub proof fn lemma_quality_merge_commutes(a: Seq<RecordView>, b: Seq<RecordView>, i: int)
    ensures
        max_qual_len(a + b) == max_qual_len(b + a),
        pos_quality_sum(a + b, i) == pos_quality_sum(b + a, i),
        pos_quality_count(a + b, i) == pos_quality_count(b + a, i),
{
    lemma_quality_concat(a, b, i);
    lemma_quality_concat(b, a, i);
}

/// Merges the accumulators of two runs of records, slot by slot: the result is the
/// accumulator of the first run followed by the second.
pub fn merge_quality_slots(
    sums_a: &Vec<u128>,
    amounts_a: &Vec<u64>,
    sums_b: &Vec<u128>,
    amounts_b: &Vec<u64>,
    Ghost(a): Ghost<Seq<RecordView>>,
    Ghost(b): Ghost<Seq<RecordView>>,
) -> (r: (Vec<u128>, Vec<u64>))
    requires
        quality_slots_match(sums_a@, amounts_a@, a),
        quality_slots_match(sums_b@, amounts_b@, b),
        a.len() + b.len() <= u64::MAX,
    ensures
        quality_slots_match(r.0@, r.1@, a + b),
{
    let len = if sums_a.len() > sums_b.len() {
        sums_a.len()
    } else {
        sums_b.len()
    };
    let mut sums: Vec<u128> = Vec::new();
    let mut amounts: Vec<u64> = Vec::new();
    let mut i: usize = 0;
    proof {
        lemma_quality_concat(a, b, 0);
    }
    while i < len
        invariant
            quality_slots_match(sums_a@, amounts_a@, a),
            quality_slots_match(sums_b@, amounts_b@, b),
            a.len() + b.len() <= u64::MAX,
            len == max_qual_len(a + b),
            len == if sums_a@.len() > sums_b@.len() {
                sums_a@.len()
            } else {
                sums_b@.len()
            },
            i <= len,
            sums@.len() == i,
            amounts@.len() == i,
            forall|j: int| 0 <= j < i ==> #[trigger] sums@[j] == pos_quality_sum(a + b, j),
            forall|j: int| 0 <= j < i ==> #[trigger] amounts@[j] == pos_quality_count(a + b, j),
        decreases len - i,
    {
        proof {
            lemma_quality_concat(a, b, i as int);
            lemma_slot_bounds(a + b, i as int);
            if i >= sums_a@.len() {
                lemma_past_longest(a, i as int);
            }
            if i >= sums_b@.len() {
                lemma_past_longest(b, i as int);
            }
        }
        let sa: u128 = if i < sums_a.len() { sums_a[i] } else { 0 };
        let ca: u64 = if i < amounts_a.len() { amounts_a[i] } else { 0 };
        let sb: u128 = if i < sums_b.len() { sums_b[i] } else { 0 };
        let cb: u64 = if i < amounts_b.len() { amounts_b[i] } else { 0 };
        sums.push(sa + sb);
        amounts.push(ca + cb);
        i = i + 1;
    }
    (sums, amounts)
}

} // verus!
