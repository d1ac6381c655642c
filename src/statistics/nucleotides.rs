//! Nucleotide tallies, alone and per read position.
use vstd::prelude::*;
use crate::phred::Ratio;
use crate::record::{FastqRecord, RecordView};

verus! {

/// Classes of bases, in tally order: A, C, G, T, and any other byte.
pub open spec fn base_class(b: u8) -> int {
    if b == 65 {
        0
    } else if b == 67 {
        1
    } else if b == 71 {
        2
    } else if b == 84 {
        3
    } else {
        4
    }
}

/// Counters of the bases A, C, G, T and of every other byte (N).
#[derive(Debug, Clone, Copy, PartialEq, Eq, Structural)]
pub struct CountNucleotides {
    pub a: u64,
    pub c: u64,
    pub g: u64,
    pub t: u64,
    pub n: u64,
}

impl CountNucleotides {
    /// The counter of class `k` (see `base_class`).
    pub open spec fn count_of(&self, k: int) -> int {
        if k == 0 {
            self.a as int
        } else if k == 1 {
            self.c as int
        } else if k == 2 {
            self.g as int
        } else if k == 3 {
            self.t as int
        } else {
            self.n as int
        }
    }

    /// Number of bases counted.
    pub open spec fn total(&self) -> int {
        self.a + self.c + self.g + self.t + self.n
    }

    /// All counters at zero.
    pub fn new() -> (r: Self)
        ensures
            r.a == 0 && r.c == 0 && r.g == 0 && r.t == 0 && r.n == 0,
    {
        CountNucleotides { a: 0, c: 0, g: 0, t: 0, n: 0 }
    }

    /// Counts one base: A, C, G or T in its own counter, any other byte as N.
    pub fn add_base(&mut self, base: u8)
        requires
            old(self).total() < u64::MAX,
        ensures
            forall|k: int|
                #![trigger final(self).count_of(k)]
                0 <= k < 5 ==> final(self).count_of(k) == old(self).count_of(k) + if k
                    == base_class(base) {
                    1int
                } else {
                    0int
                },
            final(self).total() == old(self).total() + 1,
    {
        if base == 65 {
            self.a = self.a + 1;
        } else if base == 67 {
            self.c = self.c + 1;
        } else if base == 71 {
            self.g = self.g + 1;
        } else if base == 84 {
            self.t = self.t + 1;
        } else {
            self.n = self.n + 1;
        }
    }

    /// Share of each counter in the total, in the order A, C, G, T, N; all zero
    /// (`0/1`) when nothing was counted.
    pub fn get_percentage(&self) -> (r: (Ratio, Ratio, Ratio, Ratio, Ratio))
        ensures
            self.total() == 0 ==> r == (
                Ratio { num: 0, den: 1 },
                Ratio { num: 0, den: 1 },
                Ratio { num: 0, den: 1 },
                Ratio { num: 0, den: 1 },
                Ratio { num: 0, den: 1 },
            ),
            self.total() > 0 ==> {
                &&& r.0 == Ratio { num: self.a as u128, den: self.total() as u128 }
                &&& r.1 == Ratio { num: self.c as u128, den: self.total() as u128 }
                &&& r.2 == Ratio { num: self.g as u128, den: self.total() as u128 }
                &&& r.3 == Ratio { num: self.t as u128, den: self.total() as u128 }
                &&& r.4 == Ratio { num: self.n as u128, den: self.total() as u128 }
            },
    {
        let total: u128 = self.a as u128 + self.c as u128 + self.g as u128 + self.t as u128
            + self.n as u128;
        if total == 0 {
            let zero = Ratio { num: 0, den: 1 };
            return (zero, zero, zero, zero, zero);
        }
        (
            Ratio { num: self.a as u128, den: total },
            Ratio { num: self.c as u128, den: total },
            Ratio { num: self.g as u128, den: total },
            Ratio { num: self.t as u128, den: total },
            Ratio { num: self.n as u128, den: total },
        )
    }

    /// GC percentage `(G + C) * 100 / total`; `0/1` when nothing was counted.
    pub fn get_gc_percentage(&self) -> (r: Ratio)
        ensures
            self.total() == 0 ==> r == (Ratio { num: 0, den: 1 }),
            self.total() > 0 ==> r == (Ratio {
                num: (100 * (self.g + self.c)) as u128,
                den: self.total() as u128,
            }),
    {
        let total: u128 = self.a as u128 + self.c as u128 + self.g as u128 + self.t as u128
            + self.n as u128;
        if total == 0 {
            return Ratio { num: 0, den: 1 };
        }
        Ratio { num: 100 * (self.g as u128 + self.c as u128), den: total }
    }
}

/// Length of the longest sequence of `recs` (0 for none).
pub open spec fn max_seq_len(recs: Seq<RecordView>) -> nat
    decreases recs.len(),
{
    if recs.len() == 0 {
        0
    } else {
        let m = max_seq_len(recs.drop_last());
        let l = recs.last().seq.len();
        if l > m {
            l
        } else {
            m
        }
    }
}

/// Record `r` has a base of class `k` at position `i`.
pub open spec fn has_class_at(r: RecordView, i: int, k: int) -> bool {
    0 <= i < r.seq.len() && base_class(r.seq[i]) == k
}

/// Number of records of `recs` with a base of class `k` at position `i`.
pub open spec fn pos_class_count(recs: Seq<RecordView>, i: int, k: int) -> nat
    decreases recs.len(),
{
    if recs.len() == 0 {
        0
    } else {
        pos_class_count(recs.drop_last(), i, k) + if has_class_at(recs.last(), i, k) {
            1nat
        } else {
            0nat
        }
    }
}

/// Number of records of `recs` that reach position `i`.
pub open spec fn pos_reach_count(recs: Seq<RecordView>, i: int) -> nat
    decreases recs.len(),
{
    if recs.len() == 0 {
        0
    } else {
        pos_reach_count(recs.drop_last(), i) + if 0 <= i < recs.last().seq.len() {
            1nat
        } else {
            0nat
        }
    }
}

/// The tallies of a per-position composition analyzer match the records seen: one
/// tally per position up to the longest sequence.
pub open spec fn tally_slots_match(counts: Seq<CountNucleotides>, recs: Seq<RecordView>) -> bool {
    &&& counts.len() == max_seq_len(recs)
    &&& forall|i: int, k: int|
        0 <= i < counts.len() && 0 <= k < 5 ==> #[trigger] counts[i].count_of(k) == pos_class_count(
            recs,
            i,
            k,
        )
}

/// The five classes split the records that reach a position, and no more than all
/// records reach it.
pub proof fn lemma_classes_split_reach(recs: Seq<RecordView>, i: int)
    ensures
        pos_class_count(recs, i, 0) + pos_class_count(recs, i, 1) + pos_class_count(recs, i, 2)
            + pos_class_count(recs, i, 3) + pos_class_count(recs, i, 4) == pos_reach_count(recs, i),
        pos_reach_count(recs, i) <= recs.len(),
    decreases recs.len(),
{
    if recs.len() > 0 {
        lemma_classes_split_reach(recs.drop_last(), i);
    }
}

/// No record reaches a position at or past the longest sequence.
pub proof fn lemma_past_longest_seq(recs: Seq<RecordView>, i: int, k: int)
    requires
        i >= max_seq_len(recs),
    ensures
        pos_class_count(recs, i, k) == 0,
    decreases recs.len(),
{
    if recs.len() > 0 {
        lemma_past_longest_seq(recs.drop_last(), i, k);
    }
}

/// The longest sequence bounds every sequence, and is one of them unless it is 0.
pub proof fn lemma_max_seq_len(recs: Seq<RecordView>)
    ensures
        forall|k: int| 0 <= k < recs.len() ==> (#[trigger] recs[k]).seq.len() <= max_seq_len(recs),
        max_seq_len(recs) == 0 || exists|k: int|
            0 <= k < recs.len() && (#[trigger] recs[k]).seq.len() == max_seq_len(recs),
    decreases recs.len(),
{
    if recs.len() > 0 {
        let prev = recs.drop_last();
        lemma_max_seq_len(prev);
        assert forall|k: int| 0 <= k < prev.len() implies #[trigger] recs[k] == prev[k] by {}
        if max_seq_len(recs) != 0 && max_seq_len(recs) != recs.last().seq.len() {
            let k = choose|k: int| 0 <= k < prev.len() && (#[trigger] prev[k]).seq.len() == max_seq_len(prev);
            assert(recs[k] == prev[k]);
        }
    }
}

/// Copies the per-position tallies.
pub fn copy_tallies(counts: &Vec<CountNucleotides>) -> (r: Vec<CountNucleotides>)
    ensures
        r@ == counts@,
{
    let mut r: Vec<CountNucleotides> = Vec::new();
    let mut i: usize = 0;
    while i < counts.len()
        invariant
            i <= counts@.len(),
            r@ == counts@.subrange(0, i as int),
        decreases counts@.len() - i,
    {
        r.push(counts[i]);
        i = i + 1;
    }
    assert(counts@.subrange(0, counts@.len() as int) == counts@);
    r
}

/// Grows the tallies to at least `length` positions: slots already there are kept,
/// new ones start at zero.
pub fn grow_tallies(counts: &mut Vec<CountNucleotides>, length: usize)
    ensures
        final(counts)@.len() == if length > old(counts)@.len() {
            length as nat
        } else {
            old(counts)@.len()
        },
        forall|i: int| 0 <= i < old(counts)@.len() ==> #[trigger] final(counts)@[i] == old(counts)@[i],
        forall|i: int, k: int|
            old(counts)@.len() <= i < final(counts)@.len() && 0 <= k < 5
                ==> #[trigger] final(counts)@[i].count_of(k) == 0,
{
    let ghost start = counts@;
    while counts.len() < length
        invariant
            start.len() <= counts@.len(),
            counts@.len() <= if length > start.len() {
                length as nat
            } else {
                start.len()
            },
            forall|i: int| 0 <= i < start.len() ==> #[trigger] counts@[i] == start[i],
            forall|i: int, k: int|
                start.len() <= i < counts@.len() && 0 <= k < 5 ==> #[trigger] counts@[i].count_of(k)
                    == 0,
        decreases length - counts@.len(),
    {
        counts.push(CountNucleotides::new());
    }
}

/// Adds the bases of `record` to the per-position tallies.
pub fn add_bases(counts: &mut Vec<CountNucleotides>, record: &FastqRecord, Ghost(recs): Ghost<Seq<RecordView>>)
    requires
        tally_slots_match(old(counts)@, recs),
        recs.len() < u64::MAX,
    ensures
        tally_slots_match(final(counts)@, recs.push(record@)),
{
    let ghost next = recs.push(record@);
    assert(next.drop_last() == recs);
    let ghost start = counts@;
    grow_tallies(counts, record.seq.len());
    assert forall|i: int, k: int|
        0 <= i < counts@.len() && 0 <= k < 5 implies #[trigger] counts@[i].count_of(k)
        == pos_class_count(recs, i, k) by {
        if i >= start.len() {
            lemma_past_longest_seq(recs, i, k);
        } else {
            assert(counts@[i] == start[i]);
        }
    }
    let n = record.seq.len();
    let mut i: usize = 0;
    while i < n
        invariant
            n == record.seq@.len(),
            i <= n,
            counts@.len() == max_seq_len(next),
            n <= counts@.len(),
            next.drop_last() == recs,
            next.last() == record@,
            recs.len() < u64::MAX,
            forall|j: int, k: int|
                0 <= j < i && 0 <= k < 5 ==> #[trigger] counts@[j].count_of(k) == pos_class_count(
                    next,
                    j,
                    k,
                ),
            forall|j: int, k: int|
                i <= j < counts@.len() && 0 <= k < 5 ==> #[trigger] counts@[j].count_of(k)
                    == pos_class_count(recs, j, k),
        decreases n - i,
    {
        proof {
            lemma_classes_split_reach(recs, i as int);
            assert(counts@[i as int].count_of(0) == pos_class_count(recs, i as int, 0));
            assert(counts@[i as int].count_of(1) == pos_class_count(recs, i as int, 1));
            assert(counts@[i as int].count_of(2) == pos_class_count(recs, i as int, 2));
            assert(counts@[i as int].count_of(3) == pos_class_count(recs, i as int, 3));
            assert(counts@[i as int].count_of(4) == pos_class_count(recs, i as int, 4));
        }
        let mut slot = counts[i];
        slot.add_base(record.seq[i]);
        counts.set(i, slot);
        assert forall|k: int| 0 <= k < 5 implies #[trigger] counts@[i as int].count_of(k)
            == pos_class_count(next, i as int, k) by {
            assert(has_class_at(record@, i as int, k) <==> k == base_class(record.seq@[i as int]));
        }
        i = i + 1;
    }
    assert forall|j: int, k: int|
        n <= j < counts@.len() && 0 <= k < 5 implies #[trigger] counts@[j].count_of(k)
        == pos_class_count(next, j, k) by {
        assert(!has_class_at(record@, j, k));
    }
}

/// Class counts add up over consecutive runs of records, and the longest sequence of
/// both runs is the longer of the two.
pub proof fn lemma_tally_concat(a: Seq<RecordView>, b: Seq<RecordView>, i: int, k: int)
    ensures
        pos_class_count(a + b, i, k) == pos_class_count(a, i, k) + pos_class_count(b, i, k),
        max_seq_len(a + b) == if max_seq_len(a) > max_seq_len(b) {
            max_seq_len(a)
        } else {
            max_seq_len(b)
        },
    decreases b.len(),
{
    if b.len() == 0 {
        assert(a + b == a);
    } else {
        assert((a + b).drop_last() == a + b.drop_last());
        assert((a + b).last() == b.last());
        lemma_tally_concat(a, b.drop_last(), i, k);
    }
}

/// Per-position tallies merge in either order to the same result.
pub proof fn lemma_tally_merge_commutes(a: Seq<RecordView>, b: Seq<RecordView>, i: int, k: int)
    ensures
        max_seq_len(a + b) == max_seq_len(b + a),
        pos_class_count(a + b, i, k) == pos_class_count(b + a, i, k),
{
    lemma_tally_concat(a, b, i, k);
    lemma_tally_concat(b, a, i, k);
}

/// Merges the tallies of two runs of records, position by position: the result is the
/// tally of the first run followed by the second.
pub fn merge_tallies(
    ta: &Vec<CountNucleotides>,
    tb: &Vec<CountNucleotides>,
    Ghost(a): Ghost<Seq<RecordView>>,
    Ghost(b): Ghost<Seq<RecordView>>,
) -> (r: Vec<CountNucleotides>)
    requires
        tally_slots_match(ta@, a),
        tally_slots_match(tb@, b),
        a.len() + b.len() <= u64::MAX,
    ensures
        tally_slots_match(r@, a + b),
{
    let len = if ta.len() > tb.len() {
        ta.len()
    } else {
        tb.len()
    };
    proof {
        lemma_tally_concat(a, b, 0, 0);
    }
    let mut r: Vec<CountNucleotides> = Vec::new();
    let mut i: usize = 0;
    while i < len
        invariant
            tally_slots_match(ta@, a),
            tally_slots_match(tb@, b),
            a.len() + b.len() <= u64::MAX,
            len == max_seq_len(a + b),
            len == if ta@.len() > tb@.len() {
                ta@.len()
            } else {
                tb@.len()
            },
            i <= len,
            r@.len() == i,
            forall|j: int, k: int|
                0 <= j < i && 0 <= k < 5 ==> #[trigger] r@[j].count_of(k) == pos_class_count(
                    a + b,
                    j,
                    k,
                ),
        decreases len - i,
    {
        let zero = CountNucleotides::new();
        let x = if i < ta.len() { ta[i] } else { zero };
        let y = if i < tb.len() { tb[i] } else { zero };
        proof {
            lemma_classes_split_reach(a + b, i as int);
            assert forall|k: int| 0 <= k < 5 implies x.count_of(k) == pos_class_count(a, i as int, k)
                && y.count_of(k) == pos_class_count(b, i as int, k)
                && pos_class_count(a + b, i as int, k) == pos_class_count(a, i as int, k)
                + pos_class_count(b, i as int, k) by {
                lemma_tally_concat(a, b, i as int, k);
                if i >= ta@.len() {
                    lemma_past_longest_seq(a, i as int, k);
                }
                if i >= tb@.len() {
                    lemma_past_longest_seq(b, i as int, k);
                }
            }
            assert((a + b).len() == a.len() + b.len());
            assert(x.count_of(0) + y.count_of(0) <= a.len() + b.len());
            assert(x.count_of(1) + y.count_of(1) <= a.len() + b.len());
            assert(x.count_of(2) + y.count_of(2) <= a.len() + b.len());
            assert(x.count_of(3) + y.count_of(3) <= a.len() + b.len());
            assert(x.count_of(4) + y.count_of(4) <= a.len() + b.len());
        }
        r.push(CountNucleotides {
            a: x.a + y.a,
            c: x.c + y.c,
            g: x.g + y.g,
            t: x.t + y.t,
            n: x.n + y.n,
        });
        i = i + 1;
    }
    r
}

} // verus!
