//! GC percentage of single reads and its extremes over many reads.
use vstd::prelude::*;
use crate::phred::Ratio;
use crate::record::RecordView;

verus! {

/// The byte is a G or a C.
pub open spec fn is_gc(b: u8) -> bool {
    b == 71 || b == 67
}

/// Number of G and C bases in `seq`.
pub open spec fn gc_count(seq: Seq<u8>) -> nat
    decreases seq.len(),
{
    if seq.len() == 0 {
        0
    } else {
        gc_count(seq.drop_last()) + if is_gc(seq.last()) {
            1nat
        } else {
            0nat
        }
    }
}

/// GC percentage of a sequence, `gc_count * 100 / len`; `0/1` for the empty sequence.
pub open spec fn gc_percent(seq: Seq<u8>) -> Ratio {
    if seq.len() == 0 {
        Ratio { num: 0, den: 1 }
    } else {
        Ratio { num: (100 * gc_count(seq)) as u128, den: seq.len() as u128 }
    }
}

/// GC percentage of each record, in arrival order.
pub open spec fn gc_values(recs: Seq<RecordView>) -> Seq<Ratio> {
    Seq::new(recs.len(), |k: int| gc_percent(recs[k].seq))
}

/// `a <= b` as fractions with positive denominators.
pub open spec fn ratio_le(a: Ratio, b: Ratio) -> bool {
    a.num * b.den <= b.num * a.den
}

/// A GC percentage as this module builds it: `100 * g / d` with `g <= d < 2^64`.
pub open spec fn is_gc_ratio(r: Ratio) -> bool {
    &&& r.num % 100 == 0
    &&& r.num / 100 <= r.den
    &&& 0 < r.den <= u64::MAX
}

/// The GC percentages of the reads, with the lowest and the highest.
#[derive(Debug, Clone, PartialEq, Eq)]
pub struct GcSummary {
    pub values: Vec<Ratio>,
    pub min: Option<Ratio>,
    pub max: Option<Ratio>,
}

/// `values[j]` is the first of the lowest values.
pub open spec fn is_first_min(values: Seq<Ratio>, j: int) -> bool {
    &&& 0 <= j < values.len()
    &&& forall|k: int| 0 <= k < values.len() ==> ratio_le(values[j], #[trigger] values[k])
    &&& forall|k: int| 0 <= k < j ==> !ratio_le(#[trigger] values[k], values[j])
}

/// `values[j]` is the first of the highest values.
pub open spec fn is_first_max(values: Seq<Ratio>, j: int) -> bool {
    &&& 0 <= j < values.len()
    &&& forall|k: int| 0 <= k < values.len() ==> ratio_le(#[trigger] values[k], values[j])
    &&& forall|k: int| 0 <= k < j ==> !ratio_le(values[j], #[trigger] values[k])
}

/// The summary describes exactly `values`: the values themselves, and the first of
/// the lowest and the first of the highest, when there is any value.
pub open spec fn summary_matches(s: GcSummary, values: Seq<Ratio>) -> bool {
    &&& s.values@ == values
    &&& (s.min is Some <==> values.len() > 0)
    &&& (s.max is Some <==> values.len() > 0)
    &&& s.min matches Some(m) ==> exists|j: int| is_first_min(values, j) && values[j] == m
    &&& s.max matches Some(m) ==> exists|j: int| is_first_max(values, j) && values[j] == m
}

proof fn lemma_gc_count_bound(seq: Seq<u8>)
    ensures
        gc_count(seq) <= seq.len(),
    decreases seq.len(),
{
    if seq.len() > 0 {
        lemma_gc_count_bound(seq.drop_last());
    }
}

/// Every GC percentage is a GC ratio.
pub proof fn lemma_gc_percent_shape(seq: Seq<u8>)
    requires
        seq.len() <= u64::MAX,
    ensures
        is_gc_ratio(gc_percent(seq)),
{
    lemma_gc_count_bound(seq);
    if seq.len() > 0 {
        let g = gc_count(seq) as int;
        assert((100 * g) % 100 == 0 && (100 * g) / 100 == g) by (nonlinear_arith);
    }
}

/// GC percentage of one sequence: `gc_count * 100 / len`, and `0/1` when it is empty.
pub fn gc_fraction(seq: &[u8]) -> (r: Ratio)
    ensures
        r == gc_percent(seq@),
        is_gc_ratio(r),
{
    let mut gc: u64 = 0;
    let mut i: usize = 0;
    while i < seq.len()
        invariant
            i <= seq@.len(),
            gc == gc_count(seq@.subrange(0, i as int)),
            gc <= i,
        decreases seq@.len() - i,
    {
        assert(seq@.subrange(0, i + 1).drop_last() == seq@.subrange(0, i as int));
        if seq[i] == 71 || seq[i] == 67 {
            gc = gc + 1;
        }
        i = i + 1;
    }
    assert(seq@.subrange(0, seq@.len() as int) == seq@);
    proof {
        lemma_gc_percent_shape(seq@);
    }
    if seq.len() == 0 {
        Ratio { num: 0, den: 1 }
    } else {
        Ratio { num: 100 * (gc as u128), den: seq.len() as u128 }
    }
}

/// Compares two GC ratios exactly.
fn gc_ratio_le(a: Ratio, b: Ratio) -> (r: bool)
    requires
        is_gc_ratio(a),
        is_gc_ratio(b),
    ensures
        r == ratio_le(a, b),
{
    let ga = a.num / 100;
    let gb = b.num / 100;
    proof {
        let (x, y) = (ga as int, gb as int);
        let (da, db) = (a.den as int, b.den as int);
        assert(0 <= x * db <= da * db) by (nonlinear_arith)
            requires 0 <= x <= da, 0 <= db;
        assert(0 <= y * da <= db * da) by (nonlinear_arith)
            requires 0 <= y <= db, 0 <= da;
        assert(da * db <= u64::MAX * u64::MAX) by (nonlinear_arith)
            requires 0 < da <= u64::MAX, 0 < db <= u64::MAX;
        assert((100 * x) * db <= (100 * y) * da <==> x * db <= y * da) by (nonlinear_arith);
    }
    ga * b.den <= gb * a.den
}

/// Summarizes GC percentages: the values, their minimum and their maximum.
pub fn summarize_gc(values: &Vec<Ratio>) -> (r: GcSummary)
    requires
        forall|k: int| 0 <= k < values@.len() ==> is_gc_ratio(#[trigger] values@[k]),
    ensures
        summary_matches(r, values@),
{
    let mut copy: Vec<Ratio> = Vec::new();
    let mut min: Option<Ratio> = None;
    let mut max: Option<Ratio> = None;
    let mut i: usize = 0;
    let ghost mut min_at: int = 0;
    let ghost mut max_at: int = 0;
    while i < values.len()
        invariant
            i <= values@.len(),
            forall|k: int| 0 <= k < values@.len() ==> is_gc_ratio(#[trigger] values@[k]),
            copy@ == values@.subrange(0, i as int),
            (min is Some <==> i > 0),
            (max is Some <==> i > 0),
            i > 0 ==> is_first_min(values@.subrange(0, i as int), min_at) && min == Some(
                values@[min_at],
            ),
            i > 0 ==> is_first_max(values@.subrange(0, i as int), max_at) && max == Some(
                values@[max_at],
            ),
        decreases values@.len() - i,
    {
        let ghost prefix = values@.subrange(0, i as int);
        let ghost next = values@.subrange(0, i + 1);
        let v = values[i];
        copy.push(v);
        let new_min = match min {
            None => v,
            Some(m) => if gc_ratio_le(m, v) { m } else { v },
        };
        let new_max = match max {
            None => v,
            Some(m) => if gc_ratio_le(v, m) { m } else { v },
        };
        proof {
            assert(next[i as int] == v);
            assert forall|k: int| 0 <= k < i implies #[trigger] next[k] == prefix[k] by {}
            lemma_ratio_le_refl(v);
            if i == 0 {
                min_at = 0;
                max_at = 0;
            } else {
                let m = values@[min_at];
                lemma_ratio_le_total(m, v);
                if ratio_le(m, v) {
                    assert(new_min == m);
                } else {
                    assert forall|k: int| 0 <= k < i implies !ratio_le(#[trigger] next[k], v)
                        && ratio_le(v, next[k]) by {
                        assert(ratio_le(m, prefix[k]));
                        if ratio_le(next[k], v) {
                            lemma_ratio_le_trans(m, next[k], v);
                        }
                        lemma_ratio_le_total(v, next[k]);
                    }
                    min_at = i as int;
                }
                let x = values@[max_at];
                lemma_ratio_le_total(v, x);
                if ratio_le(v, x) {
                    assert(new_max == x);
                } else {
                    assert forall|k: int| 0 <= k < i implies !ratio_le(v, #[trigger] next[k])
                        && ratio_le(next[k], v) by {
                        assert(ratio_le(prefix[k], x));
                        if ratio_le(v, next[k]) {
                            lemma_ratio_le_trans(v, next[k], x);
                        }
                        lemma_ratio_le_total(v, next[k]);
                    }
                    max_at = i as int;
                }
            }
        }
        min = Some(new_min);
        max = Some(new_max);
        i = i + 1;
    }
    assert(copy@ == values@.subrange(0, values@.len() as int));
    assert(values@.subrange(0, values@.len() as int) == values@);
    GcSummary { values: copy, min, max }
}

proof fn lemma_ratio_le_refl(a: Ratio)
    ensures
        ratio_le(a, a),
{
}

proof fn lemma_ratio_le_total(a: Ratio, b: Ratio)
    ensures
        ratio_le(a, b) || ratio_le(b, a),
{
}

proof fn lemma_ratio_le_trans(a: Ratio, b: Ratio, c: Ratio)
    requires
        ratio_le(a, b),
        ratio_le(b, c),
        b.den > 0,
        a.den > 0,
        c.den > 0,
    ensures
        ratio_le(a, c),
{
    let (an, ad, bn, bd, cn, cd) = (
        a.num as int,
        a.den as int,
        b.num as int,
        b.den as int,
        c.num as int,
        c.den as int,
    );
    assert(an * cd <= cn * ad) by (nonlinear_arith)
        requires
            an * bd <= bn * ad,
            bn * cd <= cn * bd,
            bd > 0,
            ad > 0,
            cd > 0,
            an >= 0,
            cn >= 0,
    ;
}

} // verus!
