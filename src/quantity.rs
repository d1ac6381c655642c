//! Whole-file nucleotide frequencies per position, over the reads as long as the first.
use vstd::prelude::*;
use crate::record::{FastqRecord, RecordView};
use crate::statistics::nucleotides::{add_bases, tally_slots_match, CountNucleotides};

verus! {

/// The quotation mark, stripped from both ends of a sequence line.
pub const QUOTE: u8 = 34;

/// Index of the first byte of `s` at or after `i` that is not a quotation mark.
pub open spec fn quotes_end(s: Seq<u8>, i: int) -> int
    decreases s.len() - i,
{
    if 0 <= i < s.len() && s[i] == QUOTE {
        quotes_end(s, i + 1)
    } else {
        i
    }
}

/// End of `s` below `j` once trailing quotation marks are dropped, not below `lo`.
pub open spec fn quotes_start(s: Seq<u8>, j: int, lo: int) -> int
    decreases j - lo,
{
    if lo < j <= s.len() && s[j - 1] == QUOTE {
        quotes_start(s, j - 1, lo)
    } else {
        j
    }
}

/// `s` without the quotation marks at its start and at its end.
pub open spec fn trim_quotes(s: Seq<u8>) -> Seq<u8> {
    let a = quotes_end(s, 0);
    s.subrange(a, quotes_start(s, s.len() as int, a))
}

proof fn lemma_quotes_end_bounds(s: Seq<u8>, i: int)
    requires
        0 <= i <= s.len(),
    ensures
        i <= quotes_end(s, i) <= s.len(),
    decreases s.len() - i,
{
    if i < s.len() && s[i] == QUOTE {
        lemma_quotes_end_bounds(s, i + 1);
    }
}

proof fn lemma_quotes_start_bounds(s: Seq<u8>, j: int, lo: int)
    requires
        0 <= lo <= j <= s.len(),
    ensures
        lo <= quotes_start(s, j, lo) <= j,
    decreases j - lo,
{
    if lo < j && s[j - 1] == QUOTE {
        lemma_quotes_start_bounds(s, j - 1, lo);
    }
}

/// Copies `line` without its surrounding quotation marks.
fn strip_quotes(line: &Vec<u8>) -> (r: Vec<u8>)
    ensures
        r@ == trim_quotes(line@),
{
    let n = line.len();
    let mut a: usize = 0;
    while a < n && line[a] == QUOTE
        invariant
            n == line@.len(),
            a <= n,
            quotes_end(line@, a as int) == quotes_end(line@, 0),
        decreases n - a,
    {
        a = a + 1;
    }
    let mut b: usize = n;
    while b > a && line[b - 1] == QUOTE
        invariant
            n == line@.len(),
            a <= b <= n,
            a == quotes_end(line@, 0),
            quotes_start(line@, b as int, a as int) == quotes_start(line@, n as int, a as int),
        decreases b - a,
    {
        b = b - 1;
    }
    let mut r: Vec<u8> = Vec::new();
    let mut i: usize = a;
    while i < b
        invariant
            a <= i <= b <= line@.len(),
            r@ == line@.subrange(a as int, i as int),
        decreases b - i,
    {
        r.push(line[i]);
        i = i + 1;
    }
    r
}

/// The sequence line of the `k`-th cycle; the cycles start at line 0, so their sequence
/// lines are lines 1, 5, 9, ...
pub open spec fn cycle_sequence(lines: Seq<Seq<u8>>, k: int) -> Seq<u8> {
    trim_quotes(lines[1 + 4 * k])
}

/// Number of sequence lines in `lines`.
pub open spec fn cycle_count(lines: Seq<Seq<u8>>) -> int {
    if lines.len() < 2 {
        0
    } else {
        (lines.len() as int + 2) / 4
    }
}

/// The reads of the first `n` cycles whose sequence is as long as the first one.
pub open spec fn kept_reads(lines: Seq<Seq<u8>>, n: int) -> Seq<RecordView>
    decreases n,
{
    if n <= 0 {
        Seq::empty()
    } else {
        let prev = kept_reads(lines, n - 1);
        let s = cycle_sequence(lines, n - 1);
        if s.len() == cycle_sequence(lines, 0).len() {
            prev.push(RecordView { seq: s, qual: Seq::empty() })
        } else {
            prev
        }
    }
}

proof fn lemma_kept_reads_len(lines: Seq<Seq<u8>>, n: int)
    ensures
        kept_reads(lines, n).len() <= if n < 0 {
            0
        } else {
            n
        },
    decreases n,
{
    if n > 0 {
        lemma_kept_reads_len(lines, n - 1);
    }
}

/// Counts the bases at each position over the sequence lines of `lines` (lines 1, 5,
/// 9, ..., without surrounding quotation marks) that are as long as the first one.
/// Returns the tallies and the number of reads counted, or `None` when `lines` holds
/// no sequence line.
pub fn count_nucleotides(lines: &Vec<Vec<u8>>) -> (r: Option<(Vec<CountNucleotides>, u64)>)
    ensures
        r is None <==> lines@.len() < 2,
        r matches Some((t, n)) ==> {
            let kept = kept_reads(lines@.map_values(|l: Vec<u8>| l@), cycle_count(lines@.map_values(|l: Vec<u8>| l@)));
            &&& tally_slots_match(t@, kept)
            &&& n == kept.len()
        },
{
    let ghost lv = lines@.map_values(|l: Vec<u8>| l@);
    if lines.len() < 2 {
        return None;
    }
    let first = strip_quotes(&lines[1]);
    let seq_len = first.len();
    let n = lines.len();
    let cycles = (n - 2) / 4 + 1;
    assert(cycles == cycle_count(lv));
    let mut counts: Vec<CountNucleotides> = Vec::new();
    let mut sum: u64 = 0;
    let mut k: usize = 0;
    while k < cycles
        invariant
            lv == lines@.map_values(|l: Vec<u8>| l@),
            lines@.len() >= 2,
            n == lines@.len(),
            cycles == cycle_count(lv),
            cycles == (lines@.len() - 2) / 4 + 1,
            seq_len == cycle_sequence(lv, 0).len(),
            k <= cycles,
            tally_slots_match(counts@, kept_reads(lv, k as int)),
            sum == kept_reads(lv, k as int).len(),
        decreases cycles - k,
    {
        proof {
            lemma_kept_reads_len(lv, k as int);
        }
        assert(1 + 4 * k < lines@.len()) by (nonlinear_arith)
            requires
                k < cycles,
                cycles == (lines@.len() - 2) / 4 + 1,
                lines@.len() >= 2,
        ;
        let seq = strip_quotes(&lines[1 + 4 * k]);
        if seq.len() == seq_len {
            let record = FastqRecord { seq, qual: Vec::new() };
            assert(record@ == (RecordView { seq: cycle_sequence(lv, k as int), qual: Seq::empty() }));
            add_bases(&mut counts, &record, Ghost(kept_reads(lv, k as int)));
            sum = sum + 1;
        }
        k = k + 1;
    }
    Some((counts, sum))
}

} // verus!
