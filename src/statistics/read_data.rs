//! Distribution of read lengths.
use vstd::prelude::*;
use crate::record::{FastqRecord, RecordView};
use crate::runner::{Output, Report, Statistic};

verus! {

/// Number of records of `recs` whose sequence has length `len`.
pub open spec fn length_count(recs: Seq<RecordView>, len: int) -> nat
    decreases recs.len(),
{
    if recs.len() == 0 {
        0
    } else {
        length_count(recs.drop_last(), len) + if recs.last().seq.len() == len {
            1nat
        } else {
            0nat
        }
    }
}

/// At most one count per record.
pub proof fn lemma_length_count_bound(recs: Seq<RecordView>, len: int)
    ensures
        length_count(recs, len) <= recs.len(),
    decreases recs.len(),
{
    if recs.len() > 0 {
        lemma_length_count_bound(recs.drop_last(), len);
    }
}

/// Index of the first entry of `t` with key `len`, or -1 when there is none.
pub open spec fn key_position(t: Seq<(nat, nat)>, len: nat) -> int
    decreases t.len(),
{
    if t.len() == 0 {
        -1
    } else {
        let p = key_position(t.drop_last(), len);
        if p >= 0 {
            p
        } else if t.last().0 == len {
            t.len() - 1
        } else {
            -1
        }
    }
}

/// The length table of `recs`: for each sequence length, in order of first
/// appearance, the length and its number of reads.
pub open spec fn length_table(recs: Seq<RecordView>) -> Seq<(nat, nat)>
    decreases recs.len(),
{
    if recs.len() == 0 {
        Seq::empty()
    } else {
        let t = length_table(recs.drop_last());
        let len = recs.last().seq.len();
        add_entry(t, (len, 1nat))
    }
}

/// `t` with `e.1` more reads of length `e.0`: added to its entry, or a new last entry.
pub open spec fn add_entry(t: Seq<(nat, nat)>, e: (nat, nat)) -> Seq<(nat, nat)> {
    let p = key_position(t, e.0);
    if p >= 0 {
        t.update(p, (e.0, t[p].1 + e.1))
    } else {
        t.push(e)
    }
}

/// `t` with the entries of `u` added one by one, in order.
pub open spec fn merge_tables(t: Seq<(nat, nat)>, u: Seq<(nat, nat)>) -> Seq<(nat, nat)>
    decreases u.len(),
{
    if u.len() == 0 {
        t
    } else {
        add_entry(merge_tables(t, u.drop_last()), u.last())
    }
}

/// Number of reads that `t` gives for length `len` (0 when it has no entry for it).
pub open spec fn count_in(t: Seq<(nat, nat)>, len: nat) -> nat {
    let p = key_position(t, len);
    if p >= 0 {
        t[p].1
    } else {
        0
    }
}

/// No two entries of `t` have the same length.
pub open spec fn keys_unique(t: Seq<(nat, nat)>) -> bool {
    forall|a: int, b: int| 0 <= a < b < t.len() ==> #[trigger] t[a].0 != #[trigger] t[b].0
}

/// Where a length is found depends on the lengths of the entries only.
proof fn lemma_key_position_same_keys(s1: Seq<(nat, nat)>, s2: Seq<(nat, nat)>, len: nat)
    requires
        s1.len() == s2.len(),
        forall|k: int| 0 <= k < s1.len() ==> (#[trigger] s1[k]).0 == s2[k].0,
    ensures
        key_position(s1, len) == key_position(s2, len),
    decreases s1.len(),
{
    if s1.len() > 0 {
        lemma_key_position_same_keys(s1.drop_last(), s2.drop_last(), len);
    }
}

/// Where a length is found after a new last entry.
proof fn lemma_key_position_push(s: Seq<(nat, nat)>, e: (nat, nat), len: nat)
    ensures
        key_position(s.push(e), len) == if key_position(s, len) >= 0 {
            key_position(s, len)
        } else if e.0 == len {
            s.len() as int
        } else {
            -1
        },
{
    assert(s.push(e).drop_last() == s);
}

/// Adding an entry keeps the lengths found before, at their places.
proof fn lemma_add_entry_keeps(m: Seq<(nat, nat)>, e: (nat, nat), len: nat)
    requires
        key_position(m, len) >= 0,
    ensures
        key_position(add_entry(m, e), len) == key_position(m, len),
{
    let p = key_position(m, e.0);
    lemma_key_position(m, e.0);
    if p >= 0 {
        let m2 = m.update(p, (e.0, m[p].1 + e.1));
        lemma_key_position_same_keys(m2, m, len);
    } else {
        lemma_key_position_push(m, e, len);
    }
}

/// After adding an entry, its length is found.
proof fn lemma_add_entry_finds(m: Seq<(nat, nat)>, e: (nat, nat))
    ensures
        key_position(add_entry(m, e), e.0) >= 0,
        key_position(m, e.0) >= 0 ==> key_position(add_entry(m, e), e.0) == key_position(m, e.0),
        key_position(m, e.0) < 0 ==> key_position(add_entry(m, e), e.0) == m.len(),
{
    let p = key_position(m, e.0);
    lemma_key_position(m, e.0);
    if p >= 0 {
        lemma_add_entry_keeps(m, e, e.0);
    } else {
        lemma_key_position_push(m, e, e.0);
    }
}

/// Adding two counts for one length adds their sum.
proof fn lemma_add_entry_twice(m: Seq<(nat, nat)>, len: nat, c1: nat, c2: nat)
    ensures
        add_entry(add_entry(m, (len, c1)), (len, c2)) == add_entry(m, (len, c1 + c2)),
{
    let m1 = add_entry(m, (len, c1));
    lemma_add_entry_finds(m, (len, c1));
    lemma_key_position(m, len);
    let q = key_position(m1, len);
    if key_position(m, len) >= 0 {
        assert(m1.update(q, (len, m1[q].1 + c2)) =~= add_entry(m, (len, c1 + c2)));
    } else {
        assert(m1.update(q, (len, m1[q].1 + c2)) =~= m.push((len, c1 + c2)));
    }
}

/// Entries for two different lengths, the first already present, add in either order.
proof fn lemma_add_entry_commute(m: Seq<(nat, nat)>, e: (nat, nat), f: (nat, nat))
    requires
        e.0 != f.0,
        key_position(m, e.0) >= 0,
    ensures
        add_entry(add_entry(m, e), f) == add_entry(add_entry(m, f), e),
{
    lemma_key_position(m, e.0);
    lemma_key_position(m, f.0);
    let q = key_position(m, e.0);
    let me = add_entry(m, e);
    let mf = add_entry(m, f);
    lemma_key_position_same_keys(me, m, f.0);
    lemma_add_entry_keeps(m, f, e.0);
    if key_position(m, f.0) >= 0 {
        let r = key_position(m, f.0);
        assert(add_entry(me, f) =~= add_entry(mf, e));
    } else {
        assert(add_entry(me, f) =~= add_entry(mf, e));
    }
}

/// Every length of `u` is found in `t` merged with `u`.
proof fn lemma_merge_finds(t: Seq<(nat, nat)>, u: Seq<(nat, nat)>, len: nat)
    requires
        key_position(u, len) >= 0,
    ensures
        key_position(merge_tables(t, u), len) >= 0,
    decreases u.len(),
{
    let u0 = u.drop_last();
    lemma_key_position(u0, len);
    if key_position(u0, len) >= 0 {
        lemma_merge_finds(t, u0, len);
        lemma_add_entry_keeps(merge_tables(t, u0), u.last(), len);
    } else {
        lemma_add_entry_finds(merge_tables(t, u0), u.last());
    }
}

/// Merging `t` with `u` plus one more entry is merging and then adding that entry.
proof fn lemma_merge_add_entry(t: Seq<(nat, nat)>, u: Seq<(nat, nat)>, e: (nat, nat))
    requires
        keys_unique(u),
    ensures
        merge_tables(t, add_entry(u, e)) == add_entry(merge_tables(t, u), e),
    decreases u.len(),
{
    lemma_key_position(u, e.0);
    let p = key_position(u, e.0);
    if p < 0 {
        assert(add_entry(u, e).drop_last() == u);
    } else {
        let u0 = u.drop_last();
        let x = u.last();
        let ue = add_entry(u, e);
        if p == u.len() - 1 {
            assert(ue.drop_last() == u0);
            lemma_add_entry_twice(merge_tables(t, u0), e.0, x.1, e.1);
        } else {
            assert(keys_unique(u0)) by {
                assert forall|a: int, b: int| 0 <= a < b < u0.len() implies #[trigger] u0[a].0
                    != #[trigger] u0[b].0 by {
                    assert(u[a].0 != u[b].0);
                }
            }
            lemma_key_position(u0, e.0);
            assert(key_position(u0, e.0) == p);
            assert(ue.drop_last() == add_entry(u0, e));
            assert(ue.last() == x);
            lemma_merge_add_entry(t, u0, e);
            assert(x.0 != e.0) by {
                assert(u[p].0 != u[u.len() - 1].0);
            }
            lemma_merge_finds(t, u0, e.0);
            lemma_add_entry_commute(merge_tables(t, u0), e, x);
        }
    }
}

/// Adding an entry adds its count to its own length only.
proof fn lemma_count_add_entry(m: Seq<(nat, nat)>, e: (nat, nat), len: nat)
    ensures
        count_in(add_entry(m, e), len) == count_in(m, len) + if e.0 == len {
            e.1
        } else {
            0
        },
{
    lemma_key_position(m, e.0);
    lemma_key_position(m, len);
    let p = key_position(m, e.0);
    if p >= 0 {
        let m2 = m.update(p, (e.0, m[p].1 + e.1));
        lemma_key_position_same_keys(m2, m, len);
    } else {
        lemma_key_position_push(m, e, len);
    }
}

/// In a table without repeated lengths, the last entry counts for its own length only.
proof fn lemma_count_last(u: Seq<(nat, nat)>, len: nat)
    requires
        u.len() > 0,
        keys_unique(u),
    ensures
        count_in(u, len) == count_in(u.drop_last(), len) + if u.last().0 == len {
            u.last().1
        } else {
            0
        },
{
    let u0 = u.drop_last();
    assert(u0.push(u.last()) == u);
    lemma_key_position_push(u0, u.last(), len);
    lemma_key_position(u0, len);
    if u.last().0 == len && key_position(u0, len) >= 0 {
        let p = key_position(u0, len);
        assert(u[p].0 != u[u.len() - 1].0);
    }
}

/// Merging adds the counts of both tables, length by length.
proof fn lemma_count_merge(t: Seq<(nat, nat)>, u: Seq<(nat, nat)>, len: nat)
    requires
        keys_unique(u),
    ensures
        count_in(merge_tables(t, u), len) == count_in(t, len) + count_in(u, len),
    decreases u.len(),
{
    if u.len() == 0 {
        assert(key_position(u, len) == -1);
    } else {
        let u0 = u.drop_last();
        assert(keys_unique(u0)) by {
            assert forall|a: int, b: int| 0 <= a < b < u0.len() implies #[trigger] u0[a].0
                != #[trigger] u0[b].0 by {
                assert(u[a].0 != u[b].0);
            }
        }
        lemma_count_merge(t, u0, len);
        lemma_count_add_entry(merge_tables(t, u0), u.last(), len);
        lemma_count_last(u, len);
    }
}

/// The length table of two consecutive runs is the table of the first with the table
/// of the second merged in.
pub proof fn lemma_length_table_concat(a: Seq<RecordView>, b: Seq<RecordView>)
    ensures
        length_table(a + b) == merge_tables(length_table(a), length_table(b)),
    decreases b.len(),
{
    if b.len() == 0 {
        assert(a + b == a);
    } else {
        let b0 = b.drop_last();
        assert((a + b).drop_last() == a + b0);
        assert((a + b).last() == b.last());
        lemma_length_table_concat(a, b0);
        lemma_length_table(b0);
        lemma_merge_add_entry(length_table(a), length_table(b0), (b.last().seq.len(), 1nat));
    }
}

/// The entries hold the table `t`.
pub open spec fn table_matches(entries: Seq<(usize, u64)>, t: Seq<(nat, nat)>) -> bool {
    &&& entries.len() == t.len()
    &&& forall|k: int|
        0 <= k < entries.len() ==> (#[trigger] entries[k]).0 == t[k].0 && entries[k].1 == t[k].1
}

/// `t` is the length distribution of `recs`: each length that occurs once, with its
/// number of reads, and no other.
pub open spec fn is_length_distribution(t: Seq<(nat, nat)>, recs: Seq<RecordView>) -> bool {
    &&& forall|a: int, b: int| 0 <= a < b < t.len() ==> #[trigger] t[a].0 != #[trigger] t[b].0
    &&& forall|k: int|
        0 <= k < t.len() ==> (#[trigger] t[k]).1 == length_count(recs, t[k].0 as int) && t[k].1 > 0
    &&& forall|len: nat|
        #![trigger length_count(recs, len as int)]
        length_count(recs, len as int) > 0 ==> exists|k: int| 0 <= k < t.len() && t[k].0 == len
}

/// What `key_position` finds.
pub proof fn lemma_key_position(t: Seq<(nat, nat)>, len: nat)
    ensures
        -1 <= key_position(t, len) < t.len(),
        key_position(t, len) == -1 ==> forall|k: int| 0 <= k < t.len() ==> (#[trigger] t[k]).0 != len,
        key_position(t, len) >= 0 ==> t[key_position(t, len)].0 == len && forall|k: int|
            0 <= k < key_position(t, len) ==> (#[trigger] t[k]).0 != len,
    decreases t.len(),
{
    if t.len() > 0 {
        lemma_key_position(t.drop_last(), len);
        assert forall|k: int| 0 <= k < t.len() - 1 implies #[trigger] t[k] == t.drop_last()[k] by {}
    }
}

/// The length table is the length distribution of the records.
pub proof fn lemma_length_table(recs: Seq<RecordView>)
    ensures
        is_length_distribution(length_table(recs), recs),
        length_table(recs).len() <= recs.len(),
    decreases recs.len(),
{
    if recs.len() > 0 {
        let prev = recs.drop_last();
        lemma_length_table(prev);
        let t = length_table(prev);
        let len = recs.last().seq.len();
        lemma_key_position(t, len);
        let p = key_position(t, len);
        let nt = length_table(recs);
        if p >= 0 {
            assert forall|a: int, b: int| 0 <= a < b < nt.len() implies #[trigger] nt[a].0
                != #[trigger] nt[b].0 by {
                assert(t[a].0 != t[b].0);
            }
            assert forall|k: int| 0 <= k < nt.len() implies (#[trigger] nt[k]).1 == length_count(
                recs,
                nt[k].0 as int,
            ) && nt[k].1 > 0 by {
                if k != p {
                    assert(t[k].0 != t[p].0);
                }
            }
            assert forall|l: nat| #![trigger length_count(recs, l as int)]
                length_count(recs, l as int) > 0 implies exists|k: int| 0 <= k < nt.len() && nt[k].0 == l by {
                if l == len {
                    assert(nt[p].0 == l);
                } else {
                    assert(length_count(prev, l as int) > 0);
                    let k = choose|k: int| 0 <= k < t.len() && t[k].0 == l;
                    assert(nt[k].0 == l);
                }
            }
        } else {
            assert(length_count(prev, len as int) == 0) by {
                if length_count(prev, len as int) > 0 {
                    let k = choose|k: int| 0 <= k < t.len() && t[k].0 == len;
                    assert(t[k].0 != len);
                }
            }
            assert forall|a: int, b: int| 0 <= a < b < nt.len() implies #[trigger] nt[a].0
                != #[trigger] nt[b].0 by {
                if b < t.len() {
                    assert(t[a].0 != t[b].0);
                } else {
                    assert(t[a].0 != len);
                }
            }
            assert forall|k: int| 0 <= k < nt.len() implies (#[trigger] nt[k]).1 == length_count(
                recs,
                nt[k].0 as int,
            ) && nt[k].1 > 0 by {
                if k < t.len() {
                    assert(t[k].0 != len);
                }
            }
            assert forall|l: nat| #![trigger length_count(recs, l as int)]
                length_count(recs, l as int) > 0 implies exists|k: int| 0 <= k < nt.len() && nt[k].0 == l by {
                if l == len {
                    assert(nt[t.len() as int].0 == l);
                } else {
                    assert(length_count(prev, l as int) > 0);
                    let k = choose|k: int| 0 <= k < t.len() && t[k].0 == l;
                    assert(nt[k].0 == l);
                }
            }
        }
    }
}

/// Counts the reads of each sequence length.
pub struct ReadData {
    read_lengths: Vec<(usize, u64)>,
    records: Ghost<Seq<RecordView>>,
}

impl ReadData {
    /// An analyzer that has seen no record.
    pub fn new() -> (r: Self)
        ensures
            r.wf(),
            r.seen() == Seq::<RecordView>::empty(),
    {
        ReadData { read_lengths: Vec::new(), records: Ghost(Seq::empty()) }
    }

    /// The statistic of this run of records followed by the run of `other`: counts of
    /// equal lengths added, lengths new to this run appended in their order.
    pub fn merge(&self, other: &Self) -> (r: Self)
        requires
            self.wf(),
            other.wf(),
            self.seen().len() + other.seen().len() <= u64::MAX,
        ensures
            r.wf(),
            r.seen() == self.seen() + other.seen(),
    {
        let ghost a = self.records@;
        let ghost b = other.records@;
        let ghost ta = length_table(a);
        let ghost tb = length_table(b);
        proof {
            lemma_length_table(a);
            lemma_length_table(b);
            lemma_length_table(a + b);
            lemma_length_table_concat(a, b);
        }
        let mut entries = self.lengths();
        let mut j: usize = 0;
        assert(tb.take(0) =~= Seq::<(nat, nat)>::empty());
        while j < other.read_lengths.len()
            invariant
                table_matches(other.read_lengths@, tb),
                keys_unique(tb),
                is_length_distribution(length_table(a + b), a + b),
                length_table(a + b) == merge_tables(ta, tb),
                (a + b).len() <= u64::MAX,
                j <= tb.len(),
                table_matches(entries@, merge_tables(ta, tb.take(j as int))),
            decreases tb.len() - j,
        {
            let ghost m = merge_tables(ta, tb.take(j as int));
            let (len, c) = other.read_lengths[j];
            assert(tb.take(j + 1).drop_last() == tb.take(j as int));
            assert(tb.take(j + 1).last() == tb[j as int]);
            assert(keys_unique(tb.take(j + 1))) by {
                assert forall|x: int, y: int| 0 <= x < y < tb.take(j + 1).len() implies #[trigger] tb.take(
                    j + 1,
                )[x].0 != #[trigger] tb.take(j + 1)[y].0 by {
                    assert(tb[x].0 != tb[y].0);
                }
            }
            let mut pos: usize = 0;
            while pos < entries.len() && entries[pos].0 != len
                invariant
                    pos <= entries@.len(),
                    forall|k: int| 0 <= k < pos ==> (#[trigger] entries@[k]).0 != len,
                decreases entries@.len() - pos,
            {
                pos = pos + 1;
            }
            proof {
                lemma_key_position(m, len as nat);
                lemma_key_position(tb, len as nat);
                assert(keys_unique(tb.take(j as int))) by {
                    assert forall|x: int, y: int| 0 <= x < y < tb.take(j as int).len() implies #[trigger] tb.take(
                        j as int,
                    )[x].0 != #[trigger] tb.take(j as int)[y].0 by {
                        assert(tb[x].0 != tb[y].0);
                    }
                }
                lemma_count_merge(ta, tb.take(j as int), len as nat);
                lemma_count_merge(ta, tb.take(j + 1), len as nat);
                lemma_count_last(tb.take(j + 1), len as nat);
                lemma_count_merge(ta, tb, len as nat);
                lemma_key_position(tb.take(j + 1), len as nat);
                lemma_key_position(merge_tables(ta, tb), len as nat);
                lemma_merge_finds(ta, tb, len as nat);
                lemma_length_count_bound(a + b, len as int);
                let pb = key_position(tb, len as nat);
                assert(pb == j) by {
                    if pb < j {
                        assert(tb[pb].0 != tb[j as int].0);
                    }
                }
                let pj = key_position(tb.take(j + 1), len as nat);
                assert(pj == j) by {
                    if pj < j {
                        assert(tb[pj].0 != tb[j as int].0);
                    }
                }
                let pm = key_position(merge_tables(ta, tb), len as nat);
                assert(merge_tables(ta, tb)[pm].1 == length_count(a + b, len as int));
            }
            if pos < entries.len() {
                assert(key_position(m, len as nat) == pos) by {
                    let p = key_position(m, len as nat);
                    assert(entries@[pos as int].0 == m[pos as int].0);
                    if p >= 0 && p < pos {
                        assert(entries@[p].0 == m[p].0);
                    }
                }
                let count = entries[pos].1;
                assert(count + c == length_count(a + b, len as int));
                entries.set(pos, (len, count + c));
            } else {
                assert(key_position(m, len as nat) == -1) by {
                    let p = key_position(m, len as nat);
                    if p >= 0 {
                        assert(entries@[p].0 == m[p].0);
                    }
                }
                entries.push((len, c));
            }
            j = j + 1;
            assert(table_matches(entries@, merge_tables(ta, tb.take(j as int))));
        }
        assert(tb.take(tb.len() as int) == tb);
        ReadData { read_lengths: entries, records: Ghost(a + b) }
    }

    /// The length distribution, lengths in order of first appearance.
    pub fn lengths(&self) -> (r: Vec<(usize, u64)>)
        requires
            self.wf(),
        ensures
            table_matches(r@, length_table(self.seen())),
            is_length_distribution(length_table(self.seen()), self.seen()),
    {
        proof {
            lemma_length_table(self.records@);
        }
        let mut r: Vec<(usize, u64)> = Vec::new();
        let mut i: usize = 0;
        while i < self.read_lengths.len()
            invariant
                i <= self.read_lengths@.len(),
                r@ == self.read_lengths@.subrange(0, i as int),
            decreases self.read_lengths@.len() - i,
        {
            r.push(self.read_lengths[i]);
            i = i + 1;
        }
        assert(self.read_lengths@.subrange(0, self.read_lengths@.len() as int) == self.read_lengths@);
        r
    }
}

impl Output for ReadData {
    closed spec fn wf(&self) -> bool {
        table_matches(self.read_lengths@, length_table(self.records@))
    }

    fn out(&self) -> (r: Report)
        ensures
            r matches Report::ReadLengths(d) && table_matches(d@, length_table(self.seen())),
    {
        Report::ReadLengths(self.lengths())
    }
}

impl Statistic for ReadData {
    closed spec fn seen(&self) -> Seq<RecordView> {
        self.records@
    }

    fn process(&mut self, record: &FastqRecord) {
        let ghost recs = self.records@;
        let ghost next = recs.push(record@);
        let ghost t = length_table(recs);
        assert(next.drop_last() == recs);
        proof {
            lemma_length_table(recs);
            lemma_key_position(t, record.seq@.len());
        }
        let len = record.seq.len();
        let mut pos: usize = 0;
        while pos < self.read_lengths.len() && self.read_lengths[pos].0 != len
            invariant
                pos <= self.read_lengths@.len(),
                forall|k: int| 0 <= k < pos ==> (#[trigger] self.read_lengths@[k]).0 != len,
            decreases self.read_lengths@.len() - pos,
        {
            pos = pos + 1;
        }
        if pos < self.read_lengths.len() {
            assert(key_position(t, len as nat) == pos) by {
                let p = key_position(t, len as nat);
                assert(self.read_lengths@[pos as int].0 == t[pos as int].0);
                if p >= 0 && p < pos {
                    assert(self.read_lengths@[p].0 == t[p].0);
                }
            }
            proof {
                lemma_length_count_bound(recs, len as int);
            }
            let count = self.read_lengths[pos].1;
            self.read_lengths.set(pos, (len, count + 1));
        } else {
            assert(key_position(t, len as nat) == -1) by {
                let p = key_position(t, len as nat);
                if p >= 0 {
                    assert(self.read_lengths@[p].0 == t[p].0);
                }
            }
            self.read_lengths.push((len, 1));
        }
        self.records = Ghost(next);
        assert(table_matches(self.read_lengths@, length_table(next)));
    }
}

} // verus!
