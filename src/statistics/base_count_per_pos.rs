//! Nucleotide composition per read position.
use vstd::prelude::*;
use crate::record::{FastqRecord, RecordView};
use crate::runner::{Output, Report, Statistic};
use crate::statistics::nucleotides::{
    add_bases, copy_tallies, max_seq_len, merge_tallies, tally_slots_match, CountNucleotides,
};

verus! {

/// Counts the bases A, C, G, T and N at each position of the reads.
pub struct BaseCountPerPos {
    nuc_counts: Vec<CountNucleotides>,
    records: Ghost<Seq<RecordView>>,
}

impl BaseCountPerPos {
    /// An analyzer that has seen no record.
    pub fn new() -> (r: Self)
        ensures
            r.wf(),
            r.seen() == Seq::<RecordView>::empty(),
    {
        BaseCountPerPos { nuc_counts: Vec::new(), records: Ghost(Seq::empty()) }
    }

    /// The statistic of this run of records followed by the run of `other`: tallies
    /// added position by position.
    pub fn merge(&self, other: &Self) -> (r: Self)
        requires
            self.wf(),
            other.wf(),
            self.seen().len() + other.seen().len() <= u64::MAX,
        ensures
            r.wf(),
            r.seen() == self.seen() + other.seen(),
    {
        let nuc_counts = merge_tallies(&self.nuc_counts, &other.nuc_counts, self.records, other.records);
        BaseCountPerPos { nuc_counts, records: Ghost(self.records@ + other.records@) }
    }

    /// The tally of each position, up to the longest sequence seen.
    pub fn tallies(&self) -> (r: Vec<CountNucleotides>)
        requires
            self.wf(),
        ensures
            tally_slots_match(r@, self.seen()),
            r@.len() == max_seq_len(self.seen()),
    {
        copy_tallies(&self.nuc_counts)
    }
}

impl Output for BaseCountPerPos {
    closed spec fn wf(&self) -> bool {
        tally_slots_match(self.nuc_counts@, self.records@)
    }

    fn out(&self) -> (r: Report)
        ensures
            r matches Report::BaseComposition(t) && tally_slots_match(t@, self.seen()),
    {
        Report::BaseComposition(self.tallies())
    }
}

impl Statistic for BaseCountPerPos {
    closed spec fn seen(&self) -> Seq<RecordView> {
        self.records@
    }

    fn process(&mut self, record: &FastqRecord) {
        add_bases(&mut self.nuc_counts, record, self.records);
        self.records = Ghost(self.records@.push(record@));
    }
}

} // verus!
