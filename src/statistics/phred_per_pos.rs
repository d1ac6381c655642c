//! Mean quality per read position.
use vstd::prelude::*;
use crate::phred::Ratio;
use crate::record::{FastqRecord, RecordView};
use crate::runner::{Output, Report, Statistic};
use crate::statistics::position_quality::{
    add_qualities, max_qual_len, merge_quality_slots, quality_means, quality_means_match, quality_slots_match,
};

verus! {

/// Computes mean base quality for each position of the reads.
pub struct PhredPerPos {
    phred_sums: Vec<u128>,
    amounts: Vec<u64>,
    records: Ghost<Seq<RecordView>>,
}

impl PhredPerPos {
    /// An analyzer that has seen no record.
    pub fn new() -> (r: Self)
        ensures
            r.wf(),
            r.seen() == Seq::<RecordView>::empty(),
    {
        PhredPerPos { phred_sums: Vec::new(), amounts: Vec::new(), records: Ghost(Seq::empty()) }
    }

    /// Number of position slots: the length of the longest quality string seen.
    pub fn positions(&self) -> (r: usize)
        requires
            self.wf(),
        ensures
            r == max_qual_len(self.seen()),
    {
        self.phred_sums.len()
    }

    /// The statistic of this run of records followed by the run of `other`: slot-wise
    /// sums and counts added.
    pub fn merge(&self, other: &Self) -> (r: Self)
        requires
            self.wf(),
            other.wf(),
            self.seen().len() + other.seen().len() <= u64::MAX,
        ensures
            r.wf(),
            r.seen() == self.seen() + other.seen(),
    {
        let (phred_sums, amounts) = merge_quality_slots(
            &self.phred_sums,
            &self.amounts,
            &other.phred_sums,
            &other.amounts,
            self.records,
            other.records,
        );
        PhredPerPos { phred_sums, amounts, records: Ghost(self.records@ + other.records@) }
    }

    /// Mean quality of each position slot.
    pub fn means(&self) -> (r: Vec<Option<Ratio>>)
        requires
            self.wf(),
        ensures
            quality_means_match(r@, self.seen()),
    {
        quality_means(&self.phred_sums, &self.amounts, self.records)
    }
}

impl Output for PhredPerPos {
    closed spec fn wf(&self) -> bool {
        quality_slots_match(self.phred_sums@, self.amounts@, self.records@)
    }

    fn out(&self) -> (r: Report)
        ensures
            r matches Report::QualityPerPosition(m) && quality_means_match(m@, self.seen()),
    {
        Report::QualityPerPosition(self.means())
    }
}

impl Statistic for PhredPerPos {
    closed spec fn seen(&self) -> Seq<RecordView> {
        self.records@
    }

    fn process(&mut self, record: &FastqRecord) {
        add_qualities(&mut self.phred_sums, &mut self.amounts, record, self.records);
        self.records = Ghost(self.records@.push(record@));
    }
}

} // verus!
