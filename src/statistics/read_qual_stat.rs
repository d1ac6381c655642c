//! Mean quality per read: the statistic of `PhredPerRead` under another name.
use vstd::prelude::*;
use crate::phred::Ratio;
use crate::record::{FastqRecord, RecordView};
use crate::runner::{Output, Report, Statistic};
use crate::statistics::read_quality::{
    add_read_mean, append_ratios, copy_ratios, lemma_read_means_concat, read_means,
};

verus! {

/// Computes the mean base quality of each read.
pub struct ReadQualityStatistic {
    mean: Vec<Ratio>,
    records: Ghost<Seq<RecordView>>,
}

impl ReadQualityStatistic {
    /// An analyzer that has seen no record.
    pub fn new() -> (r: Self)
        ensures
            r.wf(),
            r.seen() == Seq::<RecordView>::empty(),
    {
        ReadQualityStatistic { mean: Vec::new(), records: Ghost(Seq::empty()) }
    }

    /// The statistic of this run of records followed by the run of `other`: the means
    /// of both, in order.
    pub fn merge(&self, other: &Self) -> (r: Self)
        requires
            self.wf(),
            other.wf(),
        ensures
            r.wf(),
            r.seen() == self.seen() + other.seen(),
    {
        let mut mean = copy_ratios(&self.mean);
        append_ratios(&mut mean, &other.mean);
        proof {
            lemma_read_means_concat(self.records@, other.records@);
        }
        ReadQualityStatistic { mean, records: Ghost(self.records@ + other.records@) }
    }

    /// The mean quality of each read in which some unit decoded.
    pub fn means(&self) -> (r: Vec<Ratio>)
        requires
            self.wf(),
        ensures
            r@ == read_means(self.seen()),
    {
        copy_ratios(&self.mean)
    }
}

impl Output for ReadQualityStatistic {
    closed spec fn wf(&self) -> bool {
        self.mean@ == read_means(self.records@)
    }

    fn out(&self) -> (r: Report)
        ensures
            r matches Report::QualityPerRead(m) && m@ == read_means(self.seen()),
    {
        Report::QualityPerRead(self.means())
    }
}

impl Statistic for ReadQualityStatistic {
    closed spec fn seen(&self) -> Seq<RecordView> {
        self.records@
    }

    fn process(&mut self, record: &FastqRecord) {
        add_read_mean(&mut self.mean, record, self.records);
        self.records = Ghost(self.records@.push(record@));
    }
}

} // verus!
