//! Mean quality per read.
use vstd::prelude::*;
use crate::phred::Ratio;
use crate::record::{FastqRecord, RecordView};
use crate::runner::{Output, Report, Statistic};
use crate::statistics::read_quality::{
    add_read_mean, append_ratios, copy_ratios, lemma_read_means_concat, read_means,
};

verus! {

/// Computes the mean base quality of each read.
pub struct PhredPerRead {
    mean: Vec<Ratio>,
    records: Ghost<Seq<RecordView>>,
}

impl PhredPerRead {
    /// An analyzer that has seen no record.
    pub fn new() -> (r: Self)
        ensures
            r.wf(),
            r.seen() == Seq::<RecordView>::empty(),
    {
        PhredPerRead { mean: Vec::new(), records: Ghost(Seq::empty()) }
    }

    /// The statistic of this run of records followed by the run of `other`: the means
    /// of both, in order.
    pub fn merge(&self, other: &Self) -> (r: Self)
        requires
            self.wf(),
            other.wf(),
        ensures
            r.wf(),
            r.seen() == self.seen() + other.seen(),
    {
        let mut mean = copy_ratios(&self.mean);
        append_ratios(&mut mean, &other.mean);
        proof {
            lemma_read_means_concat(self.records@, other.records@);
        }
        PhredPerRead { mean, records: Ghost(self.records@ + other.records@) }
    }

    /// The mean quality of each read in which some unit decoded.
    pub fn means(&self) -> (r: Vec<Ratio>)
        requires
            self.wf(),
        ensures
            r@ == read_means(self.seen()),
    {
        copy_ratios(&self.mean)
    }
}

impl Output for PhredPerRead {
    closed spec fn wf(&self) -> bool {
        self.mean@ == read_means(self.records@)
    }

    fn out(&self) -> (r: Report)
        ensures
            r matches Report::QualityPerRead(m) && m@ == read_means(self.seen()),
    {
        Report::QualityPerRead(self.means())
    }
}

impl Statistic for PhredPerRead {
    closed spec fn seen(&self) -> Seq<RecordView> {
        self.records@
    }

    fn process(&mut self, record: &FastqRecord) {
        add_read_mean(&mut self.mean, record, self.records);
        self.records = Ghost(self.records@.push(record@));
    }
}

/// The reads to plot, as an inclusive index range over `len` reads: from `start` (the
/// first read when not given) to `end` (the last read when not given) when these make
/// a range within the reads, else all reads; `None` when there is no read.
pub fn plot_range(start: Option<u32>, end: Option<u32>, len: usize) -> (r: Option<(usize, usize)>)
    ensures
        len == 0 ==> r is None,
        len > 0 ==> r == Some(
            if requested_start(start) <= requested_end(end, len) < len {
                (requested_start(start) as usize, requested_end(end, len) as usize)
            } else {
                (0usize, (len - 1) as usize)
            },
        ),
{
    if len == 0 {
        return None;
    }
    let s: usize = match start {
        Some(v) => v as usize,
        None => 0,
    };
    let e: usize = match end {
        Some(v) => v as usize,
        None => len - 1,
    };
    if s <= e && e < len {
        Some((s, e))
    } else {
        Some((0, len - 1))
    }
}

/// First read asked for: 0 when none was given.
pub open spec fn requested_start(start: Option<u32>) -> int {
    match start {
        Some(v) => v as int,
        None => 0,
    }
}

/// Last read asked for: the last of `len` reads when none was given.
pub open spec fn requested_end(end: Option<u32>, len: usize) -> int {
    match end {
        Some(v) => v as int,
        None => len - 1,
    }
}

} // verus!
