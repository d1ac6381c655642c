//! GC percentage per read: the statistic of `BaseCountRead` under another name.
use vstd::prelude::*;
use crate::phred::Ratio;
use crate::record::{FastqRecord, RecordView};
use crate::runner::{Output, Report, Statistic};
use crate::statistics::gc_content::{
    gc_fraction, gc_values, is_gc_ratio, summarize_gc, summary_matches,
};
use crate::statistics::read_quality::{append_ratios, copy_ratios};

verus! {

/// Records the GC percentage of each read.
pub struct GcPerRead {
    gc: Vec<Ratio>,
    records: Ghost<Seq<RecordView>>,
}

impl GcPerRead {
    /// An analyzer that has seen no record.
    pub fn new() -> (r: Self)
        ensures
            r.wf(),
            r.seen() == Seq::<RecordView>::empty(),
    {
        assert(gc_values(Seq::empty()) =~= Seq::<crate::phred::Ratio>::empty());
        GcPerRead { gc: Vec::new(), records: Ghost(Seq::empty()) }
    }

    /// The statistic of this run of records followed by the run of `other`: the
    /// percentages of both, in order.
    pub fn merge(&self, other: &Self) -> (r: Self)
        requires
            self.wf(),
            other.wf(),
        ensures
            r.wf(),
            r.seen() == self.seen() + other.seen(),
    {
        let mut gc = copy_ratios(&self.gc);
        append_ratios(&mut gc, &other.gc);
        let r = GcPerRead { gc, records: Ghost(self.records@ + other.records@) };
        assert(r.gc@ =~= gc_values(r.records@));
        r
    }

    /// The GC percentage of each read, in arrival order.
    pub fn gc_percentages(&self) -> (r: Vec<Ratio>)
        requires
            self.wf(),
        ensures
            r@ == gc_values(self.seen()),
    {
        copy_ratios(&self.gc)
    }
}

impl Output for GcPerRead {
    closed spec fn wf(&self) -> bool {
        &&& self.gc@ == gc_values(self.records@)
        &&& forall|k: int| 0 <= k < self.gc@.len() ==> is_gc_ratio(#[trigger] self.gc@[k])
    }

    fn out(&self) -> (r: Report)
        ensures
            r matches Report::GcContent(s) && summary_matches(s, gc_values(self.seen())),
    {
        Report::GcContent(summarize_gc(&self.gc))
    }
}

impl Statistic for GcPerRead {
    closed spec fn seen(&self) -> Seq<RecordView> {
        self.records@
    }

    fn process(&mut self, record: &FastqRecord) {
        let v = gc_fraction(record.seq.as_slice());
        self.gc.push(v);
        self.records = Ghost(self.records@.push(record@));
        assert(self.gc@ == gc_values(self.records@));
    }
}

} // verus!
