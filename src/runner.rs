//! The analyzer interface and the orchestrator that fans records out to analyzers.
use vstd::prelude::*;
use crate::phred::{decoded_count, Ratio};
use crate::record::{
    lemma_single_record, lines_view, record_at, records_of, stream_end_of, strip_newline,
    FastqRecord, RecordView, StreamEnd,
};
use crate::statistics::base_count_per_pos::BaseCountPerPos;
use crate::statistics::base_count_per_read::BaseCountRead;
use crate::statistics::base_qual_pos_stat::BaseQualityPosStatistic;
use crate::statistics::gc_content::{
    gc_percent, gc_values, is_first_max, is_first_min, ratio_le, summary_matches, GcSummary,
};
use crate::statistics::gc_per_read::GcPerRead;
use crate::statistics::nuc_table::NucTable;
use crate::statistics::nucleotides::{
    lemma_max_seq_len, max_seq_len, tally_slots_match, CountNucleotides,
};
use crate::statistics::phred_per_pos::PhredPerPos;
use crate::statistics::phred_per_read::PhredPerRead;
use crate::statistics::position_quality::{lemma_max_qual_len, max_qual_len, quality_means_match};
use crate::statistics::read_data::{
    key_position, lemma_key_position, lemma_length_table, length_table, table_matches, ReadData,
};
use crate::statistics::read_qual_stat::ReadQualityStatistic;
use crate::statistics::read_quality::read_means;

verus! {

/// The finalized, reportable result of a statistic.
pub trait Output {
    /// The accumulators are consistent with what was observed.
    spec fn wf(&self) -> bool;

    /// Derives the result from the accumulated state; reads the state only.
    fn out(&self) -> Report
        requires
            self.wf(),
    ;
}

/// A statistic over a stream of records: it observes each record once, in order, and
/// keeps its own accumulators.
pub trait Statistic: Output {
    /// The records observed so far, in arrival order.
    spec fn seen(&self) -> Seq<RecordView>;

    /// Observes one record. Never fails: units that do not decode are not counted.
    fn process(&mut self, record: &FastqRecord)
        requires
            old(self).wf(),
            old(self).seen().len() < u64::MAX,
        ensures
            final(self).wf(),
            final(self).seen() == old(self).seen().push(record@),
    ;
}

/// A finalized result, by kind of statistic.
#[derive(Debug, Clone, PartialEq, Eq)]
pub enum Report {
    /// Nucleotide tallies per position.
    BaseComposition(Vec<CountNucleotides>),
    /// GC percentage per read, with its extremes.
    GcContent(GcSummary),
    /// Mean quality per position; `None` where no unit decoded.
    QualityPerPosition(Vec<Option<Ratio>>),
    /// Mean quality per read, for the reads in which some unit decoded.
    QualityPerRead(Vec<Ratio>),
    /// Number of reads of each length, lengths in order of first appearance.
    ReadLengths(Vec<(usize, u64)>),
}

/// The kinds of statistic that a registry can hold; each names its result in the
/// output document.
#[derive(Debug, Clone, Copy, PartialEq, Eq, Structural)]
pub enum AnalyzerKind {
    BaseCountPerPos,
    BaseCountRead,
    PhredPerPos,
    PhredPerRead,
    ReadData,
    NucTable,
    GcPerRead,
    BaseQualityPosStatistic,
    ReadQualityStatistic,
}

/// `r` is the result that a statistic of kind `kind` derives from the records `recs`.
pub open spec fn report_describes(r: Report, kind: AnalyzerKind, recs: Seq<RecordView>) -> bool {
    match kind {
        AnalyzerKind::BaseCountPerPos | AnalyzerKind::NucTable => r matches Report::BaseComposition(
            t,
        ) && tally_slots_match(t@, recs),
        AnalyzerKind::BaseCountRead | AnalyzerKind::GcPerRead => r matches Report::GcContent(s)
            && summary_matches(s, gc_values(recs)),
        AnalyzerKind::PhredPerPos
        | AnalyzerKind::BaseQualityPosStatistic => r matches Report::QualityPerPosition(m)
            && quality_means_match(m@, recs),
        AnalyzerKind::PhredPerRead | AnalyzerKind::ReadQualityStatistic => r matches Report::QualityPerRead(m)
            && m@ == read_means(recs),
        AnalyzerKind::ReadData => r matches Report::ReadLengths(d) && table_matches(d@, length_table(recs)),
    }
}

/// One entry of the registry: a statistic of one of the built-in kinds with its state.
pub enum Analyzer {
    BaseCountPerPos(BaseCountPerPos),
    BaseCountRead(BaseCountRead),
    PhredPerPos(PhredPerPos),
    PhredPerRead(PhredPerRead),
    ReadData(ReadData),
    NucTable(NucTable),
    GcPerRead(GcPerRead),
    BaseQualityPosStatistic(BaseQualityPosStatistic),
    ReadQualityStatistic(ReadQualityStatistic),
}

impl Analyzer {
    /// The kind of the statistic held.
    pub open spec fn kind_of(&self) -> AnalyzerKind {
        match self {
            Analyzer::BaseCountPerPos(_) => AnalyzerKind::BaseCountPerPos,
            Analyzer::BaseCountRead(_) => AnalyzerKind::BaseCountRead,
            Analyzer::PhredPerPos(_) => AnalyzerKind::PhredPerPos,
            Analyzer::PhredPerRead(_) => AnalyzerKind::PhredPerRead,
            Analyzer::ReadData(_) => AnalyzerKind::ReadData,
            Analyzer::NucTable(_) => AnalyzerKind::NucTable,
            Analyzer::GcPerRead(_) => AnalyzerKind::GcPerRead,
            Analyzer::BaseQualityPosStatistic(_) => AnalyzerKind::BaseQualityPosStatistic,
            Analyzer::ReadQualityStatistic(_) => AnalyzerKind::ReadQualityStatistic,
        }
    }

    /// A fresh statistic of the given kind.
    pub fn new(kind: AnalyzerKind) -> (r: Self)
        ensures
            r.wf(),
            r.kind_of() == kind,
            r.seen() == Seq::<RecordView>::empty(),
    {
        match kind {
            AnalyzerKind::BaseCountPerPos => Analyzer::BaseCountPerPos(BaseCountPerPos::new()),
            AnalyzerKind::BaseCountRead => Analyzer::BaseCountRead(BaseCountRead::new()),
            AnalyzerKind::PhredPerPos => Analyzer::PhredPerPos(PhredPerPos::new()),
            AnalyzerKind::PhredPerRead => Analyzer::PhredPerRead(PhredPerRead::new()),
            AnalyzerKind::ReadData => Analyzer::ReadData(ReadData::new()),
            AnalyzerKind::NucTable => Analyzer::NucTable(NucTable::new()),
            AnalyzerKind::GcPerRead => Analyzer::GcPerRead(GcPerRead::new()),
            AnalyzerKind::BaseQualityPosStatistic => Analyzer::BaseQualityPosStatistic(
                BaseQualityPosStatistic::new(),
            ),
            AnalyzerKind::ReadQualityStatistic => Analyzer::ReadQualityStatistic(
                ReadQualityStatistic::new(),
            ),
        }
    }

    /// The kind of the statistic held.
    pub fn kind(&self) -> (r: AnalyzerKind)
        ensures
            r == self.kind_of(),
    {
        match self {
            Analyzer::BaseCountPerPos(_) => AnalyzerKind::BaseCountPerPos,
            Analyzer::BaseCountRead(_) => AnalyzerKind::BaseCountRead,
            Analyzer::PhredPerPos(_) => AnalyzerKind::PhredPerPos,
            Analyzer::PhredPerRead(_) => AnalyzerKind::PhredPerRead,
            Analyzer::ReadData(_) => AnalyzerKind::ReadData,
            Analyzer::NucTable(_) => AnalyzerKind::NucTable,
            Analyzer::GcPerRead(_) => AnalyzerKind::GcPerRead,
            Analyzer::BaseQualityPosStatistic(_) => AnalyzerKind::BaseQualityPosStatistic,
            Analyzer::ReadQualityStatistic(_) => AnalyzerKind::ReadQualityStatistic,
        }
    }
}

impl Analyzer {
    /// Merges two statistics of one kind, the first over a run of records and the
    /// second over the run that follows it; `None` when the kinds differ.
    pub fn merge(&self, other: &Analyzer) -> (r: Option<Analyzer>)
        requires
            self.wf(),
            other.wf(),
            self.seen().len() + other.seen().len() <= u64::MAX,
        ensures
            r is Some <==> self.kind_of() == other.kind_of(),
            r matches Some(m) ==> m.wf() && m.kind_of() == self.kind_of() && m.seen() == self.seen()
                + other.seen(),
    {
        match (self, other) {
            (Analyzer::BaseCountPerPos(x), Analyzer::BaseCountPerPos(y)) => Some(Analyzer::BaseCountPerPos(x.merge(y))),
            (Analyzer::BaseCountRead(x), Analyzer::BaseCountRead(y)) => Some(Analyzer::BaseCountRead(x.merge(y))),
            (Analyzer::PhredPerPos(x), Analyzer::PhredPerPos(y)) => Some(Analyzer::PhredPerPos(x.merge(y))),
            (Analyzer::PhredPerRead(x), Analyzer::PhredPerRead(y)) => Some(Analyzer::PhredPerRead(x.merge(y))),
            (Analyzer::ReadData(x), Analyzer::ReadData(y)) => Some(Analyzer::ReadData(x.merge(y))),
            (Analyzer::NucTable(x), Analyzer::NucTable(y)) => Some(Analyzer::NucTable(x.merge(y))),
            (Analyzer::GcPerRead(x), Analyzer::GcPerRead(y)) => Some(Analyzer::GcPerRead(x.merge(y))),
            (Analyzer::BaseQualityPosStatistic(x), Analyzer::BaseQualityPosStatistic(y)) => Some(Analyzer::BaseQualityPosStatistic(x.merge(y))),
            (Analyzer::ReadQualityStatistic(x), Analyzer::ReadQualityStatistic(y)) => Some(Analyzer::ReadQualityStatistic(x.merge(y))),
            _ => None,
        }
    }
}

impl Output for Analyzer {
    open spec fn wf(&self) -> bool {
        match self {
            Analyzer::BaseCountPerPos(a) => a.wf(),
            Analyzer::BaseCountRead(a) => a.wf(),
            Analyzer::PhredPerPos(a) => a.wf(),
            Analyzer::PhredPerRead(a) => a.wf(),
            Analyzer::ReadData(a) => a.wf(),
            Analyzer::NucTable(a) => a.wf(),
            Analyzer::GcPerRead(a) => a.wf(),
            Analyzer::BaseQualityPosStatistic(a) => a.wf(),
            Analyzer::ReadQualityStatistic(a) => a.wf(),
        }
    }

    fn out(&self) -> (r: Report)
        ensures
            report_describes(r, self.kind_of(), self.seen()),
    {
        match self {
            Analyzer::BaseCountPerPos(a) => a.out(),
            Analyzer::BaseCountRead(a) => a.out(),
            Analyzer::PhredPerPos(a) => a.out(),
            Analyzer::PhredPerRead(a) => a.out(),
            Analyzer::ReadData(a) => a.out(),
            Analyzer::NucTable(a) => a.out(),
            Analyzer::GcPerRead(a) => a.out(),
            Analyzer::BaseQualityPosStatistic(a) => a.out(),
            Analyzer::ReadQualityStatistic(a) => a.out(),
        }
    }
}

impl Statistic for Analyzer {
    open spec fn seen(&self) -> Seq<RecordView> {
        match self {
            Analyzer::BaseCountPerPos(a) => a.seen(),
            Analyzer::BaseCountRead(a) => a.seen(),
            Analyzer::PhredPerPos(a) => a.seen(),
            Analyzer::PhredPerRead(a) => a.seen(),
            Analyzer::ReadData(a) => a.seen(),
            Analyzer::NucTable(a) => a.seen(),
            Analyzer::GcPerRead(a) => a.seen(),
            Analyzer::BaseQualityPosStatistic(a) => a.seen(),
            Analyzer::ReadQualityStatistic(a) => a.seen(),
        }
    }

    fn process(&mut self, record: &FastqRecord)
        ensures
            final(self).kind_of() == old(self).kind_of(),
    {
        match self {
            Analyzer::BaseCountPerPos(a) => a.process(record),
            Analyzer::BaseCountRead(a) => a.process(record),
            Analyzer::PhredPerPos(a) => a.process(record),
            Analyzer::PhredPerRead(a) => a.process(record),
            Analyzer::ReadData(a) => a.process(record),
            Analyzer::NucTable(a) => a.process(record),
            Analyzer::GcPerRead(a) => a.process(record),
            Analyzer::BaseQualityPosStatistic(a) => a.process(record),
            Analyzer::ReadQualityStatistic(a) => a.process(record),
        }
    }
}

/// Drives a registry of statistics over a stream of records: every record goes to
/// every statistic, in registration order.
pub struct WorkflowRunner {
    statistics: Vec<Analyzer>,
    records: u64,
    seen: Ghost<Seq<RecordView>>,
}

impl WorkflowRunner {
    /// Every statistic is consistent and has seen exactly the records of the run.
    pub closed spec fn wf(&self) -> bool {
        &&& self.records == self.seen@.len()
        &&& forall|i: int|
            0 <= i < self.statistics@.len() ==> (#[trigger] self.statistics@[i]).wf()
                && self.statistics@[i].seen() == self.seen@
    }

    /// The records of the run so far, in order.
    pub closed spec fn seen(&self) -> Seq<RecordView> {
        self.seen@
    }

    /// The kinds of the registered statistics, in registration order.
    pub closed spec fn kinds(&self) -> Seq<AnalyzerKind> {
        self.statistics@.map_values(|a: Analyzer| a.kind_of())
    }

    /// A runner over fresh statistics of the given kinds, in that order.
    pub fn new(kinds: &Vec<AnalyzerKind>) -> (r: Self)
        ensures
            r.wf(),
            r.seen() == Seq::<RecordView>::empty(),
            r.kinds() == kinds@,
    {
        let mut statistics: Vec<Analyzer> = Vec::new();
        let mut i: usize = 0;
        while i < kinds.len()
            invariant
                i <= kinds@.len(),
                statistics@.len() == i,
                forall|j: int| 0 <= j < i ==> (#[trigger] statistics@[j]).wf()
                    && statistics@[j].seen() == Seq::<RecordView>::empty()
                    && statistics@[j].kind_of() == kinds@[j],
            decreases kinds@.len() - i,
        {
            statistics.push(Analyzer::new(kinds[i]));
            i = i + 1;
        }
        let r = WorkflowRunner { statistics, records: 0, seen: Ghost(Seq::empty()) };
        assert(r.kinds() =~= kinds@);
        r
    }

    /// Number of records processed so far.
    pub fn records(&self) -> (r: u64)
        requires
            self.wf(),
        ensures
            r == self.seen().len(),
    {
        self.records
    }

    /// Reads the record whose cycle starts at line `start`: the end of input when no line is
    /// left, a truncated record when one to three lines are left.
    pub fn parse_record(lines: &Vec<Vec<u8>>, start: usize) -> (r: Result<FastqRecord, StreamEnd>)
        requires
            start <= lines@.len(),
        ensures
            lines@.len() - start == 0 ==> r == Err::<FastqRecord, StreamEnd>(StreamEnd::EndOfInput),
            0 < lines@.len() - start < 4 ==> r == Err::<FastqRecord, StreamEnd>(
                StreamEnd::TruncatedRecord,
            ),
            lines@.len() - start >= 4 ==> (r matches Ok(rec) && rec@ == record_at(
                lines_view(lines@),
                start as int,
            )),
    {
        let left = lines.len() - start;
        if left == 0 {
            return Err(StreamEnd::EndOfInput);
        }
        if left < 4 {
            return Err(StreamEnd::TruncatedRecord);
        }
        let seq = strip_newline(&lines[start + 1]);
        let qual = strip_newline(&lines[start + 3]);
        Ok(FastqRecord { seq, qual })
    }

    /// Hands one record to every statistic, in registration order.
    fn fan_out(&mut self, record: &FastqRecord)
        requires
            old(self).wf(),
            old(self).seen().len() < u64::MAX,
        ensures
            final(self).wf(),
            final(self).seen() == old(self).seen().push(record@),
            final(self).kinds() == old(self).kinds(),
    {
        let ghost before = self.seen@;
        let ghost kinds = self.kinds();
        let mut i: usize = 0;
        while i < self.statistics.len()
            invariant
                i <= self.statistics@.len(),
                self.seen@ == before,
                self.records == before.len(),
                before.len() < u64::MAX,
                self.statistics@.map_values(|a: Analyzer| a.kind_of()) == kinds,
                forall|j: int|
                    0 <= j < self.statistics@.len() ==> (#[trigger] self.statistics@[j]).wf(),
                forall|j: int|
                    0 <= j < i ==> (#[trigger] self.statistics@[j]).seen() == before.push(record@),
                forall|j: int|
                    i <= j < self.statistics@.len() ==> (#[trigger] self.statistics@[j]).seen() == before,
            decreases self.statistics@.len() - i,
        {
            self.statistics[i].process(record);
            assert(self.statistics@.map_values(|a: Analyzer| a.kind_of()) =~= kinds);
            i = i + 1;
        }
        self.seen = Ghost(before.push(record@));
        self.records = self.records + 1;
    }

    /// Processes the lines of a stream: each complete four-line record goes to every
    /// statistic. Returns how the stream ended; a truncated last record reaches no
    /// statistic.
    pub fn process(&mut self, lines: &Vec<Vec<u8>>) -> (r: StreamEnd)
        requires
            old(self).wf(),
            old(self).seen().len() + lines@.len() / 4 < u64::MAX,
        ensures
            final(self).wf(),
            final(self).kinds() == old(self).kinds(),
            final(self).seen() == old(self).seen() + records_of(lines_view(lines@)),
            r == stream_end_of(lines_view(lines@)),
    {
        let ghost lv = lines_view(lines@);
        let ghost base = self.seen@;
        let ghost kinds = old(self).kinds();
        let n = lines.len();
        let mut start: usize = 0;
        loop
            invariant
                n == lines@.len(),
                kinds == old(self).kinds(),
                base == old(self).seen(),
                lv == lines_view(lines@),
                lv.len() == lines@.len(),
                start % 4 == 0,
                start <= lines@.len(),
                self.wf(),
                self.kinds() == kinds,
                self.seen() == base + records_of(lv).take(start as int / 4),
                base.len() + lines@.len() / 4 < u64::MAX,
            decreases lines@.len() - start,
        {
            match Self::parse_record(lines, start) {
                Ok(record) => {
                    assert(start + 4 <= lines@.len());
                    proof {
                        assert(records_of(lv)[start as int / 4] == record_at(lv, start as int));
                        assert(records_of(lv).take(start as int / 4 + 1) == records_of(lv).take(start as int
                            / 4).push(record@));
                    }
                    self.fan_out(&record);
                    assert(self.seen() == base + records_of(lv).take(start as int / 4 + 1));
                    start = start + 4;
                },
                Err(end) => {
                    assert(records_of(lv).take(start as int / 4) == records_of(lv));
                    return end;
                },
            }
        }
    }

    /// The finalized result of each statistic, in registration order.
    pub fn reports(&self) -> (r: Vec<Report>)
        requires
            self.wf(),
        ensures
            r@.len() == self.kinds().len(),
            forall|i: int|
                0 <= i < r@.len() ==> report_describes(#[trigger] r@[i], self.kinds()[i], self.seen()),
    {
        let mut r: Vec<Report> = Vec::new();
        let mut i: usize = 0;
        while i < self.statistics.len()
            invariant
                self.wf(),
                i <= self.statistics@.len(),
                r@.len() == i,
                forall|j: int|
                    0 <= j < i ==> report_describes(
                        #[trigger] r@[j],
                        self.statistics@[j].kind_of(),
                        self.seen(),
                    ),
            decreases self.statistics@.len() - i,
        {
            r.push(self.statistics[i].out());
            i = i + 1;
        }
        r
    }

    /// Merges the runner over one part of a stream with the runner over the part that
    /// follows: each statistic with the one registered at the same place. `None` when
    /// the registries differ.
    pub fn merge(&self, other: &WorkflowRunner) -> (r: Option<WorkflowRunner>)
        requires
            self.wf(),
            other.wf(),
            self.seen().len() + other.seen().len() < u64::MAX,
        ensures
            r is Some <==> self.kinds() == other.kinds(),
            r matches Some(m) ==> m.wf() && m.kinds() == self.kinds() && m.seen() == self.seen()
                + other.seen(),
    {
        if self.statistics.len() != other.statistics.len() {
            assert(self.kinds().len() != other.kinds().len());
            return None;
        }
        let ghost joined = self.seen@ + other.seen@;
        let mut statistics: Vec<Analyzer> = Vec::new();
        let mut i: usize = 0;
        while i < self.statistics.len()
            invariant
                self.wf(),
                other.wf(),
                self.statistics@.len() == other.statistics@.len(),
                self.seen().len() + other.seen().len() < u64::MAX,
                joined == self.seen@ + other.seen@,
                i <= self.statistics@.len(),
                statistics@.len() == i,
                forall|j: int| 0 <= j < i ==> self.statistics@[j].kind_of() == other.statistics@[j].kind_of(),
                forall|j: int|
                    0 <= j < i ==> (#[trigger] statistics@[j]).wf() && statistics@[j].seen() == joined
                        && statistics@[j].kind_of() == self.statistics@[j].kind_of(),
            decreases self.statistics@.len() - i,
        {
            match self.statistics[i].merge(&other.statistics[i]) {
                Some(m) => statistics.push(m),
                None => {
                    assert(self.kinds()[i as int] != other.kinds()[i as int]);
                    return None;
                },
            }
            i = i + 1;
        }
        let r = WorkflowRunner { statistics, records: self.records + other.records, seen: Ghost(joined) };
        assert(r.kinds() =~= self.kinds());
        assert(self.kinds() =~= other.kinds());
        Some(r)
    }

    /// Ends the run and hands the statistics out, in registration order.
    pub fn finalize(self) -> (r: Vec<Analyzer>)
        requires
            self.wf(),
        ensures
            r@.map_values(|a: Analyzer| a.kind_of()) == self.kinds(),
            forall|i: int|
                0 <= i < r@.len() ==> (#[trigger] r@[i]).wf() && r@[i].seen() == self.seen(),
    {
        self.statistics
    }
}

/// Along a run the accumulators only grow: the per-position ones from the first `i`
/// records to the first `j`, as do the per-read ones. Each per-position accumulator is
/// as long as the longest read seen so far and never longer: no read seen is longer,
/// and one has that length unless it is 0. A per-read accumulator has at most one
/// entry per read.
pub proof fn lemma_accumulators_grow(recs: Seq<RecordView>, i: int, j: int)
    requires
        0 <= i <= j <= recs.len(),
    ensures
        max_qual_len(recs.take(i)) <= max_qual_len(recs.take(j)),
        max_seq_len(recs.take(i)) <= max_seq_len(recs.take(j)),
        read_means(recs.take(i)).len() <= read_means(recs.take(j)).len(),
        gc_values(recs.take(i)).len() <= gc_values(recs.take(j)).len(),
        length_table(recs.take(i)).len() <= length_table(recs.take(j)).len(),
        read_means(recs.take(j)).len() <= j,
        gc_values(recs.take(j)).len() == j,
        length_table(recs.take(j)).len() <= j,
        forall|k: int| 0 <= k < j ==> (#[trigger] recs[k]).qual.len() <= max_qual_len(recs.take(j))
            && recs[k].seq.len() <= max_seq_len(recs.take(j)),
        max_qual_len(recs.take(j)) == 0 || exists|k: int|
            0 <= k < j && (#[trigger] recs[k]).qual.len() == max_qual_len(recs.take(j)),
        max_seq_len(recs.take(j)) == 0 || exists|k: int|
            0 <= k < j && (#[trigger] recs[k]).seq.len() == max_seq_len(recs.take(j)),
    decreases j - i,
{
    let pj = recs.take(j);
    lemma_max_qual_len(pj);
    lemma_max_seq_len(pj);
    lemma_length_table(pj);
    lemma_read_means_len(pj);
    assert forall|k: int| 0 <= k < j implies #[trigger] recs[k] == pj[k] by {}
    if max_qual_len(pj) != 0 {
        let k = choose|k: int| 0 <= k < pj.len() && (#[trigger] pj[k]).qual.len() == max_qual_len(pj);
        assert(recs[k] == pj[k]);
    }
    if max_seq_len(pj) != 0 {
        let k = choose|k: int| 0 <= k < pj.len() && (#[trigger] pj[k]).seq.len() == max_seq_len(pj);
        assert(recs[k] == pj[k]);
    }
    if i < j {
        lemma_accumulators_grow(recs, i, j - 1);
        let prev = recs.take(j - 1);
        assert(pj.drop_last() == prev);
        let t = length_table(prev);
        lemma_key_position(t, pj.last().seq.len());
    }
}

/// A per-read accumulator has at most one entry per read.
pub proof fn lemma_read_means_len(recs: Seq<RecordView>)
    ensures
        read_means(recs).len() <= recs.len(),
    decreases recs.len(),
{
    if recs.len() > 0 {
        lemma_read_means_len(recs.drop_last());
    }
}

/// The mathematical content of a finalized result.
pub enum ReportView {
    BaseComposition(Seq<CountNucleotides>),
    GcContent(Seq<Ratio>, Option<Ratio>, Option<Ratio>),
    QualityPerPosition(Seq<Option<Ratio>>),
    QualityPerRead(Seq<Ratio>),
    ReadLengths(Seq<(usize, u64)>),
}

impl View for Report {
    type V = ReportView;

    open spec fn view(&self) -> ReportView {
        match self {
            Report::BaseComposition(t) => ReportView::BaseComposition(t@),
            Report::GcContent(s) => ReportView::GcContent(s.values@, s.min, s.max),
            Report::QualityPerPosition(m) => ReportView::QualityPerPosition(m@),
            Report::QualityPerRead(m) => ReportView::QualityPerRead(m@),
            Report::ReadLengths(d) => ReportView::ReadLengths(d@),
        }
    }
}

/// Finalizing is idempotent: the result is fixed by the kind of statistic and the
/// records it has seen, so two finalizations of one state give the same result.
pub proof fn lemma_report_determined(kind: AnalyzerKind, recs: Seq<RecordView>, r1: Report, r2: Report)
    requires
        report_describes(r1, kind, recs),
        report_describes(r2, kind, recs),
    ensures
        r1@ == r2@,
{
    match (r1, r2) {
        (Report::BaseComposition(t1), Report::BaseComposition(t2)) => {
            assert forall|i: int| 0 <= i < t1@.len() implies t1@[i] == t2@[i] by {
                assert(t1@[i].count_of(0) == t2@[i].count_of(0));
                assert(t1@[i].count_of(1) == t2@[i].count_of(1));
                assert(t1@[i].count_of(2) == t2@[i].count_of(2));
                assert(t1@[i].count_of(3) == t2@[i].count_of(3));
                assert(t1@[i].count_of(4) == t2@[i].count_of(4));
            }
            assert(t1@ == t2@);
        },
        (Report::GcContent(s1), Report::GcContent(s2)) => {
            let v = gc_values(recs);
            if v.len() > 0 {
                let a1 = choose|j: int| is_first_min(v, j) && v[j] == s1.min->0;
                let a2 = choose|j: int| is_first_min(v, j) && v[j] == s2.min->0;
                if a1 < a2 {
                    assert(ratio_le(v[a1], v[a2]));
                } else if a2 < a1 {
                    assert(ratio_le(v[a2], v[a1]));
                }
                let b1 = choose|j: int| is_first_max(v, j) && v[j] == s1.max->0;
                let b2 = choose|j: int| is_first_max(v, j) && v[j] == s2.max->0;
                if b1 < b2 {
                    assert(ratio_le(v[b2], v[b1]));
                } else if b2 < b1 {
                    assert(ratio_le(v[b1], v[b2]));
                }
            }
        },
        (Report::QualityPerPosition(m1), Report::QualityPerPosition(m2)) => {
            assert forall|i: int| 0 <= i < m1@.len() implies m1@[i] == m2@[i] by {
                if m1@[i] is Some {
                    assert(m2@[i] is Some);
                }
            }
            assert(m1@ == m2@);
        },
        (Report::QualityPerRead(m1), Report::QualityPerRead(m2)) => {},
        (Report::ReadLengths(d1), Report::ReadLengths(d2)) => {
            assert(d1@ == d2@);
        },
        _ => {},
    }
}

/// A stream of exactly one whole record ends normally, and every per-read accumulator
/// then holds one entry, for that record: its GC percentage, its length, and its mean
/// quality when some unit of it decodes.
pub proof fn lemma_single_record_stream(lines: Seq<Seq<u8>>)
    requires
        lines.len() == 4,
    ensures
        stream_end_of(lines) == StreamEnd::EndOfInput,
        records_of(lines) == seq![record_at(lines, 0)],
        gc_values(records_of(lines)) == seq![gc_percent(record_at(lines, 0).seq)],
        length_table(records_of(lines)) == seq![(record_at(lines, 0).seq.len(), 1nat)],
        decoded_count(record_at(lines, 0).qual) > 0 ==> read_means(records_of(lines)).len() == 1,
{
    lemma_single_record(lines);
    let recs = records_of(lines);
    assert(recs.drop_last() =~= Seq::<RecordView>::empty());
    assert(recs.last() == record_at(lines, 0));
    assert(length_table(recs.drop_last()) == Seq::<(nat, nat)>::empty());
    assert(read_means(recs.drop_last()) == Seq::<Ratio>::empty());
    assert(key_position(Seq::<(nat, nat)>::empty(), record_at(lines, 0).seq.len()) == -1);
    assert(gc_values(recs) =~= seq![gc_percent(record_at(lines, 0).seq)]);
    assert(length_table(recs) =~= seq![(record_at(lines, 0).seq.len(), 1nat)]);
}

} // verus!
