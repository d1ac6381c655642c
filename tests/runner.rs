use fastq_scan::phred::Ratio;
use fastq_scan::record::{FastqRecord, StreamEnd};
use fastq_scan::runner::{Analyzer, AnalyzerKind, Output, Report, Statistic, WorkflowRunner};
use fastq_scan::statistics::base_count_per_pos::BaseCountPerPos;
use fastq_scan::statistics::base_count_per_read::BaseCountRead;
use fastq_scan::statistics::nucleotides::CountNucleotides;
use fastq_scan::statistics::phred_per_pos::PhredPerPos;
use fastq_scan::statistics::phred_per_read::PhredPerRead;

fn lines(text: &str) -> Vec<Vec<u8>> {
    let mut out = Vec::new();
    let mut current = Vec::new();
    for b in text.bytes() {
        current.push(b);
        if b == b'\n' {
            out.push(std::mem::take(&mut current));
        }
    }
    if !current.is_empty() {
        out.push(current);
    }
    out
}

fn all_kinds() -> Vec<AnalyzerKind> {
    vec![
        AnalyzerKind::BaseCountPerPos,
        AnalyzerKind::BaseCountRead,
        AnalyzerKind::PhredPerPos,
        AnalyzerKind::PhredPerRead,
        AnalyzerKind::ReadData,
    ]
}

#[test]
fn parse_record_reads_sequence_and_quality() {
    let input = lines("@r1\nACGT\n+\nIIII\n");
    let rec = WorkflowRunner::parse_record(&input, 0).unwrap();
    assert_eq!(rec, FastqRecord { seq: b"ACGT".to_vec(), qual: b"IIII".to_vec() });
    assert_eq!(WorkflowRunner::parse_record(&input, 4), Err(StreamEnd::EndOfInput));
    assert_eq!(WorkflowRunner::parse_record(&input, 2), Err(StreamEnd::TruncatedRecord));
}

#[test]
fn parse_record_keeps_last_line_without_newline() {
    let input = lines("@r1\nAC\n+\n#I");
    let rec = WorkflowRunner::parse_record(&input, 0).unwrap();
    assert_eq!(rec.seq, b"AC".to_vec());
    assert_eq!(rec.qual, b"#I".to_vec());
}

#[test]
fn one_record_then_end_of_input() {
    let mut runner = WorkflowRunner::new(&all_kinds());
    let end = runner.process(&lines("@r1\nGCAT\n+\nII#I\n"));
    assert_eq!(end, StreamEnd::EndOfInput);
    assert_eq!(runner.records(), 1);
    let reports = runner.reports();
    assert_eq!(reports.len(), 5);
    match &reports[1] {
        Report::GcContent(s) => {
            assert_eq!(s.values.len(), 1);
            assert_eq!(s.values[0], Ratio { num: 200, den: 4 });
        }
        _ => panic!("wrong report kind"),
    }
    match &reports[3] {
        Report::QualityPerRead(m) => {
            assert_eq!(m.len(), 1);
            assert_eq!(m[0], Ratio { num: 122, den: 4 });
        }
        _ => panic!("wrong report kind"),
    }
    match &reports[4] {
        Report::ReadLengths(d) => assert_eq!(d, &vec![(4usize, 1u64)]),
        _ => panic!("wrong report kind"),
    }
}

#[test]
fn truncated_record_reaches_no_analyzer() {
    let mut runner = WorkflowRunner::new(&all_kinds());
    let end = runner.process(&lines("@r1\nGCAT\n+\nIIII\n@r2\nGGGG\n"));
    assert_eq!(end, StreamEnd::TruncatedRecord);
    assert_eq!(runner.records(), 1);
    match &runner.reports()[4] {
        Report::ReadLengths(d) => assert_eq!(d, &vec![(4usize, 1u64)]),
        _ => panic!("wrong report kind"),
    }
}

#[test]
fn empty_stream_is_end_of_input() {
    let mut runner = WorkflowRunner::new(&all_kinds());
    assert_eq!(runner.process(&Vec::new()), StreamEnd::EndOfInput);
    assert_eq!(runner.records(), 0);
}

#[test]
fn read_length_distribution() {
    let mut runner = WorkflowRunner::new(&vec![AnalyzerKind::ReadData]);
    let mut text = String::new();
    for len in [100usize, 100, 98, 100] {
        text.push_str("@r\n");
        text.push_str(&"A".repeat(len));
        text.push_str("\n+\n");
        text.push_str(&"I".repeat(len));
        text.push('\n');
    }
    assert_eq!(runner.process(&lines(&text)), StreamEnd::EndOfInput);
    match &runner.reports()[0] {
        Report::ReadLengths(d) => assert_eq!(d, &vec![(100usize, 3u64), (98usize, 1u64)]),
        _ => panic!("wrong report kind"),
    }
}

#[test]
fn quality_per_position_uses_slot_counts() {
    let mut runner = WorkflowRunner::new(&vec![AnalyzerKind::PhredPerPos]);
    // '+' is 10, '5' is 20; the second read is shorter.
    runner.process(&lines("@a\nAAA\n+\n+++\n@b\nA\n+\n5\n"));
    match &runner.reports()[0] {
        Report::QualityPerPosition(m) => {
            assert_eq!(m.len(), 3);
            assert_eq!(m[0], Some(Ratio { num: 30, den: 2 }));
            assert_eq!(m[1], Some(Ratio { num: 10, den: 1 }));
            assert_eq!(m[2], Some(Ratio { num: 10, den: 1 }));
        }
        _ => panic!("wrong report kind"),
    }
}

#[test]
fn quality_slot_without_decodable_unit_has_no_mean() {
    let mut runner = WorkflowRunner::new(&vec![AnalyzerKind::PhredPerPos]);
    runner.process(&lines("@a\nAA\n+\n+\x7f\n"));
    match &runner.reports()[0] {
        Report::QualityPerPosition(m) => assert_eq!(m, &vec![Some(Ratio { num: 10, den: 1 }), None]),
        _ => panic!("wrong report kind"),
    }
}

#[test]
fn composition_per_position() {
    let mut runner = WorkflowRunner::new(&vec![AnalyzerKind::BaseCountPerPos]);
    runner.process(&lines("@a\nACGTN\n+\nIIIII\n@b\nAG\n+\nII\n"));
    match &runner.reports()[0] {
        Report::BaseComposition(t) => {
            assert_eq!(t.len(), 5);
            assert_eq!(t[0], CountNucleotides { a: 2, c: 0, g: 0, t: 0, n: 0 });
            assert_eq!(t[1], CountNucleotides { a: 0, c: 1, g: 1, t: 0, n: 0 });
            assert_eq!(t[4], CountNucleotides { a: 0, c: 0, g: 0, t: 0, n: 1 });
            assert_eq!(t[1].get_gc_percentage(), Ratio { num: 200, den: 2 });
        }
        _ => panic!("wrong report kind"),
    }
}

#[test]
fn gc_summary_extremes() {
    let mut runner = WorkflowRunner::new(&vec![AnalyzerKind::GcPerRead]);
    runner.process(&lines("@a\nGCGC\n+\nIIII\n@b\nATAT\n+\nIIII\n@c\n\n+\n\n"));
    match &runner.reports()[0] {
        Report::GcContent(s) => {
            assert_eq!(s.values, vec![
                Ratio { num: 400, den: 4 },
                Ratio { num: 0, den: 4 },
                Ratio { num: 0, den: 1 },
            ]);
            assert_eq!(s.min, Some(Ratio { num: 0, den: 4 }));
            assert_eq!(s.max, Some(Ratio { num: 400, den: 4 }));
        }
        _ => panic!("wrong report kind"),
    }
}

#[test]
fn finalize_twice_gives_identical_reports() {
    let mut runner = WorkflowRunner::new(&all_kinds());
    runner.process(&lines("@a\nGCGT\n+\nII#I\n@b\nAT\n+\n5+\n"));
    let first = runner.reports();
    let second = runner.reports();
    assert_eq!(first, second);
    let stats = runner.finalize();
    assert_eq!(stats.len(), 5);
    assert_eq!(stats[2].kind(), AnalyzerKind::PhredPerPos);
}

#[test]
fn analyzers_process_directly() {
    let rec = FastqRecord { seq: b"GGA".to_vec(), qual: b"+++".to_vec() };
    let mut a = Analyzer::new(AnalyzerKind::ReadQualityStatistic);
    a.process(&rec);
    assert_eq!(a.out(), Report::QualityPerRead(vec![Ratio { num: 30, den: 3 }]));
    let mut b = Analyzer::new(AnalyzerKind::BaseQualityPosStatistic);
    b.process(&rec);
    assert_eq!(
        b.out(),
        Report::QualityPerPosition(vec![Some(Ratio { num: 10, den: 1 }); 3])
    );
    let mut c = Analyzer::new(AnalyzerKind::NucTable);
    c.process(&rec);
    match c.out() {
        Report::BaseComposition(t) => assert_eq!(t[0].g, 1),
        _ => panic!("wrong report kind"),
    }
}

#[test]
fn stream_of_two_lines_is_truncated() {
    let mut runner = WorkflowRunner::new(&all_kinds());
    assert_eq!(runner.process(&lines("@r1\nACGT\n")), StreamEnd::TruncatedRecord);
    assert_eq!(runner.records(), 0);
    for report in runner.reports() {
        match report {
            Report::BaseComposition(t) => assert!(t.is_empty()),
            Report::GcContent(s) => assert!(s.values.is_empty() && s.min.is_none()),
            Report::QualityPerPosition(m) => assert!(m.is_empty()),
            Report::QualityPerRead(m) => assert!(m.is_empty()),
            Report::ReadLengths(d) => assert!(d.is_empty()),
        }
    }
}

#[test]
fn accumulator_sizes_follow_longest_read() {
    let mut runner = WorkflowRunner::new(&vec![AnalyzerKind::PhredPerPos, AnalyzerKind::NucTable]);
    let mut sizes = Vec::new();
    for rec in ["@a\nACG\n+\nIII\n", "@b\nA\n+\nI\n", "@c\nACGTA\n+\nIIIII\n", "@d\nAC\n+\nII\n"] {
        runner.process(&lines(rec));
        let reports = runner.reports();
        let q = match &reports[0] {
            Report::QualityPerPosition(m) => m.len(),
            _ => panic!("wrong report kind"),
        };
        let c = match &reports[1] {
            Report::BaseComposition(t) => t.len(),
            _ => panic!("wrong report kind"),
        };
        sizes.push((q, c));
    }
    assert_eq!(sizes, vec![(3, 3), (3, 3), (5, 5), (5, 5)]);
}

#[test]
fn merged_chunks_match_sequential_run() {
    let recs = vec![
        FastqRecord { seq: b"ACGT".to_vec(), qual: b"II#I".to_vec() },
        FastqRecord { seq: b"GG".to_vec(), qual: b"5+".to_vec() },
        FastqRecord { seq: b"TTAGC".to_vec(), qual: b"+++++".to_vec() },
    ];
    let mut seq_q = PhredPerPos::new();
    let mut seq_c = BaseCountPerPos::new();
    let mut seq_r = PhredPerRead::new();
    let mut seq_g = BaseCountRead::new();
    for r in &recs {
        seq_q.process(r);
        seq_c.process(r);
        seq_r.process(r);
        seq_g.process(r);
    }
    let (mut q1, mut q2) = (PhredPerPos::new(), PhredPerPos::new());
    let (mut c1, mut c2) = (BaseCountPerPos::new(), BaseCountPerPos::new());
    let (mut r1, mut r2) = (PhredPerRead::new(), PhredPerRead::new());
    let (mut g1, mut g2) = (BaseCountRead::new(), BaseCountRead::new());
    q1.process(&recs[0]);
    c1.process(&recs[0]);
    r1.process(&recs[0]);
    g1.process(&recs[0]);
    for r in &recs[1..] {
        q2.process(r);
        c2.process(r);
        r2.process(r);
        g2.process(r);
    }
    assert_eq!(q1.merge(&q2).out(), seq_q.out());
    assert_eq!(c1.merge(&c2).out(), seq_c.out());
    assert_eq!(r1.merge(&r2).out(), seq_r.out());
    assert_eq!(g1.merge(&g2).out(), seq_g.out());
    assert_eq!(q1.merge(&q2).positions(), 5);
}

#[test]
fn runners_over_parts_merge_to_whole_run() {
    let text = "@a\nACGT\n+\nII#I\n@b\nGG\n+\n5+\n@c\nACGT\n+\n++++\n@d\nT\n+\n\x01\n";
    let all = lines(text);
    let mut whole = WorkflowRunner::new(&all_kinds());
    assert_eq!(whole.process(&all), StreamEnd::EndOfInput);
    let mut first = WorkflowRunner::new(&all_kinds());
    let mut second = WorkflowRunner::new(&all_kinds());
    assert_eq!(first.process(&all[..4].to_vec()), StreamEnd::EndOfInput);
    assert_eq!(second.process(&all[4..].to_vec()), StreamEnd::EndOfInput);
    let merged = first.merge(&second).unwrap();
    assert_eq!(merged.records(), 4);
    assert_eq!(merged.reports(), whole.reports());
    match &merged.reports()[4] {
        Report::ReadLengths(d) => assert_eq!(d, &vec![(4usize, 2u64), (2usize, 1u64), (1usize, 1u64)]),
        _ => panic!("wrong report kind"),
    }
}

#[test]
fn merge_needs_same_registry() {
    let a = WorkflowRunner::new(&vec![AnalyzerKind::ReadData]);
    let b = WorkflowRunner::new(&vec![AnalyzerKind::PhredPerPos]);
    assert!(a.merge(&b).is_none());
    let x = Analyzer::new(AnalyzerKind::GcPerRead);
    let y = Analyzer::new(AnalyzerKind::BaseCountRead);
    assert!(x.merge(&y).is_none());
    assert!(x.merge(&Analyzer::new(AnalyzerKind::GcPerRead)).is_some());
}
