use fastq_scan::phred::Ratio;
use fastq_scan::statistics::gc_content::gc_fraction;
use fastq_scan::statistics::nucleotides::CountNucleotides;

fn value(r: Ratio) -> f64 {
    r.num as f64 / r.den as f64
}

#[test]
fn gc_fraction_edges() {
    assert_eq!(value(gc_fraction(b"GCGC")), 100.0);
    assert_eq!(value(gc_fraction(b"ATAT")), 0.0);
    let empty = value(gc_fraction(b""));
    assert_eq!(empty, 0.0);
    assert!(!empty.is_nan());
    assert_eq!(gc_fraction(b"GATC"), Ratio { num: 200, den: 4 });
}

#[test]
fn count_nucleotides_classifies_bases() {
    let mut c = CountNucleotides::new();
    for b in b"AACGTNX" {
        c.add_base(*b);
    }
    assert_eq!(c, CountNucleotides { a: 2, c: 1, g: 1, t: 1, n: 2 });
    let (a, cc, g, t, n) = c.get_percentage();
    assert_eq!(a, Ratio { num: 2, den: 7 });
    assert_eq!(cc, Ratio { num: 1, den: 7 });
    assert_eq!(g, Ratio { num: 1, den: 7 });
    assert_eq!(t, Ratio { num: 1, den: 7 });
    assert_eq!(n, Ratio { num: 2, den: 7 });
    assert_eq!(c.get_gc_percentage(), Ratio { num: 200, den: 7 });
}

#[test]
fn empty_tally_percentages_are_zero() {
    let c = CountNucleotides::new();
    let zero = Ratio { num: 0, den: 1 };
    assert_eq!(c.get_percentage(), (zero, zero, zero, zero, zero));
    assert_eq!(c.get_gc_percentage(), zero);
}

use fastq_scan::quantity::count_nucleotides;
use fastq_scan::statistics::phred_per_read::plot_range;

fn text_lines(text: &str) -> Vec<Vec<u8>> {
    text.lines().map(|l| l.as_bytes().to_vec()).collect()
}

#[test]
fn count_nucleotides_over_reads_of_first_length() {
    let lines = text_lines("@a\n\"ACG\"\n+\nIII\n@b\nAAA\n+\nIII\n@c\nAC\n+\nII\n@d\nTTT");
    let (counts, reads) = count_nucleotides(&lines).unwrap();
    assert_eq!(reads, 3);
    assert_eq!(counts.len(), 3);
    assert_eq!(counts[0], CountNucleotides { a: 2, c: 0, g: 0, t: 1, n: 0 });
    assert_eq!(counts[1], CountNucleotides { a: 1, c: 1, g: 0, t: 1, n: 0 });
    assert_eq!(counts[2], CountNucleotides { a: 1, c: 0, g: 1, t: 1, n: 0 });
    assert_eq!(counts[0].get_percentage().0, Ratio { num: 2, den: 3 });
}

#[test]
fn count_nucleotides_needs_a_sequence_line() {
    assert!(count_nucleotides(&text_lines("@a")).is_none());
    assert!(count_nucleotides(&Vec::new()).is_none());
}

#[test]
fn plot_range_choices() {
    assert_eq!(plot_range(None, None, 0), None);
    assert_eq!(plot_range(None, None, 10), Some((0, 9)));
    assert_eq!(plot_range(Some(2), Some(5), 10), Some((2, 5)));
    assert_eq!(plot_range(Some(6), Some(5), 10), Some((0, 9)));
    assert_eq!(plot_range(Some(2), Some(10), 10), Some((0, 9)));
    assert_eq!(plot_range(Some(3), None, 10), Some((3, 9)));
}
