use fastq_scan::phred::{avg_qual, calculate_phred, read_mean_quality, QualityError, Ratio};

fn value(r: Ratio) -> f32 {
    r.num as f32 / r.den as f32
}

#[test]
fn test_calculate_phred() {
    let qual: u8 = '&' as u8;
    let expected: f32 = 5.0; // Phred score of '&'
    let res = calculate_phred(qual).expect("Invalid Phred Char");
    assert_eq!(expected, res as f32);
}

#[test]
fn test_calculate_phred_other() {
    let tests: Vec<(u8, f32)> = vec![('&' as u8, 5.0), ('+' as u8, 10.0)];
    for test in tests {
        let res = calculate_phred(test.0).expect("Invalid Phred Char") as f32;
        assert!(
            (res - test.1).abs() < f32::EPSILON,
            "Expected {}, but got {}",
            test.1,
            res
        );
    }
}

#[test]
fn test_avg_qual() {
    const TEST_STRING: &[u8] = b"/&%/&)/%%";
    const EXPECT: f32 = 8.0;
    let res = value(avg_qual(TEST_STRING).expect("Expected Some(f32) but got none"));
    assert!(
        (res - EXPECT).abs() < f32::EPSILON,
        "Expected {}, but got {}",
        EXPECT,
        res
    );
}

#[test]
fn decode_rejects_units_out_of_range() {
    assert_eq!(calculate_phred(200), Err(QualityError::InvalidQualityUnit));
    assert_eq!(calculate_phred(32), Err(QualityError::InvalidQualityUnit));
    assert_eq!(calculate_phred(127), Err(QualityError::InvalidQualityUnit));
    assert_eq!(calculate_phred(33), Ok(0));
    assert_eq!(calculate_phred(126), Ok(93));
}

#[test]
fn avg_qual_of_empty_or_invalid_is_none() {
    assert_eq!(avg_qual(b""), None);
    assert_eq!(avg_qual(&[40u8, 200u8]), None);
    assert_eq!(avg_qual(b"II"), Some(Ratio { num: 80, den: 2 }));
}

#[test]
fn read_mean_skips_invalid_units() {
    assert_eq!(read_mean_quality(&[38u8, 200u8, 43u8]), Some(Ratio { num: 15, den: 2 }));
    assert_eq!(read_mean_quality(&[10u8, 200u8]), None);
    assert_eq!(read_mean_quality(b""), None);
}
