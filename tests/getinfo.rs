use fastq_scan::getinfo::{
    info_call, info_data, info_read, split_data, DataInfo, InfoError, ReadInfo, DATA_PATTERN,
};

#[test]
fn split_file_name() {
    let parts = split_data("NIST7035_TAAGGCGA_L001_R1_001.fastq.gz", DATA_PATTERN).ok().unwrap();
    assert_eq!(parts, vec!["NIST7035", "TAAGGCGA", "L001", "R1", "001", "fastq", "gz"]);
}

#[test]
fn split_with_bad_pattern_fails() {
    assert!(matches!(split_data("abc", "a("), Err(InfoError::Pattern(_))));
}

#[test]
fn data_info_from_file_name() {
    let d = info_data("NIST7035_TAAGGCGA_L001_R1_001.fastq.gz").ok().unwrap();
    assert_eq!(d.sample_name, "NIST7035");
    assert_eq!(d.barcode_sequence, "TAAGGCGA");
    assert_eq!(d.lane_number, 1);
    assert_eq!(d.read_number, 1);
    assert_eq!(d.set_number, 1);
}

#[test]
fn data_info_errors() {
    assert_eq!(DataInfo::new(vec!["a", "b"]), Err("Data is missing Information".to_string()));
    assert_eq!(
        DataInfo::new(vec!["a", "b", "Lx", "R1", "001"]),
        Err("Failed to parse lane_number".to_string())
    );
    assert_eq!(
        DataInfo::new(vec!["a", "b", "L1", "", "001"]),
        Err("Failed to parse read_number".to_string())
    );
    assert_eq!(
        DataInfo::new(vec!["a", "b", "L1", "R2", "-1"]),
        Err("Failed to parse set_number".to_string())
    );
}

#[test]
fn read_info_from_header() {
    let r = info_read("@HWI-D00119:50:H7AP8ADXX:1:1101:2100:2202 1:N:0:TAAGGCGA").ok().unwrap();
    assert_eq!(r.instrument, "@HWI-D00119");
    assert_eq!(r.run, 50);
    assert_eq!(r.flowcell_id, "H7AP8ADXX");
    assert_eq!(r.lane, 1);
    assert_eq!(r.tile_number, 1101);
    assert_eq!(r.x_pos, 2100);
    assert_eq!(r.y_pos, 2202);
    assert_eq!(r.read, 1);
    assert_eq!(r.is_filtered, 'N');
    assert_eq!(r.control_number, 0);
    assert_eq!(r.index, "TAAGGCGA");
}

#[test]
fn read_info_errors() {
    let short = vec!["@x"; 10];
    assert_eq!(ReadInfo::new(short), Err("Data is missing Information".to_string()));
    let mut f = vec!["@x", "50", "fc", "1", "1101", "2100", "2202", "1", "NN", "0", "IDX"];
    assert_eq!(ReadInfo::new(f.clone()), Err("Failed to parse is_filtered".to_string()));
    f[8] = "N";
    f[5] = "+17";
    assert_eq!(ReadInfo::new(f.clone()).unwrap().x_pos, 17);
    f[9] = "z";
    assert_eq!(ReadInfo::new(f), Err("Failed to parse control_number".to_string()));
}

#[test]
fn info_call_decodes_samples() {
    let (d, r) = info_call();
    assert_eq!(d.ok().unwrap().barcode_sequence, "TAAGGCGA");
    assert_eq!(r.ok().unwrap().index, "TAAGGCGA");
}

#[test]
fn info_errors_by_kind() {
    match info_data("sample_barcode.fastq") {
        Err(InfoError::Fields(e)) => assert_eq!(e, "Data is missing Information"),
        _ => panic!("expected a field error"),
    }
    match info_read("@HWI:x:fc:1:1101:2100:2202 1:N:0:IDX") {
        Err(InfoError::Fields(e)) => assert_eq!(e, "Failed to parse run"),
        _ => panic!("expected a field error"),
    }
}
