//! Metadata carried by FASTQ file names and read headers.
use vstd::prelude::*;

verus! {

/// Separators of the fields of a file name such as `NIST7035_TAAGGCGA_L001_R1_001.fastq.gz`.
pub const DATA_PATTERN: &'static str = "[_\\.]";

/// Separators of the fields of a read header such as
/// `@HWI-D00119:50:H7AP8ADXX:1:1101:2100:2202 1:N:0:TAAGGCGA`.
pub const READ_PATTERN: &'static str = "[ :\\.]";

#[verifier::external_type_specification]
#[verifier::external_body]
pub struct ExRegexError(regex::Error);

/// The pieces of `text` between the matches of the regular expression `pattern`, or
/// `None` when `pattern` does not compile.
pub uninterp spec fn pattern_split(pattern: Seq<char>, text: Seq<char>) -> Option<Seq<Seq<char>>>;

/// Relies on `regex::Regex::new` and `regex::Regex::split`: compiling `pattern` fails
/// or succeeds on the pattern alone, and the pieces between matches depend on the
/// pattern and the text alone.
#[verifier::external_body]
fn split_by_pattern<'a>(text: &'a str, pattern: &str) -> (r: Result<Vec<&'a str>, regex::Error>)
    ensures
        r is Ok <==> pattern_split(pattern@, text@) is Some,
        r matches Ok(parts) ==> pattern_split(pattern@, text@) == Some(
            parts@.map_values(|p: &str| p@),
        ),
{
    let re = regex::Regex::new(pattern)?;
    Ok(re.split(text).collect())
}

/// The digits of an unsigned decimal, after an optional leading `+`.
pub open spec fn unsigned_digits(s: Seq<char>) -> Seq<char> {
    if s.len() > 0 && s[0] == '+' {
        s.skip(1)
    } else {
        s
    }
}

/// Value of a sequence of decimal digits.
pub open spec fn digits_value(d: Seq<char>) -> nat
    decreases d.len(),
{
    if d.len() == 0 {
        0
    } else {
        digits_value(d.drop_last()) * 10 + ((d.last() as u32) - 48) as nat
    }
}

/// The `usize` that `s` writes in decimal: an optional `+` and one or more ASCII digits
/// whose value fits; `None` for anything else.
pub open spec fn parsed_usize(s: Seq<char>) -> Option<usize> {
    let d = unsigned_digits(s);
    if d.len() > 0 && (forall|i: int| 0 <= i < d.len() ==> '0' <= #[trigger] d[i] <= '9')
        && digits_value(d) <= usize::MAX {
        Some(digits_value(d) as usize)
    } else {
        None
    }
}

/// Relies on `str::parse::<usize>`: it accepts an optional `+` followed by one or
/// more ASCII digits whose value fits in `usize`, and nothing else.
#[verifier::external_body]
fn parse_usize(s: &str) -> (r: Option<usize>)
    ensures
        r == parsed_usize(s@),
{
    s.parse::<usize>().ok()
}

/// `s` without its first character (the empty string stays empty).
pub open spec fn drop_first(s: Seq<char>) -> Seq<char> {
    if s.len() == 0 {
        s
    } else {
        s.skip(1)
    }
}

/// The one character of `s`, if it has exactly one.
pub open spec fn single_char(s: Seq<char>) -> Option<char> {
    if s.len() == 1 {
        Some(s[0])
    } else {
        None
    }
}

fn without_first_char(s: &str) -> (r: &str)
    ensures
        r@ == drop_first(s@),
{
    let n = s.unicode_len();
    if n == 0 {
        s
    } else {
        s.substring_char(1, n)
    }
}

fn parse_char(s: &str) -> (r: Option<char>)
    ensures
        r == single_char(s@),
{
    if s.unicode_len() == 1 {
        Some(s.get_char(0))
    } else {
        None
    }
}

/// Parses a numeric field, failing with `message`.
fn parse_field(s: &str, message: &str) -> (r: Result<usize, String>)
    ensures
        match r {
            Ok(v) => parsed_usize(s@) == Some(v),
            Err(e) => parsed_usize(s@) is None && e@ == message@,
        },
{
    match parse_usize(s) {
        Some(v) => Ok(v),
        None => Err(message.to_owned()),
    }
}

/// Why metadata could not be decoded.
#[derive(Debug)]
pub enum InfoError {
    /// The separator pattern did not compile.
    Pattern(regex::Error),
    /// A field is missing or malformed.
    Fields(String),
}

/// The views of a list of fields.
pub open spec fn field_views(info: Seq<&str>) -> Seq<Seq<char>> {
    info.map_values(|s: &str| s@)
}

/// Splits `data` into the pieces between the matches of the regular expression `pattern`.
pub fn split_data<'a>(data: &'a str, pattern: &str) -> (r: Result<Vec<&'a str>, InfoError>)
    ensures
        match r {
            Ok(parts) => pattern_split(pattern@, data@) == Some(field_views(parts@)),
            Err(e) => pattern_split(pattern@, data@) is None && e is Pattern,
        },
{
    match split_by_pattern(data, pattern) {
        Ok(parts) => Ok(parts),
        Err(e) => Err(InfoError::Pattern(e)),
    }
}

/// The fields of a file name: sample, barcode, lane, read and set number.
#[derive(Debug, Clone, PartialEq, Eq)]
pub struct DataInfo {
    pub sample_name: String,
    pub barcode_sequence: String,
    pub lane_number: usize,
    pub read_number: usize,
    pub set_number: usize,
}

/// The first problem with the fields of a file name, if any: fewer than five fields, or
/// a lane (`L001`), read (`R1`) or set number (`001`) that is not a number.
pub open spec fn data_info_error(f: Seq<Seq<char>>) -> Option<Seq<char>> {
    if f.len() < 5 {
        Some("Data is missing Information"@)
    } else if parsed_usize(drop_first(f[2])) is None {
        Some("Failed to parse lane_number"@)
    } else if parsed_usize(drop_first(f[3])) is None {
        Some("Failed to parse read_number"@)
    } else if parsed_usize(f[4]) is None {
        Some("Failed to parse set_number"@)
    } else {
        None
    }
}

/// `d` holds the fields of the file name `f`.
pub open spec fn data_info_of(f: Seq<Seq<char>>, d: DataInfo) -> bool {
    &&& d.sample_name@ == f[0]
    &&& d.barcode_sequence@ == f[1]
    &&& Some(d.lane_number) == parsed_usize(drop_first(f[2]))
    &&& Some(d.read_number) == parsed_usize(drop_first(f[3]))
    &&& Some(d.set_number) == parsed_usize(f[4])
}

impl DataInfo {
    /// Builds the metadata from the fields of a file name; extra fields are ignored.
    pub fn new(info: Vec<&str>) -> (r: Result<Self, String>)
        ensures
            match r {
                Ok(d) => data_info_error(field_views(info@)) is None && data_info_of(
                    field_views(info@),
                    d,
                ),
                Err(e) => data_info_error(field_views(info@)) == Some(e@),
            },
    {
        let ghost f = field_views(info@);
        if info.len() < 5 {
            return Err("Data is missing Information".to_owned());
        }
        let lane_number = parse_field(without_first_char(info[2]), "Failed to parse lane_number")?;
        let read_number = parse_field(without_first_char(info[3]), "Failed to parse read_number")?;
        let set_number = parse_field(info[4], "Failed to parse set_number")?;
        Ok(DataInfo {
            sample_name: info[0].to_owned(),
            barcode_sequence: info[1].to_owned(),
            lane_number,
            read_number,
            set_number,
        })
    }
}

/// The fields of a read header: instrument, run, flowcell, lane, tile, cluster
/// coordinates, member of the pair, filter flag, control bits and index sequence.
#[derive(Debug, Clone, PartialEq, Eq)]
pub struct ReadInfo {
    pub instrument: String,
    pub run: usize,
    pub flowcell_id: String,
    pub lane: usize,
    pub tile_number: usize,
    pub x_pos: usize,
    pub y_pos: usize,
    pub read: usize,
    pub is_filtered: char,
    pub control_number: usize,
    pub index: String,
}

/// The first problem with the fields of a read header, if any: fewer than eleven
/// fields, a numeric field that is not a number, or a filter flag that is not one
/// character.
pub open spec fn read_info_error(f: Seq<Seq<char>>) -> Option<Seq<char>> {
    if f.len() < 11 {
        Some("Data is missing Information"@)
    } else if parsed_usize(f[1]) is None {
        Some("Failed to parse run"@)
    } else if parsed_usize(f[3]) is None {
        Some("Failed to parse lane"@)
    } else if parsed_usize(f[4]) is None {
        Some("Failed to parse tile_number"@)
    } else if parsed_usize(f[5]) is None {
        Some("Failed to parse x_pos"@)
    } else if parsed_usize(f[6]) is None {
        Some("Failed to parse y_pos"@)
    } else if parsed_usize(f[7]) is None {
        Some("Failed to parse read"@)
    } else if single_char(f[8]) is None {
        Some("Failed to parse is_filtered"@)
    } else if parsed_usize(f[9]) is None {
        Some("Failed to parse control_number"@)
    } else {
        None
    }
}

/// `d` holds the fields of the read header `f`.
pub open spec fn read_info_of(f: Seq<Seq<char>>, d: ReadInfo) -> bool {
    &&& d.instrument@ == f[0]
    &&& Some(d.run) == parsed_usize(f[1])
    &&& d.flowcell_id@ == f[2]
    &&& Some(d.lane) == parsed_usize(f[3])
    &&& Some(d.tile_number) == parsed_usize(f[4])
    &&& Some(d.x_pos) == parsed_usize(f[5])
    &&& Some(d.y_pos) == parsed_usize(f[6])
    &&& Some(d.read) == parsed_usize(f[7])
    &&& Some(d.is_filtered) == single_char(f[8])
    &&& Some(d.control_number) == parsed_usize(f[9])
    &&& d.index@ == f[10]
}

impl ReadInfo {
    /// Builds the metadata from the fields of a read header; extra fields are ignored.
    pub fn new(info: Vec<&str>) -> (r: Result<Self, String>)
        ensures
            match r {
                Ok(d) => read_info_error(field_views(info@)) is None && read_info_of(
                    field_views(info@),
                    d,
                ),
                Err(e) => read_info_error(field_views(info@)) == Some(e@),
            },
    {
        if info.len() < 11 {
            return Err("Data is missing Information".to_owned());
        }
        let run = parse_field(info[1], "Failed to parse run")?;
        let lane = parse_field(info[3], "Failed to parse lane")?;
        let tile_number = parse_field(info[4], "Failed to parse tile_number")?;
        let x_pos = parse_field(info[5], "Failed to parse x_pos")?;
        let y_pos = parse_field(info[6], "Failed to parse y_pos")?;
        let read = parse_field(info[7], "Failed to parse read")?;
        let is_filtered = match parse_char(info[8]) {
            Some(c) => c,
            None => return Err("Failed to parse is_filtered".to_owned()),
        };
        let control_number = parse_field(info[9], "Failed to parse control_number")?;
        Ok(ReadInfo {
            instrument: info[0].to_owned(),
            run,
            flowcell_id: info[2].to_owned(),
            lane,
            tile_number,
            x_pos,
            y_pos,
            read,
            is_filtered,
            control_number,
            index: info[10].to_owned(),
        })
    }
}

/// Decodes the metadata of a file name split at `_` and `.`.
pub fn info_data(data: &str) -> (r: Result<DataInfo, InfoError>)
    ensures
        match pattern_split(DATA_PATTERN@, data@) {
            None => r matches Err(InfoError::Pattern(_)),
            Some(f) => match r {
                Ok(d) => data_info_error(f) is None && data_info_of(f, d),
                Err(InfoError::Fields(e)) => data_info_error(f) == Some(e@),
                Err(InfoError::Pattern(_)) => false,
            },
        },
{
    let parts = split_data(data, DATA_PATTERN)?;
    match DataInfo::new(parts) {
        Ok(d) => Ok(d),
        Err(e) => Err(InfoError::Fields(e)),
    }
}

/// Decodes the metadata of a read header split at spaces, `:` and `.`.
pub fn info_read(data: &str) -> (r: Result<ReadInfo, InfoError>)
    ensures
        match pattern_split(READ_PATTERN@, data@) {
            None => r matches Err(InfoError::Pattern(_)),
            Some(f) => match r {
                Ok(d) => read_info_error(f) is None && read_info_of(f, d),
                Err(InfoError::Fields(e)) => read_info_error(f) == Some(e@),
                Err(InfoError::Pattern(_)) => false,
            },
        },
{
    let parts = split_data(data, READ_PATTERN)?;
    match ReadInfo::new(parts) {
        Ok(d) => Ok(d),
        Err(e) => Err(InfoError::Fields(e)),
    }
}

/// A sample file name of the Illumina naming scheme.
pub const SAMPLE_FILE_NAME: &'static str = "NIST7035_TAAGGCGA_L001_R1_001.fastq.gz";

/// A sample Illumina read header.
pub const SAMPLE_READ_HEADER: &'static str = "@HWI-D00119:50:H7AP8ADXX:1:1101:2100:2202 1:N:0:TAAGGCGA";

/// Decodes the sample file name and the sample read header.
pub fn info_call() -> (r: (Result<DataInfo, InfoError>, Result<ReadInfo, InfoError>))
    ensures
        match pattern_split(DATA_PATTERN@, SAMPLE_FILE_NAME@) {
            None => r.0 matches Err(InfoError::Pattern(_)),
            Some(f) => match r.0 {
                Ok(d) => data_info_error(f) is None && data_info_of(f, d),
                Err(InfoError::Fields(e)) => data_info_error(f) == Some(e@),
                Err(InfoError::Pattern(_)) => false,
            },
        },
        match pattern_split(READ_PATTERN@, SAMPLE_READ_HEADER@) {
            None => r.1 matches Err(InfoError::Pattern(_)),
            Some(f) => match r.1 {
                Ok(d) => read_info_error(f) is None && read_info_of(f, d),
                Err(InfoError::Fields(e)) => read_info_error(f) == Some(e@),
                Err(InfoError::Pattern(_)) => false,
            },
        },
{
    (info_data(SAMPLE_FILE_NAME), info_read(SAMPLE_READ_HEADER))
}

} // verus!
