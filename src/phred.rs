//! Decoding of Phred+33 quality units and exact quality means.
use vstd::prelude::*;

verus! {

/// Offset of the Phred+33 encoding: the unit of quality 0.
pub const PHRED_OFFSET: u8 = 33;

/// Largest unit of the Phred+33 encoding (quality 93).
pub const MAX_QUALITY_UNIT: u8 = 126;

/// Why a quality unit could not be decoded.
#[derive(Debug, Clone, Copy, PartialEq, Eq, Structural)]
pub enum QualityError {
    /// The unit lies outside `33..=126`.
    InvalidQualityUnit,
}

/// An exact, unreduced fraction `num / den`.
#[derive(Debug, Clone, Copy, PartialEq, Eq, Structural)]
pub struct Ratio {
    pub num: u128,
    pub den: u128,
}

/// A unit that the Phred+33 encoding assigns a quality to.
pub open spec fn is_quality_unit(u: u8) -> bool {
    PHRED_OFFSET <= u <= MAX_QUALITY_UNIT
}

/// The quality that a valid unit stands for.
pub open spec fn quality_of(u: u8) -> int {
    u - PHRED_OFFSET
}

/// Every unit of `units` decodes.
pub open spec fn all_decodable(units: Seq<u8>) -> bool {
    forall|i: int| 0 <= i < units.len() ==> is_quality_unit(#[trigger] units[i])
}

/// Sum of the qualities of the units of `units` that decode; the others add nothing.
pub open spec fn decoded_sum(units: Seq<u8>) -> int
    decreases units.len(),
{
    if units.len() == 0 {
        0
    } else {
        decoded_sum(units.drop_last()) + if is_quality_unit(units.last()) {
            quality_of(units.last())
        } else {
            0
        }
    }
}

/// Number of units of `units` that decode.
pub open spec fn decoded_count(units: Seq<u8>) -> nat
    decreases units.len(),
{
    if units.len() == 0 {
        0
    } else {
        decoded_count(units.drop_last()) + if is_quality_unit(units.last()) {
            1nat
        } else {
            0nat
        }
    }
}

/// Every decoded quality lies in `0..=93`, and at most one is counted per unit.
pub proof fn lemma_decoded_bounds(units: Seq<u8>)
    ensures
        0 <= decoded_sum(units) <= 93 * decoded_count(units),
        decoded_count(units) <= units.len(),
    decreases units.len(),
{
    if units.len() > 0 {
        lemma_decoded_bounds(units.drop_last());
    }
}

/// When every unit decodes, each one is counted.
pub proof fn lemma_all_decodable_count(units: Seq<u8>)
    requires
        all_decodable(units),
    ensures
        decoded_count(units) == units.len(),
    decreases units.len(),
{
    if units.len() > 0 {
        assert(all_decodable(units.drop_last())) by {
            assert forall|i: int| 0 <= i < units.drop_last().len() implies is_quality_unit(
                #[trigger] units.drop_last()[i],
            ) by {
                assert(units.drop_last()[i] == units[i]);
            }
        }
        lemma_all_decodable_count(units.drop_last());
        assert(is_quality_unit(units[units.len() - 1]));
    }
}

/// Decodes one Phred+33 quality unit.
pub fn calculate_phred(qual: u8) -> (r: Result<u8, QualityError>)
    ensures
        r is Ok <==> is_quality_unit(qual),
        r matches Ok(q) ==> q == quality_of(qual),
        !is_quality_unit(qual) ==> r == Err::<u8, QualityError>(QualityError::InvalidQualityUnit),
{
    if PHRED_OFFSET <= qual && qual <= MAX_QUALITY_UNIT {
        Ok(qual - PHRED_OFFSET)
    } else {
        Err(QualityError::InvalidQualityUnit)
    }
}

/// Sum and count of the decodable units of `units`, in one pass.
fn decode_all(units: &[u8]) -> (r: (u128, u64))
    ensures
        r.0 == decoded_sum(units@),
        r.1 == decoded_count(units@),
{
    let mut sum: u128 = 0;
    let mut count: u64 = 0;
    let mut i: usize = 0;
    while i < units.len()
        invariant
            0 <= i <= units@.len(),
            sum == decoded_sum(units@.subrange(0, i as int)),
            count == decoded_count(units@.subrange(0, i as int)),
        decreases units@.len() - i,
    {
        let ghost prefix = units@.subrange(0, i as int);
        let ghost next = units@.subrange(0, i + 1);
        assert(next.drop_last() == prefix);
        proof {
            lemma_decoded_bounds(prefix);
        }
        assert(count <= i);
        match calculate_phred(units[i]) {
            Ok(q) => {
                sum = sum + q as u128;
                count = count + 1;
            },
            Err(_) => {},
        }
        i = i + 1;
    }
    assert(units@.subrange(0, units@.len() as int) == units@);
    (sum, count)
}

/// Mean quality of a whole quality string: `None` when it is empty or when any unit
/// fails to decode.
pub fn avg_qual(qual_str: &[u8]) -> (r: Option<Ratio>)
    ensures
        r is Some <==> qual_str@.len() > 0 && all_decodable(qual_str@),
        r matches Some(m) ==> m.num == decoded_sum(qual_str@) && m.den == qual_str@.len(),
{
    let (sum, count) = decode_all(qual_str);
    if qual_str.len() == 0 {
        return None;
    }
    proof {
        lemma_decoded_bounds(qual_str@);
    }
    if count as usize != qual_str.len() {
        proof {
            if all_decodable(qual_str@) {
                lemma_all_decodable_count(qual_str@);
            }
        }
        return None;
    }
    proof {
        assert forall|i: int| 0 <= i < qual_str@.len() implies is_quality_unit(
            #[trigger] qual_str@[i],
        ) by {
            lemma_count_full_means_decodable(qual_str@, i);
        }
    }
    Some(Ratio { num: sum, den: count as u128 })
}

proof fn lemma_count_full_means_decodable(units: Seq<u8>, i: int)
    requires
        decoded_count(units) == units.len(),
        0 <= i < units.len(),
    ensures
        is_quality_unit(units[i]),
    decreases units.len(),
{
    lemma_decoded_bounds(units.drop_last());
    if i < units.len() - 1 {
        lemma_count_full_means_decodable(units.drop_last(), i);
    }
}

/// Mean quality of the units of a read that decode, skipping the others: `None`
/// when none decodes.
pub fn read_mean_quality(qual: &[u8]) -> (r: Option<Ratio>)
    ensures
        r is Some <==> decoded_count(qual@) > 0,
        r matches Some(m) ==> m.num == decoded_sum(qual@) && m.den == decoded_count(qual@),
{
    let (sum, count) = decode_all(qual);
    if count == 0 {
        None
    } else {
        Some(Ratio { num: sum, den: count as u128 })
    }
}

} // verus!
