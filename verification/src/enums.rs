//! Tolerant normalization of rarity and elite tags.
//!
//! The upstream schema encodes these as either a small non-negative integer or
//! a symbolic string (`TIER_n` for rarity, `PHASE_n` for elite). Both forms
//! are mapped to the same canonical integer: the rarity integer path adds a
//! fixed offset of one, the elite integer path passes through. Anything else
//! is an [`PipelineError::InvalidEnumValue`] naming the offending raw value.

use crate::errors::PipelineError;
use crate::text::decimal;
use crate::text::spec_decimal;
use crate::text::str_eq;
use vstd::prelude::*;

verus! {

/// A raw enum tag as either of its two upstream encodings.
#[derive(Debug)]
pub enum RawEnumValue {
    Number(u64),
    Symbol(String),
}

impl RawEnumValue {
    /// The raw value's own text: the decimal rendering of a number, or the
    /// symbol itself.
    pub open spec fn spec_text(&self) -> Seq<char> {
        match self {
            RawEnumValue::Number(n) => spec_decimal(*n as nat),
            RawEnumValue::Symbol(s) => s@,
        }
    }
}

/// The canonical rarity of an integer-encoded raw tag, if in range.
pub open spec fn spec_rarity_num(n: nat) -> Option<u8> {
    if n <= 5 {
        Some((n + 1) as u8)
    } else {
        None
    }
}

/// The canonical rarity of a symbol-encoded raw tag, if recognized.
pub open spec fn spec_rarity_sym(s: Seq<char>) -> Option<u8> {
    if s == "TIER_1"@ {
        Some(1)
    } else if s == "TIER_2"@ {
        Some(2)
    } else if s == "TIER_3"@ {
        Some(3)
    } else if s == "TIER_4"@ {
        Some(4)
    } else if s == "TIER_5"@ {
        Some(5)
    } else if s == "TIER_6"@ {
        Some(6)
    } else {
        None
    }
}

/// The canonical rarity of a raw tag, if valid.
pub open spec fn spec_rarity(raw: &RawEnumValue) -> Option<u8> {
    match raw {
        RawEnumValue::Number(n) => spec_rarity_num(*n as nat),
        RawEnumValue::Symbol(s) => spec_rarity_sym(s@),
    }
}

/// Normalizes a raw rarity tag to the canonical tier, between one and six.
pub fn parse_rarity(raw: &RawEnumValue) -> (r: Result<u8, PipelineError>)
    ensures
        match r {
            Ok(v) => spec_rarity(raw) == Some(v) && 1 <= v <= 6,
            Err(e) => spec_rarity(raw) is None && (e matches PipelineError::InvalidEnumValue(m)
                && m@ == raw.spec_text()),
        },
{
    match raw {
        RawEnumValue::Number(n) => {
            if *n <= 5 {
                Ok((*n + 1) as u8)
            } else {
                Err(PipelineError::InvalidEnumValue(decimal(*n)))
            }
        },
        RawEnumValue::Symbol(s) => {
            if str_eq(s.as_str(), "TIER_1") {
                Ok(1)
            } else if str_eq(s.as_str(), "TIER_2") {
                Ok(2)
            } else if str_eq(s.as_str(), "TIER_3") {
                Ok(3)
            } else if str_eq(s.as_str(), "TIER_4") {
                Ok(4)
            } else if str_eq(s.as_str(), "TIER_5") {
                Ok(5)
            } else if str_eq(s.as_str(), "TIER_6") {
                Ok(6)
            } else {
                Err(PipelineError::InvalidEnumValue(s.clone()))
            }
        },
    }
}

/// The canonical elite tier of an integer-encoded raw tag, if in range.
pub open spec fn spec_elite_num(n: nat) -> Option<u8> {
    if n <= 2 {
        Some(n as u8)
    } else {
        None
    }
}

/// The canonical elite tier of a symbol-encoded raw tag, if recognized.
pub open spec fn spec_elite_sym(s: Seq<char>) -> Option<u8> {
    if s == "PHASE_0"@ {
        Some(0)
    } else if s == "PHASE_1"@ {
        Some(1)
    } else if s == "PHASE_2"@ {
        Some(2)
    } else {
        None
    }
}

/// The canonical elite tier of a raw tag, if valid.
pub open spec fn spec_elite(raw: &RawEnumValue) -> Option<u8> {
    match raw {
        RawEnumValue::Number(n) => spec_elite_num(*n as nat),
        RawEnumValue::Symbol(s) => spec_elite_sym(s@),
    }
}

/// Normalizes a raw elite tag to the canonical tier, between zero and two.
pub fn parse_elite(raw: &RawEnumValue) -> (r: Result<u8, PipelineError>)
    ensures
        match r {
            Ok(v) => spec_elite(raw) == Some(v) && v <= 2,
            Err(e) => spec_elite(raw) is None && (e matches PipelineError::InvalidEnumValue(m)
                && m@ == raw.spec_text()),
        },
{
    match raw {
        RawEnumValue::Number(n) => {
            if *n <= 2 {
                Ok(*n as u8)
            } else {
                Err(PipelineError::InvalidEnumValue(decimal(*n)))
            }
        },
        RawEnumValue::Symbol(s) => {
            if str_eq(s.as_str(), "PHASE_0") {
                Ok(0)
            } else if str_eq(s.as_str(), "PHASE_1") {
                Ok(1)
            } else if str_eq(s.as_str(), "PHASE_2") {
                Ok(2)
            } else {
                Err(PipelineError::InvalidEnumValue(s.clone()))
            }
        },
    }
}

/// The two encodings agree: for every canonical rarity tier `v`, the integer
/// form `v - 1` and the symbol `TIER_` followed by the decimal of `v`
/// normalize to the same tier `v`.
pub proof fn lemma_rarity_equivalence(v: u8)
    requires
        1 <= v <= 6,
    ensures
        spec_rarity_num((v - 1) as nat) == Some(v),
        spec_rarity_sym("TIER_"@ + spec_decimal(v as nat)) == Some(v),
{
    reveal_strlit("TIER_");
    reveal_strlit("TIER_1");
    reveal_strlit("TIER_2");
    reveal_strlit("TIER_3");
    reveal_strlit("TIER_4");
    reveal_strlit("TIER_5");
    reveal_strlit("TIER_6");
    assert("TIER_1"@[5] == '1');
    assert("TIER_2"@[5] == '2');
    assert("TIER_3"@[5] == '3');
    assert("TIER_4"@[5] == '4');
    assert("TIER_5"@[5] == '5');
    assert("TIER_6"@[5] == '6');
    if v == 1 {
        assert("TIER_"@ + spec_decimal(1nat) =~= "TIER_1"@);
    } else if v == 2 {
        assert("TIER_"@ + spec_decimal(2nat) =~= "TIER_2"@);
    } else if v == 3 {
        assert("TIER_"@ + spec_decimal(3nat) =~= "TIER_3"@);
    } else if v == 4 {
        assert("TIER_"@ + spec_decimal(4nat) =~= "TIER_4"@);
    } else if v == 5 {
        assert("TIER_"@ + spec_decimal(5nat) =~= "TIER_5"@);
    } else {
        assert("TIER_"@ + spec_decimal(6nat) =~= "TIER_6"@);
    }
}

/// The two encodings agree: for every canonical elite tier `v`, the integer
/// form `v` and the symbol `PHASE_` followed by the decimal of `v` normalize
/// to the same tier `v`.
pub proof fn lemma_elite_equivalence(v: u8)
    requires
        v <= 2,
    ensures
        spec_elite_num(v as nat) == Some(v),
        spec_elite_sym("PHASE_"@ + spec_decimal(v as nat)) == Some(v),
{
    reveal_strlit("PHASE_");
    reveal_strlit("PHASE_0");
    reveal_strlit("PHASE_1");
    reveal_strlit("PHASE_2");
    assert("PHASE_0"@[6] == '0');
    assert("PHASE_1"@[6] == '1');
    assert("PHASE_2"@[6] == '2');
    if v == 0 {
        assert("PHASE_"@ + spec_decimal(0nat) =~= "PHASE_0"@);
    } else if v == 1 {
        assert("PHASE_"@ + spec_decimal(1nat) =~= "PHASE_1"@);
    } else {
        assert("PHASE_"@ + spec_decimal(2nat) =~= "PHASE_2"@);
    }
}

} // verus!
