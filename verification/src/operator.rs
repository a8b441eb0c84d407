//! Normalization of the operator roster: tolerant decoding of each record,
//! the scope filter, and the static display-name overrides.

use crate::enums::spec_rarity;
use crate::enums::parse_rarity;
use crate::enums::RawEnumValue;
use crate::errors::PipelineError;
use crate::table::input_keys_distinct;
use crate::table::lemma_filter_single;
use crate::table::tbl_contains;
use crate::table::Table;
use crate::text::str_eq;
use vstd::prelude::*;
use vstd::seq_lib::group_seq_properties;
use vstd::string::StringExecFns;

verus! {

/// The fixed set of class tags. `Token` and `Trap` mark non-operator entries.
#[derive(Clone, Copy, PartialEq, Eq, Structural, Debug)]
pub enum Profession {
    Pioneer,
    Warrior,
    Tank,
    Sniper,
    Caster,
    Medic,
    Support,
    Special,
    Token,
    Trap,
}

/// The class tag encoded by an upper-case upstream string, if recognized.
pub open spec fn spec_profession(s: Seq<char>) -> Option<Profession> {
    if s == "PIONEER"@ {
        Some(Profession::Pioneer)
    } else if s == "WARRIOR"@ {
        Some(Profession::Warrior)
    } else if s == "TANK"@ {
        Some(Profession::Tank)
    } else if s == "SNIPER"@ {
        Some(Profession::Sniper)
    } else if s == "CASTER"@ {
        Some(Profession::Caster)
    } else if s == "MEDIC"@ {
        Some(Profession::Medic)
    } else if s == "SUPPORT"@ {
        Some(Profession::Support)
    } else if s == "SPECIAL"@ {
        Some(Profession::Special)
    } else if s == "TOKEN"@ {
        Some(Profession::Token)
    } else if s == "TRAP"@ {
        Some(Profession::Trap)
    } else {
        None
    }
}

/// Decodes an upstream class tag.
pub fn parse_profession(s: &str) -> (r: Option<Profession>)
    ensures
        r == spec_profession(s@),
{
    if str_eq(s, "PIONEER") {
        Some(Profession::Pioneer)
    } else if str_eq(s, "WARRIOR") {
        Some(Profession::Warrior)
    } else if str_eq(s, "TANK") {
        Some(Profession::Tank)
    } else if str_eq(s, "SNIPER") {
        Some(Profession::Sniper)
    } else if str_eq(s, "CASTER") {
        Some(Profession::Caster)
    } else if str_eq(s, "MEDIC") {
        Some(Profession::Medic)
    } else if str_eq(s, "SUPPORT") {
        Some(Profession::Support)
    } else if str_eq(s, "SPECIAL") {
        Some(Profession::Special)
    } else if str_eq(s, "TOKEN") {
        Some(Profession::Token)
    } else if str_eq(s, "TRAP") {
        Some(Profession::Trap)
    } else {
        None
    }
}

/// An operator record as decoded from the raw upstream document.
pub struct RawOperator {
    /// The display name.
    pub name: String,
    /// The rarity tag in either upstream encoding.
    pub rarity: RawEnumValue,
    /// Whether the upstream marks the record as not obtainable.
    pub unobtainable: bool,
    /// The upstream class tag.
    pub profession: String,
}

/// A canonical operator record.
#[derive(Debug)]
pub struct Operator {
    /// The display name, after overrides.
    pub name: String,
    /// The canonical rarity tier, between one and six.
    pub rarity: u8,
    /// Whether the record is not obtainable.
    pub unobtainable: bool,
    /// The class tag.
    pub profession: Profession,
}

impl Operator {
    /// A record is in scope exactly when it is obtainable and its class tag
    /// is neither `Token` nor `Trap`.
    pub open spec fn spec_is_operator(&self) -> bool {
        !self.unobtainable && self.profession != Profession::Token && self.profession
            != Profession::Trap
    }

    /// Whether this record is in scope.
    pub fn is_operator(&self) -> (r: bool)
        ensures
            r == self.spec_is_operator(),
    {
        !self.unobtainable && !matches!(self.profession, Profession::Token | Profession::Trap)
    }
}

/// Both tags of a raw record decode.
pub open spec fn raw_op_valid(r: RawOperator) -> bool {
    spec_rarity(&r.rarity) is Some && spec_profession(r.profession@) is Some
}

/// A valid raw record that the scope filter keeps.
pub open spec fn raw_in_scope(r: RawOperator) -> bool {
    &&& raw_op_valid(r)
    &&& !r.unobtainable
    &&& spec_profession(r.profession@) != Some(Profession::Token)
    &&& spec_profession(r.profession@) != Some(Profession::Trap)
}

/// The scope filter on raw roster entries.
pub open spec fn scope_pred() -> spec_fn((String, RawOperator)) -> bool {
    |e: (String, RawOperator)| raw_in_scope(e.1)
}

/// The static id-to-name override table; upstream names are generic
/// placeholders for these ids.
pub open spec fn spec_name_override(id: Seq<char>) -> Option<Seq<char>> {
    if id == "char_118_yuki"@ {
        Some("Shirayuki"@)
    } else if id == "char_196_sunbr"@ {
        Some("Gummy"@)
    } else if id == "char_115_headbr"@ {
        Some("Zima"@)
    } else if id == "char_195_glassb"@ {
        Some("Istina"@)
    } else if id == "char_197_poca"@ {
        Some("Rosa"@)
    } else if id == "char_1001_amiya2"@ {
        Some("Amiya (Guard)"@)
    } else if id == "char_4055_bgsnow"@ {
        Some("Pozyomka"@)
    } else if id == "char_4064_mlynar"@ {
        Some("Mlynar"@)
    } else {
        None
    }
}

/// Looks up the display-name override for an operator id.
pub fn name_override(id: &str) -> (r: Option<&'static str>)
    ensures
        match r {
            Some(n) => spec_name_override(id@) == Some(n@),
            None => spec_name_override(id@) is None,
        },
{
    if str_eq(id, "char_118_yuki") {
        Some("Shirayuki")
    } else if str_eq(id, "char_196_sunbr") {
        Some("Gummy")
    } else if str_eq(id, "char_115_headbr") {
        Some("Zima")
    } else if str_eq(id, "char_195_glassb") {
        Some("Istina")
    } else if str_eq(id, "char_197_poca") {
        Some("Rosa")
    } else if str_eq(id, "char_1001_amiya2") {
        Some("Amiya (Guard)")
    } else if str_eq(id, "char_4055_bgsnow") {
        Some("Pozyomka")
    } else if str_eq(id, "char_4064_mlynar") {
        Some("Mlynar")
    } else {
        None
    }
}

/// How one normalized table entry corresponds to the raw entry it came from.
pub open spec fn norm_op_rel(out: (Seq<char>, Operator), e: (String, RawOperator)) -> bool {
    &&& out.0 == e.0@
    &&& out.1.name@ == (match spec_name_override(e.0@) {
        Some(n) => n,
        None => e.1.name@,
    })
    &&& Some(out.1.rarity) == spec_rarity(&e.1.rarity)
    &&& Some(out.1.profession) == spec_profession(e.1.profession@)
    &&& out.1.unobtainable == e.1.unobtainable
}

/// What it means for `v` to be the canonical operator table of the raw
/// roster `raw`: every raw record decodes, and `v` is exactly the in-scope
/// records in encounter order, names overridden.
pub open spec fn is_operator_table(v: Seq<(Seq<char>, Operator)>, raw: Seq<(String, RawOperator)>) -> bool {
    &&& forall|i: int| 0 <= i < raw.len() ==> raw_op_valid(#[trigger] raw[i].1)
    &&& v.len() == raw.filter(scope_pred()).len()
    &&& forall|i: int| 0 <= i < v.len() ==> norm_op_rel(#[trigger] v[i], raw.filter(scope_pred())[i])
}

/// The earliest raw entry whose tags do not decode.
pub open spec fn first_invalid_op(s: Seq<(String, RawOperator)>, i: int) -> bool {
    &&& 0 <= i < s.len()
    &&& !raw_op_valid(s[i].1)
    &&& forall|j: int| 0 <= j < i ==> raw_op_valid(#[trigger] s[j].1)
}

/// The error reported for a raw entry that does not decode: the rarity tag is
/// examined first, then the class tag.
pub open spec fn op_error_matches(r: RawOperator, e: PipelineError) -> bool {
    if spec_rarity(&r.rarity) is None {
        e matches PipelineError::InvalidEnumValue(m) && m@ == r.rarity.spec_text()
    } else {
        e matches PipelineError::Decode(m) && m@ == r.profession@
    }
}

/// Decodes a raw operator roster into the canonical filtered table.
///
/// Every raw record's tags are decoded (an undecodable record is an error even
/// if the filter would drop it); records that are unobtainable or tagged
/// `Token` or `Trap` are dropped; the name-override table is applied to the
/// records that are kept, in encounter order.
#[verifier::loop_isolation(false)]
pub fn normalize_operators(raw: Vec<(String, RawOperator)>) -> (r: Result<
    Table<Operator>,
    PipelineError,
>)
    requires
        input_keys_distinct(raw@),

    ensures
        match r {
            Ok(t) => t.wf() && is_operator_table(t@, raw@),
            Err(e) => exists|i: int| #[trigger] first_invalid_op(raw@, i) && op_error_matches(
                raw@[i].1,
                e,
            ),
        },
{
    broadcast use group_seq_properties;

    let ghost raw0 = raw@;
    let mut rest = raw;
    let _total: usize = rest.len();
    let mut t = Table::<Operator>::new();
    let mut i: usize = 0;
    proof {
        assert(rest@.skip(0) =~= rest@);
        assert(raw0.take(0) =~= Seq::<(String, RawOperator)>::empty());
        assert(raw0.take(0).filter(scope_pred()) =~= Seq::<(String, RawOperator)>::empty());
    }
    while rest.len() > 0
        invariant
            input_keys_distinct(raw0),
            i <= raw0.len(),
            rest@ == raw0.skip(i as int),
            t.wf(),
            forall|j: int| 0 <= j < i ==> raw_op_valid(#[trigger] raw0[j].1),
            t@.len() == raw0.take(i as int).filter(scope_pred()).len(),
            forall|j: int|
                0 <= j < t@.len() ==> norm_op_rel(
                    #[trigger] t@[j],
                    raw0.take(i as int).filter(scope_pred())[j],
                ),
            forall|j: int|
                0 <= j < t@.len() ==> exists|k: int| 0 <= k < i && #[trigger] t@[j].0 == raw0[k].0@,
        decreases rest@.len(),
    {
        let ghost rest_before = rest@;
        let e = rest.remove(0);
        proof {
            assert(rest@ =~= raw0.skip(i as int + 1));
            assert(raw0[i as int] == rest_before[0]);
        }
        let (id, rop) = e;
        let ghost raw_entry = raw0[i as int];
        let rarity = match parse_rarity(&rop.rarity) {
            Ok(v) => v,
            Err(pe) => {
                proof {
                    assert(first_invalid_op(raw0, i as int));
                }
                return Err(pe);
            },
        };
        let profession = match parse_profession(rop.profession.as_str()) {
            Some(p) => p,
            None => {
                proof {
                    assert(first_invalid_op(raw0, i as int));
                }
                return Err(PipelineError::Decode(rop.profession));
            },
        };
        let keep = !rop.unobtainable && !matches!(profession, Profession::Token | Profession::Trap);
        proof {
            assert(raw0.take(i as int + 1) =~= raw0.take(i as int) + seq![raw_entry]);
            lemma_filter_single(raw0.take(i as int), raw_entry, scope_pred());
            assert(keep == raw_in_scope(raw_entry.1));
        }
        if keep {
            let name = match name_override(id.as_str()) {
                Some(n) => String::from_str(n),
                None => rop.name,
            };
            let op = Operator { name, rarity, unobtainable: rop.unobtainable, profession };
            let ghost op_snap = op;
            let ghost t_before = t@;
            proof {
                if tbl_contains(t@, id@) {
                    let j = choose|j: int| 0 <= j < t@.len() && t@[j].0 == id@;
                    let k = choose|k: int| 0 <= k < i && t@[j].0 == raw0[k].0@;
                    assert(raw0[k].0@ != raw0[i as int].0@);
                    assert(false);
                }
            }
            t.insert(id, op);
            proof {
                assert(t@ == t_before.push((raw_entry.0@, op_snap)));
                assert(forall|j: int|
                    0 <= j < t_before.len() ==> #[trigger] t@[j] == t_before[j]);
                assert(norm_op_rel(t@[t_before.len() as int], raw_entry));
            }
        }
        i += 1;
    }
    proof {
        assert(raw0.take(i as int) =~= raw0);
    }
    Ok(t)
}

} // verus!
