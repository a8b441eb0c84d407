//! Save-file naming: name validation, save-file paths, and the selection of
//! the first available name or path when the preferred one is taken.

use crate::save::Save;
use crate::text::concat;
use crate::text::decimal;
use crate::text::lemma_decimal_injective;
use crate::text::lemma_decimal_len;
use crate::text::spec_decimal;
use crate::text::str_eq;
use vstd::prelude::*;
use vstd::seq_lib::group_seq_properties;
use vstd::set_lib::lemma_len_subset;
use vstd::string::StrSliceExecFns;
use vstd::string::StringExecFns;

verus! {

/// The failures of the save database commands.
#[derive(Clone, Copy, PartialEq, Eq, Structural, Debug)]
pub enum DbError {
    Execution,
    Fetching,
    Creation,
    Renaming,
    DuplicateName,
    Update,
    Deletion,
    NoExportTarget,
    Export,
}

impl DbError {
    /// What the message of this error says.
    pub open spec fn spec_message(&self) -> Seq<char> {
        match self {
            DbError::Execution => "Failed to execute query statement"@,
            DbError::Fetching => "An error occurred while fetching saves"@,
            DbError::Creation => "An error occurred while creating a new save"@,
            DbError::Renaming => "An error occurred while renaming the save"@,
            DbError::DuplicateName => "Another save with the same name already exists"@,
            DbError::Update => "An error occurred while updating the save"@,
            DbError::Deletion => "An error occurred while deleting the save"@,
            DbError::NoExportTarget => "The download directory could not be located"@,
            DbError::Export => "An error occurred while exporting the save"@,
        }
    }

    /// A human-readable description of the error.
    pub fn message(&self) -> (r: String)
        ensures
            r@ == self.spec_message(),
    {
        match self {
            DbError::Execution => String::from_str("Failed to execute query statement"),
            DbError::Fetching => String::from_str("An error occurred while fetching saves"),
            DbError::Creation => String::from_str("An error occurred while creating a new save"),
            DbError::Renaming => String::from_str("An error occurred while renaming the save"),
            DbError::DuplicateName => String::from_str(
                "Another save with the same name already exists",
            ),
            DbError::Update => String::from_str("An error occurred while updating the save"),
            DbError::Deletion => String::from_str("An error occurred while deleting the save"),
            DbError::NoExportTarget => String::from_str(
                "The download directory could not be located",
            ),
            DbError::Export => String::from_str("An error occurred while exporting the save"),
        }
    }
}

/// The failures of save-name handling.
#[derive(Clone, Copy, PartialEq, Eq, Structural, Debug)]
pub enum NameError {
    /// The name is empty.
    NameEmpty,
    /// The name holds a character outside the allowed set.
    InvalidName,
}

/// A save imported by name, with its data.
pub struct ImportedSave {
    /// The save's name.
    pub name: String,
    /// The saved base.
    pub data: Save,
}

/// The characters a save name may hold: ASCII alphanumerics, `-` and `_`.
pub open spec fn valid_name_char(c: char) -> bool {
    ('a' <= c && c <= 'z') || ('A' <= c && c <= 'Z') || ('0' <= c && c <= '9') || c == '-' || c
        == '_'
}

/// Accepts a name made only of allowed characters.
pub fn validate_save_name<'a>(name: &'a str) -> (r: Result<&'a str, NameError>)
    ensures
        match r {
            Ok(n) => n@ == name@ && forall|i: int|
                0 <= i < name@.len() ==> valid_name_char(#[trigger] name@[i]),
            Err(e) => e is InvalidName && exists|i: int|
                0 <= i < name@.len() && !valid_name_char(#[trigger] name@[i]),
        },
{
    let len = name.unicode_len();
    let mut i: usize = 0;
    while i < len
        invariant
            i <= len,
            len == name@.len(),
            forall|j: int| 0 <= j < i ==> valid_name_char(#[trigger] name@[j]),
        decreases len - i,
    {
        let c = name.get_char(i);
        let ok = ('a' <= c && c <= 'z') || ('A' <= c && c <= 'Z') || ('0' <= c && c <= '9') || c
            == '-' || c == '_';
        if !ok {
            return Err(NameError::InvalidName);
        }
        i += 1;
    }
    Ok(name)
}

/// The path of a named save file under the saves directory.
///
/// An empty name is rejected before validation, as is a name with a
/// disallowed character.
pub fn get_save_fp(saves_dir: &str, name: &str) -> (r: Result<String, NameError>)
    ensures
        match r {
            Ok(p) => {
                &&& name@.len() > 0
                &&& forall|i: int| 0 <= i < name@.len() ==> valid_name_char(#[trigger] name@[i])
                &&& p@ == saves_dir@ + "/"@ + name@ + ".json"@
            },
            Err(e) => match e {
                NameError::NameEmpty => name@.len() == 0,
                NameError::InvalidName => name@.len() > 0 && exists|i: int|
                    0 <= i < name@.len() && !valid_name_char(#[trigger] name@[i]),
            },
        },
{
    if name.unicode_len() == 0 {
        return Err(NameError::NameEmpty);
    }
    let checked = validate_save_name(name)?;
    let with_sep = concat(saves_dir, "/");
    let with_name = concat(with_sep.as_str(), checked);
    Ok(concat(with_name.as_str(), ".json"))
}

/// The content of each taken name.
pub open spec fn taken_views(v: Seq<String>) -> Seq<Seq<char>> {
    v.map_values(|x: String| x@)
}

/// The `i`-th fallback candidate: the stem, a dash and the decimal of `i`,
/// then the suffix.
pub open spec fn spec_numbered(stem: Seq<char>, i: nat, suffix: Seq<char>) -> Seq<char> {
    stem + "-"@ + spec_decimal(i) + suffix
}

/// Whether some element of `v` has content `s`.
fn taken_contains(v: &Vec<String>, s: &str) -> (r: bool)
    ensures
        r == taken_views(v@).contains(s@),
{
    let n = v.len();
    let mut i: usize = 0;
    while i < n
        invariant
            i <= n,
            n == v@.len(),
            forall|j: int| 0 <= j < i ==> (#[trigger] v@[j])@ != s@,
        decreases n - i,
    {
        if str_eq(v[i].as_str(), s) {
            proof {
                assert(taken_views(v@)[i as int] == s@);
            }
            return true;
        }
        i += 1;
    }
    proof {
        let m = taken_views(v@);
        assert forall|j: int| 0 <= j < m.len() implies m[j] != s@ by {
            assert(m[j] == (v@[j])@);
        }
        assert(!m.contains(s@));
    }
    false
}

/// Distinct candidate indices give distinct candidates.
proof fn lemma_numbered_injective(stem: Seq<char>, suffix: Seq<char>, a: nat, b: nat)
    requires
        spec_numbered(stem, a, suffix) == spec_numbered(stem, b, suffix),
    ensures
        a == b,
{
    let da = spec_decimal(a);
    let db = spec_decimal(b);
    let pa = stem + "-"@ + da;
    let pb = stem + "-"@ + db;
    assert(spec_numbered(stem, a, suffix) == pa + suffix);
    assert(spec_numbered(stem, b, suffix) == pb + suffix);
    assert((pa + suffix).len() == pa.len() + suffix.len());
    assert((pb + suffix).len() == pb.len() + suffix.len());
    assert(da.len() == db.len());
    let head = (stem + "-"@).len() as int;
    assert forall|p: int| 0 <= p < da.len() implies da[p] == db[p] by {
        assert((pa + suffix)[head + p] == da[p]);
        assert((pb + suffix)[head + p] == db[p]);
    }
    assert(da =~= db);
    lemma_decimal_injective(a, b);
}

/// The first candidate of the family `stem`, `stem-1`, `stem-2`, ... (each
/// followed by `suffix`) whose content is not among `taken`.
#[verifier::loop_isolation(false)]
fn first_available(stem: &str, suffix: &str, taken: &Vec<String>) -> (r: String)
    ensures
        !taken_views(taken@).contains(r@),
        !taken_views(taken@).contains(stem@ + suffix@) ==> r@ == stem@ + suffix@,
        taken_views(taken@).contains(stem@ + suffix@) ==> exists|i: nat|
            1 <= i && r@ == #[trigger] spec_numbered(stem@, i, suffix@) && (forall|j: nat|
                1 <= j < i ==> taken_views(taken@).contains(spec_numbered(stem@, j, suffix@))),
{
    broadcast use group_seq_properties;

    let ghost tv = taken_views(taken@);
    let n = taken.len();
    let base = concat(stem, suffix);
    if !taken_contains(taken, base.as_str()) {
        return base;
    }
    let dashed = concat(stem, "-");
    let mut c: usize = 0;
    while c < n
        invariant
            c <= n,
            forall|j: nat|
                1 <= j <= c ==> tv.contains(#[trigger] spec_numbered(stem@, j, suffix@)),
        decreases n - c,
    {
        let i = c as u64 + 1;
        let with_num = concat(dashed.as_str(), decimal(i).as_str());
        let cand = concat(with_num.as_str(), suffix);
        proof {
            assert(cand@ == spec_numbered(stem@, i as nat, suffix@));
        }
        if !taken_contains(taken, cand.as_str()) {
            return cand;
        }
        c += 1;
    }
    proof {
        let cands = Seq::<Seq<char>>::new(
            (n + 1) as nat,
            |k: int|
                if k == 0 {
                    stem@ + suffix@
                } else {
                    spec_numbered(stem@, k as nat, suffix@)
                },
        );
        assert forall|k: int| 0 <= k < cands.len() implies tv.contains(#[trigger] cands[k]) by {
            if k > 0 {
                assert(tv.contains(spec_numbered(stem@, k as nat, suffix@)));
            }
        }
        assert(cands.no_duplicates()) by {
            assert forall|k1: int, k2: int|
                0 <= k1 < k2 < cands.len() implies cands[k1] != cands[k2] by {
                lemma_decimal_len(k2 as nat);
                reveal_strlit("-");
                if k1 == 0 {
                    assert(cands[k1].len() == stem@.len() + suffix@.len());
                    assert(cands[k2] == ((stem@ + "-"@) + spec_decimal(k2 as nat)) + suffix@);
                    assert(cands[k2].len() == stem@.len() + 1 + spec_decimal(k2 as nat).len()
                        + suffix@.len());
                    assert(cands[k1].len() != cands[k2].len());
                } else {
                    lemma_decimal_len(k1 as nat);
                    if cands[k1] == cands[k2] {
                        lemma_numbered_injective(stem@, suffix@, k1 as nat, k2 as nat);
                    }
                }
            }
        }
        cands.unique_seq_to_set();
        assert(cands.to_set().len() == n + 1);
        assert(cands.to_set().subset_of(tv.to_set())) by {
            assert forall|x: Seq<char>| cands.to_set().contains(x) implies tv.to_set().contains(
                x,
            ) by {
                assert(cands.contains(x));
                assert(tv.contains(x));
            }
        }
        tv.lemma_cardinality_of_set();
        lemma_len_subset(cands.to_set(), tv.to_set());
        assert(false);
    }
    base
}

/// The first available save name: the preferred name itself, or the
/// lowest-numbered `name-i` not yet taken.
pub fn get_available_name(name: &str, taken: &Vec<String>) -> (r: String)
    ensures
        !taken_views(taken@).contains(r@),
        !taken_views(taken@).contains(name@) ==> r@ == name@,
        taken_views(taken@).contains(name@) ==> exists|i: nat|
            1 <= i && r@ == #[trigger] spec_numbered(name@, i, ""@) && (forall|j: nat|
                1 <= j < i ==> taken_views(taken@).contains(spec_numbered(name@, j, ""@))),
{
    proof {
        reveal_strlit("");
        assert(name@ + ""@ =~= name@);
    }
    first_available(name, "", taken)
}

/// The first available save-file path under `dir`: `name.json`, or the
/// lowest-numbered `name-i.json` not among the existing paths.
pub fn get_available_fp(dir: &str, name: &str, existing: &Vec<String>) -> (r: String)
    ensures
        !taken_views(existing@).contains(r@),
        !taken_views(existing@).contains(dir@ + "/"@ + name@ + ".json"@) ==> r@ == dir@ + "/"@
            + name@ + ".json"@,
        taken_views(existing@).contains(dir@ + "/"@ + name@ + ".json"@) ==> exists|i: nat|
            1 <= i && r@ == #[trigger] spec_numbered(dir@ + "/"@ + name@, i, ".json"@) && (forall|
                j: nat,
            |
                1 <= j < i ==> taken_views(existing@).contains(
                    spec_numbered(dir@ + "/"@ + name@, j, ".json"@),
                )),
{
    let with_sep = concat(dir, "/");
    let stem = concat(with_sep.as_str(), name);
    first_available(stem.as_str(), ".json", existing)
}

} // verus!
