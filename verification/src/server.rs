//! The two upstream data locations and the remote paths of each record family.

use crate::text::concat;
use vstd::prelude::*;

verus! {

/// The record families fetched from the upstream snapshots, each with a
/// fixed remote path suffix.
#[derive(Clone, Copy, PartialEq, Eq, Structural, Debug)]
pub enum RecordFamily {
    /// The operator roster.
    Operator,
    /// The base data: per-operator skill unlocks, skill metadata and
    /// facilities.
    Base,
    /// The term and style constants.
    Terms,
}

impl RecordFamily {
    /// The family's fixed remote path suffix.
    pub open spec fn spec_remote_path(&self) -> Seq<char> {
        match self {
            RecordFamily::Operator => "gamedata/excel/character_table.json"@,
            RecordFamily::Base => "gamedata/excel/building_data.json"@,
            RecordFamily::Terms => "gamedata/excel/gamedata_const.json"@,
        }
    }

    pub fn remote_path(&self) -> (r: &'static str)
        ensures
            r@ == self.spec_remote_path(),
    {
        match self {
            RecordFamily::Operator => "gamedata/excel/character_table.json",
            RecordFamily::Base => "gamedata/excel/building_data.json",
            RecordFamily::Terms => "gamedata/excel/gamedata_const.json",
        }
    }
}

/// The location a record family's document is fetched from for a locale: the
/// locale's base location, a separator, and the family's path suffix.
pub fn fetch_url(server: &Server, family: &RecordFamily) -> (r: String)
    ensures
        r@ == server.spec_base_url() + "/"@ + family.spec_remote_path(),
{
    let with_sep = concat(server.base_url(), "/");
    concat(with_sep.as_str(), family.remote_path())
}

/// One of the two independently versioned upstream data snapshots.
///
/// `CN` is the primary (authoritative) locale: the operator roster is taken
/// from it and it wins merge conflicts. `US` is the secondary (translated)
/// locale, the one facility data is derived from.
#[derive(Clone, Copy, PartialEq, Eq, Structural, Debug)]
pub enum Server {
    US,
    CN,
}

impl Server {
    /// The base network location of this locale's snapshot.
    pub fn base_url(&self) -> (r: &'static str)
        ensures
            r@ == self.spec_base_url(),
    {
        match self {
            Server::US => {
                "https://raw.githubusercontent.com/Kengxxiao/ArknightsGameData_YoStar/master/en_US"
            },
            Server::CN => {
                "https://raw.githubusercontent.com/Kengxxiao/ArknightsGameData/master/zh_CN"
            },
        }
    }

    pub open spec fn spec_base_url(&self) -> Seq<char> {
        match self {
            Server::US => {
                "https://raw.githubusercontent.com/Kengxxiao/ArknightsGameData_YoStar/master/en_US"@
            },
            Server::CN => {
                "https://raw.githubusercontent.com/Kengxxiao/ArknightsGameData/master/zh_CN"@
            },
        }
    }
}

} // verus!
