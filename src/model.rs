use vstd::prelude::*;

verus! {

/// A release channel of the monitored application.
#[derive(Clone, Copy, Debug, PartialEq, Eq, Structural)]
pub enum Branch {
    Stable,
    Ptb,
    Canary,
    Development,
}

/// The canonical (lower case) name under which a branch is stored.
pub open spec fn branch_name(b: Branch) -> Seq<char> {
    match b {
        Branch::Stable => seq!['s', 't', 'a', 'b', 'l', 'e'],
        Branch::Ptb => seq!['p', 't', 'b'],
        Branch::Canary => seq!['c', 'a', 'n', 'a', 'r', 'y'],
        Branch::Development => seq!['d', 'e', 'v', 'e', 'l', 'o', 'p', 'm', 'e', 'n', 't'],
    }
}

impl Branch {
    /// The canonical name of the branch, as the store's enumeration spells it.
    pub fn name(&self) -> (r: &'static str)
        ensures
            r@ == branch_name(*self),
    {
        proof {
            reveal_strlit("stable");
            reveal_strlit("ptb");
            reveal_strlit("canary");
            reveal_strlit("development");
        }
        match self {
            Branch::Stable => "stable",
            Branch::Ptb => "ptb",
            Branch::Canary => "canary",
            Branch::Development => "development",
        }
    }
}

/// The largest build number that the store's integer column holds.
pub const MAX_BUILD_NUMBER: u64 = 2147483647;

/// A build: a content hash that identifies it, and its sequence number.
#[derive(Clone, Debug)]
pub struct Build {
    pub hash: String,
    pub number: u64,
}

/// The coarse type of an asset in a build's manifest.
#[derive(Clone, Copy, Debug, PartialEq, Eq, Structural)]
pub enum AssetType {
    Stylesheet,
    Script,
}

/// An asset of a build: its file name and its coarse type.
#[derive(Clone, Debug)]
pub struct Asset {
    pub name: String,
    pub typ: AssetType,
}

/// Why a write to the detection store did not happen.
#[derive(Clone, Copy, Debug, PartialEq, Eq, Structural)]
pub enum DetectionError {
    /// The build number does not fit the store's 32-bit signed column;
    /// nothing was sent to the store.
    BuildNumberOutOfRange { number: u64 },
    /// The store refused the statement with this index in the transaction;
    /// the transaction was rolled back.
    StoreFailure { statement: u64 },
}

/// Checks that a build number fits the store's integer column.
pub fn store_build_number(number: u64) -> (r: Result<i32, DetectionError>)
    ensures
        number <= MAX_BUILD_NUMBER ==> r == Ok::<i32, DetectionError>(number as i32),
        number > MAX_BUILD_NUMBER ==> r == Err::<i32, DetectionError>(
            DetectionError::BuildNumberOutOfRange { number },
        ),
{
    if number <= MAX_BUILD_NUMBER {
        Ok(number as i32)
    } else {
        Err(DetectionError::BuildNumberOutOfRange { number })
    }
}

} // verus!
