//! Which releases of the Lua entry contract are served.
//!
//! The contract has two forms. In the first one every text is a plain string;
//! in the second one a text can be marked for translation. Release 3 exists in
//! both.
use vstd::prelude::*;

verus! {

pub const ENTRY_VERSION_V2: u32 = 2;

pub const ENTRY_VERSION_V3: u32 = 3;

pub const ENTRY_VERSION_V4: u32 = 4;

/// The oldest release that is served.
pub const ENTRY_VERSION: u32 = ENTRY_VERSION_V3;

pub const LATEST_ENTRY_VERSION: u32 = ENTRY_VERSION_V4;

pub const SUPPORTED_ENTRY_VERSIONS: [u32; 2] = [3, 4];

/// The served releases as they are written in messages.
pub const SUPPORTED_TEXT: &'static str = "[3, 4]";

/// The releases with plain texts as they are written in messages.
pub const SUPPORTED_PLAIN_TEXT: &'static str = "[2, 3]";

pub open spec fn served(version: u32) -> bool {
    version == ENTRY_VERSION_V3 || version == ENTRY_VERSION_V4
}

pub fn supports_entry_version(version: u32) -> (r: bool)
    ensures
        r == served(version),
        r == SUPPORTED_ENTRY_VERSIONS@.contains(version),
{
    proof {
        let all = SUPPORTED_ENTRY_VERSIONS@;
        assert(all[0] == 3 && all[1] == 4);
        if all.contains(version) {
            let i = choose|i: int| 0 <= i < all.len() && all[i] == version;
            assert(i == 0 || i == 1);
        }
    }
    version == ENTRY_VERSION_V3 || version == ENTRY_VERSION_V4
}

/// The form of the contract.
#[derive(Clone, Copy, Debug, PartialEq, Eq, Structural)]
pub enum Contract {
    Plain,
    Localized,
}

/// The contract that a plugin is written for.
#[derive(Clone, Copy, Debug, PartialEq, Eq, Structural)]
pub enum Dialect {
    Plain2,
    Plain3,
    Localized3,
    Localized4,
}

impl Dialect {
    /// Texts can be marked for translation.
    pub open spec fn localized(self) -> bool {
        self is Localized3 || self is Localized4
    }

    /// What a module exports must match what it declares.
    pub open spec fn strict(self) -> bool {
        !(self is Plain2)
    }

    pub open spec fn release(self) -> u32 {
        match self {
            Dialect::Plain2 => 2,
            Dialect::Plain3 => 3,
            Dialect::Localized3 => 3,
            Dialect::Localized4 => 4,
        }
    }

    pub fn is_localized(self) -> (r: bool)
        ensures
            r == self.localized(),
    {
        match self {
            Dialect::Localized3 => true,
            Dialect::Localized4 => true,
            _ => false,
        }
    }

    pub fn is_strict(self) -> (r: bool)
        ensures
            r == self.strict(),
    {
        match self {
            Dialect::Plain2 => false,
            _ => true,
        }
    }

    pub fn entry_version(self) -> (r: u32)
        ensures
            r == self.release(),
    {
        match self {
            Dialect::Plain2 => 2,
            Dialect::Plain3 => 3,
            Dialect::Localized3 => 3,
            Dialect::Localized4 => 4,
        }
    }
}

/// The dialect of a release in a form of the contract.
pub open spec fn dialect_of(contract: Contract, version: u32) -> Option<Dialect> {
    match contract {
        Contract::Plain => if version == ENTRY_VERSION_V2 {
            Some(Dialect::Plain2)
        } else if version == ENTRY_VERSION_V3 {
            Some(Dialect::Plain3)
        } else {
            None
        },
        Contract::Localized => if version == ENTRY_VERSION_V3 {
            Some(Dialect::Localized3)
        } else if version == ENTRY_VERSION_V4 {
            Some(Dialect::Localized4)
        } else {
            None
        },
    }
}

pub fn select_dialect(contract: Contract, version: u32) -> (r: Option<Dialect>)
    ensures
        r == dialect_of(contract, version),
{
    match contract {
        Contract::Plain => if version == ENTRY_VERSION_V2 {
            Some(Dialect::Plain2)
        } else if version == ENTRY_VERSION_V3 {
            Some(Dialect::Plain3)
        } else {
            None
        },
        Contract::Localized => if version == ENTRY_VERSION_V3 {
            Some(Dialect::Localized3)
        } else if version == ENTRY_VERSION_V4 {
            Some(Dialect::Localized4)
        } else {
            None
        },
    }
}

/// The releases of a form of the contract as they are written in messages.
pub open spec fn supported_text(contract: Contract) -> Seq<char> {
    match contract {
        Contract::Plain => SUPPORTED_PLAIN_TEXT@,
        Contract::Localized => SUPPORTED_TEXT@,
    }
}

pub fn supported_versions(contract: Contract) -> (r: &'static str)
    ensures
        r@ == supported_text(contract),
{
    match contract {
        Contract::Plain => SUPPORTED_PLAIN_TEXT,
        Contract::Localized => SUPPORTED_TEXT,
    }
}

/// A release that is served in the localized form has a dialect, and no other
/// has one.
pub proof fn law_served_has_a_dialect(version: u32)
    ensures
        served(version) <==> dialect_of(Contract::Localized, version) is Some,
        dialect_of(Contract::Localized, version) matches Some(dialect) ==> dialect.localized()
            && dialect.release() == version,
        dialect_of(Contract::Plain, version) matches Some(dialect) ==> !dialect.localized()
            && dialect.release() == version,
{
}

/// Plain plugins are served in the releases 2 and 3, the others in 3 and 4; each
/// pair has a dialect of its own.
pub proof fn law_dialects(contract: Contract, version: u32)
    ensures
        served(version) <==> version == 3 || version == 4,
        dialect_of(contract, version) == Some(Dialect::Plain2) <==> contract is Plain && version
            == 2,
        dialect_of(contract, version) == Some(Dialect::Plain3) <==> contract is Plain && version
            == 3,
        dialect_of(contract, version) == Some(Dialect::Localized3) <==> contract is Localized
            && version == 3,
        dialect_of(contract, version) == Some(Dialect::Localized4) <==> contract is Localized
            && version == 4,
{
}

/// What the dialects differ in: the second contract knows texts that are marked
/// for translation, and only the first release lets a plugin export what it does
/// not declare.
pub proof fn law_dialects_differ(dialect: Dialect)
    ensures
        dialect.localized() <==> dialect is Localized3 || dialect is Localized4,
        dialect.strict() <==> !(dialect is Plain2),
        dialect.release() == 2 <==> dialect is Plain2,
        dialect.release() == 3 <==> dialect is Plain3 || dialect is Localized3,
        dialect.release() == 4 <==> dialect is Localized4,
{
}

/// What is told of the releases that a contract serves.
pub proof fn law_told_releases()
    ensures
        supported_text(Contract::Plain) == "[2, 3]"@,
        supported_text(Contract::Localized) == "[3, 4]"@,
{
}

} // verus!
