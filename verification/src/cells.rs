//! The plain values that stand for identifiers and metadata in storage.
//!
//! Contract storage holds integers, booleans, byte strings, text and `Option`,
//! `Result` and tuples of these. Each form below has exactly as many values as
//! the type it stands for, so nothing read back needs to be rejected.

use crate::types::{AccountId, CreditData, CreditStandard, CreditView, Id, IdView, ProjectType};
use vstd::prelude::*;
use vstd::utf8::encode_utf8;

verus! {

/// An [`Id`] as storage holds it: one nested `Result` per group of variants.
pub type IdCell = Result<Result<u8, u16>, Result<Result<u32, u64>, Result<u128, Vec<u8>>>>;

/// [`CreditData`] as storage holds it, field by field.
pub type CreditCell = (String, u64, [u8; 32], u32, (bool, bool), String, Option<bool>);

/// The identifier that a cell stands for.
pub open spec fn cell_id(cell: IdCell) -> IdView {
    match cell {
        Ok(Ok(n)) => IdView::U8(n),
        Ok(Err(n)) => IdView::U16(n),
        Err(Ok(Ok(n))) => IdView::U32(n),
        Err(Ok(Err(n))) => IdView::U64(n),
        Err(Err(Ok(n))) => IdView::U128(n),
        Err(Err(Err(b))) => IdView::Bytes(b@),
    }
}

/// The identifier that an optional cell stands for.
pub open spec fn cell_id_option(cell: Option<IdCell>) -> Option<IdView> {
    match cell {
        Some(c) => Some(cell_id(c)),
        None => None,
    }
}

/// The standard that a pair of flags stands for.
pub open spec fn flags_standard(flags: (bool, bool)) -> CreditStandard {
    match flags {
        (false, false) => CreditStandard::VCS,
        (false, true) => CreditStandard::GS,
        (true, false) => CreditStandard::CDM,
        (true, true) => CreditStandard::GoldStandard,
    }
}

/// The project category that an optional flag stands for.
pub open spec fn flag_project(flag: Option<bool>) -> ProjectType {
    match flag {
        None => ProjectType::Reforestation,
        Some(false) => ProjectType::Renewable,
        Some(true) => ProjectType::MethaneCapture,
    }
}

/// The metadata that a cell stands for.
pub open spec fn cell_credit(cell: CreditCell) -> CreditView {
    CreditView {
        project_name: cell.0@,
        verification_date: cell.1,
        verifier: AccountId(cell.2),
        vintage_year: cell.3,
        credit_standard: flags_standard(cell.4),
        country: cell.5@,
        project_type: flag_project(cell.6),
    }
}

/// The metadata that an optional cell stands for.
pub open spec fn cell_credit_option(cell: Option<CreditCell>) -> Option<CreditView> {
    match cell {
        Some(c) => Some(cell_credit(c)),
        None => None,
    }
}

/// Capacity in bytes of the buffer through which a storage entry passes.
pub const BUFFER_BYTES: usize = 16384;

/// Number of credits that one project's list can hold within the buffer.
pub const MAX_PROJECT_CREDITS: usize = 1021;

/// Whether a storage entry passes through the buffer: four bytes of table
/// key, then the entry's own key and its value.
pub open spec fn fits(key_bytes: nat, value_bytes: nat) -> bool {
    4 + key_bytes + value_bytes <= BUFFER_BYTES
}

/// Encoded length of the length in front of `len` items.
///
/// A length from 16384 takes more than two bytes; nothing that long fits
/// the buffer either way.
pub open spec fn prefix_bytes(len: nat) -> nat {
    if len < 64 {
        1
    } else {
        2
    }
}

/// Encoded length of an identifier: a tag per `Result`, then the number, or a
/// length and the bytes.
pub open spec fn id_bytes(id: IdView) -> nat {
    match id {
        IdView::U8(_) => 3,
        IdView::U16(_) => 4,
        IdView::U32(_) => 7,
        IdView::U64(_) => 11,
        IdView::U128(_) => 19,
        IdView::Bytes(b) => 3 + prefix_bytes(b.len()) + b.len(),
    }
}

/// Encoded length of a text: a length and the text in UTF-8.
pub open spec fn text_bytes(text: Seq<char>) -> nat {
    prefix_bytes(encode_utf8(text).len()) + encode_utf8(text).len()
}

/// Encoded length of credit metadata: date, verifier, year and standard of
/// fixed size, the category, and the two texts.
pub open spec fn credit_bytes(credit: CreditView) -> nat {
    8 + 32 + 4 + 2 + (if credit.project_type is Reforestation {
        1nat
    } else {
        2nat
    }) + text_bytes(credit.project_name) + text_bytes(credit.country)
}

/// Encoded length of a list of `len` token numbers of 16 bytes each.
pub open spec fn list_bytes(len: nat) -> nat {
    prefix_bytes(len) + 16 * len
}

/// Computes [`prefix_bytes`].
fn prefix_len(len: usize) -> (bytes: usize)
    ensures
        bytes == prefix_bytes(len as nat),
{
    if len < 64 {
        1
    } else {
        2
    }
}

impl Id {
    /// The storage form of an identifier.
    pub fn to_cell(&self) -> (cell: IdCell)
        ensures
            cell_id(cell) == self@,
    {
        match self {
            Id::U8(n) => Ok(Ok(*n)),
            Id::U16(n) => Ok(Err(*n)),
            Id::U32(n) => Err(Ok(Ok(*n))),
            Id::U64(n) => Err(Ok(Err(*n))),
            Id::U128(n) => Err(Err(Ok(*n))),
            Id::Bytes(b) => {
                let copy = b.clone();
                assert(copy@ =~= b@);
                Err(Err(Err(copy)))
            },
        }
    }

    /// The identifier that a storage form stands for.
    pub fn from_cell(cell: IdCell) -> (id: Id)
        ensures
            id@ == cell_id(cell),
    {
        match cell {
            Ok(Ok(n)) => Id::U8(n),
            Ok(Err(n)) => Id::U16(n),
            Err(Ok(Ok(n))) => Id::U32(n),
            Err(Ok(Err(n))) => Id::U64(n),
            Err(Err(Ok(n))) => Id::U128(n),
            Err(Err(Err(b))) => Id::Bytes(b),
        }
    }

    /// Whether an entry made of this identifier and `other_bytes` further
    /// bytes passes through the storage buffer.
    pub fn fits_with(&self, other_bytes: usize) -> (yes: bool)
        requires
            other_bytes <= BUFFER_BYTES,
        ensures
            yes == fits(id_bytes(self@), other_bytes as nat),
    {
        let own: usize = match self {
            Id::U8(_) => 3,
            Id::U16(_) => 4,
            Id::U32(_) => 7,
            Id::U64(_) => 11,
            Id::U128(_) => 19,
            Id::Bytes(b) => {
                if b.len() > BUFFER_BYTES {
                    return false;
                }
                3 + prefix_len(b.len()) + b.len()
            },
        };
        4 + own + other_bytes <= BUFFER_BYTES
    }
}

impl CreditStandard {
    /// The storage form of a standard.
    pub fn to_flags(self) -> (flags: (bool, bool))
        ensures
            flags_standard(flags) == self,
    {
        match self {
            CreditStandard::VCS => (false, false),
            CreditStandard::GS => (false, true),
            CreditStandard::CDM => (true, false),
            CreditStandard::GoldStandard => (true, true),
        }
    }

    /// The standard that a storage form stands for.
    pub fn from_flags(flags: (bool, bool)) -> (standard: CreditStandard)
        ensures
            standard == flags_standard(flags),
    {
        match flags {
            (false, false) => CreditStandard::VCS,
            (false, true) => CreditStandard::GS,
            (true, false) => CreditStandard::CDM,
            (true, true) => CreditStandard::GoldStandard,
        }
    }
}

impl ProjectType {
    /// The storage form of a project category.
    pub fn to_flag(self) -> (flag: Option<bool>)
        ensures
            flag_project(flag) == self,
    {
        match self {
            ProjectType::Reforestation => None,
            ProjectType::Renewable => Some(false),
            ProjectType::MethaneCapture => Some(true),
        }
    }

    /// The project category that a storage form stands for.
    pub fn from_flag(flag: Option<bool>) -> (project: ProjectType)
        ensures
            project == flag_project(flag),
    {
        match flag {
            None => ProjectType::Reforestation,
            Some(false) => ProjectType::Renewable,
            Some(true) => ProjectType::MethaneCapture,
        }
    }
}

impl CreditData {
    /// The storage form of credit metadata.
    pub fn to_cell(&self) -> (cell: CreditCell)
        ensures
            cell_credit(cell) == self@,
    {
        (
            self.project_name.clone(),
            self.verification_date,
            self.verifier.0,
            self.vintage_year,
            self.credit_standard.to_flags(),
            self.country.clone(),
            self.project_type.to_flag(),
        )
    }

    /// The metadata that a storage form stands for.
    pub fn from_cell(cell: CreditCell) -> (credit: CreditData)
        ensures
            credit@ == cell_credit(cell),
    {
        CreditData {
            project_name: cell.0,
            verification_date: cell.1,
            verifier: AccountId(cell.2),
            vintage_year: cell.3,
            credit_standard: CreditStandard::from_flags(cell.4),
            country: cell.5,
            project_type: ProjectType::from_flag(cell.6),
        }
    }

    /// Whether this metadata, keyed by a minted identifier, passes through
    /// the storage buffer.
    pub fn fits(&self) -> (yes: bool)
        ensures
            yes == fits(id_bytes(IdView::U128(0)), credit_bytes(self@)),
    {
        let name: usize = self.project_name.as_str().as_bytes().len();
        let country: usize = self.country.as_str().as_bytes().len();
        if name > BUFFER_BYTES || country > BUFFER_BYTES {
            return false;
        }
        let category: usize = match self.project_type {
            ProjectType::Reforestation => 1,
            _ => 2,
        };
        4 + 19 + 46 + category + prefix_len(name) + name + prefix_len(country) + country
            <= BUFFER_BYTES
    }
}

} // verus!
