//! The plain types of the ledger: accounts, token identifiers, credit
//! metadata and errors, each with its mathematical view.

use vstd::prelude::*;

verus! {

/// An account: 32 bytes, compared as a whole.
#[derive(Clone, Copy, Eq, Debug)]
pub struct AccountId(pub [u8; 32]);

impl PartialEq for AccountId {
    fn eq(&self, other: &Self) -> (same: bool) {
        let mut i: usize = 0;
        while i < 32
            invariant
                i <= 32,
                forall|j: int| 0 <= j < i ==> self.0[j] == other.0[j],
            decreases 32 - i,
        {
            if self.0[i] != other.0[i] {
                return false;
            }
            i += 1;
        }
        assert(self.0 =~= other.0);
        true
    }
}

impl vstd::std_specs::cmp::PartialEqSpecImpl for AccountId {
    open spec fn obeys_eq_spec() -> bool {
        true
    }

    open spec fn eq_spec(&self, other: &Self) -> bool {
        *self == *other
    }
}

/// PSP34 token identifier.
///
/// The ledger mints `Id::U128` identifiers only; the other variants are part
/// of the PSP34 interface and can be asked about.
#[derive(Clone, Debug, PartialEq, Eq)]
pub enum Id {
    U8(u8),
    U16(u16),
    U32(u32),
    U64(u64),
    U128(u128),
    Bytes(Vec<u8>),
}

/// The mathematical value of an [`Id`].
pub enum IdView {
    U8(u8),
    U16(u16),
    U32(u32),
    U64(u64),
    U128(u128),
    Bytes(Seq<u8>),
}

impl View for Id {
    type V = IdView;

    open spec fn view(&self) -> IdView {
        match *self {
            Id::U8(n) => IdView::U8(n),
            Id::U16(n) => IdView::U16(n),
            Id::U32(n) => IdView::U32(n),
            Id::U64(n) => IdView::U64(n),
            Id::U128(n) => IdView::U128(n),
            Id::Bytes(b) => IdView::Bytes(b@),
        }
    }
}

/// The view of an optional identifier.
pub open spec fn id_option(id: Option<Id>) -> Option<IdView> {
    match id {
        Some(i) => Some(i@),
        None => None,
    }
}

/// PSP34 errors.
#[derive(Clone, Debug, PartialEq, Eq)]
pub enum PSP34Error {
    /// Custom error with a free-form message.
    Custom(Vec<u8>),
    /// The token does not exist.
    TokenNotExists,
    /// The token already exists.
    TokenExists,
    /// The caller is not the owner nor an approved operator.
    NotApproved,
    /// Cannot approve oneself / self transfer not allowed.
    SelfApprove,
    /// A safe-transfer recipient check failed.
    SafeTransferCheckFailed(Vec<u8>),
}

/// Errors of the carbon-credit ledger on top of the PSP34 errors.
#[derive(Clone, Copy, Debug, PartialEq, Eq, Structural)]
pub enum CarbonCreditError {
    /// The account is not the owner of the contract.
    CallerNotOwner,
    /// The requested token does not exist.
    TokenNotFound,
}

/// Recognised carbon-credit verification standards.
///
/// | Variant        | Full name                          |
/// |----------------|------------------------------------|
/// | `VCS`          | Verified Carbon Standard           |
/// | `GS`           | Gold Standard (legacy label)       |
/// | `CDM`          | Clean Development Mechanism        |
/// | `GoldStandard` | Gold Standard for the Global Goals |
#[derive(Clone, Copy, Debug, PartialEq, Eq, Structural)]
pub enum CreditStandard {
    VCS,
    GS,
    CDM,
    GoldStandard,
}

/// Categories of carbon-mitigation projects.
#[derive(Clone, Copy, Debug, PartialEq, Eq, Structural)]
pub enum ProjectType {
    Reforestation,
    Renewable,
    MethaneCapture,
}

/// Full metadata attached to every carbon-credit token.
#[derive(Clone, Debug, PartialEq, Eq)]
pub struct CreditData {
    /// Human-readable project name (e.g. "Amazon Reforestation Phase II").
    pub project_name: String,
    /// Unix timestamp of the most recent verification.
    pub verification_date: u64,
    /// Account that performed the verification.
    pub verifier: AccountId,
    /// Year the carbon offset was generated.
    pub vintage_year: u32,
    /// Verification standard under which the credit was issued.
    pub credit_standard: CreditStandard,
    /// ISO 3166-1 alpha-2 country code (e.g. "BR").
    pub country: String,
    /// Category of the mitigation project.
    pub project_type: ProjectType,
}

/// The mathematical value of [`CreditData`].
pub struct CreditView {
    pub project_name: Seq<char>,
    pub verification_date: u64,
    pub verifier: AccountId,
    pub vintage_year: u32,
    pub credit_standard: CreditStandard,
    pub country: Seq<char>,
    pub project_type: ProjectType,
}

impl View for CreditData {
    type V = CreditView;

    open spec fn view(&self) -> CreditView {
        CreditView {
            project_name: self.project_name@,
            verification_date: self.verification_date,
            verifier: self.verifier,
            vintage_year: self.vintage_year,
            credit_standard: self.credit_standard,
            country: self.country@,
            project_type: self.project_type,
        }
    }
}

} // verus!
