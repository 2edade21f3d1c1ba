//! The contract's error values and their stable numeric codes.
use vstd::prelude::*;

verus! {

/// Every failure the contract reports. The numeric code of each variant
/// (see [`BackfillError::code`]) is part of the contract's interface.
#[derive(Clone, Copy, Debug, PartialEq, Eq, Structural, PartialOrd, Ord, Hash)]
pub enum BackfillError {
    InvalidToken,
    TooManyClaimants,
    InvalidClaimAmount,
    DuplicateClaimant,
    ClaimCapExceeded,
    NoClaim,
    InvalidRecipient,
    InvalidSwapAmount,
    SwapCapExceeded,
    BalanceMismatch,
    ReentrantCall,
    Overflow,
    NothingClaimable,
    TooManyGrantees,
    DuplicateGrantee,
    GrantCapExceeded,
    NoGrant,
    NothingGrantClaimable,
    SwapExpired,
    SwapNotExpired,
}

/// The numeric code of each error: consecutive values from 1200, in the
/// order in which the variants are declared.
pub open spec fn error_code(e: BackfillError) -> u32 {
    match e {
        BackfillError::InvalidToken => 1200,
        BackfillError::TooManyClaimants => 1201,
        BackfillError::InvalidClaimAmount => 1202,
        BackfillError::DuplicateClaimant => 1203,
        BackfillError::ClaimCapExceeded => 1204,
        BackfillError::NoClaim => 1205,
        BackfillError::InvalidRecipient => 1206,
        BackfillError::InvalidSwapAmount => 1207,
        BackfillError::SwapCapExceeded => 1208,
        BackfillError::BalanceMismatch => 1209,
        BackfillError::ReentrantCall => 1210,
        BackfillError::Overflow => 1211,
        BackfillError::NothingClaimable => 1212,
        BackfillError::TooManyGrantees => 1213,
        BackfillError::DuplicateGrantee => 1214,
        BackfillError::GrantCapExceeded => 1215,
        BackfillError::NoGrant => 1216,
        BackfillError::NothingGrantClaimable => 1217,
        BackfillError::SwapExpired => 1218,
        BackfillError::SwapNotExpired => 1219,
    }
}

impl BackfillError {
    /// The numeric code under which the contract reports this error.
    pub fn code(&self) -> (c: u32)
        ensures
            c == error_code(*self),
    {
        match self {
            BackfillError::InvalidToken => 1200,
            BackfillError::TooManyClaimants => 1201,
            BackfillError::InvalidClaimAmount => 1202,
            BackfillError::DuplicateClaimant => 1203,
            BackfillError::ClaimCapExceeded => 1204,
            BackfillError::NoClaim => 1205,
            BackfillError::InvalidRecipient => 1206,
            BackfillError::InvalidSwapAmount => 1207,
            BackfillError::SwapCapExceeded => 1208,
            BackfillError::BalanceMismatch => 1209,
            BackfillError::ReentrantCall => 1210,
            BackfillError::Overflow => 1211,
            BackfillError::NothingClaimable => 1212,
            BackfillError::TooManyGrantees => 1213,
            BackfillError::DuplicateGrantee => 1214,
            BackfillError::GrantCapExceeded => 1215,
            BackfillError::NoGrant => 1216,
            BackfillError::NothingGrantClaimable => 1217,
            BackfillError::SwapExpired => 1218,
            BackfillError::SwapNotExpired => 1219,
        }
    }
}

} // verus!
