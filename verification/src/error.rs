//! The errors that an operation can end with.

use vstd::prelude::*;

verus! {

/// The four classes of failure.
#[derive(Clone, Copy, Debug, PartialEq, Eq, Structural)]
pub enum ErrorKind {
    /// A rule of the operation is not met by the call.
    PreconditionViolation,
    /// Something the call refers to is not on record.
    NotFound,
    /// The caller may not do this.
    Unauthorized,
    /// The call or the data it rests on is not in the expected shape.
    MalformedInput,
}

/// Why an operation was refused. Every error aborts the whole call: the
/// ledger is left as it was.
#[derive(Clone, Copy, Debug, PartialEq, Eq, Structural)]
pub enum ContractError {
    /// Payment is required and the account has no pending payment.
    PaymentNotReceived,
    /// The amount sent is not the amount the payment contract asks for.
    WrongPaymentAmount,
    /// The account already has a pending payment.
    AlreadyPaid,
    /// The leader is not among the tokens sent with the call.
    MainTokenNotInList,
    /// The destination leader is not among the tokens sent with the call.
    TransferTargetNotInList,
    /// The leader of a merge does not carry the alpha trait.
    LeaderNotAlpha,
    /// A token to be merged carries the alpha trait.
    AlphaAsMember,
    /// A token to be merged has too little experience.
    ExperienceTooLow,
    /// The token to move is not a member of the source pack.
    NotPackMember,
    /// A leader of a relocation does not carry the alpha trait.
    NotAlpha,
    /// Source and destination of a relocation are the same leader.
    SameLeader,
    /// The media index does not match the member's place in the pack.
    MediaIndexMismatch,
    /// A token has no rank on record.
    UnknownRank,
    /// The leader has no membership list on record.
    UnknownPack,
    /// The leader has no leaderboard row on record.
    UnknownPackMain,
    /// The registry gave no metadata for a token.
    MetadataMissing,
    /// The page starts beyond the end of the leaderboard.
    OutOfBounds,
    /// No entry of the progression table lies above the experience reached.
    LevelNotFound,
    /// The caller is not the token registry.
    NotRegistryCaller,
    /// The caller is not an accepted payment contract.
    UnknownPaymentContract,
    /// The caller is not the owner of the contract.
    NotOwner,
    /// The permit did not validate.
    PermitRejected,
    /// The permit does not grant owner permission.
    OwnerPermissionRequired,
    /// A receive event came without a payload.
    MissingPayload,
    /// A token's metadata lacks a field the operation reads, or holds text
    /// where a number is expected.
    MalformedMetadata,
    /// A counter would leave the range of its type.
    ArithmeticOverflow,
    /// A rank lies outside the collection.
    RankOutOfRange,
}

impl ContractError {
    /// The class each error belongs to.
    pub open spec fn spec_kind(self) -> ErrorKind {
        match self {
            ContractError::PaymentNotReceived
            | ContractError::WrongPaymentAmount
            | ContractError::AlreadyPaid
            | ContractError::MainTokenNotInList
            | ContractError::TransferTargetNotInList
            | ContractError::LeaderNotAlpha
            | ContractError::AlphaAsMember
            | ContractError::ExperienceTooLow
            | ContractError::NotPackMember
            | ContractError::NotAlpha
            | ContractError::SameLeader
            | ContractError::MediaIndexMismatch => ErrorKind::PreconditionViolation,
            ContractError::UnknownRank
            | ContractError::UnknownPack
            | ContractError::UnknownPackMain
            | ContractError::MetadataMissing
            | ContractError::OutOfBounds
            | ContractError::LevelNotFound => ErrorKind::NotFound,
            ContractError::NotRegistryCaller
            | ContractError::UnknownPaymentContract
            | ContractError::NotOwner
            | ContractError::PermitRejected
            | ContractError::OwnerPermissionRequired => ErrorKind::Unauthorized,
            ContractError::MissingPayload
            | ContractError::MalformedMetadata
            | ContractError::ArithmeticOverflow
            | ContractError::RankOutOfRange => ErrorKind::MalformedInput,
        }
    }

    #[verifier::when_used_as_spec(spec_kind)]
    pub fn kind(self) -> (k: ErrorKind)
        ensures
            k == self.spec_kind(),
    {
        match self {
            ContractError::PaymentNotReceived
            | ContractError::WrongPaymentAmount
            | ContractError::AlreadyPaid
            | ContractError::MainTokenNotInList
            | ContractError::TransferTargetNotInList
            | ContractError::LeaderNotAlpha
            | ContractError::AlphaAsMember
            | ContractError::ExperienceTooLow
            | ContractError::NotPackMember
            | ContractError::NotAlpha
            | ContractError::SameLeader
            | ContractError::MediaIndexMismatch => ErrorKind::PreconditionViolation,
            ContractError::UnknownRank
            | ContractError::UnknownPack
            | ContractError::UnknownPackMain
            | ContractError::MetadataMissing
            | ContractError::OutOfBounds
            | ContractError::LevelNotFound => ErrorKind::NotFound,
            ContractError::NotRegistryCaller
            | ContractError::UnknownPaymentContract
            | ContractError::NotOwner
            | ContractError::PermitRejected
            | ContractError::OwnerPermissionRequired => ErrorKind::Unauthorized,
            ContractError::MissingPayload
            | ContractError::MalformedMetadata
            | ContractError::ArithmeticOverflow
            | ContractError::RankOutOfRange => ErrorKind::MalformedInput,
        }
    }
}

} // verus!
