//! Plain value types shared by the ledger and the registry.

use vstd::prelude::*;

verus! {

/// An authenticated caller, already resolved by the host.
pub type AccountId = u64;

/// A quantity of tokens.
pub type Balance = u64;

/// A point in time, or a duration, in the host's clock units.
pub type Moment = u64;

/// The content hash that identifies a listing.
pub type ListingHash = [u8; 32];

/// Largest number of bytes a listing's data may hold.
pub const MAX_DATA_LEN: usize = 256;

/// Why an operation was refused. A refused operation changes nothing.
#[derive(Clone, Copy, Debug, PartialEq, Eq, Structural)]
pub enum Error {
    /// The caller is not the account allowed to perform the action.
    Unauthorized,
    /// The genesis mint has already happened.
    AlreadyInitialized,
    /// The account, or the escrow, holds less than the amount to move.
    InsufficientBalance,
    /// The spender's remaining allowance is below the amount to move.
    InsufficientAllowance,
    /// The owner never approved this spender.
    AllowanceNotFound,
    /// The result of an addition does not fit the numeric domain.
    Overflow,
    /// Oversized listing data, or a configuration value that is not set.
    InvalidInput,
    /// No listing, challenge or vote exists under the given identifier.
    NotFound,
    /// A stake is below the minimum it has to reach.
    DepositTooLow,
    /// A listing with the same content hash is already stored.
    AlreadyExists,
    /// The listing already carries a challenge.
    AlreadyChallenged,
    /// The caller owns the listing that it tries to challenge.
    SelfChallenge,
    /// The apply or commit window has closed.
    StageExpired,
    /// The apply or commit window is still open.
    StageNotEnded,
    /// The account has already voted in this poll.
    AlreadyVoted,
    /// The challenge has already been resolved.
    AlreadyResolved,
    /// The challenge has not been resolved yet.
    NotResolved,
    /// The voter has already withdrawn its payout.
    AlreadyClaimed,
    /// The voter backed the losing side.
    NotAWinner,
}

} // verus!
