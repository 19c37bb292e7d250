//! Deterministic state-transition logic of a token-curated registry.
//!
//! Two components are evaluated synchronously, one authenticated call at a
//! time. The [`token`] ledger holds balances, delegated allowances and
//! escrowed deposits. The [`tcr`] registry drives listings through
//! application, challenge, voting and resolution, and moves stakes only
//! through the ledger's `lock` and `unlock`.
//!
//! Every operation either commits all of its writes or fails and leaves both
//! components exactly as they were.

pub mod primitives;
pub mod sum;
pub mod table;
pub mod tcr;
pub mod token;
