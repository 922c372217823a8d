//! Error taxonomy of the ledger core.
//!
//! Every operation either applies its whole state transition or fails with
//! one of these codes and leaves the ledger untouched.

use vstd::prelude::*;

verus! {

/// The reasons a transaction is rejected.
///
/// `CanNotUnfollow` and `PostNotFound` are declared for the wire surface but
/// never produced by any operation of this core.
#[derive(Clone, Copy, Debug, PartialEq, Eq, Structural)]
pub enum ErrorCode {
    /// An author may not follow or unfollow themselves.
    CanNotFollowYourself,
    /// A counter would leave the unsigned 64-bit range.
    Overflow,
    /// Declared but never produced by this core.
    CanNotUnfollow,
    /// A profile name longer than 32 units.
    NameTooLong,
    /// A profile bio longer than 100 units.
    BioTooLong,
    /// Post content longer than 256 units.
    ContentTooLong,
    /// Declared but never produced by this core.
    PostNotFound,
    /// The caller is not the post's author.
    CanNotDeletePost,
    /// A post timestamp must be strictly positive.
    InvalidTimestamp,
    /// The caller's identity does not match the record owner.
    Unauthorized,
    /// A create found a live record at the derived address, or a mutation
    /// found none.
    AddressCollision,
}

} // verus!
