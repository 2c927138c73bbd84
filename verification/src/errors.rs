//! The ways in which a wallet operation fails.

use vstd::prelude::*;

verus! {

/// The part that a connection plays in an operation.
#[derive(Clone, Copy, Debug, PartialEq, Eq, Structural)]
pub enum Role {
    /// The one connection that the operation names.
    Peer,
    /// The party that is expected to have issued a credential.
    Issuer,
    /// The party that a credential is expected to be about.
    Subject,
}

/// Why an operation of the wallet did not complete.
#[derive(Clone, Copy, Debug, PartialEq, Eq, Structural)]
pub enum WalletError {
    /// The key material is not there, or could not be produced or kept.
    Storage,
    /// The key file does not hold an Ed25519 key pair.
    CorruptKey,
    /// The envelope's header cannot be read, or names no sender that
    /// resolves, or its content is not a message.
    MalformedEnvelope,
    /// The envelope does not open under the key shared with its sender.
    Decryption,
    /// No connection is kept under the alias given for this party.
    UnknownConnection(Role),
    /// The DID kept for this party's connection carries no Ed25519 key.
    UnresolvableDid(Role),
    /// The identity's DID document names no assertion method.
    NoAssertionMethod,
    /// The envelope library refused to seal the message.
    SealRefused,
    /// Nothing is kept under this message id.
    UnknownRecord(u64),
    /// The text given for a message id is no decimal number that an id can
    /// be.
    NotAnId,
    /// The clock gives no time since 1970, or one that has no date.
    NoClock,
    /// Another envelope is kept under this message id already.
    IdTaken(u64),
    /// The wallet has an identity already, and keeps it.
    IdentityExists,
}

/// The error `e` of resolving a connection, said of the party `role`. Other
/// errors stay as they are.
pub open spec fn of_party(e: WalletError, role: Role) -> WalletError {
    match e {
        WalletError::UnknownConnection(_) => WalletError::UnknownConnection(role),
        WalletError::UnresolvableDid(_) => WalletError::UnresolvableDid(role),
        _ => e,
    }
}

impl WalletError {
    /// This error, said of the party `role` where it is one of resolving a
    /// connection.
    pub fn of(self, role: Role) -> (e: WalletError)
        ensures
            e == of_party(self, role),
    {
        match self {
            WalletError::UnknownConnection(_) => WalletError::UnknownConnection(role),
            WalletError::UnresolvableDid(_) => WalletError::UnresolvableDid(role),
            _ => self,
        }
    }
}

} // verus!
