//! The session authenticator: decides whether a claimed (username, session
//! id) pair matches what the account directory holds.
//!
//! The directory lookup itself is network I/O performed by the surrounding
//! runtime; the decision here takes the directory's answer as a value and is
//! what every mutating protocol action gates on.

use vstd::prelude::*;

use crate::protocol::Account;

verus! {

/// The outcome of verifying a claimed session.
///
/// `AccountNotFound` and `InvalidSession` are distinguished only for the
/// server's own records; the client-visible reaction to both must be the
/// same generic unauthorized signal, to avoid username enumeration.
pub enum SessionVerdict {
    /// The account exists and its stored session id equals the claim.
    Authorized,
    /// The account exists but its stored session id differs from the claim.
    InvalidSession,
    /// No account with the claimed username exists.
    AccountNotFound,
    /// The directory itself failed; the text is its opaque error.
    DirectoryError(String),
}

/// Whether the directory answer `lookup` proves the claimed session `sid`:
/// the account was found and its stored session id equals the claim.
pub open spec fn session_ok(lookup: Result<Option<Account>, String>, sid: Seq<char>) -> bool {
    lookup matches Ok(Some(a)) && a@.session_id == sid
}

/// Compares a claimed session id against the directory's answer for the
/// claimed username. The stored id must equal the claim exactly.
pub fn verify(lookup: Result<Option<Account>, String>, session_id: &String) -> (v: SessionVerdict)
    ensures
        v is Authorized <==> session_ok(lookup, session_id@),
        v is InvalidSession <==> (lookup matches Ok(Some(a)) && a@.session_id != session_id@),
        v is AccountNotFound <==> lookup matches Ok(None),
        (v matches SessionVerdict::DirectoryError(e) ==> lookup matches Err(e2) && e2@ == e@),
        (lookup matches Err(e2) ==> v matches SessionVerdict::DirectoryError(e) && e@ == e2@),
{
    match lookup {
        Err(e) => SessionVerdict::DirectoryError(e),
        Ok(None) => SessionVerdict::AccountNotFound,
        Ok(Some(account)) => {
            if account.session_id == *session_id {
                SessionVerdict::Authorized
            } else {
                SessionVerdict::InvalidSession
            }
        },
    }
}

} // verus!
