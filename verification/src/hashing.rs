//! Credential hasher: one-way, salted hashing of passwords and verification
//! of a candidate password against a stored digest. The work is done by the
//! `bcrypt` crate; its results are described through `bcrypt_verifies`.

use vstd::prelude::*;

verus! {

/// What `bcrypt::verify` decides for a digest and a candidate password:
/// `true` exactly when the candidate matches the digest. The decision is a
/// pure function of the two strings (the salt and cost are read back out of
/// the digest itself); a digest that bcrypt cannot parse matches nothing.
pub uninterp spec fn bcrypt_verifies(digest: Seq<char>, candidate: Seq<char>) -> bool;

/// An opaque, irreversible digest of a password, safe to persist.
pub struct PasswordHash(String);

impl View for PasswordHash {
    type V = Seq<char>;

    closed spec fn view(&self) -> Seq<char> {
        self.0@
    }
}

impl PasswordHash {
    /// Relies on `bcrypt::hash` with `DEFAULT_COST`: it draws a fresh random
    /// salt and produces a digest that verifies against exactly the password
    /// it was made from — `bcrypt::verify` recomputes the digest from the
    /// salt and cost embedded in it, so the round trip holds for every salt.
    /// It fails only when the system's entropy source does, never on the
    /// password's content, and it does not panic.
    #[verifier::external_body]
    pub fn from_password(password: String) -> (r: Result<PasswordHash, bcrypt::BcryptError>)
        ensures
            r matches Ok(h) ==> bcrypt_verifies(h@, password@),
    {
        Ok(PasswordHash(bcrypt::hash(password, bcrypt::DEFAULT_COST)?))
    }

    /// Relies on `bcrypt::verify`: a deterministic comparison of a candidate
    /// password against a digest. A malformed digest, or any internal error,
    /// counts as a failed match; no error escapes and no panic occurs.
    #[verifier::external_body]
    pub fn verify(&self, password: &str) -> (r: bool)
        ensures
            r == bcrypt_verifies(self@, password@),
    {
        bcrypt::verify(password, &self.0).unwrap_or(false)
    }
}

#[verifier::external_type_specification]
#[verifier::external_body]
pub struct ExBcryptError(bcrypt::BcryptError);

} // verus!
