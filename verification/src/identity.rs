//! Caller identities. An identity is the text that the host hands over for
//! the caller of an operation; the registry takes it as it is. One text is
//! reserved: that of the anonymous principal, which stands for a caller who
//! did not authenticate.

use candid::Principal;
use vstd::prelude::*;

verus! {

/// The text of the anonymous identity.
pub open spec fn anonymous_text() -> Seq<char> {
    "2vxsx-fae"@
}

/// Whether `identity` is the anonymous one.
pub open spec fn is_anonymous(identity: Seq<char>) -> bool {
    identity == anonymous_text()
}

/// Calls `Principal::anonymous` and `Principal::to_text` on it. The
/// anonymous principal holds the single byte 4. `to_text` writes the CRC-32
/// of the bytes, here d5 6f 2b 94, and then the bytes, in base 32 without
/// padding, in lower case and in groups of five with a dash between them:
/// for these five bytes that is the text given here.
#[verifier::external_body]
fn anonymous_principal_text() -> (text: String)
    ensures
        text@ == anonymous_text(),
{
    Principal::anonymous().to_text()
}

/// The anonymous identity.
pub fn anonymous_identity() -> (identity: String)
    ensures
        is_anonymous(identity@),
{
    anonymous_principal_text()
}

/// Whether the caller is anonymous.
pub fn is_anonymous_caller(caller: &str) -> (anonymous: bool)
    ensures
        anonymous == is_anonymous(caller@),
{
    caller.to_owned() == anonymous_principal_text()
}

/// The caller's identity, as it was handed over. The anonymous caller gets
/// its own text back like any other.
pub fn whoami(caller: &str) -> (identity: String)
    ensures
        identity@ == caller@,
{
    caller.to_owned()
}

} // verus!
