//! The HTTP Basic authorization header for the library server.

use vstd::prelude::*;
use vstd::string::StringExecFns;

verus! {

/// What the standard base64 alphabet, with padding, encodes a string's
/// bytes to.
pub uninterp spec fn base64_standard(s: Seq<char>) -> Seq<char>;

/// Relies on `base64::engine::Engine::encode` with the crate's
/// `STANDARD` engine: the encoding of the string's bytes in the
/// standard alphabet with padding, a function of the input alone.
#[verifier::external_body]
fn base64_encode(s: &str) -> (r: String)
    ensures
        r@ == base64_standard(s@),
{
    base64::Engine::encode(&base64::engine::general_purpose::STANDARD, s)
}

/// The `user:password` credential pair.
pub open spec fn credentials(username: Seq<char>, password: Seq<char>) -> Seq<char> {
    username + seq![':'] + password
}

/// The value of an HTTP Basic authorization header for the pair.
pub open spec fn basic_auth_header_spec(username: Seq<char>, password: Seq<char>) -> Seq<char> {
    "Basic "@ + base64_standard(credentials(username, password))
}

/// Builds the HTTP Basic authorization header the library client sends:
/// `Basic` and the encoded `user:password` pair.
pub fn basic_auth_header(username: &str, password: &str) -> (r: String)
    ensures
        r@ == basic_auth_header_spec(username@, password@),
{
    let colon = ":";
    proof {
        reveal_strlit(":");
        assert(colon@ =~= seq![':']);
    }
    let joined = String::from_str(username).concat(colon).concat(password);
    proof {
        assert(joined@ =~= credentials(username@, password@));
    }
    let encoded = base64_encode(joined.as_str());
    let r = String::from_str("Basic ").concat(encoded.as_str());
    proof {
        assert(r@ =~= basic_auth_header_spec(username@, password@));
    }
    r
}

} // verus!
