use vstd::prelude::*;

verus! {

#[verifier::external_type_specification]
#[verifier::external_body]
pub struct ExClient(redis::Client);

#[verifier::external_type_specification]
#[verifier::external_body]
pub struct ExRedisError(redis::RedisError);

/// Whether the store client accepts `url` as a connection address.
pub uninterp spec fn accepts_url(url: Seq<char>) -> bool;

/// Relies on redis::Client::open: it parses the address into connection
/// settings, without connecting, and fails only when the text is not a usable
/// address; the outcome depends on the text alone.
#[verifier::external_body]
pub(crate) fn client_open(url: &str) -> (r: Result<redis::Client, redis::RedisError>)
    ensures
        r is Ok <==> accepts_url(url@),
{
    redis::Client::open(url)
}

} // verus!
