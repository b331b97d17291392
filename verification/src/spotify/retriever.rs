//! A request to Spotify's web API and the credentials to make it with.
use std::marker::PhantomData;
use vstd::prelude::*;

verus! {

/// The address of a request to Spotify's web API.
pub struct RetrievableRequest {
    pub uri: String,
}

impl RetrievableRequest {
    /// A request for `uri`.
    pub fn new(uri: String) -> (r: Self)
        ensures
            r.uri == uri,
    {
        Self { uri }
    }
}

/// The `Authorization` header value for the access token `auth_code`.
pub open spec fn bearer(auth_code: Seq<char>) -> Seq<char> {
    "Bearer "@ + auth_code
}

/// A request, with the header that authorizes it, whose answer reads as `T`.
pub struct Retriever<T> {
    pub retrievable_request: RetrievableRequest,
    pub authorization: String,
    pub phantom: PhantomData<T>,
}

impl<T> Retriever<T> {
    /// The request `retrievable_request`, made with the token `auth_code`.
    pub fn new(auth_code: &str, retrievable_request: RetrievableRequest) -> (r: Self)
        ensures
            r.retrievable_request == retrievable_request,
            r.authorization@ == bearer(auth_code@),
    {
        let mut authorization = String::from_str("Bearer ");
        authorization.append(auth_code);
        Self { retrievable_request, authorization, phantom: PhantomData }
    }
}

} // verus!
