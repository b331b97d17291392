//! A request for a user's top artists or tracks, with its credentials.
use super::retriever::bearer;
use super::top_items_request::top_items_uri;
use std::marker::PhantomData;
use vstd::prelude::*;

verus! {

/// The address of a top-items request and the header that authorizes it.
pub struct Retriever<T> {
    pub uri: String,
    pub authorization: String,
    pub phantom: PhantomData<T>,
}

impl<T> Retriever<T> {
    /// The request for the 50 top `what_to_get` over `timeframe`, made with
    /// the token `auth_code`.
    pub fn new(auth_code: &str, what_to_get: &str, timeframe: &str) -> (r: Self)
        ensures
            r.uri@ == top_items_uri(what_to_get@, timeframe@),
            r.authorization@ == bearer(auth_code@),
    {
        let mut uri = String::from_str("https://api.spotify.com/v1/me/top/");
        uri.append(what_to_get);
        uri.append("?limit=50&time_range=");
        uri.append(timeframe);
        let mut authorization = String::from_str("Bearer ");
        authorization.append(auth_code);
        Self { uri, authorization, phantom: PhantomData }
    }
}

} // verus!
