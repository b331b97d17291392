//! The body of the request that trades an authorization code for a token.
use super::{callback_text, get_callback};
use crate::config::Config;
use crate::encoding::{form_pairs, urlencode_pairs};
use vstd::prelude::*;

verus! {

/// The form fields of a token request.
pub struct TokenRequest<'a> {
    pub grant_type: String,
    pub client_id: &'a String,
    pub client_secret: &'a String,
}

/// The body of the token request for the code `code`, by the client
/// `client_id` with the secret `secret`, called back on `host`.
pub open spec fn token_request_text(
    code: Seq<char>,
    client_id: Seq<char>,
    secret: Seq<char>,
    host: Seq<char>,
) -> Seq<char> {
    form_pairs(
        seq![
            ("grant_type"@, "authorization_code"@),
            ("client_id"@, client_id),
            ("client_secret"@, secret),
        ],
    ) + "&code="@ + code + "&redirect_uri="@ + callback_text(host)
}

impl TokenRequest<'_> {
    /// The form body that trades `code` for a token: the grant type and the
    /// client's credentials form-urlencoded, then the code and the callback
    /// address as they are.
    pub fn get_serialized_request(code: &str, config: &Config) -> (r: String)
        ensures
            r@ == token_request_text(
                code@,
                config.client_id@,
                config.client_secret@,
                config.redirect_host_and_port@,
            ),
    {
        let request = TokenRequest {
            grant_type: String::from_str("authorization_code"),
            client_id: &config.client_id,
            client_secret: &config.client_secret,
        };
        let mut pairs: Vec<(String, String)> = Vec::new();
        pairs.push((String::from_str("grant_type"), request.grant_type));
        pairs.push((String::from_str("client_id"), request.client_id.clone()));
        pairs.push((String::from_str("client_secret"), request.client_secret.clone()));
        proof {
            assert(crate::encoding::pair_views(pairs@) =~= seq![
                ("grant_type"@, "authorization_code"@),
                ("client_id"@, config.client_id@),
                ("client_secret"@, config.client_secret@),
            ]);
        }
        let mut token_request = match urlencode_pairs(&pairs) {
            Ok(body) => body,
            Err(_) => String::new(),
        };
        token_request.append("&code=");
        token_request.append(code);
        token_request.append("&redirect_uri=");
        token_request.append(get_callback(config).as_str());
        token_request
    }
}

} // verus!
