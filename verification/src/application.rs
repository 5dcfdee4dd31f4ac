//! The credential facade the transport layer sees: one operation that
//! produces an `Authorization` header value for a verb and URL.

use vstd::prelude::*;
use crate::oauth::{
    is_nonce_char, spec_signed_header, Error, Params, ParamsView, SignatureMethod,
};
use crate::text::decimal_of;

verus! {

/// A credential able to sign a request for a verb and URL.
pub trait Application {
    /// The credential's parameter set.
    spec fn params_view(&self) -> ParamsView;

    /// The credential's signing key material (the PEM text, for RSA
    /// signing).
    spec fn key_view(&self) -> Seq<u8>;

    /// Produces the `Authorization` header value for one request, the
    /// verb first: the signed header of the credential's parameters and
    /// key over the verb and URL, under some fresh 32-character
    /// alphanumeric nonce and some non-negative clock reading.
    fn get_signature(&self, verb: &str, url: &str) -> (r: Result<String, Error>)
        ensures
            r matches Ok(h) ==> exists|nonce: Seq<char>, t: i64|
                t >= 0 && h@ == spec_signed_header(
                    self.params_view(),
                    self.key_view(),
                    verb@,
                    url@,
                    nonce,
                    decimal_of(t as int),
                ) && nonce.len() == 32 && (forall|i: int|
                    0 <= i < 32 ==> is_nonce_char(#[trigger] nonce[i])),
            r matches Err(e) ==> e == Error::RandomnessUnavailable || e == Error::InvalidKey
                || e == Error::SigningFailure,
    ;
}

/// A private (server-to-server) application credential: RSA-SHA1 signing
/// under a PEM-encoded private key, with the consumer key doubling as the
/// delegated token, as the service expects of private applications.
pub struct PrivateApplication {
    oauth: Params,
    keypair_pem: Vec<u8>,
}

impl PrivateApplication {
    /// Builds the credential from the consumer key and the PEM text of the
    /// RSA private key.
    pub fn new(consumer_key: String, rsa_keypair_pem: Vec<u8>) -> (r: Result<
        PrivateApplication,
        Error,
    >)
        ensures
            r matches Ok(a) && a.key_view() == rsa_keypair_pem@ && a.params_view()
                == (ParamsView {
                realm: None,
                oauth_callback: None,
                oauth_consumer_key: consumer_key@,
                oauth_consumer_secret: None,
                oauth_signature_method: SignatureMethod::RsaSha1,
                oauth_token: Some(consumer_key@),
                oauth_token_secret: None,
                oauth_verifier: None,
                oauth_version: "1.0"@,
            }),
    {
        let token = consumer_key.clone();
        let mut params = match Params::new(consumer_key, SignatureMethod::RsaSha1) {
            Ok(p) => p,
            Err(e) => {
                return Err(e);
            },
        };
        params.oauth_token = Some(token);
        Ok(PrivateApplication { oauth: params, keypair_pem: rsa_keypair_pem })
    }
}

impl Application for PrivateApplication {
    closed spec fn params_view(&self) -> ParamsView {
        self.oauth@
    }

    closed spec fn key_view(&self) -> Seq<u8> {
        self.keypair_pem@
    }

    /// Signs one request: a fresh nonce and timestamp, the canonical base
    /// string over `verb` and `url`, an RSA-SHA1 signature, and the
    /// assembled header.
    fn get_signature(&self, verb: &str, url: &str) -> (r: Result<String, Error>) {
        match self.oauth.sign_request(self.keypair_pem.as_slice(), verb, url) {
            Ok(h) => {
                proof {
                    let (nonce, t): (Seq<char>, i64) = choose|nonce: Seq<char>, t: i64|
                        t >= 0 && h@ == spec_signed_header(
                            self.oauth@,
                            self.keypair_pem@,
                            verb@,
                            url@,
                            nonce,
                            decimal_of(t as int),
                        ) && nonce.len() == 32 && (forall|i: int|
                            0 <= i < 32 ==> is_nonce_char(#[trigger] nonce[i]));
                    assert(t >= 0 && h@ == spec_signed_header(
                        self.params_view(),
                        self.key_view(),
                        verb@,
                        url@,
                        nonce,
                        decimal_of(t as int),
                    ) && nonce.len() == 32 && (forall|i: int|
                        0 <= i < 32 ==> is_nonce_char(#[trigger] nonce[i])));
                }
                Ok(h)
            },
            Err(e) => Err(e),
        }
    }
}

} // verus!
