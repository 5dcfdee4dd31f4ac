//! OAuth 1.0a request signing: the credential parameter set, the signable
//! protocol parameters, the canonical signature base string, the signing-key
//! derivation, and fresh nonces and timestamps.

use vstd::prelude::*;
use vstd::utf8::encode_utf8;
use rand::RngCore;
use crate::canonical::{pair_views, param_string, spec_param_string};
use crate::percent::pct_str;
use crate::text::{ascii_upper, decimal_of, format_i64, push_char, to_ascii_uppercase};

verus! {

/// Why a signing attempt failed.  None of these is transient: each aborts
/// the request attempt and surfaces to the caller unchanged.
#[derive(Clone, Copy, Debug, PartialEq, Eq, Structural)]
pub enum Error {
    /// The secure random source was unavailable.
    RandomnessUnavailable,
    /// The key material supplied at construction does not parse.
    InvalidKey,
    /// The underlying cryptographic operation failed.
    SigningFailure,
    /// Parameter serialization into the canonical string failed.
    EncodingFailure,
}

/// The signature algorithm a credential was constructed with, fixed for the
/// credential's lifetime.
#[derive(Clone, Copy, Debug, PartialEq, Eq, Structural)]
pub enum SignatureMethod {
    HmacSha1,
    RsaSha1,
}

impl SignatureMethod {
    /// The protocol name of the method, as it appears in headers and in the
    /// signature base string.
    pub open spec fn spec_name(self) -> Seq<char> {
        match self {
            SignatureMethod::HmacSha1 => "HMAC-SHA1"@,
            SignatureMethod::RsaSha1 => "RSA-SHA1"@,
        }
    }

    /// Writes the protocol name of the method.
    pub fn name(&self) -> (r: &'static str)
        ensures
            r@ == self.spec_name(),
    {
        match self {
            SignatureMethod::HmacSha1 => "HMAC-SHA1",
            SignatureMethod::RsaSha1 => "RSA-SHA1",
        }
    }
}

/// The mathematical content of a parameter set: each string replaced by its
/// character sequence.
pub struct ParamsView {
    pub realm: Option<Seq<char>>,
    pub oauth_callback: Option<Seq<char>>,
    pub oauth_consumer_key: Seq<char>,
    pub oauth_consumer_secret: Option<Seq<char>>,
    pub oauth_signature_method: SignatureMethod,
    pub oauth_token: Option<Seq<char>>,
    pub oauth_token_secret: Option<Seq<char>>,
    pub oauth_verifier: Option<Seq<char>>,
    pub oauth_version: Seq<char>,
}

/// The credential and protocol parameters of one signing identity.  The
/// secret-bearing fields (`oauth_consumer_secret`, `oauth_token_secret`)
/// only ever derive the signing key: they are never written into the
/// signature base string or the emitted header.
pub struct Params {
    pub realm: Option<String>,
    pub oauth_callback: Option<String>,
    pub oauth_consumer_key: String,
    pub oauth_consumer_secret: Option<String>,
    pub oauth_signature_method: SignatureMethod,
    pub oauth_token: Option<String>,
    pub oauth_token_secret: Option<String>,
    pub oauth_verifier: Option<String>,
    pub oauth_version: String,
}

/// The view of an optional string.
pub open spec fn opt_view(o: Option<String>) -> Option<Seq<char>> {
    match o {
        Some(s) => Some(s@),
        None => None,
    }
}

impl View for Params {
    type V = ParamsView;

    open spec fn view(&self) -> ParamsView {
        ParamsView {
            realm: opt_view(self.realm),
            oauth_callback: opt_view(self.oauth_callback),
            oauth_consumer_key: self.oauth_consumer_key@,
            oauth_consumer_secret: opt_view(self.oauth_consumer_secret),
            oauth_signature_method: self.oauth_signature_method,
            oauth_token: opt_view(self.oauth_token),
            oauth_token_secret: opt_view(self.oauth_token_secret),
            oauth_verifier: opt_view(self.oauth_verifier),
            oauth_version: self.oauth_version@,
        }
    }
}

/// The signable protocol parameters of one signing attempt: every
/// non-secret protocol field that is present, with the fresh nonce and
/// timestamp.  `realm` and the two secrets are excluded.
pub open spec fn spec_oauth_params(p: ParamsView, nonce: Seq<char>, ts: Seq<char>) -> Seq<
    (Seq<char>, Seq<char>),
> {
    (match p.oauth_callback {
        Some(c) => seq![("oauth_callback"@, c)],
        None => seq![],
    }) + seq![
        ("oauth_consumer_key"@, p.oauth_consumer_key),
        ("oauth_nonce"@, nonce),
        ("oauth_signature_method"@, p.oauth_signature_method.spec_name()),
        ("oauth_timestamp"@, ts),
    ] + (match p.oauth_token {
        Some(t) => seq![("oauth_token"@, t)],
        None => seq![],
    }) + (match p.oauth_verifier {
        Some(v) => seq![("oauth_verifier"@, v)],
        None => seq![],
    }) + seq![("oauth_version"@, p.oauth_version)]
}

/// The signable parameters are collected already in canonical order: their
/// names are strictly increasing lexicographically, whichever optional
/// fields are present, so the base string's parameter order is fixed by
/// the names alone.
pub proof fn lemma_oauth_param_names_sorted(p: ParamsView, nonce: Seq<char>, ts: Seq<char>)
    ensures
        forall|a: int, b: int|
            0 <= a < b < spec_oauth_params(p, nonce, ts).len() ==> crate::text::lex_leq(
                #[trigger] spec_oauth_params(p, nonce, ts)[a].0,
                #[trigger] spec_oauth_params(p, nonce, ts)[b].0,
            ) && spec_oauth_params(p, nonce, ts)[a].0 != spec_oauth_params(p, nonce, ts)[b].0,
{
    reveal_strlit("oauth_callback");
    reveal_strlit("oauth_consumer_key");
    reveal_strlit("oauth_nonce");
    reveal_strlit("oauth_signature_method");
    reveal_strlit("oauth_timestamp");
    reveal_strlit("oauth_token");
    reveal_strlit("oauth_verifier");
    reveal_strlit("oauth_version");
    let cb = "oauth_callback"@;
    let ck = "oauth_consumer_key"@;
    let nn = "oauth_nonce"@;
    let sm = "oauth_signature_method"@;
    let tm = "oauth_timestamp"@;
    let tk = "oauth_token"@;
    let vf = "oauth_verifier"@;
    let vs = "oauth_version"@;
    crate::text::lemma_lex_lt_at(cb, ck, 7);
    crate::text::lemma_lex_lt_at(ck, nn, 6);
    crate::text::lemma_lex_lt_at(nn, sm, 6);
    crate::text::lemma_lex_lt_at(sm, tm, 6);
    crate::text::lemma_lex_lt_at(tm, tk, 7);
    crate::text::lemma_lex_lt_at(tk, vf, 6);
    crate::text::lemma_lex_lt_at(vf, vs, 9);
    crate::text::lemma_lex_lt_transitive(cb, ck, nn);
    crate::text::lemma_lex_lt_transitive(ck, nn, sm);
    crate::text::lemma_lex_lt_transitive(nn, sm, tm);
    crate::text::lemma_lex_lt_transitive(sm, tm, tk);
    crate::text::lemma_lex_lt_transitive(tm, tk, vf);
    crate::text::lemma_lex_lt_transitive(tk, vf, vs);
    crate::text::lemma_lex_lt_transitive(cb, nn, sm);
    crate::text::lemma_lex_lt_transitive(ck, sm, tm);
    crate::text::lemma_lex_lt_transitive(nn, tm, tk);
    crate::text::lemma_lex_lt_transitive(sm, tk, vf);
    crate::text::lemma_lex_lt_transitive(tm, vf, vs);
    crate::text::lemma_lex_lt_transitive(cb, sm, tm);
    crate::text::lemma_lex_lt_transitive(ck, tm, tk);
    crate::text::lemma_lex_lt_transitive(nn, tk, vf);
    crate::text::lemma_lex_lt_transitive(sm, vf, vs);
    crate::text::lemma_lex_lt_transitive(cb, tm, tk);
    crate::text::lemma_lex_lt_transitive(ck, tk, vf);
    crate::text::lemma_lex_lt_transitive(nn, vf, vs);
    crate::text::lemma_lex_lt_transitive(cb, tk, vf);
    crate::text::lemma_lex_lt_transitive(ck, vf, vs);
    crate::text::lemma_lex_lt_transitive(cb, vf, vs);
    let fs = spec_oauth_params(p, nonce, ts);
    assert forall|a: int, b: int| 0 <= a < b < fs.len() implies crate::text::lex_leq(
        #[trigger] fs[a].0,
        #[trigger] fs[b].0,
    ) && fs[a].0 != fs[b].0 by {
        assert(fs[a].0 == cb || fs[a].0 == ck || fs[a].0 == nn || fs[a].0 == sm || fs[a].0 == tm
            || fs[a].0 == tk || fs[a].0 == vf);
        assert(fs[b].0 == ck || fs[b].0 == nn || fs[b].0 == sm || fs[b].0 == tm || fs[b].0 == tk
            || fs[b].0 == vf || fs[b].0 == vs);
    }
}

/// The canonical signature base string: the upper-cased method, the
/// percent-encoded base URL, and the percent-encoded canonical parameter
/// string, joined with `&`.
pub open spec fn spec_signature_base(
    method: Seq<char>,
    base_url: Seq<char>,
    params: Seq<char>,
) -> Seq<char> {
    ascii_upper(method) + seq!['&'] + pct_str(base_url) + seq!['&'] + pct_str(params)
}

/// The HMAC signing key: the percent-encoded consumer secret and the
/// percent-encoded token secret joined with `&`, an absent secret standing
/// for the empty string.  For RSA signing the shared secret (normally
/// absent) is passed through untouched, since the key is the RSA key.
pub open spec fn spec_signing_key(p: ParamsView) -> Seq<char> {
    let cs = match p.oauth_consumer_secret {
        Some(s) => s,
        None => Seq::<char>::empty(),
    };
    let tsec = match p.oauth_token_secret {
        Some(s) => s,
        None => Seq::<char>::empty(),
    };
    if p.oauth_signature_method == SignatureMethod::RsaSha1 {
        cs
    } else {
        pct_str(cs) + seq!['&'] + pct_str(tsec)
    }
}

impl Params {
    /// Creates a parameter set for the given consumer key and signature
    /// method; every optional field starts absent and the version is
    /// `"1.0"`.
    pub fn new(consumer_key: String, signature_method: SignatureMethod) -> (r: Result<
        Params,
        Error,
    >)
        ensures
            r matches Ok(p) && p@ == (ParamsView {
                realm: None,
                oauth_callback: None,
                oauth_consumer_key: consumer_key@,
                oauth_consumer_secret: None,
                oauth_signature_method: signature_method,
                oauth_token: None,
                oauth_token_secret: None,
                oauth_verifier: None,
                oauth_version: "1.0"@,
            }),
    {
        Ok(
            Params {
                realm: None,
                oauth_callback: None,
                oauth_consumer_key: consumer_key,
                oauth_consumer_secret: None,
                oauth_signature_method: signature_method,
                oauth_token: None,
                oauth_token_secret: None,
                oauth_verifier: None,
                oauth_version: "1.0".to_owned(),
            },
        )
    }

    /// Collects the signable protocol parameters for one signing attempt,
    /// in the order of [`spec_oauth_params`].  Secrets and `realm` stay
    /// out.
    pub fn get_oauth_params(&self, nonce: &str, timestamp: &str) -> (r: Vec<(String, String)>)
        ensures
            pair_views(r@) == spec_oauth_params(self@, nonce@, timestamp@),
    {
        let mut params: Vec<(String, String)> = Vec::new();
        if let Some(callback) = &self.oauth_callback {
            params.push(("oauth_callback".to_owned(), callback.clone()));
        }
        params.push(("oauth_consumer_key".to_owned(), self.oauth_consumer_key.clone()));
        params.push(("oauth_nonce".to_owned(), nonce.to_owned()));
        params.push(
            ("oauth_signature_method".to_owned(), self.oauth_signature_method.name().to_owned()),
        );
        params.push(("oauth_timestamp".to_owned(), timestamp.to_owned()));
        if let Some(token) = &self.oauth_token {
            params.push(("oauth_token".to_owned(), token.clone()));
        }
        if let Some(verifier) = &self.oauth_verifier {
            params.push(("oauth_verifier".to_owned(), verifier.clone()));
        }
        params.push(("oauth_version".to_owned(), self.oauth_version.clone()));
        proof {
            assert(pair_views(params@) =~= spec_oauth_params(self@, nonce@, timestamp@));
        }
        params
    }

    /// Builds the canonical signature base string from the method, the base
    /// URL, and an already-joined canonical parameter string.
    pub fn get_signature_base(&self, method: &str, base_url: &str, params: &str) -> (r: Result<
        String,
        Error,
    >)
        ensures
            r matches Ok(s) && s@ == spec_signature_base(method@, base_url@, params@),
    {
        let mut s = to_ascii_uppercase(method);
        push_char(&mut s, '&');
        let eu = crate::percent::to_string(base_url);
        s.append(eu.as_str());
        push_char(&mut s, '&');
        let ep = crate::percent::to_string(params);
        s.append(ep.as_str());
        proof {
            assert(s@ =~= spec_signature_base(method@, base_url@, params@));
        }
        Ok(s)
    }

    /// Derives the signing key of the credential, per
    /// [`spec_signing_key`].
    pub fn get_signing_key(&self) -> (r: Result<String, Error>)
        ensures
            r matches Ok(k) && k@ == spec_signing_key(self@),
    {
        let consumer_secret: &str = match &self.oauth_consumer_secret {
            Some(s) => s.as_str(),
            None => "",
        };
        proof {
            reveal_strlit("");
            assert(""@ =~= Seq::<char>::empty());
        }
        if matches!(self.oauth_signature_method, SignatureMethod::RsaSha1) {
            Ok(consumer_secret.to_owned())
        } else {
            let token_secret: &str = match &self.oauth_token_secret {
                Some(s) => s.as_str(),
                None => "",
            };
            let mut k = crate::percent::to_string(consumer_secret);
            push_char(&mut k, '&');
            let et = crate::percent::to_string(token_secret);
            k.append(et.as_str());
            proof {
                assert(k@ =~= spec_signing_key(self@));
            }
            Ok(k)
        }
    }
}

/// The canonical signature base string of one signing attempt: the
/// signable parameters joined canonically, then framed with the method and
/// base URL.
pub open spec fn spec_request_base(
    p: ParamsView,
    method: Seq<char>,
    base_url: Seq<char>,
    nonce: Seq<char>,
    ts: Seq<char>,
) -> Seq<char> {
    spec_signature_base(method, base_url, spec_param_string(spec_oauth_params(p, nonce, ts)))
}

/// The signature text of one signing attempt: the raw RSA-SHA1 or
/// HMAC-SHA1 signature of the base string's UTF-8 bytes, base64-encoded.
pub open spec fn spec_signature_text(
    p: ParamsView,
    key_pem: Seq<u8>,
    method: Seq<char>,
    base_url: Seq<char>,
    nonce: Seq<char>,
    ts: Seq<char>,
) -> Seq<char> {
    let base = encode_utf8(spec_request_base(p, method, base_url, nonce, ts));
    match p.oauth_signature_method {
        SignatureMethod::RsaSha1 => crate::signer::base64_of(
            crate::signer::rsa_sha1_signature(key_pem, base),
        ),
        SignatureMethod::HmacSha1 => crate::signer::base64_of(
            crate::signer::hmac_sha1_mac(encode_utf8(spec_signing_key(p)), base),
        ),
    }
}

/// The `Authorization` header value of one signing attempt.
pub open spec fn spec_signed_header(
    p: ParamsView,
    key_pem: Seq<u8>,
    method: Seq<char>,
    base_url: Seq<char>,
    nonce: Seq<char>,
    ts: Seq<char>,
) -> Seq<char> {
    crate::header::spec_authorization_header(
        p,
        nonce,
        ts,
        spec_signature_text(p, key_pem, method, base_url, nonce, ts),
    )
}

impl Params {
    /// Signs one request deterministically, with the nonce and timestamp
    /// given by the caller: builds the canonical base string, signs it with
    /// the configured method (the RSA key read from `key_pem`, or the
    /// shared-secret HMAC key), and assembles the header.  The result is a
    /// function of the arguments alone; repeated calls on the same inputs
    /// return the same header.  The base URL is signed as given: query
    /// parameters already on it are not folded into the signed parameter
    /// set, so callers pass the URL without a query string.
    pub fn sign_request_with(
        &self,
        key_pem: &[u8],
        method: &str,
        base_url: &str,
        nonce: &str,
        timestamp: &str,
    ) -> (r: Result<String, Error>)
        ensures
            r matches Ok(h) ==> h@ == spec_signed_header(
                self@,
                key_pem@,
                method@,
                base_url@,
                nonce@,
                timestamp@,
            ),
            r matches Err(e) ==> e == Error::InvalidKey || e == Error::SigningFailure,
            self@.oauth_signature_method == SignatureMethod::HmacSha1 && encode_utf8(
                spec_signing_key(self@),
            ).len() > 0x7fffffff ==> r == Err::<String, Error>(Error::SigningFailure),
    {
        let params = self.get_oauth_params(nonce, timestamp);
        let ps = param_string(&params);
        let base = match self.get_signature_base(method, base_url, ps.as_str()) {
            Ok(b) => b,
            Err(e) => {
                return Err(e);
            },
        };
        let base_bytes: &[u8] = base.as_str().as_bytes();
        let raw: Vec<u8> = if matches!(self.oauth_signature_method, SignatureMethod::RsaSha1) {
            match crate::signer::rsa_sha1_sign(key_pem, base_bytes) {
                Ok(sig) => sig,
                Err(e) => {
                    return Err(e);
                },
            }
        } else {
            let key = match self.get_signing_key() {
                Ok(k) => k,
                Err(e) => {
                    return Err(e);
                },
            };
            let key_bytes: &[u8] = key.as_str().as_bytes();
            if key_bytes.len() > 0x7fffffff {
                // openssl cannot take an HMAC key this long
                return Err(Error::SigningFailure);
            }
            match crate::signer::hmac_sha1_sign(key_bytes, base_bytes) {
                Ok(mac) => mac,
                Err(e) => {
                    return Err(e);
                },
            }
        };
        let signature = crate::signer::to_base64(raw.as_slice());
        let header = crate::header::authorization_header(
            self,
            nonce,
            timestamp,
            signature.as_str(),
        );
        Ok(header)
    }

    /// Signs one request: draws a fresh nonce and the current timestamp,
    /// then signs as [`Params::sign_request_with`] does.  The nonce and
    /// timestamp are generated anew on every call and never reused.
    pub fn sign_request(&self, key_pem: &[u8], method: &str, base_url: &str) -> (r: Result<
        String,
        Error,
    >)
        ensures
            r matches Ok(h) ==> exists|nonce: Seq<char>, t: i64|
                t >= 0 && h@ == spec_signed_header(
                    self@,
                    key_pem@,
                    method@,
                    base_url@,
                    nonce,
                    decimal_of(t as int),
                ) && nonce.len() == 32 && (forall|i: int|
                    0 <= i < 32 ==> is_nonce_char(#[trigger] nonce[i])),
            r matches Err(e) ==> e == Error::RandomnessUnavailable || e == Error::InvalidKey
                || e == Error::SigningFailure,
    {
        let nonce = match generate_nonce() {
            Ok(n) => n,
            Err(e) => {
                return Err(e);
            },
        };
        let timestamp = generate_timestamp();
        let ghost clock: i64 = choose|t: i64| t >= 0 && timestamp@ == decimal_of(t as int);
        match self.sign_request_with(key_pem, method, base_url, nonce.as_str(), timestamp.as_str())
        {
            Ok(h) => {
                proof {
                    assert(clock >= 0 && timestamp@ == decimal_of(clock as int));
                    assert(h@ == spec_signed_header(
                        self@,
                        key_pem@,
                        method@,
                        base_url@,
                        nonce@,
                        decimal_of(clock as int),
                    ));
                }
                Ok(h)
            },
            Err(e) => Err(e),
        }
    }
}

/// Canonical-ordering law, at the level of the signature base string: two
/// collections of the same parameters, in whatever order, give the same
/// base string.
pub proof fn lemma_signature_base_order_independent(
    ps1: Seq<(Seq<char>, Seq<char>)>,
    ps2: Seq<(Seq<char>, Seq<char>)>,
    method: Seq<char>,
    base_url: Seq<char>,
)
    requires
        ps1.to_multiset() == ps2.to_multiset(),
    ensures
        spec_signature_base(method, base_url, spec_param_string(ps1)) == spec_signature_base(
            method,
            base_url,
            spec_param_string(ps2),
        ),
{
    crate::canonical::lemma_param_string_order_independent(ps1, ps2);
}

/// The contacts scenario, at the spec level: a credential whose
/// non-secret fields are exactly consumer key `abc123`, RSA-SHA1 signing,
/// version `1.0` and no optional protocol fields, signing `GET` on the
/// contacts URL, produces exactly this canonical base string — for every
/// alphanumeric nonce and every digit timestamp.
pub proof fn lemma_scenario_base_string(p: ParamsView, nonce: Seq<char>, ts: Seq<char>)
    requires
        p.oauth_callback is None,
        p.oauth_consumer_key == "abc123"@,
        p.oauth_signature_method == SignatureMethod::RsaSha1,
        p.oauth_token is None,
        p.oauth_verifier is None,
        p.oauth_version == "1.0"@,
        forall|i: int| 0 <= i < nonce.len() ==> is_nonce_char(#[trigger] nonce[i]),
        forall|i: int|
            0 <= i < ts.len() ==> 0x30 <= (#[trigger] ts[i] as u32) && (ts[i] as u32) <= 0x39,
    ensures
        spec_request_base(p, "GET"@, "https://api.example.com/Contacts"@, nonce, ts)
            == "GET&https%3A%2F%2Fapi.example.com%2FContacts&oauth_consumer_key%3Dabc123%26oauth_nonce%3D"@
            + nonce + "%26oauth_signature_method%3DRSA-SHA1%26oauth_timestamp%3D"@ + ts
            + "%26oauth_version%3D1.0"@,
{
    reveal_strlit("abc123");
    reveal_strlit("1.0");
    reveal_strlit("RSA-SHA1");
    reveal_strlit("oauth_consumer_key");
    reveal_strlit("oauth_nonce");
    reveal_strlit("oauth_signature_method");
    reveal_strlit("oauth_timestamp");
    reveal_strlit("oauth_version");
    // the parameter list of the scenario credential
    let ps = spec_oauth_params(p, nonce, ts);
    assert(ps =~= seq![
        ("oauth_consumer_key"@, "abc123"@),
        ("oauth_nonce"@, nonce),
        ("oauth_signature_method"@, "RSA-SHA1"@),
        ("oauth_timestamp"@, ts),
        ("oauth_version"@, "1.0"@),
    ]);
    // percent-encoding is the identity on every name and value
    assert(forall|i: int|
        0 <= i < "oauth_consumer_key"@.len() ==> crate::percent::is_unreserved_char(
            #[trigger] "oauth_consumer_key"@[i],
        ));
    assert(forall|i: int|
        0 <= i < "oauth_nonce"@.len() ==> crate::percent::is_unreserved_char(
            #[trigger] "oauth_nonce"@[i],
        ));
    assert(forall|i: int|
        0 <= i < "oauth_signature_method"@.len() ==> crate::percent::is_unreserved_char(
            #[trigger] "oauth_signature_method"@[i],
        ));
    assert(forall|i: int|
        0 <= i < "oauth_timestamp"@.len() ==> crate::percent::is_unreserved_char(
            #[trigger] "oauth_timestamp"@[i],
        ));
    assert(forall|i: int|
        0 <= i < "oauth_version"@.len() ==> crate::percent::is_unreserved_char(
            #[trigger] "oauth_version"@[i],
        ));
    assert(forall|i: int|
        0 <= i < "abc123"@.len() ==> crate::percent::is_unreserved_char(
            #[trigger] "abc123"@[i],
        ));
    assert(forall|i: int|
        0 <= i < "RSA-SHA1"@.len() ==> crate::percent::is_unreserved_char(
            #[trigger] "RSA-SHA1"@[i],
        ));
    assert(forall|i: int|
        0 <= i < "1.0"@.len() ==> crate::percent::is_unreserved_char(#[trigger] "1.0"@[i]));
    assert(forall|i: int|
        0 <= i < nonce.len() ==> crate::percent::is_unreserved_char(#[trigger] nonce[i]));
    assert(forall|i: int|
        0 <= i < ts.len() ==> crate::percent::is_unreserved_char(#[trigger] ts[i]));
    crate::percent::lemma_pct_str_unreserved("oauth_consumer_key"@);
    crate::percent::lemma_pct_str_unreserved("oauth_nonce"@);
    crate::percent::lemma_pct_str_unreserved("oauth_signature_method"@);
    crate::percent::lemma_pct_str_unreserved("oauth_timestamp"@);
    crate::percent::lemma_pct_str_unreserved("oauth_version"@);
    crate::percent::lemma_pct_str_unreserved("abc123"@);
    crate::percent::lemma_pct_str_unreserved("RSA-SHA1"@);
    crate::percent::lemma_pct_str_unreserved("1.0"@);
    crate::percent::lemma_pct_str_unreserved(nonce);
    crate::percent::lemma_pct_str_unreserved(ts);
    let enc = crate::canonical::enc_pairs(ps);
    assert(enc =~= ps);
    // the list is already sorted, so sorting leaves it unchanged
    lemma_oauth_param_names_sorted(p, nonce, ts);
    assert(vstd::relations::sorted_by(enc, crate::canonical::pair_order())) by {
        assert forall|a: int, b: int|
            0 <= a < b < enc.len() implies #[trigger] crate::canonical::pair_order()(
            enc[a],
            enc[b],
        ) by {
            assert(enc[a] == ps[a] && enc[b] == ps[b]);
            assert(crate::text::lex_leq(ps[a].0, ps[b].0) && ps[a].0 != ps[b].0);
        }
    }
    crate::canonical::lemma_pair_order_total();
    enc.lemma_sort_by_ensures(crate::canonical::pair_order());
    vstd::seq_lib::lemma_sorted_unique(
        enc.sort_by(crate::canonical::pair_order()),
        enc,
        crate::canonical::pair_order(),
    );
    assert(enc.sort_by(crate::canonical::pair_order()) == enc);
    lemma_scenario_base_text(p, nonce, ts, enc);
}

/// The reserved characters the scenario texts contain, and their escapes.
proof fn lemma_pct_escapes()
    ensures
        crate::percent::pct_str(seq!['=']) == "%3D"@,
        crate::percent::pct_str(seq!['&']) == "%26"@,
        crate::percent::pct_str(seq![':']) == "%3A"@,
        crate::percent::pct_str(seq!['/']) == "%2F"@,
{
    reveal_strlit("%3D");
    reveal_strlit("%26");
    reveal_strlit("%3A");
    reveal_strlit("%2F");
    crate::percent::lemma_pct_str_one('=');
    crate::percent::lemma_pct_str_one('&');
    crate::percent::lemma_pct_str_one(':');
    crate::percent::lemma_pct_str_one('/');
    assert(crate::percent::pct_str(seq!['=']) =~= "%3D"@) by {
        assert((crate::percent::hex_upper_char(3) as u32) == 0x33);
        assert((crate::percent::hex_upper_char(13) as u32) == 0x44);
        crate::text::lemma_char_eq_by_code(crate::percent::hex_upper_char(3), "%3D"@[1]);
        crate::text::lemma_char_eq_by_code(crate::percent::hex_upper_char(13), "%3D"@[2]);
    }
    assert(crate::percent::pct_str(seq!['&']) =~= "%26"@) by {
        assert((crate::percent::hex_upper_char(2) as u32) == 0x32);
        assert((crate::percent::hex_upper_char(6) as u32) == 0x36);
        crate::text::lemma_char_eq_by_code(crate::percent::hex_upper_char(2), "%26"@[1]);
        crate::text::lemma_char_eq_by_code(crate::percent::hex_upper_char(6), "%26"@[2]);
    }
    assert(crate::percent::pct_str(seq![':']) =~= "%3A"@) by {
        assert((crate::percent::hex_upper_char(3) as u32) == 0x33);
        assert((crate::percent::hex_upper_char(10) as u32) == 0x41);
        crate::text::lemma_char_eq_by_code(crate::percent::hex_upper_char(3), "%3A"@[1]);
        crate::text::lemma_char_eq_by_code(crate::percent::hex_upper_char(10), "%3A"@[2]);
    }
    assert(crate::percent::pct_str(seq!['/']) =~= "%2F"@) by {
        assert((crate::percent::hex_upper_char(2) as u32) == 0x32);
        assert((crate::percent::hex_upper_char(15) as u32) == 0x46);
        crate::text::lemma_char_eq_by_code(crate::percent::hex_upper_char(2), "%2F"@[1]);
        crate::text::lemma_char_eq_by_code(crate::percent::hex_upper_char(15), "%2F"@[2]);
    }
}

/// A literal made of unreserved characters encodes to itself.
proof fn lemma_pct_lit_unreserved(s: Seq<char>)
    requires
        forall|i: int| 0 <= i < s.len() ==> crate::percent::is_unreserved_char(#[trigger] s[i]),
    ensures
        crate::percent::pct_str(s) == s,
{
    crate::percent::lemma_pct_str_unreserved(s);
}

/// The scenario URL percent-encodes to its expected text.
proof fn lemma_scenario_url_text()
    ensures
        crate::percent::pct_str("https://api.example.com/Contacts"@)
            == "https%3A%2F%2Fapi.example.com%2FContacts"@,
{
    reveal_strlit("https://api.example.com/Contacts");
    reveal_strlit("https%3A%2F%2Fapi.example.com%2FContacts");
    reveal_strlit("https");
    reveal_strlit("api.example.com");
    reveal_strlit("Contacts");
    reveal_strlit("%3A");
    reveal_strlit("%2F");
    lemma_pct_escapes();
    assert(forall|i: int|
        0 <= i < "https"@.len() ==> crate::percent::is_unreserved_char(#[trigger] "https"@[i]));
    assert(forall|i: int|
        0 <= i < "api.example.com"@.len() ==> crate::percent::is_unreserved_char(
            #[trigger] "api.example.com"@[i],
        ));
    assert(forall|i: int|
        0 <= i < "Contacts"@.len() ==> crate::percent::is_unreserved_char(
            #[trigger] "Contacts"@[i],
        ));
    lemma_pct_lit_unreserved("https"@);
    lemma_pct_lit_unreserved("api.example.com"@);
    lemma_pct_lit_unreserved("Contacts"@);
    let u = "https://api.example.com/Contacts"@;
    assert(u =~= "https"@ + seq![':'] + seq!['/'] + seq!['/'] + "api.example.com"@ + seq!['/']
        + "Contacts"@);
    crate::percent::lemma_pct_str_concat(
        "https"@ + seq![':'] + seq!['/'] + seq!['/'] + "api.example.com"@ + seq!['/'],
        "Contacts"@,
    );
    crate::percent::lemma_pct_str_concat(
        "https"@ + seq![':'] + seq!['/'] + seq!['/'] + "api.example.com"@,
        seq!['/'],
    );
    crate::percent::lemma_pct_str_concat(
        "https"@ + seq![':'] + seq!['/'] + seq!['/'],
        "api.example.com"@,
    );
    crate::percent::lemma_pct_str_concat("https"@ + seq![':'] + seq!['/'], seq!['/']);
    crate::percent::lemma_pct_str_concat("https"@ + seq![':'], seq!['/']);
    crate::percent::lemma_pct_str_concat("https"@, seq![':']);
    assert(crate::percent::pct_str(u) =~= "https%3A%2F%2Fapi.example.com%2FContacts"@);
}

/// The raw canonical parameter text of the scenario percent-encodes to
/// its expected text, for every alphanumeric nonce and digit timestamp.
proof fn lemma_scenario_param_text(nonce: Seq<char>, ts: Seq<char>)
    requires
        forall|i: int| 0 <= i < nonce.len() ==> is_nonce_char(#[trigger] nonce[i]),
        forall|i: int|
            0 <= i < ts.len() ==> 0x30 <= (#[trigger] ts[i] as u32) && (ts[i] as u32) <= 0x39,
    ensures
        crate::percent::pct_str(
            "oauth_consumer_key=abc123&oauth_nonce="@ + nonce
                + "&oauth_signature_method=RSA-SHA1&oauth_timestamp="@ + ts
                + "&oauth_version=1.0"@,
        ) == "oauth_consumer_key%3Dabc123%26oauth_nonce%3D"@ + nonce
            + "%26oauth_signature_method%3DRSA-SHA1%26oauth_timestamp%3D"@ + ts
            + "%26oauth_version%3D1.0"@,
{
    reveal_strlit("oauth_consumer_key=abc123&oauth_nonce=");
    reveal_strlit("&oauth_signature_method=RSA-SHA1&oauth_timestamp=");
    reveal_strlit("&oauth_version=1.0");
    reveal_strlit("oauth_consumer_key%3Dabc123%26oauth_nonce%3D");
    reveal_strlit("%26oauth_signature_method%3DRSA-SHA1%26oauth_timestamp%3D");
    reveal_strlit("%26oauth_version%3D1.0");
    reveal_strlit("oauth_consumer_key");
    reveal_strlit("oauth_nonce");
    reveal_strlit("oauth_signature_method");
    reveal_strlit("oauth_timestamp");
    reveal_strlit("oauth_version");
    reveal_strlit("abc123");
    reveal_strlit("RSA-SHA1");
    reveal_strlit("1.0");
    reveal_strlit("%3D");
    reveal_strlit("%26");
    lemma_pct_escapes();
    assert(forall|i: int|
        0 <= i < "oauth_consumer_key"@.len() ==> crate::percent::is_unreserved_char(
            #[trigger] "oauth_consumer_key"@[i],
        ));
    assert(forall|i: int|
        0 <= i < "oauth_nonce"@.len() ==> crate::percent::is_unreserved_char(
            #[trigger] "oauth_nonce"@[i],
        ));
    assert(forall|i: int|
        0 <= i < "oauth_signature_method"@.len() ==> crate::percent::is_unreserved_char(
            #[trigger] "oauth_signature_method"@[i],
        ));
    assert(forall|i: int|
        0 <= i < "oauth_timestamp"@.len() ==> crate::percent::is_unreserved_char(
            #[trigger] "oauth_timestamp"@[i],
        ));
    assert(forall|i: int|
        0 <= i < "oauth_version"@.len() ==> crate::percent::is_unreserved_char(
            #[trigger] "oauth_version"@[i],
        ));
    assert(forall|i: int|
        0 <= i < "abc123"@.len() ==> crate::percent::is_unreserved_char(
            #[trigger] "abc123"@[i],
        ));
    assert(forall|i: int|
        0 <= i < "RSA-SHA1"@.len() ==> crate::percent::is_unreserved_char(
            #[trigger] "RSA-SHA1"@[i],
        ));
    assert(forall|i: int|
        0 <= i < "1.0"@.len() ==> crate::percent::is_unreserved_char(#[trigger] "1.0"@[i]));
    assert(forall|i: int|
        0 <= i < nonce.len() ==> crate::percent::is_unreserved_char(#[trigger] nonce[i]));
    assert(forall|i: int|
        0 <= i < ts.len() ==> crate::percent::is_unreserved_char(#[trigger] ts[i]));
    lemma_pct_lit_unreserved("oauth_consumer_key"@);
    lemma_pct_lit_unreserved("oauth_nonce"@);
    lemma_pct_lit_unreserved("oauth_signature_method"@);
    lemma_pct_lit_unreserved("oauth_timestamp"@);
    lemma_pct_lit_unreserved("oauth_version"@);
    lemma_pct_lit_unreserved("abc123"@);
    lemma_pct_lit_unreserved("RSA-SHA1"@);
    lemma_pct_lit_unreserved("1.0"@);
    lemma_pct_lit_unreserved(nonce);
    lemma_pct_lit_unreserved(ts);
    let ja = "oauth_consumer_key=abc123&oauth_nonce="@;
    let jb = "&oauth_signature_method=RSA-SHA1&oauth_timestamp="@;
    let jc = "&oauth_version=1.0"@;
    assert(ja =~= "oauth_consumer_key"@ + seq!['='] + "abc123"@ + seq!['&'] + "oauth_nonce"@
        + seq!['=']);
    crate::percent::lemma_pct_str_concat(
        "oauth_consumer_key"@ + seq!['='] + "abc123"@ + seq!['&'] + "oauth_nonce"@,
        seq!['='],
    );
    crate::percent::lemma_pct_str_concat(
        "oauth_consumer_key"@ + seq!['='] + "abc123"@ + seq!['&'],
        "oauth_nonce"@,
    );
    crate::percent::lemma_pct_str_concat(
        "oauth_consumer_key"@ + seq!['='] + "abc123"@,
        seq!['&'],
    );
    crate::percent::lemma_pct_str_concat("oauth_consumer_key"@ + seq!['='], "abc123"@);
    crate::percent::lemma_pct_str_concat("oauth_consumer_key"@, seq!['=']);
    assert(crate::percent::pct_str(ja) =~= "oauth_consumer_key%3Dabc123%26oauth_nonce%3D"@);
    assert(jb =~= seq!['&'] + "oauth_signature_method"@ + seq!['='] + "RSA-SHA1"@ + seq!['&']
        + "oauth_timestamp"@ + seq!['=']);
    crate::percent::lemma_pct_str_concat(
        seq!['&'] + "oauth_signature_method"@ + seq!['='] + "RSA-SHA1"@ + seq!['&']
            + "oauth_timestamp"@,
        seq!['='],
    );
    crate::percent::lemma_pct_str_concat(
        seq!['&'] + "oauth_signature_method"@ + seq!['='] + "RSA-SHA1"@ + seq!['&'],
        "oauth_timestamp"@,
    );
    crate::percent::lemma_pct_str_concat(
        seq!['&'] + "oauth_signature_method"@ + seq!['='] + "RSA-SHA1"@,
        seq!['&'],
    );
    crate::percent::lemma_pct_str_concat(
        seq!['&'] + "oauth_signature_method"@ + seq!['='],
        "RSA-SHA1"@,
    );
    crate::percent::lemma_pct_str_concat(seq!['&'] + "oauth_signature_method"@, seq!['=']);
    crate::percent::lemma_pct_str_concat(seq!['&'], "oauth_signature_method"@);
    assert(crate::percent::pct_str(jb)
        =~= "%26oauth_signature_method%3DRSA-SHA1%26oauth_timestamp%3D"@);
    assert(jc =~= seq!['&'] + "oauth_version"@ + seq!['='] + "1.0"@);
    crate::percent::lemma_pct_str_concat(
        seq!['&'] + "oauth_version"@ + seq!['='],
        "1.0"@,
    );
    crate::percent::lemma_pct_str_concat(seq!['&'] + "oauth_version"@, seq!['=']);
    crate::percent::lemma_pct_str_concat(seq!['&'], "oauth_version"@);
    assert(crate::percent::pct_str(jc) =~= "%26oauth_version%3D1.0"@);
    crate::percent::lemma_pct_str_concat(ja + nonce + jb + ts, jc);
    crate::percent::lemma_pct_str_concat(ja + nonce + jb, ts);
    crate::percent::lemma_pct_str_concat(ja + nonce, jb);
    crate::percent::lemma_pct_str_concat(ja, nonce);
    assert(crate::percent::pct_str(ja + nonce + jb + ts + jc)
        =~= "oauth_consumer_key%3Dabc123%26oauth_nonce%3D"@ + nonce
        + "%26oauth_signature_method%3DRSA-SHA1%26oauth_timestamp%3D"@ + ts
        + "%26oauth_version%3D1.0"@);
}

/// Joins and frames the scenario parameters into the expected base text.
#[verifier::rlimit(60)]
#[verifier::spinoff_prover]
proof fn lemma_scenario_base_text(
    p: ParamsView,
    nonce: Seq<char>,
    ts: Seq<char>,
    enc: Seq<(Seq<char>, Seq<char>)>,
)
    requires
        p.oauth_callback is None,
        p.oauth_token is None,
        p.oauth_verifier is None,
        forall|i: int| 0 <= i < nonce.len() ==> is_nonce_char(#[trigger] nonce[i]),
        forall|i: int|
            0 <= i < ts.len() ==> 0x30 <= (#[trigger] ts[i] as u32) && (ts[i] as u32) <= 0x39,
        enc == seq![
            ("oauth_consumer_key"@, "abc123"@),
            ("oauth_nonce"@, nonce),
            ("oauth_signature_method"@, "RSA-SHA1"@),
            ("oauth_timestamp"@, ts),
            ("oauth_version"@, "1.0"@),
        ],
        enc == crate::canonical::enc_pairs(spec_oauth_params(p, nonce, ts)),
        enc.sort_by(crate::canonical::pair_order()) == enc,
    ensures
        spec_request_base(p, "GET"@, "https://api.example.com/Contacts"@, nonce, ts)
            == "GET&https%3A%2F%2Fapi.example.com%2FContacts&oauth_consumer_key%3Dabc123%26oauth_nonce%3D"@
            + nonce + "%26oauth_signature_method%3DRSA-SHA1%26oauth_timestamp%3D"@ + ts
            + "%26oauth_version%3D1.0"@,
{
    reveal_strlit("GET");
    reveal_strlit("oauth_consumer_key=abc123&oauth_nonce=");
    reveal_strlit("&oauth_signature_method=RSA-SHA1&oauth_timestamp=");
    reveal_strlit("&oauth_version=1.0");
    reveal_strlit("oauth_consumer_key%3Dabc123%26oauth_nonce%3D");
    reveal_strlit("%26oauth_signature_method%3DRSA-SHA1%26oauth_timestamp%3D");
    reveal_strlit("%26oauth_version%3D1.0");
    reveal_strlit("https%3A%2F%2Fapi.example.com%2FContacts");
    reveal_strlit(
        "GET&https%3A%2F%2Fapi.example.com%2FContacts&oauth_consumer_key%3Dabc123%26oauth_nonce%3D",
    );
    reveal_strlit("oauth_consumer_key");
    reveal_strlit("oauth_nonce");
    reveal_strlit("oauth_signature_method");
    reveal_strlit("oauth_timestamp");
    reveal_strlit("oauth_version");
    reveal_strlit("abc123");
    reveal_strlit("RSA-SHA1");
    reveal_strlit("1.0");
    // join the five pairs
    assert(crate::canonical::join_params(enc.skip(4)) == crate::canonical::pair_text(enc[4]))
        by {
        assert(enc.skip(4).len() == 1);
        assert(enc.skip(4)[0] == enc[4]);
    }
    assert(crate::canonical::join_params(enc.skip(3)) == crate::canonical::pair_text(enc[3])
        + seq!['&'] + crate::canonical::join_params(enc.skip(4))) by {
        assert(enc.skip(3).len() == 2);
        assert(enc.skip(3)[0] == enc[3]);
        assert(enc.skip(3).drop_first() =~= enc.skip(4));
    }
    assert(crate::canonical::join_params(enc.skip(2)) == crate::canonical::pair_text(enc[2])
        + seq!['&'] + crate::canonical::join_params(enc.skip(3))) by {
        assert(enc.skip(2).len() == 3);
        assert(enc.skip(2)[0] == enc[2]);
        assert(enc.skip(2).drop_first() =~= enc.skip(3));
    }
    assert(crate::canonical::join_params(enc.skip(1)) == crate::canonical::pair_text(enc[1])
        + seq!['&'] + crate::canonical::join_params(enc.skip(2))) by {
        assert(enc.skip(1).len() == 4);
        assert(enc.skip(1)[0] == enc[1]);
        assert(enc.skip(1).drop_first() =~= enc.skip(2));
    }
    assert(crate::canonical::join_params(enc) == crate::canonical::pair_text(enc[0]) + seq!['&']
        + crate::canonical::join_params(enc.skip(1))) by {
        assert(enc.len() == 5);
        assert(enc.drop_first() =~= enc.skip(1));
    }
    let jt = crate::canonical::join_params(enc);
    assert(jt =~= "oauth_consumer_key=abc123&oauth_nonce="@ + nonce
        + "&oauth_signature_method=RSA-SHA1&oauth_timestamp="@ + ts + "&oauth_version=1.0"@);
    // the canonical parameter string is this join
    assert(spec_param_string(spec_oauth_params(p, nonce, ts)) == jt);
    // encode the three parts and assemble
    lemma_scenario_url_text();
    lemma_scenario_param_text(nonce, ts);
    assert(crate::text::ascii_upper("GET"@) =~= "GET"@) by {
        assert(("GET"@[0] as u32) == 0x47 && ("GET"@[1] as u32) == 0x45 && ("GET"@[2] as u32)
            == 0x54);
    }
    assert("GET&https%3A%2F%2Fapi.example.com%2FContacts&oauth_consumer_key%3Dabc123%26oauth_nonce%3D"@
        =~= "GET"@ + seq!['&'] + "https%3A%2F%2Fapi.example.com%2FContacts"@ + seq!['&']
        + "oauth_consumer_key%3Dabc123%26oauth_nonce%3D"@);
    assert(spec_request_base(p, "GET"@, "https://api.example.com/Contacts"@, nonce, ts)
        =~= "GET&https%3A%2F%2Fapi.example.com%2FContacts&oauth_consumer_key%3Dabc123%26oauth_nonce%3D"@
        + nonce + "%26oauth_signature_method%3DRSA-SHA1%26oauth_timestamp%3D"@ + ts
        + "%26oauth_version%3D1.0"@);
}

/// True when two parameter sets agree on every field except possibly the
/// two secrets.
pub open spec fn same_but_secrets(p1: ParamsView, p2: ParamsView) -> bool {
    &&& p1.realm == p2.realm
    &&& p1.oauth_callback == p2.oauth_callback
    &&& p1.oauth_consumer_key == p2.oauth_consumer_key
    &&& p1.oauth_signature_method == p2.oauth_signature_method
    &&& p1.oauth_token == p2.oauth_token
    &&& p1.oauth_verifier == p2.oauth_verifier
    &&& p1.oauth_version == p2.oauth_version
}

/// Secret-exclusion law: the signable parameters, the canonical signature
/// base string, and the assembled header are functions of the non-secret
/// fields alone.  `oauth_consumer_secret` and `oauth_token_secret` reach
/// only the signing-key derivation, never the signed text; under RSA
/// signing, where the key is the PEM text, even the full signed header is
/// independent of them.
pub proof fn lemma_secrets_not_signed(
    p1: ParamsView,
    p2: ParamsView,
    key_pem: Seq<u8>,
    method: Seq<char>,
    base_url: Seq<char>,
    nonce: Seq<char>,
    ts: Seq<char>,
    sig: Seq<char>,
)
    requires
        same_but_secrets(p1, p2),
    ensures
        spec_oauth_params(p1, nonce, ts) == spec_oauth_params(p2, nonce, ts),
        spec_request_base(p1, method, base_url, nonce, ts) == spec_request_base(
            p2,
            method,
            base_url,
            nonce,
            ts,
        ),
        crate::header::spec_authorization_header(p1, nonce, ts, sig)
            == crate::header::spec_authorization_header(p2, nonce, ts, sig),
        p1.oauth_signature_method == SignatureMethod::RsaSha1 ==> spec_signed_header(
            p1,
            key_pem,
            method,
            base_url,
            nonce,
            ts,
        ) == spec_signed_header(p2, key_pem, method, base_url, nonce, ts),
{
}

/// Determinism law: the canonical base string and the signed header are
/// functions of the credential's fields, the key, the method, the URL, the
/// nonce and the timestamp alone.  Two signing attempts that agree on
/// those — even through distinct credential values of equal content —
/// produce the identical base string and header; the contracts of
/// `get_signature_base` and `sign_request_with` pin their results to
/// exactly these functions.
pub proof fn lemma_signing_deterministic(
    p1: ParamsView,
    p2: ParamsView,
    key_pem: Seq<u8>,
    method: Seq<char>,
    base_url: Seq<char>,
    nonce: Seq<char>,
    ts: Seq<char>,
)
    requires
        p1 == p2,
    ensures
        spec_request_base(p1, method, base_url, nonce, ts) == spec_request_base(
            p2,
            method,
            base_url,
            nonce,
            ts,
        ),
        spec_signed_header(p1, key_pem, method, base_url, nonce, ts) == spec_signed_header(
            p2,
            key_pem,
            method,
            base_url,
            nonce,
            ts,
        ),
{
}

/// True of the characters a nonce is drawn from: ASCII letters and digits.
pub open spec fn is_nonce_char(c: char) -> bool {
    (0x41 <= (c as u32) && (c as u32) <= 0x5a) || (0x61 <= (c as u32) && (c as u32) <= 0x7a) || (
    0x30 <= (c as u32) && (c as u32) <= 0x39)
}

/// Relies on rand's `OsRng` (`try_fill_bytes`): fills the buffer from the
/// operating system's secure random source, `Err` when that source fails.
/// Nothing is assumed of the values written.
#[verifier::external_body]
fn fill_random(buf: &mut Vec<u8>) -> (r: Result<(), ()>)
    ensures
        final(buf)@.len() == old(buf)@.len(),
{
    match rand::rngs::OsRng.try_fill_bytes(buf.as_mut_slice()) {
        Ok(()) => Ok(()),
        Err(_) => Err(()),
    }
}

/// The alphanumeric character a random byte maps to; bytes of 248 and above
/// are rejected so that the 62 characters are drawn uniformly.
fn nonce_char(b: u8) -> (r: char)
    requires
        b < 248,
    ensures
        is_nonce_char(r),
{
    let d: u8 = b % 62;
    if d < 26 {
        (0x61 + d) as char
    } else if d < 52 {
        (0x41 + (d - 26)) as char
    } else {
        (0x30 + (d - 52)) as char
    }
}

/// Draws a fresh 32-character alphanumeric nonce from the secure random
/// source.  Fails with `RandomnessUnavailable` when that source does, or
/// in the astronomically unlikely event that sixteen rounds of sampling
/// yield fewer than 32 usable bytes.
pub fn generate_nonce() -> (r: Result<String, Error>)
    ensures
        r matches Ok(s) ==> s@.len() == 32 && (forall|i: int|
            0 <= i < 32 ==> is_nonce_char(#[trigger] s@[i])),
        r matches Err(e) ==> e == Error::RandomnessUnavailable,
{
    let mut nonce = String::new();
    let mut count: usize = 0;
    let mut round: usize = 0;
    while round < 16
        invariant
            count == nonce@.len(),
            count <= 32,
            forall|i: int| 0 <= i < count ==> is_nonce_char(#[trigger] nonce@[i]),
        decreases 16 - round,
    {
        let mut buf: Vec<u8> = Vec::new();
        let mut k: usize = 0;
        while k < 64
            invariant
                buf@.len() == k,
                k <= 64,
            decreases 64 - k,
        {
            buf.push(0);
            k = k + 1;
        }
        if fill_random(&mut buf).is_err() {
            return Err(Error::RandomnessUnavailable);
        }
        let mut j: usize = 0;
        while j < 64
            invariant
                buf@.len() == 64,
                j <= 64,
                count == nonce@.len(),
                count <= 32,
                forall|i: int| 0 <= i < count ==> is_nonce_char(#[trigger] nonce@[i]),
            decreases 64 - j,
        {
            let b = buf[j];
            if b < 248 && count < 32 {
                push_char(&mut nonce, nonce_char(b));
                count = count + 1;
            }
            j = j + 1;
        }
        if count == 32 {
            return Ok(nonce);
        }
        round = round + 1;
    }
    Err(Error::RandomnessUnavailable)
}

/// Relies on chrono's `Utc::now`: the current Unix time in whole seconds.
/// The value depends on the clock, but is never negative: `Utc::now`
/// refuses a pre-epoch clock reading (it panics inside chrono) rather
/// than returning one.
#[verifier::external_body]
fn unix_time_now() -> (r: i64)
    ensures
        r >= 0,
{
    chrono::Utc::now().timestamp()
}

/// Writes the current Unix time in seconds as a decimal digit string,
/// without sign, padding or fraction.
pub fn generate_timestamp() -> (r: String)
    ensures
        exists|t: i64| t >= 0 && r@ == decimal_of(t as int),
{
    let t = unix_time_now();
    let r = format_i64(t);
    proof {
        assert(t >= 0 && r@ == decimal_of(t as int));
    }
    r
}

} // verus!
