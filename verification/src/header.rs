//! Assembly of the `Authorization: OAuth ...` header value, and its
//! field-by-field parse.  Every value is percent-encoded before it is
//! quoted; parsing splits the fields, strips the quotes and decodes the
//! values back.

use vstd::prelude::*;
use crate::canonical::pair_views;
use crate::oauth::{Params, ParamsView};
use crate::percent::{pct_decoded, pct_str};
use crate::text::push_char;

verus! {

/// The header fields of one signing attempt, in the order they are
/// written: the six fields every request carries, then — when present —
/// `oauth_token`, `oauth_callback`, `oauth_verifier` and `realm`.
pub open spec fn spec_header_params(
    p: ParamsView,
    nonce: Seq<char>,
    ts: Seq<char>,
    sig: Seq<char>,
) -> Seq<(Seq<char>, Seq<char>)> {
    seq![
        ("oauth_consumer_key"@, p.oauth_consumer_key),
        ("oauth_nonce"@, nonce),
        ("oauth_signature"@, sig),
        ("oauth_signature_method"@, p.oauth_signature_method.spec_name()),
        ("oauth_timestamp"@, ts),
        ("oauth_version"@, p.oauth_version),
    ] + (match p.oauth_token {
        Some(t) => seq![("oauth_token"@, t)],
        None => seq![],
    }) + (match p.oauth_callback {
        Some(c) => seq![("oauth_callback"@, c)],
        None => seq![],
    }) + (match p.oauth_verifier {
        Some(v) => seq![("oauth_verifier"@, v)],
        None => seq![],
    }) + (match p.realm {
        Some(r) => seq![("realm"@, r)],
        None => seq![],
    })
}

/// One header field written `name="value"`, the value percent-encoded.
pub open spec fn spec_field_text(f: (Seq<char>, Seq<char>)) -> Seq<char> {
    f.0 + seq!['=', '"'] + pct_str(f.1) + seq!['"']
}

/// Header fields joined with `", "`.
pub open spec fn join_fields(fs: Seq<(Seq<char>, Seq<char>)>) -> Seq<char>
    decreases fs.len(),
{
    if fs.len() == 0 {
        Seq::empty()
    } else if fs.len() == 1 {
        spec_field_text(fs[0])
    } else {
        spec_field_text(fs[0]) + seq![',', ' '] + join_fields(fs.drop_first())
    }
}

/// The full `Authorization` header value of one signing attempt.
pub open spec fn spec_authorization_header(
    p: ParamsView,
    nonce: Seq<char>,
    ts: Seq<char>,
    sig: Seq<char>,
) -> Seq<char> {
    "OAuth "@ + join_fields(spec_header_params(p, nonce, ts, sig))
}

/// Joining one more field appends `, name="value"` (just `name="value"`
/// when the sequence was empty).
proof fn lemma_join_fields_push(fs: Seq<(Seq<char>, Seq<char>)>, f: (Seq<char>, Seq<char>))
    ensures
        fs.len() == 0 ==> join_fields(fs.push(f)) == spec_field_text(f),
        fs.len() > 0 ==> join_fields(fs.push(f)) == join_fields(fs) + seq![',', ' ']
            + spec_field_text(f),
    decreases fs.len(),
{
    let w = fs.push(f);
    if fs.len() == 0 {
        assert(w.len() == 1);
        assert(w[0] == f);
    } else if fs.len() == 1 {
        assert(w.len() == 2);
        assert(w[0] == fs[0]);
        assert(w.drop_first() =~= seq![f]);
        assert(join_fields(w.drop_first()) == spec_field_text(f));
    } else {
        lemma_join_fields_push(fs.drop_first(), f);
        assert(w.drop_first() =~= fs.drop_first().push(f));
        assert(w[0] == fs[0]);
        assert(spec_field_text(fs[0]) + seq![',', ' '] + (join_fields(fs.drop_first()) + seq![
            ',',
            ' ',
        ] + spec_field_text(f)) =~= (spec_field_text(fs[0]) + seq![',', ' '] + join_fields(
            fs.drop_first(),
        )) + seq![',', ' '] + spec_field_text(f));
    }
}

/// Assembles the `Authorization` header value from the credential's public
/// fields, the fresh nonce and timestamp, and the computed signature.
/// Every value is percent-encoded before quoting; the secrets never
/// appear.
pub fn authorization_header(params: &Params, nonce: &str, timestamp: &str, signature: &str) -> (r:
    String)
    ensures
        r@ == spec_authorization_header(params@, nonce@, timestamp@, signature@),
{
    let mut fields: Vec<(String, String)> = Vec::new();
    fields.push(("oauth_consumer_key".to_owned(), params.oauth_consumer_key.clone()));
    fields.push(("oauth_nonce".to_owned(), nonce.to_owned()));
    fields.push(("oauth_signature".to_owned(), signature.to_owned()));
    fields.push(
        ("oauth_signature_method".to_owned(), params.oauth_signature_method.name().to_owned()),
    );
    fields.push(("oauth_timestamp".to_owned(), timestamp.to_owned()));
    fields.push(("oauth_version".to_owned(), params.oauth_version.clone()));
    if let Some(token) = &params.oauth_token {
        fields.push(("oauth_token".to_owned(), token.clone()));
    }
    if let Some(callback) = &params.oauth_callback {
        fields.push(("oauth_callback".to_owned(), callback.clone()));
    }
    if let Some(verifier) = &params.oauth_verifier {
        fields.push(("oauth_verifier".to_owned(), verifier.clone()));
    }
    if let Some(realm) = &params.realm {
        fields.push(("realm".to_owned(), realm.clone()));
    }
    let ghost fsv = spec_header_params(params@, nonce@, timestamp@, signature@);
    proof {
        assert(pair_views(fields@) =~= fsv);
    }
    let n = fields.len();
    let mut r = "OAuth ".to_owned();
    let ghost prefix = "OAuth "@;
    let mut i: usize = 0;
    while i < n
        invariant
            n == fields@.len(),
            i <= n,
            pair_views(fields@) == fsv,
            i == 0 ==> r@ == prefix,
            i > 0 ==> r@ == prefix + join_fields(fsv.take(i as int)),
            prefix == "OAuth "@,
        decreases n - i,
    {
        proof {
            lemma_join_fields_push(fsv.take(i as int), fsv[i as int]);
            assert(fsv.take(i + 1) =~= fsv.take(i as int).push(fsv[i as int]));
        }
        if i > 0 {
            push_char(&mut r, ',');
            push_char(&mut r, ' ');
        }
        let q = &fields[i];
        r.append(q.0.as_str());
        push_char(&mut r, '=');
        push_char(&mut r, '"');
        let ev = crate::percent::to_string(q.1.as_str());
        r.append(ev.as_str());
        push_char(&mut r, '"');
        i = i + 1;
        proof {
            assert(fsv[i - 1] == (fields@[i - 1].0@, fields@[i - 1].1@));
            assert(spec_field_text(fsv[i - 1]) =~= fields@[i - 1].0@ + seq!['=', '"'] + pct_str(
                fields@[i - 1].1@,
            ) + seq!['"']);
            if i == 1 {
                assert(r@ =~= prefix + spec_field_text(fsv[0]));
            } else {
                assert(r@ =~= prefix + (join_fields(fsv.take(i - 1)) + seq![',', ' ']
                    + spec_field_text(fsv[i - 1])));
            }
        }
    }
    proof {
        assert(fsv.take(n as int) =~= fsv);
        assert(fsv.len() == n);
        assert(n > 0);
    }
    r
}

/// The index of the first occurrence of a character, or -1 when absent.
pub open spec fn first_index(s: Seq<char>, c: char) -> int
    decreases s.len(),
{
    if s.len() == 0 {
        -1
    } else if s[0] == c {
        0
    } else if first_index(s.drop_first(), c) < 0 {
        -1
    } else {
        first_index(s.drop_first(), c) + 1
    }
}

/// A character first found at `k` has index `k`.
proof fn lemma_first_index_at(s: Seq<char>, c: char, k: int)
    requires
        0 <= k < s.len(),
        s[k] == c,
        forall|j: int| 0 <= j < k ==> s[j] != c,
    ensures
        first_index(s, c) == k,
    decreases k,
{
    if k > 0 {
        lemma_first_index_at(s.drop_first(), c, k - 1);
    }
}

/// A character nowhere in the sequence has index -1.
proof fn lemma_first_index_none(s: Seq<char>, c: char)
    requires
        forall|j: int| 0 <= j < s.len() ==> s[j] != c,
    ensures
        first_index(s, c) == -1,
    decreases s.len(),
{
    if s.len() > 0 {
        lemma_first_index_none(s.drop_first(), c);
    }
}

/// The fields of a header value after the `OAuth ` scheme: each
/// `name="value"`, separated by `", "`, the values percent-decoded.
/// `None` on any malformed field.
pub open spec fn parse_fields(s: Seq<char>) -> Option<Seq<(Seq<char>, Seq<char>)>>
    decreases s.len(),
{
    let e = first_index(s, '=');
    if e < 1 || s.len() < e + 2 {
        None
    } else if s[e + 1] != '"' {
        None
    } else {
        let rest0 = s.skip(e + 2);
        let q = first_index(rest0, '"');
        if q < 0 || q >= rest0.len() {
            None
        } else {
            let name = s.take(e);
            let venc = rest0.take(q);
            let tail = rest0.skip(q + 1);
            match crate::percent::pct_decoded(venc) {
                None => None,
                Some(value) => if tail.len() == 0 {
                    Some(seq![(name, value)])
                } else if tail.len() >= 2 && tail[0] == ',' && tail[1] == ' ' {
                    match parse_fields(tail.skip(2)) {
                        None => None,
                        Some(rest) => Some(seq![(name, value)] + rest),
                    }
                } else {
                    None
                },
            }
        }
    }
}

/// A parsed header: the `OAuth ` scheme followed by its fields.
pub open spec fn spec_parse_header(h: Seq<char>) -> Option<Seq<(Seq<char>, Seq<char>)>> {
    if h.len() >= 6 && h.take(6) == "OAuth "@ {
        parse_fields(h.skip(6))
    } else {
        None
    }
}

/// Finds the first occurrence of a character at or after `from`.
fn find_from(s: &str, from: usize, c: char) -> (r: Option<usize>)
    requires
        from <= s@.len(),
    ensures
        match r {
            Some(k) => from <= k < s@.len() && first_index(s@.skip(from as int), c) == k - from,
            None => first_index(s@.skip(from as int), c) == -1,
        },
{
    let n = s.unicode_len();
    let mut i = from;
    while i < n
        invariant
            from <= i <= n,
            n == s@.len(),
            forall|j: int| from <= j < i ==> s@[j] != c,
        decreases n - i,
    {
        if s.get_char(i) == c {
            proof {
                let sub = s@.skip(from as int);
                assert(sub[i - from] == s@[i as int]);
                assert forall|j: int| 0 <= j < i - from implies sub[j] != c by {
                    assert(sub[j] == s@[from + j]);
                }
                lemma_first_index_at(sub, c, i - from);
            }
            return Some(i);
        }
        i = i + 1;
    }
    proof {
        let sub = s@.skip(from as int);
        assert forall|j: int| 0 <= j < sub.len() implies sub[j] != c by {
            assert(sub[j] == s@[from + j]);
        }
        lemma_first_index_none(sub, c);
    }
    None
}

/// Parses the fields of a header from position `pos` on, per
/// [`parse_fields`].
fn parse_fields_exec(s: &str, pos: usize) -> (r: Option<Vec<(String, String)>>)
    requires
        pos <= s@.len(),
    ensures
        match r {
            Some(v) => parse_fields(s@.skip(pos as int)) == Some(pair_views(v@)),
            None => parse_fields(s@.skip(pos as int)) is None,
        },
    decreases s@.len() - pos,
{
    let n = s.unicode_len();
    let ghost sub = s@.skip(pos as int);
    proof {
        assert forall|j: int| 0 <= j < sub.len() implies sub[j] == s@[pos + j] by {}
    }
    let e_abs = match find_from(s, pos, '=') {
        None => {
            return None;
        },
        Some(k) => k,
    };
    if e_abs == pos {
        return None;
    }
    let ghost e = e_abs - pos;
    if n - e_abs < 2 {
        proof {
            assert(sub.len() < e + 2);
        }
        return None;
    }
    if s.get_char(e_abs + 1) != '"' {
        proof {
            assert(sub[e + 1] == s@[e_abs + 1]);
        }
        return None;
    }
    let ghost rest0 = sub.skip(e + 2);
    proof {
        assert(rest0 =~= s@.skip(e_abs + 2));
    }
    let q_abs = match find_from(s, e_abs + 2, '"') {
        None => {
            return None;
        },
        Some(k) => k,
    };
    let ghost q = q_abs - (e_abs + 2);
    let name = s.substring_char(pos, e_abs);
    let venc = s.substring_char(e_abs + 2, q_abs);
    proof {
        assert(name@ =~= sub.take(e));
        assert(venc@ =~= rest0.take(q));
    }
    let value = match crate::percent::percent_decode(venc) {
        None => {
            return None;
        },
        Some(v) => v,
    };
    let ghost tail = rest0.skip(q + 1);
    proof {
        assert(tail =~= s@.skip(q_abs + 1));
    }
    if q_abs + 1 == n {
        let mut out: Vec<(String, String)> = Vec::new();
        out.push((name.to_owned(), value));
        proof {
            assert(tail.len() == 0);
            assert(pair_views(out@) =~= seq![(sub.take(e), out@[0].1@)]);
        }
        return Some(out);
    }
    if n - (q_abs + 1) < 2 {
        proof {
            assert(0 < tail.len() < 2);
        }
        return None;
    }
    if s.get_char(q_abs + 1) != ',' {
        proof {
            assert(tail[0] == s@[q_abs + 1]);
        }
        return None;
    }
    if s.get_char(q_abs + 2) != ' ' {
        proof {
            assert(tail[0] == s@[q_abs + 1]);
            assert(tail[1] == s@[q_abs + 2]);
        }
        return None;
    }
    proof {
        assert(tail[0] == s@[q_abs + 1]);
        assert(tail[1] == s@[q_abs + 2]);
        assert(tail.skip(2) =~= s@.skip(q_abs + 3));
    }
    let rest = match parse_fields_exec(s, q_abs + 3) {
        None => {
            return None;
        },
        Some(v) => v,
    };
    let ghost restv = rest@;
    let mut out = rest;
    out.insert(0, (name.to_owned(), value));
    proof {
        assert(out@ == restv.insert(0, out@[0]));
        assert(pair_views(out@) =~= seq![(sub.take(e), out@[0].1@)] + pair_views(restv));
    }
    Some(out)
}

/// Parses an `Authorization` header value back into its fields, each value
/// percent-decoded.  `None` when the text is not of the form the
/// assembler produces.
pub fn parse_header(header: &str) -> (r: Option<Vec<(String, String)>>)
    ensures
        match r {
            Some(v) => spec_parse_header(header@) == Some(pair_views(v@)),
            None => spec_parse_header(header@) is None,
        },
{
    proof {
        reveal_strlit("OAuth ");
    }
    let n = header.unicode_len();
    if n < 6 {
        return None;
    }
    if header.get_char(0) != 'O' || header.get_char(1) != 'A' || header.get_char(2) != 'u'
        || header.get_char(3) != 't' || header.get_char(4) != 'h' || header.get_char(5) != ' ' {
        proof {
            if header@.take(6) == "OAuth "@ {
                assert(header@[0] == header@.take(6)[0] && header@[1] == header@.take(6)[1]
                    && header@[2] == header@.take(6)[2] && header@[3] == header@.take(6)[3]
                    && header@[4] == header@.take(6)[4] && header@[5] == header@.take(6)[5]);
                assert("OAuth "@[0] == 'O' && "OAuth "@[1] == 'A' && "OAuth "@[2] == 'u'
                    && "OAuth "@[3] == 't' && "OAuth "@[4] == 'h' && "OAuth "@[5] == ' ');
                assert(false);
            }
        }
        return None;
    }
    proof {
        assert(header@.take(6) =~= "OAuth "@);
    }
    parse_fields_exec(header, 6)
}

/// True of a field name the parser can recover: nonempty and free of `=`.
pub open spec fn parseable_name(name: Seq<char>) -> bool {
    name.len() > 0 && forall|j: int| 0 <= j < name.len() ==> name[j] != '='
}

/// Parsing inverts joining: fields whose names are parseable, once joined,
/// parse back to exactly the fields — the percent-decoding of each quoted
/// value restores the value that was encoded.
proof fn lemma_parse_join_fields(fs: Seq<(Seq<char>, Seq<char>)>)
    requires
        fs.len() > 0,
        forall|i: int| 0 <= i < fs.len() ==> parseable_name(#[trigger] fs[i].0),
    ensures
        parse_fields(join_fields(fs)) == Some(fs),
    decreases fs.len(),
{
    let f0 = fs[0];
    let name = f0.0;
    let venc = pct_str(f0.1);
    let s = join_fields(fs);
    let rest_all: Seq<char> = if fs.len() == 1 {
        Seq::empty()
    } else {
        seq![',', ' '] + join_fields(fs.drop_first())
    };
    assert(spec_field_text(f0) =~= name + seq!['=', '"'] + venc + seq!['"']);
    assert(s =~= name + seq!['=', '"'] + venc + seq!['"'] + rest_all);
    let e = name.len() as int;
    assert(s[e] == '=');
    assert forall|j: int| 0 <= j < e implies s[j] != '=' by {
        assert(s[j] == name[j]);
    }
    lemma_first_index_at(s, '=', e);
    assert(s[e + 1] == '"');
    let rest0 = s.skip(e + 2);
    assert(rest0 =~= venc + seq!['"'] + rest_all);
    crate::percent::lemma_pct_encoded_no_delims(vstd::utf8::encode_utf8(f0.1));
    let q = venc.len() as int;
    assert(rest0[q] == '"');
    assert forall|j: int| 0 <= j < q implies rest0[j] != '"' by {
        assert(rest0[j] == venc[j]);
    }
    lemma_first_index_at(rest0, '"', q);
    assert(0 <= q < rest0.len());
    assert(s.take(e) =~= name);
    assert(rest0.take(q) =~= venc);
    crate::percent::lemma_pct_round_trip(f0.1);
    let tail = rest0.skip(q + 1);
    assert(tail =~= rest_all);
    if fs.len() == 1 {
        assert(tail.len() == 0);
        assert(seq![(name, f0.1)] =~= fs);
    } else {
        assert(tail[0] == ',' && tail[1] == ' ');
        assert(tail.skip(2) =~= join_fields(fs.drop_first()));
        assert forall|i: int| 0 <= i < fs.drop_first().len() implies parseable_name(
            #[trigger] fs.drop_first()[i].0,
        ) by {
            assert(fs.drop_first()[i] == fs[i + 1]);
        }
        lemma_parse_join_fields(fs.drop_first());
        assert(seq![(name, f0.1)] + fs.drop_first() =~= fs);
    }
}

/// Round-trip law: a header assembled from a credential, nonce, timestamp
/// and signature, parsed back field by field, reproduces every field —
/// consumer key, nonce, timestamp, signature method and the rest —
/// exactly as they went in.
pub proof fn lemma_header_round_trip(
    p: ParamsView,
    nonce: Seq<char>,
    ts: Seq<char>,
    sig: Seq<char>,
)
    ensures
        spec_parse_header(spec_authorization_header(p, nonce, ts, sig)) == Some(
            spec_header_params(p, nonce, ts, sig),
        ),
{
    reveal_strlit("OAuth ");
    reveal_strlit("oauth_consumer_key");
    reveal_strlit("oauth_nonce");
    reveal_strlit("oauth_signature");
    reveal_strlit("oauth_signature_method");
    reveal_strlit("oauth_timestamp");
    reveal_strlit("oauth_version");
    reveal_strlit("oauth_token");
    reveal_strlit("oauth_callback");
    reveal_strlit("oauth_verifier");
    reveal_strlit("realm");
    let fs = spec_header_params(p, nonce, ts, sig);
    assert(parseable_name("oauth_consumer_key"@));
    assert(parseable_name("oauth_nonce"@));
    assert(parseable_name("oauth_signature"@));
    assert(parseable_name("oauth_signature_method"@));
    assert(parseable_name("oauth_timestamp"@));
    assert(parseable_name("oauth_version"@));
    assert(parseable_name("oauth_token"@));
    assert(parseable_name("oauth_callback"@));
    assert(parseable_name("oauth_verifier"@));
    assert(parseable_name("realm"@));
    assert forall|i: int| 0 <= i < fs.len() implies parseable_name(#[trigger] fs[i].0) by {
        assert(fs[i].0 == "oauth_consumer_key"@ || fs[i].0 == "oauth_nonce"@ || fs[i].0
            == "oauth_signature"@ || fs[i].0 == "oauth_signature_method"@ || fs[i].0
            == "oauth_timestamp"@ || fs[i].0 == "oauth_version"@ || fs[i].0 == "oauth_token"@
            || fs[i].0 == "oauth_callback"@ || fs[i].0 == "oauth_verifier"@ || fs[i].0
            == "realm"@);
    }
    let h = spec_authorization_header(p, nonce, ts, sig);
    assert("OAuth "@.len() == 6);
    assert(h.take(6) =~= "OAuth "@);
    assert(h.skip(6) =~= join_fields(fs));
    lemma_parse_join_fields(fs);
}


/// The contacts scenario's header, at the spec level: a credential whose
/// non-secret fields are exactly consumer key `abc123`, RSA-SHA1 signing,
/// version `1.0` and no optional fields, produces exactly this header
/// text — for every alphanumeric nonce, every digit timestamp and every
/// signature text, whose percent-encoding is the one variable part.
pub proof fn lemma_scenario_header_text(
    p: ParamsView,
    nonce: Seq<char>,
    ts: Seq<char>,
    sig: Seq<char>,
)
    requires
        p.realm is None,
        p.oauth_callback is None,
        p.oauth_consumer_key == "abc123"@,
        p.oauth_signature_method == crate::oauth::SignatureMethod::RsaSha1,
        p.oauth_token is None,
        p.oauth_verifier is None,
        p.oauth_version == "1.0"@,
        forall|i: int| 0 <= i < nonce.len() ==> crate::oauth::is_nonce_char(#[trigger] nonce[i]),
        forall|i: int|
            0 <= i < ts.len() ==> 0x30 <= (#[trigger] ts[i] as u32) && (ts[i] as u32) <= 0x39,
    ensures
        spec_authorization_header(p, nonce, ts, sig) == "OAuth oauth_consumer_key=\"abc123\", oauth_nonce=\""@
            + nonce + "\", oauth_signature=\""@ + pct_str(sig)
            + "\", oauth_signature_method=\"RSA-SHA1\", oauth_timestamp=\""@ + ts
            + "\", oauth_version=\"1.0\""@,
{
    reveal_strlit("OAuth ");
    reveal_strlit("oauth_consumer_key");
    reveal_strlit("oauth_nonce");
    reveal_strlit("oauth_signature");
    reveal_strlit("oauth_signature_method");
    reveal_strlit("oauth_timestamp");
    reveal_strlit("oauth_version");
    reveal_strlit("abc123");
    reveal_strlit("RSA-SHA1");
    reveal_strlit("1.0");
    reveal_strlit("OAuth oauth_consumer_key=\"abc123\", oauth_nonce=\"");
    reveal_strlit("\", oauth_signature=\"");
    reveal_strlit("\", oauth_signature_method=\"RSA-SHA1\", oauth_timestamp=\"");
    reveal_strlit("\", oauth_version=\"1.0\"");
    // the values that appear unchanged: encoding is the identity on them
    assert(forall|i: int|
        0 <= i < "abc123"@.len() ==> crate::percent::is_unreserved_char(
            #[trigger] "abc123"@[i],
        ));
    assert(forall|i: int|
        0 <= i < "RSA-SHA1"@.len() ==> crate::percent::is_unreserved_char(
            #[trigger] "RSA-SHA1"@[i],
        ));
    assert(forall|i: int|
        0 <= i < "1.0"@.len() ==> crate::percent::is_unreserved_char(#[trigger] "1.0"@[i]));
    assert(forall|i: int|
        0 <= i < nonce.len() ==> crate::percent::is_unreserved_char(#[trigger] nonce[i]));
    assert(forall|i: int|
        0 <= i < ts.len() ==> crate::percent::is_unreserved_char(#[trigger] ts[i]));
    crate::percent::lemma_pct_str_unreserved("abc123"@);
    crate::percent::lemma_pct_str_unreserved("RSA-SHA1"@);
    crate::percent::lemma_pct_str_unreserved("1.0"@);
    crate::percent::lemma_pct_str_unreserved(nonce);
    crate::percent::lemma_pct_str_unreserved(ts);
    // the six fields of the scenario header
    let fs = spec_header_params(p, nonce, ts, sig);
    assert(fs =~= seq![
        ("oauth_consumer_key"@, "abc123"@),
        ("oauth_nonce"@, nonce),
        ("oauth_signature"@, sig),
        ("oauth_signature_method"@, "RSA-SHA1"@),
        ("oauth_timestamp"@, ts),
        ("oauth_version"@, "1.0"@),
    ]);
    // join them
    assert(join_fields(fs.skip(5)) == spec_field_text(fs[5])) by {
        assert(fs.skip(5).len() == 1);
        assert(fs.skip(5)[0] == fs[5]);
    }
    assert(join_fields(fs.skip(4)) == spec_field_text(fs[4]) + seq![',', ' '] + join_fields(
        fs.skip(5),
    )) by {
        assert(fs.skip(4).len() == 2);
        assert(fs.skip(4)[0] == fs[4]);
        assert(fs.skip(4).drop_first() =~= fs.skip(5));
    }
    assert(join_fields(fs.skip(3)) == spec_field_text(fs[3]) + seq![',', ' '] + join_fields(
        fs.skip(4),
    )) by {
        assert(fs.skip(3).len() == 3);
        assert(fs.skip(3)[0] == fs[3]);
        assert(fs.skip(3).drop_first() =~= fs.skip(4));
    }
    assert(join_fields(fs.skip(2)) == spec_field_text(fs[2]) + seq![',', ' '] + join_fields(
        fs.skip(3),
    )) by {
        assert(fs.skip(2).len() == 4);
        assert(fs.skip(2)[0] == fs[2]);
        assert(fs.skip(2).drop_first() =~= fs.skip(3));
    }
    assert(join_fields(fs.skip(1)) == spec_field_text(fs[1]) + seq![',', ' '] + join_fields(
        fs.skip(2),
    )) by {
        assert(fs.skip(1).len() == 5);
        assert(fs.skip(1)[0] == fs[1]);
        assert(fs.skip(1).drop_first() =~= fs.skip(2));
    }
    assert(join_fields(fs) == spec_field_text(fs[0]) + seq![',', ' '] + join_fields(
        fs.skip(1),
    )) by {
        assert(fs.len() == 6);
        assert(fs.drop_first() =~= fs.skip(1));
    }
    // assemble the literal text
    assert(spec_authorization_header(p, nonce, ts, sig)
        =~= "OAuth oauth_consumer_key=\"abc123\", oauth_nonce=\""@ + nonce
        + "\", oauth_signature=\""@ + pct_str(sig)
        + "\", oauth_signature_method=\"RSA-SHA1\", oauth_timestamp=\""@ + ts
        + "\", oauth_version=\"1.0\""@);
}


} // verus!
