//! Percent-encoding as OAuth 1.0a prescribes it: every byte of the UTF-8
//! form of a string is kept verbatim when it is unreserved
//! (`A`-`Z`, `a`-`z`, `0`-`9`, `-`, `.`, `_`, `~`) and written as `%XX`
//! with upper-case hexadecimal digits otherwise.  Decoding inverts this.

use vstd::prelude::*;
use vstd::utf8::*;
use crate::text::push_char;

verus! {

/// True of the bytes that percent-encoding keeps verbatim.
pub open spec fn is_unreserved(b: u8) -> bool {
    (0x41 <= b && b <= 0x5a)  // A-Z
    || (0x61 <= b && b <= 0x7a)  // a-z
    || (0x30 <= b && b <= 0x39)  // 0-9
    || b == 0x2d || b == 0x2e || b == 0x5f || b == 0x7e  // - . _ ~
}

/// The upper-case hexadecimal digit character for a value below sixteen.
pub open spec fn hex_upper_char(d: int) -> char {
    if d < 10 {
        ((0x30 + d) as u8) as char
    } else {
        ((0x37 + d) as u8) as char
    }
}

/// The encoding of one byte: itself when unreserved, `%XX` otherwise.
pub open spec fn pct_byte(b: u8) -> Seq<char> {
    if is_unreserved(b) {
        seq![b as char]
    } else {
        seq!['%', hex_upper_char(b as int / 16), hex_upper_char(b as int % 16)]
    }
}

/// The percent-encoding of a byte sequence.
pub open spec fn pct_encoded(bs: Seq<u8>) -> Seq<char>
    decreases bs.len(),
{
    if bs.len() == 0 {
        Seq::empty()
    } else {
        pct_byte(bs[0]) + pct_encoded(bs.drop_first())
    }
}

/// The percent-encoding of a string, applied to its UTF-8 bytes.
pub open spec fn pct_str(s: Seq<char>) -> Seq<char> {
    pct_encoded(encode_utf8(s))
}

/// Percent-encodes a string with the OAuth unreserved set.
pub fn to_string(value: &str) -> (r: String)
    ensures
        r@ == pct_str(value@),
{
    let bytes: &[u8] = value.as_bytes();
    let n: usize = bytes.len();
    let mut r = String::new();
    let mut i: usize = 0;
    proof {
        assert(bytes@.skip(0) =~= bytes@);
    }
    while i < n
        invariant
            n == bytes@.len(),
            i <= n,
            bytes@ == encode_utf8(value@),
            pct_encoded(bytes@) =~= r@ + pct_encoded(bytes@.skip(i as int)),
        decreases n - i,
    {
        let b = bytes[i];
        proof {
            assert(bytes@.skip(i as int)[0] == b);
            assert(bytes@.skip(i as int).drop_first() =~= bytes@.skip(i + 1));
        }
        if (0x41 <= b && b <= 0x5a) || (0x61 <= b && b <= 0x7a) || (0x30 <= b && b <= 0x39) || b
            == 0x2d || b == 0x2e || b == 0x5f || b == 0x7e {
            push_char(&mut r, b as char);
        } else {
            push_char(&mut r, '%');
            let hi: u8 = b / 16;
            let lo: u8 = b % 16;
            let hc: char = if hi < 10 {
                (0x30 + hi) as char
            } else {
                (0x37 + hi) as char
            };
            let lc: char = if lo < 10 {
                (0x30 + lo) as char
            } else {
                (0x37 + lo) as char
            };
            push_char(&mut r, hc);
            push_char(&mut r, lc);
            proof {
                assert(hc == hex_upper_char(b as int / 16));
                assert(lc == hex_upper_char(b as int % 16));
            }
        }
        i = i + 1;
    }
    proof {
        assert(bytes@.skip(n as int).len() == 0);
        assert(pct_encoded(bytes@) =~= r@);
    }
    r
}

/// True of bytes that are hexadecimal digit characters, either case.
pub open spec fn is_hex_byte(b: u8) -> bool {
    (0x30 <= b && b <= 0x39) || (0x41 <= b && b <= 0x46) || (0x61 <= b && b <= 0x66)
}

/// The value of a hexadecimal digit byte.
pub open spec fn hex_val(b: u8) -> int {
    if 0x30 <= b && b <= 0x39 {
        b - 0x30
    } else if 0x41 <= b && b <= 0x46 {
        b - 0x37
    } else {
        b - 0x57
    }
}

/// Undoes percent-escaping on the bytes of a string: `%XX` becomes the byte
/// it names, every other byte stands for itself.  `None` when a `%` is not
/// followed by two hexadecimal digits.
pub open spec fn unescape_bytes(bs: Seq<u8>) -> Option<Seq<u8>>
    decreases bs.len(),
{
    if bs.len() == 0 {
        Some(Seq::empty())
    } else if bs[0] == 0x25 {
        if bs.len() >= 3 && is_hex_byte(bs[1]) && is_hex_byte(bs[2]) {
            match unescape_bytes(bs.skip(3)) {
                Some(rest) => Some(seq![(hex_val(bs[1]) * 16 + hex_val(bs[2])) as u8] + rest),
                None => None,
            }
        } else {
            None
        }
    } else {
        match unescape_bytes(bs.drop_first()) {
            Some(rest) => Some(seq![bs[0]] + rest),
            None => None,
        }
    }
}

/// The percent-decoding of a string: escapes undone on its UTF-8 bytes, the
/// resulting bytes read back as UTF-8.  `None` on a malformed escape or on
/// bytes that are not UTF-8.
pub open spec fn pct_decoded(s: Seq<char>) -> Option<Seq<char>> {
    match unescape_bytes(encode_utf8(s)) {
        Some(bs) => if valid_utf8(bs) {
            Some(decode_utf8(bs))
        } else {
            None
        },
        None => None,
    }
}

/// Reads the value of one hexadecimal digit byte, either case.
fn hex_val_exec(b: u8) -> (r: Option<u8>)
    ensures
        r is Some <==> is_hex_byte(b),
        r matches Some(v) ==> v as int == hex_val(b),
{
    if 0x30 <= b && b <= 0x39 {
        Some(b - 0x30)
    } else if 0x41 <= b && b <= 0x46 {
        Some(b - 0x37)
    } else if 0x61 <= b && b <= 0x66 {
        Some(b - 0x57)
    } else {
        None
    }
}

/// Percent-decodes a string, `None` when an escape is malformed or the
/// decoded bytes are not UTF-8.
pub fn percent_decode(s: &str) -> (r: Option<String>)
    ensures
        match r {
            Some(t) => pct_decoded(s@) == Some(t@),
            None => pct_decoded(s@) is None,
        },
{
    let bytes: &[u8] = s.as_bytes();
    let n: usize = bytes.len();
    let mut out: Vec<u8> = Vec::new();
    let mut i: usize = 0;
    proof {
        assert(bytes@.skip(0) =~= bytes@);
    }
    while i < n
        invariant
            n == bytes@.len(),
            i <= n,
            bytes@ == encode_utf8(s@),
            unescape_bytes(bytes@) == match unescape_bytes(bytes@.skip(i as int)) {
                Some(rest) => Some(out@ + rest),
                None => None::<Seq<u8>>,
            },
        decreases n - i,
    {
        let b = bytes[i];
        let ghost pre = bytes@.skip(i as int);
        let ghost out_pre = out@;
        proof {
            assert(pre[0] == b);
            assert(pre.drop_first() =~= bytes@.skip(i + 1));
        }
        if b == 0x25 {
            if n - i < 3 {
                proof {
                    assert(pre.len() < 3);
                }
                return None;
            }
            let h1 = bytes[i + 1];
            let h2 = bytes[i + 2];
            proof {
                assert(pre[1] == h1);
                assert(pre[2] == h2);
                assert(pre.skip(3) =~= bytes@.skip(i + 3));
            }
            let v1 = hex_val_exec(h1);
            let v2 = hex_val_exec(h2);
            match (v1, v2) {
                (Some(a), Some(c)) => {
                    out.push(a * 16 + c);
                    i = i + 3;
                    proof {
                        let tok: Seq<u8> = seq![(hex_val(h1) * 16 + hex_val(h2)) as u8];
                        assert(out@ =~= out_pre + tok);
                        match unescape_bytes(bytes@.skip(i as int)) {
                            Some(r) => {
                                assert(unescape_bytes(pre) == Some(tok + r));
                                assert(out_pre + (tok + r) =~= out@ + r);
                            },
                            None => {
                                assert(unescape_bytes(pre) is None);
                            },
                        }
                    }
                },
                _ => {
                    return None;
                },
            }
        } else {
            out.push(b);
            i = i + 1;
            proof {
                let tok: Seq<u8> = seq![b];
                assert(out@ =~= out_pre + tok);
                match unescape_bytes(bytes@.skip(i as int)) {
                    Some(r) => {
                        assert(unescape_bytes(pre) == Some(tok + r));
                        assert(out_pre + (tok + r) =~= out@ + r);
                    },
                    None => {
                        assert(unescape_bytes(pre) is None);
                    },
                }
            }
        }
    }
    proof {
        assert(bytes@.skip(n as int).len() == 0);
        assert(unescape_bytes(bytes@) matches Some(w) && w =~= out@);
    }
    crate::text::bytes_to_string(out)
}

/// True of ASCII characters the encoding keeps verbatim.
pub open spec fn is_unreserved_char(c: char) -> bool {
    (c as u32) < 128 && is_unreserved(((c as u32) as u8))
}

/// UTF-8 encoding distributes over concatenation.
pub proof fn lemma_encode_utf8_concat(a: Seq<char>, b: Seq<char>)
    ensures
        encode_utf8(a + b) == encode_utf8(a) + encode_utf8(b),
    decreases a.len(),
{
    if a.len() == 0 {
        assert(a + b =~= b);
        assert(encode_utf8(a) =~= Seq::<u8>::empty());
        assert(encode_utf8(a) + encode_utf8(b) =~= encode_utf8(b));
    } else {
        assert((a + b)[0] == a[0]);
        assert((a + b).drop_first() =~= a.drop_first() + b);
        lemma_encode_utf8_concat(a.drop_first(), b);
        assert(encode_scalar(a[0] as u32) + (encode_utf8(a.drop_first()) + encode_utf8(b)) =~= (
        encode_scalar(a[0] as u32) + encode_utf8(a.drop_first())) + encode_utf8(b));
    }
}

/// Percent-encoding distributes over concatenation.
pub proof fn lemma_pct_encoded_concat(a: Seq<u8>, b: Seq<u8>)
    ensures
        pct_encoded(a + b) == pct_encoded(a) + pct_encoded(b),
    decreases a.len(),
{
    if a.len() == 0 {
        assert(a + b =~= b);
        assert(pct_encoded(a) =~= Seq::<char>::empty());
        assert(pct_encoded(a) + pct_encoded(b) =~= pct_encoded(b));
    } else {
        assert((a + b)[0] == a[0]);
        assert((a + b).drop_first() =~= a.drop_first() + b);
        lemma_pct_encoded_concat(a.drop_first(), b);
        assert(pct_byte(a[0]) + (pct_encoded(a.drop_first()) + pct_encoded(b)) =~= (pct_byte(a[0])
            + pct_encoded(a.drop_first())) + pct_encoded(b));
    }
}

/// String percent-encoding distributes over concatenation.
pub proof fn lemma_pct_str_concat(a: Seq<char>, b: Seq<char>)
    ensures
        pct_str(a + b) == pct_str(a) + pct_str(b),
{
    lemma_encode_utf8_concat(a, b);
    lemma_pct_encoded_concat(encode_utf8(a), encode_utf8(b));
}

/// One ASCII character encodes to the encoding of its byte.
pub proof fn lemma_pct_str_one(c: char)
    requires
        (c as u32) < 128,
    ensures
        pct_str(seq![c]) == pct_byte(((c as u32) as u8)),
{
    let s = seq![c];
    assert(is_ascii_chars(s));
    is_ascii_chars_encode_utf8(s);
    assert(encode_utf8(s) =~= seq![(c as u8)]);
    assert((c as u8) == ((c as u32) as u8));
    assert(seq![(c as u8)].drop_first() =~= Seq::<u8>::empty());
    assert(pct_encoded(Seq::<u8>::empty()) =~= Seq::<char>::empty());
    assert(pct_encoded(seq![(c as u8)]) =~= pct_byte((c as u8)) + pct_encoded(
        Seq::<u8>::empty(),
    ));
    assert(pct_byte((c as u8)) + Seq::<char>::empty() =~= pct_byte((c as u8)));
}

/// A string of unreserved ASCII characters is its own encoding.
pub proof fn lemma_pct_str_unreserved(s: Seq<char>)
    requires
        forall|i: int| 0 <= i < s.len() ==> is_unreserved_char(#[trigger] s[i]),
    ensures
        pct_str(s) == s,
    decreases s.len(),
{
    if s.len() == 0 {
        assert(encode_utf8(s) =~= Seq::<u8>::empty());
        assert(pct_str(s) =~= s);
    } else {
        let c = s[0];
        assert(s =~= seq![c] + s.drop_first());
        lemma_pct_str_concat(seq![c], s.drop_first());
        lemma_pct_str_one(c);
        assert(is_unreserved(((c as u32) as u8)));
        assert(pct_byte(((c as u32) as u8)) =~= seq![(((c as u32) as u8) as char)]);
        assert((((c as u32) as u8) as char) == c) by {
            vstd::utf8::char_u32_cast(c, c as u32);
        }
        lemma_pct_str_unreserved(s.drop_first());
        assert(pct_str(s) =~= s);
    }
}

/// Every character that percent-encoding emits is ASCII.
pub proof fn lemma_pct_encoded_ascii(bs: Seq<u8>)
    ensures
        is_ascii_chars(pct_encoded(bs)),
    decreases bs.len(),
{
    if bs.len() > 0 {
        lemma_pct_encoded_ascii(bs.drop_first());
        let cs = pct_encoded(bs);
        let head = pct_byte(bs[0]);
        assert forall|i: int| 0 <= i < cs.len() implies '\0' <= #[trigger] cs[i] <= '\u{7f}' by {
            if i < head.len() {
                assert(cs[i] == head[i]);
            } else {
                assert(cs[i] == pct_encoded(bs.drop_first())[i - head.len()]);
            }
        }
    }
}

/// Percent-encoding never emits a `%` except to open an escape, and decoding
/// its output gives back exactly the input bytes.
pub proof fn lemma_unescape_of_encoded(bs: Seq<u8>)
    ensures
        unescape_bytes(pct_encoded(bs).map_values(|c: char| c as u8)) == Some(bs),
    decreases bs.len(),
{
    let m = pct_encoded(bs).map_values(|c: char| c as u8);
    if bs.len() == 0 {
        assert(m.len() == 0);
        assert(bs =~= Seq::<u8>::empty());
    } else {
        let b = bs[0];
        let head = pct_byte(b);
        let tailm = pct_encoded(bs.drop_first()).map_values(|c: char| c as u8);
        assert(m =~= head.map_values(|c: char| c as u8) + tailm);
        lemma_unescape_of_encoded(bs.drop_first());
        if is_unreserved(b) {
            assert(m[0] == (b as char) as u8);
            assert((b as char) as u8 == b);
            assert(m[0] != 0x25);
            assert(m.drop_first() =~= tailm);
            assert(unescape_bytes(m) == Some(seq![b] + bs.drop_first()));
            assert(seq![b] + bs.drop_first() =~= bs);
        } else {
            let hi = b as int / 16;
            let lo = b as int % 16;
            assert(m[0] == '%' as u8);
            assert('%' as u8 == 0x25);
            assert(m[1] == hex_upper_char(hi) as u8);
            assert(m[2] == hex_upper_char(lo) as u8);
            lemma_hex_upper_char_val(hi);
            lemma_hex_upper_char_val(lo);
            assert(m.len() >= 3);
            assert(m.skip(3) =~= tailm);
            assert(hex_val(m[1]) * 16 + hex_val(m[2]) == b as int);
            assert(unescape_bytes(m) == Some(seq![b] + bs.drop_first()));
            assert(seq![b] + bs.drop_first() =~= bs);
        }
    }
}

/// The hexadecimal digit characters decode to the value they were written
/// from.
proof fn lemma_hex_upper_char_val(d: int)
    requires
        0 <= d < 16,
    ensures
        is_hex_byte(hex_upper_char(d) as u8),
        hex_val(hex_upper_char(d) as u8) == d,
{
    if d < 10 {
        assert(hex_upper_char(d) as u8 == 0x30 + d);
    } else {
        assert(hex_upper_char(d) as u8 == 0x37 + d);
    }
}

/// Percent-encoded text never contains a quote, comma, space or equals
/// sign: every character it emits is unreserved, `%`, or an upper-case
/// hexadecimal digit.
pub proof fn lemma_pct_encoded_no_delims(bs: Seq<u8>)
    ensures
        forall|i: int|
            0 <= i < pct_encoded(bs).len() ==> #[trigger] pct_encoded(bs)[i] != '"' && pct_encoded(
                bs,
            )[i] != ',' && pct_encoded(bs)[i] != ' ' && pct_encoded(bs)[i] != '=',
    decreases bs.len(),
{
    if bs.len() > 0 {
        lemma_pct_encoded_no_delims(bs.drop_first());
        let cs = pct_encoded(bs);
        let head = pct_byte(bs[0]);
        assert forall|i: int| 0 <= i < cs.len() implies #[trigger] cs[i] != '"' && cs[i] != ','
            && cs[i] != ' ' && cs[i] != '=' by {
            if i < head.len() {
                assert(cs[i] == head[i]);
            } else {
                assert(cs[i] == pct_encoded(bs.drop_first())[i - head.len()]);
            }
        }
    }
}

/// Decoding inverts encoding: for every string, percent-decoding its
/// percent-encoding gives back the original.
pub proof fn lemma_pct_round_trip(s: Seq<char>)
    ensures
        pct_decoded(pct_str(s)) == Some(s),
{
    let bs = encode_utf8(s);
    let cs = pct_encoded(bs);
    lemma_pct_encoded_ascii(bs);
    is_ascii_chars_encode_utf8(cs);
    assert(encode_utf8(cs) =~= cs.map_values(|c: char| c as u8));
    lemma_unescape_of_encoded(bs);
    encode_utf8_valid_utf8(s);
    encode_utf8_decode_utf8(s);
}

} // verus!
