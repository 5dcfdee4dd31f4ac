//! Small text utilities shared by the signing pipeline: appending single
//! characters to a `String`, ASCII upper-casing, decimal formatting, and a
//! lexicographic order on character sequences.

use vstd::prelude::*;

verus! {

/// Relies on `String::from_utf8`: `Ok` exactly on valid UTF-8 input, giving
/// the string those bytes encode.
#[verifier::external_body]
pub fn bytes_to_string(v: Vec<u8>) -> (r: Option<String>)
    ensures
        match r {
            Some(s) => vstd::utf8::valid_utf8(v@) && s@ == vstd::utf8::decode_utf8(v@),
            None => !vstd::utf8::valid_utf8(v@),
        },
{
    match String::from_utf8(v) {
        Ok(s) => Some(s),
        Err(_) => None,
    }
}

/// Relies on `String::push`: appends exactly the one character to the string.
#[verifier::external_body]
pub fn push_char(s: &mut String, c: char)
    ensures
        final(s)@ == old(s)@.push(c),
{
    s.push(c);
}

/// The ASCII upper-case image of a character: letters `a`..`z` are mapped to
/// `A`..`Z`, every other character is unchanged.
pub open spec fn ascii_upper_char(c: char) -> char {
    if 0x61 <= (c as u32) && (c as u32) <= 0x7a {
        (((c as u32) - 0x20) as u8) as char
    } else {
        c
    }
}

/// The ASCII upper-case image of a character sequence.
pub open spec fn ascii_upper(s: Seq<char>) -> Seq<char> {
    s.map_values(|c: char| ascii_upper_char(c))
}

/// Upper-cases the ASCII letters of a string, leaving all else unchanged.
pub fn to_ascii_uppercase(s: &str) -> (r: String)
    ensures
        r@ == ascii_upper(s@),
{
    let len: usize = s.unicode_len();
    let mut r = String::new();
    let mut i: usize = 0;
    while i < len
        invariant
            len == s@.len(),
            i <= len,
            r@ == ascii_upper(s@.take(i as int)),
        decreases len - i,
    {
        let c = s.get_char(i);
        let code = c as u32;
        let up: char = if 0x61 <= code && code <= 0x7a {
            ((code - 0x20) as u8) as char
        } else {
            c
        };
        proof {
            assert(up == ascii_upper_char(c));
            assert(ascii_upper(s@.take(i + 1)) =~= ascii_upper(s@.take(i as int)).push(
                ascii_upper_char(c),
            ));
        }
        push_char(&mut r, up);
        i = i + 1;
    }
    proof {
        assert(s@.take(len as int) =~= s@);
    }
    r
}

/// Lexicographic order on character sequences, comparing scalar values.
/// A proper prefix sorts before every sequence it begins.
pub open spec fn lex_leq(a: Seq<char>, b: Seq<char>) -> bool
    decreases a.len(),
{
    if a.len() == 0 {
        true
    } else if b.len() == 0 {
        false
    } else if (a[0] as u32) < (b[0] as u32) {
        true
    } else if (a[0] as u32) > (b[0] as u32) {
        false
    } else {
        lex_leq(a.drop_first(), b.drop_first())
    }
}

pub proof fn lemma_lex_leq_reflexive(a: Seq<char>)
    ensures
        lex_leq(a, a),
    decreases a.len(),
{
    if a.len() > 0 {
        lemma_lex_leq_reflexive(a.drop_first());
    }
}

pub proof fn lemma_lex_leq_total(a: Seq<char>, b: Seq<char>)
    ensures
        lex_leq(a, b) || lex_leq(b, a),
    decreases a.len(),
{
    if a.len() > 0 && b.len() > 0 && (a[0] as u32) == (b[0] as u32) {
        vstd::utf8::char_u32_cast(a[0], a[0] as u32);
        vstd::utf8::char_u32_cast(b[0], b[0] as u32);
        lemma_lex_leq_total(a.drop_first(), b.drop_first());
    }
}

pub proof fn lemma_lex_leq_antisymmetric(a: Seq<char>, b: Seq<char>)
    requires
        lex_leq(a, b),
        lex_leq(b, a),
    ensures
        a == b,
    decreases a.len(),
{
    if a.len() == 0 {
        assert(b.len() == 0);
        assert(a =~= b);
    } else {
        assert(b.len() > 0);
        assert(a[0] as u32 == b[0] as u32);
        assert(a[0] == b[0]) by {
            vstd::utf8::char_u32_cast(a[0], a[0] as u32);
            vstd::utf8::char_u32_cast(b[0], b[0] as u32);
        }
        lemma_lex_leq_antisymmetric(a.drop_first(), b.drop_first());
        assert(a =~= seq![a[0]] + a.drop_first());
        assert(b =~= seq![b[0]] + b.drop_first());
    }
}

pub proof fn lemma_lex_leq_transitive(a: Seq<char>, b: Seq<char>, c: Seq<char>)
    requires
        lex_leq(a, b),
        lex_leq(b, c),
    ensures
        lex_leq(a, c),
    decreases a.len(),
{
    if a.len() > 0 && b.len() > 0 && c.len() > 0 && (a[0] as u32) == (b[0] as u32) && (b[0] as u32)
        == (c[0] as u32) {
        vstd::utf8::char_u32_cast(a[0], a[0] as u32);
        vstd::utf8::char_u32_cast(b[0], b[0] as u32);
        vstd::utf8::char_u32_cast(c[0], c[0] as u32);
        lemma_lex_leq_transitive(a.drop_first(), b.drop_first(), c.drop_first());
    }
}

/// Characters with the same scalar value are the same character.
pub proof fn lemma_char_eq_by_code(a: char, b: char)
    requires
        (a as u32) == (b as u32),
    ensures
        a == b,
{
    vstd::utf8::char_u32_cast(a, a as u32);
    vstd::utf8::char_u32_cast(b, b as u32);
}

/// Two sequences that agree before position `k` and differ there, the
/// first low, are strictly ordered.
pub proof fn lemma_lex_lt_at(a: Seq<char>, b: Seq<char>, k: int)
    requires
        0 <= k < a.len(),
        k < b.len(),
        forall|j: int| 0 <= j < k ==> a[j] == b[j],
        (a[k] as u32) < (b[k] as u32),
    ensures
        lex_leq(a, b),
        a != b,
{
    lemma_lex_leq_skip(a, b, k);
    assert(a.skip(k)[0] == a[k]);
    assert(b.skip(k)[0] == b[k]);
    assert(a[k] != b[k]);
}

/// Strict lexicographic order is transitive.
pub proof fn lemma_lex_lt_transitive(a: Seq<char>, b: Seq<char>, c: Seq<char>)
    requires
        lex_leq(a, b),
        a != b,
        lex_leq(b, c),
        b != c,
    ensures
        lex_leq(a, c),
        a != c,
{
    lemma_lex_leq_transitive(a, b, c);
    if a == c {
        lemma_lex_leq_antisymmetric(a, b);
    }
}

/// If two sequences agree on their first `i` characters, their order is
/// decided by the remainders.
pub proof fn lemma_lex_leq_skip(a: Seq<char>, b: Seq<char>, i: int)
    requires
        0 <= i <= a.len(),
        i <= b.len(),
        forall|j: int| 0 <= j < i ==> a[j] == b[j],
    ensures
        lex_leq(a, b) == lex_leq(a.skip(i), b.skip(i)),
    decreases i,
{
    if i > 0 {
        assert(a.len() > 0 && b.len() > 0);
        assert(a[0] == b[0]);
        lemma_lex_leq_skip(a.drop_first(), b.drop_first(), i - 1);
        assert(a.drop_first().skip(i - 1) =~= a.skip(i));
        assert(b.drop_first().skip(i - 1) =~= b.skip(i));
    } else {
        assert(a.skip(0) =~= a);
        assert(b.skip(0) =~= b);
    }
}

/// Compares two strings in the order of [`lex_leq`].
pub fn lex_leq_exec(a: &str, b: &str) -> (r: bool)
    ensures
        r == lex_leq(a@, b@),
{
    let alen: usize = a.unicode_len();
    let blen: usize = b.unicode_len();
    let mut i: usize = 0;
    loop
        invariant
            alen == a@.len(),
            blen == b@.len(),
            i <= alen,
            i <= blen,
            forall|j: int| 0 <= j < i ==> a@[j] == b@[j],
        decreases alen - i,
    {
        proof {
            lemma_lex_leq_skip(a@, b@, i as int);
        }
        if i >= alen {
            proof {
                assert(a@.skip(i as int).len() == 0);
            }
            return true;
        }
        if i >= blen {
            proof {
                assert(b@.skip(i as int).len() == 0);
                assert(a@.skip(i as int).len() > 0);
            }
            return false;
        }
        let ca = a.get_char(i);
        let cb = b.get_char(i);
        proof {
            assert(a@.skip(i as int)[0] == a@[i as int]);
            assert(b@.skip(i as int)[0] == b@[i as int]);
        }
        if (ca as u32) < (cb as u32) {
            return true;
        }
        if (ca as u32) > (cb as u32) {
            return false;
        }
        proof {
            vstd::utf8::char_u32_cast(ca, ca as u32);
            vstd::utf8::char_u32_cast(cb, cb as u32);
            assert(ca == cb);
        }
        i = i + 1;
    }
}

/// The decimal digit character for a value below ten.
pub open spec fn decimal_digit(d: int) -> char {
    ((0x30 + d) as u8) as char
}

/// The decimal representation of a non-negative integer, most significant
/// digit first.
pub open spec fn decimal_of_nat(n: int) -> Seq<char>
    decreases n,
{
    if n <= 0 {
        seq![]
    } else {
        decimal_of_nat(n / 10).push(decimal_digit(n % 10))
    }
}

/// The decimal representation of an integer, with a leading minus sign when
/// negative; zero is written `"0"`.
pub open spec fn decimal_of(n: int) -> Seq<char> {
    if n == 0 {
        seq!['0']
    } else if n < 0 {
        seq!['-'] + decimal_of_nat(-n)
    } else {
        decimal_of_nat(n)
    }
}

/// Formats a signed 64-bit integer in decimal.
pub fn format_i64(n: i64) -> (r: String)
    ensures
        r@ == decimal_of(n as int),
{
    if n == 0 {
        let mut r = String::new();
        push_char(&mut r, '0');
        proof {
            assert(r@ =~= decimal_of(0));
        }
        return r;
    }
    let neg = n < 0;
    // Collect digits of |n| least significant first, avoiding overflow at i64::MIN
    // by negating digit-by-digit through u64.
    let mut m: u64;
    if n < 0 {
        let wide: i128 = n as i128;
        let flipped: i128 = -wide;
        proof {
            assert(0 < flipped <= 0x8000_0000_0000_0000i128);
        }
        m = flipped as u64;
    } else {
        m = n as u64;
    }
    proof {
        assert(m as int == if n < 0 { -(n as int) } else { n as int });
    }
    let ghost total: int = m as int;
    let mut digits: Vec<u8> = Vec::new();
    while m > 0
        invariant
            0 <= total,
            decimal_of_nat(total) =~= decimal_of_nat(m as int) + Seq::new(
                digits@.len(),
                |i: int| decimal_digit(digits@[digits@.len() - 1 - i] as int),
            ),
            forall|i: int| 0 <= i < digits@.len() ==> digits@[i] < 10,
        decreases m,
    {
        let d: u8 = (m % 10) as u8;
        let ghost old_digits = digits@;
        digits.push(d);
        m = m / 10;
        proof {
            assert(Seq::new(
                digits@.len(),
                |i: int| decimal_digit(digits@[digits@.len() - 1 - i] as int),
            ) =~= seq![decimal_digit(d as int)] + Seq::new(
                old_digits.len(),
                |i: int| decimal_digit(old_digits[old_digits.len() - 1 - i] as int),
            ));
        }
    }
    let mut r = String::new();
    if neg {
        push_char(&mut r, '-');
    }
    let ghost prefix: Seq<char> = if neg { seq!['-'] } else { seq![] };
    let mut i: usize = digits.len();
    while i > 0
        invariant
            i <= digits@.len(),
            forall|k: int| 0 <= k < digits@.len() ==> digits@[k] < 10,
            r@ =~= prefix + Seq::new(
                (digits@.len() - i) as nat,
                |k: int| decimal_digit(digits@[digits@.len() - 1 - k] as int),
            ),
        decreases i,
    {
        i = i - 1;
        let d = digits[i];
        push_char(&mut r, (0x30 + d) as char);
        proof {
            assert(r@ =~= prefix + Seq::new(
                (digits@.len() - i) as nat,
                |k: int| decimal_digit(digits@[digits@.len() - 1 - k] as int),
            ));
        }
    }
    proof {
        assert(decimal_of_nat(0) =~= Seq::<char>::empty());
        assert(decimal_of_nat(total) =~= Seq::new(
            digits@.len(),
            |k: int| decimal_digit(digits@[digits@.len() - 1 - k] as int),
        ));
        assert(r@ =~= decimal_of(n as int));
    }
    r
}

} // verus!
