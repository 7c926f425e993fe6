//! Byte-level text rules shared by identifiers, wire names and numbers.

use vstd::prelude::*;
use vstd::string::{StrSliceExecFns, StringExecFns, StringSliceAdditionalSpecFns};
use vstd::utf8::{encode_utf8, encode_utf8_decode_utf8};

verus! {

/// ASCII decimal digit.
pub open spec fn is_digit(b: u8) -> bool {
    48 <= b <= 57
}

/// ASCII upper-case letter.
pub open spec fn is_upper(b: u8) -> bool {
    65 <= b <= 90
}

/// ASCII lower-case letter.
pub open spec fn is_lower(b: u8) -> bool {
    97 <= b <= 122
}

/// ASCII control byte (C0 controls and DEL).
pub open spec fn is_control(b: u8) -> bool {
    b < 32 || b == 127
}

/// ASCII whitespace as `u8::is_ascii_whitespace` defines it.
pub open spec fn is_space(b: u8) -> bool {
    b == 32 || b == 9 || b == 10 || b == 12 || b == 13
}

pub open spec fn all_digits(s: Seq<u8>) -> bool {
    forall|i: int| 0 <= i < s.len() ==> is_digit(#[trigger] s[i])
}

pub open spec fn pow10(n: nat) -> nat
    decreases n,
{
    if n == 0 {
        1
    } else {
        10 * pow10((n - 1) as nat)
    }
}

/// Numeric value of a big-endian run of decimal digits.
pub open spec fn digits_value(s: Seq<u8>) -> nat
    decreases s.len(),
{
    if s.len() == 0 {
        0
    } else {
        digits_value(s.drop_last()) * 10 + (s.last() - 48) as nat
    }
}

/// Shortest decimal rendering of `n` (at least one digit).
pub open spec fn nat_digits(n: nat) -> Seq<u8>
    decreases n,
{
    if n < 10 {
        seq![(48 + n) as u8]
    } else {
        nat_digits(n / 10).push((48 + n % 10) as u8)
    }
}

/// The lowest `width` decimal digits of `n`, zero padded.
pub open spec fn padded_digits(n: nat, width: nat) -> Seq<u8>
    decreases width,
{
    if width == 0 {
        Seq::empty()
    } else {
        padded_digits(n / 10, (width - 1) as nat).push((48 + n % 10) as u8)
    }
}

pub proof fn lemma_pow10_positive(n: nat)
    ensures
        pow10(n) >= 1,
    decreases n,
{
    if n > 0 {
        lemma_pow10_positive((n - 1) as nat);
    }
}

pub proof fn lemma_pow10_monotone(a: nat, b: nat)
    requires
        a <= b,
    ensures
        pow10(a) <= pow10(b),
    decreases b,
{
    if a < b {
        lemma_pow10_monotone(a, (b - 1) as nat);
        lemma_pow10_positive((b - 1) as nat);
    }
}

pub proof fn lemma_digits_value_bound(s: Seq<u8>)
    requires
        all_digits(s),
    ensures
        digits_value(s) < pow10(s.len()),
    decreases s.len(),
{
    if s.len() > 0 {
        let t = s.drop_last();
        assert(all_digits(t)) by {
            assert forall|i: int| 0 <= i < t.len() implies is_digit(#[trigger] t[i]) by {
                assert(t[i] == s[i]);
            }
        }
        lemma_digits_value_bound(t);
        assert(is_digit(s[s.len() - 1]));
    }
}

pub proof fn lemma_digits_value_push(s: Seq<u8>, d: u8)
    ensures
        digits_value(s.push(d)) == digits_value(s) * 10 + (d - 48) as nat,
{
    assert(s.push(d).drop_last() =~= s);
}

pub proof fn lemma_nat_digits(n: nat)
    ensures
        all_digits(nat_digits(n)),
        digits_value(nat_digits(n)) == n,
        nat_digits(n).len() >= 1,
        forall|k: nat| n < pow10(k) && k >= 1 ==> nat_digits(n).len() <= k,
    decreases n,
{
    if n < 10 {
        let d = (48 + n) as u8;
        assert(digits_value(seq![d]) == n) by {
            assert(seq![d].drop_last() =~= Seq::<u8>::empty());
            assert(seq![d].last() == d);
            assert(digits_value(Seq::<u8>::empty()) == 0);
        }
        assert forall|k: nat| n < pow10(k) && k >= 1 implies nat_digits(n).len() <= k by {}
    } else {
        lemma_nat_digits(n / 10);
        let t = nat_digits(n / 10);
        lemma_digits_value_push(t, (48 + n % 10) as u8);
        assert(all_digits(t.push((48 + n % 10) as u8))) by {
            assert forall|i: int| 0 <= i < t.len() + 1 implies is_digit(
                #[trigger] t.push((48 + n % 10) as u8)[i],
            ) by {
                if i < t.len() {
                    assert(t.push((48 + n % 10) as u8)[i] == t[i]);
                }
            }
        }
        assert forall|k: nat| n < pow10(k) && k >= 1 implies nat_digits(n).len() <= k by {
            if k == 1 {
                assert(pow10(1) == 10) by {
                    reveal_with_fuel(pow10, 2);
                }
            } else {
                let k1 = (k - 1) as nat;
                assert(pow10(k) == 10 * pow10(k1));
                assert(n / 10 < pow10(k1));
            }
        }
    }
}

pub proof fn lemma_padded_digits(n: nat, width: nat)
    ensures
        all_digits(padded_digits(n, width)),
        padded_digits(n, width).len() == width,
        digits_value(padded_digits(n, width)) == n % pow10(width),
    decreases width,
{
    if width > 0 {
        let w1 = (width - 1) as nat;
        lemma_padded_digits(n / 10, w1);
        let t = padded_digits(n / 10, w1);
        lemma_digits_value_push(t, (48 + n % 10) as u8);
        assert(all_digits(t.push((48 + n % 10) as u8))) by {
            assert forall|i: int| 0 <= i < t.len() + 1 implies is_digit(
                #[trigger] t.push((48 + n % 10) as u8)[i],
            ) by {
                if i < t.len() {
                    assert(t.push((48 + n % 10) as u8)[i] == t[i]);
                }
            }
        }
        lemma_pow10_positive(w1);
        let p = pow10(w1);
        assert(((n / 10) % p) * 10 + n % 10 == n % (10 * p)) by (nonlinear_arith)
            requires
                p >= 1,
        {
            let q = n / 10;
            let r = n % 10;
            assert(n == q * 10 + r);
            let a = q / p;
            let b = q % p;
            assert(q == a * p + b);
            assert(n == a * (10 * p) + (b * 10 + r));
            assert(0 <= b * 10 + r < 10 * p);
        }
    } else {
        assert(n % 1 == 0);
    }
}

/// Byte-wise lexicographic order, as `Ord` for `str` and `String` defines it.
pub open spec fn bytes_lt(a: Seq<u8>, b: Seq<u8>) -> bool
    decreases a.len(),
{
    if a.len() == 0 {
        b.len() > 0
    } else if b.len() == 0 {
        false
    } else if a[0] != b[0] {
        a[0] < b[0]
    } else {
        bytes_lt(a.drop_first(), b.drop_first())
    }
}

/// `bytes_lt` is a strict total order.
pub proof fn lemma_bytes_lt_order(a: Seq<u8>, b: Seq<u8>, c: Seq<u8>)
    ensures
        !bytes_lt(a, a),
        bytes_lt(a, b) ==> !bytes_lt(b, a),
        a != b ==> bytes_lt(a, b) || bytes_lt(b, a),
        bytes_lt(a, b) && bytes_lt(b, c) ==> bytes_lt(a, c),
    decreases a.len(),
{
    if a.len() > 0 && b.len() > 0 && c.len() > 0 {
        lemma_bytes_lt_order(a.drop_first(), b.drop_first(), c.drop_first());
    } else if a.len() > 0 && b.len() > 0 {
        lemma_bytes_lt_order(a.drop_first(), b.drop_first(), b.drop_first());
    } else if a.len() > 0 {
        lemma_bytes_lt_order(a.drop_first(), a.drop_first(), a.drop_first());
    }
    if a.len() > 0 && b.len() > 0 && a != b && a[0] == b[0] {
        assert(a.drop_first() != b.drop_first()) by {
            if a.drop_first() == b.drop_first() {
                assert(a =~= seq![a[0]] + a.drop_first());
                assert(b =~= seq![b[0]] + b.drop_first());
            }
        }
    }
    if a.len() == 0 && b.len() == 0 {
        assert(a =~= b);
    }
}

/// Strict lexicographic comparison of two byte strings.
pub fn bytes_less(a: &[u8], b: &[u8]) -> (r: bool)
    ensures
        r == bytes_lt(a@, b@),
{
    let mut i: usize = 0;
    assert(a@.subrange(0, a@.len() as int) =~= a@);
    assert(b@.subrange(0, b@.len() as int) =~= b@);
    while i < a.len() && i < b.len()
        invariant
            i <= a.len(),
            i <= b.len(),
            forall|j: int| 0 <= j < i ==> a@[j] == b@[j],
            bytes_lt(a@, b@) == bytes_lt(a@.subrange(i as int, a@.len() as int), b@.subrange(
                i as int,
                b@.len() as int,
            )),
        decreases a.len() - i,
    {
        if a[i] != b[i] {
            return a[i] < b[i];
        }
        proof {
            let sa = a@.subrange(i as int, a@.len() as int);
            let sb = b@.subrange(i as int, b@.len() as int);
            assert(sa.drop_first() =~= a@.subrange(i + 1, a@.len() as int));
            assert(sb.drop_first() =~= b@.subrange(i + 1, b@.len() as int));
        }
        i = i + 1;
    }
    i < b.len()
}

/// Equality of two byte strings.
pub fn bytes_equal(a: &[u8], b: &[u8]) -> (r: bool)
    ensures
        r == (a@ == b@),
{
    if a.len() != b.len() {
        return false;
    }
    let mut i: usize = 0;
    while i < a.len()
        invariant
            i <= a.len(),
            a.len() == b.len(),
            forall|j: int| 0 <= j < i ==> a@[j] == b@[j],
        decreases a.len() - i,
    {
        if a[i] != b[i] {
            return false;
        }
        i = i + 1;
    }
    assert(a@ =~= b@);
    true
}

/// Equal UTF-8 encodings mean equal text.
pub proof fn lemma_encode_injective(a: Seq<char>, b: Seq<char>)
    requires
        encode_utf8(a) == encode_utf8(b),
    ensures
        a == b,
{
    encode_utf8_decode_utf8(a);
    encode_utf8_decode_utf8(b);
}

/// Equality of two strings, as `str == str` computes it.
pub fn str_equal(a: &str, b: &str) -> (r: bool)
    ensures
        r == (a@ == b@),
{
    let r = bytes_equal(a.as_bytes(), b.as_bytes());
    proof {
        if r {
            lemma_encode_injective(a@, b@);
        }
    }
    r
}

/// The rules that [`validate_text`] enforces on the UTF-8 bytes of a value.
pub open spec fn text_is_valid(
    s: Seq<u8>,
    max_len: nat,
    allow_whitespace: bool,
    prefix: Option<Seq<u8>>,
) -> bool {
    &&& 0 < s.len() <= max_len
    &&& forall|i: int| 0 <= i < s.len() ==> !is_control(#[trigger] s[i])
    &&& !allow_whitespace ==> forall|i: int| 0 <= i < s.len() ==> !is_space(#[trigger] s[i])
    &&& match prefix {
        Some(p) => s.len() > p.len() && s.subrange(0, p.len() as int) == p,
        None => true,
    }
}

pub open spec fn prefix_bytes(prefix: Option<&str>) -> Option<Seq<u8>> {
    match prefix {
        Some(p) => Some(p.spec_bytes()),
        None => None,
    }
}

/// Identifier and text validation failure.
#[derive(Debug, Clone, Copy, PartialEq, Eq, Structural)]
pub enum IdentifierError {
    Empty,
    TooLong,
    ControlCharacter,
    Whitespace,
    MissingPrefix,
}

/// A byte that [`validate_text`] refuses.
pub open spec fn refused_byte(c: u8, allow_whitespace: bool) -> bool {
    is_control(c) || (!allow_whitespace && is_space(c))
}

/// `k` is the first refused byte of `s`.
pub open spec fn first_refused(s: Seq<u8>, allow_whitespace: bool, k: int) -> bool {
    &&& 0 <= k < s.len()
    &&& refused_byte(s[k], allow_whitespace)
    &&& forall|j: int| 0 <= j < k ==> !refused_byte(#[trigger] s[j], allow_whitespace)
}

/// The failure [`validate_text`] reports, checked in this order: emptiness,
/// length, the first refused byte (a control byte before whitespace), then
/// the prefix.
pub open spec fn text_error(
    s: Seq<u8>,
    max_len: nat,
    allow_whitespace: bool,
    prefix: Option<Seq<u8>>,
) -> Option<IdentifierError> {
    if s.len() == 0 {
        Some(IdentifierError::Empty)
    } else if s.len() > max_len {
        Some(IdentifierError::TooLong)
    } else if exists|k: int| #[trigger] first_refused(s, allow_whitespace, k) && is_control(s[k]) {
        Some(IdentifierError::ControlCharacter)
    } else if exists|k: int| #[trigger] first_refused(s, allow_whitespace, k) {
        Some(IdentifierError::Whitespace)
    } else {
        match prefix {
            Some(p) => if s.len() > p.len() && s.subrange(0, p.len() as int) == p {
                None
            } else {
                Some(IdentifierError::MissingPrefix)
            },
            None => None,
        }
    }
}

/// [`text_error`] of a text, its prefix given as text too.
pub open spec fn text_error_of(
    v: Seq<char>,
    max_len: nat,
    allow_whitespace: bool,
    prefix: Option<Seq<char>>,
) -> Option<IdentifierError> {
    text_error(
        encode_utf8(v),
        max_len,
        allow_whitespace,
        match prefix {
            Some(p) => Some(encode_utf8(p)),
            None => None,
        },
    )
}

/// Checks the common text constraints of identifiers and wire names:
/// non-empty, at most `max_len` bytes, no control bytes, no whitespace
/// unless allowed, and a required prefix followed by at least one byte.
pub fn validate_text(
    value: &str,
    max_len: usize,
    allow_whitespace: bool,
    prefix: Option<&str>,
) -> (r: Result<(), IdentifierError>)
    ensures
        r is Ok <==> text_is_valid(
            value.spec_bytes(),
            max_len as nat,
            allow_whitespace,
            prefix_bytes(prefix),
        ),
        r == (match text_error(value.spec_bytes(), max_len as nat, allow_whitespace, prefix_bytes(prefix)) {
            Some(e) => Err(e),
            None => Ok(()),
        }),
{
    let b = value.as_bytes();
    if b.len() == 0 {
        return Err(IdentifierError::Empty);
    }
    if b.len() > max_len {
        return Err(IdentifierError::TooLong);
    }
    let ghost s = value.spec_bytes();
    let mut i: usize = 0;
    while i < b.len()
        invariant
            i <= b.len(),
            0 < b.len() <= max_len,
            b@ == s,
            s == value.spec_bytes(),
            forall|j: int| 0 <= j < i ==> !refused_byte(#[trigger] s[j], allow_whitespace),
        decreases b.len() - i,
    {
        let c = b[i];
        if c < 32 || c == 127 {
            assert(is_control(s[i as int]));
            assert(first_refused(s, allow_whitespace, i as int));
            assert(exists|k: int| #[trigger] first_refused(s, allow_whitespace, k) && is_control(s[k]));
            assert(text_error(s, max_len as nat, allow_whitespace, prefix_bytes(prefix)) == Some(IdentifierError::ControlCharacter));
            return Err(IdentifierError::ControlCharacter);
        }
        if !allow_whitespace && (c == 32 || c == 9 || c == 10 || c == 12 || c == 13) {
            assert(is_space(s[i as int]));
            assert(first_refused(s, allow_whitespace, i as int));
            assert forall|k: int| first_refused(s, allow_whitespace, k) implies k == i by {
                if k < i {
                    assert(!refused_byte(s[k], allow_whitespace));
                } else if k > i {
                    assert(!refused_byte(s[i as int], allow_whitespace));
                }
            }
            assert(!(exists|k: int| #[trigger] first_refused(s, allow_whitespace, k) && is_control(s[k])));
            assert(text_error(s, max_len as nat, allow_whitespace, prefix_bytes(prefix)) == Some(IdentifierError::Whitespace));
            return Err(IdentifierError::Whitespace);
        }
        assert(!refused_byte(s[i as int], allow_whitespace));
        i = i + 1;
    }
    assert(forall|k: int| !first_refused(s, allow_whitespace, k));
    match prefix {
        Some(p) => {
            let pb = p.as_bytes();
            assert(prefix_bytes(prefix) == Some(pb@));
            if b.len() <= pb.len() {
                assert(text_error(s, max_len as nat, allow_whitespace, prefix_bytes(prefix)) == Some(IdentifierError::MissingPrefix));
                return Err(IdentifierError::MissingPrefix);
            }
            let mut k: usize = 0;
            while k < pb.len()
                invariant
                    k <= pb.len(),
                    pb.len() < b.len(),
                    0 < b.len() <= max_len,
                    b@ == s,
                    forall|k: int| !first_refused(s, allow_whitespace, k),
                    b@ == value.spec_bytes(),
                    pb@ == p.spec_bytes(),
                    prefix_bytes(prefix) == Some(pb@),
                    forall|j: int| 0 <= j < k ==> b@[j] == pb@[j],
                decreases pb.len() - k,
            {
                if b[k] != pb[k] {
                    assert(b@.subrange(0, pb@.len() as int)[k as int] != pb@[k as int]);
                    assert(b@.subrange(0, pb@.len() as int) != pb@);
                    return Err(IdentifierError::MissingPrefix);
                }
                k = k + 1;
            }
            assert(b@.subrange(0, pb@.len() as int) =~= pb@);
            Ok(())
        },
        None => Ok(()),
    }
}

/// Builds a `String` from ASCII bytes.
#[verifier::external_body]
pub(crate) fn string_from_ascii(bytes: Vec<u8>) -> (s: String)
    requires
        forall|i: int| 0 <= i < bytes@.len() ==> bytes@[i] < 128,
    ensures
        s@.len() == bytes@.len(),
        forall|i: int| 0 <= i < bytes@.len() ==> s@[i] as u32 == bytes@[i] as u32,
        forall|i: int| 0 <= i < bytes@.len() ==> s@[i] == #[trigger] bytes@[i] as char,
{
    match String::from_utf8(bytes) {
        Ok(s) => s,
        Err(_) => String::new(),
    }
}

/// Characters with the Unicode `White_Space` property.
pub open spec fn is_unicode_white_space(c: char) -> bool {
    let u = c as u32;
    ||| 9 <= u <= 13
    ||| u == 32 || u == 0x85 || u == 0xA0 || u == 0x1680
    ||| 0x2000 <= u <= 0x200A
    ||| u == 0x2028 || u == 0x2029 || u == 0x202F || u == 0x205F || u == 0x3000
}

/// `s` without its leading `White_Space` characters.
pub open spec fn trim_start_spec(s: Seq<char>) -> Seq<char>
    decreases s.len(),
{
    if s.len() > 0 && is_unicode_white_space(s[0]) {
        trim_start_spec(s.drop_first())
    } else {
        s
    }
}

/// `s` without its trailing `White_Space` characters.
pub open spec fn trim_end_spec(s: Seq<char>) -> Seq<char>
    decreases s.len(),
{
    if s.len() > 0 && is_unicode_white_space(s.last()) {
        trim_end_spec(s.drop_last())
    } else {
        s
    }
}

/// `s` without leading and trailing `White_Space` characters.
pub open spec fn trim_spec(s: Seq<char>) -> Seq<char> {
    trim_end_spec(trim_start_spec(s))
}

fn is_white_space(c: char) -> (r: bool)
    ensures
        r == is_unicode_white_space(c),
{
    let u = c as u32;
    (9 <= u && u <= 13) || u == 32 || u == 0x85 || u == 0xA0 || u == 0x1680 || (0x2000 <= u && u <= 0x200A)
        || u == 0x2028 || u == 0x2029 || u == 0x202F || u == 0x205F || u == 0x3000
}

/// The text without leading and trailing characters that have the Unicode
/// `White_Space` property, as `str::trim` gives it.
pub fn trim_str(value: &str) -> (r: &str)
    ensures
        r@ == trim_spec(value@),
{
    let n = value.unicode_len();
    let ghost s = value@;
    let mut i: usize = 0;
    assert(s.subrange(0, n as int) =~= s);
    while i < n && is_white_space(value.get_char(i))
        invariant
            n == s.len(),
            s == value@,
            i <= n,
            trim_start_spec(s) == trim_start_spec(s.subrange(i as int, n as int)),
        decreases n - i,
    {
        proof {
            assert(s.subrange(i as int, n as int).drop_first() =~= s.subrange(i + 1, n as int));
        }
        i = i + 1;
    }
    proof {
        if i < n {
            assert(s.subrange(i as int, n as int)[0] == s[i as int]);
        } else {
            assert(s.subrange(i as int, n as int).len() == 0);
        }
    }
    let mut j: usize = n;
    while j > i && is_white_space(value.get_char(j - 1))
        invariant
            n == s.len(),
            s == value@,
            i <= j <= n,
            trim_spec(s) == trim_end_spec(s.subrange(i as int, j as int)),
        decreases j - i,
    {
        proof {
            assert(s.subrange(i as int, j as int).drop_last() =~= s.subrange(i as int, j - 1));
        }
        j = j - 1;
    }
    proof {
        if j > i {
            assert(s.subrange(i as int, j as int).last() == s[j - 1]);
        }
    }
    value.substring_char(i, j)
}

/// Whether the text is empty or only `White_Space` characters.
pub fn is_blank(value: &str) -> (r: bool)
    ensures
        r == (trim_spec(value@).len() == 0),
{
    let t = trim_str(value);
    let n = t.as_bytes().len();
    proof {
        vstd::utf8::encode_utf8_decode_utf8(t@);
        if n == 0 {
            assert(encode_utf8(t@) =~= Seq::<u8>::empty());
            assert(vstd::utf8::decode_utf8(Seq::<u8>::empty()) =~= Seq::<char>::empty());
        } else if t@.len() == 0 {
            assert(t@ =~= Seq::<char>::empty());
            assert(encode_utf8(Seq::<char>::empty()) =~= Seq::<u8>::empty()) by {
                vstd::utf8::encode_utf8_decode_utf8(Seq::<char>::empty());
            }
        }
    }
    n == 0
}

/// A Unicode control character (general category `Cc`), as
/// `char::is_control` reports it.
pub open spec fn is_control_char(c: char) -> bool {
    (c as u32) < 0x20 || (0x7f <= (c as u32) && (c as u32) < 0xa0)
}

/// ASCII lower-casing of one character.
pub open spec fn ascii_lower_char(c: char) -> char {
    if 'A' <= c && c <= 'Z' {
        ((c as u32) + 32) as char
    } else {
        c
    }
}

/// The text with ASCII letters lower-cased and every other character kept.
pub open spec fn ascii_lowercase(s: Seq<char>) -> Seq<char> {
    Seq::new(s.len(), |i: int| ascii_lower_char(s[i]))
}

/// A copy in which each ASCII upper-case letter is mapped to its lower-case
/// form and every other character is kept, as `str::to_ascii_lowercase`
/// gives it.
pub fn to_ascii_lowercase(value: &str) -> (r: String)
    ensures
        r@ == ascii_lowercase(value@),
{
    let letters = "abcdefghijklmnopqrstuvwxyz";
    proof {
        reveal_strlit("abcdefghijklmnopqrstuvwxyz");
        reveal_strlit("");
    }
    assert forall|k: int| 0 <= k < 26 implies (#[trigger] letters@[k]) as u32 == 97 + k by {
        assert(letters@ == seq!['a', 'b', 'c', 'd', 'e', 'f', 'g', 'h', 'i', 'j', 'k', 'l', 'm', 'n', 'o', 'p', 'q', 'r', 's', 't', 'u', 'v', 'w', 'x', 'y', 'z']);
    }
    let n = value.unicode_len();
    let mut out = String::from_str("");
    let mut i: usize = 0;
    while i < n
        invariant
            n == value@.len(),
            i <= n,
            letters@.len() == 26,
            forall|k: int| 0 <= k < 26 ==> (#[trigger] letters@[k]) as u32 == 97 + k,
            out@ =~= ascii_lowercase(value@.subrange(0, i as int)),
        decreases n - i,
    {
        let c = value.get_char(i);
        let ghost before = out@;
        if 'A' <= c && c <= 'Z' {
            let k = (c as u32 - 65) as usize;
            let piece = letters.substring_char(k, k + 1);
            proof {
                assert(piece@ =~= seq![letters@[k as int]]);
                let l = letters@[k as int];
                assert(l as u32 == (c as u32) + 32);
                vstd::utf8::char_u32_cast(l, (c as u32 + 32) as u32);
                assert(letters@[k as int] == ascii_lower_char(c));
            }
            out.append(piece);
        } else {
            let piece = value.substring_char(i, i + 1);
            proof {
                assert(piece@ =~= seq![c]);
            }
            out.append(piece);
        }
        proof {
            assert(ascii_lowercase(value@.subrange(0, i + 1)) =~= ascii_lowercase(value@.subrange(0, i as int)).push(
                ascii_lower_char(c),
            ));
        }
        i = i + 1;
    }
    proof {
        assert(value@.subrange(0, n as int) =~= value@);
    }
    out
}

/// An owned copy of a byte slice.
pub fn copy_bytes(s: &[u8]) -> (r: Vec<u8>)
    ensures
        r@ == s@,
{
    let mut out: Vec<u8> = Vec::new();
    let mut i: usize = 0;
    while i < s.len()
        invariant
            i <= s@.len(),
            out@ == s@.take(i as int),
        decreases s@.len() - i,
    {
        out.push(s[i]);
        i = i + 1;
        assert(out@ =~= s@.take(i as int));
    }
    assert(s@.take(i as int) =~= s@);
    out
}

} // verus!
