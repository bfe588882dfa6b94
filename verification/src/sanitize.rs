//! Derivation of a stable, collision-resistant, length-bounded identifier
//! for the downstream service endpoint from an externally supplied name.
//!
//! The identifier is `prefix + sanitized-and-truncated name + checksum`:
//! every character that is not an ASCII letter or digit is replaced by an
//! underscore (character by character, so multi-byte characters collapse to
//! a single underscore each), a decimal checksum of the raw bytes of the
//! original name is appended, and the sanitized segment is truncated so the
//! whole identifier never exceeds 256 characters.

use vstd::prelude::*;

verus! {

use vstd::utf8::encode_utf8;

/// Modulus of the rolling byte checksum.
pub const CHECKSUM_MODULUS: u64 = 1_000_000_007;

/// Upper bound on the length of a produced identifier, in characters.
pub const MAX_IDENTIFIER_LENGTH: usize = 256;

/// Rolling checksum over a byte sequence: starting from 0, each byte `b`
/// updates the accumulator `sum` to `(sum * 31 + b) % CHECKSUM_MODULUS`.
pub open spec fn checksum(bytes: Seq<u8>) -> int
    decreases bytes.len(),
{
    if bytes.len() == 0 {
        0
    } else {
        (checksum(bytes.drop_last()) * 31 + bytes.last()) % (CHECKSUM_MODULUS as int)
    }
}

/// The checksum always lies in `[0, CHECKSUM_MODULUS)`.
pub proof fn lemma_checksum_in_range(bytes: Seq<u8>)
    ensures
        0 <= checksum(bytes) < CHECKSUM_MODULUS,
{
}

/// The ten decimal digit characters.
pub open spec fn decimal_digit(d: nat) -> char {
    if d == 0 {
        '0'
    } else if d == 1 {
        '1'
    } else if d == 2 {
        '2'
    } else if d == 3 {
        '3'
    } else if d == 4 {
        '4'
    } else if d == 5 {
        '5'
    } else if d == 6 {
        '6'
    } else if d == 7 {
        '7'
    } else if d == 8 {
        '8'
    } else {
        '9'
    }
}

/// `c` is one of the characters `'0'` through `'9'`.
pub open spec fn is_decimal_digit_char(c: char) -> bool {
    48 <= c as u32 && c as u32 <= 57
}

/// Decimal rendering of a natural number, most significant digit first,
/// without leading zeroes (`0` renders as `"0"`).
pub open spec fn decimal(n: nat) -> Seq<char>
    decreases n,
{
    if n < 10 {
        seq![decimal_digit(n)]
    } else {
        decimal((n / 10) as nat).push(decimal_digit((n % 10) as nat))
    }
}

/// A decimal rendering is never empty and contains digit characters only.
pub proof fn lemma_decimal_chars(n: nat)
    ensures
        decimal(n).len() >= 1,
        forall|i: int|
            0 <= i < decimal(n).len() ==> is_decimal_digit_char(#[trigger] decimal(n)[i]),
    decreases n,
{
    if n >= 10 {
        lemma_decimal_chars((n / 10) as nat);
    }
}

/// Powers of ten.
pub open spec fn pow10(k: nat) -> nat
    decreases k,
{
    if k == 0 {
        1
    } else {
        10 * pow10((k - 1) as nat)
    }
}

/// A number below the `k`-th power of ten renders to at most `k` digits.
pub proof fn lemma_decimal_len(n: nat, k: nat)
    requires
        1 <= k,
        n < pow10(k),
    ensures
        decimal(n).len() <= k,
    decreases k,
{
    if n >= 10 {
        assert(pow10(k) == 10 * pow10((k - 1) as nat));
        assert(n / 10 < pow10((k - 1) as nat)) by {
            if n / 10 >= pow10((k - 1) as nat) {
                assert(n >= 10 * (n / 10)) by (nonlinear_arith);
                assert(10 * (n / 10) >= 10 * pow10((k - 1) as nat)) by (nonlinear_arith)
                    requires
                        n / 10 >= pow10((k - 1) as nat),
                ;
            }
        }
        lemma_decimal_len((n / 10) as nat, (k - 1) as nat);
    }
}

/// Ten to the tenth, spelled out: the checksum modulus stays below it, so
/// a checksum never renders to more than ten digits.
proof fn lemma_pow10_of_ten()
    ensures
        pow10(10) == 10_000_000_000,
{
    assert(pow10(0) == 1);
    assert(pow10(1) == 10);
    assert(pow10(2) == 100);
    assert(pow10(3) == 1000);
    assert(pow10(4) == 10000);
    assert(pow10(5) == 100000);
    assert(pow10(6) == 1000000);
    assert(pow10(7) == 10000000);
    assert(pow10(8) == 100000000);
    assert(pow10(9) == 1000000000);
}

/// Distinct digits render to distinct characters.
pub proof fn lemma_digit_injective(x: nat, y: nat)
    requires
        x < 10,
        y < 10,
        decimal_digit(x) == decimal_digit(y),
    ensures
        x == y,
{
}

/// Equal decimal renderings come from equal numbers.
pub proof fn lemma_decimal_injective(a: nat, b: nat)
    requires
        decimal(a) == decimal(b),
    ensures
        a == b,
    decreases a,
{
    if a < 10 && b < 10 {
        assert(decimal(a)[0] == decimal_digit(a));
        assert(decimal(b)[0] == decimal_digit(b));
        lemma_digit_injective(a, b);
    } else if a < 10 {
        assert(decimal(b).len() >= 2) by {
            lemma_decimal_chars((b / 10) as nat);
        }
    } else if b < 10 {
        assert(decimal(a).len() >= 2) by {
            lemma_decimal_chars((a / 10) as nat);
        }
    } else {
        assert(decimal(a).last() == decimal_digit((a % 10) as nat));
        assert(decimal(b).last() == decimal_digit((b % 10) as nat));
        lemma_digit_injective((a % 10) as nat, (b % 10) as nat);
        assert(a % 10 == b % 10);
        assert(decimal(a).drop_last() =~= decimal((a / 10) as nat));
        assert(decimal(b).drop_last() =~= decimal((b / 10) as nat));
        lemma_decimal_injective((a / 10) as nat, (b / 10) as nat);
    }
}

/// The decimal digit below 10, as a character.
fn digit_char(d: u64) -> (c: char)
    requires
        d < 10,
    ensures
        c == decimal_digit(d as nat),
{
    if d == 0 {
        '0'
    } else if d == 1 {
        '1'
    } else if d == 2 {
        '2'
    } else if d == 3 {
        '3'
    } else if d == 4 {
        '4'
    } else if d == 5 {
        '5'
    } else if d == 6 {
        '6'
    } else if d == 7 {
        '7'
    } else if d == 8 {
        '8'
    } else {
        '9'
    }
}

/// Relies on `String::push`: appends the given character to the end of the
/// string.
#[verifier::external_body]
fn push_char(s: &mut String, c: char)
    ensures
        final(s)@ == old(s)@.push(c),
{
    s.push(c);
}

/// Decimal rendering of a 64-bit number, as a string of digits.
fn u64_to_decimal(n: u64) -> (r: String)
    ensures
        r@ == decimal(n as nat),
{
    let mut digits: Vec<char> = Vec::new();
    let mut m = n;
    if m == 0 {
        let mut r = String::new();
        push_char(&mut r, '0');
        proof {
            assert(r@ =~= decimal(0));
        }
        return r;
    }
    while m > 0
        invariant
            decimal(n as nat) =~= (if m > 0 {
                decimal(m as nat)
            } else {
                Seq::<char>::empty()
            }) + digits@.reverse(),
        decreases m,
    {
        let ghost old_m = m as nat;
        let ghost old_digits = digits@;
        let d = m % 10;
        digits.push(digit_char(d));
        m = m / 10;
        proof {
            assert(digits@.reverse() =~= seq![decimal_digit((old_m % 10) as nat)]
                + old_digits.reverse());
            if old_m >= 10 {
                assert(decimal(old_m) =~= decimal((old_m / 10) as nat) + seq![
                    decimal_digit((old_m % 10) as nat),
                ]);
                assert(decimal((old_m / 10) as nat) + seq![decimal_digit((old_m % 10) as nat)]
                    + old_digits.reverse() =~= decimal((old_m / 10) as nat) + digits@.reverse());
            } else {
                assert(decimal(old_m) =~= seq![decimal_digit((old_m % 10) as nat)]);
            }
            assert(decimal(n as nat) =~= (if m > 0 {
                decimal(m as nat)
            } else {
                Seq::<char>::empty()
            }) + digits@.reverse());
        }
    }
    let mut r = String::new();
    let mut j = digits.len();
    proof {
        assert(decimal(n as nat) =~= digits@.reverse());
    }
    while j > 0
        invariant
            j <= digits@.len(),
            decimal(n as nat) =~= digits@.reverse(),
            r@ =~= digits@.reverse().take(digits@.len() - j),
        decreases j,
    {
        j = j - 1;
        let c = digits[j];
        push_char(&mut r, c);
        proof {
            assert(digits@.reverse()[digits@.len() - j - 1] == digits@[j as int]);
            assert(r@ =~= digits@.reverse().take(digits@.len() - j));
        }
    }
    proof {
        assert(digits@.reverse().take(digits@.len() - 0) =~= digits@.reverse());
    }
    r
}

/// Rolling checksum of a byte slice, computed left to right.
pub fn checksum_of_bytes(bytes: &[u8]) -> (sum: u64)
    ensures
        sum as int == checksum(bytes@),
        sum < CHECKSUM_MODULUS,
{
    let mut sum: u64 = 0;
    let mut i: usize = 0;
    while i < bytes.len()
        invariant
            i <= bytes@.len(),
            sum as int == checksum(bytes@.take(i as int)),
            sum < CHECKSUM_MODULUS,
        decreases bytes@.len() - i,
    {
        proof {
            assert(bytes@.take(i + 1).drop_last() =~= bytes@.take(i as int));
            assert(bytes@.take(i + 1).last() == bytes@[i as int]);
        }
        sum = (sum * 31 + bytes[i] as u64) % CHECKSUM_MODULUS;
        i = i + 1;
    }
    proof {
        assert(bytes@.take(bytes@.len() as int) =~= bytes@);
    }
    sum
}

/// `c` is an ASCII letter or digit.
pub open spec fn is_ascii_alphanumeric_char(c: char) -> bool {
    (48 <= c as u32 && c as u32 <= 57) || (65 <= c as u32 && c as u32 <= 90) || (97 <= c as u32
        && c as u32 <= 122)
}

/// `c` may appear in a sanitized identifier: an ASCII letter, a digit, or
/// an underscore.
pub open spec fn is_identifier_char(c: char) -> bool {
    is_ascii_alphanumeric_char(c) || c == '_'
}

/// ASCII letters and digits survive sanitization; every other character is
/// replaced by an underscore.
pub open spec fn sanitize_char(c: char) -> char {
    if is_ascii_alphanumeric_char(c) {
        c
    } else {
        '_'
    }
}

/// Character-by-character sanitization of a whole name.
pub open spec fn sanitized(s: Seq<char>) -> Seq<char> {
    s.map_values(|c: char| sanitize_char(c))
}

/// The fixed literal prefix of every produced identifier.
pub open spec fn identifier_prefix() -> Seq<char> {
    seq!['r', 'o', 's', '2', '_']
}

/// Number of characters the sanitized segment may keep once the prefix and
/// the checksum are accounted for; never negative.
pub open spec fn segment_budget(checksum_len: int) -> int {
    if identifier_prefix().len() + checksum_len >= MAX_IDENTIFIER_LENGTH as int {
        0
    } else {
        MAX_IDENTIFIER_LENGTH as int - identifier_prefix().len() - checksum_len
    }
}

/// The sanitized segment, truncated to the leading `budget` characters when
/// it is longer than that.
pub open spec fn truncated_sanitized(s: Seq<char>, budget: int) -> Seq<char> {
    if sanitized(s).len() > budget {
        sanitized(s).take(budget)
    } else {
        sanitized(s)
    }
}

/// The decimal checksum suffix of a name: the rolling checksum of the
/// name's raw UTF-8 bytes, rendered in decimal.
pub open spec fn checksum_suffix(s: Seq<char>) -> Seq<char> {
    decimal(checksum(encode_utf8(s)) as nat)
}

/// The identifier derived from a raw endpoint name: prefix, then the
/// sanitized name truncated to the remaining budget, then the checksum.
pub open spec fn spec_sanitize_and_checksum(s: Seq<char>) -> Seq<char> {
    identifier_prefix() + truncated_sanitized(s, segment_budget(checksum_suffix(s).len() as int))
        + checksum_suffix(s)
}

/// Shape of every derived identifier: whatever the input, the identifier
/// contains only ASCII letters, digits and underscores, starts with the
/// fixed prefix, ends with the decimal checksum of the input's raw bytes,
/// and is never longer than `MAX_IDENTIFIER_LENGTH` characters.
pub proof fn lemma_identifier_shape(s: Seq<char>)
    ensures
        spec_sanitize_and_checksum(s).len() <= MAX_IDENTIFIER_LENGTH,
        spec_sanitize_and_checksum(s).take(identifier_prefix().len() as int)
            == identifier_prefix(),
        spec_sanitize_and_checksum(s).skip(
            spec_sanitize_and_checksum(s).len() - checksum_suffix(s).len(),
        ) == checksum_suffix(s),
        forall|i: int|
            0 <= i < spec_sanitize_and_checksum(s).len() ==> is_identifier_char(
                #[trigger] spec_sanitize_and_checksum(s)[i],
            ),
{
    let r = spec_sanitize_and_checksum(s);
    let cs = checksum_suffix(s);
    let budget = segment_budget(cs.len() as int);
    let seg = truncated_sanitized(s, budget);
    lemma_checksum_in_range(encode_utf8(s));
    lemma_pow10_of_ten();
    lemma_decimal_len(checksum(encode_utf8(s)) as nat, 10);
    lemma_decimal_chars(checksum(encode_utf8(s)) as nat);
    assert(seg.len() <= budget);
    assert(r.take(identifier_prefix().len() as int) =~= identifier_prefix());
    assert(r.skip(r.len() - cs.len()) =~= cs);
    assert forall|i: int| 0 <= i < r.len() implies is_identifier_char(#[trigger] r[i]) by {
        if i < 5 {
            assert(r[i] == identifier_prefix()[i]);
        } else if i < 5 + seg.len() {
            assert(r[i] == seg[i - 5]);
            assert(seg[i - 5] == sanitize_char(s[i - 5]));
        } else {
            assert(r[i] == cs[i - 5 - seg.len()]);
            assert(is_decimal_digit_char(cs[i - 5 - seg.len()]));
        }
    }
}

/// Determinism: the derived identifier is a pure function of the input
/// name — equal inputs give equal identifiers, in this process or any
/// other.
pub proof fn lemma_sanitize_deterministic(s1: Seq<char>, s2: Seq<char>)
    requires
        s1 == s2,
    ensures
        spec_sanitize_and_checksum(s1) == spec_sanitize_and_checksum(s2),
{
}

/// Collision resistance: two names whose checksums render to the same
/// number of digits can only collide when both their sanitized-and-
/// truncated segments and their byte checksums agree — the checksum is a
/// last line of defense behind the lossy character pass.
pub proof fn lemma_collision_requires_full_match(s1: Seq<char>, s2: Seq<char>)
    requires
        spec_sanitize_and_checksum(s1) == spec_sanitize_and_checksum(s2),
        checksum_suffix(s1).len() == checksum_suffix(s2).len(),
    ensures
        checksum(encode_utf8(s1)) == checksum(encode_utf8(s2)),
        truncated_sanitized(s1, segment_budget(checksum_suffix(s1).len() as int))
            == truncated_sanitized(s2, segment_budget(checksum_suffix(s2).len() as int)),
{
    let r = spec_sanitize_and_checksum(s1);
    let cs1 = checksum_suffix(s1);
    let cs2 = checksum_suffix(s2);
    let seg1 = truncated_sanitized(s1, segment_budget(cs1.len() as int));
    let seg2 = truncated_sanitized(s2, segment_budget(cs2.len() as int));
    assert(identifier_prefix().len() == 5);
    assert(r.len() == 5 + seg1.len() + cs1.len());
    assert(spec_sanitize_and_checksum(s2).len() == 5 + seg2.len() + cs2.len());
    assert(5 + seg1.len() + cs1.len() == 5 + seg2.len() + cs2.len());
    assert(seg1.len() == seg2.len());
    assert(seg1 =~= seg2) by {
        assert forall|i: int| 0 <= i < seg1.len() implies seg1[i] == seg2[i] by {
            assert(seg1[i] == r[5 + i]);
            assert(seg2[i] == r[5 + i]);
        }
    }
    assert(cs1 =~= cs2) by {
        assert forall|i: int| 0 <= i < cs1.len() implies cs1[i] == cs2[i] by {
            assert(cs1[i] == r[5 + seg1.len() + i]);
            assert(cs2[i] == r[5 + seg2.len() + i]);
        }
    }
    lemma_checksum_in_range(encode_utf8(s1));
    lemma_checksum_in_range(encode_utf8(s2));
    lemma_decimal_injective(
        checksum(encode_utf8(s1)) as nat,
        checksum(encode_utf8(s2)) as nat,
    );
}

/// `c` survives sanitization unchanged exactly when it is an ASCII letter
/// or digit.
fn keep_char(c: char) -> (b: bool)
    ensures
        b == is_ascii_alphanumeric_char(c),
{
    let u = c as u32;
    (48 <= u && u <= 57) || (65 <= u && u <= 90) || (97 <= u && u <= 122)
}

/// Derive the downstream service identifier from a raw endpoint name.
///
/// The result is a pure function of the input: it starts with the fixed
/// prefix, continues with the input sanitized character by character and
/// truncated to the remaining budget, and ends with the decimal checksum
/// of the input's raw bytes. Its length never exceeds
/// `MAX_IDENTIFIER_LENGTH`.
pub fn sanitize_and_checksum(input: &str) -> (r: String)
    ensures
        r@ == spec_sanitize_and_checksum(input@),
        r@.len() <= MAX_IDENTIFIER_LENGTH,
{
    let n = input.unicode_len();
    let mut segment = String::new();
    let mut i: usize = 0;
    while i < n
        invariant
            n == input@.len(),
            i <= n,
            segment@ =~= sanitized(input@).take(i as int),
        decreases n - i,
    {
        let c = input.get_char(i);
        let kept = if keep_char(c) {
            c
        } else {
            '_'
        };
        push_char(&mut segment, kept);
        i = i + 1;
        proof {
            assert(segment@ =~= sanitized(input@).take(i as int));
        }
    }
    proof {
        assert(segment@ =~= sanitized(input@));
    }
    let bytes = input.as_bytes();
    let sum = checksum_of_bytes(bytes);
    let digits = u64_to_decimal(sum);
    let digits_len = digits.as_str().unicode_len();
    proof {
        lemma_pow10_of_ten();
        lemma_decimal_len(sum as nat, 10);
    }
    let budget: usize = if 5 + digits_len >= MAX_IDENTIFIER_LENGTH {
        0
    } else {
        MAX_IDENTIFIER_LENGTH - 5 - digits_len
    };
    proof {
        assert(budget as int == segment_budget(digits@.len() as int));
    }
    let segment_len = segment.as_str().unicode_len();
    let mut result = String::new();
    result.append("ros2_");
    if segment_len > budget {
        let truncated = segment.as_str().substring_char(0, budget);
        result.append(truncated);
    } else {
        result.append(segment.as_str());
    }
    result.append(digits.as_str());
    proof {
        reveal_strlit("ros2_");
        assert("ros2_"@ =~= identifier_prefix());
        assert(result@ =~= spec_sanitize_and_checksum(input@));
        lemma_identifier_shape(input@);
    }
    result
}

} // verus!
