//! Provider-facing identifier grammar, idempotency keys and digest identifiers.

use vstd::prelude::*;
use vstd::string::StringSliceAdditionalSpecFns;

use crate::text::{utf8};

verus! {

pub const MAX_MODEL_KEY_LENGTH: usize = 192;

pub const MAX_PROVIDER_MODEL_ID_LENGTH: usize = 192;

pub const MAX_PROVIDER_SESSION_ID_LENGTH: usize = 256;

pub const MAX_IDEMPOTENCY_KEY_LENGTH: usize = 160;

pub const AGENT_ATTEMPT_TASK_IDEMPOTENCY_PREFIX_V2: &'static str = "loomex-agent-attempt-v2:";

pub const AGENT_ATTEMPT_DELIVERY_IDEMPOTENCY_PREFIX_V2: &'static str = "loomex-agent-delivery-v2:";

pub const AGENT_PAYLOAD_DIGEST_PREFIX_V1: &'static str = "sha256:";

#[derive(Debug, Clone, Copy, PartialEq, Eq, Structural)]
pub enum CliIdentifierValidationError {
    Empty,
    TooLong { max: usize },
    UnsafeFirstCharacter,
    UnsafeCharacter { index: usize },
    TraversalLikeSegment,
}

pub open spec fn is_ascii_alnum(b: u8) -> bool {
    ||| (48 <= b && b <= 57)
    ||| (65 <= b && b <= 90)
    ||| (97 <= b && b <= 122)
}

/// Bytes allowed after the first: `[A-Za-z0-9._:/@+-]`.
pub open spec fn is_cli_tail_byte(b: u8) -> bool {
    ||| is_ascii_alnum(b)
    ||| b == 46
    ||| b == 95
    ||| b == 58
    ||| b == 47
    ||| b == 64
    ||| b == 43
    ||| b == 45
}

pub open spec fn is_unsafe_tail_index(b: Seq<u8>, i: int) -> bool {
    1 <= i < b.len() && !is_cli_tail_byte(b[i])
}

/// The least index past the first byte that holds a disallowed byte.
pub open spec fn first_unsafe_tail_index(b: Seq<u8>) -> int {
    choose|i: int|
        is_unsafe_tail_index(b, i) && forall|j: int| 1 <= j < i ==> #[trigger] is_cli_tail_byte(b[j])
}

pub open spec fn has_unsafe_tail(b: Seq<u8>) -> bool {
    exists|i: int| #[trigger] is_unsafe_tail_index(b, i)
}

/// `b[i..j]` is one of the pieces of `b` split at `/`.
pub open spec fn is_slash_segment(b: Seq<u8>, i: int, j: int) -> bool {
    &&& 0 <= i <= j <= b.len()
    &&& (i == 0 || b[i - 1] == 47)
    &&& (j == b.len() || b[j] == 47)
    &&& forall|k: int| i <= k < j ==> #[trigger] b[k] != 47
}

/// An empty, `.` or `..` piece.
pub open spec fn is_traversal_piece(b: Seq<u8>, i: int, j: int) -> bool {
    ||| j == i
    ||| (j == i + 1 && b[i] == 46)
    ||| (j == i + 2 && b[i] == 46 && b[i + 1] == 46)
}

pub open spec fn has_traversal_segment(b: Seq<u8>) -> bool {
    exists|i: int, j: int| #[trigger] is_slash_segment(b, i, j) && is_traversal_piece(b, i, j)
}

/// The character grammar `[A-Za-z0-9][A-Za-z0-9._:/@+-]*`, at most `max`
/// bytes; the first violation in that order is reported.
pub open spec fn cli_characters_result(b: Seq<u8>, max: usize) -> Result<(), CliIdentifierValidationError> {
    if b.len() == 0 {
        Err(CliIdentifierValidationError::Empty)
    } else if b.len() > max {
        Err(CliIdentifierValidationError::TooLong { max })
    } else if !is_ascii_alnum(b[0]) {
        Err(CliIdentifierValidationError::UnsafeFirstCharacter)
    } else if has_unsafe_tail(b) {
        Err(CliIdentifierValidationError::UnsafeCharacter { index: first_unsafe_tail_index(b) as usize })
    } else {
        Ok(())
    }
}

/// The character grammar and, beyond it, no empty, `.` or `..`
/// slash-delimited segment.
pub open spec fn cli_identifier_result(b: Seq<u8>, max: usize) -> Result<(), CliIdentifierValidationError> {
    match cli_characters_result(b, max) {
        Err(e) => Err(e),
        Ok(_) => if has_traversal_segment(b) {
            Err(CliIdentifierValidationError::TraversalLikeSegment)
        } else {
            Ok(())
        },
    }
}

/// The idempotency-key wire grammar `[A-Za-z0-9][A-Za-z0-9._:/@+-]{0,159}`:
/// the character grammar within the key length bound, with no segment rule.
pub open spec fn idempotency_key(s: Seq<char>) -> Result<(), CliIdentifierValidationError> {
    cli_characters_result(utf8(s), MAX_IDEMPOTENCY_KEY_LENGTH)
}

pub open spec fn cli_identifier(s: Seq<char>, max: usize) -> Result<(), CliIdentifierValidationError> {
    cli_identifier_result(utf8(s), max)
}

pub open spec fn is_cli_identifier(s: Seq<char>, max: usize) -> bool {
    cli_identifier(s, max) is Ok
}

fn byte_is_ascii_alnum(b: u8) -> (res: bool)
    ensures
        res == is_ascii_alnum(b),
{
    (48 <= b && b <= 57) || (65 <= b && b <= 90) || (97 <= b && b <= 122)
}

fn byte_is_cli_tail(b: u8) -> (res: bool)
    ensures
        res == is_cli_tail_byte(b),
{
    byte_is_ascii_alnum(b) || b == 46 || b == 95 || b == 58 || b == 47 || b == 64 || b == 43 || b
        == 45
}

/// Scans the pieces of `b` split at `/` for an empty, `.` or `..` piece.
fn scan_traversal_segment(b: &[u8]) -> (res: bool)
    ensures
        res == has_traversal_segment(b@),
{
    let n = b.len();
    let mut start: usize = 0;
    let mut pos: usize = 0;
    while pos < n
        invariant
            n == b@.len(),
            start <= pos <= n,
            start == 0 || b@[start - 1] == 47,
            forall|k: int| start <= k < pos ==> #[trigger] b@[k] != 47,
            forall|i: int, j: int|
                #![trigger is_slash_segment(b@, i, j)]
                j < pos && is_slash_segment(b@, i, j) ==> !is_traversal_piece(b@, i, j),
        decreases n - pos,
    {
        if b[pos] == 47 {
            if piece_is_traversal(b, start, pos) {
                return true;
            }
            start = pos + 1;
        }
        pos = pos + 1;
    }
    piece_is_traversal(b, start, n)
}

/// Checks the piece `b[start..end]`, which is the only piece ending at `end`.
fn piece_is_traversal(b: &[u8], start: usize, end: usize) -> (res: bool)
    requires
        start <= end <= b@.len(),
        start == 0 || b@[start - 1] == 47,
        end == b@.len() || b@[end as int] == 47,
        forall|k: int| start <= k < end ==> #[trigger] b@[k] != 47,
        forall|i: int, j: int|
            #![trigger is_slash_segment(b@, i, j)]
            j < end && is_slash_segment(b@, i, j) ==> !is_traversal_piece(b@, i, j),
    ensures
        res ==> has_traversal_segment(b@),
        !res ==> forall|i: int, j: int|
            #![trigger is_slash_segment(b@, i, j)]
            j <= end && is_slash_segment(b@, i, j) ==> !is_traversal_piece(b@, i, j),
        !res && end == b@.len() ==> !has_traversal_segment(b@),
{
    let len = end - start;
    let bad = len == 0 || (len == 1 && b[start] == 46) || (len == 2 && b[start] == 46 && b[start
        + 1] == 46);
    assert(is_slash_segment(b@, start as int, end as int));
    if bad {
        assert(is_traversal_piece(b@, start as int, end as int));
        return true;
    }
    assert forall|i: int, j: int|
        #![trigger is_slash_segment(b@, i, j)]
        j == end && is_slash_segment(b@, i, j) implies !is_traversal_piece(b@, i, j) by {
        if i < start {
            assert(b@[start - 1] != 47);
        } else if i > start {
            assert(b@[i - 1] != 47);
        }
    }
    false
}

/// Checks the character grammar and the length bound alone.
fn validate_cli_characters(value: &str, max: usize) -> (res: Result<
    (),
    CliIdentifierValidationError,
>)
    ensures
        res == cli_characters_result(utf8(value@), max),
{
    let b = value.as_bytes();
    let n = b.len();
    if n == 0 {
        return Err(CliIdentifierValidationError::Empty);
    }
    if n > max {
        return Err(CliIdentifierValidationError::TooLong { max });
    }
    if !byte_is_ascii_alnum(b[0]) {
        return Err(CliIdentifierValidationError::UnsafeFirstCharacter);
    }
    let mut index: usize = 1;
    while index < n
        invariant
            n == b@.len(),
            b@ == utf8(value@),
            0 < n <= max,
            is_ascii_alnum(b@[0]),
            1 <= index <= n,
            forall|j: int| 1 <= j < index ==> #[trigger] is_cli_tail_byte(b@[j]),
        decreases n - index,
    {
        if !byte_is_cli_tail(b[index]) {
            proof {
                assert(is_unsafe_tail_index(b@, index as int));
                let f = first_unsafe_tail_index(b@);
                assert(is_unsafe_tail_index(b@, f));
                if f < index {
                    assert(is_cli_tail_byte(b@[f]));
                } else if f > index {
                    assert(is_cli_tail_byte(b@[index as int]));
                }
                assert(f == index);
                assert(has_unsafe_tail(b@));
                assert(cli_characters_result(b@, max) == Err::<(), CliIdentifierValidationError>(
                    CliIdentifierValidationError::UnsafeCharacter { index }));
            }
            return Err(CliIdentifierValidationError::UnsafeCharacter { index });
        }
        index = index + 1;
    }
    assert(!has_unsafe_tail(b@));
    Ok(())
}

/// Validates a provider-facing identifier before it can be used in CLI argv.
///
/// Grammar: `[A-Za-z0-9][A-Za-z0-9._:/@+-]*`, bounded by `max` bytes. Empty,
/// `.`, and `..` slash-delimited segments are rejected in addition to the
/// character grammar. This validates one argv value; consumers must still pass
/// the value as a distinct argument and must not interpolate it into a shell
/// string.
pub fn validate_cli_identifier(value: &str, max: usize) -> (res: Result<
    (),
    CliIdentifierValidationError,
>)
    ensures
        res == cli_identifier(value@, max),
{
    validate_cli_characters(value, max)?;
    let b = value.as_bytes();
    proof {
        vstd::utf8::encode_utf8_decode_utf8(value@);
    }
    assert(b@ == utf8(value@));
    if scan_traversal_segment(b) {
        return Err(CliIdentifierValidationError::TraversalLikeSegment);
    }
    Ok(())
}

/// An accepted identifier is a safe argv value: it fits its bound, is not
/// flag-like, and holds no NUL, newline, space or other byte outside the
/// grammar.
pub proof fn lemma_accepted_identifier_is_safe_argv(s: Seq<char>, max: usize)
    requires
        is_cli_identifier(s, max),
    ensures
        0 < utf8(s).len() <= max,
        utf8(s)[0] != 45,
        forall|i: int|
            0 <= i < utf8(s).len() ==> #[trigger] utf8(s)[i] != 0 && utf8(s)[i] != 10
                && utf8(s)[i] != 32 && utf8(s)[i] < 128,
{
    let b = utf8(s);
    assert forall|i: int| 0 <= i < b.len() implies #[trigger] b[i] != 0 && b[i] != 10 && b[i]
        != 32 && b[i] < 128 by {
        if i > 0 {
            assert(!is_unsafe_tail_index(b, i));
        }
    }
}

/// Validates the stable task idempotency domain shared with the Backend.
///
/// Wire grammar: `[A-Za-z0-9][A-Za-z0-9._:/@+-]{0,159}`. The byte-oriented
/// ASCII grammar excludes whitespace, control characters, NUL, and leading
/// flag-like punctuation while preserving common workflow domain separators.
/// Slash-delimited segments are not restricted: `run/`, `a//b` and `a/./b`
/// are keys of this grammar.
pub fn validate_idempotency_key(value: &str) -> (res: Result<(), CliIdentifierValidationError>)
    ensures
        res == idempotency_key(value@),
{
    validate_cli_characters(value, MAX_IDEMPOTENCY_KEY_LENGTH)
}

#[derive(Debug, Clone, Copy, PartialEq, Eq, Structural)]
pub enum AgentDigestIdentifierValidationError {
    WrongPrefix,
    InvalidSha256Hex,
}

/// A lowercase hexadecimal digit `[0-9a-f]`.
pub open spec fn is_lower_hex_byte(b: u8) -> bool {
    (48 <= b && b <= 57) || (97 <= b && b <= 102)
}

/// Exactly 64 lowercase hexadecimal digits.
pub open spec fn is_lower_hex_sha256(d: Seq<u8>) -> bool {
    d.len() == 64 && forall|i: int| 0 <= i < d.len() ==> #[trigger] is_lower_hex_byte(d[i])
}

pub open spec fn prefixed_sha256_result(v: Seq<u8>, prefix: Seq<u8>) -> Result<
    (),
    AgentDigestIdentifierValidationError,
> {
    if !(prefix.len() <= v.len() && v.subrange(0, prefix.len() as int) == prefix) {
        Err(AgentDigestIdentifierValidationError::WrongPrefix)
    } else if !is_lower_hex_sha256(v.skip(prefix.len() as int)) {
        Err(AgentDigestIdentifierValidationError::InvalidSha256Hex)
    } else {
        Ok(())
    }
}

/// `value` is `prefix` followed by a lowercase hex SHA-256 digest.
pub open spec fn prefixed_sha256(value: Seq<char>, prefix: Seq<char>) -> Result<
    (),
    AgentDigestIdentifierValidationError,
> {
    prefixed_sha256_result(utf8(value), utf8(prefix))
}

fn validate_prefixed_sha256(value: &str, prefix: &str) -> (res: Result<
    (),
    AgentDigestIdentifierValidationError,
>)
    ensures
        res == prefixed_sha256(value@, prefix@),
{
    let v = value.as_bytes();
    let p = prefix.as_bytes();
    if p.len() > v.len() {
        return Err(AgentDigestIdentifierValidationError::WrongPrefix);
    }
    let mut i: usize = 0;
    while i < p.len()
        invariant
            v@ == utf8(value@),
            p@ == utf8(prefix@),
            p@.len() <= v@.len(),
            i <= p@.len(),
            forall|j: int| 0 <= j < i ==> v@[j] == p@[j],
        decreases p@.len() - i,
    {
        if v[i] != p[i] {
            assert(v@.subrange(0, p@.len() as int)[i as int] != p@[i as int]);
            assert(v@.subrange(0, p@.len() as int) != p@);
            return Err(AgentDigestIdentifierValidationError::WrongPrefix);
        }
        i = i + 1;
    }
    assert(v@.subrange(0, p@.len() as int) =~= p@);
    let start = p.len();
    if v.len() - start != 64 {
        return Err(AgentDigestIdentifierValidationError::InvalidSha256Hex);
    }
    let mut k: usize = start;
    while k < v.len()
        invariant
            v@ == utf8(value@),
            p@ == utf8(prefix@),
            v@.subrange(0, p@.len() as int) == p@,
            start == p@.len(),
            start <= k <= v@.len(),
            v@.len() - start == 64,
            forall|j: int| start <= j < k ==> #[trigger] is_lower_hex_byte(v@[j]),
        decreases v@.len() - k,
    {
        let b = v[k];
        if !((48 <= b && b <= 57) || (97 <= b && b <= 102)) {
            assert(v@.skip(start as int)[k - start] == b);
            assert(!is_lower_hex_byte(v@.skip(start as int)[k - start]));
            return Err(AgentDigestIdentifierValidationError::InvalidSha256Hex);
        }
        k = k + 1;
    }
    assert forall|j: int| 0 <= j < v@.skip(start as int).len() implies #[trigger] is_lower_hex_byte(
        v@.skip(start as int)[j],
    ) by {
        assert(v@.skip(start as int)[j] == v@[start + j]);
    }
    Ok(())
}

pub fn validate_agent_attempt_task_idempotency_key(value: &str) -> (res: Result<
    (),
    AgentDigestIdentifierValidationError,
>)
    ensures
        res == prefixed_sha256(value@, AGENT_ATTEMPT_TASK_IDEMPOTENCY_PREFIX_V2@),
{
    validate_prefixed_sha256(value, AGENT_ATTEMPT_TASK_IDEMPOTENCY_PREFIX_V2)
}

pub fn validate_agent_attempt_delivery_idempotency_key(value: &str) -> (res: Result<
    (),
    AgentDigestIdentifierValidationError,
>)
    ensures
        res == prefixed_sha256(value@, AGENT_ATTEMPT_DELIVERY_IDEMPOTENCY_PREFIX_V2@),
{
    validate_prefixed_sha256(value, AGENT_ATTEMPT_DELIVERY_IDEMPOTENCY_PREFIX_V2)
}

pub fn validate_agent_payload_digest(value: &str) -> (res: Result<
    (),
    AgentDigestIdentifierValidationError,
>)
    ensures
        res == prefixed_sha256(value@, AGENT_PAYLOAD_DIGEST_PREFIX_V1@),
{
    validate_prefixed_sha256(value, AGENT_PAYLOAD_DIGEST_PREFIX_V1)
}

/// Decimal ASCII digits of `n`, most significant first, as `u32::to_string`
/// writes them.
pub open spec fn decimal_digits(n: nat) -> Seq<u8>
    decreases n,
{
    if n < 10 {
        seq![(48 + n) as u8]
    } else {
        decimal_digits(n / 10).push((48 + n % 10) as u8)
    }
}

fn push_decimal_digits(out: &mut Vec<u8>, n: u32)
    ensures
        final(out)@ == old(out)@ + decimal_digits(n as nat),
    decreases n,
{
    if n < 10 {
        out.push((48 + n) as u8);
        assert(old(out)@.push((48 + n) as u8) =~= old(out)@ + decimal_digits(n as nat));
    } else {
        push_decimal_digits(out, n / 10);
        out.push((48 + n % 10) as u8);
        assert(old(out)@ + decimal_digits((n / 10) as nat) + seq![(48 + n % 10) as u8]
            =~= old(out)@ + decimal_digits(n as nat));
    }
}

/// `domain \0 execution_id \0 decimal(attempt_number)`.
pub open spec fn attempt_hash_preimage(domain: Seq<char>, execution_id: Seq<char>, attempt_number: u32) -> Seq<u8> {
    utf8(domain) + seq![0u8] + utf8(execution_id) + seq![0u8] + decimal_digits(attempt_number as nat)
}

fn extend_from_bytes(out: &mut Vec<u8>, bytes: &[u8])
    ensures
        final(out)@ == old(out)@ + bytes@,
{
    let mut i: usize = 0;
    while i < bytes.len()
        invariant
            i <= bytes@.len(),
            out@ == old(out)@ + bytes@.subrange(0, i as int),
        decreases bytes@.len() - i,
    {
        out.push(bytes[i]);
        assert(bytes@.subrange(0, i as int).push(bytes@[i as int]) =~= bytes@.subrange(
            0,
            i + 1,
        ));
        i = i + 1;
    }
    assert(bytes@.subrange(0, bytes@.len() as int) =~= bytes@);
}

fn agent_attempt_hash_preimage(domain: &str, execution_id: &str, attempt_number: u32) -> (res: Vec<
    u8,
>)
    ensures
        res@ == attempt_hash_preimage(domain@, execution_id@, attempt_number),
{
    let mut preimage: Vec<u8> = Vec::new();
    extend_from_bytes(&mut preimage, domain.as_bytes());
    preimage.push(0);
    extend_from_bytes(&mut preimage, execution_id.as_bytes());
    preimage.push(0);
    push_decimal_digits(&mut preimage, attempt_number);
    assert(preimage@ =~= attempt_hash_preimage(domain@, execution_id@, attempt_number));
    preimage
}

/// No character of `s` is NUL (code point 0).
pub open spec fn has_no_nul(s: Seq<char>) -> bool {
    forall|i: int| 0 <= i < s.len() ==> #[trigger] (s[i] as u32) != 0
}

proof fn lemma_encode_scalar_has_no_zero_byte(scalar: u32)
    requires
        vstd::utf8::is_scalar(scalar),
        scalar != 0,
    ensures
        !vstd::utf8::encode_scalar(scalar).contains(0u8),
{
    let e = vstd::utf8::encode_scalar(scalar);
    assert(scalar <= 0x7F ==> (scalar & 0x7F) as u8 != 0) by (bit_vector)
        requires
            scalar != 0,
    ;
    assert(0xC0u8 | ((scalar >> 6) & 0x1F) as u8 != 0) by (bit_vector);
    assert(0xE0u8 | ((scalar >> 12) & 0x0F) as u8 != 0) by (bit_vector);
    assert(0xF0u8 | ((scalar >> 18) & 0x7) as u8 != 0) by (bit_vector);
    assert(0x80u8 | (scalar & 0x3F) as u8 != 0) by (bit_vector);
    assert(0x80u8 | ((scalar >> 6) & 0x3F) as u8 != 0) by (bit_vector);
    assert(0x80u8 | ((scalar >> 12) & 0x3F) as u8 != 0) by (bit_vector);
    assert forall|i: int| 0 <= i < e.len() implies e[i] != 0u8 by {}
}

/// Text with no NUL character encodes to bytes with no zero byte.
proof fn lemma_utf8_of_text_without_nul(s: Seq<char>)
    requires
        has_no_nul(s),
    ensures
        !utf8(s).contains(0u8),
    decreases s.len(),
{
    if s.len() > 0 {
        vstd::utf8::char_is_scalar(s[0]);
        lemma_encode_scalar_has_no_zero_byte(s[0] as u32);
        assert(has_no_nul(s.drop_first())) by {
            assert forall|i: int| 0 <= i < s.drop_first().len() implies (#[trigger] s.drop_first()[i]
                as u32) != 0 by {
                assert(s.drop_first()[i] == s[i + 1]);
            }
        }
        lemma_utf8_of_text_without_nul(s.drop_first());
        let head = vstd::utf8::encode_scalar(s[0] as u32);
        let rest = utf8(s.drop_first());
        assert(utf8(s) == head + rest);
        assert forall|i: int| 0 <= i < utf8(s).len() implies utf8(s)[i] != 0u8 by {
            if i < head.len() {
                assert(utf8(s)[i] == head[i]);
            } else {
                assert(utf8(s)[i] == rest[i - head.len()]);
            }
        }
    }
}

proof fn lemma_decimal_digits_shape(n: nat)
    ensures
        decimal_digits(n).len() >= 1,
        n >= 10 ==> decimal_digits(n).len() >= 2,
        forall|i: int|
            0 <= i < decimal_digits(n).len() ==> 48 <= #[trigger] decimal_digits(n)[i] <= 57,
    decreases n,
{
    if n >= 10 {
        lemma_decimal_digits_shape(n / 10);
    }
}

/// Distinct numbers have distinct decimal digits.
proof fn lemma_decimal_digits_injective(n: nat, m: nat)
    requires
        decimal_digits(n) == decimal_digits(m),
    ensures
        n == m,
    decreases n,
{
    lemma_decimal_digits_shape(n);
    lemma_decimal_digits_shape(m);
    if n >= 10 && m >= 10 {
        let a = decimal_digits(n);
        assert(a.drop_last() =~= decimal_digits(n / 10));
        assert(decimal_digits(m).drop_last() =~= decimal_digits(m / 10));
        lemma_decimal_digits_injective(n / 10, m / 10);
        assert(a.last() == (48 + n % 10) as u8);
        assert(decimal_digits(m).last() == (48 + m % 10) as u8);
        assert(n % 10 == m % 10);
        assert(n == 10 * (n / 10) + n % 10) by (nonlinear_arith);
        assert(m == 10 * (m / 10) + m % 10) by (nonlinear_arith);
    } else if n < 10 && m < 10 {
        assert(decimal_digits(n)[0] == (48 + n) as u8);
        assert(decimal_digits(m)[0] == (48 + m) as u8);
    }
}

/// Two byte strings with no zero byte, each followed by a zero byte and a
/// rest, split back into equal parts.
proof fn lemma_split_at_zero(a1: Seq<u8>, r1: Seq<u8>, a2: Seq<u8>, r2: Seq<u8>)
    requires
        !a1.contains(0u8),
        !a2.contains(0u8),
        a1 + seq![0u8] + r1 == a2 + seq![0u8] + r2,
    ensures
        a1 == a2,
        r1 == r2,
{
    let p = a1 + seq![0u8] + r1;
    if a1.len() < a2.len() {
        assert(p[a1.len() as int] == 0u8);
        assert(a2[a1.len() as int] == 0u8);
    } else if a2.len() < a1.len() {
        assert(p[a2.len() as int] == 0u8);
        assert(a1[a2.len() as int] == 0u8);
    }
    assert(a1 =~= p.subrange(0, a1.len() as int));
    assert(a2 =~= p.subrange(0, a2.len() as int));
    assert(r1 =~= p.skip(a1.len() + 1int));
    assert(r2 =~= p.skip(a2.len() + 1int));
}

/// With a domain and an execution ID that hold no NUL character, the
/// preimage holds exactly two zero bytes, one after the domain and one after
/// the execution ID, so that splitting it at its zero bytes gives back the
/// domain, the execution ID and the decimal attempt number.
pub proof fn lemma_attempt_hash_preimage_splits(domain: Seq<char>, execution_id: Seq<char>, attempt_number: u32)
    requires
        has_no_nul(domain),
        has_no_nul(execution_id),
    ensures
        ({
            let p = attempt_hash_preimage(domain, execution_id, attempt_number);
            let i = utf8(domain).len() as int;
            let j = i + 1 + utf8(execution_id).len();
            &&& p[i] == 0u8
            &&& p[j] == 0u8
            &&& forall|k: int| 0 <= k < p.len() && k != i && k != j ==> #[trigger] p[k] != 0u8
            &&& p.subrange(0, i) == utf8(domain)
            &&& p.subrange(i + 1, j) == utf8(execution_id)
            &&& p.skip(j + 1) == decimal_digits(attempt_number as nat)
        }),
{
    lemma_utf8_of_text_without_nul(domain);
    lemma_utf8_of_text_without_nul(execution_id);
    lemma_decimal_digits_shape(attempt_number as nat);
    let p = attempt_hash_preimage(domain, execution_id, attempt_number);
    let (a, b, c) = (utf8(domain), utf8(execution_id), decimal_digits(attempt_number as nat));
    let i = a.len() as int;
    let j = i + 1 + b.len();
    assert(p =~= a + seq![0u8] + b + seq![0u8] + c);
    assert forall|k: int| 0 <= k < p.len() && k != i && k != j implies #[trigger] p[k] != 0u8 by {
        if k < i {
            assert(p[k] == a[k]);
        } else if k < j {
            assert(p[k] == b[k - i - 1]);
        } else {
            assert(p[k] == c[k - j - 1]);
        }
    }
    assert(p.subrange(0, i) =~= a);
    assert(p.subrange(i + 1, j) =~= b);
    assert(p.skip(j + 1) =~= c);
}

/// The preimage splits at its two NUL bytes back into its parts: with a
/// domain and an execution ID that hold no NUL character, equal preimages
/// come from the same domain, execution ID and attempt number.
pub proof fn lemma_attempt_hash_preimage_injective(
    d1: Seq<char>,
    e1: Seq<char>,
    n1: u32,
    d2: Seq<char>,
    e2: Seq<char>,
    n2: u32,
)
    requires
        has_no_nul(d1),
        has_no_nul(e1),
        has_no_nul(d2),
        has_no_nul(e2),
        attempt_hash_preimage(d1, e1, n1) == attempt_hash_preimage(d2, e2, n2),
    ensures
        d1 == d2,
        e1 == e2,
        n1 == n2,
{
    lemma_utf8_of_text_without_nul(d1);
    lemma_utf8_of_text_without_nul(e1);
    lemma_utf8_of_text_without_nul(d2);
    lemma_utf8_of_text_without_nul(e2);
    let r1 = utf8(e1) + seq![0u8] + decimal_digits(n1 as nat);
    let r2 = utf8(e2) + seq![0u8] + decimal_digits(n2 as nat);
    assert(attempt_hash_preimage(d1, e1, n1) =~= utf8(d1) + seq![0u8] + r1);
    assert(attempt_hash_preimage(d2, e2, n2) =~= utf8(d2) + seq![0u8] + r2);
    lemma_split_at_zero(utf8(d1), r1, utf8(d2), r2);
    lemma_split_at_zero(utf8(e1), decimal_digits(n1 as nat), utf8(e2), decimal_digits(n2 as nat));
    lemma_decimal_digits_injective(n1 as nat, n2 as nat);
    vstd::utf8::encode_utf8_decode_utf8(d1);
    vstd::utf8::encode_utf8_decode_utf8(d2);
    vstd::utf8::encode_utf8_decode_utf8(e1);
    vstd::utf8::encode_utf8_decode_utf8(e2);
}

pub const AGENT_ATTEMPT_TASK_DOMAIN_V2: &'static str = "loomex.agent-attempt/v2";

pub const AGENT_ATTEMPT_DELIVERY_DOMAIN_V2: &'static str = "loomex.agent-delivery/v2";

/// Exact SHA-256 preimage for `taskIdempotencyKey`.
pub fn agent_attempt_task_idempotency_preimage(execution_id: &str, attempt_number: u32) -> (res: Vec<
    u8,
>)
    ensures
        res@ == attempt_hash_preimage(AGENT_ATTEMPT_TASK_DOMAIN_V2@, execution_id@, attempt_number),
{
    agent_attempt_hash_preimage(AGENT_ATTEMPT_TASK_DOMAIN_V2, execution_id, attempt_number)
}

/// Exact SHA-256 preimage for `deliveryIdempotencyKey`.
pub fn agent_attempt_delivery_idempotency_preimage(execution_id: &str, attempt_number: u32) -> (res:
    Vec<u8>)
    ensures
        res@ == attempt_hash_preimage(
            AGENT_ATTEMPT_DELIVERY_DOMAIN_V2@,
            execution_id@,
            attempt_number,
        ),
{
    agent_attempt_hash_preimage(AGENT_ATTEMPT_DELIVERY_DOMAIN_V2, execution_id, attempt_number)
}

/// A task preimage never equals a delivery preimage, whatever the execution
/// IDs (without NUL) and attempt numbers: the two domains differ.
pub proof fn lemma_task_and_delivery_preimages_differ(
    task_execution_id: Seq<char>,
    task_attempt: u32,
    delivery_execution_id: Seq<char>,
    delivery_attempt: u32,
)
    requires
        has_no_nul(task_execution_id),
        has_no_nul(delivery_execution_id),
    ensures
        attempt_hash_preimage(AGENT_ATTEMPT_TASK_DOMAIN_V2@, task_execution_id, task_attempt)
            != attempt_hash_preimage(
            AGENT_ATTEMPT_DELIVERY_DOMAIN_V2@,
            delivery_execution_id,
            delivery_attempt,
        ),
{
    reveal_strlit("loomex.agent-attempt/v2");
    reveal_strlit("loomex.agent-delivery/v2");
    assert(AGENT_ATTEMPT_TASK_DOMAIN_V2@.len() != AGENT_ATTEMPT_DELIVERY_DOMAIN_V2@.len());
    if attempt_hash_preimage(AGENT_ATTEMPT_TASK_DOMAIN_V2@, task_execution_id, task_attempt)
        == attempt_hash_preimage(
        AGENT_ATTEMPT_DELIVERY_DOMAIN_V2@,
        delivery_execution_id,
        delivery_attempt,
    ) {
        lemma_attempt_hash_preimage_injective(
            AGENT_ATTEMPT_TASK_DOMAIN_V2@,
            task_execution_id,
            task_attempt,
            AGENT_ATTEMPT_DELIVERY_DOMAIN_V2@,
            delivery_execution_id,
            delivery_attempt,
        );
    }
}

} // verus!
