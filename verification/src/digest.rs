//! RFC 8785/JCS canonical JSON and the SHA-256 payload digest text.

use sha2::Digest;
use vstd::prelude::*;
use vstd::string::StringExecFns;
use vstd::string::StringSliceAdditionalSpecFns;

use crate::ids::{
    is_lower_hex_byte, is_lower_hex_sha256, prefixed_sha256, prefixed_sha256_result,
    AGENT_PAYLOAD_DIGEST_PREFIX_V1,
};
use crate::text::utf8;

verus! {

/// What `sha2::Sha256::digest` returns for the given bytes.
pub uninterp spec fn sha256_of(data: Seq<u8>) -> Seq<u8>;

/// What `serde_json_canonicalizer::pipe` returns for the given JSON text:
/// `None` where it fails.
pub uninterp spec fn jcs_canonical_text(json: Seq<char>) -> Option<Seq<char>>;

#[verifier::external_type_specification]
#[verifier::external_body]
pub struct ExSerdeJsonError(serde_json::Error);

/// Calls `sha2::Sha256::digest`. The contract claims that the 32-byte output
/// (its `OutputSize` is `U32`) is a function of the input bytes alone.
#[verifier::external_body]
fn sha256(data: &[u8]) -> (res: Vec<u8>)
    ensures
        res@ == sha256_of(data@),
        res@.len() == 32,
{
    sha2::Sha256::digest(data).to_vec()
}

/// Calls `serde_json_canonicalizer::pipe`, which parses JSON text with
/// `serde_json` and writes it back in RFC 8785 canonical form. The contract
/// claims only that success and the output depend on the input text alone.
#[verifier::external_body]
fn jcs_pipe(json: &str) -> (res: Result<String, serde_json::Error>)
    ensures
        res is Ok <==> jcs_canonical_text(json@) is Some,
        res matches Ok(text) ==> jcs_canonical_text(json@) == Some(text@),
{
    serde_json_canonicalizer::pipe(json)
}

/// The JSON text handed to canonicalization is not valid JSON for it.
#[derive(Debug, Clone, Copy, PartialEq, Eq, Structural)]
pub enum AgentPayloadCanonicalizationError {
    InvalidJson,
}

/// Canonicalizes JSON text with RFC 8785/JCS.
pub fn canonicalize_agent_payload_json(json: &str) -> (res: Result<
    String,
    AgentPayloadCanonicalizationError,
>)
    ensures
        res is Ok <==> jcs_canonical_text(json@) is Some,
        res matches Ok(text) ==> jcs_canonical_text(json@) == Some(text@),
{
    match jcs_pipe(json) {
        Ok(text) => Ok(text),
        Err(_) => Err(AgentPayloadCanonicalizationError::InvalidJson),
    }
}

/// The lowercase hexadecimal digit for `n < 16`.
pub open spec fn hex_digit(n: int) -> char {
    if n < 10 {
        (48 + n) as char
    } else {
        (87 + n) as char
    }
}

/// Two lowercase hexadecimal digits per byte, high nibble first, as the
/// `{:x}` formatting of a digest writes them.
pub open spec fn lower_hex(bytes: Seq<u8>) -> Seq<char> {
    Seq::new(
        2 * bytes.len(),
        |i: int|
            if i % 2 == 0 {
                hex_digit(bytes[i / 2] as int / 16)
            } else {
                hex_digit(bytes[i / 2] as int % 16)
            },
    )
}

/// `sha256:` followed by the lowercase hex SHA-256 of the canonical text's
/// UTF-8 bytes.
pub open spec fn payload_digest_text(canonical: Seq<char>) -> Seq<char> {
    AGENT_PAYLOAD_DIGEST_PREFIX_V1@ + lower_hex(sha256_of(utf8(canonical)))
}

/// The payload digest of a JSON text: its canonical form hashed, or `None`
/// where canonicalization fails.
pub open spec fn payload_digest_of_json(json: Seq<char>) -> Option<Seq<char>> {
    match jcs_canonical_text(json) {
        Some(canonical) => Some(payload_digest_text(canonical)),
        None => None,
    }
}

fn hex_digit_str(n: u8) -> (res: &'static str)
    requires
        n < 16,
    ensures
        res@ == seq![hex_digit(n as int)],
{
    proof {
        reveal_strlit("0");
        reveal_strlit("1");
        reveal_strlit("2");
        reveal_strlit("3");
        reveal_strlit("4");
        reveal_strlit("5");
        reveal_strlit("6");
        reveal_strlit("7");
        reveal_strlit("8");
        reveal_strlit("9");
        reveal_strlit("a");
        reveal_strlit("b");
        reveal_strlit("c");
        reveal_strlit("d");
        reveal_strlit("e");
        reveal_strlit("f");
    }
    let r = if n == 0 {
        "0"
    } else if n == 1 {
        "1"
    } else if n == 2 {
        "2"
    } else if n == 3 {
        "3"
    } else if n == 4 {
        "4"
    } else if n == 5 {
        "5"
    } else if n == 6 {
        "6"
    } else if n == 7 {
        "7"
    } else if n == 8 {
        "8"
    } else if n == 9 {
        "9"
    } else if n == 10 {
        "a"
    } else if n == 11 {
        "b"
    } else if n == 12 {
        "c"
    } else if n == 13 {
        "d"
    } else if n == 14 {
        "e"
    } else {
        "f"
    };
    assert(r@ =~= seq![hex_digit(n as int)]);
    r
}

fn append_lower_hex(out: &mut String, bytes: &[u8])
    ensures
        final(out)@ == old(out)@ + lower_hex(bytes@),
{
    let ghost start = out@;
    let mut i: usize = 0;
    while i < bytes.len()
        invariant
            i <= bytes@.len(),
            out@ == start + lower_hex(bytes@.subrange(0, i as int)),
        decreases bytes@.len() - i,
    {
        let b = bytes[i];
        out.append(hex_digit_str(b / 16));
        out.append(hex_digit_str(b % 16));
        assert(lower_hex(bytes@.subrange(0, i as int)) + seq![
            hex_digit(b as int / 16),
            hex_digit(b as int % 16),
        ] =~= lower_hex(bytes@.subrange(0, i + 1)));
        i = i + 1;
    }
    assert(bytes@.subrange(0, bytes@.len() as int) =~= bytes@);
}

/// The payload digest text of canonical JSON.
pub fn payload_digest_of_canonical(canonical: &str) -> (res: String)
    ensures
        res@ == payload_digest_text(canonical@),
        prefixed_sha256(res@, AGENT_PAYLOAD_DIGEST_PREFIX_V1@) is Ok,
{
    let hash = sha256(canonical.as_bytes());
    proof {
        lemma_payload_digest_is_well_formed(canonical@);
    }
    let mut out = String::from_str(AGENT_PAYLOAD_DIGEST_PREFIX_V1);
    append_lower_hex(&mut out, hash.as_slice());
    out
}

/// Canonicalizes the JSON text, then digests it.
pub fn payload_digest_of_json_text(json: &str) -> (res: Result<
    String,
    AgentPayloadCanonicalizationError,
>)
    ensures
        res is Ok <==> payload_digest_of_json(json@) is Some,
        res matches Ok(text) ==> payload_digest_of_json(json@) == Some(text@),
        res matches Ok(text) ==> prefixed_sha256(text@, AGENT_PAYLOAD_DIGEST_PREFIX_V1@) is Ok,
{
    let canonical = canonicalize_agent_payload_json(json)?;
    Ok(payload_digest_of_canonical(canonical.as_str()))
}

proof fn lemma_hex_digit_is_lower_hex(n: int)
    requires
        0 <= n < 16,
    ensures
        '\0' <= hex_digit(n) <= '\u{7f}',
        is_lower_hex_byte(hex_digit(n) as u8),
{
}

/// Every digest this library computes is well-formed: `sha256:` and 64
/// lowercase hexadecimal digits, as `validate_agent_payload_digest` accepts.
pub proof fn lemma_payload_digest_is_well_formed(canonical: Seq<char>)
    requires
        sha256_of(utf8(canonical)).len() == 32,
    ensures
        prefixed_sha256(payload_digest_text(canonical), AGENT_PAYLOAD_DIGEST_PREFIX_V1@) is Ok,
{
    reveal_strlit("sha256:");
    let p = AGENT_PAYLOAD_DIGEST_PREFIX_V1@;
    let h = sha256_of(utf8(canonical));
    let hex = lower_hex(h);
    let text = payload_digest_text(canonical);
    assert forall|i: int| 0 <= i < hex.len() implies '\0' <= #[trigger] hex[i] <= '\u{7f}' by {
        lemma_hex_digit_is_lower_hex(h[i / 2] as int / 16);
        lemma_hex_digit_is_lower_hex(h[i / 2] as int % 16);
    }
    assert(vstd::utf8::is_ascii_chars(p));
    assert(vstd::utf8::is_ascii_chars(hex));
    assert forall|i: int| 0 <= i < text.len() implies '\0' <= #[trigger] text[i] <= '\u{7f}' by {
        if i < p.len() {
            assert(text[i] == p[i]);
        } else {
            assert(text[i] == hex[i - p.len()]);
        }
    }
    assert(vstd::utf8::is_ascii_chars(text));
    vstd::utf8::is_ascii_chars_encode_utf8(text);
    vstd::utf8::is_ascii_chars_encode_utf8(p);
    let v = utf8(text);
    let pb = utf8(p);
    assert(v.subrange(0, pb.len() as int) =~= pb) by {
        assert forall|i: int| 0 <= i < pb.len() implies v.subrange(0, pb.len() as int)[i] == pb[i] by {
            assert(text[i] == p[i]);
        }
    }
    let d = v.skip(pb.len() as int);
    assert(d.len() == 64);
    assert forall|i: int| 0 <= i < d.len() implies #[trigger] is_lower_hex_byte(d[i]) by {
        assert(d[i] == v[i + pb.len()]);
        assert(v[i + pb.len()] == text[i + p.len()] as u8);
        assert(text[i + p.len()] == hex[i]);
        lemma_hex_digit_is_lower_hex(h[i / 2] as int / 16);
        lemma_hex_digit_is_lower_hex(h[i / 2] as int % 16);
    }
    assert(is_lower_hex_sha256(d));
    assert(prefixed_sha256_result(v, pb) is Ok);
}

} // verus!
