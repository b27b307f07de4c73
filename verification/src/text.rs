//! Character- and byte-level predicates shared by the wire validators.

use vstd::prelude::*;
use vstd::string::StringSliceAdditionalSpecFns;

verus! {

/// The Unicode `White_Space` property, which `char::is_whitespace` and
/// therefore `str::trim` follow.
pub open spec fn is_whitespace_char(c: char) -> bool {
    let u = c as u32;
    ||| (0x09 <= u && u <= 0x0d)
    ||| u == 0x20
    ||| u == 0x85
    ||| u == 0xa0
    ||| u == 0x1680
    ||| (0x2000 <= u && u <= 0x200a)
    ||| u == 0x2028
    ||| u == 0x2029
    ||| u == 0x202f
    ||| u == 0x205f
    ||| u == 0x3000
}

/// A string is blank when trimming its whitespace leaves nothing.
pub open spec fn is_blank(s: Seq<char>) -> bool {
    forall|i: int| 0 <= i < s.len() ==> #[trigger] is_whitespace_char(s[i])
}

pub fn char_is_whitespace(c: char) -> (res: bool)
    ensures
        res == is_whitespace_char(c),
{
    let u = c as u32;
    (0x09 <= u && u <= 0x0d) || u == 0x20 || u == 0x85 || u == 0xa0 || u == 0x1680 || (0x2000
        <= u && u <= 0x200a) || u == 0x2028 || u == 0x2029 || u == 0x202f || u == 0x205f || u
        == 0x3000
}

/// `value.trim().is_empty()`.
pub fn blank(value: &str) -> (res: bool)
    ensures
        res == is_blank(value@),
{
    for c in it: value.chars()
        invariant
            it.seq() == value@,
            forall|j: int| 0 <= j < it.index() ==> #[trigger] is_whitespace_char(value@[j]),
    {
        if !char_is_whitespace(c) {
            return false;
        }
    }
    true
}

/// Content equality of two string slices.
pub fn str_eq(a: &str, b: &str) -> (res: bool)
    ensures
        res == (a@ == b@),
{
    let x = a.as_bytes();
    let y = b.as_bytes();
    proof {
        vstd::utf8::encode_utf8_decode_utf8(a@);
        vstd::utf8::encode_utf8_decode_utf8(b@);
    }
    if x.len() != y.len() {
        return false;
    }
    let mut i: usize = 0;
    while i < x.len()
        invariant
            x@ == a.spec_bytes(),
            y@ == b.spec_bytes(),
            x@.len() == y@.len(),
            i <= x@.len(),
            forall|j: int| 0 <= j < i ==> x@[j] == y@[j],
        decreases x@.len() - i,
    {
        if x[i] != y[i] {
            return false;
        }
        i = i + 1;
    }
    assert(x@ =~= y@);
    true
}


/// The UTF-8 bytes of a string's characters.
pub open spec fn utf8(s: Seq<char>) -> Seq<u8> {
    vstd::utf8::encode_utf8(s)
}

/// Content of an optional string.
pub open spec fn opt_view(o: Option<String>) -> Option<Seq<char>> {
    match o {
        Some(s) => Some(s@),
        None => None,
    }
}

/// Content equality of two optional strings.
pub fn opt_str_eq(a: &Option<String>, b: &Option<String>) -> (res: bool)
    ensures
        res == (opt_view(*a) == opt_view(*b)),
{
    match (a, b) {
        (Some(x), Some(y)) => str_eq(x.as_str(), y.as_str()),
        (None, None) => true,
        _ => false,
    }
}

/// `true` when an optional string is present and not blank.
pub open spec fn present_non_blank(o: Option<String>) -> bool {
    match o {
        Some(s) => !is_blank(s@),
        None => false,
    }
}

pub fn opt_present_non_blank(o: &Option<String>) -> (res: bool)
    ensures
        res == present_non_blank(*o),
{
    match o {
        Some(s) => !blank(s.as_str()),
        None => false,
    }
}

/// `true` when an optional string is absent or not blank.
pub open spec fn absent_or_non_blank(o: Option<String>) -> bool {
    match o {
        Some(s) => !is_blank(s@),
        None => true,
    }
}

pub fn opt_absent_or_non_blank(o: &Option<String>) -> (res: bool)
    ensures
        res == absent_or_non_blank(*o),
{
    match o {
        Some(s) => !blank(s.as_str()),
        None => true,
    }
}

} // verus!
