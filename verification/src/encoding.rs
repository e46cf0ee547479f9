use vstd::prelude::*;

use crate::text::{chars_of, push_char, trim, trim_range};

verus! {

// ---------------------------------------------------------------------------
// UTF-16
// ---------------------------------------------------------------------------

/// The UTF-16 code units of one character.
pub open spec fn utf16_units(c: char) -> Seq<u16> {
    let u = c as u32;
    if u < 0x10000 {
        seq![u as u16]
    } else {
        let v = (u - 0x10000) as u32;
        seq![(0xd800 + v / 0x400) as u16, (0xdc00 + v % 0x400) as u16]
    }
}

/// `str::encode_utf16`.
pub open spec fn utf16_encode(s: Seq<char>) -> Seq<u16>
    decreases s.len(),
{
    if s.len() == 0 {
        Seq::empty()
    } else {
        utf16_encode(s.drop_last()) + utf16_units(s.last())
    }
}

/// Each unit as two bytes, low byte first.
pub open spec fn le_bytes(units: Seq<u16>) -> Seq<u8>
    decreases units.len(),
{
    if units.len() == 0 {
        Seq::empty()
    } else {
        le_bytes(units.drop_last()) + seq![(units.last() % 256) as u8, (units.last() / 256) as u8]
    }
}

fn push_units(out: &mut Vec<u16>, c: char)
    ensures
        final(out)@ == old(out)@ + utf16_units(c),
{
    let u = c as u32;
    if u < 0x10000 {
        out.push(u as u16);
    } else {
        let v = u - 0x10000;
        assert(v < 0x100000) by {
            assert(u <= 0x10ffff);
        }
        out.push((0xd800 + v / 0x400) as u16);
        out.push((0xdc00 + v % 0x400) as u16);
    }
    assert(final(out)@ =~= old(out)@ + utf16_units(c));
}

fn encode_utf16(value: &str) -> (r: Vec<u16>)
    ensures
        r@ == utf16_encode(value@),
{
    let v = chars_of(value);
    let mut out: Vec<u16> = Vec::new();
    let mut i: usize = 0;
    while i < v.len()
        invariant
            i <= v.len(),
            out@ == utf16_encode(v@.take(i as int)),
        decreases v.len() - i,
    {
        let ghost t = v@.take(i + 1);
        assert(t.drop_last() =~= v@.take(i as int));
        assert(t.last() == v@[i as int]);
        push_units(&mut out, v[i]);
        i = i + 1;
    }
    assert(v@.take(v.len() as int) =~= v@);
    out
}

/// `value` as UTF-16 with a terminating zero, for wide-string APIs.
pub fn wide_null(value: &str) -> (r: Vec<u16>)
    ensures
        r@ == utf16_encode(value@).push(0),
{
    let mut r = encode_utf16(value);
    r.push(0);
    r
}

/// `value` as zero-terminated UTF-16 in little-endian bytes, the form of a registry
/// string value.
pub fn utf16_bytes(value: &str) -> (r: Vec<u8>)
    ensures
        r@ == le_bytes(utf16_encode(value@).push(0)),
{
    let units = wide_null(value);
    let mut out: Vec<u8> = Vec::new();
    let mut i: usize = 0;
    while i < units.len()
        invariant
            i <= units.len(),
            out@ == le_bytes(units@.take(i as int)),
        decreases units.len() - i,
    {
        let u = units[i];
        out.push((u % 256) as u8);
        out.push((u / 256) as u8);
        let ghost t = units@.take(i + 1);
        assert(t.drop_last() =~= units@.take(i as int));
        assert(t.last() == u);
        assert(out@ =~= le_bytes(t));
        i = i + 1;
    }
    assert(units@.take(units.len() as int) =~= units@);
    out
}

pub open spec fn is_high_surrogate(u: u16) -> bool {
    0xd800 <= u <= 0xdbff
}

pub open spec fn is_low_surrogate(u: u16) -> bool {
    0xdc00 <= u <= 0xdfff
}

pub open spec fn surrogate_pair_code(hi: u16, lo: u16) -> u32 {
    (0x10000 + (hi - 0xd800) * 0x400 + (lo - 0xdc00)) as u32
}

/// `String::from_utf16_lossy`: pairs of surrogates make one character, and any other
/// surrogate becomes U+FFFD.
pub open spec fn utf16_decode(u: Seq<u16>) -> Seq<char>
    decreases u.len(),
{
    if u.len() == 0 {
        Seq::empty()
    } else if is_high_surrogate(u[0]) && u.len() >= 2 && is_low_surrogate(u[1]) {
        seq![surrogate_pair_code(u[0], u[1]) as char] + utf16_decode(u.skip(2))
    } else if is_high_surrogate(u[0]) || is_low_surrogate(u[0]) {
        seq!['\u{fffd}'] + utf16_decode(u.drop_first())
    } else {
        seq![u[0] as char] + utf16_decode(u.drop_first())
    }
}

/// `char::from_u32`: stated, as its documentation gives it, to return the character
/// with code `x` when `x` is a Unicode scalar value, and `None` otherwise.
#[verifier::external_body]
fn char_from_u32(x: u32) -> (r: Option<char>)
    ensures
        (x < 0xd800 || 0xe000 <= x <= 0x10ffff) ==> r == Some(x as char),
        !(x < 0xd800 || 0xe000 <= x <= 0x10ffff) ==> r is None,
{
    char::from_u32(x)
}

fn decode_units(u: &[u16], lo: usize, hi: usize) -> (r: Vec<char>)
    requires
        lo <= hi <= u@.len(),
    ensures
        r@ == utf16_decode(u@.subrange(lo as int, hi as int)),
    decreases hi - lo,
{
    let ghost s = u@.subrange(lo as int, hi as int);
    let mut out: Vec<char> = Vec::new();
    if lo == hi {
        return out;
    }
    let a = u[lo];
    if 0xd800 <= a && a <= 0xdbff && hi - lo >= 2 && 0xdc00 <= u[lo + 1] && u[lo + 1] <= 0xdfff {
        let b = u[lo + 1];
        let code = (0x10000 + (a - 0xd800) as u32 * 0x400 + (b - 0xdc00) as u32) as u32;
        assert(code == surrogate_pair_code(a, b));
        match char_from_u32(code) {
            Some(c) => out.push(c),
            None => out.push('\u{fffd}'),
        }
        let rest = decode_units(u, lo + 2, hi);
        assert(s.skip(2) =~= u@.subrange(lo + 2, hi as int));
        let mut i: usize = 0;
        while i < rest.len()
            invariant
                i <= rest.len(),
                out@ == seq![code as char] + rest@.take(i as int),
            decreases rest.len() - i,
        {
            out.push(rest[i]);
            assert(rest@.take(i + 1) =~= rest@.take(i as int).push(rest@[i as int]));
            i = i + 1;
        }
        assert(rest@.take(rest.len() as int) =~= rest@);
        return out;
    }
    let first = if 0xd800 <= a && a <= 0xdfff {
        '\u{fffd}'
    } else {
        match char_from_u32(a as u32) {
            Some(c) => c,
            None => '\u{fffd}',
        }
    };
    assert(first == (if is_high_surrogate(a) || is_low_surrogate(a) {
        '\u{fffd}'
    } else {
        a as char
    }));
    out.push(first);
    let rest = decode_units(u, lo + 1, hi);
    assert(s.drop_first() =~= u@.subrange(lo + 1, hi as int));
    let mut i: usize = 0;
    while i < rest.len()
        invariant
            i <= rest.len(),
            out@ == seq![first] + rest@.take(i as int),
        decreases rest.len() - i,
    {
        out.push(rest[i]);
        assert(rest@.take(i + 1) =~= rest@.take(i as int).push(rest@[i as int]));
        i = i + 1;
    }
    assert(rest@.take(rest.len() as int) =~= rest@);
    out
}

/// Where a zero-terminated buffer ends: its first zero, or its length.
pub open spec fn terminated_len(b: Seq<u16>) -> int
    decreases b.len(),
{
    if b.len() == 0 {
        0
    } else if b[0] == 0 {
        0
    } else {
        1 + terminated_len(b.drop_first())
    }
}

proof fn lemma_terminated_len(b: Seq<u16>, k: int)
    requires
        0 <= k <= b.len(),
        forall|i: int| 0 <= i < k ==> #[trigger] b[i] != 0,
        k == b.len() || b[k] == 0,
    ensures
        terminated_len(b) == k,
    decreases k,
{
    if k > 0 {
        let t = b.drop_first();
        assert forall|i: int| 0 <= i < k - 1 implies #[trigger] t[i] != 0 by {
            assert(t[i] == b[i + 1]);
        }
        lemma_terminated_len(t, k - 1);
    }
}

/// The text of a zero-terminated UTF-16 buffer, decoded as `from_utf16_lossy` does
/// and trimmed.
pub open spec fn utf16_text(buffer: Seq<u16>) -> Seq<char> {
    trim(utf16_decode(buffer.take(terminated_len(buffer))))
}

/// The text of a zero-terminated UTF-16 buffer, decoded leniently and trimmed.
pub fn utf16_to_string(buffer: &[u16]) -> (r: String)
    ensures
        r@ == utf16_text(buffer@),
{
    let mut end: usize = 0;
    while end < buffer.len() && buffer[end] != 0
        invariant
            end <= buffer@.len(),
            forall|i: int| 0 <= i < end ==> #[trigger] buffer@[i] != 0,
        decreases buffer.len() - end,
    {
        end = end + 1;
    }
    proof {
        lemma_terminated_len(buffer@, end as int);
        assert(buffer@.subrange(0, end as int) =~= buffer@.take(end as int));
    }
    let chars = decode_units(buffer, 0, end);
    let (a, b) = trim_range(&chars, 0, chars.len(), true, ' ');
    assert(chars@.subrange(0, chars@.len() as int) =~= chars@);
    crate::text::string_of_range(&chars, a, b)
}

/// The adapter name from a DXGI adapter description (its `Description` buffer).
pub fn dxgi_description_to_string(description: &[u16]) -> (r: String)
    ensures
        r@ == utf16_text(description@),
{
    utf16_to_string(description)
}

// ---------------------------------------------------------------------------
// UTF-8
// ---------------------------------------------------------------------------

/// What `String::from_utf8_lossy` makes of `bytes`.
pub uninterp spec fn utf8_lossy(bytes: Seq<u8>) -> Seq<char>;

/// `String::from_utf8_lossy`: the decoded text, with U+FFFD for each ill-formed
/// sequence. Stated: the result is `utf8_lossy` of the bytes, and for valid UTF-8 it is
/// their decoding; the replacement rule itself is not spelled out.
#[verifier::external_body]
fn decode_utf8_lossy(bytes: &[u8]) -> (r: String)
    ensures
        r@ == utf8_lossy(bytes@),
        vstd::utf8::valid_utf8(bytes@) ==> r@ == vstd::utf8::decode_utf8(bytes@),
{
    String::from_utf8_lossy(bytes).into_owned()
}

/// The network name from an 802.11 SSID: the first `length` bytes (at most all of
/// them), decoded leniently and trimmed.
pub fn dot11_ssid_to_string(ssid: &[u8], length: u32) -> (r: String)
    ensures
        r@ == trim(utf8_lossy(ssid@.take(if length as int <= ssid@.len() {
            length as int
        } else {
            ssid@.len() as int
        }))),
{
    let n: usize = if (length as u64) <= (ssid.len() as u64) {
        length as usize
    } else {
        ssid.len()
    };
    let mut bytes: Vec<u8> = Vec::new();
    let mut i: usize = 0;
    while i < n
        invariant
            n <= ssid@.len(),
            i <= n,
            bytes@ == ssid@.take(i as int),
        decreases n - i,
    {
        bytes.push(ssid[i]);
        assert(ssid@.take(i + 1) =~= ssid@.take(i as int).push(ssid@[i as int]));
        i = i + 1;
    }
    let text = decode_utf8_lossy(bytes.as_slice());
    crate::text::trimmed(text.as_str())
}

} // verus!
