//! Conversions between hex strings and byte arrays.

use vstd::prelude::*;
use vstd::utf8::*;
use vstd::string::StringSliceAdditionalSpecFns;
use std::num::ParseIntError;
use tiny_keccak::{Hasher, Keccak};

use crate::text::string_of;

verus! {

broadcast use vstd::string::group_string_axioms;

/// Declares std's integer parsing error so it can be carried through results.
#[verifier::external_type_specification]
#[verifier::external_body]
pub struct ExParseIntError(ParseIntError);

// ---------------------------------------------------------------------------
// Parsing hex text (the behaviour std documents for `from_str_radix(_, 16)`)
// ---------------------------------------------------------------------------

/// Value of one byte read as a base-16 digit, as `char::to_digit(16)` reads it.
pub open spec fn hex_digit(b: u8) -> Option<nat> {
    if 0x30 <= b <= 0x39 {
        Some((b - 0x30) as nat)
    } else if 0x61 <= b <= 0x66 {
        Some((b - 0x61 + 10) as nat)
    } else if 0x41 <= b <= 0x46 {
        Some((b - 0x41 + 10) as nat)
    } else {
        None
    }
}

/// Value of a run of base-16 digits (most significant first); `None` if some byte is no digit.
pub open spec fn hex_digits_value(d: Seq<u8>) -> Option<nat>
    decreases d.len(),
{
    if d.len() == 0 {
        Some(0)
    } else {
        match (hex_digits_value(d.drop_last()), hex_digit(d.last())) {
            (Some(v), Some(h)) => Some(v * 16 + h),
            _ => None,
        }
    }
}

/// The number that `from_str_radix(text, 16)` reads from the UTF-8 bytes of `text`
/// for an unsigned type, before the range check: an optional `+`, then at least one digit.
pub open spec fn hex_radix_value(b: Seq<u8>) -> Option<nat> {
    if b.len() == 0 {
        None
    } else if b[0] == 0x2b {
        if b.len() == 1 {
            None
        } else {
            hex_digits_value(b.drop_first())
        }
    } else {
        hex_digits_value(b)
    }
}

/// `usize::from_str_radix(s, 16)` (std).
///
/// Claims what std documents: the result is `Ok(v)` exactly when the text is an optional
/// `+` followed by one or more base-16 digits whose value `v` fits in `usize`.
/// Which `ParseIntError` kind an error carries is left unsaid.
#[verifier::external_body]
fn usize_from_hex(s: &str) -> (r: Result<usize, ParseIntError>)
    ensures
        r is Ok <==> (hex_radix_value(s.spec_bytes()) matches Some(v) && v <= usize::MAX),
        r matches Ok(x) ==> hex_radix_value(s.spec_bytes()) == Some(x as nat),
{
    usize::from_str_radix(s, 16)
}

/// `u8::from_str_radix(&s[start..start + 2], 16)` (std), on a two-byte slice of `s`.
///
/// Claims what std documents: `Ok(v)` exactly when the slice is an optional `+` and base-16
/// digits whose value `v` fits in a byte. The slice bounds are char boundaries, so the slice
/// itself does not panic.
#[verifier::external_body]
fn u8_from_hex_pair(s: &str, start: usize) -> (r: Result<u8, ParseIntError>)
    requires
        start + 2 <= s.spec_bytes().len(),
        is_char_boundary(s.spec_bytes(), start as int),
        is_char_boundary(s.spec_bytes(), start + 2),
    ensures
        r is Ok <==> (hex_radix_value(s.spec_bytes().subrange(start as int, start + 2)) matches Some(
            v,
        ) && v <= 255),
        r matches Ok(x) ==> hex_radix_value(s.spec_bytes().subrange(start as int, start + 2))
            == Some(x as nat),
{
    u8::from_str_radix(&s[start..start + 2], 16)
}

/// Reading the two-byte chunks of `b` from byte offset `c` on, as `str_to_vec` does:
/// `None` where slicing a chunk would panic (a chunk running past the end or ending
/// inside a character), `Some(Err(()))` at the first chunk that does not parse, and
/// otherwise the byte values of the chunks.
pub open spec fn hex_pairs_from(b: Seq<u8>, c: int) -> Option<Result<Seq<u8>, ()>>
    decreases b.len() - c,
{
    if c < 0 {
        None
    } else if c >= b.len() {
        Some(Ok(Seq::empty()))
    } else if c + 2 > b.len() || !is_char_boundary(b, c + 2) {
        None
    } else {
        match hex_radix_value(b.subrange(c, c + 2)) {
            Some(v) => match hex_pairs_from(b, c + 2) {
                Some(Ok(rest)) => Some(Ok(seq![v as u8] + rest)),
                other => other,
            },
            None => Some(Err(())),
        }
    }
}

/// `hex_pairs_from(b, c)` with the bytes `done` read before offset `c` put in front.
pub open spec fn prefix_result(done: Seq<u8>, r: Option<Result<Seq<u8>, ()>>) -> Option<
    Result<Seq<u8>, ()>,
> {
    match r {
        Some(Ok(rest)) => Some(Ok(done + rest)),
        other => other,
    }
}

proof fn lemma_two_digits_fit(b: Seq<u8>)
    requires
        b.len() == 2,
        hex_radix_value(b) is Some,
    ensures
        hex_radix_value(b)->0 <= 255,
{
    let d0 = b.drop_last();
    assert(d0.drop_last().len() == 0);
    assert(hex_digits_value(d0.drop_last()) == Some(0nat));
    if hex_digits_value(b) is Some {
        assert(hex_digits_value(d0) is Some);
    }
    if b[0] == 0x2b {
        let e = b.drop_first();
        assert(e.drop_last().len() == 0);
        assert(hex_digits_value(e.drop_last()) == Some(0nat));
    }
}

/// Reads the two-byte chunks of `s` as `str_to_vec` does: `None` where slicing a chunk
/// would panic (a chunk running past the end or ending inside a character), the error of
/// the first chunk that is no hex number, or the byte values of the chunks.
pub fn read_hex_pairs(s: &str) -> (r: Option<Result<Vec<u8>, ParseIntError>>)
    ensures
        hex_pairs_from(s.spec_bytes(), 0) == match r {
            None => None,
            Some(Ok(v)) => Some(Ok::<Seq<u8>, ()>(v@)),
            Some(Err(_)) => Some(Err::<Seq<u8>, ()>(())),
        },
{
    let ghost b = s.spec_bytes();
    proof {
        encode_utf8_valid_utf8(s@);
        is_char_boundary_start_end_of_seq(b);
    }
    let n = s.as_bytes().len();
    let mut out: Vec<u8> = Vec::new();
    let mut c: usize = 0;
    while c < n
        invariant
            n == b.len(),
            b == s.spec_bytes(),
            valid_utf8(b),
            0 <= c,
            c <= n,
            is_char_boundary(b, c as int),
            hex_pairs_from(b, 0) == prefix_result(out@, hex_pairs_from(b, c as int)),
        decreases n - c,
    {
        if n - c < 2 {
            return None;
        }
        if !s.is_char_boundary(c + 2) {
            return None;
        }
        let r = u8_from_hex_pair(s, c);
        match r {
            Err(e) => {
                proof {
                    if hex_radix_value(b.subrange(c as int, c + 2)) is Some {
                        lemma_two_digits_fit(b.subrange(c as int, c + 2));
                    }
                }
                return Some(Err(e));
            },
            Ok(v) => {
                proof {
                    lemma_two_digits_fit(b.subrange(c as int, c + 2));
                    let rest = hex_pairs_from(b, c + 2);
                    match rest {
                        Some(Ok(t)) => {
                            assert(out@ + (seq![v] + t) =~= out@.push(v) + t);
                        },
                        _ => {},
                    }
                }
                out.push(v);
                c = c + 2;
            },
        }
    }
    proof {
        assert(out@ + Seq::<u8>::empty() =~= out@);
    }
    Some(Ok(out))
}

/// Converts a hex string to bytes, two characters per byte; the size is not capped.
///
/// A text where a chunk would run past the end or end inside a character is not accepted
/// (slicing it would panic); a chunk that is no hex number gives `Err`.
pub fn str_to_vec(s: &str) -> (r: Result<Vec<u8>, ParseIntError>)
    requires
        hex_pairs_from(s.spec_bytes(), 0) is Some,
    ensures
        hex_pairs_from(s.spec_bytes(), 0) == Some(
            match r {
                Ok(v) => Ok::<Seq<u8>, ()>(v@),
                Err(_) => Err::<Seq<u8>, ()>(()),
            },
        ),
{
    match read_hex_pairs(s) {
        Some(r) => r,
        None => {
            assert(false);
            Ok(Vec::new())
        },
    }
}

/// Converts a hex string to a `usize`.
pub fn hex_to_usize(s: &str) -> (r: Result<usize, ParseIntError>)
    ensures
        r is Ok <==> (hex_radix_value(s.spec_bytes()) matches Some(v) && v <= usize::MAX),
        r matches Ok(x) ==> hex_radix_value(s.spec_bytes()) == Some(x as nat),
{
    usize_from_hex(s)
}


// ---------------------------------------------------------------------------
// Padding hex text
// ---------------------------------------------------------------------------

/// `n` zero characters.
pub open spec fn zeros(n: nat) -> Seq<char> {
    Seq::new(n, |i: int| '0')
}

/// The text `format_even_bytes` gives back: a `0` in front when the UTF-8 byte length is odd.
pub open spec fn even_hex(s: Seq<char>) -> Seq<char> {
    if encode_utf8(s).len() % 2 == 1 {
        seq!['0'] + s
    } else {
        s
    }
}

/// The text `pad_n_bytes` gives back: zeros in front until the UTF-8 byte length reaches
/// `2 * num_bytes`, nothing added when it already does.
pub open spec fn padded_hex(s: Seq<char>, num_bytes: nat) -> Seq<char> {
    let len = encode_utf8(s).len();
    if len < 2 * num_bytes {
        zeros((2 * num_bytes - len) as nat) + s
    } else {
        s
    }
}

/// Putting the ASCII character `0` in front adds one byte, `0x30`, in front of the encoding.
pub proof fn lemma_encode_zero_prefix(x: Seq<char>)
    ensures
        encode_utf8(seq!['0'] + x) == seq![0x30u8] + encode_utf8(x),
{
    let y = seq!['0'] + x;
    assert(y.drop_first() =~= x);
    assert((0x30u32 & 0x7Fu32) as u8 == 0x30u8) by (bit_vector);
    assert('0' as u32 == 0x30u32);
    assert(encode_scalar('0' as u32) =~= seq![0x30u8]);
}

/// `"0"` followed by `s`.
fn zero_then(s: &str) -> (r: String)
    ensures
        r@ == seq!['0'] + s@,
{
    let mut r = String::from_str("0");
    proof {
        reveal_strlit("0");
    }
    r.append(s);
    r
}

/// Pads an odd-length byte string with a leading `0`.
pub fn format_even_bytes(hex: String) -> (r: String)
    ensures
        r@ == even_hex(hex@),
{
    let n = hex.as_str().as_bytes().len();
    if n % 2 == 1 {
        zero_then(hex.as_str())
    } else {
        hex
    }
}

/// Pads a hex string with `0`s to the left up to `num_bytes * 2` bytes; a string that is
/// already that long or longer comes back unchanged.
pub fn pad_n_bytes(hex: &str, num_bytes: usize) -> (r: String)
    requires
        num_bytes * 2 <= usize::MAX,
    ensures
        r@ == padded_hex(hex@, num_bytes as nat),
{
    let target = num_bytes * 2;
    let mut r = String::from_str(hex);
    let mut len = hex.as_bytes().len();
    let ghost start = len;
    while len < target
        invariant
            start == encode_utf8(hex@).len(),
            start <= len,
            len <= target || len == start,
            r@ == zeros((len - start) as nat) + hex@,
            encode_utf8(r@).len() == len,
            target == num_bytes * 2,
        decreases target - len,
    {
        proof {
            lemma_encode_zero_prefix(r@);
            assert(seq!['0'] + (zeros((len - start) as nat) + hex@) =~= zeros(
                (len + 1 - start) as nat,
            ) + hex@);
        }
        r = zero_then(r.as_str());
        len = len + 1;
    }
    proof {
        if len == start {
            assert(r@ =~= hex@);
        }
    }
    r
}

// ---------------------------------------------------------------------------
// 32-byte words
// ---------------------------------------------------------------------------

/// `v` placed at the right end of a 32-byte word, zeros to its left.
pub open spec fn left_pad32(v: Seq<u8>) -> Seq<u8> {
    Seq::new(32, |i: int| if i < 32 - v.len() { 0u8 } else { v[i - (32 - v.len())] })
}

/// When `str_to_bytes32` accepts `s`: every two-character chunk of the even-padded text is
/// a hex number, and there are at most 32 of them.
pub open spec fn bytes32_text_ok(s: Seq<char>) -> bool {
    hex_pairs_from(encode_utf8(even_hex(s)), 0) matches Some(Ok(v)) && v.len() <= 32
}

/// The word `str_to_bytes32` makes of an accepted `s`.
pub open spec fn bytes32_of_text(s: Seq<char>) -> Seq<u8> {
    left_pad32(hex_pairs_from(encode_utf8(even_hex(s)), 0)->Some_0->Ok_0)
}

/// Converts a hex string to a 32-byte word, the significant bytes on the right and zeros
/// to their left: `a57b` becomes `[0, .., 0, 165, 123]`.
pub fn str_to_bytes32(s: &str) -> (r: [u8; 32])
    requires
        bytes32_text_ok(s@),
    ensures
        r@ == bytes32_of_text(s@),
{
    let even = format_even_bytes(String::from_str(s));
    let bytes = match str_to_vec(even.as_str()) {
        Ok(b) => b,
        Err(_) => {
            assert(false);
            Vec::new()
        },
    };
    let n = bytes.len();
    let mut padded = [0u8; 32];
    let mut i: usize = 32 - n;
    while i < 32
        invariant
            n == bytes@.len(),
            n <= 32,
            32 - n <= i <= 32,
            forall|j: int| 0 <= j < 32 - n ==> padded@[j] == 0u8,
            forall|j: int| 32 - n <= j < i ==> padded@[j] == bytes@[j - (32 - n)],
            padded@.len() == 32,
        decreases 32 - i,
    {
        padded[i] = bytes[n - (32 - i)];
        i = i + 1;
    }
    assert(padded@ =~= left_pad32(bytes@));
    padded
}

/// Lower-case hex digit for a value below 16.
pub open spec fn hex_char(d: nat) -> char {
    if d < 10 {
        (0x30 + d) as char
    } else {
        (0x61 + d - 10) as char
    }
}

/// Two lower-case hex digits per byte, most significant digit first.
pub open spec fn hex_of_bytes(b: Seq<u8>) -> Seq<char>
    decreases b.len(),
{
    if b.len() == 0 {
        Seq::empty()
    } else {
        hex_of_bytes(b.drop_last()) + seq![hex_char(b.last() as nat / 16), hex_char(b.last() as nat % 16)]
    }
}

/// The text of a single byte: its two hex digits.
pub proof fn lemma_hex_of_byte(x: u8)
    ensures
        hex_of_bytes(seq![x]) == seq![hex_char(x as nat / 16), hex_char(x as nat % 16)],
{
    let s = seq![x];
    assert(s.drop_last() =~= Seq::<u8>::empty());
    assert(s.last() == x);
    assert(hex_of_bytes(Seq::<u8>::empty()) =~= Seq::<char>::empty());
    assert(Seq::<char>::empty() + seq![hex_char(x as nat / 16), hex_char(x as nat % 16)]
        =~= seq![hex_char(x as nat / 16), hex_char(x as nat % 16)]);
}

/// Index of the first nonzero byte at or after `i`, or the last index when there is none.
pub open spec fn first_nonzero_from(b: Seq<u8>, i: int) -> int
    decreases b.len() - i,
{
    if i >= b.len() - 1 {
        b.len() - 1
    } else if b[i] != 0 {
        i
    } else {
        first_nonzero_from(b, i + 1)
    }
}

/// The text `bytes32_to_string` gives: the bytes from the first nonzero one (or the last
/// byte, when all are zero) as lower-case hex, with `0x` in front when `prefixed`.
pub open spec fn bytes32_text(b: Seq<u8>, prefixed: bool) -> Seq<char> {
    (if prefixed {
        seq!['0', 'x']
    } else {
        Seq::empty()
    }) + hex_of_bytes(b.subrange(first_nonzero_from(b, 0), b.len() as int))
}

pub(crate) fn hex_digit_char(d: u8) -> (c: char)
    requires
        d < 16,
    ensures
        c == hex_char(d as nat),
{
    if d < 10 {
        (0x30u8 + d) as char
    } else {
        (0x61u8 + d - 10) as char
    }
}

/// Appends two lower-case hex digits for each byte.
pub(crate) fn push_hex_bytes(out: &mut Vec<char>, b: &[u8])
    ensures
        final(out)@ == old(out)@ + hex_of_bytes(b@),
{
    let ghost head = out@;
    let mut i: usize = 0;
    while i < b.len()
        invariant
            i <= b@.len(),
            out@ == head + hex_of_bytes(b@.take(i as int)),
        decreases b.len() - i,
    {
        let x = b[i];
        let hi = hex_digit_char(x / 16);
        let lo = hex_digit_char(x % 16);
        proof {
            let t = b@.take(i + 1);
            assert(t.drop_last() =~= b@.take(i as int));
        }
        out.push(hi);
        out.push(lo);
        i = i + 1;
    }
    assert(b@.take(b@.len() as int) =~= b@);
}

/// Converts a 32-byte word to a hex string without leading zero bytes (one byte is kept
/// when all are zero), with `0x` in front when `prefixed`.
pub fn bytes32_to_string(bytes: &[u8; 32], prefixed: bool) -> (r: String)
    ensures
        r@ == bytes32_text(bytes@, prefixed),
{
    let ghost b = bytes@;
    let mut start: usize = 0;
    while start < 31 && bytes[start] == 0
        invariant
            b == bytes@,
            b.len() == 32,
            start <= 31,
            first_nonzero_from(b, 0) == first_nonzero_from(b, start as int),
        decreases 31 - start,
    {
        start = start + 1;
    }
    let mut out: Vec<char> = Vec::new();
    if prefixed {
        out.push('0');
        out.push('x');
    }
    let ghost head = out@;
    let mut i = start;
    while i < 32
        invariant
            b == bytes@,
            b.len() == 32,
            start <= i <= 32,
            head == (if prefixed { seq!['0', 'x'] } else { Seq::<char>::empty() }),
            out@ == head + hex_of_bytes(b.subrange(start as int, i as int)),
        decreases 32 - i,
    {
        let x = bytes[i];
        let hi = hex_digit_char(x / 16);
        let lo = hex_digit_char(x % 16);
        proof {
            let t = b.subrange(start as int, i + 1);
            assert(t.drop_last() =~= b.subrange(start as int, i as int));
        }
        out.push(hi);
        out.push(lo);
        i = i + 1;
    }
    string_of(&out)
}


// ---------------------------------------------------------------------------
// Round trip of a 32-byte word through its hex text
// ---------------------------------------------------------------------------

proof fn lemma_hex_of_bytes_shape(w: Seq<u8>)
    ensures
        hex_of_bytes(w).len() == 2 * w.len(),
        forall|k: int|
            0 <= k < w.len() ==> #[trigger] hex_of_bytes(w)[2 * k] == hex_char(w[k] as nat / 16)
                && hex_of_bytes(w)[2 * k + 1] == hex_char(w[k] as nat % 16),
    decreases w.len(),
{
    if w.len() > 0 {
        lemma_hex_of_bytes_shape(w.drop_last());
        let h = hex_of_bytes(w);
        assert forall|k: int| 0 <= k < w.len() implies #[trigger] h[2 * k] == hex_char(
            w[k] as nat / 16,
        ) && h[2 * k + 1] == hex_char(w[k] as nat % 16) by {
            if k < w.len() - 1 {
                assert(w.drop_last()[k] == w[k]);
            }
        }
    }
}

proof fn lemma_hex_char_digit(d: nat)
    requires
        d < 16,
    ensures
        '\0' <= hex_char(d) <= '\u{7f}',
        hex_digit(hex_char(d) as u8) == Some(d),
        hex_char(d) as u8 != 0x2b,
{
}

proof fn lemma_first_nonzero(b: Seq<u8>, i: int)
    requires
        b.len() == 32,
        0 <= i <= 31,
    ensures
        i <= first_nonzero_from(b, i) <= 31,
        forall|j: int| i <= j < first_nonzero_from(b, i) ==> b[j] == 0,
    decreases 32 - i,
{
    if i < 31 && b[i] == 0 {
        lemma_first_nonzero(b, i + 1);
    }
}

proof fn lemma_hex_pairs_of_hex(e: Seq<u8>, w: Seq<u8>, k: int)
    requires
        e.len() == 2 * w.len(),
        valid_utf8(e),
        forall|j: int| 0 <= j < e.len() ==> #[trigger] e[j] < 0x80,
        forall|j: int|
            0 <= j < w.len() ==> hex_radix_value(#[trigger] e.subrange(2 * j, 2 * j + 2)) == Some(
                w[j] as nat,
            ),
        0 <= k <= w.len(),
    ensures
        hex_pairs_from(e, 2 * k) == Some(Ok::<Seq<u8>, ()>(w.subrange(k, w.len() as int))),
    decreases w.len() - k,
{
    if k < w.len() {
        lemma_hex_pairs_of_hex(e, w, k + 1);
        if 2 * k + 2 < e.len() {
            is_char_boundary_iff_not_is_continuation_byte(e, 2 * k + 2);
        } else {
            is_char_boundary_start_end_of_seq(e);
        }
        let v = hex_radix_value(e.subrange(2 * k, 2 * k + 2));
        assert(v == Some(w[k] as nat));
        assert(seq![w[k]] + w.subrange(k + 1, w.len() as int) =~= w.subrange(k, w.len() as int));
    } else {
        assert(w.subrange(k, w.len() as int) =~= Seq::<u8>::empty());
    }
}

/// A 32-byte word survives the trip through its unprefixed hex text:
/// `str_to_bytes32(&bytes32_to_string(b, false))` accepts the text and gives `b` back.
pub proof fn lemma_bytes32_round_trip(b: Seq<u8>)
    requires
        b.len() == 32,
    ensures
        bytes32_text_ok(bytes32_text(b, false)),
        bytes32_of_text(bytes32_text(b, false)) == b,
{
    let start = first_nonzero_from(b, 0);
    lemma_first_nonzero(b, 0);
    let w = b.subrange(start, 32);
    let t = bytes32_text(b, false);
    assert(t =~= hex_of_bytes(w));
    lemma_hex_of_bytes_shape(w);
    assert forall|i: int| 0 <= i < t.len() implies '\0' <= #[trigger] t[i] <= '\u{7f}' by {
        let k = i / 2;
        assert(i == 2 * k || i == 2 * k + 1);
        assert(0 <= k < w.len());
        lemma_hex_char_digit(w[k] as nat / 16);
        lemma_hex_char_digit(w[k] as nat % 16);
        assert(hex_of_bytes(w)[2 * k] == hex_char(w[k] as nat / 16));
    }
    assert(is_ascii_chars(t));
    is_ascii_chars_encode_utf8(t);
    let e = encode_utf8(t);
    assert(even_hex(t) == t);
    encode_utf8_valid_utf8(t);
    assert forall|j: int| 0 <= j < e.len() implies #[trigger] e[j] < 0x80 by {
        assert(t[j] as u8 == e[j]);
    }
    assert forall|j: int| 0 <= j < w.len() implies hex_radix_value(
        #[trigger] e.subrange(2 * j, 2 * j + 2),
    ) == Some(w[j] as nat) by {
        let c = e.subrange(2 * j, 2 * j + 2);
        let hi = w[j] as nat / 16;
        let lo = w[j] as nat % 16;
        lemma_hex_char_digit(hi);
        lemma_hex_char_digit(lo);
        assert(t[2 * j] == hex_char(hi));
        assert(t[2 * j + 1] == hex_char(lo));
        assert(c[0] == t[2 * j] as u8);
        assert(c[1] == t[2 * j + 1] as u8);
        assert(c.drop_last().drop_last().len() == 0);
        assert(hex_digits_value(c.drop_last().drop_last()) == Some(0nat));
        assert(c.drop_last()[0] == c[0]);
        assert(hex_digits_value(c.drop_last()) == Some(hi));
        assert(hex_digits_value(c) == Some(hi * 16 + lo));
    }
    lemma_hex_pairs_of_hex(e, w, 0);
    assert(w.subrange(0, w.len() as int) =~= w);
    assert(left_pad32(w) =~= b);
}


/// The bytes that pairs of decimal digits make when read as hex: `"12"` makes `0x12`.
pub open spec fn digit_pairs(t: Seq<char>) -> Seq<u8> {
    Seq::new(
        (t.len() / 2) as nat,
        |j: int| (((t[2 * j] as nat - 0x30) * 16 + (t[2 * j + 1] as nat - 0x30)) as u8),
    )
}

/// A text of at most 64 decimal digits is accepted by `str_to_bytes32` (each digit read as
/// a hex digit), which gives the bytes of its digit pairs.
pub proof fn lemma_decimal_digits_bytes32_ok(s: Seq<char>)
    requires
        s.len() <= 64,
        forall|i: int| 0 <= i < s.len() ==> '0' <= #[trigger] s[i] <= '9',
    ensures
        bytes32_text_ok(s),
        bytes32_of_text(s) == left_pad32(digit_pairs(even_hex(s))),
{
    assert(is_ascii_chars(s));
    is_ascii_chars_encode_utf8(s);
    let t = even_hex(s);
    if s.len() % 2 == 1 {
        assert(t =~= seq!['0'] + s);
    }
    assert(t.len() % 2 == 0);
    assert(t.len() <= 64);
    assert forall|i: int| 0 <= i < t.len() implies '0' <= #[trigger] t[i] <= '9' by {
        if s.len() % 2 == 1 && i > 0 {
            assert(t[i] == s[i - 1]);
        }
    }
    assert(is_ascii_chars(t));
    is_ascii_chars_encode_utf8(t);
    let e = encode_utf8(t);
    encode_utf8_valid_utf8(t);
    let w = Seq::new(
        (t.len() / 2) as nat,
        |j: int| (((t[2 * j] as nat - 0x30) * 16 + (t[2 * j + 1] as nat - 0x30)) as u8),
    );
    assert forall|j: int| 0 <= j < e.len() implies #[trigger] e[j] < 0x80 by {
        assert(t[j] as u8 == e[j]);
    }
    assert forall|j: int| 0 <= j < w.len() implies hex_radix_value(
        #[trigger] e.subrange(2 * j, 2 * j + 2),
    ) == Some(w[j] as nat) by {
        let c = e.subrange(2 * j, 2 * j + 2);
        let hi = (t[2 * j] as nat - 0x30) as nat;
        let lo = (t[2 * j + 1] as nat - 0x30) as nat;
        assert(c[0] == t[2 * j] as u8);
        assert(c[1] == t[2 * j + 1] as u8);
        assert(c.drop_last().drop_last().len() == 0);
        assert(hex_digits_value(c.drop_last().drop_last()) == Some(0nat));
        assert(c.drop_last()[0] == c[0]);
        assert(hex_digit(c[0]) == Some(hi));
        assert(hex_digit(c[1]) == Some(lo));
        assert(hex_digits_value(c.drop_last()) == Some(hi));
        assert(hex_digits_value(c) == Some(hi * 16 + lo));
        assert(hi * 16 + lo < 256);
    }
    lemma_hex_pairs_of_hex(e, w, 0);
    assert(w.subrange(0, w.len() as int) =~= w);
    assert(w =~= digit_pairs(t));
}

// ---------------------------------------------------------------------------
// Keccak-256
// ---------------------------------------------------------------------------

/// The `len` bytes that tiny_keccak's Keccak-256 sponge (`Keccak::v256`) squeezes out
/// after absorbing `data`; its first 32 bytes are the Keccak-256 digest of `data`.
pub uninterp spec fn keccak256_output(data: Seq<u8>, len: nat) -> Seq<u8>;

/// `Keccak::v256()`, `update(data)`, `finalize(dest)` (tiny_keccak).
///
/// Claims that `dest` is overwritten with the `dest.len()` output bytes of the sponge over
/// `data`; the bytes themselves are only named, not stated.
#[verifier::external_body]
fn keccak256_into(dest: &mut [u8], data: &[u8])
    ensures
        final(dest)@ == keccak256_output(data@, old(dest)@.len()),
        final(dest)@.len() == old(dest)@.len(),
{
    let mut hasher = Keccak::v256();
    hasher.update(data);
    hasher.finalize(dest);
}

/// Hashes the UTF-8 bytes of a string with Keccak-256 into `dest`.
pub fn hash_bytes(dest: &mut [u8], to_hash: &String)
    ensures
        final(dest)@ == keccak256_output(encode_utf8(to_hash@), old(dest)@.len()),
        final(dest)@.len() == old(dest)@.len(),
{
    keccak256_into(dest, to_hash.as_str().as_bytes());
}

} // verus!
