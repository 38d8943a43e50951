//! Hexadecimal text: the lowercase encoding of digests and the decoding of
//! the hex fields of an event into fixed-size byte buffers.
use vstd::prelude::*;
use vstd::string::StringSliceAdditionalSpecFns;

verus! {

/// The ASCII digit or lowercase letter that stands for a nibble.
pub open spec fn hex_lower_char(n: int) -> char {
    if n < 10 {
        (n + 48) as char
    } else {
        (n + 87) as char
    }
}

/// Lowercase hexadecimal text of a byte string: two characters per byte,
/// the high nibble first.
pub open spec fn hex_lower(data: Seq<u8>) -> Seq<char> {
    Seq::new(
        2 * data.len(),
        |i: int|
            if i % 2 == 0 {
                hex_lower_char(data[i / 2] as int / 16)
            } else {
                hex_lower_char(data[i / 2] as int % 16)
            },
    )
}

/// Whether a byte is one of `0-9`, `A-F`, `a-f`.
pub open spec fn is_hex_digit(c: u8) -> bool {
    (48 <= c <= 57) || (65 <= c <= 70) || (97 <= c <= 102)
}

/// The value of a hex digit byte.
pub open spec fn hex_digit_value(c: u8) -> int {
    if 48 <= c <= 57 {
        c - 48
    } else if 65 <= c <= 70 {
        c - 55
    } else {
        c - 87
    }
}

/// The bytes that the first `n` digit pairs of `s` stand for.
pub open spec fn hex_pairs(s: Seq<u8>, n: int) -> Seq<u8> {
    Seq::new(
        n as nat,
        |i: int| (hex_digit_value(s[2 * i]) * 16 + hex_digit_value(s[2 * i + 1])) as u8,
    )
}

/// Whether every byte of `s` before position `k` is a hex digit.
pub open spec fn hex_digits_before(s: Seq<u8>, k: int) -> bool {
    forall|j: int| 0 <= j < k ==> is_hex_digit(#[trigger] s[j])
}

/// Whether `s` is hex text that decodes into a buffer of `cap` bytes: an
/// even number of hex digits, at most two per byte of the buffer.
pub open spec fn hex_fits(s: Seq<u8>, cap: int) -> bool {
    &&& s.len() % 2 == 0
    &&& s.len() <= 2 * cap
    &&& hex_digits_before(s, s.len() as int)
}

/// What a buffer of `cap` zero bytes holds after hex text `s` that fits it
/// has been decoded into it.
pub open spec fn hex_decode_padded(s: Seq<u8>, cap: int) -> Seq<u8> {
    hex_pairs(s, (s.len() / 2) as int) + Seq::new((cap - s.len() / 2) as nat, |i: int| 0u8)
}

/// `data_encoding::HEXLOWER.encode`: lowercase hexadecimal, two characters per
/// byte, the high nibble first, with no separators (as its documentation
/// states and its examples show).
#[verifier::external_body]
pub(crate) fn hex_lower_encode(data: &[u8]) -> (r: String)
    ensures
        r@ == hex_lower(data@),
{
    data_encoding::HEXLOWER.encode(data)
}

proof fn lemma_nibble_step(b: u8, c: u8, v: u8)
    requires
        b < 16,
        v < 16,
    ensures
        ((b << 4u8) | v) as int == b as int * 16 + v as int,
        ((b << 4u8) | v) < 256,
{
    assert(((b << 4u8) | v) as int == b as int * 16 + v as int) by (bit_vector)
        requires
            b < 16,
            v < 16,
    ;
}

/// Decodes the hex text `hex` into the front of `target` and returns the
/// number of bytes written. The text must hold an even number of digits, at
/// most two per byte of `target`; otherwise nothing is written and `Err(())`
/// comes back. Digits are read in order, and each completed pair is stored at
/// once: where a byte that is not a hex digit stands, `Err(())` comes back
/// with the pairs before it already stored.
pub fn from_hex(hex: &str, target: &mut [u8]) -> (r: Result<usize, ()>)
    ensures
        final(target)@.len() == old(target)@.len(),
        ({
            let s = hex.spec_bytes();
            let cap = old(target)@.len() as int;
            if s.len() % 2 == 1 || s.len() > 2 * cap {
                &&& r == Err::<usize, ()>(())
                &&& final(target)@ == old(target)@
            } else if hex_digits_before(s, s.len() as int) {
                &&& r == Ok::<usize, ()>((s.len() / 2) as usize)
                &&& final(target)@ == hex_pairs(s, (s.len() / 2) as int) + old(target)@.skip(
                    (s.len() / 2) as int,
                )
            } else {
                &&& r == Err::<usize, ()>(())
                &&& exists|k: int|
                    0 <= k < s.len() && !is_hex_digit(#[trigger] s[k]) && hex_digits_before(s, k)
                        && final(target)@ == hex_pairs(s, k / 2) + old(target)@.skip(k / 2)
            }
        }),
{
    let bytes = hex.as_bytes();
    let ghost s = hex.spec_bytes();
    let ghost orig = target@;
    if bytes.len() % 2 == 1 || bytes.len() / 2 > target.len() {
        return Err(());
    }
    let mut b: u8 = 0;
    let mut idx: usize = 0;
    while idx < bytes.len()
        invariant
            bytes@ == s,
            s == hex.spec_bytes(),
            orig == old(target)@,
            s.len() % 2 == 0,
            s.len() <= 2 * orig.len(),
            target@.len() == orig.len(),
            idx <= s.len(),
            hex_digits_before(s, idx as int),
            target@ == hex_pairs(s, (idx / 2) as int) + orig.skip((idx / 2) as int),
            idx % 2 == 0 ==> b == 0,
            idx % 2 == 1 ==> b as int == hex_digit_value(s[idx - 1]),
        decreases s.len() - idx,
    {
        let c = bytes[idx];
        let v: u8;
        if 65u8 <= c && c <= 70u8 {
            v = c - 65u8 + 10;
        } else if 97u8 <= c && c <= 102u8 {
            v = c - 97u8 + 10;
        } else if 48u8 <= c && c <= 57u8 {
            v = c - 48u8;
        } else {
            proof {
                assert(!is_hex_digit(s[idx as int]));
            }
            return Err(());
        }
        proof {
            lemma_nibble_step(b, c, v);
        }
        b = (b << 4u8) | v;
        if (idx & 1) == 1 {
            assert((idx & 1) == 1 ==> idx % 2 == 1) by (bit_vector);
            let ghost before = target@;
            target[idx / 2] = b;
            b = 0;
            proof {
                assert(target@ =~= hex_pairs(s, (idx + 1) / 2) + orig.skip((idx + 1) / 2));
            }
        } else {
            assert((idx & 1) != 1 ==> idx % 2 == 0) by (bit_vector);
        }
        idx += 1;
    }
    Ok(idx / 2)
}

/// The ASCII digit or uppercase letter that stands for a nibble.
pub open spec fn hex_upper_char(n: int) -> char {
    if n < 10 {
        (n + 48) as char
    } else {
        (n + 55) as char
    }
}

/// Uppercase hexadecimal text of a byte string: two characters per byte,
/// the high nibble first.
pub open spec fn hex_upper(data: Seq<u8>) -> Seq<char> {
    Seq::new(
        2 * data.len(),
        |i: int|
            if i % 2 == 0 {
                hex_upper_char(data[i / 2] as int / 16)
            } else {
                hex_upper_char(data[i / 2] as int % 16)
            },
    )
}

/// The digits are exactly `0-9`, `A-F` and `a-f`; digits stand for the
/// values 0 to 15, and an upper- and a lowercase letter stand for the same
/// value (`A` and `a` for 10, up to `F` and `f` for 15).
pub proof fn lemma_hex_digits_either_case(c: u8)
    ensures
        is_hex_digit(c) <==> (48 <= c <= 57 || 65 <= c <= 70 || 97 <= c <= 102),
        48 <= c <= 57 ==> hex_digit_value(c) == c - 48,
        65 <= c <= 70 ==> hex_digit_value(c) == c - 55 && hex_digit_value(
            (c + 32) as u8,
        ) == c - 55 && is_hex_digit((c + 32) as u8),
        is_hex_digit(c) ==> 0 <= hex_digit_value(c) < 16,
{
}

/// Uppercase hex text is read back by `from_hex` as the bytes it was made
/// from, as lowercase text is: its UTF-8 bytes are hex digits, and the pairs
/// stand for the bytes.
pub proof fn lemma_from_hex_reads_hex_upper(data: Seq<u8>)
    ensures
        ({
            let s = vstd::utf8::encode_utf8(hex_upper(data));
            &&& s.len() == 2 * data.len()
            &&& hex_digits_before(s, s.len() as int)
            &&& hex_pairs(s, data.len() as int) == data
        }),
{
    let t = hex_upper(data);
    assert(vstd::utf8::is_ascii_chars(t)) by {
        assert forall|i: int| 0 <= i < t.len() implies '\0' <= #[trigger] t[i] <= '\u{7f}' by {
            let q = if i % 2 == 0 { data[i / 2] as int / 16 } else { data[i / 2] as int % 16 };
            assert(0 <= q < 16);
        }
    }
    vstd::utf8::is_ascii_chars_encode_utf8(t);
    let s = vstd::utf8::encode_utf8(t);
    assert forall|j: int| 0 <= j < s.len() implies is_hex_digit(#[trigger] s[j]) by {
        let q = if j % 2 == 0 { data[j / 2] as int / 16 } else { data[j / 2] as int % 16 };
        assert(0 <= q < 16);
    }
    assert forall|i: int| 0 <= i < data.len() implies #[trigger] hex_pairs(s, data.len() as int)[i]
        == data[i] by {
        let x = data[i] as int;
        assert((2 * i) / 2 == i);
        assert((2 * i + 1) / 2 == i);
        assert((2 * i) % 2 == 0);
        assert((2 * i + 1) % 2 == 1);
        assert(x / 16 * 16 + x % 16 == x);
    }
    assert(hex_pairs(s, data.len() as int) =~= data);
}

/// Lowercase hex text is read back by `from_hex` as the bytes it was made
/// from: its UTF-8 bytes are hex digits, and the pairs stand for the bytes.
pub proof fn lemma_from_hex_reads_hex_lower(data: Seq<u8>)
    ensures
        ({
            let s = vstd::utf8::encode_utf8(hex_lower(data));
            &&& s.len() == 2 * data.len()
            &&& hex_digits_before(s, s.len() as int)
            &&& hex_pairs(s, data.len() as int) == data
        }),
{
    let t = hex_lower(data);
    assert(vstd::utf8::is_ascii_chars(t)) by {
        assert forall|i: int| 0 <= i < t.len() implies '\0' <= #[trigger] t[i] <= '\u{7f}' by {
            let q = if i % 2 == 0 { data[i / 2] as int / 16 } else { data[i / 2] as int % 16 };
            assert(0 <= q < 16);
        }
    }
    vstd::utf8::is_ascii_chars_encode_utf8(t);
    let s = vstd::utf8::encode_utf8(t);
    assert forall|j: int| 0 <= j < s.len() implies is_hex_digit(#[trigger] s[j]) by {
        let q = if j % 2 == 0 { data[j / 2] as int / 16 } else { data[j / 2] as int % 16 };
        assert(0 <= q < 16);
    }
    assert forall|i: int| 0 <= i < data.len() implies #[trigger] hex_pairs(s, data.len() as int)[i]
        == data[i] by {
        let x = data[i] as int;
        assert((2 * i) / 2 == i);
        assert((2 * i + 1) / 2 == i);
        assert((2 * i) % 2 == 0);
        assert((2 * i + 1) % 2 == 1);
        assert(x / 16 * 16 + x % 16 == x);
    }
    assert(hex_pairs(s, data.len() as int) =~= data);
}

} // verus!
