//! Fixed-width integer encodings and the byte/text codecs used by the
//! order formats.
use vstd::prelude::*;

verus! {

/// `256^n`.
pub open spec fn pow256(n: nat) -> nat
    decreases n,
{
    if n == 0 {
        1
    } else {
        256 * pow256((n - 1) as nat)
    }
}

/// The `n` low-order bytes of `v`, most significant first.
pub open spec fn be_bytes(v: nat, n: nat) -> Seq<u8>
    decreases n,
{
    if n == 0 {
        Seq::empty()
    } else {
        be_bytes(v / 256, (n - 1) as nat).push((v % 256) as u8)
    }
}

/// The value of a little-endian byte string.
pub open spec fn le_value(s: Seq<u8>) -> nat
    decreases s.len(),
{
    if s.len() == 0 {
        0
    } else {
        (s[0] + 256 * le_value(s.drop_first())) as nat
    }
}

pub proof fn lemma_be_bytes_len(v: nat, n: nat)
    ensures
        be_bytes(v, n).len() == n,
    decreases n,
{
    if n > 0 {
        lemma_be_bytes_len(v / 256, (n - 1) as nat);
    }
}

pub proof fn lemma_le_value_bound(s: Seq<u8>)
    ensures
        le_value(s) < pow256(s.len()),
    decreases s.len(),
{
    if s.len() > 0 {
        lemma_le_value_bound(s.drop_first());
    }
}

pub proof fn lemma_pow256_16()
    ensures
        pow256(16) == 0x1_0000_0000_0000_0000_0000_0000_0000_0000,
{
    reveal_with_fuel(pow256, 17);
}

/// Appends the `n` low-order bytes of `v` to `out`, most significant first.
pub fn append_be(out: &mut Vec<u8>, v: u128, n: usize)
    requires
        n <= 16,
    ensures
        final(out)@ == old(out)@ + be_bytes(v as nat, n as nat),
    decreases n,
{
    if n > 0 {
        append_be(out, v / 256, n - 1);
        out.push((v % 256) as u8);
        proof {
            assert(final(out)@ =~= old(out)@ + be_bytes(v as nat, n as nat));
        }
    }
}

/// Reads `n` bytes starting at `start` as a little-endian integer.
pub fn read_le(data: &[u8], start: usize, n: usize) -> (v: u128)
    requires
        n <= 16,
        start + n <= data.len(),
    ensures
        v == le_value(data@.subrange(start as int, start + n)),
    decreases n,
{
    if n == 0 {
        0
    } else {
        let rest = read_le(data, start + 1, n - 1);
        proof {
            let s = data@.subrange(start as int, start + n);
            assert(s.drop_first() =~= data@.subrange(start + 1, start + n));
            lemma_le_value_bound(data@.subrange(start + 1, start + n));
            lemma_le_value_bound(s);
            lemma_pow256_16();
            assert(pow256(n as nat) == 256 * pow256((n - 1) as nat));
            assert(pow256(n as nat) <= pow256(16)) by {
                lemma_pow256_mono(n as nat, 16);
            }
        }
        data[start] as u128 + 256 * rest
    }
}

pub proof fn lemma_pow256_mono(a: nat, b: nat)
    requires
        a <= b,
    ensures
        pow256(a) <= pow256(b),
    decreases b,
{
    if a < b {
        lemma_pow256_mono(a, (b - 1) as nat);
    }
}


/// Appends every byte of `data` to `out`.
pub fn extend_bytes(out: &mut Vec<u8>, data: &[u8])
    ensures
        final(out)@ == old(out)@ + data@,
{
    let n = data.len();
    for i in 0..n
        invariant
            n == data@.len(),
            out@ == old(out)@ + data@.subrange(0, i as int),
    {
        out.push(data[i]);
        proof {
            assert(data@.subrange(0, i + 1) =~= data@.subrange(0, i as int).push(data@[i as int]));
        }
    }
    proof {
        assert(data@.subrange(0, n as int) =~= data@);
    }
}

/// The character of a hexadecimal digit `d < 16`, lower case.
pub open spec fn hex_digit_char(d: u8) -> char {
    if d < 10 {
        ((d + 48) as u8) as char
    } else {
        ((d + 87) as u8) as char
    }
}

/// Lower-case hexadecimal text of a byte string, two characters per byte.
pub open spec fn hex_text(data: Seq<u8>) -> Seq<char>
    decreases data.len(),
{
    if data.len() == 0 {
        Seq::empty()
    } else {
        seq![hex_digit_char(data[0] / 16), hex_digit_char(data[0] % 16)] + hex_text(
            data.drop_first(),
        )
    }
}

/// The value of one hexadecimal digit character (either case), if it is one.
pub open spec fn hex_digit_value(c: u8) -> Option<u8> {
    if 48 <= c <= 57 {
        Some((c - 48) as u8)
    } else if 97 <= c <= 102 {
        Some((c - 87) as u8)
    } else if 65 <= c <= 70 {
        Some((c - 55) as u8)
    } else {
        None
    }
}

/// The bytes that a hexadecimal text stands for: `None` for an odd length
/// or a character that is not a hexadecimal digit.
pub open spec fn hex_bytes(text: Seq<u8>) -> Option<Seq<u8>>
    decreases text.len(),
{
    if text.len() == 0 {
        Some(Seq::empty())
    } else if text.len() == 1 {
        None
    } else {
        match (hex_digit_value(text[0]), hex_digit_value(text[1]), hex_bytes(
            text.subrange(2, text.len() as int),
        )) {
            (Some(h), Some(l), Some(rest)) => Some(seq![(h * 16 + l) as u8] + rest),
            _ => None,
        }
    }
}

/// `hex::encode`: lower-case hexadecimal text of `data`, two digits per byte.
#[verifier::external_body]
pub fn hex_encode(data: &[u8]) -> (text: String)
    ensures
        text@ == hex_text(data@),
{
    hex::encode(data)
}

/// The text of the error `hex::decode` reports for a text that is not
/// hexadecimal.
pub uninterp spec fn hex_error_text(text: Seq<u8>) -> Seq<char>;

/// `hex::decode`: the bytes of a hexadecimal text (either case), or the
/// text of the error where the length is odd or a byte is not a
/// hexadecimal digit.
#[verifier::external_body]
pub fn hex_decode(text: &[u8]) -> (data: Result<Vec<u8>, String>)
    ensures
        match data {
            Ok(d) => hex_bytes(text@) == Some(d@),
            Err(m) => hex_bytes(text@) is None && m@ == hex_error_text(text@),
        },
{
    hex::decode(text).map_err(|e| e.to_string())
}

/// What `bs58::decode` (Bitcoin alphabet) gives for a text, `None` where the
/// text is not base58.
pub uninterp spec fn base58_decoding(text: Seq<u8>) -> Option<Seq<u8>>;

/// The text of the error `bs58::decode` reports for a text that is not
/// base58.
pub uninterp spec fn base58_error_text(text: Seq<u8>) -> Seq<char>;

/// `bs58::decode(..).into_vec()`: the bytes of a base58 text, or the text
/// of the error.
#[verifier::external_body]
pub fn base58_decode(text: &[u8]) -> (data: Result<Vec<u8>, String>)
    ensures
        match data {
            Ok(d) => base58_decoding(text@) == Some(d@),
            Err(m) => base58_decoding(text@) is None && m@ == base58_error_text(text@),
        },
{
    bs58::decode(text).into_vec().map_err(|e| e.to_string())
}

/// What `bs58::encode` (Bitcoin alphabet) gives for a byte string.
pub uninterp spec fn base58_encoding(data: Seq<u8>) -> Seq<char>;

/// `bs58::encode(..).into_string()`: the base58 text of `data`.
#[verifier::external_body]
pub fn base58_encode(data: &[u8]) -> (text: String)
    ensures
        text@ == base58_encoding(data@),
{
    bs58::encode(data).into_string()
}

/// Copies `bytes` into the tail of a 32-byte string that starts with
/// `32 - bytes.len()` zeros.
pub fn left_pad_32(bytes: &Vec<u8>) -> (out: [u8; 32])
    requires
        bytes@.len() <= 32,
    ensures
        out@ == Seq::new((32 - bytes@.len()) as nat, |i: int| 0u8) + bytes@,
{
    let mut out = [0u8; 32];
    let n = bytes.len();
    let start = 32 - n;
    for i in 0..n
        invariant
            n == bytes@.len(),
            start == 32 - n,
            forall|j: int| 0 <= j < start ==> out@[j] == 0,
            forall|j: int| start <= j < start + i ==> out@[j] == bytes@[j - start],
            out@.len() == 32,
    {
        out[start + i] = bytes[i];
    }
    proof {
        assert(out@ =~= Seq::new((32 - bytes@.len()) as nat, |i: int| 0u8) + bytes@);
    }
    out
}

/// Big-endian encodings of values that fit in `n` bytes differ when the
/// values do.
pub proof fn lemma_be_bytes_injective(v: nat, w: nat, n: nat)
    requires
        v < pow256(n),
        w < pow256(n),
        be_bytes(v, n) == be_bytes(w, n),
    ensures
        v == w,
    decreases n,
{
    if n > 0 {
        let a = be_bytes(v / 256, (n - 1) as nat);
        let b = be_bytes(w / 256, (n - 1) as nat);
        lemma_be_bytes_len(v / 256, (n - 1) as nat);
        lemma_be_bytes_len(w / 256, (n - 1) as nat);
        assert(be_bytes(v, n) == a.push((v % 256) as u8));
        assert(be_bytes(w, n) == b.push((w % 256) as u8));
        assert(be_bytes(v, n).drop_last() =~= a);
        assert(be_bytes(w, n).drop_last() =~= b);
        assert(be_bytes(v, n).last() == (v % 256) as u8);
        assert(v / 256 < pow256((n - 1) as nat));
        assert(w / 256 < pow256((n - 1) as nat));
        lemma_be_bytes_injective(v / 256, w / 256, (n - 1) as nat);
    }
}

/// `256^n` for the integer widths of the order formats.
pub proof fn lemma_pow256_values()
    ensures
        pow256(2) == 0x1_0000,
        pow256(4) == 0x1_0000_0000,
        pow256(8) == 0x1_0000_0000_0000_0000,
        pow256(16) == 0x1_0000_0000_0000_0000_0000_0000_0000_0000,
{
    reveal_with_fuel(pow256, 17);
}

/// The `n` low-order bytes of `v`, least significant first.
pub open spec fn le_bytes(v: nat, n: nat) -> Seq<u8>
    decreases n,
{
    if n == 0 {
        Seq::empty()
    } else {
        seq![(v % 256) as u8] + le_bytes(v / 256, (n - 1) as nat)
    }
}

pub proof fn lemma_le_bytes_len(v: nat, n: nat)
    ensures
        le_bytes(v, n).len() == n,
    decreases n,
{
    if n > 0 {
        lemma_le_bytes_len(v / 256, (n - 1) as nat);
    }
}

/// Appends the `n` low-order bytes of `v` to `out`, least significant first.
pub fn append_le(out: &mut Vec<u8>, v: u128, n: usize)
    requires
        n <= 16,
    ensures
        final(out)@ == old(out)@ + le_bytes(v as nat, n as nat),
    decreases n,
{
    if n > 0 {
        out.push((v % 256) as u8);
        append_le(out, v / 256, n - 1);
        proof {
            assert(final(out)@ =~= old(out)@ + le_bytes(v as nat, n as nat));
        }
    }
}

/// The 32 bytes of `data` from `start`.
pub fn read_bytes32(data: &[u8], start: usize) -> (out: [u8; 32])
    requires
        start + 32 <= data@.len(),
    ensures
        out@ == data@.subrange(start as int, start + 32),
{
    let mut out = [0u8; 32];
    let len = data.len();
    for i in 0..32
        invariant
            start + 32 <= len,
            len == data@.len(),
            out@.len() == 32,
            forall|j: int| 0 <= j < i ==> out@[j] == data@[start + j],
    {
        out[i] = data[start + i];
    }
    proof {
        assert(out@ =~= data@.subrange(start as int, start + 32));
    }
    out
}


/// The value of a big-endian byte string.
pub open spec fn be_value(s: Seq<u8>) -> nat
    decreases s.len(),
{
    if s.len() == 0 {
        0
    } else {
        (be_value(s.drop_last()) * 256 + s.last()) as nat
    }
}

pub proof fn lemma_be_value_bound(s: Seq<u8>)
    ensures
        be_value(s) < pow256(s.len()),
    decreases s.len(),
{
    if s.len() > 0 {
        lemma_be_value_bound(s.drop_last());
        let v = be_value(s.drop_last());
        let p = pow256((s.len() - 1) as nat);
        assert(v * 256 + s.last() < p * 256) by (nonlinear_arith)
            requires
                v < p,
                s.last() < 256,
        ;
    }
}

/// Reads `n` bytes starting at `start` as a big-endian integer.
pub fn read_be(data: &[u8], start: usize, n: usize) -> (v: u128)
    requires
        n <= 16,
        start + n <= data.len(),
    ensures
        v == be_value(data@.subrange(start as int, start + n)),
    decreases n,
{
    if n == 0 {
        0
    } else {
        let high = read_be(data, start, n - 1);
        proof {
            let s = data@.subrange(start as int, start + n);
            assert(s.drop_last() =~= data@.subrange(start as int, start + n - 1));
            lemma_be_value_bound(s);
            lemma_pow256_16();
            lemma_pow256_mono(n as nat, 16);
        }
        high * 256 + data[start + n - 1] as u128
    }
}


/// Reading back the `n` big-endian bytes of a value that fits in them
/// gives the value.
pub proof fn lemma_be_value_of_be_bytes(v: nat, n: nat)
    requires
        v < pow256(n),
    ensures
        be_value(be_bytes(v, n)) == v,
    decreases n,
{
    if n > 0 {
        let p = pow256((n - 1) as nat);
        assert(v / 256 < p) by (nonlinear_arith)
            requires
                v < 256 * p,
        ;
        lemma_be_value_of_be_bytes(v / 256, (n - 1) as nat);
        let s = be_bytes(v, n);
        assert(s.drop_last() =~= be_bytes(v / 256, (n - 1) as nat));
        assert((v / 256) * 256 + v % 256 == v) by (nonlinear_arith);
    }
}


/// A byte string is the big-endian bytes of its own value.
pub proof fn lemma_be_bytes_of_be_value(s: Seq<u8>)
    ensures
        s == be_bytes(be_value(s), s.len()),
    decreases s.len(),
{
    if s.len() > 0 {
        let r = s.drop_last();
        lemma_be_bytes_of_be_value(r);
        let v = be_value(s);
        let w = be_value(r);
        let b = s.last();
        assert(v / 256 == w && v % 256 == b) by (nonlinear_arith)
            requires
                v == w * 256 + b,
                0 <= b < 256,
        ;
        assert(s =~= r.push(b));
    }
}


/// Reading back the `n` little-endian bytes of a value that fits in them
/// gives the value.
pub proof fn lemma_le_value_of_le_bytes(v: nat, n: nat)
    requires
        v < pow256(n),
    ensures
        le_value(le_bytes(v, n)) == v,
    decreases n,
{
    if n > 0 {
        let p = pow256((n - 1) as nat);
        assert(v / 256 < p) by (nonlinear_arith)
            requires
                v < 256 * p,
        ;
        lemma_le_value_of_le_bytes(v / 256, (n - 1) as nat);
        let s = le_bytes(v, n);
        assert(s.drop_first() =~= le_bytes(v / 256, (n - 1) as nat));
        assert(v % 256 + 256 * (v / 256) == v) by (nonlinear_arith);
    }
}

} // verus!
