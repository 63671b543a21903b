//! Unpadded URL-safe base64 (base64url) decoding, with an encoder used to
//! state and test the round-trip law.
//!
//! Alphabet: `A-Z`, `a-z`, `0-9`, `-`, `_` mapped to the values 0..63.
//! Trailing `=` characters are stripped and ignored; any other byte outside
//! the alphabet is rejected.  Decoding accumulates 6-bit groups into a bit
//! buffer and emits the top 8 bits whenever at least 8 are buffered, so
//! 6·n input bits yield ⌊6·n/8⌋ output bytes and up to 7 leftover low bits
//! are discarded.

use vstd::prelude::*;
use vstd::arithmetic::div_mod::{lemma_div_denominator, lemma_fundamental_div_mod_converse};
use vstd::arithmetic::power2::{lemma_pow2_adds, lemma_pow2_pos, lemma2_to64, pow2};

use crate::errors::AuthError;

verus! {

/// Whether `c` is in the base64url alphabet.
pub open spec fn is_base64url_char(c: u8) -> bool {
    (65 <= c <= 90) || (97 <= c <= 122) || (48 <= c <= 57) || c == 45 || c == 95
}

/// The 6-bit value of an alphabet byte (meaningful only when
/// `is_base64url_char(c)` holds).
pub open spec fn char_value(c: u8) -> int {
    if 65 <= c <= 90 {
        c - 65
    } else if 97 <= c <= 122 {
        c - 97 + 26
    } else if 48 <= c <= 57 {
        c - 48 + 52
    } else if c == 45 {
        62
    } else {
        63
    }
}

/// The alphabet byte encoding a 6-bit value.
pub open spec fn char_of_value(v: int) -> u8 {
    if 0 <= v < 26 {
        (65 + v) as u8
    } else if 26 <= v < 52 {
        (97 + (v - 26)) as u8
    } else if 52 <= v < 62 {
        (48 + (v - 52)) as u8
    } else if v == 62 {
        45
    } else {
        95
    }
}

/// Whether every byte of `s` is in the alphabet.
pub open spec fn all_base64url(s: Seq<u8>) -> bool {
    forall|i: int| 0 <= i < s.len() ==> #[trigger] is_base64url_char(s[i])
}

/// `s` without its trailing `=` bytes.
pub open spec fn strip_padding(s: Seq<u8>) -> Seq<u8>
    decreases s.len(),
{
    if s.len() > 0 && s.last() == 61 {
        strip_padding(s.drop_last())
    } else {
        s
    }
}

/// The big-endian value of a char sequence read as 6-bit groups.
pub open spec fn group_value(s: Seq<u8>) -> int
    decreases s.len(),
{
    if s.len() == 0 {
        0
    } else {
        group_value(s.drop_last()) * 64 + char_value(s.last())
    }
}

/// The big-endian value of a byte sequence.
pub open spec fn bytes_value(b: Seq<u8>) -> int
    decreases b.len(),
{
    if b.len() == 0 {
        0
    } else {
        bytes_value(b.drop_last()) * 256 + b.last()
    }
}

/// The byte sequence of length `len` whose big-endian value is `n`
/// (for `0 <= n < 256^len`).
pub open spec fn bytes_of_value(n: int, len: nat) -> Seq<u8> {
    Seq::new(
        len,
        |j: int|
            ((n / vstd::arithmetic::power2::pow2((8 * (len - 1 - j)) as nat) as int) % 256) as u8,
    )
}

/// What `decode` returns: strip trailing `=`, then, if every remaining byte
/// is in the alphabet, the ⌊6·n/8⌋ bytes made of the concatenated 6-bit
/// groups (low leftover bits discarded); otherwise no value.
pub open spec fn decode_spec(s: Seq<u8>) -> Option<Seq<u8>> {
    let t = strip_padding(s);
    if all_base64url(t) {
        Some(
            bytes_of_value(
                group_value(t) / vstd::arithmetic::power2::pow2(((6 * t.len()) % 8) as nat) as int,
                ((6 * t.len()) / 8) as nat,
            ),
        )
    } else {
        None
    }
}

proof fn lemma_bytes_value_nonneg(b: Seq<u8>)
    ensures
        bytes_value(b) >= 0,
    decreases b.len(),
{
    if b.len() > 0 {
        lemma_bytes_value_nonneg(b.drop_last());
    }
}

/// A byte sequence is recovered from its big-endian value and its length.
proof fn lemma_bytes_of_value_id(b: Seq<u8>)
    ensures
        bytes_of_value(bytes_value(b), b.len()) == b,
    decreases b.len(),
{
    if b.len() == 0 {
        assert(bytes_of_value(bytes_value(b), b.len()) =~= b);
    } else {
        let n = b.len() as int;
        let prefix = b.drop_last();
        let v = bytes_value(b);
        lemma_bytes_of_value_id(prefix);
        lemma_bytes_value_nonneg(prefix);
        lemma_fundamental_div_mod_converse(v, 256, bytes_value(prefix), b.last() as int);
        assert forall|j: int| 0 <= j < n implies bytes_of_value(v, b.len())[j] == b[j] by {
            lemma2_to64();
            if j == n - 1 {
                lemma_bytes_value_nonneg(b);
                lemma_fundamental_div_mod_converse(v, 1, v, 0);
                assert(v / pow2(0) as int == v);
                assert(v % 256 == b.last());
                assert(bytes_of_value(v, b.len())[j] == ((v % 256) as u8));
            } else {
                let e: nat = (8 * (n - 2 - j)) as nat;
                lemma_pow2_pos(e);
                lemma_div_denominator(v, 256, pow2(e) as int);
                lemma_pow2_adds(8, e);
                assert(pow2((8 * (n - 1 - j)) as nat) == 256 * pow2(e));
                assert(v / pow2((8 * (n - 1 - j)) as nat) as int == (v / 256) / pow2(e) as int);
                assert(v / 256 == bytes_value(prefix));
                assert(bytes_of_value(bytes_value(prefix), prefix.len())[j] == prefix[j]);
                assert(bytes_of_value(v, b.len())[j] == ((bytes_value(prefix) / pow2(e) as int
                    % 256) as u8));
            }
        }
        assert(bytes_of_value(v, b.len()) =~= b);
    }
}

/// One emission step of the streaming decoder: pushing the top 8 buffered
/// bits keeps the big-endian value of (output bytes, leftover bits) equal to
/// the value of the consumed 6-bit groups.
proof fn lemma_decode_step(
    out0: Seq<u8>,
    out1: Seq<u8>,
    emitted: u32,
    len0: nat,
    acc0: u32,
    a2: u32,
    d: u32,
    rem: u32,
    g: int,
    v: u8,
)
    requires
        len0 == 2 || len0 == 4 || len0 == 6,
        out1 == out0.push((emitted as u8)),
        emitted < 256,
        a2 == acc0 * 64 + v,
        d == pow2((len0 - 2) as nat),
        a2 == d * emitted + rem,
        g == bytes_value(out0) * pow2(len0) + acc0,
    ensures
        bytes_value(out1) * pow2((len0 - 2) as nat) + rem == g * 64 + v,
{
    lemma2_to64();
    lemma_pow2_adds(2, (len0 - 2) as nat);
    assert(out1.drop_last() =~= out0);
    assert(bytes_value(out1) == bytes_value(out0) * 256 + emitted);
    assert(pow2(len0) == 4 * d) by (nonlinear_arith)
        requires
            pow2(len0) == pow2(2) * pow2((len0 - 2) as nat),
            pow2(2) == 4,
            d == pow2((len0 - 2) as nat),
    ;
    assert(bytes_value(out1) * pow2((len0 - 2) as nat) + rem == g * 64 + v) by (nonlinear_arith)
        requires
            bytes_value(out1) == bytes_value(out0) * 256 + emitted,
            pow2(len0) == 4 * d,
            d == pow2((len0 - 2) as nat),
            a2 == d * emitted + rem,
            a2 == acc0 * 64 + v,
            g == bytes_value(out0) * pow2(len0) + acc0,
    ;
}

/// Decode one alphabet byte to its 6-bit value.
pub fn decode_char(byte: u8) -> (r: Result<u8, AuthError>)
    ensures
        match r {
            Ok(v) => is_base64url_char(byte) && v == char_value(byte),
            Err(e) => !is_base64url_char(byte) && e == AuthError::InvalidBase64Character,
        },
{
    if 65 <= byte && byte <= 90 {
        Ok(byte - 65)
    } else if 97 <= byte && byte <= 122 {
        Ok(byte - 97 + 26)
    } else if 48 <= byte && byte <= 57 {
        Ok(byte - 48 + 52)
    } else if byte == 45 {
        Ok(62)
    } else if byte == 95 {
        Ok(63)
    } else {
        Err(AuthError::InvalidBase64Character)
    }
}

/// Decode unpadded base64url text to raw bytes.
///
/// Trailing `=` bytes are stripped first; every remaining byte must be in
/// the alphabet, else the input is rejected.  Empty input yields empty
/// output.
pub fn decode(input: &Vec<u8>) -> (r: Result<Vec<u8>, AuthError>)
    ensures
        match r {
            Ok(out) => decode_spec(input@) == Some(out@),
            Err(e) => decode_spec(input@) is None && e == AuthError::InvalidBase64Character,
        },
{
    let mut end: usize = input.len();
    proof {
        assert(input@.take(end as int) =~= input@);
    }
    while end > 0 && input[end - 1] == 61
        invariant
            end <= input@.len(),
            strip_padding(input@) == strip_padding(input@.take(end as int)),
        decreases end,
    {
        proof {
            assert(input@.take(end as int).drop_last() =~= input@.take(end - 1));
        }
        end = end - 1;
    }
    let ghost t = input@.take(end as int);
    proof {
        assert(strip_padding(input@) == t);
    }

    let mut out: Vec<u8> = Vec::new();
    let mut acc: u32 = 0;
    let mut acc_len: u32 = 0;
    let mut i: usize = 0;
    proof {
        lemma2_to64();
    }
    while i < end
        invariant
            i <= end <= input@.len(),
            t == input@.take(end as int),
            t == strip_padding(input@),
            t.len() == end,
            all_base64url(t.take(i as int)),
            acc_len == 0 || acc_len == 2 || acc_len == 4 || acc_len == 6,
            8 * out@.len() + acc_len == 6 * i,
            acc < pow2(acc_len as nat),
            bytes_value(out@) * pow2(acc_len as nat) as int + acc == group_value(t.take(i as int)),
        decreases end - i,
    {
        let c = input[i];
        let v = match decode_char(c) {
            Ok(v) => v,
            Err(e) => {
                proof {
                    assert(t[i as int] == c && !is_base64url_char(t[i as int]));
                }
                return Err(e);
            },
        };
        proof {
            lemma2_to64();
            assert(t.take(i + 1).drop_last() =~= t.take(i as int));
            assert(t.take(i + 1).last() == t[i as int]);
            assert(group_value(t.take(i + 1)) == group_value(t.take(i as int)) * 64 + v);
        }
        let a2: u32 = acc * 64 + v as u32;
        if acc_len + 6 >= 8 {
            let new_len: u32 = acc_len - 2;
            let d: u32 = if new_len == 0 {
                1
            } else if new_len == 2 {
                4
            } else {
                16
            };
            let emitted: u32 = a2 / d;
            let rem: u32 = a2 % d;
            let ghost out0 = out@;
            let ghost len0 = acc_len;
            let ghost acc0 = acc;
            proof {
                assert(d == pow2(new_len as nat) && a2 < 256 * d && emitted < 256);
                vstd::arithmetic::div_mod::lemma_fundamental_div_mod(a2 as int, d as int);
            }
            out.push(emitted as u8);
            acc = rem;
            acc_len = new_len;
            proof {
                lemma_decode_step(
                    out0,
                    out@,
                    emitted,
                    len0 as nat,
                    acc0,
                    a2,
                    d,
                    rem,
                    group_value(t.take(i as int)),
                    v,
                );
            }
        } else {
            acc = a2;
            acc_len = 6;
        }
        i = i + 1;
    }
    proof {
        assert(t.take(end as int) =~= t);
        lemma_bytes_value_nonneg(out@);
        lemma_pow2_pos(acc_len as nat);
        lemma_fundamental_div_mod_converse(6 * t.len() as int, 8, out@.len() as int, acc_len as int);
        lemma_fundamental_div_mod_converse(
            group_value(t),
            pow2(acc_len as nat) as int,
            bytes_value(out@),
            acc as int,
        );
        lemma_bytes_of_value_id(out@);
    }
    Ok(out)
}

/// How many zero bits the encoder appends so that `8·m` input bits fill
/// whole 6-bit groups.
pub open spec fn pad_bits(m: nat) -> nat
    decreases m,
{
    if m == 0 {
        0
    } else if m == 1 {
        4
    } else if m == 2 {
        2
    } else {
        pad_bits((m - 3) as nat)
    }
}

/// The two alphabet bytes carrying one final input byte plus 4 zero bits.
pub open spec fn encode_tail1(b0: u8) -> Seq<u8> {
    seq![char_of_value(b0 as int / 4), char_of_value((b0 as int % 4) * 16)]
}

/// The three alphabet bytes carrying two final input bytes plus 2 zero bits.
pub open spec fn encode_tail2(b0: u8, b1: u8) -> Seq<u8> {
    seq![
        char_of_value(b0 as int / 4),
        char_of_value((b0 as int % 4) * 16 + b1 as int / 16),
        char_of_value((b1 as int % 16) * 4),
    ]
}

/// The four alphabet bytes carrying three input bytes exactly.
pub open spec fn encode_group(b0: u8, b1: u8, b2: u8) -> Seq<u8> {
    seq![
        char_of_value(b0 as int / 4),
        char_of_value((b0 as int % 4) * 16 + b1 as int / 16),
        char_of_value((b1 as int % 16) * 4 + b2 as int / 64),
        char_of_value(b2 as int % 64),
    ]
}

/// What `urlsafe_base64_encode` returns: the 6-bit groups of the input bits,
/// zero-padded at the end, as alphabet bytes; no `=` padding.
pub open spec fn encode_spec(b: Seq<u8>) -> Seq<u8>
    decreases b.len(),
{
    if b.len() == 0 {
        Seq::empty()
    } else if b.len() == 1 {
        encode_tail1(b[0])
    } else if b.len() == 2 {
        encode_tail2(b[0], b[1])
    } else {
        encode_group(b[0], b[1], b[2]) + encode_spec(b.skip(3))
    }
}

/// Encoding and decoding invert the same 6-bit alphabet map, and no encoded
/// byte is the padding byte `=`.
proof fn lemma_char_of_value_props(v: int)
    requires
        0 <= v < 64,
    ensures
        is_base64url_char(char_of_value(v)),
        char_value(char_of_value(v)) == v,
        char_of_value(v) != 61,
{
}

/// Every byte is in the alphabet and none is `=`.
spec fn all_encoding_chars(s: Seq<u8>) -> bool {
    forall|i: int| 0 <= i < s.len() ==> is_base64url_char(#[trigger] s[i]) && s[i] != 61
}

proof fn lemma_group_value_concat(x: Seq<u8>, y: Seq<u8>)
    ensures
        group_value(x + y) == group_value(x) * pow2((6 * y.len()) as nat) + group_value(y),
    decreases y.len(),
{
    lemma2_to64();
    if y.len() == 0 {
        assert(x + y =~= x);
        assert(group_value(y) == 0);
        assert(pow2((6 * y.len()) as nat) == 1);
        assert(group_value(x) * pow2((6 * y.len()) as nat) == group_value(x)) by (nonlinear_arith)
            requires
                pow2((6 * y.len()) as nat) == 1,
        ;
    } else {
        lemma_group_value_concat(x, y.drop_last());
        assert((x + y).drop_last() =~= x + y.drop_last());
        assert((x + y).last() == y.last());
        assert(group_value(x + y) == group_value(x + y.drop_last()) * 64 + char_value(y.last()));
        assert(group_value(y) == group_value(y.drop_last()) * 64 + char_value(y.last()));
        lemma_pow2_adds((6 * (y.len() - 1)) as nat, 6);
        assert(pow2((6 * y.len()) as nat) == pow2((6 * (y.len() - 1)) as nat) * 64);
        assert(group_value(x + y) == group_value(x) * pow2((6 * y.len()) as nat) + group_value(y))
            by (nonlinear_arith)
            requires
                group_value(x + y) == (group_value(x) * pow2((6 * (y.len() - 1)) as nat)
                    + group_value(y.drop_last())) * 64 + char_value(y.last()),
                group_value(y) == group_value(y.drop_last()) * 64 + char_value(y.last()),
                pow2((6 * y.len()) as nat) == pow2((6 * (y.len() - 1)) as nat) * 64,
        ;
    }
}

proof fn lemma_bytes_value_concat(x: Seq<u8>, y: Seq<u8>)
    ensures
        bytes_value(x + y) == bytes_value(x) * pow2((8 * y.len()) as nat) + bytes_value(y),
    decreases y.len(),
{
    lemma2_to64();
    if y.len() == 0 {
        assert(x + y =~= x);
        assert(bytes_value(y) == 0);
        assert(pow2((8 * y.len()) as nat) == 1);
        assert(bytes_value(x) * pow2((8 * y.len()) as nat) == bytes_value(x)) by (nonlinear_arith)
            requires
                pow2((8 * y.len()) as nat) == 1,
        ;
    } else {
        lemma_bytes_value_concat(x, y.drop_last());
        assert((x + y).drop_last() =~= x + y.drop_last());
        assert((x + y).last() == y.last());
        assert(bytes_value(x + y) == bytes_value(x + y.drop_last()) * 256 + y.last());
        assert(bytes_value(y) == bytes_value(y.drop_last()) * 256 + y.last());
        lemma_pow2_adds((8 * (y.len() - 1)) as nat, 8);
        assert(pow2((8 * y.len()) as nat) == pow2((8 * (y.len() - 1)) as nat) * 256);
        assert(bytes_value(x + y) == bytes_value(x) * pow2((8 * y.len()) as nat) + bytes_value(y))
            by (nonlinear_arith)
            requires
                bytes_value(x + y) == (bytes_value(x) * pow2((8 * (y.len() - 1)) as nat)
                    + bytes_value(y.drop_last())) * 256 + y.last(),
                bytes_value(y) == bytes_value(y.drop_last()) * 256 + y.last(),
                pow2((8 * y.len()) as nat) == pow2((8 * (y.len() - 1)) as nat) * 256,
        ;
    }
}

proof fn lemma_encode_tail1_props(b0: u8)
    ensures
        encode_tail1(b0).len() == 2,
        all_encoding_chars(encode_tail1(b0)),
        group_value(encode_tail1(b0)) == b0 * 16,
{
    let e = encode_tail1(b0);
    reveal_with_fuel(group_value, 4);
    vstd::arithmetic::div_mod::lemma_fundamental_div_mod(b0 as int, 4);
    lemma_char_of_value_props(b0 as int / 4);
    lemma_char_of_value_props((b0 as int % 4) * 16);
    assert(e.drop_last() =~= seq![char_of_value(b0 as int / 4)]);
    assert(seq![char_of_value(b0 as int / 4)].drop_last() =~= Seq::<u8>::empty());
    assert(group_value(e) == (b0 as int / 4) * 64 + (b0 as int % 4) * 16);
}

proof fn lemma_encode_tail2_props(b0: u8, b1: u8)
    ensures
        encode_tail2(b0, b1).len() == 3,
        all_encoding_chars(encode_tail2(b0, b1)),
        group_value(encode_tail2(b0, b1)) == (b0 * 256 + b1) * 4,
{
    let e = encode_tail2(b0, b1);
    reveal_with_fuel(group_value, 5);
    vstd::arithmetic::div_mod::lemma_fundamental_div_mod(b0 as int, 4);
    vstd::arithmetic::div_mod::lemma_fundamental_div_mod(b1 as int, 16);
    lemma_char_of_value_props(b0 as int / 4);
    lemma_char_of_value_props((b0 as int % 4) * 16 + b1 as int / 16);
    lemma_char_of_value_props((b1 as int % 16) * 4);
    assert(e.drop_last() =~= seq![
        char_of_value(b0 as int / 4),
        char_of_value((b0 as int % 4) * 16 + b1 as int / 16),
    ]);
    assert(e.drop_last().drop_last() =~= seq![char_of_value(b0 as int / 4)]);
    assert(seq![char_of_value(b0 as int / 4)].drop_last() =~= Seq::<u8>::empty());
    assert(group_value(e) == ((b0 as int / 4) * 64 + ((b0 as int % 4) * 16 + b1 as int / 16)) * 64
        + (b1 as int % 16) * 4);
}

proof fn lemma_encode_group_props(b0: u8, b1: u8, b2: u8)
    ensures
        encode_group(b0, b1, b2).len() == 4,
        all_encoding_chars(encode_group(b0, b1, b2)),
        group_value(encode_group(b0, b1, b2)) == b0 * 65536 + b1 * 256 + b2,
{
    let e = encode_group(b0, b1, b2);
    reveal_with_fuel(group_value, 6);
    vstd::arithmetic::div_mod::lemma_fundamental_div_mod(b0 as int, 4);
    vstd::arithmetic::div_mod::lemma_fundamental_div_mod(b1 as int, 16);
    vstd::arithmetic::div_mod::lemma_fundamental_div_mod(b2 as int, 64);
    lemma_char_of_value_props(b0 as int / 4);
    lemma_char_of_value_props((b0 as int % 4) * 16 + b1 as int / 16);
    lemma_char_of_value_props((b1 as int % 16) * 4 + b2 as int / 64);
    lemma_char_of_value_props(b2 as int % 64);
    assert(e.drop_last() =~= seq![
        char_of_value(b0 as int / 4),
        char_of_value((b0 as int % 4) * 16 + b1 as int / 16),
        char_of_value((b1 as int % 16) * 4 + b2 as int / 64),
    ]);
    assert(e.drop_last().drop_last() =~= seq![
        char_of_value(b0 as int / 4),
        char_of_value((b0 as int % 4) * 16 + b1 as int / 16),
    ]);
    assert(e.drop_last().drop_last().drop_last() =~= seq![char_of_value(b0 as int / 4)]);
    assert(seq![char_of_value(b0 as int / 4)].drop_last() =~= Seq::<u8>::empty());
    assert(group_value(e) == (((b0 as int / 4) * 64 + ((b0 as int % 4) * 16 + b1 as int / 16))
        * 64 + ((b1 as int % 16) * 4 + b2 as int / 64)) * 64 + (b2 as int % 64));
}

/// The encoder emits only alphabet bytes (never `=`), one 6-bit group per
/// byte, and the groups carry exactly the input bits followed by
/// `pad_bits` zero bits.
proof fn lemma_encode_props(b: Seq<u8>)
    ensures
        6 * encode_spec(b).len() == 8 * b.len() + pad_bits(b.len()),
        pad_bits(b.len()) <= 4,
        all_encoding_chars(encode_spec(b)),
        group_value(encode_spec(b)) == bytes_value(b) * pow2(pad_bits(b.len())),
    decreases b.len(),
{
    lemma2_to64();
    let e = encode_spec(b);
    if b.len() == 0 {
    } else if b.len() == 1 {
        lemma_encode_tail1_props(b[0]);
        reveal_with_fuel(bytes_value, 3);
        assert(b.drop_last() =~= Seq::<u8>::empty());
        assert(bytes_value(b) == b[0]);
    } else if b.len() == 2 {
        lemma_encode_tail2_props(b[0], b[1]);
        reveal_with_fuel(bytes_value, 3);
        assert(b.drop_last() =~= seq![b[0]]);
        assert(seq![b[0]].drop_last() =~= Seq::<u8>::empty());
        assert(bytes_value(b) == b[0] * 256 + b[1]);
    } else {
        let rest = b.skip(3);
        let head = encode_group(b[0], b[1], b[2]);
        lemma_encode_group_props(b[0], b[1], b[2]);
        lemma_encode_props(rest);
        lemma_group_value_concat(head, encode_spec(rest));
        assert(b =~= seq![b[0], b[1], b[2]] + rest);
        lemma_bytes_value_concat(seq![b[0], b[1], b[2]], rest);
        reveal_with_fuel(bytes_value, 5);
        assert(seq![b[0], b[1], b[2]].drop_last() =~= seq![b[0], b[1]]);
        assert(seq![b[0], b[1]].drop_last() =~= seq![b[0]]);
        assert(seq![b[0]].drop_last() =~= Seq::<u8>::empty());
        assert(bytes_value(seq![b[0], b[1], b[2]]) == b[0] * 65536 + b[1] * 256 + b[2]);
        let m3 = rest.len();
        let p = pad_bits(m3);
        assert(pad_bits(b.len()) == p);
        lemma_pow2_adds((8 * m3) as nat, p);
        assert(e == head + encode_spec(rest));
        assert(pow2((6 * encode_spec(rest).len()) as nat) == pow2((8 * m3) as nat) * pow2(p));
        assert forall|i: int| 0 <= i < e.len() implies is_base64url_char(#[trigger] e[i])
            && e[i] != 61 by {
            if i < 4 {
                assert(e[i] == head[i]);
                assert(is_base64url_char(head[i]) && head[i] != 61);
            } else {
                assert(e[i] == encode_spec(rest)[i - 4]);
                assert(is_base64url_char(encode_spec(rest)[i - 4]) && encode_spec(rest)[i - 4]
                    != 61);
            }
        }
        let b3v = bytes_value(seq![b[0], b[1], b[2]]);
        let rv = bytes_value(rest);
        let pw = pow2((8 * m3) as nat) as int;
        let pp = pow2(p) as int;
        assert(group_value(e) == b3v * (pw * pp) + rv * pp);
        assert(bytes_value(b) == b3v * pw + rv);
        assert(group_value(e) == bytes_value(b) * pow2(pad_bits(b.len()))) by (nonlinear_arith)
            requires
                group_value(e) == b3v * (pw * pp) + rv * pp,
                bytes_value(b) == b3v * pw + rv,
                pow2(pad_bits(b.len())) == pp,
        ;
    }
}

/// Law: decoding inverts encoding — for every byte string `b`,
/// `decode` accepts `urlsafe_base64_encode(b)` and returns `b` again.
pub proof fn lemma_decode_encode_round_trip(b: Seq<u8>)
    ensures
        decode_spec(encode_spec(b)) == Some(b),
{
    let e = encode_spec(b);
    lemma_encode_props(b);
    // no byte of e is '=', so stripping changes nothing
    if e.len() > 0 {
        assert(is_base64url_char(e[e.len() - 1]) && e[e.len() - 1] != 61);
        assert(e.last() != 61);
    }
    assert(strip_padding(e) == e);
    assert(all_base64url(e));
    let p = pad_bits(b.len());
    lemma_fundamental_div_mod_converse(6 * e.len() as int, 8, b.len() as int, p as int);
    lemma_bytes_value_nonneg(b);
    lemma_pow2_pos(p);
    vstd::arithmetic::div_mod::lemma_div_by_multiple(bytes_value(b), pow2(p) as int);
    assert(group_value(e) / pow2(p) as int == bytes_value(b));
    lemma_bytes_of_value_id(b);
}

proof fn lemma_strip_keeps(s: Seq<u8>, i: int)
    requires
        0 <= i < s.len(),
        s[i] != 61,
    ensures
        i < strip_padding(s).len(),
        strip_padding(s)[i] == s[i],
    decreases s.len(),
{
    if s.len() > 0 && s.last() == 61 {
        lemma_strip_keeps(s.drop_last(), i);
    }
}

/// Law: `decode` rejects any input holding a byte of the standard (non-URL)
/// base64 alphabet, `+` or `/`, wherever it stands.
pub proof fn lemma_decode_rejects_plus_slash(s: Seq<u8>, i: int)
    requires
        0 <= i < s.len(),
        s[i] == 43 || s[i] == 47,
    ensures
        decode_spec(s) is None,
{
    lemma_strip_keeps(s, i);
    assert(!is_base64url_char(strip_padding(s)[i]));
}

/// Encode an alphabet value (0..63) as its alphabet byte.
fn encode_char(v: u8) -> (r: u8)
    requires
        v < 64,
    ensures
        r == char_of_value(v as int),
{
    if v < 26 {
        65 + v
    } else if v < 52 {
        97 + (v - 26)
    } else if v < 62 {
        48 + (v - 52)
    } else if v == 62 {
        45
    } else {
        95
    }
}

/// Encode raw bytes as unpadded base64url text.
pub fn urlsafe_base64_encode(input: &Vec<u8>) -> (r: Vec<u8>)
    ensures
        r@ == encode_spec(input@),
{
    let n = input.len();
    let mut out: Vec<u8> = Vec::new();
    let mut i: usize = 0;
    proof {
        assert(input@.skip(0) =~= input@);
    }
    while i < n && n - i >= 3
        invariant
            i <= n == input@.len(),
            encode_spec(input@) == out@ + encode_spec(input@.skip(i as int)),
        decreases n - i,
    {
        let ghost out0 = out@;
        let ghost sk = input@.skip(i as int);
        let b0 = input[i];
        let b1 = input[i + 1];
        let b2 = input[i + 2];
        out.push(encode_char(b0 / 4));
        out.push(encode_char((b0 % 4) * 16 + b1 / 16));
        out.push(encode_char((b1 % 16) * 4 + b2 / 64));
        out.push(encode_char(b2 % 64));
        proof {
            assert(sk[0] == b0 && sk[1] == b1 && sk[2] == b2);
            assert(sk.skip(3) =~= input@.skip(i + 3));
            assert(out@ =~= out0 + seq![
                char_of_value(b0 as int / 4),
                char_of_value((b0 as int % 4) * 16 + b1 as int / 16),
                char_of_value((b1 as int % 16) * 4 + b2 as int / 64),
                char_of_value(b2 as int % 64),
            ]);
            assert(encode_spec(input@) =~= out@ + encode_spec(input@.skip(i + 3)));
        }
        i = i + 3;
    }
    if n - i == 1 {
        let ghost out0 = out@;
        let ghost sk = input@.skip(i as int);
        let b0 = input[i];
        out.push(encode_char(b0 / 4));
        out.push(encode_char((b0 % 4) * 16));
        proof {
            assert(sk.len() == 1 && sk[0] == b0);
            assert(out@ =~= out0 + seq![
                char_of_value(b0 as int / 4),
                char_of_value((b0 as int % 4) * 16),
            ]);
            assert(encode_spec(input@) =~= out@);
        }
    } else if n - i == 2 {
        let ghost out0 = out@;
        let ghost sk = input@.skip(i as int);
        let b0 = input[i];
        let b1 = input[i + 1];
        out.push(encode_char(b0 / 4));
        out.push(encode_char((b0 % 4) * 16 + b1 / 16));
        out.push(encode_char((b1 % 16) * 4));
        proof {
            assert(sk.len() == 2 && sk[0] == b0 && sk[1] == b1);
            assert(out@ =~= out0 + seq![
                char_of_value(b0 as int / 4),
                char_of_value((b0 as int % 4) * 16 + b1 as int / 16),
                char_of_value((b1 as int % 16) * 4),
            ]);
            assert(encode_spec(input@) =~= out@);
        }
    } else {
        proof {
            assert(input@.skip(i as int).len() == 0);
            assert(encode_spec(input@) =~= out@);
        }
    }
    out
}

} // verus!
