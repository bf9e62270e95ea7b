//! Web login token: the expected token `base64("user:pass")`.
//!
//! The token is derived once at boot from the configured user and password
//! and compared with what the login form submits. It mirrors HTTP Basic Auth's
//! encoding (RFC 4648 base64 with `=` padding) but is never sent in a
//! `WWW-Authenticate` header. Empty user and pass should be handled by the
//! caller as "auth disabled". Base64 over plain http:// is not encryption.
//!
//! A `user:pass` of at most 72 bytes (the most that the 96-character token
//! can encode; every login a configuration holds, 32-byte user, colon and
//! 32-byte password, is one) is gathered whole in a 72-byte `heapless::Vec`.
//! A longer one cannot be encoded whole; it is gathered in a 64-byte
//! `heapless::Vec`, which keeps only what fits: the user when it has at most
//! 64 bytes, the `:` when there is still room, the password when it fits in
//! what is left.
use vstd::prelude::*;
use vstd::utf8::{encode_utf8, is_ascii_chars};
use crate::fixed::{
    hstr96_chars, hstr96_new, hstr96_push, hvec64_as_slice, hvec64_bytes, hvec64_extend_from_slice,
    hvec64_new, hvec64_push, hvec72_as_slice, hvec72_bytes, hvec72_extend_from_slice, hvec72_new,
    hvec72_push,
};

verus! {

/// The byte `b':'`.
pub const COLON: u8 = 0x3a;

/// What a buffer of `cap` bytes keeps of `user`, `:` and `pass` appended in
/// turn, each only when it fits whole.
pub open spec fn kept_in_buffer(user: Seq<u8>, pass: Seq<u8>, cap: nat) -> Seq<u8> {
    let a = if user.len() <= cap {
        user
    } else {
        Seq::<u8>::empty()
    };
    let b = if a.len() < cap {
        a.push(COLON)
    } else {
        a
    };
    if b.len() + pass.len() <= cap {
        b + pass
    } else {
        b
    }
}

/// The bytes the token encodes: all of `user:pass` when it has at most 72
/// bytes, otherwise what a 64-byte buffer keeps of it.
pub open spec fn token_input(user: Seq<u8>, pass: Seq<u8>) -> Seq<u8> {
    if user.len() + 1 + pass.len() <= 72 {
        user + seq![COLON] + pass
    } else {
        kept_in_buffer(user, pass, 64)
    }
}

/// The base64 alphabet of RFC 4648, Table 1: `A`-`Z`, `a`-`z`, `0`-`9`, `+`, `/`.
pub open spec fn b64_alphabet(i: u32) -> char {
    if i < 26 {
        (0x41 + i) as char
    } else if i < 52 {
        (0x61 + (i - 26)) as char
    } else if i < 62 {
        (0x30 + (i - 52)) as char
    } else if i == 62 {
        '+'
    } else {
        '/'
    }
}

/// The four characters encoding a group of one to three bytes (`b` starts
/// with the group): each 6-bit piece of the 24-bit group, with `=` for the
/// pieces that only padding bytes fill.
pub open spec fn b64_quad(b: Seq<u8>) -> Seq<char> {
    let b1: int = if b.len() > 1 {
        b[1] as int
    } else {
        0
    };
    let b2: int = if b.len() > 2 {
        b[2] as int
    } else {
        0
    };
    let n: int = b[0] * 65536 + b1 * 256 + b2;
    seq![
        b64_alphabet((n / 262144 % 64) as u32),
        b64_alphabet((n / 4096 % 64) as u32),
        if b.len() > 1 {
            b64_alphabet((n / 64 % 64) as u32)
        } else {
            '='
        },
        if b.len() > 2 {
            b64_alphabet((n % 64) as u32)
        } else {
            '='
        },
    ]
}

/// Base64 with padding (RFC 4648 §4): each group of three bytes becomes four
/// characters, a last group of one or two bytes is padded with `=`.
pub open spec fn base64(b: Seq<u8>) -> Seq<char>
    decreases b.len(),
{
    if b.len() == 0 {
        Seq::empty()
    } else if b.len() <= 3 {
        b64_quad(b)
    } else {
        b64_quad(b) + base64(b.skip(3))
    }
}

/// The base64 character for a 6-bit value.
fn b64_char(i: u32) -> (res: char)
    requires
        i < 64,
    ensures
        res == b64_alphabet(i),
        '\0' <= res <= '\u{7f}',
{
    if i < 26 {
        ((0x41 + i) as u8) as char
    } else if i < 52 {
        ((0x61 + (i - 26)) as u8) as char
    } else if i < 62 {
        ((0x30 + (i - 52)) as u8) as char
    } else if i == 62 {
        '+'
    } else {
        '/'
    }
}

/// Appends an ASCII character to the token being built; it always fits.
fn push_ascii(out: &mut heapless::String<96>, c: char)
    requires
        '\0' <= c <= '\u{7f}',
        is_ascii_chars(hstr96_chars(*old(out))),
        hstr96_chars(*old(out)).len() < 96,
    ensures
        hstr96_chars(*final(out)) == hstr96_chars(*old(out)).push(c),
        is_ascii_chars(hstr96_chars(*final(out))),
{
    proof {
        vstd::utf8::is_ascii_chars_encode_utf8(hstr96_chars(*out));
        assert(is_ascii_chars(seq![c]));
        vstd::utf8::is_ascii_chars_encode_utf8(seq![c]);
    }
    let _ = hstr96_push(out, c);
    assert(is_ascii_chars(hstr96_chars(*out)));
}

/// The 6-bit pieces of a 24-bit group, as shifts and masks compute them.
proof fn lemma_group_pieces(b0: u32, b1: u32, b2: u32, n: u32)
    requires
        b0 < 256,
        b1 < 256,
        b2 < 256,
        n == (b0 << 16) | (b1 << 8) | b2,
    ensures
        (n >> 18) & 0x3F == (b0 * 65536 + b1 * 256 + b2) / 262144 % 64,
        (n >> 12) & 0x3F == (b0 * 65536 + b1 * 256 + b2) / 4096 % 64,
        (n >> 6) & 0x3F == (b0 * 65536 + b1 * 256 + b2) / 64 % 64,
        n & 0x3F == (b0 * 65536 + b1 * 256 + b2) % 64,
{
    assert((n >> 18) & 0x3F == (b0 * 65536 + b1 * 256 + b2) / 262144 % 64 && (n >> 12) & 0x3F
        == (b0 * 65536 + b1 * 256 + b2) / 4096 % 64 && (n >> 6) & 0x3F == (b0 * 65536 + b1 * 256
        + b2) / 64 % 64 && n & 0x3F == (b0 * 65536 + b1 * 256 + b2) % 64) by (bit_vector)
        requires
            b0 < 256,
            b1 < 256,
            b2 < 256,
            n == (b0 << 16) | (b1 << 8) | b2,
    ;
}

/// Appends the four characters of the group of bytes starting at `i`.
fn encode_group(out: &mut heapless::String<96>, bytes: &[u8], i: usize)
    requires
        i < bytes@.len() <= 72,
        is_ascii_chars(hstr96_chars(*old(out))),
        hstr96_chars(*old(out)).len() + 4 <= 96,
    ensures
        hstr96_chars(*final(out)) == hstr96_chars(*old(out)) + b64_quad(bytes@.skip(i as int)),
        is_ascii_chars(hstr96_chars(*final(out))),
{
    let ghost group = bytes@.skip(i as int);
    let rem = bytes.len() - i;
    let b0 = bytes[i] as u32;
    let b1 = if rem > 1 {
        bytes[i + 1] as u32
    } else {
        0
    };
    let b2 = if rem > 2 {
        bytes[i + 2] as u32
    } else {
        0
    };
    let n = (b0 << 16) | (b1 << 8) | b2;
    proof {
        lemma_group_pieces(b0, b1, b2, n);
    }
    let i0 = (n >> 18) & 0x3F;
    let i1 = (n >> 12) & 0x3F;
    let i2 = (n >> 6) & 0x3F;
    let i3 = n & 0x3F;
    let ghost before = hstr96_chars(*out);
    push_ascii(out, b64_char(i0));
    push_ascii(out, b64_char(i1));
    let c2 = if rem > 1 {
        b64_char(i2)
    } else {
        '='
    };
    push_ascii(out, c2);
    let c3 = if rem > 2 {
        b64_char(i3)
    } else {
        '='
    };
    push_ascii(out, c3);
    assert(hstr96_chars(*out) =~= before + b64_quad(group));
}

/// Encoding from byte `i` on: the group at `i`, then the rest.
proof fn lemma_base64_step(b: Seq<u8>, i: int)
    requires
        0 <= i < b.len(),
    ensures
        b.len() - i > 3 ==> base64(b.skip(i)) == b64_quad(b.skip(i)) + base64(b.skip(i + 3)),
        b.len() - i <= 3 ==> base64(b.skip(i)) == b64_quad(b.skip(i)),
{
    if b.len() - i > 3 {
        assert(b.skip(i).skip(3) =~= b.skip(i + 3));
    }
}

/// The base64 text of at most 72 bytes.
fn encode_base64(bytes: &[u8]) -> (res: heapless::String<96>)
    requires
        bytes@.len() <= 72,
    ensures
        hstr96_chars(res) == base64(bytes@),
{
    let ghost whole = bytes@;
    let mut out = hstr96_new();
    let len = bytes.len();
    let mut i: usize = 0;
    assert(whole.skip(0) =~= whole);
    while i < len
        invariant
            bytes@ == whole,
            len == whole.len() <= 72,
            i <= len,
            i % 3 == 0 || i == len,
            hstr96_chars(out).len() == 4 * ((i + 2) / 3),
            is_ascii_chars(hstr96_chars(out)),
            i < len ==> base64(whole) == hstr96_chars(out) + base64(whole.skip(i as int)),
            i == len ==> base64(whole) == hstr96_chars(out),
        decreases len - i,
    {
        proof {
            lemma_base64_step(whole, i as int);
        }
        encode_group(&mut out, bytes, i);
        if len - i > 3 {
            i = i + 3;
        } else {
            i = len;
        }
    }
    out
}

/// Build the expected auth token `base64("user:pass")`.
/// Empty user and pass should be handled by the caller as "auth disabled".
pub fn basic_token(user: &str, pass: &str) -> (res: heapless::String<96>)
    ensures
        hstr96_chars(res) == base64(token_input(encode_utf8(user@), encode_utf8(pass@))),
        encode_utf8(user@).len() + 1 + encode_utf8(pass@).len() <= 72 ==> hstr96_chars(res)
            == base64(encode_utf8(user@) + seq![COLON] + encode_utf8(pass@)),
{
    let ub = user.as_bytes();
    let pb = pass.as_bytes();
    let ghost whole = token_input(encode_utf8(user@), encode_utf8(pass@));
    if ub.len() < 72 && pb.len() <= 71 - ub.len() {
        let mut input = hvec72_new();
        let _ = hvec72_extend_from_slice(&mut input, ub);
        let _ = hvec72_push(&mut input, COLON);
        let _ = hvec72_extend_from_slice(&mut input, pb);
        assert(hvec72_bytes(input) =~= whole);
        encode_base64(hvec72_as_slice(&input))
    } else {
        let mut input = hvec64_new();
        let _ = hvec64_extend_from_slice(&mut input, ub);
        let _ = hvec64_push(&mut input, COLON);
        let _ = hvec64_extend_from_slice(&mut input, pb);
        assert(hvec64_bytes(input) =~= whole);
        encode_base64(hvec64_as_slice(&input))
    }
}

proof fn lemma_base64_len(b: Seq<u8>)
    ensures
        base64(b).len() == 4 * ((b.len() + 2) / 3),
    decreases b.len(),
{
    if b.len() > 3 {
        lemma_base64_len(b.skip(3));
    }
}

/// The token has four characters for every started group of three input
/// bytes, so it always fits the 96-byte token string (the input has at most
/// 72 bytes).
pub proof fn law_token_length(user: Seq<u8>, pass: Seq<u8>)
    ensures
        token_input(user, pass).len() <= 72,
        base64(token_input(user, pass)).len() == 4 * ((token_input(user, pass).len() + 2) / 3),
        base64(token_input(user, pass)).len() <= 96,
{
    lemma_base64_len(token_input(user, pass));
}

/// When `user:pass` has at most 72 bytes (every login a configuration can
/// hold), the token encodes exactly the bytes of `user`, a colon and the
/// bytes of `pass`.
pub proof fn law_token_encodes_user_colon_pass(user: Seq<u8>, pass: Seq<u8>)
    requires
        user.len() + 1 + pass.len() <= 72,
    ensures
        token_input(user, pass) == user + seq![COLON] + pass,
{
}

/// The alphabet is RFC 4648 Table 1 in order: `A` to `Z` for 0-25, `a` to
/// `z` for 26-51, `0` to `9` for 52-61, then `+` and `/`; within each run the
/// next value has the next character.
pub proof fn law_b64_alphabet_order(i: u32)
    requires
        i < 64,
    ensures
        b64_alphabet(0) == 'A',
        b64_alphabet(26) == 'a',
        b64_alphabet(52) == '0',
        b64_alphabet(62) == '+',
        b64_alphabet(63) == '/',
        (i < 25 || (26 <= i < 51) || (52 <= i < 61)) ==> b64_alphabet((i + 1) as u32) as u32
            == b64_alphabet(i) as u32 + 1,
{
}

/// The 6-bit pieces of a 24-bit group, as RFC 4648 §4 splits the bytes: the
/// top six bits of the first byte, its low two bits with the top four of the
/// second, the second's low four bits with the top two of the third, and the
/// third's low six bits.
proof fn lemma_group_bits(x0: int, x1: int, x2: int)
    requires
        0 <= x0 < 256,
        0 <= x1 < 256,
        0 <= x2 < 256,
    ensures
        (x0 * 65536 + x1 * 256 + x2) / 262144 % 64 == x0 / 4,
        (x0 * 65536 + x1 * 256 + x2) / 4096 % 64 == (x0 % 4) * 16 + x1 / 16,
        (x0 * 65536 + x1 * 256 + x2) / 64 % 64 == (x1 % 16) * 4 + x2 / 64,
        (x0 * 65536 + x1 * 256 + x2) % 64 == x2 % 64,
{
    assert((x0 * 65536 + x1 * 256 + x2) / 262144 % 64 == x0 / 4) by (nonlinear_arith)
        requires
            0 <= x0 < 256,
            0 <= x1 < 256,
            0 <= x2 < 256,
    ;
    assert((x0 * 65536 + x1 * 256 + x2) / 4096 % 64 == (x0 % 4) * 16 + x1 / 16)
        by (nonlinear_arith)
        requires
            0 <= x0 < 256,
            0 <= x1 < 256,
            0 <= x2 < 256,
    ;
    assert((x0 * 65536 + x1 * 256 + x2) / 64 % 64 == (x1 % 16) * 4 + x2 / 64) by (nonlinear_arith)
        requires
            0 <= x0 < 256,
            0 <= x1 < 256,
            0 <= x2 < 256,
    ;
    assert((x0 * 65536 + x1 * 256 + x2) % 64 == x2 % 64) by (nonlinear_arith)
        requires
            0 <= x0 < 256,
            0 <= x1 < 256,
            0 <= x2 < 256,
    ;
}

/// A group of one to three bytes becomes four characters (RFC 4648 §4): the
/// top six bits of the first byte; its low two bits and the top four bits of
/// the second; the second's low four bits and the top two of the third (`=`
/// without a second byte); the third's low six bits (`=` without a third
/// byte). Missing bytes count as zero bits.
pub proof fn law_b64_group(x: Seq<u8>)
    requires
        1 <= x.len(),
    ensures
        ({
            let x1: int = if x.len() > 1 {
                x[1] as int
            } else {
                0
            };
            let x2: int = if x.len() > 2 {
                x[2] as int
            } else {
                0
            };
            b64_quad(x) == seq![
                b64_alphabet((x[0] / 4) as u32),
                b64_alphabet(((x[0] % 4) * 16 + x1 / 16) as u32),
                if x.len() > 1 {
                    b64_alphabet(((x1 % 16) * 4 + x2 / 64) as u32)
                } else {
                    '='
                },
                if x.len() > 2 {
                    b64_alphabet((x2 % 64) as u32)
                } else {
                    '='
                },
            ]
        }),
{
    let x1: int = if x.len() > 1 {
        x[1] as int
    } else {
        0
    };
    let x2: int = if x.len() > 2 {
        x[2] as int
    } else {
        0
    };
    lemma_group_bits(x[0] as int, x1, x2);
}

/// Base64 works group by group: text whose length is a multiple of three
/// followed by more text encodes as the encodings one after the other, and
/// empty text encodes as nothing.
pub proof fn law_base64_concat(x: Seq<u8>, y: Seq<u8>)
    requires
        x.len() % 3 == 0,
    ensures
        base64(x + y) == base64(x) + base64(y),
        base64(Seq::<u8>::empty()) == Seq::<char>::empty(),
    decreases x.len(),
{
    if x.len() == 0 {
        assert(x + y =~= y);
        assert(base64(x) == Seq::<char>::empty());
        assert(Seq::<char>::empty() + base64(y) =~= base64(y));
    } else {
        let xy = x + y;
        law_base64_concat(x.skip(3), y);
        assert(xy.skip(3) =~= x.skip(3) + y);
        assert(b64_quad(xy) == b64_quad(x)) by {
            assert(xy[0] == x[0] && xy[1] == x[1] && xy[2] == x[2]);
        }
        if x.len() == 3 {
            assert(x.skip(3) =~= Seq::<u8>::empty());
            assert(base64(x) == b64_quad(x));
            if y.len() == 0 {
                assert(xy =~= x);
                assert(base64(y) == Seq::<char>::empty());
                assert(base64(x) + base64(y) =~= base64(x));
            } else {
                assert(x.skip(3) + y =~= y);
            }
        } else {
            assert(base64(x) + base64(y) =~= b64_quad(x) + (base64(x.skip(3)) + base64(y)));
        }
    }
}

/// Different 6-bit values have different characters, none of them `=`.
proof fn lemma_alphabet_injective(i: u32, j: u32)
    requires
        i < 64,
        j < 64,
    ensures
        b64_alphabet(i) != '=',
        b64_alphabet(i) == b64_alphabet(j) ==> i == j,
{
    let ci = b64_alphabet(i) as u32;
    let cj = b64_alphabet(j) as u32;
    assert(ci == (if i < 26 { 0x41 + i } else if i < 52 { 0x61 + (i - 26) } else if i < 62 { 0x30 + (i - 52) } else if i == 62 { 0x2b } else { 0x2f }));
    assert(cj == (if j < 26 { 0x41 + j } else if j < 52 { 0x61 + (j - 26) } else if j < 62 { 0x30 + (j - 52) } else if j == 62 { 0x2b } else { 0x2f }));
}

/// The 24-bit value of a group of one to three bytes (missing bytes are zero).
pub open spec fn group_value(b: Seq<u8>) -> int {
    let b1: int = if b.len() > 1 {
        b[1] as int
    } else {
        0
    };
    let b2: int = if b.len() > 2 {
        b[2] as int
    } else {
        0
    };
    b[0] * 65536 + b1 * 256 + b2
}

/// A 24-bit value is the sum of its four 6-bit pieces.
proof fn lemma_pieces(n: int)
    requires
        0 <= n < 16777216,
    ensures
        n == (n / 262144 % 64) * 262144 + (n / 4096 % 64) * 4096 + (n / 64 % 64) * 64 + n % 64,
        n / 262144 < 64,
{
    assert(n == (n / 262144 % 64) * 262144 + (n / 4096 % 64) * 4096 + (n / 64 % 64) * 64 + n % 64
        && n / 262144 < 64) by (nonlinear_arith)
        requires
            0 <= n < 16777216,
    ;
}

/// The first byte of a group is given by its first two pieces, the first two
/// bytes by its first three pieces.
proof fn lemma_leading_bytes(n: int)
    requires
        0 <= n < 16777216,
    ensures
        n / 65536 == (n / 262144 % 64) * 4 + (n / 4096 % 64) / 16,
        n / 256 == (n / 262144 % 64) * 1024 + (n / 4096 % 64) * 16 + (n / 64 % 64) / 4,
{
    lemma_pieces(n);
    assert(n / 65536 == (n / 262144 % 64) * 4 + (n / 4096 % 64) / 16) by (nonlinear_arith)
        requires
            n == (n / 262144 % 64) * 262144 + (n / 4096 % 64) * 4096 + (n / 64 % 64) * 64 + n
                % 64,
            0 <= n / 64 % 64 < 64,
            0 <= n % 64 < 64,
            0 <= n / 4096 % 64 < 64,
    ;
    assert(n / 256 == (n / 262144 % 64) * 1024 + (n / 4096 % 64) * 16 + (n / 64 % 64) / 4)
        by (nonlinear_arith)
        requires
            n == (n / 262144 % 64) * 262144 + (n / 4096 % 64) * 4096 + (n / 64 % 64) * 64 + n
                % 64,
            0 <= n / 64 % 64 < 64,
            0 <= n % 64 < 64,
    ;
}

/// Equal four-character groups come from groups of the same length whose
/// unpadded 6-bit pieces agree.
proof fn lemma_quad_pieces(x: Seq<u8>, y: Seq<u8>)
    requires
        x.len() >= 1,
        y.len() >= 1,
        b64_quad(x) == b64_quad(y),
    ensures
        (x.len() > 1) == (y.len() > 1),
        (x.len() > 2) == (y.len() > 2),
        group_value(x) / 262144 % 64 == group_value(y) / 262144 % 64,
        group_value(x) / 4096 % 64 == group_value(y) / 4096 % 64,
        x.len() > 1 ==> group_value(x) / 64 % 64 == group_value(y) / 64 % 64,
        x.len() > 2 ==> group_value(x) % 64 == group_value(y) % 64,
{
    let nx = group_value(x);
    let ny = group_value(y);
    lemma_pieces(nx);
    lemma_pieces(ny);
    let qx = b64_quad(x);
    let qy = b64_quad(y);
    let a0 = (nx / 262144 % 64) as u32;
    let a1 = (nx / 4096 % 64) as u32;
    let a2 = (nx / 64 % 64) as u32;
    let a3 = (nx % 64) as u32;
    let c0 = (ny / 262144 % 64) as u32;
    let c1 = (ny / 4096 % 64) as u32;
    let c2 = (ny / 64 % 64) as u32;
    let c3 = (ny % 64) as u32;
    lemma_alphabet_injective(a0, c0);
    lemma_alphabet_injective(a1, c1);
    lemma_alphabet_injective(a2, c2);
    lemma_alphabet_injective(a3, c3);
    assert(qx[0] == qy[0] && qx[1] == qy[1] && qx[2] == qy[2] && qx[3] == qy[3]);
}

/// The four characters of a group give back its length and its bytes.
#[verifier::spinoff_prover]
proof fn lemma_quad_injective(x: Seq<u8>, y: Seq<u8>)
    requires
        x.len() >= 1,
        y.len() >= 1,
        b64_quad(x) == b64_quad(y),
    ensures
        (x.len() > 1) == (y.len() > 1),
        (x.len() > 2) == (y.len() > 2),
        x[0] == y[0],
        x.len() > 1 ==> x[1] == y[1],
        x.len() > 2 ==> x[2] == y[2],
{
    lemma_quad_pieces(x, y);
    let nx = group_value(x);
    let ny = group_value(y);
    if x.len() == 1 {
        lemma_leading_bytes(nx);
        lemma_leading_bytes(ny);
    } else if x.len() == 2 {
        lemma_leading_bytes(nx);
        lemma_leading_bytes(ny);
        assert(nx / 256 == ny / 256);
    } else {
        lemma_pieces(nx);
        lemma_pieces(ny);
        assert(nx == ny);
    }
}

/// Base64 loses nothing: different byte strings have different encodings.
proof fn lemma_base64_injective(x: Seq<u8>, y: Seq<u8>)
    requires
        base64(x) == base64(y),
    ensures
        x == y,
    decreases x.len(),
{
    lemma_base64_len(x);
    lemma_base64_len(y);
    if x.len() == 0 || y.len() == 0 {
        assert(x =~= y);
    } else {
        let bx = base64(x);
        let by = base64(y);
        if x.len() <= 3 && y.len() > 3 {
            assert(false);
        } else if x.len() > 3 && y.len() <= 3 {
            assert(false);
        } else {
            let qx = b64_quad(x);
            let qy = b64_quad(y);
            assert(bx.take(4) =~= qx);
            assert(by.take(4) =~= qy);
            lemma_quad_injective(x, y);
            if x.len() > 3 {
                assert(bx.skip(4) =~= base64(x.skip(3)));
                assert(by.skip(4) =~= base64(y.skip(3)));
                lemma_base64_injective(x.skip(3), y.skip(3));
                assert(x =~= x.take(3) + x.skip(3));
                assert(y =~= y.take(3) + y.skip(3));
                assert(x.take(3) =~= y.take(3));
            } else {
                assert(x =~= y);
            }
        }
    }
}

/// Different logins give different tokens: for every user and password whose
/// `user:pass` has at most 72 bytes (every login a configuration can hold),
/// the token is the same only for the same `user:pass` bytes.
pub proof fn law_distinct_logins_distinct_tokens(u1: Seq<u8>, p1: Seq<u8>, u2: Seq<u8>, p2: Seq<u8>)
    requires
        u1.len() + 1 + p1.len() <= 72,
        u2.len() + 1 + p2.len() <= 72,
        u1 + seq![COLON] + p1 != u2 + seq![COLON] + p2,
    ensures
        base64(token_input(u1, p1)) != base64(token_input(u2, p2)),
{
    law_token_encodes_user_colon_pass(u1, p1);
    law_token_encodes_user_colon_pass(u2, p2);
    if base64(token_input(u1, p1)) == base64(token_input(u2, p2)) {
        lemma_base64_injective(token_input(u1, p1), token_input(u2, p2));
    }
}

} // verus!
