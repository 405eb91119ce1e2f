//! The Gmail side: query encoding, base64url bodies, message parts and
//! headers, label resolution, and the stand-in messages used without a token.
use vstd::prelude::*;
use crate::entities::{
    attachments_view, is_system_label_name, is_system_name, texts_view, Attachment, AttachmentModel, Email,
};
use crate::error::{ErrorModel, GraphonError};
use crate::text::{
    contains, eq_ascii_ci, eq_ignore_ascii_case, has_prefix, has_substring, lemma_occurs_after, lemma_occurs_in_prefix, occurs_at, chars_of, split_and_trim, split_trimmed, string_of, str_eq, to_lowercase, unicode_lowercase,
};
use vstd::string::StringSliceAdditionalSpecFns;

verus! {

// ---------------------------------------------------------------------------
// Query encoding
// ---------------------------------------------------------------------------

/// The characters kept as they are by [`encode_query`]: ASCII letters and
/// digits, and `-`, `_`, `.`, `~`.
pub open spec fn is_unreserved(c: char) -> bool {
    ('a' <= c && c <= 'z') || ('A' <= c && c <= 'Z') || ('0' <= c && c <= '9') || c == '-' || c == '_'
        || c == '.' || c == '~'
}

/// The upper-case hexadecimal digit of `d` (below 16).
pub open spec fn hex_digit(d: u32) -> char {
    if d < 10 {
        (('0' as u32) + d) as char
    } else {
        (('A' as u32) + d - 10) as char
    }
}

/// The upper-case hexadecimal digits of `n`, without leading zeros.
pub open spec fn hex_digits(n: u32) -> Seq<char>
    decreases n,
{
    if n < 16 {
        seq![hex_digit(n)]
    } else {
        hex_digits(n / 16).push(hex_digit(n % 16))
    }
}

/// `n` in upper-case hexadecimal, padded with a leading zero to two digits.
pub open spec fn hex_two(n: u32) -> Seq<char> {
    if n < 16 {
        seq!['0', hex_digit(n)]
    } else {
        hex_digits(n)
    }
}

/// How [`encode_query`] writes one character: unreserved characters stay,
/// a space becomes `%20`, any other character `c` becomes `%` followed by the
/// code point of `c` in upper-case hexadecimal, at least two digits.
pub open spec fn encode_char(c: char) -> Seq<char> {
    if is_unreserved(c) {
        seq![c]
    } else if c == ' ' {
        seq!['%', '2', '0']
    } else {
        seq!['%'] + hex_two(c as u32)
    }
}

/// The encoding of a text, character by character.
pub open spec fn spec_encode_query(s: Seq<char>) -> Seq<char>
    decreases s.len(),
{
    if s.len() == 0 {
        Seq::empty()
    } else {
        spec_encode_query(s.drop_last()) + encode_char(s.last())
    }
}

fn hex_digit_exec(d: u32) -> (c: char)
    requires
        d < 16,
    ensures
        c == hex_digit(d),
{
    if d < 10 {
        let b: u8 = (48 + d) as u8;
        b as char
    } else {
        let b: u8 = (65 + d - 10) as u8;
        b as char
    }
}

fn push_hex_digits(out: &mut Vec<char>, n: u32)
    ensures
        final(out)@ == old(out)@ + hex_digits(n),
    decreases n,
{
    if n < 16 {
        out.push(hex_digit_exec(n));
    } else {
        push_hex_digits(out, n / 16);
        out.push(hex_digit_exec(n % 16));
    }
}

/// Percent-encodes a Gmail search query for use in a URL: ASCII letters,
/// digits, `-`, `_`, `.` and `~` stay, a space becomes `%20`, and any other
/// character becomes `%` and its code point in upper-case hexadecimal (two
/// digits at least).
pub fn encode_query(s: &str) -> (r: String)
    ensures
        r@ == spec_encode_query(s@),
{
    let cs = chars_of(s);
    let mut out: Vec<char> = Vec::new();
    let mut i: usize = 0;
    while i < cs.len()
        invariant
            i <= cs.len(),
            cs@ == s@,
            out@ == spec_encode_query(cs@.take(i as int)),
        decreases cs.len() - i,
    {
        let c = cs[i];
        let ghost before = out@;
        if ('a' <= c && c <= 'z') || ('A' <= c && c <= 'Z') || ('0' <= c && c <= '9') || c == '-' || c == '_'
            || c == '.' || c == '~' {
            out.push(c);
        } else if c == ' ' {
            out.push('%');
            out.push('2');
            out.push('0');
        } else {
            out.push('%');
            let n: u32 = c as u32;
            if n < 16 {
                out.push('0');
                out.push(hex_digit_exec(n));
            } else {
                push_hex_digits(&mut out, n);
            }
        }
        assert(cs@.take(i + 1).drop_last() =~= cs@.take(i as int));
        assert(cs@.take(i + 1).last() == c);
        assert(out@ =~= before + encode_char(c));
        i += 1;
    }
    assert(cs@.take(cs.len() as int) =~= cs@);
    string_of(&out)
}

// ---------------------------------------------------------------------------
// base64url decoding
// ---------------------------------------------------------------------------

/// The byte of `=`, the base64 padding.
pub open spec fn pad_byte() -> u8 {
    61
}

/// The URL-safe alphabet mapped back to the standard one: `-` becomes `+`
/// and `_` becomes `/`.
pub open spec fn unurl_byte(b: u8) -> u8 {
    if b == 45 {
        43
    } else if b == 95 {
        47
    } else {
        b
    }
}

/// The bytes with the URL-safe alphabet mapped to the standard one.
pub open spec fn unurl(b: Seq<u8>) -> Seq<u8> {
    Seq::new(b.len(), |i: int| unurl_byte(b[i]))
}

/// The bytes followed by `=` until their length is a multiple of 4.
pub open spec fn padded(b: Seq<u8>) -> Seq<u8> {
    let extra = if b.len() % 4 == 0 { 0 } else { 4 - b.len() % 4 };
    b + Seq::new(extra as nat, |i: int| pad_byte())
}

/// The 6-bit value of a byte of the standard base64 alphabet; any other byte counts as 0.
pub open spec fn sextet(b: u8) -> u32 {
    if 65 <= b <= 90 {
        (b - 65) as u32
    } else if 97 <= b <= 122 {
        (b - 71) as u32
    } else if 48 <= b <= 57 {
        (b + 4) as u32
    } else if b == 43 {
        62
    } else if b == 47 {
        63
    } else {
        0
    }
}

/// The value of a padding position (`=` counts as 0), otherwise its sextet.
pub open spec fn sextet_or_zero(b: u8) -> u32 {
    if b == pad_byte() {
        0
    } else {
        sextet(b)
    }
}

/// The bytes decoded from the group of four characters at `i`: one byte, then a
/// second unless the third character is `=`, then a third unless the fourth is `=`.
pub open spec fn quad_bytes(b: Seq<u8>, i: int) -> Seq<u8> {
    let s1 = sextet(b[i]);
    let s2 = sextet(b[i + 1]);
    let s3 = sextet_or_zero(b[i + 2]);
    let s4 = sextet_or_zero(b[i + 3]);
    let first = seq![(4 * s1 + s2 / 16) as u8];
    let second = if b[i + 2] != pad_byte() { seq![((16 * s2 + s3 / 4) % 256) as u8] } else { Seq::empty() };
    let third = if b[i + 3] != pad_byte() { seq![((64 * s3 + s4) % 256) as u8] } else { Seq::empty() };
    first + second + third
}

/// The bytes decoded from the groups of four starting at `i`, up to the end or
/// to a group that starts with `=`.
pub open spec fn decode_groups(b: Seq<u8>, i: int) -> Seq<u8>
    decreases b.len() - i,
{
    if i < 0 || i + 4 > b.len() || b[i] == pad_byte() {
        Seq::empty()
    } else {
        quad_bytes(b, i) + decode_groups(b, i + 4)
    }
}

/// What [`decode_base64url`] makes of the UTF-8 bytes of a text.
pub open spec fn spec_decode_base64url(b: Seq<u8>) -> Seq<u8> {
    decode_groups(padded(unurl(b)), 0)
}

fn sextet_exec(b: u8) -> (r: u32)
    ensures
        r == sextet(b),
        r < 64,
{
    if 65 <= b && b <= 90 {
        (b - 65) as u32
    } else if 97 <= b && b <= 122 {
        (b - 71) as u32
    } else if 48 <= b && b <= 57 {
        (b + 4) as u32
    } else if b == 43 {
        62
    } else if b == 47 {
        63
    } else {
        0
    }
}

proof fn lemma_quad_bits(s1: u32, s2: u32, s3: u32, s4: u32, t: u32)
    requires
        s1 < 64,
        s2 < 64,
        s3 < 64,
        s4 < 64,
        t == s1 * 262144 + s2 * 4096 + s3 * 64 + s4,
    ensures
        (t >> 16) & 0xFF == 4 * s1 + s2 / 16,
        (t >> 8) & 0xFF == (16 * s2 + s3 / 4) % 256,
        t & 0xFF == (64 * s3 + s4) % 256,
{
    assert((t >> 16) & 0xFF == 4 * s1 + s2 / 16) by (bit_vector)
        requires
            s1 < 64,
            s2 < 64,
            s3 < 64,
            s4 < 64,
            t == s1 * 262144 + s2 * 4096 + s3 * 64 + s4,
    ;
    assert((t >> 8) & 0xFF == (16 * s2 + s3 / 4) % 256) by (bit_vector)
        requires
            s1 < 64,
            s2 < 64,
            s3 < 64,
            s4 < 64,
            t == s1 * 262144 + s2 * 4096 + s3 * 64 + s4,
    ;
    assert(t & 0xFF == (64 * s3 + s4) % 256) by (bit_vector)
        requires
            s1 < 64,
            s2 < 64,
            s3 < 64,
            s4 < 64,
            t == s1 * 262144 + s2 * 4096 + s3 * 64 + s4,
    ;
}

/// Appends the bytes of the group of four characters at `i`.
fn decode_group(bytes: &Vec<u8>, i: usize, output: &mut Vec<u8>)
    requires
        i + 4 <= bytes.len(),
    ensures
        final(output)@ == old(output)@ + quad_bytes(bytes@, i as int),
{
    let s1 = sextet_exec(bytes[i]);
    let s2 = sextet_exec(bytes[i + 1]);
    let s3 = if bytes[i + 2] == 61 { 0 } else { sextet_exec(bytes[i + 2]) };
    let s4 = if bytes[i + 3] == 61 { 0 } else { sextet_exec(bytes[i + 3]) };
    let triple: u32 = s1 * 262144 + s2 * 4096 + s3 * 64 + s4;
    proof {
        lemma_quad_bits(s1, s2, s3, s4, triple);
    }
    let ghost before = output@;
    output.push(((triple >> 16) & 0xFF) as u8);
    if bytes[i + 2] != 61 {
        output.push(((triple >> 8) & 0xFF) as u8);
    }
    if bytes[i + 3] != 61 {
        output.push((triple & 0xFF) as u8);
    }
    assert(output@ =~= before + quad_bytes(bytes@, i as int));
}

proof fn lemma_group_fits(i: int, n: int)
    requires
        0 <= i < n,
        i % 4 == 0,
        n % 4 == 0,
    ensures
        i + 4 <= n,
{
    assert(i + 4 <= n) by (nonlinear_arith)
        requires
            0 <= i < n,
            i % 4 == 0,
            n % 4 == 0,
    ;
}

/// Decodes the groups of four of text already padded to a multiple of four.
fn decode_padded(bytes: &Vec<u8>) -> (output: Vec<u8>)
    requires
        bytes@.len() % 4 == 0,
    ensures
        output@ == decode_groups(bytes@, 0),
{
    let ghost b = bytes@;
    let mut output: Vec<u8> = Vec::new();
    let mut i: usize = 0;
    while i < bytes.len()
        invariant_except_break
            b == bytes@,
            b.len() % 4 == 0,
            i % 4 == 0,
            i <= b.len(),
            decode_groups(b, 0) == output@ + decode_groups(b, i as int),
        ensures
            decode_groups(b, 0) == output@,
        decreases b.len() - i,
    {
        if bytes[i] == 61 {
            assert(decode_groups(b, i as int) == Seq::<u8>::empty());
            assert(output@ + Seq::<u8>::empty() =~= output@);
            break;
        }
        proof {
            lemma_group_fits(i as int, b.len() as int);
        }
        let ghost before = output@;
        decode_group(bytes, i, &mut output);
        assert(decode_groups(b, i as int) == quad_bytes(b, i as int) + decode_groups(b, i + 4));
        assert(output@ + decode_groups(b, i + 4) =~= before + decode_groups(b, i as int));
        i += 4;
    }
    output
}

/// Decodes Gmail's base64url message data: `-` and `_` are read as `+` and
/// `/`, the text is padded with `=` to a multiple of four, and each group of
/// four characters gives up to three bytes, stopping at a group that starts
/// with `=`. Characters outside the alphabet count as 0. Every text decodes.
pub fn decode_base64url(s: &str) -> (r: Option<Vec<u8>>)
    ensures
        r matches Some(v) && v@ == spec_decode_base64url(s.spec_bytes()),
{
    let raw = s.as_bytes();
    let mut clean: Vec<u8> = Vec::new();
    let mut i: usize = 0;
    while i < raw.len()
        invariant
            i <= raw@.len(),
            raw@ == s.spec_bytes(),
            clean@ =~= unurl(raw@).take(i as int),
        decreases raw@.len() - i,
    {
        let b = raw[i];
        clean.push(if b == 45 { 43 } else if b == 95 { 47 } else { b });
        i += 1;
    }
    assert(clean@ =~= unurl(raw@));
    let ghost unpadded = clean@;
    let rem = clean.len() % 4;
    let extra: usize = if rem == 0 { 0 } else { 4 - rem };
    let mut k: usize = 0;
    while k < extra
        invariant
            k <= extra,
            extra == (if unpadded.len() % 4 == 0 { 0 } else { 4 - unpadded.len() % 4 }),
            clean@ =~= unpadded + Seq::new(k as nat, |j: int| pad_byte()),
        decreases extra - k,
    {
        clean.push(61);
        k += 1;
    }
    assert(clean@ =~= padded(unpadded));
    let output = decode_padded(&clean);
    Some(output)
}


/// The character of the sextet `v` (below 64) in the base64 alphabet: `A`-`Z`,
/// `a`-`z`, `0`-`9`, then `-` and `_` in the URL-safe alphabet, `+` and `/` in
/// the standard one.
pub open spec fn base64_char(v: int, url: bool) -> u8 {
    if v < 26 {
        (65 + v) as u8
    } else if v < 52 {
        (71 + v) as u8
    } else if v < 62 {
        (v - 4) as u8
    } else if v == 62 {
        if url { 45 } else { 43 }
    } else {
        if url { 95 } else { 47 }
    }
}

/// The four characters encoding three bytes.
pub open spec fn encode_triple(b0: int, b1: int, b2: int, url: bool) -> Seq<u8> {
    seq![
        base64_char(b0 / 4, url),
        base64_char((b0 % 4) * 16 + b1 / 16, url),
        base64_char((b1 % 16) * 4 + b2 / 64, url),
        base64_char(b2 % 64, url),
    ]
}

/// The base64 encoding of `b`, in the URL-safe alphabet when `url`, else the
/// standard one; a last group of one or two bytes is followed by `=` padding
/// when `pad`, and by nothing otherwise.
pub open spec fn spec_encode_base64(b: Seq<u8>, url: bool, pad: bool) -> Seq<u8>
    decreases b.len(),
{
    if b.len() >= 3 {
        encode_triple(b[0] as int, b[1] as int, b[2] as int, url) + spec_encode_base64(b.subrange(3, b.len() as int), url, pad)
    } else if b.len() == 2 {
        let (b0, b1) = (b[0] as int, b[1] as int);
        seq![
            base64_char(b0 / 4, url),
            base64_char((b0 % 4) * 16 + b1 / 16, url),
            base64_char((b1 % 16) * 4, url),
        ] + if pad { seq![pad_byte()] } else { Seq::empty() }
    } else if b.len() == 1 {
        let b0 = b[0] as int;
        seq![base64_char(b0 / 4, url), base64_char((b0 % 4) * 16, url)] + if pad {
            seq![pad_byte(), pad_byte()]
        } else {
            Seq::empty()
        }
    } else {
        Seq::empty()
    }
}

proof fn lemma_char_sextet(v: int, url: bool)
    requires
        0 <= v < 64,
    ensures
        unurl_byte(base64_char(v, url)) != pad_byte(),
        sextet(unurl_byte(base64_char(v, url))) == v,
{
}

proof fn lemma_triple_arith(b0: int, b1: int, b2: int)
    requires
        0 <= b0 < 256,
        0 <= b1 < 256,
        0 <= b2 < 256,
    ensures
        0 <= b0 / 4 < 64,
        0 <= (b0 % 4) * 16 + b1 / 16 < 64,
        0 <= (b1 % 16) * 4 + b2 / 64 < 64,
        0 <= (b1 % 16) * 4 < 64,
        0 <= (b0 % 4) * 16 < 64,
        0 <= b2 % 64 < 64,
        4 * (b0 / 4) + ((b0 % 4) * 16 + b1 / 16) / 16 == b0,
        4 * (b0 / 4) + ((b0 % 4) * 16) / 16 == b0,
        (16 * ((b0 % 4) * 16 + b1 / 16) + ((b1 % 16) * 4 + b2 / 64) / 4) % 256 == b1,
        (16 * ((b0 % 4) * 16 + b1 / 16) + ((b1 % 16) * 4) / 4) % 256 == b1,
        (64 * ((b1 % 16) * 4 + b2 / 64) + b2 % 64) % 256 == b2,
{
    assert(((b0 % 4) * 16 + b1 / 16) / 16 == b0 % 4);
    assert(((b0 % 4) * 16) / 16 == b0 % 4);
    assert(((b1 % 16) * 4 + b2 / 64) / 4 == b1 % 16);
    assert(((b1 % 16) * 4) / 4 == b1 % 16);
    assert(16 * ((b0 % 4) * 16 + b1 / 16) == (b0 % 4) * 256 + (b1 / 16) * 16);
    assert((16 * ((b0 % 4) * 16 + b1 / 16) + b1 % 16) % 256 == b1) by {
        assert((b0 % 4) * 256 + (b1 / 16) * 16 + b1 % 16 == (b0 % 4) * 256 + b1);
    }
    assert(64 * ((b1 % 16) * 4 + b2 / 64) == (b1 % 16) * 256 + (b2 / 64) * 64);
    assert((64 * ((b1 % 16) * 4 + b2 / 64) + b2 % 64) % 256 == b2) by {
        assert((b1 % 16) * 256 + (b2 / 64) * 64 + b2 % 64 == (b1 % 16) * 256 + b2);
    }
}

proof fn lemma_decode_groups_shift(x: Seq<u8>, y: Seq<u8>, i: int)
    requires
        0 <= i,
    ensures
        decode_groups(x + y, x.len() + i) == decode_groups(y, i),
    decreases y.len() - i,
{
    let z = x + y;
    let j = x.len() + i;
    if i + 4 <= y.len() {
        assert(z[j] == y[i]);
        if y[i] != pad_byte() {
            assert(z[j + 1] == y[i + 1] && z[j + 2] == y[i + 2] && z[j + 3] == y[i + 3]);
            assert(quad_bytes(z, j) == quad_bytes(y, i));
            lemma_decode_groups_shift(x, y, i + 4);
            assert(x.len() + (i + 4) == j + 4);
        }
    }
}

proof fn lemma_padded_after_groups(x: Seq<u8>, y: Seq<u8>)
    requires
        x.len() % 4 == 0,
    ensures
        padded(x + y) == x + padded(y),
{
    assert((x + y).len() % 4 == y.len() % 4);
    assert(padded(x + y) =~= x + padded(y));
}

proof fn lemma_round_trip_pair(b: Seq<u8>, url: bool, pad: bool)
    requires
        b.len() == 2,
    ensures
        spec_decode_base64url(spec_encode_base64(b, url, pad)) == b,
{
    let e = spec_encode_base64(b, url, pad);
    let (b0, b1) = (b[0] as int, b[1] as int);
    lemma_triple_arith(b0, b1, 0);
    lemma_char_sextet(b0 / 4, url);
    lemma_char_sextet((b0 % 4) * 16 + b1 / 16, url);
    lemma_char_sextet((b1 % 16) * 4, url);
    let p = padded(unurl(e));
    assert(p.len() == 4);
    assert(p[3] == pad_byte());
    assert(p[0] != pad_byte() && p[2] != pad_byte());
    assert(quad_bytes(p, 0) =~= seq![b[0], b[1]]);
    assert(decode_groups(p, 0) == quad_bytes(p, 0) + decode_groups(p, 4));
    assert(seq![b[0], b[1]] =~= b);
}

proof fn lemma_round_trip_single(b: Seq<u8>, url: bool, pad: bool)
    requires
        b.len() == 1,
    ensures
        spec_decode_base64url(spec_encode_base64(b, url, pad)) == b,
{
    let e = spec_encode_base64(b, url, pad);
    let b0 = b[0] as int;
    lemma_triple_arith(b0, 0, 0);
    lemma_char_sextet(b0 / 4, url);
    lemma_char_sextet((b0 % 4) * 16, url);
    let p = padded(unurl(e));
    assert(p.len() == 4);
    assert(p[2] == pad_byte() && p[3] == pad_byte());
    assert(p[0] != pad_byte());
    assert(quad_bytes(p, 0) =~= seq![b[0]]);
    assert(decode_groups(p, 0) == quad_bytes(p, 0) + decode_groups(p, 4));
    assert(seq![b[0]] =~= b);
}

/// The first group of the encoding of three bytes or more decodes to those bytes.
proof fn lemma_triple_group(b: Seq<u8>, url: bool, pad: bool)
    requires
        b.len() >= 3,
    ensures
        ({
            let ug = unurl(encode_triple(b[0] as int, b[1] as int, b[2] as int, url));
            &&& ug.len() == 4
            &&& ug[0] != pad_byte()
            &&& forall|y: Seq<u8>| #[trigger] quad_bytes(ug + y, 0) == seq![b[0], b[1], b[2]]
        }),
{
    let (b0, b1, b2) = (b[0] as int, b[1] as int, b[2] as int);
    lemma_triple_arith(b0, b1, b2);
    lemma_char_sextet(b0 / 4, url);
    lemma_char_sextet((b0 % 4) * 16 + b1 / 16, url);
    lemma_char_sextet((b1 % 16) * 4 + b2 / 64, url);
    lemma_char_sextet(b2 % 64, url);
    let ug = unurl(encode_triple(b0, b1, b2, url));
    assert forall|y: Seq<u8>| #[trigger] quad_bytes(ug + y, 0) == seq![b[0], b[1], b[2]] by {
        let p = ug + y;
        assert(p[0] == ug[0] && p[1] == ug[1] && p[2] == ug[2] && p[3] == ug[3]);
        assert(quad_bytes(p, 0) =~= seq![b[0], b[1], b[2]]);
    }
}

/// Decoding undoes encoding: the text that base64-encodes `b` (URL-safe or
/// standard alphabet, with or without `=` padding) decodes to `b`, so
/// [`decode_base64url`] returns `Some(b)` for a text whose bytes are such an
/// encoding.
pub proof fn lemma_base64_round_trip(b: Seq<u8>, url: bool, pad: bool)
    ensures
        spec_decode_base64url(spec_encode_base64(b, url, pad)) == b,
    decreases b.len(),
{
    if b.len() >= 3 {
        let e = spec_encode_base64(b, url, pad);
        let g = encode_triple(b[0] as int, b[1] as int, b[2] as int, url);
        let rest = b.subrange(3, b.len() as int);
        let er = spec_encode_base64(rest, url, pad);
        assert(e == g + er);
        lemma_triple_group(b, url, pad);
        let ug = unurl(g);
        assert(unurl(e) =~= ug + unurl(er));
        lemma_padded_after_groups(ug, unurl(er));
        let pr = padded(unurl(er));
        let p = ug + pr;
        lemma_base64_round_trip(rest, url, pad);
        lemma_decode_groups_shift(ug, pr, 0);
        assert(quad_bytes(p, 0) == seq![b[0], b[1], b[2]]);
        assert(decode_groups(p, 0) == quad_bytes(p, 0) + decode_groups(p, 4));
        assert(seq![b[0], b[1], b[2]] + rest =~= b);
    } else if b.len() == 2 {
        lemma_round_trip_pair(b, url, pad);
    } else if b.len() == 1 {
        lemma_round_trip_single(b, url, pad);
    } else {
        assert(padded(unurl(spec_encode_base64(b, url, pad))) =~= Seq::<u8>::empty());
        assert(b =~= Seq::<u8>::empty());
    }
}

// ---------------------------------------------------------------------------
// Message parts: body text and attachments
// ---------------------------------------------------------------------------

/// Calls `String::from_utf8`. Claimed, as std documents: the bytes become a
/// `String` exactly when they are valid UTF-8, holding the characters they encode.
#[verifier::external_body]
pub(crate) fn utf8_text(bytes: Vec<u8>) -> (r: Option<String>)
    ensures
        r is Some <==> vstd::utf8::valid_utf8(bytes@),
        r matches Some(s) ==> s@ == vstd::utf8::decode_utf8(bytes@),
{
    match String::from_utf8(bytes) {
        Ok(s) => Some(s),
        Err(_) => None,
    }
}

/// The body data of a message part.
pub struct BodyData {
    pub data: Option<String>,
    pub attachment_id: Option<String>,
    pub size: Option<i32>,
}

/// A part of a Gmail message, with its sub-parts.
pub struct MessagePart {
    pub filename: Option<String>,
    pub mime_type: Option<String>,
    pub body: Option<BodyData>,
    pub parts: Option<Vec<MessagePart>>,
}

/// A header of a Gmail message.
pub struct MessageHeader {
    pub name: String,
    pub value: String,
}

/// The top-level payload of a Gmail message.
pub struct MessagePayload {
    pub headers: Option<Vec<MessageHeader>>,
    pub body: Option<BodyData>,
    pub parts: Option<Vec<MessagePart>>,
}

/// The text carried by body data: its base64url data decoded, when that is
/// valid UTF-8; otherwise nothing.
pub open spec fn body_text(b: Option<BodyData>) -> Seq<char> {
    match b {
        Some(bd) => match bd.data {
            Some(d) => {
                let bytes = spec_decode_base64url(vstd::utf8::encode_utf8(d@));
                if vstd::utf8::valid_utf8(bytes) {
                    vstd::utf8::decode_utf8(bytes)
                } else {
                    Seq::empty()
                }
            },
            None => Seq::empty(),
        },
        None => Seq::empty(),
    }
}

/// The part has no file name, or an empty one.
pub open spec fn is_inline(p: MessagePart) -> bool {
    match p.filename {
        Some(f) => f@.len() == 0,
        None => true,
    }
}

/// The text of a part: its own body when it is inline, then the text of its sub-parts.
pub open spec fn part_text(p: MessagePart) -> Seq<char>
    decreases p, 1int,
{
    let own = if is_inline(p) { body_text(p.body) } else { Seq::empty() };
    match p.parts {
        Some(v) => {
            proof {
                assert(decreases_to!(p => p.parts));
                assert(decreases_to!(p.parts => v));
                assert(decreases_to!(v => v@));
            }
            own + parts_text(v@)
        },
        None => own,
    }
}

/// The text of a list of parts, in order.
pub open spec fn parts_text(ps: Seq<MessagePart>) -> Seq<char>
    decreases ps, 0int,
{
    if ps.len() == 0 {
        Seq::empty()
    } else {
        parts_text(ps.drop_last()) + part_text(ps.last())
    }
}

/// The text of a list of parts holds the text of each of them.
proof fn lemma_parts_text_holds(ps: Seq<MessagePart>, k: int)
    requires
        0 <= k < ps.len(),
    ensures
        has_substring(parts_text(ps), part_text(ps[k])),
    decreases ps.len(),
{
    let front = parts_text(ps.drop_last());
    let last = part_text(ps.last());
    if k == ps.len() - 1 {
        assert(occurs_at(last, last, 0)) by {
            assert(last.subrange(0, last.len() as int) =~= last);
        }
        lemma_occurs_after(front, last, last, 0);
    } else {
        lemma_parts_text_holds(ps.drop_last(), k);
        assert(ps.drop_last()[k] == ps[k]);
        let i = choose|i: int| occurs_at(front, part_text(ps[k]), i);
        lemma_occurs_in_prefix(front, last, part_text(ps[k]), i);
    }
}

/// Nothing of a sub-part's text is lost: the text a part contributes to the
/// body holds, at any depth, the text of each of its sub-parts (so the text
/// of an inline part nested in a multipart part reaches the body), after the
/// part's own inline text.
pub proof fn lemma_subpart_text_kept(p: MessagePart, k: int)
    ensures
        is_inline(p) ==> has_prefix(part_text(p), body_text(p.body)),
        p.parts is Some && 0 <= k < p.parts->0@.len() ==> has_substring(part_text(p), part_text(p.parts->0@[k])),
        p.parts is None && is_inline(p) ==> part_text(p) == body_text(p.body),
{
    let own = if is_inline(p) { body_text(p.body) } else { Seq::<char>::empty() };
    match p.parts {
        Some(v) => {
            if 0 <= k < v@.len() {
                lemma_parts_text_holds(v@, k);
                let i = choose|i: int| occurs_at(parts_text(v@), part_text(v@[k]), i);
                lemma_occurs_after(own, parts_text(v@), part_text(v@[k]), i);
            }
            if is_inline(p) {
                assert(occurs_at(own, own, 0)) by {
                    assert(own.subrange(0, own.len() as int) =~= own);
                }
                lemma_occurs_in_prefix(own, parts_text(v@), own, 0);
            }
        },
        None => {
            assert(own.subrange(0, own.len() as int) =~= own);
        },
    }
}

proof fn lemma_parts_attachments_hold(ps: Seq<MessagePart>, k: int, j: int)
    requires
        0 <= k < ps.len(),
        0 <= j < part_attachments(ps[k]).len(),
    ensures
        parts_attachments(ps).contains(part_attachments(ps[k])[j]),
    decreases ps.len(),
{
    let front = parts_attachments(ps.drop_last());
    let last = part_attachments(ps.last());
    if k == ps.len() - 1 {
        assert((front + last)[front.len() + j] == last[j]);
    } else {
        lemma_parts_attachments_hold(ps.drop_last(), k, j);
        assert(ps.drop_last()[k] == ps[k]);
        let x = part_attachments(ps[k])[j];
        let i = choose|i: int| 0 <= i < front.len() && front[i] == x;
        assert((front + last)[i] == x);
    }
}

/// No attachment is lost: the attachments collected for a part hold, at any
/// depth, every attachment of each of its sub-parts, after the part's own.
pub proof fn lemma_subpart_attachments_kept(p: MessagePart, k: int, j: int)
    ensures
        own_attachment(p).len() > 0 ==> part_attachments(p)[0] == own_attachment(p)[0],
        p.parts is Some && 0 <= k < p.parts->0@.len() && 0 <= j < part_attachments(p.parts->0@[k]).len()
            ==> part_attachments(p).contains(part_attachments(p.parts->0@[k])[j]),
{
    if p.parts is Some && 0 <= k < p.parts->0@.len() && 0 <= j < part_attachments(p.parts->0@[k]).len() {
        let v = p.parts->0;
        lemma_parts_attachments_hold(v@, k, j);
        let x = part_attachments(v@[k])[j];
        let rest = parts_attachments(v@);
        let i = choose|i: int| 0 <= i < rest.len() && rest[i] == x;
        assert((own_attachment(p) + rest)[own_attachment(p).len() + i] == x);
    }
}

/// The body text read from a message payload holds, after the payload's own
/// body text, the text of each of its parts.
pub proof fn lemma_payload_text_holds_parts(pl: MessagePayload, k: int)
    ensures
        has_prefix(payload_text(Some(pl)), body_text(pl.body)),
        pl.parts is Some && 0 <= k < pl.parts->0@.len() ==> has_substring(
            payload_text(Some(pl)),
            part_text(pl.parts->0@[k]),
        ),
{
    let own = body_text(pl.body);
    let rest = match pl.parts {
        Some(v) => parts_text(v@),
        None => Seq::<char>::empty(),
    };
    assert(payload_text(Some(pl)) == own + rest);
    assert(occurs_at(own, own, 0)) by {
        assert(own.subrange(0, own.len() as int) =~= own);
    }
    lemma_occurs_in_prefix(own, rest, own, 0);
    if pl.parts is Some && 0 <= k < pl.parts->0@.len() {
        let v = pl.parts->0;
        lemma_parts_text_holds(v@, k);
        let i = choose|i: int| occurs_at(parts_text(v@), part_text(v@[k]), i);
        lemma_occurs_after(own, parts_text(v@), part_text(v@[k]), i);
    }
}

/// The attachment that a part with a non-empty file name and an attachment id describes.
pub open spec fn own_attachment(p: MessagePart) -> Seq<AttachmentModel> {
    match (p.filename, p.body) {
        (Some(f), Some(bd)) => if f@.len() > 0 {
            match bd.attachment_id {
                Some(id) => seq![AttachmentModel {
                    id: id@,
                    filename: f@,
                    mime_type: match p.mime_type {
                        Some(m) => m@,
                        None => "application/octet-stream"@,
                    },
                    size: (match bd.size {
                        Some(n) => n,
                        None => 0,
                    }) as usize,
                    data: None,
                }],
                None => Seq::empty(),
            }
        } else {
            Seq::empty()
        },
        _ => Seq::empty(),
    }
}

/// The attachments of a part: its own, then those of its sub-parts.
pub open spec fn part_attachments(p: MessagePart) -> Seq<AttachmentModel>
    decreases p, 1int,
{
    match p.parts {
        Some(v) => {
            proof {
                assert(decreases_to!(p => p.parts));
                assert(decreases_to!(p.parts => v));
                assert(decreases_to!(v => v@));
            }
            own_attachment(p) + parts_attachments(v@)
        },
        None => own_attachment(p),
    }
}

/// The attachments of a list of parts, in order.
pub open spec fn parts_attachments(ps: Seq<MessagePart>) -> Seq<AttachmentModel>
    decreases ps, 0int,
{
    if ps.len() == 0 {
        Seq::empty()
    } else {
        parts_attachments(ps.drop_last()) + part_attachments(ps.last())
    }
}

/// The text of the body data.
fn decode_body(b: &Option<BodyData>) -> (r: String)
    ensures
        r@ == body_text(*b),
{
    match b {
        Some(bd) => match &bd.data {
            Some(d) => match decode_base64url(d.as_str()) {
                Some(bytes) => match utf8_text(bytes) {
                    Some(t) => t,
                    None => String::new(),
                },
                None => String::new(),
            },
            None => String::new(),
        },
        None => String::new(),
    }
}

/// Appends the text and the attachments of a part and of its sub-parts.
pub fn parse_part_recursive(part: &MessagePart, body: &mut String, attachments: &mut Vec<Attachment>)
    ensures
        final(body)@ == old(body)@ + part_text(*part),
        attachments_view(final(attachments)@) == attachments_view(old(attachments)@) + part_attachments(*part),
    decreases part, 1int,
{
    let ghost a0 = attachments_view(attachments@);
    if let Some(filename) = &part.filename {
        if !filename.as_str().is_empty() {
            if let Some(body_data) = &part.body {
                if let Some(att_id) = &body_data.attachment_id {
                    let mime_type = match &part.mime_type {
                        Some(m) => m.clone(),
                        None => String::from_str("application/octet-stream"),
                    };
                    let size: i32 = match body_data.size {
                        Some(n) => n,
                        None => 0,
                    };
                    attachments.push(Attachment {
                        id: att_id.clone(),
                        filename: filename.clone(),
                        mime_type,
                        size: size as usize,
                        data: None,
                    });
                }
            }
        }
    }
    assert(attachments_view(attachments@) =~= a0 + own_attachment(*part));
    let inline = match &part.filename {
        Some(f) => f.as_str().is_empty(),
        None => true,
    };
    if inline {
        let text = decode_body(&part.body);
        body.append(text.as_str());
    }
    assert(body@ == old(body)@ + (if is_inline(*part) { body_text(part.body) } else { Seq::empty() }));
    if let Some(parts) = &part.parts {
        proof {
            assert(decreases_to!(*part => part.parts));
        }
        parse_parts_list(parts, body, attachments);
    }
}

/// Appends the text and the attachments of each part, in order.
fn parse_parts_list(parts: &Vec<MessagePart>, body: &mut String, attachments: &mut Vec<Attachment>)
    ensures
        final(body)@ == old(body)@ + parts_text(parts@),
        attachments_view(final(attachments)@) == attachments_view(old(attachments)@) + parts_attachments(parts@),
    decreases parts@, 1int,
{
    let ghost b0 = body@;
    let ghost a0 = attachments_view(attachments@);
    let mut i: usize = 0;
    while i < parts.len()
        invariant
            i <= parts@.len(),
            body@ == b0 + parts_text(parts@.take(i as int)),
            attachments_view(attachments@) == a0 + parts_attachments(parts@.take(i as int)),
        decreases parts@.len() - i,
    {
        proof {
            assert(decreases_to!(parts@ => parts@[i as int]));
        }
        parse_part_recursive(&parts[i], body, attachments);
        assert(parts@.take(i + 1).drop_last() =~= parts@.take(i as int));
        assert(parts@.take(i + 1).last() == parts@[i as int]);
        i += 1;
    }
    assert(parts@.take(parts@.len() as int) =~= parts@);
}

/// Appends the body text and the attachments of a message payload: the
/// payload's own body data, then its parts, in order.
pub fn parse_parts(payload: &MessagePayload, body: &mut String, attachments: &mut Vec<Attachment>)
    ensures
        final(body)@ == old(body)@ + body_text(payload.body) + match payload.parts {
            Some(v) => parts_text(v@),
            None => Seq::empty(),
        },
        attachments_view(final(attachments)@) == attachments_view(old(attachments)@) + match payload.parts {
            Some(v) => parts_attachments(v@),
            None => Seq::empty(),
        },
{
    let text = decode_body(&payload.body);
    body.append(text.as_str());
    if let Some(parts) = &payload.parts {
        parse_parts_list(parts, body, attachments);
    } else {
        assert(attachments_view(attachments@) =~= attachments_view(old(attachments)@) + Seq::<AttachmentModel>::empty());
    }
}


// ---------------------------------------------------------------------------
// Headers
// ---------------------------------------------------------------------------

/// The instant named by an RFC 2822 date, as whole seconds since the epoch
/// and the nanoseconds after that second, if the text parses as one (chrono's
/// `DateTime::parse_from_rfc2822`).
pub uninterp spec fn rfc2822_seconds(s: Seq<char>) -> Option<(i64, u32)>;

/// Calls `chrono::DateTime::parse_from_rfc2822` and takes the instant's
/// `timestamp()` and `timestamp_subsec_nanos()`. Claimed: whether the text
/// parses, and the instant, depend on the text alone, as named by
/// `rfc2822_seconds`.
#[verifier::external_body]
pub(crate) fn parse_rfc2822(s: &str) -> (r: Option<(i64, u32)>)
    ensures
        r == rfc2822_seconds(s@),
{
    match chrono::DateTime::parse_from_rfc2822(s) {
        Ok(d) => Some((d.timestamp(), d.timestamp_subsec_nanos())),
        Err(_) => None,
    }
}

/// The sender, recipients, subject and date read from a message's headers.
pub struct HeaderFields {
    pub from: String,
    pub to: Vec<String>,
    pub subject: String,
    pub date: i64,
    pub date_nanos: u32,
}

/// The mathematical model of [`HeaderFields`].
pub struct FieldsModel {
    pub from: Seq<char>,
    pub to: Seq<Seq<char>>,
    pub subject: Seq<char>,
    pub date: i64,
    pub date_nanos: u32,
}

impl View for HeaderFields {
    type V = FieldsModel;

    open spec fn view(&self) -> FieldsModel {
        FieldsModel {
            from: self.from@,
            to: self.to@.map_values(|t: String| t@),
            subject: self.subject@,
            date: self.date,
            date_nanos: self.date_nanos,
        }
    }
}

/// The fields after reading one more header, matched by its lower-cased name:
/// `from` and `subject` are taken as they are, `to` is split at commas and
/// each address trimmed, `date` is taken when it parses as RFC 2822; other
/// headers change nothing.
pub open spec fn read_header(f: FieldsModel, h: MessageHeader) -> FieldsModel {
    let n = unicode_lowercase(h.name@);
    if n == "from"@ {
        FieldsModel { from: h.value@, ..f }
    } else if n == "to"@ {
        FieldsModel { to: split_trimmed(h.value@, ','), ..f }
    } else if n == "subject"@ {
        FieldsModel { subject: h.value@, ..f }
    } else if n == "date"@ {
        match rfc2822_seconds(h.value@) {
            Some(t) => FieldsModel { date: t.0, date_nanos: t.1, ..f },
            None => f,
        }
    } else {
        f
    }
}

/// The fields read from the headers in order, a later header replacing an
/// earlier one; before any header, all is empty and the date is the instant
/// `now` (seconds, then nanoseconds).
pub open spec fn read_headers(hs: Seq<MessageHeader>, now: i64, now_nanos: u32) -> FieldsModel
    decreases hs.len(),
{
    if hs.len() == 0 {
        FieldsModel { from: Seq::empty(), to: Seq::empty(), subject: Seq::empty(), date: now, date_nanos: now_nanos }
    } else {
        read_header(read_headers(hs.drop_last(), now, now_nanos), hs.last())
    }
}

/// Reads the sender, recipients, subject and date from a message's headers;
/// `now` stands for the date when no header gives one.
pub fn extract_headers(headers: &Option<Vec<MessageHeader>>, now: i64, now_nanos: u32) -> (r: HeaderFields)
    ensures
        r@ == read_headers(
            match *headers {
                Some(v) => v@,
                None => Seq::empty(),
            },
            now,
            now_nanos,
        ),
{
    let mut f = HeaderFields {
        from: String::new(),
        to: Vec::new(),
        subject: String::new(),
        date: now,
        date_nanos: now_nanos,
    };
    assert(f@.to =~= Seq::<Seq<char>>::empty());
    match headers {
        None => {},
        Some(hs) => {
            let mut i: usize = 0;
            while i < hs.len()
                invariant
                    i <= hs@.len(),
                    f@ == read_headers(hs@.take(i as int), now, now_nanos),
                decreases hs@.len() - i,
            {
                assert(hs@.take(i + 1).drop_last() =~= hs@.take(i as int));
                assert(hs@.take(i + 1).last() == hs@[i as int]);
                let h = &hs[i];
                let n = to_lowercase(h.name.as_str());
                proof {
                    reveal_strlit("from");
                    reveal_strlit("to");
                    reveal_strlit("subject");
                    reveal_strlit("date");
                }
                if str_eq(n.as_str(), "from") {
                    f.from = h.value.clone();
                } else if str_eq(n.as_str(), "to") {
                    f.to = split_and_trim(h.value.as_str(), ',');
                } else if str_eq(n.as_str(), "subject") {
                    f.subject = h.value.clone();
                } else if str_eq(n.as_str(), "date") {
                    match parse_rfc2822(h.value.as_str()) {
                        Some(t) => {
                            f.date = t.0;
                            f.date_nanos = t.1;
                        },
                        None => {},
                    }
                }
                i += 1;
            }
            assert(hs@.take(hs@.len() as int) =~= hs@);
        },
    }
    f
}


// ---------------------------------------------------------------------------
// Messages
// ---------------------------------------------------------------------------

/// A Gmail message as the API returns it.
pub struct MessageDetail {
    pub id: String,
    pub thread_id: String,
    pub label_ids: Option<Vec<String>>,
    pub payload: Option<MessagePayload>,
}

/// The headers of a payload, if any.
pub open spec fn payload_headers(p: Option<MessagePayload>) -> Seq<MessageHeader> {
    match p {
        Some(pl) => match pl.headers {
            Some(v) => v@,
            None => Seq::empty(),
        },
        None => Seq::empty(),
    }
}

/// The body text of a payload: its own body, then its parts.
pub open spec fn payload_text(p: Option<MessagePayload>) -> Seq<char> {
    match p {
        Some(pl) => body_text(pl.body) + match pl.parts {
            Some(v) => parts_text(v@),
            None => Seq::empty(),
        },
        None => Seq::empty(),
    }
}

/// The attachments of a payload's parts.
pub open spec fn payload_attachments(p: Option<MessagePayload>) -> Seq<AttachmentModel> {
    match p {
        Some(pl) => match pl.parts {
            Some(v) => parts_attachments(v@),
            None => Seq::empty(),
        },
        None => Seq::empty(),
    }
}

/// The e-mail read from a Gmail message: id and thread as given; sender,
/// recipients, subject and date from the headers (`now` when no date header
/// parses); the body text and attachments from the parts; the label ids, none
/// when absent.
pub fn email_from_detail(detail: MessageDetail, now: i64, now_nanos: u32) -> (e: Email)
    ensures
        e.id@ == detail.id@,
        e.thread_id@ == detail.thread_id@,
        e.from@ == read_headers(payload_headers(detail.payload), now, now_nanos).from,
        texts_view(e.to@) == read_headers(payload_headers(detail.payload), now, now_nanos).to,
        e.subject@ == read_headers(payload_headers(detail.payload), now, now_nanos).subject,
        e.date == read_headers(payload_headers(detail.payload), now, now_nanos).date,
        e.date_nanos == read_headers(payload_headers(detail.payload), now, now_nanos).date_nanos,
        e.body@ == payload_text(detail.payload),
        attachments_view(e.attachments@) == payload_attachments(detail.payload),
        e.labels@ == (match detail.label_ids {
            Some(v) => v@,
            None => Seq::empty(),
        }),
{
    let empty_headers: Option<Vec<MessageHeader>> = None;
    let fields = match &detail.payload {
        Some(p) => extract_headers(&p.headers, now, now_nanos),
        None => extract_headers(&empty_headers, now, now_nanos),
    };
    let mut body = String::new();
    let mut attachments: Vec<Attachment> = Vec::new();
    match &detail.payload {
        Some(p) => parse_parts(p, &mut body, &mut attachments),
        None => {},
    }
    assert(body@ =~= payload_text(detail.payload));
    assert(attachments_view(attachments@) =~= payload_attachments(detail.payload));
    let labels = match detail.label_ids {
        Some(v) => v,
        None => Vec::new(),
    };
    Email {
        id: detail.id,
        thread_id: detail.thread_id,
        from: fields.from,
        to: fields.to,
        subject: fields.subject,
        body,
        date: fields.date,
        date_nanos: fields.date_nanos,
        labels,
        attachments,
    }
}

// ---------------------------------------------------------------------------
// Requests
// ---------------------------------------------------------------------------

/// The Gmail API root.
pub open spec fn gmail_api() -> Seq<char> {
    "https://gmail.googleapis.com/gmail/v1"@
}

/// The Gmail API root that requests are sent to.
pub fn api_url() -> (r: String)
    ensures
        r@ == gmail_api(),
{
    String::from_str("https://gmail.googleapis.com/gmail/v1")
}

/// The query that selects the unread messages.
pub fn unread_query() -> (r: &'static str)
    ensures
        r@ == "is:unread"@,
{
    "is:unread"
}

/// The URL listing the messages that match a query, the query percent-encoded.
pub fn message_list_url(api: &str, query: &str) -> (r: String)
    ensures
        r@ == api@ + "/users/me/messages?q="@ + spec_encode_query(query@),
{
    let mut u = api.to_owned();
    u.append("/users/me/messages?q=");
    let q = encode_query(query);
    u.append(q.as_str());
    u
}

/// The URL of one message, in full format.
pub fn message_url(api: &str, id: &str) -> (r: String)
    ensures
        r@ == api@ + "/users/me/messages/"@ + id@ + "?format=full"@,
{
    let mut u = api.to_owned();
    u.append("/users/me/messages/");
    u.append(id);
    u.append("?format=full");
    u
}

/// The URL of the labels of the mailbox.
pub fn labels_url(api: &str) -> (r: String)
    ensures
        r@ == api@ + "/users/me/labels"@,
{
    let mut u = api.to_owned();
    u.append("/users/me/labels");
    u
}

/// The URL of one label of the mailbox.
pub fn label_url(api: &str, id: &str) -> (r: String)
    ensures
        r@ == api@ + "/users/me/labels/"@ + id@,
{
    let mut u = api.to_owned();
    u.append("/users/me/labels/");
    u.append(id);
    u
}

/// The URL that changes the labels of a message.
pub fn modify_url(api: &str, id: &str) -> (r: String)
    ensures
        r@ == api@ + "/users/me/messages/"@ + id@ + "/modify"@,
{
    let mut u = api.to_owned();
    u.append("/users/me/messages/");
    u.append(id);
    u.append("/modify");
    u
}

/// The URL that moves a message to the trash.
pub fn trash_url(api: &str, id: &str) -> (r: String)
    ensures
        r@ == api@ + "/users/me/messages/"@ + id@ + "/trash"@,
{
    let mut u = api.to_owned();
    u.append("/users/me/messages/");
    u.append(id);
    u.append("/trash");
    u
}

/// A Gmail call that can fail.
pub enum GmailCall {
    ListMessages,
    GetMessage(String),
    ApplyLabels,
    RemoveLabels,
    Trash,
}

/// The report of a failed Gmail call, followed by the body of the answer.
pub open spec fn call_failure(c: GmailCall) -> Seq<char> {
    match c {
        GmailCall::ListMessages => "Failed to list messages: "@,
        GmailCall::GetMessage(id) => "Failed to get message "@ + id@ + ": "@,
        GmailCall::ApplyLabels => "Failed to apply labels: "@,
        GmailCall::RemoveLabels => "Failed to remove labels: "@,
        GmailCall::Trash => "Failed to trash email: "@,
    }
}

/// The error for a Gmail call that was answered with a failure status.
pub fn gmail_call_error(call: GmailCall, body: &str) -> (e: crate::error::GraphonError)
    ensures
        e matches crate::error::GraphonError::Gmail(m) && m@ == call_failure(call) + body@,
{
    let mut m = match &call {
        GmailCall::ListMessages => String::from_str("Failed to list messages: "),
        GmailCall::GetMessage(id) => {
            let mut t = String::from_str("Failed to get message ");
            t.append(id.as_str());
            t.append(": ");
            t
        },
        GmailCall::ApplyLabels => String::from_str("Failed to apply labels: "),
        GmailCall::RemoveLabels => String::from_str("Failed to remove labels: "),
        GmailCall::Trash => String::from_str("Failed to trash email: "),
    };
    m.append(body);
    crate::error::GraphonError::Gmail(m)
}

/// The error when a message list is asked for without an OAuth token.
pub fn missing_token_error() -> (e: crate::error::GraphonError)
    ensures
        e matches crate::error::GraphonError::Gmail(m) && m@ == "No OAuth token provided"@,
{
    crate::error::GraphonError::Gmail(String::from_str("No OAuth token provided"))
}

/// The error when a message is asked for without an OAuth token.
pub fn no_token_available_error() -> (e: crate::error::GraphonError)
    ensures
        e matches crate::error::GraphonError::Gmail(m) && m@ == "No OAuth token available"@,
{
    crate::error::GraphonError::Gmail(String::from_str("No OAuth token available"))
}

/// The OAuth token for a request that needs one, or, when none is set, the
/// error for that request: a message listing reports that no token was
/// provided, any other request that none is available.
pub fn require_token(token: &Option<String>, listing: bool) -> (r: Result<String, GraphonError>)
    ensures
        match *token {
            Some(t) => r matches Ok(s) && s@ == t@,
            None => r matches Err(GraphonError::Gmail(m)) && m@ == (if listing {
                "No OAuth token provided"@
            } else {
                "No OAuth token available"@
            }),
        },
{
    match token {
        Some(t) => Ok(t.clone()),
        None => if listing {
            Err(missing_token_error())
        } else {
            Err(no_token_available_error())
        },
    }
}

// ---------------------------------------------------------------------------
// Without a token: stand-in messages
// ---------------------------------------------------------------------------

/// A text list holding one text.
fn one_text(t: &str) -> (r: Vec<String>)
    ensures
        r@.len() == 1,
        r@[0]@ == t@,
{
    let mut v: Vec<String> = Vec::new();
    v.push(t.to_owned());
    v
}

/// The unread messages returned when no OAuth token is set, dated `now`: a
/// sale newsletter (`msg123`) and an urgent request from the boss with a PDF
/// attached (`msg456`), both to `user@example.com` and unread.
pub fn mock_unread_emails(now: i64, now_nanos: u32) -> (r: Vec<Email>)
    ensures
        r@.len() == 2,
        r@[0].id@ == "msg123"@,
        r@[0].thread_id@ == "thread123"@,
        r@[0].from@ == "newsletter@shop.com"@,
        texts_view(r@[0].to@) == seq!["user@example.com"@],
        r@[0].subject@ == "50% off all items today only!"@,
        r@[0].body@ == "Click here to unsubscribe from this sale newsletter."@,
        r@[0].date == now,
        r@[0].date_nanos == now_nanos,
        texts_view(r@[0].labels@) == seq!["UNREAD"@],
        r@[0].attachments@.len() == 0,
        r@[1].id@ == "msg456"@,
        r@[1].thread_id@ == "thread456"@,
        r@[1].from@ == "boss@company.com"@,
        texts_view(r@[1].to@) == seq!["user@example.com"@],
        r@[1].subject@ == "URGENT: Review quarterly report"@,
        r@[1].body@ == "Please review the attached PDF as soon as possible and let me know your thoughts."@,
        r@[1].date == now,
        r@[1].date_nanos == now_nanos,
        texts_view(r@[1].labels@) == seq!["UNREAD"@],
        attachments_view(r@[1].attachments@) == seq![AttachmentModel {
            id: "att1"@,
            filename: "quarterly_report.pdf"@,
            mime_type: "application/pdf"@,
            size: 1024,
            data: None,
        }],
{
    let mut attachments: Vec<Attachment> = Vec::new();
    attachments.push(Attachment {
        id: String::from_str("att1"),
        filename: String::from_str("quarterly_report.pdf"),
        mime_type: String::from_str("application/pdf"),
        size: 1024,
        data: None,
    });
    let first = Email {
        id: String::from_str("msg123"),
        thread_id: String::from_str("thread123"),
        from: String::from_str("newsletter@shop.com"),
        to: one_text("user@example.com"),
        subject: String::from_str("50% off all items today only!"),
        body: String::from_str("Click here to unsubscribe from this sale newsletter."),
        date: now,
        date_nanos: now_nanos,
        labels: one_text("UNREAD"),
        attachments: Vec::new(),
    };
    let second = Email {
        id: String::from_str("msg456"),
        thread_id: String::from_str("thread456"),
        from: String::from_str("boss@company.com"),
        to: one_text("user@example.com"),
        subject: String::from_str("URGENT: Review quarterly report"),
        body: String::from_str("Please review the attached PDF as soon as possible and let me know your thoughts."),
        date: now,
        date_nanos: now_nanos,
        labels: one_text("UNREAD"),
        attachments,
    };
    let mut r: Vec<Email> = Vec::new();
    r.push(first);
    r.push(second);
    assert(texts_view(r@[0].to@) =~= seq!["user@example.com"@]);
    assert(texts_view(r@[0].labels@) =~= seq!["UNREAD"@]);
    assert(texts_view(r@[1].to@) =~= seq!["user@example.com"@]);
    assert(texts_view(r@[1].labels@) =~= seq!["UNREAD"@]);
    assert(attachments_view(r@[1].attachments@) =~= seq![AttachmentModel {
        id: "att1"@,
        filename: "quarterly_report.pdf"@,
        mime_type: "application/pdf"@,
        size: 1024,
        data: None,
    }]);
    r
}

/// The e-mails fetched, in order, the failed fetches left out.
pub open spec fn fetched_emails(rs: Seq<Result<Email, GraphonError>>) -> Seq<crate::entities::EmailModel>
    decreases rs.len(),
{
    if rs.len() == 0 {
        Seq::empty()
    } else {
        match rs.last() {
            Ok(e) => fetched_emails(rs.drop_last()).push(e@),
            Err(_) => fetched_emails(rs.drop_last()),
        }
    }
}

/// The messages whose details could be fetched, in order; a message whose
/// fetch failed is passed over.
pub fn keep_fetched(results: &Vec<Result<Email, GraphonError>>) -> (r: Vec<Email>)
    ensures
        r@.map_values(|e: Email| e@) == fetched_emails(results@),
{
    let mut r: Vec<Email> = Vec::new();
    let mut i: usize = 0;
    while i < results.len()
        invariant
            i <= results@.len(),
            r@.map_values(|e: Email| e@) == fetched_emails(results@.take(i as int)),
        decreases results@.len() - i,
    {
        assert(results@.take(i + 1).drop_last() =~= results@.take(i as int));
        assert(results@.take(i + 1).last() == results@[i as int]);
        let ghost before = r@.map_values(|e: Email| e@);
        match &results[i] {
            Ok(e) => {
                r.push(e.clone());
                assert(r@.map_values(|e: Email| e@) =~= before.push(results@[i as int]->Ok_0@));
            },
            Err(_) => {},
        }
        i += 1;
    }
    assert(results@.take(results@.len() as int) =~= results@);
    r
}

/// Fifteen days in seconds.
pub open spec fn fifteen_days() -> int {
    1296000
}

/// The messages returned for any query when no OAuth token is set: one CPU
/// alert from `alerts@system.com` (`msg789`), dated fifteen days before `now`.
pub fn mock_query_emails(now: i64, now_nanos: u32) -> (r: Vec<Email>)
    requires
        now >= i64::MIN + fifteen_days(),
    ensures
        r@.len() == 1,
        r@[0].id@ == "msg789"@,
        r@[0].thread_id@ == "thread789"@,
        r@[0].from@ == "alerts@system.com"@,
        texts_view(r@[0].to@) == seq!["user@example.com"@],
        r@[0].subject@ == "System CPU Alert"@,
        r@[0].body@ == "CPU usage exceeded 90% threshold."@,
        r@[0].date == now - fifteen_days(),
        r@[0].date_nanos == now_nanos,
        r@[0].labels@.len() == 0,
        r@[0].attachments@.len() == 0,
{
    let e = Email {
        id: String::from_str("msg789"),
        thread_id: String::from_str("thread789"),
        from: String::from_str("alerts@system.com"),
        to: one_text("user@example.com"),
        subject: String::from_str("System CPU Alert"),
        body: String::from_str("CPU usage exceeded 90% threshold."),
        date: now - 15 * 86400,
        date_nanos: now_nanos,
        labels: Vec::new(),
        attachments: Vec::new(),
    };
    let mut r: Vec<Email> = Vec::new();
    r.push(e);
    assert(texts_view(r@[0].to@) =~= seq!["user@example.com"@]);
    r
}


// ---------------------------------------------------------------------------
// Label ids
// ---------------------------------------------------------------------------

/// Whether the label is one of Gmail's system labels (matched by exact name).
pub fn is_system_label(label: &str) -> (r: bool)
    ensures
        r == is_system_name(label@),
{
    is_system_label_name(label)
}

/// A label as the Gmail API lists it.
pub struct GmailLabel {
    pub id: String,
    pub name: String,
}

/// The label is the one called `name`, up to ASCII case (by name, or, when
/// `by_id`, also by id).
pub open spec fn label_matches(l: GmailLabel, name: Seq<char>, by_id: bool) -> bool {
    eq_ascii_ci(l.name@, name) || (by_id && eq_ascii_ci(l.id@, name))
}

/// The first label of `ls` from position `i` on that matches.
pub open spec fn first_label_from(ls: Seq<GmailLabel>, name: Seq<char>, by_id: bool, i: int) -> Option<int>
    decreases ls.len() - i,
{
    if i < 0 || i >= ls.len() {
        None
    } else if label_matches(ls[i], name, by_id) {
        Some(i)
    } else {
        first_label_from(ls, name, by_id, i + 1)
    }
}

/// The first label of `ls` that matches.
pub open spec fn first_label(ls: Seq<GmailLabel>, name: Seq<char>, by_id: bool) -> Option<int> {
    first_label_from(ls, name, by_id, 0)
}

proof fn lemma_first_label_range(ls: Seq<GmailLabel>, name: Seq<char>, by_id: bool, i: int)
    ensures
        first_label_from(ls, name, by_id, i) matches Some(k) ==> 0 <= i <= k < ls.len() && label_matches(
            ls[k],
            name,
            by_id,
        ),
    decreases ls.len() - i,
{
    if 0 <= i < ls.len() && !label_matches(ls[i], name, by_id) {
        lemma_first_label_range(ls, name, by_id, i + 1);
    }
}

/// The position of the first label that matches, if any.
pub fn find_label(ls: &Vec<GmailLabel>, name: &str, by_id: bool) -> (r: Option<usize>)
    ensures
        r matches Some(k) ==> k < ls@.len(),
        match first_label(ls@, name@, by_id) {
            Some(k) => r matches Some(j) && j == k,
            None => r is None,
        },
{
    proof {
        lemma_first_label_range(ls@, name@, by_id, 0);
    }
    let mut i: usize = 0;
    while i < ls.len()
        invariant
            i <= ls@.len(),
            first_label(ls@, name@, by_id) == first_label_from(ls@, name@, by_id, i as int),
        decreases ls@.len() - i,
    {
        let l = &ls[i];
        if eq_ignore_ascii_case(l.name.as_str(), name) || (by_id && eq_ignore_ascii_case(l.id.as_str(), name)) {
            return Some(i);
        }
        i += 1;
    }
    None
}

/// The report when a label id can neither be found nor created.
pub open spec fn label_id_failure(name: Seq<char>, body: Seq<char>) -> Seq<char> {
    "Failed to create or retrieve label ID for '"@ + name + "': "@ + body
}

/// The refusal says that the label exists already.
pub open spec fn says_exists(body: Seq<char>) -> bool {
    has_substring(body, "alreadyExists"@) || has_substring(body, "Label name exists"@)
}

/// Where a label-id resolution stands.
#[derive(Clone, Copy, PartialEq, Eq)]
pub enum LabelIdPhase {
    Start,
    AwaitList,
    AwaitCreate,
    AwaitRelist,
    Finished,
}

/// The outcome of the last request, handed to [`LabelIdResolution::step`].
pub enum LabelIdEvent {
    Begin,
    /// The labels listed, `None` when the list request got a failure status.
    Listed(Result<Option<Vec<GmailLabel>>, GraphonError>),
    /// The label created, or the body of the refusal.
    Created(Result<Result<GmailLabel, String>, GraphonError>),
    /// The labels listed again after a refusal.
    Relisted(Result<Option<Vec<GmailLabel>>, GraphonError>),
}

/// What the caller does next.
pub enum LabelIdAction {
    ListLabels,
    CreateLabel,
    Finish(Result<String, GraphonError>),
    Rejected,
}

/// The mathematical model of a [`LabelIdAction`].
pub enum LabelIdActionModel {
    ListLabels,
    CreateLabel,
    Finish(Result<Seq<char>, ErrorModel>),
    Rejected,
}

impl View for LabelIdAction {
    type V = LabelIdActionModel;

    open spec fn view(&self) -> LabelIdActionModel {
        match self {
            LabelIdAction::ListLabels => LabelIdActionModel::ListLabels,
            LabelIdAction::CreateLabel => LabelIdActionModel::CreateLabel,
            LabelIdAction::Finish(Ok(id)) => LabelIdActionModel::Finish(Ok(id@)),
            LabelIdAction::Finish(Err(e)) => LabelIdActionModel::Finish(Err(e@)),
            LabelIdAction::Rejected => LabelIdActionModel::Rejected,
        }
    }
}

/// Finding, or else creating, the id of the label called `name`.
pub struct LabelIdResolution {
    pub phase: LabelIdPhase,
    pub name: String,
    pub refusal: String,
}

/// The mathematical model of a [`LabelIdResolution`].
pub struct LabelIdModel {
    pub phase: LabelIdPhase,
    pub name: Seq<char>,
    pub refusal: Seq<char>,
}

impl View for LabelIdResolution {
    type V = LabelIdModel;

    open spec fn view(&self) -> LabelIdModel {
        LabelIdModel { phase: self.phase, name: self.name@, refusal: self.refusal@ }
    }
}

/// One step of a label-id resolution. The labels are listed; a label whose
/// name or id equals the name up to ASCII case gives its id. Otherwise a
/// system label's name is its id; any other label is created. When the
/// creation is refused because the label exists, the labels are listed again
/// and one whose name matches gives its id. A failed request ends the
/// resolution with its error; a refusal that cannot be resolved ends it with a
/// `Gmail` error naming the label and the refusal.
pub open spec fn spec_label_id_step(s: LabelIdModel, event: LabelIdEvent) -> (LabelIdModel, LabelIdActionModel) {
    let finished = LabelIdModel { phase: LabelIdPhase::Finished, ..s };
    match (s.phase, event) {
        (LabelIdPhase::Start, LabelIdEvent::Begin) => (
            LabelIdModel { phase: LabelIdPhase::AwaitList, ..s },
            LabelIdActionModel::ListLabels,
        ),
        (LabelIdPhase::AwaitList, LabelIdEvent::Listed(Err(e))) => (finished, LabelIdActionModel::Finish(Err(e@))),
        (LabelIdPhase::AwaitList, LabelIdEvent::Listed(Ok(listed))) => {
            let found = match listed {
                Some(ls) => match first_label(ls@, s.name, true) {
                    Some(k) => Some(ls@[k].id@),
                    None => None,
                },
                None => None,
            };
            match found {
                Some(id) => (finished, LabelIdActionModel::Finish(Ok(id))),
                None => if is_system_name(s.name) {
                    (finished, LabelIdActionModel::Finish(Ok(s.name)))
                } else {
                    (LabelIdModel { phase: LabelIdPhase::AwaitCreate, ..s }, LabelIdActionModel::CreateLabel)
                },
            }
        },
        (LabelIdPhase::AwaitCreate, LabelIdEvent::Created(Err(e))) => (finished, LabelIdActionModel::Finish(Err(e@))),
        (LabelIdPhase::AwaitCreate, LabelIdEvent::Created(Ok(Ok(l)))) => (
            finished,
            LabelIdActionModel::Finish(Ok(l.id@)),
        ),
        (LabelIdPhase::AwaitCreate, LabelIdEvent::Created(Ok(Err(body)))) => if says_exists(body@) {
            (LabelIdModel { phase: LabelIdPhase::AwaitRelist, refusal: body@, ..s }, LabelIdActionModel::ListLabels)
        } else {
            (finished, LabelIdActionModel::Finish(Err(ErrorModel::Gmail(label_id_failure(s.name, body@)))))
        },
        (LabelIdPhase::AwaitRelist, LabelIdEvent::Relisted(Err(e))) => (finished, LabelIdActionModel::Finish(Err(e@))),
        (LabelIdPhase::AwaitRelist, LabelIdEvent::Relisted(Ok(listed))) => {
            let found = match listed {
                Some(ls) => match first_label(ls@, s.name, false) {
                    Some(k) => Some(ls@[k].id@),
                    None => None,
                },
                None => None,
            };
            match found {
                Some(id) => (finished, LabelIdActionModel::Finish(Ok(id))),
                None => (
                    finished,
                    LabelIdActionModel::Finish(Err(ErrorModel::Gmail(label_id_failure(s.name, s.refusal)))),
                ),
            }
        },
        _ => (s, LabelIdActionModel::Rejected),
    }
}

impl LabelIdResolution {
    /// A resolution of the id of the label called `name`, not started.
    pub fn new(name: &str) -> (r: LabelIdResolution)
        ensures
            r@.phase == LabelIdPhase::Start,
            r@.name == name@,
            r@.refusal == Seq::<char>::empty(),
    {
        LabelIdResolution { phase: LabelIdPhase::Start, name: name.to_owned(), refusal: String::new() }
    }

    fn failure(&self, body: &str) -> (e: GraphonError)
        ensures
            e@ == ErrorModel::Gmail(label_id_failure(self.name@, body@)),
    {
        let mut m = String::from_str("Failed to create or retrieve label ID for '");
        m.append(self.name.as_str());
        m.append("': ");
        m.append(body);
        GraphonError::Gmail(m)
    }

    /// Takes the outcome of the last request and returns the next state and
    /// action, as [`spec_label_id_step`] says.
    pub fn step(self, event: LabelIdEvent) -> (r: (LabelIdResolution, LabelIdAction))
        ensures
            (r.0@, r.1@) == spec_label_id_step(self@, event),
    {
        let finished_phase = LabelIdPhase::Finished;
        match (self.phase, event) {
            (LabelIdPhase::Start, LabelIdEvent::Begin) => (
                LabelIdResolution { phase: LabelIdPhase::AwaitList, ..self },
                LabelIdAction::ListLabels,
            ),
            (LabelIdPhase::AwaitList, LabelIdEvent::Listed(Err(e))) => (
                LabelIdResolution { phase: finished_phase, ..self },
                LabelIdAction::Finish(Err(e)),
            ),
            (LabelIdPhase::AwaitList, LabelIdEvent::Listed(Ok(listed))) => {
                let found = match &listed {
                    Some(ls) => match find_label(ls, self.name.as_str(), true) {
                        Some(k) => Some(ls[k].id.clone()),
                        None => None,
                    },
                    None => None,
                };
                match found {
                    Some(id) => (LabelIdResolution { phase: finished_phase, ..self }, LabelIdAction::Finish(Ok(id))),
                    None => if is_system_label(self.name.as_str()) {
                        let id = self.name.clone();
                        (LabelIdResolution { phase: finished_phase, ..self }, LabelIdAction::Finish(Ok(id)))
                    } else {
                        (LabelIdResolution { phase: LabelIdPhase::AwaitCreate, ..self }, LabelIdAction::CreateLabel)
                    },
                }
            },
            (LabelIdPhase::AwaitCreate, LabelIdEvent::Created(Err(e))) => (
                LabelIdResolution { phase: finished_phase, ..self },
                LabelIdAction::Finish(Err(e)),
            ),
            (LabelIdPhase::AwaitCreate, LabelIdEvent::Created(Ok(Ok(l)))) => (
                LabelIdResolution { phase: finished_phase, ..self },
                LabelIdAction::Finish(Ok(l.id)),
            ),
            (LabelIdPhase::AwaitCreate, LabelIdEvent::Created(Ok(Err(body)))) => {
                proof {
                    reveal_strlit("alreadyExists");
                    reveal_strlit("Label name exists");
                }
                if contains(body.as_str(), "alreadyExists") || contains(body.as_str(), "Label name exists") {
                    (
                        LabelIdResolution { phase: LabelIdPhase::AwaitRelist, refusal: body, ..self },
                        LabelIdAction::ListLabels,
                    )
                } else {
                    let e = self.failure(body.as_str());
                    (LabelIdResolution { phase: finished_phase, ..self }, LabelIdAction::Finish(Err(e)))
                }
            },
            (LabelIdPhase::AwaitRelist, LabelIdEvent::Relisted(Err(e))) => (
                LabelIdResolution { phase: finished_phase, ..self },
                LabelIdAction::Finish(Err(e)),
            ),
            (LabelIdPhase::AwaitRelist, LabelIdEvent::Relisted(Ok(listed))) => {
                let found = match &listed {
                    Some(ls) => match find_label(ls, self.name.as_str(), false) {
                        Some(k) => Some(ls[k].id.clone()),
                        None => None,
                    },
                    None => None,
                };
                match found {
                    Some(id) => (LabelIdResolution { phase: finished_phase, ..self }, LabelIdAction::Finish(Ok(id))),
                    None => {
                        let e = self.failure(self.refusal.as_str());
                        (LabelIdResolution { phase: finished_phase, ..self }, LabelIdAction::Finish(Err(e)))
                    },
                }
            },
            (_, event) => (self, LabelIdAction::Rejected),
        }
    }
}

/// An existing label is never created, nor is a system label: the
/// resolution creates a label only when the listing answered and no label
/// there is called so (by name or id, up to ASCII case), and the name is not
/// a system label's.
pub proof fn lemma_creates_only_missing_labels(s: LabelIdModel, event: LabelIdEvent)
    requires
        spec_label_id_step(s, event).1 is CreateLabel,
    ensures
        s.phase == LabelIdPhase::AwaitList,
        !is_system_name(s.name),
        event matches LabelIdEvent::Listed(Ok(listed)) && (listed matches Some(ls) ==> first_label(
            ls@,
            s.name,
            true,
        ) is None),
{
}

/// A label found by the listing gives its id: the first label called so, by
/// name or id up to ASCII case.
pub proof fn lemma_listed_label_gives_its_id(s: LabelIdModel, ls: Vec<GmailLabel>, k: int)
    requires
        s.phase == LabelIdPhase::AwaitList,
        first_label(ls@, s.name, true) == Some(k),
    ensures
        spec_label_id_step(s, LabelIdEvent::Listed(Ok(Some(ls)))).1 == LabelIdActionModel::Finish(Ok(ls@[k].id@)),
        label_matches(ls@[k], s.name, true),
{
    lemma_first_label_range(ls@, s.name, true, 0);
}

/// The id used for a label in a change request: the resolved id, or, when
/// the id could not be resolved, the label's name itself.
pub fn label_id_or_name(resolved: Result<String, GraphonError>, label: &str) -> (r: String)
    ensures
        r@ == (match resolved {
            Ok(id) => id@,
            Err(_) => label@,
        }),
{
    match resolved {
        Ok(id) => id,
        Err(_) => label.to_owned(),
    }
}

} // verus!
