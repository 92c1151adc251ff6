//! Byte-level primitives of the wire encoding: big-endian integers, booleans,
//! characters and strings, each with a total encoder, a prefix-style decoder,
//! and a proof that decoding undoes encoding.
//!
//! Decoders work on a suffix of the byte stream and hand back the value
//! together with the bytes they did not consume, so that compound decoders
//! chain them; their executable twins walk one shared buffer with a cursor.

use vstd::prelude::*;

use vstd::string::StrSliceExecFns;
use vstd::utf8::is_scalar;

verus! {

// ---------------------------------------------------------------------------
// u64, big endian
// ---------------------------------------------------------------------------

/// The eight big-endian bytes of `v`.
pub open spec fn spec_enc_u64(v: u64) -> Seq<u8> {
    seq![
        (v >> 56) as u8,
        (v >> 48) as u8,
        (v >> 40) as u8,
        (v >> 32) as u8,
        (v >> 24) as u8,
        (v >> 16) as u8,
        (v >> 8) as u8,
        v as u8,
    ]
}

/// The value whose big-endian bytes are `b0 .. b7`.
pub open spec fn spec_u64_of_bytes(
    b0: u8,
    b1: u8,
    b2: u8,
    b3: u8,
    b4: u8,
    b5: u8,
    b6: u8,
    b7: u8,
) -> u64 {
    ((b0 as u64) << 56) | ((b1 as u64) << 48) | ((b2 as u64) << 40) | ((b3 as u64) << 32) | ((
    b4 as u64) << 24) | ((b5 as u64) << 16) | ((b6 as u64) << 8) | (b7 as u64)
}

/// Reads a u64 from the front of `b`, returning it with the remaining bytes.
pub open spec fn spec_dec_u64(b: Seq<u8>) -> Option<(u64, Seq<u8>)> {
    if b.len() >= 8 {
        Some(
            (
                spec_u64_of_bytes(b[0], b[1], b[2], b[3], b[4], b[5], b[6], b[7]),
                b.subrange(8, b.len() as int),
            ),
        )
    } else {
        None
    }
}

pub proof fn lemma_dec_enc_u64(v: u64, rest: Seq<u8>)
    ensures
        spec_dec_u64(spec_enc_u64(v) + rest) == Some((v, rest)),
{
    let b = spec_enc_u64(v) + rest;
    assert(b.len() >= 8);
    assert(spec_u64_of_bytes(
        (v >> 56) as u8,
        (v >> 48) as u8,
        (v >> 40) as u8,
        (v >> 32) as u8,
        (v >> 24) as u8,
        (v >> 16) as u8,
        (v >> 8) as u8,
        v as u8,
    ) == v) by (bit_vector);
    assert(b.subrange(8, b.len() as int) =~= rest);
}

/// Appends the big-endian encoding of `v` to `out`.
pub fn enc_u64(v: u64, out: &mut Vec<u8>)
    ensures
        final(out)@ == old(out)@ + spec_enc_u64(v),
{
    let ghost base = out@;
    out.push(#[verifier::truncate] ((v >> 56) as u8));
    out.push(#[verifier::truncate] ((v >> 48) as u8));
    out.push(#[verifier::truncate] ((v >> 40) as u8));
    out.push(#[verifier::truncate] ((v >> 32) as u8));
    out.push(#[verifier::truncate] ((v >> 24) as u8));
    out.push(#[verifier::truncate] ((v >> 16) as u8));
    out.push(#[verifier::truncate] ((v >> 8) as u8));
    out.push(#[verifier::truncate] (v as u8));
    assert(out@ =~= base + spec_enc_u64(v));
}

/// Reads a u64 at `pos`; mirrors `spec_dec_u64` on the suffix starting there.
pub fn dec_u64(buf: &Vec<u8>, pos: usize) -> (r: Option<(u64, usize)>)
    requires
        pos <= buf@.len(),
    ensures
        match spec_dec_u64(buf@.subrange(pos as int, buf@.len() as int)) {
            Some((v, rest)) => {
                &&& r matches Some((rv, np))
                &&& rv == v
                &&& pos <= np <= buf@.len()
                &&& buf@.subrange(np as int, buf@.len() as int) == rest
            },
            None => r is None,
        },
{
    let ghost tail = buf@.subrange(pos as int, buf@.len() as int);
    if buf.len() - pos < 8 {
        return None;
    }
    let v = ((buf[pos] as u64) << 56) | ((buf[pos + 1] as u64) << 48) | ((buf[pos + 2] as u64)
        << 40) | ((buf[pos + 3] as u64) << 32) | ((buf[pos + 4] as u64) << 24) | ((buf[pos
        + 5] as u64) << 16) | ((buf[pos + 6] as u64) << 8) | (buf[pos + 7] as u64);
    assert(tail[0] == buf@[pos as int] && tail[1] == buf@[pos + 1] && tail[2] == buf@[pos + 2]
        && tail[3] == buf@[pos + 3] && tail[4] == buf@[pos + 4] && tail[5] == buf@[pos + 5]
        && tail[6] == buf@[pos + 6] && tail[7] == buf@[pos + 7]);
    assert(buf@.subrange(pos + 8, buf@.len() as int) =~= tail.subrange(8, tail.len() as int));
    Some((v, pos + 8))
}

// ---------------------------------------------------------------------------
// u32, big endian
// ---------------------------------------------------------------------------

/// The four big-endian bytes of `v`.
pub open spec fn spec_enc_u32(v: u32) -> Seq<u8> {
    seq![(v >> 24) as u8, (v >> 16) as u8, (v >> 8) as u8, v as u8]
}

/// The value whose big-endian bytes are `b0 .. b3`.
pub open spec fn spec_u32_of_bytes(b0: u8, b1: u8, b2: u8, b3: u8) -> u32 {
    ((b0 as u32) << 24) | ((b1 as u32) << 16) | ((b2 as u32) << 8) | (b3 as u32)
}

/// Reads a u32 from the front of `b`.
pub open spec fn spec_dec_u32(b: Seq<u8>) -> Option<(u32, Seq<u8>)> {
    if b.len() >= 4 {
        Some((spec_u32_of_bytes(b[0], b[1], b[2], b[3]), b.subrange(4, b.len() as int)))
    } else {
        None
    }
}

pub proof fn lemma_dec_enc_u32(v: u32, rest: Seq<u8>)
    ensures
        spec_dec_u32(spec_enc_u32(v) + rest) == Some((v, rest)),
{
    let b = spec_enc_u32(v) + rest;
    assert(spec_u32_of_bytes((v >> 24) as u8, (v >> 16) as u8, (v >> 8) as u8, v as u8) == v)
        by (bit_vector);
    assert(b.subrange(4, b.len() as int) =~= rest);
}

/// Appends the big-endian encoding of `v` to `out`.
pub fn enc_u32(v: u32, out: &mut Vec<u8>)
    ensures
        final(out)@ == old(out)@ + spec_enc_u32(v),
{
    let ghost base = out@;
    out.push(#[verifier::truncate] ((v >> 24) as u8));
    out.push(#[verifier::truncate] ((v >> 16) as u8));
    out.push(#[verifier::truncate] ((v >> 8) as u8));
    out.push(#[verifier::truncate] (v as u8));
    assert(out@ =~= base + spec_enc_u32(v));
}

/// Reads a u32 at `pos`; mirrors `spec_dec_u32` on the suffix starting there.
pub fn dec_u32(buf: &Vec<u8>, pos: usize) -> (r: Option<(u32, usize)>)
    requires
        pos <= buf@.len(),
    ensures
        match spec_dec_u32(buf@.subrange(pos as int, buf@.len() as int)) {
            Some((v, rest)) => {
                &&& r matches Some((rv, np))
                &&& rv == v
                &&& pos <= np <= buf@.len()
                &&& buf@.subrange(np as int, buf@.len() as int) == rest
            },
            None => r is None,
        },
{
    let ghost tail = buf@.subrange(pos as int, buf@.len() as int);
    if buf.len() - pos < 4 {
        return None;
    }
    let v = ((buf[pos] as u32) << 24) | ((buf[pos + 1] as u32) << 16) | ((buf[pos + 2] as u32)
        << 8) | (buf[pos + 3] as u32);
    assert(tail[0] == buf@[pos as int] && tail[1] == buf@[pos + 1] && tail[2] == buf@[pos + 2]
        && tail[3] == buf@[pos + 3]);
    assert(buf@.subrange(pos + 4, buf@.len() as int) =~= tail.subrange(4, tail.len() as int));
    Some((v, pos + 4))
}

// ---------------------------------------------------------------------------
// bool
// ---------------------------------------------------------------------------

/// One byte: 1 for true, 0 for false.
pub open spec fn spec_enc_bool(v: bool) -> Seq<u8> {
    if v {
        seq![1u8]
    } else {
        seq![0u8]
    }
}

/// Reads a boolean byte; any byte other than 0 or 1 is malformed.
pub open spec fn spec_dec_bool(b: Seq<u8>) -> Option<(bool, Seq<u8>)> {
    if b.len() >= 1 && (b[0] == 0u8 || b[0] == 1u8) {
        Some((b[0] == 1u8, b.subrange(1, b.len() as int)))
    } else {
        None
    }
}

pub proof fn lemma_dec_enc_bool(v: bool, rest: Seq<u8>)
    ensures
        spec_dec_bool(spec_enc_bool(v) + rest) == Some((v, rest)),
{
    let b = spec_enc_bool(v) + rest;
    assert(b.subrange(1, b.len() as int) =~= rest);
}

/// Appends the encoding of `v` to `out`.
pub fn enc_bool(v: bool, out: &mut Vec<u8>)
    ensures
        final(out)@ == old(out)@ + spec_enc_bool(v),
{
    let ghost base = out@;
    if v {
        out.push(1u8);
    } else {
        out.push(0u8);
    }
    assert(out@ =~= base + spec_enc_bool(v));
}

/// Reads a boolean at `pos`; mirrors `spec_dec_bool`.
pub fn dec_bool(buf: &Vec<u8>, pos: usize) -> (r: Option<(bool, usize)>)
    requires
        pos <= buf@.len(),
    ensures
        match spec_dec_bool(buf@.subrange(pos as int, buf@.len() as int)) {
            Some((v, rest)) => {
                &&& r matches Some((rv, np))
                &&& rv == v
                &&& pos <= np <= buf@.len()
                &&& buf@.subrange(np as int, buf@.len() as int) == rest
            },
            None => r is None,
        },
{
    let ghost tail = buf@.subrange(pos as int, buf@.len() as int);
    if pos >= buf.len() {
        return None;
    }
    let byte = buf[pos];
    assert(tail[0] == buf@[pos as int]);
    if byte == 0 || byte == 1 {
        assert(buf@.subrange(pos + 1, buf@.len() as int) =~= tail.subrange(1, tail.len() as int));
        Some((byte == 1, pos + 1))
    } else {
        None
    }
}

// ---------------------------------------------------------------------------
// char
// ---------------------------------------------------------------------------

/// A character is sent as its code point in four big-endian bytes.
pub open spec fn spec_enc_char(c: char) -> Seq<u8> {
    spec_enc_u32(c as u32)
}

/// Reads one character; a value outside the Unicode scalar range is malformed.
pub open spec fn spec_dec_char(b: Seq<u8>) -> Option<(char, Seq<u8>)> {
    match spec_dec_u32(b) {
        Some((v, rest)) => if is_scalar(v) {
            Some((v as char, rest))
        } else {
            None
        },
        None => None,
    }
}

pub proof fn lemma_dec_enc_char(c: char, rest: Seq<u8>)
    ensures
        spec_dec_char(spec_enc_char(c) + rest) == Some((c, rest)),
{
    lemma_dec_enc_u32(c as u32, rest);
    vstd::utf8::char_is_scalar(c);
    vstd::utf8::char_u32_cast(c, c as u32);
}

/// Relies on char::from_u32: it returns `Some` exactly on Unicode scalar
/// values, giving back the character with that code point.
#[verifier::external_body]
fn char_from_u32(v: u32) -> (r: Option<char>)
    ensures
        r is Some <==> is_scalar(v),
        r matches Some(c) ==> c as u32 == v,
{
    char::from_u32(v)
}

/// Relies on String::push: it appends one character at the end.
#[verifier::external_body]
pub fn push_char(s: &mut String, c: char)
    ensures
        final(s)@ == old(s)@.push(c),
{
    s.push(c);
}

/// Appends the encoding of `c` to `out`.
pub fn enc_char(c: char, out: &mut Vec<u8>)
    ensures
        final(out)@ == old(out)@ + spec_enc_char(c),
{
    enc_u32(c as u32, out);
}

/// Reads a character at `pos`; mirrors `spec_dec_char`.
pub fn dec_char(buf: &Vec<u8>, pos: usize) -> (r: Option<(char, usize)>)
    requires
        pos <= buf@.len(),
    ensures
        match spec_dec_char(buf@.subrange(pos as int, buf@.len() as int)) {
            Some((v, rest)) => {
                &&& r matches Some((rv, np))
                &&& rv == v
                &&& pos <= np <= buf@.len()
                &&& buf@.subrange(np as int, buf@.len() as int) == rest
            },
            None => r is None,
        },
{
    match dec_u32(buf, pos) {
        None => None,
        Some((v, np)) => match char_from_u32(v) {
            None => None,
            Some(c) => {
                proof {
                    vstd::utf8::char_u32_cast(c, v);
                }
                Some((c, np))
            },
        },
    }
}

// ---------------------------------------------------------------------------
// strings: a character count, then each character
// ---------------------------------------------------------------------------

/// The characters of `s`, one after the other.
pub open spec fn spec_enc_chars(s: Seq<char>) -> Seq<u8>
    decreases s.len(),
{
    if s.len() == 0 {
        Seq::empty()
    } else {
        spec_enc_char(s[0]) + spec_enc_chars(s.subrange(1, s.len() as int))
    }
}

/// A string is sent as its character count, then its characters.
pub open spec fn spec_enc_str(s: Seq<char>) -> Seq<u8> {
    spec_enc_u64(s.len() as u64) + spec_enc_chars(s)
}

/// Reads `n` characters from the front of `b`.
pub open spec fn spec_dec_chars(n: nat, b: Seq<u8>) -> Option<(Seq<char>, Seq<u8>)>
    decreases n,
{
    if n == 0 {
        Some((Seq::empty(), b))
    } else {
        match spec_dec_char(b) {
            Some((c, rest)) => match spec_dec_chars((n - 1) as nat, rest) {
                Some((s, rest2)) => Some((seq![c] + s, rest2)),
                None => None,
            },
            None => None,
        }
    }
}

/// Reads a string from the front of `b`.
pub open spec fn spec_dec_str(b: Seq<u8>) -> Option<(Seq<char>, Seq<u8>)> {
    match spec_dec_u64(b) {
        Some((n, rest)) => spec_dec_chars(n as nat, rest),
        None => None,
    }
}

pub proof fn lemma_dec_enc_chars(s: Seq<char>, rest: Seq<u8>)
    ensures
        spec_dec_chars(s.len(), spec_enc_chars(s) + rest) == Some((s, rest)),
    decreases s.len(),
{
    if s.len() == 0 {
        assert(spec_enc_chars(s) + rest =~= rest);
        assert(s =~= Seq::<char>::empty());
    } else {
        let tail = s.subrange(1, s.len() as int);
        lemma_dec_enc_chars(tail, rest);
        assert(spec_enc_chars(s) + rest =~= spec_enc_char(s[0]) + (spec_enc_chars(tail) + rest));
        lemma_dec_enc_char(s[0], spec_enc_chars(tail) + rest);
        assert(seq![s[0]] + tail =~= s);
    }
}

pub proof fn lemma_dec_enc_str(s: Seq<char>, rest: Seq<u8>)
    requires
        s.len() <= u64::MAX,
    ensures
        spec_dec_str(spec_enc_str(s) + rest) == Some((s, rest)),
{
    assert(spec_enc_str(s) + rest =~= spec_enc_u64(s.len() as u64) + (spec_enc_chars(s) + rest));
    lemma_dec_enc_u64(s.len() as u64, spec_enc_chars(s) + rest);
    lemma_dec_enc_chars(s, rest);
}

/// Unfolding step used by the encoding loop: the characters of `s.take(i+1)`
/// are those of `s.take(i)` followed by `s[i]`.
proof fn lemma_enc_chars_step(s: Seq<char>, i: int)
    requires
        0 <= i < s.len(),
    ensures
        spec_enc_chars(s.take(i + 1)) == spec_enc_chars(s.take(i)) + spec_enc_char(s[i]),
    decreases i,
{
    if i == 0 {
        assert(s.take(1) =~= seq![s[0]]);
        assert(s.take(1)[0] == s[0]);
        assert(s.take(1).subrange(1, 1) =~= Seq::<char>::empty());
        assert(spec_enc_chars(s.take(0)) =~= Seq::<u8>::empty());
        assert(spec_enc_chars(Seq::<char>::empty()) =~= Seq::<u8>::empty());
        assert(spec_enc_chars(s.take(1)) == spec_enc_char(s[0]) + spec_enc_chars(
            s.take(1).subrange(1, 1),
        ));
        assert(spec_enc_chars(s.take(1)) =~= spec_enc_char(s[0]) + Seq::<u8>::empty());
        assert(spec_enc_chars(s.take(0)) + spec_enc_char(s[0]) =~= spec_enc_char(s[0]));
        assert(spec_enc_char(s[0]) + Seq::<u8>::empty() =~= spec_enc_char(s[0]));
    } else {
        let t = s.subrange(1, s.len() as int);
        lemma_enc_chars_step(t, i - 1);
        assert(s.take(i + 1).subrange(1, i + 1) =~= t.take(i));
        assert(s.take(i).subrange(1, i) =~= t.take(i - 1));
        assert(s.take(i + 1)[0] == s[0]);
        assert(s.take(i)[0] == s[0]);
        assert(spec_enc_chars(s.take(i + 1)) == spec_enc_char(s[0]) + spec_enc_chars(t.take(i)));
        assert(spec_enc_chars(s.take(i)) == spec_enc_char(s[0]) + spec_enc_chars(t.take(i - 1)));
        assert(t[i - 1] == s[i]);
        assert(spec_enc_char(s[0]) + (spec_enc_chars(t.take(i - 1)) + spec_enc_char(s[i]))
            =~= (spec_enc_char(s[0]) + spec_enc_chars(t.take(i - 1))) + spec_enc_char(s[i]));
    }
}

/// Appends the encoding of `s` to `out`.
pub fn enc_str(s: &str, out: &mut Vec<u8>)
    ensures
        final(out)@ == old(out)@ + spec_enc_str(s@),
{
    let ghost base = out@;
    let len = s.unicode_len();
    enc_u64(len as u64, out);
    let mut i: usize = 0;
    while i < len
        invariant
            len == s@.len(),
            i <= len,
            out@ == base + spec_enc_u64(len as u64) + spec_enc_chars(s@.take(i as int)),
        decreases len - i,
    {
        let c = s.get_char(i);
        enc_char(c, out);
        proof {
            lemma_enc_chars_step(s@, i as int);
        }
        i = i + 1;
    }
    assert(s@.take(len as int) =~= s@);
    assert(base + spec_enc_u64(len as u64) + spec_enc_chars(s@) =~= base + spec_enc_str(s@));
}

/// Reads `n` characters at `pos` into a `String`; mirrors `spec_dec_chars`.
fn dec_chars(buf: &Vec<u8>, pos: usize, n: u64) -> (r: Option<(String, usize)>)
    requires
        pos <= buf@.len(),
    ensures
        match spec_dec_chars(n as nat, buf@.subrange(pos as int, buf@.len() as int)) {
            Some((s, rest)) => {
                &&& r matches Some((rs, np))
                &&& rs@ == s
                &&& pos <= np <= buf@.len()
                &&& buf@.subrange(np as int, buf@.len() as int) == rest
            },
            None => r is None,
        },
{
    let mut acc = String::new();
    let mut cur: usize = pos;
    let mut left: u64 = n;
    proof {
        match spec_dec_chars(n as nat, buf@.subrange(pos as int, buf@.len() as int)) {
            Some((s, rest)) => {
                assert(Seq::<char>::empty() + s =~= s);
            },
            None => {},
        }
    }
    loop
        invariant
            pos <= cur <= buf@.len(),
            left <= n,
            spec_dec_chars(n as nat, buf@.subrange(pos as int, buf@.len() as int)) == (
            match spec_dec_chars(left as nat, buf@.subrange(cur as int, buf@.len() as int)) {
                Some((s, rest)) => Some::<(Seq<char>, Seq<u8>)>((acc@ + s, rest)),
                None => None::<(Seq<char>, Seq<u8>)>,
            }),
        decreases left,
    {
        if left == 0 {
            assert(acc@ + Seq::<char>::empty() =~= acc@);
            return Some((acc, cur));
        }
        match dec_char(buf, cur) {
            None => {
                return None;
            },
            Some((c, np)) => {
                let ghost pre = acc@;
                push_char(&mut acc, c);
                proof {
                    let rest = buf@.subrange(np as int, buf@.len() as int);
                    match spec_dec_chars((left - 1) as nat, rest) {
                        Some((s2, r2)) => {
                            assert(pre + (seq![c] + s2) =~= acc@ + s2);
                        },
                        None => {},
                    }
                }
                cur = np;
                left = left - 1;
            },
        }
    }
}

/// Reads a string at `pos`; mirrors `spec_dec_str`.
pub fn dec_str(buf: &Vec<u8>, pos: usize) -> (r: Option<(String, usize)>)
    requires
        pos <= buf@.len(),
    ensures
        match spec_dec_str(buf@.subrange(pos as int, buf@.len() as int)) {
            Some((s, rest)) => {
                &&& r matches Some((rs, np))
                &&& rs@ == s
                &&& pos <= np <= buf@.len()
                &&& buf@.subrange(np as int, buf@.len() as int) == rest
            },
            None => r is None,
        },
{
    match dec_u64(buf, pos) {
        None => None,
        Some((n, np)) => dec_chars(buf, np, n),
    }
}

} // verus!
