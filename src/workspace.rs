//! The content hash: the name of a project's directory under the IDE's
//! workspace storage, an MD5 digest of the path and the folder's creation
//! time.

use vstd::prelude::*;
use vstd::string::StringExecFns;
use vstd::utf8::encode_utf8;
use crate::paths::is_drive_path;
use crate::text::{ascii_lower, chars_of, push_char, push_decimal, decimal, push_hex_digit, hex_digit};

verus! {

/// The MD5 digest of a byte sequence.
pub uninterp spec fn md5_of(b: Seq<u8>) -> Seq<u8>;

/// Relies on `md5::compute`: the 16 bytes of the digest, depending on the
/// input bytes alone.
#[verifier::external_body]
fn md5_digest(b: &[u8]) -> (r: Vec<u8>)
    ensures
        r@ == md5_of(b@),
        r@.len() == 16,
{
    md5::compute(b).0.to_vec()
}

/// The path text that is hashed: a drive path with its drive letter in lower
/// case, any other path as it is.
pub open spec fn hash_path_form(p: Seq<char>) -> Seq<char> {
    if is_drive_path(p) {
        seq![ascii_lower(p[0])] + p.skip(1)
    } else {
        p
    }
}

/// The text whose UTF-8 bytes are hashed.
pub open spec fn hash_input(p: Seq<char>, creation_ms: u64) -> Seq<char> {
    hash_path_form(p) + decimal(creation_ms)
}

/// Two lower-case hexadecimal digits for each byte.
pub open spec fn lower_hex(bs: Seq<u8>) -> Seq<char>
    decreases bs.len(),
{
    if bs.len() == 0 {
        Seq::empty()
    } else {
        lower_hex(bs.drop_last()) + seq![hex_digit(bs.last() / 16, true), hex_digit(bs.last() % 16, true)]
    }
}

/// The content hash of a path whose folder was created at `creation_ms`
/// milliseconds after the epoch.
pub open spec fn content_hash_of(p: Seq<char>, creation_ms: u64) -> Seq<char> {
    lower_hex(md5_of(encode_utf8(hash_input(p, creation_ms))))
}

/// The path text that is hashed: on a drive path the drive letter is put in
/// lower case, as the IDE records it.
pub fn normalize_path_for_hash(path: &str) -> (r: String)
    ensures
        r@ == hash_path_form(path@),
{
    let v = chars_of(path);
    if v.len() >= 2 && (('a' <= v[0] && v[0] <= 'z') || ('A' <= v[0] && v[0] <= 'Z')) && v[1] == ':' {
        let mut r = String::new();
        let c = v[0];
        let lc = if 'A' <= c && c <= 'Z' {
            ((c as u8) + 32) as char
        } else {
            c
        };
        push_char(&mut r, lc);
        let mut i: usize = 1;
        while i < v.len()
            invariant
                1 <= i <= v.len(),
                v@ == path@,
                r@ == seq![lc] + path@.subrange(1, i as int),
            decreases v.len() - i,
        {
            push_char(&mut r, v[i]);
            i = i + 1;
            assert(path@.subrange(1, i as int) == path@.subrange(1, i - 1).push(path@[i - 1]));
        }
        assert(path@.subrange(1, v.len() as int) == path@.skip(1));
        r
    } else {
        String::from_str(path)
    }
}

/// Formats bytes as lower-case hexadecimal.
pub fn to_lower_hex(bs: &Vec<u8>) -> (r: String)
    ensures
        r@ == lower_hex(bs@),
        r@.len() == 2 * bs@.len(),
{
    let mut r = String::new();
    let mut i: usize = 0;
    while i < bs.len()
        invariant
            i <= bs.len(),
            r@ == lower_hex(bs@.take(i as int)),
            r@.len() == 2 * i,
        decreases bs.len() - i,
    {
        assert(bs@.take(i + 1).drop_last() == bs@.take(i as int));
        push_hex_digit(&mut r, bs[i] / 16, true);
        push_hex_digit(&mut r, bs[i] % 16, true);
        i = i + 1;
    }
    assert(bs@.take(bs.len() as int) == bs@);
    r
}

/// The content hash under which the IDE keeps a project's workspace storage:
/// the MD5 digest, in 32 lower-case hexadecimal digits, of the path (its drive
/// letter in lower case) followed by the decimal creation time in
/// milliseconds.
pub fn content_hash(path: &str, creation_ms: u64) -> (r: String)
    ensures
        r@ == content_hash_of(path@, creation_ms),
        r@.len() == 32,
{
    let mut input = normalize_path_for_hash(path);
    push_decimal(&mut input, creation_ms);
    let digest = md5_digest(input.as_str().as_bytes());
    to_lower_hex(&digest)
}

/// The creation time in whole milliseconds, rounded half up, of a time
/// `secs` seconds and `nanos` nanoseconds after the epoch.
pub open spec fn rounded_millis(secs: u64, nanos: u32) -> int {
    secs * 1000 + (nanos + 500_000) / 1_000_000
}

/// Rounds a creation time to whole milliseconds, half up.
pub fn creation_millis(secs: u64, nanos: u32) -> (r: u64)
    requires
        nanos < 1_000_000_000,
        secs <= (u64::MAX - 1000) / 1000,
    ensures
        r == rounded_millis(secs, nanos),
{
    secs * 1000 + ((nanos as u64) + 500_000) / 1_000_000
}

/// Different creation times have different decimal forms.
proof fn lemma_decimal_injective(a: u64, b: u64)
    requires
        decimal(a) == decimal(b),
    ensures
        a == b,
    decreases a,
{
    if a < 10 {
        if b >= 10 {
            lemma_decimal_len(b / 10);
            assert(decimal(b).len() >= 2);
        } else {
            assert(decimal(a)[0] == decimal(b)[0]);
            assert(decimal(a)[0] as u32 == 48 + a);
            assert(decimal(b)[0] as u32 == 48 + b);
        }
    } else {
        if b < 10 {
            lemma_decimal_len(a / 10);
            assert(decimal(a).len() >= 2);
        } else {
            assert(decimal(a).drop_last() == decimal(a / 10));
            assert(decimal(b).drop_last() == decimal(b / 10));
            lemma_decimal_injective(a / 10, b / 10);
            assert(decimal(a).last() == decimal(b).last());
            assert(decimal(a).last() as u32 == 48 + a % 10);
            assert(decimal(b).last() as u32 == 48 + b % 10);
        }
    }
}

proof fn lemma_decimal_len(n: u64)
    ensures
        decimal(n).len() >= 1,
    decreases n,
{
    if n >= 10 {
        lemma_decimal_len(n / 10);
    }
}

/// The content hash depends on the path and the creation time alone, and the
/// digested text changes whenever exactly one of them changes (two paths that
/// differ only in the case of the drive letter count as one): a different
/// hash then rests on MD5 alone.
pub proof fn lemma_content_hash_input(p1: Seq<char>, t1: u64, p2: Seq<char>, t2: u64)
    ensures
        p1 == p2 && t1 == t2 ==> content_hash_of(p1, t1) == content_hash_of(p2, t2),
        t1 == t2 && hash_path_form(p1) != hash_path_form(p2) ==> encode_utf8(hash_input(p1, t1))
            != encode_utf8(hash_input(p2, t2)),
        hash_path_form(p1) == hash_path_form(p2) && t1 != t2 ==> encode_utf8(hash_input(p1, t1))
            != encode_utf8(hash_input(p2, t2)),
{
    broadcast use vstd::utf8::encode_utf8_decode_utf8;
    let a = hash_input(p1, t1);
    let b = hash_input(p2, t2);
    if encode_utf8(a) == encode_utf8(b) {
        assert(vstd::utf8::decode_utf8(encode_utf8(a)) == a);
        assert(a == b);
        if t1 == t2 {
            let d = decimal(t1);
            assert(a.take(a.len() - d.len()) == hash_path_form(p1));
            assert(b.take(b.len() - d.len()) == hash_path_form(p2));
        }
        if hash_path_form(p1) == hash_path_form(p2) {
            let h = hash_path_form(p1);
            assert(a.skip(h.len() as int) == decimal(t1));
            assert(b.skip(h.len() as int) == decimal(t2));
            lemma_decimal_injective(t1, t2);
        }
    }
}

} // verus!
