//! The runtime's storage logic: an append-only event log organised by day
//! and a content-addressed object store keyed by SHA-256.

use vstd::prelude::*;
use std::path::PathBuf;
use crate::template::{all_digits, digits_value, lemma_decimal_digits};
use crate::text::{chars_of, decimal, push_decimal, string_of};
use vstd::string::StringSliceAdditionalSpecFns;
use vstd::utf8::{decode_utf8, encode_utf8, is_ascii_chars, is_char_boundary};

verus! {

/// How serious a raised signal is.
#[derive(Debug, Clone, Copy, PartialEq, Eq, Structural)]
pub enum Severity {
    Info,
    Warn,
    Error,
}

/// The id of an event created at `nanos` nanoseconds after the epoch:
/// `evt_` and the decimal digits of the magnitude.
pub open spec fn event_id_spec(nanos: i64) -> Seq<char> {
    "evt_"@ + decimal(if nanos < 0 {
        -nanos
    } else {
        nanos as int
    } as nat)
}

/// An event id is `evt_` then the decimal digits of how far its time lies
/// from the epoch; so ids of different non-negative times differ, and a
/// time and its negation share an id.
pub proof fn law_event_id(nanos: i64, other: i64)
    requires
        nanos != i64::MIN,
    ensures
        event_id_spec(nanos).take(4) == "evt_"@,
        all_digits(event_id_spec(nanos).skip(4)),
        event_id_spec(nanos).len() > 4,
        digits_value(event_id_spec(nanos).skip(4)) == if nanos < 0 {
            -nanos
        } else {
            nanos as int
        },
        0 <= nanos && 0 <= other && nanos != other ==> event_id_spec(nanos) != event_id_spec(
            other,
        ),
        event_id_spec(nanos) == event_id_spec((-nanos) as i64),
{
    reveal_strlit("evt_");
    let a = (if nanos < 0 { -nanos } else { nanos as int }) as nat;
    lemma_decimal_digits(a);
    assert(event_id_spec(nanos).take(4) =~= "evt_"@);
    assert(event_id_spec(nanos).skip(4) =~= decimal(a));
    if 0 <= nanos && 0 <= other && nanos != other {
        lemma_decimal_digits(other as nat);
        assert(event_id_spec(other).skip(4) =~= decimal(other as nat));
    }
}

/// The id of an event created at `nanos` nanoseconds after the epoch.
pub fn event_id(nanos: i64) -> (r: String)
    requires
        nanos != i64::MIN,
    ensures
        r@ == event_id_spec(nanos),
{
    let mut v = chars_of("evt_");
    let magnitude: u64 = if nanos < 0 {
        (0 - nanos) as u64
    } else {
        nanos as u64
    };
    push_decimal(&mut v, magnitude);
    string_of(v.as_slice())
}

/// Append-only event log writer rooted at a directory; the events of a day go
/// to `events/<day>.log` below it.
pub struct EventLogWriter {
    root: PathBuf,
}

impl EventLogWriter {
    pub closed spec fn spec_root(&self) -> PathBuf {
        self.root
    }

    /// A writer for the log below `root`.
    pub fn new(root: PathBuf) -> (r: Self)
        ensures
            r.spec_root() == root,
    {
        EventLogWriter { root }
    }

    /// The log's root directory.
    pub fn root(&self) -> (r: &PathBuf)
        ensures
            *r == self.spec_root(),
    {
        &self.root
    }

    /// The name of the directory below the root that holds the day files.
    pub fn events_dir_name() -> (r: String)
        ensures
            r@ == "events"@,
    {
        string_of(chars_of("events").as_slice())
    }

    /// The name of the file that holds the events of `day`.
    pub fn log_file_name(day: &str) -> (r: String)
        ensures
            r@ == day@ + ".log"@,
    {
        let mut v = chars_of(day);
        let ext = chars_of(".log");
        let mut i: usize = 0;
        let ghost start = v@;
        while i < ext.len()
            invariant
                i <= ext@.len(),
                v@ == start + ext@.take(i as int),
            decreases ext@.len() - i,
        {
            v.push(ext[i]);
            i = i + 1;
            assert(v@ =~= start + ext@.take(i as int));
        }
        assert(ext@.take(ext@.len() as int) =~= ext@);
        string_of(v.as_slice())
    }
}

/// The SHA-256 digest of `data`.
pub uninterp spec fn sha256(data: Seq<u8>) -> Seq<u8>;

/// The SHA-256 digest of `data`.
///
/// Calls `sha2::Sha256::digest` (a fresh hasher, one update, finalize); the
/// contract names the digest as a function of the data and states that it is
/// 32 bytes long.
#[verifier::external_body]
fn sha256_digest(data: &[u8]) -> (r: Vec<u8>)
    ensures
        r@ == sha256(data@),
        r@.len() == 32,
{
    <sha2::Sha256 as sha2::Digest>::digest(data).to_vec()
}

/// The lower-case hexadecimal digit of `d`.
pub open spec fn hex_digit(d: u8) -> char {
    if d < 10 {
        ((d + 48) as u32) as char
    } else {
        ((d + 87) as u32) as char
    }
}

/// The lower-case hexadecimal text of `bytes`: two digits per byte, high
/// nibble first.
pub open spec fn hex_lower(bytes: Seq<u8>) -> Seq<char>
    decreases bytes.len(),
{
    if bytes.len() == 0 {
        seq![]
    } else {
        hex_lower(bytes.drop_last()) + seq![
            hex_digit(bytes.last() >> 4u8),
            hex_digit(bytes.last() & 0x0fu8),
        ]
    }
}

/// The value of a lower-case hexadecimal digit.
pub open spec fn hex_value(c: char) -> int {
    if '0' <= c <= '9' {
        c as int - 48
    } else {
        c as int - 87
    }
}

/// Hexadecimal text spells each byte with two lower-case digits, high
/// nibble first: digit pair `i` is worth byte `i`.
pub proof fn law_hex_spells_bytes(bytes: Seq<u8>)
    ensures
        hex_lower(bytes).len() == 2 * bytes.len(),
        forall|j: int|
            0 <= j < hex_lower(bytes).len() ==> ('0' <= #[trigger] hex_lower(bytes)[j] <= '9' || 'a'
                <= hex_lower(bytes)[j] <= 'f'),
        forall|i: int|
            0 <= i < bytes.len() ==> 16 * hex_value(#[trigger] hex_lower(bytes)[2 * i]) + hex_value(
                hex_lower(bytes)[2 * i + 1],
            ) == bytes[i],
    decreases bytes.len(),
{
    lemma_hex_len(bytes);
    if bytes.len() > 0 {
        let rest = bytes.drop_last();
        law_hex_spells_bytes(rest);
        let b = bytes.last();
        let hi = b >> 4u8;
        let lo = b & 0x0fu8;
        assert((b >> 4u8) < 16u8 && (b & 0x0fu8) < 16u8 && 16 * (b >> 4u8) + (b & 0x0fu8) == b)
            by (bit_vector);
        let ch = hex_digit(hi);
        let cl = hex_digit(lo);
        assert(ch as int == if hi < 10 { hi + 48 } else { hi + 87 });
        assert(cl as int == if lo < 10 { lo + 48 } else { lo + 87 });
        let p = hex_lower(rest);
        let h = hex_lower(bytes);
        assert(h == p + seq![ch, cl]);
        assert forall|j: int| 0 <= j < h.len() implies ('0' <= #[trigger] h[j] <= '9' || 'a' <= h[j]
            <= 'f') by {
            if j < p.len() {
                assert(h[j] == p[j]);
            }
        }
        assert forall|i: int| 0 <= i < bytes.len() implies 16 * hex_value(#[trigger] h[2 * i])
            + hex_value(h[2 * i + 1]) == bytes[i] by {
            if i < rest.len() {
                assert(h[2 * i] == p[2 * i]);
                assert(h[2 * i + 1] == p[2 * i + 1]);
                assert(rest[i] == bytes[i]);
            }
        }
    }
}

/// The lower-case hexadecimal text of `bytes`.
///
/// Calls `hex::encode`, which writes each byte as two digits of
/// `0123456789abcdef`, high nibble first.
#[verifier::external_body]
fn hex_encode(bytes: &[u8]) -> (r: String)
    ensures
        r@ == hex_lower(bytes@),
{
    hex::encode(bytes)
}

proof fn lemma_hex_len(bytes: Seq<u8>)
    ensures
        hex_lower(bytes).len() == 2 * bytes.len(),
        is_ascii_chars(hex_lower(bytes)),
    decreases bytes.len(),
{
    if bytes.len() > 0 {
        lemma_hex_len(bytes.drop_last());
        let b = bytes.last();
        assert((b >> 4u8) < 16u8) by (bit_vector);
        assert((b & 0x0fu8) < 16u8) by (bit_vector);
        let prefix = hex_lower(bytes.drop_last());
        let s = hex_lower(bytes);
        assert forall|i: int| 0 <= i < s.len() implies '\0' <= #[trigger] s[i] <= '\u{7f}' by {
            if i < prefix.len() {
                assert(s[i] == prefix[i]);
            }
        }
    }
}

/// Why the object store refused a request.
#[derive(Debug, Clone, Copy, PartialEq, Eq, Structural)]
pub enum CasError {
    /// An object must be stored under a namespace.
    EmptyNamespace,
    /// A hash too short to name an object.
    InvalidHash,
}

/// Where an object lies: `<root>/<namespace>/<dir>/<file>`, where `dir` is the
/// first two characters of its hash and `file` the rest.
#[derive(Debug, Clone)]
pub struct CasLocation {
    pub namespace: String,
    pub dir: String,
    pub file: String,
}

/// An object to store: its hash and where it goes.
#[derive(Debug, Clone)]
pub struct CasPut {
    pub hash: String,
    pub location: CasLocation,
}

/// The hash under which `data` is stored: the hexadecimal SHA-256 digest.
pub open spec fn object_hash(data: Seq<u8>) -> Seq<char> {
    hex_lower(sha256(data))
}

/// A content-addressed object store rooted at a directory.
pub struct CasStore {
    root: PathBuf,
}

fn split_two(chars: &Vec<char>) -> (r: (String, String))
    requires
        chars@.len() >= 2,
    ensures
        r.0@ == chars@.take(2),
        r.1@ == chars@.skip(2),
{
    let mut head: Vec<char> = Vec::new();
    head.push(chars[0]);
    head.push(chars[1]);
    assert(head@ =~= chars@.take(2));
    let mut tail: Vec<char> = Vec::new();
    let mut i: usize = 2;
    while i < chars.len()
        invariant
            2 <= i <= chars@.len(),
            tail@ == chars@.subrange(2, i as int),
        decreases chars@.len() - i,
    {
        tail.push(chars[i]);
        i = i + 1;
        assert(tail@ =~= chars@.subrange(2, i as int));
    }
    assert(tail@ =~= chars@.skip(2));
    (string_of(head.as_slice()), string_of(tail.as_slice()))
}

impl CasStore {
    pub closed spec fn spec_root(&self) -> PathBuf {
        self.root
    }

    /// A store rooted at `root`.
    pub fn new(root: PathBuf) -> (r: Self)
        ensures
            r.spec_root() == root,
    {
        CasStore { root }
    }

    /// The store's root directory.
    pub fn root(&self) -> (r: &PathBuf)
        ensures
            *r == self.spec_root(),
    {
        &self.root
    }

    /// The hash and location of `data` stored under `namespace`; refused for
    /// an empty namespace.
    pub fn put(&self, namespace: &str, data: &[u8]) -> (r: Result<CasPut, CasError>)
        ensures
            namespace@.len() == 0 ==> r == Err::<CasPut, CasError>(CasError::EmptyNamespace),
            namespace@.len() > 0 ==> sha256(data@).len() == 32,
            namespace@.len() > 0 ==> (r matches Ok(p) && p.hash@ == object_hash(data@)
                && p.location.namespace@ == namespace@ && p.location.dir@ == object_hash(
                data@,
            ).take(2) && p.location.file@ == object_hash(data@).skip(2)),
    {
        if namespace.is_empty() {
            return Err(CasError::EmptyNamespace);
        }
        let digest = sha256_digest(data);
        let hash = hex_encode(digest.as_slice());
        proof {
            lemma_hex_len(digest@);
        }
        let chars = chars_of(hash.as_str());
        let (dir, file) = split_two(&chars);
        Ok(
            CasPut {
                hash,
                location: CasLocation { namespace: namespace.to_owned(), dir, file },
            },
        )
    }

    /// The location of the object `hash` under `namespace`; refused for a
    /// hash of fewer than three bytes.
    pub fn get(&self, namespace: &str, hash: &str) -> (r: Result<CasLocation, CasError>)
        requires
            hash.spec_bytes().len() <= usize::MAX,
            hash.spec_bytes().len() >= 3 ==> vstd::utf8::is_char_boundary(hash.spec_bytes(), 2),
        ensures
            hash.spec_bytes().len() < 3 ==> r == Err::<CasLocation, CasError>(
                CasError::InvalidHash,
            ),
            hash.spec_bytes().len() >= 3 ==> (r matches Ok(loc) && loc.namespace@ == namespace@
                && vstd::utf8::encode_utf8(loc.dir@) == hash.spec_bytes().take(2)
                && vstd::utf8::encode_utf8(loc.file@) == hash.spec_bytes().skip(2)),
    {
        if hash.len() < 3 {
            return Err(CasError::InvalidHash);
        }
        let (dir, file) = hash.split_at(2);
        let loc = CasLocation {
            namespace: namespace.to_owned(),
            dir: dir.to_owned(),
            file: file.to_owned(),
        };
        Ok(loc)
    }
}

/// What the store puts is found again: the hash that `put` reports for a
/// digest (32 bytes, as every SHA-256 digest is) is 64 ASCII hexadecimal
/// digits, so `get` accepts it (more than two bytes, a character boundary
/// after the second), and the directory and file that `get` derives from it
/// are the ones `put` placed the object under.
pub proof fn law_cas_get_finds_put(digest: Seq<u8>, dir: Seq<char>, file: Seq<char>)
    requires
        digest.len() == 32,
        encode_utf8(dir) == encode_utf8(hex_lower(digest)).take(2),
        encode_utf8(file) == encode_utf8(hex_lower(digest)).skip(2),
    ensures
        hex_lower(digest).len() == 64,
        encode_utf8(hex_lower(digest)).len() == 64,
        is_char_boundary(encode_utf8(hex_lower(digest)), 2),
        dir == hex_lower(digest).take(2),
        file == hex_lower(digest).skip(2),
{
    broadcast use vstd::utf8::group_utf8_lib;

    let h = hex_lower(digest);
    lemma_hex_len(digest);
    let bytes = encode_utf8(h);
    assert(bytes.len() == 64);
    let head = h.take(2);
    let tail = h.skip(2);
    assert(is_ascii_chars(head));
    assert(is_ascii_chars(tail));
    assert(encode_utf8(head) =~= bytes.take(2));
    assert(encode_utf8(tail) =~= bytes.skip(2));
    assert(decode_utf8(encode_utf8(dir)) == dir);
    assert(decode_utf8(encode_utf8(head)) == head);
    assert(decode_utf8(encode_utf8(file)) == file);
    assert(decode_utf8(encode_utf8(tail)) == tail);
    assert(h[2] as u8 == bytes[2]);
    assert(vstd::utf8::is_leading_byte_width_1(bytes[2]));
}

} // verus!
