//! Content fingerprints of files.
//!
//! A digest is the lowercase hexadecimal SHA-256 of a byte string derived
//! from a file.  The *full* kind hashes the whole content.  The *shallow*
//! kind hashes the file's base name, its size as eight little-endian bytes,
//! and no more than the first mebibyte of its content.

use sha2::Digest;
use crate::protocol::FileSpec;
use crate::text::to_chars;
use vstd::prelude::*;
use vstd::string::StringSliceAdditionalSpecFns;

verus! {

/// The number of leading content bytes that take part in a shallow digest.
pub const SHALLOW_PREFIX_LEN: usize = 1048576;

/// The SHA-256 value of `data`, as 32 bytes.
pub uninterp spec fn sha256(data: Seq<u8>) -> Seq<u8>;

/// Computes SHA-256 with `sha2::Sha256::digest`.
///
/// Not proved: the result is the SHA-256 value of `data`, which is always
/// 32 bytes long.
#[verifier::external_body]
fn sha256_digest(data: &[u8]) -> (out: Vec<u8>)
    ensures
        out@ == sha256(data@),
        out@.len() == 32,
{
    sha2::Sha256::digest(data).to_vec()
}

/// The lowercase hexadecimal digit for a value below sixteen.
pub open spec fn hex_digit(n: int) -> char {
    if n == 0 {
        '0'
    } else if n == 1 {
        '1'
    } else if n == 2 {
        '2'
    } else if n == 3 {
        '3'
    } else if n == 4 {
        '4'
    } else if n == 5 {
        '5'
    } else if n == 6 {
        '6'
    } else if n == 7 {
        '7'
    } else if n == 8 {
        '8'
    } else if n == 9 {
        '9'
    } else if n == 10 {
        'a'
    } else if n == 11 {
        'b'
    } else if n == 12 {
        'c'
    } else if n == 13 {
        'd'
    } else if n == 14 {
        'e'
    } else {
        'f'
    }
}

/// Two lowercase hexadecimal digits per byte, high nibble first.
pub open spec fn hex_lower(data: Seq<u8>) -> Seq<char> {
    Seq::new(
        2 * data.len(),
        |i: int|
            if i % 2 == 0 {
                hex_digit(data[i / 2] as int / 16)
            } else {
                hex_digit(data[i / 2] as int % 16)
            },
    )
}

/// Encodes bytes with `hex::encode`.
///
/// Not proved: the result holds two lowercase hexadecimal digits for each
/// byte of `data`, in order, the high nibble first.
#[verifier::external_body]
fn hex_encode(data: &[u8]) -> (s: String)
    ensures
        s@ == hex_lower(data@),
{
    hex::encode(data)
}

/// Whether `c` is one of `0`-`9` or `a`-`f`.
pub open spec fn is_lower_hex(c: char) -> bool {
    ('0' <= c && c <= '9') || ('a' <= c && c <= 'f')
}

/// Whether `s` has the shape of a SHA-256 value in lowercase hexadecimal.
pub open spec fn is_sha256_hex(s: Seq<char>) -> bool {
    &&& s.len() == 64
    &&& forall|i: int| 0 <= i < s.len() ==> is_lower_hex(#[trigger] s[i])
}

/// The hexadecimal form of 32 bytes has the shape of a SHA-256 digest.
pub proof fn lemma_hex_of_32_bytes(data: Seq<u8>)
    requires
        data.len() == 32,
    ensures
        is_sha256_hex(hex_lower(data)),
{
    let s = hex_lower(data);
    assert forall|i: int| 0 <= i < s.len() implies is_lower_hex(#[trigger] s[i]) by {
        let b = data[i / 2] as int;
        assert(0 <= b / 16 < 16);
        assert(0 <= b % 16 < 16);
    }
}

/// The value of byte `i` in the little-endian encoding of `size`.
pub open spec fn le_byte(size: u64, i: int) -> u8 {
    ((size as int / pow256(i)) % 256) as u8
}

/// 256 to the power `i`, for the eight byte positions of a `u64`.
pub open spec fn pow256(i: int) -> int
    decreases i,
{
    if i <= 0 {
        1
    } else {
        256 * pow256(i - 1)
    }
}

/// The eight bytes of `size`, least significant first.
pub open spec fn le_bytes(size: u64) -> Seq<u8> {
    Seq::new(8, |i: int| le_byte(size, i))
}

/// The eight bytes of `size`, least significant first.
pub fn size_to_le_bytes(size: u64) -> (out: Vec<u8>)
    ensures
        out@ == le_bytes(size),
{
    let mut out: Vec<u8> = Vec::new();
    let mut rest: u64 = size;
    let mut i: usize = 0;
    while i < 8
        invariant
            i <= 8,
            out@.len() == i,
            rest as int == size as int / pow256(i as int),
            forall|j: int| 0 <= j < i ==> out@[j] == le_byte(size, j),
        decreases 8 - i,
    {
        proof {
            let p = pow256(i as int);
            lemma_pow256_positive(i as int);
            assert(pow256(i as int + 1) == 256 * p);
            vstd::arithmetic::div_mod::lemma_div_denominator(size as int, p, 256);
        }
        out.push((rest % 256) as u8);
        rest = rest / 256;
        i += 1;
    }
    assert(out@ =~= le_bytes(size));
    out
}

proof fn lemma_pow256_positive(i: int)
    ensures
        pow256(i) > 0,
    decreases i,
{
    if i > 0 {
        lemma_pow256_positive(i - 1);
    }
}

/// The kind of a digest and its hexadecimal text.
pub struct DigestView {
    pub full: bool,
    pub hex: Seq<char>,
}

/// A file's fingerprint: the kind of digest and its lowercase hexadecimal
/// SHA-256 text.  Digests of different kinds are never equal.
#[derive(Debug)]
pub enum FileDigest {
    Shallow(String),
    Full(String),
}

impl View for FileDigest {
    type V = DigestView;

    open spec fn view(&self) -> DigestView {
        match self {
            FileDigest::Shallow(h) => DigestView { full: false, hex: h@ },
            FileDigest::Full(h) => DigestView { full: true, hex: h@ },
        }
    }
}

impl Clone for FileDigest {
    fn clone(&self) -> (res: Self)
        ensures
            res == *self,
    {
        match self {
            FileDigest::Shallow(h) => FileDigest::Shallow(h.clone()),
            FileDigest::Full(h) => FileDigest::Full(h.clone()),
        }
    }
}

impl PartialEq for FileDigest {
    fn eq(&self, other: &Self) -> (res: bool) {
        match (self, other) {
            (FileDigest::Shallow(a), FileDigest::Shallow(b)) => *a == *b,
            (FileDigest::Full(a), FileDigest::Full(b)) => *a == *b,
            _ => false,
        }
    }
}

impl vstd::std_specs::cmp::PartialEqSpecImpl for FileDigest {
    open spec fn obeys_eq_spec() -> bool {
        true
    }

    open spec fn eq_spec(&self, other: &Self) -> bool {
        self@ == other@
    }
}

impl Eq for FileDigest {

}

/// The bytes that a shallow digest hashes: the UTF-8 bytes of the base name,
/// the size as eight little-endian bytes, then the content cut at
/// `SHALLOW_PREFIX_LEN` bytes.
pub open spec fn shallow_input(name: Seq<char>, size: u64, content: Seq<u8>) -> Seq<u8> {
    vstd::utf8::encode_utf8(name) + le_bytes(size) + shallow_prefix(content)
}

/// The part of a file's content that a shallow digest reads.
pub open spec fn shallow_prefix(content: Seq<u8>) -> Seq<u8> {
    if content.len() <= SHALLOW_PREFIX_LEN {
        content
    } else {
        content.take(SHALLOW_PREFIX_LEN as int)
    }
}

/// The digest of a file with base name `name`, `size` bytes long, whose
/// content starts with `content` (for a full digest: is `content`).
pub open spec fn digest_of(name: Seq<char>, size: u64, content: Seq<u8>, full: bool) -> DigestView {
    if full {
        DigestView { full: true, hex: hex_lower(sha256(content)) }
    } else {
        DigestView { full: false, hex: hex_lower(sha256(shallow_input(name, size, content))) }
    }
}

impl FileDigest {
    /// Whether the text has the shape of a SHA-256 value in lowercase
    /// hexadecimal.
    pub open spec fn wf(&self) -> bool {
        is_sha256_hex(self@.hex)
    }

    /// Fingerprints a file from what was read of it: its base name, its size
    /// and its content.  A full digest needs the whole content; a shallow
    /// one reads no more than its first `SHALLOW_PREFIX_LEN` bytes.
    pub fn new(name: &str, size: u64, content: &[u8], full: bool) -> (digest: Self)
        ensures
            digest@ == digest_of(name@, size, content@, full),
            digest.wf(),
    {
        if full {
            Self::new_helper(content, full, "", 0)
        } else {
            Self::new_helper(content, full, name, size)
        }
    }

    fn new_helper(content: &[u8], full: bool, name: &str, size: u64) -> (digest: Self)
        ensures
            digest@ == digest_of(name@, size, content@, full),
            digest.wf(),
    {
        let sum = if full {
            sha256_digest(content)
        } else {
            let mut data: Vec<u8> = Vec::new();
            data.extend_from_slice(name.as_bytes());
            let size_bytes = size_to_le_bytes(size);
            data.extend_from_slice(size_bytes.as_slice());
            if content.len() <= SHALLOW_PREFIX_LEN {
                data.extend_from_slice(content);
            } else {
                let (head, _) = content.split_at(SHALLOW_PREFIX_LEN);
                data.extend_from_slice(head);
            }
            assert(data@ =~= shallow_input(name@, size, content@));
            sha256_digest(data.as_slice())
        };
        let hash = hex_encode(sum.as_slice());
        proof {
            lemma_hex_of_32_bytes(sum@);
        }
        if full {
            FileDigest::Full(hash)
        } else {
            FileDigest::Shallow(hash)
        }
    }

    /// Fingerprints what was read of a file on the server in the way in
    /// which `spec` was fingerprinted at the client: with a digest of the
    /// same kind and, for a shallow one, under the name that the file has
    /// there.
    pub fn with_spec(spec: &FileSpec, size: u64, content: &[u8]) -> (digest: Self)
        ensures
            digest@ == digest_of(spec@.filename, size, content@, spec@.digest.full),
            digest.wf(),
    {
        match &spec.sha256_digest {
            FileDigest::Shallow(_) => Self::new_helper(content, false, spec.filename.as_str(), size),
            FileDigest::Full(_) => Self::new_helper(content, true, "", 0),
        }
    }

    /// Whether the text has the shape of a SHA-256 value in lowercase
    /// hexadecimal.
    pub fn is_valid(&self) -> (yes: bool)
        ensures
            yes == self.wf(),
    {
        let chars = to_chars(self.hash());
        if chars.len() != 64 {
            return false;
        }
        let mut i: usize = 0;
        while i < chars.len()
            invariant
                i <= chars.len(),
                chars@ == self@.hex,
                forall|j: int| 0 <= j < i ==> is_lower_hex(#[trigger] chars@[j]),
            decreases chars.len() - i,
        {
            let c = chars[i];
            if !(('0' <= c && c <= '9') || ('a' <= c && c <= 'f')) {
                proof {
                    assert(!is_lower_hex(self@.hex[i as int]));
                }
                return false;
            }
            i += 1;
        }
        true
    }

    /// The hexadecimal text of the digest.
    pub fn hash(&self) -> (hex: &str)
        ensures
            hex@ == self@.hex,
    {
        match self {
            FileDigest::Shallow(h) => h.as_str(),
            FileDigest::Full(h) => h.as_str(),
        }
    }

    /// Whether the digest covers the whole content.
    pub fn is_full(&self) -> (full: bool)
        ensures
            full == self@.full,
    {
        match self {
            FileDigest::Shallow(_) => false,
            FileDigest::Full(_) => true,
        }
    }
}

/// What a digest hashes: the whole content for a full digest, and the
/// name, the size and the beginning of the content for a shallow one.
pub open spec fn hashed_input(name: Seq<char>, size: u64, content: Seq<u8>, full: bool) -> Seq<u8> {
    if full {
        content
    } else {
        shallow_input(name, size, content)
    }
}

/// Different byte strings have different hexadecimal forms.
pub proof fn lemma_hex_is_injective(a: Seq<u8>, b: Seq<u8>)
    requires
        hex_lower(a) == hex_lower(b),
    ensures
        a == b,
{
    assert(hex_lower(a).len() == 2 * a.len());
    assert(hex_lower(b).len() == 2 * b.len());
    assert forall|i: int| 0 <= i < a.len() implies a[i] == b[i] by {
        let x = a[i] as int;
        let y = b[i] as int;
        assert((2 * i) % 2 == 0 && (2 * i) / 2 == i);
        assert((2 * i + 1) % 2 == 1 && (2 * i + 1) / 2 == i);
        assert(hex_lower(a)[2 * i] == hex_digit(x / 16));
        assert(hex_lower(b)[2 * i] == hex_digit(y / 16));
        assert(hex_lower(a)[2 * i + 1] == hex_digit(x % 16));
        assert(hex_lower(b)[2 * i + 1] == hex_digit(y % 16));
        assert(0 <= x / 16 < 16 && 0 <= y / 16 < 16);
        assert(0 <= x % 16 < 16 && 0 <= y % 16 < 16);
        assert(x / 16 == y / 16);
        assert(x % 16 == y % 16);
    }
    assert(a =~= b);
}

/// Two digests are equal if and only if they are of the same kind and the
/// SHA-256 values of what they hash are equal.
pub proof fn lemma_digests_equal_iff_hashes_equal(
    name1: Seq<char>,
    size1: u64,
    content1: Seq<u8>,
    full1: bool,
    name2: Seq<char>,
    size2: u64,
    content2: Seq<u8>,
    full2: bool,
)
    ensures
        digest_of(name1, size1, content1, full1) == digest_of(name2, size2, content2, full2) <==> (
        full1 == full2 && sha256(hashed_input(name1, size1, content1, full1)) == sha256(
            hashed_input(name2, size2, content2, full2),
        )),
{
    let h1 = sha256(hashed_input(name1, size1, content1, full1));
    let h2 = sha256(hashed_input(name2, size2, content2, full2));
    if hex_lower(h1) == hex_lower(h2) {
        lemma_hex_is_injective(h1, h2);
    }
}

/// Files with the same content have the same full digest, whatever their
/// names; files with the same name, the same size and the same first
/// `SHALLOW_PREFIX_LEN` bytes have the same shallow digest.
pub proof fn lemma_digest_depends_on_what_it_hashes(
    name1: Seq<char>,
    size1: u64,
    content1: Seq<u8>,
    name2: Seq<char>,
    size2: u64,
    content2: Seq<u8>,
)
    ensures
        content1 == content2 ==> digest_of(name1, size1, content1, true) == digest_of(
            name2,
            size2,
            content2,
            true,
        ),
        name1 == name2 && size1 == size2 && shallow_prefix(content1) == shallow_prefix(content2)
            ==> digest_of(name1, size1, content1, false) == digest_of(
            name2,
            size2,
            content2,
            false,
        ),
{
}

} // verus!
