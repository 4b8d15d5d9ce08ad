//! Checksums of the four kinds that an archive's indices carry.

use crate::digest::md5_absorbed;
use crate::digest::md5_compute;
use crate::digest::md5_consume;
use crate::digest::md5_digest;
use crate::digest::md5_new;
use crate::digest::sha1_absorbed;
use crate::digest::sha1_digest;
use crate::digest::sha1_finish;
use crate::digest::sha1_new;
use crate::digest::sha1_update;
use crate::digest::sha256_absorbed;
use crate::digest::sha256_digest;
use crate::digest::sha256_finish;
use crate::digest::sha256_new;
use crate::digest::sha256_update;
use crate::digest::sha512_absorbed;
use crate::digest::sha512_digest;
use crate::digest::sha512_finish;
use crate::digest::sha512_new;
use crate::digest::sha512_update;
use crate::digest::Sha1State;
use crate::digest::Sha256State;
use crate::digest::Sha512State;
use crate::error::MirsError;
use crate::hexcode::all_hex;
use crate::hexcode::decode_hex;
use crate::hexcode::encode_hex;
use crate::hexcode::hex_decoded;
use crate::hexcode::hex_encoded;
use crate::text::append_chars;
use crate::text::byte_len;
use crate::text::byte_len_within;
use crate::text::chars_of;
use crate::text::lemma_utf8_len_bounds;
use crate::text::string_of;
use vstd::prelude::*;

verus! {

/// The kind of a checksum, weakest first.
#[derive(Clone, Copy, Debug, PartialEq, Eq, Structural)]
pub enum ChecksumType {
    Md5,
    Sha1,
    Sha256,
    Sha512,
}

impl ChecksumType {
    /// The rank of the kind: SHA-512 above SHA-256 above SHA-1 above MD5.
    pub open spec fn strength(self) -> nat {
        match self {
            ChecksumType::Md5 => 1,
            ChecksumType::Sha1 => 2,
            ChecksumType::Sha256 => 3,
            ChecksumType::Sha512 => 4,
        }
    }

    /// The length of a digest of the kind, in bytes.
    pub open spec fn digest_len(self) -> nat {
        match self {
            ChecksumType::Md5 => 16,
            ChecksumType::Sha1 => 20,
            ChecksumType::Sha256 => 32,
            ChecksumType::Sha512 => 64,
        }
    }

    /// The directory of the kind under `by-hash/`.
    pub open spec fn dir_name(self) -> Seq<char> {
        match self {
            ChecksumType::Md5 => "MD5Sum"@,
            ChecksumType::Sha1 => "SHA1"@,
            ChecksumType::Sha256 => "SHA256"@,
            ChecksumType::Sha512 => "SHA512"@,
        }
    }

    pub fn rank(self) -> (r: u8)
        ensures
            r == self.strength(),
    {
        match self {
            ChecksumType::Md5 => 1,
            ChecksumType::Sha1 => 2,
            ChecksumType::Sha256 => 3,
            ChecksumType::Sha512 => 4,
        }
    }

    /// Whether a checksum of kind `second` should replace `first`: nothing is
    /// held yet, or `second` is the stronger kind.
    pub fn is_stronger(first: &Option<Checksum>, second: ChecksumType) -> (r: bool)
        ensures
            r == match *first {
                Some(held) => held.kind().strength() < second.strength(),
                None => true,
            },
    {
        match first {
            Some(held) => held.checksum_type().rank() < second.rank(),
            None => true,
        }
    }
}

/// A digest with its kind.
#[derive(Clone, Copy, Debug, PartialEq, Eq)]
pub enum Checksum {
    Md5([u8; 16]),
    Sha1([u8; 20]),
    Sha256([u8; 32]),
    Sha512([u8; 64]),
}

/// The digest of `data` under the given kind.
pub open spec fn digest_of(kind: ChecksumType, data: Seq<u8>) -> Seq<u8> {
    match kind {
        ChecksumType::Md5 => md5_digest(data),
        ChecksumType::Sha1 => sha1_digest(data),
        ChecksumType::Sha256 => sha256_digest(data),
        ChecksumType::Sha512 => sha512_digest(data),
    }
}

/// The kind whose digests take `n` bytes, if there is one.
pub open spec fn kind_of_len(n: nat) -> Option<ChecksumType> {
    if n == 16 {
        Some(ChecksumType::Md5)
    } else if n == 20 {
        Some(ChecksumType::Sha1)
    } else if n == 32 {
        Some(ChecksumType::Sha256)
    } else if n == 64 {
        Some(ChecksumType::Sha512)
    } else {
        None
    }
}

/// Whether `text` is the hexadecimal form of a digest of some kind.
pub open spec fn is_checksum_text(text: Seq<char>) -> bool {
    all_hex(text) && text.len() % 2 == 0 && kind_of_len(text.len() / 2) is Some
}

pub fn arrays_equal<const N: usize>(a: &[u8; N], b: &[u8; N]) -> (r: bool)
    ensures
        r == (a@ == b@),
{
    let mut i: usize = 0;
    while i < N
        invariant
            i <= N,
            forall|j: int| 0 <= j < i ==> a@[j] == b@[j],
        decreases N - i,
    {
        if a[i] != b[i] {
            return false;
        }
        i += 1;
    }
    assert(a@ =~= b@);
    true
}

impl Checksum {
    pub open spec fn kind(&self) -> ChecksumType {
        match self {
            Checksum::Md5(_) => ChecksumType::Md5,
            Checksum::Sha1(_) => ChecksumType::Sha1,
            Checksum::Sha256(_) => ChecksumType::Sha256,
            Checksum::Sha512(_) => ChecksumType::Sha512,
        }
    }

    /// The digest.
    pub open spec fn bytes(&self) -> Seq<u8> {
        match self {
            Checksum::Md5(v) => v@,
            Checksum::Sha1(v) => v@,
            Checksum::Sha256(v) => v@,
            Checksum::Sha512(v) => v@,
        }
    }

    /// The text form: the digest in lower-case hexadecimal.
    pub open spec fn text(&self) -> Seq<char> {
        hex_encoded(self.bytes())
    }

    /// Where a file with this checksum lies under the directory of its index.
    pub open spec fn relative_path_spec(&self) -> Seq<char> {
        "by-hash/"@ + self.kind().dir_name() + "/"@ + self.text()
    }

    pub fn checksum_type(&self) -> (r: ChecksumType)
        ensures
            r == self.kind(),
    {
        match self {
            Checksum::Md5(_) => ChecksumType::Md5,
            Checksum::Sha1(_) => ChecksumType::Sha1,
            Checksum::Sha256(_) => ChecksumType::Sha256,
            Checksum::Sha512(_) => ChecksumType::Sha512,
        }
    }

    /// Whether the two are of one kind and hold the same digest.
    pub fn same(&self, other: &Checksum) -> (r: bool)
        ensures
            r == (self.kind() == other.kind() && self.bytes() == other.bytes()),
    {
        match (self, other) {
            (Checksum::Md5(a), Checksum::Md5(b)) => arrays_equal(a, b),
            (Checksum::Sha1(a), Checksum::Sha1(b)) => arrays_equal(a, b),
            (Checksum::Sha256(a), Checksum::Sha256(b)) => arrays_equal(a, b),
            (Checksum::Sha512(a), Checksum::Sha512(b)) => arrays_equal(a, b),
            _ => false,
        }
    }

    /// Reads a checksum from its text form. The kind follows from the length
    /// of the text in bytes: 32, 40, 64 or 128. A text of another length is
    /// no checksum; one of such a length must be hexadecimal digits throughout.
    pub fn try_from(value: &str) -> (r: Result<Checksum, MirsError>)
        ensures
            match r {
                Ok(c) => is_checksum_text(value@) && c.bytes() == hex_decoded(value@) && Some(
                    c.kind(),
                ) == kind_of_len(value@.len() / 2),
                Err(MirsError::IntoChecksum { value: v }) => v@ == value@ && !is_checksum_text(
                    value@,
                ) && byte_len(value@) != 32 && byte_len(value@) != 40 && byte_len(value@) != 64
                    && byte_len(value@) != 128,
                Err(MirsError::Hex { .. }) => !is_checksum_text(value@) && (byte_len(value@) == 32
                    || byte_len(value@) == 40 || byte_len(value@) == 64 || byte_len(value@)
                    == 128),
                Err(_) => false,
            },
    {
        let chars = chars_of(value);
        Checksum::from_chars(chars.as_slice())
    }

    /// Reads a checksum from the characters of its text form, as `try_from`
    /// does.
    pub fn from_chars(value: &[char]) -> (r: Result<Checksum, MirsError>)
        ensures
            match r {
                Ok(c) => is_checksum_text(value@) && c.bytes() == hex_decoded(value@) && Some(
                    c.kind(),
                ) == kind_of_len(value@.len() / 2),
                Err(MirsError::IntoChecksum { value: v }) => v@ == value@ && !is_checksum_text(
                    value@,
                ) && byte_len(value@) != 32 && byte_len(value@) != 40 && byte_len(value@) != 64
                    && byte_len(value@) != 128,
                Err(MirsError::Hex { .. }) => !is_checksum_text(value@) && (byte_len(value@) == 32
                    || byte_len(value@) == 40 || byte_len(value@) == 64 || byte_len(value@)
                    == 128),
                Err(_) => false,
            },
    {
        proof {
            lemma_utf8_len_bounds(value@, value@.len() as int);
            lemma_hex_is_ascii(value@);
        }
        let len = byte_len_within(value, 128);
        match len {
            Some(32) => match decode_hex::<16>(value) {
                Ok(bytes) => Ok(Checksum::Md5(bytes)),
                Err(cause) => Err(MirsError::Hex { cause }),
            },
            Some(40) => match decode_hex::<20>(value) {
                Ok(bytes) => Ok(Checksum::Sha1(bytes)),
                Err(cause) => Err(MirsError::Hex { cause }),
            },
            Some(64) => match decode_hex::<32>(value) {
                Ok(bytes) => Ok(Checksum::Sha256(bytes)),
                Err(cause) => Err(MirsError::Hex { cause }),
            },
            Some(128) => match decode_hex::<64>(value) {
                Ok(bytes) => Ok(Checksum::Sha512(bytes)),
                Err(cause) => Err(MirsError::Hex { cause }),
            },
            _ => Err(MirsError::IntoChecksum { value: string_of(value) }),
        }
    }

    /// The text form of the checksum.
    pub fn to_chars(&self) -> (r: Vec<char>)
        ensures
            r@ == self.text(),
    {
        match self {
            Checksum::Md5(v) => encode_hex(v.as_slice()),
            Checksum::Sha1(v) => encode_hex(v.as_slice()),
            Checksum::Sha256(v) => encode_hex(v.as_slice()),
            Checksum::Sha512(v) => encode_hex(v.as_slice()),
        }
    }

    /// The text form of the checksum.
    pub fn to_string(&self) -> (r: String)
        ensures
            r@ == self.text(),
    {
        let chars = self.to_chars();
        string_of(chars.as_slice())
    }

    /// Where a file with this checksum lies under the directory of its index:
    /// `by-hash/`, the directory of the kind, and the text form.
    pub fn relative_path(&self) -> (r: String)
        ensures
            r@ == self.relative_path_spec(),
    {
        let mut out = chars_of("by-hash/");
        let dir = match self {
            Checksum::Md5(_) => chars_of("MD5Sum"),
            Checksum::Sha1(_) => chars_of("SHA1"),
            Checksum::Sha256(_) => chars_of("SHA256"),
            Checksum::Sha512(_) => chars_of("SHA512"),
        };
        append_chars(&mut out, dir.as_slice());
        let slash = chars_of("/");
        append_chars(&mut out, slash.as_slice());
        let hex = self.to_chars();
        append_chars(&mut out, hex.as_slice());
        string_of(out.as_slice())
    }

    /// The length of the digest in bytes: 16, 20, 32 or 64.
    pub fn bits(&self) -> (r: usize)
        ensures
            r == self.kind().digest_len(),
            r == self.bytes().len(),
    {
        match self {
            Checksum::Md5(v) => v.len(),
            Checksum::Sha1(v) => v.len(),
            Checksum::Sha256(v) => v.len(),
            Checksum::Sha512(v) => v.len(),
        }
    }

    /// Takes `other` in place of the checksum held where `other` is of a
    /// stronger kind, and keeps the one held otherwise.
    pub fn replace_if_stronger(&mut self, other: Checksum)
        ensures
            *final(self) == if old(self).kind().strength() < other.kind().strength() {
                other
            } else {
                *old(self)
            },
    {
        if self.bits() >= other.bits() {
            return ;
        }
        *self = other
    }

    /// A fresh digest state of the kind of this checksum.
    pub fn create_hasher(&self) -> (r: AnyHasher)
        ensures
            r.kind() == self.kind(),
            r.absorbed() == Seq::<u8>::empty(),
    {
        match self {
            Checksum::Md5(_) => AnyHasher::Md5(Md5Hasher::new()),
            Checksum::Sha1(_) => AnyHasher::Sha1(Sha1Hasher::new()),
            Checksum::Sha256(_) => AnyHasher::Sha256(Sha256Hasher::new()),
            Checksum::Sha512(_) => AnyHasher::Sha512(Sha512Hasher::new()),
        }
    }

    /// Whether `data` has this checksum.
    pub fn matches_data(&self, data: &[u8]) -> (r: bool)
        ensures
            r == (self.bytes() == digest_of(self.kind(), data@)),
    {
        let mut hasher = self.create_hasher();
        hasher.consume(data);
        assert(Seq::<u8>::empty() + data@ =~= data@);
        let computed = hasher.compute();
        self.same(&computed)
    }
}

pub proof fn lemma_hex_is_ascii(s: Seq<char>)
    ensures
        all_hex(s) ==> byte_len(s) == s.len(),
{
    if all_hex(s) {
        assert forall|i: int| 0 <= i < s.len() implies (#[trigger] s[i] as u32) < 0x80 by {
            assert(crate::hexcode::is_hex_digit(s[i]));
        }
        lemma_utf8_len_bounds(s, s.len() as int);
    }
}

/// An incremental digest: bytes go in piece by piece, a checksum comes out.
pub trait Hasher: Sized {
    /// The kind of checksum that the state computes.
    spec fn kind(&self) -> ChecksumType;

    /// The bytes taken in so far, in order.
    spec fn absorbed(&self) -> Seq<u8>;

    /// Takes in `data` after what was taken in before.
    fn consume(&mut self, data: &[u8])
        ensures
            final(self).kind() == old(self).kind(),
            final(self).absorbed() == old(self).absorbed() + data@,
    ;

    /// The checksum of all that was taken in.
    fn compute(self) -> (c: Checksum)
        ensures
            c.kind() == self.kind(),
            c.bytes() == digest_of(self.kind(), self.absorbed()),
    ;
}

pub struct Md5Hasher {
    ctx: md5::Context,
}

pub struct Sha1Hasher {
    hasher: Sha1State,
}

pub struct Sha256Hasher {
    hasher: Sha256State,
}

pub struct Sha512Hasher {
    hasher: Sha512State,
}

impl Md5Hasher {
    pub fn new() -> (r: Self)
        ensures
            r.absorbed() == Seq::<u8>::empty(),
    {
        Self { ctx: md5_new() }
    }
}

impl Hasher for Md5Hasher {
    closed spec fn kind(&self) -> ChecksumType {
        ChecksumType::Md5
    }

    closed spec fn absorbed(&self) -> Seq<u8> {
        md5_absorbed(self.ctx)
    }

    fn consume(&mut self, data: &[u8]) {
        md5_consume(&mut self.ctx, data)
    }

    fn compute(self) -> (c: Checksum) {
        Checksum::Md5(md5_compute(self.ctx))
    }
}

impl Sha1Hasher {
    pub fn new() -> (r: Self)
        ensures
            r.absorbed() == Seq::<u8>::empty(),
    {
        Self { hasher: sha1_new() }
    }
}

impl Hasher for Sha1Hasher {
    closed spec fn kind(&self) -> ChecksumType {
        ChecksumType::Sha1
    }

    closed spec fn absorbed(&self) -> Seq<u8> {
        sha1_absorbed(self.hasher)
    }

    fn consume(&mut self, data: &[u8]) {
        sha1_update(&mut self.hasher, data)
    }

    fn compute(self) -> (c: Checksum) {
        Checksum::Sha1(sha1_finish(self.hasher))
    }
}

impl Sha256Hasher {
    pub fn new() -> (r: Self)
        ensures
            r.absorbed() == Seq::<u8>::empty(),
    {
        Self { hasher: sha256_new() }
    }
}

impl Hasher for Sha256Hasher {
    closed spec fn kind(&self) -> ChecksumType {
        ChecksumType::Sha256
    }

    closed spec fn absorbed(&self) -> Seq<u8> {
        sha256_absorbed(self.hasher)
    }

    fn consume(&mut self, data: &[u8]) {
        sha256_update(&mut self.hasher, data)
    }

    fn compute(self) -> (c: Checksum) {
        Checksum::Sha256(sha256_finish(self.hasher))
    }
}

impl Sha512Hasher {
    pub fn new() -> (r: Self)
        ensures
            r.absorbed() == Seq::<u8>::empty(),
    {
        Self { hasher: sha512_new() }
    }
}

impl Hasher for Sha512Hasher {
    closed spec fn kind(&self) -> ChecksumType {
        ChecksumType::Sha512
    }

    closed spec fn absorbed(&self) -> Seq<u8> {
        sha512_absorbed(self.hasher)
    }

    fn consume(&mut self, data: &[u8]) {
        sha512_update(&mut self.hasher, data)
    }

    fn compute(self) -> (c: Checksum) {
        Checksum::Sha512(sha512_finish(self.hasher))
    }
}

/// A digest state of any of the four kinds.
pub enum AnyHasher {
    Md5(Md5Hasher),
    Sha1(Sha1Hasher),
    Sha256(Sha256Hasher),
    Sha512(Sha512Hasher),
}

impl Hasher for AnyHasher {
    open spec fn kind(&self) -> ChecksumType {
        match self {
            AnyHasher::Md5(_) => ChecksumType::Md5,
            AnyHasher::Sha1(_) => ChecksumType::Sha1,
            AnyHasher::Sha256(_) => ChecksumType::Sha256,
            AnyHasher::Sha512(_) => ChecksumType::Sha512,
        }
    }

    open spec fn absorbed(&self) -> Seq<u8> {
        match self {
            AnyHasher::Md5(h) => h.absorbed(),
            AnyHasher::Sha1(h) => h.absorbed(),
            AnyHasher::Sha256(h) => h.absorbed(),
            AnyHasher::Sha512(h) => h.absorbed(),
        }
    }

    fn consume(&mut self, data: &[u8]) {
        match self {
            AnyHasher::Md5(h) => h.consume(data),
            AnyHasher::Sha1(h) => h.consume(data),
            AnyHasher::Sha256(h) => h.consume(data),
            AnyHasher::Sha512(h) => h.consume(data),
        }
    }

    fn compute(self) -> (c: Checksum) {
        match self {
            AnyHasher::Md5(h) => h.compute(),
            AnyHasher::Sha1(h) => h.compute(),
            AnyHasher::Sha256(h) => h.compute(),
            AnyHasher::Sha512(h) => h.compute(),
        }
    }
}


/// The text form of a checksum reads back as the checksum: it is the text
/// of a checksum, of the kind and with the digest that were written.
pub proof fn law_checksum_text_round_trip(c: Checksum)
    ensures
        is_checksum_text(c.text()),
        hex_decoded(c.text()) == c.bytes(),
        kind_of_len(c.text().len() / 2) == Some(c.kind()),
{
    crate::hexcode::law_hex_round_trip(c.bytes());
}

} // verus!
