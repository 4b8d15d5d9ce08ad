//! The canonical text of a manifest: its header fields in the order of
//! their names, then one section for each kind of digest, strongest first,
//! with the files in the order of their paths.

use crate::checksum::ChecksumType;
use crate::hexcode::encode_hex;
use crate::hexcode::hex_encoded;
use crate::manifest::Release;
use crate::manifest::ReleaseModel;
use crate::release::EntryModel;
use crate::release::FileEntry;
use crate::text::append_chars;
use crate::text::chars_of;
use crate::number::decimal;
use crate::number::decimal_exec;
use crate::text::lit;
use crate::text::string_of;
use vstd::prelude::*;

verus! {

/// The line of a header field.
pub open spec fn header_text(k: Seq<char>, v: Seq<char>) -> Seq<char> {
    k + seq![':', ' '] + v + seq!['\n']
}

/// The lines of the first `n` header fields.
pub open spec fn headers_text(h: Seq<(Seq<char>, Seq<char>)>, n: int) -> Seq<char>
    decreases n,
{
    if n <= 0 || n > h.len() {
        Seq::empty()
    } else {
        headers_text(h, n - 1) + header_text(h[n - 1].0, h[n - 1].1)
    }
}

/// The label that starts the section of a kind of digest.
pub open spec fn label_of(kind: ChecksumType) -> Seq<char> {
    match kind {
        ChecksumType::Md5 => "MD5Sum:"@,
        ChecksumType::Sha1 => "SHA1:"@,
        ChecksumType::Sha256 => "SHA256:"@,
        ChecksumType::Sha512 => "SHA512:"@,
    }
}

/// The line that lists a file in the section of a digest.
pub open spec fn file_text(d: Seq<u8>, size: u64, path: Seq<char>) -> Seq<char> {
    seq![' '] + hex_encoded(d) + seq![' '] + decimal(size as nat) + seq![' '] + path + seq!['\n']
}

/// The lines of the section of a kind for the first `n` files: one line for
/// each file that lists a digest of the kind.
pub open spec fn section_lines(files: Seq<(Seq<char>, EntryModel)>, kind: ChecksumType, n: int) -> Seq<
    char,
>
    decreases n,
{
    if n <= 0 || n > files.len() {
        Seq::empty()
    } else {
        section_lines(files, kind, n - 1) + match files[n - 1].1.digest(kind) {
            Some(d) => file_text(d, files[n - 1].1.size, files[n - 1].0),
            None => Seq::empty(),
        }
    }
}

/// The section of a kind: its label, then its lines.
pub open spec fn section_text(files: Seq<(Seq<char>, EntryModel)>, kind: ChecksumType) -> Seq<char> {
    label_of(kind) + seq!['\n'] + section_lines(files, kind, files.len() as int)
}

/// The canonical text of a manifest.
pub open spec fn canonical_text(r: ReleaseModel) -> Seq<char> {
    headers_text(r.headers, r.headers.len() as int) + section_text(r.files, ChecksumType::Sha512)
        + section_text(r.files, ChecksumType::Sha256) + section_text(r.files, ChecksumType::Sha1)
        + section_text(r.files, ChecksumType::Md5)
}

/// Appends the line of one file to `out`, where the file lists a digest of
/// the kind.
fn write_file_line(out: &mut Vec<char>, path: &Vec<char>, entry: &FileEntry, kind: ChecksumType)
    ensures
        final(out)@ == old(out)@ + match entry@.digest(kind) {
            Some(d) => file_text(d, entry@.size, path@),
            None => Seq::empty(),
        },
{
    let hex = match kind {
        ChecksumType::Md5 => match &entry.md5 {
            Some(d) => Some(encode_hex(d.as_slice())),
            None => None,
        },
        ChecksumType::Sha1 => match &entry.sha1 {
            Some(d) => Some(encode_hex(d.as_slice())),
            None => None,
        },
        ChecksumType::Sha256 => match &entry.sha256 {
            Some(d) => Some(encode_hex(d.as_slice())),
            None => None,
        },
        ChecksumType::Sha512 => match &entry.sha512 {
            Some(d) => Some(encode_hex(d.as_slice())),
            None => None,
        },
    };
    match hex {
        Some(h) => {
            out.push(' ');
            append_chars(out, h.as_slice());
            out.push(' ');
            append_chars(out, decimal_exec(entry.size).as_slice());
            out.push(' ');
            append_chars(out, path.as_slice());
            out.push('\n');
            assert(out@ =~= old(out)@ + file_text(
                entry@.digest(kind)->0,
                entry@.size,
                path@,
            ));
        },
        None => {
            assert(out@ =~= old(out)@ + Seq::<char>::empty());
        },
    }
}

/// Appends the section of a kind to `out`.
fn write_section(out: &mut Vec<char>, release: &Release, kind: ChecksumType)
    ensures
        final(out)@ == old(out)@ + section_text(release@.files, kind),
{
    let label = match kind {
        ChecksumType::Md5 => lit("MD5Sum:"),
        ChecksumType::Sha1 => lit("SHA1:"),
        ChecksumType::Sha256 => lit("SHA256:"),
        ChecksumType::Sha512 => lit("SHA512:"),
    };
    append_chars(out, label.as_slice());
    out.push('\n');
    let ghost head = out@;
    let mut i: usize = 0;
    assert(out@ =~= head + section_lines(release@.files, kind, 0));
    while i < release.len()
        invariant
            i <= release@.files.len(),
            head == old(out)@ + label_of(kind) + seq!['\n'],
            out@ == head + section_lines(release@.files, kind, i as int),
        decreases release@.files.len() - i,
    {
        let (path, entry) = release.file_at(i);
        write_file_line(out, path, entry, kind);
        assert(out@ =~= head + section_lines(release@.files, kind, i + 1));
        i += 1;
    }
    assert(out@ =~= old(out)@ + section_text(release@.files, kind));
}

impl Release {
    /// The canonical text of the manifest.
    pub fn canonical_text(&self) -> (r: String)
        ensures
            r@ == canonical_text(self@),
    {
        let mut out: Vec<char> = Vec::new();
        let mut i: usize = 0;
        assert(out@ =~= headers_text(self@.headers, 0));
        while i < self.header_count()
            invariant
                i <= self@.headers.len(),
                out@ == headers_text(self@.headers, i as int),
            decreases self@.headers.len() - i,
        {
            let (key, value) = self.header_at(i);
            append_chars(&mut out, key.as_slice());
            out.push(':');
            out.push(' ');
            append_chars(&mut out, chars_of(value.as_str()).as_slice());
            out.push('\n');
            assert(out@ =~= headers_text(self@.headers, i + 1));
            i += 1;
        }
        write_section(&mut out, self, ChecksumType::Sha512);
        write_section(&mut out, self, ChecksumType::Sha256);
        write_section(&mut out, self, ChecksumType::Sha1);
        write_section(&mut out, self, ChecksumType::Md5);
        string_of(out.as_slice())
    }
}

} // verus!
