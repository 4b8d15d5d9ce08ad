//! Compressed index files: from the bytes of the file to its text.

use crate::error::MirsError;
use crate::path::extension_of;
use crate::path::FilePath;
use crate::reader::TrackingReader;
use crate::text::chars_of;
use crate::text::lit;
use crate::text::text_eq;
use std::io::Read;
use vstd::prelude::*;
use vstd::utf8::decode_utf8;
use vstd::utf8::valid_utf8;

verus! {

/// What a gzip stream holds, or `None` where the bytes are no such stream.
pub uninterp spec fn gz_decoded(data: Seq<u8>) -> Option<Seq<u8>>;

/// What the xz streams in a row hold, or `None` where the bytes are no such
/// streams.
pub uninterp spec fn xz_decoded(data: Seq<u8>) -> Option<Seq<u8>>;

/// What a bzip2 stream holds, or `None` where the bytes are no such stream.
pub uninterp spec fn bz2_decoded(data: Seq<u8>) -> Option<Seq<u8>>;

/// `flate2::read::GzDecoder::new` over the bytes, read to its end: what the
/// gzip stream holds, `None` where the decoder reports an error.
#[verifier::external_body]
pub(crate) fn gunzip(data: &[u8]) -> (r: Option<Vec<u8>>)
    ensures
        match r {
            Some(v) => gz_decoded(data@) == Some(v@),
            None => gz_decoded(data@) is None,
        },
{
    let mut out = Vec::new();
    match flate2::read::GzDecoder::new(data).read_to_end(&mut out) {
        Ok(_) => Some(out),
        Err(_) => None,
    }
}

/// `xz2::read::XzDecoder::new_multi_decoder` over the bytes, read to its end:
/// what the xz streams hold, `None` where the decoder reports an error.
#[verifier::external_body]
pub(crate) fn unxz(data: &[u8]) -> (r: Option<Vec<u8>>)
    ensures
        match r {
            Some(v) => xz_decoded(data@) == Some(v@),
            None => xz_decoded(data@) is None,
        },
{
    let mut out = Vec::new();
    match xz2::read::XzDecoder::new_multi_decoder(data).read_to_end(&mut out) {
        Ok(_) => Some(out),
        Err(_) => None,
    }
}

/// `bzip2::read::BzDecoder::new` over the bytes, read to its end: what the
/// bzip2 stream holds, `None` where the decoder reports an error.
#[verifier::external_body]
pub(crate) fn bunzip2(data: &[u8]) -> (r: Option<Vec<u8>>)
    ensures
        match r {
            Some(v) => bz2_decoded(data@) == Some(v@),
            None => bz2_decoded(data@) is None,
        },
{
    let mut out = Vec::new();
    match bzip2::read::BzDecoder::new(data).read_to_end(&mut out) {
        Ok(_) => Some(out),
        Err(_) => None,
    }
}

/// `String::from_utf8`: the text that the bytes encode in UTF-8, `None`
/// where they encode none.
#[verifier::external_body]
pub(crate) fn utf8_text(bytes: Vec<u8>) -> (r: Option<String>)
    ensures
        match r {
            Some(s) => valid_utf8(bytes@) && s@ == decode_utf8(bytes@),
            None => !valid_utf8(bytes@),
        },
{
    String::from_utf8(bytes).ok()
}

/// How an index file is encoded, by the extension of its name.
#[derive(Clone, Copy, Debug, PartialEq, Eq, Structural)]
pub enum Encoding {
    Plain,
    Gz,
    Xz,
    Bz2,
}

/// The encoding that the extension of `path` names: none for a name without
/// extension, and no encoding at all for an extension that is not known.
pub open spec fn encoding_of(path: Seq<char>) -> Option<Encoding> {
    match extension_of(path) {
        None => Some(Encoding::Plain),
        Some(x) => if x == "xz"@ {
            Some(Encoding::Xz)
        } else if x == "gz"@ {
            Some(Encoding::Gz)
        } else if x == "bz2"@ {
            Some(Encoding::Bz2)
        } else {
            None
        },
    }
}

/// The bytes that `data` holds under the encoding.
pub open spec fn decoded(encoding: Encoding, data: Seq<u8>) -> Option<Seq<u8>> {
    match encoding {
        Encoding::Plain => Some(data),
        Encoding::Gz => gz_decoded(data),
        Encoding::Xz => xz_decoded(data),
        Encoding::Bz2 => bz2_decoded(data),
    }
}

/// Why the bytes of an index file give no text.
#[derive(Clone, Copy, Debug, PartialEq, Eq, Structural)]
pub enum ReaderFault {
    /// The extension names no encoding that is known.
    UnknownEncoding,
    /// The bytes are not of the encoding, or what they hold is not UTF-8.
    Unreadable,
}

/// The text of the index file at `path` with the bytes `data`.
pub open spec fn reader_text(data: Seq<u8>, path: Seq<char>) -> Result<Seq<char>, ReaderFault> {
    match encoding_of(path) {
        None => Err(ReaderFault::UnknownEncoding),
        Some(encoding) => match decoded(encoding, data) {
            None => Err(ReaderFault::Unreadable),
            Some(bytes) => if valid_utf8(bytes) {
                Ok(decode_utf8(bytes))
            } else {
                Err(ReaderFault::Unreadable)
            },
        },
    }
}

/// Whether `e`, raised for the index file at `path`, reports the fault: a
/// name of an encoding that is not known is a file that cannot be parsed,
/// bytes that cannot be read are a file that cannot be read.
pub open spec fn reports_reader(e: MirsError, fault: ReaderFault, path: Seq<char>) -> bool {
    match fault {
        ReaderFault::UnknownEncoding => e matches MirsError::ParsingPackages { path: p } && p@
            == path,
        ReaderFault::Unreadable => e matches MirsError::ReadingPackage { path: p, inner } && p@
            == path && (*inner matches MirsError::Io { msg } && msg@ == "invalid data"@),
    }
}

/// The encoding that the extension of `path` names.
pub fn encoding_exec(path: &FilePath) -> (r: Option<Encoding>)
    ensures
        r == encoding_of(path@),
{
    match path.extension() {
        None => Some(Encoding::Plain),
        Some(x) => {
            let c = chars_of(x);
            if text_eq(c.as_slice(), lit("xz").as_slice()) {
                Some(Encoding::Xz)
            } else if text_eq(c.as_slice(), lit("gz").as_slice()) {
                Some(Encoding::Gz)
            } else if text_eq(c.as_slice(), lit("bz2").as_slice()) {
                Some(Encoding::Bz2)
            } else {
                None
            }
        },
    }
}

/// The text of an index file that was decoded, where it is UTF-8.
pub fn text_of_decoded(decoded: Option<Vec<u8>>) -> (r: Option<Vec<char>>)
    ensures
        match r {
            Some(t) => decoded is Some && valid_utf8(decoded->0@) && t@ == decode_utf8(
                decoded->0@,
            ),
            None => decoded is None || !valid_utf8(decoded->0@),
        },
{
    match decoded {
        None => None,
        Some(bytes) => match utf8_text(bytes) {
            Some(s) => Some(chars_of(s.as_str())),
            None => None,
        },
    }
}

/// Reads an index file: takes its bytes in through a counting reader,
/// decodes them as the extension of its name says, and reads the result as
/// UTF-8. The second value is the count of the reader: the size of the
/// file.
pub fn create_reader(data: Vec<u8>, path: &FilePath) -> (r: Result<(Vec<char>, u64), MirsError>)
    ensures
        match r {
            Ok((text, read)) => reader_text(data@, path@) == Ok::<Seq<char>, ReaderFault>(text@)
                && read == data@.len(),
            Err(e) => match reader_text(data@, path@) {
                Err(fault) => reports_reader(e, fault, path@),
                Ok(_) => false,
            },
        },
{
    let encoding = match encoding_exec(path) {
        Some(e) => e,
        None => {
            return Err(MirsError::ParsingPackages { path: path.0.clone() });
        },
    };
    let length: usize = data.len();
    let mut source = TrackingReader::new(data);
    let raw = source.read(length);
    assert(raw@ =~= data@) by {
        assert(raw@.len() == data@.len());
        assert(source.remaining().len() == 0);
        assert(data@ == raw@ + source.remaining());
    }
    let size = source.counter();
    let bytes = match encoding {
        Encoding::Plain => Some(raw),
        Encoding::Gz => gunzip(raw.as_slice()),
        Encoding::Xz => unxz(raw.as_slice()),
        Encoding::Bz2 => bunzip2(raw.as_slice()),
    };
    match text_of_decoded(bytes) {
        Some(text) => Ok((text, size)),
        None => Err(
            MirsError::ReadingPackage {
                path: path.0.clone(),
                inner: Box::new(MirsError::Io { msg: "invalid data".to_owned() }),
            },
        ),
    }
}

} // verus!
