//! The errors of the library.

use crate::hexcode::HexError;
use crate::progress::ProgressPart;
use vstd::prelude::*;

verus! {

/// What can go wrong while an archive is read or mirrored.
#[derive(Debug)]
pub enum MirsError {
    Io { msg: String },
    Network { msg: String },
    ParseInt { value: String },
    Download { url: String, status_code: u16 },
    ParsingRelease { line: String },
    InvalidReleaseFile { inner: Box<MirsError> },
    VerifyTask { path: String },
    NoReleaseFile,
    SumFileParsing { path: String, inner: Box<MirsError> },
    InvalidSumEntry { line: String },
    ParsingPackages { path: String },
    ParsingSources { path: String },
    ParsingDiffIndex { path: String },
    UrlParsing { url: String },
    Config { msg: String },
    Tmp { msg: String },
    Hex { cause: HexError },
    IntoChecksum { value: String },
    Checksum { url: String, expected: String, hash: String },
    DownloadRelease { inner: Box<MirsError> },
    DownloadMetadata { inner: Box<MirsError> },
    DownloadDiffs { inner: Box<MirsError> },
    DownloadPackages { inner: Box<MirsError> },
    DownloadDebianInstaller { inner: Box<MirsError> },
    Inventory { inner: Box<MirsError> },
    Verify { inner: Box<MirsError> },
    Delete { inner: Box<MirsError> },
    Finalize { inner: Box<MirsError> },
    ReadingPackage { path: String, inner: Box<MirsError> },
    PgpKeyStore { msg: String },
    PgpPubKey { path: String, inner: Box<MirsError> },
    PgpKeyVerification { path: String, msg: String },
    PgpNotSupported,
    PgpNotVerified,
    NonIndexFileBuild { path: String },
    InconsistentRepository { progress: ProgressPart },
}

} // verus!
