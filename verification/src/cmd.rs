//! The commands of the program and what a run of a command ends with.

use crate::mirror::MirrorOutput;
use crate::mirror::MirrorResult;
use crate::prune::PruneOutput;
use crate::prune::PruneResult;
use crate::verify::VerifyOutput;
use crate::verify::VerifyResult;
use vstd::prelude::*;

verus! {

/// What the program is asked to do.
#[derive(Clone, Copy, Debug, PartialEq, Eq, Structural)]
pub enum Cmd {
    /// Mirrors the configured repositories; the command where none is given.
    Mirror,
    /// Verifies the mirrors against their manifests.
    Verify,
    /// Removes the files of the mirrors that no index vouches for.
    Prune,
}

impl Default for Cmd {
    fn default() -> (r: Cmd)
        ensures
            r == Cmd::Mirror,
    {
        Cmd::Mirror
    }
}

impl Cmd {
    /// How the command is named while it runs.
    pub fn describe(&self) -> (r: &'static str)
        ensures
            r@ == match self {
                Cmd::Mirror => "Mirroring"@,
                Cmd::Verify => "Verifying"@,
                Cmd::Prune => "Pruning"@,
            },
    {
        match self {
            Cmd::Mirror => "Mirroring",
            Cmd::Verify => "Verifying",
            Cmd::Prune => "Pruning",
        }
    }

    /// The command that the word on the command line names; the default
    /// where there is no word.
    pub fn from_word(word: Option<&str>) -> (r: Option<Cmd>)
        ensures
            r == match word {
                None => Some(Cmd::Mirror),
                Some(w) => if w@ == "mirror"@ {
                    Some(Cmd::Mirror)
                } else if w@ == "verify"@ {
                    Some(Cmd::Verify)
                } else if w@ == "prune"@ {
                    Some(Cmd::Prune)
                } else {
                    None
                },
            },
    {
        match word {
            None => Some(Cmd::Mirror),
            Some(w) => {
                let c = crate::text::chars_of(w);
                if crate::text::text_eq(c.as_slice(), crate::text::lit("mirror").as_slice()) {
                    Some(Cmd::Mirror)
                } else if crate::text::text_eq(c.as_slice(), crate::text::lit("verify").as_slice()) {
                    Some(Cmd::Verify)
                } else if crate::text::text_eq(c.as_slice(), crate::text::lit("prune").as_slice()) {
                    Some(Cmd::Prune)
                } else {
                    None
                }
            },
        }
    }
}

/// The result of a run of a command.
pub trait CmdResult {
    /// Whether the run failed.
    spec fn failed(&self) -> bool;

    /// Whether the run failed, so that the process exits with an error.
    fn is_failure(&self) -> (r: bool)
        ensures
            r == self.failed(),
    ;
}

impl CmdResult for MirrorResult {
    open spec fn failed(&self) -> bool {
        self is Error
    }

    fn is_failure(&self) -> (r: bool) {
        !self.is_success()
    }
}

impl CmdResult for VerifyResult {
    open spec fn failed(&self) -> bool {
        !(self matches VerifyResult::Done { corrupt_files, .. } && corrupt_files == 0)
    }

    fn is_failure(&self) -> (r: bool) {
        !self.is_success()
    }
}

impl CmdResult for PruneResult {
    open spec fn failed(&self) -> bool {
        self is Error
    }

    fn is_failure(&self) -> (r: bool) {
        matches!(self, PruneResult::Error(_))
    }
}

/// What a command has gathered when its steps are through.
pub trait CmdState {
    type Result: CmdResult;

    /// The result of a run whose steps all went through.
    spec fn outcome(&self) -> Self::Result;

    /// The result of a run whose steps all went through.
    fn finalize(&self) -> (r: Self::Result)
        ensures
            r == self.outcome(),
    ;
}

impl CmdState for MirrorOutput {
    type Result = MirrorResult;

    open spec fn outcome(&self) -> MirrorResult {
        MirrorResult::NewRelease {
            total_download_size: self.total_bytes_downloaded,
            num_packages_downloaded: self.total_packages_downloaded,
        }
    }

    fn finalize(&self) -> (r: MirrorResult) {
        MirrorResult::NewRelease {
            total_download_size: self.total_bytes_downloaded,
            num_packages_downloaded: self.total_packages_downloaded,
        }
    }
}

impl CmdState for VerifyOutput {
    type Result = VerifyResult;

    open spec fn outcome(&self) -> VerifyResult {
        VerifyResult::Done {
            valid_files: self.total_valid,
            corrupt_files: self.total_corrupt,
            missing_files: self.total_missing,
        }
    }

    fn finalize(&self) -> (r: VerifyResult) {
        VerifyOutput::finalize(self)
    }
}

impl CmdState for PruneOutput {
    type Result = PruneResult;

    open spec fn outcome(&self) -> PruneResult {
        PruneResult::Pruned {
            valid_files: self.total_valid,
            valid_bytes: self.total_valid_bytes,
            deleted_files: self.total_deleted,
            deleted_bytes: self.total_deleted_bytes,
        }
    }

    fn finalize(&self) -> (r: PruneResult) {
        PruneOutput::finalize(self)
    }
}

} // verus!
