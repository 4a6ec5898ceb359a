//! What a run does with each file, and how it ends.

use crate::text::same_text;
use vstd::prelude::*;

verus! {

/// The exit code of a dry run that found something to change.
pub const CHANGES_EXIT_CODE: u8 = 73;

/// Whether `extension` is the extension of a Typst file.
pub open spec fn is_typst_extension(extension: Seq<char>) -> bool {
    extension == "typ"@ || extension == "typst"@
}

/// Whether `extension` is the extension of a Typst file: `typ` or `typst`.
pub fn has_typst_extension(extension: &str) -> (r: bool)
    ensures
        r == is_typst_extension(extension@),
{
    same_text(extension, "typ") || same_text(extension, "typst")
}

/// What is done with a file after its conversion.
#[derive(Clone, Copy, Debug, PartialEq, Eq, Structural)]
pub enum FileAction {
    /// Nothing: the conversion changed nothing.
    Skip,
    /// The difference is shown, the file stays as it is.
    Report,
    /// The difference is shown and the file is written.
    Update,
}

/// What is done with a file: nothing where the conversion left it as it was;
/// otherwise a report in a dry run, an update in any other.
pub fn file_action(changed: bool, dry_run: bool) -> (r: FileAction)
    ensures
        r == if !changed {
            FileAction::Skip
        } else if dry_run {
            FileAction::Report
        } else {
            FileAction::Update
        },
{
    if !changed {
        FileAction::Skip
    } else if dry_run {
        FileAction::Report
    } else {
        FileAction::Update
    }
}

/// What a run has found so far.
#[derive(Clone, Copy, Debug, PartialEq, Eq, Structural)]
pub struct RunState {
    /// The exit code that the run ends with.
    pub exit_code: u8,
    /// Whether a newer, incompatible version was held back in any file.
    pub incompat_versions_available: bool,
}

impl RunState {
    /// The state after one more file.
    pub open spec fn spec_after_file(
        self,
        action: FileAction,
        has_incompat_versions: bool,
    ) -> RunState {
        RunState {
            exit_code: if action is Report {
                CHANGES_EXIT_CODE
            } else {
                self.exit_code
            },
            incompat_versions_available: self.incompat_versions_available || has_incompat_versions,
        }
    }

    /// The state after a list of files, each given by what was done with it
    /// and whether a version was held back in it.
    pub open spec fn after_files(self, files: Seq<(FileAction, bool)>) -> RunState
        decreases files.len(),
    {
        if files.len() == 0 {
            self
        } else {
            self.after_files(files.drop_last()).spec_after_file(files.last().0, files.last().1)
        }
    }

    /// The state of a run before its first file.
    pub fn new() -> (r: RunState)
        ensures
            r == (RunState { exit_code: 0, incompat_versions_available: false }),
    {
        RunState { exit_code: 0, incompat_versions_available: false }
    }

    /// The state after one more file: the exit code tells of a report, and a
    /// version held back in the file is remembered.
    #[verifier::when_used_as_spec(spec_after_file)]
    pub fn after_file(self, action: FileAction, has_incompat_versions: bool) -> (r: RunState)
        ensures
            r == self.spec_after_file(action, has_incompat_versions),
    {
        RunState {
            exit_code: if action == FileAction::Report {
                CHANGES_EXIT_CODE
            } else {
                self.exit_code
            },
            incompat_versions_available: self.incompat_versions_available || has_incompat_versions,
        }
    }
}

/// A run ends with the exit code for changes exactly if one of its files was
/// reported, and with 0 otherwise; it tells of a version held back exactly if
/// one was held back in one of its files.
pub proof fn lemma_run_outcome(files: Seq<(FileAction, bool)>)
    ensures
        ({
            let end = (RunState { exit_code: 0, incompat_versions_available: false }).after_files(
                files,
            );
            &&& end.exit_code == if exists|i: int| 0 <= i < files.len() && files[i].0 is Report {
                CHANGES_EXIT_CODE
            } else {
                0
            }
            &&& end.incompat_versions_available == exists|i: int| 0 <= i < files.len() && files[i].1
        }),
    decreases files.len(),
{
    if files.len() > 0 {
        let rest = files.drop_last();
        lemma_run_outcome(rest);
        assert(forall|i: int| 0 <= i < rest.len() ==> rest[i] == files[i]);
        if exists|i: int| 0 <= i < rest.len() && rest[i].0 is Report {
            let i = choose|i: int| 0 <= i < rest.len() && rest[i].0 is Report;
            assert(files[i].0 is Report);
        }
        if exists|i: int| 0 <= i < rest.len() && rest[i].1 {
            let i = choose|i: int| 0 <= i < rest.len() && rest[i].1;
            assert(files[i].1);
        }
        if files.last().0 is Report {
            assert(files[files.len() - 1].0 is Report);
        }
        if files.last().1 {
            assert(files[files.len() - 1].1);
        }
    }
}

} // verus!
