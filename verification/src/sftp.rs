//! The steps that are taken over an SFTP session.

use vstd::prelude::*;

verus! {

/// How a remote file is opened for writing.
#[derive(Debug, Clone, Copy, PartialEq, Eq, Structural)]
pub struct OpenMode {
    /// It is created if it is not there.
    pub create: bool,
    /// It is emptied if it is there.
    pub truncate: bool,
    /// It can be written to.
    pub write: bool,
}

/// What to do next over SFTP.
#[derive(Debug)]
pub enum SftpAction {
    /// Ask whether there is anything of this name.
    CheckExists(String),
    /// Create a directory.
    CreateDirectory(String),
    /// Remove a file.
    RemoveFile(String),
    /// Open a local file.
    OpenSource(String),
    /// Open the file of this name for writing: created where it is not there,
    /// emptied where it is, as far as `mode` says.
    CreateFile { path: String, mode: OpenMode },
    /// Copy the local file `from` into the open file `to`.
    Copy { from: String, to: String },
    /// Flush the open file of this name.
    Flush(String),
    /// Close the open file of this name.
    Close(String),
    /// Give a file another name.
    Rename { from: String, to: String },
    /// Open a file for reading.
    OpenFile(String),
    /// Read the next piece of the open file, of at most so many bytes.
    Read { limit: usize },
    /// There is nothing left to do.
    Complete,
}

/// A step over SFTP, with its paths as sequences.
pub enum SftpStep {
    CheckExists(Seq<char>),
    CreateDirectory(Seq<char>),
    RemoveFile(Seq<char>),
    OpenSource(Seq<char>),
    CreateFile { path: Seq<char>, mode: OpenMode },
    Copy { from: Seq<char>, to: Seq<char> },
    Flush(Seq<char>),
    Close(Seq<char>),
    Rename { from: Seq<char>, to: Seq<char> },
    OpenFile(Seq<char>),
    Read { limit: usize },
    Complete,
}

impl View for SftpAction {
    type V = SftpStep;

    open spec fn view(&self) -> SftpStep {
        match self {
            SftpAction::CheckExists(path) => SftpStep::CheckExists(path@),
            SftpAction::CreateDirectory(path) => SftpStep::CreateDirectory(path@),
            SftpAction::RemoveFile(path) => SftpStep::RemoveFile(path@),
            SftpAction::OpenSource(path) => SftpStep::OpenSource(path@),
            SftpAction::CreateFile { path, mode } => SftpStep::CreateFile {
                path: path@,
                mode: *mode,
            },
            SftpAction::Copy { from, to } => SftpStep::Copy { from: from@, to: to@ },
            SftpAction::Flush(path) => SftpStep::Flush(path@),
            SftpAction::Close(path) => SftpStep::Close(path@),
            SftpAction::Rename { from, to } => SftpStep::Rename { from: from@, to: to@ },
            SftpAction::OpenFile(path) => SftpStep::OpenFile(path@),
            SftpAction::Read { limit } => SftpStep::Read { limit: *limit },
            SftpAction::Complete => SftpStep::Complete,
        }
    }
}

/// The step of an action is of the same kind, with the same paths in the same places.
pub proof fn step_has_the_paths_of_its_action(action: SftpAction)
    ensures
        match action {
            SftpAction::CheckExists(path) => action@ == SftpStep::CheckExists(path@),
            SftpAction::CreateDirectory(path) => action@ == SftpStep::CreateDirectory(path@),
            SftpAction::RemoveFile(path) => action@ == SftpStep::RemoveFile(path@),
            SftpAction::OpenSource(path) => action@ == SftpStep::OpenSource(path@),
            SftpAction::CreateFile { path, mode } => action@ == (SftpStep::CreateFile {
                path: path@,
                mode,
            }),
            SftpAction::Copy { from, to } => action@ == (SftpStep::Copy { from: from@, to: to@ }),
            SftpAction::Flush(path) => action@ == SftpStep::Flush(path@),
            SftpAction::Close(path) => action@ == SftpStep::Close(path@),
            SftpAction::Rename { from, to } => action@ == (SftpStep::Rename {
                from: from@,
                to: to@,
            }),
            SftpAction::OpenFile(path) => action@ == SftpStep::OpenFile(path@),
            SftpAction::Read { limit } => action@ == (SftpStep::Read { limit }),
            SftpAction::Complete => action@ == SftpStep::Complete,
        },
{
}

} // verus!
