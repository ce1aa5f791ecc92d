//! Creating the directories on the way to a remote path.

use vstd::prelude::*;
use vstd::string::*;

use crate::path::directories;
use crate::path::remote_directories;
use crate::path::texts;
use crate::sftp::SftpAction;
use crate::sftp::SftpStep;

verus! {

/// The creation of directories under way: each is asked for, outermost first,
/// and created where it is not there.
#[verifier::ext_equal]
pub struct DirectoryRun {
    pub directories: Seq<Seq<char>>,
    /// How many of them are known to be there.
    pub done: int,
    /// Whether the next one is known to be missing.
    pub missing: bool,
}

impl DirectoryRun {
    /// No directory has been looked at.
    pub open spec fn fresh(directories: Seq<Seq<char>>) -> DirectoryRun {
        DirectoryRun { directories, done: 0, missing: false }
    }

    /// Whether every directory is known to be there.
    pub open spec fn complete(self) -> bool {
        self.done >= self.directories.len()
    }

    /// What to do next.
    pub open spec fn step(self) -> SftpStep {
        if self.complete() {
            SftpStep::Complete
        } else if self.missing {
            SftpStep::CreateDirectory(self.directories[self.done])
        } else {
            SftpStep::CheckExists(self.directories[self.done])
        }
    }

    /// What is known after the current step has succeeded, where `found` is the
    /// answer if it was a question.
    pub open spec fn advance(self, found: bool) -> DirectoryRun {
        if self.complete() {
            self
        } else if !self.missing && !found {
            DirectoryRun { missing: true, ..self }
        } else {
            DirectoryRun { done: self.done + 1, missing: false, ..self }
        }
    }

    /// What a failure of the current step is put down to.
    pub open spec fn failure_text(self) -> Option<Seq<char>> {
        if self.complete() {
            None
        } else if self.missing {
            Some("failed creating remote directory "@ + self.directories[self.done])
        } else {
            Some("failed checking remote directory "@ + self.directories[self.done])
        }
    }
}

/// Drives the creation of the directories on the way to a path.
#[derive(Debug)]
pub struct DirectoryPlan {
    directories: Vec<String>,
    done: usize,
    missing: bool,
}

impl View for DirectoryPlan {
    type V = DirectoryRun;

    closed spec fn view(&self) -> DirectoryRun {
        DirectoryRun {
            directories: texts(self.directories@),
            done: self.done as int,
            missing: self.missing,
        }
    }
}

impl DirectoryPlan {
    /// The directories that must exist for `path` to be one.
    pub fn new(path: &str) -> (res: DirectoryPlan)
        ensures
            res@ == DirectoryRun::fresh(directories(path@)),
    {
        DirectoryPlan { directories: remote_directories(path), done: 0, missing: false }
    }

    /// No directories at all.
    pub fn empty() -> (res: DirectoryPlan)
        ensures
            res@ == DirectoryRun::fresh(Seq::empty()),
    {
        DirectoryPlan { directories: Vec::new(), done: 0, missing: false }
    }

    /// Whether every directory is known to be there.
    pub fn complete(&self) -> (res: bool)
        ensures
            res == self@.complete(),
    {
        self.done >= self.directories.len()
    }

    /// What to do next.
    pub fn action(&self) -> (res: SftpAction)
        ensures
            res@ == self@.step(),
    {
        if self.done >= self.directories.len() {
            SftpAction::Complete
        } else if self.missing {
            SftpAction::CreateDirectory(self.directories[self.done].clone())
        } else {
            SftpAction::CheckExists(self.directories[self.done].clone())
        }
    }

    /// The current step has succeeded; `found` is the answer if it was a
    /// question.
    pub fn advance(&mut self, found: bool)
        ensures
            final(self)@ == old(self)@.advance(found),
    {
        if self.done < self.directories.len() {
            if !self.missing && !found {
                self.missing = true;
            } else {
                self.done = self.done + 1;
                self.missing = false;
            }
        }
    }

    /// What a failure of the current step is put down to.
    pub fn failure(&self) -> (res: Option<String>)
        ensures
            match res {
                Some(text) => self@.failure_text() == Some(text@),
                None => self@.failure_text() is None,
            },
    {
        if self.done >= self.directories.len() {
            None
        } else if self.missing {
            Some(
                "failed creating remote directory ".to_owned().concat(
                    self.directories[self.done].as_str(),
                ),
            )
        } else {
            Some(
                "failed checking remote directory ".to_owned().concat(
                    self.directories[self.done].as_str(),
                ),
            )
        }
    }
}

} // verus!
