//! Uploading a file over SFTP: into a temporary file first, which then takes the
//! place of the destination.

use vstd::prelude::*;
use vstd::string::*;

use crate::directories::DirectoryPlan;
use crate::directories::DirectoryRun;
use crate::path::directories;
use crate::path::directories_are_no_longer;
use crate::path::parent_is_what_the_name_lies_in;
use crate::path::parent_of;
use crate::path::parent_stands_before_the_last_slash;
use crate::path::pieces;
use crate::path::remote_parent;
use crate::path::spelling_does_not_change_the_directories;
use crate::path::temporary_is_not_the_destination;
use crate::path::temporary_of;
use crate::path::temporary_path;
use crate::sftp::OpenMode;
use crate::sftp::SftpAction;
use crate::sftp::SftpStep;

verus! {

/// How far an upload over SFTP has come.
#[derive(Debug, Clone, Copy, PartialEq, Eq, Structural)]
pub enum SftpUploadStage {
    /// The directories of the destination have to be there.
    Directories,
    /// Whether an earlier upload has left its temporary file has to be asked.
    CheckTemporary,
    /// The temporary file of an earlier upload has to go.
    RemoveTemporary,
    /// The local file has to be opened.
    OpenSource,
    /// The temporary file has to be created.
    CreateTemporary,
    /// The local file has to be copied into the temporary file.
    Copy,
    /// The temporary file has to be flushed.
    Flush,
    /// The temporary file has to be closed.
    Close,
    /// Whether there is a destination to replace has to be asked.
    CheckDestination,
    /// The destination has to go.
    RemoveDestination,
    /// The temporary file has to be given the name of the destination.
    Rename,
    /// The destination has been replaced.
    Complete,
}

/// How the temporary file of an upload is opened.
pub open spec fn upload_mode() -> OpenMode {
    OpenMode { create: true, truncate: true, write: true }
}

/// The directories that an upload to `dest` needs.
pub open spec fn upload_directories(dest: Seq<char>) -> Seq<Seq<char>> {
    match parent_of(dest) {
        Some(parent) => directories(parent),
        None => Seq::empty(),
    }
}

/// An upload over SFTP under way.
#[verifier::ext_equal]
pub struct SftpUploadRun {
    pub src: Seq<char>,
    pub dest: Seq<char>,
    pub directories: DirectoryRun,
    pub stage: SftpUploadStage,
}

impl SftpUploadRun {
    /// An upload that has not been started.
    pub open spec fn fresh(src: Seq<char>, dest: Seq<char>) -> SftpUploadRun {
        SftpUploadRun {
            src,
            dest,
            directories: DirectoryRun::fresh(upload_directories(dest)),
            stage: if upload_directories(dest).len() == 0 {
                SftpUploadStage::CheckTemporary
            } else {
                SftpUploadStage::Directories
            },
        }
    }

    /// What to do next.
    pub open spec fn step(self) -> SftpStep {
        let temporary = temporary_of(self.dest);
        match self.stage {
            SftpUploadStage::Directories => self.directories.step(),
            SftpUploadStage::CheckTemporary => SftpStep::CheckExists(temporary),
            SftpUploadStage::RemoveTemporary => SftpStep::RemoveFile(temporary),
            SftpUploadStage::OpenSource => SftpStep::OpenSource(self.src),
            SftpUploadStage::CreateTemporary => SftpStep::CreateFile {
                path: temporary,
                mode: upload_mode(),
            },
            SftpUploadStage::Copy => SftpStep::Copy { from: self.src, to: temporary },
            SftpUploadStage::Flush => SftpStep::Flush(temporary),
            SftpUploadStage::Close => SftpStep::Close(temporary),
            SftpUploadStage::CheckDestination => SftpStep::CheckExists(self.dest),
            SftpUploadStage::RemoveDestination => SftpStep::RemoveFile(self.dest),
            SftpUploadStage::Rename => SftpStep::Rename { from: temporary, to: self.dest },
            SftpUploadStage::Complete => SftpStep::Complete,
        }
    }

    /// The upload after the current step has succeeded, where `found` is the
    /// answer if it was a question.
    pub open spec fn advance(self, found: bool) -> SftpUploadRun {
        let stage = match self.stage {
            SftpUploadStage::Directories => if self.directories.advance(found).complete() {
                SftpUploadStage::CheckTemporary
            } else {
                SftpUploadStage::Directories
            },
            SftpUploadStage::CheckTemporary => if found {
                SftpUploadStage::RemoveTemporary
            } else {
                SftpUploadStage::OpenSource
            },
            SftpUploadStage::RemoveTemporary => SftpUploadStage::OpenSource,
            SftpUploadStage::OpenSource => SftpUploadStage::CreateTemporary,
            SftpUploadStage::CreateTemporary => SftpUploadStage::Copy,
            SftpUploadStage::Copy => SftpUploadStage::Flush,
            SftpUploadStage::Flush => SftpUploadStage::Close,
            SftpUploadStage::Close => SftpUploadStage::CheckDestination,
            SftpUploadStage::CheckDestination => if found {
                SftpUploadStage::RemoveDestination
            } else {
                SftpUploadStage::Rename
            },
            SftpUploadStage::RemoveDestination => SftpUploadStage::Rename,
            SftpUploadStage::Rename => SftpUploadStage::Complete,
            SftpUploadStage::Complete => SftpUploadStage::Complete,
        };
        SftpUploadRun {
            stage,
            directories: if self.stage is Directories {
                self.directories.advance(found)
            } else {
                self.directories
            },
            ..self
        }
    }

    /// The upload after as many steps as there are answers have succeeded.
    pub open spec fn advance_all(self, answers: Seq<bool>) -> SftpUploadRun
        decreases answers.len(),
    {
        if answers.len() == 0 {
            self
        } else {
            self.advance_all(answers.drop_last()).advance(answers.last())
        }
    }

    /// What a failure of the current step is put down to.
    pub open spec fn failure_text(self) -> Option<Seq<char>> {
        let temporary = temporary_of(self.dest);
        match self.stage {
            SftpUploadStage::Directories => self.directories.failure_text(),
            SftpUploadStage::CheckTemporary => Some("failed checking temporary file "@ + temporary),
            SftpUploadStage::RemoveTemporary => Some(
                "failed removing stale temporary file "@ + temporary,
            ),
            SftpUploadStage::OpenSource => Some("failed to open local file "@ + self.src),
            SftpUploadStage::CreateTemporary => Some(
                "failed creating remote temporary file "@ + temporary,
            ),
            SftpUploadStage::Copy => Some(
                "failed uploading "@ + self.src + " -> "@ + temporary,
            ),
            SftpUploadStage::Flush => Some("failed flushing "@ + temporary),
            SftpUploadStage::Close => Some("failed closing "@ + temporary),
            SftpUploadStage::CheckDestination => Some("failed checking destination "@ + self.dest),
            SftpUploadStage::RemoveDestination => Some(
                "failed removing destination "@ + self.dest,
            ),
            SftpUploadStage::Rename => Some(
                "failed renaming "@ + temporary + " -> "@ + self.dest,
            ),
            SftpUploadStage::Complete => None,
        }
    }
}

/// Drives the upload of one file over SFTP.
#[derive(Debug)]
pub struct SftpUpload {
    src: String,
    dest: String,
    temporary: String,
    directories: DirectoryPlan,
    stage: SftpUploadStage,
}

impl View for SftpUpload {
    type V = SftpUploadRun;

    closed spec fn view(&self) -> SftpUploadRun {
        SftpUploadRun {
            src: self.src@,
            dest: self.dest@,
            directories: self.directories@,
            stage: self.stage,
        }
    }
}

impl SftpUpload {
    #[verifier::type_invariant]
    closed spec fn temporary_is_named_after_destination(self) -> bool {
        self.temporary@ == temporary_of(self.dest@)
    }

    /// An upload of the local file `src` to `dest` that is yet to be started.
    pub fn new(src: &str, dest: &str) -> (res: SftpUpload)
        ensures
            res@ == SftpUploadRun::fresh(src@, dest@),
    {
        let directories = match remote_parent(dest) {
            Some(parent) => DirectoryPlan::new(parent),
            None => DirectoryPlan::empty(),
        };
        let stage = if directories.complete() {
            SftpUploadStage::CheckTemporary
        } else {
            SftpUploadStage::Directories
        };
        SftpUpload {
            src: src.to_owned(),
            dest: dest.to_owned(),
            temporary: temporary_path(dest),
            directories,
            stage,
        }
    }

    /// What to do next.
    pub fn action(&self) -> (res: SftpAction)
        ensures
            res@ == self@.step(),
    {
        proof {
            use_type_invariant(self);
        }
        match self.stage {
            SftpUploadStage::Directories => self.directories.action(),
            SftpUploadStage::CheckTemporary => SftpAction::CheckExists(self.temporary.clone()),
            SftpUploadStage::RemoveTemporary => SftpAction::RemoveFile(self.temporary.clone()),
            SftpUploadStage::OpenSource => SftpAction::OpenSource(self.src.clone()),
            SftpUploadStage::CreateTemporary => SftpAction::CreateFile {
                path: self.temporary.clone(),
                mode: OpenMode { create: true, truncate: true, write: true },
            },
            SftpUploadStage::Copy => SftpAction::Copy {
                from: self.src.clone(),
                to: self.temporary.clone(),
            },
            SftpUploadStage::Flush => SftpAction::Flush(self.temporary.clone()),
            SftpUploadStage::Close => SftpAction::Close(self.temporary.clone()),
            SftpUploadStage::CheckDestination => SftpAction::CheckExists(self.dest.clone()),
            SftpUploadStage::RemoveDestination => SftpAction::RemoveFile(self.dest.clone()),
            SftpUploadStage::Rename => SftpAction::Rename {
                from: self.temporary.clone(),
                to: self.dest.clone(),
            },
            SftpUploadStage::Complete => SftpAction::Complete,
        }
    }

    /// The current step has succeeded; `found` is the answer if it was a
    /// question.
    pub fn advance(&mut self, found: bool)
        ensures
            final(self)@ == old(self)@.advance(found),
    {
        proof {
            use_type_invariant(&*self);
        }
        if self.stage == SftpUploadStage::Directories {
            let mut directories = DirectoryPlan::empty();
            std::mem::swap(&mut directories, &mut self.directories);
            directories.advance(found);
            if directories.complete() {
                self.stage = SftpUploadStage::CheckTemporary;
            }
            self.directories = directories;
            return;
        }
        self.stage = match self.stage {
            SftpUploadStage::CheckTemporary => if found {
                SftpUploadStage::RemoveTemporary
            } else {
                SftpUploadStage::OpenSource
            },
            SftpUploadStage::RemoveTemporary => SftpUploadStage::OpenSource,
            SftpUploadStage::OpenSource => SftpUploadStage::CreateTemporary,
            SftpUploadStage::CreateTemporary => SftpUploadStage::Copy,
            SftpUploadStage::Copy => SftpUploadStage::Flush,
            SftpUploadStage::Flush => SftpUploadStage::Close,
            SftpUploadStage::Close => SftpUploadStage::CheckDestination,
            SftpUploadStage::CheckDestination => if found {
                SftpUploadStage::RemoveDestination
            } else {
                SftpUploadStage::Rename
            },
            SftpUploadStage::RemoveDestination => SftpUploadStage::Rename,
            SftpUploadStage::Rename => SftpUploadStage::Complete,
            stage => stage,
        };
    }

    /// What a failure of the current step is put down to.
    pub fn failure(&self) -> (res: Option<String>)
        ensures
            match res {
                Some(text) => self@.failure_text() == Some(text@),
                None => self@.failure_text() is None,
            },
    {
        proof {
            use_type_invariant(self);
        }
        let src = self.src.as_str();
        let dest = self.dest.as_str();
        let temporary = self.temporary.as_str();
        match self.stage {
            SftpUploadStage::Directories => self.directories.failure(),
            SftpUploadStage::CheckTemporary => Some(
                "failed checking temporary file ".to_owned().concat(temporary),
            ),
            SftpUploadStage::RemoveTemporary => Some(
                "failed removing stale temporary file ".to_owned().concat(temporary),
            ),
            SftpUploadStage::OpenSource => Some("failed to open local file ".to_owned().concat(src)),
            SftpUploadStage::CreateTemporary => Some(
                "failed creating remote temporary file ".to_owned().concat(temporary),
            ),
            SftpUploadStage::Copy => Some(
                "failed uploading ".to_owned().concat(src).concat(" -> ").concat(temporary),
            ),
            SftpUploadStage::Flush => Some("failed flushing ".to_owned().concat(temporary)),
            SftpUploadStage::Close => Some("failed closing ".to_owned().concat(temporary)),
            SftpUploadStage::CheckDestination => Some(
                "failed checking destination ".to_owned().concat(dest),
            ),
            SftpUploadStage::RemoveDestination => Some(
                "failed removing destination ".to_owned().concat(dest),
            ),
            SftpUploadStage::Rename => Some(
                "failed renaming ".to_owned().concat(temporary).concat(" -> ").concat(dest),
            ),
            SftpUploadStage::Complete => None,
        }
    }
}

/// The steps that an upload has taken, as many as there are answers.
pub open spec fn steps_taken(run: SftpUploadRun, answers: Seq<bool>) -> Seq<SftpStep>
    decreases answers.len(),
{
    if answers.len() == 0 {
        Seq::empty()
    } else {
        let before = answers.drop_last();
        steps_taken(run, before).push(run.advance_all(before).step())
    }
}

/// Whether a step changes what stands under `path` on the remote host.
pub open spec fn changes(step: SftpStep, path: Seq<char>) -> bool {
    match step {
        SftpStep::CreateDirectory(p) => p == path,
        SftpStep::RemoveFile(p) => p == path,
        SftpStep::CreateFile { path: p, .. } => p == path,
        SftpStep::Copy { from, to } => to == path,
        SftpStep::Rename { from, to } => from == path || to == path,
        _ => false,
    }
}

/// Whether the first `n` of `steps` hold the whole upload of `src` to
/// `temporary`: the copy, then the flush, then the close.
pub open spec fn uploaded_within(
    steps: Seq<SftpStep>,
    n: int,
    src: Seq<char>,
    temporary: Seq<char>,
) -> bool {
    exists|copy: int, flush: int, close: int|
        0 <= copy < flush < close < n <= steps.len()
            && #[trigger] steps[copy] == (SftpStep::Copy { from: src, to: temporary })
            && #[trigger] steps[flush] == SftpStep::Flush(temporary)
            && #[trigger] steps[close] == SftpStep::Close(temporary)
}

/// No directory that an upload needs has the name of its destination or of the
/// temporary file.
pub proof fn directories_are_not_the_destination(dest: Seq<char>, k: int)
    requires
        0 <= k < upload_directories(dest).len(),
    ensures
        upload_directories(dest)[k].len() < dest.len(),
        upload_directories(dest)[k] != dest,
        upload_directories(dest)[k] != temporary_of(dest),
{
    reveal_strlit("/");
    reveal_strlit(".tmp");
    parent_stands_before_the_last_slash(dest);
    let parent = parent_of(dest)->0;
    directories_are_no_longer(parent, k);
    if parent == "/"@ {
        root_has_no_directories(parent);
    }
}

proof fn root_has_no_directories(path: Seq<char>)
    requires
        path == "/"@,
    ensures
        directories(path).len() == 0,
{
    reveal_strlit("/");
    assert(path == seq!['/']);
    assert(path.drop_last() == Seq::<char>::empty());
    reveal_with_fuel(pieces, 3);
    let all = pieces(path);
    assert(all == seq![Seq::<char>::empty(), Seq::<char>::empty()]);
    reveal(Seq::filter);
    reveal_with_fuel(Seq::filter, 3);
    assert(all.drop_last().drop_last() == Seq::<Seq<char>>::empty());
}

spec fn order(stage: SftpUploadStage) -> int {
    match stage {
        SftpUploadStage::Directories => 0,
        SftpUploadStage::CheckTemporary => 1,
        SftpUploadStage::RemoveTemporary => 2,
        SftpUploadStage::OpenSource => 3,
        SftpUploadStage::CreateTemporary => 4,
        SftpUploadStage::Copy => 5,
        SftpUploadStage::Flush => 6,
        SftpUploadStage::Close => 7,
        SftpUploadStage::CheckDestination => 8,
        SftpUploadStage::RemoveDestination => 9,
        SftpUploadStage::Rename => 10,
        SftpUploadStage::Complete => 11,
    }
}

/// What holds of an upload throughout: its paths stay, and its directories stay
/// within bounds.
pub(crate) proof fn upload_keeps_its_paths(src: Seq<char>, dest: Seq<char>, answers: Seq<bool>)
    ensures
        ({
            let run = SftpUploadRun::fresh(src, dest).advance_all(answers);
            &&& run.src == src
            &&& run.dest == dest
            &&& run.directories.directories == upload_directories(dest)
            &&& 0 <= run.directories.done <= upload_directories(dest).len()
            &&& run.stage is Directories <==> !run.directories.complete()
        }),
    decreases answers.len(),
{
    if answers.len() > 0 {
        upload_keeps_its_paths(src, dest, answers.drop_last());
    }
}

/// How far the upload proper has come, as indices of the steps taken.
spec fn copied_at(steps: Seq<SftpStep>, stage: SftpUploadStage, src: Seq<char>, temporary: Seq<char>) -> bool {
    &&& order(stage) == 6 ==> exists|copy: int|
        0 <= copy < steps.len() && #[trigger] steps[copy] == (SftpStep::Copy { from: src, to: temporary })
    &&& order(stage) == 7 ==> exists|copy: int, flush: int|
        0 <= copy < flush < steps.len() && #[trigger] steps[copy] == (SftpStep::Copy {
            from: src,
            to: temporary,
        }) && #[trigger] steps[flush] == SftpStep::Flush(temporary)
    &&& order(stage) >= 8 ==> uploaded_within(steps, steps.len() as int, src, temporary)
}

proof fn upload_comes_first(src: Seq<char>, dest: Seq<char>, answers: Seq<bool>)
    ensures
        ({
            let steps = steps_taken(SftpUploadRun::fresh(src, dest), answers);
            let stage = SftpUploadRun::fresh(src, dest).advance_all(answers).stage;
            &&& steps.len() == answers.len()
            &&& copied_at(steps, stage, src, temporary_of(dest))
            &&& forall|i: int|
                0 <= i < steps.len() && #[trigger] changes(steps[i], dest) ==> uploaded_within(
                    steps,
                    i,
                    src,
                    temporary_of(dest),
                )
        }),
    decreases answers.len(),
{
    let fresh = SftpUploadRun::fresh(src, dest);
    let temporary = temporary_of(dest);
    let steps = steps_taken(fresh, answers);
    if answers.len() > 0 {
        let before = answers.drop_last();
        upload_comes_first(src, dest, before);
        upload_keeps_its_paths(src, dest, before);
        let earlier = steps_taken(fresh, before);
        let run = fresh.advance_all(before);
        let after = fresh.advance_all(answers);
        let n = earlier.len() as int;
        assert(forall|i: int| 0 <= i < n ==> #[trigger] steps[i] == earlier[i]);
        if order(run.stage) == 5 {
            assert(steps[n] == (SftpStep::Copy { from: src, to: temporary }));
        } else if order(run.stage) == 6 {
            let copy = choose|copy: int|
                0 <= copy < n && #[trigger] earlier[copy] == (SftpStep::Copy { from: src, to: temporary });
            assert(steps[copy] == earlier[copy]);
            assert(steps[n] == SftpStep::Flush(temporary));
        } else if order(run.stage) == 7 {
            let (copy, flush) = choose|copy: int, flush: int|
                0 <= copy < flush < n && #[trigger] earlier[copy] == (SftpStep::Copy {
                    from: src,
                    to: temporary,
                }) && #[trigger] earlier[flush] == SftpStep::Flush(temporary);
            assert(steps[copy] == earlier[copy]);
            assert(steps[flush] == earlier[flush]);
            assert(steps[n] == SftpStep::Close(temporary));
        } else if order(run.stage) >= 8 {
            uploaded_stays(earlier, steps, n, n, src, temporary);
            uploaded_stays(earlier, steps, n, n + 1, src, temporary);
        }
        assert forall|i: int| 0 <= i < steps.len() && #[trigger] changes(steps[i], dest) implies uploaded_within(
            steps,
            i,
            src,
            temporary,
        ) by {
            if i < n {
                assert(changes(earlier[i], dest));
                uploaded_stays(earlier, steps, i, i, src, temporary);
            } else {
                temporary_is_not_the_destination(dest);
                if run.stage is Directories {
                    directories_are_not_the_destination(dest, run.directories.done);
                }
                assert(order(run.stage) >= 8);
            }
        }
    }
}

proof fn uploaded_stays(
    earlier: Seq<SftpStep>,
    steps: Seq<SftpStep>,
    n: int,
    m: int,
    src: Seq<char>,
    temporary: Seq<char>,
)
    requires
        uploaded_within(earlier, n, src, temporary),
        n <= m <= steps.len(),
        earlier.len() <= steps.len(),
        forall|i: int| 0 <= i < earlier.len() ==> #[trigger] steps[i] == earlier[i],
    ensures
        uploaded_within(steps, m, src, temporary),
{
    let (copy, flush, close) = choose|copy: int, flush: int, close: int|
        0 <= copy < flush < close < n <= earlier.len()
            && #[trigger] earlier[copy] == (SftpStep::Copy { from: src, to: temporary })
            && #[trigger] earlier[flush] == SftpStep::Flush(temporary)
            && #[trigger] earlier[close] == SftpStep::Close(temporary);
    assert(steps[copy] == earlier[copy]);
    assert(steps[flush] == earlier[flush]);
    assert(steps[close] == earlier[close]);
}

/// Whatever the remote host answers, no step changes the destination before the
/// local file has been copied, flushed and closed under the temporary name.
pub proof fn destination_changes_only_after_a_complete_upload(
    src: Seq<char>,
    dest: Seq<char>,
    answers: Seq<bool>,
    i: int,
)
    requires
        0 <= i < answers.len(),
        changes(steps_taken(SftpUploadRun::fresh(src, dest), answers)[i], dest),
    ensures
        uploaded_within(
            steps_taken(SftpUploadRun::fresh(src, dest), answers),
            i,
            src,
            temporary_of(dest),
        ),
{
    upload_comes_first(src, dest, answers);
}

spec fn steps_left(run: SftpUploadRun) -> int {
    match run.stage {
        SftpUploadStage::Directories => 10 + 2 * (run.directories.directories.len()
            - run.directories.done) - if run.directories.missing {
            1int
        } else {
            0
        },
        _ => 11 - order(run.stage),
    }
}

/// An upload to a destination that needs `n` directories is complete after at
/// most `2 * n + 10` successful steps, whatever the answers.
pub proof fn upload_ends(src: Seq<char>, dest: Seq<char>, answers: Seq<bool>)
    requires
        answers.len() >= 2 * upload_directories(dest).len() + 10,
    ensures
        SftpUploadRun::fresh(src, dest).advance_all(answers).stage is Complete,
{
    steps_run_out(src, dest, answers);
}

proof fn steps_run_out(src: Seq<char>, dest: Seq<char>, answers: Seq<bool>)
    ensures
        ({
            let left = steps_left(SftpUploadRun::fresh(src, dest).advance_all(answers));
            0 <= left && (left == 0 || left + answers.len() <= 2 * upload_directories(dest).len() + 10)
        }),
        steps_left(SftpUploadRun::fresh(src, dest).advance_all(answers)) == 0
            ==> SftpUploadRun::fresh(src, dest).advance_all(answers).stage is Complete,
    decreases answers.len(),
{
    upload_keeps_its_paths(src, dest, answers);
    if answers.len() > 0 {
        upload_keeps_its_paths(src, dest, answers.drop_last());
        steps_run_out(src, dest, answers.drop_last());
    }
}

/// An upload needs the directories of what stands before the name of its
/// destination, and none where nothing does.
pub proof fn upload_needs_what_its_name_lies_in(dir: Seq<char>, name: Seq<char>)
    requires
        !name.contains('/'),
    ensures
        upload_directories(dir.push('/') + name) == directories(dir),
        upload_directories(name).len() == 0,
{
    parent_is_what_the_name_lies_in(dir, name);
    if dir.len() == 0 {
        spelling_does_not_change_the_directories(dir, name);
        assert(dir.push('/') == seq!['/']);
    }
}

/// The step that comes once the directory of number `k` is known to be there: the
/// question for the next one, or for the temporary file after the last.
pub open spec fn question_after(dest: Seq<char>, k: int) -> SftpStep {
    if k + 1 < upload_directories(dest).len() {
        SftpStep::CheckExists(upload_directories(dest)[k + 1])
    } else {
        SftpStep::CheckExists(temporary_of(dest))
    }
}

/// What is done in an upload from `src` to `dest`, step by step, whatever the remote
/// host answers. Each directory is asked for in its turn, and created where it is
/// missing. A leftover under the temporary name is removed. Then `src` is opened, the
/// temporary file is created anew for writing, `src` is copied into it, and it is
/// flushed and closed. Then the destination is removed, if it is there, and the
/// temporary file takes its name. Nothing comes after that.
pub proof fn each_step_follows_from_the_last(
    src: Seq<char>,
    dest: Seq<char>,
    answers: Seq<bool>,
    found: bool,
)
    ensures
        SftpUploadRun::fresh(src, dest).step() == question_after(dest, -1),
        ({
            let fresh = SftpUploadRun::fresh(src, dest);
            let temporary = temporary_of(dest);
            let now = fresh.advance_all(answers).step();
            let next = fresh.advance_all(answers.push(found)).step();
            match now {
                SftpStep::CheckExists(path) => if path == temporary {
                    next == if found {
                        SftpStep::RemoveFile(temporary)
                    } else {
                        SftpStep::OpenSource(src)
                    }
                } else if path == dest {
                    next == if found {
                        SftpStep::RemoveFile(dest)
                    } else {
                        SftpStep::Rename { from: temporary, to: dest }
                    }
                } else {
                    exists|k: int|
                        0 <= k < upload_directories(dest).len() && path
                            == #[trigger] upload_directories(dest)[k] && next == if found {
                            question_after(dest, k)
                        } else {
                            SftpStep::CreateDirectory(path)
                        }
                },
                SftpStep::CreateDirectory(path) => exists|k: int|
                    0 <= k < upload_directories(dest).len() && path
                        == #[trigger] upload_directories(dest)[k] && next == question_after(
                        dest,
                        k,
                    ),
                SftpStep::RemoveFile(path) => {
                    ||| path == temporary && next == SftpStep::OpenSource(src)
                    ||| path == dest && next == (SftpStep::Rename { from: temporary, to: dest })
                },
                SftpStep::OpenSource(path) => {
                    &&& path == src
                    &&& next matches SftpStep::CreateFile { path, mode }
                    &&& path == temporary
                    &&& mode.create && mode.truncate && mode.write
                },
                SftpStep::CreateFile { path, .. } => path == temporary && next == (SftpStep::Copy {
                    from: src,
                    to: temporary,
                }),
                SftpStep::Copy { from, to } => from == src && to == temporary && next
                    == SftpStep::Flush(temporary),
                SftpStep::Flush(path) => path == temporary && next == SftpStep::Close(temporary),
                SftpStep::Close(path) => path == temporary && next == SftpStep::CheckExists(dest),
                SftpStep::Rename { from, to } => from == temporary && to == dest
                    && next is Complete,
                SftpStep::OpenFile(_) => false,
                SftpStep::Read { .. } => false,
                SftpStep::Complete => next is Complete,
            }
        }),
{
    let fresh = SftpUploadRun::fresh(src, dest);
    let run = fresh.advance_all(answers);
    upload_keeps_its_paths(src, dest, answers);
    upload_keeps_its_paths(src, dest, answers.push(found));
    temporary_is_not_the_destination(dest);
    assert(answers.push(found).drop_last() == answers);
    if run.stage is Directories {
        directories_are_not_the_destination(dest, run.directories.done);
        assert(run.directories.directories[run.directories.done] == upload_directories(
            dest,
        )[run.directories.done]);
    }
}

/// Of all local files, an upload opens `src` and no other, and it has opened it before
/// anything is copied.
pub proof fn only_the_source_is_opened(src: Seq<char>, dest: Seq<char>, answers: Seq<bool>)
    ensures
        ({
            let steps = steps_taken(SftpUploadRun::fresh(src, dest), answers);
            &&& steps.len() == answers.len()
            &&& forall|i: int|
                0 <= i < steps.len() ==> (#[trigger] steps[i] matches SftpStep::OpenSource(path) ==> path
                    == src)
            &&& forall|i: int|
                0 <= i < steps.len() && #[trigger] steps[i] is Copy ==> exists|j: int|
                    0 <= j < i && #[trigger] steps[j] == SftpStep::OpenSource(src)
        }),
{
    source_is_open_from_then_on(src, dest, answers);
}

proof fn source_is_open_from_then_on(src: Seq<char>, dest: Seq<char>, answers: Seq<bool>)
    ensures
        ({
            let steps = steps_taken(SftpUploadRun::fresh(src, dest), answers);
            let stage = SftpUploadRun::fresh(src, dest).advance_all(answers).stage;
            &&& steps.len() == answers.len()
            &&& order(stage) > 3 ==> exists|j: int|
                0 <= j < steps.len() && #[trigger] steps[j] == SftpStep::OpenSource(src)
            &&& forall|i: int|
                0 <= i < steps.len() ==> (#[trigger] steps[i] matches SftpStep::OpenSource(path) ==> path
                    == src)
            &&& forall|i: int|
                0 <= i < steps.len() && #[trigger] steps[i] is Copy ==> exists|j: int|
                    0 <= j < i && #[trigger] steps[j] == SftpStep::OpenSource(src)
        }),
    decreases answers.len(),
{
    let fresh = SftpUploadRun::fresh(src, dest);
    let steps = steps_taken(fresh, answers);
    if answers.len() > 0 {
        let before = answers.drop_last();
        source_is_open_from_then_on(src, dest, before);
        upload_keeps_its_paths(src, dest, before);
        let earlier = steps_taken(fresh, before);
        let run = fresh.advance_all(before);
        let n = earlier.len() as int;
        assert(forall|i: int| 0 <= i < n ==> #[trigger] steps[i] == earlier[i]);
        assert(steps[n] == run.step());
        if order(run.stage) > 3 {
            let j = choose|j: int| 0 <= j < n && #[trigger] earlier[j] == SftpStep::OpenSource(src);
            assert(steps[j] == SftpStep::OpenSource(src));
        }
        assert forall|i: int| 0 <= i < steps.len() && #[trigger] steps[i] is Copy implies exists|j: int|
            0 <= j < i && #[trigger] steps[j] == SftpStep::OpenSource(src) by {
            if i < n {
                assert(earlier[i] is Copy);
                let j = choose|j: int| 0 <= j < i && #[trigger] earlier[j] == SftpStep::OpenSource(src);
                assert(steps[j] == SftpStep::OpenSource(src));
            } else {
                assert(order(run.stage) > 3);
            }
        }
    }
}

/// What a failure of an upload is put down to names what was to be done: the path of
/// the step, and both paths where there are two.
pub proof fn upload_failures_name_the_step(src: Seq<char>, dest: Seq<char>, answers: Seq<bool>)
    ensures
        ({
            let run = SftpUploadRun::fresh(src, dest).advance_all(answers);
            let told = run.failure_text();
            match run.step() {
                SftpStep::CheckExists(path) => told == Some(
                    if path == temporary_of(dest) {
                        "failed checking temporary file "@
                    } else if path == dest {
                        "failed checking destination "@
                    } else {
                        "failed checking remote directory "@
                    } + path,
                ),
                SftpStep::CreateDirectory(path) => told == Some(
                    "failed creating remote directory "@ + path,
                ),
                SftpStep::RemoveFile(path) => told == Some(
                    if path == dest {
                        "failed removing destination "@
                    } else {
                        "failed removing stale temporary file "@
                    } + path,
                ),
                SftpStep::OpenSource(path) => told == Some("failed to open local file "@ + path),
                SftpStep::CreateFile { path, .. } => told == Some(
                    "failed creating remote temporary file "@ + path,
                ),
                SftpStep::Copy { from, to } => told == Some(
                    "failed uploading "@ + from + " -> "@ + to,
                ),
                SftpStep::Flush(path) => told == Some("failed flushing "@ + path),
                SftpStep::Close(path) => told == Some("failed closing "@ + path),
                SftpStep::Rename { from, to } => told == Some(
                    "failed renaming "@ + from + " -> "@ + to,
                ),
                _ => told is None,
            }
        }),
{
    let run = SftpUploadRun::fresh(src, dest).advance_all(answers);
    upload_keeps_its_paths(src, dest, answers);
    temporary_is_not_the_destination(dest);
    if run.stage is Directories {
        directories_are_not_the_destination(dest, run.directories.done);
    }
}

} // verus!
