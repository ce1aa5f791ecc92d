//! What an upload over SFTP does to the files of a remote host, where every step
//! succeeds and does what its name says.

use vstd::prelude::*;

use crate::directories::DirectoryRun;
use crate::path::directories;
use crate::path::directories_are_the_leading_parts;
use crate::path::is_plain;
use crate::path::temporary_is_not_the_destination;
use crate::path::temporary_of;
use crate::sftp::OpenMode;
use crate::sftp::SftpStep;
use crate::sftp_upload::directories_are_not_the_destination;
use crate::sftp_upload::upload_directories;
use crate::sftp_upload::upload_ends;
use crate::sftp_upload::upload_keeps_its_paths;
use crate::sftp_upload::SftpUploadRun;
use crate::sftp_upload::SftpUploadStage;

verus! {

/// What stands under a name on a remote host.
pub enum Entry {
    Directory,
    File(Seq<u8>),
}

/// The names on a remote host. Different names are taken for different files, so
/// that `a/b` and `a/./b` have nothing to do with each other here.
pub type Tree = Map<Seq<char>, Entry>;

/// The tree after a step, where `content` is that of the local file.
pub open spec fn perform(tree: Tree, step: SftpStep, content: Seq<u8>) -> Tree {
    match step {
        SftpStep::CreateDirectory(path) => tree.insert(path, Entry::Directory),
        SftpStep::RemoveFile(path) => tree.remove(path),
        SftpStep::CreateFile { path, mode } => if mode.truncate || !tree.dom().contains(path) {
            tree.insert(path, Entry::File(Seq::empty()))
        } else {
            tree
        },
        SftpStep::Copy { from, to } => tree.insert(to, Entry::File(content)),
        SftpStep::Rename { from, to } => tree.remove(from).insert(to, tree[from]),
        _ => tree,
    }
}

/// What the host answers to a step: whether the name that it asks for is there.
pub open spec fn answer(tree: Tree, step: SftpStep) -> bool {
    match step {
        SftpStep::CheckExists(path) => tree.dom().contains(path),
        _ => true,
    }
}

/// The answers to the first `n` steps of an upload, and the tree after them.
pub open spec fn replay(run: SftpUploadRun, tree: Tree, content: Seq<u8>, n: nat) -> (Seq<bool>, Tree)
    decreases n,
{
    if n == 0 {
        (Seq::empty(), tree)
    } else {
        let (answers, now) = replay(run, tree, content, (n - 1) as nat);
        let step = run.advance_all(answers).step();
        (answers.push(answer(now, step)), perform(now, step, content))
    }
}

/// `tree` with the first `k` of `directories` made where nothing had the name.
pub open spec fn with_directories(tree: Tree, directories: Seq<Seq<char>>, k: int) -> Tree
    decreases k,
{
    if k <= 0 {
        tree
    } else {
        let before = with_directories(tree, directories, k - 1);
        if before.dom().contains(directories[k - 1]) {
            before
        } else {
            before.insert(directories[k - 1], Entry::Directory)
        }
    }
}

/// Making directories makes them all, and nothing else: what had a name before
/// keeps it.
pub proof fn directories_are_made(tree: Tree, directories: Seq<Seq<char>>, k: int)
    requires
        0 <= k <= directories.len(),
    ensures
        forall|i: int|
            0 <= i < k ==> with_directories(tree, directories, k).dom().contains(
                #[trigger] directories[i],
            ),
        forall|path: Seq<char>| #[trigger]
            tree.dom().contains(path) ==> with_directories(tree, directories, k).dom().contains(path)
                && with_directories(tree, directories, k)[path] == tree[path],
        forall|path: Seq<char>| #[trigger]
            with_directories(tree, directories, k).dom().contains(path) ==> tree.dom().contains(path)
                || directories.contains(path),
    decreases k,
{
    if k > 0 {
        directories_are_made(tree, directories, k - 1);
        assert(directories.contains(directories[k - 1]));
        let before = with_directories(tree, directories, k - 1);
        let after = with_directories(tree, directories, k);
        assert forall|path: Seq<char>| #[trigger] after.dom().contains(path) implies tree.dom().contains(
            path,
        ) || directories.contains(path) by {
            if path != directories[k - 1] {
                assert(before.dom().contains(path));
            }
        }
    }
}

/// The creation of directories after `n` steps that all succeed, and the tree after
/// them.
pub open spec fn make_directories(run: DirectoryRun, tree: Tree, n: nat) -> (DirectoryRun, Tree)
    decreases n,
{
    if n == 0 {
        (run, tree)
    } else {
        let (before, now) = make_directories(run, tree, (n - 1) as nat);
        let step = before.step();
        (before.advance(answer(now, step)), perform(now, step, Seq::empty()))
    }
}

proof fn directories_follow_the_tree(names: Seq<Seq<char>>, tree: Tree, n: nat)
    ensures
        ({
            let (run, now) = make_directories(DirectoryRun::fresh(names), tree, n);
            &&& run.directories == names
            &&& 0 <= run.done <= names.len()
            &&& now == with_directories(tree, names, run.done)
            &&& run.missing ==> !run.complete() && !now.dom().contains(names[run.done])
            &&& run.complete() || 2 * run.done + (if run.missing {
                1int
            } else {
                0
            }) >= n
        }),
    decreases n,
{
    if n > 0 {
        directories_follow_the_tree(names, tree, (n - 1) as nat);
    }
}

/// A pass over directories, in which every step succeeds, is complete after at most
/// two steps for each, and has then made all that were missing and nothing else.
pub proof fn pass_makes_the_directories(names: Seq<Seq<char>>, tree: Tree, n: nat)
    requires
        n >= 2 * names.len(),
    ensures
        ({
            let (run, now) = make_directories(DirectoryRun::fresh(names), tree, n);
            run.complete() && now == with_directories(tree, names, names.len() as int)
        }),
{
    directories_follow_the_tree(names, tree, n);
}

/// A second pass over the same directories creates nothing: each is found, and the
/// tree stays as the first pass has left it.
pub proof fn second_pass_creates_nothing(names: Seq<Seq<char>>, tree: Tree, n: nat)
    ensures
        ({
            let first = with_directories(tree, names, names.len() as int);
            let (run, now) = make_directories(DirectoryRun::fresh(names), first, n);
            &&& now == first
            &&& !(run.step() is CreateDirectory)
            &&& n >= names.len() ==> run.complete()
        }),
{
    let first = with_directories(tree, names, names.len() as int);
    directories_are_made(tree, names, names.len() as int);
    pass_finds_what_is_there(names, first, n);
}

proof fn pass_finds_what_is_there(names: Seq<Seq<char>>, tree: Tree, n: nat)
    requires
        forall|i: int| 0 <= i < names.len() ==> tree.dom().contains(#[trigger] names[i]),
    ensures
        make_directories(DirectoryRun::fresh(names), tree, n) == (
            DirectoryRun {
                directories: names,
                done: if n < names.len() {
                    n as int
                } else {
                    names.len() as int
                },
                missing: false,
            },
            tree,
        ),
    decreases n,
{
    if n > 0 {
        pass_finds_what_is_there(names, tree, (n - 1) as nat);
    }
}

/// The tree when an upload has come to `stage`.
spec fn tree_at(made: Tree, dest: Seq<char>, content: Seq<u8>, stage: SftpUploadStage) -> Tree {
    let temporary = temporary_of(dest);
    match stage {
        SftpUploadStage::Directories => made,
        SftpUploadStage::CheckTemporary => made,
        SftpUploadStage::RemoveTemporary => made,
        SftpUploadStage::OpenSource => made.remove(temporary),
        SftpUploadStage::CreateTemporary => made.remove(temporary),
        SftpUploadStage::Copy => made.insert(temporary, Entry::File(Seq::empty())),
        SftpUploadStage::Flush => made.insert(temporary, Entry::File(content)),
        SftpUploadStage::Close => made.insert(temporary, Entry::File(content)),
        SftpUploadStage::CheckDestination => made.insert(temporary, Entry::File(content)),
        SftpUploadStage::RemoveDestination => made.insert(temporary, Entry::File(content)),
        SftpUploadStage::Rename => made.insert(temporary, Entry::File(content)).remove(dest),
        SftpUploadStage::Complete => made.remove(temporary).insert(dest, Entry::File(content)),
    }
}

proof fn tree_follows_the_stage(src: Seq<char>, dest: Seq<char>, tree: Tree, content: Seq<u8>, n: nat)
    ensures
        ({
            let fresh = SftpUploadRun::fresh(src, dest);
            let (answers, now) = replay(fresh, tree, content, n);
            let run = fresh.advance_all(answers);
            let made = with_directories(tree, upload_directories(dest), run.directories.done);
            &&& answers.len() == n
            &&& now == tree_at(made, dest, content, run.stage)
            &&& run.directories.missing ==> run.stage is Directories && !made.dom().contains(
                upload_directories(dest)[run.directories.done],
            )
        }),
    decreases n,
{
    let fresh = SftpUploadRun::fresh(src, dest);
    if n > 0 {
        let m = (n - 1) as nat;
        tree_follows_the_stage(src, dest, tree, content, m);
        let (earlier, before) = replay(fresh, tree, content, m);
        let (answers, now) = replay(fresh, tree, content, n);
        assert(answers.drop_last() == earlier);
        upload_keeps_its_paths(src, dest, earlier);
        upload_keeps_its_paths(src, dest, answers);
        temporary_is_not_the_destination(dest);
        let run = fresh.advance_all(earlier);
        let after = fresh.advance_all(answers);
        let made = with_directories(tree, upload_directories(dest), after.directories.done);
        if !(run.stage is Directories) {
            let temporary = temporary_of(dest);
            assert(now =~= tree_at(made, dest, content, after.stage));
        }
    }
}

/// An upload in which every step succeeds ends, and then the content of the local
/// file is at the destination and the temporary file is gone. The directories of
/// the destination have been made where they were missing; nothing else has
/// changed.
pub proof fn upload_puts_the_content_in_place(
    src: Seq<char>,
    dest: Seq<char>,
    tree: Tree,
    content: Seq<u8>,
    n: nat,
)
    requires
        n >= 2 * upload_directories(dest).len() + 10,
    ensures
        SftpUploadRun::fresh(src, dest).advance_all(
            replay(SftpUploadRun::fresh(src, dest), tree, content, n).0,
        ).stage is Complete,
        replay(SftpUploadRun::fresh(src, dest), tree, content, n).1 == with_directories(
            tree,
            upload_directories(dest),
            upload_directories(dest).len() as int,
        ).remove(temporary_of(dest)).insert(dest, Entry::File(content)),
{
    let fresh = SftpUploadRun::fresh(src, dest);
    let (answers, now) = replay(fresh, tree, content, n);
    tree_follows_the_stage(src, dest, tree, content, n);
    upload_ends(src, dest, answers);
    upload_keeps_its_paths(src, dest, answers);
}

/// When an upload has come to the rename, the temporary file holds the whole content
/// and nothing has the name of the destination: this is what a failed rename leaves
/// behind.
pub proof fn failed_rename_leaves_the_content_under_the_temporary_name(
    src: Seq<char>,
    dest: Seq<char>,
    tree: Tree,
    content: Seq<u8>,
    n: nat,
)
    requires
        SftpUploadRun::fresh(src, dest).advance_all(
            replay(SftpUploadRun::fresh(src, dest), tree, content, n).0,
        ).stage is Rename,
    ensures
        ({
            let now = replay(SftpUploadRun::fresh(src, dest), tree, content, n).1;
            &&& now.dom().contains(temporary_of(dest))
            &&& now[temporary_of(dest)] == Entry::File(content)
            &&& !now.dom().contains(dest)
        }),
{
    tree_follows_the_stage(src, dest, tree, content, n);
    temporary_is_not_the_destination(dest);
}

/// Until an upload removes the destination to make room for the closed temporary
/// file, the destination is what it was: an upload that is interrupted before
/// that leaves it alone.
pub proof fn interrupted_upload_leaves_the_destination_alone(
    src: Seq<char>,
    dest: Seq<char>,
    tree: Tree,
    content: Seq<u8>,
    n: nat,
)
    requires
        ({
            let stage = SftpUploadRun::fresh(src, dest).advance_all(
                replay(SftpUploadRun::fresh(src, dest), tree, content, n).0,
            ).stage;
            !(stage is Rename || stage is Complete)
        }),
    ensures
        ({
            let now = replay(SftpUploadRun::fresh(src, dest), tree, content, n).1;
            &&& now.dom().contains(dest) <==> tree.dom().contains(dest)
            &&& tree.dom().contains(dest) ==> now[dest] == tree[dest]
        }),
{
    let fresh = SftpUploadRun::fresh(src, dest);
    let (answers, now) = replay(fresh, tree, content, n);
    let run = fresh.advance_all(answers);
    tree_follows_the_stage(src, dest, tree, content, n);
    upload_keeps_its_paths(src, dest, answers);
    temporary_is_not_the_destination(dest);
    directories_are_made(tree, upload_directories(dest), run.directories.done);
    if upload_directories(dest).contains(dest) {
        let k = choose|k: int| 0 <= k < upload_directories(dest).len() && upload_directories(dest)[k] == dest;
        directories_are_not_the_destination(dest, k);
    }
}

/// After a pass over the directories of a plainly spelled path, in which every step
/// succeeds, that path is there, and so is all that it lies in.
pub proof fn pass_makes_the_path(path: Seq<char>, tree: Tree, n: nat)
    requires
        is_plain(path),
        n >= 2 * directories(path).len(),
    ensures
        ({
            let now = make_directories(DirectoryRun::fresh(directories(path)), tree, n).1;
            &&& now.dom().contains(path)
            &&& forall|j: int|
                0 < j < path.len() && #[trigger] path[j] == '/' ==> now.dom().contains(path.take(j))
        }),
{
    let names = directories(path);
    pass_makes_the_directories(names, tree, n);
    directories_are_made(tree, names, names.len() as int);
    directories_are_the_leading_parts(path);
    let now = make_directories(DirectoryRun::fresh(names), tree, n).1;
    assert(now.dom().contains(names[names.len() - 1]));
    assert forall|j: int| 0 < j < path.len() && #[trigger] path[j] == '/' implies now.dom().contains(
        path.take(j),
    ) by {
        let i = choose|i: int| 0 <= i < names.len() && names[i] == path.take(j);
        assert(now.dom().contains(names[i]));
    }
}

/// The local files, by their names.
pub type LocalFiles = Map<Seq<char>, Seq<u8>>;

/// A remote host in the middle of an upload.
#[verifier::ext_equal]
pub struct Transfer {
    pub tree: Tree,
    /// The local file that was opened last.
    pub source: Option<Seq<char>>,
    /// The remote file that is open, and how it was opened.
    pub target: Option<(Seq<char>, OpenMode)>,
}

impl Transfer {
    /// Whether the remote file of this name is open.
    pub open spec fn has_open(self, path: Seq<char>) -> bool {
        self.target matches Some((target, _)) && target == path
    }
}

/// What comes of a step, or nothing where it cannot be done. Only what is missing is
/// created, and only a file that is there is removed. What is copied is the local file
/// that is open, into the remote file that is open, if that was opened for writing and
/// is empty. Only a closed file is given another name, and only one that is free.
pub open spec fn attempt(files: LocalFiles, at: Transfer, step: SftpStep) -> Option<Transfer> {
    match step {
        SftpStep::CheckExists(_) => Some(at),
        SftpStep::CreateDirectory(path) => if at.tree.dom().contains(path) {
            None
        } else {
            Some(Transfer { tree: at.tree.insert(path, Entry::Directory), ..at })
        },
        SftpStep::RemoveFile(path) => if at.tree.dom().contains(path) && at.tree[path] is File {
            Some(Transfer { tree: at.tree.remove(path), ..at })
        } else {
            None
        },
        SftpStep::OpenSource(path) => if files.dom().contains(path) {
            Some(Transfer { source: Some(path), ..at })
        } else {
            None
        },
        SftpStep::CreateFile { path, mode } => if at.tree.dom().contains(path) {
            if at.tree[path] is Directory {
                None
            } else if mode.truncate {
                Some(
                    Transfer {
                        tree: at.tree.insert(path, Entry::File(Seq::empty())),
                        target: Some((path, mode)),
                        ..at
                    },
                )
            } else {
                Some(Transfer { target: Some((path, mode)), ..at })
            }
        } else if mode.create {
            Some(
                Transfer {
                    tree: at.tree.insert(path, Entry::File(Seq::empty())),
                    target: Some((path, mode)),
                    ..at
                },
            )
        } else {
            None
        },
        SftpStep::Copy { from, to } => match (at.source, at.target) {
            (Some(source), Some((target, mode))) => if source == from && target == to && mode.write
                && at.tree.dom().contains(target) && at.tree[target] == Entry::File(Seq::empty()) {
                Some(
                    Transfer { tree: at.tree.insert(target, Entry::File(files[source])), ..at },
                )
            } else {
                None
            },
            _ => None,
        },
        SftpStep::Flush(path) => if at.has_open(path) {
            Some(at)
        } else {
            None
        },
        SftpStep::Close(path) => if at.has_open(path) {
            Some(Transfer { target: None, ..at })
        } else {
            None
        },
        SftpStep::Rename { from, to } => if at.target is None && at.tree.dom().contains(from)
            && at.tree[from] is File && !at.tree.dom().contains(to) {
            Some(Transfer { tree: at.tree.remove(from).insert(to, at.tree[from]), ..at })
        } else {
            None
        },
        SftpStep::OpenFile(_) => None,
        SftpStep::Read { .. } => None,
        SftpStep::Complete => Some(at),
    }
}

/// The answers to the first `n` steps of an upload, and what comes of them; nothing if
/// one of them cannot be done.
pub open spec fn transfer(
    run: SftpUploadRun,
    files: LocalFiles,
    tree: Tree,
    n: nat,
) -> Option<(Seq<bool>, Transfer)>
    decreases n,
{
    if n == 0 {
        Some((Seq::empty(), Transfer { tree, source: None, target: None }))
    } else {
        match transfer(run, files, tree, (n - 1) as nat) {
            Some((answers, at)) => {
                let step = run.advance_all(answers).step();
                match attempt(files, at, step) {
                    Some(after) => Some((answers.push(answer(at.tree, step)), after)),
                    None => None,
                }
            },
            None => None,
        }
    }
}

proof fn no_directory_gets_in_the_way(dest: Seq<char>, tree: Tree, path: Seq<char>, k: int)
    requires
        path == dest || path == temporary_of(dest),
        tree.dom().contains(path) ==> tree[path] is File,
        0 <= k <= upload_directories(dest).len(),
    ensures
        ({
            let made = with_directories(tree, upload_directories(dest), k);
            made.dom().contains(path) ==> made[path] is File
        }),
{
    let names = upload_directories(dest);
    directories_are_made(tree, names, k);
    if names.contains(path) {
        let i = choose|i: int| 0 <= i < names.len() && names[i] == path;
        directories_are_not_the_destination(dest, i);
    }
}

proof fn transfer_follows_the_replay(src: Seq<char>, dest: Seq<char>, files: LocalFiles, tree: Tree, n: nat)
    requires
        files.dom().contains(src),
        tree.dom().contains(dest) ==> tree[dest] is File,
        tree.dom().contains(temporary_of(dest)) ==> tree[temporary_of(dest)] is File,
    ensures
        ({
            let fresh = SftpUploadRun::fresh(src, dest);
            let (answers, now) = replay(fresh, tree, files[src], n);
            let stage = fresh.advance_all(answers).stage;
            &&& transfer(fresh, files, tree, n) matches Some((given, at))
            &&& given == answers
            &&& at.tree == now
            &&& stage is CreateTemporary || stage is Copy ==> at.source == Some(src)
            &&& stage is Copy || stage is Flush || stage is Close ==> (at.target matches Some(
                (path, mode),
            ) && path == temporary_of(dest) && mode.write)
            &&& !(stage is Copy || stage is Flush || stage is Close) ==> at.target is None
            &&& stage is RemoveTemporary ==> now.dom().contains(temporary_of(dest))
            &&& stage is RemoveDestination ==> now.dom().contains(dest)
        }),
    decreases n,
{
    let fresh = SftpUploadRun::fresh(src, dest);
    let content = files[src];
    if n > 0 {
        let m = (n - 1) as nat;
        transfer_follows_the_replay(src, dest, files, tree, m);
        tree_follows_the_stage(src, dest, tree, content, m);
        tree_follows_the_stage(src, dest, tree, content, n);
        let (earlier, before) = replay(fresh, tree, content, m);
        let (answers, now) = replay(fresh, tree, content, n);
        assert(answers.drop_last() == earlier);
        upload_keeps_its_paths(src, dest, earlier);
        upload_keeps_its_paths(src, dest, answers);
        temporary_is_not_the_destination(dest);
        let run = fresh.advance_all(earlier);
        no_directory_gets_in_the_way(dest, tree, dest, run.directories.done);
        no_directory_gets_in_the_way(dest, tree, temporary_of(dest), run.directories.done);
    }
}

/// An upload from `src` to `dest` puts the content of the local file `src` at `dest`.
/// Where `src` is there, and no directory stands in the way of a file, each of its
/// steps can be done, it ends, and then the remote file `dest` has that content, the
/// temporary file is gone and no file is left open. The directories of the destination
/// have been made where they were missing; nothing else has changed.
pub proof fn upload_carries_the_source_to_the_destination(
    src: Seq<char>,
    dest: Seq<char>,
    files: LocalFiles,
    tree: Tree,
    n: nat,
)
    requires
        files.dom().contains(src),
        tree.dom().contains(dest) ==> tree[dest] is File,
        tree.dom().contains(temporary_of(dest)) ==> tree[temporary_of(dest)] is File,
        n >= 2 * upload_directories(dest).len() + 10,
    ensures
        ({
            let fresh = SftpUploadRun::fresh(src, dest);
            &&& transfer(fresh, files, tree, n) matches Some((answers, at))
            &&& fresh.advance_all(answers).step() is Complete
            &&& at.target is None
            &&& at.tree == with_directories(
                tree,
                upload_directories(dest),
                upload_directories(dest).len() as int,
            ).remove(temporary_of(dest)).insert(dest, Entry::File(files[src]))
        }),
{
    transfer_follows_the_replay(src, dest, files, tree, n);
    upload_puts_the_content_in_place(src, dest, tree, files[src], n);
}

/// An upload is over only once the destination is in place: when there is nothing left
/// to do, the content of the local file `src` is at `dest`.
pub proof fn upload_is_over_only_when_in_place(
    src: Seq<char>,
    dest: Seq<char>,
    files: LocalFiles,
    tree: Tree,
    n: nat,
)
    requires
        files.dom().contains(src),
        tree.dom().contains(dest) ==> tree[dest] is File,
        tree.dom().contains(temporary_of(dest)) ==> tree[temporary_of(dest)] is File,
        transfer(SftpUploadRun::fresh(src, dest), files, tree, n) matches Some((answers, at))
            && SftpUploadRun::fresh(src, dest).advance_all(answers).step() is Complete,
    ensures
        transfer(SftpUploadRun::fresh(src, dest), files, tree, n) matches Some((answers, at))
            && at.tree.dom().contains(dest) && at.tree[dest] == Entry::File(files[src])
            && !at.tree.dom().contains(temporary_of(dest)),
{
    let fresh = SftpUploadRun::fresh(src, dest);
    transfer_follows_the_replay(src, dest, files, tree, n);
    tree_follows_the_stage(src, dest, tree, files[src], n);
    temporary_is_not_the_destination(dest);
    upload_keeps_its_paths(src, dest, replay(fresh, tree, files[src], n).0);
}

} // verus!
