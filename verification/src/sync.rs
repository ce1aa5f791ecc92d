//! Bringing one remote file up to date.

use vstd::prelude::*;
use vstd::string::*;

use crate::digest::fingerprint;
use crate::digest::hex_text_is_injective;
use crate::digest::sha3_256;
use crate::file_read::content_of;
use crate::file_read::remote_reading_takes_in_the_whole_file;
use crate::file_read::SftpReadRun;
use crate::remote_tree::answer;
use crate::remote_tree::replay;
use crate::remote_tree::upload_puts_the_content_in_place;
use crate::remote_tree::Entry;
use crate::remote_tree::LocalFiles;
use crate::remote_tree::Tree;
use crate::sftp_upload::upload_directories;
use crate::sftp_upload::SftpUploadRun;

verus! {

/// How a remote file stands to the local one.
#[derive(Debug, Clone, Copy, PartialEq, Eq, Structural)]
pub enum Comparison {
    /// It has the same fingerprint.
    Unchanged,
    /// It has another fingerprint.
    Changed,
    /// There is no such file.
    Missing,
}

/// How a remote file stands to the local one, by their fingerprints.
pub open spec fn comparison(local: Seq<char>, remote: Option<Seq<char>>) -> Comparison {
    match remote {
        Some(remote) => if remote == local {
            Comparison::Unchanged
        } else {
            Comparison::Changed
        },
        None => Comparison::Missing,
    }
}

/// The view of an optional text.
pub open spec fn optional_text(text: Option<String>) -> Option<Seq<char>> {
    match text {
        Some(text) => Some(text@),
        None => None,
    }
}

/// How a remote file stands to the local one, by their fingerprints.
pub fn compare(local: &String, remote: &Option<String>) -> (res: Comparison)
    ensures
        res == comparison(local@, optional_text(*remote)),
{
    match remote {
        Some(remote) => if *remote == *local {
            Comparison::Unchanged
        } else {
            Comparison::Changed
        },
        None => Comparison::Missing,
    }
}

impl Comparison {
    /// Whether the file has to be uploaded.
    pub open spec fn calls_for_upload(self) -> bool {
        !(self is Unchanged)
    }

    /// The line that tells of the comparison.
    pub open spec fn line_text(self) -> Seq<char> {
        match self {
            Comparison::Unchanged => "  unchanged"@,
            Comparison::Changed => "  changed; uploading"@,
            Comparison::Missing => "  destination does not exist; uploading"@,
        }
    }

    /// The line that tells of the comparison.
    pub fn line(&self) -> (res: &'static str)
        ensures
            res@ == self.line_text(),
    {
        match self {
            Comparison::Unchanged => "  unchanged",
            Comparison::Changed => "  changed; uploading",
            Comparison::Missing => "  destination does not exist; uploading",
        }
    }
}

/// How far the update of a file has come.
#[derive(Debug, Clone, Copy, PartialEq, Eq, Structural)]
pub enum SyncStage {
    /// The local file has to be fingerprinted.
    FingerprintLocal,
    /// The remote file has to be fingerprinted.
    FingerprintRemote,
    /// The local file has to be uploaded.
    Upload,
    /// The remote file is up to date.
    Complete,
}

/// What to do next for a file.
#[derive(Debug)]
pub enum SyncAction {
    /// Fingerprint this local file.
    FingerprintLocal(String),
    /// Fingerprint this remote file.
    FingerprintRemote(String),
    /// Upload the local file `src` to `dest`.
    Upload { src: String, dest: String },
    Complete,
}

/// The update of a file under way.
#[verifier::ext_equal]
pub struct SyncRun {
    pub src: Seq<char>,
    pub dest: Seq<char>,
    pub stage: SyncStage,
    /// The fingerprint of the local file, once it is known.
    pub local: Seq<char>,
}

/// The line that opens the update of a file.
pub open spec fn checking_text(src: Seq<char>, dest: Seq<char>) -> Seq<char> {
    "checking "@ + src + " -> "@ + dest
}

impl SyncRun {
    /// An update that has not been started.
    pub open spec fn fresh(src: Seq<char>, dest: Seq<char>) -> SyncRun {
        SyncRun { src, dest, stage: SyncStage::FingerprintLocal, local: Seq::empty() }
    }

    /// The update after the local file has been fingerprinted.
    pub open spec fn local_known(self, local: Seq<char>) -> SyncRun {
        if self.stage is FingerprintLocal {
            SyncRun { stage: SyncStage::FingerprintRemote, local, ..self }
        } else {
            self
        }
    }

    /// The update after the remote file has been fingerprinted, or found to be
    /// missing.
    pub open spec fn remote_known(self, remote: Option<Seq<char>>) -> SyncRun {
        if self.stage is FingerprintRemote {
            SyncRun {
                stage: if comparison(self.local, remote).calls_for_upload() {
                    SyncStage::Upload
                } else {
                    SyncStage::Complete
                },
                ..self
            }
        } else {
            self
        }
    }

    /// The update after the file has been uploaded.
    pub open spec fn uploaded(self) -> SyncRun {
        if self.stage is Upload {
            SyncRun { stage: SyncStage::Complete, ..self }
        } else {
            self
        }
    }
}

/// Whether `action` is what an update needs next.
pub open spec fn is_sync_action(action: SyncAction, run: SyncRun) -> bool {
    match run.stage {
        SyncStage::FingerprintLocal => action matches SyncAction::FingerprintLocal(path) && path@
            == run.src,
        SyncStage::FingerprintRemote => action matches SyncAction::FingerprintRemote(path) && path@
            == run.dest,
        SyncStage::Upload => action matches SyncAction::Upload { src, dest } && src@ == run.src
            && dest@ == run.dest,
        SyncStage::Complete => action is Complete,
    }
}

/// Drives the update of one file on one host, over either transport.
#[derive(Debug)]
pub struct FileSync {
    src: String,
    dest: String,
    stage: SyncStage,
    local: String,
}

impl View for FileSync {
    type V = SyncRun;

    closed spec fn view(&self) -> SyncRun {
        SyncRun { src: self.src@, dest: self.dest@, stage: self.stage, local: self.local@ }
    }
}

impl FileSync {
    /// An update of `dest` from the local file `src` that is yet to be started.
    pub fn new(src: &str, dest: &str) -> (res: FileSync)
        ensures
            res@ == SyncRun::fresh(src@, dest@),
    {
        FileSync {
            src: src.to_owned(),
            dest: dest.to_owned(),
            stage: SyncStage::FingerprintLocal,
            local: String::new(),
        }
    }

    /// The line that opens the update.
    pub fn heading(&self) -> (res: String)
        ensures
            res@ == checking_text(self@.src, self@.dest),
    {
        "checking ".to_owned().concat(self.src.as_str()).concat(" -> ").concat(self.dest.as_str())
    }

    /// What to do next.
    pub fn action(&self) -> (res: SyncAction)
        ensures
            is_sync_action(res, self@),
    {
        match self.stage {
            SyncStage::FingerprintLocal => SyncAction::FingerprintLocal(self.src.clone()),
            SyncStage::FingerprintRemote => SyncAction::FingerprintRemote(self.dest.clone()),
            SyncStage::Upload => SyncAction::Upload {
                src: self.src.clone(),
                dest: self.dest.clone(),
            },
            SyncStage::Complete => SyncAction::Complete,
        }
    }

    /// The local file has the fingerprint `local`.
    pub fn local_known(&mut self, local: String)
        ensures
            final(self)@ == old(self)@.local_known(local@),
    {
        if self.stage == SyncStage::FingerprintLocal {
            self.stage = SyncStage::FingerprintRemote;
            self.local = local;
        }
    }

    /// The remote file has the fingerprint `remote`, or is missing. Tells how it
    /// stands to the local one.
    pub fn remote_known(&mut self, remote: &Option<String>) -> (res: Comparison)
        ensures
            res == comparison(old(self)@.local, optional_text(*remote)),
            final(self)@ == old(self)@.remote_known(optional_text(*remote)),
    {
        let found = compare(&self.local, remote);
        if self.stage == SyncStage::FingerprintRemote {
            self.stage = if found == Comparison::Unchanged {
                SyncStage::Complete
            } else {
                SyncStage::Upload
            };
        }
        found
    }

    /// The file has been uploaded.
    pub fn uploaded(&mut self)
        ensures
            final(self)@ == old(self)@.uploaded(),
    {
        if self.stage == SyncStage::Upload {
            self.stage = SyncStage::Complete;
        }
    }
}

/// A remote file is left alone exactly if it is there and its content has the
/// same digest as that of the local file.
pub proof fn file_is_left_alone_by_its_digest(
    src: Seq<char>,
    dest: Seq<char>,
    local: Seq<u8>,
    remote: Option<Seq<u8>>,
)
    ensures
        ({
            let run = SyncRun::fresh(src, dest).local_known(fingerprint(local)).remote_known(
                match remote {
                    Some(content) => Some(fingerprint(content)),
                    None => None,
                },
            );
            &&& run.stage is Complete <==> remote is Some && sha3_256(remote->0) == sha3_256(local)
            &&& run.stage is Upload <==> !(run.stage is Complete)
        }),
{
    if let Some(content) = remote {
        if fingerprint(content) == fingerprint(local) {
            hex_text_is_injective(sha3_256(content), sha3_256(local));
        }
    }
}

/// A remote file with the content of the local one is left alone.
pub proof fn equal_content_is_left_alone(src: Seq<char>, dest: Seq<char>, content: Seq<u8>)
    ensures
        SyncRun::fresh(src, dest).local_known(fingerprint(content)).remote_known(
            Some(fingerprint(content)),
        ).stage is Complete,
{
}

/// Once a file has been uploaded over SFTP, with every step done, it is there to be
/// asked for, and reading it back, in whatever pieces its content comes, finds
/// nothing to do.
pub proof fn uploaded_file_is_up_to_date(
    src: Seq<char>,
    dest: Seq<char>,
    tree: Tree,
    content: Seq<u8>,
    n: nat,
    pieces: Seq<Seq<u8>>,
)
    requires
        n >= 2 * upload_directories(dest).len() + 10,
        forall|i: int| 0 <= i < pieces.len() ==> (#[trigger] pieces[i]).len() > 0,
        content_of(pieces) == content,
    ensures
        ({
            let now = replay(SftpUploadRun::fresh(src, dest), tree, content, n).1;
            let asked = SftpReadRun::fresh(dest);
            let found = answer(now, asked.step());
            let read = asked.advance(found).advance(true).read_all(
                pieces.push(Seq::empty()),
            ).advance(true);
            &&& found
            &&& now[dest] == Entry::File(content)
            &&& read.result() == Some(Some(fingerprint(content)))
            &&& SyncRun::fresh(src, dest).local_known(fingerprint(content)).remote_known(
                read.result()->0,
            ).stage is Complete
        }),
{
    upload_puts_the_content_in_place(src, dest, tree, content, n);
    remote_reading_takes_in_the_whole_file(dest, pieces, true);
}

/// What can happen to the update of a file.
pub enum SyncEvent {
    /// The local file has been fingerprinted.
    LocalKnown(Seq<char>),
    /// The remote file has been fingerprinted, or found to be missing.
    RemoteKnown(Option<Seq<char>>),
    /// The file has been uploaded.
    Uploaded,
}

impl SyncRun {
    /// The update after `event`.
    pub open spec fn apply(self, event: SyncEvent) -> SyncRun {
        match event {
            SyncEvent::LocalKnown(local) => self.local_known(local),
            SyncEvent::RemoteKnown(remote) => self.remote_known(remote),
            SyncEvent::Uploaded => self.uploaded(),
        }
    }

    /// The update after all of `events`.
    pub open spec fn apply_all(self, events: Seq<SyncEvent>) -> SyncRun
        decreases events.len(),
    {
        if events.len() == 0 {
            self
        } else {
            self.apply_all(events.drop_last()).apply(events.last())
        }
    }
}

/// An update of `dest` from `src` goes on like this, whatever the fingerprints: `src` is
/// fingerprinted here, `dest` is fingerprinted on the remote host, and then `src` is
/// uploaded to `dest`, unless the remote file is there and has the fingerprint of the
/// local one. After that there is nothing left to do.
pub proof fn update_compares_source_and_destination(
    src: Seq<char>,
    dest: Seq<char>,
    local: Seq<char>,
    remote: Option<Seq<char>>,
    first: SyncAction,
    second: SyncAction,
    third: SyncAction,
    last: SyncAction,
)
    requires
        is_sync_action(first, SyncRun::fresh(src, dest)),
        is_sync_action(second, SyncRun::fresh(src, dest).local_known(local)),
        is_sync_action(third, SyncRun::fresh(src, dest).local_known(local).remote_known(remote)),
        is_sync_action(
            last,
            SyncRun::fresh(src, dest).local_known(local).remote_known(remote).uploaded(),
        ),
    ensures
        first matches SyncAction::FingerprintLocal(path) && path@ == src,
        second matches SyncAction::FingerprintRemote(path) && path@ == dest,
        if remote == Some(local) {
            third is Complete
        } else {
            third matches SyncAction::Upload { src: from, dest: to } && from@ == src && to@ == dest
        },
        last is Complete,
{
}

proof fn update_follows_its_events(src: Seq<char>, dest: Seq<char>, events: Seq<SyncEvent>)
    ensures
        ({
            let run = SyncRun::fresh(src, dest).apply_all(events);
            &&& run.src == src
            &&& run.dest == dest
            &&& !(run.stage is FingerprintLocal) ==> exists|i: int|
                0 <= i < events.len() && #[trigger] events[i] == SyncEvent::LocalKnown(run.local)
            &&& run.stage is Upload ==> exists|i: int|
                0 <= i < events.len() && (#[trigger] events[i] matches SyncEvent::RemoteKnown(
                    remote,
                ) && remote != Some(run.local))
            &&& run.stage is Complete ==> exists|i: int|
                0 <= i < events.len() && (#[trigger] events[i] == SyncEvent::RemoteKnown(
                    Some(run.local),
                ) || events[i] is Uploaded)
        }),
    decreases events.len(),
{
    if events.len() > 0 {
        let earlier = events.drop_last();
        let n = earlier.len() as int;
        update_follows_its_events(src, dest, earlier);
        let run = SyncRun::fresh(src, dest).apply_all(earlier);
        assert(forall|i: int| 0 <= i < n ==> #[trigger] events[i] == earlier[i]);
        let last = events[n];
        if run.stage is FingerprintLocal {
            if let SyncEvent::LocalKnown(local) = last {
                assert(events[n] == SyncEvent::LocalKnown(local));
            }
        } else {
            let i = choose|i: int|
                0 <= i < n && #[trigger] earlier[i] == SyncEvent::LocalKnown(run.local);
            assert(events[i] == SyncEvent::LocalKnown(run.local));
        }
        if run.stage is Upload {
            let i = choose|i: int|
                0 <= i < n && (#[trigger] earlier[i] matches SyncEvent::RemoteKnown(remote)
                    && remote != Some(run.local));
            assert(events[i] == earlier[i]);
        }
        if run.stage is Complete {
            let i = choose|i: int|
                0 <= i < n && (#[trigger] earlier[i] == SyncEvent::RemoteKnown(Some(run.local))
                    || earlier[i] is Uploaded);
            assert(events[i] == earlier[i]);
        }
    }
}

/// Whatever happens, and in whatever order, an update of `dest` from `src` asks for no
/// other local file than `src` and for no other remote file than `dest`. It asks for an
/// upload only after the two fingerprints were told to differ, or the remote file to be
/// missing, and is complete only after they were told to be the same, or the upload was
/// done.
pub proof fn update_asks_for_no_other_file(
    src: Seq<char>,
    dest: Seq<char>,
    events: Seq<SyncEvent>,
    action: SyncAction,
)
    requires
        is_sync_action(action, SyncRun::fresh(src, dest).apply_all(events)),
    ensures
        match action {
            SyncAction::FingerprintLocal(path) => path@ == src,
            SyncAction::FingerprintRemote(path) => path@ == dest,
            SyncAction::Upload { src: from, dest: to } => {
                &&& from@ == src
                &&& to@ == dest
                &&& exists|i: int, j: int|
                    0 <= i < events.len() && 0 <= j < events.len()
                        && #[trigger] differ(events[i], events[j])
            },
            SyncAction::Complete => {
                ||| exists|i: int, j: int|
                    0 <= i < events.len() && 0 <= j < events.len()
                        && #[trigger] agree(events[i], events[j])
                ||| exists|i: int| 0 <= i < events.len() && #[trigger] events[i] is Uploaded
            },
        },
{
    let run = SyncRun::fresh(src, dest).apply_all(events);
    update_follows_its_events(src, dest, events);
    if run.stage is Upload {
        let i = choose|i: int|
            0 <= i < events.len() && #[trigger] events[i] == SyncEvent::LocalKnown(run.local);
        let j = choose|j: int|
            0 <= j < events.len() && (#[trigger] events[j] matches SyncEvent::RemoteKnown(remote)
                && remote != Some(run.local));
        assert(differ(events[i], events[j]));
    }
    if run.stage is Complete {
        let i = choose|i: int|
            0 <= i < events.len() && #[trigger] events[i] == SyncEvent::LocalKnown(run.local);
        let j = choose|j: int|
            0 <= j < events.len() && (#[trigger] events[j] == SyncEvent::RemoteKnown(
                Some(run.local),
            ) || events[j] is Uploaded);
        if !(events[j] is Uploaded) {
            assert(agree(events[i], events[j]));
        }
    }
}

/// Whether these are a local fingerprint and a remote one that is another, or missing.
pub open spec fn differ(local: SyncEvent, remote: SyncEvent) -> bool {
    local matches SyncEvent::LocalKnown(here) && (remote matches SyncEvent::RemoteKnown(there)
        && there != Some(here))
}

/// Whether these are a local fingerprint and a remote one that is the same.
pub open spec fn agree(local: SyncEvent, remote: SyncEvent) -> bool {
    local matches SyncEvent::LocalKnown(here) && (remote matches SyncEvent::RemoteKnown(there)
        && there == Some(here))
}

/// The fingerprint of the remote file of this name, if there is one.
pub open spec fn remote_fingerprint(tree: Tree, path: Seq<char>) -> Option<Seq<char>> {
    if tree.dom().contains(path) && tree[path] is File {
        Some(fingerprint(tree[path]->File_0))
    } else {
        None
    }
}

/// An update of `dest` from `src`, told the fingerprints of the very files that it asks
/// for, asks for an upload exactly if the remote host has no file `dest` with the digest
/// of the local file `src`; and then it asks for `src` to be uploaded to `dest`.
pub proof fn update_uploads_what_differs(
    src: Seq<char>,
    dest: Seq<char>,
    files: LocalFiles,
    tree: Tree,
    here: SyncAction,
    local: Seq<char>,
    there: SyncAction,
    remote: Option<Seq<char>>,
    next: SyncAction,
)
    requires
        is_sync_action(here, SyncRun::fresh(src, dest)),
        here matches SyncAction::FingerprintLocal(path) ==> local == fingerprint(files[path@]),
        is_sync_action(there, SyncRun::fresh(src, dest).local_known(local)),
        there matches SyncAction::FingerprintRemote(path) ==> remote == remote_fingerprint(
            tree,
            path@,
        ),
        is_sync_action(next, SyncRun::fresh(src, dest).local_known(local).remote_known(remote)),
    ensures
        if tree.dom().contains(dest) && tree[dest] is File && sha3_256(tree[dest]->File_0)
            == sha3_256(files[src]) {
            next is Complete
        } else {
            next matches SyncAction::Upload { src: from, dest: to } && from@ == src && to@ == dest
        },
{
    if tree.dom().contains(dest) && tree[dest] is File {
        let content = tree[dest]->File_0;
        if fingerprint(content) == fingerprint(files[src]) {
            hex_text_is_injective(sha3_256(content), sha3_256(files[src]));
        }
    }
}

/// A comparison says that nothing has changed exactly if the remote file is there with
/// the local fingerprint, and that the file is missing exactly if it is not there; only
/// in the first case is nothing to be uploaded.
pub proof fn comparison_is_by_the_fingerprints(local: Seq<char>, remote: Option<Seq<char>>)
    ensures
        comparison(local, remote) is Unchanged <==> remote == Some(local),
        comparison(local, remote) is Missing <==> remote is None,
        comparison(local, remote).calls_for_upload() <==> remote != Some(local),
        comparison(local, remote).line_text() == if remote == Some(local) {
            "  unchanged"@
        } else if remote is Some {
            "  changed; uploading"@
        } else {
            "  destination does not exist; uploading"@
        },
{
}

/// The line that opens an update names the local file and then the remote one, with an
/// arrow between them.
pub proof fn heading_names_source_and_destination(src: Seq<char>, dest: Seq<char>)
    ensures
        ({
            let line = checking_text(src, dest);
            let arrow: int = 9 + src.len() as int;
            &&& line.len() == arrow + 4 + dest.len()
            &&& line.take(9) == "checking "@
            &&& line.subrange(9, arrow) == src
            &&& line.subrange(arrow, arrow + 4) == " -> "@
            &&& line.skip(arrow + 4) == dest
        }),
{
    reveal_strlit("checking ");
    reveal_strlit(" -> ");
}

/// An optional text stands for what it holds, and for nothing where it holds nothing.
pub proof fn optional_text_is_what_it_holds(text: Option<String>)
    ensures
        optional_text(text) is Some <==> text is Some,
        text matches Some(held) ==> optional_text(text) == Some(held@),
{
}

} // verus!
