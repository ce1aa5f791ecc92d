//! Fingerprinting a file that is read piece by piece: a local one, or a remote
//! one over SFTP.

use vstd::prelude::*;
use vstd::string::*;

use crate::digest::fingerprint;
use crate::digest::ContentHasher;
use crate::sftp::SftpAction;
use crate::sftp::SftpStep;

verus! {

/// The size of the pieces in which files are read.
pub const IO_BUFFER_SIZE: usize = 64 * 1024;

/// The content that a run of pieces makes up.
pub open spec fn content_of(pieces: Seq<Seq<u8>>) -> Seq<u8>
    decreases pieces.len(),
{
    if pieces.len() == 0 {
        Seq::empty()
    } else {
        content_of(pieces.drop_last()) + pieces.last()
    }
}

/// How far the reading of a local file has come.
#[derive(Debug, Clone, Copy, PartialEq, Eq, Structural)]
pub enum LocalReadStage {
    /// The file has to be opened.
    Open,
    /// The next piece has to be read.
    Read,
    /// The file has been read.
    Complete,
}

/// What to do next for a local file.
#[derive(Debug)]
pub enum LocalReadAction {
    /// Open the file of this name.
    Open(String),
    /// Read the next piece of the open file, of at most so many bytes.
    Read { limit: usize },
    Complete,
}

/// The reading of a local file under way.
#[verifier::ext_equal]
pub struct LocalReadRun {
    pub path: Seq<char>,
    pub stage: LocalReadStage,
    /// The content read so far.
    pub content: Seq<u8>,
}

impl LocalReadRun {
    /// A reading that has not been started.
    pub open spec fn fresh(path: Seq<char>) -> LocalReadRun {
        LocalReadRun { path, stage: LocalReadStage::Open, content: Seq::empty() }
    }

    /// The reading after the file has been opened.
    pub open spec fn opened(self) -> LocalReadRun {
        if self.stage is Open {
            LocalReadRun { stage: LocalReadStage::Read, ..self }
        } else {
            self
        }
    }

    /// The reading after a piece has been read. An empty one is the end.
    pub open spec fn read(self, piece: Seq<u8>) -> LocalReadRun {
        if self.stage is Read {
            if piece.len() == 0 {
                LocalReadRun { stage: LocalReadStage::Complete, ..self }
            } else {
                LocalReadRun { content: self.content + piece, ..self }
            }
        } else {
            self
        }
    }

    /// The reading after more pieces have been read.
    pub open spec fn read_all(self, pieces: Seq<Seq<u8>>) -> LocalReadRun
        decreases pieces.len(),
    {
        if pieces.len() == 0 {
            self
        } else {
            self.read_all(pieces.drop_last()).read(pieces.last())
        }
    }

    /// What the reading has come to: the fingerprint of the content; nothing yet if
    /// the file has not been read to its end.
    pub open spec fn result(self) -> Option<Seq<char>> {
        match self.stage {
            LocalReadStage::Complete => Some(fingerprint(self.content)),
            _ => None,
        }
    }

    /// What a failure of the current step is put down to. A failed read speaks
    /// for itself.
    pub open spec fn failure_text(self) -> Option<Seq<char>> {
        match self.stage {
            LocalReadStage::Open => Some("failed to open "@ + self.path),
            _ => None,
        }
    }
}

/// Whether `action` is what the reading of a local file needs next.
pub open spec fn is_local_read_action(action: LocalReadAction, run: LocalReadRun) -> bool {
    match run.stage {
        LocalReadStage::Open => action matches LocalReadAction::Open(path) && path@ == run.path,
        LocalReadStage::Read => action matches LocalReadAction::Read { limit } && limit
            == IO_BUFFER_SIZE,
        LocalReadStage::Complete => action is Complete,
    }
}

/// Drives the reading of one local file.
pub struct LocalRead {
    path: String,
    stage: LocalReadStage,
    hasher: ContentHasher,
}

impl View for LocalRead {
    type V = LocalReadRun;

    closed spec fn view(&self) -> LocalReadRun {
        LocalReadRun { path: self.path@, stage: self.stage, content: self.hasher@ }
    }
}

impl LocalRead {
    /// A reading of `path` that is yet to be started.
    pub fn new(path: &str) -> (res: LocalRead)
        ensures
            res@ == LocalReadRun::fresh(path@),
    {
        LocalRead {
            path: path.to_owned(),
            stage: LocalReadStage::Open,
            hasher: ContentHasher::new(),
        }
    }

    /// What to do next.
    pub fn action(&self) -> (res: LocalReadAction)
        ensures
            is_local_read_action(res, self@),
    {
        match self.stage {
            LocalReadStage::Open => LocalReadAction::Open(self.path.clone()),
            LocalReadStage::Read => LocalReadAction::Read { limit: IO_BUFFER_SIZE },
            LocalReadStage::Complete => LocalReadAction::Complete,
        }
    }

    /// The file has been opened.
    pub fn opened(&mut self)
        ensures
            final(self)@ == old(self)@.opened(),
    {
        if self.stage == LocalReadStage::Open {
            self.stage = LocalReadStage::Read;
        }
    }

    /// A piece has been read. An empty one is the end.
    pub fn read(&mut self, piece: &[u8])
        ensures
            final(self)@ == old(self)@.read(piece@),
    {
        if self.stage == LocalReadStage::Read {
            if piece.len() == 0 {
                self.stage = LocalReadStage::Complete;
            } else {
                self.hasher.update(piece);
            }
        }
    }

    /// What a failure of the current step is put down to.
    pub fn failure(&self) -> (res: Option<String>)
        ensures
            match res {
                Some(text) => self@.failure_text() == Some(text@),
                None => self@.failure_text() is None,
            },
    {
        match self.stage {
            LocalReadStage::Open => Some("failed to open ".to_owned().concat(self.path.as_str())),
            _ => None,
        }
    }

    /// The fingerprint of the content that was read; nothing yet if the file has not
    /// been read to its end.
    pub fn conclude(self) -> (res: Option<String>)
        ensures
            match res {
                Some(text) => self@.result() == Some(text@) && text@.len() == 64,
                None => self@.result() is None,
            },
    {
        if self.stage == LocalReadStage::Complete {
            Some(self.hasher.finish())
        } else {
            None
        }
    }
}

/// How far the reading of a remote file has come.
#[derive(Debug, Clone, Copy, PartialEq, Eq, Structural)]
pub enum SftpReadStage {
    /// Whether there is such a file has to be asked.
    CheckExists,
    /// The file has to be opened.
    Open,
    /// The next piece has to be read.
    Read,
    /// The file has to be closed.
    Close,
    /// The file has been read.
    Complete,
    /// There is no such file.
    Absent,
}

/// The reading of a remote file under way.
#[verifier::ext_equal]
pub struct SftpReadRun {
    pub path: Seq<char>,
    pub stage: SftpReadStage,
    /// The content read so far.
    pub content: Seq<u8>,
}

impl SftpReadRun {
    /// A reading that has not been started.
    pub open spec fn fresh(path: Seq<char>) -> SftpReadRun {
        SftpReadRun { path, stage: SftpReadStage::CheckExists, content: Seq::empty() }
    }

    /// What to do next.
    pub open spec fn step(self) -> SftpStep {
        match self.stage {
            SftpReadStage::CheckExists => SftpStep::CheckExists(self.path),
            SftpReadStage::Open => SftpStep::OpenFile(self.path),
            SftpReadStage::Read => SftpStep::Read { limit: IO_BUFFER_SIZE },
            SftpReadStage::Close => SftpStep::Close(self.path),
            SftpReadStage::Complete => SftpStep::Complete,
            SftpReadStage::Absent => SftpStep::Complete,
        }
    }

    /// The reading after the current step has succeeded, where `found` is the
    /// answer if it was a question. Only a piece takes it on from where pieces
    /// are read.
    pub open spec fn advance(self, found: bool) -> SftpReadRun {
        let stage = match self.stage {
            SftpReadStage::CheckExists => if found {
                SftpReadStage::Open
            } else {
                SftpReadStage::Absent
            },
            SftpReadStage::Open => SftpReadStage::Read,
            SftpReadStage::Close => SftpReadStage::Complete,
            stage => stage,
        };
        SftpReadRun { stage, ..self }
    }

    /// The reading after a piece has been read. An empty one is the end.
    pub open spec fn read(self, piece: Seq<u8>) -> SftpReadRun {
        if self.stage is Read {
            if piece.len() == 0 {
                SftpReadRun { stage: SftpReadStage::Close, ..self }
            } else {
                SftpReadRun { content: self.content + piece, ..self }
            }
        } else {
            self
        }
    }

    /// The reading after more pieces have been read.
    pub open spec fn read_all(self, pieces: Seq<Seq<u8>>) -> SftpReadRun
        decreases pieces.len(),
    {
        if pieces.len() == 0 {
            self
        } else {
            self.read_all(pieces.drop_last()).read(pieces.last())
        }
    }

    /// What a failure of the current step is put down to. A failed read speaks
    /// for itself.
    pub open spec fn failure_text(self) -> Option<Seq<char>> {
        match self.stage {
            SftpReadStage::CheckExists => Some("failed checking remote path "@ + self.path),
            SftpReadStage::Open => Some("failed to open remote file "@ + self.path),
            SftpReadStage::Close => Some("failed closing remote file "@ + self.path),
            _ => None,
        }
    }

    /// What the reading has come to: no fingerprint if there is no such file, and
    /// otherwise that of the content; nothing yet if it is still under way.
    pub open spec fn result(self) -> Option<Option<Seq<char>>> {
        match self.stage {
            SftpReadStage::Absent => Some(None),
            SftpReadStage::Complete => Some(Some(fingerprint(self.content))),
            _ => None,
        }
    }
}

/// Drives the reading of one remote file over SFTP.
pub struct SftpRead {
    path: String,
    stage: SftpReadStage,
    hasher: ContentHasher,
}

impl View for SftpRead {
    type V = SftpReadRun;

    closed spec fn view(&self) -> SftpReadRun {
        SftpReadRun { path: self.path@, stage: self.stage, content: self.hasher@ }
    }
}

impl SftpRead {
    /// A reading of `path` that is yet to be started.
    pub fn new(path: &str) -> (res: SftpRead)
        ensures
            res@ == SftpReadRun::fresh(path@),
    {
        SftpRead {
            path: path.to_owned(),
            stage: SftpReadStage::CheckExists,
            hasher: ContentHasher::new(),
        }
    }

    /// What to do next.
    pub fn action(&self) -> (res: SftpAction)
        ensures
            res@ == self@.step(),
    {
        match self.stage {
            SftpReadStage::CheckExists => SftpAction::CheckExists(self.path.clone()),
            SftpReadStage::Open => SftpAction::OpenFile(self.path.clone()),
            SftpReadStage::Read => SftpAction::Read { limit: IO_BUFFER_SIZE },
            SftpReadStage::Close => SftpAction::Close(self.path.clone()),
            SftpReadStage::Complete => SftpAction::Complete,
            SftpReadStage::Absent => SftpAction::Complete,
        }
    }

    /// The current step has succeeded; `found` is the answer if it was a
    /// question.
    pub fn advance(&mut self, found: bool)
        ensures
            final(self)@ == old(self)@.advance(found),
    {
        self.stage = match self.stage {
            SftpReadStage::CheckExists => if found {
                SftpReadStage::Open
            } else {
                SftpReadStage::Absent
            },
            SftpReadStage::Open => SftpReadStage::Read,
            SftpReadStage::Close => SftpReadStage::Complete,
            stage => stage,
        };
    }

    /// A piece has been read. An empty one is the end.
    pub fn read(&mut self, piece: &[u8])
        ensures
            final(self)@ == old(self)@.read(piece@),
    {
        if self.stage == SftpReadStage::Read {
            if piece.len() == 0 {
                self.stage = SftpReadStage::Close;
            } else {
                self.hasher.update(piece);
            }
        }
    }

    /// What a failure of the current step is put down to.
    pub fn failure(&self) -> (res: Option<String>)
        ensures
            match res {
                Some(text) => self@.failure_text() == Some(text@),
                None => self@.failure_text() is None,
            },
    {
        let path = self.path.as_str();
        match self.stage {
            SftpReadStage::CheckExists => Some("failed checking remote path ".to_owned().concat(path)),
            SftpReadStage::Open => Some("failed to open remote file ".to_owned().concat(path)),
            SftpReadStage::Close => Some("failed closing remote file ".to_owned().concat(path)),
            _ => None,
        }
    }

    /// The fingerprint of the remote file, or `Some(None)` if there is no such file;
    /// nothing yet if the reading is still under way.
    pub fn conclude(self) -> (res: Option<Option<String>>)
        ensures
            match res {
                Some(Some(text)) => self@.result() == Some(Some(text@)) && text@.len() == 64,
                Some(None) => self@.result() == Some(None::<Seq<char>>),
                None => self@.result() is None,
            },
    {
        match self.stage {
            SftpReadStage::Absent => Some(None),
            SftpReadStage::Complete => Some(Some(self.hasher.finish())),
            _ => None,
        }
    }
}

/// A local file that is read to its end is fingerprinted whole, however it comes
/// in pieces.
pub proof fn local_reading_takes_in_the_whole_file(path: Seq<char>, pieces: Seq<Seq<u8>>)
    requires
        forall|i: int| 0 <= i < pieces.len() ==> (#[trigger] pieces[i]).len() > 0,
    ensures
        LocalReadRun::fresh(path).opened().read_all(pieces.push(Seq::empty())) == (LocalReadRun {
            path,
            stage: LocalReadStage::Complete,
            content: content_of(pieces),
        }),
{
    local_pieces_add_up(path, pieces);
    assert(pieces.push(Seq::empty()).drop_last() == pieces);
}

proof fn local_pieces_add_up(path: Seq<char>, pieces: Seq<Seq<u8>>)
    requires
        forall|i: int| 0 <= i < pieces.len() ==> (#[trigger] pieces[i]).len() > 0,
    ensures
        LocalReadRun::fresh(path).opened().read_all(pieces) == (LocalReadRun {
            path,
            stage: LocalReadStage::Read,
            content: content_of(pieces),
        }),
    decreases pieces.len(),
{
    if pieces.len() > 0 {
        let before = pieces.drop_last();
        assert forall|i: int| 0 <= i < before.len() implies (#[trigger] before[i]).len() > 0 by {
            assert(before[i] == pieces[i]);
        }
        local_pieces_add_up(path, before);
        assert(pieces[pieces.len() - 1].len() > 0);
    }
}

/// A remote file that is there, and that is read to its end and closed, is
/// fingerprinted whole, however it comes in pieces; one that is not there has no
/// fingerprint.
pub proof fn remote_reading_takes_in_the_whole_file(path: Seq<char>, pieces: Seq<Seq<u8>>, found: bool)
    requires
        forall|i: int| 0 <= i < pieces.len() ==> (#[trigger] pieces[i]).len() > 0,
    ensures
        ({
            let asked = SftpReadRun::fresh(path).advance(found);
            if found {
                let closed = asked.advance(true).read_all(pieces.push(Seq::empty())).advance(true);
                closed.stage is Complete && closed.result() == Some(
                    Some(fingerprint(content_of(pieces))),
                )
            } else {
                asked.stage is Absent && asked.result() == Some(None::<Seq<char>>)
            }
        }),
{
    if found {
        remote_pieces_add_up(path, pieces);
        assert(pieces.push(Seq::empty()).drop_last() == pieces);
    }
}

proof fn remote_pieces_add_up(path: Seq<char>, pieces: Seq<Seq<u8>>)
    requires
        forall|i: int| 0 <= i < pieces.len() ==> (#[trigger] pieces[i]).len() > 0,
    ensures
        SftpReadRun::fresh(path).advance(true).advance(true).read_all(pieces) == (SftpReadRun {
            path,
            stage: SftpReadStage::Read,
            content: content_of(pieces),
        }),
    decreases pieces.len(),
{
    if pieces.len() > 0 {
        let before = pieces.drop_last();
        assert forall|i: int| 0 <= i < before.len() implies (#[trigger] before[i]).len() > 0 by {
            assert(before[i] == pieces[i]);
        }
        remote_pieces_add_up(path, before);
        assert(pieces[pieces.len() - 1].len() > 0);
    }
}

/// The local file that is read is the one of the given name, in pieces of at most 64 KiB,
/// until an empty one comes. Only then is there a fingerprint, and it is that of all the
/// pieces in their order; what comes after the end does not count.
pub proof fn local_file_of_that_name_is_fingerprinted(
    path: Seq<char>,
    pieces: Seq<Seq<u8>>,
    later: Seq<u8>,
    first: LocalReadAction,
    next: LocalReadAction,
    last: LocalReadAction,
)
    requires
        forall|i: int| 0 <= i < pieces.len() ==> (#[trigger] pieces[i]).len() > 0,
        is_local_read_action(first, LocalReadRun::fresh(path)),
        is_local_read_action(next, LocalReadRun::fresh(path).opened().read_all(pieces)),
        is_local_read_action(
            last,
            LocalReadRun::fresh(path).opened().read_all(pieces).read(Seq::empty()),
        ),
    ensures
        first matches LocalReadAction::Open(opened) && opened@ == path,
        next matches LocalReadAction::Read { limit } && limit == 65536,
        last is Complete,
        LocalReadRun::fresh(path).result() is None,
        LocalReadRun::fresh(path).opened().read_all(pieces).result() is None,
        LocalReadRun::fresh(path).opened().read_all(pieces).read(Seq::empty()).result() == Some(
            fingerprint(content_of(pieces)),
        ),
        LocalReadRun::fresh(path).opened().read_all(pieces).read(Seq::empty()).read(later).result()
            == Some(fingerprint(content_of(pieces))),
{
    local_pieces_add_up(path, pieces);
}

/// The content that pieces make up is the pieces one behind the other.
pub proof fn content_is_the_pieces_in_order(before: Seq<Seq<u8>>, after: Seq<Seq<u8>>, piece: Seq<u8>)
    ensures
        content_of(seq![piece]) == piece,
        content_of(before + after) == content_of(before) + content_of(after),
    decreases after.len(),
{
    assert(seq![piece].drop_last() == Seq::<Seq<u8>>::empty());
    reveal_with_fuel(content_of, 2);
    assert(Seq::<u8>::empty() + piece == piece);
    if after.len() == 0 {
        assert(before + after == before);
        assert(content_of(before) + content_of(after) == content_of(before));
    } else {
        content_is_the_pieces_in_order(before, after.drop_last(), piece);
        assert((before + after).drop_last() == before + after.drop_last());
        assert(content_of(before + after) == content_of(before) + content_of(after));
    }
}

/// The remote file that is read is the one of the given name: that name is asked for, and
/// if it is there, that file is opened, read in pieces of at most 64 KiB until an empty
/// one comes, and closed. Only then is there a fingerprint. If the name is not there, no
/// file is opened.
pub proof fn remote_file_of_that_name_is_read(path: Seq<char>, pieces: Seq<Seq<u8>>)
    requires
        forall|i: int| 0 <= i < pieces.len() ==> (#[trigger] pieces[i]).len() > 0,
    ensures
        ({
            let asked = SftpReadRun::fresh(path);
            let absent = asked.advance(false);
            let found = asked.advance(true);
            let opened = found.advance(true).read_all(pieces);
            let read = opened.read(Seq::empty());
            let closed = read.advance(true);
            &&& asked.step() == SftpStep::CheckExists(path)
            &&& asked.result() is None
            &&& absent.step() is Complete
            &&& absent.result() == Some(None::<Seq<char>>)
            &&& found.step() == SftpStep::OpenFile(path)
            &&& found.result() is None
            &&& opened.step() == (SftpStep::Read { limit: 65536 })
            &&& opened.result() is None
            &&& read.step() == SftpStep::Close(path)
            &&& read.result() is None
            &&& closed.step() is Complete
            &&& closed.result() == Some(Some(fingerprint(content_of(pieces))))
        }),
{
    remote_pieces_add_up(path, pieces);
}

/// What a failure to read a file is put down to names what was to be done and the path;
/// a failed read speaks for itself.
pub proof fn reading_failures_name_the_file(path: Seq<char>, pieces: Seq<Seq<u8>>)
    requires
        forall|i: int| 0 <= i < pieces.len() ==> (#[trigger] pieces[i]).len() > 0,
    ensures
        ({
            let asked = SftpReadRun::fresh(path);
            let opened = asked.advance(true).advance(true).read_all(pieces);
            &&& asked.failure_text() == Some("failed checking remote path "@ + path)
            &&& asked.advance(false).failure_text() is None
            &&& asked.advance(true).failure_text() == Some("failed to open remote file "@ + path)
            &&& opened.failure_text() is None
            &&& opened.read(Seq::empty()).failure_text() == Some(
                "failed closing remote file "@ + path,
            )
            &&& opened.read(Seq::empty()).advance(true).failure_text() is None
        }),
        LocalReadRun::fresh(path).failure_text() == Some("failed to open "@ + path),
        LocalReadRun::fresh(path).opened().read_all(pieces).failure_text() is None,
{
    remote_pieces_add_up(path, pieces);
    local_pieces_add_up(path, pieces);
}

} // verus!
