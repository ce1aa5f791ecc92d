//! Uploading a file over plain SSH: into a temporary file first, which then
//! takes the place of the destination.

use vstd::prelude::*;
use vstd::string::*;

use crate::channel::heard;
use crate::channel::is_outcome;
use crate::channel::last_status;
use crate::channel::record_sums_up_the_messages;
use crate::channel::ChannelMessage;
use crate::channel::CommandFault;
use crate::channel::CommandLog;
use crate::channel::CommandRecord;
use crate::channel::Message;
use crate::path::parent_of;
use crate::path::temporary_of;
use crate::shell::move_command;
use crate::shell::move_command_has_these_tokens;
use crate::shell::move_command_text;
use crate::shell::tokens;
use crate::shell::upload_command;
use crate::shell::upload_command_has_these_tokens;
use crate::shell::upload_command_text;
use crate::shell::Token;
use crate::text::decimal_text;

verus! {

/// How far an upload over SSH has come.
#[derive(Debug, Clone, Copy, PartialEq, Eq, Structural)]
pub enum SshUploadStage {
    /// A channel has to be opened.
    OpenChannel,
    /// The command that receives the file has to be sent.
    Execute,
    /// The local file has to be opened.
    OpenSource,
    /// The local file has to be sent.
    Stream,
    /// The end of the file has to be sent.
    SendEof,
    /// Messages have to be awaited.
    Receive,
    /// The channel is done; the command has to be held to its status.
    Settle,
    /// The temporary file has to take the place of the destination.
    Replace,
    /// The destination has been replaced.
    Complete,
}

/// What to do next for an upload over SSH.
#[derive(Debug)]
pub enum SshUploadAction {
    OpenChannel,
    /// Send this command on the channel; `want_reply` tells whether the server is
    /// asked to answer.
    Execute { command: String, want_reply: bool },
    /// Open this local file.
    OpenSource(String),
    /// Send the local file as the input of the command.
    Stream,
    /// Send the end of the input.
    SendEof,
    Receive,
    Settle,
    /// Run this command on a channel of its own.
    Run(String),
    Complete,
}

/// What an upload amounts to in a failure's text.
pub open spec fn upload_subject_text() -> Seq<char> {
    "remote upload command"@
}

/// An upload over SSH under way.
#[verifier::ext_equal]
pub struct SshUploadRun {
    pub src: Seq<char>,
    pub dest: Seq<char>,
    pub stage: SshUploadStage,
    pub record: CommandRecord,
}

/// What can happen to an upload over SSH.
pub enum SshUploadEvent {
    /// The current step has succeeded.
    Advance,
    /// A message has come.
    Record(Message),
    /// The command has been held to its status.
    Settle,
}

impl SshUploadRun {
    /// An upload that has not been started.
    pub open spec fn fresh(src: Seq<char>, dest: Seq<char>) -> SshUploadRun {
        SshUploadRun {
            src,
            dest,
            stage: SshUploadStage::OpenChannel,
            record: CommandRecord::fresh(),
        }
    }

    /// The upload after the current step has succeeded. Only a message takes it
    /// on from where messages are awaited, and only the right status from where
    /// the command is held to it.
    pub open spec fn advance(self) -> SshUploadRun {
        match self.stage {
            SshUploadStage::OpenChannel => SshUploadRun { stage: SshUploadStage::Execute, ..self },
            SshUploadStage::Execute => SshUploadRun { stage: SshUploadStage::OpenSource, ..self },
            SshUploadStage::OpenSource => SshUploadRun { stage: SshUploadStage::Stream, ..self },
            SshUploadStage::Stream => SshUploadRun { stage: SshUploadStage::SendEof, ..self },
            SshUploadStage::SendEof => SshUploadRun { stage: SshUploadStage::Receive, ..self },
            SshUploadStage::Replace => SshUploadRun { stage: SshUploadStage::Complete, ..self },
            _ => self,
        }
    }

    /// The upload after a message has come, where messages are awaited.
    pub open spec fn record(self, message: Message) -> SshUploadRun {
        if self.stage is Receive {
            let record = self.record.record(message);
            SshUploadRun {
                record,
                stage: if record.ended {
                    SshUploadStage::Settle
                } else {
                    SshUploadStage::Receive
                },
                ..self
            }
        } else {
            self
        }
    }

    /// The upload after more messages have come.
    pub open spec fn record_all(self, messages: Seq<Message>) -> SshUploadRun
        decreases messages.len(),
    {
        if messages.len() == 0 {
            self
        } else {
            self.record_all(messages.drop_last()).record(messages.last())
        }
    }

    /// The upload after the command has been held to its status: it goes on only
    /// if that was 0.
    pub open spec fn settle(self) -> SshUploadRun {
        if self.stage is Settle && self.record.exit_status == Some(0u32) {
            SshUploadRun { stage: SshUploadStage::Replace, ..self }
        } else {
            self
        }
    }

    /// The upload after `event`.
    pub open spec fn apply(self, event: SshUploadEvent) -> SshUploadRun {
        match event {
            SshUploadEvent::Advance => self.advance(),
            SshUploadEvent::Record(message) => self.record(message),
            SshUploadEvent::Settle => self.settle(),
        }
    }

    /// The upload after all of `events`.
    pub open spec fn apply_all(self, events: Seq<SshUploadEvent>) -> SshUploadRun
        decreases events.len(),
    {
        if events.len() == 0 {
            self
        } else {
            self.apply_all(events.drop_last()).apply(events.last())
        }
    }

    /// What a failure of the current step is put down to.
    pub open spec fn failure_text(self) -> Option<Seq<char>> {
        match self.stage {
            SshUploadStage::OpenChannel => Some("failed to open SSH channel for upload"@),
            SshUploadStage::Execute => Some("failed to start remote upload"@),
            SshUploadStage::OpenSource => Some("failed to open local file "@ + self.src),
            SshUploadStage::Stream => Some(
                "failed streaming "@ + self.src + " to remote host"@,
            ),
            SshUploadStage::SendEof => Some("failed sending upload EOF"@),
            SshUploadStage::Replace => Some("failed replacing destination "@ + self.dest),
            _ => None,
        }
    }
}

/// Whether `action` is what an upload needs next.
pub open spec fn is_ssh_upload_action(action: SshUploadAction, run: SshUploadRun) -> bool {
    match run.stage {
        SshUploadStage::OpenChannel => action is OpenChannel,
        SshUploadStage::Execute => action matches SshUploadAction::Execute { command, want_reply }
            && command@ == upload_command_text(run.dest) && want_reply,
        SshUploadStage::OpenSource => action matches SshUploadAction::OpenSource(path) && path@
            == run.src,
        SshUploadStage::Stream => action is Stream,
        SshUploadStage::SendEof => action is SendEof,
        SshUploadStage::Receive => action is Receive,
        SshUploadStage::Settle => action is Settle,
        SshUploadStage::Replace => action matches SshUploadAction::Run(command) && command@
            == move_command_text(run.dest),
        SshUploadStage::Complete => action is Complete,
    }
}

/// Whether `settled` is what the command that received the file has come to, where
/// that is what to find out next.
pub open spec fn is_settlement(
    settled: Option<Result<(), CommandFault>>,
    run: SshUploadRun,
) -> bool {
    match settled {
        Some(outcome) => run.stage is Settle && is_outcome(outcome, run.record),
        None => !(run.stage is Settle),
    }
}

/// Drives the upload of one file over SSH.
#[derive(Debug)]
pub struct SshUpload {
    src: String,
    dest: String,
    stage: SshUploadStage,
    log: CommandLog,
}

impl View for SshUpload {
    type V = SshUploadRun;

    closed spec fn view(&self) -> SshUploadRun {
        SshUploadRun {
            src: self.src@,
            dest: self.dest@,
            stage: self.stage,
            record: self.log@,
        }
    }
}

impl SshUpload {
    /// An upload of the local file `src` to `dest` that is yet to be started.
    pub fn new(src: &str, dest: &str) -> (res: SshUpload)
        ensures
            res@ == SshUploadRun::fresh(src@, dest@),
    {
        SshUpload {
            src: src.to_owned(),
            dest: dest.to_owned(),
            stage: SshUploadStage::OpenChannel,
            log: CommandLog::new(),
        }
    }

    /// What to do next.
    pub fn action(&self) -> (res: SshUploadAction)
        ensures
            is_ssh_upload_action(res, self@),
    {
        match self.stage {
            SshUploadStage::OpenChannel => SshUploadAction::OpenChannel,
            SshUploadStage::Execute => SshUploadAction::Execute {
                command: upload_command(self.dest.as_str()),
                want_reply: true,
            },
            SshUploadStage::OpenSource => SshUploadAction::OpenSource(self.src.clone()),
            SshUploadStage::Stream => SshUploadAction::Stream,
            SshUploadStage::SendEof => SshUploadAction::SendEof,
            SshUploadStage::Receive => SshUploadAction::Receive,
            SshUploadStage::Settle => SshUploadAction::Settle,
            SshUploadStage::Replace => SshUploadAction::Run(move_command(self.dest.as_str())),
            SshUploadStage::Complete => SshUploadAction::Complete,
        }
    }

    /// The current step has succeeded.
    pub fn advance(&mut self)
        ensures
            final(self)@ == old(self)@.advance(),
    {
        self.stage = match self.stage {
            SshUploadStage::OpenChannel => SshUploadStage::Execute,
            SshUploadStage::Execute => SshUploadStage::OpenSource,
            SshUploadStage::OpenSource => SshUploadStage::Stream,
            SshUploadStage::Stream => SshUploadStage::SendEof,
            SshUploadStage::SendEof => SshUploadStage::Receive,
            SshUploadStage::Replace => SshUploadStage::Complete,
            stage => stage,
        };
    }

    /// A message has come.
    pub fn record(&mut self, message: &ChannelMessage)
        ensures
            final(self)@ == old(self)@.record(message@),
    {
        if self.stage == SshUploadStage::Receive {
            self.log.record(message);
            if self.log.ended() {
                self.stage = SshUploadStage::Settle;
            }
        }
    }

    /// Holds the command that received the file to its status, where that is what
    /// to do next.
    pub fn settle(&mut self) -> (res: Option<Result<(), CommandFault>>)
        ensures
            is_settlement(res, old(self)@),
            final(self)@ == old(self)@.settle(),
    {
        if self.stage != SshUploadStage::Settle {
            return None;
        }
        let outcome = self.log.outcome();
        if outcome.is_ok() {
            self.stage = SshUploadStage::Replace;
        }
        Some(outcome)
    }

    /// What a failure of the current step is put down to.
    pub fn failure(&self) -> (res: Option<String>)
        ensures
            match res {
                Some(text) => self@.failure_text() == Some(text@),
                None => self@.failure_text() is None,
            },
    {
        match self.stage {
            SshUploadStage::OpenChannel => Some(
                "failed to open SSH channel for upload".to_owned(),
            ),
            SshUploadStage::Execute => Some("failed to start remote upload".to_owned()),
            SshUploadStage::OpenSource => Some(
                "failed to open local file ".to_owned().concat(self.src.as_str()),
            ),
            SshUploadStage::Stream => Some(
                "failed streaming ".to_owned().concat(self.src.as_str()).concat(" to remote host"),
            ),
            SshUploadStage::SendEof => Some("failed sending upload EOF".to_owned()),
            SshUploadStage::Replace => Some(
                "failed replacing destination ".to_owned().concat(self.dest.as_str()),
            ),
            _ => None,
        }
    }

    /// The text of a failed outcome of the command that received the file.
    pub fn fault_message(&self, fault: &CommandFault) -> (res: String)
        ensures
            res@ == fault.text(upload_subject_text()),
    {
        fault.message("remote upload command")
    }
}

/// The messages among `events` that came while messages were awaited.
pub open spec fn awaited_messages(run: SshUploadRun, events: Seq<SshUploadEvent>) -> Seq<Message>
    decreases events.len(),
{
    if events.len() == 0 {
        Seq::empty()
    } else {
        let before = awaited_messages(run, events.drop_last());
        match events.last() {
            SshUploadEvent::Record(message) => if run.apply_all(events.drop_last()).stage is Receive {
                before.push(message)
            } else {
                before
            },
            _ => before,
        }
    }
}

/// The stages that an upload has been through, the current one last.
pub open spec fn stages(run: SshUploadRun, events: Seq<SshUploadEvent>) -> Seq<SshUploadStage>
    decreases events.len(),
{
    if events.len() == 0 {
        seq![run.stage]
    } else {
        stages(run, events.drop_last()).push(run.apply_all(events).stage)
    }
}

proof fn record_is_of_awaited_messages(src: Seq<char>, dest: Seq<char>, events: Seq<SshUploadEvent>)
    ensures
        ({
            let fresh = SshUploadRun::fresh(src, dest);
            let run = fresh.apply_all(events);
            let messages = awaited_messages(fresh, events);
            &&& run.src == src
            &&& run.dest == dest
            &&& run.record == CommandRecord::fresh().record_all(messages)
            &&& run.stage is Settle ==> run.record.ended
            &&& run.stage is Replace || run.stage is Complete ==> run.record.ended
                && run.record.exit_status == Some(0u32)
        }),
    decreases events.len(),
{
    if events.len() > 0 {
        record_is_of_awaited_messages(src, dest, events.drop_last());
        let fresh = SshUploadRun::fresh(src, dest);
        let messages = awaited_messages(fresh, events);
        if events.last() is Record && fresh.apply_all(events.drop_last()).stage is Receive {
            assert(messages.drop_last() == awaited_messages(fresh, events.drop_last()));
        }
    }
}

/// The command that replaces the destination is asked for only once the whole
/// file and its end have been sent, and the command that received it has left
/// with status 0, by the last status that came before its channel was done.
pub proof fn destination_is_replaced_only_after_a_complete_upload(
    src: Seq<char>,
    dest: Seq<char>,
    events: Seq<SshUploadEvent>,
)
    requires
        ({
            let stage = SshUploadRun::fresh(src, dest).apply_all(events).stage;
            stage is Replace || stage is Complete
        }),
    ensures
        stages(SshUploadRun::fresh(src, dest), events).contains(SshUploadStage::Stream),
        stages(SshUploadRun::fresh(src, dest), events).contains(SshUploadStage::SendEof),
        last_status(heard(awaited_messages(SshUploadRun::fresh(src, dest), events))) == Some(0u32),
{
    record_is_of_awaited_messages(src, dest, events);
    record_sums_up_the_messages(awaited_messages(SshUploadRun::fresh(src, dest), events));
    stages_are_passed_in_order(src, dest, events);
}

spec fn rank(stage: SshUploadStage) -> int {
    match stage {
        SshUploadStage::OpenChannel => 0,
        SshUploadStage::Execute => 1,
        SshUploadStage::OpenSource => 2,
        SshUploadStage::Stream => 3,
        SshUploadStage::SendEof => 4,
        SshUploadStage::Receive => 5,
        SshUploadStage::Settle => 6,
        SshUploadStage::Replace => 7,
        SshUploadStage::Complete => 8,
    }
}

proof fn stages_are_passed_in_order(src: Seq<char>, dest: Seq<char>, events: Seq<SshUploadEvent>)
    ensures
        ({
            let passed = stages(SshUploadRun::fresh(src, dest), events);
            &&& passed.len() > 0
            &&& passed.last() == SshUploadRun::fresh(src, dest).apply_all(events).stage
            &&& forall|stage: SshUploadStage| rank(stage) <= rank(passed.last()) ==> #[trigger] passed.contains(
                stage,
            )
        }),
    decreases events.len(),
{
    let fresh = SshUploadRun::fresh(src, dest);
    let passed = stages(fresh, events);
    if events.len() > 0 {
        stages_are_passed_in_order(src, dest, events.drop_last());
        let before = stages(fresh, events.drop_last());
        assert(rank(passed.last()) <= rank(before.last()) + 1);
        assert forall|stage: SshUploadStage| rank(stage) <= rank(passed.last()) implies #[trigger] passed.contains(
            stage,
        ) by {
            if rank(stage) <= rank(before.last()) {
                assert(before.contains(stage));
                let i = choose|i: int| 0 <= i < before.len() && before[i] == stage;
                assert(passed[i] == stage);
            } else {
                assert(stage == passed.last());
                assert(passed[passed.len() - 1] == stage);
            }
        }
    } else {
        assert(passed[0] == SshUploadStage::OpenChannel);
    }
}

/// An upload that has sent the whole file and awaits messages.
pub open spec fn sent(src: Seq<char>, dest: Seq<char>) -> SshUploadRun {
    SshUploadRun::fresh(src, dest).advance().advance().advance().advance().advance()
}

/// Whether a command, to a shell, makes the directory of `dest`, if it names one, and
/// then writes its input under the temporary name of `dest`.
pub open spec fn receives(command: Seq<char>, dest: Seq<char>) -> bool {
    tokens(command) == Some(
        match parent_of(dest) {
            Some(parent) => seq![Token::Word("mkdir"@), Token::Word("-p"@), Token::Word(parent)],
            None => seq![Token::Word(":"@)],
        } + seq![
            Token::Operator('&'),
            Token::Operator('&'),
            Token::Word("cat"@),
            Token::Operator('>'),
            Token::Word(temporary_of(dest)),
        ],
    )
}

/// Whether a command, to a shell, moves the temporary file of `dest` to `dest`.
pub open spec fn replaces(command: Seq<char>, dest: Seq<char>) -> bool {
    tokens(command) == Some(
        seq![
            Token::Word("mv"@),
            Token::Word("-f"@),
            Token::Word(temporary_of(dest)),
            Token::Word(dest),
        ],
    )
}

pub(crate) proof fn messages_are_collected(src: Seq<char>, dest: Seq<char>, messages: Seq<Message>)
    ensures
        ({
            let after = sent(src, dest).record_all(messages);
            &&& after.src == src
            &&& after.dest == dest
            &&& after.record == CommandRecord::fresh().record_all(messages)
            &&& after.stage == if after.record.ended {
                SshUploadStage::Settle
            } else {
                SshUploadStage::Receive
            }
        }),
    decreases messages.len(),
{
    if messages.len() > 0 {
        messages_are_collected(src, dest, messages.drop_last());
    }
}

/// What is done in an upload from `src` to `dest`. A channel is opened; the command that
/// receives the file is sent on it, with a request for an answer; `src` is opened, and
/// sent, and its end is sent.
pub proof fn upload_sends_the_source(
    src: Seq<char>,
    dest: Seq<char>,
    opening: SshUploadAction,
    sending: SshUploadAction,
    source: SshUploadAction,
    streaming: SshUploadAction,
    ending: SshUploadAction,
)
    requires
        is_ssh_upload_action(opening, SshUploadRun::fresh(src, dest)),
        is_ssh_upload_action(sending, SshUploadRun::fresh(src, dest).advance()),
        is_ssh_upload_action(source, SshUploadRun::fresh(src, dest).advance().advance()),
        is_ssh_upload_action(
            streaming,
            SshUploadRun::fresh(src, dest).advance().advance().advance(),
        ),
        is_ssh_upload_action(
            ending,
            SshUploadRun::fresh(src, dest).advance().advance().advance().advance(),
        ),
    ensures
        opening is OpenChannel,
        sending matches SshUploadAction::Execute { command, want_reply } && receives(
            command@,
            dest,
        ) && want_reply,
        source matches SshUploadAction::OpenSource(path) && path@ == src,
        streaming is Stream,
        ending is SendEof,
{
    upload_command_has_these_tokens(dest);
}

/// What is done once the file has been sent. Messages are awaited for as long as the
/// channel is not done, and then the command is held to its status. If the last status
/// was 0, the temporary file is moved to `dest`, and only when that has been done is the
/// upload complete. If it was another, or none came, nothing is moved and the upload does
/// not go on, whatever is reported done.
pub proof fn upload_replaces_the_destination_on_success(
    src: Seq<char>,
    dest: Seq<char>,
    messages: Seq<Message>,
    awaiting: SshUploadAction,
    settled: SshUploadAction,
    advanced: SshUploadAction,
)
    requires
        is_ssh_upload_action(awaiting, sent(src, dest).record_all(messages)),
        is_ssh_upload_action(settled, sent(src, dest).record_all(messages).settle()),
        is_ssh_upload_action(advanced, sent(src, dest).record_all(messages).settle().advance()),
    ensures
        if exists|i: int|
            0 <= i < messages.len() && (#[trigger] messages[i] == Message::Close || messages[i]
                == Message::End) {
            &&& awaiting is Settle
            &&& if last_status(heard(messages)) == Some(0u32) {
                &&& settled matches SshUploadAction::Run(command) && replaces(command@, dest)
                &&& advanced is Complete
            } else {
                settled is Settle && advanced is Settle
            }
        } else {
            awaiting is Receive && settled is Receive && advanced is Receive
        },
{
    move_command_has_these_tokens(dest);
    messages_are_collected(src, dest, messages);
    record_sums_up_the_messages(messages);
    if exists|i: int|
        0 <= i < messages.len() && (#[trigger] messages[i] == Message::Close || messages[i]
            == Message::End) {
        let i = choose|i: int|
            0 <= i < messages.len() && (#[trigger] messages[i] == Message::Close || messages[i]
                == Message::End);
        assert(messages[i].ends());
    } else {
        assert forall|i: int| 0 <= i < messages.len() implies !(#[trigger] messages[i].ends()) by {}
    }
}

/// Whether all that an upload can ask for is to open the local file of this name.
pub open spec fn asks_for_source(run: SshUploadRun, src: Seq<char>) -> bool {
    forall|action: SshUploadAction| #[trigger]
        is_ssh_upload_action(action, run) ==> (action matches SshUploadAction::OpenSource(path)
            && path@ == src)
}

/// Whether all that an upload can ask for is to send the local file.
pub open spec fn asks_to_stream(run: SshUploadRun) -> bool {
    forall|action: SshUploadAction| #[trigger] is_ssh_upload_action(action, run) ==> action is Stream
}

/// Whether all that an upload can ask for is to send the end of the file.
pub open spec fn asks_for_the_end(run: SshUploadRun) -> bool {
    forall|action: SshUploadAction| #[trigger] is_ssh_upload_action(action, run) ==> action is SendEof
}

/// Whether all that an upload can ask for is to run a command that moves the temporary
/// file to `dest`.
pub open spec fn asks_to_replace(run: SshUploadRun, dest: Seq<char>) -> bool {
    forall|action: SshUploadAction| #[trigger]
        is_ssh_upload_action(action, run) ==> (action matches SshUploadAction::Run(command)
            && replaces(command@, dest))
}

/// The upload before the event of number `i`.
pub open spec fn before(
    src: Seq<char>,
    dest: Seq<char>,
    events: Seq<SshUploadEvent>,
    i: int,
) -> SshUploadRun {
    SshUploadRun::fresh(src, dest).apply_all(events.take(i))
}

proof fn each_stage_was_left(
    src: Seq<char>,
    dest: Seq<char>,
    events: Seq<SshUploadEvent>,
    stage: SshUploadStage,
)
    requires
        rank(stage) < rank(SshUploadRun::fresh(src, dest).apply_all(events).stage),
        rank(stage) < 5 || rank(stage) == 7,
    ensures
        exists|i: int|
            0 <= i < events.len() && events[i] is Advance && (#[trigger] before(
                src,
                dest,
                events,
                i,
            )).stage == stage,
    decreases events.len(),
{
    if events.len() > 0 {
        let n = events.len() - 1;
        let earlier = events.drop_last();
        let run = SshUploadRun::fresh(src, dest).apply_all(earlier);
        assert(events.take(n) == earlier);
        if rank(run.stage) > rank(stage) {
            each_stage_was_left(src, dest, earlier, stage);
            let i = choose|i: int|
                0 <= i < earlier.len() && earlier[i] is Advance && (#[trigger] before(
                    src,
                    dest,
                    earlier,
                    i,
                )).stage == stage;
            assert(events.take(i) == earlier.take(i));
            assert(before(src, dest, events, i).stage == stage);
            assert(events[i] == earlier[i]);
        } else {
            assert(before(src, dest, events, n) == run);
            assert(run.stage == stage);
        }
    }
}

/// Whatever happens, and in whatever order: the destination is replaced only once `src`
/// has been opened and sent, its end has been sent, and the last status of the command
/// that received it was 0; and an upload is complete only once the destination has been
/// replaced as well.
pub proof fn upload_is_complete_only_when_replaced(
    src: Seq<char>,
    dest: Seq<char>,
    events: Seq<SshUploadEvent>,
    action: SshUploadAction,
)
    requires
        is_ssh_upload_action(action, SshUploadRun::fresh(src, dest).apply_all(events)),
        action is Run || action is Complete,
    ensures
        action matches SshUploadAction::Run(command) ==> replaces(command@, dest),
        last_status(heard(awaited_messages(SshUploadRun::fresh(src, dest), events))) == Some(0u32),
        exists|i: int|
            0 <= i < events.len() && events[i] is Advance && asks_for_source(
                #[trigger] before(src, dest, events, i),
                src,
            ),
        exists|i: int|
            0 <= i < events.len() && events[i] is Advance && asks_to_stream(
                #[trigger] before(src, dest, events, i),
            ),
        exists|i: int|
            0 <= i < events.len() && events[i] is Advance && asks_for_the_end(
                #[trigger] before(src, dest, events, i),
            ),
        action is Complete ==> exists|i: int|
            0 <= i < events.len() && events[i] is Advance && asks_to_replace(
                #[trigger] before(src, dest, events, i),
                dest,
            ),
{
    move_command_has_these_tokens(dest);
    record_is_of_awaited_messages(src, dest, events);
    record_sums_up_the_messages(awaited_messages(SshUploadRun::fresh(src, dest), events));
    each_stage_was_left(src, dest, events, SshUploadStage::OpenSource);
    each_stage_was_left(src, dest, events, SshUploadStage::Stream);
    each_stage_was_left(src, dest, events, SshUploadStage::SendEof);
    let i = choose|i: int|
        0 <= i < events.len() && events[i] is Advance && (#[trigger] before(src, dest, events, i)).stage
            == SshUploadStage::OpenSource;
    record_is_of_awaited_messages(src, dest, events.take(i));
    assert(asks_for_source(before(src, dest, events, i), src));
    let j = choose|j: int|
        0 <= j < events.len() && events[j] is Advance && (#[trigger] before(src, dest, events, j)).stage
            == SshUploadStage::Stream;
    assert(asks_to_stream(before(src, dest, events, j)));
    let k = choose|k: int|
        0 <= k < events.len() && events[k] is Advance && (#[trigger] before(src, dest, events, k)).stage
            == SshUploadStage::SendEof;
    assert(asks_for_the_end(before(src, dest, events, k)));
    if action is Complete {
        each_stage_was_left(src, dest, events, SshUploadStage::Replace);
        let m = choose|m: int|
            0 <= m < events.len() && events[m] is Advance && (#[trigger] before(src, dest, events, m)).stage
                == SshUploadStage::Replace;
        record_is_of_awaited_messages(src, dest, events.take(m));
        assert(asks_to_replace(before(src, dest, events, m), dest));
    }
}

/// What a failure of an upload is put down to names what was to be done: opening the
/// file and sending it name the local file, and replacing the destination names that.
pub proof fn ssh_upload_failures_name_the_step(
    src: Seq<char>,
    dest: Seq<char>,
    events: Seq<SshUploadEvent>,
    action: SshUploadAction,
)
    requires
        is_ssh_upload_action(action, SshUploadRun::fresh(src, dest).apply_all(events)),
    ensures
        ({
            let told = SshUploadRun::fresh(src, dest).apply_all(events).failure_text();
            match action {
                SshUploadAction::OpenChannel => told == Some(
                    "failed to open SSH channel for upload"@,
                ),
                SshUploadAction::Execute { .. } => told == Some("failed to start remote upload"@),
                SshUploadAction::OpenSource(path) => path@ == src && told == Some(
                    "failed to open local file "@ + src,
                ),
                SshUploadAction::Stream => told == Some(
                    "failed streaming "@ + src + " to remote host"@,
                ),
                SshUploadAction::SendEof => told == Some("failed sending upload EOF"@),
                SshUploadAction::Run(_) => told == Some("failed replacing destination "@ + dest),
                _ => told is None,
            }
        }),
{
    record_is_of_awaited_messages(src, dest, events);
}

/// The command that received a file is held to its status exactly once its channel is
/// done, and has succeeded exactly if the last status before that was 0. What is told of
/// a failure is that status, or that none came.
pub proof fn upload_is_settled_when_the_channel_is_done(
    src: Seq<char>,
    dest: Seq<char>,
    messages: Seq<Message>,
    settled: Option<Result<(), CommandFault>>,
)
    requires
        is_settlement(settled, sent(src, dest).record_all(messages)),
    ensures
        settled is Some <==> exists|i: int|
            0 <= i < messages.len() && #[trigger] messages[i].ends(),
        settled matches Some(Ok(())) ==> last_status(heard(messages)) == Some(0u32),
        settled matches Some(Err(fault)) ==> match last_status(heard(messages)) {
            Some(status) => {
                let told = fault.text(upload_subject_text());
                let start = "remote upload command exited with status "@ + decimal_text(
                    status as nat,
                );
                status != 0 && start.is_prefix_of(told)
            },
            None => fault.text(upload_subject_text())
                == "remote upload command closed without an exit status"@,
        },
{
    messages_are_collected(src, dest, messages);
    record_sums_up_the_messages(messages);
    reveal_strlit("remote upload command");
    reveal_strlit(" exited with status ");
    reveal_strlit("remote upload command exited with status ");
    reveal_strlit(" closed without an exit status");
    reveal_strlit("remote upload command closed without an exit status");
    assert("remote upload command"@ + " exited with status "@
        == "remote upload command exited with status "@);
    assert("remote upload command"@ + " closed without an exit status"@
        == "remote upload command closed without an exit status"@);
}

} // verus!
