//! Fingerprinting a remote file over plain SSH, without SFTP.

use vstd::prelude::*;
use vstd::string::*;

use crate::channel::all_stderr;
use crate::channel::all_stdout;
use crate::channel::failure_is_told_with_its_error_output;
use crate::channel::heard;
use crate::channel::heard_from_the_back;
use crate::channel::is_outcome;
use crate::channel::last_status;
use crate::channel::kept;
use crate::channel::record_sums_up_the_messages;
use crate::channel::silent_failure_is_told_by_its_status;
use crate::channel::ChannelMessage;
use crate::channel::CommandFault;
use crate::channel::CommandLog;
use crate::channel::CommandRecord;
use crate::channel::Message;
use crate::command::CommandAction;
use crate::command::CommandStage;
use crate::digest::fingerprint;
use crate::digest::ContentHasher;
use crate::shell::read_command;
use crate::shell::read_command_has_these_tokens;
use crate::shell::read_command_text;
use crate::shell::tokens;
use crate::shell::Token;
use crate::text::decimal_text;
use crate::text::lossy_text;
use crate::text::trimmed;

verus! {

/// The status with which the remote command says that there is no such file.
pub const NO_SUCH_FILE: u32 = 66;

/// What the reading of `path` amounts to in a failure's text.
pub open spec fn read_subject_text(path: Seq<char>) -> Seq<char> {
    "remote read of "@ + path
}

/// What the reading of `path` amounts to in a failure's text.
pub fn read_subject(path: &str) -> (res: String)
    ensures
        res@ == read_subject_text(path@),
{
    "remote read of ".to_owned().concat(path)
}

/// The reading of a remote file under way.
#[verifier::ext_equal]
pub struct ReadRun {
    pub path: Seq<char>,
    pub stage: CommandStage,
    pub record: CommandRecord,
    /// The content received so far.
    pub content: Seq<u8>,
}

impl ReadRun {
    /// A reading that has not been started.
    pub open spec fn fresh(path: Seq<char>) -> ReadRun {
        ReadRun {
            path,
            stage: CommandStage::OpenChannel,
            record: CommandRecord::fresh(),
            content: Seq::empty(),
        }
    }

    /// The reading after the current step has succeeded.
    pub open spec fn advance(self) -> ReadRun {
        match self.stage {
            CommandStage::OpenChannel => ReadRun { stage: CommandStage::Execute, ..self },
            CommandStage::Execute => ReadRun { stage: CommandStage::Receive, ..self },
            _ => self,
        }
    }

    /// The reading after a message has come, where messages are awaited. The
    /// output of the command is the content of the file.
    pub open spec fn record(self, message: Message) -> ReadRun {
        if self.stage is Receive {
            let record = self.record.record(message);
            ReadRun {
                record,
                stage: if record.ended {
                    CommandStage::Settled
                } else {
                    CommandStage::Receive
                },
                content: self.content + message.stdout(),
                ..self
            }
        } else {
            self
        }
    }

    /// The reading after more messages have come.
    pub open spec fn record_all(self, messages: Seq<Message>) -> ReadRun
        decreases messages.len(),
    {
        if messages.len() == 0 {
            self
        } else {
            self.record_all(messages.drop_last()).record(messages.last())
        }
    }

    /// What a failure of the current step is put down to.
    pub open spec fn failure_text(self) -> Option<Seq<char>> {
        match self.stage {
            CommandStage::OpenChannel => Some("failed to open SSH channel for remote read"@),
            CommandStage::Execute => Some("failed to execute remote file read"@),
            _ => None,
        }
    }
}

/// Whether `result` is what a reading has come to: the fingerprint of the
/// content if the command left with 0, nothing if it left to say that there is
/// no file, and otherwise the failure of the command.
pub open spec fn is_read_result(result: Result<Option<String>, CommandFault>, run: ReadRun) -> bool {
    if run.record.exit_status == Some(0u32) {
        result matches Ok(Some(text)) && text@ == fingerprint(run.content) && text@.len() == 64
    } else if run.record.exit_status == Some(NO_SUCH_FILE) {
        result matches Ok(None)
    } else {
        result matches Err(fault) && is_outcome(Err(fault), run.record)
    }
}

/// Whether `conclusion` is what a reading has come to; nothing yet if it has not
/// settled.
pub open spec fn is_read_conclusion(
    conclusion: Option<Result<Option<String>, CommandFault>>,
    run: ReadRun,
) -> bool {
    match conclusion {
        Some(result) => run.stage is Settled && is_read_result(result, run),
        None => !(run.stage is Settled),
    }
}

/// Whether `action` is what a reading needs next.
pub open spec fn is_read_action(action: CommandAction, run: ReadRun) -> bool {
    match run.stage {
        CommandStage::OpenChannel => action is OpenChannel,
        CommandStage::Execute => action matches CommandAction::Execute { command, want_reply }
            && command@ == read_command_text(run.path) && want_reply,
        CommandStage::Receive => action is Receive,
        CommandStage::Settled => action is Settled,
    }
}

/// Drives the reading of one remote file.
pub struct SshRead {
    path: String,
    stage: CommandStage,
    log: CommandLog,
    hasher: ContentHasher,
}

impl View for SshRead {
    type V = ReadRun;

    closed spec fn view(&self) -> ReadRun {
        ReadRun {
            path: self.path@,
            stage: self.stage,
            record: self.log@,
            content: self.hasher@,
        }
    }
}

impl SshRead {
    /// A reading of `path` that is yet to be started.
    pub fn new(path: &str) -> (res: SshRead)
        ensures
            res@ == ReadRun::fresh(path@),
    {
        SshRead {
            path: path.to_owned(),
            stage: CommandStage::OpenChannel,
            log: CommandLog::new(),
            hasher: ContentHasher::new(),
        }
    }

    /// What to do next.
    pub fn action(&self) -> (res: CommandAction)
        ensures
            is_read_action(res, self@),
    {
        match self.stage {
            CommandStage::OpenChannel => CommandAction::OpenChannel,
            CommandStage::Execute => CommandAction::Execute {
                command: read_command(self.path.as_str()),
                want_reply: true,
            },
            CommandStage::Receive => CommandAction::Receive,
            CommandStage::Settled => CommandAction::Settled,
        }
    }

    /// The current step has succeeded.
    pub fn advance(&mut self)
        ensures
            final(self)@ == old(self)@.advance(),
    {
        match self.stage {
            CommandStage::OpenChannel => {
                self.stage = CommandStage::Execute;
            },
            CommandStage::Execute => {
                self.stage = CommandStage::Receive;
            },
            _ => {},
        }
    }

    /// A message has come.
    pub fn record(&mut self, message: &ChannelMessage)
        ensures
            final(self)@ == old(self)@.record(message@),
    {
        if self.stage == CommandStage::Receive {
            let ghost before = self.hasher@;
            if let ChannelMessage::Data(data) = message {
                self.hasher.update(data.as_slice());
            }
            assert(self.hasher@ == before + message@.stdout());
            self.log.record(message);
            if self.log.ended() {
                self.stage = CommandStage::Settled;
            }
        }
    }

    /// What a failure of the current step is put down to.
    pub fn failure(&self) -> (res: Option<String>)
        ensures
            match res {
                Some(text) => self@.failure_text() == Some(text@),
                None => self@.failure_text() is None,
            },
    {
        match self.stage {
            CommandStage::OpenChannel => Some(
                "failed to open SSH channel for remote read".to_owned(),
            ),
            CommandStage::Execute => Some("failed to execute remote file read".to_owned()),
            _ => None,
        }
    }

    /// The fingerprint of the remote file, or `Ok(None)` if there is no such file;
    /// nothing yet if the reading has not settled.
    pub fn conclude(self) -> (res: Option<Result<Option<String>, CommandFault>>)
        ensures
            is_read_conclusion(res, self@),
    {
        if self.stage != CommandStage::Settled {
            return None;
        }
        if let Some(NO_SUCH_FILE) = self.log.exit_status() {
            return Some(Ok(None));
        }
        match self.log.outcome() {
            Ok(()) => Some(Ok(Some(self.hasher.finish()))),
            Err(fault) => Some(Err(fault)),
        }
    }
}

proof fn record_all_collects(run: ReadRun, messages: Seq<Message>)
    requires
        run == ReadRun::fresh(run.path).advance().advance(),
    ensures
        ({
            let after = run.record_all(messages);
            &&& after.record == run.record.record_all(messages)
            &&& after.path == run.path
            &&& after.stage == if after.record.ended {
                CommandStage::Settled
            } else {
                CommandStage::Receive
            }
            &&& after.content == all_stdout(heard(messages))
        }),
    decreases messages.len(),
{
    if messages.len() > 0 {
        let before = messages.drop_last();
        record_all_collects(run, before);
        record_sums_up_the_messages(before);
        heard_from_the_back(messages);
        if !run.record_all(before).record.ended {
            assert(forall|i: int| 0 <= i < before.len() ==> !(#[trigger] before[i].ends()));
            if messages.last().ends() {
                assert(all_stdout(before) + messages.last().stdout() == all_stdout(before));
            }
        }
    }
}

/// A reading that was started, and whose channel was then read to its end, gives
/// the fingerprint of exactly what the command has printed, however it was cut
/// into messages, if the command's last status was 0, and says that there is no
/// file if that status was 66.
pub proof fn reading_fingerprints_the_output(
    path: Seq<char>,
    messages: Seq<Message>,
    result: Result<Option<String>, CommandFault>,
)
    requires
        exists|i: int| 0 <= i < messages.len() && #[trigger] messages[i].ends(),
        is_read_result(result, ReadRun::fresh(path).advance().advance().record_all(messages)),
    ensures
        ReadRun::fresh(path).advance().advance().record_all(messages).stage is Settled,
        match last_status(heard(messages)) {
            Some(status) => if status == 0 {
                result matches Ok(Some(text)) && text@ == fingerprint(all_stdout(heard(messages)))
                    && text@.len() == 64
            } else if status == NO_SUCH_FILE {
                result matches Ok(None)
            } else {
                result is Err
            },
            None => result matches Err(CommandFault::NoStatus),
        },
{
    record_all_collects(ReadRun::fresh(path).advance().advance(), messages);
    record_sums_up_the_messages(messages);
}

/// A remote file is read on a channel that is opened for it, by a command that tests for
/// that very path and prints that very path, and is sent with a request for an answer.
/// Then messages are awaited for as long as the channel is not done.
pub proof fn reading_names_its_path(
    path: Seq<char>,
    messages: Seq<Message>,
    opening: CommandAction,
    sending: CommandAction,
    awaiting: CommandAction,
)
    requires
        is_read_action(opening, ReadRun::fresh(path)),
        is_read_action(sending, ReadRun::fresh(path).advance()),
        is_read_action(awaiting, ReadRun::fresh(path).advance().advance().record_all(messages)),
    ensures
        opening is OpenChannel,
        sending matches CommandAction::Execute { command, want_reply } && want_reply && tokens(
            command@,
        ) == Some(
            seq![
                Token::Word("if"@),
                Token::Word("["@),
                Token::Word("-f"@),
                Token::Word(path),
                Token::Word("]"@),
                Token::Operator(';'),
                Token::Word("then"@),
                Token::Word("cat"@),
                Token::Operator('<'),
                Token::Word(path),
                Token::Operator(';'),
                Token::Word("else"@),
                Token::Word("exit"@),
                Token::Word("66"@),
                Token::Operator(';'),
                Token::Word("fi"@),
            ],
        ),
        if exists|i: int|
            0 <= i < messages.len() && (#[trigger] messages[i] == Message::Close || messages[i]
                == Message::End) {
            awaiting is Settled
        } else {
            awaiting is Receive
        },
{
    read_command_has_these_tokens(path);
    record_all_collects(ReadRun::fresh(path).advance().advance(), messages);
    record_sums_up_the_messages(messages);
    if exists|i: int|
        0 <= i < messages.len() && (#[trigger] messages[i] == Message::Close || messages[i]
            == Message::End) {
        let i = choose|i: int|
            0 <= i < messages.len() && (#[trigger] messages[i] == Message::Close || messages[i]
                == Message::End);
        assert(messages[i].ends());
    } else {
        assert forall|i: int| 0 <= i < messages.len() implies !(#[trigger] messages[i].ends()) by {}
    }
}

/// While messages are awaited, the data of each goes behind the content received so far;
/// error output and everything else leave it as it is.
pub proof fn only_data_is_content(run: ReadRun, message: Message)
    requires
        run.stage is Receive,
    ensures
        run.record(message).content == match message {
            Message::Data(data) => run.content + data,
            _ => run.content,
        },
        run.record(message).path == run.path,
{
    assert(run.content + Seq::<u8>::empty() == run.content);
}

/// What a reading comes to, by the last status of its command: the fingerprint of the
/// output for 0, no file for 66, and for any other status, or none, a failure that tells
/// the path and the status.
pub proof fn reading_is_settled_by_the_status(
    path: Seq<char>,
    messages: Seq<Message>,
    result: Result<Option<String>, CommandFault>,
)
    requires
        exists|i: int| 0 <= i < messages.len() && #[trigger] messages[i].ends(),
        is_read_result(result, ReadRun::fresh(path).advance().advance().record_all(messages)),
    ensures
        match result {
            Ok(Some(text)) => last_status(heard(messages)) == Some(0u32) && text@ == fingerprint(
                all_stdout(heard(messages)),
            ),
            Ok(None) => last_status(heard(messages)) == Some(66u32),
            Err(fault) => {
                let subject = "remote read of "@ + path;
                match last_status(heard(messages)) {
                    Some(status) => {
                        &&& status != 0 && status != 66
                        &&& fault.text(read_subject_text(path)) == if all_stderr(
                            heard(messages),
                        ).len() == 0 {
                            subject + " exited with status "@ + decimal_text(status as nat)
                        } else {
                            subject + " exited with status "@ + decimal_text(status as nat) + ": "@
                                + trimmed(lossy_text(kept(all_stderr(heard(messages)))))
                        }
                    },
                    None => fault.text(read_subject_text(path)) == subject
                        + " closed without an exit status"@,
                }
            },
        },
{
    let run = ReadRun::fresh(path).advance().advance().record_all(messages);
    record_all_collects(ReadRun::fresh(path).advance().advance(), messages);
    record_sums_up_the_messages(messages);
    if let Err(fault) = result {
        if run.record.exit_status is Some {
            if run.record.stderr.len() == 0 {
                silent_failure_is_told_by_its_status(
                    run.record,
                    Err(fault),
                    read_subject_text(path),
                );
            } else {
                failure_is_told_with_its_error_output(
                    run.record,
                    Err(fault),
                    read_subject_text(path),
                );
            }
        }
    }
}

/// What a failure to start a reading is put down to.
pub proof fn reading_failures_tell_the_step(path: Seq<char>, messages: Seq<Message>)
    ensures
        ReadRun::fresh(path).failure_text() == Some("failed to open SSH channel for remote read"@),
        ReadRun::fresh(path).advance().failure_text() == Some(
            "failed to execute remote file read"@,
        ),
        ReadRun::fresh(path).advance().advance().record_all(messages).failure_text() is None,
{
    record_all_collects(ReadRun::fresh(path).advance().advance(), messages);
}

/// A reading has come to something exactly once its channel is done: to the fingerprint
/// of what the command has printed if its last status was 0, to there being no file if
/// that was 66, and to a failure otherwise.
pub proof fn reading_concludes_when_the_channel_is_done(
    path: Seq<char>,
    messages: Seq<Message>,
    conclusion: Option<Result<Option<String>, CommandFault>>,
)
    requires
        is_read_conclusion(
            conclusion,
            ReadRun::fresh(path).advance().advance().record_all(messages),
        ),
    ensures
        conclusion is Some <==> exists|i: int|
            0 <= i < messages.len() && #[trigger] messages[i].ends(),
        conclusion matches Some(result) ==> match result {
            Ok(Some(text)) => last_status(heard(messages)) == Some(0u32) && text@ == fingerprint(
                all_stdout(heard(messages)),
            ),
            Ok(None) => last_status(heard(messages)) == Some(66u32),
            Err(_) => last_status(heard(messages)) != Some(0u32) && last_status(heard(messages))
                != Some(66u32),
        },
{
    record_all_collects(ReadRun::fresh(path).advance().advance(), messages);
    record_sums_up_the_messages(messages);
}

} // verus!
