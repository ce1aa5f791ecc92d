//! What comes back over an SSH channel while a remote command runs.

use vstd::prelude::*;
use vstd::slice::*;
use vstd::string::*;
use vstd::utf8::*;

use crate::text::decimal;
use crate::text::decimal_text;
use crate::text::from_utf8_lossy;
use crate::text::lossy_text;
use crate::text::trim;
use crate::text::trimmed;

verus! {

/// The number of bytes of error output that are kept.
pub const STDERR_LIMIT: usize = 4096;

/// The type of extended data that carries error output.
pub const STDERR_TYPE: u32 = 1;

/// A message of a channel, as far as it matters here.
#[derive(Debug)]
pub enum ChannelMessage {
    /// Output of the command.
    Data(Vec<u8>),
    /// Output of another type: error output, where `ext` says so.
    ExtendedData { data: Vec<u8>, ext: u32 },
    /// The status with which the command has left.
    ExitStatus(u32),
    /// The channel was closed.
    Close,
    /// The channel has no more messages.
    End,
    /// Anything else.
    Other,
}

/// A message of a channel, with its data as a sequence.
pub enum Message {
    Data(Seq<u8>),
    ExtendedData { data: Seq<u8>, ext: u32 },
    ExitStatus(u32),
    Close,
    End,
    Other,
}

impl View for ChannelMessage {
    type V = Message;

    open spec fn view(&self) -> Message {
        match self {
            ChannelMessage::Data(data) => Message::Data(data@),
            ChannelMessage::ExtendedData { data, ext } => Message::ExtendedData {
                data: data@,
                ext: *ext,
            },
            ChannelMessage::ExitStatus(status) => Message::ExitStatus(*status),
            ChannelMessage::Close => Message::Close,
            ChannelMessage::End => Message::End,
            ChannelMessage::Other => Message::Other,
        }
    }
}

impl Message {
    /// Whether this is the last message that is looked at.
    pub open spec fn ends(self) -> bool {
        self is Close || self is End
    }

    /// The error output in a message.
    pub open spec fn stderr(self) -> Seq<u8> {
        match self {
            Message::ExtendedData { data, ext } => if ext == STDERR_TYPE {
                data
            } else {
                Seq::empty()
            },
            _ => Seq::empty(),
        }
    }

    /// The output in a message.
    pub open spec fn stdout(self) -> Seq<u8> {
        match self {
            Message::Data(data) => data,
            _ => Seq::empty(),
        }
    }
}

/// The first bytes of `bytes`, as many as are kept of error output.
pub open spec fn kept(bytes: Seq<u8>) -> Seq<u8> {
    if bytes.len() > STDERR_LIMIT {
        bytes.take(STDERR_LIMIT as int)
    } else {
        bytes
    }
}

/// What is known of a remote command.
#[verifier::ext_equal]
pub struct CommandRecord {
    /// Its error output, up to the limit.
    pub stderr: Seq<u8>,
    /// The status with which it has left.
    pub exit_status: Option<u32>,
    /// Whether its channel is done.
    pub ended: bool,
}

impl CommandRecord {
    /// Nothing has come back yet.
    pub open spec fn fresh() -> CommandRecord {
        CommandRecord { stderr: Seq::empty(), exit_status: None, ended: false }
    }

    /// What is known after one more message. Nothing changes once the channel is
    /// done.
    pub open spec fn record(self, message: Message) -> CommandRecord {
        if self.ended {
            self
        } else if message.ends() {
            CommandRecord { ended: true, ..self }
        } else {
            match message {
                Message::ExitStatus(status) => CommandRecord { exit_status: Some(status), ..self },
                _ => CommandRecord { stderr: kept(self.stderr + message.stderr()), ..self },
            }
        }
    }

    /// What is known after more messages.
    pub open spec fn record_all(self, messages: Seq<Message>) -> CommandRecord
        decreases messages.len(),
    {
        if messages.len() == 0 {
            self
        } else {
            self.record_all(messages.drop_last()).record(messages.last())
        }
    }
}

/// The messages before the one that ends the channel.
pub open spec fn heard(messages: Seq<Message>) -> Seq<Message>
    decreases messages.len(),
{
    if messages.len() == 0 || messages[0].ends() {
        Seq::empty()
    } else {
        seq![messages[0]] + heard(messages.drop_first())
    }
}

/// All error output in a run of messages.
pub open spec fn all_stderr(messages: Seq<Message>) -> Seq<u8>
    decreases messages.len(),
{
    if messages.len() == 0 {
        Seq::empty()
    } else {
        all_stderr(messages.drop_last()) + messages.last().stderr()
    }
}

/// All output in a run of messages.
pub open spec fn all_stdout(messages: Seq<Message>) -> Seq<u8>
    decreases messages.len(),
{
    if messages.len() == 0 {
        Seq::empty()
    } else {
        all_stdout(messages.drop_last()) + messages.last().stdout()
    }
}

/// The last exit status in a run of messages.
pub open spec fn last_status(messages: Seq<Message>) -> Option<u32>
    decreases messages.len(),
{
    if messages.len() == 0 {
        None
    } else {
        match messages.last() {
            Message::ExitStatus(status) => Some(status),
            _ => last_status(messages.drop_last()),
        }
    }
}

/// Why a remote command is taken to have failed.
#[derive(Debug)]
pub enum CommandFault {
    /// It left with a status other than that of success.
    Exited { status: u32, stderr: String },
    /// Its channel was done before a status came.
    NoStatus,
}

/// The text of a failure with an exit status, where `stderr` is the text of the
/// error output.
pub open spec fn exit_text(subject: Seq<char>, status: u32, stderr: Seq<char>) -> Seq<char> {
    let exited = subject + " exited with status "@ + decimal_text(status as nat);
    if stderr.len() == 0 {
        exited
    } else {
        exited + ": "@ + trimmed(stderr)
    }
}

impl CommandFault {
    /// The text of the failure of `subject`.
    pub open spec fn text(self, subject: Seq<char>) -> Seq<char> {
        match self {
            CommandFault::Exited { status, stderr } => exit_text(subject, status, stderr@),
            CommandFault::NoStatus => subject + " closed without an exit status"@,
        }
    }

    /// Says what has failed: `subject`, and how it left.
    pub fn message(&self, subject: &str) -> (res: String)
        ensures
            res@ == self.text(subject@),
    {
        let mut text = subject.to_owned();
        match self {
            CommandFault::Exited { status, stderr } => {
                text.append(" exited with status ");
                text.append(decimal(*status as u64).as_str());
                if !stderr.as_str().is_empty() {
                    text.append(": ");
                    text.append(trim(stderr.as_str()));
                }
            },
            CommandFault::NoStatus => {
                text.append(" closed without an exit status");
            },
        }
        text
    }
}

/// Whether `outcome` is what a command with this record has come to: success
/// exactly if it left with status 0.
pub open spec fn is_outcome(outcome: Result<(), CommandFault>, record: CommandRecord) -> bool {
    match record.exit_status {
        Some(status) => if status == 0 {
            outcome is Ok
        } else {
            &&& outcome matches Err(CommandFault::Exited { status: told, stderr })
            &&& told == status
            &&& stderr@ == lossy_text(record.stderr)
            &&& valid_utf8(record.stderr) ==> stderr@ == decode_utf8(record.stderr)
            &&& record.stderr.len() > 0 ==> stderr@.len() > 0
        },
        None => outcome matches Err(CommandFault::NoStatus),
    }
}

/// The record of a remote command, as its messages come in.
#[derive(Debug)]
pub struct CommandLog {
    stderr: Vec<u8>,
    exit_status: Option<u32>,
    ended: bool,
}

impl View for CommandLog {
    type V = CommandRecord;

    closed spec fn view(&self) -> CommandRecord {
        CommandRecord {
            stderr: self.stderr@,
            exit_status: self.exit_status,
            ended: self.ended,
        }
    }
}

impl CommandLog {
    #[verifier::type_invariant]
    closed spec fn within_limit(self) -> bool {
        self.stderr@.len() <= STDERR_LIMIT
    }

    /// A log in which nothing has been recorded.
    pub fn new() -> (res: CommandLog)
        ensures
            res@ == CommandRecord::fresh(),
    {
        CommandLog { stderr: Vec::new(), exit_status: None, ended: false }
    }

    /// Records one message.
    pub fn record(&mut self, message: &ChannelMessage)
        ensures
            final(self)@ == old(self)@.record(message@),
    {
        proof {
            use_type_invariant(&*self);
        }
        if self.ended {
            return;
        }
        match message {
            ChannelMessage::ExtendedData { data, ext } => {
                if *ext == STDERR_TYPE {
                    let remaining: usize = STDERR_LIMIT - self.stderr.len();
                    let amount: usize = if remaining < data.len() {
                        remaining
                    } else {
                        data.len()
                    };
                    let ghost before = self.stderr@;
                    let mut stderr: Vec<u8> = Vec::new();
                    std::mem::swap(&mut stderr, &mut self.stderr);
                    stderr.extend_from_slice(slice_subrange(data.as_slice(), 0, amount));
                    assert(stderr@ == before + data@.take(amount as int));
                    assert(stderr@ == kept(before + data@));
                    self.stderr = stderr;
                } else {
                    assert(kept(self.stderr@ + Seq::<u8>::empty()) == self.stderr@);
                }
            },
            ChannelMessage::ExitStatus(status) => {
                self.exit_status = Some(*status);
            },
            ChannelMessage::Close => {
                self.ended = true;
            },
            ChannelMessage::End => {
                self.ended = true;
            },
            _ => {
                assert(kept(self.stderr@ + Seq::<u8>::empty()) == self.stderr@);
            },
        }
    }

    /// Whether the channel is done.
    pub fn ended(&self) -> (res: bool)
        ensures
            res == self@.ended,
    {
        self.ended
    }

    /// The status with which the command has left, if one has come.
    pub fn exit_status(&self) -> (res: Option<u32>)
        ensures
            res == self@.exit_status,
    {
        self.exit_status
    }

    /// What the command has come to.
    pub fn outcome(&self) -> (res: Result<(), CommandFault>)
        ensures
            is_outcome(res, self@),
    {
        match self.exit_status {
            Some(status) => if status == 0 {
                Ok(())
            } else {
                Err(
                    CommandFault::Exited {
                        status,
                        stderr: from_utf8_lossy(self.stderr.as_slice()),
                    },
                )
            },
            None => Err(CommandFault::NoStatus),
        }
    }
}

pub(crate) proof fn heard_from_the_back(messages: Seq<Message>)
    requires
        messages.len() > 0,
    ensures
        ({
            let before = messages.drop_last();
            if exists|i: int| 0 <= i < before.len() && #[trigger] before[i].ends() {
                heard(messages) == heard(before)
            } else {
                heard(before) == before && heard(messages) == if messages.last().ends() {
                    before
                } else {
                    messages
                }
            }
        }),
    decreases messages.len(),
{
    let before = messages.drop_last();
    if messages.len() == 1 {
        assert(before == Seq::<Message>::empty());
        assert(messages.drop_first() == Seq::<Message>::empty());
        assert(seq![messages[0]] + Seq::<Message>::empty() == messages);
    } else {
        let rest = messages.drop_first();
        assert(before[0] == messages[0]);
        heard_from_the_back(rest);
        let rest_before = rest.drop_last();
        assert(rest_before == before.drop_first());
        assert(forall|i: int| 0 <= i < rest_before.len() ==> rest_before[i] == #[trigger] before[i + 1]);
        if messages[0].ends() {
        } else if exists|i: int| 0 <= i < before.len() && #[trigger] before[i].ends() {
            let i = choose|i: int| 0 <= i < before.len() && #[trigger] before[i].ends();
            assert(rest_before[i - 1].ends());
        } else {
            assert forall|i: int| 0 <= i < rest_before.len() implies !(#[trigger] rest_before[i].ends()) by {
                assert(!before[i + 1].ends());
            }
            assert(seq![messages[0]] + rest_before == before);
            assert(seq![messages[0]] + rest == messages);
        }
    }
}

/// However a command's messages are cut, what is known of it in the end is the
/// start of all its error output, up to the limit, and the last status that it
/// gave, both taken from the messages before the channel was done.
pub proof fn record_sums_up_the_messages(messages: Seq<Message>)
    ensures
        ({
            let record = CommandRecord::fresh().record_all(messages);
            &&& record.stderr == kept(all_stderr(heard(messages)))
            &&& record.exit_status == last_status(heard(messages))
            &&& record.ended <==> exists|i: int| 0 <= i < messages.len() && #[trigger] messages[i].ends()
        }),
    decreases messages.len(),
{
    if messages.len() > 0 {
        let before = messages.drop_last();
        record_sums_up_the_messages(before);
        heard_from_the_back(messages);
        let record = CommandRecord::fresh().record_all(before);
        let last = messages.last();
        if record.ended {
            let i = choose|i: int| 0 <= i < before.len() && #[trigger] before[i].ends();
            assert(messages[i].ends());
        } else {
            assert(forall|i: int| 0 <= i < before.len() ==> messages[i] == #[trigger] before[i]);
            if last.ends() {
                assert(messages[messages.len() - 1].ends());
            } else {
                assert(heard(messages) == messages);
                let so_far = all_stderr(before);
                assert(kept(kept(so_far) + last.stderr()) == kept(so_far + last.stderr()));
                if last is ExitStatus {
                    assert(so_far + last.stderr() == so_far);
                }
                assert forall|i: int| 0 <= i < messages.len() implies !(#[trigger] messages[i].ends()) by {
                    if i < before.len() {
                        assert(!before[i].ends());
                    }
                }
            }
        }
    }
}

/// The failure of a command that has given a status and no error output is told by
/// the status alone.
pub proof fn silent_failure_is_told_by_its_status(
    record: CommandRecord,
    outcome: Result<(), CommandFault>,
    subject: Seq<char>,
)
    requires
        is_outcome(outcome, record),
        record.stderr.len() == 0,
        record.exit_status matches Some(status) && status != 0,
    ensures
        outcome matches Err(fault) && fault.text(subject) == subject + " exited with status "@
            + decimal_text(record.exit_status->0 as nat),
{
    assert(record.stderr == Seq::<u8>::empty());
    assert(valid_utf8(record.stderr));
    assert(decode_utf8(record.stderr).len() == 0);
}

/// The failure of a command that has given a status and error output is told by both,
/// the output without the white space around it.
pub proof fn failure_is_told_with_its_error_output(
    record: CommandRecord,
    outcome: Result<(), CommandFault>,
    subject: Seq<char>,
)
    requires
        is_outcome(outcome, record),
        record.stderr.len() > 0,
        record.exit_status matches Some(status) && status != 0,
    ensures
        outcome matches Err(fault) && fault.text(subject) == subject + " exited with status "@
            + decimal_text(record.exit_status->0 as nat) + ": "@ + trimmed(
            lossy_text(record.stderr),
        ),
{
}

/// What one message adds to what is known of a command whose channel is not done. A
/// status replaces the one before; extended data of type 1 goes behind the error output,
/// which stops at 4096 bytes; that the channel was closed, or has no more messages, ends
/// it. Nothing else counts for anything.
pub proof fn each_message_counts_for_what_it_is(record: CommandRecord, message: Message)
    requires
        !record.ended,
        record.stderr.len() <= 4096,
    ensures
        ({
            let after = record.record(message);
            &&& after.ended <==> message == Message::Close || message == Message::End
            &&& match message {
                Message::ExitStatus(status) => after.exit_status == Some(status),
                _ => after.exit_status == record.exit_status,
            }
            &&& match message {
                Message::ExtendedData { data, ext } => if ext == 1 {
                    &&& after.stderr.is_prefix_of(record.stderr + data)
                    &&& after.stderr.len() == if record.stderr.len() + data.len() <= 4096 {
                        record.stderr.len() + data.len()
                    } else {
                        4096
                    }
                } else {
                    after.stderr == record.stderr
                },
                _ => after.stderr == record.stderr,
            }
        }),
{
    assert(record.stderr + Seq::<u8>::empty() == record.stderr);
}

/// What comes after the end of a channel is not looked at.
pub proof fn nothing_counts_after_the_end(record: CommandRecord, message: Message)
    requires
        record.ended,
    ensures
        record.record(message) == record,
{
}

/// Output is what comes as data, and error output what comes as extended data of type
/// 1; neither is taken for the other, and no other message holds any.
pub proof fn streams_are_told_apart(message: Message)
    ensures
        message.stdout() == match message {
            Message::Data(data) => data,
            _ => Seq::empty(),
        },
        message.stderr() == match message {
            Message::ExtendedData { data, ext } => if ext == 1 {
                data
            } else {
                Seq::empty()
            },
            _ => Seq::empty(),
        },
        message.ends() <==> message == Message::Close || message == Message::End,
{
}

/// The error output that is kept of a whole run of messages is its front, and never
/// more than 4096 bytes.
pub proof fn error_output_is_kept_from_the_front(messages: Seq<Message>)
    ensures
        ({
            let record = CommandRecord::fresh().record_all(messages);
            &&& record.stderr.len() <= 4096
            &&& record.stderr.is_prefix_of(all_stderr(messages))
        }),
    decreases messages.len(),
{
    if messages.len() > 0 {
        let before = messages.drop_last();
        error_output_is_kept_from_the_front(before);
        let record = CommandRecord::fresh().record_all(before);
        let after = CommandRecord::fresh().record_all(messages);
        if !record.ended {
            each_message_counts_for_what_it_is(record, messages.last());
            if record.stderr.len() < 4096 {
                record_is_whole_below_the_limit(before);
            }
        }
        let all = all_stderr(messages);
        assert forall|i: int| 0 <= i < after.stderr.len() implies after.stderr[i] == all[i] by {
            if i < record.stderr.len() {
                assert(record.stderr[i] == all_stderr(before)[i]);
            }
        }
    }
}

proof fn record_is_whole_below_the_limit(messages: Seq<Message>)
    requires
        !CommandRecord::fresh().record_all(messages).ended,
        CommandRecord::fresh().record_all(messages).stderr.len() < 4096,
    ensures
        CommandRecord::fresh().record_all(messages).stderr == all_stderr(messages),
{
    record_sums_up_the_messages(messages);
    heard_is_all_before_the_end(messages);
}

proof fn heard_is_all_before_the_end(messages: Seq<Message>)
    requires
        forall|i: int| 0 <= i < messages.len() ==> !(#[trigger] messages[i].ends()),
    ensures
        heard(messages) == messages,
    decreases messages.len(),
{
    if messages.len() > 0 {
        let rest = messages.drop_first();
        assert forall|i: int| 0 <= i < rest.len() implies !(#[trigger] rest[i].ends()) by {
            assert(!messages[i + 1].ends());
        }
        heard_is_all_before_the_end(rest);
        assert(seq![messages[0]] + rest == messages);
    }
}

/// A command has succeeded exactly if it left with status 0. One that left with another
/// status has failed by that status, and one that gave none has failed by that.
pub proof fn success_is_status_zero(record: CommandRecord, outcome: Result<(), CommandFault>)
    requires
        is_outcome(outcome, record),
    ensures
        outcome is Ok <==> record.exit_status == Some(0u32),
        outcome matches Err(CommandFault::Exited { status, .. }) ==> record.exit_status == Some(
            status,
        ),
        outcome matches Err(CommandFault::NoStatus) <==> record.exit_status is None,
{
}

/// The failure of a command that gave no status is told by that.
pub proof fn missing_status_is_told(
    record: CommandRecord,
    outcome: Result<(), CommandFault>,
    subject: Seq<char>,
)
    requires
        is_outcome(outcome, record),
        record.exit_status is None,
    ensures
        outcome matches Err(fault) && fault.text(subject) == subject
            + " closed without an exit status"@,
{
}

/// A message is taken for what it is: of the same kind, with the same data, type and
/// status.
pub proof fn message_is_taken_for_what_it_is(message: ChannelMessage)
    ensures
        match message {
            ChannelMessage::Data(data) => message@ == Message::Data(data@),
            ChannelMessage::ExtendedData { data, ext } => message@ == (Message::ExtendedData {
                data: data@,
                ext,
            }),
            ChannelMessage::ExitStatus(status) => message@ == Message::ExitStatus(status),
            ChannelMessage::Close => message@ == Message::Close,
            ChannelMessage::End => message@ == Message::End,
            ChannelMessage::Other => message@ == Message::Other,
        },
{
}

} // verus!
