//! Running one command on a remote host and holding it to its exit status.

use vstd::prelude::*;
use vstd::string::*;

use crate::channel::heard;
use crate::channel::is_outcome;
use crate::channel::last_status;
use crate::channel::record_sums_up_the_messages;
use crate::channel::ChannelMessage;
use crate::channel::CommandFault;
use crate::channel::CommandLog;
use crate::channel::CommandRecord;
use crate::channel::Message;
use crate::text::decimal_text;

verus! {

/// How far a remote command has come.
#[derive(Debug, Clone, Copy, PartialEq, Eq, Structural)]
pub enum CommandStage {
    /// A channel has to be opened.
    OpenChannel,
    /// The command has to be sent.
    Execute,
    /// Messages have to be awaited.
    Receive,
    /// The channel is done; the outcome is known.
    Settled,
}

/// What to do next for a remote command.
#[derive(Debug)]
pub enum CommandAction {
    OpenChannel,
    /// Send this command; `want_reply` tells whether the server is asked to answer.
    Execute { command: String, want_reply: bool },
    Receive,
    Settled,
}

/// What a remote command amounts to in a failure's text.
pub open spec fn command_subject_text() -> Seq<char> {
    "remote command"@
}

/// A remote command under way.
#[verifier::ext_equal]
pub struct CommandRun {
    pub command: Seq<char>,
    pub stage: CommandStage,
    pub record: CommandRecord,
}

impl CommandRun {
    /// A command that has not been started.
    pub open spec fn fresh(command: Seq<char>) -> CommandRun {
        CommandRun { command, stage: CommandStage::OpenChannel, record: CommandRecord::fresh() }
    }

    /// The command after the current step has succeeded. Only a message takes it
    /// on from where messages are awaited.
    pub open spec fn advance(self) -> CommandRun {
        match self.stage {
            CommandStage::OpenChannel => CommandRun { stage: CommandStage::Execute, ..self },
            CommandStage::Execute => CommandRun { stage: CommandStage::Receive, ..self },
            _ => self,
        }
    }

    /// The command after a message has come, where messages are awaited.
    pub open spec fn record(self, message: Message) -> CommandRun {
        if self.stage is Receive {
            let record = self.record.record(message);
            CommandRun {
                record,
                stage: if record.ended {
                    CommandStage::Settled
                } else {
                    CommandStage::Receive
                },
                ..self
            }
        } else {
            self
        }
    }

    /// The command after more messages have come.
    pub open spec fn record_all(self, messages: Seq<Message>) -> CommandRun
        decreases messages.len(),
    {
        if messages.len() == 0 {
            self
        } else {
            self.record_all(messages.drop_last()).record(messages.last())
        }
    }

    /// What a failure of the current step is put down to.
    pub open spec fn failure_text(self) -> Option<Seq<char>> {
        match self.stage {
            CommandStage::OpenChannel => Some("failed to open SSH command channel"@),
            CommandStage::Execute => Some("failed to execute remote command: "@ + self.command),
            _ => None,
        }
    }
}

/// Whether `action` is what a remote command needs next.
pub open spec fn is_command_action(action: CommandAction, run: CommandRun) -> bool {
    match run.stage {
        CommandStage::OpenChannel => action is OpenChannel,
        CommandStage::Execute => action matches CommandAction::Execute { command, want_reply }
            && command@ == run.command && want_reply,
        CommandStage::Receive => action is Receive,
        CommandStage::Settled => action is Settled,
    }
}

/// Whether `known` is what a remote command has come to; nothing yet if it has not
/// settled.
pub open spec fn is_command_outcome(
    known: Option<Result<(), CommandFault>>,
    run: CommandRun,
) -> bool {
    match known {
        Some(outcome) => run.stage is Settled && is_outcome(outcome, run.record),
        None => !(run.stage is Settled),
    }
}

/// Drives one remote command.
#[derive(Debug)]
pub struct RemoteCommand {
    command: String,
    stage: CommandStage,
    log: CommandLog,
}

impl View for RemoteCommand {
    type V = CommandRun;

    closed spec fn view(&self) -> CommandRun {
        CommandRun { command: self.command@, stage: self.stage, record: self.log@ }
    }
}

impl RemoteCommand {
    /// A command that is yet to be run.
    pub fn new(command: String) -> (res: RemoteCommand)
        ensures
            res@ == CommandRun::fresh(command@),
    {
        RemoteCommand { command, stage: CommandStage::OpenChannel, log: CommandLog::new() }
    }

    /// How far the command has come.
    pub fn stage(&self) -> (res: CommandStage)
        ensures
            res == self@.stage,
    {
        self.stage
    }

    /// What to do next.
    pub fn action(&self) -> (res: CommandAction)
        ensures
            is_command_action(res, self@),
    {
        match self.stage {
            CommandStage::OpenChannel => CommandAction::OpenChannel,
            CommandStage::Execute => CommandAction::Execute {
                command: self.command.clone(),
                want_reply: true,
            },
            CommandStage::Receive => CommandAction::Receive,
            CommandStage::Settled => CommandAction::Settled,
        }
    }

    /// The current step has succeeded.
    pub fn advance(&mut self)
        ensures
            final(self)@ == old(self)@.advance(),
    {
        match self.stage {
            CommandStage::OpenChannel => {
                self.stage = CommandStage::Execute;
            },
            CommandStage::Execute => {
                self.stage = CommandStage::Receive;
            },
            _ => {},
        }
    }

    /// A message has come.
    pub fn record(&mut self, message: &ChannelMessage)
        ensures
            final(self)@ == old(self)@.record(message@),
    {
        if self.stage == CommandStage::Receive {
            self.log.record(message);
            if self.log.ended() {
                self.stage = CommandStage::Settled;
            }
        }
    }

    /// What a failure of the current step is put down to.
    pub fn failure(&self) -> (res: Option<String>)
        ensures
            match res {
                Some(text) => self@.failure_text() == Some(text@),
                None => self@.failure_text() is None,
            },
    {
        match self.stage {
            CommandStage::OpenChannel => Some("failed to open SSH command channel".to_owned()),
            CommandStage::Execute => Some(
                "failed to execute remote command: ".to_owned().concat(self.command.as_str()),
            ),
            _ => None,
        }
    }

    /// What the command has come to; nothing yet if it has not settled.
    pub fn outcome(&self) -> (res: Option<Result<(), CommandFault>>)
        ensures
            is_command_outcome(res, self@),
    {
        if self.stage == CommandStage::Settled {
            Some(self.log.outcome())
        } else {
            None
        }
    }

    /// The text of a failed outcome.
    pub fn fault_message(&self, fault: &CommandFault) -> (res: String)
        ensures
            res@ == fault.text(command_subject_text()),
    {
        fault.message("remote command")
    }
}

proof fn record_all_records(run: CommandRun, messages: Seq<Message>)
    requires
        run.stage is Receive,
        !run.record.ended,
    ensures
        ({
            let after = run.record_all(messages);
            &&& after.record == run.record.record_all(messages)
            &&& after.command == run.command
            &&& after.stage == if after.record.ended {
                CommandStage::Settled
            } else {
                CommandStage::Receive
            }
        }),
    decreases messages.len(),
{
    if messages.len() > 0 {
        record_all_records(run, messages.drop_last());
    }
}

/// A command that was started, and whose channel was then read to its end, has
/// settled; it has succeeded exactly if the last status that came before the end
/// was 0.
pub proof fn command_succeeds_by_its_last_status(
    command: Seq<char>,
    messages: Seq<Message>,
    outcome: Result<(), CommandFault>,
)
    requires
        exists|i: int| 0 <= i < messages.len() && #[trigger] messages[i].ends(),
        is_outcome(
            outcome,
            CommandRun::fresh(command).advance().advance().record_all(messages).record,
        ),
    ensures
        CommandRun::fresh(command).advance().advance().record_all(messages).stage is Settled,
        outcome is Ok <==> last_status(heard(messages)) == Some(0u32),
        outcome matches Err(CommandFault::NoStatus) <==> last_status(heard(messages)) is None,
{
    record_all_records(CommandRun::fresh(command).advance().advance(), messages);
    record_sums_up_the_messages(messages);
}

/// A remote command is run on a channel that is opened for it: the command is sent as
/// it was given, with a request for an answer, and then messages are awaited for as long
/// as the channel is not done.
pub proof fn command_is_sent_and_awaited(
    command: Seq<char>,
    messages: Seq<Message>,
    opening: CommandAction,
    sending: CommandAction,
    awaiting: CommandAction,
)
    requires
        is_command_action(opening, CommandRun::fresh(command)),
        is_command_action(sending, CommandRun::fresh(command).advance()),
        is_command_action(
            awaiting,
            CommandRun::fresh(command).advance().advance().record_all(messages),
        ),
    ensures
        opening is OpenChannel,
        sending matches CommandAction::Execute { command: sent, want_reply } && sent@ == command
            && want_reply,
        if exists|i: int|
            0 <= i < messages.len() && (#[trigger] messages[i] == Message::Close || messages[i]
                == Message::End) {
            awaiting is Settled
        } else {
            awaiting is Receive
        },
{
    record_all_records(CommandRun::fresh(command).advance().advance(), messages);
    record_sums_up_the_messages(messages);
    if exists|i: int|
        0 <= i < messages.len() && (#[trigger] messages[i] == Message::Close || messages[i]
            == Message::End) {
        let i = choose|i: int|
            0 <= i < messages.len() && (#[trigger] messages[i] == Message::Close || messages[i]
                == Message::End);
        assert(messages[i].ends());
    } else {
        assert forall|i: int| 0 <= i < messages.len() implies !(#[trigger] messages[i].ends()) by {}
    }
}

/// What a failure of a remote command is put down to, by what was to be done: a failure
/// to send it tells the command.
pub proof fn command_failures_tell_the_command(
    command: Seq<char>,
    messages: Seq<Message>,
)
    ensures
        CommandRun::fresh(command).failure_text() == Some("failed to open SSH command channel"@),
        CommandRun::fresh(command).advance().failure_text() == Some(
            "failed to execute remote command: "@ + command,
        ),
        CommandRun::fresh(command).advance().advance().record_all(messages).failure_text() is None,
{
    record_all_records(CommandRun::fresh(command).advance().advance(), messages);
}

/// The outcome of a remote command is known exactly once its channel is done, and it is
/// success exactly if the last status before that was 0. What is told of a failure is
/// that status, or that none came.
pub proof fn outcome_is_known_when_the_channel_is_done(
    command: Seq<char>,
    messages: Seq<Message>,
    known: Option<Result<(), CommandFault>>,
)
    requires
        is_command_outcome(
            known,
            CommandRun::fresh(command).advance().advance().record_all(messages),
        ),
    ensures
        known is Some <==> exists|i: int|
            0 <= i < messages.len() && #[trigger] messages[i].ends(),
        known matches Some(Ok(())) ==> last_status(heard(messages)) == Some(0u32),
        known matches Some(Err(fault)) ==> match last_status(heard(messages)) {
            Some(status) => {
                let told = fault.text(command_subject_text());
                let start = "remote command exited with status "@ + decimal_text(status as nat);
                status != 0 && start.is_prefix_of(told)
            },
            None => fault.text(command_subject_text())
                == "remote command closed without an exit status"@,
        },
{
    let run = CommandRun::fresh(command).advance().advance().record_all(messages);
    record_all_records(CommandRun::fresh(command).advance().advance(), messages);
    record_sums_up_the_messages(messages);
    reveal_strlit("remote command");
    reveal_strlit(" exited with status ");
    reveal_strlit("remote command exited with status ");
    reveal_strlit(" closed without an exit status");
    reveal_strlit("remote command closed without an exit status");
    assert("remote command"@ + " exited with status "@ == "remote command exited with status "@);
    assert("remote command"@ + " closed without an exit status"@
        == "remote command closed without an exit status"@);
}

} // verus!
