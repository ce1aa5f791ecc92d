use hostsync::channel::ChannelMessage;
use hostsync::channel::CommandFault;
use hostsync::channel::CommandLog;
use hostsync::channel::STDERR_LIMIT;
use hostsync::command::CommandAction;
use hostsync::command::CommandStage;
use hostsync::command::RemoteCommand;
use hostsync::shell::move_command;
use hostsync::shell::read_command;
use hostsync::shell::shell_quote;
use hostsync::shell::upload_command;
use hostsync::ssh_read::read_subject;
use hostsync::ssh_read::SshRead;

const ABC: &str = "3a985da74fe225b2045c172d6bd390bd855f086e3e9d525b46bfe24511431532";

fn stderr(data: &[u8]) -> ChannelMessage {
    ChannelMessage::ExtendedData {
        data: data.to_vec(),
        ext: 1,
    }
}

/// Takes the quotes off a word, as a shell does.
fn unquote(word: &str) -> String {
    let mut text = String::new();
    let mut quote: Option<char> = None;
    for c in word.chars() {
        match quote {
            None => {
                assert!(c == '\'' || c == '"', "bare {c:?} in {word}");
                quote = Some(c);
            }
            Some(q) if q == c => quote = None,
            Some(_) => text.push(c),
        }
    }
    assert_eq!(quote, None);
    text
}

#[test]
fn quoting_writes_quotes_in_double_quotes() {
    assert_eq!(shell_quote("abc'def"), "'abc'\"'\"'def'");
    assert_eq!(shell_quote(""), "''");
    assert_eq!(shell_quote("'"), "''\"'\"''");
    assert_eq!(shell_quote("a b;$(c)`d`\\\"\n"), "'a b;$(c)`d`\\\"\n'");
}

#[test]
fn quoted_text_is_read_back_by_a_shell() {
    for text in ["", "plain", "it's", "''''", "a b", "$HOME `x` \\ \"", "é\n中"] {
        assert_eq!(unquote(&shell_quote(text)), text);
    }
    assert_ne!(shell_quote("a'b"), shell_quote("a b"));
}

#[test]
fn read_command_tests_and_prints_the_path() {
    assert_eq!(
        read_command("/a b/c'd"),
        "if [ -f '/a b/c'\"'\"'d' ]; then cat < '/a b/c'\"'\"'d'; else exit 66; fi"
    );
}

#[test]
fn upload_command_makes_the_parent_first() {
    assert_eq!(
        upload_command("/srv/my app/f"),
        "mkdir -p '/srv/my app' && cat > '/srv/my app/f.tmp'"
    );
    assert_eq!(upload_command("/f"), "mkdir -p '/' && cat > '/f.tmp'");
    assert_eq!(upload_command("f"), ": && cat > 'f.tmp'");
}

#[test]
fn move_command_replaces_the_destination() {
    assert_eq!(move_command("a'b"), "mv -f 'a'\"'\"'b.tmp' 'a'\"'\"'b'");
}

#[test]
fn error_output_is_kept_up_to_the_limit() {
    let mut log = CommandLog::new();
    log.record(&stderr(&vec![b'x'; STDERR_LIMIT - 1]));
    log.record(&stderr(b"yz"));
    log.record(&stderr(b"w"));
    log.record(&ChannelMessage::ExitStatus(1));
    log.record(&ChannelMessage::Close);
    match log.outcome() {
        Err(CommandFault::Exited { status, stderr }) => {
            assert_eq!(status, 1);
            assert_eq!(stderr.len(), 4096);
            assert!(stderr.ends_with("xxy"));
        }
        other => panic!("{other:?}"),
    }
}

#[test]
fn only_error_output_is_kept() {
    let mut log = CommandLog::new();
    log.record(&ChannelMessage::Data(b"out".to_vec()));
    log.record(&ChannelMessage::ExtendedData {
        data: b"other".to_vec(),
        ext: 2,
    });
    log.record(&ChannelMessage::Other);
    log.record(&ChannelMessage::ExitStatus(7));
    match log.outcome() {
        Err(fault) => assert_eq!(fault.message("remote command"), "remote command exited with status 7"),
        Ok(()) => panic!("status 7 is no success"),
    }
}

#[test]
fn last_status_before_the_end_counts() {
    let mut log = CommandLog::new();
    assert_eq!(log.exit_status(), None);
    log.record(&ChannelMessage::ExitStatus(5));
    log.record(&ChannelMessage::ExitStatus(0));
    assert!(!log.ended());
    log.record(&ChannelMessage::End);
    assert!(log.ended());
    log.record(&ChannelMessage::ExitStatus(9));
    assert_eq!(log.exit_status(), Some(0));
    assert!(log.outcome().is_ok());
}

#[test]
fn command_without_a_status_has_failed() {
    let mut log = CommandLog::new();
    log.record(&ChannelMessage::Close);
    match log.outcome() {
        Err(fault) => {
            assert!(matches!(fault, CommandFault::NoStatus));
            assert_eq!(
                fault.message("remote upload command"),
                "remote upload command closed without an exit status"
            );
        }
        Ok(()) => panic!("no status is no success"),
    }
}

#[test]
fn blank_error_output_still_leaves_a_colon() {
    let fault = CommandFault::Exited {
        status: 2,
        stderr: " \n".to_string(),
    };
    assert_eq!(fault.message("remote command"), "remote command exited with status 2: ");
}

#[test]
fn remote_command_runs_to_its_status() {
    let mut running = RemoteCommand::new("mv a b".to_string());
    assert!(matches!(running.action(), CommandAction::OpenChannel));
    assert_eq!(running.failure(), Some("failed to open SSH command channel".to_string()));
    running.record(&ChannelMessage::ExitStatus(4));
    running.advance();
    assert!(matches!(running.action(), CommandAction::Execute { command, want_reply: true } if command == "mv a b"));
    assert_eq!(
        running.failure(),
        Some("failed to execute remote command: mv a b".to_string())
    );
    running.advance();
    assert!(matches!(running.action(), CommandAction::Receive));
    assert_eq!(running.failure(), None);
    running.advance();
    assert_eq!(running.stage(), CommandStage::Receive);
    assert!(running.outcome().is_none());
    running.record(&ChannelMessage::ExitStatus(0));
    running.record(&ChannelMessage::End);
    assert!(matches!(running.action(), CommandAction::Settled));
    assert!(matches!(running.outcome(), Some(Ok(()))));
}

#[test]
fn failed_remote_command_tells_why() {
    let mut running = RemoteCommand::new("false".to_string());
    running.advance();
    running.advance();
    running.record(&stderr(b"no\n"));
    running.record(&ChannelMessage::ExitStatus(1));
    running.record(&ChannelMessage::Close);
    match running.outcome() {
        Some(Err(fault)) => assert_eq!(
            running.fault_message(&fault),
            "remote command exited with status 1: no"
        ),
        other => panic!("{other:?}"),
    }
}

fn reading(messages: &[ChannelMessage]) -> SshRead {
    let mut reading = SshRead::new("/r/f");
    assert!(matches!(reading.action(), CommandAction::OpenChannel));
    assert_eq!(
        reading.failure(),
        Some("failed to open SSH channel for remote read".to_string())
    );
    reading.advance();
    assert!(matches!(reading.action(), CommandAction::Execute { command, want_reply: true } if command == read_command("/r/f")));
    assert_eq!(reading.failure(), Some("failed to execute remote file read".to_string()));
    reading.advance();
    for message in messages {
        assert!(matches!(reading.action(), CommandAction::Receive));
        reading.record(message);
    }
    assert!(matches!(reading.action(), CommandAction::Settled));
    reading
}

#[test]
fn reading_over_ssh_fingerprints_the_output() {
    let done = reading(&[
        ChannelMessage::Data(b"ab".to_vec()),
        stderr(b"noise"),
        ChannelMessage::Data(b"c".to_vec()),
        ChannelMessage::ExitStatus(0),
        ChannelMessage::Other,
        ChannelMessage::Close,
    ]);
    assert_eq!(done.conclude().unwrap().unwrap(), Some(ABC.to_string()));
}

#[test]
fn reading_over_ssh_finds_no_file() {
    let done = reading(&[ChannelMessage::ExitStatus(66), ChannelMessage::End]);
    assert_eq!(done.conclude().unwrap().unwrap(), None);
}

#[test]
fn reading_over_ssh_fails_by_its_status() {
    let done = reading(&[
        stderr(b"denied"),
        ChannelMessage::ExitStatus(1),
        ChannelMessage::Close,
    ]);
    match done.conclude() {
        Some(Err(fault)) => assert_eq!(
            fault.message(&read_subject("/r/f")),
            "remote read of /r/f exited with status 1: denied"
        ),
        other => panic!("{other:?}"),
    }
    let cut = reading(&[ChannelMessage::Data(b"abc".to_vec()), ChannelMessage::End]);
    match cut.conclude() {
        Some(Err(fault)) => assert_eq!(
            fault.message(&read_subject("/r/f")),
            "remote read of /r/f closed without an exit status"
        ),
        other => panic!("{other:?}"),
    }
}

#[test]
fn unfinished_reading_over_ssh_has_no_result() {
    let mut early = SshRead::new("/r/f");
    early.advance();
    early.advance();
    early.record(&ChannelMessage::ExitStatus(0));
    assert!(early.conclude().is_none());
}
