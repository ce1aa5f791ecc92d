use hostsync::config::open_failure;
use hostsync::config::parse_failure;
use hostsync::config::CheckAction;
use hostsync::config::Config;
use hostsync::config::ConfigCheck;
use hostsync::config::ConfigFault;
use hostsync::config::FilePair;
use hostsync::config::SSHInfo;
use hostsync::config::TransferMethod;
use hostsync::job::jobs_of;
use hostsync::job::Job;
use hostsync::job::JobAction;
use hostsync::job::JobRun;
use hostsync::job::Setback;
use hostsync::job::Transport;
use hostsync::poll::config_error_line;
use hostsync::poll::config_heading;
use hostsync::poll::job_error_line;
use hostsync::poll::loaded_line;
use hostsync::poll::Poll;
use hostsync::poll::PollAction;
use hostsync::session::ConnectAction;
use hostsync::session::SftpOpen;
use hostsync::session::SftpOpenAction;
use hostsync::session::SshConnect;

fn host(name: &str, transfer_method: TransferMethod) -> SSHInfo {
    SSHInfo {
        host: name.to_string(),
        user: "me".to_string(),
        transfer_method,
    }
}

fn file(src: &str, dest: &str) -> FilePair {
    FilePair {
        src: src.to_string(),
        dest: dest.to_string(),
    }
}

fn config(hosts: Vec<SSHInfo>, files: Vec<FilePair>) -> Config {
    Config {
        hosts,
        files,
        ssh_key: "/key".to_string(),
        check_interval: 60,
    }
}

fn valid() -> Config {
    config(
        vec![host("h", TransferMethod::Sftp)],
        vec![file("a", "/a"), file("b", "/b")],
    )
}

/// Checks `configs`, where the paths in `regular` are those of regular files.
/// Tells the paths that were asked for, too.
fn check(configs: Vec<Config>, regular: &[&str]) -> (Vec<String>, Result<usize, ConfigFault>) {
    let mut asked = Vec::new();
    let mut check = ConfigCheck::new(configs);
    while let CheckAction::Probe(path) = check.action() {
        check = check.answer(regular.contains(&path.as_str()));
        asked.push(path);
    }
    match check.conclude() {
        Some(result) => (asked, result.map(|configs| configs.len())),
        None => panic!("a question was left open"),
    }
}

fn fault(configs: Vec<Config>, regular: &[&str]) -> String {
    match check(configs, regular).1 {
        Err(fault) => fault.message(),
        Ok(count) => panic!("{count} configs accepted"),
    }
}

#[test]
fn sftp_is_the_default_method() {
    assert_eq!(TransferMethod::default(), TransferMethod::Sftp);
}

#[test]
fn valid_configuration_is_accepted() {
    let (asked, result) = check(vec![valid(), valid()], &["a", "b"]);
    assert_eq!(asked, vec!["a", "b", "a", "b"]);
    assert_eq!(result.unwrap(), 2);
}

#[test]
fn open_question_has_no_verdict() {
    assert!(ConfigCheck::new(vec![valid()]).conclude().is_none());
}

#[test]
fn every_fault_has_its_text() {
    assert_eq!(fault(vec![], &[]), "configuration contains no configs");

    let mut broken = valid();
    broken.hosts.clear();
    broken.files.clear();
    assert_eq!(fault(vec![valid(), broken], &["a", "b"]), "config 2 contains no hosts");

    let mut broken = valid();
    broken.files.clear();
    broken.ssh_key.clear();
    assert_eq!(fault(vec![broken], &[]), "config 1 contains no files");

    let mut broken = valid();
    broken.ssh_key = " \t".to_string();
    broken.check_interval = 0;
    assert_eq!(fault(vec![broken], &[]), "config 1 has an empty ssh_key");

    let mut broken = valid();
    broken.check_interval = 0;
    broken.files[0].src.clear();
    assert_eq!(fault(vec![broken], &[]), "config 1 has check_interval = 0");

    let mut broken = valid();
    broken.files[1].src = "\n".to_string();
    broken.files[1].dest.clear();
    assert_eq!(fault(vec![broken], &["a"]), "config 1 file 2 has an empty src");

    let mut broken = valid();
    broken.files[1].dest = " ".to_string();
    assert_eq!(fault(vec![broken], &["a"]), "config 1 file 2 has an empty dest");

    assert_eq!(
        fault(vec![valid()], &["a"]),
        "config 1 file 2 source does not exist or is not a regular file: b"
    );
}

#[test]
fn first_fault_ends_the_check() {
    let mut broken = valid();
    broken.files[1].dest.clear();
    let (asked, result) = check(vec![broken, valid()], &[]);
    assert_eq!(asked, vec!["a"]);
    assert!(matches!(
        result,
        Err(ConfigFault::MissingSource { config: 1, file: 1, src }) if src == "a"
    ));
}

#[test]
fn file_failures_name_the_configuration() {
    assert_eq!(open_failure("c.yml"), "failed to open config: c.yml");
    assert_eq!(parse_failure("c.yml"), "failed to parse YAML: c.yml");
}

#[test]
fn every_host_gets_every_file() {
    let both = config(
        vec![host("x", TransferMethod::Sftp), host("y", TransferMethod::Ssh)],
        vec![file("a", "/a"), file("b", "/b")],
    );
    let jobs = jobs_of(&both);
    assert_eq!(jobs.len(), 2);
    assert_eq!(jobs[0].host.host, "x");
    assert_eq!(jobs[1].host.host, "y");
    assert_eq!(jobs[1].host.transfer_method, TransferMethod::Ssh);
    for job in &jobs {
        assert_eq!(job.files.len(), 2);
        assert_eq!(job.files[1].src, "b");
        assert_eq!(job.files[1].dest, "/b");
    }
    assert_eq!(jobs[0].host.login(), "me@x");
}

#[test]
fn rounds_start_all_before_joining_any() {
    let both = config(
        vec![host("x", TransferMethod::Sftp), host("y", TransferMethod::Ssh)],
        vec![file("a", "/a")],
    );
    let mut poll = Poll::new(&both);
    assert_eq!(poll.waiting_line(), "\nnext check in 60 second(s)");
    for _ in 0..3 {
        assert!(matches!(poll.action(), PollAction::Start { job, ssh_key }
            if job.host.host == "x" && ssh_key == "/key"));
        poll.advance();
        assert!(matches!(poll.action(), PollAction::Start { job, ssh_key }
            if job.host.host == "y" && ssh_key == "/key"));
        poll.advance();
        assert!(matches!(poll.action(), PollAction::Join(0)));
        poll.advance();
        assert!(matches!(poll.action(), PollAction::Join(1)));
        poll.advance();
        assert!(matches!(poll.action(), PollAction::Sleep(60)));
        poll.advance();
    }
}

#[test]
fn job_that_cannot_be_awaited_ends_the_rounds() {
    let mut poll = Poll::new(&valid());
    poll.advance();
    assert_eq!(poll.abort(), "host task panicked");
    poll.advance();
    assert!(matches!(poll.action(), PollAction::Aborted));
}

#[test]
fn rounds_without_hosts_only_wait() {
    let mut poll = Poll::new(&config(vec![], vec![]));
    assert!(matches!(poll.action(), PollAction::Sleep(60)));
    poll.advance();
    assert!(matches!(poll.action(), PollAction::Sleep(60)));
}

#[test]
fn lines_tell_what_happened() {
    assert_eq!(loaded_line(3), "Loaded 3 config(s)");
    assert_eq!(config_heading(2), "=== Config 2 ===");
    assert_eq!(config_error_line(2, "why"), "[config 2] ERROR: why");
    let info = host("h", TransferMethod::Ssh);
    assert_eq!(job_error_line(&info, "why"), "[me@h] ERROR: why");
}

fn job(transfer_method: TransferMethod) -> JobRun {
    JobRun::new(Job {
        host: host("h", transfer_method),
        files: vec![file("a", "/a"), file("b", "/b")],
    })
}

fn expect_sync(run: &JobRun, over: Transport, name: &str) {
    match run.action() {
        JobAction::Sync { transport, src, dest } => {
            assert_eq!(transport, over);
            assert_eq!(src, name);
            assert_eq!(dest, format!("/{name}"));
        }
        other => panic!("{other:?}"),
    }
}

#[test]
fn sftp_job_syncs_in_order_and_closes() {
    let mut run = job(TransferMethod::Sftp);
    assert_eq!(run.heading(), "\n--- me@h ---");
    assert_eq!(run.method_line(), "transfer method: SFTP first, SSH fallback");
    assert!(matches!(run.action(), JobAction::Connect));
    run.advance();
    assert!(matches!(run.action(), JobAction::OpenSftp));
    run.advance();
    expect_sync(&run, Transport::Sftp, "a");
    run.advance();
    expect_sync(&run, Transport::Sftp, "b");
    run.advance();
    assert!(matches!(run.action(), JobAction::CloseSftp));
    run.advance();
    assert!(matches!(run.action(), JobAction::Complete));
}

#[test]
fn job_falls_back_to_ssh() {
    let mut run = job(TransferMethod::Sftp);
    run.advance();
    assert!(matches!(run.fail(), Setback::FallBack));
    expect_sync(&run, Transport::Ssh, "a");
    run.advance();
    expect_sync(&run, Transport::Ssh, "b");
    run.advance();
    assert!(matches!(run.action(), JobAction::Complete));
}

#[test]
fn ssh_job_never_tries_sftp() {
    let mut run = job(TransferMethod::Ssh);
    assert_eq!(run.method_line(), "transfer method: SSH");
    run.advance();
    expect_sync(&run, Transport::Ssh, "a");
    run.advance();
    expect_sync(&run, Transport::Ssh, "b");
    run.advance();
    assert!(matches!(run.action(), JobAction::Complete));
}

#[test]
fn failed_job_stops() {
    let mut run = job(TransferMethod::Ssh);
    run.advance();
    run.advance();
    assert!(matches!(run.fail(), Setback::AbortWith(text) if text == "failed syncing b -> /b"));
    assert!(matches!(run.action(), JobAction::Aborted));
    run.advance();
    assert!(matches!(run.action(), JobAction::Aborted));

    let mut run = job(TransferMethod::Sftp);
    assert!(matches!(run.fail(), Setback::Abort));
    assert!(matches!(run.action(), JobAction::Aborted));

    let mut run = job(TransferMethod::Sftp);
    for _ in 0..4 {
        run.advance();
    }
    assert!(matches!(run.fail(), Setback::AbortWith(text) if text == "failed to close SFTP session"));
}

#[test]
fn job_without_files_closes_what_it_opened() {
    let mut run = JobRun::new(Job {
        host: host("h", TransferMethod::Sftp),
        files: vec![],
    });
    run.advance();
    run.advance();
    assert!(matches!(run.action(), JobAction::CloseSftp));
}

#[test]
fn session_opens_step_by_step() {
    let info = host("h", TransferMethod::Sftp);
    let mut connect = SshConnect::new(&info, "/key");
    assert_eq!(connect.heading(), "connecting to me@h");
    assert_eq!(connect.success_line(), "authenticated me@h");
    assert!(matches!(connect.action(), ConnectAction::LoadKey { path, passphrase: None }
        if path == "/key"));
    assert_eq!(connect.failure(), Some("failed to load SSH private key: /key".to_string()));
    connect.advance(true);
    assert!(matches!(connect.action(), ConnectAction::Dial { host, port: 22, inactivity_secs: 120, nodelay: true }
        if host == "h"));
    assert_eq!(connect.failure(), Some("failed to connect to h:22".to_string()));
    connect.advance(true);
    assert!(matches!(connect.action(), ConnectAction::QueryHash));
    assert_eq!(
        connect.failure(),
        Some("failed to determine supported RSA hash".to_string())
    );
    connect.advance(true);
    assert!(matches!(connect.action(), ConnectAction::Authenticate(user) if user == "me"));
    assert_eq!(
        connect.failure(),
        Some("public-key authentication failed for me@h".to_string())
    );
    connect.advance(true);
    assert!(matches!(connect.action(), ConnectAction::Complete));
    assert_eq!(connect.failure(), None);
}

#[test]
fn rejected_user_gets_no_session() {
    let mut connect = SshConnect::new(&host("h", TransferMethod::Ssh), "/key");
    for accepted in [true, true, true, false, true] {
        connect.advance(accepted);
    }
    assert!(matches!(connect.action(), ConnectAction::Rejected));
    assert_eq!(
        connect.failure(),
        Some("SSH server rejected public-key authentication for me@h".to_string())
    );
}

#[test]
fn sftp_session_opens_step_by_step() {
    let mut open = SftpOpen::new();
    assert!(matches!(open.action(), SftpOpenAction::OpenChannel));
    assert_eq!(open.failure(), Some("failed to open SFTP session channel".to_string()));
    open.advance();
    assert!(matches!(open.action(), SftpOpenAction::RequestSubsystem { name, want_reply: true }
        if name == "sftp"));
    assert_eq!(open.failure(), Some("SFTP subsystem request failed".to_string()));
    open.advance();
    assert!(matches!(open.action(), SftpOpenAction::Initialise { timeout_secs: 30 }));
    assert_eq!(open.failure(), Some("SFTP initialization failed".to_string()));
    open.advance();
    assert!(matches!(open.action(), SftpOpenAction::Complete));
    assert_eq!(open.failure(), None);
}
