//! Opening an SSH session, and an SFTP session within it.

use vstd::prelude::*;
use vstd::string::*;

use crate::config::login_text;
use crate::config::SSHInfo;

verus! {

/// The number of seconds that an SFTP request may take.
pub const SFTP_REQUEST_TIMEOUT_SECS: u64 = 30;

/// The number of seconds after which an idle SSH session is given up.
pub const SSH_INACTIVITY_TIMEOUT_SECS: u64 = 120;

/// The port of the SSH server.
pub const SSH_PORT: u16 = 22;

/// How far the opening of an SSH session has come.
#[derive(Debug, Clone, Copy, PartialEq, Eq, Structural)]
pub enum ConnectStage {
    /// The private key has to be loaded.
    LoadKey,
    /// The host has to be connected to.
    Dial,
    /// The server has to be asked which hash it takes with RSA keys.
    QueryHash,
    /// The user has to be authenticated.
    Authenticate,
    /// The session is open.
    Complete,
    /// The server has turned the user down.
    Rejected,
}

/// What to do next for an SSH session.
#[derive(Debug)]
pub enum ConnectAction {
    /// Load the private key at this path, with this passphrase, if any.
    LoadKey { path: String, passphrase: Option<String> },
    /// Connect to this port of this host. The session is given up when it has been
    /// idle for so many seconds; `nodelay` tells whether small packets are sent at
    /// once.
    Dial { host: String, port: u16, inactivity_secs: u64, nodelay: bool },
    QueryHash,
    /// Authenticate this user with the key.
    Authenticate(String),
    Complete,
    Rejected,
}

/// The opening of an SSH session under way.
#[verifier::ext_equal]
pub struct ConnectRun {
    pub info: SSHInfo,
    pub ssh_key: Seq<char>,
    pub stage: ConnectStage,
}

impl ConnectRun {
    /// An opening that has not been started.
    pub open spec fn fresh(info: SSHInfo, ssh_key: Seq<char>) -> ConnectRun {
        ConnectRun { info, ssh_key, stage: ConnectStage::LoadKey }
    }

    /// The opening after the current step has been done, where `accepted` tells
    /// whether the server has let the user in, if that was the step.
    pub open spec fn advance(self, accepted: bool) -> ConnectRun {
        let stage = match self.stage {
            ConnectStage::LoadKey => ConnectStage::Dial,
            ConnectStage::Dial => ConnectStage::QueryHash,
            ConnectStage::QueryHash => ConnectStage::Authenticate,
            ConnectStage::Authenticate => if accepted {
                ConnectStage::Complete
            } else {
                ConnectStage::Rejected
            },
            stage => stage,
        };
        ConnectRun { stage, ..self }
    }

    /// The opening after as many steps as there are answers.
    pub open spec fn advance_all(self, answers: Seq<bool>) -> ConnectRun
        decreases answers.len(),
    {
        if answers.len() == 0 {
            self
        } else {
            self.advance_all(answers.drop_last()).advance(answers.last())
        }
    }

    /// What a failure of the current step is put down to; also, what to say where
    /// the server has turned the user down.
    pub open spec fn failure_text(self) -> Option<Seq<char>> {
        match self.stage {
            ConnectStage::LoadKey => Some("failed to load SSH private key: "@ + self.ssh_key),
            ConnectStage::Dial => Some("failed to connect to "@ + self.info.host@ + ":22"@),
            ConnectStage::QueryHash => Some("failed to determine supported RSA hash"@),
            ConnectStage::Authenticate => Some(
                "public-key authentication failed for "@ + login_text(self.info),
            ),
            ConnectStage::Complete => None,
            ConnectStage::Rejected => Some(
                "SSH server rejected public-key authentication for "@ + login_text(self.info),
            ),
        }
    }
}

/// Whether `action` is what the opening of a session needs next.
pub open spec fn is_connect_action(action: ConnectAction, run: ConnectRun) -> bool {
    match run.stage {
        ConnectStage::LoadKey => action matches ConnectAction::LoadKey { path, passphrase }
            && path@ == run.ssh_key && passphrase is None,
        ConnectStage::Dial => {
            &&& action matches ConnectAction::Dial { host, port, inactivity_secs, nodelay }
            &&& host@ == run.info.host@
            &&& port == SSH_PORT
            &&& inactivity_secs == SSH_INACTIVITY_TIMEOUT_SECS
            &&& nodelay
        },
        ConnectStage::QueryHash => action is QueryHash,
        ConnectStage::Authenticate => action matches ConnectAction::Authenticate(user) && user@
            == run.info.user@,
        ConnectStage::Complete => action is Complete,
        ConnectStage::Rejected => action is Rejected,
    }
}

/// Drives the opening of one SSH session.
#[derive(Debug)]
pub struct SshConnect {
    info: SSHInfo,
    ssh_key: String,
    stage: ConnectStage,
}

impl View for SshConnect {
    type V = ConnectRun;

    closed spec fn view(&self) -> ConnectRun {
        ConnectRun { info: self.info, ssh_key: self.ssh_key@, stage: self.stage }
    }
}

impl SshConnect {
    /// A session on this host, with the private key at `ssh_key`, that is yet to
    /// be opened.
    pub fn new(info: &SSHInfo, ssh_key: &str) -> (res: SshConnect)
        ensures
            res@ == ConnectRun::fresh(*info, ssh_key@),
    {
        SshConnect {
            info: info.clone(),
            ssh_key: ssh_key.to_owned(),
            stage: ConnectStage::LoadKey,
        }
    }

    /// The line that opens the attempt.
    pub fn heading(&self) -> (res: String)
        ensures
            res@ == "connecting to "@ + login_text(self@.info),
    {
        "connecting to ".to_owned().concat(self.info.login().as_str())
    }

    /// The line that tells of a session that is open.
    pub fn success_line(&self) -> (res: String)
        ensures
            res@ == "authenticated "@ + login_text(self@.info),
    {
        "authenticated ".to_owned().concat(self.info.login().as_str())
    }

    /// What to do next.
    pub fn action(&self) -> (res: ConnectAction)
        ensures
            is_connect_action(res, self@),
    {
        match self.stage {
            ConnectStage::LoadKey => ConnectAction::LoadKey {
                path: self.ssh_key.clone(),
                passphrase: None,
            },
            ConnectStage::Dial => ConnectAction::Dial {
                host: self.info.host.clone(),
                port: SSH_PORT,
                inactivity_secs: SSH_INACTIVITY_TIMEOUT_SECS,
                nodelay: true,
            },
            ConnectStage::QueryHash => ConnectAction::QueryHash,
            ConnectStage::Authenticate => ConnectAction::Authenticate(self.info.user.clone()),
            ConnectStage::Complete => ConnectAction::Complete,
            ConnectStage::Rejected => ConnectAction::Rejected,
        }
    }

    /// The current step has been done; `accepted` tells whether the server has
    /// let the user in, if that was the step.
    pub fn advance(&mut self, accepted: bool)
        ensures
            final(self)@ == old(self)@.advance(accepted),
    {
        self.stage = match self.stage {
            ConnectStage::LoadKey => ConnectStage::Dial,
            ConnectStage::Dial => ConnectStage::QueryHash,
            ConnectStage::QueryHash => ConnectStage::Authenticate,
            ConnectStage::Authenticate => if accepted {
                ConnectStage::Complete
            } else {
                ConnectStage::Rejected
            },
            stage => stage,
        };
    }

    /// What a failure of the current step is put down to; also, what to say where
    /// the server has turned the user down.
    pub fn failure(&self) -> (res: Option<String>)
        ensures
            match res {
                Some(text) => self@.failure_text() == Some(text@),
                None => self@.failure_text() is None,
            },
    {
        match self.stage {
            ConnectStage::LoadKey => Some(
                "failed to load SSH private key: ".to_owned().concat(self.ssh_key.as_str()),
            ),
            ConnectStage::Dial => Some(
                "failed to connect to ".to_owned().concat(self.info.host.as_str()).concat(":22"),
            ),
            ConnectStage::QueryHash => Some("failed to determine supported RSA hash".to_owned()),
            ConnectStage::Authenticate => Some(
                "public-key authentication failed for ".to_owned().concat(
                    self.info.login().as_str(),
                ),
            ),
            ConnectStage::Complete => None,
            ConnectStage::Rejected => Some(
                "SSH server rejected public-key authentication for ".to_owned().concat(
                    self.info.login().as_str(),
                ),
            ),
        }
    }
}

/// A session is open only once the key was loaded, the host was reached, the
/// server was asked for its hash, and it has then let the user in; if it has not,
/// the session is never opened.
pub proof fn session_opens_only_for_an_accepted_user(
    info: SSHInfo,
    ssh_key: Seq<char>,
    answers: Seq<bool>,
)
    ensures
        ({
            let run = ConnectRun::fresh(info, ssh_key).advance_all(answers);
            &&& run.stage is Complete <==> answers.len() >= 4 && answers[3]
            &&& run.stage is Rejected <==> answers.len() >= 4 && !answers[3]
        }),
{
    connect_stage_follows_the_answers(info, ssh_key, answers);
}

proof fn connect_stage_follows_the_answers(info: SSHInfo, ssh_key: Seq<char>, answers: Seq<bool>)
    ensures
        ConnectRun::fresh(info, ssh_key).advance_all(answers).stage == if answers.len() == 0 {
            ConnectStage::LoadKey
        } else if answers.len() == 1 {
            ConnectStage::Dial
        } else if answers.len() == 2 {
            ConnectStage::QueryHash
        } else if answers.len() == 3 {
            ConnectStage::Authenticate
        } else if answers[3] {
            ConnectStage::Complete
        } else {
            ConnectStage::Rejected
        },
    decreases answers.len(),
{
    if answers.len() > 0 {
        connect_stage_follows_the_answers(info, ssh_key, answers.drop_last());
    }
}

/// How far the opening of an SFTP session has come.
#[derive(Debug, Clone, Copy, PartialEq, Eq, Structural)]
pub enum SftpOpenStage {
    /// A channel has to be opened.
    OpenChannel,
    /// The subsystem has to be asked for.
    RequestSubsystem,
    /// The protocol has to be initialised.
    Initialise,
    /// The session is open.
    Complete,
}

/// What to do next for an SFTP session.
#[derive(Debug)]
pub enum SftpOpenAction {
    OpenChannel,
    /// Ask for the subsystem of this name; `want_reply` tells whether the server is
    /// asked to answer.
    RequestSubsystem { name: String, want_reply: bool },
    /// Initialise the protocol, with this many seconds for each request. They
    /// hold from the first request on.
    Initialise { timeout_secs: u64 },
    Complete,
}

/// Where the opening of an SFTP session starts.
pub open spec fn first_sftp_open_stage() -> SftpOpenStage {
    SftpOpenStage::OpenChannel
}

/// The stage after the current step has succeeded.
pub open spec fn next_sftp_open_stage(stage: SftpOpenStage) -> SftpOpenStage {
    match stage {
        SftpOpenStage::OpenChannel => SftpOpenStage::RequestSubsystem,
        SftpOpenStage::RequestSubsystem => SftpOpenStage::Initialise,
        SftpOpenStage::Initialise => SftpOpenStage::Complete,
        SftpOpenStage::Complete => SftpOpenStage::Complete,
    }
}

/// What a failure of a step is put down to.
pub open spec fn sftp_open_failure_text(stage: SftpOpenStage) -> Option<Seq<char>> {
    match stage {
        SftpOpenStage::OpenChannel => Some("failed to open SFTP session channel"@),
        SftpOpenStage::RequestSubsystem => Some("SFTP subsystem request failed"@),
        SftpOpenStage::Initialise => Some("SFTP initialization failed"@),
        SftpOpenStage::Complete => None,
    }
}

/// Whether `action` is what the opening of an SFTP session needs next.
pub open spec fn is_sftp_open_action(action: SftpOpenAction, stage: SftpOpenStage) -> bool {
    match stage {
        SftpOpenStage::OpenChannel => action is OpenChannel,
        SftpOpenStage::RequestSubsystem => action matches SftpOpenAction::RequestSubsystem {
            name,
            want_reply,
        } && name@ == "sftp"@ && want_reply,
        SftpOpenStage::Initialise => action matches SftpOpenAction::Initialise { timeout_secs }
            && timeout_secs == SFTP_REQUEST_TIMEOUT_SECS,
        SftpOpenStage::Complete => action is Complete,
    }
}

/// Drives the opening of one SFTP session.
#[derive(Debug)]
pub struct SftpOpen {
    stage: SftpOpenStage,
}

impl View for SftpOpen {
    type V = SftpOpenStage;

    closed spec fn view(&self) -> SftpOpenStage {
        self.stage
    }
}

impl SftpOpen {
    /// A session that is yet to be opened.
    pub fn new() -> (res: SftpOpen)
        ensures
            res@ == first_sftp_open_stage(),
    {
        SftpOpen { stage: SftpOpenStage::OpenChannel }
    }

    /// What to do next.
    pub fn action(&self) -> (res: SftpOpenAction)
        ensures
            is_sftp_open_action(res, self@),
    {
        match self.stage {
            SftpOpenStage::OpenChannel => SftpOpenAction::OpenChannel,
            SftpOpenStage::RequestSubsystem => SftpOpenAction::RequestSubsystem {
                name: "sftp".to_owned(),
                want_reply: true,
            },
            SftpOpenStage::Initialise => SftpOpenAction::Initialise {
                timeout_secs: SFTP_REQUEST_TIMEOUT_SECS,
            },
            SftpOpenStage::Complete => SftpOpenAction::Complete,
        }
    }

    /// The current step has succeeded.
    pub fn advance(&mut self)
        ensures
            final(self)@ == next_sftp_open_stage(old(self)@),
    {
        self.stage = match self.stage {
            SftpOpenStage::OpenChannel => SftpOpenStage::RequestSubsystem,
            SftpOpenStage::RequestSubsystem => SftpOpenStage::Initialise,
            SftpOpenStage::Initialise => SftpOpenStage::Complete,
            SftpOpenStage::Complete => SftpOpenStage::Complete,
        };
    }

    /// What a failure of the current step is put down to.
    pub fn failure(&self) -> (res: Option<String>)
        ensures
            match res {
                Some(text) => sftp_open_failure_text(self@) == Some(text@),
                None => sftp_open_failure_text(self@) is None,
            },
    {
        match self.stage {
            SftpOpenStage::OpenChannel => Some("failed to open SFTP session channel".to_owned()),
            SftpOpenStage::RequestSubsystem => Some("SFTP subsystem request failed".to_owned()),
            SftpOpenStage::Initialise => Some("SFTP initialization failed".to_owned()),
            SftpOpenStage::Complete => None,
        }
    }
}

/// An SFTP session is opened on a channel of its own: the subsystem `sftp` is asked for,
/// with a request for an answer, and only then is the protocol initialised, with thirty
/// seconds for a request from the first one on. After that there is nothing left to do.
pub proof fn sftp_session_is_opened_in_order(
    first: SftpOpenAction,
    second: SftpOpenAction,
    third: SftpOpenAction,
    last: SftpOpenAction,
)
    requires
        is_sftp_open_action(first, first_sftp_open_stage()),
        is_sftp_open_action(second, next_sftp_open_stage(first_sftp_open_stage())),
        is_sftp_open_action(
            third,
            next_sftp_open_stage(next_sftp_open_stage(first_sftp_open_stage())),
        ),
        is_sftp_open_action(
            last,
            next_sftp_open_stage(
                next_sftp_open_stage(next_sftp_open_stage(first_sftp_open_stage())),
            ),
        ),
    ensures
        first is OpenChannel,
        second matches SftpOpenAction::RequestSubsystem { name, want_reply } && name@ == seq![
            's',
            'f',
            't',
            'p',
        ] && want_reply,
        third matches SftpOpenAction::Initialise { timeout_secs } && timeout_secs == 30,
        last is Complete,
{
    reveal_strlit("sftp");
    assert("sftp"@ == seq!['s', 'f', 't', 'p']);
}

/// What a failure to open an SFTP session is put down to, by what was to be done.
pub proof fn sftp_open_failures_tell_the_step(stage: SftpOpenStage, action: SftpOpenAction)
    requires
        is_sftp_open_action(action, stage),
    ensures
        sftp_open_failure_text(stage) == match action {
            SftpOpenAction::OpenChannel => Some("failed to open SFTP session channel"@),
            SftpOpenAction::RequestSubsystem { .. } => Some("SFTP subsystem request failed"@),
            SftpOpenAction::Initialise { .. } => Some("SFTP initialization failed"@),
            SftpOpenAction::Complete => None,
        },
{
}

proof fn connecting_keeps_host_and_key(info: SSHInfo, ssh_key: Seq<char>, answers: Seq<bool>)
    ensures
        ConnectRun::fresh(info, ssh_key).advance_all(answers).info == info,
        ConnectRun::fresh(info, ssh_key).advance_all(answers).ssh_key == ssh_key,
    decreases answers.len(),
{
    if answers.len() > 0 {
        connecting_keeps_host_and_key(info, ssh_key, answers.drop_last());
    }
}

/// What is done to open a session as `info` says, with the key at `ssh_key`, by the
/// number of steps done: that key is loaded, without a passphrase; port 22 of that host
/// is connected to, for a session that may be idle for two minutes and sends small
/// packets at once; the server is asked for its hash; that user is authenticated. If the
/// server has let the user in, the session is open, and otherwise it has turned the user
/// down, whatever is done after that.
pub proof fn session_is_opened_for_the_right_user(
    info: SSHInfo,
    ssh_key: Seq<char>,
    answers: Seq<bool>,
    action: ConnectAction,
)
    requires
        is_connect_action(action, ConnectRun::fresh(info, ssh_key).advance_all(answers)),
    ensures
        if answers.len() == 0 {
            action matches ConnectAction::LoadKey { path, passphrase } && path@ == ssh_key
                && passphrase is None
        } else if answers.len() == 1 {
            action matches ConnectAction::Dial { host, port, inactivity_secs, nodelay } && host@
                == info.host@ && port == 22 && inactivity_secs == 120 && nodelay
        } else if answers.len() == 2 {
            action is QueryHash
        } else if answers.len() == 3 {
            action matches ConnectAction::Authenticate(user) && user@ == info.user@
        } else if answers[3] {
            action is Complete
        } else {
            action is Rejected
        },
{
    connecting_keeps_host_and_key(info, ssh_key, answers);
    connect_stage_follows_the_answers(info, ssh_key, answers);
}

/// What a failure to open a session is put down to names what was to be done: the key,
/// the host with its port, or the user on the host.
pub proof fn connect_failures_name_the_step(
    info: SSHInfo,
    ssh_key: Seq<char>,
    answers: Seq<bool>,
)
    ensures
        ({
            let told = ConnectRun::fresh(info, ssh_key).advance_all(answers).failure_text();
            let login = info.user@ + "@"@ + info.host@;
            if answers.len() == 0 {
                told == Some("failed to load SSH private key: "@ + ssh_key)
            } else if answers.len() == 1 {
                told == Some("failed to connect to "@ + info.host@ + ":22"@)
            } else if answers.len() == 2 {
                told == Some("failed to determine supported RSA hash"@)
            } else if answers.len() == 3 {
                told == Some("public-key authentication failed for "@ + login)
            } else if answers[3] {
                told is None
            } else {
                told == Some("SSH server rejected public-key authentication for "@ + login)
            }
        }),
{
    connecting_keeps_host_and_key(info, ssh_key, answers);
    connect_stage_follows_the_answers(info, ssh_key, answers);
}

} // verus!
