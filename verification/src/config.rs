//! The configuration: which files go to which hosts, and what makes it valid.

use vstd::prelude::*;
use vstd::string::*;

use crate::text::decimal;
use crate::text::decimal_text;
use crate::text::is_blank;
use crate::text::is_blank_text;

verus! {

/// How files are transferred to a host.
#[derive(Debug, Clone, Copy, PartialEq, Eq, Structural)]
pub enum TransferMethod {
    /// Over SFTP, or over plain SSH if SFTP cannot be had.
    Sftp,
    /// Over plain SSH.
    Ssh,
}

impl Default for TransferMethod {
    /// SFTP, where nothing else was asked for.
    fn default() -> (res: TransferMethod)
        ensures
            res == TransferMethod::Sftp,
    {
        TransferMethod::Sftp
    }
}

/// A host, and who to be on it.
#[derive(Debug)]
pub struct SSHInfo {
    pub host: String,
    pub user: String,
    pub transfer_method: TransferMethod,
}

impl Clone for SSHInfo {
    fn clone(&self) -> (res: SSHInfo)
        ensures
            res == *self,
    {
        SSHInfo {
            host: self.host.clone(),
            user: self.user.clone(),
            transfer_method: self.transfer_method,
        }
    }
}

/// The text `user@host`.
pub open spec fn login_text(info: SSHInfo) -> Seq<char> {
    info.user@ + "@"@ + info.host@
}

impl SSHInfo {
    /// The host and the user on it, as `user@host`.
    pub fn login(&self) -> (res: String)
        ensures
            res@ == login_text(*self),
    {
        self.user.clone().concat("@").concat(self.host.as_str())
    }
}

/// A local file, and where it goes.
#[derive(Debug)]
pub struct FilePair {
    pub src: String,
    pub dest: String,
}

impl Clone for FilePair {
    fn clone(&self) -> (res: FilePair)
        ensures
            res == *self,
    {
        FilePair { src: self.src.clone(), dest: self.dest.clone() }
    }
}

/// One group of hosts, and the files that all of them get.
#[derive(Debug)]
pub struct Config {
    pub hosts: Vec<SSHInfo>,
    pub files: Vec<FilePair>,
    /// The path of the private key.
    pub ssh_key: String,
    /// The number of seconds between two checks.
    pub check_interval: u64,
}

/// The first thing that is wrong with a configuration. Configs and files are
/// numbered from one.
#[derive(Debug)]
pub enum ConfigFault {
    NoConfigs,
    NoHosts { config: usize },
    NoFiles { config: usize },
    EmptySshKey { config: usize },
    ZeroInterval { config: usize },
    EmptySource { config: usize, file: usize },
    EmptyDestination { config: usize, file: usize },
    /// The source is not a regular file.
    MissingSource { config: usize, file: usize, src: String },
}

/// The text `config C`.
pub open spec fn config_place(config: usize) -> Seq<char> {
    "config "@ + decimal_text(config as nat)
}

/// The text `config C file F`.
pub open spec fn file_place(config: usize, file: usize) -> Seq<char> {
    config_place(config) + " file "@ + decimal_text(file as nat)
}

fn config_place_text(config: usize) -> (res: String)
    ensures
        res@ == config_place(config),
{
    "config ".to_owned().concat(decimal(config as u64).as_str())
}

fn file_place_text(config: usize, file: usize) -> (res: String)
    ensures
        res@ == file_place(config, file),
{
    config_place_text(config).concat(" file ").concat(decimal(file as u64).as_str())
}

impl ConfigFault {
    /// The text of the fault.
    pub open spec fn text(self) -> Seq<char> {
        match self {
            ConfigFault::NoConfigs => "configuration contains no configs"@,
            ConfigFault::NoHosts { config } => config_place(config) + " contains no hosts"@,
            ConfigFault::NoFiles { config } => config_place(config) + " contains no files"@,
            ConfigFault::EmptySshKey { config } => config_place(config) + " has an empty ssh_key"@,
            ConfigFault::ZeroInterval { config } => config_place(config)
                + " has check_interval = 0"@,
            ConfigFault::EmptySource { config, file } => file_place(config, file)
                + " has an empty src"@,
            ConfigFault::EmptyDestination { config, file } => file_place(config, file)
                + " has an empty dest"@,
            ConfigFault::MissingSource { config, file, src } => file_place(config, file)
                + " source does not exist or is not a regular file: "@ + src@,
        }
    }

    /// Says what is wrong.
    pub fn message(&self) -> (res: String)
        ensures
            res@ == self.text(),
    {
        match self {
            ConfigFault::NoConfigs => "configuration contains no configs".to_owned(),
            ConfigFault::NoHosts { config } => config_place_text(*config).concat(
                " contains no hosts",
            ),
            ConfigFault::NoFiles { config } => config_place_text(*config).concat(
                " contains no files",
            ),
            ConfigFault::EmptySshKey { config } => config_place_text(*config).concat(
                " has an empty ssh_key",
            ),
            ConfigFault::ZeroInterval { config } => config_place_text(*config).concat(
                " has check_interval = 0",
            ),
            ConfigFault::EmptySource { config, file } => file_place_text(*config, *file).concat(
                " has an empty src",
            ),
            ConfigFault::EmptyDestination { config, file } => file_place_text(
                *config,
                *file,
            ).concat(" has an empty dest"),
            ConfigFault::MissingSource { config, file, src } => file_place_text(
                *config,
                *file,
            ).concat(" source does not exist or is not a regular file: ").concat(src.as_str()),
        }
    }
}

/// What a failure to open the configuration is put down to.
pub fn open_failure(path: &str) -> (res: String)
    ensures
        res@ == "failed to open config: "@ + path@,
{
    "failed to open config: ".to_owned().concat(path)
}

/// What a failure to make sense of the configuration is put down to.
pub fn parse_failure(path: &str) -> (res: String)
    ensures
        res@ == "failed to parse YAML: "@ + path@,
{
    "failed to parse YAML: ".to_owned().concat(path)
}

/// What is wrong with config `c` by itself, apart from its files, if anything.
pub open spec fn heading_fault(config: Config, c: int) -> Option<ConfigFault> {
    let number = (c + 1) as usize;
    if config.hosts@.len() == 0 {
        Some(ConfigFault::NoHosts { config: number })
    } else if config.files@.len() == 0 {
        Some(ConfigFault::NoFiles { config: number })
    } else if is_blank(config.ssh_key@) {
        Some(ConfigFault::EmptySshKey { config: number })
    } else if config.check_interval == 0 {
        Some(ConfigFault::ZeroInterval { config: number })
    } else {
        None
    }
}

/// What is wrong with the names of file `f` of config `c`, if anything.
pub open spec fn naming_fault(file: FilePair, c: int, f: int) -> Option<ConfigFault> {
    let config = (c + 1) as usize;
    let number = (f + 1) as usize;
    if is_blank(file.src@) {
        Some(ConfigFault::EmptySource { config, file: number })
    } else if is_blank(file.dest@) {
        Some(ConfigFault::EmptyDestination { config, file: number })
    } else {
        None
    }
}

/// The fault of file `f` of config `c` if its source is not a regular file.
pub open spec fn missing_source(file: FilePair, c: int, f: int) -> ConfigFault {
    ConfigFault::MissingSource { config: (c + 1) as usize, file: (f + 1) as usize, src: file.src }
}

/// How far the check of a configuration has come.
#[derive(Debug)]
pub enum CheckState {
    /// Whether the source of this file of this config, both numbered from zero,
    /// is a regular file has to be found out.
    Probe { config: usize, file: usize },
    /// Nothing is wrong.
    Accepted,
    /// Something is wrong.
    Rejected(ConfigFault),
}

/// How a check goes on at config `c`.
pub open spec fn check_config(configs: Seq<Config>, c: int) -> CheckState
    decreases configs.len() - c, 1int,
{
    if c < 0 || c >= configs.len() {
        CheckState::Accepted
    } else {
        match heading_fault(configs[c], c) {
            Some(fault) => CheckState::Rejected(fault),
            None => check_file(configs, c, 0),
        }
    }
}

/// How a check goes on at file `f` of config `c`.
pub open spec fn check_file(configs: Seq<Config>, c: int, f: int) -> CheckState
    decreases configs.len() - c, 0int,
{
    if c < 0 || c >= configs.len() {
        CheckState::Accepted
    } else if f >= configs[c].files@.len() {
        check_config(configs, c + 1)
    } else {
        match naming_fault(configs[c].files@[f], c, f) {
            Some(fault) => CheckState::Rejected(fault),
            None => CheckState::Probe { config: c as usize, file: f as usize },
        }
    }
}

/// How a check starts.
pub open spec fn check_start(configs: Seq<Config>) -> CheckState {
    if configs.len() == 0 {
        CheckState::Rejected(ConfigFault::NoConfigs)
    } else {
        check_config(configs, 0)
    }
}

/// How a check goes on from `state`, where `is_file` is the answer if one was
/// needed.
pub open spec fn check_next(configs: Seq<Config>, state: CheckState, is_file: bool) -> CheckState {
    match state {
        CheckState::Probe { config, file } => if is_file {
            check_file(configs, config as int, file + 1)
        } else {
            CheckState::Rejected(
                missing_source(configs[config as int].files@[file as int], config as int, file as int),
            )
        },
        _ => state,
    }
}

fn scan_config(configs: &Vec<Config>, c: usize) -> (res: CheckState)
    requires
        c <= configs@.len(),
    ensures
        res == check_config(configs@, c as int),
    decreases configs@.len() - c, 1int,
{
    if c >= configs.len() {
        return CheckState::Accepted;
    }
    let config = &configs[c];
    if config.hosts.len() == 0 {
        CheckState::Rejected(ConfigFault::NoHosts { config: c + 1 })
    } else if config.files.len() == 0 {
        CheckState::Rejected(ConfigFault::NoFiles { config: c + 1 })
    } else if is_blank_text(config.ssh_key.as_str()) {
        CheckState::Rejected(ConfigFault::EmptySshKey { config: c + 1 })
    } else if config.check_interval == 0 {
        CheckState::Rejected(ConfigFault::ZeroInterval { config: c + 1 })
    } else {
        scan_file(configs, c, 0)
    }
}

fn scan_file(configs: &Vec<Config>, c: usize, f: usize) -> (res: CheckState)
    requires
        c < configs@.len(),
    ensures
        res == check_file(configs@, c as int, f as int),
    decreases configs@.len() - c, 0int,
{
    assert(c < configs.len());
    if f >= configs[c].files.len() {
        return scan_config(configs, c + 1);
    }
    let file = &configs[c].files[f];
    if is_blank_text(file.src.as_str()) {
        CheckState::Rejected(ConfigFault::EmptySource { config: c + 1, file: f + 1 })
    } else if is_blank_text(file.dest.as_str()) {
        CheckState::Rejected(ConfigFault::EmptyDestination { config: c + 1, file: f + 1 })
    } else {
        CheckState::Probe { config: c, file: f }
    }
}

/// Whether a probe is of a file that is there to be probed.
pub open spec fn in_range(configs: Seq<Config>, state: CheckState) -> bool {
    state matches CheckState::Probe { config, file } ==> config < configs.len() && file
        < configs[config as int].files@.len()
}

proof fn check_stays_in_range(configs: Seq<Config>, c: int, f: int)
    requires
        configs.len() <= usize::MAX,
        forall|i: int| 0 <= i < configs.len() ==> (#[trigger] configs[i]).files@.len() <= usize::MAX,
        0 <= f,
    ensures
        in_range(configs, check_config(configs, c)),
        in_range(configs, check_file(configs, c, f)),
    decreases configs.len() - c,
{
    if 0 <= c < configs.len() {
        check_stays_in_range(configs, c + 1, 0);
    }
}

/// Drives the check of a configuration.
#[derive(Debug)]
pub struct ConfigCheck {
    configs: Vec<Config>,
    state: CheckState,
}

/// What to do next for the check of a configuration.
#[derive(Debug)]
pub enum CheckAction {
    /// Find out whether this path is that of a regular file.
    Probe(String),
    /// The check is done.
    Complete,
}

/// Whether `action` is what the check of `configs` needs next.
pub open spec fn is_check_action(
    action: CheckAction,
    configs: Seq<Config>,
    state: CheckState,
) -> bool {
    match state {
        CheckState::Probe { config, file } => action matches CheckAction::Probe(path) && path@
            == configs[config as int].files@[file as int].src@,
        _ => action is Complete,
    }
}

/// Whether `conclusion` is what the check of `configs` has come to: the configuration,
/// if nothing was found wrong with it, or what is wrong; nothing yet if a question is
/// open.
pub open spec fn is_conclusion(
    conclusion: Option<Result<Vec<Config>, ConfigFault>>,
    configs: Seq<Config>,
    state: CheckState,
) -> bool {
    match state {
        CheckState::Probe { .. } => conclusion is None,
        CheckState::Accepted => conclusion matches Some(Ok(accepted)) && accepted@ == configs,
        CheckState::Rejected(fault) => conclusion matches Some(Err(told)) && told == fault,
    }
}

impl ConfigCheck {
    #[verifier::type_invariant]
    closed spec fn probes_in_range(self) -> bool {
        in_range(self.configs@, self.state)
    }

    /// The configuration that is checked.
    pub closed spec fn configs(self) -> Seq<Config> {
        self.configs@
    }

    /// How far the check has come.
    pub closed spec fn state(self) -> CheckState {
        self.state
    }

    proof fn lengths_fit(configs: &Vec<Config>)
        ensures
            configs@.len() <= usize::MAX,
            forall|i: int|
                0 <= i < configs@.len() ==> (#[trigger] configs@[i]).files@.len() <= usize::MAX,
    {
        assert(configs.len() == configs@.len());
        assert forall|i: int| 0 <= i < configs@.len() implies (#[trigger] configs@[i]).files@.len()
            <= usize::MAX by {
            assert(configs@[i].files.len() == configs@[i].files@.len());
        }
    }

    /// A check of `configs`, taken to the first question.
    pub fn new(configs: Vec<Config>) -> (res: ConfigCheck)
        ensures
            res.configs() == configs@,
            res.state() == check_start(configs@),
    {
        let state = if configs.len() == 0 {
            CheckState::Rejected(ConfigFault::NoConfigs)
        } else {
            scan_config(&configs, 0)
        };
        proof {
            Self::lengths_fit(&configs);
            check_stays_in_range(configs@, 0, 0);
        }
        ConfigCheck { configs, state }
    }

    /// What to do next.
    pub fn action(&self) -> (res: CheckAction)
        ensures
            in_range(self.configs(), self.state()),
            is_check_action(res, self.configs(), self.state()),
    {
        proof {
            use_type_invariant(self);
        }
        match &self.state {
            CheckState::Probe { config, file } => CheckAction::Probe(
                self.configs[*config].files[*file].src.clone(),
            ),
            _ => CheckAction::Complete,
        }
    }

    /// The answer to a question: whether the path is that of a regular file.
    pub fn answer(self, is_file: bool) -> (res: ConfigCheck)
        ensures
            res.configs() == self.configs(),
            res.state() == check_next(self.configs(), self.state(), is_file),
    {
        proof {
            use_type_invariant(&self);
            Self::lengths_fit(&self.configs);
        }
        let ConfigCheck { configs, state } = self;
        let next = match state {
            CheckState::Probe { config, file } => {
                if is_file {
                    proof {
                        check_stays_in_range(configs@, config as int, file + 1);
                    }
                    scan_file(&configs, config, file + 1)
                } else {
                    CheckState::Rejected(
                        ConfigFault::MissingSource {
                            config: config + 1,
                            file: file + 1,
                            src: configs[config].files[file].src.clone(),
                        },
                    )
                }
            },
            state => state,
        };
        ConfigCheck { configs, state: next }
    }

    /// The configuration, if the check has found nothing wrong with it, or what
    /// is wrong; nothing yet if a question is open.
    pub fn conclude(self) -> (res: Option<Result<Vec<Config>, ConfigFault>>)
        ensures
            is_conclusion(res, self.configs(), self.state()),
    {
        match self.state {
            CheckState::Probe { .. } => None,
            CheckState::Accepted => Some(Ok(self.configs)),
            CheckState::Rejected(fault) => Some(Err(fault)),
        }
    }
}

/// Whether a file is named on both sides and is there to be sent, where `regular`
/// tells which paths are those of regular files.
pub open spec fn is_valid_file(file: FilePair, regular: spec_fn(Seq<char>) -> bool) -> bool {
    &&& !is_blank(file.src@)
    &&& !is_blank(file.dest@)
    &&& regular(file.src@)
}

/// Whether a config has hosts, files, a key and an interval, and all its files
/// are valid.
pub open spec fn is_valid_config(config: Config, regular: spec_fn(Seq<char>) -> bool) -> bool {
    &&& config.hosts@.len() > 0
    &&& config.files@.len() > 0
    &&& !is_blank(config.ssh_key@)
    &&& config.check_interval > 0
    &&& forall|f: int|
        0 <= f < config.files@.len() ==> is_valid_file(#[trigger] config.files@[f], regular)
}

/// Whether there is a config, and all configs are valid.
pub open spec fn is_valid(configs: Seq<Config>, regular: spec_fn(Seq<char>) -> bool) -> bool {
    &&& configs.len() > 0
    &&& forall|c: int| 0 <= c < configs.len() ==> is_valid_config(#[trigger] configs[c], regular)
}

/// What is wrong with file `f` of config `c`, if anything.
pub open spec fn file_fault(
    file: FilePair,
    c: int,
    f: int,
    regular: spec_fn(Seq<char>) -> bool,
) -> Option<ConfigFault> {
    match naming_fault(file, c, f) {
        Some(fault) => Some(fault),
        None => if regular(file.src@) {
            None
        } else {
            Some(missing_source(file, c, f))
        },
    }
}

/// The first fault among the files of config `c` from `f` on.
pub open spec fn files_fault(
    config: Config,
    c: int,
    f: int,
    regular: spec_fn(Seq<char>) -> bool,
) -> Option<ConfigFault>
    decreases config.files@.len() - f,
{
    if f < 0 || f >= config.files@.len() {
        None
    } else {
        match file_fault(config.files@[f], c, f, regular) {
            Some(fault) => Some(fault),
            None => files_fault(config, c, f + 1, regular),
        }
    }
}

/// The first fault of config `c`: of the config itself, and then of its files.
pub open spec fn config_fault(
    config: Config,
    c: int,
    regular: spec_fn(Seq<char>) -> bool,
) -> Option<ConfigFault> {
    match heading_fault(config, c) {
        Some(fault) => Some(fault),
        None => files_fault(config, c, 0, regular),
    }
}

/// The first fault among the configs from `c` on.
pub open spec fn fault_from(
    configs: Seq<Config>,
    c: int,
    regular: spec_fn(Seq<char>) -> bool,
) -> Option<ConfigFault>
    decreases configs.len() - c,
{
    if c < 0 || c >= configs.len() {
        None
    } else {
        match config_fault(configs[c], c, regular) {
            Some(fault) => Some(fault),
            None => fault_from(configs, c + 1, regular),
        }
    }
}

/// The first fault of a configuration.
pub open spec fn first_fault(
    configs: Seq<Config>,
    regular: spec_fn(Seq<char>) -> bool,
) -> Option<ConfigFault> {
    if configs.len() == 0 {
        Some(ConfigFault::NoConfigs)
    } else {
        fault_from(configs, 0, regular)
    }
}

/// The verdict on a configuration with this first fault.
pub open spec fn verdict(fault: Option<ConfigFault>) -> CheckState {
    match fault {
        Some(fault) => CheckState::Rejected(fault),
        None => CheckState::Accepted,
    }
}

/// A check after at most `n` questions have been answered, by `regular`.
pub open spec fn answered(
    configs: Seq<Config>,
    state: CheckState,
    regular: spec_fn(Seq<char>) -> bool,
    n: nat,
) -> CheckState
    decreases n,
{
    if n == 0 {
        state
    } else {
        match state {
            CheckState::Probe { config, file } => answered(
                configs,
                check_next(
                    configs,
                    state,
                    regular(configs[config as int].files@[file as int].src@),
                ),
                regular,
                (n - 1) as nat,
            ),
            _ => state,
        }
    }
}

/// The number of files in the configs from `c` on.
pub open spec fn files_from(configs: Seq<Config>, c: int) -> int
    decreases configs.len() - c,
{
    if c < 0 || c >= configs.len() {
        0
    } else {
        configs[c].files@.len() + files_from(configs, c + 1)
    }
}

proof fn config_resolves(
    configs: Seq<Config>,
    c: int,
    regular: spec_fn(Seq<char>) -> bool,
    n: nat,
)
    requires
        configs.len() <= usize::MAX,
        0 <= c,
        n >= files_from(configs, c),
    ensures
        answered(configs, check_config(configs, c), regular, n) == verdict(
            fault_from(configs, c, regular),
        ),
    decreases configs.len() - c, 1int, 0int,
{
    if c < configs.len() && heading_fault(configs[c], c) is None {
        file_resolves(configs, c, 0, regular, n);
    }
}

proof fn file_resolves(
    configs: Seq<Config>,
    c: int,
    f: int,
    regular: spec_fn(Seq<char>) -> bool,
    n: nat,
)
    requires
        configs.len() <= usize::MAX,
        0 <= c < configs.len(),
        0 <= f <= configs[c].files@.len(),
        n >= files_from(configs, c) - f,
    ensures
        answered(configs, check_file(configs, c, f), regular, n) == (match files_fault(
            configs[c],
            c,
            f,
            regular,
        ) {
            Some(fault) => CheckState::Rejected(fault),
            None => verdict(fault_from(configs, c + 1, regular)),
        }),
    decreases configs.len() - c, 0int, configs[c].files@.len() - f,
{
    assert(configs[c].files.len() == configs[c].files@.len());
    files_are_counted(configs, c + 1);
    if f == configs[c].files@.len() {
        config_resolves(configs, c + 1, regular, n);
    } else if file_fault(configs[c].files@[f], c, f, regular) is None {
        file_resolves(configs, c, f + 1, regular, (n - 1) as nat);
    } else if naming_fault(configs[c].files@[f], c, f) is None {
        reveal_with_fuel(answered, 2);
    }
}

proof fn files_are_counted(configs: Seq<Config>, c: int)
    ensures
        files_from(configs, c) >= 0,
    decreases configs.len() - c,
{
    if 0 <= c < configs.len() {
        files_are_counted(configs, c + 1);
    }
}

/// A check whose questions are answered truthfully asks at most one question for
/// each file, and then gives the first fault, or accepts the configuration if it
/// has none.
pub proof fn check_finds_the_first_fault(
    configs: Seq<Config>,
    regular: spec_fn(Seq<char>) -> bool,
    n: nat,
)
    requires
        configs.len() <= usize::MAX,
        n >= files_from(configs, 0),
    ensures
        answered(configs, check_start(configs), regular, n) == verdict(first_fault(configs, regular)),
{
    config_resolves(configs, 0, regular, n);
}

/// A configuration has no fault exactly if it is valid.
pub proof fn valid_means_without_fault(configs: Seq<Config>, regular: spec_fn(Seq<char>) -> bool)
    ensures
        first_fault(configs, regular) is None <==> is_valid(configs, regular),
{
    valid_from(configs, 0, regular);
}

proof fn valid_from(configs: Seq<Config>, c: int, regular: spec_fn(Seq<char>) -> bool)
    requires
        0 <= c,
    ensures
        fault_from(configs, c, regular) is None <==> forall|i: int|
            c <= i < configs.len() ==> is_valid_config(#[trigger] configs[i], regular),
    decreases configs.len() - c,
{
    if c < configs.len() {
        valid_from(configs, c + 1, regular);
        files_valid_from(configs[c], c, 0, regular);
        assert(config_fault(configs[c], c, regular) is None <==> is_valid_config(configs[c], regular));
    }
}

proof fn files_valid_from(config: Config, c: int, f: int, regular: spec_fn(Seq<char>) -> bool)
    requires
        0 <= f,
    ensures
        files_fault(config, c, f, regular) is None <==> forall|i: int|
            f <= i < config.files@.len() ==> is_valid_file(#[trigger] config.files@[i], regular),
    decreases config.files@.len() - f,
{
    if f < config.files@.len() {
        files_valid_from(config, c, f + 1, regular);
        assert(file_fault(config.files@[f], c, f, regular) is None <==> is_valid_file(
            config.files@[f],
            regular,
        ));
    }
}

/// The first fault is that of the first config that is not valid.
pub proof fn fault_is_of_the_first_invalid_config(
    configs: Seq<Config>,
    c: int,
    regular: spec_fn(Seq<char>) -> bool,
)
    requires
        0 <= c < configs.len(),
        forall|i: int| 0 <= i < c ==> is_valid_config(#[trigger] configs[i], regular),
        !is_valid_config(configs[c], regular),
    ensures
        config_fault(configs[c], c, regular) is Some,
        first_fault(configs, regular) == config_fault(configs[c], c, regular),
{
    files_valid_from(configs[c], c, 0, regular);
    skip_valid_configs(configs, 0, c, regular);
}

proof fn skip_valid_configs(
    configs: Seq<Config>,
    from: int,
    c: int,
    regular: spec_fn(Seq<char>) -> bool,
)
    requires
        0 <= from <= c < configs.len(),
        forall|i: int| from <= i < c ==> is_valid_config(#[trigger] configs[i], regular),
    ensures
        fault_from(configs, from, regular) == fault_from(configs, c, regular),
    decreases c - from,
{
    if from < c {
        files_valid_from(configs[from], from, 0, regular);
        assert(is_valid_config(configs[from], regular));
        skip_valid_configs(configs, from + 1, c, regular);
    }
}

/// Among the files of a config, the first fault is that of the first file that is
/// not valid.
pub proof fn fault_is_of_the_first_invalid_file(
    config: Config,
    c: int,
    f: int,
    regular: spec_fn(Seq<char>) -> bool,
)
    requires
        0 <= f < config.files@.len(),
        forall|i: int| 0 <= i < f ==> is_valid_file(#[trigger] config.files@[i], regular),
        !is_valid_file(config.files@[f], regular),
    ensures
        file_fault(config.files@[f], c, f, regular) is Some,
        files_fault(config, c, 0, regular) == file_fault(config.files@[f], c, f, regular),
{
    skip_valid_files(config, c, 0, f, regular);
}

proof fn skip_valid_files(
    config: Config,
    c: int,
    from: int,
    f: int,
    regular: spec_fn(Seq<char>) -> bool,
)
    requires
        0 <= from <= f < config.files@.len(),
        forall|i: int| from <= i < f ==> is_valid_file(#[trigger] config.files@[i], regular),
    ensures
        files_fault(config, c, from, regular) == files_fault(config, c, f, regular),
    decreases f - from,
{
    if from < f {
        assert(is_valid_file(config.files@[from], regular));
        skip_valid_files(config, c, from + 1, f, regular);
    }
}

/// Whether `configs` has a config of this number, from one, and all before it are valid.
pub open spec fn is_first_in_question(
    configs: Seq<Config>,
    number: usize,
    regular: spec_fn(Seq<char>) -> bool,
) -> bool {
    &&& 1 <= number <= configs.len()
    &&& forall|c: int|
        0 <= c < number - 1 ==> is_valid_config(#[trigger] configs[c], regular)
}

/// Whether a config has a file of this number, from one, all files before it are valid,
/// and nothing is wrong with the config itself.
pub open spec fn is_first_file_in_question(
    config: Config,
    number: usize,
    regular: spec_fn(Seq<char>) -> bool,
) -> bool {
    &&& config.hosts@.len() > 0
    &&& !is_blank(config.ssh_key@)
    &&& config.check_interval > 0
    &&& 1 <= number <= config.files@.len()
    &&& forall|f: int|
        0 <= f < number - 1 ==> is_valid_file(#[trigger] config.files@[f], regular)
}

/// Whether a fault says what is wrong with a configuration, in the place that it names,
/// where nothing is wrong before that place. A config is held first to its hosts, then
/// to its files, its key and its interval, and then each file to its source, its
/// destination, and its being there.
pub open spec fn tells_the_truth(
    fault: ConfigFault,
    configs: Seq<Config>,
    regular: spec_fn(Seq<char>) -> bool,
) -> bool {
    match fault {
        ConfigFault::NoConfigs => configs.len() == 0,
        ConfigFault::NoHosts { config } => is_first_in_question(configs, config, regular)
            && configs[config - 1].hosts@.len() == 0,
        ConfigFault::NoFiles { config } => is_first_in_question(configs, config, regular)
            && configs[config - 1].hosts@.len() > 0 && configs[config - 1].files@.len() == 0,
        ConfigFault::EmptySshKey { config } => is_first_in_question(configs, config, regular)
            && configs[config - 1].hosts@.len() > 0 && configs[config - 1].files@.len() > 0
            && is_blank(configs[config - 1].ssh_key@),
        ConfigFault::ZeroInterval { config } => is_first_in_question(configs, config, regular)
            && configs[config - 1].hosts@.len() > 0 && configs[config - 1].files@.len() > 0
            && !is_blank(configs[config - 1].ssh_key@) && configs[config - 1].check_interval == 0,
        ConfigFault::EmptySource { config, file } => is_first_in_question(configs, config, regular)
            && is_first_file_in_question(configs[config - 1], file, regular) && is_blank(
            configs[config - 1].files@[file - 1].src@,
        ),
        ConfigFault::EmptyDestination { config, file } => is_first_in_question(
            configs,
            config,
            regular,
        ) && is_first_file_in_question(configs[config - 1], file, regular) && !is_blank(
            configs[config - 1].files@[file - 1].src@,
        ) && is_blank(configs[config - 1].files@[file - 1].dest@),
        ConfigFault::MissingSource { config, file, src } => is_first_in_question(
            configs,
            config,
            regular,
        ) && is_first_file_in_question(configs[config - 1], file, regular) && !is_blank(
            configs[config - 1].files@[file - 1].src@,
        ) && !is_blank(configs[config - 1].files@[file - 1].dest@) && src@
            == configs[config - 1].files@[file - 1].src@ && !regular(src@),
    }
}

/// The fault of a configuration says what is wrong with it, and where, and nothing is
/// wrong before that.
pub proof fn fault_tells_what_is_wrong(
    configs: Seq<Config>,
    regular: spec_fn(Seq<char>) -> bool,
    fault: ConfigFault,
)
    requires
        configs.len() <= usize::MAX,
        first_fault(configs, regular) == Some(fault),
    ensures
        tells_the_truth(fault, configs, regular),
{
    if configs.len() > 0 {
        fault_from_here_is_true(configs, 0, regular, fault);
    }
}

proof fn fault_from_here_is_true(
    configs: Seq<Config>,
    c: int,
    regular: spec_fn(Seq<char>) -> bool,
    fault: ConfigFault,
)
    requires
        configs.len() <= usize::MAX,
        0 <= c,
        fault_from(configs, c, regular) == Some(fault),
        forall|i: int| 0 <= i < c && i < configs.len() ==> is_valid_config(#[trigger] configs[i], regular),
    ensures
        tells_the_truth(fault, configs, regular),
    decreases configs.len() - c,
{
    if c < configs.len() {
        files_valid_from(configs[c], c, 0, regular);
        if config_fault(configs[c], c, regular) is None {
            assert(is_valid_config(configs[c], regular));
            fault_from_here_is_true(configs, c + 1, regular, fault);
        } else if heading_fault(configs[c], c) is None {
            file_fault_from_here_is_true(configs, c, 0, regular, fault);
        }
    }
}

proof fn file_fault_from_here_is_true(
    configs: Seq<Config>,
    c: int,
    f: int,
    regular: spec_fn(Seq<char>) -> bool,
    fault: ConfigFault,
)
    requires
        configs.len() <= usize::MAX,
        0 <= c < configs.len(),
        0 <= f,
        heading_fault(configs[c], c) is None,
        files_fault(configs[c], c, f, regular) == Some(fault),
        forall|i: int| 0 <= i < c ==> is_valid_config(#[trigger] configs[i], regular),
        forall|i: int|
            0 <= i < f && i < configs[c].files@.len() ==> is_valid_file(
                #[trigger] configs[c].files@[i],
                regular,
            ),
    ensures
        tells_the_truth(fault, configs, regular),
    decreases configs[c].files@.len() - f,
{
    assert(configs[c].files.len() == configs[c].files@.len());
    if f < configs[c].files@.len() {
        if file_fault(configs[c].files@[f], c, f, regular) is None {
            file_fault_from_here_is_true(configs, c, f + 1, regular, fault);
        }
    }
}

/// A check asks for the very path whose answer it then goes by, and asks for nothing
/// once it is done.
pub proof fn check_goes_by_the_answer_to_its_question(
    configs: Seq<Config>,
    state: CheckState,
    regular: spec_fn(Seq<char>) -> bool,
    action: CheckAction,
)
    requires
        is_check_action(action, configs, state),
    ensures
        match action {
            CheckAction::Probe(path) => answered(configs, state, regular, 1) == check_next(
                configs,
                state,
                regular(path@),
            ),
            CheckAction::Complete => answered(configs, state, regular, 1) == state,
        },
{
    reveal_with_fuel(answered, 2);
}

/// A check whose questions are answered truthfully comes to a conclusion after at most
/// one question for each file: the configuration as it was given if it is valid, and
/// otherwise a fault that says what is wrong with it, and where.
pub proof fn check_accepts_exactly_what_is_valid(
    configs: Seq<Config>,
    regular: spec_fn(Seq<char>) -> bool,
    n: nat,
    conclusion: Option<Result<Vec<Config>, ConfigFault>>,
)
    requires
        configs.len() <= usize::MAX,
        n >= files_from(configs, 0),
        is_conclusion(conclusion, configs, answered(configs, check_start(configs), regular, n)),
    ensures
        match conclusion {
            Some(Ok(accepted)) => is_valid(configs, regular) && accepted@ == configs,
            Some(Err(fault)) => !is_valid(configs, regular) && tells_the_truth(
                fault,
                configs,
                regular,
            ),
            None => false,
        },
{
    check_finds_the_first_fault(configs, regular, n);
    valid_means_without_fault(configs, regular);
    if let Some(fault) = first_fault(configs, regular) {
        fault_tells_what_is_wrong(configs, regular, fault);
    }
}

/// The text of a fault names the config, and the file of it, that it was found in, by
/// their numbers, and then what is wrong there.
pub proof fn fault_text_names_the_place(fault: ConfigFault)
    ensures
        ({
            let text = fault.text();
            match fault {
                ConfigFault::NoConfigs => text == "configuration contains no configs"@,
                ConfigFault::NoHosts { config } => text == "config "@ + decimal_text(config as nat)
                    + " contains no hosts"@,
                ConfigFault::NoFiles { config } => text == "config "@ + decimal_text(config as nat)
                    + " contains no files"@,
                ConfigFault::EmptySshKey { config } => text == "config "@ + decimal_text(
                    config as nat,
                ) + " has an empty ssh_key"@,
                ConfigFault::ZeroInterval { config } => text == "config "@ + decimal_text(
                    config as nat,
                ) + " has check_interval = 0"@,
                ConfigFault::EmptySource { config, file } => text == "config "@ + decimal_text(
                    config as nat,
                ) + " file "@ + decimal_text(file as nat) + " has an empty src"@,
                ConfigFault::EmptyDestination { config, file } => text == "config "@ + decimal_text(
                    config as nat,
                ) + " file "@ + decimal_text(file as nat) + " has an empty dest"@,
                ConfigFault::MissingSource { config, file, src } => text == "config "@
                    + decimal_text(config as nat) + " file "@ + decimal_text(file as nat)
                    + " source does not exist or is not a regular file: "@ + src@,
            }
        }),
{
}

/// A login is the user, an `@` and the host.
pub proof fn login_is_user_at_host(info: SSHInfo)
    ensures
        ({
            let login = login_text(info);
            let at: int = info.user@.len() as int;
            &&& login.len() == at + 1 + info.host@.len()
            &&& login.take(at) == info.user@
            &&& login[at] == '@'
            &&& login.skip(at + 1) == info.host@
        }),
{
    reveal_strlit("@");
}

} // verus!
