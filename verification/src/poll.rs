//! The rounds in which the hosts of a config are visited.

use vstd::prelude::*;
use vstd::string::*;

use crate::config::login_text;
use crate::config::Config;
use crate::config::SSHInfo;
use crate::job::jobs_of;
use crate::job::Job;
use crate::text::decimal;
use crate::text::decimal_text;

verus! {

/// Where the rounds of a config stand.
#[derive(Debug, Clone, Copy, PartialEq, Eq, Structural)]
pub enum PollStage {
    /// The job of this number, from zero, has to be started.
    Start(usize),
    /// The job of this number, from zero, has to be awaited.
    Join(usize),
    /// The next round has to be waited for.
    Sleep,
    /// There are no more rounds.
    Aborted,
}

/// What to do next for a config.
#[derive(Debug)]
pub enum PollAction {
    /// Start this job, on its own, with the private key at this path.
    Start { job: Job, ssh_key: String },
    /// Wait for the job of this number, from zero.
    Join(usize),
    /// Wait for this many seconds.
    Sleep(u64),
    Aborted,
}

/// Where a round of `n` jobs starts.
pub open spec fn round_start(n: int) -> PollStage {
    if n > 0 {
        PollStage::Start(0)
    } else {
        PollStage::Sleep
    }
}

/// Where the rounds of `n` jobs stand after the current step.
pub open spec fn next_poll_stage(stage: PollStage, n: int) -> PollStage {
    match stage {
        PollStage::Start(i) => if i + 1 < n {
            PollStage::Start((i + 1) as usize)
        } else {
            PollStage::Join(0)
        },
        PollStage::Join(i) => if i + 1 < n {
            PollStage::Join((i + 1) as usize)
        } else {
            PollStage::Sleep
        },
        PollStage::Sleep => round_start(n),
        PollStage::Aborted => PollStage::Aborted,
    }
}

/// Where the rounds of `n` jobs stand after `k` steps.
pub open spec fn poll_stage_after(n: int, k: nat) -> PollStage
    decreases k,
{
    if k == 0 {
        round_start(n)
    } else {
        next_poll_stage(poll_stage_after(n, (k - 1) as nat), n)
    }
}

/// Whether `jobs` are those of a config: one for each host, in their order, each
/// with all the files.
pub open spec fn are_jobs_of(jobs: Seq<Job>, config: Config) -> bool {
    &&& jobs.len() == config.hosts@.len()
    &&& forall|i: int|
        0 <= i < jobs.len() ==> (#[trigger] jobs[i]).host == config.hosts@[i] && jobs[i].files@
            == config.files@
}

/// The rounds of a config under way.
pub struct PollRun {
    pub jobs: Seq<Job>,
    pub ssh_key: Seq<char>,
    pub check_interval: u64,
    pub stage: PollStage,
}

impl PollRun {
    /// The rounds after the current step.
    pub open spec fn advance(self) -> PollRun {
        PollRun { stage: next_poll_stage(self.stage, self.jobs.len() as int), ..self }
    }

    /// The rounds after `k` more steps.
    pub open spec fn advance_by(self, k: nat) -> PollRun
        decreases k,
    {
        if k == 0 {
            self
        } else {
            self.advance_by((k - 1) as nat).advance()
        }
    }

    /// Whether these are the rounds of a config, at the start of the first one.
    pub open spec fn starts(self, config: Config) -> bool {
        &&& are_jobs_of(self.jobs, config)
        &&& self.ssh_key == config.ssh_key@
        &&& self.check_interval == config.check_interval
        &&& self.stage == round_start(config.hosts@.len() as int)
    }

    /// Whether the job that is to be started or awaited is there.
    pub open spec fn in_range(self) -> bool {
        match self.stage {
            PollStage::Start(i) => i < self.jobs.len(),
            PollStage::Join(i) => i < self.jobs.len(),
            _ => true,
        }
    }
}

/// Whether `action` is what the rounds of a config need next.
pub open spec fn is_poll_action(action: PollAction, run: PollRun) -> bool {
    match run.stage {
        PollStage::Start(i) => {
            &&& action matches PollAction::Start { job, ssh_key }
            &&& ssh_key@ == run.ssh_key
            &&& job.host == run.jobs[i as int].host
            &&& job.files@ == run.jobs[i as int].files@
        },
        PollStage::Join(i) => action == PollAction::Join(i),
        PollStage::Sleep => action == PollAction::Sleep(run.check_interval),
        PollStage::Aborted => action is Aborted,
    }
}

/// Drives the rounds of one config.
#[derive(Debug)]
pub struct Poll {
    jobs: Vec<Job>,
    ssh_key: String,
    check_interval: u64,
    stage: PollStage,
}

impl View for Poll {
    type V = PollRun;

    closed spec fn view(&self) -> PollRun {
        PollRun {
            jobs: self.jobs@,
            ssh_key: self.ssh_key@,
            check_interval: self.check_interval,
            stage: self.stage,
        }
    }
}

impl Poll {
    #[verifier::type_invariant]
    closed spec fn jobs_in_range(self) -> bool {
        match self.stage {
            PollStage::Start(i) => i < self.jobs@.len(),
            PollStage::Join(i) => i < self.jobs@.len(),
            _ => true,
        }
    }

    /// The rounds of a config, at the start of the first one.
    pub fn new(config: &Config) -> (res: Poll)
        ensures
            res@.starts(*config),
    {
        let jobs = jobs_of(config);
        let stage = if jobs.len() > 0 {
            PollStage::Start(0)
        } else {
            PollStage::Sleep
        };
        Poll {
            jobs,
            ssh_key: config.ssh_key.clone(),
            check_interval: config.check_interval,
            stage,
        }
    }

    /// What to do next.
    pub fn action(&self) -> (res: PollAction)
        ensures
            self@.in_range(),
            is_poll_action(res, self@),
    {
        proof {
            use_type_invariant(self);
        }
        match self.stage {
            PollStage::Start(i) => PollAction::Start {
                job: self.jobs[i].clone(),
                ssh_key: self.ssh_key.clone(),
            },
            PollStage::Join(i) => PollAction::Join(i),
            PollStage::Sleep => PollAction::Sleep(self.check_interval),
            PollStage::Aborted => PollAction::Aborted,
        }
    }

    /// The current step has been done. What became of a job is its own affair.
    pub fn advance(&mut self)
        ensures
            final(self)@ == old(self)@.advance(),
    {
        proof {
            use_type_invariant(&*self);
        }
        let n: usize = self.jobs.len();
        let next = match self.stage {
            PollStage::Start(i) => if i + 1 < n {
                PollStage::Start(i + 1)
            } else {
                PollStage::Join(0)
            },
            PollStage::Join(i) => if i + 1 < n {
                PollStage::Join(i + 1)
            } else {
                PollStage::Sleep
            },
            PollStage::Sleep => if n > 0 {
                PollStage::Start(0)
            } else {
                PollStage::Sleep
            },
            PollStage::Aborted => PollStage::Aborted,
        };
        self.stage = next;
    }

    /// A job could not be awaited: there are no more rounds. Tells what that is
    /// put down to.
    pub fn abort(&mut self) -> (res: &'static str)
        ensures
            res@ == "host task panicked"@,
            final(self)@ == (PollRun { stage: PollStage::Aborted, ..old(self)@ }),
    {
        self.stage = PollStage::Aborted;
        "host task panicked"
    }

    /// The line that tells when the next round comes, after a blank one.
    pub fn waiting_line(&self) -> (res: String)
        ensures
            res@ == "\nnext check in "@ + decimal_text(self@.check_interval as nat)
                + " second(s)"@,
    {
        "\nnext check in ".to_owned().concat(decimal(self.check_interval).as_str()).concat(
            " second(s)",
        )
    }
}

/// The line that opens the rounds of the config of this number.
pub fn config_heading(number: usize) -> (res: String)
    ensures
        res@ == "=== Config "@ + decimal_text(number as nat) + " ==="@,
{
    "=== Config ".to_owned().concat(decimal(number as u64).as_str()).concat(" ===")
}

/// The line that tells of a failed job, where `failure` is the text of the
/// failure.
pub fn job_error_line(host: &SSHInfo, failure: &str) -> (res: String)
    ensures
        res@ == "["@ + login_text(*host) + "] ERROR: "@ + failure@,
{
    "[".to_owned().concat(host.login().as_str()).concat("] ERROR: ").concat(failure)
}

/// The line that tells of a config that was given up, where `failure` is the text
/// of the failure.
pub fn config_error_line(number: usize, failure: &str) -> (res: String)
    ensures
        res@ == "[config "@ + decimal_text(number as nat) + "] ERROR: "@ + failure@,
{
    "[config ".to_owned().concat(decimal(number as u64).as_str()).concat("] ERROR: ").concat(
        failure,
    )
}

/// The line that tells how many configs were loaded.
pub fn loaded_line(count: usize) -> (res: String)
    ensures
        res@ == "Loaded "@ + decimal_text(count as nat) + " config(s)"@,
{
    "Loaded ".to_owned().concat(decimal(count as u64).as_str()).concat(" config(s)")
}

/// In every round all jobs are started before any is awaited, and all are awaited
/// before the next round is waited for: step `r` of a round of `n` jobs starts
/// job `r`, or waits for job `r - n`, or is the wait at its end.
pub proof fn rounds_start_all_then_join_all(n: int, round: nat, r: int)
    requires
        0 < n <= usize::MAX,
        0 <= r <= 2 * n,
    ensures
        round * (2 * n + 1) + r >= 0,
        poll_stage_after(n, (round * (2 * n + 1) + r) as nat) == if r < n {
            PollStage::Start(r as usize)
        } else if r < 2 * n {
            PollStage::Join((r - n) as usize)
        } else {
            PollStage::Sleep
        },
    decreases round, r,
{
    let length = 2 * n + 1;
    assert(round * length >= 0) by (nonlinear_arith)
        requires
            length > 0,
    ;
    let k = (round * length + r) as nat;
    if r > 0 {
        rounds_start_all_then_join_all(n, round, r - 1);
        assert((k - 1) as nat == (round * length + (r - 1)) as nat);
    } else if round > 0 {
        let before = (round - 1) as nat;
        rounds_start_all_then_join_all(n, before, 2 * n);
        assert(round * length == before * length + length) by (nonlinear_arith)
            requires
                round == before + 1,
        ;
        assert((k - 1) as nat == (before * length + 2 * n) as nat);
    } else {
        assert(round * length == 0) by (nonlinear_arith)
            requires
                round == 0,
        ;
    }
}

proof fn stage_after_steps(run: PollRun, k: nat)
    requires
        run.stage == round_start(run.jobs.len() as int),
    ensures
        run.advance_by(k) == (PollRun {
            stage: poll_stage_after(run.jobs.len() as int, k),
            ..run
        }),
    decreases k,
{
    if k > 0 {
        stage_after_steps(run, (k - 1) as nat);
    }
}

/// Every round of a config visits each of its hosts exactly once, in their order,
/// with all its files in their order and with its private key: step `r` of a round
/// starts the job of host `r`. Then each job is awaited, and then its interval is
/// waited for, before the next round.
pub proof fn rounds_visit_every_host(
    config: Config,
    start: PollRun,
    round: nat,
    r: int,
    action: PollAction,
)
    requires
        start.starts(config),
        0 < config.hosts@.len(),
        0 <= r <= 2 * config.hosts@.len(),
        is_poll_action(
            action,
            start.advance_by((round * (2 * config.hosts@.len() + 1) + r) as nat),
        ),
    ensures
        ({
            let n = config.hosts@.len() as int;
            if r < n {
                &&& action matches PollAction::Start { job, ssh_key }
                &&& job.host == config.hosts@[r]
                &&& job.files@ == config.files@
                &&& ssh_key@ == config.ssh_key@
            } else if r < 2 * n {
                action matches PollAction::Join(i) && i == r - n
            } else {
                action == PollAction::Sleep(config.check_interval)
            }
        }),
{
    assert(config.hosts.len() == config.hosts@.len());
    let n = config.hosts@.len() as int;
    rounds_start_all_then_join_all(n, round, r);
    stage_after_steps(start, (round * (2 * n + 1) + r) as nat);
}

/// A config without hosts starts no job: its rounds are nothing but its interval.
pub proof fn rounds_without_hosts_only_wait(
    config: Config,
    start: PollRun,
    k: nat,
    action: PollAction,
)
    requires
        start.starts(config),
        config.hosts@.len() == 0,
        is_poll_action(action, start.advance_by(k)),
    ensures
        action == PollAction::Sleep(config.check_interval),
{
    stage_after_steps(start, k);
    only_waiting_follows(k);
}

proof fn only_waiting_follows(k: nat)
    ensures
        poll_stage_after(0, k) == PollStage::Sleep,
    decreases k,
{
    if k > 0 {
        only_waiting_follows((k - 1) as nat);
    }
}

/// Once rounds have been given up there are no more of them, whatever is reported done.
pub proof fn aborted_rounds_stay_aborted(run: PollRun, k: nat, action: PollAction)
    requires
        run.stage is Aborted,
        is_poll_action(action, run.advance_by(k)),
    ensures
        action is Aborted,
{
    aborted_stage_stays(run, k);
}

proof fn aborted_stage_stays(run: PollRun, k: nat)
    requires
        run.stage is Aborted,
    ensures
        run.advance_by(k).stage is Aborted,
    decreases k,
{
    if k > 0 {
        aborted_stage_stays(run, (k - 1) as nat);
    }
}

} // verus!
