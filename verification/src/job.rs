//! One visit to one host: which transport is used, and which file comes when.

use vstd::prelude::*;
use vstd::string::*;

use crate::config::login_text;
use crate::config::Config;
use crate::config::FilePair;
use crate::config::SSHInfo;
use crate::config::TransferMethod;

verus! {

/// The files that one host gets.
#[derive(Debug)]
pub struct Job {
    pub host: SSHInfo,
    pub files: Vec<FilePair>,
}

fn clone_files(files: &Vec<FilePair>) -> (res: Vec<FilePair>)
    ensures
        res@ == files@,
{
    let mut copies: Vec<FilePair> = Vec::new();
    let mut done: usize = 0;
    while done < files.len()
        invariant
            done <= files@.len(),
            copies@ == files@.take(done as int),
        decreases files@.len() - done,
    {
        copies.push(files[done].clone());
        done += 1;
    }
    copies
}

impl Clone for Job {
    fn clone(&self) -> (res: Job)
        ensures
            res.host == self.host,
            res.files@ == self.files@,
    {
        Job { host: self.host.clone(), files: clone_files(&self.files) }
    }
}

/// One job for each host of a config, in their order, each with all the files.
pub fn jobs_of(config: &Config) -> (res: Vec<Job>)
    ensures
        res@.len() == config.hosts@.len(),
        forall|i: int|
            0 <= i < res@.len() ==> (#[trigger] res@[i]).host == config.hosts@[i] && res@[i].files@
                == config.files@,
{
    let mut jobs: Vec<Job> = Vec::new();
    let mut done: usize = 0;
    while done < config.hosts.len()
        invariant
            done <= config.hosts@.len(),
            jobs@.len() == done,
            forall|i: int|
                0 <= i < done ==> (#[trigger] jobs@[i]).host == config.hosts@[i] && jobs@[i].files@
                    == config.files@,
        decreases config.hosts@.len() - done,
    {
        jobs.push(Job { host: config.hosts[done].clone(), files: clone_files(&config.files) });
        done += 1;
    }
    jobs
}

/// What files are transferred over.
#[derive(Debug, Clone, Copy, PartialEq, Eq, Structural)]
pub enum Transport {
    Sftp,
    Ssh,
}

/// How far a job has come.
#[derive(Debug, Clone, Copy, PartialEq, Eq, Structural)]
pub enum JobStage {
    /// An SSH session has to be opened.
    Connect,
    /// An SFTP session has to be tried for.
    OpenSftp,
    /// The file of this number, from zero, has to be brought up to date.
    Sync { transport: Transport, file: usize },
    /// The SFTP session has to be closed.
    CloseSftp,
    /// All files are up to date.
    Complete,
    /// The job has failed.
    Aborted,
}

/// What to do next for a job.
#[derive(Debug)]
pub enum JobAction {
    Connect,
    OpenSftp,
    /// Bring `dest` up to date from the local file `src`.
    Sync { transport: Transport, src: String, dest: String },
    CloseSftp,
    Complete,
    Aborted,
}

/// What comes of a step that has failed.
#[derive(Debug)]
pub enum Setback {
    /// The job goes on over plain SSH.
    FallBack,
    /// The job has failed, by the failure as it is.
    Abort,
    /// The job has failed, by the failure put down to this.
    AbortWith(String),
}

/// A job under way.
#[verifier::ext_equal]
pub struct JobProgress {
    pub host: SSHInfo,
    pub files: Seq<FilePair>,
    pub stage: JobStage,
}

impl JobProgress {
    /// A job that has not been started.
    pub open spec fn fresh(host: SSHInfo, files: Seq<FilePair>) -> JobProgress {
        JobProgress { host, files, stage: JobStage::Connect }
    }

    /// Where a job stands before file `file`: the session is closed after the
    /// last one, if there is one to close.
    pub open spec fn stage_at(files: Seq<FilePair>, transport: Transport, file: int) -> JobStage {
        if file < files.len() {
            JobStage::Sync { transport, file: file as usize }
        } else {
            match transport {
                Transport::Sftp => JobStage::CloseSftp,
                Transport::Ssh => JobStage::Complete,
            }
        }
    }

    /// The job after the current step has succeeded.
    pub open spec fn advance(self) -> JobProgress {
        let stage = match self.stage {
            JobStage::Connect => match self.host.transfer_method {
                TransferMethod::Ssh => Self::stage_at(self.files, Transport::Ssh, 0),
                TransferMethod::Sftp => JobStage::OpenSftp,
            },
            JobStage::OpenSftp => Self::stage_at(self.files, Transport::Sftp, 0),
            JobStage::Sync { transport, file } => Self::stage_at(self.files, transport, file + 1),
            JobStage::CloseSftp => JobStage::Complete,
            stage => stage,
        };
        JobProgress { stage, ..self }
    }

    /// The job after the current step has failed. Only SFTP can be done without.
    pub open spec fn fail(self) -> JobProgress {
        let stage = match self.stage {
            JobStage::OpenSftp => Self::stage_at(self.files, Transport::Ssh, 0),
            _ => JobStage::Aborted,
        };
        JobProgress { stage, ..self }
    }

    /// The job after a step with this outcome.
    pub open spec fn apply(self, succeeded: bool) -> JobProgress {
        if succeeded {
            self.advance()
        } else {
            self.fail()
        }
    }

    /// The job after steps with these outcomes.
    pub open spec fn apply_all(self, outcomes: Seq<bool>) -> JobProgress
        decreases outcomes.len(),
    {
        if outcomes.len() == 0 {
            self
        } else {
            self.apply_all(outcomes.drop_last()).apply(outcomes.last())
        }
    }

    /// Whether the file that is to be brought up to date is there.
    pub open spec fn in_range(self) -> bool {
        self.stage matches JobStage::Sync { file, .. } ==> file < self.files.len()
    }
}

/// The text of a failure to bring a file up to date.
pub open spec fn syncing_text(file: FilePair) -> Seq<char> {
    "failed syncing "@ + file.src@ + " -> "@ + file.dest@
}

/// Whether `setback` is what comes of a failure of the current step.
pub open spec fn is_setback(setback: Setback, job: JobProgress) -> bool {
    match job.stage {
        JobStage::OpenSftp => setback is FallBack,
        JobStage::Sync { file, .. } => setback matches Setback::AbortWith(text) && text@
            == syncing_text(job.files[file as int]),
        JobStage::CloseSftp => setback matches Setback::AbortWith(text) && text@
            == "failed to close SFTP session"@,
        _ => setback is Abort,
    }
}

/// Whether `action` is what a job needs next.
pub open spec fn is_job_action(action: JobAction, job: JobProgress) -> bool {
    match job.stage {
        JobStage::Connect => action is Connect,
        JobStage::OpenSftp => action is OpenSftp,
        JobStage::Sync { transport, file } => {
            &&& action matches JobAction::Sync { transport: over, src, dest }
            &&& over == transport
            &&& src@ == job.files[file as int].src@
            &&& dest@ == job.files[file as int].dest@
        },
        JobStage::CloseSftp => action is CloseSftp,
        JobStage::Complete => action is Complete,
        JobStage::Aborted => action is Aborted,
    }
}

/// The line that tells how files will be transferred.
pub open spec fn method_line_text(method: TransferMethod) -> Seq<char> {
    match method {
        TransferMethod::Ssh => "transfer method: SSH"@,
        TransferMethod::Sftp => "transfer method: SFTP first, SSH fallback"@,
    }
}

/// Drives one job.
#[derive(Debug)]
pub struct JobRun {
    host: SSHInfo,
    files: Vec<FilePair>,
    stage: JobStage,
}

impl View for JobRun {
    type V = JobProgress;

    closed spec fn view(&self) -> JobProgress {
        JobProgress { host: self.host, files: self.files@, stage: self.stage }
    }
}

impl JobRun {
    #[verifier::type_invariant]
    closed spec fn files_in_range(self) -> bool {
        self.stage matches JobStage::Sync { file, .. } ==> file < self.files@.len()
    }

    /// A job that is yet to be started.
    pub fn new(job: Job) -> (res: JobRun)
        ensures
            res@ == JobProgress::fresh(job.host, job.files@),
            res@.in_range(),
    {
        JobRun { host: job.host, files: job.files, stage: JobStage::Connect }
    }

    /// The line that opens the job, after a blank one.
    pub fn heading(&self) -> (res: String)
        ensures
            res@ == "\n--- "@ + login_text(self@.host) + " ---"@,
    {
        "\n--- ".to_owned().concat(self.host.login().as_str()).concat(" ---")
    }

    /// The line that tells how files will be transferred.
    pub fn method_line(&self) -> (res: &'static str)
        ensures
            res@ == method_line_text(self@.host.transfer_method),
    {
        match self.host.transfer_method {
            TransferMethod::Ssh => "transfer method: SSH",
            TransferMethod::Sftp => "transfer method: SFTP first, SSH fallback",
        }
    }

    /// What to do next.
    pub fn action(&self) -> (res: JobAction)
        ensures
            self@.in_range(),
            is_job_action(res, self@),
    {
        proof {
            use_type_invariant(self);
        }
        match self.stage {
            JobStage::Connect => JobAction::Connect,
            JobStage::OpenSftp => JobAction::OpenSftp,
            JobStage::Sync { transport, file } => JobAction::Sync {
                transport,
                src: self.files[file].src.clone(),
                dest: self.files[file].dest.clone(),
            },
            JobStage::CloseSftp => JobAction::CloseSftp,
            JobStage::Complete => JobAction::Complete,
            JobStage::Aborted => JobAction::Aborted,
        }
    }

    fn stage_at(&self, transport: Transport, file: usize) -> (res: JobStage)
        ensures
            res == JobProgress::stage_at(self@.files, transport, file as int),
            res matches JobStage::Sync { file: next, .. } ==> next < self@.files.len(),
    {
        if file < self.files.len() {
            JobStage::Sync { transport, file }
        } else {
            match transport {
                Transport::Sftp => JobStage::CloseSftp,
                Transport::Ssh => JobStage::Complete,
            }
        }
    }

    /// The current step has succeeded.
    pub fn advance(&mut self)
        ensures
            final(self)@ == old(self)@.advance(),
    {
        proof {
            use_type_invariant(&*self);
        }
        assert(self.files.len() == self.files@.len());
        let next = match self.stage {
            JobStage::Connect => match self.host.transfer_method {
                TransferMethod::Ssh => self.stage_at(Transport::Ssh, 0),
                TransferMethod::Sftp => JobStage::OpenSftp,
            },
            JobStage::OpenSftp => self.stage_at(Transport::Sftp, 0),
            JobStage::Sync { transport, file } => self.stage_at(transport, file + 1),
            JobStage::CloseSftp => JobStage::Complete,
            stage => stage,
        };
        self.stage = next;
    }

    /// The current step has failed. Tells what comes of it.
    pub fn fail(&mut self) -> (res: Setback)
        ensures
            is_setback(res, old(self)@),
            final(self)@ == old(self)@.fail(),
    {
        proof {
            use_type_invariant(&*self);
        }
        let setback = match self.stage {
            JobStage::OpenSftp => Setback::FallBack,
            JobStage::Sync { file, .. } => Setback::AbortWith(
                "failed syncing ".to_owned().concat(self.files[file].src.as_str()).concat(
                    " -> ",
                ).concat(self.files[file].dest.as_str()),
            ),
            JobStage::CloseSftp => Setback::AbortWith("failed to close SFTP session".to_owned()),
            _ => Setback::Abort,
        };
        let next = match self.stage {
            JobStage::OpenSftp => self.stage_at(Transport::Ssh, 0),
            _ => JobStage::Aborted,
        };
        self.stage = next;
        setback
    }
}

/// The transport of a job, where `sftp` tells whether an SFTP session could be
/// opened: it is SSH if that was asked for, and otherwise SFTP where it could.
pub open spec fn transport_for(method: TransferMethod, sftp: bool) -> Transport {
    match method {
        TransferMethod::Ssh => Transport::Ssh,
        TransferMethod::Sftp => if sftp {
            Transport::Sftp
        } else {
            Transport::Ssh
        },
    }
}

/// The outcomes of the steps before the first file.
pub open spec fn opening(method: TransferMethod, sftp: bool) -> Seq<bool> {
    match method {
        TransferMethod::Ssh => seq![true],
        TransferMethod::Sftp => seq![true, sftp],
    }
}

/// As many successes.
pub open spec fn successes(n: nat) -> Seq<bool> {
    Seq::new(n, |i: int| true)
}

proof fn apply_concat(job: JobProgress, a: Seq<bool>, b: Seq<bool>)
    ensures
        job.apply_all(a + b) == job.apply_all(a).apply_all(b),
    decreases b.len(),
{
    if b.len() == 0 {
        assert(a + b == a);
    } else {
        apply_concat(job, a, b.drop_last());
        assert((a + b).drop_last() == a + b.drop_last());
    }
}

proof fn job_opens(host: SSHInfo, files: Seq<FilePair>, sftp: bool)
    ensures
        JobProgress::fresh(host, files).apply_all(opening(host.transfer_method, sftp)) == (JobProgress {
            host,
            files,
            stage: JobProgress::stage_at(files, transport_for(host.transfer_method, sftp), 0),
        }),
{
    let outcomes = opening(host.transfer_method, sftp);
    let fresh = JobProgress::fresh(host, files);
    reveal_with_fuel(JobProgress::apply_all, 3);
    match host.transfer_method {
        TransferMethod::Ssh => {
            assert(outcomes.drop_last() == Seq::<bool>::empty());
        },
        TransferMethod::Sftp => {
            assert(outcomes.drop_last() == seq![true]);
            assert(outcomes.drop_last().drop_last() == Seq::<bool>::empty());
        },
    }
}

proof fn files_follow_each_other(job: JobProgress, transport: Transport, k: nat)
    requires
        job.files.len() <= usize::MAX,
        job.stage == JobProgress::stage_at(job.files, transport, 0),
        k <= job.files.len(),
    ensures
        job.apply_all(successes(k)) == (JobProgress {
            stage: JobProgress::stage_at(job.files, transport, k as int),
            ..job
        }),
    decreases k,
{
    if k > 0 {
        files_follow_each_other(job, transport, (k - 1) as nat);
        assert(successes(k).drop_last() == successes((k - 1) as nat));
    }
}

/// Files are brought up to date strictly in their order, each once, and all over
/// one transport: after the session has been opened and `k` files are done, the
/// next one is file `k`. After the last, an SFTP session is closed, and the job
/// is complete.
pub proof fn files_are_processed_in_order(
    host: SSHInfo,
    files: Seq<FilePair>,
    sftp: bool,
    k: nat,
)
    requires
        files.len() <= usize::MAX,
        k <= files.len(),
    ensures
        ({
            let job = JobProgress::fresh(host, files).apply_all(
                opening(host.transfer_method, sftp) + successes(k),
            );
            let transport = transport_for(host.transfer_method, sftp);
            if k < files.len() {
                job.stage == (JobStage::Sync { transport, file: k as usize })
            } else {
                match transport {
                    Transport::Sftp => job.stage is CloseSftp && job.advance().stage is Complete,
                    Transport::Ssh => job.stage is Complete,
                }
            }
        }),
{
    let fresh = JobProgress::fresh(host, files);
    apply_concat(fresh, opening(host.transfer_method, sftp), successes(k));
    job_opens(host, files, sftp);
    files_follow_each_other(
        fresh.apply_all(opening(host.transfer_method, sftp)),
        transport_for(host.transfer_method, sftp),
        k,
    );
}

/// Whether a stage has to do with SFTP.
pub open spec fn uses_sftp(stage: JobStage) -> bool {
    match stage {
        JobStage::OpenSftp => true,
        JobStage::Sync { transport, .. } => transport is Sftp,
        JobStage::CloseSftp => true,
        _ => false,
    }
}

/// A job that asks for SSH has nothing to do with SFTP, whatever happens.
pub proof fn ssh_jobs_skip_sftp(host: SSHInfo, files: Seq<FilePair>, outcomes: Seq<bool>)
    requires
        host.transfer_method is Ssh,
    ensures
        !uses_sftp(JobProgress::fresh(host, files).apply_all(outcomes).stage),
        JobProgress::fresh(host, files).apply_all(outcomes).host == host,
    decreases outcomes.len(),
{
    if outcomes.len() > 0 {
        ssh_jobs_skip_sftp(host, files, outcomes.drop_last());
    }
}

/// A job that asks for SFTP tries for it as soon as it is connected.
pub proof fn sftp_jobs_try_sftp_first(host: SSHInfo, files: Seq<FilePair>)
    requires
        host.transfer_method is Sftp,
    ensures
        JobProgress::fresh(host, files).advance().stage is OpenSftp,
{
}

/// A job that has failed does nothing more, and no failure but that of opening an
/// SFTP session is overlooked.
pub proof fn failed_jobs_stop(job: JobProgress, outcomes: Seq<bool>)
    requires
        !(job.stage is OpenSftp),
    ensures
        job.fail().apply_all(outcomes).stage is Aborted,
    decreases outcomes.len(),
{
    if outcomes.len() > 0 {
        failed_jobs_stop(job, outcomes.drop_last());
    }
}

/// A job brings file after file up to date: the actions of a job on `host`, by what was
/// done before. First a session is opened. Then, if the host asks for SFTP, an SFTP
/// session is tried for. Once that is settled and `k` files are done, the next action is
/// to bring the destination of file `k` up to date from the source of file `k`, over
/// SFTP if it was asked for and could be had, and otherwise over SSH. After the last
/// file an SFTP session is closed, and then there is nothing left to do.
pub proof fn each_file_goes_from_its_source_to_its_destination(
    host: SSHInfo,
    files: Seq<FilePair>,
    sftp: bool,
    k: nat,
    action: JobAction,
)
    requires
        files.len() <= usize::MAX,
        k <= files.len(),
        is_job_action(
            action,
            JobProgress::fresh(host, files).apply_all(
                match host.transfer_method {
                    TransferMethod::Ssh => seq![true],
                    TransferMethod::Sftp => seq![true, sftp],
                } + Seq::new(k, |i: int| true),
            ),
        ),
    ensures
        ({
            let over_sftp = host.transfer_method is Sftp && sftp;
            if k < files.len() {
                &&& action matches JobAction::Sync { transport, src, dest }
                &&& src@ == files[k as int].src@
                &&& dest@ == files[k as int].dest@
                &&& transport is Sftp <==> over_sftp
            } else if over_sftp {
                action is CloseSftp
            } else {
                action is Complete
            }
        }),
{
    files_are_processed_in_order(host, files, sftp, k);
    assert(Seq::new(k, |i: int| true) == successes(k));
    job_keeps_its_files(host, files, opening(host.transfer_method, sftp) + successes(k));
}

/// The first actions of a job: a session is opened, then SFTP is tried for if the host
/// asks for it; and after an SFTP session was closed there is nothing left to do.
pub proof fn job_opens_and_closes_its_sessions(
    host: SSHInfo,
    files: Seq<FilePair>,
    first: JobAction,
    second: JobAction,
    last: JobAction,
)
    requires
        files.len() <= usize::MAX,
        is_job_action(first, JobProgress::fresh(host, files)),
        is_job_action(second, JobProgress::fresh(host, files).advance()),
        is_job_action(
            last,
            JobProgress::fresh(host, files).apply_all(
                seq![true, true] + Seq::new(files.len(), |i: int| true),
            ).advance(),
        ),
    ensures
        first is Connect,
        second is OpenSftp <==> host.transfer_method is Sftp,
        host.transfer_method is Sftp ==> last is Complete,
{
    if host.transfer_method is Sftp {
        files_are_processed_in_order(host, files, true, files.len());
        assert(Seq::new(files.len(), |i: int| true) == successes(files.len()));
    }
}

proof fn job_keeps_its_files(host: SSHInfo, files: Seq<FilePair>, outcomes: Seq<bool>)
    requires
        files.len() <= usize::MAX,
    ensures
        ({
            let job = JobProgress::fresh(host, files).apply_all(outcomes);
            &&& job.host == host
            &&& job.files == files
            &&& job.in_range()
        }),
    decreases outcomes.len(),
{
    if outcomes.len() > 0 {
        job_keeps_its_files(host, files, outcomes.drop_last());
    }
}

/// Whatever succeeds or fails, a job never brings anything up to date but the
/// destination of one of its files from the source of the same file; and a job whose
/// host asks for SSH neither tries for SFTP nor uses it.
pub proof fn job_touches_only_its_files(
    host: SSHInfo,
    files: Seq<FilePair>,
    outcomes: Seq<bool>,
    action: JobAction,
)
    requires
        files.len() <= usize::MAX,
        is_job_action(action, JobProgress::fresh(host, files).apply_all(outcomes)),
    ensures
        action matches JobAction::Sync { src, dest, .. } ==> exists|k: int|
            0 <= k < files.len() && src@ == (#[trigger] files[k]).src@ && dest@ == files[k].dest@,
        host.transfer_method is Ssh ==> match action {
            JobAction::OpenSftp => false,
            JobAction::CloseSftp => false,
            JobAction::Sync { transport, .. } => transport is Ssh,
            _ => true,
        },
{
    let job = JobProgress::fresh(host, files).apply_all(outcomes);
    job_keeps_its_files(host, files, outcomes);
    if host.transfer_method is Ssh {
        ssh_jobs_skip_sftp(host, files, outcomes);
    }
    if let JobStage::Sync { transport, file } = job.stage {
        assert(files[file as int].src@ == job.files[file as int].src@);
    }
}

/// What comes of a failure, by what was to be done. If SFTP was tried for, the job goes
/// on with its first file over SSH, or is done if it has none. A file that could not be
/// brought up to date is named, with both its paths, and the job is over; so it is after
/// any other failure, whatever is reported done afterwards.
pub proof fn failures_end_the_job_but_for_sftp(
    host: SSHInfo,
    files: Seq<FilePair>,
    outcomes: Seq<bool>,
    action: JobAction,
    setback: Setback,
    later: Seq<bool>,
    after: JobAction,
)
    requires
        files.len() <= usize::MAX,
        is_job_action(action, JobProgress::fresh(host, files).apply_all(outcomes)),
        is_setback(setback, JobProgress::fresh(host, files).apply_all(outcomes)),
        is_job_action(
            after,
            JobProgress::fresh(host, files).apply_all(outcomes).fail().apply_all(later),
        ),
    ensures
        match action {
            JobAction::OpenSftp => {
                &&& setback is FallBack
                &&& later.len() == 0 ==> if files.len() > 0 {
                    &&& after matches JobAction::Sync { transport, src, dest }
                    &&& transport is Ssh
                    &&& src@ == files[0].src@
                    &&& dest@ == files[0].dest@
                } else {
                    after is Complete
                }
            },
            JobAction::Sync { src, dest, .. } => {
                &&& setback matches Setback::AbortWith(text) && text@ == "failed syncing "@ + src@
                    + " -> "@ + dest@
                &&& after is Aborted
            },
            JobAction::CloseSftp => {
                &&& setback matches Setback::AbortWith(text) && text@
                    == "failed to close SFTP session"@
                &&& after is Aborted
            },
            _ => setback is Abort && after is Aborted,
        },
{
    let job = JobProgress::fresh(host, files).apply_all(outcomes);
    job_keeps_its_files(host, files, outcomes);
    if !(job.stage is OpenSftp) {
        failed_jobs_stop(job, later);
    }
}

} // verus!
