//! What the proxy mines on right now: the latest job of any provider, the
//! payout policy of the preferred pool, and the rule by which either is
//! replaced.
use crate::job_provider::{ProviderJob, ProviderJobView};
use crate::merge::{fresh_work, merge_job_pool, merged_template, WorkInfo, WorkInfoView};
use crate::pool_handler::{PoolUpdate, PoolUpdateView};
use crate::work::BlockTemplateView;
use vstd::prelude::*;

verus! {

/// How much work may wait for the miners' server before work is dropped.
pub const WORK_STREAM_CAPACITY: usize = 5;

/// What became of a job or a payout update that came in.
#[derive(Clone, Copy, Debug, PartialEq, Eq)]
pub enum WorkOutcome {
    /// It led to work, which waits for the miners' server.
    Issued,
    /// It led to work, but too much work waits already: the work is lost.
    TooFast,
    /// It led to no work.
    NoWork,
}

/// The state of the merger as a mathematical value.
pub struct JobInfoView {
    /// The script that the operator is paid to.
    pub payout_script: Seq<u8>,
    pub cur_job: Option<ProviderJobView>,
    /// The provider that the current job came from.
    pub cur_job_source: Option<usize>,
    pub cur_pool: Option<PoolUpdateView>,
    /// The pool that the current payout policy came from.
    pub cur_pool_source: Option<usize>,
    /// The rank of that pool; 0 is preferred most.
    pub cur_pool_priority: usize,
    /// The work that waits for the miners' server, oldest first.
    pub job_tx: Seq<WorkInfoView>,
}

impl JobInfoView {
    /// Whether `job` is newer than the current one.
    pub open spec fn supersedes(self, job: ProviderJobView) -> bool {
        self.cur_job matches Some(cur) ==> cur.template.template_id < job.template.template_id
    }

    /// Whether there is room for more work.
    pub open spec fn has_room(self) -> bool {
        self.job_tx.len() < WORK_STREAM_CAPACITY
    }

    /// The work that waits once `work` was issued: `work` joins the end
    /// where there is room, and is lost where there is none.
    pub open spec fn issue(self, work: WorkInfoView) -> Seq<WorkInfoView> {
        if self.has_room() {
            self.job_tx.push(work)
        } else {
            self.job_tx
        }
    }

    /// What becomes of something that leads to work, or does not.
    pub open spec fn outcome(self, work: Option<WorkInfoView>) -> WorkOutcome {
        match work {
            None => WorkOutcome::NoWork,
            Some(_) => if self.has_room() {
                WorkOutcome::Issued
            } else {
                WorkOutcome::TooFast
            },
        }
    }

    /// The work that a job of provider `source` leads to, if any: the job
    /// has to be newer than the current one, and to merge with the current
    /// payout policy.
    pub open spec fn work_for_job(self, job: ProviderJobView, source: usize) -> Option<
        WorkInfoView,
    > {
        if !self.supersedes(job) {
            None
        } else {
            match merged_template(self.payout_script, Some(job), self.cur_pool) {
                Some(template) => Some(
                    fresh_work(template, job, Some(source), self.cur_pool_source),
                ),
                None => None,
            }
        }
    }

    /// The state after a job of provider `source` came in: a job that leads
    /// to work becomes the current one, and the work is issued.
    pub open spec fn after_job(self, job: ProviderJobView, source: usize) -> JobInfoView {
        match self.work_for_job(job, source) {
            Some(work) => JobInfoView {
                cur_job: Some(job),
                cur_job_source: Some(source),
                job_tx: self.issue(work),
                ..self
            },
            None => self,
        }
    }

    /// Whether a payout update of a pool of rank `priority` is passed over:
    /// the pool of the current policy is connected and preferred more.
    pub open spec fn outranks(self, priority: usize, active_connected: bool) -> bool {
        self.cur_pool_source is Some && active_connected && self.cur_pool_priority < priority
    }

    /// The work that a payout update of pool `source` leads to, if any: the
    /// update must not be passed over, and has to merge with the current
    /// job.
    pub open spec fn work_for_update(
        self,
        update: PoolUpdateView,
        source: usize,
        priority: usize,
        active_connected: bool,
    ) -> Option<WorkInfoView> {
        if self.outranks(priority, active_connected) {
            None
        } else {
            match merged_template(self.payout_script, self.cur_job, Some(update)) {
                Some(template) => Some(
                    fresh_work(template, self.cur_job.unwrap(), self.cur_job_source, Some(source)),
                ),
                None => None,
            }
        }
    }

    /// The state after a payout update of pool `source` came in: an update
    /// that leads to work becomes the current policy and the work is
    /// issued; an update that comes while there is no job yet becomes the
    /// current policy too, unless it is passed over.
    pub open spec fn after_update(
        self,
        update: PoolUpdateView,
        source: usize,
        priority: usize,
        active_connected: bool,
    ) -> JobInfoView {
        let installed = JobInfoView {
            cur_pool: Some(update),
            cur_pool_source: Some(source),
            cur_pool_priority: priority,
            ..self
        };
        match self.work_for_update(update, source, priority, active_connected) {
            Some(work) => JobInfoView { job_tx: self.issue(work), ..installed },
            None => if !self.outranks(priority, active_connected) && self.cur_job is None {
                installed
            } else {
                self
            },
        }
    }
}

/// What the proxy mines on right now.
pub struct JobInfo {
    payout_script: Vec<u8>,
    cur_job: Option<ProviderJob>,
    cur_job_source: Option<usize>,
    cur_pool: Option<PoolUpdate>,
    cur_pool_source: Option<usize>,
    cur_pool_priority: usize,
    job_tx: Vec<WorkInfo>,
}

impl View for JobInfo {
    type V = JobInfoView;

    closed spec fn view(&self) -> JobInfoView {
        JobInfoView {
            payout_script: self.payout_script@,
            cur_job: self.cur_job.deep_view(),
            cur_job_source: self.cur_job_source,
            cur_pool: self.cur_pool.deep_view(),
            cur_pool_source: self.cur_pool_source,
            cur_pool_priority: self.cur_pool_priority,
            job_tx: self.job_tx.deep_view(),
        }
    }
}

impl JobInfo {
    /// A merger that pays the operator to `payout_script` and knows of no
    /// job and no pool yet.
    pub fn new(payout_script: Vec<u8>) -> (info: Self)
        ensures
            info@ == (JobInfoView {
                payout_script: payout_script@,
                cur_job: None,
                cur_job_source: None,
                cur_pool: None,
                cur_pool_source: None,
                cur_pool_priority: 0,
                job_tx: Seq::empty(),
            }),
    {
        let info = JobInfo {
            payout_script,
            cur_job: None,
            cur_job_source: None,
            cur_pool: None,
            cur_pool_source: None,
            cur_pool_priority: 0,
            job_tx: Vec::new(),
        };
        assert(info.job_tx.deep_view() =~= Seq::empty());
        info
    }

    /// The provider that the current job came from.
    pub fn job_source(&self) -> (source: Option<usize>)
        ensures
            source == self@.cur_job_source,
    {
        self.cur_job_source
    }

    /// The pool that the current payout policy came from.
    pub fn pool_source(&self) -> (source: Option<usize>)
        ensures
            source == self@.cur_pool_source,
    {
        self.cur_pool_source
    }

    /// The id of the template of the current job, if there is one.
    pub fn current_template_id(&self) -> (id: Option<u64>)
        ensures
            id == match self@.cur_job {
                Some(job) => Some(job.template.template_id),
                None => None,
            },
    {
        match &self.cur_job {
            Some(job) => Some(job.template.template_id),
            None => None,
        }
    }

    /// Queues `work` for the miners' server, if there is room.
    fn issue(&mut self, work: WorkInfo) -> (outcome: WorkOutcome)
        ensures
            outcome == old(self)@.outcome(Some(work@)),
            final(self)@ == (JobInfoView { job_tx: old(self)@.issue(work@), ..old(self)@ }),
    {
        if self.job_tx.len() < WORK_STREAM_CAPACITY {
            let ghost before = self.job_tx.deep_view();
            self.job_tx.push(work);
            assert(self.job_tx.deep_view() =~= before.push(work@));
            WorkOutcome::Issued
        } else {
            WorkOutcome::TooFast
        }
    }

    /// Hands out the work that waits for the miners' server, oldest first,
    /// and leaves none waiting.
    pub fn take_work(&mut self) -> (work: Vec<WorkInfo>)
        ensures
            work.deep_view() == old(self)@.job_tx,
            final(self)@ == (JobInfoView { job_tx: Seq::empty(), ..old(self)@ }),
    {
        let mut work: Vec<WorkInfo> = Vec::new();
        assert(work.deep_view() =~= Seq::empty());
        std::mem::swap(&mut work, &mut self.job_tx);
        work
    }

    /// Takes in a job of provider `source`. A job that is newer than the
    /// current one and merges with the current payout policy becomes the
    /// current job, and the work it leads to is issued; any other changes
    /// nothing.
    pub fn new_job(&mut self, job: ProviderJob, source: usize) -> (outcome: WorkOutcome)
        ensures
            final(self)@ == old(self)@.after_job(job@, source),
            outcome == old(self)@.outcome(old(self)@.work_for_job(job@, source)),
    {
        let newer: bool = match &self.cur_job {
            Some(cur) => cur.template.template_id < job.template.template_id,
            None => true,
        };
        if !newer {
            return WorkOutcome::NoWork;
        }
        let new_job: Option<ProviderJob> = Some(job);
        match merge_job_pool(
            self.payout_script.clone(),
            &new_job,
            Some(source),
            &self.cur_pool,
            self.cur_pool_source,
        ) {
            Some(work) => {
                let outcome: WorkOutcome = self.issue(work);
                self.cur_job = new_job;
                self.cur_job_source = Some(source);
                outcome
            },
            None => WorkOutcome::NoWork,
        }
    }

    /// Takes in a payout update of pool `source`, whose rank is `priority`.
    /// `active_connected` says whether the pool of the current policy is
    /// connected. An update of a pool that the current one outranks changes
    /// nothing. Any other update that merges with the current job becomes
    /// the current policy, and the work it leads to is issued; one that
    /// comes before any job is kept for the first job.
    pub fn new_pool_update(
        &mut self,
        update: PoolUpdate,
        source: usize,
        priority: usize,
        active_connected: bool,
    ) -> (outcome: WorkOutcome)
        ensures
            final(self)@ == old(self)@.after_update(update@, source, priority, active_connected),
            outcome == old(self)@.outcome(
                old(self)@.work_for_update(update@, source, priority, active_connected),
            ),
    {
        if self.cur_pool_source.is_some() && active_connected && self.cur_pool_priority < priority {
            return WorkOutcome::NoWork;
        }
        let new_pool: Option<PoolUpdate> = Some(update);
        match merge_job_pool(
            self.payout_script.clone(),
            &self.cur_job,
            self.cur_job_source,
            &new_pool,
            Some(source),
        ) {
            Some(work) => {
                let outcome: WorkOutcome = self.issue(work);
                self.cur_pool = new_pool;
                self.cur_pool_source = Some(source);
                self.cur_pool_priority = priority;
                outcome
            },
            None => {
                if self.cur_job.is_none() {
                    self.cur_pool = new_pool;
                    self.cur_pool_source = Some(source);
                    self.cur_pool_priority = priority;
                }
                WorkOutcome::NoWork
            },
        }
    }
}

/// Every job that becomes the current one has a template id greater than
/// that of the job it replaces, and leads to work.
pub proof fn lemma_current_job_replaced_by_newer(
    s: JobInfoView,
    job: ProviderJobView,
    source: usize,
)
    ensures
        s.after_job(job, source).cur_job != s.cur_job ==> {
            &&& s.after_job(job, source).cur_job == Some(job)
            &&& s.supersedes(job)
            &&& s.work_for_job(job, source) is Some
        },
{
}

/// No more work waits for the miners' server than there is room for.
pub proof fn lemma_work_stream_bounded(
    s: JobInfoView,
    job: ProviderJobView,
    update: PoolUpdateView,
    source: usize,
    priority: usize,
    active_connected: bool,
)
    requires
        s.job_tx.len() <= WORK_STREAM_CAPACITY,
    ensures
        s.after_job(job, source).job_tx.len() <= WORK_STREAM_CAPACITY,
        s.after_update(update, source, priority, active_connected).job_tx.len()
            <= WORK_STREAM_CAPACITY,
{
}

} // verus!
